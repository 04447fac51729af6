//! A buffer of messages that two threads share: one appends to it, the other
//! empties it once per cycle.

use std::sync::{Arc, Mutex, MutexGuard, PoisonError};
use vstd::prelude::*;

verus! {

/// `std::sync::Mutex`: the standard library's mutual-exclusion lock.
#[verifier::external_type_specification]
#[verifier::external_body]
#[verifier::reject_recursive_types(T)]
pub struct ExMutex<T: ?Sized>(Mutex<T>);

/// `std::sync::MutexGuard`: the exclusive access that a held lock gives.
#[verifier::external_type_specification]
#[verifier::external_body]
#[verifier::reject_recursive_types(T)]
pub struct ExMutexGuard<'a, T: ?Sized + 'a>(MutexGuard<'a, T>);

/// `std::sync::Mutex::new`: a lock around `buffer`.
#[verifier::external_body]
fn guarded<E>(buffer: Vec<E>) -> (lock: Mutex<Vec<E>>) {
    Mutex::new(buffer)
}

/// `std::sync::Arc::clone`: another owner of the same lock.
#[verifier::external_body]
fn shared<E>(lock: &Arc<Mutex<Vec<E>>>) -> (other: Arc<Mutex<Vec<E>>>)
    ensures
        other == *lock,
{
    Arc::clone(lock)
}

/// `std::sync::PoisonError`: what a lock gives in place of the access where
/// a thread has panicked while it held the lock.
#[verifier::external_type_specification]
#[verifier::external_body]
#[verifier::reject_recursive_types(T)]
pub struct ExPoisonError<T>(PoisonError<T>);

/// `std::sync::Mutex::lock`: waits for the lock and holds it. What the
/// buffer holds then depends on the other owners.
#[verifier::external_body]
fn acquire<'a, E>(lock: &'a Mutex<Vec<E>>) -> (held: Result<
    MutexGuard<'a, Vec<E>>,
    PoisonError<MutexGuard<'a, Vec<E>>>,
>) {
    lock.lock()
}

/// `std::sync::PoisonError::into_inner`: the access that the error holds.
#[verifier::external_body]
fn recovered<'a, E>(poisoned: PoisonError<MutexGuard<'a, Vec<E>>>) -> (guard: MutexGuard<
    'a,
    Vec<E>,
>) {
    poisoned.into_inner()
}

/// `DerefMut::deref_mut` of `std::sync::MutexGuard`: the buffer behind a
/// held lock. What it holds depends on the other owners.
#[verifier::external_body]
fn buffer_of<'a, 'b, E>(guard: &'a mut MutexGuard<'b, Vec<E>>) -> (buffer: &'a mut Vec<E>) {
    &mut **guard
}

/// Takes every item out of `buffer`, oldest first, and leaves it empty.
pub fn take_all<E>(buffer: &mut Vec<E>) -> (items: Vec<E>)
    ensures
        items@ == old(buffer)@,
        final(buffer)@ == Seq::<E>::empty(),
{
    let mut items: Vec<E> = Vec::new();
    std::mem::swap(buffer, &mut items);
    items
}

/// A buffer that its owners share. Each of them sees the items in the order
/// in which they were appended.
#[verifier::reject_recursive_types(E)]
pub struct Queue<E>(Arc<Mutex<Vec<E>>>);

impl<E> Queue<E> {
    /// An empty queue.
    pub fn new() -> (queue: Self) {
        Queue(Arc::new(guarded(Vec::new())))
    }

    /// Waits for the lock and holds it. The buffer is reached through the
    /// result; the lock is released when the result is dropped. Where a
    /// thread has panicked while it held the lock, the buffer is taken as
    /// that thread left it. A thread
    /// that holds the result must not ask for the lock again before it has
    /// dropped it.
    pub fn lock(&self) -> (guard: MutexGuard<'_, Vec<E>>) {
        match acquire(&self.0) {
            Ok(guard) => guard,
            Err(poisoned) => recovered(poisoned),
        }
    }

    /// Appends `item` to the tail, while holding the lock.
    pub fn push(&self, item: E) {
        let mut guard = self.lock();
        let buffer = buffer_of(&mut guard);
        buffer.push(item);
    }

    /// Takes out and returns all buffered items, oldest first, while holding
    /// the lock. The queue is empty when the lock is released.
    pub fn drain(&self) -> (items: Vec<E>) {
        let mut guard = self.lock();
        let buffer = buffer_of(&mut guard);
        take_all(buffer)
    }
}

impl<E> Clone for Queue<E> {
    /// Another owner of the same buffer.
    fn clone(&self) -> (other: Self)
        ensures
            other == *self,
    {
        Queue(shared(&self.0))
    }
}

impl<E> Default for Queue<E> {
    fn default() -> (queue: Self) {
        Queue::new()
    }
}

} // verus!
