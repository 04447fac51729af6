//! Translates decoded messages into the host's input events and keeps track
//! of the keys that are held down.
//!
//! Keys and buttons are carried as the content names them; turning them into
//! the host's own key and button values is a lookup that the caller owns. A
//! movement is carried as the bit patterns of its two numbers.

use crate::wire::{SystemEvent, WireError};
use bevy::ecs::entity::Entity;
use bevy::platform::collections::HashSet;
use bevy::platform::hash::FixedHasher;
use vstd::prelude::*;

verus! {

/// `bevy::ecs::entity::Entity`: the host's identity of a window. Its values
/// are carried through unread; two of them are equal exactly if they are
/// the same identity.
#[verifier::external_type_specification]
#[verifier::external_body]
pub struct ExEntity(Entity);

/// `bevy::platform::hash::FixedHasher`: the hasher that the host's hash sets
/// are built with.
#[verifier::external_type_specification]
#[verifier::external_body]
pub struct ExFixedHasher(FixedHasher);

/// `bevy::platform::collections::HashSet`: the host's hash set.
#[verifier::external_type_specification]
#[verifier::external_body]
#[verifier::reject_recursive_types(T)]
#[verifier::reject_recursive_types(S)]
pub struct ExHashSet<T, S>(HashSet<T, S>);

/// The keys that a `HashSet<String>` contains, each as the sequence of its
/// characters.
pub uninterp spec fn pressed_keys(set: HashSet<String>) -> Set<Seq<char>>;

/// `bevy::platform::collections::HashSet::new`: a set that contains no key.
#[verifier::external_body]
fn pressed_new() -> (set: HashSet<String>)
    ensures
        pressed_keys(set) == Set::<Seq<char>>::empty(),
{
    HashSet::new()
}

/// `bevy::platform::collections::HashSet::contains`: whether the set
/// contains `key`. The set is left as it is.
#[verifier::external_body]
fn pressed_contains(set: &HashSet<String>, key: &str) -> (held: bool)
    ensures
        held == pressed_keys(*set).contains(key@),
{
    set.contains(key)
}

/// `bevy::platform::collections::HashSet::insert`: adds `key` to the set and
/// returns whether it was absent before.
#[verifier::external_body]
fn pressed_insert(set: &mut HashSet<String>, key: String) -> (fresh: bool)
    ensures
        pressed_keys(*final(set)) == pressed_keys(*old(set)).insert(key@),
        fresh == !pressed_keys(*old(set)).contains(key@),
{
    set.insert(key)
}

/// `bevy::platform::collections::HashSet::remove`: takes `key` out of the
/// set and returns whether it was present before.
#[verifier::external_body]
fn pressed_remove(set: &mut HashSet<String>, key: &str) -> (held: bool)
    ensures
        pressed_keys(*final(set)) == pressed_keys(*old(set)).remove(key@),
        held == pressed_keys(*old(set)).contains(key@),
{
    set.remove(key)
}

/// Whether a key or button went down or up.
#[derive(Debug, Clone, Copy, PartialEq, Eq, Structural)]
pub enum ButtonState {
    /// It went down.
    Pressed,
    /// It went up.
    Released,
}

/// A decoded payload.
#[derive(Debug)]
pub enum Payload {
    /// The payload of a key event.
    Keyboard {
        /// The logical key, as the content names it.
        key: String,
        /// The physical key, as the content names it.
        code: String,
    },
    /// The payload of a mouse button event.
    MouseButton {
        /// The index of the button.
        button: u16,
    },
    /// The payload of a mouse movement.
    MouseMotion {
        /// The bit pattern of the horizontal movement.
        rel_x_bits: u32,
        /// The bit pattern of the vertical movement.
        rel_y_bits: u32,
    },
}

/// A payload, with each string as the sequence of its characters.
pub enum PayloadView {
    Keyboard { key: Seq<char>, code: Seq<char> },
    MouseButton { button: u16 },
    MouseMotion { rel_x_bits: u32, rel_y_bits: u32 },
}

impl View for Payload {
    type V = PayloadView;

    open spec fn view(&self) -> PayloadView {
        match *self {
            Payload::Keyboard { key, code } => PayloadView::Keyboard { key: key@, code: code@ },
            Payload::MouseButton { button } => PayloadView::MouseButton { button },
            Payload::MouseMotion { rel_x_bits, rel_y_bits } => PayloadView::MouseMotion {
                rel_x_bits,
                rel_y_bits,
            },
        }
    }
}

impl Payload {
    /// The shape of this payload.
    pub fn shape(&self) -> (shape: crate::wire::Shape)
        ensures
            shape == payload_shape(self@),
    {
        match self {
            Payload::Keyboard { .. } => crate::wire::Shape::Keyboard,
            Payload::MouseButton { .. } => crate::wire::Shape::MouseButton,
            Payload::MouseMotion { .. } => crate::wire::Shape::MouseMotion,
        }
    }
}

/// The shape of a payload.
pub open spec fn payload_shape(payload: PayloadView) -> crate::wire::Shape {
    match payload {
        PayloadView::Keyboard { .. } => crate::wire::Shape::Keyboard,
        PayloadView::MouseButton { .. } => crate::wire::Shape::MouseButton,
        PayloadView::MouseMotion { .. } => crate::wire::Shape::MouseMotion,
    }
}

/// An input event for the host.
#[derive(Debug)]
pub enum InputEvent {
    /// A key was pressed or released.
    Keyboard {
        /// The window that the event belongs to.
        window: Entity,
        /// Whether the key went down or up.
        state: ButtonState,
        /// Whether the key was already held when it went down.
        repeat: bool,
        /// The logical key, as the content names it.
        key: String,
        /// The physical key, as the content names it.
        code: String,
    },
    /// A mouse button was pressed or released.
    MouseButton {
        /// The window that the event belongs to.
        window: Entity,
        /// Whether the button went down or up.
        state: ButtonState,
        /// The index of the button.
        button: u16,
    },
    /// The mouse moved.
    MouseMotion {
        /// The bit pattern of the horizontal movement.
        delta_x_bits: u32,
        /// The bit pattern of the vertical movement.
        delta_y_bits: u32,
    },
}

/// An input event, with each string as the sequence of its characters.
pub enum InputEventView {
    Keyboard { window: Entity, state: ButtonState, repeat: bool, key: Seq<char>, code: Seq<char> },
    MouseButton { window: Entity, state: ButtonState, button: u16 },
    MouseMotion { delta_x_bits: u32, delta_y_bits: u32 },
}

impl View for InputEvent {
    type V = InputEventView;

    open spec fn view(&self) -> InputEventView {
        match *self {
            InputEvent::Keyboard { window, state, repeat, key, code } => InputEventView::Keyboard {
                window,
                state,
                repeat,
                key: key@,
                code: code@,
            },
            InputEvent::MouseButton { window, state, button } => InputEventView::MouseButton {
                window,
                state,
                button,
            },
            InputEvent::MouseMotion { delta_x_bits, delta_y_bits } => InputEventView::MouseMotion {
                delta_x_bits,
                delta_y_bits,
            },
        }
    }
}

/// Whether a message reports that `key` went down.
pub open spec fn presses(event: SystemEvent, payload: Option<PayloadView>, key: Seq<char>) -> bool {
    &&& event == SystemEvent::KeyDown
    &&& payload matches Some(PayloadView::Keyboard { key: k, .. })
    &&& k == key
}

/// Whether a message reports that `key` went up.
pub open spec fn releases(event: SystemEvent, payload: Option<PayloadView>, key: Seq<char>) -> bool {
    &&& event == SystemEvent::KeyUp
    &&& payload matches Some(PayloadView::Keyboard { key: k, .. })
    &&& k == key
}

/// What one message translates to while the keys in `held` are down: the
/// event for the host, or `BadPayload` where the payload is missing or has
/// another shape than the event asks for.
pub open spec fn translated(
    held: Set<Seq<char>>,
    window: Entity,
    event: SystemEvent,
    payload: Option<PayloadView>,
) -> Result<InputEventView, WireError> {
    match (event, payload) {
        (SystemEvent::KeyDown, Some(PayloadView::Keyboard { key, code })) => Ok(
            InputEventView::Keyboard {
                window,
                state: ButtonState::Pressed,
                repeat: held.contains(key),
                key,
                code,
            },
        ),
        (SystemEvent::KeyUp, Some(PayloadView::Keyboard { key, code })) => Ok(
            InputEventView::Keyboard {
                window,
                state: ButtonState::Released,
                repeat: false,
                key,
                code,
            },
        ),
        (SystemEvent::MouseDown, Some(PayloadView::MouseButton { button })) => Ok(
            InputEventView::MouseButton { window, state: ButtonState::Pressed, button },
        ),
        (SystemEvent::MouseUp, Some(PayloadView::MouseButton { button })) => Ok(
            InputEventView::MouseButton { window, state: ButtonState::Released, button },
        ),
        (SystemEvent::MouseMove, Some(PayloadView::MouseMotion { rel_x_bits, rel_y_bits })) => Ok(
            InputEventView::MouseMotion { delta_x_bits: rel_x_bits, delta_y_bits: rel_y_bits },
        ),
        _ => Err(WireError::BadPayload),
    }
}

/// The keys that are down after one message, where those in `held` were
/// down before it: a key that went down is added, one that went up is taken
/// out, and any other message changes nothing.
pub open spec fn held_after(
    held: Set<Seq<char>>,
    event: SystemEvent,
    payload: Option<PayloadView>,
) -> Set<Seq<char>> {
    match (event, payload) {
        (SystemEvent::KeyDown, Some(PayloadView::Keyboard { key, .. })) => held.insert(key),
        (SystemEvent::KeyUp, Some(PayloadView::Keyboard { key, .. })) => held.remove(key),
        _ => held,
    }
}

/// The payload that was decoded, if any, as its view.
pub open spec fn decoded_view(payload: Option<Payload>) -> Option<PayloadView> {
    match payload {
        Some(p) => Some(p@),
        None => None,
    }
}

/// The result of a translation, with the event as its view.
pub open spec fn outcome_view(outcome: Result<InputEvent, WireError>) -> Result<
    InputEventView,
    WireError,
> {
    match outcome {
        Ok(event) => Ok(event@),
        Err(error) => Err(error),
    }
}

/// Translates messages into input events. It remembers which logical keys
/// are held down, over all windows.
pub struct Translator {
    pressed: HashSet<String>,
}

impl Translator {
    /// The logical keys that are held down.
    pub closed spec fn held(&self) -> Set<Seq<char>> {
        pressed_keys(self.pressed)
    }

    /// A translator for which no key is held down.
    pub fn new() -> (translator: Self)
        ensures
            translator.held() == Set::<Seq<char>>::empty(),
    {
        Translator { pressed: pressed_new() }
    }

    /// Whether the logical key `key` is held down.
    pub fn is_held(&self, key: &str) -> (held: bool)
        ensures
            held == self.held().contains(key@),
    {
        pressed_contains(&self.pressed, key)
    }

    /// Translates one message of `window`: the event it framed to and its
    /// decoded payload, `None` where decoding failed.
    ///
    /// A key that goes down is a repeat if it was held before, and is held
    /// from then on; a key that goes up is held no longer. A payload that is
    /// missing or has the wrong shape is an error and changes nothing.
    pub fn translate(&mut self, window: Entity, event: SystemEvent, payload: Option<Payload>) -> (outcome:
        Result<InputEvent, WireError>)
        ensures
            outcome_view(outcome) == translated(
                old(self).held(),
                window,
                event,
                decoded_view(payload),
            ),
            final(self).held() == held_after(old(self).held(), event, decoded_view(payload)),
    {
        match (event, payload) {
            (SystemEvent::KeyDown, Some(Payload::Keyboard { key, code })) => {
                let repeat = pressed_contains(&self.pressed, key.as_str());
                pressed_insert(&mut self.pressed, key.clone());
                Ok(InputEvent::Keyboard { window, state: ButtonState::Pressed, repeat, key, code })
            },
            (SystemEvent::KeyUp, Some(Payload::Keyboard { key, code })) => {
                pressed_remove(&mut self.pressed, key.as_str());
                Ok(
                    InputEvent::Keyboard {
                        window,
                        state: ButtonState::Released,
                        repeat: false,
                        key,
                        code,
                    },
                )
            },
            (SystemEvent::MouseDown, Some(Payload::MouseButton { button })) => Ok(
                InputEvent::MouseButton { window, state: ButtonState::Pressed, button },
            ),
            (SystemEvent::MouseUp, Some(Payload::MouseButton { button })) => Ok(
                InputEvent::MouseButton { window, state: ButtonState::Released, button },
            ),
            (SystemEvent::MouseMove, Some(Payload::MouseMotion { rel_x_bits, rel_y_bits })) => Ok(
                InputEvent::MouseMotion { delta_x_bits: rel_x_bits, delta_y_bits: rel_y_bits },
            ),
            _ => Err(WireError::BadPayload),
        }
    }
}

impl Default for Translator {
    fn default() -> (translator: Self)
        ensures
            translator.held() == Set::<Seq<char>>::empty(),
    {
        Translator::new()
    }
}

/// One message of a drained queue after framing and decoding: the reason it
/// was dropped, or its event and its payload (`None` where decoding failed).
pub type Decoded = Result<(SystemEvent, Option<Payload>), WireError>;

/// A decoded message, with the payload as its view.
pub type DecodedView = Result<(SystemEvent, Option<PayloadView>), WireError>;

/// The view of one decoded message.
pub open spec fn message_view(message: Decoded) -> DecodedView {
    match message {
        Ok((event, payload)) => Ok((event, decoded_view(payload))),
        Err(error) => Err(error),
    }
}

/// The views of a run of decoded messages.
pub open spec fn message_views(messages: Seq<Decoded>) -> Seq<DecodedView> {
    messages.map_values(|message: Decoded| message_view(message))
}

/// What one decoded message results in while the keys in `held` are down: a
/// message that was dropped keeps its error, any other is translated.
pub open spec fn outcome(held: Set<Seq<char>>, window: Entity, message: DecodedView) -> Result<
    InputEventView,
    WireError,
> {
    match message {
        Ok((event, payload)) => translated(held, window, event, payload),
        Err(error) => Err(error),
    }
}

/// The keys that are down after one decoded message.
pub open spec fn held_after_message(held: Set<Seq<char>>, message: DecodedView) -> Set<Seq<char>> {
    match message {
        Ok((event, payload)) => held_after(held, event, payload),
        Err(_) => held,
    }
}

/// The keys that are down after a run of decoded messages, in order.
pub open spec fn held_through(held: Set<Seq<char>>, messages: Seq<DecodedView>) -> Set<Seq<char>>
    decreases messages.len(),
{
    if messages.len() == 0 {
        held
    } else {
        held_after_message(held_through(held, messages.drop_last()), messages.last())
    }
}

impl Translator {
    /// Translates the messages of one drained queue of `window`, in order.
    /// Each message has its own outcome, at its own position; a message that
    /// fails does not stop those after it.
    pub fn translate_all(&mut self, window: Entity, messages: Vec<Decoded>) -> (outcomes: Vec<
        Result<InputEvent, WireError>,
    >)
        ensures
            outcomes.len() == messages.len(),
            forall|i: int|
                0 <= i < messages.len() ==> outcome_view(#[trigger] outcomes[i]) == outcome(
                    held_through(old(self).held(), message_views(messages@).take(i)),
                    window,
                    message_views(messages@)[i],
                ),
            final(self).held() == held_through(old(self).held(), message_views(messages@)),
    {
        let ghost views = message_views(messages@);
        let ghost start = self.held();
        let mut outcomes: Vec<Result<InputEvent, WireError>> = Vec::new();
        proof {
            assert(views.take(0) =~= Seq::<DecodedView>::empty());
        }
        for message in it: messages
            invariant
                views == message_views(it.seq()),
                outcomes.len() == it.index(),
                self.held() == held_through(start, views.take(it.index() as int)),
                forall|i: int|
                    0 <= i < it.index() ==> outcome_view(#[trigger] outcomes[i]) == outcome(
                        held_through(start, views.take(i)),
                        window,
                        views[i],
                    ),
        {
            let ghost at = it.index() as int;
            let ghost held = self.held();
            proof {
                assert(views.take(at + 1).drop_last() =~= views.take(at));
                assert(views.take(at + 1).last() == views[at]);
                assert(views[at] == message_view(message));
            }
            let outcome = match message {
                Ok((event, payload)) => self.translate(window, event, payload),
                Err(error) => Err(error),
            };
            outcomes.push(outcome);
        }
        proof {
            assert(views.take(views.len() as int) =~= views);
        }
        outcomes
    }
}

/// Whether a decoded message reports that `key` went down.
pub open spec fn message_presses(message: DecodedView, key: Seq<char>) -> bool {
    message matches Ok((event, payload)) && presses(event, payload, key)
}

/// Whether a decoded message reports that `key` went up.
pub open spec fn message_releases(message: DecodedView, key: Seq<char>) -> bool {
    message matches Ok((event, payload)) && releases(event, payload, key)
}

/// Whether none of the messages from `from` up to, not including, `to`
/// reports that `key` went up.
pub open spec fn unreleased(messages: Seq<DecodedView>, key: Seq<char>, from: int, to: int) -> bool {
    forall|m: int| from <= m < to ==> !message_releases(#[trigger] messages[m], key)
}

/// Whether message `at` reports that `key` went down and none of those after
/// it, before `to`, that it went up.
pub open spec fn pressed_since(messages: Seq<DecodedView>, key: Seq<char>, at: int, to: int) -> bool {
    message_presses(messages[at], key) && unreleased(messages, key, at + 1, to)
}

/// Whether `key` is down after the messages before `to`, where the keys in
/// `held` were down at the start: it went down and has not gone up since, or
/// it was down at the start and has not gone up at all.
pub open spec fn down_before(
    held: Set<Seq<char>>,
    messages: Seq<DecodedView>,
    key: Seq<char>,
    to: int,
) -> bool {
    ||| exists|at: int| 0 <= at < to && #[trigger] pressed_since(messages, key, at, to)
    ||| held.contains(key) && unreleased(messages, key, 0, to)
}

/// A key is held after a run of messages exactly if it is down in the sense
/// of `down_before`.
pub proof fn lemma_held_through(held: Set<Seq<char>>, messages: Seq<DecodedView>, key: Seq<char>)
    ensures
        held_through(held, messages).contains(key) <==> down_before(
            held,
            messages,
            key,
            messages.len() as int,
        ),
    decreases messages.len(),
{
    let len = messages.len() as int;
    if len > 0 {
        let front = messages.drop_last();
        let last = messages.last();
        lemma_held_through(held, front, key);
        assert forall|m: int| 0 <= m < len - 1 implies front[m] == messages[m] by {}
        let before = held_through(held, front);
        if message_presses(last, key) {
            assert(held_through(held, messages).contains(key));
            assert(pressed_since(messages, key, len - 1, len));
        } else if message_releases(last, key) {
            assert(!held_through(held, messages).contains(key));
            assert(message_releases(messages[len - 1], key));
            assert forall|at: int| 0 <= at < len implies !#[trigger] pressed_since(
                messages,
                key,
                at,
                len,
            ) by {
                if at < len - 1 {
                    assert(!unreleased(messages, key, at + 1, len));
                }
            }
            assert(!unreleased(messages, key, 0, len));
        } else {
            assert(held_through(held, messages).contains(key) == before.contains(key));
            if down_before(held, front, key, len - 1) {
                if held.contains(key) && unreleased(front, key, 0, len - 1) {
                    assert(unreleased(messages, key, 0, len));
                } else {
                    let at = choose|at: int|
                        0 <= at < len - 1 && #[trigger] pressed_since(front, key, at, len - 1);
                    assert(unreleased(messages, key, at + 1, len)) by {
                        assert forall|m: int| at + 1 <= m < len implies !message_releases(
                            #[trigger] messages[m],
                            key,
                        ) by {
                            if m < len - 1 {
                                assert(!message_releases(front[m], key));
                            }
                        }
                    }
                    assert(pressed_since(messages, key, at, len));
                }
            }
            if down_before(held, messages, key, len) {
                if held.contains(key) && unreleased(messages, key, 0, len) {
                    assert(unreleased(front, key, 0, len - 1)) by {
                        assert forall|m: int| 0 <= m < len - 1 implies !message_releases(
                            #[trigger] front[m],
                            key,
                        ) by {
                            assert(!message_releases(messages[m], key));
                        }
                    }
                } else {
                    let at = choose|at: int|
                        0 <= at < len && #[trigger] pressed_since(messages, key, at, len);
                    assert(at < len - 1);
                    assert(unreleased(front, key, at + 1, len - 1)) by {
                        assert forall|m: int| at + 1 <= m < len - 1 implies !message_releases(
                            #[trigger] front[m],
                            key,
                        ) by {
                            assert(!message_releases(messages[m], key));
                        }
                    }
                    assert(pressed_since(front, key, at, len - 1));
                }
            }
        }
    }
}

/// The repeat flag of a key that goes down. Where message `at` of a run
/// that started with no key held reports that `key` went down, it
/// translates to a press of `key`, and that press is a repeat exactly if an
/// earlier message reported that `key` went down and none between the two
/// that it went up. So the first press after a release, or since the start,
/// is no repeat, and every press after it is one until the next release.
pub proof fn lemma_repeat_flag(messages: Seq<DecodedView>, window: Entity, at: int, key: Seq<char>)
    requires
        0 <= at < messages.len(),
        message_presses(messages[at], key),
    ensures
        outcome(
            held_through(Set::empty(), messages.take(at)),
            window,
            messages[at],
        ) matches Ok(InputEventView::Keyboard { window: w, state, repeat, key: k, .. }) && w
            == window && state == ButtonState::Pressed && k == key && (repeat <==> exists|
            earlier: int,
        |
            0 <= earlier < at && #[trigger] pressed_since(messages, key, earlier, at)),
{
    let front = messages.take(at);
    lemma_held_through(Set::empty(), front, key);
    assert forall|earlier: int| 0 <= earlier < at implies (#[trigger] pressed_since(
        front,
        key,
        earlier,
        at,
    ) <==> pressed_since(messages, key, earlier, at)) by {
        assert(front[earlier] == messages[earlier]);
        if unreleased(front, key, earlier + 1, at) {
            assert forall|m: int| earlier + 1 <= m < at implies !message_releases(
                #[trigger] messages[m],
                key,
            ) by {
                assert(!message_releases(front[m], key));
            }
        }
        if unreleased(messages, key, earlier + 1, at) {
            assert forall|m: int| earlier + 1 <= m < at implies !message_releases(
                #[trigger] front[m],
                key,
            ) by {
                assert(!message_releases(messages[m], key));
            }
        }
    }
    if exists|earlier: int| 0 <= earlier < at && #[trigger] pressed_since(messages, key, earlier, at) {
        let earlier = choose|earlier: int|
            0 <= earlier < at && #[trigger] pressed_since(messages, key, earlier, at);
        assert(pressed_since(front, key, earlier, at));
    }
}


} // verus!
