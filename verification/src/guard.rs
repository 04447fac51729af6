//! The rules that the bootstrap script enforces inside the content, as the
//! host states them: who may post a system event, who may read or write a
//! protected value, and when the context menu is suppressed.
//!
//! The script carries these rules out in the content's own language. The
//! functions here state the same rules over plain values, so that they can
//! be checked against the translator without a browser engine.

use crate::wire::{
    delimiter_at, framed, is_system_name, lemma_delimiter_at, lemma_event_named,
    lemma_first_delimiter, lemma_names_hold_no_delimiter, split, split_message, SystemEvent,
    WireError, DELIMITER,
};
use crate::config::ContextMenu;
use crate::script::{key_name, menu_names};
use bevy::input::keyboard::KeyCode;
use vstd::prelude::*;
use vstd::std_specs::iter::IteratorSpec;
use vstd::string::*;

verus! {

/// Whether `c` is a lower-case hexadecimal digit.
pub open spec fn is_hex_digit(c: char) -> bool {
    ('0' <= c && c <= '9') || ('a' <= c && c <= 'f')
}

/// Whether `text` has the form of a token: 32 lower-case hexadecimal digits
/// in five groups of 8, 4, 4, 4 and 12, with a hyphen between the groups.
pub open spec fn is_token(text: Seq<char>) -> bool {
    &&& text.len() == 36
    &&& forall|i: int|
        0 <= i < 36 ==> if i == 8 || i == 13 || i == 18 || i == 23 {
            #[trigger] text[i] == '-'
        } else {
            is_hex_digit(text[i])
        }
}

/// A token holds no quote, no backslash and no line break: between single
/// quotes it is one string literal of the script.
pub proof fn lemma_token_is_plain(text: Seq<char>)
    requires
        is_token(text),
    ensures
        !text.contains('\''),
        !text.contains('\\'),
        !text.contains('\n'),
        !text.contains(DELIMITER),
{
    assert forall|i: int| 0 <= i < text.len() implies text[i] == '-' || is_hex_digit(text[i]) by {
        if i == 8 || i == 13 || i == 18 || i == 23 {
            assert(text[i] == '-');
        } else {
            assert(is_hex_digit(text[i]));
        }
    }
}

/// `uuid::Uuid::new_v4` and the `Display` of its result: a random 128-bit
/// identifier in its hyphenated lower-case form. Which identifier it is
/// differs from call to call. The call fails only where the operating
/// system cannot give random bytes.
#[verifier::external_body]
pub(crate) fn fresh_token() -> (token: String)
    ensures
        is_token(token@),
{
    uuid::Uuid::new_v4().to_string()
}

/// Whether two strings hold the same characters. Each is read once.
pub fn same_text(a: &str, b: &str) -> (same: bool)
    ensures
        same == (a@ == b@),
{
    broadcast use vstd::string::group_string_axioms;

    let mut left = a.chars();
    let mut right = b.chars();
    let ghost mut at: int = 0;
    loop
        invariant
            0 <= at <= a@.len(),
            at <= b@.len(),
            left.remaining() == a@.skip(at),
            right.remaining() == b@.skip(at),
            forall|i: int| 0 <= i < at ==> a@[i] == b@[i],
        decreases a@.len() - at,
    {
        let ghost left_before = left.remaining();
        let ghost right_before = right.remaining();
        match (left.next(), right.next()) {
            (None, None) => {
                proof {
                    assert(a@ =~= b@);
                }
                return true;
            },
            (Some(x), Some(y)) => {
                proof {
                    assert(x == a@[at] && y == b@[at]);
                    assert(left_before.drop_first() =~= a@.skip(at + 1));
                    assert(right_before.drop_first() =~= b@.skip(at + 1));
                }
                if x != y {
                    return false;
                }
                proof {
                    at = at + 1;
                }
            },
            _ => {
                proof {
                    assert(a@.len() != b@.len());
                }
                return false;
            },
        }
    }
}

/// A value that is read and written only by presenting the token it was
/// made with.
pub struct Protect<T> {
    value: T,
    token: String,
}

impl<T> Protect<T> {
    /// The protected value.
    pub closed spec fn value(&self) -> T {
        self.value
    }

    /// The token that opens the guard.
    pub closed spec fn token(&self) -> Seq<char> {
        self.token@
    }

    /// Puts `value` behind a guard that `token` opens.
    pub fn new(value: T, token: &str) -> (guard: Self)
        ensures
            guard.value() == value,
            guard.token() == token@,
    {
        Protect { value, token: String::from_str(token) }
    }

    /// Whether `token` opens the guard.
    pub fn check(&self, token: &str) -> (open: bool)
        ensures
            open == (token@ == self.token()),
    {
        same_text(token, self.token.as_str())
    }

    /// The protected value, for the right token; nothing for any other.
    pub fn get(&self, token: &str) -> (value: Option<&T>)
        ensures
            value == if token@ == self.token() {
                Some(&self.value())
            } else {
                None
            },
    {
        if self.check(token) {
            Some(&self.value)
        } else {
            None
        }
    }

    /// Replaces the protected value, for the right token; for any other the
    /// guard is left as it was. Returns whether the value was replaced.
    pub fn set(&mut self, token: &str, value: T) -> (written: bool)
        ensures
            written == (token@ == old(self).token()),
            final(self).token() == old(self).token(),
            final(self).value() == if written {
                value
            } else {
                old(self).value()
            },
    {
        if self.check(token) {
            self.value = value;
            true
        } else {
            false
        }
    }
}

/// The message that `post` hands to the host, if any. A system event is
/// posted only with the token; a name that holds the delimiter is never
/// posted. The message is the name, the delimiter and the data.
pub open spec fn posted(
    name: Seq<char>,
    data: Seq<char>,
    presented: Option<Seq<char>>,
    token: Seq<char>,
) -> Option<Seq<char>> {
    if is_system_name(name) && presented != Some(token) {
        None
    } else if name.contains(DELIMITER) {
        None
    } else {
        Some(name + seq![DELIMITER] + data)
    }
}

/// The token that was presented, if any, as its view.
pub open spec fn presented_view(presented: Option<&str>) -> Option<Seq<char>> {
    match presented {
        Some(token) => Some(token@),
        None => None,
    }
}

/// The message that was posted, if any, as its view.
pub open spec fn posted_view(message: Option<String>) -> Option<Seq<char>> {
    match message {
        Some(text) => Some(text@),
        None => None,
    }
}

/// The posting entry point of a webview whose token is `token`: posts the
/// event `name` with the serialized `data`, on behalf of a caller that
/// presents `presented`.
pub fn post(name: &str, data: &str, presented: Option<&str>, token: &str) -> (message: Option<String>)
    ensures
        posted_view(message) == posted(name@, data@, presented_view(presented), token@),
{
    let permitted = match presented {
        Some(p) => same_text(p, token),
        None => false,
    };
    if SystemEvent::from_name(name).is_some() && !permitted {
        return None;
    }
    if split_message(name).is_some() {
        return None;
    }
    let mut message = String::from_str(name);
    message.append("\u{1}");
    message.append(data);
    proof {
        reveal_strlit("\u{1}");
        assert("\u{1}"@ =~= seq![DELIMITER]);
    }
    Some(message)
}

/// Whether the context menu is suppressed on a gesture, for a policy that
/// resolved to `menu` (the activation key by its name) while the keys in
/// `pressing` are held: it is, unless the menu is enabled and its activation
/// key, if it asks for one, is held.
pub open spec fn menu_suppressed(menu: Option<Option<Seq<char>>>, pressing: Set<Seq<char>>) -> bool {
    match menu {
        None => true,
        Some(None) => false,
        Some(Some(key)) => !pressing.contains(key),
    }
}

/// Whether one of `keys` is `key`.
pub fn holds_key(keys: &Vec<String>, key: &str) -> (held: bool)
    ensures
        held == pressing_set(keys@).contains(key@),
{
    let mut at: usize = 0;
    while at < keys.len()
        invariant
            at <= keys.len(),
            forall|i: int| 0 <= i < at ==> keys@[i]@ != key@,
        decreases keys.len() - at,
    {
        if same_text(keys[at].as_str(), key) {
            return true;
        }
        at += 1;
    }
    false
}

/// The set of the keys in `keys`.
pub open spec fn pressing_set(keys: Seq<String>) -> Set<Seq<char>> {
    Set::new(|key: Seq<char>| exists|i: int| 0 <= i < keys.len() && #[trigger] keys[i]@ == key)
}

/// The decision on a context-menu gesture: whether the menu is suppressed,
/// for a policy that resolved to `menu` while the keys in `pressing` are
/// held.
pub fn suppresses_menu(menu: Option<Option<&str>>, pressing: &Vec<String>) -> (suppressed: bool)
    ensures
        suppressed == menu_suppressed(crate::script::menu_view(menu), pressing_set(pressing@)),
{
    match menu {
        None => true,
        Some(None) => false,
        Some(Some(key)) => !holds_key(pressing, key),
    }
}

/// A context-menu gesture, for a policy that resolved to `menu` while the
/// keys in `pressing` are held: decides whether the menu is suppressed, and
/// where it opens, forgets the held keys, so that none of them is taken as
/// held at the next gesture.
pub fn menu_gesture(menu: Option<Option<&str>>, pressing: &mut Vec<String>) -> (suppressed: bool)
    ensures
        suppressed == menu_suppressed(
            crate::script::menu_view(menu),
            pressing_set(old(pressing)@),
        ),
        final(pressing)@ == if suppressed {
            old(pressing)@
        } else {
            Seq::<String>::empty()
        },
{
    let suppressed = suppresses_menu(menu, pressing);
    if !suppressed {
        pressing.clear();
    }
    suppressed
}

/// A name that holds the delimiter is never posted, whatever token comes
/// with it.
pub proof fn lemma_delimiter_never_posted(
    name: Seq<char>,
    data: Seq<char>,
    presented: Option<Seq<char>>,
    token: Seq<char>,
)
    requires
        name.contains(DELIMITER),
    ensures
        posted(name, data, presented, token) is None,
{
}

/// A message without a delimiter is rejected by the translator.
pub proof fn lemma_no_delimiter_rejected(message: Seq<char>)
    requires
        !message.contains(DELIMITER),
    ensures
        framed(message) == Err::<(SystemEvent, Seq<char>), _>(WireError::NoDelimiter),
{
    lemma_delimiter_at(message);
    let at = delimiter_at(message);
    if at < message.len() {
        assert(message[at] == DELIMITER);
    }
}

/// A message that was posted frames to the name and the data it was posted
/// with.
pub proof fn lemma_posted_splits(
    name: Seq<char>,
    data: Seq<char>,
    presented: Option<Seq<char>>,
    token: Seq<char>,
)
    requires
        posted(name, data, presented, token) is Some,
    ensures
        split(posted(name, data, presented, token)->0) == Some((name, data)),
{
    let message = name + seq![DELIMITER] + data;
    let at = name.len() as int;
    assert forall|i: int| 0 <= i < at implies message[i] != DELIMITER by {
        assert(message[i] == name[i]);
        assert(!name.contains(DELIMITER));
    }
    assert(message[at] == DELIMITER);
    lemma_first_delimiter(message, at);
    assert(message.subrange(0, at) =~= name);
    assert(message.subrange(at + 1, message.len() as int) =~= data);
}

/// Without the token no system event can be posted: a message that was
/// posted by a caller that did not present the token is not accepted by the
/// translator as any of the five events.
pub proof fn lemma_no_spoofing(
    name: Seq<char>,
    data: Seq<char>,
    presented: Option<Seq<char>>,
    token: Seq<char>,
)
    requires
        presented != Some(token),
        posted(name, data, presented, token) is Some,
    ensures
        framed(posted(name, data, presented, token)->0) == Err::<(SystemEvent, Seq<char>), _>(
            WireError::UnknownName,
        ),
{
    lemma_posted_splits(name, data, presented, token);
}

/// With the token a system event reaches the translator as it was posted.
pub proof fn lemma_posted_event_framed(event: SystemEvent, data: Seq<char>, token: Seq<char>)
    ensures
        posted(event.name(), data, Some(token), token) is Some,
        framed(posted(event.name(), data, Some(token), token)->0) == Ok::<_, WireError>(
            (event, data),
        ),
{
    lemma_names_hold_no_delimiter(event);
    lemma_posted_splits(event.name(), data, Some(token), token);
    lemma_event_named(event.name(), event);
}

/// Whether the context menu is suppressed on a gesture under `policy`, while
/// the keys in `pressing` are held.
pub open spec fn policy_suppresses(
    policy: ContextMenu,
    debug_build: bool,
    pressing: Set<Seq<char>>,
) -> bool {
    menu_suppressed(menu_names(policy.resolve(debug_build)), pressing)
}

/// The context-menu policy matrix. Under `Never` the menu is always
/// suppressed. Under `Always` with an activation key it is suppressed except
/// while that key is held; under `Always` without one it is never
/// suppressed. `Debug` is `Always` in a debug build and `Never` in any
/// other.
pub proof fn lemma_policy_matrix(key: Option<KeyCode>, debug_build: bool, pressing: Set<Seq<char>>)
    ensures
        policy_suppresses(ContextMenu::Never, debug_build, pressing),
        key matches Some(k) ==> (policy_suppresses(ContextMenu::Always(key), debug_build, pressing)
            <==> !pressing.contains(key_name(k))),
        key is None ==> !policy_suppresses(ContextMenu::Always(key), debug_build, pressing),
        policy_suppresses(ContextMenu::Debug(key), debug_build, pressing) == if debug_build {
            policy_suppresses(ContextMenu::Always(key), debug_build, pressing)
        } else {
            policy_suppresses(ContextMenu::Never, debug_build, pressing)
        },
{
}


} // verus!
