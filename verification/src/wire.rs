//! The wire format of a message from the embedded content to the host: an
//! event name, one delimiter character, and a JSON payload.

use vstd::prelude::*;
use vstd::std_specs::iter::IteratorSpec;
use vstd::string::*;

verus! {

/// The character that separates the event name from the payload.
pub const DELIMITER: char = '\u{1}';

/// The five input events that the content forwards to the host.
#[derive(Debug, Clone, Copy, PartialEq, Eq, Structural)]
pub enum SystemEvent {
    /// A key went down: `"kd"`.
    KeyDown,
    /// A key went up: `"ku"`.
    KeyUp,
    /// A mouse button went down: `"md"`.
    MouseDown,
    /// A mouse button went up: `"mu"`.
    MouseUp,
    /// The mouse moved: `"mm"`.
    MouseMove,
}

/// The shape of the payload that comes with an event.
#[derive(Debug, Clone, Copy, PartialEq, Eq, Structural)]
pub enum Shape {
    /// `key` and `code`, both strings.
    Keyboard,
    /// `button`, an integer.
    MouseButton,
    /// `relX` and `relY`, both numbers.
    MouseMotion,
}

/// Why a message was dropped.
#[derive(Debug, Clone, Copy, PartialEq, Eq, Structural)]
pub enum WireError {
    /// The message holds no delimiter.
    NoDelimiter,
    /// The name before the delimiter is none of the five event names.
    UnknownName,
    /// The payload does not have the shape that the event asks for.
    BadPayload,
}

/// A message split into its event and its still undecoded payload.
#[derive(Debug, Clone, Copy)]
pub struct Frame<'a> {
    /// The event that the message names.
    pub event: SystemEvent,
    /// The text after the delimiter.
    pub payload: &'a str,
}

impl SystemEvent {
    /// The name of the event on the wire.
    pub open spec fn name(self) -> Seq<char> {
        match self {
            SystemEvent::KeyDown => seq!['k', 'd'],
            SystemEvent::KeyUp => seq!['k', 'u'],
            SystemEvent::MouseDown => seq!['m', 'd'],
            SystemEvent::MouseUp => seq!['m', 'u'],
            SystemEvent::MouseMove => seq!['m', 'm'],
        }
    }

    /// The shape of the payload that the event carries.
    pub open spec fn spec_shape(self) -> Shape {
        match self {
            SystemEvent::KeyDown | SystemEvent::KeyUp => Shape::Keyboard,
            SystemEvent::MouseDown | SystemEvent::MouseUp => Shape::MouseButton,
            SystemEvent::MouseMove => Shape::MouseMotion,
        }
    }

    /// The shape of the payload that the event carries.
    #[verifier::when_used_as_spec(spec_shape)]
    pub fn shape(self) -> (shape: Shape)
        ensures
            shape == self.spec_shape(),
    {
        match self {
            SystemEvent::KeyDown | SystemEvent::KeyUp => Shape::Keyboard,
            SystemEvent::MouseDown | SystemEvent::MouseUp => Shape::MouseButton,
            SystemEvent::MouseMove => Shape::MouseMotion,
        }
    }

    /// The event that `name` names, if it is one of the five.
    pub fn from_name(name: &str) -> (event: Option<SystemEvent>)
        ensures
            event == event_named(name@),
    {
        if name.unicode_len() != 2 {
            proof {
                assert forall|e: SystemEvent| name@ != e.name() by {
                    assert(e.name().len() == 2);
                }
            }
            return None;
        }
        let first = name.get_char(0);
        let second = name.get_char(1);
        let event = if first == 'k' && second == 'd' {
            Some(SystemEvent::KeyDown)
        } else if first == 'k' && second == 'u' {
            Some(SystemEvent::KeyUp)
        } else if first == 'm' && second == 'd' {
            Some(SystemEvent::MouseDown)
        } else if first == 'm' && second == 'u' {
            Some(SystemEvent::MouseUp)
        } else if first == 'm' && second == 'm' {
            Some(SystemEvent::MouseMove)
        } else {
            None
        };
        proof {
            assert forall|e: SystemEvent| name@ == e.name() <==> event == Some(e) by {
                if event == Some(e) {
                    assert(name@ =~= e.name());
                }
                if name@ == e.name() {
                    assert(e.name()[0] == first && e.name()[1] == second);
                }
            }
        }
        event
    }
}

/// The event that `name` names: one of the five, or none.
pub open spec fn event_named(name: Seq<char>) -> Option<SystemEvent> {
    if name == SystemEvent::KeyDown.name() {
        Some(SystemEvent::KeyDown)
    } else if name == SystemEvent::KeyUp.name() {
        Some(SystemEvent::KeyUp)
    } else if name == SystemEvent::MouseDown.name() {
        Some(SystemEvent::MouseDown)
    } else if name == SystemEvent::MouseUp.name() {
        Some(SystemEvent::MouseUp)
    } else if name == SystemEvent::MouseMove.name() {
        Some(SystemEvent::MouseMove)
    } else {
        None
    }
}

/// Whether `name` is the name of one of the five events.
pub open spec fn is_system_name(name: Seq<char>) -> bool {
    event_named(name) is Some
}

/// Each event is the one that its own name names, and no other name names
/// it.
pub proof fn lemma_event_named(name: Seq<char>, e: SystemEvent)
    ensures
        event_named(name) == Some(e) <==> name == e.name(),
{
    if name == e.name() {
        assert(name[0] == e.name()[0]);
        assert(name[1] == e.name()[1]);
    }
}

/// No event name holds the delimiter.
pub proof fn lemma_names_hold_no_delimiter(e: SystemEvent)
    ensures
        !e.name().contains(DELIMITER),
{
    assert forall|i: int| 0 <= i < e.name().len() implies e.name()[i] != DELIMITER by {
        assert(e.name().len() == 2);
        assert(e.name()[0] != DELIMITER);
        assert(e.name()[1] != DELIMITER);
    }
}

/// The position of the first delimiter in `message`, or its length where it
/// holds none.
pub open spec fn delimiter_at(message: Seq<char>) -> int
    decreases message.len(),
{
    if message.len() == 0 {
        0
    } else if message[0] == DELIMITER {
        0
    } else {
        1 + delimiter_at(message.drop_first())
    }
}

/// The two sides of the first delimiter in `message`: the name before it
/// and the payload after it. `None` where `message` holds no delimiter.
pub open spec fn split(message: Seq<char>) -> Option<(Seq<char>, Seq<char>)> {
    let at = delimiter_at(message);
    if at < message.len() {
        Some((message.subrange(0, at), message.subrange(at + 1, message.len() as int)))
    } else {
        None
    }
}

/// `delimiter_at` is the least index that holds a delimiter.
pub proof fn lemma_delimiter_at(message: Seq<char>)
    ensures
        0 <= delimiter_at(message) <= message.len(),
        forall|i: int| 0 <= i < delimiter_at(message) ==> message[i] != DELIMITER,
        delimiter_at(message) < message.len() ==> message[delimiter_at(message)] == DELIMITER,
    decreases message.len(),
{
    if message.len() > 0 && message[0] != DELIMITER {
        let rest = message.drop_first();
        lemma_delimiter_at(rest);
        assert forall|i: int| 0 <= i < delimiter_at(message) implies message[i] != DELIMITER by {
            if i > 0 {
                assert(message[i] == rest[i - 1]);
            }
        }
        if delimiter_at(message) < message.len() {
            assert(message[delimiter_at(message)] == rest[delimiter_at(rest)]);
        }
    }
}

/// An index that holds a delimiter, with none before it, is `delimiter_at`.
pub proof fn lemma_first_delimiter(message: Seq<char>, at: int)
    requires
        0 <= at <= message.len(),
        forall|i: int| 0 <= i < at ==> message[i] != DELIMITER,
        at < message.len() ==> message[at] == DELIMITER,
    ensures
        delimiter_at(message) == at,
{
    lemma_delimiter_at(message);
    let found = delimiter_at(message);
    if found < at {
        assert(message[found] != DELIMITER);
    } else if at < found {
        assert(message[at] == DELIMITER);
    }
}

/// Splits `message` at its first delimiter into the name before it and the
/// payload after it. `None` where it holds no delimiter. The message is
/// read once.
pub fn split_message(message: &str) -> (parts: Option<(&str, &str)>)
    ensures
        parts is Some <==> message@.contains(DELIMITER),
        match parts {
            Some((name, payload)) => split(message@) == Some((name@, payload@)),
            None => split(message@) is None,
        },
{
    broadcast use vstd::string::group_string_axioms;

    let len = message.unicode_len();
    let mut chars = message.chars();
    let mut at: usize = 0;
    loop
        invariant
            at <= len,
            len == message@.len(),
            chars.remaining() == message@.skip(at as int),
            forall|i: int| 0 <= i < at ==> message@[i] != DELIMITER,
        decreases len - at,
    {
        let ghost before = chars.remaining();
        match chars.next() {
            None => {
                proof {
                    assert(at == len);
                    lemma_first_delimiter(message@, at as int);
                    if message@.contains(DELIMITER) {
                        let i = choose|i: int| 0 <= i < message@.len() && message@[i] == DELIMITER;
                        assert(message@[i] != DELIMITER);
                    }
                }
                return None;
            },
            Some(c) => {
                proof {
                    assert(before.len() > 0);
                    assert(c == message@[at as int]);
                    assert(before.drop_first() =~= message@.skip(at + 1));
                }
                if c == DELIMITER {
                    proof {
                        lemma_first_delimiter(message@, at as int);
                        assert(message@.contains(DELIMITER));
                    }
                    let name = message.substring_char(0, at);
                    let payload = message.substring_char(at + 1, len);
                    return Some((name, payload));
                }
                at += 1;
            },
        }
    }
}

/// What a message frames to: the event it names and its payload, or the
/// reason it is dropped.
pub open spec fn framed(message: Seq<char>) -> Result<(SystemEvent, Seq<char>), WireError> {
    match split(message) {
        None => Err(WireError::NoDelimiter),
        Some((name, payload)) => match event_named(name) {
            Some(event) => Ok((event, payload)),
            None => Err(WireError::UnknownName),
        },
    }
}

/// Frames one message: splits it at the first delimiter and recognises the
/// event name. A message without a delimiter, or with a name that is none of
/// the five, is an error.
pub fn frame(message: &str) -> (result: Result<Frame<'_>, WireError>)
    ensures
        match result {
            Ok(frame) => framed(message@) == Ok::<_, WireError>((frame.event, frame.payload@)),
            Err(error) => framed(message@) == Err::<(SystemEvent, Seq<char>), _>(error),
        },
{
    match split_message(message) {
        None => Err(WireError::NoDelimiter),
        Some((name, payload)) => match SystemEvent::from_name(name) {
            None => Err(WireError::UnknownName),
            Some(event) => Ok(Frame { event, payload }),
        },
    }
}

} // verus!
