use bevy_wui::wire::{frame, split_message, Shape, SystemEvent, WireError, DELIMITER};

#[test]
fn the_delimiter_is_u0001() {
    assert_eq!(DELIMITER, '\u{1}');
}

#[test]
fn split_is_at_the_first_delimiter() {
    assert_eq!(split_message("kd\u{1}{}"), Some(("kd", "{}")));
    assert_eq!(split_message("a\u{1}b\u{1}c"), Some(("a", "b\u{1}c")));
    assert_eq!(split_message("\u{1}"), Some(("", "")));
    assert_eq!(split_message("\u{1}tail"), Some(("", "tail")));
    assert_eq!(split_message("head\u{1}"), Some(("head", "")));
}

#[test]
fn split_without_delimiter_is_none() {
    assert_eq!(split_message(""), None);
    assert_eq!(split_message("kd{}"), None);
}

#[test]
fn split_counts_characters_not_bytes() {
    assert_eq!(split_message("é喂\u{1}ü"), Some(("é喂", "ü")));
}

#[test]
fn the_five_names_are_recognised() {
    assert_eq!(SystemEvent::from_name("kd"), Some(SystemEvent::KeyDown));
    assert_eq!(SystemEvent::from_name("ku"), Some(SystemEvent::KeyUp));
    assert_eq!(SystemEvent::from_name("md"), Some(SystemEvent::MouseDown));
    assert_eq!(SystemEvent::from_name("mu"), Some(SystemEvent::MouseUp));
    assert_eq!(SystemEvent::from_name("mm"), Some(SystemEvent::MouseMove));
}

#[test]
fn other_names_are_not_recognised() {
    for name in ["", "k", "zz", "kk", "dk", "um", "KD", "kd ", "kdd", "mk", "éé"] {
        assert_eq!(SystemEvent::from_name(name), None, "{name:?}");
    }
}

#[test]
fn each_event_has_its_shape() {
    assert_eq!(SystemEvent::KeyDown.shape(), Shape::Keyboard);
    assert_eq!(SystemEvent::KeyUp.shape(), Shape::Keyboard);
    assert_eq!(SystemEvent::MouseDown.shape(), Shape::MouseButton);
    assert_eq!(SystemEvent::MouseUp.shape(), Shape::MouseButton);
    assert_eq!(SystemEvent::MouseMove.shape(), Shape::MouseMotion);
}

#[test]
fn frame_gives_event_and_payload() {
    let framed = frame("kd\u{1}{\"key\":\"a\",\"code\":\"KeyA\"}").unwrap();
    assert_eq!(framed.event, SystemEvent::KeyDown);
    assert_eq!(framed.payload, "{\"key\":\"a\",\"code\":\"KeyA\"}");

    let framed = frame("mm\u{1}").unwrap();
    assert_eq!(framed.event, SystemEvent::MouseMove);
    assert_eq!(framed.payload, "");
}

#[test]
fn frame_keeps_later_delimiters_in_the_payload() {
    let framed = frame("mu\u{1}a\u{1}b").unwrap();
    assert_eq!(framed.event, SystemEvent::MouseUp);
    assert_eq!(framed.payload, "a\u{1}b");
}

#[test]
fn frame_rejects_a_message_without_delimiter() {
    assert_eq!(frame("").unwrap_err(), WireError::NoDelimiter);
    assert_eq!(frame("kd").unwrap_err(), WireError::NoDelimiter);
    assert_eq!(frame("kd{\"key\":\"a\"}").unwrap_err(), WireError::NoDelimiter);
}

#[test]
fn frame_rejects_an_unknown_name() {
    assert_eq!(frame("zz\u{1}{}").unwrap_err(), WireError::UnknownName);
    assert_eq!(frame("\u{1}{}").unwrap_err(), WireError::UnknownName);
    assert_eq!(frame("click\u{1}{}").unwrap_err(), WireError::UnknownName);
}
