use bevy::ecs::entity::Entity;
use bevy_wui::events::{ButtonState, Decoded, InputEvent, Payload, Translator};
use bevy_wui::wire::{Shape, SystemEvent, WireError};

fn key(key: &str, code: &str) -> Option<Payload> {
    Some(Payload::Keyboard { key: key.to_string(), code: code.to_string() })
}

fn repeat_of(outcome: Result<InputEvent, WireError>) -> bool {
    match outcome {
        Ok(InputEvent::Keyboard { repeat, .. }) => repeat,
        other => panic!("no keyboard event: {other:?}"),
    }
}

#[test]
fn key_down_becomes_a_press() {
    let window = Entity::from_raw(3);
    let mut translator = Translator::new();
    match translator.translate(window, SystemEvent::KeyDown, key("a", "KeyA")) {
        Ok(InputEvent::Keyboard { window: w, state, repeat, key, code }) => {
            assert_eq!(w, window);
            assert_eq!(state, ButtonState::Pressed);
            assert!(!repeat);
            assert_eq!(key, "a");
            assert_eq!(code, "KeyA");
        }
        other => panic!("unexpected: {other:?}"),
    }
    assert!(translator.is_held("a"));
}

#[test]
fn key_up_becomes_a_release_that_is_no_repeat() {
    let window = Entity::from_raw(3);
    let mut translator = Translator::new();
    translator.translate(window, SystemEvent::KeyDown, key("a", "KeyA")).unwrap();
    translator.translate(window, SystemEvent::KeyDown, key("a", "KeyA")).unwrap();
    match translator.translate(window, SystemEvent::KeyUp, key("a", "KeyA")) {
        Ok(InputEvent::Keyboard { window: w, state, repeat, key, code }) => {
            assert_eq!(w, window);
            assert_eq!(state, ButtonState::Released);
            assert!(!repeat);
            assert_eq!(key, "a");
            assert_eq!(code, "KeyA");
        }
        other => panic!("unexpected: {other:?}"),
    }
    assert!(!translator.is_held("a"));
}

#[test]
fn repeat_is_set_from_the_second_press_until_the_release() {
    let window = Entity::from_raw(1);
    let mut translator = Translator::default();
    assert!(!repeat_of(translator.translate(window, SystemEvent::KeyDown, key("a", "KeyA"))));
    assert!(repeat_of(translator.translate(window, SystemEvent::KeyDown, key("a", "KeyA"))));
    assert!(repeat_of(translator.translate(window, SystemEvent::KeyDown, key("a", "KeyA"))));
    assert!(!repeat_of(translator.translate(window, SystemEvent::KeyUp, key("a", "KeyA"))));
    assert!(!repeat_of(translator.translate(window, SystemEvent::KeyDown, key("a", "KeyA"))));
    assert!(repeat_of(translator.translate(window, SystemEvent::KeyDown, key("a", "KeyA"))));
}

#[test]
fn keys_are_tracked_one_by_one() {
    let window = Entity::from_raw(1);
    let mut translator = Translator::new();
    assert!(!repeat_of(translator.translate(window, SystemEvent::KeyDown, key("a", "KeyA"))));
    assert!(!repeat_of(translator.translate(window, SystemEvent::KeyDown, key("b", "KeyB"))));
    assert!(!repeat_of(translator.translate(window, SystemEvent::KeyUp, key("b", "KeyB"))));
    assert!(repeat_of(translator.translate(window, SystemEvent::KeyDown, key("a", "KeyA"))));
    assert!(!repeat_of(translator.translate(window, SystemEvent::KeyDown, key("b", "KeyB"))));
}

#[test]
fn keys_are_tracked_by_logical_key_over_all_windows() {
    let mut translator = Translator::new();
    let first = Entity::from_raw(1);
    let second = Entity::from_raw(2);
    assert!(!repeat_of(translator.translate(first, SystemEvent::KeyDown, key("a", "KeyA"))));
    assert!(repeat_of(translator.translate(second, SystemEvent::KeyDown, key("a", "KeyQ"))));
    assert!(!repeat_of(translator.translate(second, SystemEvent::KeyUp, key("a", "KeyA"))));
    assert!(!repeat_of(translator.translate(first, SystemEvent::KeyDown, key("a", "KeyA"))));
}

#[test]
fn a_release_of_a_key_that_is_not_held_changes_nothing() {
    let window = Entity::from_raw(1);
    let mut translator = Translator::new();
    assert!(!repeat_of(translator.translate(window, SystemEvent::KeyUp, key("a", "KeyA"))));
    assert!(!translator.is_held("a"));
    assert!(!repeat_of(translator.translate(window, SystemEvent::KeyDown, key("a", "KeyA"))));
}

#[test]
fn mouse_buttons_keep_their_index() {
    let window = Entity::from_raw(9);
    let mut translator = Translator::new();
    let payload = Some(Payload::MouseButton { button: 2 });
    match translator.translate(window, SystemEvent::MouseDown, payload) {
        Ok(InputEvent::MouseButton { window: w, state, button }) => {
            assert_eq!(w, window);
            assert_eq!(state, ButtonState::Pressed);
            assert_eq!(button, 2);
        }
        other => panic!("unexpected: {other:?}"),
    }
    let payload = Some(Payload::MouseButton { button: 65535 });
    match translator.translate(window, SystemEvent::MouseUp, payload) {
        Ok(InputEvent::MouseButton { window: w, state, button }) => {
            assert_eq!(w, window);
            assert_eq!(state, ButtonState::Released);
            assert_eq!(button, 65535);
        }
        other => panic!("unexpected: {other:?}"),
    }
}

#[test]
fn mouse_motion_keeps_its_numbers() {
    let window = Entity::from_raw(9);
    let mut translator = Translator::new();
    let payload = Some(Payload::MouseMotion {
        rel_x_bits: 1.5f32.to_bits(),
        rel_y_bits: (-2.25f32).to_bits(),
    });
    match translator.translate(window, SystemEvent::MouseMove, payload) {
        Ok(InputEvent::MouseMotion { delta_x_bits, delta_y_bits }) => {
            assert_eq!(f32::from_bits(delta_x_bits), 1.5);
            assert_eq!(f32::from_bits(delta_y_bits), -2.25);
        }
        other => panic!("unexpected: {other:?}"),
    }
}

#[test]
fn a_missing_payload_is_a_bad_payload() {
    let window = Entity::from_raw(1);
    let mut translator = Translator::new();
    for event in [
        SystemEvent::KeyDown,
        SystemEvent::KeyUp,
        SystemEvent::MouseDown,
        SystemEvent::MouseUp,
        SystemEvent::MouseMove,
    ] {
        assert!(matches!(translator.translate(window, event, None), Err(WireError::BadPayload)));
    }
}

#[test]
fn a_payload_of_another_shape_is_a_bad_payload() {
    let window = Entity::from_raw(1);
    let mut translator = Translator::new();
    let outcome = translator.translate(window, SystemEvent::MouseDown, key("a", "KeyA"));
    assert!(matches!(outcome, Err(WireError::BadPayload)));
    assert!(!translator.is_held("a"));
    let outcome =
        translator.translate(window, SystemEvent::KeyDown, Some(Payload::MouseButton { button: 0 }));
    assert!(matches!(outcome, Err(WireError::BadPayload)));
    let outcome = translator.translate(
        window,
        SystemEvent::MouseUp,
        Some(Payload::MouseMotion { rel_x_bits: 0, rel_y_bits: 0 }),
    );
    assert!(matches!(outcome, Err(WireError::BadPayload)));
}

#[test]
fn payloads_know_their_shape() {
    assert_eq!(key("a", "KeyA").unwrap().shape(), Shape::Keyboard);
    assert_eq!(Payload::MouseButton { button: 1 }.shape(), Shape::MouseButton);
    assert_eq!(Payload::MouseMotion { rel_x_bits: 0, rel_y_bits: 0 }.shape(), Shape::MouseMotion);
}

#[test]
fn translate_all_gives_one_outcome_for_each_message() {
    let window = Entity::from_raw(4);
    let mut translator = Translator::new();
    let messages: Vec<Decoded> = vec![
        Ok((SystemEvent::KeyDown, key("a", "KeyA"))),
        Err(WireError::UnknownName),
        Ok((SystemEvent::KeyDown, key("a", "KeyA"))),
        Ok((SystemEvent::KeyDown, None)),
        Err(WireError::NoDelimiter),
        Ok((SystemEvent::KeyUp, key("a", "KeyA"))),
        Ok((SystemEvent::KeyDown, key("a", "KeyA"))),
        Ok((SystemEvent::MouseDown, Some(Payload::MouseButton { button: 0 }))),
    ];
    let mut outcomes = translator.translate_all(window, messages).into_iter();
    assert!(!repeat_of(outcomes.next().unwrap()));
    assert!(matches!(outcomes.next().unwrap(), Err(WireError::UnknownName)));
    assert!(repeat_of(outcomes.next().unwrap()));
    assert!(matches!(outcomes.next().unwrap(), Err(WireError::BadPayload)));
    assert!(matches!(outcomes.next().unwrap(), Err(WireError::NoDelimiter)));
    assert!(!repeat_of(outcomes.next().unwrap()));
    assert!(!repeat_of(outcomes.next().unwrap()));
    assert!(matches!(
        outcomes.next().unwrap(),
        Ok(InputEvent::MouseButton { state: ButtonState::Pressed, button: 0, .. })
    ));
    assert!(outcomes.next().is_none());
    assert!(translator.is_held("a"));
}

#[test]
fn translate_all_of_nothing_is_nothing() {
    let mut translator = Translator::new();
    assert!(translator.translate_all(Entity::from_raw(1), Vec::new()).is_empty());
}
