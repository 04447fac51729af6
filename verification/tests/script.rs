use bevy::input::keyboard::KeyCode;
use bevy_wui::script::{
    bootstrap_script, bootstrap_script_for, bootstrap_template, render, update_script,
    update_script_for, update_template, Part,
};

const TOKEN: &str = "0f8fad5b-d9cb-469f-a165-70867728950e";

#[test]
fn render_joins_the_parts_in_order() {
    let parts = vec![
        Part::Text("a="),
        Part::Token,
        Part::Text(";b="),
        Part::MenuEnabled,
        Part::Text(";c="),
        Part::MenuKey,
        Part::Text(";"),
    ];
    assert_eq!(render(&parts, "t", Some(Some("KeyA"))), "a='t';b=true;c='KeyA';");
    assert_eq!(render(&parts, "t", Some(None)), "a='t';b=true;c=null;");
    assert_eq!(render(&parts, "", None), "a='';b=false;c=null;");
    assert_eq!(render(&Vec::new(), "t", None), "");
}

#[test]
fn update_script_assigns_flag_and_key() {
    assert_eq!(
        update_script(Some(Some("KeyA"))),
        "__contextMenuEnabled = true;\n__contextMenuKey = 'KeyA'"
    );
    assert_eq!(update_script(Some(None)), "__contextMenuEnabled = true;\n__contextMenuKey = null");
    assert_eq!(update_script(None), "__contextMenuEnabled = false;\n__contextMenuKey = null");
}

#[test]
fn update_script_names_the_key_code() {
    assert_eq!(
        update_script_for(Some(Some(KeyCode::ControlLeft))),
        "__contextMenuEnabled = true;\n__contextMenuKey = 'ControlLeft'"
    );
    assert_eq!(
        update_script_for(Some(Some(KeyCode::F12))),
        "__contextMenuEnabled = true;\n__contextMenuKey = 'F12'"
    );
    assert_eq!(
        update_script_for(Some(None)),
        "__contextMenuEnabled = true;\n__contextMenuKey = null"
    );
    assert_eq!(update_script_for(None), "__contextMenuEnabled = false;\n__contextMenuKey = null");
}

#[test]
fn update_template_has_two_slots() {
    let parts = update_template();
    assert_eq!(parts.len(), 4);
    assert!(matches!(parts[1], Part::MenuEnabled));
    assert!(matches!(parts[3], Part::MenuKey));
}

#[test]
fn bootstrap_template_alternates_text_and_slots() {
    let parts = bootstrap_template();
    assert_eq!(parts.len(), 29);
    for (at, part) in parts.iter().enumerate() {
        assert_eq!(matches!(part, Part::Text(_)), at % 2 == 0, "part {at}");
    }
    let tokens = parts.iter().filter(|part| matches!(part, Part::Token)).count();
    assert_eq!(tokens, 12);
}

#[test]
fn bootstrap_script_quotes_the_token_in_every_slot() {
    let script = bootstrap_script(TOKEN, None);
    let quoted = format!("'{TOKEN}'");
    assert_eq!(script.matches(&quoted).count(), 12);
    assert_eq!(script.matches(TOKEN).count(), 12);
}

#[test]
fn bootstrap_script_guards_the_system_events() {
    let script = bootstrap_script(TOKEN, None);
    let guard = format!("if (systemEvents.includes(name) && token !== '{TOKEN}') {{");
    assert!(script.contains(&guard));
    assert!(script.contains("const systemEvents = [\"kd\", \"ku\", \"md\", \"mu\", \"mm\"];"));
    assert!(script.contains(&format!("if (token === '{TOKEN}') return true;")));
}

#[test]
fn bootstrap_script_rejects_names_with_the_delimiter() {
    let script = bootstrap_script(TOKEN, None);
    assert!(script.contains("if (name.includes(\"\\u{1}\")) {"));
    assert!(script.contains("window.ipc.postMessage(`${name}\\u{1}${JSON.stringify(data)}`);"));
    assert!(!script.contains('\u{1}'));
}

#[test]
fn bootstrap_script_forwards_the_five_events() {
    let script = bootstrap_script(TOKEN, None);
    for line in [
        format!("window.addEventListener(\"keydown\", e => post(\"kd\", {{ key: e.key, code: e.code }}, '{TOKEN}'));"),
        format!("window.addEventListener(\"keyup\", e => post(\"ku\", {{ key: e.key, code: e.code }}, '{TOKEN}'));"),
        format!("window.addEventListener(\"mousedown\", e => post(\"md\", {{ button: e.button }}, '{TOKEN}'));"),
        format!("window.addEventListener(\"mouseup\", e => post(\"mu\", {{ button: e.button }}, '{TOKEN}'));"),
        format!("window.addEventListener(\"mousemove\", e => post(\"mm\", {{ relX: e.movementX, relY: e.movementY }}, '{TOKEN}'));"),
    ] {
        assert!(script.contains(&line), "{line}");
    }
}

#[test]
fn bootstrap_script_suppresses_the_menu_by_policy() {
    let script = bootstrap_script(TOKEN, Some(Some("KeyA")));
    assert!(script.contains("const activated = key === null || pressing.has(key);"));
    assert!(script.contains("(!enabled || !activated) ? e.preventDefault() : pressing.clear();"));
}

#[test]
fn bootstrap_script_holds_the_resolved_policy() {
    let script = bootstrap_script(TOKEN, Some(Some("KeyA")));
    assert!(script.contains("const __contextMenuEnabled = new Protect(true);"));
    assert!(script.contains("const __contextMenuKey = new Protect('KeyA');"));

    let script = bootstrap_script(TOKEN, Some(None));
    assert!(script.contains("const __contextMenuEnabled = new Protect(true);"));
    assert!(script.contains("const __contextMenuKey = new Protect(null);"));

    let script = bootstrap_script(TOKEN, None);
    assert!(script.contains("const __contextMenuEnabled = new Protect(false);"));
    assert!(script.contains("const __contextMenuKey = new Protect(null);"));
}

#[test]
fn bootstrap_script_names_the_key_code() {
    let script = bootstrap_script_for(TOKEN, Some(Some(KeyCode::ShiftRight)));
    assert!(script.contains("const __contextMenuKey = new Protect('ShiftRight');"));
    assert_eq!(script, bootstrap_script(TOKEN, Some(Some("ShiftRight"))));
    assert_eq!(bootstrap_script_for(TOKEN, Some(None)), bootstrap_script(TOKEN, Some(None)));
    assert_eq!(bootstrap_script_for(TOKEN, None), bootstrap_script(TOKEN, None));
}

#[test]
fn bootstrap_script_leaves_no_slot_open() {
    for menu in [None, Some(None), Some(Some("KeyA"))] {
        let script = bootstrap_script(TOKEN, menu);
        assert!(!script.contains("<<"));
        assert!(!script.contains(">>"));
        assert!(!script.contains("undefined"));
    }
}

#[test]
fn bootstrap_script_is_the_rendered_template() {
    assert_eq!(
        bootstrap_script(TOKEN, Some(Some("KeyA"))),
        render(&bootstrap_template(), TOKEN, Some(Some("KeyA")))
    );
}
