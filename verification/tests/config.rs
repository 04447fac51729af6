use bevy::input::keyboard::KeyCode;
use bevy_wui::config::{ContextMenu, DevTools, Webview};

#[test]
fn devtools_always_is_enabled_in_every_build() {
    assert!(DevTools::Always.is_enabled(true));
    assert!(DevTools::Always.is_enabled(false));
}

#[test]
fn devtools_never_is_disabled_in_every_build() {
    assert!(!DevTools::Never.is_enabled(true));
    assert!(!DevTools::Never.is_enabled(false));
}

#[test]
fn devtools_debug_follows_the_build() {
    assert!(DevTools::Debug.is_enabled(true));
    assert!(!DevTools::Debug.is_enabled(false));
}

#[test]
fn devtools_default_is_debug() {
    assert_eq!(DevTools::default(), DevTools::Debug);
}

#[test]
fn context_menu_never_resolves_to_none() {
    assert!(ContextMenu::Never.is_enabled(true).is_none());
    assert!(ContextMenu::Never.is_enabled(false).is_none());
}

#[test]
fn context_menu_always_keeps_its_key() {
    assert_eq!(ContextMenu::Always(None).is_enabled(false), Some(None));
    assert_eq!(
        ContextMenu::Always(Some(KeyCode::ControlLeft)).is_enabled(false),
        Some(Some(KeyCode::ControlLeft))
    );
    assert_eq!(
        ContextMenu::Always(Some(KeyCode::KeyA)).is_enabled(true),
        Some(Some(KeyCode::KeyA))
    );
}

#[test]
fn context_menu_debug_follows_the_build() {
    assert_eq!(ContextMenu::Debug(None).is_enabled(true), Some(None));
    assert_eq!(
        ContextMenu::Debug(Some(KeyCode::AltLeft)).is_enabled(true),
        Some(Some(KeyCode::AltLeft))
    );
    assert_eq!(ContextMenu::Debug(None).is_enabled(false), None);
    assert_eq!(ContextMenu::Debug(Some(KeyCode::AltLeft)).is_enabled(false), None);
}

#[test]
fn context_menu_default_is_debug_without_key() {
    assert!(matches!(ContextMenu::default(), ContextMenu::Debug(None)));
}

#[test]
fn webview_default_is_debug_for_both() {
    let config = Webview::default();
    assert_eq!(config.devtools, DevTools::Debug);
    assert!(matches!(config.context_menu, ContextMenu::Debug(None)));
}

#[test]
fn webview_builders_set_one_field_each() {
    let config = Webview::default().devtools(DevTools::Never);
    assert_eq!(config.devtools, DevTools::Never);
    assert!(matches!(config.context_menu, ContextMenu::Debug(None)));

    let config = config.context_menu(ContextMenu::Always(Some(KeyCode::KeyQ)));
    assert_eq!(config.devtools, DevTools::Never);
    assert!(matches!(config.context_menu, ContextMenu::Always(Some(KeyCode::KeyQ))));
}
