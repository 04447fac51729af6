//! Policies a webview is configured with, and how each resolves to a
//! concrete setting for a given build mode.

use bevy::input::keyboard::KeyCode;
use vstd::prelude::*;

verus! {

/// `bevy::input::keyboard::KeyCode`: the host's physical key code. Its
/// values are carried through unread.
#[verifier::external_type_specification]
#[verifier::external_body]
pub struct ExKeyCode(KeyCode);

/// When the developer tools of a webview may be opened.
///
/// Default: `DevTools::Debug`
#[derive(Debug, Clone, Copy, PartialEq, Eq, Structural)]
pub enum DevTools {
    /// Always allow the devtools, even in release builds.
    Always,
    /// Allow the devtools only in debug builds.
    Debug,
    /// Never allow the devtools.
    Never,
}

impl DevTools {
    /// The setting this policy resolves to in a build whose debug assertions
    /// are on (`debug_build`) or off.
    pub open spec fn resolve(self, debug_build: bool) -> bool {
        match self {
            DevTools::Always => true,
            DevTools::Debug => debug_build,
            DevTools::Never => false,
        }
    }

    /// Check if the devtools is enabled. `debug_build` says whether the
    /// binary was built with debug assertions: a fact of the build, which the
    /// caller passes in.
    pub fn is_enabled(&self, debug_build: bool) -> (enabled: bool)
        ensures
            enabled == self.resolve(debug_build),
    {
        match self {
            DevTools::Always => true,
            DevTools::Debug => debug_build,
            DevTools::Never => false,
        }
    }
}

impl Default for DevTools {
    fn default() -> (policy: Self)
        ensures
            policy == DevTools::Debug,
    {
        DevTools::Debug
    }
}

/// When the context menu of a webview may be opened. A policy that allows
/// it may name an activation key: the menu then opens only while that key is
/// held.
///
/// Default: `ContextMenu::Debug(None)`
#[derive(Debug, Clone, Copy)]
pub enum ContextMenu {
    /// Always allow the context menu, even in release builds.
    Always(Option<KeyCode>),
    /// Allow the context menu only in debug builds.
    Debug(Option<KeyCode>),
    /// Never allow the context menu.
    Never,
}

impl ContextMenu {
    /// What this policy resolves to: `None` where the menu is not allowed,
    /// `Some(key)` where it is, with the activation key if one is required.
    pub open spec fn resolve(self, debug_build: bool) -> Option<Option<KeyCode>> {
        match self {
            ContextMenu::Always(key) => Some(key),
            ContextMenu::Debug(key) => if debug_build {
                Some(key)
            } else {
                None
            },
            ContextMenu::Never => None,
        }
    }

    /// Check if the context menu is enabled, and under which activation key.
    pub fn is_enabled(&self, debug_build: bool) -> (enabled: Option<Option<KeyCode>>)
        ensures
            enabled == self.resolve(debug_build),
    {
        match self {
            ContextMenu::Always(key) => Some(*key),
            ContextMenu::Debug(key) => if debug_build {
                Some(*key)
            } else {
                None
            },
            ContextMenu::Never => None,
        }
    }
}

impl Default for ContextMenu {
    fn default() -> (policy: Self)
        ensures
            policy == ContextMenu::Debug(None),
    {
        ContextMenu::Debug(None)
    }
}

/// The configuration of one webview. A window that carries it is backed by a
/// webview; taking it away removes the webview again.
#[derive(Debug, Clone, Copy)]
pub struct Webview {
    /// The devtools configuration. It is read once, when the webview is
    /// created, and cannot be changed afterwards.
    pub devtools: DevTools,
    /// The context menu configuration.
    pub context_menu: ContextMenu,
}

impl Webview {
    /// Set the devtools configuration.
    pub fn devtools(self, devtools: DevTools) -> (config: Self)
        ensures
            config.devtools == devtools,
            config.context_menu == self.context_menu,
    {
        Webview { devtools, context_menu: self.context_menu }
    }

    /// Set the context menu configuration.
    pub fn context_menu(self, context_menu: ContextMenu) -> (config: Self)
        ensures
            config.devtools == self.devtools,
            config.context_menu == context_menu,
    {
        Webview { devtools: self.devtools, context_menu }
    }
}

impl Default for Webview {
    fn default() -> (config: Self)
        ensures
            config.devtools == DevTools::Debug,
            config.context_menu == ContextMenu::Debug(None),
    {
        Webview { devtools: DevTools::Debug, context_menu: ContextMenu::Debug(None) }
    }
}

} // verus!
