//! The scripts that the host runs inside a webview: the bootstrap script
//! that each webview starts with, and the snippet that applies a changed
//! context-menu policy to a live one.
//!
//! A script is a template: pieces of fixed text with named slots between
//! them. Rendering fills every slot, so no slot is left in the output.

use bevy::input::keyboard::KeyCode;
use vstd::prelude::*;
use vstd::string::*;

verus! {

/// One piece of a script template.
#[derive(Debug, Clone, Copy)]
pub enum Part {
    /// Fixed text.
    Text(&'static str),
    /// The per-instance token, in single quotes.
    Token,
    /// `true` where the context menu is enabled, `false` where it is not.
    MenuEnabled,
    /// The name of the activation key, in single quotes, or `null`.
    MenuKey,
}

/// What a template is rendered with.
pub struct Slots {
    /// The per-instance token.
    pub token: Seq<char>,
    /// The resolved context-menu policy, the activation key by its name.
    pub menu: Option<Option<Seq<char>>>,
}

/// `text` between single quotes.
pub open spec fn quoted(text: Seq<char>) -> Seq<char> {
    seq!['\''] + text + seq!['\'']
}

/// The text of the flag that says whether the context menu is enabled.
pub open spec fn menu_enabled_text(menu: Option<Option<Seq<char>>>) -> Seq<char> {
    if menu is Some {
        seq!['t', 'r', 'u', 'e']
    } else {
        seq!['f', 'a', 'l', 's', 'e']
    }
}

/// The text of the activation key: its quoted name, or `null` where the
/// menu is not enabled or asks for no key.
pub open spec fn menu_key_text(menu: Option<Option<Seq<char>>>) -> Seq<char> {
    match menu {
        Some(Some(name)) => quoted(name),
        _ => seq!['n', 'u', 'l', 'l'],
    }
}

/// The text that one part renders to.
pub open spec fn part_text(part: Part, slots: Slots) -> Seq<char> {
    match part {
        Part::Text(text) => text@,
        Part::Token => quoted(slots.token),
        Part::MenuEnabled => menu_enabled_text(slots.menu),
        Part::MenuKey => menu_key_text(slots.menu),
    }
}

/// The text that a template renders to: the texts of its parts, in order.
pub open spec fn rendered(parts: Seq<Part>, slots: Slots) -> Seq<char>
    decreases parts.len(),
{
    if parts.len() == 0 {
        Seq::empty()
    } else {
        rendered(parts.drop_last(), slots) + part_text(parts.last(), slots)
    }
}

/// The view of a resolved policy whose activation key is given by name.
pub open spec fn menu_view(menu: Option<Option<&str>>) -> Option<Option<Seq<char>>> {
    match menu {
        Some(Some(name)) => Some(Some(name@)),
        Some(None) => Some(None),
        None => None,
    }
}

/// Appends `text` between single quotes to `script`.
fn append_quoted(script: &mut String, text: &str)
    ensures
        final(script)@ == old(script)@ + quoted(text@),
{
    script.append("'");
    script.append(text);
    script.append("'");
    proof {
        reveal_strlit("'");
        assert("'"@ =~= seq!['\'']);
        assert(script@ =~= old(script)@ + quoted(text@));
    }
}

/// Renders a template: fills the token and the resolved context-menu policy
/// into its slots.
pub fn render(parts: &Vec<Part>, token: &str, menu: Option<Option<&str>>) -> (script: String)
    ensures
        script@ == rendered(parts@, Slots { token: token@, menu: menu_view(menu) }),
{
    let ghost slots = Slots { token: token@, menu: menu_view(menu) };
    let mut script = String::new();
    let mut at: usize = 0;
    proof {
        assert(parts@.take(0) =~= Seq::<Part>::empty());
    }
    while at < parts.len()
        invariant
            at <= parts.len(),
            slots == (Slots { token: token@, menu: menu_view(menu) }),
            script@ == rendered(parts@.take(at as int), slots),
        decreases parts.len() - at,
    {
        proof {
            assert(parts@.take(at + 1).drop_last() =~= parts@.take(at as int));
            assert(parts@.take(at + 1).last() == parts@[at as int]);
        }
        match parts[at] {
            Part::Text(text) => {
                script.append(text);
            },
            Part::Token => {
                append_quoted(&mut script, token);
            },
            Part::MenuEnabled => {
                if menu.is_some() {
                    script.append("true");
                    proof {
                        reveal_strlit("true");
                        assert("true"@ =~= seq!['t', 'r', 'u', 'e']);
                    }
                } else {
                    script.append("false");
                    proof {
                        reveal_strlit("false");
                        assert("false"@ =~= seq!['f', 'a', 'l', 's', 'e']);
                    }
                }
            },
            Part::MenuKey => {
                match menu {
                    Some(Some(name)) => {
                        append_quoted(&mut script, name);
                    },
                    _ => {
                        script.append("null");
                        proof {
                            reveal_strlit("null");
                            assert("null"@ =~= seq!['n', 'u', 'l', 'l']);
                        }
                    },
                }
            },
        }
        at += 1;
    }
    proof {
        assert(parts@.take(parts.len() as int) =~= parts@);
    }
    script
}

/// The `post` entry point, up to the token that system events are checked
/// against.
pub const POST_HEAD: &'static str = r#"
async function post(name, data, token = null) {
  const systemEvents = ["kd", "ku", "md", "mu", "mm"];

  // System events are posted by this script alone: whoever posts one has
  // to present the token.
  if (systemEvents.includes(name) && token !== "#;

/// The rest of `post`, and the `Protect` guard up to the token that it
/// checks against.
pub const GUARD_HEAD: &'static str = r#") {
    console.error("You have no permission to post this event.");
    return;
  }

  // The host splits a message at the first `\u{1}`, so a name must not
  // hold one.
  if (name.includes("\u{1}")) {
    console.error("Event name cannot contain '\\u{1}' character.");
    return;
  }

  window.ipc.postMessage(`${name}\u{1}${JSON.stringify(data)}`);
}

class Protect {
  #toProtect;

  constructor(toProtect) { this.#toProtect = toProtect; }

  get(token) { if (this.check(token)) return this.#toProtect; }
  set(token, value) { if (this.check(token)) this.#toProtect = value; }

  check(token) {
    if (token === "#;

/// The end of the guard, and the protected flag up to its value.
pub const FLAG_HEAD: &'static str = r#") return true;
    console.error("You have no permission to access this property.");
  }
}

const __contextMenuEnabled = new Protect("#;

/// The protected activation key up to its value.
pub const KEY_HEAD: &'static str = r#");
const __contextMenuKey = new Protect("#;

/// The set of pressed key codes, and the listener that adds to it.
pub const PRESSING_ADD: &'static str = r#");
const __keyCodePressing = new Protect(new Set());

window.addEventListener("keydown", e => __keyCodePressing.get("#;

/// The listener that takes a key code out of the set.
pub const PRESSING_DELETE: &'static str = r#").add(e.code));
window.addEventListener("keyup", e => __keyCodePressing.get("#;

/// The listener on the context-menu gesture, up to its first guarded read.
pub const MENU_PRESSING: &'static str = r#").delete(e.code));

window.addEventListener("contextmenu", e => {
  const pressing = __keyCodePressing.get("#;

/// The guarded read of the flag.
pub const MENU_ENABLED: &'static str = r#");
  const enabled = __contextMenuEnabled.get("#;

/// The guarded read of the activation key.
pub const MENU_KEY: &'static str = r#");
  const key = __contextMenuKey.get("#;

/// The decision on the gesture, and the listener that forwards a key that
/// went down.
pub const FORWARD_KEY_DOWN: &'static str = r#");
  const activated = key === null || pressing.has(key);
  (!enabled || !activated) ? e.preventDefault() : pressing.clear();
});

window.addEventListener("keydown", e => post("kd", { key: e.key, code: e.code }, "#;

/// The listener that forwards a key that went up.
pub const FORWARD_KEY_UP: &'static str = r#"));
window.addEventListener("keyup", e => post("ku", { key: e.key, code: e.code }, "#;

/// The listener that forwards a mouse button that went down.
pub const FORWARD_MOUSE_DOWN: &'static str = r#"));
window.addEventListener("mousedown", e => post("md", { button: e.button }, "#;

/// The listener that forwards a mouse button that went up.
pub const FORWARD_MOUSE_UP: &'static str = r#"));
window.addEventListener("mouseup", e => post("mu", { button: e.button }, "#;

/// The listener that forwards a mouse movement.
pub const FORWARD_MOUSE_MOVE: &'static str = r#"));
window.addEventListener("mousemove", e => post("mm", { relX: e.movementX, relY: e.movementY }, "#;

/// The end of the bootstrap script.
pub const TAIL: &'static str = r#"));
"#;

/// The assignment of the flag in the update snippet, up to its value.
pub const UPDATE_FLAG: &'static str = "__contextMenuEnabled = ";

/// The assignment of the activation key in the update snippet, up to its
/// value.
pub const UPDATE_KEY: &'static str = ";\n__contextMenuKey = ";

/// The template of the bootstrap script. It defines the guarded `post`
/// entry point and the `Protect` guard, puts the context-menu flag and the
/// activation key behind guards, suppresses the context menu unless it is
/// enabled and its activation key (if any) is held, and forwards key and
/// mouse input as system events.
pub open spec fn bootstrap_parts() -> Seq<Part> {
    seq![
        Part::Text(POST_HEAD),
        Part::Token,
        Part::Text(GUARD_HEAD),
        Part::Token,
        Part::Text(FLAG_HEAD),
        Part::MenuEnabled,
        Part::Text(KEY_HEAD),
        Part::MenuKey,
        Part::Text(PRESSING_ADD),
        Part::Token,
        Part::Text(PRESSING_DELETE),
        Part::Token,
        Part::Text(MENU_PRESSING),
        Part::Token,
        Part::Text(MENU_ENABLED),
        Part::Token,
        Part::Text(MENU_KEY),
        Part::Token,
        Part::Text(FORWARD_KEY_DOWN),
        Part::Token,
        Part::Text(FORWARD_KEY_UP),
        Part::Token,
        Part::Text(FORWARD_MOUSE_DOWN),
        Part::Token,
        Part::Text(FORWARD_MOUSE_UP),
        Part::Token,
        Part::Text(FORWARD_MOUSE_MOVE),
        Part::Token,
        Part::Text(TAIL),
    ]
}

/// The template of the snippet that applies a changed context-menu policy:
/// it overwrites the flag and the activation key.
pub open spec fn update_parts() -> Seq<Part> {
    seq![Part::Text(UPDATE_FLAG), Part::MenuEnabled, Part::Text(UPDATE_KEY), Part::MenuKey]
}

/// The template of the bootstrap script.
pub fn bootstrap_template() -> (parts: Vec<Part>)
    ensures
        parts@ == bootstrap_parts(),
{
    let parts = vec![
        Part::Text(POST_HEAD),
        Part::Token,
        Part::Text(GUARD_HEAD),
        Part::Token,
        Part::Text(FLAG_HEAD),
        Part::MenuEnabled,
        Part::Text(KEY_HEAD),
        Part::MenuKey,
        Part::Text(PRESSING_ADD),
        Part::Token,
        Part::Text(PRESSING_DELETE),
        Part::Token,
        Part::Text(MENU_PRESSING),
        Part::Token,
        Part::Text(MENU_ENABLED),
        Part::Token,
        Part::Text(MENU_KEY),
        Part::Token,
        Part::Text(FORWARD_KEY_DOWN),
        Part::Token,
        Part::Text(FORWARD_KEY_UP),
        Part::Token,
        Part::Text(FORWARD_MOUSE_DOWN),
        Part::Token,
        Part::Text(FORWARD_MOUSE_UP),
        Part::Token,
        Part::Text(FORWARD_MOUSE_MOVE),
        Part::Token,
        Part::Text(TAIL),
    ];
    assert(parts@ =~= bootstrap_parts());
    parts
}

/// The template of the update snippet.
pub fn update_template() -> (parts: Vec<Part>)
    ensures
        parts@ == update_parts(),
{
    let parts = vec![
        Part::Text(UPDATE_FLAG),
        Part::MenuEnabled,
        Part::Text(UPDATE_KEY),
        Part::MenuKey,
    ];
    assert(parts@ =~= update_parts());
    parts
}

/// The bootstrap script of a webview whose token is `token` and whose
/// context-menu policy resolved to `menu`, the activation key by its name.
pub fn bootstrap_script(token: &str, menu: Option<Option<&str>>) -> (script: String)
    ensures
        script@ == rendered(bootstrap_parts(), Slots { token: token@, menu: menu_view(menu) }),
{
    render(&bootstrap_template(), token, menu)
}

/// The snippet that applies a context-menu policy that resolved to `menu`
/// to a live webview. It needs no token: it is the host that runs it.
pub fn update_script(menu: Option<Option<&str>>) -> (script: String)
    ensures
        script@ == update_text(menu_view(menu)),
{
    let script = render(&update_template(), "", menu);
    proof {
        lemma_update_text(Slots { token: ""@, menu: menu_view(menu) });
    }
    script
}

/// The text of the update snippet: two assignments, of the flag and of the
/// activation key.
pub open spec fn update_text(menu: Option<Option<Seq<char>>>) -> Seq<char> {
    UPDATE_FLAG@ + menu_enabled_text(menu) + UPDATE_KEY@ + menu_key_text(menu)
}

/// The update template renders to `update_text`, whatever the token.
pub proof fn lemma_update_text(slots: Slots)
    ensures
        rendered(update_parts(), slots) == update_text(slots.menu),
{
    let parts = update_parts();
    assert(parts.drop_last() =~= seq![
        Part::Text(UPDATE_FLAG),
        Part::MenuEnabled,
        Part::Text(UPDATE_KEY),
    ]);
    assert(parts.drop_last().drop_last() =~= seq![Part::Text(UPDATE_FLAG), Part::MenuEnabled]);
    assert(parts.drop_last().drop_last().drop_last() =~= seq![Part::Text(UPDATE_FLAG)]);
    assert(parts.drop_last().drop_last().drop_last().drop_last() =~= Seq::<Part>::empty());
    reveal_with_fuel(rendered, 5);
    assert(rendered(parts, slots) =~= update_text(slots.menu));
}


/// The name of a key code: what the `Debug` form of
/// `bevy::input::keyboard::KeyCode` writes for it.
pub uninterp spec fn key_name(key: KeyCode) -> Seq<char>;

/// `Debug::fmt` of `bevy::input::keyboard::KeyCode`: the name of the key
/// code, which depends on the key code alone.
#[verifier::external_body]
pub(crate) fn key_code_name(key: KeyCode) -> (name: String)
    ensures
        name@ == key_name(key),
{
    format!("{:?}", key)
}

/// A resolved context-menu policy, the activation key by its name.
pub open spec fn menu_names(menu: Option<Option<KeyCode>>) -> Option<Option<Seq<char>>> {
    match menu {
        Some(Some(key)) => Some(Some(key_name(key))),
        Some(None) => Some(None),
        None => None,
    }
}

/// The bootstrap script of a webview whose token is `token` and whose
/// context-menu policy resolved to `menu`.
pub fn bootstrap_script_for(token: &str, menu: Option<Option<KeyCode>>) -> (script: String)
    ensures
        script@ == rendered(bootstrap_parts(), Slots { token: token@, menu: menu_names(menu) }),
{
    match menu {
        Some(Some(key)) => {
            let name = key_code_name(key);
            bootstrap_script(token, Some(Some(name.as_str())))
        },
        Some(None) => bootstrap_script(token, Some(None)),
        None => bootstrap_script(token, None),
    }
}

/// The snippet that applies a context-menu policy that resolved to `menu`
/// to a live webview.
pub fn update_script_for(menu: Option<Option<KeyCode>>) -> (script: String)
    ensures
        script@ == update_text(menu_names(menu)),
{
    match menu {
        Some(Some(key)) => {
            let name = key_code_name(key);
            update_script(Some(Some(name.as_str())))
        },
        Some(None) => update_script(Some(None)),
        None => update_script(None),
    }
}


} // verus!
