//! The registry of live webviews and the steps that keep it in line with
//! the host's windows: create, update and remove.
//!
//! The host tells the registry what happened to a window; the registry
//! changes its own state and answers with what the host has to do next. The
//! native browser instance stays with the host: the registry holds the
//! queues that the instance is wired to.

use crate::config::Webview;
use crate::guard::{fresh_token, is_token};
use crate::queue::Queue;
use crate::script::{bootstrap_parts, bootstrap_script_for, menu_names, rendered, update_script_for, update_text, Slots};
use bevy::ecs::entity::{Entity, EntityHashMap};
use vstd::prelude::*;
use vstd::string::*;

verus! {

/// `bevy::ecs::entity::EntityHashMap`: the host's hash map that is keyed by
/// window identities.
#[verifier::external_type_specification]
#[verifier::external_body]
#[verifier::reject_recursive_types(V)]
pub struct ExEntityHashMap<V>(EntityHashMap<V>);

/// What belongs to one live webview: its two queues.
pub struct WebviewHandle {
    /// The messages from the host to the content.
    pub i_queue: Queue<String>,
    /// The messages from the content to the host.
    pub o_queue: Queue<String>,
}

impl WebviewHandle {
    /// A handle with two empty queues of its own.
    pub fn new() -> (handle: Self) {
        WebviewHandle { i_queue: Queue::new(), o_queue: Queue::new() }
    }
}

/// The handles that an `EntityHashMap<WebviewHandle>` holds, each under the
/// identity of its window.
pub uninterp spec fn registry_entries(map: EntityHashMap<WebviewHandle>) -> Map<Entity, WebviewHandle>;

/// The map that holds no handle.
pub open spec fn no_entries() -> Map<Entity, WebviewHandle> {
    Map::empty()
}

/// `bevy::ecs::entity::EntityHashMap::new`: a map that holds nothing.
#[verifier::external_body]
fn registry_new() -> (registry: EntityHashMap<WebviewHandle>)
    ensures
        registry_entries(registry) == no_entries(),
{
    EntityHashMap::new()
}

/// `bevy::platform::collections::HashMap::insert`, which an `EntityHashMap`
/// gives way to: puts `handle` under `id`, in place of the handle that was
/// there before, and returns that one if there was one.
#[verifier::external_body]
fn registry_insert(map: &mut EntityHashMap<WebviewHandle>, id: Entity, handle: WebviewHandle) -> (before:
    Option<WebviewHandle>)
    ensures
        registry_entries(*final(map)) == registry_entries(*old(map)).insert(id, handle),
        before == if registry_entries(*old(map)).dom().contains(id) {
            Some(registry_entries(*old(map))[id])
        } else {
            None
        },
{
    map.insert(id, handle)
}

/// `bevy::platform::collections::HashMap::remove`, which an `EntityHashMap`
/// gives way to: takes out and returns the handle under `id`, if there is
/// one.
#[verifier::external_body]
fn registry_remove(map: &mut EntityHashMap<WebviewHandle>, id: Entity) -> (before: Option<
    WebviewHandle,
>)
    ensures
        registry_entries(*final(map)) == registry_entries(*old(map)).remove(id),
        before == if registry_entries(*old(map)).dom().contains(id) {
            Some(registry_entries(*old(map))[id])
        } else {
            None
        },
{
    map.remove(&id)
}

/// `bevy::platform::collections::HashMap::get`, which an `EntityHashMap`
/// gives way to: the handle under `id`, if there is one. The map is left as
/// it is.
#[verifier::external_body]
fn registry_get(map: &EntityHashMap<WebviewHandle>, id: Entity) -> (handle: Option<&WebviewHandle>)
    ensures
        handle == if registry_entries(*map).dom().contains(id) {
            Some(&registry_entries(*map)[id])
        } else {
            None
        },
{
    map.get(&id)
}

/// `bevy::ecs::entity::EntityHashMap::keys`: the identities that the map
/// holds a handle for, each once, in no particular order.
#[verifier::external_body]
fn registry_ids(map: &EntityHashMap<WebviewHandle>) -> (ids: Vec<Entity>)
    ensures
        ids@.no_duplicates(),
        forall|id: Entity| ids@.contains(id) <==> registry_entries(*map).dom().contains(id),
{
    map.keys().copied().collect()
}

/// `PartialEq::eq` of `bevy::ecs::entity::Entity`: whether two identities are
/// the same.
#[verifier::external_body]
fn same_window(a: Entity, b: Entity) -> (same: bool)
    ensures
        same == (a == b),
{
    a == b
}

/// Whether `id` is one of `list`.
fn listed(list: &Vec<Entity>, id: Entity) -> (found: bool)
    ensures
        found == list@.contains(id),
{
    let mut at: usize = 0;
    while at < list.len()
        invariant
            at <= list.len(),
            forall|i: int| 0 <= i < at ==> list@[i] != id,
        decreases list.len() - at,
    {
        if same_window(list[at], id) {
            return true;
        }
        at += 1;
    }
    false
}

/// The identities of `list` but for `id`, in the order of `list`.
fn without(list: &Vec<Entity>, id: Entity) -> (rest: Vec<Entity>)
    ensures
        list@.no_duplicates() ==> rest@.no_duplicates(),
        forall|window: Entity| rest@.contains(window) <==> list@.contains(window) && window != id,
{
    let mut rest: Vec<Entity> = Vec::new();
    let mut at: usize = 0;
    while at < list.len()
        invariant
            at <= list.len(),
            forall|k: int|
                0 <= k < rest@.len() ==> rest@[k] != id && list@.take(at as int).contains(
                    #[trigger] rest@[k],
                ),
            forall|j: int| 0 <= j < at && list@[j] != id ==> rest@.contains(#[trigger] list@[j]),
            list@.no_duplicates() ==> rest@.no_duplicates(),
        decreases list.len() - at,
    {
        let window = list[at];
        let ghost before = rest@;
        let ghost seen = list@.take(at as int);
        let ghost next = list@.take(at + 1);
        proof {
            assert forall|x: Entity| seen.contains(x) implies next.contains(x) by {
                let j = choose|j: int| 0 <= j < seen.len() && seen[j] == x;
                assert(next[j] == x);
            }
            assert(next[at as int] == window);
        }
        if !same_window(window, id) {
            rest.push(window);
            proof {
                assert(rest@[before.len() as int] == window);
                assert forall|k: int| 0 <= k < rest@.len() implies rest@[k] != id && next.contains(
                    #[trigger] rest@[k],
                ) by {
                    if k < before.len() {
                        assert(rest@[k] == before[k]);
                        assert(seen.contains(before[k]));
                    }
                }
                assert forall|j: int| 0 <= j <= at && list@[j] != id implies rest@.contains(
                    #[trigger] list@[j],
                ) by {
                    if j < at {
                        assert(before.contains(list@[j]));
                        let k = choose|k: int| 0 <= k < before.len() && before[k] == list@[j];
                        assert(rest@[k] == list@[j]);
                    }
                }
                if list@.no_duplicates() {
                    assert forall|a: int, b: int|
                        0 <= a < rest@.len() && 0 <= b < rest@.len() && a != b implies rest@[a]
                        != rest@[b] by {
                        if a < before.len() && b < before.len() {
                            assert(rest@[a] == before[a] && rest@[b] == before[b]);
                        } else {
                            let old_one = if a < before.len() {
                                a
                            } else {
                                b
                            };
                            assert(rest@[old_one] == before[old_one]);
                            assert(seen.contains(before[old_one]));
                            let j = choose|j: int| 0 <= j < seen.len() && seen[j] == before[old_one];
                            assert(list@[j] == before[old_one]);
                            assert(list@[j] != list@[at as int]);
                        }
                    }
                }
            }
        } else {
            proof {
                assert forall|k: int| 0 <= k < rest@.len() implies rest@[k] != id && next.contains(
                    #[trigger] rest@[k],
                ) by {
                    assert(seen.contains(rest@[k]));
                }
            }
        }
        at += 1;
    }
    proof {
        assert(list@.take(list.len() as int) =~= list@);
        assert forall|window: Entity| rest@.contains(window) <==> list@.contains(window) && window
            != id by {
            if rest@.contains(window) {
                let k = choose|k: int| 0 <= k < rest@.len() && rest@[k] == window;
                assert(list@.take(list.len() as int).contains(rest@[k]));
            }
            if list@.contains(window) && window != id {
                let j = choose|j: int| 0 <= j < list@.len() && list@[j] == window;
                assert(rest@.contains(list@[j]));
            }
        }
    }
    rest
}

/// A copy of `list`.
fn copied(list: &Vec<Entity>) -> (copy: Vec<Entity>)
    ensures
        copy@ == list@,
{
    let mut copy: Vec<Entity> = Vec::new();
    let mut at: usize = 0;
    while at < list.len()
        invariant
            at <= list.len(),
            copy@ == list@.take(at as int),
        decreases list.len() - at,
    {
        copy.push(list[at]);
        proof {
            assert(copy@ =~= list@.take(at + 1));
        }
        at += 1;
    }
    proof {
        assert(list@.take(list.len() as int) =~= list@);
    }
    copy
}

/// The windows that wait for an attempt, in the order in which they began
/// to wait.
struct Waiting {
    list: Vec<Entity>,
}

impl Waiting {
    /// No window waits twice.
    #[verifier::type_invariant]
    spec fn well_formed(self) -> bool {
        self.list@.no_duplicates()
    }

    /// The windows that wait.
    closed spec fn ids(&self) -> Set<Entity> {
        self.list@.to_set()
    }

    /// No window waits.
    fn none() -> (waiting: Self)
        ensures
            waiting.ids() == Set::<Entity>::empty(),
    {
        let waiting = Waiting { list: Vec::new() };
        assert(waiting.list@.to_set() =~= Set::<Entity>::empty());
        waiting
    }

    /// These windows and `id`.
    fn with(&self, id: Entity) -> (waiting: Self)
        ensures
            waiting.ids() == self.ids().insert(id),
    {
        proof {
            use_type_invariant(self);
        }
        let mut list = copied(&self.list);
        if !listed(&list, id) {
            list.push(id);
        }
        proof {
            lemma_list_with(self.list@, list@, id);
        }
        Waiting { list }
    }

    /// These windows but for `id`.
    fn without(&self, id: Entity) -> (waiting: Self)
        ensures
            waiting.ids() == self.ids().remove(id),
    {
        proof {
            use_type_invariant(self);
        }
        let list = without(&self.list, id);
        proof {
            lemma_list_without(self.list@, list@, id);
        }
        Waiting { list }
    }

    /// Whether `id` waits.
    fn holds(&self, id: Entity) -> (waits: bool)
        ensures
            waits == self.ids().contains(id),
    {
        listed(&self.list, id)
    }

    /// The windows that wait, each once, in the order in which they began to
    /// wait.
    fn list(&self) -> (ids: Vec<Entity>)
        ensures
            ids@.no_duplicates(),
            forall|id: Entity| ids@.contains(id) <==> self.ids().contains(id),
    {
        proof {
            use_type_invariant(self);
        }
        copied(&self.list)
    }
}

/// A list that was given `id`, unless it held it, holds no window twice if
/// it did not before, and holds as a set what it held before and `id`.
proof fn lemma_list_with(before: Seq<Entity>, after: Seq<Entity>, id: Entity)
    requires
        before.no_duplicates(),
        after == if before.contains(id) {
            before
        } else {
            before.push(id)
        },
    ensures
        after.no_duplicates(),
        after.to_set() == before.to_set().insert(id),
{
    assert forall|window: Entity| after.contains(window) <==> before.contains(window) || window
        == id by {
        if before.contains(window) {
            let j = choose|j: int| 0 <= j < before.len() && before[j] == window;
            assert(after[j] == window);
        }
        if !before.contains(id) {
            assert(after[before.len() as int] == id);
            if after.contains(window) {
                let k = choose|k: int| 0 <= k < after.len() && after[k] == window;
                if k < before.len() {
                    assert(before[k] == window);
                }
            }
        }
    }
    assert(after.to_set() =~= before.to_set().insert(id));
    if !before.contains(id) {
        assert forall|a: int, b: int|
            0 <= a < after.len() && 0 <= b < after.len() && a != b implies after[a] != after[b] by {
            if a < before.len() && b < before.len() {
                assert(after[a] == before[a] && after[b] == before[b]);
            } else if a < before.len() {
                assert(after[a] == before[a]);
                assert(before.contains(before[a]));
            } else {
                assert(after[b] == before[b]);
                assert(before.contains(before[b]));
            }
        }
    }
}

/// A list that holds what another held but for `id` holds as a set what the
/// other held without `id`.
proof fn lemma_list_without(before: Seq<Entity>, after: Seq<Entity>, id: Entity)
    requires
        forall|window: Entity| after.contains(window) <==> before.contains(window) && window != id,
    ensures
        after.to_set() == before.to_set().remove(id),
{
    assert(after.to_set() =~= before.to_set().remove(id));
}

/// The page that a webview is started with. It is empty: the bootstrap
/// script runs only in a webview that was given a page.
pub const BLANK_PAGE: &'static str = "<html><head></head><body></body></html>";

/// What the native browser instance of a webview is constructed with.
pub struct LaunchOptions {
    /// Whether the background of the surface is transparent.
    pub transparent: bool,
    /// Whether the surface may be throttled while its window is in the
    /// background.
    pub background_throttling: bool,
    /// Whether the developer tools can be opened.
    pub devtools: bool,
    /// Whether the surface takes the focus when it is created.
    pub focused: bool,
    /// The page to start with.
    pub html: String,
    /// The script to run before any script of the content.
    pub init_script: String,
}

/// What holds of the options that `config` launches with under `token`:
/// the surface is transparent, takes the focus and is never throttled, the
/// developer tools follow the resolved policy, the page is blank, and the
/// script is the bootstrap script for that token and the resolved
/// context-menu policy.
pub open spec fn launches(
    options: LaunchOptions,
    config: Webview,
    debug_build: bool,
    token: Seq<char>,
) -> bool {
    &&& options.transparent
    &&& !options.background_throttling
    &&& options.devtools == config.devtools.resolve(debug_build)
    &&& options.focused
    &&& options.html@ == BLANK_PAGE@
    &&& options.init_script@ == rendered(
        bootstrap_parts(),
        Slots { token, menu: menu_names(config.context_menu.resolve(debug_build)) },
    )
}

/// The options that a webview with `config` is constructed with, for a given
/// token.
pub fn launch_options_with(config: &Webview, debug_build: bool, token: &str) -> (options:
    LaunchOptions)
    ensures
        launches(options, *config, debug_build, token@),
{
    LaunchOptions {
        transparent: true,
        background_throttling: false,
        devtools: config.devtools.is_enabled(debug_build),
        focused: true,
        html: String::from_str(BLANK_PAGE),
        init_script: bootstrap_script_for(token, config.context_menu.is_enabled(debug_build)),
    }
}

/// The options that a webview with `config` is constructed with, under a
/// token of its own that is made for this call and kept nowhere else.
pub fn launch_options(config: &Webview, debug_build: bool) -> (options: LaunchOptions)
    ensures
        exists|token: Seq<char>| is_token(token) && #[trigger] launches(
            options,
            *config,
            debug_build,
            token,
        ),
{
    let token = fresh_token();
    launch_options_with(config, debug_build, token.as_str())
}

/// The snippet that applies the context-menu policy of `config` to a live
/// webview.
pub fn update_snippet(config: &Webview, debug_build: bool) -> (script: String)
    ensures
        script@ == update_text(menu_names(config.context_menu.resolve(debug_build))),
{
    update_script_for(config.context_menu.is_enabled(debug_build))
}

/// How serious a notice is.
#[derive(Debug, Clone, Copy, PartialEq, Eq, Structural)]
pub enum Level {
    Info,
    Warn,
    Error,
}

/// Something for the host to put into its log.
#[derive(Debug, Clone, Copy, PartialEq, Eq, Structural)]
pub enum Notice {
    /// A webview was created for the window.
    Created,
    /// The webview was removed from the window.
    Removed,
    /// The window clips its children, which keeps the webview from being
    /// transparent.
    ClipsChildren,
    /// The native instance could not be constructed.
    ConstructionFailed,
    /// A message from the content was dropped.
    MessageDropped(crate::wire::WireError),
}

impl Notice {
    /// How serious a notice is.
    pub open spec fn spec_level(self) -> Level {
        match self {
            Notice::Created | Notice::Removed => Level::Info,
            Notice::ClipsChildren => Level::Warn,
            Notice::ConstructionFailed | Notice::MessageDropped(_) => Level::Error,
        }
    }

    /// How serious this notice is.
    #[verifier::when_used_as_spec(spec_level)]
    pub fn level(self) -> (level: Level)
        ensures
            level == self.spec_level(),
    {
        match self {
            Notice::Created | Notice::Removed => Level::Info,
            Notice::ClipsChildren => Level::Warn,
            Notice::ConstructionFailed | Notice::MessageDropped(_) => Level::Error,
        }
    }
}

/// What came of the host's attempt to construct the native instance for a
/// window that newly carries a configuration.
pub enum Attempt {
    /// The host could not resolve the native handle of the window.
    Unresolved,
    /// The native instance could not be constructed.
    Failed,
    /// The native instance was constructed and wired to the queues of this
    /// handle.
    Built(WebviewHandle),
}

/// What the host has to do after an attempt.
#[derive(Debug, Clone, Copy, PartialEq, Eq, Structural)]
pub enum Step {
    /// Nothing now: the window waits, and is due again in the next frame.
    Retry,
    /// Take the configuration away from the window: it stays a plain window.
    Abandon,
    /// Keep the native instance: the webview is live.
    Keep,
}

/// The answer to an attempt.
pub struct Creation {
    /// What the host has to do.
    pub step: Step,
    /// The warning to log, if any.
    pub warning: Option<Notice>,
    /// The outcome to log, if any.
    pub report: Option<Notice>,
}

/// The answer to a removal.
pub struct Removal {
    /// Whether the window had a live webview, whose native instance the
    /// host has to drop.
    pub was_live: bool,
    /// The notice to log: there is one exactly if a live webview was
    /// removed.
    pub report: Option<Notice>,
}

/// The step that follows an attempt: an unresolved handle is tried again, a
/// failed construction is given up, a built instance is kept.
pub open spec fn step_after(attempt: Attempt) -> Step {
    match attempt {
        Attempt::Unresolved => Step::Retry,
        Attempt::Failed => Step::Abandon,
        Attempt::Built(_) => Step::Keep,
    }
}

/// The notice that goes with a step.
pub open spec fn report_of(step: Step) -> Option<Notice> {
    match step {
        Step::Retry => None,
        Step::Abandon => Some(Notice::ConstructionFailed),
        Step::Keep => Some(Notice::Created),
    }
}

/// The handles after an attempt for `id`: a built instance is entered under
/// `id`, in place of any handle that was there; any other attempt changes
/// nothing.
pub open spec fn entries_after(
    entries: Map<Entity, WebviewHandle>,
    id: Entity,
    attempt: Attempt,
) -> Map<Entity, WebviewHandle> {
    match attempt {
        Attempt::Built(handle) => entries.insert(id, handle),
        _ => entries,
    }
}

/// The windows that wait for another attempt after an attempt for `id`: an
/// unresolved handle lets the window wait, any other outcome ends the wait.
pub open spec fn waiting_after(waiting: Set<Entity>, id: Entity, attempt: Attempt) -> Set<Entity> {
    match attempt {
        Attempt::Unresolved => waiting.insert(id),
        _ => waiting.remove(id),
    }
}

/// The notice that goes with a removal: there is one exactly if a live
/// webview was removed.
pub open spec fn removal_report(was_live: bool) -> Option<Notice> {
    if was_live {
        Some(Notice::Removed)
    } else {
        None
    }
}

/// The live webviews, each under the identity of its window, and the
/// windows that wait for their webview.
pub struct Webviews {
    entries: EntityHashMap<WebviewHandle>,
    waiting: Waiting,
}

impl Webviews {
    /// The handles of the live webviews. A map holds at most one handle for
    /// each identity.
    pub closed spec fn entries(&self) -> Map<Entity, WebviewHandle> {
        registry_entries(self.entries)
    }

    /// The identities of the windows that have a live webview.
    pub open spec fn live(&self) -> Set<Entity> {
        self.entries().dom()
    }

    /// The identities of the windows that carry a configuration and wait for
    /// an attempt to construct their native instance.
    pub closed spec fn waiting(&self) -> Set<Entity> {
        self.waiting.ids()
    }

    /// A registry without a live webview and without a waiting window.
    pub fn new() -> (webviews: Self)
        ensures
            webviews.entries() == no_entries(),
            webviews.waiting() == Set::<Entity>::empty(),
    {
        Webviews { entries: registry_new(), waiting: Waiting::none() }
    }

    /// Takes in that window `id` newly carries a configuration: it waits
    /// for an attempt from now on.
    pub fn announce(&mut self, id: Entity)
        ensures
            final(self).entries() == old(self).entries(),
            final(self).waiting() == old(self).waiting().insert(id),
    {
        self.waiting = self.waiting.with(id);
    }

    /// Whether window `id` waits for an attempt.
    pub fn waits(&self, id: Entity) -> (waits: bool)
        ensures
            waits == self.waiting().contains(id),
    {
        self.waiting.holds(id)
    }

    /// The windows that are due for an attempt in this frame: those that
    /// wait, each once, in the order in which they began to wait.
    pub fn due(&self) -> (ids: Vec<Entity>)
        ensures
            ids@.no_duplicates(),
            forall|id: Entity| ids@.contains(id) <==> self.waiting().contains(id),
    {
        self.waiting.list()
    }

    /// Whether the window `id` has a live webview.
    pub fn contains(&self, id: Entity) -> (live: bool)
        ensures
            live == self.live().contains(id),
    {
        registry_get(&self.entries, id).is_some()
    }

    /// The handle of the webview of window `id`, if it has a live one.
    pub fn get(&self, id: Entity) -> (handle: Option<&WebviewHandle>)
        ensures
            handle == if self.live().contains(id) {
                Some(&self.entries()[id])
            } else {
                None
            },
    {
        registry_get(&self.entries, id)
    }

    /// The identities of the windows that have a live webview, each once,
    /// in no particular order.
    pub fn ids(&self) -> (ids: Vec<Entity>)
        ensures
            ids@.no_duplicates(),
            forall|id: Entity| ids@.contains(id) <==> self.live().contains(id),
    {
        registry_ids(&self.entries)
    }

    /// Create: takes in what came of the host's attempt to construct the
    /// native instance for window `id`, which newly carries a
    /// configuration. `clips_children` says whether the window clips its
    /// children.
    ///
    /// A built instance makes the webview live. An unresolved handle is
    /// tried again in the next frame, without a notice: the window waits. A failed
    /// construction is given up with an error, and the host takes the
    /// configuration away again.
    pub fn create(&mut self, id: Entity, clips_children: bool, attempt: Attempt) -> (creation:
        Creation)
        ensures
            final(self).entries() == entries_after(old(self).entries(), id, attempt),
            final(self).waiting() == waiting_after(old(self).waiting(), id, attempt),
            creation.step == step_after(attempt),
            creation.report == report_of(step_after(attempt)),
            creation.warning == if clips_children {
                Some(Notice::ClipsChildren)
            } else {
                None
            },
    {
        let warning = if clips_children {
            Some(Notice::ClipsChildren)
        } else {
            None
        };
        match attempt {
            Attempt::Unresolved => {
                self.waiting = self.waiting.with(id);
                Creation { step: Step::Retry, warning, report: None }
            },
            Attempt::Failed => {
                self.waiting = self.waiting.without(id);
                Creation { step: Step::Abandon, warning, report: Some(Notice::ConstructionFailed) }
            },
            Attempt::Built(handle) => {
                self.waiting = self.waiting.without(id);
                registry_insert(&mut self.entries, id, handle);
                Creation { step: Step::Keep, warning, report: Some(Notice::Created) }
            },
        }
    }

    /// Update: the snippet to run in the webview of window `id`, whose
    /// configuration changed to `config`. There is one exactly if the
    /// window has a live webview; it applies the context-menu policy, the
    /// only one that can change after creation.
    pub fn update(&self, id: Entity, config: &Webview, debug_build: bool) -> (script: Option<
        String,
    >)
        ensures
            script is Some <==> self.live().contains(id),
            script matches Some(text) ==> text@ == update_text(
                menu_names(config.context_menu.resolve(debug_build)),
            ),
    {
        if self.contains(id) {
            Some(update_snippet(config, debug_build))
        } else {
            None
        }
    }

    /// Remove: the configuration was taken away from window `id`, or the
    /// window is gone. Its handle leaves the registry, and with it its
    /// queues; if the window waited, it waits no longer. There is a notice
    /// exactly if the window had a live webview.
    pub fn remove(&mut self, id: Entity) -> (removal: Removal)
        ensures
            final(self).entries() == old(self).entries().remove(id),
            final(self).waiting() == old(self).waiting().remove(id),
            removal.was_live == old(self).live().contains(id),
            removal.report == removal_report(old(self).live().contains(id)),
    {
        self.waiting = self.waiting.without(id);
        let before = registry_remove(&mut self.entries, id);
        if before.is_some() {
            Removal { was_live: true, report: Some(Notice::Removed) }
        } else {
            Removal { was_live: false, report: None }
        }
    }

    /// Takes the buffered messages out of the outbound queue of window
    /// `id`, oldest first, if it has a live webview. Which messages these are
    /// depends on what the content has posted.
    pub fn drain(&self, id: Entity) -> (messages: Option<Vec<String>>)
        ensures
            messages is Some <==> self.live().contains(id),
    {
        match self.get(id) {
            Some(handle) => Some(handle.o_queue.drain()),
            None => None,
        }
    }

    /// Takes the buffered messages out of the outbound queue of every live
    /// webview. Each live window comes once, with its messages oldest
    /// first; the windows come in no particular order.
    pub fn drain_all(&self) -> (drained: Vec<(Entity, Vec<String>)>)
        ensures
            windows_of(drained@).no_duplicates(),
            forall|id: Entity| windows_of(drained@).contains(id) <==> self.live().contains(id),
    {
        let ids = self.ids();
        let mut drained: Vec<(Entity, Vec<String>)> = Vec::new();
        let mut at: usize = 0;
        while at < ids.len()
            invariant
                at <= ids.len(),
                ids@.no_duplicates(),
                forall|id: Entity| ids@.contains(id) <==> self.live().contains(id),
                drained@.len() == at,
                windows_of(drained@) == ids@.take(at as int),
            decreases ids.len() - at,
        {
            let id = ids[at];
            let messages = match self.drain(id) {
                Some(messages) => messages,
                None => Vec::new(),
            };
            let ghost before = drained@;
            drained.push((id, messages));
            proof {
                assert forall|i: int| 0 <= i < at + 1 implies windows_of(drained@)[i] == ids@[i] by {
                    if i < at {
                        assert(drained@[i] == before[i]);
                        assert(windows_of(before)[i] == ids@.take(at as int)[i]);
                    }
                }
                assert(windows_of(drained@) =~= ids@.take(at + 1));
            }
            at += 1;
        }
        proof {
            assert(ids@.take(ids.len() as int) =~= ids@);
        }
        drained
    }
}

impl Default for Webviews {
    fn default() -> (webviews: Self)
        ensures
            webviews.entries() == no_entries(),
            webviews.waiting() == Set::<Entity>::empty(),
    {
        Webviews::new()
    }
}

/// The windows of a run of drained queues, in order.
pub open spec fn windows_of(drained: Seq<(Entity, Vec<String>)>) -> Seq<Entity> {
    drained.map_values(|pair: (Entity, Vec<String>)| pair.0)
}

/// One thing that the host tells the registry about a window.
pub enum Change {
    /// What came of an attempt to construct the native instance.
    Attempted(Entity, Attempt),
    /// The configuration was taken away, or the window is gone.
    Removed(Entity),
}

/// The handles after one change.
pub open spec fn entries_after_change(
    entries: Map<Entity, WebviewHandle>,
    change: Change,
) -> Map<Entity, WebviewHandle> {
    match change {
        Change::Attempted(id, attempt) => entries_after(entries, id, attempt),
        Change::Removed(id) => entries.remove(id),
    }
}

/// The handles after a run of changes, in order.
pub open spec fn entries_through(
    entries: Map<Entity, WebviewHandle>,
    changes: Seq<Change>,
) -> Map<Entity, WebviewHandle>
    decreases changes.len(),
{
    if changes.len() == 0 {
        entries
    } else {
        entries_after_change(entries_through(entries, changes.drop_last()), changes.last())
    }
}

/// Whether a change says that the native instance of window `id` was
/// constructed.
pub open spec fn builds(change: Change, id: Entity) -> bool {
    change matches Change::Attempted(window, Attempt::Built(_)) && window == id
}

/// Whether a change says that window `id` lost its configuration.
pub open spec fn removes(change: Change, id: Entity) -> bool {
    change == Change::Removed(id)
}

/// Whether none of the changes from `from` up to, not including, `to` says
/// that window `id` lost its configuration.
pub open spec fn unremoved(changes: Seq<Change>, id: Entity, from: int, to: int) -> bool {
    forall|j: int| from <= j < to ==> !removes(#[trigger] changes[j], id)
}

/// Whether change `at` says that the native instance of window `id` was
/// constructed, and none after it, before `to`, that the window lost its
/// configuration.
pub open spec fn built_since(changes: Seq<Change>, id: Entity, at: int, to: int) -> bool {
    builds(changes[at], id) && unremoved(changes, id, at + 1, to)
}

/// The registry invariant. After any run of changes to a registry that
/// started empty, a window has a live webview exactly if the native
/// instance was constructed for it at some point and the window has kept its
/// configuration since. (That it has at most one is in the type: the
/// handles are a map.)
pub proof fn lemma_live_exactly_if_built(changes: Seq<Change>, id: Entity)
    ensures
        entries_through(no_entries(), changes).dom().contains(id) <==> exists|at: int|
            0 <= at < changes.len() && #[trigger] built_since(
                changes,
                id,
                at,
                changes.len() as int,
            ),
    decreases changes.len(),
{
    let len = changes.len() as int;
    if len > 0 {
        let front = changes.drop_last();
        let last = changes.last();
        lemma_live_exactly_if_built(front, id);
        assert forall|j: int| 0 <= j < len - 1 implies front[j] == changes[j] by {}
        let before = entries_through(no_entries(), front);
        let after = entries_through(no_entries(), changes);
        if builds(last, id) {
            assert(after.dom().contains(id));
            assert(built_since(changes, id, len - 1, len));
        } else if removes(last, id) {
            assert(!after.dom().contains(id));
            assert(removes(changes[len - 1], id));
            assert forall|at: int| 0 <= at < len implies !#[trigger] built_since(
                changes,
                id,
                at,
                len,
            ) by {
                if at < len - 1 {
                    assert(!unremoved(changes, id, at + 1, len));
                }
            }
        } else {
            assert(after.dom().contains(id) == before.dom().contains(id));
            if exists|at: int| 0 <= at < len - 1 && #[trigger] built_since(front, id, at, len - 1) {
                let at = choose|at: int|
                    0 <= at < len - 1 && #[trigger] built_since(front, id, at, len - 1);
                assert(unremoved(changes, id, at + 1, len)) by {
                    assert forall|j: int| at + 1 <= j < len implies !removes(
                        #[trigger] changes[j],
                        id,
                    ) by {
                        if j < len - 1 {
                            assert(!removes(front[j], id));
                        }
                    }
                }
                assert(built_since(changes, id, at, len));
            }
            if exists|at: int| 0 <= at < len && #[trigger] built_since(changes, id, at, len) {
                let at = choose|at: int| 0 <= at < len && #[trigger] built_since(changes, id, at, len);
                assert(at < len - 1);
                assert(unremoved(front, id, at + 1, len - 1)) by {
                    assert forall|j: int| at + 1 <= j < len - 1 implies !removes(
                        #[trigger] front[j],
                        id,
                    ) by {
                        assert(!removes(changes[j], id));
                    }
                }
                assert(built_since(front, id, at, len - 1));
            }
        }
    }
}

} // verus!
