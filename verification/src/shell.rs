//! The shell's state machine: what each event does to the shell's state,
//! and what the shell's widgets are then told.
use vstd::prelude::*;

use crate::app_sdk::{clone_payload, AppLaunchPayload, AppLaunchRequest, AppManifest};
use crate::apps::{builtin_manifest, builtin_manifest_list, manifest_with_id};
use crate::components::{clone_notice, AppDrawerEntry, QuickToggle, TopDrawerState};
use crate::device::DeviceSnapshot;
use crate::device_service::{toggle_is_on, SystemToggle, SystemToggleState};
use crate::navigation::{dock_tab_next, dock_tab_prev, next_route, prev_route, AppRoute, AppSurface};
use crate::shell_state::{builtin_modules, load_shell_state, module_views, ModuleView, ShellState};
use crate::text::str_eq;
use crate::theme::ThemeMode;

verus! {

/// How much room the window gives the shell.
#[derive(Debug, Clone, Copy, PartialEq, Eq, Structural)]
pub enum LayoutMode {
    Compact,
    Regular,
    Expanded,
}

/// An entry with its `is_active` flag cleared.
pub open spec fn inactive(e: AppDrawerEntry) -> AppDrawerEntry {
    AppDrawerEntry { is_active: false, ..e }
}

/// Entries of apps other than `id`.
pub open spec fn other_app(id: Seq<char>) -> spec_fn(AppDrawerEntry) -> bool {
    |e: AppDrawerEntry| e.manifest.id@ != id
}

/// The running apps after `manifest` opens with `payload`: it comes first
/// and active; the others keep their order and are no longer active.
pub open spec fn running_after_open(
    entries: Seq<AppDrawerEntry>,
    manifest: AppManifest,
    payload: Option<AppLaunchPayload>,
) -> Seq<AppDrawerEntry> {
    seq![AppDrawerEntry { manifest, payload, is_active: true }] + entries.map_values(
        |e: AppDrawerEntry| inactive(e),
    ).filter(other_app(manifest.id@))
}

/// The running apps after the app `id` closes.
pub open spec fn running_after_close(entries: Seq<AppDrawerEntry>, id: Seq<char>) -> Seq<AppDrawerEntry> {
    entries.filter(other_app(id))
}

/// Puts `manifest` first among the running apps, active, and the others
/// after it, inactive.
pub fn upsert_running_app(
    entries: &mut Vec<AppDrawerEntry>,
    manifest: AppManifest,
    payload: Option<AppLaunchPayload>,
)
    ensures
        final(entries)@ == running_after_open(old(entries)@, manifest, payload),
{
    let ghost old_entries = entries@;
    let ghost pred = other_app(manifest.id@);
    let ghost deactivated = old_entries.map_values(|e: AppDrawerEntry| inactive(e));
    let mut next: Vec<AppDrawerEntry> = Vec::new();
    next.push(AppDrawerEntry { manifest, payload, is_active: true });
    let mut i: usize = 0;
    proof {
        reveal(Seq::filter);
        assert(deactivated.take(0).filter(pred) =~= Seq::<AppDrawerEntry>::empty());
    }
    while i < entries.len()
        invariant
            i <= entries.len(),
            entries@ == old_entries,
            deactivated == old_entries.map_values(|e: AppDrawerEntry| inactive(e)),
            pred == other_app(manifest.id@),
            next@ == seq![AppDrawerEntry { manifest, payload, is_active: true }] + deactivated.take(i as int).filter(pred),
        decreases entries.len() - i,
    {
        let e = &entries[i];
        assert(deactivated.take(i + 1) =~= deactivated.take(i as int).push(inactive(old_entries[i as int])));
        proof {
            deactivated.take(i as int).lemma_filter_push(inactive(old_entries[i as int]), pred);
        }
        if !str_eq(e.manifest.id, manifest.id) {
            let mut copy = e.clone();
            copy.is_active = false;
            next.push(copy);
        }
        i = i + 1;
    }
    assert(deactivated.take(i as int) =~= deactivated);
    *entries = next;
}

/// Drops the app `id` from the running apps.
pub fn remove_running_app(entries: &mut Vec<AppDrawerEntry>, id: &str)
    ensures
        final(entries)@ == running_after_close(old(entries)@, id@),
{
    let ghost old_entries = entries@;
    let ghost pred = other_app(id@);
    let mut next: Vec<AppDrawerEntry> = Vec::new();
    let mut i: usize = 0;
    proof {
        reveal(Seq::filter);
        assert(old_entries.take(0).filter(pred) =~= Seq::<AppDrawerEntry>::empty());
    }
    while i < entries.len()
        invariant
            i <= entries.len(),
            entries@ == old_entries,
            pred == other_app(id@),
            next@ == old_entries.take(i as int).filter(pred),
        decreases entries.len() - i,
    {
        assert(old_entries.take(i + 1) =~= old_entries.take(i as int).push(old_entries[i as int]));
        proof {
            old_entries.take(i as int).lemma_filter_push(old_entries[i as int], pred);
        }
        if !str_eq(entries[i].manifest.id, id) {
            next.push(entries[i].clone());
        }
        i = i + 1;
    }
    assert(old_entries.take(i as int) =~= old_entries);
    *entries = next;
}


/// An event the shell reacts to.
#[derive(Debug)]
pub enum ShellEvent {
    /// The clock ticked; carries the theme, snapshot and toggles read anew.
    Tick { theme_mode: ThemeMode, snapshot: DeviceSnapshot, toggles: SystemToggleState },
    /// The dock asked for a route.
    Route(AppRoute),
    /// A launcher tile asked for an app.
    OpenApp(&'static str),
    /// An app or the recent-apps drawer asked for an app, maybe with a payload.
    OpenAppRequest(AppLaunchRequest),
    /// The app host's back button.
    CloseApp,
    /// A long press on the bottom edge.
    ToggleDrawer,
    /// A tap on the status bar or the top drawer's handle.
    ToggleTopDrawer,
    /// A tap on a quick-settings tile.
    ToggleQuick(QuickToggle),
    /// The outcome of switching a system toggle: the snapshot and toggles
    /// read anew, or the error.
    ToggleApplied(Result<(DeviceSnapshot, SystemToggleState), String>),
    /// The window crossed a size breakpoint.
    SetLayoutMode(LayoutMode),
    /// The carousel settled on a surface.
    SwipeTo(AppSurface),
    /// A horizontal drag over the shell ended, by these offsets.
    SwipeDock(i32, i32),
}

/// What the shell tells its widgets and the system, in order.
#[derive(Debug, PartialEq, Eq)]
pub enum ShellAction {
    /// Apply this theme to the style manager.
    ApplyTheme(ThemeMode),
    /// Hand the home screen the current snapshot.
    PushHomeSnapshot,
    /// Hand the apps screen the current modules.
    PushAppsState,
    /// Hand the top drawer its current state.
    PushTopDrawerState,
    /// Empty the app host.
    CloseHost,
    /// Mark this route active in the dock.
    SetNavActive(AppRoute),
    /// Tell the app `app_id` that it is left, in a context with `payload`.
    Deactivate { app_id: &'static str, payload: Option<AppLaunchPayload> },
    /// Build the app of `manifest` with `payload` and show it in the host.
    ShowApp { manifest: AppManifest, payload: Option<AppLaunchPayload> },
    /// Hand the recent-apps drawer the current running apps.
    PushDrawerEntries,
    /// Open or close the recent-apps drawer.
    SetDrawerOpen(bool),
    /// Open or close the top drawer.
    SetTopDrawerOpen(bool),
    /// Switch this system toggle to this value, then report the outcome.
    RunToggle(SystemToggle, bool),
    /// Take this route, as a new event.
    Navigate(AppRoute),
}

/// The shell's state.
#[derive(Debug)]
pub struct ShellModel {
    active_app_id: Option<&'static str>,
    active_launch_payload: Option<AppLaunchPayload>,
    active_route: AppRoute,
    app_drawer_open: bool,
    active_surface: AppSurface,
    layout_mode: LayoutMode,
    shell_state: ShellState,
    snapshot: DeviceSnapshot,
    top_drawer_open: bool,
    toggles: SystemToggleState,
    running_apps: Vec<AppDrawerEntry>,
    system_toggle_notice: Option<String>,
    theme_mode: ThemeMode,
}

/// The shell's state, as values.
pub struct ShellView {
    pub active_app_id: Option<&'static str>,
    pub active_launch_payload: Option<AppLaunchPayload>,
    pub active_route: AppRoute,
    pub app_drawer_open: bool,
    pub active_surface: AppSurface,
    pub layout_mode: LayoutMode,
    pub modules: Seq<ModuleView>,
    pub snapshot: DeviceSnapshot,
    pub top_drawer_open: bool,
    pub toggles: SystemToggleState,
    pub running_apps: Seq<AppDrawerEntry>,
    pub system_toggle_notice: Option<String>,
    pub theme_mode: ThemeMode,
}

impl View for ShellModel {
    type V = ShellView;

    closed spec fn view(&self) -> ShellView {
        ShellView {
            active_app_id: self.active_app_id,
            active_launch_payload: self.active_launch_payload,
            active_route: self.active_route,
            app_drawer_open: self.app_drawer_open,
            active_surface: self.active_surface,
            layout_mode: self.layout_mode,
            modules: module_views(self.shell_state.apps.modules@),
            snapshot: self.snapshot,
            top_drawer_open: self.top_drawer_open,
            toggles: self.toggles,
            running_apps: self.running_apps@,
            system_toggle_notice: self.system_toggle_notice,
            theme_mode: self.theme_mode,
        }
    }
}

/// The shell keeps these at all times: the two drawers are never open
/// together; with no app open the route is the surface shown and no payload
/// is kept; only the first running app may be active, and no app runs
/// twice.
pub open spec fn shell_invariant(s: ShellView) -> bool {
    &&& !(s.app_drawer_open && s.top_drawer_open)
    &&& s.active_app_id is None ==> s.active_route == AppRoute::Surface(s.active_surface)
    &&& s.active_app_id is None ==> s.active_launch_payload is None
    &&& running_apps_invariant(s.running_apps)
}

/// Only the first running app may be active, and no app runs twice.
pub open spec fn running_apps_invariant(entries: Seq<AppDrawerEntry>) -> bool {
    &&& forall|i: int| 0 < i < entries.len() ==> !(#[trigger] entries[i]).is_active
    &&& forall|i: int, j: int|
        0 <= i < j < entries.len() ==> (#[trigger] entries[i]).manifest.id@ != (#[trigger] entries[j]).manifest.id@
}

/// The shell's state at start, on the home surface with nothing running.
pub open spec fn initial_view(theme_mode: ThemeMode, snapshot: DeviceSnapshot, toggles: SystemToggleState) -> ShellView {
    ShellView {
        active_app_id: None,
        active_launch_payload: None,
        active_route: AppRoute::Surface(AppSurface::Home),
        app_drawer_open: false,
        active_surface: AppSurface::Home,
        layout_mode: LayoutMode::Compact,
        modules: builtin_modules(),
        snapshot,
        top_drawer_open: false,
        toggles,
        running_apps: Seq::empty(),
        system_toggle_notice: None,
        theme_mode,
    }
}

/// What the shell tells its widgets at start.
pub open spec fn initial_actions() -> Seq<ShellAction> {
    seq![
        ShellAction::PushDrawerEntries,
        ShellAction::SetDrawerOpen(false),
        ShellAction::PushTopDrawerState,
        ShellAction::SetTopDrawerOpen(false),
    ]
}

/// Opening the app `app_id` with `payload`: the previous app, if another,
/// is left; the new one becomes active; if it is a built-in app it is shown,
/// put first among the running apps, and both drawers close.
pub open spec fn open_app_step(s: ShellView, app_id: &'static str, payload: Option<AppLaunchPayload>) -> (ShellView, Seq<ShellAction>) {
    let leave = match s.active_app_id {
        Some(prev) => if prev@ != app_id@ {
            seq![ShellAction::Deactivate { app_id: prev, payload }]
        } else {
            Seq::empty()
        },
        None => Seq::empty(),
    };
    let opened = ShellView { active_app_id: Some(app_id), active_launch_payload: payload, ..s };
    match manifest_with_id(builtin_manifest_list(), app_id@) {
        Some(manifest) => (
            ShellView {
                running_apps: running_after_open(s.running_apps, manifest, payload),
                app_drawer_open: false,
                top_drawer_open: false,
                ..opened
            },
            leave + seq![
                ShellAction::ShowApp { manifest, payload },
                ShellAction::PushDrawerEntries,
                ShellAction::SetDrawerOpen(false),
                ShellAction::SetTopDrawerOpen(false),
            ],
        ),
        None => (opened, leave),
    }
}

/// Whether the app `id` is one the dock shows.
pub open spec fn is_dock_app(id: Seq<char>) -> bool {
    id == "call"@ || id == "message"@
}

/// Opening an app from a tile or a request: a dock app also becomes the
/// dock's active route.
pub open spec fn request_step(s: ShellView, app_id: &'static str, payload: Option<AppLaunchPayload>) -> (ShellView, Seq<ShellAction>) {
    if is_dock_app(app_id@) {
        let routed = ShellView { active_route: AppRoute::App(app_id), ..s };
        let (t, actions) = open_app_step(routed, app_id, payload);
        (t, seq![ShellAction::SetNavActive(AppRoute::App(app_id))] + actions)
    } else {
        open_app_step(s, app_id, payload)
    }
}

/// The value of `i` without its sign.
pub open spec fn abs(i: int) -> int {
    if i < 0 { -i } else { i }
}

/// A tick: the theme, snapshot and toggles read anew are taken in; a changed
/// theme is applied; the screens and the top drawer are refreshed.
pub open spec fn tick_step(s: ShellView, theme_mode: ThemeMode, snapshot: DeviceSnapshot, toggles: SystemToggleState) -> (ShellView, Seq<ShellAction>) {
    (
        ShellView { theme_mode, snapshot, toggles, modules: builtin_modules(), ..s },
        (if theme_mode != s.theme_mode { seq![ShellAction::ApplyTheme(theme_mode)] } else { Seq::empty() })
            + seq![ShellAction::PushHomeSnapshot, ShellAction::PushAppsState, ShellAction::PushTopDrawerState],
    )
}

/// The dock asks for a route: a surface closes the open app, if any, and
/// shows the surface; an app route opens the app.
pub open spec fn route_step(s: ShellView, route: AppRoute) -> (ShellView, Seq<ShellAction>) {
    match route {
        AppRoute::Surface(surface) => {
            let closing = s.active_app_id is Some;
            (
                ShellView {
                    active_app_id: None,
                    active_launch_payload: if closing { None } else { s.active_launch_payload },
                    active_route: route,
                    active_surface: surface,
                    ..s
                },
                (if closing { seq![ShellAction::CloseHost] } else { Seq::empty() })
                    + seq![ShellAction::SetNavActive(route)],
            )
        },
        AppRoute::App(app_id) => {
            let (t, actions) = open_app_step(ShellView { active_route: route, ..s }, app_id, None);
            (t, seq![ShellAction::SetNavActive(route)] + actions)
        },
    }
}

/// The back button: the open app, if any, is left and leaves the running
/// apps; the shell returns to its surface with the recent-apps drawer shut.
pub open spec fn close_step(s: ShellView) -> (ShellView, Seq<ShellAction>) {
    let leave = match s.active_app_id {
        Some(id) => seq![ShellAction::Deactivate { app_id: id, payload: s.active_launch_payload }],
        None => Seq::empty(),
    };
    let running = match s.active_app_id {
        Some(id) => running_after_close(s.running_apps, id@),
        None => s.running_apps,
    };
    let route = AppRoute::Surface(s.active_surface);
    (
        ShellView {
            active_app_id: None,
            active_launch_payload: None,
            active_route: route,
            app_drawer_open: false,
            running_apps: running,
            ..s
        },
        leave + seq![
            ShellAction::CloseHost,
            ShellAction::PushDrawerEntries,
            ShellAction::SetDrawerOpen(false),
            ShellAction::SetTopDrawerOpen(s.top_drawer_open),
            ShellAction::SetNavActive(route),
        ],
    )
}

/// The recent-apps drawer opens or shuts; opening it shuts the top drawer.
pub open spec fn toggle_drawer_step(s: ShellView) -> (ShellView, Seq<ShellAction>) {
    let open = !s.app_drawer_open;
    let top = if open { false } else { s.top_drawer_open };
    (
        ShellView { app_drawer_open: open, top_drawer_open: top, ..s },
        seq![ShellAction::SetDrawerOpen(open), ShellAction::SetTopDrawerOpen(top)],
    )
}

/// The top drawer opens or shuts; opening it shuts the recent-apps drawer.
pub open spec fn toggle_top_step(s: ShellView) -> (ShellView, Seq<ShellAction>) {
    let top = !s.top_drawer_open;
    let open = if top { false } else { s.app_drawer_open };
    (
        ShellView { app_drawer_open: open, top_drawer_open: top, ..s },
        seq![ShellAction::SetTopDrawerOpen(top), ShellAction::SetDrawerOpen(open)],
    )
}

/// A quick-settings tile asks to flip its system toggle.
pub open spec fn quick_step(s: ShellView, toggle: QuickToggle) -> (ShellView, Seq<ShellAction>) {
    (
        s,
        seq![
            match toggle {
                QuickToggle::Wifi => ShellAction::RunToggle(SystemToggle::Wifi, !s.toggles.wifi_enabled),
                QuickToggle::Lte => ShellAction::RunToggle(SystemToggle::Lte, !s.toggles.lte_enabled),
                QuickToggle::Silent => ShellAction::RunToggle(SystemToggle::Silent, !s.toggles.silent_mode),
                QuickToggle::BatterySaver => ShellAction::RunToggle(SystemToggle::BatterySaver, !s.toggles.battery_saver),
            },
        ],
    )
}

/// A system toggle was switched: on success the snapshot and toggles read
/// anew are taken in and the notice cleared; on failure the error becomes
/// the notice. The top drawer is refreshed either way.
pub open spec fn applied_step(s: ShellView, outcome: Result<(DeviceSnapshot, SystemToggleState), String>) -> (ShellView, Seq<ShellAction>) {
    (
        match outcome {
            Ok((snapshot, toggles)) => ShellView { system_toggle_notice: None, snapshot, toggles, ..s },
            Err(error) => ShellView { system_toggle_notice: Some(error), ..s },
        },
        seq![ShellAction::PushTopDrawerState],
    )
}

/// The carousel settles on a surface; with no app open it becomes the route.
pub open spec fn swipe_to_step(s: ShellView, surface: AppSurface) -> (ShellView, Seq<ShellAction>) {
    if s.active_app_id is None {
        (
            ShellView { active_surface: surface, active_route: AppRoute::Surface(surface), ..s },
            seq![ShellAction::SetNavActive(AppRoute::Surface(surface))],
        )
    } else {
        (ShellView { active_surface: surface, ..s }, Seq::empty())
    }
}

/// A drag ends: with both drawers shut, a mostly horizontal drag of at least
/// 44 points steps the dock, leftwards to the next tab and rightwards to the
/// previous one.
pub open spec fn swipe_dock_step(s: ShellView, dx: i32, dy: i32) -> (ShellView, Seq<ShellAction>) {
    if s.top_drawer_open || s.app_drawer_open || abs(dx as int) < 44 || abs(dx as int) <= abs(dy as int) {
        (s, Seq::empty())
    } else if dx < 0 {
        (s, seq![ShellAction::Navigate(next_route(s.active_route))])
    } else {
        (s, seq![ShellAction::Navigate(prev_route(s.active_route))])
    }
}

/// What an event does to the shell, and what the shell then tells its
/// widgets and the system.
pub open spec fn step(s: ShellView, event: ShellEvent) -> (ShellView, Seq<ShellAction>) {
    match event {
        ShellEvent::Tick { theme_mode, snapshot, toggles } => tick_step(s, theme_mode, snapshot, toggles),
        ShellEvent::Route(route) => route_step(s, route),
        ShellEvent::OpenApp(app_id) => request_step(s, app_id, None),
        ShellEvent::OpenAppRequest(request) => request_step(s, request.app_id, request.payload),
        ShellEvent::CloseApp => close_step(s),
        ShellEvent::ToggleDrawer => toggle_drawer_step(s),
        ShellEvent::ToggleTopDrawer => toggle_top_step(s),
        ShellEvent::ToggleQuick(toggle) => quick_step(s, toggle),
        ShellEvent::ToggleApplied(outcome) => applied_step(s, outcome),
        ShellEvent::SetLayoutMode(layout_mode) => (ShellView { layout_mode, ..s }, Seq::empty()),
        ShellEvent::SwipeTo(surface) => swipe_to_step(s, surface),
        ShellEvent::SwipeDock(dx, dy) => swipe_dock_step(s, dx, dy),
    }
}

/// The events the shell can take: a drag whose offset is `i32::MIN` has no
/// magnitude in an `i32`.
pub open spec fn event_ok(event: ShellEvent) -> bool {
    match event {
        ShellEvent::SwipeDock(dx, dy) => dx != i32::MIN && dy != i32::MIN,
        _ => true,
    }
}


/// Every element of a filtered sequence stands in the sequence.
pub proof fn lemma_filter_subset<V>(s: Seq<V>, pred: spec_fn(V) -> bool)
    ensures
        forall|k: int| 0 <= k < s.filter(pred).len() ==> s.contains(#[trigger] s.filter(pred)[k]),
    decreases s.len(),
{
    reveal(Seq::filter);
    if s.len() > 0 {
        let init = s.drop_last();
        lemma_filter_subset(init, pred);
        assert forall|k: int| 0 <= k < s.filter(pred).len() implies s.contains(#[trigger] s.filter(pred)[k]) by {
            if k < init.filter(pred).len() {
                let x = init.filter(pred)[k];
                assert(init.contains(x));
                let j = choose|j: int| 0 <= j < init.len() && init[j] == x;
                assert(s[j] == x);
            } else {
                assert(s[s.len() - 1] == s.last());
            }
        }
    }
}

/// Filtering keeps the running apps' invariant.
pub proof fn lemma_filter_running(entries: Seq<AppDrawerEntry>, pred: spec_fn(AppDrawerEntry) -> bool)
    requires
        running_apps_invariant(entries),
    ensures
        running_apps_invariant(entries.filter(pred)),
    decreases entries.len(),
{
    reveal(Seq::filter);
    if entries.len() > 0 {
        let init = entries.drop_last();
        let x = entries.last();
        assert forall|i: int| 0 < i < init.len() implies !(#[trigger] init[i]).is_active by {
            assert(init[i] == entries[i]);
        }
        assert forall|i: int, j: int|
            0 <= i < j < init.len() implies (#[trigger] init[i]).manifest.id@ != (#[trigger] init[j]).manifest.id@ by {
            assert(init[i] == entries[i] && init[j] == entries[j]);
        }
        lemma_filter_running(init, pred);
        lemma_filter_subset(init, pred);
        let f = init.filter(pred);
        if pred(x) {
            assert(entries.filter(pred) == f.push(x));
            assert forall|k: int| 0 <= k < f.len() implies (#[trigger] f[k]).manifest.id@ != x.manifest.id@ by {
                assert(init.contains(f[k]));
                let j = choose|j: int| 0 <= j < init.len() && init[j] == f[k];
                assert(entries[j] == init[j]);
                assert(entries[entries.len() - 1] == x);
            }
            if f.len() > 0 {
                assert(entries.len() > 1);
                assert(entries[entries.len() - 1] == x);
                assert(!x.is_active);
            }
            let g = f.push(x);
            assert forall|i: int, j: int|
                0 <= i < j < g.len() implies (#[trigger] g[i]).manifest.id@ != (#[trigger] g[j]).manifest.id@ by {
                if j < f.len() {
                    assert(g[i] == f[i] && g[j] == f[j]);
                } else {
                    assert(g[i] == f[i] && g[j] == x);
                }
            }
            assert forall|i: int| 0 < i < g.len() implies !(#[trigger] g[i]).is_active by {
                if i < f.len() {
                    assert(g[i] == f[i]);
                }
            }
        }
    }
}

/// Opening an app keeps the running apps' invariant.
pub proof fn lemma_open_running(entries: Seq<AppDrawerEntry>, manifest: AppManifest, payload: Option<AppLaunchPayload>)
    requires
        running_apps_invariant(entries),
    ensures
        running_apps_invariant(running_after_open(entries, manifest, payload)),
{
    let d = entries.map_values(|e: AppDrawerEntry| inactive(e));
    let pred = other_app(manifest.id@);
    let f = d.filter(pred);
    let head = AppDrawerEntry { manifest, payload, is_active: true };
    let r = seq![head] + f;
    assert(running_apps_invariant(d)) by {
        assert forall|i: int, j: int|
            0 <= i < j < d.len() implies (#[trigger] d[i]).manifest.id@ != (#[trigger] d[j]).manifest.id@ by {
            assert(d[i].manifest == entries[i].manifest && d[j].manifest == entries[j].manifest);
        }
    }
    lemma_filter_running(d, pred);
    lemma_filter_subset(d, pred);
    assert forall|k: int| 0 <= k < f.len() implies !(#[trigger] f[k]).is_active && f[k].manifest.id@ != manifest.id@ by {
        assert(d.contains(f[k]));
        let j = choose|j: int| 0 <= j < d.len() && d[j] == f[k];
        assert(pred(f[k]));
    }
    assert forall|i: int| 0 < i < r.len() implies !(#[trigger] r[i]).is_active by {
        assert(r[i] == f[i - 1]);
    }
    assert forall|i: int, j: int|
        0 <= i < j < r.len() implies (#[trigger] r[i]).manifest.id@ != (#[trigger] r[j]).manifest.id@ by {
        assert(r[j] == f[j - 1]);
        if i > 0 {
            assert(r[i] == f[i - 1]);
        }
    }
}


impl ShellModel {
    /// The shell at start, on the home surface with nothing running, and what
    /// it tells its widgets then.
    pub fn new(theme_mode: ThemeMode, snapshot: DeviceSnapshot, toggles: SystemToggleState) -> (r: (ShellModel, Vec<ShellAction>))
        ensures
            r.0@ == initial_view(theme_mode, snapshot, toggles),
            r.1@ == initial_actions(),
            shell_invariant(r.0@),
    {
        let shell_state = load_shell_state(&snapshot);
        let model = ShellModel {
            active_app_id: None,
            active_launch_payload: None,
            active_route: AppRoute::Surface(AppSurface::Home),
            app_drawer_open: false,
            active_surface: AppSurface::Home,
            layout_mode: LayoutMode::Compact,
            shell_state,
            snapshot,
            top_drawer_open: false,
            toggles,
            running_apps: Vec::new(),
            system_toggle_notice: None,
            theme_mode,
        };
        let mut actions: Vec<ShellAction> = Vec::new();
        actions.push(ShellAction::PushDrawerEntries);
        actions.push(ShellAction::SetDrawerOpen(false));
        actions.push(ShellAction::PushTopDrawerState);
        actions.push(ShellAction::SetTopDrawerOpen(false));
        assert(model@.running_apps =~= Seq::<AppDrawerEntry>::empty());
        assert(actions@ =~= initial_actions());
        (model, actions)
    }

    /// Opens the app `app_id` with `payload`, appending what the widgets are
    /// told to `actions`.
    fn open_app(&mut self, app_id: &'static str, payload: Option<AppLaunchPayload>, actions: &mut Vec<ShellAction>)
        ensures
            final(self)@ == open_app_step(old(self)@, app_id, payload).0,
            final(actions)@ == old(actions)@ + open_app_step(old(self)@, app_id, payload).1,
    {
        let ghost s = self@;
        let ghost start = actions@;
        if let Some(prev) = self.active_app_id {
            if !str_eq(prev, app_id) {
                actions.push(ShellAction::Deactivate { app_id: prev, payload: clone_payload(&payload) });
            }
        }
        let ghost leave = match s.active_app_id {
            Some(prev) => if prev@ != app_id@ {
                seq![ShellAction::Deactivate { app_id: prev, payload }]
            } else {
                Seq::empty()
            },
            None => Seq::empty(),
        };
        assert(actions@ =~= start + leave);
        self.active_app_id = Some(app_id);
        match builtin_manifest(app_id) {
            Some(manifest) => {
                upsert_running_app(&mut self.running_apps, manifest, clone_payload(&payload));
                self.app_drawer_open = false;
                self.top_drawer_open = false;
                actions.push(ShellAction::ShowApp { manifest, payload: clone_payload(&payload) });
                actions.push(ShellAction::PushDrawerEntries);
                actions.push(ShellAction::SetDrawerOpen(false));
                actions.push(ShellAction::SetTopDrawerOpen(false));
                self.active_launch_payload = payload;
                assert(actions@ =~= start + open_app_step(s, app_id, payload).1);
            },
            None => {
                self.active_launch_payload = payload;
            },
        }
    }

    /// Opens an app from a tile or a request; a dock app also becomes the
    /// dock's active route.
    fn request_app(&mut self, app_id: &'static str, payload: Option<AppLaunchPayload>, actions: &mut Vec<ShellAction>)
        ensures
            final(self)@ == request_step(old(self)@, app_id, payload).0,
            final(actions)@ == old(actions)@ + request_step(old(self)@, app_id, payload).1,
    {
        let ghost s = self@;
        let ghost start = actions@;
        if str_eq(app_id, "call") || str_eq(app_id, "message") {
            self.active_route = AppRoute::App(app_id);
            actions.push(ShellAction::SetNavActive(self.active_route));
            let ghost routed = self@;
            self.open_app(app_id, payload, actions);
            assert(actions@ =~= start + (seq![ShellAction::SetNavActive(AppRoute::App(app_id))] + open_app_step(routed, app_id, payload).1));
        } else {
            self.open_app(app_id, payload, actions);
        }
    }

    fn tick(&mut self, theme_mode: ThemeMode, snapshot: DeviceSnapshot, toggles: SystemToggleState, actions: &mut Vec<ShellAction>)
        requires
            old(actions)@.len() == 0,
        ensures
            (final(self)@, final(actions)@) == tick_step(old(self)@, theme_mode, snapshot, toggles),
    {
        let ghost s = self@;
        if theme_mode != self.theme_mode {
            self.theme_mode = theme_mode;
            actions.push(ShellAction::ApplyTheme(theme_mode));
        }
        self.shell_state = load_shell_state(&snapshot);
        self.snapshot = snapshot;
        self.toggles = toggles;
        actions.push(ShellAction::PushHomeSnapshot);
        actions.push(ShellAction::PushAppsState);
        actions.push(ShellAction::PushTopDrawerState);
        assert(actions@ =~= tick_step(s, theme_mode, snapshot, toggles).1);
    }

    fn route(&mut self, route: AppRoute, actions: &mut Vec<ShellAction>)
        requires
            old(actions)@.len() == 0,
        ensures
            (final(self)@, final(actions)@) == route_step(old(self)@, route),
    {
        let ghost s = self@;
        match route {
            AppRoute::Surface(surface) => {
                if self.active_app_id.is_some() {
                    actions.push(ShellAction::CloseHost);
                    self.active_app_id = None;
                    self.active_launch_payload = None;
                }
                self.active_route = route;
                self.active_surface = surface;
                actions.push(ShellAction::SetNavActive(route));
                assert(actions@ =~= route_step(s, route).1);
            },
            AppRoute::App(app_id) => {
                self.active_route = route;
                actions.push(ShellAction::SetNavActive(route));
                let ghost routed = self@;
                self.open_app(app_id, None, actions);
                assert(actions@ =~= seq![ShellAction::SetNavActive(route)] + open_app_step(routed, app_id, None).1);
            },
        }
    }

    fn close(&mut self, actions: &mut Vec<ShellAction>)
        requires
            old(actions)@.len() == 0,
        ensures
            (final(self)@, final(actions)@) == close_step(old(self)@),
    {
        let ghost s = self@;
        if let Some(app_id) = self.active_app_id {
            actions.push(ShellAction::Deactivate { app_id, payload: clone_payload(&self.active_launch_payload) });
            remove_running_app(&mut self.running_apps, app_id);
        }
        self.active_app_id = None;
        self.active_launch_payload = None;
        self.active_route = AppRoute::Surface(self.active_surface);
        self.app_drawer_open = false;
        actions.push(ShellAction::CloseHost);
        actions.push(ShellAction::PushDrawerEntries);
        actions.push(ShellAction::SetDrawerOpen(false));
        actions.push(ShellAction::SetTopDrawerOpen(self.top_drawer_open));
        actions.push(ShellAction::SetNavActive(self.active_route));
        assert(actions@ =~= close_step(s).1);
    }

    fn toggle_drawer(&mut self, actions: &mut Vec<ShellAction>)
        requires
            old(actions)@.len() == 0,
        ensures
            (final(self)@, final(actions)@) == toggle_drawer_step(old(self)@),
    {
        let ghost s = self@;
        self.app_drawer_open = !self.app_drawer_open;
        if self.app_drawer_open {
            self.top_drawer_open = false;
        }
        actions.push(ShellAction::SetDrawerOpen(self.app_drawer_open));
        actions.push(ShellAction::SetTopDrawerOpen(self.top_drawer_open));
        assert(actions@ =~= toggle_drawer_step(s).1);
    }

    fn toggle_top_drawer(&mut self, actions: &mut Vec<ShellAction>)
        requires
            old(actions)@.len() == 0,
        ensures
            (final(self)@, final(actions)@) == toggle_top_step(old(self)@),
    {
        let ghost s = self@;
        self.top_drawer_open = !self.top_drawer_open;
        if self.top_drawer_open {
            self.app_drawer_open = false;
        }
        actions.push(ShellAction::SetTopDrawerOpen(self.top_drawer_open));
        actions.push(ShellAction::SetDrawerOpen(self.app_drawer_open));
        assert(actions@ =~= toggle_top_step(s).1);
    }

    fn quick(&self, toggle: QuickToggle, actions: &mut Vec<ShellAction>)
        requires
            old(actions)@.len() == 0,
        ensures
            (self@, final(actions)@) == quick_step(self@, toggle),
    {
        let action = match toggle {
            QuickToggle::Wifi => ShellAction::RunToggle(SystemToggle::Wifi, !self.toggles.wifi_enabled),
            QuickToggle::Lte => ShellAction::RunToggle(SystemToggle::Lte, !self.toggles.lte_enabled),
            QuickToggle::Silent => ShellAction::RunToggle(SystemToggle::Silent, !self.toggles.silent_mode),
            QuickToggle::BatterySaver => ShellAction::RunToggle(SystemToggle::BatterySaver, !self.toggles.battery_saver),
        };
        actions.push(action);
        assert(actions@ =~= quick_step(self@, toggle).1);
    }

    fn applied(&mut self, outcome: Result<(DeviceSnapshot, SystemToggleState), String>, actions: &mut Vec<ShellAction>)
        requires
            old(actions)@.len() == 0,
        ensures
            (final(self)@, final(actions)@) == applied_step(old(self)@, outcome),
    {
        let ghost s = self@;
        let ghost o = outcome;
        match outcome {
            Ok((snapshot, toggles)) => {
                self.system_toggle_notice = None;
                self.snapshot = snapshot;
                self.toggles = toggles;
            },
            Err(error) => {
                self.system_toggle_notice = Some(error);
            },
        }
        actions.push(ShellAction::PushTopDrawerState);
        assert(actions@ =~= applied_step(s, o).1);
    }

    fn swipe_to(&mut self, surface: AppSurface, actions: &mut Vec<ShellAction>)
        requires
            old(actions)@.len() == 0,
        ensures
            (final(self)@, final(actions)@) == swipe_to_step(old(self)@, surface),
    {
        let ghost s = self@;
        self.active_surface = surface;
        if self.active_app_id.is_none() {
            self.active_route = AppRoute::Surface(surface);
            actions.push(ShellAction::SetNavActive(self.active_route));
        }
        assert(actions@ =~= swipe_to_step(s, surface).1);
    }

    fn swipe_dock(&self, dx: i32, dy: i32, actions: &mut Vec<ShellAction>)
        requires
            old(actions)@.len() == 0,
            dx != i32::MIN,
            dy != i32::MIN,
        ensures
            (self@, final(actions)@) == swipe_dock_step(self@, dx, dy),
    {
        if self.top_drawer_open || self.app_drawer_open {
            assert(actions@ =~= swipe_dock_step(self@, dx, dy).1);
            return;
        }
        let adx = if dx < 0 { -dx } else { dx };
        let ady = if dy < 0 { -dy } else { dy };
        if adx < 44 || adx <= ady {
            assert(actions@ =~= swipe_dock_step(self@, dx, dy).1);
            return;
        }
        let next = if dx < 0 {
            dock_tab_next(self.active_route)
        } else {
            dock_tab_prev(self.active_route)
        };
        actions.push(ShellAction::Navigate(next));
        assert(actions@ =~= swipe_dock_step(self@, dx, dy).1);
    }

    /// Takes an event: changes the shell's state and returns what its widgets
    /// and the system are told, in order.
    pub fn update(&mut self, event: ShellEvent) -> (actions: Vec<ShellAction>)
        requires
            shell_invariant(old(self)@),
            event_ok(event),
        ensures
            final(self)@ == step(old(self)@, event).0,
            actions@ == step(old(self)@, event).1,
            shell_invariant(final(self)@),
    {
        let ghost s = self@;
        let ghost e = event;
        let mut actions: Vec<ShellAction> = Vec::new();
        match event {
            ShellEvent::Tick { theme_mode, snapshot, toggles } => self.tick(theme_mode, snapshot, toggles, &mut actions),
            ShellEvent::Route(route) => self.route(route, &mut actions),
            ShellEvent::OpenApp(app_id) => {
                self.request_app(app_id, None, &mut actions);
                assert(actions@ =~= step(s, e).1);
            },
            ShellEvent::OpenAppRequest(request) => {
                self.request_app(request.app_id, request.payload, &mut actions);
                assert(actions@ =~= step(s, e).1);
            },
            ShellEvent::CloseApp => self.close(&mut actions),
            ShellEvent::ToggleDrawer => self.toggle_drawer(&mut actions),
            ShellEvent::ToggleTopDrawer => self.toggle_top_drawer(&mut actions),
            ShellEvent::ToggleQuick(toggle) => self.quick(toggle, &mut actions),
            ShellEvent::ToggleApplied(outcome) => self.applied(outcome, &mut actions),
            ShellEvent::SetLayoutMode(layout_mode) => {
                self.layout_mode = layout_mode;
            },
            ShellEvent::SwipeTo(surface) => self.swipe_to(surface, &mut actions),
            ShellEvent::SwipeDock(dx, dy) => self.swipe_dock(dx, dy, &mut actions),
        }
        proof {
            lemma_step_keeps_invariant(s, e);
        }
        actions
    }
}

/// Every event keeps the shell's invariant.
pub proof fn lemma_step_keeps_invariant(s: ShellView, event: ShellEvent)
    requires
        shell_invariant(s),
    ensures
        shell_invariant(step(s, event).0),
{
    match event {
        ShellEvent::Route(AppRoute::App(app_id)) => {
            lemma_open_keeps_invariant(ShellView { active_route: AppRoute::App(app_id), ..s }, app_id, None);
        },
        ShellEvent::OpenApp(app_id) => {
            lemma_open_keeps_invariant(ShellView { active_route: AppRoute::App(app_id), ..s }, app_id, None);
            lemma_open_keeps_invariant(s, app_id, None);
        },
        ShellEvent::OpenAppRequest(request) => {
            lemma_open_keeps_invariant(ShellView { active_route: AppRoute::App(request.app_id), ..s }, request.app_id, request.payload);
            lemma_open_keeps_invariant(s, request.app_id, request.payload);
        },
        ShellEvent::CloseApp => {
            if let Some(id) = s.active_app_id {
                lemma_filter_running(s.running_apps, other_app(id@));
            }
        },
        _ => {},
    }
}

/// Opening an app keeps the shell's invariant, given the running apps'
/// invariant and that the drawers are not both open.
pub proof fn lemma_open_keeps_invariant(s: ShellView, app_id: &'static str, payload: Option<AppLaunchPayload>)
    requires
        running_apps_invariant(s.running_apps),
        !(s.app_drawer_open && s.top_drawer_open),
    ensures
        shell_invariant(open_app_step(s, app_id, payload).0),
{
    if let Some(manifest) = manifest_with_id(builtin_manifest_list(), app_id@) {
        lemma_open_running(s.running_apps, manifest, payload);
    }
}


/// Filtering a filtered sequence again changes nothing.
pub proof fn lemma_filter_twice<V>(s: Seq<V>, pred: spec_fn(V) -> bool)
    ensures
        s.filter(pred).filter(pred) == s.filter(pred),
    decreases s.len(),
{
    reveal(Seq::filter);
    if s.len() > 0 {
        let init = s.drop_last();
        lemma_filter_twice(init, pred);
        if pred(s.last()) {
            assert(s.filter(pred) == init.filter(pred).push(s.last()));
            init.filter(pred).lemma_filter_push(s.last(), pred);
        } else {
            assert(s.filter(pred) == init.filter(pred));
        }
    }
}

/// Opening a built-in app and then going back leaves no app open and the
/// shell on the surface it was on, with the recent-apps drawer shut; the app
/// no longer runs, and the apps that ran before it still do, in their order
/// and none active.
pub proof fn lemma_open_then_close(s: ShellView, app_id: &'static str)
    requires
        shell_invariant(s),
        manifest_with_id(builtin_manifest_list(), app_id@) is Some,
    ensures
        ({
            let t = step(step(s, ShellEvent::OpenApp(app_id)).0, ShellEvent::CloseApp).0;
            &&& t.active_app_id is None
            &&& t.active_launch_payload is None
            &&& t.active_surface == s.active_surface
            &&& t.active_route == AppRoute::Surface(s.active_surface)
            &&& !t.app_drawer_open
            &&& t.running_apps == s.running_apps.map_values(|e: AppDrawerEntry| inactive(e)).filter(
                other_app(app_id@),
            )
        }),
{
    let manifest = manifest_with_id(builtin_manifest_list(), app_id@)->0;
    crate::search::lemma_first_index(builtin_manifest_list(), crate::apps::has_id(app_id@));
    assert(manifest.id@ == app_id@);
    let pred = other_app(app_id@);
    let f = s.running_apps.map_values(|e: AppDrawerEntry| inactive(e)).filter(pred);
    let head = AppDrawerEntry { manifest, payload: None, is_active: true };
    f.lemma_filter_prepend(head, pred);
    lemma_filter_twice(s.running_apps.map_values(|e: AppDrawerEntry| inactive(e)), pred);
    assert((seq![head] + f).filter(pred) =~= f);
}

/// Opening a built-in app makes it the open app and puts it first among the
/// running apps, active, with no other entry for it; both drawers shut.
pub proof fn lemma_open_app_runs_first(s: ShellView, app_id: &'static str)
    requires
        shell_invariant(s),
        manifest_with_id(builtin_manifest_list(), app_id@) is Some,
    ensures
        ({
            let t = step(s, ShellEvent::OpenApp(app_id)).0;
            &&& t.active_app_id == Some(app_id)
            &&& t.running_apps.len() >= 1
            &&& t.running_apps[0].manifest.id@ == app_id@
            &&& t.running_apps[0].is_active
            &&& forall|i: int| 0 < i < t.running_apps.len() ==> (#[trigger] t.running_apps[i]).manifest.id@ != app_id@
            &&& !t.app_drawer_open && !t.top_drawer_open
        }),
{
    let manifest = manifest_with_id(builtin_manifest_list(), app_id@)->0;
    crate::search::lemma_first_index(builtin_manifest_list(), crate::apps::has_id(app_id@));
    assert(manifest.id@ == app_id@);
    let d = s.running_apps.map_values(|e: AppDrawerEntry| inactive(e));
    let pred = other_app(app_id@);
    let f = d.filter(pred);
    let head = AppDrawerEntry { manifest, payload: None, is_active: true };
    let r = seq![head] + f;
    assert forall|i: int| 0 < i < r.len() implies (#[trigger] r[i]).manifest.id@ != app_id@ by {
        assert(r[i] == f[i - 1]);
        d.lemma_filter_pred(pred, i - 1);
    }
}

/// Toggling the recent-apps drawer twice leaves it as it was.
pub proof fn lemma_drawer_toggle_twice(s: ShellView)
    ensures
        step(step(s, ShellEvent::ToggleDrawer).0, ShellEvent::ToggleDrawer).0.app_drawer_open
            == s.app_drawer_open,
{
}

/// The system toggle that a quick-settings tile switches.
pub open spec fn quick_toggle_target(tile: QuickToggle) -> SystemToggle {
    match tile {
        QuickToggle::Wifi => SystemToggle::Wifi,
        QuickToggle::Lte => SystemToggle::Lte,
        QuickToggle::Silent => SystemToggle::Silent,
        QuickToggle::BatterySaver => SystemToggle::BatterySaver,
    }
}

/// A tap on a quick-settings tile leaves the shell as it was and asks for
/// one thing only: that the tile's system toggle be set to the opposite of
/// what it now is.
pub proof fn lemma_quick_tap_flips(s: ShellView, tile: QuickToggle)
    ensures
        step(s, ShellEvent::ToggleQuick(tile)).0 == s,
        step(s, ShellEvent::ToggleQuick(tile)).1 == seq![
            ShellAction::RunToggle(quick_toggle_target(tile), !toggle_is_on(s.toggles, quick_toggle_target(tile))),
        ],
{
}

impl ShellModel {
    /// The open app, if any.
    pub fn active_app_id(&self) -> (r: Option<&'static str>)
        ensures
            r == self@.active_app_id,
    {
        self.active_app_id
    }

    /// The payload the open app was opened with.
    pub fn active_launch_payload(&self) -> (r: &Option<AppLaunchPayload>)
        ensures
            *r == self@.active_launch_payload,
    {
        &self.active_launch_payload
    }

    /// The dock's active route.
    pub fn active_route(&self) -> (r: AppRoute)
        ensures
            r == self@.active_route,
    {
        self.active_route
    }

    /// The surface the carousel shows.
    pub fn active_surface(&self) -> (r: AppSurface)
        ensures
            r == self@.active_surface,
    {
        self.active_surface
    }

    /// Whether the recent-apps drawer is open.
    pub fn app_drawer_open(&self) -> (r: bool)
        ensures
            r == self@.app_drawer_open,
    {
        self.app_drawer_open
    }

    /// Whether the top drawer is open.
    pub fn top_drawer_open(&self) -> (r: bool)
        ensures
            r == self@.top_drawer_open,
    {
        self.top_drawer_open
    }

    /// The layout the window allows.
    pub fn layout_mode(&self) -> (r: LayoutMode)
        ensures
            r == self@.layout_mode,
    {
        self.layout_mode
    }

    /// The theme in use.
    pub fn theme_mode(&self) -> (r: ThemeMode)
        ensures
            r == self@.theme_mode,
    {
        self.theme_mode
    }

    /// The latest device snapshot.
    pub fn snapshot(&self) -> (r: &DeviceSnapshot)
        ensures
            *r == self@.snapshot,
    {
        &self.snapshot
    }

    /// The state of the shell's screens.
    pub fn shell_state(&self) -> (r: &ShellState)
        ensures
            module_views(r.apps.modules@) == self@.modules,
    {
        &self.shell_state
    }

    /// The system toggles.
    pub fn toggles(&self) -> (r: SystemToggleState)
        ensures
            r == self@.toggles,
    {
        self.toggles
    }

    /// The running apps, most recent first.
    pub fn running_apps(&self) -> (r: &Vec<AppDrawerEntry>)
        ensures
            r@ == self@.running_apps,
    {
        &self.running_apps
    }

    /// What the top drawer shows: the snapshot, the toggles and the notice.
    pub fn top_drawer_state(&self) -> (r: TopDrawerState)
        ensures
            r == (TopDrawerState {
                snapshot: self@.snapshot,
                wifi_enabled: self@.toggles.wifi_enabled,
                lte_enabled: self@.toggles.lte_enabled,
                silent_mode: self@.toggles.silent_mode,
                battery_saver: self@.toggles.battery_saver,
                notice: self@.system_toggle_notice,
            }),
    {
        TopDrawerState {
            snapshot: self.snapshot.clone(),
            wifi_enabled: self.toggles.wifi_enabled,
            lte_enabled: self.toggles.lte_enabled,
            silent_mode: self.toggles.silent_mode,
            battery_saver: self.toggles.battery_saver,
            notice: clone_notice(&self.system_toggle_notice),
        }
    }

    /// The carousel shows while no app is open, the app host while one is.
    pub fn carousel_visible(&self) -> (r: bool)
        ensures
            r == (self@.active_app_id is None),
    {
        self.active_app_id.is_none()
    }
}

} // verus!
