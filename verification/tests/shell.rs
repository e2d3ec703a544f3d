use platinum_shell::app_sdk::{AppLaunchPayload, AppLaunchRequest, ContactPayload};
use platinum_shell::apps::builtin_manifest;
use platinum_shell::components::QuickToggle;
use platinum_shell::device::{load_device_snapshot, NetworkKind, NetworkSnapshot};
use platinum_shell::device_service::{SystemToggle, SystemToggleState};
use platinum_shell::navigation::{AppRoute, AppSurface};
use platinum_shell::shell::{
    remove_running_app, upsert_running_app, LayoutMode, ShellAction, ShellEvent, ShellModel,
};
use platinum_shell::theme::ThemeMode;

fn toggles() -> SystemToggleState {
    SystemToggleState { wifi_enabled: true, lte_enabled: false, silent_mode: false, battery_saver: false }
}

fn shell() -> ShellModel {
    let snapshot = load_device_snapshot(Some((70, false)), None, 1_700_000_000);
    let (model, actions) = ShellModel::new(ThemeMode::Light, snapshot, toggles());
    assert_eq!(
        actions,
        vec![
            ShellAction::PushDrawerEntries,
            ShellAction::SetDrawerOpen(false),
            ShellAction::PushTopDrawerState,
            ShellAction::SetTopDrawerOpen(false),
        ]
    );
    model
}

#[test]
fn the_shell_starts_home() {
    let model = shell();
    assert_eq!(model.active_app_id(), None);
    assert_eq!(model.active_route(), AppRoute::Surface(AppSurface::Home));
    assert_eq!(model.active_surface(), AppSurface::Home);
    assert!(!model.app_drawer_open());
    assert!(!model.top_drawer_open());
    assert_eq!(model.layout_mode(), LayoutMode::Compact);
    assert!(model.running_apps().is_empty());
    assert!(model.carousel_visible());
    assert_eq!(model.shell_state().apps.modules.len(), 10);
}

#[test]
fn opening_a_dock_app() {
    let mut model = shell();
    let actions = model.update(ShellEvent::OpenApp("call"));
    let manifest = builtin_manifest("call").unwrap();
    assert_eq!(
        actions,
        vec![
            ShellAction::SetNavActive(AppRoute::App("call")),
            ShellAction::ShowApp { manifest, payload: None },
            ShellAction::PushDrawerEntries,
            ShellAction::SetDrawerOpen(false),
            ShellAction::SetTopDrawerOpen(false),
        ]
    );
    assert_eq!(model.active_app_id(), Some("call"));
    assert_eq!(model.active_route(), AppRoute::App("call"));
    assert_eq!(model.running_apps().len(), 1);
    assert!(model.running_apps()[0].is_active);
    assert!(!model.carousel_visible());
}

#[test]
fn switching_apps_leaves_the_previous_one() {
    let mut model = shell();
    model.update(ShellEvent::OpenApp("clock"));
    let contact = AppLaunchPayload::Contact(ContactPayload {
        name: String::from("Field Team"),
        phone: String::from("+7 912 440 53 20"),
    });
    let request = AppLaunchRequest { app_id: "message", payload: Some(contact.clone()) };
    let actions = model.update(ShellEvent::OpenAppRequest(request));
    assert_eq!(actions[0], ShellAction::SetNavActive(AppRoute::App("message")));
    assert_eq!(
        actions[1],
        ShellAction::Deactivate { app_id: "clock", payload: Some(contact.clone()) }
    );
    assert_eq!(model.active_launch_payload(), &Some(contact));
    let ids: Vec<&str> = model.running_apps().iter().map(|e| e.manifest.id).collect();
    assert_eq!(ids, vec!["message", "clock"]);
    assert!(model.running_apps()[0].is_active);
    assert!(!model.running_apps()[1].is_active);
    model.update(ShellEvent::OpenApp("clock"));
    let ids: Vec<&str> = model.running_apps().iter().map(|e| e.manifest.id).collect();
    assert_eq!(ids, vec!["clock", "message"]);
}

#[test]
fn closing_returns_to_the_surface() {
    let mut model = shell();
    model.update(ShellEvent::SwipeTo(AppSurface::Apps));
    model.update(ShellEvent::OpenApp("settings"));
    let actions = model.update(ShellEvent::CloseApp);
    assert_eq!(
        actions,
        vec![
            ShellAction::Deactivate { app_id: "settings", payload: None },
            ShellAction::CloseHost,
            ShellAction::PushDrawerEntries,
            ShellAction::SetDrawerOpen(false),
            ShellAction::SetTopDrawerOpen(false),
            ShellAction::SetNavActive(AppRoute::Surface(AppSurface::Apps)),
        ]
    );
    assert_eq!(model.active_app_id(), None);
    assert_eq!(model.active_route(), AppRoute::Surface(AppSurface::Apps));
    assert!(model.running_apps().is_empty());
}

#[test]
fn unknown_apps_open_without_a_host() {
    let mut model = shell();
    let actions = model.update(ShellEvent::OpenApp("nowhere"));
    assert!(actions.is_empty());
    assert_eq!(model.active_app_id(), Some("nowhere"));
    assert!(model.running_apps().is_empty());
}

#[test]
fn drawers_exclude_each_other() {
    let mut model = shell();
    model.update(ShellEvent::ToggleTopDrawer);
    assert!(model.top_drawer_open());
    let actions = model.update(ShellEvent::ToggleDrawer);
    assert_eq!(actions, vec![ShellAction::SetDrawerOpen(true), ShellAction::SetTopDrawerOpen(false)]);
    assert!(model.app_drawer_open() && !model.top_drawer_open());
    model.update(ShellEvent::ToggleDrawer);
    assert!(!model.app_drawer_open());
}

#[test]
fn dock_swipes() {
    let mut model = shell();
    assert_eq!(
        model.update(ShellEvent::SwipeDock(-60, 10)),
        vec![ShellAction::Navigate(AppRoute::Surface(AppSurface::Apps))]
    );
    assert_eq!(
        model.update(ShellEvent::SwipeDock(60, 10)),
        vec![ShellAction::Navigate(AppRoute::App("message"))]
    );
    assert!(model.update(ShellEvent::SwipeDock(-43, 0)).is_empty());
    assert!(model.update(ShellEvent::SwipeDock(-50, 50)).is_empty());
    model.update(ShellEvent::ToggleDrawer);
    assert!(model.update(ShellEvent::SwipeDock(-80, 0)).is_empty());
}

#[test]
fn routes_close_apps() {
    let mut model = shell();
    model.update(ShellEvent::Route(AppRoute::App("message")));
    assert_eq!(model.active_app_id(), Some("message"));
    let actions = model.update(ShellEvent::Route(AppRoute::Surface(AppSurface::Home)));
    assert_eq!(
        actions,
        vec![ShellAction::CloseHost, ShellAction::SetNavActive(AppRoute::Surface(AppSurface::Home))]
    );
    assert_eq!(model.active_app_id(), None);
    assert_eq!(model.running_apps().len(), 1);
}

#[test]
fn quick_toggles_and_their_outcome() {
    let mut model = shell();
    assert_eq!(
        model.update(ShellEvent::ToggleQuick(QuickToggle::Wifi)),
        vec![ShellAction::RunToggle(SystemToggle::Wifi, false)]
    );
    assert_eq!(
        model.update(ShellEvent::ToggleQuick(QuickToggle::BatterySaver)),
        vec![ShellAction::RunToggle(SystemToggle::BatterySaver, true)]
    );
    model.update(ShellEvent::ToggleApplied(Err(String::from("nmcli failed"))));
    assert_eq!(model.top_drawer_state().notice, Some(String::from("nmcli failed")));
    let net = NetworkSnapshot { kind: NetworkKind::Lte, is_online: true, signal_level: 2 };
    let snapshot = load_device_snapshot(Some((50, true)), Some(net), 1_700_000_000);
    let next = SystemToggleState { wifi_enabled: false, lte_enabled: true, silent_mode: true, battery_saver: false };
    model.update(ShellEvent::ToggleApplied(Ok((snapshot, next))));
    let state = model.top_drawer_state();
    assert_eq!(state.notice, None);
    assert!(state.lte_enabled && state.silent_mode && !state.wifi_enabled);
    assert_eq!(model.toggles(), next);
    assert_eq!(model.snapshot().battery_level, 50);
}

#[test]
fn ticks_apply_a_changed_theme() {
    let mut model = shell();
    let snapshot = load_device_snapshot(Some((70, false)), None, 1_700_000_000);
    assert_eq!(
        model.update(ShellEvent::Tick { theme_mode: ThemeMode::Dark, snapshot, toggles: toggles() }),
        vec![
            ShellAction::ApplyTheme(ThemeMode::Dark),
            ShellAction::PushHomeSnapshot,
            ShellAction::PushAppsState,
            ShellAction::PushTopDrawerState,
        ]
    );
    assert_eq!(model.theme_mode(), ThemeMode::Dark);
    let snapshot = load_device_snapshot(Some((70, false)), None, 1_700_000_000);
    let actions = model.update(ShellEvent::Tick { theme_mode: ThemeMode::Dark, snapshot, toggles: toggles() });
    assert_eq!(actions.len(), 3);
    model.update(ShellEvent::SetLayoutMode(LayoutMode::Expanded));
    assert_eq!(model.layout_mode(), LayoutMode::Expanded);
}

#[test]
fn running_app_list_updates() {
    let call = builtin_manifest("call").unwrap();
    let clock = builtin_manifest("clock").unwrap();
    let mut entries = Vec::new();
    upsert_running_app(&mut entries, call, None);
    upsert_running_app(&mut entries, clock, None);
    upsert_running_app(&mut entries, call, None);
    let ids: Vec<&str> = entries.iter().map(|e| e.manifest.id).collect();
    assert_eq!(ids, vec!["call", "clock"]);
    assert!(entries[0].is_active && !entries[1].is_active);
    remove_running_app(&mut entries, "call");
    let ids: Vec<&str> = entries.iter().map(|e| e.manifest.id).collect();
    assert_eq!(ids, vec!["clock"]);
}
