use platinum_shell::app_sdk::AppManifest;
use platinum_shell::components::{
    apps_icon_name, battery_percent_label, connectivity_label, context_pills, drawer_entry_labels,
    hours_label, minutes_label, network_label, power_label, profile_label, quick_tile,
    signal_bars_label, theme_status_label, AppDrawerEntry, QuickToggle, TopDrawerState,
};
use platinum_shell::device::{load_device_snapshot, DeviceSnapshot, NetworkKind, NetworkSnapshot};
use platinum_shell::indicators::{
    battery_fill_class, battery_fill_width, fill_frame, network_kind_icon_name, signal_bar_active,
    signal_bar_height, status_dot_class, FillFrame,
};
use platinum_shell::navigation::{dock_tab_next, dock_tab_prev, surface_for_index, surface_index, AppRoute, AppSurface};
use platinum_shell::theme::{
    color_scheme_for, resolve_theme, theme_mode_from_contents, ColorSchemeChoice, ResolvedTheme,
    ThemeMode,
};
use platinum_shell::window::{is_portrait_device, layout_profile, theme_css_class, window_width};
use platinum_shell::shell::LayoutMode;

fn snapshot_at(time: &str) -> DeviceSnapshot {
    let mut s = load_device_snapshot(Some((64, false)), None, 1_700_000_000);
    s.time_label = String::from(time);
    s
}

fn drawer_state(charging: bool, saver: bool, silent: bool) -> TopDrawerState {
    let mut snapshot = load_device_snapshot(Some((64, charging)), None, 1_700_000_000);
    snapshot.battery_charging = charging;
    TopDrawerState {
        snapshot,
        wifi_enabled: true,
        lte_enabled: false,
        silent_mode: silent,
        battery_saver: saver,
        notice: None,
    }
}

#[test]
fn clock_labels_split_at_the_colon() {
    assert_eq!(hours_label(&snapshot_at("09:41")), "09");
    assert_eq!(minutes_label(&snapshot_at("09:41")), "41");
    assert_eq!(hours_label(&snapshot_at("0941")), "00");
    assert_eq!(minutes_label(&snapshot_at("0941")), "00");
    assert_eq!(minutes_label(&snapshot_at("1:2:3")), "2:3");
}

#[test]
fn top_drawer_labels() {
    assert_eq!(network_label(NetworkKind::Wifi, true), "Wi-Fi");
    assert_eq!(network_label(NetworkKind::Ethernet, true), "Ethernet");
    assert_eq!(network_label(NetworkKind::Lte, true), "LTE");
    assert_eq!(network_label(NetworkKind::Unknown, true), "Connected");
    assert_eq!(network_label(NetworkKind::Offline, true), "Offline");
    assert_eq!(network_label(NetworkKind::Wifi, false), "Offline");
    assert_eq!(power_label(&drawer_state(true, true, false)), "Charging");
    assert_eq!(power_label(&drawer_state(false, true, false)), "Battery Saver");
    assert_eq!(power_label(&drawer_state(false, false, false)), "On battery");
    assert_eq!(profile_label(&drawer_state(false, false, true)), "Silent");
    assert_eq!(profile_label(&drawer_state(false, false, false)), "Default");
}

#[test]
fn quick_tiles() {
    let state = drawer_state(false, true, false);
    let wifi = quick_tile(QuickToggle::Wifi, &state);
    assert_eq!((wifi.title, wifi.value, wifi.active), ("Wi-Fi", "On", true));
    let lte = quick_tile(QuickToggle::Lte, &state);
    assert_eq!((lte.title, lte.value, lte.active), ("LTE", "Off", false));
    let silent = quick_tile(QuickToggle::Silent, &state);
    assert_eq!((silent.title, silent.value, silent.active), ("Silent", "Off", false));
    let saver = quick_tile(QuickToggle::BatterySaver, &state);
    assert_eq!((saver.title, saver.value, saver.active), ("Saver", "Active", true));
    let quiet = quick_tile(QuickToggle::Silent, &drawer_state(false, false, true));
    assert_eq!(quiet.value, "Enabled");
    assert_eq!(quick_tile(QuickToggle::BatterySaver, &drawer_state(false, false, true)).value, "Normal");
}

#[test]
fn drawer_rows_and_app_icons() {
    let manifest = AppManifest { id: "call", title: "Call", icon_name: "call", description: "" };
    let active = AppDrawerEntry { manifest, payload: None, is_active: true };
    assert_eq!(drawer_entry_labels(&active), ("Running now", "Live"));
    let idle = AppDrawerEntry { manifest, payload: None, is_active: false };
    assert_eq!(drawer_entry_labels(&idle), ("Hold to restore", "Ready"));
    assert_eq!(apps_icon_name("calendar", "x"), "calendar-home");
    assert_eq!(apps_icon_name("platinum_one", "x"), "platinum-one-home");
    assert_eq!(apps_icon_name("settings", "x"), "settings-home");
    assert_eq!(apps_icon_name("relay", "relay"), "relay");
}

#[test]
fn settings_and_assistant_labels() {
    assert_eq!(battery_percent_label(0), "0%");
    assert_eq!(battery_percent_label(7), "7%");
    assert_eq!(battery_percent_label(64), "64%");
    assert_eq!(battery_percent_label(100), "100%");
    assert_eq!(battery_percent_label(255), "255%");
    assert_eq!(signal_bars_label(3), "3/5");
    assert_eq!(theme_status_label(ThemeMode::Auto), "Theme Auto");
    assert_eq!(connectivity_label(true), "Connected");
    assert_eq!(connectivity_label(false), "Offline");
    let mut s = snapshot_at("22:05");
    s.date_label = String::from("Mon, 03 Feb");
    s.network_is_online = true;
    let (time, date, online) = context_pills(&s);
    assert_eq!(time, "Time 22:05");
    assert_eq!(date, "Date Mon, 03 Feb");
    assert_eq!(online, "Online");
}

#[test]
fn status_indicators() {
    assert_eq!(network_kind_icon_name(NetworkKind::Wifi), "status-wifi");
    assert_eq!(network_kind_icon_name(NetworkKind::Ethernet), "status-ethernet");
    assert_eq!(network_kind_icon_name(NetworkKind::Lte), "status-lte");
    assert_eq!(network_kind_icon_name(NetworkKind::Unknown), "status-offline");
    assert_eq!(network_kind_icon_name(NetworkKind::Offline), "status-offline");
    let lit: Vec<bool> = (0..5).map(|i| signal_bar_active(i, 3)).collect();
    assert_eq!(lit, vec![true, true, true, false, false]);
    assert!(signal_bar_active(4, 9));
    assert!(!signal_bar_active(5, 9));
    assert_eq!(signal_bar_height(0), 6);
    assert_eq!(signal_bar_height(4), 18);
    assert_eq!(status_dot_class(true), "status-dot-online");
    assert_eq!(status_dot_class(false), "status-dot-offline");
}

#[test]
fn battery_gauge() {
    assert_eq!(battery_fill_width(0), 4);
    assert_eq!(battery_fill_width(15), 4);
    assert_eq!(battery_fill_width(16), 4);
    assert_eq!(battery_fill_width(20), 5);
    assert_eq!(battery_fill_width(50), 13);
    assert_eq!(battery_fill_width(100), 26);
    assert_eq!(battery_fill_width(200), 26);
    assert_eq!(battery_fill_class(5, true), "battery-fill-charging");
    assert_eq!(battery_fill_class(10, false), "battery-fill-critical");
    assert_eq!(battery_fill_class(11, false), "battery-fill-low");
    assert_eq!(battery_fill_class(20, false), "battery-fill-low");
    assert_eq!(battery_fill_class(55, false), "battery-fill-mid");
    assert_eq!(battery_fill_class(56, false), "battery-fill-high");
}

#[test]
fn battery_fill_animation_steps_one_pixel() {
    assert_eq!(fill_frame(13, 13), FillFrame::Settled);
    assert_eq!(fill_frame(0, 4), FillFrame::Settled);
    assert_eq!(fill_frame(10, 13), FillFrame::Step { width: 11, last: false });
    assert_eq!(fill_frame(12, 13), FillFrame::Step { width: 13, last: true });
    assert_eq!(fill_frame(26, 20), FillFrame::Step { width: 25, last: false });
    assert_eq!(fill_frame(-1, 6), FillFrame::Step { width: 5, last: false });
    let mut width = 4;
    let mut frames = 0;
    loop {
        match fill_frame(width, 26) {
            FillFrame::Settled => break,
            FillFrame::Step { width: w, last } => {
                width = w;
                frames += 1;
                if last {
                    break;
                }
            }
        }
    }
    assert_eq!((width, frames), (26, 22));
}

#[test]
fn themes() {
    for mode in [ThemeMode::Light, ThemeMode::Dark, ThemeMode::Auto] {
        assert_eq!(ThemeMode::from_str(mode.as_str()), Some(mode));
    }
    assert_eq!(ThemeMode::from_str("  dark\n"), Some(ThemeMode::Dark));
    assert_eq!(ThemeMode::from_str("Dark"), None);
    assert_eq!(ThemeMode::from_str(""), None);
    assert_eq!(ThemeMode::Light.title(), "Light");
    assert_eq!(ThemeMode::Auto.as_str(), "auto");
    assert_eq!(resolve_theme(ThemeMode::Light, true), ResolvedTheme::Light);
    assert_eq!(resolve_theme(ThemeMode::Dark, false), ResolvedTheme::Dark);
    assert_eq!(resolve_theme(ThemeMode::Auto, true), ResolvedTheme::Dark);
    assert_eq!(resolve_theme(ThemeMode::Auto, false), ResolvedTheme::Light);
    assert_eq!(color_scheme_for(ThemeMode::Light), ColorSchemeChoice::ForceLight);
    assert_eq!(color_scheme_for(ThemeMode::Dark), ColorSchemeChoice::ForceDark);
    assert_eq!(color_scheme_for(ThemeMode::Auto), ColorSchemeChoice::Default);
    assert_eq!(theme_mode_from_contents(None), ThemeMode::Light);
    assert_eq!(theme_mode_from_contents(Some("auto\n")), ThemeMode::Auto);
    assert_eq!(theme_mode_from_contents(Some("purple")), ThemeMode::Light);
}

#[test]
fn navigation_cycles_through_the_dock() {
    let home = AppRoute::Surface(AppSurface::Home);
    let apps = AppRoute::Surface(AppSurface::Apps);
    assert_eq!(dock_tab_next(home), apps);
    assert_eq!(dock_tab_next(apps), AppRoute::App("call"));
    assert_eq!(dock_tab_next(AppRoute::App("call")), AppRoute::App("message"));
    assert_eq!(dock_tab_next(AppRoute::App("message")), home);
    assert_eq!(dock_tab_prev(home), AppRoute::App("message"));
    assert_eq!(dock_tab_prev(AppRoute::App("message")), AppRoute::App("call"));
    assert_eq!(dock_tab_prev(AppRoute::App("call")), apps);
    assert_eq!(dock_tab_prev(apps), home);
    assert_eq!(dock_tab_next(AppRoute::App("clock")), home);
    assert_eq!(dock_tab_prev(AppRoute::App("clock")), home);
    assert_eq!(surface_index(AppSurface::Home), 0);
    assert_eq!(surface_index(AppSurface::Apps), 1);
    assert_eq!(surface_for_index(1), AppSurface::Apps);
    assert_eq!(surface_for_index(7), AppSurface::Home);
}

#[test]
fn window_layout() {
    let compact = layout_profile(LayoutMode::Compact);
    assert_eq!((compact.css_class, compact.stage_spacing, compact.allow_long_swipes), ("layout-compact", 14, false));
    let regular = layout_profile(LayoutMode::Regular);
    assert_eq!((regular.css_class, regular.stage_spacing, regular.allow_long_swipes), ("layout-regular", 18, true));
    let expanded = layout_profile(LayoutMode::Expanded);
    assert_eq!((expanded.css_class, expanded.stage_spacing, expanded.allow_long_swipes), ("layout-expanded", 22, true));
    assert!(is_portrait_device(720, 1560));
    assert!(!is_portrait_device(1920, 1080));
    assert!(!is_portrait_device(1000, 1600));
    assert_eq!(window_width(0), 460);
    assert_eq!(window_width(-5), 460);
    assert_eq!(window_width(720), 720);
    assert_eq!(theme_css_class(ResolvedTheme::Dark), "theme-dark");
    assert_eq!(theme_css_class(ResolvedTheme::Light), "theme-light");
}

#[test]
fn network_snapshot_kinds_feed_labels() {
    let net = NetworkSnapshot { kind: NetworkKind::Lte, is_online: true, signal_level: 2 };
    let s = load_device_snapshot(None, Some(net), 1_700_000_000);
    assert_eq!(network_label(s.network_kind, s.network_is_online), "LTE");
}
