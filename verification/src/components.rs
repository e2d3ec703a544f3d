//! The state that the shell hands to its drawers, and the labels they show.
use vstd::prelude::*;

use crate::app_sdk::{clone_payload, AppLaunchPayload, AppManifest};
use crate::device::{DeviceSnapshot, NetworkKind};
use crate::text::{
    chars_of, decimal_spec, split_once_chars, split_once_spec, str_eq, string_from_chars,
    u8_decimal,
};
use crate::theme::{mode_title, ThemeMode};

verus! {

/// An app of the recent-apps drawer.
#[derive(Debug, PartialEq, Eq)]
pub struct AppDrawerEntry {
    pub manifest: AppManifest,
    pub payload: Option<AppLaunchPayload>,
    pub is_active: bool,
}

impl Clone for AppDrawerEntry {
    fn clone(&self) -> (r: Self)
        ensures
            r == *self,
    {
        AppDrawerEntry { manifest: self.manifest, payload: clone_payload(&self.payload), is_active: self.is_active }
    }
}

/// A tile of the quick settings.
#[derive(Debug, Clone, Copy, PartialEq, Eq, Structural)]
pub enum QuickToggle {
    Wifi,
    Lte,
    Silent,
    BatterySaver,
}

/// What the top drawer shows.
#[derive(Debug, PartialEq, Eq)]
pub struct TopDrawerState {
    pub snapshot: DeviceSnapshot,
    pub wifi_enabled: bool,
    pub lte_enabled: bool,
    pub silent_mode: bool,
    pub battery_saver: bool,
    pub notice: Option<String>,
}

/// Copies an optional text.
pub fn clone_notice(notice: &Option<String>) -> (r: Option<String>)
    ensures
        r == *notice,
{
    match notice {
        Some(text) => Some(text.clone()),
        None => None,
    }
}

impl Clone for TopDrawerState {
    fn clone(&self) -> (r: Self)
        ensures
            r == *self,
    {
        TopDrawerState {
            snapshot: self.snapshot.clone(),
            wifi_enabled: self.wifi_enabled,
            lte_enabled: self.lte_enabled,
            silent_mode: self.silent_mode,
            battery_saver: self.battery_saver,
            notice: clone_notice(&self.notice),
        }
    }
}


/// The part of a `HH:MM` time label before its first colon (`hours`) or
/// after it; `00` where the label has no colon.
pub open spec fn clock_part(time_label: Seq<char>, hours: bool) -> Seq<char> {
    match split_once_spec(time_label, ":"@) {
        Some((h, m)) => if hours {
            h
        } else {
            m
        },
        None => "00"@,
    }
}

/// The part of the snapshot's time label on one side of its first colon.
fn clock_part_exec(snapshot: &DeviceSnapshot, hours: bool) -> (r: String)
    ensures
        r@ == clock_part(snapshot.time_label@, hours),
{
    let chars = chars_of(snapshot.time_label.as_str());
    let colon = chars_of(":");
    match split_once_chars(&chars, &colon) {
        Some((h, m)) => if hours {
            string_from_chars(&h)
        } else {
            string_from_chars(&m)
        },
        None => String::from_str("00"),
    }
}

/// The hours of the home screen's clock.
pub fn hours_label(snapshot: &DeviceSnapshot) -> (r: String)
    ensures
        r@ == clock_part(snapshot.time_label@, true),
{
    clock_part_exec(snapshot, true)
}

/// The minutes of the home screen's clock.
pub fn minutes_label(snapshot: &DeviceSnapshot) -> (r: String)
    ensures
        r@ == clock_part(snapshot.time_label@, false),
{
    clock_part_exec(snapshot, false)
}

/// The connectivity row's value: `Offline` without a network, else the
/// network's kind.
pub open spec fn network_label_of(kind: NetworkKind, online: bool) -> Seq<char> {
    if !online {
        "Offline"@
    } else {
        match kind {
            NetworkKind::Wifi => "Wi-Fi"@,
            NetworkKind::Ethernet => "Ethernet"@,
            NetworkKind::Lte => "LTE"@,
            NetworkKind::Unknown => "Connected"@,
            NetworkKind::Offline => "Offline"@,
        }
    }
}

/// The connectivity row's value.
pub fn network_label(kind: NetworkKind, online: bool) -> (r: &'static str)
    ensures
        r@ == network_label_of(kind, online),
{
    if !online {
        return "Offline";
    }
    match kind {
        NetworkKind::Wifi => "Wi-Fi",
        NetworkKind::Ethernet => "Ethernet",
        NetworkKind::Lte => "LTE",
        NetworkKind::Unknown => "Connected",
        NetworkKind::Offline => "Offline",
    }
}

/// The power row's value: charging comes first, then battery saver.
pub fn power_label(state: &TopDrawerState) -> (r: &'static str)
    ensures
        r@ == if state.snapshot.battery_charging {
            "Charging"@
        } else if state.battery_saver {
            "Battery Saver"@
        } else {
            "On battery"@
        },
{
    if state.snapshot.battery_charging {
        "Charging"
    } else if state.battery_saver {
        "Battery Saver"
    } else {
        "On battery"
    }
}

/// The sound profile row's value.
pub fn profile_label(state: &TopDrawerState) -> (r: &'static str)
    ensures
        r@ == if state.silent_mode {
            "Silent"@
        } else {
            "Default"@
        },
{
    if state.silent_mode {
        "Silent"
    } else {
        "Default"
    }
}

/// A tile of the quick settings as shown: its title, its value, and
/// whether it is lit.
#[derive(Debug, Clone, Copy, PartialEq, Eq)]
pub struct QuickTile {
    pub title: &'static str,
    pub value: &'static str,
    pub active: bool,
}

/// The tile of `toggle` under `state`: Wi-Fi and LTE show `On` or `Off`,
/// silent mode `Enabled` or `Off`, battery saver `Active` or `Normal`.
pub open spec fn quick_tile_of(toggle: QuickToggle, state: TopDrawerState) -> (Seq<char>, Seq<char>, bool) {
    match toggle {
        QuickToggle::Wifi => ("Wi-Fi"@, if state.wifi_enabled { "On"@ } else { "Off"@ }, state.wifi_enabled),
        QuickToggle::Lte => ("LTE"@, if state.lte_enabled { "On"@ } else { "Off"@ }, state.lte_enabled),
        QuickToggle::Silent => (
            "Silent"@,
            if state.silent_mode {
                "Enabled"@
            } else {
                "Off"@
            },
            state.silent_mode,
        ),
        QuickToggle::BatterySaver => (
            "Saver"@,
            if state.battery_saver {
                "Active"@
            } else {
                "Normal"@
            },
            state.battery_saver,
        ),
    }
}

/// The tile of `toggle` under `state`.
pub fn quick_tile(toggle: QuickToggle, state: &TopDrawerState) -> (r: QuickTile)
    ensures
        (r.title@, r.value@, r.active) == quick_tile_of(toggle, *state),
{
    match toggle {
        QuickToggle::Wifi => QuickTile {
            title: "Wi-Fi",
            value: if state.wifi_enabled { "On" } else { "Off" },
            active: state.wifi_enabled,
        },
        QuickToggle::Lte => QuickTile {
            title: "LTE",
            value: if state.lte_enabled { "On" } else { "Off" },
            active: state.lte_enabled,
        },
        QuickToggle::Silent => QuickTile {
            title: "Silent",
            value: if state.silent_mode { "Enabled" } else { "Off" },
            active: state.silent_mode,
        },
        QuickToggle::BatterySaver => QuickTile {
            title: "Saver",
            value: if state.battery_saver { "Active" } else { "Normal" },
            active: state.battery_saver,
        },
    }
}

/// What a row of the recent-apps drawer says of its app: the running app
/// is `Running now` and `Live`, the others `Hold to restore` and `Ready`.
pub fn drawer_entry_labels(entry: &AppDrawerEntry) -> (r: (&'static str, &'static str))
    ensures
        r.0@ == if entry.is_active {
            "Running now"@
        } else {
            "Hold to restore"@
        },
        r.1@ == if entry.is_active {
            "Live"@
        } else {
            "Ready"@
        },
{
    if entry.is_active {
        ("Running now", "Live")
    } else {
        ("Hold to restore", "Ready")
    }
}

/// The icon of an app on the apps screen: a home-screen icon of its own for
/// the calendar, clock, contacts, Platinum One, AI and settings apps, else
/// `fallback`.
pub open spec fn apps_icon_of(app_id: Seq<char>, fallback: Seq<char>) -> Seq<char> {
    if app_id == "calendar"@ {
        "calendar-home"@
    } else if app_id == "clock"@ {
        "clock-home"@
    } else if app_id == "contacts"@ {
        "contacts-home"@
    } else if app_id == "platinum_one"@ {
        "platinum-one-home"@
    } else if app_id == "ai"@ {
        "ai-home"@
    } else if app_id == "settings"@ {
        "settings-home"@
    } else {
        fallback
    }
}

/// The icon of an app on the apps screen.
pub fn apps_icon_name<'a>(app_id: &'static str, fallback: &'a str) -> (r: &'a str)
    ensures
        r@ == apps_icon_of(app_id@, fallback@),
{
    if str_eq(app_id, "calendar") {
        "calendar-home"
    } else if str_eq(app_id, "clock") {
        "clock-home"
    } else if str_eq(app_id, "contacts") {
        "contacts-home"
    } else if str_eq(app_id, "platinum_one") {
        "platinum-one-home"
    } else if str_eq(app_id, "ai") {
        "ai-home"
    } else if str_eq(app_id, "settings") {
        "settings-home"
    } else {
        fallback
    }
}


/// `prefix` followed by `rest`.
fn joined(prefix: &str, rest: &str) -> (r: String)
    ensures
        r@ == prefix@ + rest@,
{
    let mut r = String::from_str(prefix);
    r.append(rest);
    r
}

/// The settings' theme pill: `Theme ` and the mode's title.
pub fn theme_status_label(mode: ThemeMode) -> (r: String)
    ensures
        r@ == "Theme "@ + mode_title(mode),
{
    joined("Theme ", mode.title())
}

/// The settings' battery row: the level and `%`.
pub fn battery_percent_label(level: u8) -> (r: String)
    ensures
        r@ == decimal_spec(level as nat) + "%"@,
{
    let mut r = u8_decimal(level);
    r.append("%");
    r
}

/// The settings' signal row: the bars out of five.
pub fn signal_bars_label(level: u8) -> (r: String)
    ensures
        r@ == decimal_spec(level as nat) + "/5"@,
{
    let mut r = u8_decimal(level);
    r.append("/5");
    r
}

/// The settings' network row.
pub fn connectivity_label(online: bool) -> (r: &'static str)
    ensures
        r@ == if online {
            "Connected"@
        } else {
            "Offline"@
        },
{
    if online {
        "Connected"
    } else {
        "Offline"
    }
}

/// The assistant's context pills: `Time ` and the time, `Date ` and the
/// date, and `Online` or `Offline`.
pub fn context_pills(snapshot: &DeviceSnapshot) -> (r: (String, String, &'static str))
    ensures
        r.0@ == "Time "@ + snapshot.time_label@,
        r.1@ == "Date "@ + snapshot.date_label@,
        r.2@ == if snapshot.network_is_online {
            "Online"@
        } else {
            "Offline"@
        },
{
    (
        joined("Time ", snapshot.time_label.as_str()),
        joined("Date ", snapshot.date_label.as_str()),
        if snapshot.network_is_online {
            "Online"
        } else {
            "Offline"
        },
    )
}

} // verus!
