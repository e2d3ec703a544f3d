use platinum_shell::device::{
    battery_from_sysfs, find_mmcli_value, find_modem_path, find_upower_battery_device,
    is_battery_supply, is_charging_status, load_device_snapshot, network_kind,
    parse_airport_network, parse_modem_network, parse_nmcli_network, parse_percentage_from_text,
    parse_upower_battery, rssi_to_percent, signal_percent_to_level, NetworkKind, NetworkSnapshot,
};

#[test]
fn signal_levels_follow_the_percentage() {
    assert_eq!(signal_percent_to_level(0), 0);
    assert_eq!(signal_percent_to_level(19), 0);
    assert_eq!(signal_percent_to_level(20), 1);
    assert_eq!(signal_percent_to_level(72), 3);
    assert_eq!(signal_percent_to_level(100), 5);
    assert_eq!(signal_percent_to_level(255), 5);
}

#[test]
fn rssi_is_clamped_to_a_percentage() {
    assert_eq!(rssi_to_percent(-120), 0);
    assert_eq!(rssi_to_percent(-90), 0);
    assert_eq!(rssi_to_percent(-65), 50);
    assert_eq!(rssi_to_percent(-55), 70);
    assert_eq!(rssi_to_percent(-40), 100);
    assert_eq!(rssi_to_percent(0), 100);
    assert_eq!(rssi_to_percent(i32::MIN), 0);
    assert_eq!(rssi_to_percent(i32::MAX), 100);
}

#[test]
fn nmcli_types_name_network_kinds() {
    assert_eq!(network_kind("wifi"), NetworkKind::Wifi);
    assert_eq!(network_kind("wireless"), NetworkKind::Wifi);
    assert_eq!(network_kind("ethernet"), NetworkKind::Ethernet);
    assert_eq!(network_kind("gsm"), NetworkKind::Lte);
    assert_eq!(network_kind("wwan"), NetworkKind::Lte);
    assert_eq!(network_kind("offline"), NetworkKind::Offline);
    assert_eq!(network_kind("loopback"), NetworkKind::Unknown);
    assert_eq!(network_kind("Wifi"), NetworkKind::Unknown);
}

#[test]
fn charging_statuses() {
    assert!(is_charging_status("Charging\n"));
    assert!(is_charging_status("  FULLY-CHARGED  "));
    assert!(is_charging_status("Discharging"));
    assert!(!is_charging_status("Full"));
    assert!(!is_charging_status(""));
}

#[test]
fn percentages_in_text() {
    assert_eq!(parse_percentage_from_text("    percentage:          87%\n"), Some(87));
    assert_eq!(parse_percentage_from_text("level 42%; rest"), Some(42));
    assert_eq!(parse_percentage_from_text("a 300% b 12%,"), Some(12));
    assert_eq!(parse_percentage_from_text("+5%"), Some(5));
    assert_eq!(parse_percentage_from_text("no value here"), None);
    assert_eq!(parse_percentage_from_text("%"), None);
}

#[test]
fn mmcli_values() {
    let text = "  Status |   state: 'connected'\n         |   signal quality: 80% (recent)\n  power state: --\n";
    assert_eq!(find_mmcli_value(text, "state"), Some(String::from("connected")));
    assert_eq!(find_mmcli_value(text, "signal quality"), Some(String::from("80% (recent)")));
    assert_eq!(find_mmcli_value("power state: --\n", "power state"), None);
    assert_eq!(find_mmcli_value(text, "imei"), None);
}

#[test]
fn nmcli_connected_device() {
    let out = "loopback:connected (externally):0:lo\nwifi:connected:72:Home\n";
    assert_eq!(
        parse_nmcli_network(out),
        Some(NetworkSnapshot { kind: NetworkKind::Wifi, is_online: true, signal_level: 3 })
    );
    assert_eq!(
        parse_nmcli_network("ethernet:connected::Wired\n"),
        Some(NetworkSnapshot { kind: NetworkKind::Ethernet, is_online: true, signal_level: 5 })
    );
    assert_eq!(
        parse_nmcli_network("gsm:connected:n/a:Carrier\n"),
        Some(NetworkSnapshot { kind: NetworkKind::Lte, is_online: true, signal_level: 0 })
    );
    assert_eq!(parse_nmcli_network("wifi:disconnected:40:\n"), None);
    assert_eq!(parse_nmcli_network("gsm:connected\n"), None);
    assert_eq!(parse_nmcli_network(""), None);
}

#[test]
fn airport_rssi() {
    let out = "     agrCtlRSSI: -55\n     agrExtRSSI: 0\n";
    assert_eq!(
        parse_airport_network(out),
        Some(NetworkSnapshot { kind: NetworkKind::Wifi, is_online: true, signal_level: 3 })
    );
    assert_eq!(parse_airport_network("state: init\n"), None);
    assert_eq!(parse_airport_network(" agrCtlRSSI: x\n"), None);
}

#[test]
fn modem_listing_and_state() {
    let list = "    /org/freedesktop/ModemManager1/Modem/0 [QUALCOMM] SIM7600\n";
    assert_eq!(
        find_modem_path(list),
        Some(String::from("/org/freedesktop/ModemManager1/Modem/0"))
    );
    assert_eq!(find_modem_path("No modems were found\n"), None);
    let modem = "  Status | state: registered\n         | signal quality: 80 (recent)\n";
    assert_eq!(
        parse_modem_network(modem),
        Some(NetworkSnapshot { kind: NetworkKind::Lte, is_online: true, signal_level: 4 })
    );
    let percent_quality = "  Status | state: registered\n         | signal quality: 80% (recent)\n";
    assert_eq!(
        parse_modem_network(percent_quality),
        Some(NetworkSnapshot { kind: NetworkKind::Lte, is_online: true, signal_level: 3 })
    );
    let no_quality = "  Status | state: 'Connected'\n";
    assert_eq!(
        parse_modem_network(no_quality),
        Some(NetworkSnapshot { kind: NetworkKind::Lte, is_online: true, signal_level: 3 })
    );
    assert_eq!(parse_modem_network("  Status | state: disabled\n"), None);
    assert_eq!(parse_modem_network("nothing\n"), None);
}

#[test]
fn upower_battery() {
    let devices = "/org/freedesktop/UPower/devices/line_power_AC\n/org/freedesktop/UPower/devices/battery_BAT0\n";
    assert_eq!(
        find_upower_battery_device(devices),
        Some(String::from("/org/freedesktop/UPower/devices/battery_BAT0"))
    );
    assert_eq!(find_upower_battery_device("/org/freedesktop/UPower/devices/line_power_AC\n"), None);
    let info = "  battery\n    state:               charging\n    percentage:          64%\n";
    assert_eq!(parse_upower_battery(info), Some((64, true)));
    assert_eq!(parse_upower_battery("    percentage:          64%\n"), Some((64, false)));
    assert_eq!(parse_upower_battery("    state: charging\n"), None);
}

#[test]
fn sysfs_battery() {
    assert_eq!(battery_from_sysfs("57\n", Some("Charging\n")), Some((57, true)));
    assert_eq!(battery_from_sysfs(" 100 ", Some("Not charging")), Some((100, true)));
    assert_eq!(battery_from_sysfs("40", Some("Full")), Some((40, false)));
    assert_eq!(battery_from_sysfs("40", None), Some((40, false)));
    assert_eq!(battery_from_sysfs("256", None), None);
    assert_eq!(battery_from_sysfs("", None), None);
    assert!(is_battery_supply("BAT0"));
    assert!(!is_battery_supply("AC"));
    assert!(!is_battery_supply("bat1"));
}

#[test]
fn snapshot_defaults_and_labels() {
    let s = load_device_snapshot(None, None, 1_700_000_000);
    assert_eq!(s.battery_level, 82);
    assert!(!s.battery_charging);
    assert_eq!(s.network_kind, NetworkKind::Offline);
    assert!(!s.network_is_online);
    assert_eq!(s.signal_level, 0);
    assert_eq!(s.date_label, "Tue, 14 Nov");
    assert_eq!(s.time_label, "22:13");
    let epoch = load_device_snapshot(None, None, 0);
    assert_eq!((epoch.date_label.as_str(), epoch.time_label.as_str()), ("Thu, 01 Jan", "00:00"));
    let before = load_device_snapshot(None, None, -1);
    assert_eq!((before.date_label.as_str(), before.time_label.as_str()), ("Wed, 31 Dec", "23:59"));

    let net = NetworkSnapshot { kind: NetworkKind::Wifi, is_online: true, signal_level: 4 };
    let t = load_device_snapshot(Some((33, true)), Some(net), 1_700_000_000);
    assert_eq!((t.battery_level, t.battery_charging), (33, true));
    assert_eq!(t.network_kind, NetworkKind::Wifi);
    assert!(t.network_is_online);
    assert_eq!(t.signal_level, 4);
    assert_eq!(NetworkSnapshot::offline(), NetworkSnapshot { kind: NetworkKind::Offline, is_online: false, signal_level: 0 });
}
