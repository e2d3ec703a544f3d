use platinum_shell::device::{load_device_snapshot, NetworkKind, NetworkSnapshot};
use platinum_shell::device_service::{
    after_command, battery_saver_from_output, command_result, load_system_toggle_state,
    lte_enabled_from_output, macos_wifi_device_of, set_system_toggle, silent_mode_from_output,
    wifi_enabled_from_output, CommandOutcome, DetectedToggles, Invocation, MuteSource, Platform,
    SystemToggle, SystemToggleState, ToggleStep,
};

fn inv(program: &str, args: &[&str]) -> Invocation {
    Invocation {
        program: program.to_string(),
        args: args.iter().map(|a| a.to_string()).collect(),
    }
}

#[test]
fn toggle_state_falls_back_on_the_snapshot() {
    let wifi = NetworkSnapshot { kind: NetworkKind::Wifi, is_online: true, signal_level: 3 };
    let snapshot = load_device_snapshot(Some((15, false)), Some(wifi), 1_700_000_000);
    let none = DetectedToggles { wifi_enabled: None, lte_enabled: None, silent_mode: None, battery_saver: None };
    assert_eq!(
        load_system_toggle_state(&snapshot, none),
        SystemToggleState { wifi_enabled: true, lte_enabled: false, silent_mode: false, battery_saver: true }
    );
    let detected = DetectedToggles {
        wifi_enabled: Some(false),
        lte_enabled: Some(true),
        silent_mode: Some(true),
        battery_saver: Some(false),
    };
    assert_eq!(
        load_system_toggle_state(&snapshot, detected),
        SystemToggleState { wifi_enabled: false, lte_enabled: true, silent_mode: true, battery_saver: false }
    );
    let offline = load_device_snapshot(Some((21, false)), None, 1_700_000_000);
    assert_eq!(
        load_system_toggle_state(&offline, none),
        SystemToggleState { wifi_enabled: false, lte_enabled: false, silent_mode: false, battery_saver: false }
    );
    let lte = NetworkSnapshot { kind: NetworkKind::Lte, is_online: true, signal_level: 2 };
    let on_lte = load_device_snapshot(Some((20, false)), Some(lte), 1_700_000_000);
    assert_eq!(
        load_system_toggle_state(&on_lte, none),
        SystemToggleState { wifi_enabled: false, lte_enabled: true, silent_mode: false, battery_saver: true }
    );
}

#[test]
fn reading_tool_output() {
    assert!(wifi_enabled_from_output(Platform::Linux, "enabled\n"));
    assert!(wifi_enabled_from_output(Platform::Linux, "  ENABLED "));
    assert!(!wifi_enabled_from_output(Platform::Linux, "disabled\n"));
    assert!(wifi_enabled_from_output(Platform::MacOs, "Wi-Fi Power (en0): On\n"));
    assert!(!wifi_enabled_from_output(Platform::MacOs, "Wi-Fi Power (en0): Off\n"));
    assert!(lte_enabled_from_output("Enabled"));
    assert!(!lte_enabled_from_output("enabled yes"));
    assert!(silent_mode_from_output(MuteSource::Wpctl, "Volume: 0.40 [MUTED]\n"));
    assert!(!silent_mode_from_output(MuteSource::Wpctl, "Volume: 0.40\n"));
    assert!(silent_mode_from_output(MuteSource::Amixer, "Front Left: Playback 0 [0%] [off]\n"));
    assert!(!silent_mode_from_output(MuteSource::Amixer, "Front Left: Playback 40 [60%] [on]\n"));
    assert!(silent_mode_from_output(MuteSource::Osascript, "true\n"));
    assert!(!silent_mode_from_output(MuteSource::Osascript, "false\n"));
    assert_eq!(battery_saver_from_output(Platform::Linux, "power-saver\n"), Some(true));
    assert_eq!(battery_saver_from_output(Platform::Linux, "balanced\n"), Some(false));
    assert_eq!(battery_saver_from_output(Platform::MacOs, " lowpowermode         1\n"), Some(true));
    assert_eq!(battery_saver_from_output(Platform::MacOs, " lowpowermode         0\n"), Some(false));
    assert_eq!(battery_saver_from_output(Platform::MacOs, " sleep 1\n"), None);
}

#[test]
fn finding_the_macos_wifi_device() {
    let ports = "Hardware Port: Ethernet\nDevice: en1\n\nHardware Port: Wi-Fi\nDevice: en0\nEthernet Address: aa\n";
    assert_eq!(macos_wifi_device_of(ports), Some(String::from("en0")));
    let airport = "Hardware Port: AirPort\n  Device:   en2  \n";
    assert_eq!(macos_wifi_device_of(airport), Some(String::from("en2")));
    assert_eq!(macos_wifi_device_of("Hardware Port: Ethernet\nDevice: en1\n"), None);
}

#[test]
fn toggle_plans_on_linux() {
    assert_eq!(
        set_system_toggle(Platform::Linux, SystemToggle::Wifi, true, None),
        Ok(vec![inv("nmcli", &["radio", "wifi", "on"])])
    );
    assert_eq!(
        set_system_toggle(Platform::Linux, SystemToggle::Lte, false, None),
        Ok(vec![inv("nmcli", &["radio", "wwan", "off"])])
    );
    assert_eq!(
        set_system_toggle(Platform::Linux, SystemToggle::Silent, true, None),
        Ok(vec![
            inv("wpctl", &["set-mute", "@DEFAULT_AUDIO_SINK@", "1"]),
            inv("amixer", &["sset", "Master", "mute"]),
        ])
    );
    assert_eq!(
        set_system_toggle(Platform::Linux, SystemToggle::BatterySaver, false, None),
        Ok(vec![inv("powerprofilesctl", &["set", "balanced"])])
    );
}

#[test]
fn toggle_plans_on_macos() {
    assert_eq!(
        set_system_toggle(Platform::MacOs, SystemToggle::Wifi, false, Some(String::from("en0"))),
        Ok(vec![inv("networksetup", &["-setairportpower", "en0", "off"])])
    );
    assert_eq!(
        set_system_toggle(Platform::MacOs, SystemToggle::Wifi, true, None),
        Err(String::from("Wi-Fi device not found"))
    );
    assert_eq!(
        set_system_toggle(Platform::MacOs, SystemToggle::Lte, true, None),
        Err(String::from("LTE toggle is not supported on this platform"))
    );
    assert_eq!(
        set_system_toggle(Platform::MacOs, SystemToggle::Silent, false, None),
        Ok(vec![inv("osascript", &["-e", "set volume without output muted"])])
    );
    assert_eq!(
        set_system_toggle(Platform::MacOs, SystemToggle::BatterySaver, true, None),
        Ok(vec![inv("pmset", &["-a", "lowpowermode", "1"])])
    );
}

#[test]
fn command_results() {
    let ok = CommandOutcome::Exited { success: true, stderr: String::from("noise") };
    assert_eq!(command_result("nmcli", &ok), Ok(()));
    let quiet = CommandOutcome::Exited { success: false, stderr: String::from("  \n") };
    assert_eq!(command_result("nmcli", &quiet), Err(String::from("nmcli failed")));
    let loud = CommandOutcome::Exited { success: false, stderr: String::from("Error: no radio\n") };
    assert_eq!(command_result("nmcli", &loud), Err(String::from("Error: no radio")));
    let missing = CommandOutcome::NotStarted(String::from("No such file or directory (os error 2)"));
    assert_eq!(
        command_result("wpctl", &missing),
        Err(String::from("wpctl: No such file or directory (os error 2)"))
    );
}

#[test]
fn fallback_between_commands() {
    assert_eq!(after_command(2, 0, Ok(())), ToggleStep::Finished(Ok(())));
    assert_eq!(after_command(2, 0, Err(String::from("wpctl failed"))), ToggleStep::RunNext(1));
    assert_eq!(
        after_command(2, 1, Err(String::from("amixer failed"))),
        ToggleStep::Finished(Err(String::from("amixer failed")))
    );
    assert_eq!(
        after_command(1, 0, Err(String::from("x"))),
        ToggleStep::Finished(Err(String::from("x")))
    );
}
