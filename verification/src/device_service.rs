//! The system toggles of the quick settings: Wi-Fi, LTE, silent mode and
//! battery saver. What the system tools report is read here, and the
//! commands that set a toggle are chosen here; running them is the caller's.
use vstd::prelude::*;

use crate::device::{DeviceSnapshot, NetworkKind};
use crate::search::{first_index, lemma_first_index};
use crate::text::{
    char_views, chars_of, containing, contains_chars, contains_spec, first_containing,
    lines_chars, lines_spec, lower_chars, lower_spec, split_once_chars, split_once_spec,
    starts_with_chars, starts_with_spec, string_from_chars, trim_chars, trim_spec, words_chars,
    words_spec, CharClass,
};

verus! {

/// Whether each system toggle is on.
#[derive(Debug, Clone, Copy, PartialEq, Eq, Structural)]
pub struct SystemToggleState {
    pub wifi_enabled: bool,
    pub lte_enabled: bool,
    pub silent_mode: bool,
    pub battery_saver: bool,
}

/// A system toggle.
#[derive(Debug, Clone, Copy, PartialEq, Eq, Structural)]
pub enum SystemToggle {
    Wifi,
    Lte,
    Silent,
    BatterySaver,
}

/// The system whose tools read and set the toggles.
#[derive(Debug, Clone, Copy, PartialEq, Eq, Structural)]
pub enum Platform {
    Linux,
    MacOs,
}

/// What the system tools reported of each toggle, where they reported
/// anything.
#[derive(Debug, Clone, Copy, PartialEq, Eq, Structural)]
pub struct DetectedToggles {
    pub wifi_enabled: Option<bool>,
    pub lte_enabled: Option<bool>,
    pub silent_mode: Option<bool>,
    pub battery_saver: Option<bool>,
}

/// The toggles' state: what the tools reported, and where they reported
/// nothing, what the snapshot suggests: Wi-Fi and LTE on where the device
/// is online on such a network, silent mode off, and battery saver on at
/// 20% or less.
pub fn load_system_toggle_state(snapshot: &DeviceSnapshot, detected: DetectedToggles) -> (r:
    SystemToggleState)
    ensures
        r.wifi_enabled == match detected.wifi_enabled {
            Some(b) => b,
            None => snapshot.network_is_online && snapshot.network_kind == NetworkKind::Wifi,
        },
        r.lte_enabled == match detected.lte_enabled {
            Some(b) => b,
            None => snapshot.network_is_online && snapshot.network_kind == NetworkKind::Lte,
        },
        r.silent_mode == match detected.silent_mode {
            Some(b) => b,
            None => false,
        },
        r.battery_saver == match detected.battery_saver {
            Some(b) => b,
            None => snapshot.battery_level <= 20,
        },
{
    SystemToggleState {
        wifi_enabled: match detected.wifi_enabled {
            Some(b) => b,
            None => snapshot.network_is_online && snapshot.network_kind == NetworkKind::Wifi,
        },
        lte_enabled: match detected.lte_enabled {
            Some(b) => b,
            None => snapshot.network_is_online && snapshot.network_kind == NetworkKind::Lte,
        },
        silent_mode: match detected.silent_mode {
            Some(b) => b,
            None => false,
        },
        battery_saver: match detected.battery_saver {
            Some(b) => b,
            None => snapshot.battery_level <= 20,
        },
    }
}

/// Whether a tool's output, trimmed, is `word` but for the case of ASCII
/// letters (`word` is written in lower case).
pub open spec fn says(text: Seq<char>, word: Seq<char>) -> bool {
    lower_spec(trim_spec(text, CharClass::Whitespace)) == word
}

/// Whether a tool's output, in lower case, contains `pat`.
pub open spec fn mentions(text: Seq<char>, pat: Seq<char>) -> bool {
    contains_spec(lower_spec(text), pat)
}

/// Whether a tool's output, trimmed, is `word` but for case.
fn says_exec(text: &str, word: &str) -> (r: bool)
    ensures
        r == says(text@, word@),
{
    let chars = chars_of(text);
    let trimmed = trim_chars(&chars, CharClass::Whitespace);
    let lower = lower_chars(&trimmed);
    let w = chars_of(word);
    crate::text::chars_eq(&lower, &w)
}

/// Whether a tool's output, in lower case, contains `pat`.
fn mentions_exec(text: &str, pat: &str) -> (r: bool)
    ensures
        r == mentions(text@, pat@),
{
    let chars = chars_of(text);
    let lower = lower_chars(&chars);
    let p = chars_of(pat);
    contains_chars(&lower, &p)
}

/// Whether Wi-Fi is on, by the output of `nmcli radio wifi` on Linux (it
/// says `enabled`) or of `networksetup -getairportpower <device>` on macOS
/// (it mentions ` on`).
pub fn wifi_enabled_from_output(platform: Platform, stdout: &str) -> (r: bool)
    ensures
        r == match platform {
            Platform::Linux => says(stdout@, "enabled"@),
            Platform::MacOs => mentions(stdout@, " on"@),
        },
{
    match platform {
        Platform::Linux => says_exec(stdout, "enabled"),
        Platform::MacOs => mentions_exec(stdout, " on"),
    }
}

/// Whether the mobile radio is on, by the output of `nmcli radio wwan`: it
/// says `enabled`.
pub fn lte_enabled_from_output(stdout: &str) -> (r: bool)
    ensures
        r == says(stdout@, "enabled"@),
{
    says_exec(stdout, "enabled")
}

/// Where the silent-mode reading comes from.
#[derive(Debug, Clone, Copy, PartialEq, Eq, Structural)]
pub enum MuteSource {
    /// `wpctl get-volume @DEFAULT_AUDIO_SINK@` on Linux.
    Wpctl,
    /// `amixer get Master` on Linux, where wpctl failed.
    Amixer,
    /// `osascript -e "output muted of (get volume settings)"` on macOS.
    Osascript,
}

/// Whether the sound is muted, by the output of the tool that reported it:
/// wpctl mentions `[muted]`, amixer mentions `[off]`, osascript says
/// `true`.
pub fn silent_mode_from_output(source: MuteSource, stdout: &str) -> (r: bool)
    ensures
        r == match source {
            MuteSource::Wpctl => mentions(stdout@, "[muted]"@),
            MuteSource::Amixer => mentions(stdout@, "[off]"@),
            MuteSource::Osascript => says(stdout@, "true"@),
        },
{
    match source {
        MuteSource::Wpctl => mentions_exec(stdout, "[muted]"),
        MuteSource::Amixer => mentions_exec(stdout, "[off]"),
        MuteSource::Osascript => says_exec(stdout, "true"),
    }
}

/// Whether macOS's low-power mode is on, by the output of `pmset -g`: the
/// last word of its first line containing `lowpowermode` is `1`; nothing
/// where there is no such line.
pub open spec fn low_power_mode_of(text: Seq<char>) -> Option<bool> {
    let lines = lines_spec(text);
    let i = first_index(lines, containing("lowpowermode"@));
    if i < lines.len() {
        let words = words_spec(lines[i]);
        if words.len() > 0 {
            Some(words.last() == "1"@)
        } else {
            None
        }
    } else {
        None
    }
}

/// Whether battery saver is on, by the output of `powerprofilesctl get` on
/// Linux (it says `power-saver`) or of `pmset -g` on macOS.
pub fn battery_saver_from_output(platform: Platform, stdout: &str) -> (r: Option<bool>)
    ensures
        r == match platform {
            Platform::Linux => Some(says(stdout@, "power-saver"@)),
            Platform::MacOs => low_power_mode_of(stdout@),
        },
{
    match platform {
        Platform::Linux => Some(says_exec(stdout, "power-saver")),
        Platform::MacOs => {
            let chars = chars_of(stdout);
            let lines = lines_chars(&chars);
            let pat = chars_of("lowpowermode");
            let i = first_containing(&lines, &pat);
            proof {
                lemma_first_index(char_views(lines@), containing(pat@));
            }
            if i < lines.len() {
                assert(char_views(lines@)[i as int] == lines@[i as int]@);
                let words = words_chars(&lines[i]);
                if words.len() > 0 {
                    let one = chars_of("1");
                    let last = words.len() - 1;
                    assert(char_views(words@)[last as int] == words@[last as int]@);
                    Some(crate::text::chars_eq(&words[last], &one))
                } else {
                    None
                }
            } else {
                None
            }
        },
    }
}

/// Lines that name the Wi-Fi hardware port.
pub open spec fn is_wifi_port_line(trimmed: Seq<char>) -> bool {
    starts_with_spec(trimmed, "Hardware Port: Wi-Fi"@) || starts_with_spec(
        trimmed,
        "Hardware Port: AirPort"@,
    )
}

/// The Wi-Fi device among `lines` of `networksetup -listallhardwareports`
/// output, `seen_wifi` telling whether a Wi-Fi port line came before them:
/// the value, trimmed, of the first `Device: ` line that follows a Wi-Fi
/// port line.
pub open spec fn wifi_device_in(lines: Seq<Seq<char>>, seen_wifi: bool) -> Option<Seq<char>>
    decreases lines.len(),
{
    if lines.len() == 0 {
        None
    } else {
        let trimmed = trim_spec(lines[0], CharClass::Whitespace);
        if is_wifi_port_line(trimmed) {
            wifi_device_in(lines.drop_first(), true)
        } else if seen_wifi && starts_with_spec(trimmed, "Device: "@) {
            match split_once_spec(trimmed, ":"@) {
                Some((_, value)) => Some(trim_spec(value, CharClass::Whitespace)),
                None => None,
            }
        } else {
            wifi_device_in(lines.drop_first(), seen_wifi)
        }
    }
}

/// The Wi-Fi device that `networksetup -listallhardwareports` lists.
pub fn macos_wifi_device_of(stdout: &str) -> (r: Option<String>)
    ensures
        match r {
            Some(d) => wifi_device_in(lines_spec(stdout@), false) == Some(d@),
            None => wifi_device_in(lines_spec(stdout@), false) is None,
        },
{
    let chars = chars_of(stdout);
    let lines = lines_chars(&chars);
    let ghost all = char_views(lines@);
    let wifi = chars_of("Hardware Port: Wi-Fi");
    let airport = chars_of("Hardware Port: AirPort");
    let device = chars_of("Device: ");
    let colon = chars_of(":");
    let mut seen_wifi = false;
    let mut i: usize = 0;
    assert(all.skip(0) =~= all);
    while i < lines.len()
        invariant
            i <= lines.len(),
            all == char_views(lines@),
            all == lines_spec(stdout@),
            wifi@ == "Hardware Port: Wi-Fi"@,
            airport@ == "Hardware Port: AirPort"@,
            device@ == "Device: "@,
            colon@ == ":"@,
            wifi_device_in(all, false) == wifi_device_in(all.skip(i as int), seen_wifi),
        decreases lines.len() - i,
    {
        let ghost rest = all.skip(i as int);
        assert(rest[0] == lines@[i as int]@);
        assert(rest.drop_first() =~= all.skip(i + 1));
        let trimmed = trim_chars(&lines[i], CharClass::Whitespace);
        if starts_with_chars(&trimmed, &wifi) || starts_with_chars(&trimmed, &airport) {
            seen_wifi = true;
        } else if seen_wifi && starts_with_chars(&trimmed, &device) {
            match split_once_chars(&trimmed, &colon) {
                Some((_, value)) => {
                    let v = trim_chars(&value, CharClass::Whitespace);
                    return Some(string_from_chars(&v));
                },
                None => {
                    return None;
                },
            }
        }
        i = i + 1;
    }
    None
}

/// A program to run and its arguments.
#[derive(Debug, PartialEq, Eq)]
pub struct Invocation {
    pub program: String,
    pub args: Vec<String>,
}

impl View for Invocation {
    type V = (Seq<char>, Seq<Seq<char>>);

    open spec fn view(&self) -> (Seq<char>, Seq<Seq<char>>) {
        (self.program@, self.args@.map_values(|a: String| a@))
    }
}

/// `on` or `off`.
pub open spec fn on_off(enabled: bool) -> Seq<char> {
    if enabled {
        "on"@
    } else {
        "off"@
    }
}

/// `1` or `0`.
pub open spec fn one_zero(enabled: bool) -> Seq<char> {
    if enabled {
        "1"@
    } else {
        "0"@
    }
}

/// Whether `toggle` is on in `state`.
pub open spec fn toggle_is_on(state: SystemToggleState, toggle: SystemToggle) -> bool {
    match toggle {
        SystemToggle::Wifi => state.wifi_enabled,
        SystemToggle::Lte => state.lte_enabled,
        SystemToggle::Silent => state.silent_mode,
        SystemToggle::BatterySaver => state.battery_saver,
    }
}

/// What setting `toggle` to `enabled` takes on `platform`: the commands to
/// run, each tried only where the one before it failed, or why it cannot be
/// done. `wifi_device` is macOS's Wi-Fi device, where one was found; no
/// other plan reads it.
pub open spec fn toggle_plan(
    platform: Platform,
    toggle: SystemToggle,
    enabled: bool,
    wifi_device: Option<Seq<char>>,
) -> Result<Seq<(Seq<char>, Seq<Seq<char>>)>, Seq<char>> {
    match platform {
        Platform::Linux => match toggle {
            SystemToggle::Wifi => Ok(seq![("nmcli"@, seq!["radio"@, "wifi"@, on_off(enabled)])]),
            SystemToggle::Lte => Ok(seq![("nmcli"@, seq!["radio"@, "wwan"@, on_off(enabled)])]),
            SystemToggle::Silent => Ok(
                seq![
                    ("wpctl"@, seq!["set-mute"@, "@DEFAULT_AUDIO_SINK@"@, one_zero(enabled)]),
                    ("amixer"@, seq!["sset"@, "Master"@, if enabled { "mute"@ } else { "unmute"@ }]),
                ],
            ),
            SystemToggle::BatterySaver => Ok(
                seq![
                    ("powerprofilesctl"@, seq![
                        "set"@,
                        if enabled {
                            "power-saver"@
                        } else {
                            "balanced"@
                        },
                    ]),
                ],
            ),
        },
        Platform::MacOs => match toggle {
            SystemToggle::Wifi => match wifi_device {
                Some(d) => Ok(seq![("networksetup"@, seq!["-setairportpower"@, d, on_off(enabled)])]),
                None => Err("Wi-Fi device not found"@),
            },
            SystemToggle::Lte => Err("LTE toggle is not supported on this platform"@),
            SystemToggle::Silent => Ok(
                seq![
                    ("osascript"@, seq![
                        "-e"@,
                        if enabled {
                            "set volume with output muted"@
                        } else {
                            "set volume without output muted"@
                        },
                    ]),
                ],
            ),
            SystemToggle::BatterySaver => Ok(
                seq![("pmset"@, seq!["-a"@, "lowpowermode"@, one_zero(enabled)])],
            ),
        },
    }
}

/// Switching a toggle on and switching it off take the same commands, in
/// the same order, with the same arguments but the last one of each
/// command, which differs between the two: each plan says which way it
/// switches. Where one of the two cannot be done, neither can the other.
pub proof fn lemma_toggle_plan_two_ways(platform: Platform, toggle: SystemToggle, wifi_device: Option<Seq<char>>)
    ensures
        toggle_plan(platform, toggle, true, wifi_device) is Ok <==> toggle_plan(platform, toggle, false, wifi_device) is Ok,
        toggle_plan(platform, toggle, true, wifi_device) is Ok ==> {
            let on = toggle_plan(platform, toggle, true, wifi_device)->Ok_0;
            let off = toggle_plan(platform, toggle, false, wifi_device)->Ok_0;
            &&& on.len() > 0
            &&& on.len() == off.len()
            &&& forall|k: int| 0 <= k < on.len() ==> {
                &&& (#[trigger] on[k]).0 == off[k].0
                &&& on[k].1.len() > 0
                &&& on[k].1.len() == off[k].1.len()
                &&& on[k].1.drop_last() == off[k].1.drop_last()
                &&& on[k].1.last() != off[k].1.last()
            }
        },
{
    reveal_strlit("on");
    reveal_strlit("off");
    reveal_strlit("1");
    reveal_strlit("0");
    reveal_strlit("mute");
    reveal_strlit("unmute");
    reveal_strlit("power-saver");
    reveal_strlit("balanced");
    reveal_strlit("set volume with output muted");
    reveal_strlit("set volume without output muted");
    let on = toggle_plan(platform, toggle, true, wifi_device);
    let off = toggle_plan(platform, toggle, false, wifi_device);
    if on is Ok {
        let a = on->Ok_0;
        let b = off->Ok_0;
        assert forall|k: int| 0 <= k < a.len() implies {
            &&& (#[trigger] a[k]).0 == b[k].0
            &&& a[k].1.len() > 0
            &&& a[k].1.len() == b[k].1.len()
            &&& a[k].1.drop_last() == b[k].1.drop_last()
            &&& a[k].1.last() != b[k].1.last()
        } by {
            assert(a[k].1.drop_last() =~= b[k].1.drop_last());
            assert(a[k].1.last() != b[k].1.last()) by {
                if a[k].1.last().len() == b[k].1.last().len() {
                    assert(a[k].1.last()[0] != b[k].1.last()[0]);
                }
            }
        }
    }
}

/// The words with which the system tools are told to switch something on.
pub open spec fn is_switch_on_word(w: Seq<char>) -> bool {
    w == "on"@ || w == "1"@ || w == "mute"@ || w == "power-saver"@ || w == "set volume with output muted"@
}

/// The words with which the system tools are told to switch something off.
pub open spec fn is_switch_off_word(w: Seq<char>) -> bool {
    w == "off"@ || w == "0"@ || w == "unmute"@ || w == "balanced"@ || w == "set volume without output muted"@
}

/// Every command of a plan ends in the word that tells its tool which way
/// to switch: an "on" word when the toggle is switched on, an "off" word
/// when it is switched off, and no word is both.
pub proof fn lemma_toggle_plan_says_which_way(
    platform: Platform,
    toggle: SystemToggle,
    enabled: bool,
    wifi_device: Option<Seq<char>>,
)
    requires
        toggle_plan(platform, toggle, enabled, wifi_device) is Ok,
    ensures
        forall|k: int| 0 <= k < toggle_plan(platform, toggle, enabled, wifi_device)->Ok_0.len() ==> {
            let args = (#[trigger] toggle_plan(platform, toggle, enabled, wifi_device)->Ok_0[k]).1;
            &&& args.len() > 0
            &&& is_switch_on_word(args.last()) == enabled
            &&& is_switch_off_word(args.last()) == !enabled
        },
{
    reveal_strlit("on");
    reveal_strlit("off");
    reveal_strlit("1");
    reveal_strlit("0");
    reveal_strlit("mute");
    reveal_strlit("unmute");
    reveal_strlit("power-saver");
    reveal_strlit("balanced");
    reveal_strlit("set volume with output muted");
    reveal_strlit("set volume without output muted");
    assert("1"@[0] != "0"@[0]);
    assert("on"@.len() == 2);
    assert("off"@.len() == 3);
    assert("1"@.len() == 1);
    assert("0"@.len() == 1);
    assert("mute"@.len() == 4);
    assert("unmute"@.len() == 6);
    assert("power-saver"@.len() == 11);
    assert("balanced"@.len() == 8);
    assert("set volume with output muted"@.len() == 28);
    assert("set volume without output muted"@.len() == 31);
}

/// On Linux, Wi-Fi and LTE are switched by one `nmcli` command whose last
/// argument is `on` when the toggle is switched on and `off` when it is
/// switched off.
pub proof fn lemma_linux_radio_on_off(toggle: SystemToggle, enabled: bool, wifi_device: Option<Seq<char>>)
    requires
        toggle == SystemToggle::Wifi || toggle == SystemToggle::Lte,
    ensures
        toggle_plan(Platform::Linux, toggle, enabled, wifi_device) is Ok,
        toggle_plan(Platform::Linux, toggle, enabled, wifi_device)->Ok_0.len() == 1,
        toggle_plan(Platform::Linux, toggle, enabled, wifi_device)->Ok_0[0].0 == "nmcli"@,
        toggle_plan(Platform::Linux, toggle, enabled, wifi_device)->Ok_0[0].1.last() == if enabled {
            "on"@
        } else {
            "off"@
        },
{
}

/// An invocation of `program` with `args`.
fn invocation(program: &str, args: &Vec<&str>) -> (r: Invocation)
    ensures
        r@ == (program@, args@.map_values(|a: &str| a@)),
{
    let mut out: Vec<String> = Vec::new();
    let mut i: usize = 0;
    while i < args.len()
        invariant
            i <= args.len(),
            out@.map_values(|s: String| s@) == args@.take(i as int).map_values(|a: &str| a@),
        decreases args.len() - i,
    {
        let ghost before = out@;
        out.push(String::from_str(args[i]));
        assert(out@.map_values(|s: String| s@) =~= before.map_values(|s: String| s@).push(args@[i as int]@));
        assert(args@.take(i + 1).map_values(|a: &str| a@) =~= args@.take(i as int).map_values(
            |a: &str| a@,
        ).push(args@[i as int]@));
        i = i + 1;
    }
    assert(args@.take(i as int) =~= args@);
    Invocation { program: String::from_str(program), args: out }
}

/// The views of a list of invocations.
pub open spec fn invocation_views(v: Seq<Invocation>) -> Seq<(Seq<char>, Seq<Seq<char>>)> {
    v.map_values(|c: Invocation| c@)
}

/// A plan of a single command.
fn single(program: &str, args: &Vec<&str>) -> (r: Vec<Invocation>)
    ensures
        invocation_views(r@) == seq![(program@, args@.map_values(|a: &str| a@))],
{
    let mut r: Vec<Invocation> = Vec::new();
    r.push(invocation(program, args));
    assert(invocation_views(r@) =~= seq![(program@, args@.map_values(|a: &str| a@))]);
    r
}

/// A vector of three words.
fn words3<'a>(a: &'a str, b: &'a str, c: &'a str) -> (r: Vec<&'a str>)
    ensures
        r@.map_values(|x: &str| x@) == seq![a@, b@, c@],
{
    let mut r: Vec<&'a str> = Vec::new();
    r.push(a);
    r.push(b);
    r.push(c);
    assert(r@.map_values(|x: &str| x@) =~= seq![a@, b@, c@]);
    r
}

/// A vector of two words.
fn words2<'a>(a: &'a str, b: &'a str) -> (r: Vec<&'a str>)
    ensures
        r@.map_values(|x: &str| x@) == seq![a@, b@],
{
    let mut r: Vec<&'a str> = Vec::new();
    r.push(a);
    r.push(b);
    assert(r@.map_values(|x: &str| x@) =~= seq![a@, b@]);
    r
}

/// What setting `toggle` to `enabled` takes on `platform`: the commands to
/// run, each tried only where the one before it failed (the outcome is
/// that of the last one run), or the error where the toggle cannot be set.
pub fn set_system_toggle(
    platform: Platform,
    toggle: SystemToggle,
    enabled: bool,
    wifi_device: Option<String>,
) -> (r: Result<Vec<Invocation>, String>)
    ensures
        match r {
            Ok(cmds) => toggle_plan(
                platform,
                toggle,
                enabled,
                match wifi_device {
                    Some(d) => Some(d@),
                    None => None,
                },
            ) == Ok::<_, Seq<char>>(invocation_views(cmds@)),
            Err(e) => toggle_plan(
                platform,
                toggle,
                enabled,
                match wifi_device {
                    Some(d) => Some(d@),
                    None => None,
                },
            ) == Err::<Seq<(Seq<char>, Seq<Seq<char>>)>, _>(e@),
        },
{
    let on_off: &str = if enabled { "on" } else { "off" };
    let one_zero: &str = if enabled { "1" } else { "0" };
    match platform {
        Platform::Linux => match toggle {
            SystemToggle::Wifi => Ok(single("nmcli", &words3("radio", "wifi", on_off))),
            SystemToggle::Lte => Ok(single("nmcli", &words3("radio", "wwan", on_off))),
            SystemToggle::Silent => {
                let mut r: Vec<Invocation> = Vec::new();
                let first = invocation("wpctl", &words3("set-mute", "@DEFAULT_AUDIO_SINK@", one_zero));
                let second = invocation(
                    "amixer",
                    &words3("sset", "Master", if enabled { "mute" } else { "unmute" }),
                );
                r.push(first);
                r.push(second);
                assert(invocation_views(r@) =~= seq![first@, second@]);
                Ok(r)
            },
            SystemToggle::BatterySaver => Ok(
                single(
                    "powerprofilesctl",
                    &words2(
                        "set",
                        if enabled {
                            "power-saver"
                        } else {
                            "balanced"
                        },
                    ),
                ),
            ),
        },
        Platform::MacOs => match toggle {
            SystemToggle::Wifi => match wifi_device {
                Some(d) => Ok(single("networksetup", &words3("-setairportpower", d.as_str(), on_off))),
                None => Err(String::from_str("Wi-Fi device not found")),
            },
            SystemToggle::Lte => Err(String::from_str("LTE toggle is not supported on this platform")),
            SystemToggle::Silent => Ok(
                single(
                    "osascript",
                    &words2(
                        "-e",
                        if enabled {
                            "set volume with output muted"
                        } else {
                            "set volume without output muted"
                        },
                    ),
                ),
            ),
            SystemToggle::BatterySaver => Ok(single("pmset", &words3("-a", "lowpowermode", one_zero))),
        },
    }
}

/// What became of running a command.
#[derive(Debug, PartialEq, Eq)]
pub enum CommandOutcome {
    /// The command could not be started; the error's description.
    NotStarted(String),
    /// The command ran and exited, successfully or not, with what it wrote
    /// to its error stream.
    Exited { success: bool, stderr: String },
}

/// The result of a command: success where it exited successfully; where it
/// could not be started, `<program>: <error>`; else its error stream,
/// trimmed, or `<program> failed` where that is empty.
pub open spec fn command_result_of(program: Seq<char>, outcome: CommandOutcome) -> Result<(), Seq<char>> {
    match outcome {
        CommandOutcome::NotStarted(error) => Err(program + ": "@ + error@),
        CommandOutcome::Exited { success, stderr } => if success {
            Ok(())
        } else {
            let t = trim_spec(stderr@, CharClass::Whitespace);
            if t.len() == 0 {
                Err(program + " failed"@)
            } else {
                Err(t)
            }
        },
    }
}

/// The result of a command, from what became of running it.
pub fn command_result(program: &str, outcome: &CommandOutcome) -> (r: Result<(), String>)
    ensures
        match r {
            Ok(()) => command_result_of(program@, *outcome) == Ok::<(), Seq<char>>(()),
            Err(e) => command_result_of(program@, *outcome) == Err::<(), _>(e@),
        },
{
    match outcome {
        CommandOutcome::NotStarted(error) => {
            let mut m = String::from_str(program);
            m.append(": ");
            m.append(error.as_str());
            Err(m)
        },
        CommandOutcome::Exited { success, stderr } => {
            if *success {
                Ok(())
            } else {
                let chars = chars_of(stderr.as_str());
                let t = trim_chars(&chars, CharClass::Whitespace);
                if t.len() == 0 {
                    let mut m = String::from_str(program);
                    m.append(" failed");
                    Err(m)
                } else {
                    Err(string_from_chars(&t))
                }
            }
        },
    }
}

/// What to do once a command of a plan has run.
#[derive(Debug, PartialEq, Eq)]
pub enum ToggleStep {
    /// Setting the toggle is over, with this result.
    Finished(Result<(), String>),
    /// Run the plan's command at this position next.
    RunNext(usize),
}

/// The step after the command at `index` of a plan of `count` commands
/// ended with `result`: over where it succeeded or was the last; else the
/// next command.
pub fn after_command(count: usize, index: usize, result: Result<(), String>) -> (r: ToggleStep)
    requires
        index < count,
    ensures
        match result {
            Ok(()) => r == ToggleStep::Finished(Ok(())),
            Err(e) => if index + 1 < count {
                r == ToggleStep::RunNext((index + 1) as usize)
            } else {
                r == ToggleStep::Finished(Err(e))
            },
        },
{
    match result {
        Ok(()) => ToggleStep::Finished(Ok(())),
        Err(e) => if index + 1 < count {
            ToggleStep::RunNext(index + 1)
        } else {
            ToggleStep::Finished(Err(e))
        },
    }
}

} // verus!
