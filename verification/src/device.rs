//! What the shell shows of the device: battery, clock and network.
use vstd::prelude::*;

use crate::clock::{clock_in_range, clock_labels, date_label_of, time_label_of};
use crate::search::{first_index, lemma_first_index};
use crate::text::{
    chars_eq, chars_of, char_views, containing, contains_chars, contains_spec, first_containing,
    first_some, first_starting_with, lemma_first_some_end, lemma_first_some_is,
    lemma_first_some_none, lemma_first_some_step,
    lemma_split_nonempty, lines_chars, lines_spec, lower_chars, lower_spec, parse_i32_chars,
    parse_signed_spec, parse_u8_chars, parse_unsigned_spec, split_chars, split_once_chars,
    split_once_spec, split_spec, starting_with, starts_with_chars, starts_with_spec, str_eq,
    string_from_chars, trim_chars, trim_end_chars, trim_end_spec, trim_spec, trim_start_chars,
    trim_start_spec, words_chars, words_spec, CharClass,
};

verus! {

/// The device's state at one moment.
#[derive(Debug, PartialEq, Eq)]
pub struct DeviceSnapshot {
    pub battery_level: u8,
    pub battery_charging: bool,
    pub date_label: String,
    pub network_kind: NetworkKind,
    pub network_is_online: bool,
    pub signal_level: u8,
    pub time_label: String,
}

impl Clone for DeviceSnapshot {
    fn clone(&self) -> (r: Self)
        ensures
            r == *self,
    {
        DeviceSnapshot {
            battery_level: self.battery_level,
            battery_charging: self.battery_charging,
            date_label: self.date_label.clone(),
            network_kind: self.network_kind,
            network_is_online: self.network_is_online,
            signal_level: self.signal_level,
            time_label: self.time_label.clone(),
        }
    }
}

/// The kind of network the device is on.
#[derive(Debug, Clone, Copy, PartialEq, Eq, Structural)]
pub enum NetworkKind {
    Offline,
    Wifi,
    Ethernet,
    Lte,
    Unknown,
}

/// The network part of a snapshot.
#[derive(Debug, Clone, Copy, PartialEq, Eq, Structural)]
pub struct NetworkSnapshot {
    pub kind: NetworkKind,
    pub is_online: bool,
    pub signal_level: u8,
}

impl NetworkSnapshot {
    /// No network.
    pub fn offline() -> (r: Self)
        ensures
            r == (NetworkSnapshot { kind: NetworkKind::Offline, is_online: false, signal_level: 0 }),
    {
        NetworkSnapshot { kind: NetworkKind::Offline, is_online: false, signal_level: 0 }
    }
}


/// The signal bars, from none to five, that a signal strength in percent
/// gives; strengths above 100 count as 100.
pub open spec fn signal_level_of(percent: int) -> int {
    (if percent > 100 { 100 } else { percent }) * 5 / 100
}

/// The signal bars, from none to five, that a signal strength in percent
/// gives.
pub fn signal_percent_to_level(signal_percent: u8) -> (r: u8)
    ensures
        r as int == signal_level_of(signal_percent as int),
        r <= 5,
{
    let p: u16 = if signal_percent > 100 { 100 } else { signal_percent as u16 };
    ((p * 5) / 100) as u8
}

/// A Wi-Fi RSSI in dBm, clamped to -90..=-40, as a percentage.
pub open spec fn rssi_percent_of(rssi: int) -> int {
    let clamped = if rssi < -90 { -90 } else if rssi > -40 { -40 } else { rssi };
    (clamped + 90) * 100 / 50
}

/// A Wi-Fi RSSI in dBm as a percentage: -90 and below are 0, -40 and above
/// are 100.
pub fn rssi_to_percent(rssi: i32) -> (r: u8)
    ensures
        r as int == rssi_percent_of(rssi as int),
        r <= 100,
{
    let clamped: i32 = if rssi < -90 { -90 } else if rssi > -40 { -40 } else { rssi };
    (((clamped + 90) * 100) / 50) as u8
}

/// The network kind that an nmcli device type names.
pub open spec fn network_kind_of(kind: Seq<char>) -> NetworkKind {
    if kind == "wifi"@ || kind == "wireless"@ {
        NetworkKind::Wifi
    } else if kind == "ethernet"@ {
        NetworkKind::Ethernet
    } else if kind == "gsm"@ || kind == "wwan"@ {
        NetworkKind::Lte
    } else if kind == "offline"@ {
        NetworkKind::Offline
    } else {
        NetworkKind::Unknown
    }
}

/// The network kind that an nmcli device type names.
pub fn network_kind(kind: &str) -> (r: NetworkKind)
    ensures
        r == network_kind_of(kind@),
{
    if str_eq(kind, "wifi") || str_eq(kind, "wireless") {
        NetworkKind::Wifi
    } else if str_eq(kind, "ethernet") {
        NetworkKind::Ethernet
    } else if str_eq(kind, "gsm") || str_eq(kind, "wwan") {
        NetworkKind::Lte
    } else if str_eq(kind, "offline") {
        NetworkKind::Offline
    } else {
        NetworkKind::Unknown
    }
}

/// Whether a power-supply status says the battery charges or is full:
/// trimmed and in lower case, it contains "charging" or "fully-charged".
pub open spec fn charging_status_of(text: Seq<char>) -> bool {
    let normalized = lower_spec(trim_spec(text, CharClass::Whitespace));
    contains_spec(normalized, "charging"@) || contains_spec(normalized, "fully-charged"@)
}

/// Whether a power-supply status says the battery charges or is full.
pub fn is_charging_status(text: &str) -> (r: bool)
    ensures
        r == charging_status_of(text@),
{
    let chars = chars_of(text);
    let trimmed = trim_chars(&chars, CharClass::Whitespace);
    let normalized = lower_chars(&trimmed);
    let charging = chars_of("charging");
    let full = chars_of("fully-charged");
    contains_chars(&normalized, &charging) || contains_chars(&normalized, &full)
}

/// The percentage a word of text gives: with trailing `;` and `,` dropped,
/// a `u8` followed by `%`.
pub open spec fn word_percentage(word: Seq<char>) -> Option<int> {
    let t = trim_end_spec(word, CharClass::Two(';', ','));
    if t.len() > 0 && t.last() == '%' {
        parse_unsigned_spec(t.drop_last(), 255)
    } else {
        None
    }
}

/// The first percentage among the words of a text.
pub open spec fn percentage_of_text(text: Seq<char>) -> Option<int> {
    first_some(words_spec(text).map_values(|w: Seq<char>| word_percentage(w)))
}

/// The percentage of a text is that of its first word that reads as a
/// percentage: where word `i` gives one and no word before it does, the
/// text gives word `i`'s value.
pub proof fn lemma_percentage_is_first_word(text: Seq<char>, i: int)
    requires
        0 <= i < words_spec(text).len(),
        word_percentage(words_spec(text)[i]) is Some,
        forall|j: int| 0 <= j < i ==> #[trigger] word_percentage(words_spec(text)[j]) is None,
    ensures
        percentage_of_text(text) == word_percentage(words_spec(text)[i]),
{
    let found = words_spec(text).map_values(|w: Seq<char>| word_percentage(w));
    assert forall|j: int| 0 <= j < i implies found[j] is None by {
        assert(found[j] == word_percentage(words_spec(text)[j]));
    }
    lemma_first_some_is(found, i);
}

/// A text none of whose words reads as a percentage gives none.
pub proof fn lemma_percentage_none(text: Seq<char>)
    requires
        forall|j: int| 0 <= j < words_spec(text).len() ==> #[trigger] word_percentage(words_spec(text)[j]) is None,
    ensures
        percentage_of_text(text) is None,
{
    let found = words_spec(text).map_values(|w: Seq<char>| word_percentage(w));
    assert forall|j: int| 0 <= j < found.len() implies found[j] is None by {
        assert(found[j] == word_percentage(words_spec(text)[j]));
    }
    lemma_first_some_none(found);
}

/// The percentage a word of text gives.
fn word_percentage_exec(word: &Vec<char>) -> (r: Option<u8>)
    ensures
        match r {
            Some(v) => word_percentage(word@) == Some(v as int),
            None => word_percentage(word@) is None,
        },
{
    let t = trim_end_chars(word, CharClass::Two(';', ','));
    if t.len() > 0 && t[t.len() - 1] == '%' {
        let digits = crate::text::slice_chars(&t, 0, t.len() - 1);
        assert(digits@ =~= t@.drop_last());
        parse_u8_chars(&digits)
    } else {
        None
    }
}

/// The first percentage among the words of a text, such as upower's
/// report.
pub fn parse_percentage_from_text(text: &str) -> (r: Option<u8>)
    ensures
        match r {
            Some(v) => percentage_of_text(text@) == Some(v as int),
            None => percentage_of_text(text@) is None,
        },
{
    let chars = chars_of(text);
    let words = words_chars(&chars);
    let ghost found = words_spec(text@).map_values(|w: Seq<char>| word_percentage(w));
    let mut i: usize = 0;
    assert(found.skip(0) =~= found);
    while i < words.len()
        invariant
            i <= words.len(),
            char_views(words@) == words_spec(text@),
            found == words_spec(text@).map_values(|w: Seq<char>| word_percentage(w)),
            first_some(found) == first_some(found.skip(i as int)),
        decreases words.len() - i,
    {
        let p = word_percentage_exec(&words[i]);
        proof {
            lemma_first_some_step(found, i as int);
            assert(found[i as int] == word_percentage(words@[i as int]@));
        }
        if p.is_some() {
            return p;
        }
        i = i + 1;
    }
    proof {
        lemma_first_some_end(found);
    }
    None
}

/// The value that mmcli shows on a line for `key`: with the line trimmed
/// and containing `key`, what follows its first colon, trimmed of
/// whitespace and then of quotes; nothing where that is empty or `--`.
pub open spec fn mmcli_line_value(line: Seq<char>, key: Seq<char>) -> Option<Seq<char>> {
    let normalized = trim_spec(line, CharClass::Whitespace);
    if !contains_spec(normalized, key) {
        None
    } else {
        match crate::text::split_once_spec(normalized, ":"@) {
            Some((_, value)) => {
                let v = trim_spec(trim_spec(value, CharClass::Whitespace), CharClass::One('\''));
                if v.len() > 0 && v != "--"@ {
                    Some(v)
                } else {
                    None
                }
            },
            None => None,
        }
    }
}

/// The first value that mmcli shows for `key`.
pub open spec fn mmcli_value_of(text: Seq<char>, key: Seq<char>) -> Option<Seq<char>> {
    first_some(lines_spec(text).map_values(|l: Seq<char>| mmcli_line_value(l, key)))
}

/// The value mmcli shows for `key` is that of the first line that holds
/// one: where line `i` gives a value for `key` and no line before it does,
/// the text gives line `i`'s value.
pub proof fn lemma_mmcli_value_is_first_line(text: Seq<char>, key: Seq<char>, i: int)
    requires
        0 <= i < lines_spec(text).len(),
        mmcli_line_value(lines_spec(text)[i], key) is Some,
        forall|j: int| 0 <= j < i ==> #[trigger] mmcli_line_value(lines_spec(text)[j], key) is None,
    ensures
        mmcli_value_of(text, key) == mmcli_line_value(lines_spec(text)[i], key),
{
    let found = lines_spec(text).map_values(|l: Seq<char>| mmcli_line_value(l, key));
    assert forall|j: int| 0 <= j < i implies found[j] is None by {
        assert(found[j] == mmcli_line_value(lines_spec(text)[j], key));
    }
    lemma_first_some_is(found, i);
}

/// A text none of whose lines gives a value for `key` gives none.
pub proof fn lemma_mmcli_value_none(text: Seq<char>, key: Seq<char>)
    requires
        forall|j: int| 0 <= j < lines_spec(text).len() ==> #[trigger] mmcli_line_value(lines_spec(text)[j], key) is None,
    ensures
        mmcli_value_of(text, key) is None,
{
    let found = lines_spec(text).map_values(|l: Seq<char>| mmcli_line_value(l, key));
    assert forall|j: int| 0 <= j < found.len() implies found[j] is None by {
        assert(found[j] == mmcli_line_value(lines_spec(text)[j], key));
    }
    lemma_first_some_none(found);
}

/// The value that mmcli shows on a line for `key`.
fn mmcli_line_value_exec(line: &Vec<char>, key: &Vec<char>) -> (r: Option<Vec<char>>)
    ensures
        match r {
            Some(v) => mmcli_line_value(line@, key@) == Some(v@),
            None => mmcli_line_value(line@, key@) is None,
        },
{
    let normalized = trim_chars(line, CharClass::Whitespace);
    if !contains_chars(&normalized, key) {
        return None;
    }
    let colon = chars_of(":");
    match crate::text::split_once_chars(&normalized, &colon) {
        Some((_, value)) => {
            let trimmed = trim_chars(&value, CharClass::Whitespace);
            let v = trim_chars(&trimmed, CharClass::One('\''));
            let dashes = chars_of("--");
            if v.len() > 0 && !crate::text::chars_eq(&v, &dashes) {
                Some(v)
            } else {
                None
            }
        },
        None => None,
    }
}

/// The first value that mmcli shows for `key`, such as the modem's state.
pub fn find_mmcli_value(text: &str, key: &str) -> (r: Option<String>)
    ensures
        match r {
            Some(v) => mmcli_value_of(text@, key@) == Some(v@),
            None => mmcli_value_of(text@, key@) is None,
        },
{
    let chars = chars_of(text);
    let key_chars = chars_of(key);
    let lines = lines_chars(&chars);
    let ghost found = lines_spec(text@).map_values(|l: Seq<char>| mmcli_line_value(l, key@));
    let mut i: usize = 0;
    assert(found.skip(0) =~= found);
    while i < lines.len()
        invariant
            i <= lines.len(),
            key_chars@ == key@,
            char_views(lines@) == lines_spec(text@),
            found == lines_spec(text@).map_values(|l: Seq<char>| mmcli_line_value(l, key@)),
            first_some(found) == first_some(found.skip(i as int)),
        decreases lines.len() - i,
    {
        let v = mmcli_line_value_exec(&lines[i], &key_chars);
        proof {
            lemma_first_some_step(found, i as int);
            assert(found[i as int] == mmcli_line_value(lines@[i as int]@, key@));
        }
        match v {
            Some(value) => {
                return Some(string_from_chars(&value));
            },
            None => {},
        }
        i = i + 1;
    }
    proof {
        lemma_first_some_end(found);
    }
    None
}


/// The signal strength, in percent, of an nmcli device line cut at its
/// colons: its third field where that reads as a `u8`; else 100 for an
/// ethernet device and 0 for any other.
pub open spec fn nmcli_signal_percent(parts: Seq<Seq<char>>) -> int {
    if parts.len() > 2 && parse_unsigned_spec(parts[2], 255) is Some {
        parse_unsigned_spec(parts[2], 255)->0
    } else if parts[0] == "ethernet"@ {
        100
    } else {
        0
    }
}

/// The network that an nmcli device line describes: the kind its first
/// field names, online, with the bars of its signal strength.
pub open spec fn nmcli_line_network(line: Seq<char>) -> NetworkSnapshot {
    let parts = split_spec(line, CharClass::One(':'));
    NetworkSnapshot {
        kind: network_kind_of(parts[0]),
        is_online: true,
        signal_level: signal_level_of(nmcli_signal_percent(parts)) as u8,
    }
}

/// The network that `nmcli -t -f TYPE,ACTIVE,SIGNAL,CONNECTION dev` reports:
/// that of its first line containing `:connected:`, if there is one.
pub open spec fn nmcli_network_of(text: Seq<char>) -> Option<NetworkSnapshot> {
    let lines = lines_spec(text);
    let i = first_index(lines, containing(":connected:"@));
    if i < lines.len() {
        Some(nmcli_line_network(lines[i]))
    } else {
        None
    }
}

/// The network that nmcli's device listing reports.
pub fn parse_nmcli_network(stdout: &str) -> (r: Option<NetworkSnapshot>)
    ensures
        r == nmcli_network_of(stdout@),
{
    let chars = chars_of(stdout);
    let lines = lines_chars(&chars);
    let pat = chars_of(":connected:");
    let i = first_containing(&lines, &pat);
    proof {
        lemma_first_index(char_views(lines@), containing(pat@));
    }
    if i >= lines.len() {
        return None;
    }
    let parts = split_chars(&lines[i], CharClass::One(':'));
    let ghost line = lines@[i as int]@;
    proof {
        lemma_split_nonempty(line, CharClass::One(':'));
        assert(char_views(lines@)[i as int] == line);
    }
    let ethernet = chars_of("ethernet");
    let fallback: u8 = if chars_eq(&parts[0], &ethernet) { 100 } else { 0 };
    let percent: u8 = if parts.len() > 2 {
        match parse_u8_chars(&parts[2]) {
            Some(v) => v,
            None => fallback,
        }
    } else {
        fallback
    };
    let kind = string_from_chars(&parts[0]);
    let ghost pv = char_views(parts@);
    assert(pv[0] == parts@[0]@);
    assert(parts.len() > 2 ==> pv[2] == parts@[2]@);
    assert(percent as int == nmcli_signal_percent(pv));
    Some(
        NetworkSnapshot {
            kind: network_kind(kind.as_str()),
            is_online: true,
            signal_level: signal_percent_to_level(percent),
        },
    )
}

/// The RSSI that a line of `airport -I` output gives: what follows
/// ` agrCtlRSSI: `, trimmed, read as an `i32`.
pub open spec fn airport_line_rssi(line: Seq<char>) -> Option<int> {
    match split_once_spec(line, " agrCtlRSSI: "@) {
        Some((_, value)) => parse_signed_spec(
            trim_spec(value, CharClass::Whitespace),
            i32::MIN as int,
            i32::MAX as int,
        ),
        None => None,
    }
}

/// The Wi-Fi network that `airport -I` reports: online, with the bars of
/// the first RSSI it gives.
pub open spec fn airport_network_of(text: Seq<char>) -> Option<NetworkSnapshot> {
    match first_some(lines_spec(text).map_values(|l: Seq<char>| airport_line_rssi(l))) {
        Some(rssi) => Some(
            NetworkSnapshot {
                kind: NetworkKind::Wifi,
                is_online: true,
                signal_level: signal_level_of(rssi_percent_of(rssi)) as u8,
            },
        ),
        None => None,
    }
}

/// The RSSI that a line of `airport -I` output gives.
fn airport_line_rssi_exec(line: &Vec<char>) -> (r: Option<i32>)
    ensures
        match r {
            Some(v) => airport_line_rssi(line@) == Some(v as int),
            None => airport_line_rssi(line@) is None,
        },
{
    let pat = chars_of(" agrCtlRSSI: ");
    match split_once_chars(line, &pat) {
        Some((_, value)) => {
            let trimmed = trim_chars(&value, CharClass::Whitespace);
            parse_i32_chars(&trimmed)
        },
        None => None,
    }
}

/// The Wi-Fi network that macOS's `airport -I` reports.
pub fn parse_airport_network(stdout: &str) -> (r: Option<NetworkSnapshot>)
    ensures
        r == airport_network_of(stdout@),
{
    let chars = chars_of(stdout);
    let lines = lines_chars(&chars);
    let ghost found = lines_spec(stdout@).map_values(|l: Seq<char>| airport_line_rssi(l));
    let mut i: usize = 0;
    assert(found.skip(0) =~= found);
    while i < lines.len()
        invariant
            i <= lines.len(),
            char_views(lines@) == lines_spec(stdout@),
            found == lines_spec(stdout@).map_values(|l: Seq<char>| airport_line_rssi(l)),
            first_some(found) == first_some(found.skip(i as int)),
        decreases lines.len() - i,
    {
        let v = airport_line_rssi_exec(&lines[i]);
        proof {
            lemma_first_some_step(found, i as int);
            assert(found[i as int] == airport_line_rssi(lines@[i as int]@));
        }
        match v {
            Some(rssi) => {
                return Some(
                    NetworkSnapshot {
                        kind: NetworkKind::Wifi,
                        is_online: true,
                        signal_level: signal_percent_to_level(rssi_to_percent(rssi)),
                    },
                );
            },
            None => {},
        }
        i = i + 1;
    }
    proof {
        lemma_first_some_end(found);
    }
    None
}


/// The first word of a line of `mmcli -L` output that is a modem's D-Bus
/// path.
pub open spec fn line_modem_path(line: Seq<char>) -> Option<Seq<char>> {
    let words = words_spec(line);
    let i = first_index(words, starting_with("/org/freedesktop/ModemManager1/Modem/"@));
    if i < words.len() {
        Some(words[i])
    } else {
        None
    }
}

/// The first modem path that `mmcli -L` lists.
pub open spec fn modem_path_of(text: Seq<char>) -> Option<Seq<char>> {
    first_some(lines_spec(text).map_values(|l: Seq<char>| line_modem_path(l)))
}

/// The first word of a line that is a modem's D-Bus path.
fn line_modem_path_exec(line: &Vec<char>) -> (r: Option<Vec<char>>)
    ensures
        match r {
            Some(v) => line_modem_path(line@) == Some(v@),
            None => line_modem_path(line@) is None,
        },
{
    let words = words_chars(line);
    let prefix = chars_of("/org/freedesktop/ModemManager1/Modem/");
    let i = first_starting_with(&words, &prefix);
    proof {
        lemma_first_index(char_views(words@), starting_with(prefix@));
    }
    if i < words.len() {
        assert(char_views(words@)[i as int] == words@[i as int]@);
        Some(crate::text::slice_chars(&words[i], 0, words[i].len()))
    } else {
        None
    }
}

/// The first modem path that `mmcli -L` lists.
pub fn find_modem_path(stdout: &str) -> (r: Option<String>)
    ensures
        match r {
            Some(v) => modem_path_of(stdout@) == Some(v@),
            None => modem_path_of(stdout@) is None,
        },
{
    let chars = chars_of(stdout);
    let lines = lines_chars(&chars);
    let ghost found = lines_spec(stdout@).map_values(|l: Seq<char>| line_modem_path(l));
    let mut i: usize = 0;
    assert(found.skip(0) =~= found);
    while i < lines.len()
        invariant
            i <= lines.len(),
            char_views(lines@) == lines_spec(stdout@),
            found == lines_spec(stdout@).map_values(|l: Seq<char>| line_modem_path(l)),
            first_some(found) == first_some(found.skip(i as int)),
        decreases lines.len() - i,
    {
        let v = line_modem_path_exec(&lines[i]);
        proof {
            lemma_first_some_step(found, i as int);
            assert(found[i as int] == line_modem_path(lines@[i as int]@));
        }
        match v {
            Some(path) => {
                return Some(string_from_chars(&path));
            },
            None => {},
        }
        i = i + 1;
    }
    proof {
        lemma_first_some_end(found);
    }
    None
}

/// The signal strength, in percent, that a modem's `signal quality` value
/// gives: its first word read as a `u8`, else 60.
pub open spec fn modem_signal_percent(quality: Option<Seq<char>>) -> int {
    match quality {
        Some(v) => {
            let w = words_spec(v);
            if w.len() > 0 && parse_unsigned_spec(w[0], 255) is Some {
                parse_unsigned_spec(w[0], 255)->0
            } else {
                60
            }
        },
        None => 60,
    }
}

/// The mobile network that `mmcli -m <modem>` reports: where its state, in
/// lower case, contains `connected` or `registered`, an online LTE network
/// with the bars of its signal quality.
pub open spec fn modem_network_of(text: Seq<char>) -> Option<NetworkSnapshot> {
    match mmcli_value_of(text, "state"@) {
        Some(state) => {
            let l = lower_spec(state);
            if contains_spec(l, "connected"@) || contains_spec(l, "registered"@) {
                Some(
                    NetworkSnapshot {
                        kind: NetworkKind::Lte,
                        is_online: true,
                        signal_level: signal_level_of(
                            modem_signal_percent(mmcli_value_of(text, "signal quality"@)),
                        ) as u8,
                    },
                )
            } else {
                None
            }
        },
        None => None,
    }
}

/// The signal strength, in percent, that a modem's `signal quality` value
/// gives.
fn modem_signal_percent_exec(quality: &Option<String>) -> (r: u8)
    ensures
        r as int == modem_signal_percent(
            match quality {
                Some(v) => Some(v@),
                None => None,
            },
        ),
{
    match quality {
        Some(v) => {
            let chars = chars_of(v.as_str());
            let words = words_chars(&chars);
            if words.len() > 0 {
                assert(char_views(words@)[0] == words@[0]@);
                match parse_u8_chars(&words[0]) {
                    Some(p) => p,
                    None => 60,
                }
            } else {
                60
            }
        },
        None => 60,
    }
}

/// The mobile network that `mmcli -m <modem>` reports.
pub fn parse_modem_network(stdout: &str) -> (r: Option<NetworkSnapshot>)
    ensures
        r == modem_network_of(stdout@),
{
    let state = match find_mmcli_value(stdout, "state") {
        Some(v) => v,
        None => {
            return None;
        },
    };
    let chars = chars_of(state.as_str());
    let lower = lower_chars(&chars);
    let connected = chars_of("connected");
    let registered = chars_of("registered");
    if !contains_chars(&lower, &connected) && !contains_chars(&lower, &registered) {
        return None;
    }
    let quality = find_mmcli_value(stdout, "signal quality");
    let percent = modem_signal_percent_exec(&quality);
    Some(
        NetworkSnapshot {
            kind: NetworkKind::Lte,
            is_online: true,
            signal_level: signal_percent_to_level(percent),
        },
    )
}

/// The battery device that `upower -e` lists: its first line containing
/// `battery`.
pub open spec fn battery_device_of(text: Seq<char>) -> Option<Seq<char>> {
    let lines = lines_spec(text);
    let i = first_index(lines, containing("battery"@));
    if i < lines.len() {
        Some(lines[i])
    } else {
        None
    }
}

/// The battery device that `upower -e` lists.
pub fn find_upower_battery_device(stdout: &str) -> (r: Option<String>)
    ensures
        match r {
            Some(v) => battery_device_of(stdout@) == Some(v@),
            None => battery_device_of(stdout@) is None,
        },
{
    let chars = chars_of(stdout);
    let lines = lines_chars(&chars);
    let pat = chars_of("battery");
    let i = first_containing(&lines, &pat);
    proof {
        lemma_first_index(char_views(lines@), containing(pat@));
    }
    if i < lines.len() {
        assert(char_views(lines@)[i as int] == lines@[i as int]@);
        Some(string_from_chars(&lines[i]))
    } else {
        None
    }
}

/// Lines that begin with `state:` once leading whitespace is dropped.
pub open spec fn is_state_line() -> spec_fn(Seq<char>) -> bool {
    |l: Seq<char>| starts_with_spec(trim_start_spec(l, CharClass::Whitespace), "state:"@)
}

/// The battery that `upower -i <device>` reports: the first percentage in
/// its text, and whether its first `state:` line says it charges (not
/// charging where there is none); nothing where the text holds no
/// percentage.
pub open spec fn upower_battery_of(text: Seq<char>) -> Option<(u8, bool)> {
    match percentage_of_text(text) {
        Some(level) => {
            let lines = lines_spec(text);
            let i = first_index(lines, is_state_line());
            Some((level as u8, i < lines.len() && charging_status_of(lines[i])))
        },
        None => None,
    }
}

/// The battery that `upower -i <device>` reports.
pub fn parse_upower_battery(stdout: &str) -> (r: Option<(u8, bool)>)
    ensures
        r == upower_battery_of(stdout@),
{
    let level = match parse_percentage_from_text(stdout) {
        Some(v) => v,
        None => {
            return None;
        },
    };
    let chars = chars_of(stdout);
    let lines = lines_chars(&chars);
    let ghost views = char_views(lines@);
    let state = chars_of("state:");
    let mut i: usize = 0;
    while i < lines.len()
        invariant
            i <= lines.len(),
            views == char_views(lines@),
            views == lines_spec(stdout@),
            percentage_of_text(stdout@) == Some(level as int),
            state@ == "state:"@,
            forall|j: int| 0 <= j < i ==> !is_state_line()(#[trigger] views[j]),
        decreases lines.len() - i,
    {
        let trimmed = trim_start_chars(&lines[i], CharClass::Whitespace);
        assert(views[i as int] == lines@[i as int]@);
        if starts_with_chars(&trimmed, &state) {
            proof {
                crate::search::lemma_first_index_is(views, is_state_line(), i as int);
            }
            let line = string_from_chars(&lines[i]);
            let charging = is_charging_status(line.as_str());
            return Some((level, charging));
        }
        i = i + 1;
    }
    proof {
        crate::search::lemma_first_index_is(views, is_state_line(), i as int);
    }
    Some((level, false))
}

/// The battery that a sysfs power supply reports: its `capacity`, trimmed,
/// read as a `u8`, and whether its `status`, where there is one, says it
/// charges.
pub open spec fn sysfs_battery_of(capacity: Seq<char>, status: Option<Seq<char>>) -> Option<(u8, bool)> {
    match parse_unsigned_spec(trim_spec(capacity, CharClass::Whitespace), 255) {
        Some(level) => Some(
            (
                level as u8,
                match status {
                    Some(s) => charging_status_of(s),
                    None => false,
                },
            ),
        ),
        None => None,
    }
}

/// The battery that a sysfs power supply reports, from the contents of its
/// `capacity` file and, where it could be read, of its `status` file.
pub fn battery_from_sysfs(capacity: &str, status: Option<&str>) -> (r: Option<(u8, bool)>)
    ensures
        r == sysfs_battery_of(
            capacity@,
            match status {
                Some(s) => Some(s@),
                None => None,
            },
        ),
{
    let chars = chars_of(capacity);
    let trimmed = trim_chars(&chars, CharClass::Whitespace);
    let level = match parse_u8_chars(&trimmed) {
        Some(v) => v,
        None => {
            return None;
        },
    };
    let charging = match status {
        Some(s) => is_charging_status(s),
        None => false,
    };
    Some((level, charging))
}

/// Whether a power supply's name is that of a battery: it begins with `BAT`.
pub fn is_battery_supply(name: &str) -> (r: bool)
    ensures
        r == starts_with_spec(name@, "BAT"@),
{
    let chars = chars_of(name);
    let prefix = chars_of("BAT");
    starts_with_chars(&chars, &prefix)
}

/// The snapshot that a battery reading, a network reading and the local
/// wall-clock time (`local_seconds` after midnight of 1 January 1970) give,
/// each reading where one was had: without a battery reading, 82% and not
/// charging; without a network, offline. The date and time labels are
/// those of the wall-clock time.
pub fn load_device_snapshot(battery: Option<(u8, bool)>, network: Option<NetworkSnapshot>, local_seconds: i64) -> (r:
    DeviceSnapshot)
    requires
        clock_in_range(local_seconds as int),
    ensures
        (r.battery_level, r.battery_charging) == match battery {
            Some(b) => b,
            None => (82u8, false),
        },
        r.network_kind == match network {
            Some(n) => n.kind,
            None => NetworkKind::Offline,
        },
        r.network_is_online == match network {
            Some(n) => n.is_online,
            None => false,
        },
        r.signal_level == match network {
            Some(n) => n.signal_level,
            None => 0u8,
        },
        r.date_label@ == date_label_of(local_seconds as int),
        r.time_label@ == time_label_of(local_seconds as int),
{
    let (battery_level, battery_charging) = match battery {
        Some(b) => b,
        None => (82u8, false),
    };
    let net = match network {
        Some(n) => n,
        None => NetworkSnapshot::offline(),
    };
    let (date_label, time_label) = clock_labels(local_seconds);
    DeviceSnapshot {
        battery_level,
        battery_charging,
        date_label,
        network_kind: net.kind,
        network_is_online: net.is_online,
        signal_level: net.signal_level,
        time_label,
    }
}

} // verus!
