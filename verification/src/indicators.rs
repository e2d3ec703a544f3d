//! The status bar's indicators: the network icon, the signal bars, the
//! online dot and the battery gauge with its fill animation.
use vstd::prelude::*;

use crate::device::NetworkKind;

verus! {

/// The status icon of a network kind.
pub fn network_kind_icon_name(kind: NetworkKind) -> (r: &'static str)
    ensures
        r@ == match kind {
            NetworkKind::Wifi => "status-wifi"@,
            NetworkKind::Ethernet => "status-ethernet"@,
            NetworkKind::Lte => "status-lte"@,
            NetworkKind::Offline | NetworkKind::Unknown => "status-offline"@,
        },
{
    match kind {
        NetworkKind::Wifi => "status-wifi",
        NetworkKind::Ethernet => "status-ethernet",
        NetworkKind::Lte => "status-lte",
        NetworkKind::Offline | NetworkKind::Unknown => "status-offline",
    }
}

/// The number of bars of the signal indicator.
pub const SIGNAL_BARS: u8 = 5;

/// Whether the bar at `index` (from 0, left to right) is lit at signal
/// `level`: the first `level` bars are, and at most all five.
pub fn signal_bar_active(index: u8, level: u8) -> (r: bool)
    ensures
        r == (index < if level < 5 { level } else { 5 }),
{
    let clamped: u8 = if level < SIGNAL_BARS { level } else { SIGNAL_BARS };
    index < clamped
}

/// The height of the bar at `index`: 6 pixels, and 3 more for each bar
/// before it.
pub fn signal_bar_height(index: u8) -> (r: i32)
    requires
        index < SIGNAL_BARS,
    ensures
        r == 6 + 3 * index,
{
    6 + 3 * (index as i32)
}

/// The style class of the online dot.
pub fn status_dot_class(is_online: bool) -> (r: &'static str)
    ensures
        r@ == if is_online {
            "status-dot-online"@
        } else {
            "status-dot-offline"@
        },
{
    if is_online {
        "status-dot-online"
    } else {
        "status-dot-offline"
    }
}

/// The width of the battery fill at `level`: 26 pixels at 100%, in
/// proportion below (rounded down), levels above 100 counting as 100, and
/// never under 4.
pub open spec fn fill_width_of(level: int) -> int {
    let w = (if level > 100 { 100 } else { level }) * 26 / 100;
    if w < 4 {
        4
    } else {
        w
    }
}

/// The width of the battery fill at `level`.
pub fn battery_fill_width(level: u8) -> (r: i32)
    ensures
        r == fill_width_of(level as int),
        4 <= r <= 26,
{
    let clamped: i32 = if level > 100 { 100 } else { level as i32 };
    let w = (clamped * 26) / 100;
    if w < 4 {
        4
    } else {
        w
    }
}

/// A fuller battery never has a narrower fill.
pub proof fn lemma_fill_width_monotonic(a: int, b: int)
    requires
        0 <= a <= b,
    ensures
        fill_width_of(a) <= fill_width_of(b),
{
    let ca = if a > 100 { 100 } else { a };
    let cb = if b > 100 { 100 } else { b };
    assert(ca * 26 <= cb * 26) by (nonlinear_arith)
        requires
            0 <= ca <= cb,
    ;
    assert(ca * 26 / 100 <= cb * 26 / 100) by (nonlinear_arith)
        requires
            0 <= ca * 26 <= cb * 26,
    ;
}

/// The style class of the battery fill: charging first; else by level,
/// critical to 10%, low to 20%, mid to 55%, high above.
pub fn battery_fill_class(level: u8, charging: bool) -> (r: &'static str)
    ensures
        r@ == if charging {
            "battery-fill-charging"@
        } else if level <= 10 {
            "battery-fill-critical"@
        } else if level <= 20 {
            "battery-fill-low"@
        } else if level <= 55 {
            "battery-fill-mid"@
        } else {
            "battery-fill-high"@
        },
{
    if charging {
        "battery-fill-charging"
    } else if level <= 10 {
        "battery-fill-critical"
    } else if level <= 20 {
        "battery-fill-low"
    } else if level <= 55 {
        "battery-fill-mid"
    } else {
        "battery-fill-high"
    }
}

/// One frame of the battery fill's animation.
#[derive(Debug, Clone, Copy, PartialEq, Eq, Structural)]
pub enum FillFrame {
    /// The fill already has the target width: show the final state and
    /// stop.
    Settled,
    /// Set the fill to `width`; where `last` holds it has reached the
    /// target, so show the final state and stop, else go on next frame.
    Step { width: i32, last: bool },
}

/// The frame that moves a fill of `current` requested width toward
/// `target`, a requested width under 4 counting as 4: one pixel closer.
pub open spec fn fill_frame_of(current: int, target: int) -> FillFrame {
    let c = if current < 4 { 4 } else { current };
    if c == target {
        FillFrame::Settled
    } else {
        let next = if c < target { c + 1 } else { c - 1 };
        FillFrame::Step { width: next as i32, last: next == target }
    }
}

/// The frame that moves the fill toward `target`.
pub fn fill_frame(current: i32, target: i32) -> (r: FillFrame)
    requires
        4 <= target <= 26,
    ensures
        r == fill_frame_of(current as int, target as int),
{
    let c: i32 = if current < 4 { 4 } else { current };
    if c == target {
        FillFrame::Settled
    } else {
        let next: i32 = if c < target { c + 1 } else { c - 1 };
        FillFrame::Step { width: next, last: next == target }
    }
}

/// A requested width, under 4 counting as 4.
pub open spec fn at_least_four(width: int) -> int {
    if width < 4 {
        4
    } else {
        width
    }
}

/// How far apart two widths are.
pub open spec fn distance(a: int, b: int) -> int {
    if a < b {
        b - a
    } else {
        a - b
    }
}

/// The animation ends: a frame that does not stop brings the width one
/// pixel closer to the target, and stops once it is there; it settles only
/// at the target.
pub proof fn lemma_fill_frame_converges(current: int, target: int)
    requires
        4 <= target <= 26,
        i32::MIN <= current <= i32::MAX,
    ensures
        fill_frame_of(current, target) is Settled ==> at_least_four(current) == target,
        fill_frame_of(current, target) matches FillFrame::Step { width, last } ==> {
            &&& distance(width as int, target) + 1 == distance(at_least_four(current), target)
            &&& last == (width == target)
        },
{
}

} // verus!
