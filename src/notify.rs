//! What the brightness and volume notifications show: the icon for a level
//! and the value hint. Rendering them is the caller's concern.
use vstd::prelude::*;

use crate::range::{clamp_spec, div_round, level_of, FULL_SCALE};
use crate::volume::Mixer;

verus! {

/// The volume state a notification shows.
#[derive(Debug, Clone, Copy, PartialEq, Eq, Structural)]
pub enum Volume {
    Muted,
    Percent(u32),
}

/// The whole percent of a level, rounded to the nearest; levels outside the scale count
/// as its nearer end.
pub open spec fn percent_of(level: int) -> int {
    div_round(clamp_spec(level, 0, FULL_SCALE as int) * 100, FULL_SCALE as int)
}

/// The whole percent of `level`.
pub fn percent_from_level(level: i64) -> (r: u32)
    ensures
        r == percent_of(level as int),
        r <= 100,
{
    let l: i64 = if level < 0 {
        0
    } else if level > FULL_SCALE {
        FULL_SCALE
    } else {
        level
    };
    let li = l as i128;
    proof {
        assert(0 <= (2 * (li * 100) + FULL_SCALE) / (2 * FULL_SCALE) <= 100) by (nonlinear_arith)
            requires
                0 <= li <= FULL_SCALE,
        ;
    }
    ((2 * (li * 100) + FULL_SCALE as i128) / (2 * FULL_SCALE as i128)) as u32
}

/// The volume state of a mixer element: muted, or its volume in whole percent.
pub open spec fn status_of(m: Mixer) -> Volume {
    if m.muted() {
        Volume::Muted
    } else {
        Volume::Percent(percent_of(level_of(m.volume as int, m.min as int, m.max as int)) as u32)
    }
}

/// The volume state to show for `m`.
pub fn volume_status(m: &Mixer) -> (r: Volume)
    ensures
        r == status_of(*m),
{
    if m.is_muted() {
        Volume::Muted
    } else {
        Volume::Percent(percent_from_level(m.volume()))
    }
}

/// The icon for a brightness of `percent`.
pub open spec fn brightness_icon_of(percent: u32) -> Seq<char> {
    if percent <= 33 {
        "notification-display-brightness-low"@
    } else if percent <= 67 {
        "notification-display-brightness-medium"@
    } else if percent <= 99 {
        "notification-display-brightness-high"@
    } else {
        "notification-display-brightness-full"@
    }
}

/// The icon for a brightness of `percent`.
pub fn brightness_icon(percent: u32) -> (r: &'static str)
    ensures
        r@ == brightness_icon_of(percent),
{
    if percent <= 33 {
        "notification-display-brightness-low"
    } else if percent <= 67 {
        "notification-display-brightness-medium"
    } else if percent <= 99 {
        "notification-display-brightness-high"
    } else {
        "notification-display-brightness-full"
    }
}

/// The icon for a volume state.
pub open spec fn volume_icon_of(v: Volume) -> Seq<char> {
    match v {
        Volume::Muted => "notification-audio-volume-muted"@,
        Volume::Percent(x) => if x == 0 {
            "notification-audio-volume-off"@
        } else if x < 33 {
            "notification-audio-volume-low"@
        } else if x < 67 {
            "notification-audio-volume-medium"@
        } else {
            "notification-audio-volume-high"@
        },
    }
}

/// The icon for a volume state.
pub fn volume_icon(v: Volume) -> (r: &'static str)
    ensures
        r@ == volume_icon_of(v),
{
    match v {
        Volume::Muted => "notification-audio-volume-muted",
        Volume::Percent(x) => {
            if x == 0 {
                "notification-audio-volume-off"
            } else if x < 33 {
                "notification-audio-volume-low"
            } else if x < 67 {
                "notification-audio-volume-medium"
            } else {
                "notification-audio-volume-high"
            }
        },
    }
}

/// The value hint of a volume notification: `0` when muted.
pub fn volume_value(v: Volume) -> (r: u32)
    ensures
        r == match v {
            Volume::Muted => 0,
            Volume::Percent(p) => p,
        },
{
    match v {
        Volume::Muted => 0,
        Volume::Percent(p) => p,
    }
}

} // verus!
