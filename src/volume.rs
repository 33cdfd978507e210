//! The audio mixer element: playback volume in raw and level units, relative
//! change with clipping, and the playback mute switch.
//!
//! A `Mixer` holds the state of one simple mixer element as read from the
//! control subsystem: its raw volume range, its raw volume, whether it is
//! mono, whether it has a playback switch and the switch's position. Each
//! operation is a transition of that state; the caller writes the changed
//! volume or switch back to the element.
use vstd::prelude::*;
use vstd::string::StringSliceAdditionalSpecFns;

use crate::range::{
    clamp_spec,
    level_from_native,
    level_of,
    native_from_level,
    native_of,
    native_step,
    native_step_of,
};

verus! {

/// The stage at which opening a mixer element failed.
#[derive(Debug, Clone, Copy, PartialEq, Eq, Structural)]
pub enum AlsaError {
    NameStrContainsNull,
    CardStrContainsNull,
    MixerOpen,
    MixerAttach,
    MixerLoad,
    MixerRegister,
    MixerFindSelem,
    /// The element reports a volume range whose bottom lies above its top.
    VolumeRange,
}

/// The state of one simple mixer element.
#[derive(Debug, Clone, Copy, PartialEq, Eq, Structural)]
pub struct Mixer {
    /// Bottom of the raw playback volume range.
    pub min: i64,
    /// Top of the raw playback volume range.
    pub max: i64,
    /// Raw playback volume of the mono channel.
    pub volume: i64,
    /// Whether the element has a single playback channel.
    pub mono: bool,
    /// Whether the element has a playback switch.
    pub has_switch: bool,
    /// Position of the playback switch: `true` plays, `false` is muted.
    pub switch_on: bool,
}

/// Whether a string holds a NUL byte, which no C string can carry.
pub open spec fn has_nul(s: &str) -> bool {
    s.spec_bytes().contains(0u8)
}

/// Whether `s` holds a NUL byte.
fn contains_nul(s: &str) -> (r: bool)
    ensures
        r == has_nul(s),
{
    let bytes = s.as_bytes();
    let mut i: usize = 0;
    while i < bytes.len()
        invariant
            0 <= i <= bytes@.len(),
            bytes@ == s.spec_bytes(),
            forall|j: int| 0 <= j < i ==> bytes@[j] != 0u8,
        decreases bytes@.len() - i,
    {
        if bytes[i] == 0u8 {
            assert(s.spec_bytes()[i as int] == 0u8);
            return true;
        }
        i = i + 1;
    }
    false
}

impl Mixer {
    /// A valid element state: its volume range is ordered.
    pub open spec fn wf(self) -> bool {
        self.min <= self.max
    }

    /// The state of an element as read from it; `VolumeRange` where the
    /// range it reports is not ordered.
    pub fn from_element(
        min: i64,
        max: i64,
        volume: i64,
        mono: bool,
        has_switch: bool,
        switch_on: bool,
    ) -> (r: Result<Mixer, AlsaError>)
        ensures
            min <= max ==> r == Ok::<Mixer, AlsaError>(
                Mixer { min, max, volume, mono, has_switch, switch_on },
            ),
            min > max ==> r == Err::<Mixer, AlsaError>(AlsaError::VolumeRange),
            r is Ok ==> r->Ok_0.wf(),
    {
        if min <= max {
            Ok(Mixer { min, max, volume, mono, has_switch, switch_on })
        } else {
            Err(AlsaError::VolumeRange)
        }
    }

    /// The mixer after a toggle of the playback switch, where it has one.
    pub open spec fn toggled(self) -> Mixer {
        if self.has_switch {
            Mixer { switch_on: !self.switch_on, ..self }
        } else {
            self
        }
    }

    /// Whether the element reads as muted: it has a playback switch and the
    /// switch is off.
    pub open spec fn muted(self) -> bool {
        self.has_switch && !self.switch_on
    }

    /// Checks the card and element names before any native call: the card
    /// name is checked first, then the element name.
    pub fn check_names(card: &str, name: &str) -> (r: Result<(), AlsaError>)
        ensures
            has_nul(card) ==> r == Err::<(), AlsaError>(AlsaError::CardStrContainsNull),
            !has_nul(card) && has_nul(name) ==> r == Err::<(), AlsaError>(
                AlsaError::NameStrContainsNull,
            ),
            !has_nul(card) && !has_nul(name) ==> r is Ok,
    {
        if contains_nul(card) {
            Err(AlsaError::CardStrContainsNull)
        } else if contains_nul(name) {
            Err(AlsaError::NameStrContainsNull)
        } else {
            Ok(())
        }
    }

    /// The raw playback volume range, `(min, max)`.
    pub fn volume_range(&self) -> (r: (i64, i64))
        requires
            self.wf(),
        ensures
            r == (self.min, self.max),
            r.0 <= r.1,
    {
        (self.min, self.max)
    }

    /// The raw playback volume.
    pub fn volume_raw(&self) -> (r: i64)
        ensures
            r == self.volume,
    {
        self.volume
    }

    /// Sets the raw playback volume of every channel.
    pub fn set_volume_raw(&mut self, volume: i64)
        ensures
            *final(self) == (Mixer { volume, ..*old(self) }),
    {
        self.volume = volume;
    }

    /// The playback volume as a level of the raw range.
    pub fn volume(&self) -> (r: i64)
        ensures
            r == level_of(self.volume as int, self.min as int, self.max as int),
    {
        level_from_native(self.volume, self.min, self.max)
    }

    /// Sets the playback volume to a level of the raw range.
    pub fn set_volume(&mut self, level: i64)
        ensures
            *final(self) == (Mixer {
                volume: native_of(level as int, old(self).min as int, old(self).max as int) as i64,
                ..*old(self)
            }),
    {
        let v = native_from_level(level, self.min, self.max);
        self.set_volume_raw(v);
    }

    /// Adds `delta` to the raw playback volume.
    pub fn change_volume_raw(&mut self, delta: i64)
        requires
            i64::MIN <= old(self).volume + delta <= i64::MAX,
        ensures
            *final(self) == (Mixer { volume: (old(self).volume + delta) as i64, ..*old(self) }),
    {
        let v = self.volume + delta;
        self.set_volume_raw(v);
    }

    /// Adds a change of `delta` levels to the raw playback volume, unclipped.
    pub fn change_volume(&mut self, delta: i64)
        requires
            i64::MIN <= old(self).volume + native_step(
                delta as int,
                old(self).min as int,
                old(self).max as int,
            ) <= i64::MAX,
        ensures
            *final(self) == (Mixer {
                volume: (old(self).volume + native_step(
                    delta as int,
                    old(self).min as int,
                    old(self).max as int,
                )) as i64,
                ..*old(self)
            }),
    {
        let step = native_step_of(delta, self.min, self.max);
        let v = (self.volume as i128 + step) as i64;
        self.set_volume_raw(v);
    }

    /// Adds a change of `delta` levels to the raw playback volume, held to
    /// the raw range.
    pub fn change_volume_clip(&mut self, delta: i64)
        ensures
            *final(self) == (Mixer {
                volume: clamp_spec(
                    old(self).volume + native_step(
                        delta as int,
                        old(self).min as int,
                        old(self).max as int,
                    ),
                    old(self).min as int,
                    old(self).max as int,
                ) as i64,
                ..*old(self)
            }),
    {
        let step = native_step_of(delta, self.min, self.max);
        let sum: i128 = self.volume as i128 + step;
        let v: i64 = if sum > self.max as i128 {
            self.max
        } else if sum < self.min as i128 {
            self.min
        } else {
            sum as i64
        };
        self.set_volume_raw(v);
    }

    /// Whether the element has a single playback channel.
    pub fn is_mono(&self) -> (r: bool)
        ensures
            r == self.mono,
    {
        self.mono
    }

    /// Whether the element has a playback switch.
    pub fn can_mute(&self) -> (r: bool)
        ensures
            r == self.has_switch,
    {
        self.has_switch
    }

    /// Turns the playback switch off; fails, changing nothing, where the
    /// element has no switch.
    pub fn mute(&mut self) -> (r: Result<(), ()>)
        ensures
            r is Ok <==> old(self).has_switch,
            old(self).has_switch ==> *final(self) == (Mixer { switch_on: false, ..*old(self) }),
            !old(self).has_switch ==> *final(self) == *old(self),
    {
        if self.can_mute() {
            self.switch_on = false;
            Ok(())
        } else {
            Err(())
        }
    }

    /// Turns the playback switch on; fails, changing nothing, where the
    /// element has no switch.
    pub fn unmute(&mut self) -> (r: Result<(), ()>)
        ensures
            r is Ok <==> old(self).has_switch,
            old(self).has_switch ==> *final(self) == (Mixer { switch_on: true, ..*old(self) }),
            !old(self).has_switch ==> *final(self) == *old(self),
    {
        if self.can_mute() {
            self.switch_on = true;
            Ok(())
        } else {
            Err(())
        }
    }

    /// Whether the element is muted; one without a switch never is.
    pub fn is_muted(&self) -> (r: bool)
        ensures
            r == self.muted(),
    {
        if self.can_mute() {
            !self.switch_on
        } else {
            false
        }
    }

    /// Flips the playback switch; fails, changing nothing, where the element
    /// has no switch.
    pub fn toggle_mute(&mut self) -> (r: Result<(), ()>)
        ensures
            r is Ok <==> old(self).has_switch,
            *final(self) == old(self).toggled(),
    {
        if self.can_mute() {
            if self.is_muted() {
                self.switch_on = true;
            } else {
                self.switch_on = false;
            }
            Ok(())
        } else {
            Err(())
        }
    }
}

/// Toggling the mute switch twice restores the element, and so what
/// `is_muted` reports; one toggle flips that report where the element can
/// mute, and where it cannot, both toggles fail and leave it as it was.
pub proof fn lemma_toggle_mute_involution(m: Mixer)
    ensures
        m.toggled().toggled() == m,
        m.toggled().toggled().muted() == m.muted(),
        m.has_switch ==> m.toggled().muted() != m.muted(),
        !m.has_switch ==> m.toggled() == m && !m.toggled().has_switch,
{
}

/// Every operation keeps the volume range, so a valid state stays valid.
pub proof fn lemma_operations_keep_range(m: Mixer, volume: i64, switch_on: bool)
    requires
        m.wf(),
    ensures
        (Mixer { volume, ..m }).wf(),
        (Mixer { switch_on, ..m }).wf(),
        m.toggled().wf(),
{
}

/// A clipped change of the volume never leaves the raw range when it starts
/// within it.
pub proof fn lemma_change_volume_clip_in_range(m: Mixer, delta: int)
    requires
        m.min <= m.volume <= m.max,
    ensures
        m.min <= clamp_spec(m.volume + native_step(delta, m.min as int, m.max as int), m.min as int, m.max as int) <= m.max,
{
}

} // verus!
