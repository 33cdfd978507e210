//! Brightness through the backlight property of RandR outputs.
//!
//! The caller talks to the X server; this module decides. It checks the
//! extension version, resolves the backlight atom, decodes property and
//! range replies, keeps the outputs that can be driven, and maps their native
//! values to and from levels. The first output discovered is the one driven.
use vstd::prelude::*;

use crate::range::{level_from_native, level_of, native_from_level, native_of, FULL_SCALE};

verus! {

/// The atom that `InternAtom` with `only_if_exists` returns for an unknown
/// name.
pub const ATOM_NONE: u32 = 0;

/// Why the RandR backend cannot serve a request.
#[derive(Debug, Clone, Copy, PartialEq, Eq, Structural)]
pub enum XcbError {
    /// The server's RandR version, older than 1.2.
    Version(u32, u32),
    /// Neither backlight atom exists: no output has the property.
    NoBacklight,
    /// No controllable output was found, or its value could not be read.
    NoOutput,
}

/// One output with a backlight property: its id, its native range and the
/// value read when it was discovered.
#[derive(Debug, Clone, Copy, PartialEq, Eq, Structural)]
pub struct Display {
    pub output: u32,
    pub min: i32,
    pub max: i32,
    pub current: i32,
}

/// What was learnt of one output during discovery: its backlight value
/// (`None` where it could not be read), and the reply to the query of the
/// property's valid values.
#[derive(Debug)]
pub struct OutputProbe {
    pub output: u32,
    pub current: Option<i32>,
    /// Whether the valid values form a range.
    pub range: bool,
    pub valid_values: Vec<i32>,
}

/// The RandR backend: the backlight atom and the outputs that can be driven,
/// in the order of discovery.
pub struct XcbBrightness {
    atom: u32,
    displays: Vec<Display>,
}

/// Whether a server reporting RandR `major.minor` can be used.
pub open spec fn version_ok(major: u32, minor: u32) -> bool {
    major == 1 && minor >= 2
}

/// Requires RandR 1.2 or a later 1.x.
pub fn check_version(major: u32, minor: u32) -> (r: Result<(), XcbError>)
    ensures
        version_ok(major, minor) ==> r is Ok,
        !version_ok(major, minor) ==> r == Err::<(), XcbError>(XcbError::Version(major, minor)),
{
    if major != 1 || minor < 2 {
        Err(XcbError::Version(major, minor))
    } else {
        Ok(())
    }
}

/// The backlight atom: the modern one where it exists, else the legacy one
/// (`None` where it was not looked up), else no atom at all.
pub open spec fn resolved_atom(modern: u32, legacy: Option<u32>) -> Result<u32, XcbError> {
    if modern != ATOM_NONE {
        Ok(modern)
    } else {
        match legacy {
            Some(l) if l != ATOM_NONE => Ok(l),
            _ => Err(XcbError::NoBacklight),
        }
    }
}

/// Whether the legacy atom must be looked up, given the modern one.
pub fn needs_legacy_atom(modern: u32) -> (r: bool)
    ensures
        r == (modern == ATOM_NONE),
{
    modern == ATOM_NONE
}

/// Resolves the backlight atom from the replies for `"Backlight"` and, where
/// that one is missing, `"BACKLIGHT"`.
pub fn backlight_atom(modern: u32, legacy: Option<u32>) -> (r: Result<u32, XcbError>)
    ensures
        r == resolved_atom(modern, legacy),
{
    if !needs_legacy_atom(modern) {
        Ok(modern)
    } else {
        match legacy {
            Some(l) => {
                if l != ATOM_NONE {
                    Ok(l)
                } else {
                    Err(XcbError::NoBacklight)
                }
            },
            None => Err(XcbError::NoBacklight),
        }
    }
}

/// With the modern atom missing, the legacy one is used where it exists; with
/// both missing, there is no backlight.
pub proof fn lemma_atom_resolution(legacy: u32)
    ensures
        legacy != ATOM_NONE ==> resolved_atom(ATOM_NONE, Some(legacy)) == Ok::<u32, XcbError>(
            legacy,
        ),
        resolved_atom(ATOM_NONE, Some(ATOM_NONE)) == Err::<u32, XcbError>(XcbError::NoBacklight),
        resolved_atom(ATOM_NONE, None) == Err::<u32, XcbError>(XcbError::NoBacklight),
{
}

/// The backlight value in an output property reply: present only where the
/// reply holds exactly one item of format 32.
pub open spec fn value_of(num_items: u32, format: u8, data: Seq<i32>) -> Option<i32> {
    if num_items == 1 && format == 32 && data.len() >= 1 {
        Some(data[0])
    } else {
        None
    }
}

/// Decodes an output property reply into the backlight value.
pub fn decode_value(num_items: u32, format: u8, data: &[i32]) -> (r: Option<i32>)
    ensures
        r == value_of(num_items, format, data@),
{
    if num_items == 1 && format == 32 && data.len() >= 1 {
        Some(data[0])
    } else {
        None
    }
}

/// The native range in a valid-values reply: present only where the values
/// form a range of exactly two bounds, the lower first.
pub open spec fn range_of(range: bool, values: Seq<i32>) -> Option<(i32, i32)> {
    if range && values.len() == 2 && values[0] <= values[1] {
        Some((values[0], values[1]))
    } else {
        None
    }
}

/// Decodes a valid-values reply into a native range.
pub fn decode_range(range: bool, values: &[i32]) -> (r: Option<(i32, i32)>)
    ensures
        r == range_of(range, values@),
{
    if range && values.len() == 2 && values[0] <= values[1] {
        Some((values[0], values[1]))
    } else {
        None
    }
}

/// The display an output probe yields: one whose value was read and whose
/// range is usable.
pub open spec fn display_of(p: OutputProbe) -> Option<Display> {
    match (p.current, range_of(p.range, p.valid_values@)) {
        (Some(current), Some((min, max))) => Some(Display { output: p.output, min, max, current }),
        _ => None,
    }
}

/// The displays that a sequence of probes yields, in order.
pub open spec fn displays_of(probes: Seq<OutputProbe>) -> Seq<Display>
    decreases probes.len(),
{
    if probes.len() == 0 {
        Seq::empty()
    } else {
        let rest = displays_of(probes.drop_last());
        match display_of(probes.last()) {
            Some(d) => rest.push(d),
            None => rest,
        }
    }
}

impl XcbBrightness {
    /// The backlight atom in use.
    pub closed spec fn spec_atom(&self) -> u32 {
        self.atom
    }

    /// The outputs that can be driven, in the order of discovery.
    pub closed spec fn spec_displays(&self) -> Seq<Display> {
        self.displays@
    }

    /// The backend for `atom` over the outputs probed, in screen order and
    /// then in output order within a screen: it keeps each output whose value
    /// was read and whose valid values form a range of two bounds.
    pub fn connect(atom: u32, probes: &Vec<OutputProbe>) -> (r: XcbBrightness)
        ensures
            r.spec_atom() == atom,
            r.spec_displays() == displays_of(probes@),
    {
        let mut displays: Vec<Display> = Vec::new();
        let mut i: usize = 0;
        while i < probes.len()
            invariant
                0 <= i <= probes@.len(),
                displays@ == displays_of(probes@.take(i as int)),
            decreases probes@.len() - i,
        {
            let p = &probes[i];
            proof {
                assert(probes@.take(i as int + 1).drop_last() =~= probes@.take(i as int));
                assert(probes@.take(i as int + 1).last() == probes@[i as int]);
            }
            match (p.current, decode_range(p.range, p.valid_values.as_slice())) {
                (Some(current), Some((min, max))) => {
                    displays.push(Display { output: p.output, min, max, current });
                },
                _ => {},
            }
            i = i + 1;
        }
        assert(probes@.take(probes@.len() as int) =~= probes@);
        XcbBrightness { atom, displays }
    }

    /// The backlight atom in use.
    pub fn atom(&self) -> (r: u32)
        ensures
            r == self.spec_atom(),
    {
        self.atom
    }

    /// The outputs that can be driven.
    pub fn displays(&self) -> (r: &Vec<Display>)
        ensures
            r@ == self.spec_displays(),
    {
        &self.displays
    }

    /// The output that reads and writes go to: the first discovered.
    pub fn target(&self) -> (r: Option<Display>)
        ensures
            self.spec_displays().len() == 0 ==> r is None,
            self.spec_displays().len() > 0 ==> r == Some(self.spec_displays()[0]),
    {
        if self.displays.len() == 0 {
            None
        } else {
            Some(self.displays[0])
        }
    }

    /// The top of the level scale that this backend speaks.
    pub fn max(&self) -> (r: i64)
        ensures
            r == FULL_SCALE,
    {
        FULL_SCALE
    }

    /// The bottom of the level scale that this backend speaks.
    pub fn min(&self) -> (r: i64)
        ensures
            r == 0,
    {
        0
    }

    /// The current level, given the value just read from the target output
    /// (`None` where the read failed).
    pub fn current(&self, value: Option<i32>) -> (r: Result<i64, XcbError>)
        ensures
            self.spec_displays().len() == 0 || value is None ==> r == Err::<i64, XcbError>(
                XcbError::NoOutput,
            ),
            self.spec_displays().len() > 0 && value is Some ==> r == Ok::<i64, XcbError>(
                level_of(
                    value->0 as int,
                    self.spec_displays()[0].min as int,
                    self.spec_displays()[0].max as int,
                ) as i64,
            ),
    {
        match self.target() {
            Some(d) => match value {
                Some(v) => Ok(level_from_native(v as i64, d.min as i64, d.max as i64)),
                None => Err(XcbError::NoOutput),
            },
            None => Err(XcbError::NoOutput),
        }
    }

    /// The native value to write to the target output for `level`.
    pub fn set(&self, level: i64) -> (r: Result<i32, XcbError>)
        ensures
            self.spec_displays().len() == 0 ==> r == Err::<i32, XcbError>(XcbError::NoOutput),
            self.spec_displays().len() > 0 ==> r == Ok::<i32, XcbError>(
                native_of(
                    level as int,
                    self.spec_displays()[0].min as int,
                    self.spec_displays()[0].max as int,
                ) as i32,
            ),
    {
        match self.target() {
            Some(d) => {
                let v = native_from_level(level, d.min as i64, d.max as i64);
                Ok(v as i32)
            },
            None => Err(XcbError::NoOutput),
        }
    }
}

} // verus!
