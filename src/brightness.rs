//! The interface every brightness backend offers. Each backend reads and
//! writes its device in its own native units; the clamped relative change is
//! written once here, over the live range.
use vstd::prelude::*;

use crate::range::{change_n_clip, clamp_spec};

verus! {

/// What a clamped relative change does, given the outcomes of its reads in
/// order: the bottom, the top (read only where the bottom was read), and the
/// current value (read only where the top was read). It fails with the first
/// failed read, unchanged, and writes nothing; else it writes
/// `current + delta` held to `[min, max]`.
pub fn clip_outcome<E>(
    min: Result<i64, E>,
    max: Option<Result<i64, E>>,
    current: Option<Result<i64, E>>,
    delta: i64,
) -> (r: Result<i64, E>)
    requires
        min is Ok ==> max is Some,
        min is Ok && max is Some && max->Some_0 is Ok ==> current is Some,
    ensures
        min is Err ==> r == Err::<i64, E>(min->Err_0),
        min is Ok && max->Some_0 is Err ==> r == Err::<i64, E>(max->Some_0->Err_0),
        min is Ok && max->Some_0 is Ok && current->Some_0 is Err ==> r == Err::<i64, E>(
            current->Some_0->Err_0,
        ),
        min is Ok && max->Some_0 is Ok && current->Some_0 is Ok ==> r == Ok::<i64, E>(
            clamp_spec(
                current->Some_0->Ok_0 + delta,
                min->Ok_0 as int,
                max->Some_0->Ok_0 as int,
            ) as i64,
        ),
{
    let lo = match min {
        Ok(v) => v,
        Err(e) => return Err(e),
    };
    let hi = match max {
        Some(Ok(v)) => v,
        Some(Err(e)) => return Err(e),
        None => return Ok(lo),
    };
    match current {
        Some(Ok(c)) => Ok(change_n_clip(lo, hi, c, delta)),
        Some(Err(e)) => Err(e),
        None => Ok(lo),
    }
}

/// A brightness control over a native integer range `[min, max]`.
pub trait Brightness {
    type E;

    /// The top of the native range, read live.
    fn max(&self) -> Result<i64, Self::E>;

    /// The bottom of the native range, read live.
    fn min(&self) -> Result<i64, Self::E>;

    /// The current native value, read live.
    fn current(&self) -> Result<i64, Self::E>;

    /// Writes a native value.
    fn set(&self, value: i64) -> Result<(), Self::E>;

    /// Moves the brightness by `delta`: reads the bottom, the top and the
    /// current value, stopping at the first failure, and writes
    /// `current + delta` held to `[min, max]`.
    fn change_n_clip(&self, delta: i64) -> Result<(), Self::E> {
        let min = self.min();
        let max = if min.is_ok() {
            Some(self.max())
        } else {
            None
        };
        let current = match max {
            Some(Ok(_)) => Some(self.current()),
            _ => None,
        };
        match clip_outcome(min, max, current, delta) {
            Ok(v) => self.set(v),
            Err(e) => Err(e),
        }
    }
}

} // verus!
