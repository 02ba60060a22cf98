//! Deciding when the pen counts as pressed.
use vstd::prelude::*;

use crate::double::Double;
use crate::process::profile::ActivationConfig;

verus! {

impl ActivationConfig {
    /// Is the pen pressed after a sample, given whether it was before? Pressure
    /// from the on threshold up presses it, pressure from the off threshold
    /// down releases it, and between the two it stays as it was. Where range is
    /// required, a pen out of range is released.
    pub open spec fn pressed(self, before: bool, pressure: Double, in_proximity: bool) -> bool {
        if self.require_proximity && !in_proximity {
            false
        } else if self.on_threshold.at_most(pressure) {
            true
        } else if pressure.at_most(self.off_threshold) {
            false
        } else {
            before
        }
    }

    /// Take in a sample's pressure and range. The latch holds the decision for
    /// the next sample.
    pub fn apply(&self, pressure: Double, in_proximity: bool, active_latch: &mut bool) -> (r: bool)
        ensures
            r == self.pressed(*old(active_latch), pressure, in_proximity),
            *final(active_latch) == r,
    {
        if self.on_threshold.le(pressure) {
            *active_latch = true;
        } else if pressure.le(self.off_threshold) {
            *active_latch = false;
        }
        if self.require_proximity && !in_proximity {
            *active_latch = false;
        }
        *active_latch
    }
}

/// Pressure between the thresholds changes nothing, however often it is read:
/// the decision does not flicker.
pub proof fn pressure_in_the_band_holds(a: ActivationConfig, before: bool, pressure: Double)
    requires
        a.off_threshold.less(pressure),
        pressure.less(a.on_threshold),
    ensures
        a.pressed(before, pressure, true) == before,
{
}

/// Where the thresholds are equal, the pressure alone decides.
pub proof fn equal_thresholds_leave_no_band(a: ActivationConfig, before: bool, pressure: Double)
    requires
        a.on_threshold == a.off_threshold,
        !a.on_threshold.nan(),
        !pressure.nan(),
    ensures
        a.pressed(before, pressure, true) == a.on_threshold.at_most(pressure),
{
}

/// Reading the same sample again changes nothing.
pub proof fn activation_is_stable(a: ActivationConfig, before: bool, pressure: Double, in_proximity: bool)
    ensures
        a.pressed(a.pressed(before, pressure, in_proximity), pressure, in_proximity) == a.pressed(
            before,
            pressure,
            in_proximity,
        ),
{
}

/// Where range is required, a pen out of range is never pressed, and coming
/// back into range does not press it by itself.
pub proof fn leaving_range_releases(a: ActivationConfig, before: bool, pressure: Double, light: Double)
    requires
        a.require_proximity,
        light.less(a.on_threshold),
    ensures
        !a.pressed(before, pressure, false),
        !a.pressed(a.pressed(before, pressure, false), light, true),
{
}

} // verus!
