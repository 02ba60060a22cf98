//! The pipeline from a raw sample to a processed one.
//!
//! A profile first says what has to be computed from a sample, and then puts
//! the computed values together with what it decides itself.
use vstd::prelude::*;

use crate::device::capabilities::DeviceCapabilities;
use crate::device::normalize::UnitRatio;
use crate::device::sample::PenSample;
use crate::double::Double;
use crate::process::profile::{
    CalibrationProfile, OneEuroParams, SmoothingConfig, SmoothingMode, TiltConfig, TiltConvention,
};
use crate::process::validate::in_unit;

verus! {

/// A raw sample and what a profile made of it.
#[derive(Clone, Copy, Debug, PartialEq, Eq, Structural)]
pub struct ProcessedSample {
    /// The sample as it came.
    pub raw: PenSample,
    /// Position in the target space.
    pub x: Double,
    pub y: Double,
    /// Smoothed position, where smoothing is on.
    pub x_filtered: Option<Double>,
    pub y_filtered: Option<Double>,
    /// Pressure after the response curve.
    pub pressure: Double,
    /// Does the pen count as pressed?
    pub active: bool,
    /// Tilt and twist in the profile's convention.
    pub tilt_x: Option<Double>,
    pub tilt_y: Option<Double>,
    pub twist: Option<Double>,
    /// Did an axis leave its range?
    pub out_of_range: bool,
}

/// What the One-Euro filter remembers of one axis.
#[derive(Clone, Copy, Debug, PartialEq, Eq, Structural)]
pub struct OneEuroAxisState {
    pub prev_filtered: Double,
    pub prev_dx: Double,
}

/// What a pipeline remembers between samples.
#[derive(Clone, Copy, Debug, PartialEq, Eq)]
pub struct ProcessorState {
    /// Last output of the moving average, for both axes.
    pub ema: Option<(Double, Double)>,
    /// Memory of the One-Euro filter, for both axes.
    pub one_euro: Option<(OneEuroAxisState, OneEuroAxisState)>,
    /// Did the pen count as pressed?
    pub active_latch: bool,
    /// Capture time of the last sample.
    pub last_t_capture_ns: Option<u64>,
}

impl ProcessorState {
    /// The state before the first sample.
    pub open spec fn fresh() -> ProcessorState {
        ProcessorState { ema: None, one_euro: None, active_latch: false, last_t_capture_ns: None }
    }

    /// The state before the first sample.
    pub fn new() -> (r: ProcessorState)
        ensures
            r == ProcessorState::fresh(),
    {
        ProcessorState { ema: None, one_euro: None, active_latch: false, last_t_capture_ns: None }
    }

    /// Nanoseconds from the last sample to one captured at `t_capture_ns`; 0
    /// for the first sample, and where time runs backwards.
    pub open spec fn elapsed(self, t_capture_ns: u64) -> int {
        match self.last_t_capture_ns {
            Some(previous) => if t_capture_ns >= previous {
                t_capture_ns - previous
            } else {
                0
            },
            None => 0,
        }
    }

    /// Nanoseconds from the last sample to one captured at `t_capture_ns`.
    pub fn elapsed_ns(&self, t_capture_ns: u64) -> (r: u64)
        ensures
            r == self.elapsed(t_capture_ns),
    {
        match self.last_t_capture_ns {
            Some(previous) => t_capture_ns.saturating_sub(previous),
            None => 0,
        }
    }
}

impl Default for ProcessorState {
    fn default() -> (r: ProcessorState)
        ensures
            r == ProcessorState::fresh(),
    {
        ProcessorState::new()
    }
}

/// Where the position comes from.
#[derive(Clone, Copy, Debug, PartialEq, Eq, Structural)]
pub enum PositionPlan {
    /// The normalized position of the sample.
    Keep { x: Double, y: Double },
    /// The raw position, sent through the coordinate map.
    Transform { x_raw: i32, y_raw: i32 },
}

/// Where the pressure comes from.
#[derive(Clone, Copy, Debug, PartialEq, Eq, Structural)]
pub enum PressurePlan {
    /// This pressure, as it is.
    Keep(Double),
    /// A place in the pressure window, sent through the curve.
    Shape(UnitRatio),
}

/// Where the tilt comes from.
#[derive(Clone, Copy, Debug, PartialEq, Eq, Structural)]
pub enum TiltPlan {
    /// The tilt of the sample.
    Keep { x: Option<Double>, y: Option<Double> },
    /// Azimuth and altitude, turned from tenths of a degree into degrees.
    Degrees { azimuth: i32, altitude: i32 },
    /// Tilt derived from azimuth and altitude, in tenths of a degree.
    Derive { azimuth: i32, altitude: i32 },
    /// There is none.
    Absent,
}

/// How the position is smoothed.
#[derive(Clone, Copy, Debug, PartialEq, Eq)]
pub enum SmoothingPlan {
    /// Not at all.
    Off,
    /// The filter starts over and gives its input back: it has no memory yet,
    /// or no time has passed for a filter that goes by time.
    Start,
    /// A step of the moving average from `previous`.
    Ema { alpha: Double, previous: (Double, Double) },
    /// A step of the One-Euro filter after `dt_ns`.
    OneEuro { params: OneEuroParams, dt_ns: u64, x: OneEuroAxisState, y: OneEuroAxisState },
}

/// What has to be computed for a sample.
#[derive(Clone, Copy, Debug, PartialEq, Eq)]
pub struct StagePlan {
    pub position: PositionPlan,
    pub pressure: PressurePlan,
    pub tilt: TiltPlan,
    /// Twist in tenths of a degree.
    pub twist_deci_deg: Option<i32>,
    pub smoothing: SmoothingPlan,
}

/// Encoding of the step from 1 to the next larger number.
pub const EPSILON_BITS: u64 = 0x3cb0_0000_0000_0000;

/// The step from 1 to the next larger number.
pub open spec fn epsilon() -> Double {
    Double { bits: EPSILON_BITS }
}

impl TiltConfig {
    /// Where the tilt comes from, with this stage on.
    pub open spec fn source(self, raw: PenSample) -> TiltPlan {
        match (self.convention, raw.azimuth_deci_deg, raw.altitude_deci_deg) {
            (TiltConvention::TiltXY, _, _) => TiltPlan::Keep { x: raw.tilt_x_deg, y: raw.tilt_y_deg },
            (TiltConvention::AzimuthAltitude, Some(azimuth), Some(altitude)) => TiltPlan::Degrees {
                azimuth,
                altitude,
            },
            (TiltConvention::DerivedFromOrientation, Some(azimuth), Some(altitude)) => TiltPlan::Derive {
                azimuth,
                altitude,
            },
            _ => TiltPlan::Absent,
        }
    }

    /// Where the tilt comes from, with this stage on. An orientation that is
    /// only half reported gives none.
    pub fn apply(&self, raw: &PenSample) -> (r: TiltPlan)
        ensures
            r == self.source(*raw),
    {
        match self.convention {
            TiltConvention::TiltXY => TiltPlan::Keep { x: raw.tilt_x_deg, y: raw.tilt_y_deg },
            TiltConvention::AzimuthAltitude => match (raw.azimuth_deci_deg, raw.altitude_deci_deg) {
                (Some(azimuth), Some(altitude)) => TiltPlan::Degrees { azimuth, altitude },
                _ => TiltPlan::Absent,
            },
            TiltConvention::DerivedFromOrientation => match (raw.azimuth_deci_deg, raw.altitude_deci_deg) {
                (Some(azimuth), Some(altitude)) => TiltPlan::Derive { azimuth, altitude },
                _ => TiltPlan::Absent,
            },
        }
    }
}

impl SmoothingConfig {
    /// How a sample is smoothed.
    pub open spec fn step(self, state: ProcessorState, dt_ns: int) -> SmoothingPlan {
        match self.mode {
            SmoothingMode::Off => SmoothingPlan::Off,
            SmoothingMode::Ema { alpha } => match state.ema {
                None => SmoothingPlan::Start,
                Some(previous) => SmoothingPlan::Ema {
                    alpha: alpha.clamp_spec(epsilon(), Double::one_spec()),
                    previous,
                },
            },
            SmoothingMode::OneEuro(params) => if dt_ns == 0 {
                SmoothingPlan::Start
            } else {
                match state.one_euro {
                    None => SmoothingPlan::Start,
                    Some((x, y)) => SmoothingPlan::OneEuro { params, dt_ns: dt_ns as u64, x, y },
                }
            },
        }
    }

    /// How a sample is smoothed.
    pub fn apply(&self, state: &ProcessorState, dt_ns: u64) -> (r: SmoothingPlan)
        ensures
            r == self.step(*state, dt_ns as int),
    {
        match self.mode {
            SmoothingMode::Off => SmoothingPlan::Off,
            SmoothingMode::Ema { alpha } => match state.ema {
                None => SmoothingPlan::Start,
                Some(previous) => SmoothingPlan::Ema {
                    alpha: alpha.clamp(Double { bits: EPSILON_BITS }, Double::one()),
                    previous,
                },
            },
            SmoothingMode::OneEuro(params) => match state.one_euro {
                Some((x, y)) if dt_ns > 0 => SmoothingPlan::OneEuro { params, dt_ns, x, y },
                _ => SmoothingPlan::Start,
            },
        }
    }
}

/// The values computed for a plan. Those that the plan does not ask for are
/// not looked at.
#[derive(Clone, Copy, Debug, PartialEq, Eq)]
pub struct StageValues {
    /// The position, sent through the coordinate map.
    pub x: Double,
    pub y: Double,
    /// The pressure, sent through the curve. What leaves the range from 0 to 1
    /// is brought back into it.
    pub pressure: Double,
    /// Tilt in the profile's convention.
    pub tilt_x: Double,
    pub tilt_y: Double,
    /// Twist in degrees.
    pub twist: Double,
    /// Output of the filter for both axes, with the speed that a One-Euro
    /// filter estimated.
    pub filtered: (OneEuroAxisState, OneEuroAxisState),
}

/// What a filter gives out for a sample at `position`: its input at the start,
/// and the computed values after.
pub open spec fn filter_output(
    plan: SmoothingPlan,
    position: (Double, Double),
    v: StageValues,
) -> (OneEuroAxisState, OneEuroAxisState) {
    if plan is Start {
        (
            OneEuroAxisState { prev_filtered: position.0, prev_dx: Double::zero_spec() },
            OneEuroAxisState { prev_filtered: position.1, prev_dx: Double::zero_spec() },
        )
    } else {
        v.filtered
    }
}

impl CalibrationProfile {
    /// What has to be computed for a sample.
    pub open spec fn plan_spec(self, raw: PenSample, state: ProcessorState) -> StagePlan {
        StagePlan {
            position: if self.coordinate_map.enabled {
                PositionPlan::Transform { x_raw: raw.x_raw, y_raw: raw.y_raw }
            } else {
                PositionPlan::Keep { x: raw.x_norm, y: raw.y_norm }
            },
            pressure: if !self.pressure.enabled {
                PressurePlan::Keep(raw.pressure_norm)
            } else if self.pressure.pressure_min == self.pressure.pressure_max {
                PressurePlan::Keep(Double::zero_spec())
            } else {
                PressurePlan::Shape(self.pressure.place(raw.pressure_raw))
            },
            tilt: if self.tilt.enabled {
                self.tilt.source(raw)
            } else {
                TiltPlan::Keep { x: raw.tilt_x_deg, y: raw.tilt_y_deg }
            },
            twist_deci_deg: raw.twist_deci_deg,
            smoothing: self.smoothing.step(state, state.elapsed(raw.t_capture_ns)),
        }
    }

    /// What has to be computed for a sample.
    pub fn plan(&self, raw: &PenSample, state: &ProcessorState) -> (r: StagePlan)
        requires
            self.pressure.enabled ==> self.pressure.pressure_min <= self.pressure.pressure_max,
        ensures
            r == self.plan_spec(*raw, *state),
            r.pressure matches PressurePlan::Shape(place) ==> place.valid(),
    {
        let position = if self.coordinate_map.enabled {
            PositionPlan::Transform { x_raw: raw.x_raw, y_raw: raw.y_raw }
        } else {
            PositionPlan::Keep { x: raw.x_norm, y: raw.y_norm }
        };
        let pressure = if !self.pressure.enabled {
            PressurePlan::Keep(raw.pressure_norm)
        } else if self.pressure.pressure_min == self.pressure.pressure_max {
            PressurePlan::Keep(Double::zero())
        } else {
            PressurePlan::Shape(self.pressure.position(raw.pressure_raw))
        };
        let tilt = if self.tilt.enabled {
            self.tilt.apply(raw)
        } else {
            TiltPlan::Keep { x: raw.tilt_x_deg, y: raw.tilt_y_deg }
        };
        let smoothing = self.smoothing.apply(state, state.elapsed_ns(raw.t_capture_ns));
        StagePlan { position, pressure, tilt, twist_deci_deg: raw.twist_deci_deg, smoothing }
    }

    /// The position of a sample in the target space.
    pub open spec fn position_of(self, raw: PenSample, v: StageValues) -> (Double, Double) {
        if self.coordinate_map.enabled {
            (v.x, v.y)
        } else {
            (raw.x_norm, raw.y_norm)
        }
    }

    /// The pressure of a sample after the response curve, within 0 and 1; an
    /// empty window gives 0 whatever the curve.
    pub open spec fn pressure_of(self, raw: PenSample, v: StageValues) -> Double {
        if !self.pressure.enabled {
            raw.pressure_norm
        } else if self.pressure.pressure_min == self.pressure.pressure_max {
            Double::zero_spec()
        } else {
            v.pressure.unit_spec()
        }
    }

    /// The tilt of a sample in the profile's convention.
    pub open spec fn tilt_of(self, raw: PenSample, v: StageValues) -> (Option<Double>, Option<Double>) {
        if !self.tilt.enabled {
            (raw.tilt_x_deg, raw.tilt_y_deg)
        } else {
            match self.tilt.source(raw) {
                TiltPlan::Keep { x, y } => (x, y),
                TiltPlan::Absent => (None, None),
                _ => (Some(v.tilt_x), Some(v.tilt_y)),
            }
        }
    }

    /// The processed sample for the values that were computed.
    pub open spec fn processed(
        self,
        raw: PenSample,
        caps: DeviceCapabilities,
        state: ProcessorState,
        v: StageValues,
    ) -> ProcessedSample {
        let plan = self.smoothing.step(state, state.elapsed(raw.t_capture_ns));
        let position = self.position_of(raw, v);
        let pressure = self.pressure_of(raw, v);
        ProcessedSample {
            raw,
            x: position.0,
            y: position.1,
            x_filtered: if plan is Off {
                None
            } else {
                Some(filter_output(plan, position, v).0.prev_filtered)
            },
            y_filtered: if plan is Off {
                None
            } else {
                Some(filter_output(plan, position, v).1.prev_filtered)
            },
            pressure,
            active: if self.activation.enabled {
                self.activation.pressed(state.active_latch, pressure, raw.in_proximity)
            } else {
                raw.in_proximity
            },
            tilt_x: self.tilt_of(raw, v).0,
            tilt_y: self.tilt_of(raw, v).1,
            twist: if raw.twist_deci_deg is Some {
                Some(v.twist)
            } else {
                None
            },
            out_of_range: leaves_range(raw, caps),
        }
    }

    /// What the pipeline remembers then.
    pub open spec fn next_state(self, raw: PenSample, state: ProcessorState, v: StageValues) -> ProcessorState {
        let plan = self.smoothing.step(state, state.elapsed(raw.t_capture_ns));
        let (fx, fy) = filter_output(plan, self.position_of(raw, v), v);
        ProcessorState {
            ema: if self.smoothing.mode is Ema {
                Some((fx.prev_filtered, fy.prev_filtered))
            } else {
                state.ema
            },
            one_euro: if self.smoothing.mode is OneEuro {
                Some((fx, fy))
            } else {
                state.one_euro
            },
            active_latch: if self.activation.enabled {
                self.activation.pressed(state.active_latch, self.pressure_of(raw, v), raw.in_proximity)
            } else {
                state.active_latch
            },
            last_t_capture_ns: Some(raw.t_capture_ns),
        }
    }

    /// The sample as the profile has it. The values are those computed for the
    /// plan of the same sample.
    pub fn apply(
        &self,
        raw: &PenSample,
        caps: &DeviceCapabilities,
        state: &mut ProcessorState,
        values: &StageValues,
    ) -> (r: ProcessedSample)
        ensures
            r == self.processed(*raw, *caps, *old(state), *values),
            *final(state) == self.next_state(*raw, *old(state), *values),
    {
        let (x, y) = if self.coordinate_map.enabled {
            (values.x, values.y)
        } else {
            (raw.x_norm, raw.y_norm)
        };
        let pressure = if !self.pressure.enabled {
            raw.pressure_norm
        } else if self.pressure.pressure_min == self.pressure.pressure_max {
            Double::zero()
        } else {
            values.pressure.unit()
        };
        let (tilt_x, tilt_y) = if self.tilt.enabled {
            match self.tilt.apply(raw) {
                TiltPlan::Keep { x, y } => (x, y),
                TiltPlan::Absent => (None, None),
                _ => (Some(values.tilt_x), Some(values.tilt_y)),
            }
        } else {
            (raw.tilt_x_deg, raw.tilt_y_deg)
        };
        let twist = match raw.twist_deci_deg {
            Some(_) => Some(values.twist),
            None => None,
        };
        let plan = self.smoothing.apply(state, state.elapsed_ns(raw.t_capture_ns));
        state.last_t_capture_ns = Some(raw.t_capture_ns);
        let (fx, fy) = match plan {
            SmoothingPlan::Start => (
                OneEuroAxisState { prev_filtered: x, prev_dx: Double::zero() },
                OneEuroAxisState { prev_filtered: y, prev_dx: Double::zero() },
            ),
            _ => values.filtered,
        };
        let (x_filtered, y_filtered) = match self.smoothing.mode {
            SmoothingMode::Off => (None, None),
            SmoothingMode::Ema { .. } => {
                state.ema = Some((fx.prev_filtered, fy.prev_filtered));
                (Some(fx.prev_filtered), Some(fy.prev_filtered))
            },
            SmoothingMode::OneEuro(_) => {
                state.one_euro = Some((fx, fy));
                (Some(fx.prev_filtered), Some(fy.prev_filtered))
            },
        };
        let active = if self.activation.enabled {
            self.activation.apply(pressure, raw.in_proximity, &mut state.active_latch)
        } else {
            raw.in_proximity
        };
        ProcessedSample {
            raw: *raw,
            x,
            y,
            x_filtered,
            y_filtered,
            pressure,
            active,
            tilt_x,
            tilt_y,
            twist,
            out_of_range: out_of_range(raw, caps),
        }
    }
}

/// Does a supported axis of the sample leave its range?
pub open spec fn leaves_range(raw: PenSample, caps: DeviceCapabilities) -> bool {
    caps.x.excludes_spec(raw.x_raw as int) || caps.y.excludes_spec(raw.y_raw as int) || caps.pressure.excludes_spec(
        raw.pressure_raw as int,
    )
}

/// Does a supported axis of the sample leave its range?
pub fn out_of_range(raw: &PenSample, caps: &DeviceCapabilities) -> (r: bool)
    ensures
        r == leaves_range(*raw, *caps),
{
    caps.x.excludes(raw.x_raw as i64) || caps.y.excludes(raw.y_raw as i64) || caps.pressure.excludes(
        raw.pressure_raw as i64,
    )
}

/// The profile that changes nothing asks for nothing to be computed but the
/// unit of the twist, and passes a sample through, whatever was computed: a
/// pen in range counts as pressed, and nothing is smoothed.
pub proof fn identity_passes_through(
    profile: CalibrationProfile,
    raw: PenSample,
    caps: DeviceCapabilities,
    state: ProcessorState,
    v: StageValues,
)
    requires
        profile.is_identity(),
    ensures
        profile.plan_spec(raw, state) == (StagePlan {
            position: PositionPlan::Keep { x: raw.x_norm, y: raw.y_norm },
            pressure: PressurePlan::Keep(raw.pressure_norm),
            tilt: TiltPlan::Keep { x: raw.tilt_x_deg, y: raw.tilt_y_deg },
            twist_deci_deg: raw.twist_deci_deg,
            smoothing: SmoothingPlan::Off,
        }),
        profile.processed(raw, caps, state, v) == (ProcessedSample {
            raw,
            x: raw.x_norm,
            y: raw.y_norm,
            x_filtered: None,
            y_filtered: None,
            pressure: raw.pressure_norm,
            active: raw.in_proximity,
            tilt_x: raw.tilt_x_deg,
            tilt_y: raw.tilt_y_deg,
            twist: if raw.twist_deci_deg is Some {
                Some(v.twist)
            } else {
                None
            },
            out_of_range: leaves_range(raw, caps),
        }),
        profile.next_state(raw, state, v) == (ProcessorState {
            last_t_capture_ns: Some(raw.t_capture_ns),
            ..state
        }),
{
}

/// Only what the plan asks for matters: values that agree on that lead to the
/// same sample and the same memory.
pub proof fn unasked_values_do_not_matter(
    profile: CalibrationProfile,
    raw: PenSample,
    caps: DeviceCapabilities,
    state: ProcessorState,
    v: StageValues,
    w: StageValues,
)
    requires
        ({
            let plan = profile.plan_spec(raw, state);
            &&& plan.position is Transform ==> v.x == w.x && v.y == w.y
            &&& plan.pressure is Shape ==> v.pressure == w.pressure
            &&& plan.tilt is Degrees || plan.tilt is Derive ==> v.tilt_x == w.tilt_x && v.tilt_y == w.tilt_y
            &&& plan.twist_deci_deg is Some ==> v.twist == w.twist
            &&& plan.smoothing is Ema || plan.smoothing is OneEuro ==> v.filtered == w.filtered
        }),
    ensures
        profile.processed(raw, caps, state, v) == profile.processed(raw, caps, state, w),
        profile.next_state(raw, state, v) == profile.next_state(raw, state, w),
{
}

/// The first sample that a filter sees comes out as it went in, whatever else
/// was computed.
pub proof fn filters_start_with_their_input(
    profile: CalibrationProfile,
    raw: PenSample,
    caps: DeviceCapabilities,
    v: StageValues,
)
    requires
        !(profile.smoothing.mode is Off),
    ensures
        ({
            let first = profile.processed(raw, caps, ProcessorState::fresh(), v);
            first.x_filtered == Some(first.x) && first.y_filtered == Some(first.y)
        }),
{
}

/// A One-Euro filter that is given no time passes its input through, whatever
/// it remembers, and goes on from there.
pub proof fn no_time_means_no_filtering(
    profile: CalibrationProfile,
    raw: PenSample,
    caps: DeviceCapabilities,
    state: ProcessorState,
    v: StageValues,
)
    requires
        profile.smoothing.mode is OneEuro,
        state.elapsed(raw.t_capture_ns) == 0,
    ensures
        ({
            let processed = profile.processed(raw, caps, state, v);
            &&& processed.x_filtered == Some(processed.x)
            &&& processed.y_filtered == Some(processed.y)
            &&& profile.next_state(raw, state, v).one_euro == Some(
                (
                    OneEuroAxisState { prev_filtered: processed.x, prev_dx: Double::zero_spec() },
                    OneEuroAxisState { prev_filtered: processed.y, prev_dx: Double::zero_spec() },
                ),
            )
        }),
{
}

/// Pressure that went through the response stage is within 0 and 1, whatever
/// the curve made of it.
pub proof fn shaped_pressure_stays_in_range(
    profile: CalibrationProfile,
    raw: PenSample,
    caps: DeviceCapabilities,
    state: ProcessorState,
    v: StageValues,
)
    requires
        profile.pressure.enabled,
    ensures
        in_unit(profile.processed(raw, caps, state, v).pressure),
{
    crate::double::lemma_units_order(0, Double::one_spec().magnitude_spec());
}

/// An empty pressure window gives no pressure, whatever the pen reports.
pub proof fn empty_windows_give_no_pressure(
    profile: CalibrationProfile,
    raw: PenSample,
    caps: DeviceCapabilities,
    state: ProcessorState,
    v: StageValues,
)
    requires
        profile.pressure.enabled,
        profile.pressure.pressure_min == profile.pressure.pressure_max,
    ensures
        profile.plan_spec(raw, state).pressure == PressurePlan::Keep(Double::zero_spec()),
        profile.processed(raw, caps, state, v).pressure == Double::zero_spec(),
{
}

/// A sample is out of range where its place or its pressure leaves the range of
/// an axis that exists.
pub proof fn samples_leave_the_range_of_an_axis(raw: PenSample, caps: DeviceCapabilities, r: bool)
    requires
        call_ensures(out_of_range, (&raw, &caps), r),
    ensures
        r <==> {
            ||| caps.x.supported && !(caps.x.min <= raw.x_raw <= caps.x.max)
            ||| caps.y.supported && !(caps.y.min <= raw.y_raw <= caps.y.max)
            ||| caps.pressure.supported && !(caps.pressure.min <= raw.pressure_raw <= caps.pressure.max)
        },
{
}

/// Before the first sample nothing is remembered and nothing is pressed.
pub proof fn pipelines_start_without_memory(r: ProcessorState)
    requires
        call_ensures(ProcessorState::new, (), r),
    ensures
        r.ema is None,
        r.one_euro is None,
        !r.active_latch,
        r.last_t_capture_ns is None,
{
}

} // verus!
