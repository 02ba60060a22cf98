//! What holds of every sample that a profile processes.
//!
//! The laws speak of calls: of what went in and what came out.
use vstd::prelude::*;

use crate::device::capabilities::DeviceCapabilities;
use crate::device::normalize::UnitRatio;
use crate::device::sample::PenSample;
use crate::double::{lemma_units_order, Double};
use crate::process::fit::{fit_degree, FitDegree};
use crate::process::pipeline::{
    OneEuroAxisState, PositionPlan, PressurePlan, ProcessedSample, ProcessorState, SmoothingPlan, StagePlan,
    StageValues, TiltPlan,
};
use crate::process::pressure::{learn_min_max, Response};
use crate::process::profile::{
    ActivationConfig, CalibrationProfile, CoordinateMap, CurveKind, PressureCurve, SmoothingConfig, SmoothingMode,
    TargetSpace, TiltConfig, TiltConvention,
};
use crate::process::validate::{rises_at, rising, validate_custom_points, ProfileError};

verus! {

/// With the coordinate map on, a processed sample lies where the map put it,
/// each axis on its own; without it, where the device reported it. The sample
/// itself is passed along untouched.
pub proof fn positions_follow_the_map(
    profile: CalibrationProfile,
    raw: PenSample,
    caps: DeviceCapabilities,
    state: &mut ProcessorState,
    values: StageValues,
    r: ProcessedSample,
)
    requires
        call_ensures(CalibrationProfile::apply, (&profile, &raw, &caps, state, &values), r),
    ensures
        r.raw == raw,
        profile.coordinate_map.enabled ==> r.x == values.x && r.y == values.y,
        !profile.coordinate_map.enabled ==> r.x == raw.x_norm && r.y == raw.y_norm,
{
}

/// Without the response stage the pressure is the reported one. With it, it is
/// what the curve gave, as long as that lies within 0 and 1; more counts as 1,
/// and less, or no number, as 0. An empty window gives 0.
pub proof fn pressure_follows_the_curve(
    profile: CalibrationProfile,
    raw: PenSample,
    caps: DeviceCapabilities,
    state: &mut ProcessorState,
    values: StageValues,
    r: ProcessedSample,
)
    requires
        call_ensures(CalibrationProfile::apply, (&profile, &raw, &caps, state, &values), r),
    ensures
        ({
            let zero = Double { bits: 0 };
            let one = Double { bits: 0x3ff0_0000_0000_0000 };
            let window = profile.pressure.pressure_min != profile.pressure.pressure_max;
            let given = values.pressure;
            &&& !profile.pressure.enabled ==> r.pressure == raw.pressure_norm
            &&& profile.pressure.enabled && !window ==> r.pressure == zero
            &&& profile.pressure.enabled && window ==> {
                &&& zero.at_most(given) && given.at_most(one) ==> r.pressure == given
                &&& one.less(given) ==> r.pressure == one
                &&& given.less(zero) || given.nan() ==> r.pressure == zero
            }
        }),
{
    lemma_units_order(0, 0x3ff0_0000_0000_0000);
}

/// Without the tilt stage, or in the tilt convention, a processed sample has the
/// tilt of the device. In the other conventions it has the computed tilt, each
/// axis on its own, exactly where the device told both angles. Twist is told
/// exactly where the device tells it.
pub proof fn tilt_follows_the_convention(
    profile: CalibrationProfile,
    raw: PenSample,
    caps: DeviceCapabilities,
    state: &mut ProcessorState,
    values: StageValues,
    r: ProcessedSample,
)
    requires
        call_ensures(CalibrationProfile::apply, (&profile, &raw, &caps, state, &values), r),
    ensures
        ({
            let kept = !profile.tilt.enabled || profile.tilt.convention == TiltConvention::TiltXY;
            let oriented = raw.azimuth_deci_deg is Some && raw.altitude_deci_deg is Some;
            &&& kept ==> r.tilt_x == raw.tilt_x_deg && r.tilt_y == raw.tilt_y_deg
            &&& !kept && oriented ==> r.tilt_x == Some(values.tilt_x) && r.tilt_y == Some(values.tilt_y)
            &&& !kept && !oriented ==> r.tilt_x is None && r.tilt_y is None
        }),
        raw.twist_deci_deg is Some ==> r.twist == Some(values.twist),
        raw.twist_deci_deg is None ==> r.twist is None,
{
}

/// Did time pass between the last sample that `state` knows and one at `now`?
pub open spec fn time_passed(state: ProcessorState, now: u64) -> bool {
    state.last_t_capture_ns matches Some(last) && last < now
}

/// Without smoothing there is no filtered position and no filter remembers
/// anything new. A moving average gives the position at its first sample and
/// its computed output after, and remembers what it gave.
pub proof fn averages_start_at_the_position(
    profile: CalibrationProfile,
    raw: PenSample,
    caps: DeviceCapabilities,
    state: &mut ProcessorState,
    values: StageValues,
    r: ProcessedSample,
)
    requires
        call_ensures(CalibrationProfile::apply, (&profile, &raw, &caps, state, &values), r),
    ensures
        profile.smoothing.mode is Off ==> {
            &&& r.x_filtered is None
            &&& r.y_filtered is None
            &&& final(state).ema == old(state).ema
            &&& final(state).one_euro == old(state).one_euro
        },
        profile.smoothing.mode is Ema ==> {
            &&& old(state).ema is None ==> r.x_filtered == Some(r.x) && r.y_filtered == Some(r.y)
            &&& old(state).ema is Some ==> r.x_filtered == Some(values.filtered.0.prev_filtered) && r.y_filtered
                == Some(values.filtered.1.prev_filtered)
            &&& final(state).ema == Some((r.x_filtered->0, r.y_filtered->0))
            &&& final(state).one_euro == old(state).one_euro
        },
{
}

/// A One-Euro filter gives the position at its first sample and whenever no time
/// has passed, with no speed, and its computed output and speed otherwise. It
/// remembers what it gave, each axis on its own.
pub proof fn one_euro_filters_need_memory_and_time(
    profile: CalibrationProfile,
    raw: PenSample,
    caps: DeviceCapabilities,
    state: &mut ProcessorState,
    values: StageValues,
    r: ProcessedSample,
)
    requires
        call_ensures(CalibrationProfile::apply, (&profile, &raw, &caps, state, &values), r),
        profile.smoothing.mode is OneEuro,
    ensures
        ({
            let steps = old(state).one_euro is Some && time_passed(*old(state), raw.t_capture_ns);
            let still = Double { bits: 0 };
            &&& steps ==> final(state).one_euro == Some(values.filtered)
            &&& !steps ==> final(state).one_euro == Some(
                (
                    OneEuroAxisState { prev_filtered: r.x, prev_dx: still },
                    OneEuroAxisState { prev_filtered: r.y, prev_dx: still },
                ),
            )
            &&& final(state).one_euro matches Some((x, y)) && r.x_filtered == Some(x.prev_filtered) && r.y_filtered
                == Some(y.prev_filtered)
            &&& final(state).ema == old(state).ema
        }),
{
}

/// The pen counts as pressed by range alone without the stage. With it, pressure
/// from the on threshold up presses, pressure below that and down to the off
/// threshold releases, and anything between leaves the decision as it was; out
/// of range the pen is released where range is required. The decision is what
/// is remembered.
pub proof fn contact_follows_the_thresholds(
    profile: CalibrationProfile,
    raw: PenSample,
    caps: DeviceCapabilities,
    state: &mut ProcessorState,
    values: StageValues,
    r: ProcessedSample,
)
    requires
        call_ensures(CalibrationProfile::apply, (&profile, &raw, &caps, state, &values), r),
    ensures
        ({
            let stage = profile.activation;
            let lost = stage.require_proximity && !raw.in_proximity;
            let firm = stage.on_threshold.at_most(r.pressure);
            let light = r.pressure.at_most(stage.off_threshold);
            &&& !stage.enabled ==> r.active == raw.in_proximity && final(state).active_latch == old(
                state,
            ).active_latch
            &&& stage.enabled ==> final(state).active_latch == r.active
            &&& stage.enabled && lost ==> !r.active
            &&& stage.enabled && !lost && firm ==> r.active
            &&& stage.enabled && !firm && light ==> !r.active
            &&& stage.enabled && !lost && !firm && !light ==> r.active == old(state).active_latch
        }),
        final(state).last_t_capture_ns == Some(raw.t_capture_ns),
{
}

/// A sample is out of range exactly where one of position and pressure lies
/// beyond an end of an axis that the device has.
pub proof fn range_is_that_of_the_device(
    profile: CalibrationProfile,
    raw: PenSample,
    caps: DeviceCapabilities,
    state: &mut ProcessorState,
    values: StageValues,
    r: ProcessedSample,
)
    requires
        call_ensures(CalibrationProfile::apply, (&profile, &raw, &caps, state, &values), r),
    ensures
        !r.out_of_range <==> {
            &&& caps.x.supported ==> caps.x.min <= raw.x_raw <= caps.x.max
            &&& caps.y.supported ==> caps.y.min <= raw.y_raw <= caps.y.max
            &&& caps.pressure.supported ==> caps.pressure.min <= raw.pressure_raw <= caps.pressure.max
        },
{
}

/// What has to be computed comes from the sample: the raw position, each axis
/// on its own, where the map is on; the place of the raw pressure in its window;
/// the twist. What a stage that is off leaves alone is passed along.
pub proof fn plans_ask_for_the_raw_values(
    profile: CalibrationProfile,
    raw: PenSample,
    state: ProcessorState,
    r: StagePlan,
)
    requires
        profile.pressure.enabled ==> profile.pressure.pressure_min <= profile.pressure.pressure_max,
        call_ensures(CalibrationProfile::plan, (&profile, &raw, &state), r),
    ensures
        profile.coordinate_map.enabled ==> r.position == (PositionPlan::Transform {
            x_raw: raw.x_raw,
            y_raw: raw.y_raw,
        }),
        !profile.coordinate_map.enabled ==> r.position == (PositionPlan::Keep { x: raw.x_norm, y: raw.y_norm }),
        r.twist_deci_deg == raw.twist_deci_deg,
        ({
            let (min, max, p) = (profile.pressure.pressure_min, profile.pressure.pressure_max, raw.pressure_raw);
            &&& !profile.pressure.enabled ==> r.pressure == PressurePlan::Keep(raw.pressure_norm)
            &&& profile.pressure.enabled && min == max ==> r.pressure == PressurePlan::Keep(Double { bits: 0 })
            &&& profile.pressure.enabled && min < max ==> {
                &&& r.pressure matches PressurePlan::Shape(place) && place.denominator == max - min && {
                    &&& p <= min ==> place.numerator == 0
                    &&& min <= p <= max ==> place.numerator == p - min
                    &&& max <= p ==> place.numerator == place.denominator
                }
            }
        }),
{
}

/// Which tilt has to be computed, and from what: the angles of the sample, each
/// in its own place, and none where one is missing.
pub proof fn tilt_plans_name_their_angles(config: TiltConfig, raw: PenSample, r: TiltPlan)
    requires
        call_ensures(TiltConfig::apply, (&config, &raw), r),
    ensures
        config.convention == TiltConvention::TiltXY <==> r is Keep,
        r is Keep ==> r == (TiltPlan::Keep { x: raw.tilt_x_deg, y: raw.tilt_y_deg }),
        config.convention == TiltConvention::AzimuthAltitude ==> match (raw.azimuth_deci_deg, raw.altitude_deci_deg) {
            (Some(around), Some(above)) => r == (TiltPlan::Degrees { azimuth: around, altitude: above }),
            _ => r is Absent,
        },
        config.convention == TiltConvention::DerivedFromOrientation ==> match (
            raw.azimuth_deci_deg,
            raw.altitude_deci_deg,
        ) {
            (Some(around), Some(above)) => r == (TiltPlan::Derive { azimuth: around, altitude: above }),
            _ => r is Absent,
        },
{
}

/// A plan holds what each stage asks for on its own.
pub proof fn plans_put_the_stages_together(
    profile: CalibrationProfile,
    raw: PenSample,
    state: ProcessorState,
    r: StagePlan,
    tilt: TiltPlan,
    elapsed: u64,
    smoothing: SmoothingPlan,
)
    requires
        profile.pressure.enabled ==> profile.pressure.pressure_min <= profile.pressure.pressure_max,
        call_ensures(CalibrationProfile::plan, (&profile, &raw, &state), r),
        call_ensures(TiltConfig::apply, (&profile.tilt, &raw), tilt),
        call_ensures(ProcessorState::elapsed_ns, (&state, raw.t_capture_ns), elapsed),
        call_ensures(SmoothingConfig::apply, (&profile.smoothing, &state, elapsed), smoothing),
    ensures
        profile.tilt.enabled ==> r.tilt == tilt,
        !profile.tilt.enabled ==> r.tilt == (TiltPlan::Keep { x: raw.tilt_x_deg, y: raw.tilt_y_deg }),
        r.smoothing == smoothing,
{
}

/// The time between two samples is the difference of their times, and none for
/// the first sample and where time runs backwards.
pub proof fn elapsed_time_never_runs_backwards(state: ProcessorState, now: u64, r: u64)
    requires
        call_ensures(ProcessorState::elapsed_ns, (&state, now), r),
    ensures
        time_passed(state, now) ==> state.last_t_capture_ns->0 + r == now,
        !time_passed(state, now) ==> r == 0,
{
}

/// A filter takes a step from what it remembers, each axis on its own, and
/// starts over where it remembers nothing or needs time and has none. The weight
/// of an average is the configured one, as long as that is a positive share.
pub proof fn filters_step_from_their_memory(config: SmoothingConfig, state: ProcessorState, dt: u64, r: SmoothingPlan)
    requires
        call_ensures(SmoothingConfig::apply, (&config, &state, dt), r),
    ensures
        config.mode is Off <==> r is Off,
        config.mode matches SmoothingMode::Ema { alpha } ==> match state.ema {
            None => r is Start,
            Some(before) => r matches SmoothingPlan::Ema { alpha: weight, previous } && {
                let least = Double { bits: 0x3cb0_0000_0000_0000 };
                let most = Double { bits: 0x3ff0_0000_0000_0000 };
                &&& previous == before
                &&& least.at_most(alpha) && alpha.at_most(most) ==> weight == alpha
                &&& alpha.less(least) ==> weight == least
                &&& most.less(alpha) ==> weight == most
            },
        },
        config.mode matches SmoothingMode::OneEuro(given) ==> match state.one_euro {
            Some((along_x, along_y)) if dt > 0 => r == (SmoothingPlan::OneEuro {
                params: given,
                dt_ns: dt,
                x: along_x,
                y: along_y,
            }),
            _ => r is Start,
        },
{
    lemma_units_order(0x3cb0_0000_0000_0000, 0x3ff0_0000_0000_0000);
}

/// One decision of the activation stage, and how it is remembered.
pub proof fn thresholds_decide_contact(
    stage: ActivationConfig,
    pressure: Double,
    near: bool,
    latch: &mut bool,
    r: bool,
)
    requires
        call_ensures(ActivationConfig::apply, (&stage, pressure, near, latch), r),
    ensures
        *final(latch) == r,
        stage.require_proximity && !near ==> !r,
        (near || !stage.require_proximity) && stage.on_threshold.at_most(pressure) ==> r,
        pressure.less(stage.on_threshold) && pressure.at_most(stage.off_threshold) ==> !r,
        near && stage.off_threshold.less(pressure) && pressure.less(stage.on_threshold) ==> r == *old(latch),
{
}

/// The place of a pressure in its window: nothing at the lower end and below,
/// everything at the upper end and above, and between them the share of the
/// window that was pressed through.
pub proof fn places_measure_the_window(stage: PressureCurve, raw_pressure: u32, r: UnitRatio)
    requires
        stage.pressure_min <= stage.pressure_max,
        call_ensures(PressureCurve::position, (&stage, raw_pressure), r),
    ensures
        ({
            let (min, max) = (stage.pressure_min, stage.pressure_max);
            &&& 0 < r.denominator
            &&& raw_pressure <= min ==> r.numerator == 0
            &&& min < max <= raw_pressure ==> r.numerator == r.denominator
            &&& min <= raw_pressure <= max ==> r.numerator * (max - min) == (raw_pressure - min) * r.denominator
        }),
{
    let (min, max) = (stage.pressure_min, stage.pressure_max);
    if min < max && min <= raw_pressure <= max {
        assert(r.numerator == raw_pressure - min && r.denominator == max - min);
    } else if min == max == raw_pressure {
        assert(r.numerator == 0 && r.denominator == 1);
    }
}

/// A drawn curve passes through its ends and stays with them beyond: up to the
/// first point the response is that of the first point, from the last point on
/// that of the last. Between them it runs along a line from one point to the
/// next, with the input between the two.
pub proof fn drawn_curves_pass_through_their_points(
    points: Vec<(Double, Double)>,
    t: Double,
    r: Response,
)
    requires
        points@.len() > 0,
        call_ensures(CurveKind::response, (&CurveKind::Custom(points), t), r),
    ensures
        t.at_most(points@[0].0) ==> r == Response::Value(points@[0].1),
        points@[0].0.less(t) && points@.last().0.at_most(t) ==> r == Response::Value(points@.last().1),
        match r {
            Response::Line { from, to } => {
                &&& from.0.at_most(t)
                &&& t.at_most(to.0)
                &&& exists|i: int| #![trigger points@[i]] 0 <= i < points@.len() - 1 && from == points@[i] && to == points@[i + 1]
            },
            Response::Value(v) => v == points@[0].1 || v == points@.last().1,
            _ => false,
        },
{
    if let Response::Line { from, to } = r {
        let i = choose|i: usize| #[trigger]
            crate::process::pressure::falls_in(
                points@,
                t,
                crate::process::pressure::CurveSegment::Between(i),
            ) && from == points@[i as int] && to == points@[i + 1];
        assert(from == points@[i as int] && to == points@[i + 1]);
    }
}

/// A power is taken with the exponent of the curve, and a straight curve gives
/// its input back.
pub proof fn powers_keep_their_exponent(g: Double, t: Double, power: Response, straight: Response)
    requires
        call_ensures(CurveKind::response, (&CurveKind::Gamma(g), t), power),
        call_ensures(CurveKind::response, (&CurveKind::Linear, t), straight),
    ensures
        straight == Response::Same,
        (Double { bits: 0 }).less(g) ==> power == Response::Power(g),
        !(Double { bits: 0 }).less(g) ==> power == straight,
{
}

/// A learned window holds the pressure of every sample, and its ends were both
/// reported.
pub proof fn learned_windows_fit_the_samples(samples: &[PenSample], r: (u32, u32))
    requires
        call_ensures(learn_min_max, (samples,), r),
    ensures
        samples@.len() == 0 ==> r == (0u32, 0u32),
        forall|i: int| 0 <= i < samples@.len() ==> r.0 <= (#[trigger] samples@[i]).pressure_raw <= r.1,
        samples@.len() > 0 ==> (exists|i: int| 0 <= i < samples@.len() && (#[trigger] samples@[i]).pressure_raw == r.0),
        samples@.len() > 0 ==> (exists|i: int| 0 <= i < samples@.len() && (#[trigger] samples@[i]).pressure_raw == r.1),
{
}

/// More points never make for a stiffer map: a single point leaves everything
/// as it is, four bend it freely, and two or three turn and stretch it.
pub proof fn more_points_bend_more(points: usize, r: FitDegree)
    requires
        call_ensures(fit_degree, (points,), r),
    ensures
        r == FitDegree::Identity <==> points <= 1,
        r == FitDegree::Similarity <==> points == 2 || points == 3,
        r == FitDegree::Projective <==> points >= 4,
{
}

/// A profile is accepted exactly where every stage makes sense: the pressure
/// window is in order and its curve rises, a weight is a positive share, cutoffs
/// are positive, and the thresholds lie within 0 and 1, the off threshold not
/// above the other.
pub proof fn accepted_profiles_make_sense(profile: CalibrationProfile, r: Result<(), ProfileError>)
    requires
        call_ensures(CalibrationProfile::validate, (&profile,), r),
    ensures
        ({
            let zero = Double { bits: 0 };
            let one = Double { bits: 0x3ff0_0000_0000_0000 };
            let (on, off) = (profile.activation.on_threshold, profile.activation.off_threshold);
            r is Ok <==> {
                &&& profile.pressure.pressure_min <= profile.pressure.pressure_max
                &&& match profile.pressure.curve {
                    CurveKind::Linear => true,
                    CurveKind::Gamma(g) => zero.less(g),
                    CurveKind::Custom(points) => forall|i: int|
                        #![trigger points@[i]]
                        0 <= i < points@.len() - 1 ==> points@[i].0.at_most(points@[i + 1].0) && points@[i].1.at_most(
                            points@[i + 1].1,
                        ),
                }
                &&& match profile.smoothing.mode {
                    SmoothingMode::Off => true,
                    SmoothingMode::Ema { alpha } => zero.less(alpha) && alpha.at_most(one),
                    SmoothingMode::OneEuro(p) => zero.less(p.min_cutoff) && zero.less(p.d_cutoff) && zero.at_most(p.beta),
                }
                &&& zero.at_most(on)
                &&& on.at_most(one)
                &&& zero.at_most(off)
                &&& off.at_most(on)
            }
        }),
        r matches Err(e) ==> e is Validation,
{
    if let CurveKind::Custom(points) = profile.pressure.curve {
        lemma_rising_by_pairs(points@);
    }
}

/// Points are accepted exactly where neither coordinate ever falls.
pub proof fn accepted_points_rise(points: &Vec<(Double, Double)>, r: Result<(), ProfileError>)
    requires
        call_ensures(validate_custom_points, (points,), r),
    ensures
        r is Ok <==> forall|i: int|
            #![trigger points@[i]]
            0 <= i < points@.len() - 1 ==> points@[i].0.at_most(points@[i + 1].0) && points@[i].1.at_most(
                points@[i + 1].1,
            ),
{
    lemma_rising_by_pairs(points@);
}

proof fn lemma_rising_by_pairs(points: Seq<(Double, Double)>)
    ensures
        rising(points) <==> forall|i: int|
            #![trigger points[i]]
            0 <= i < points.len() - 1 ==> points[i].0.at_most(points[i + 1].0) && points[i].1.at_most(points[i + 1].1),
{
    if rising(points) {
        assert forall|i: int|
            #![trigger points[i]]
            0 <= i < points.len() - 1 implies points[i].0.at_most(points[i + 1].0) && points[i].1.at_most(
            points[i + 1].1,
        ) by {
            assert(rises_at(points, i));
        }
    }
    if forall|i: int|
        #![trigger points[i]]
        0 <= i < points.len() - 1 ==> points[i].0.at_most(points[i + 1].0) && points[i].1.at_most(points[i + 1].1) {
        assert forall|i: int| 0 <= i < points.len() - 1 implies #[trigger] rises_at(points, i) by {
            assert(points[i] == points[i]);
        }
    }
}

/// Refusals name the stage that is wrong, the first one where several are, and
/// quote the numbers that are wrong.
pub proof fn refusals_name_the_first_fault(profile: CalibrationProfile, r: Result<(), ProfileError>)
    requires
        call_ensures(CalibrationProfile::validate, (&profile,), r),
    ensures
        ({
            let zero = Double { bits: 0 };
            let one = Double { bits: 0x3ff0_0000_0000_0000 };
            let window = profile.pressure.pressure_min <= profile.pressure.pressure_max;
            let shaped = window && profile.pressure.curve is Linear;
            let on = profile.activation.on_threshold;
            &&& !window ==> refuses(r, "pressure.pressure_min / pressure_max"@)
            &&& window && profile.pressure.curve is Gamma && !zero.less(profile.pressure.curve->Gamma_0) ==> refuses(
                r,
                "pressure.curve (Gamma)"@,
            ) && quotes(r, profile.pressure.curve->Gamma_0)
            &&& shaped && profile.smoothing.mode is Ema && one.less(profile.smoothing.mode->alpha) ==> refuses(
                r,
                "smoothing.mode (Ema.alpha)"@,
            ) && quotes(r, profile.smoothing.mode->alpha)
            &&& shaped && profile.smoothing.mode is Off && !(zero.at_most(on) && on.at_most(one)) ==> refuses(
                r,
                "activation.on_threshold"@,
            ) && quotes(r, on)
        }),
{
}

/// Is `field` what was refused?
pub open spec fn refuses(r: Result<(), ProfileError>, field: Seq<char>) -> bool {
    r matches Err(ProfileError::Validation { field: named, .. }) && named@ == field
}

/// Does the refusal end in `number`?
pub open spec fn quotes(r: Result<(), ProfileError>, number: Double) -> bool {
    r matches Err(ProfileError::Validation { reason, .. }) && reason@.len() > 0 && reason@.last()
        == crate::text::ReasonPartView::Number(number)
}

/// The profile that changes nothing has every stage off, and would pass
/// everything through even with them on: its matrix is the unit matrix, its
/// window holds every pressure, its curve is straight.
pub proof fn identity_profiles_are_neutral(r: CalibrationProfile, map: CoordinateMap)
    requires
        call_ensures(CalibrationProfile::identity, (), r),
        call_ensures(CoordinateMap::identity, (), map),
    ensures
        r.name@ == "identity"@,
        r.target_space == TargetSpace::Normalized,
        !r.coordinate_map.enabled && !r.pressure.enabled && !r.tilt.enabled && !r.activation.enabled,
        r.smoothing.mode is Off,
        r.pressure.pressure_min == 0 && r.pressure.pressure_max == 0xffff_ffff && r.pressure.curve is Linear,
        r.tilt.convention == TiltConvention::TiltXY,
        r.activation.on_threshold.bits == 0 && r.activation.off_threshold.bits == 0,
        r.activation.require_proximity,
        !map.enabled && map.projective is None,
        r.coordinate_map.affine@ == map.affine@,
        forall|i: int|
            #![trigger map.affine@[i]]
            0 <= i < 6 ==> map.affine@[i].bits == if i == 0 || i == 4 {
                0x3ff0_0000_0000_0000u64
            } else {
                0
            },
{
}

} // verus!
