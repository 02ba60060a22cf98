//! Calibration profiles and the pipeline that applies them.
use stylus_input_capture::device::capabilities::{AxisInfo, AxisUnit, DeviceCapabilities};
use stylus_input_capture::device::sample::{PenSample, ToolKind};
use stylus_input_capture::double::Double;
use stylus_input_capture::process::fit::{fit_degree, pivot_row, FitDegree};
use stylus_input_capture::process::pipeline::{
    OneEuroAxisState, PositionPlan, PressurePlan, ProcessedSample, ProcessorState, SmoothingPlan,
    StageValues, TiltPlan,
};
use stylus_input_capture::process::pressure::{
    curve_segment, learn_min_max, CurveSegment, Response,
};
use stylus_input_capture::process::profile::{
    ActivationConfig, CalibrationProfile, CurveKind, OneEuroParams, PressureCurve, SmoothingConfig,
    SmoothingMode, TiltConfig, TiltConvention,
};
use stylus_input_capture::process::validate::{validate_custom_points, ProfileError};
use stylus_input_capture::text::ReasonPart;

fn number(value: f64) -> Double {
    Double::from_bits(value.to_bits())
}

fn value(number: Double) -> f64 {
    f64::from_bits(number.to_bits())
}

fn points(list: &[(f64, f64)]) -> Vec<(Double, Double)> {
    list.iter().map(|(t, v)| (number(*t), number(*v))).collect()
}

/// The response of a curve at a place in the pressure window.
fn shaped(curve: &CurveKind, t: f64) -> f64 {
    match curve.response(number(t)) {
        Response::Same => t,
        Response::Power(g) => t.powf(value(g)),
        Response::Value(v) => value(v),
        Response::Line { from, to } => {
            let (t0, v0) = (value(from.0), value(from.1));
            let (t1, v1) = (value(to.0), value(to.1));
            v0 + (t - t0) / (t1 - t0) * (v1 - v0)
        }
    }
}

fn pressed(curve: &PressureCurve, raw: u32) -> f64 {
    let place = curve.position(raw);
    shaped(&curve.curve, place.numerator as f64 / place.denominator as f64).clamp(0.0, 1.0)
}

fn one_euro(input: f64, dt: f64, s: OneEuroAxisState, params: &OneEuroParams) -> OneEuroAxisState {
    let dt = dt.max(f64::EPSILON);
    let alpha = |cutoff: f64| {
        let tau = 1.0 / (2.0 * std::f64::consts::PI * cutoff);
        1.0 / (1.0 + tau / dt)
    };
    let average = |input: f64, before: f64, alpha: f64| alpha * input + (1.0 - alpha) * before;
    let dx_raw = (input - value(s.prev_filtered)) / dt;
    let dx = average(dx_raw, value(s.prev_dx), alpha(value(params.d_cutoff)));
    let cutoff = value(params.min_cutoff) + value(params.beta) * dx.abs();
    let filtered = average(input, value(s.prev_filtered), alpha(cutoff));
    OneEuroAxisState { prev_filtered: number(filtered), prev_dx: number(dx) }
}

/// The tilt in degrees of an orientation in tenths of a degree.
fn derived_tilt(azimuth: i32, altitude: i32) -> (f64, f64) {
    if altitude == 900 {
        return (0.0, 0.0);
    }
    let azimuth = (f64::from(azimuth) / 10.0).to_radians();
    let slope = (f64::from(altitude) / 10.0).to_radians().tan();
    ((azimuth.cos() / slope).atan().to_degrees(), (azimuth.sin() / slope).atan().to_degrees())
}

/// One sample through the pipeline, with the numbers of each stage computed
/// as its plan says.
fn run(
    profile: &CalibrationProfile,
    raw: &PenSample,
    caps: &DeviceCapabilities,
    state: &mut ProcessorState,
) -> ProcessedSample {
    let plan = profile.plan(raw, state);
    let (x, y) = match plan.position {
        PositionPlan::Keep { x, y } => (x, y),
        PositionPlan::Transform { .. } => panic!("no coordinate map here"),
    };
    let pressure = match plan.pressure {
        PressurePlan::Keep(pressure) => pressure,
        PressurePlan::Shape(place) => number(
            shaped(&profile.pressure.curve, place.numerator as f64 / place.denominator as f64)
                .clamp(0.0, 1.0),
        ),
    };
    let unasked = number(-1.0);
    let (tilt_x, tilt_y) = match plan.tilt {
        TiltPlan::Keep { .. } | TiltPlan::Absent => (unasked, unasked),
        TiltPlan::Degrees { azimuth, altitude } => {
            (number(f64::from(azimuth) / 10.0), number(f64::from(altitude) / 10.0))
        }
        TiltPlan::Derive { azimuth, altitude } => {
            let (x, y) = derived_tilt(azimuth, altitude);
            (number(x), number(y))
        }
    };
    let filter = |at: Double| OneEuroAxisState { prev_filtered: at, prev_dx: number(0.0) };
    let filtered = match plan.smoothing {
        SmoothingPlan::Off | SmoothingPlan::Start => (filter(unasked), filter(unasked)),
        SmoothingPlan::Ema { alpha, previous } => {
            let average = |input: Double, before: Double| {
                number(value(alpha) * value(input) + (1.0 - value(alpha)) * value(before))
            };
            (filter(average(x, previous.0)), filter(average(y, previous.1)))
        }
        SmoothingPlan::OneEuro { params, dt_ns, x: sx, y: sy } => {
            let dt = dt_ns as f64 / 1e9;
            (one_euro(value(x), dt, sx, &params), one_euro(value(y), dt, sy, &params))
        }
    };
    let values = StageValues {
        x: unasked,
        y: unasked,
        pressure: if profile.pressure.enabled { pressure } else { unasked },
        tilt_x,
        tilt_y,
        twist: plan.twist_deci_deg.map_or(unasked, |t| number(f64::from(t) / 10.0)),
        filtered,
    };
    profile.apply(raw, caps, state, &values)
}

fn dummy_caps() -> DeviceCapabilities {
    let axis = AxisInfo {
        min: 0,
        max: 1000,
        resolution: number(100.0),
        unit: AxisUnit::Unitless,
        supported: true,
    };
    DeviceCapabilities {
        device_name: String::from("Test Device"),
        driver_version: String::from("1.0"),
        x: axis,
        y: axis,
        z: axis,
        pressure: axis,
        tangent_pressure: axis,
        azimuth: axis,
        altitude: axis,
        twist: axis,
        rotation: axis,
        max_packet_rate_hz: 200,
        queue_size: 128,
    }
}

fn make_sample(x_norm: f64, y_norm: f64, pressure_norm: f64, t_capture_ns: u64) -> PenSample {
    PenSample {
        t_capture_ns,
        t_device_ms: (t_capture_ns / 1_000_000) as u32,
        serial: (t_capture_ns / 1_000_000) as u32,
        x_raw: (x_norm * 1000.0).round() as i32,
        y_raw: (y_norm * 1000.0).round() as i32,
        z_raw: 0,
        x_norm: number(x_norm),
        y_norm: number(y_norm),
        pressure_raw: (pressure_norm * 1000.0).round() as u32,
        pressure_norm: number(pressure_norm),
        tangent_pressure_raw: None,
        azimuth_deci_deg: None,
        altitude_deci_deg: None,
        twist_deci_deg: None,
        tilt_x_deg: None,
        tilt_y_deg: None,
        rotation_deci_deg: None,
        buttons: 0,
        tool: ToolKind::Pen,
        tool_serial: 0,
        in_proximity: true,
        status: 0,
    }
}

fn sample_512(x_norm: f64, y_norm: f64, pressure_norm: f64) -> PenSample {
    let mut raw = make_sample(x_norm, y_norm, pressure_norm, 1_000_000);
    raw.x_raw = 500;
    raw.y_raw = 500;
    raw.pressure_raw = 512;
    raw
}

fn names(error: &ProfileError, part: &str) -> bool {
    matches!(error, ProfileError::Validation { field, .. } if field.contains(part))
}

#[test]
fn identity_validates_ok() {
    CalibrationProfile::identity().validate().unwrap();
}

#[test]
fn validate_pressure_min_gt_max() {
    let mut p = CalibrationProfile::identity();
    p.pressure = PressureCurve {
        enabled: true,
        pressure_min: 900,
        pressure_max: 100,
        curve: CurveKind::Linear,
    };
    let err = p.validate().unwrap_err();
    assert!(names(&err, "pressure_min"), "unexpected error: {err:?}");
}

#[test]
fn validate_gamma_zero_rejected() {
    let mut p = CalibrationProfile::identity();
    p.pressure = PressureCurve {
        enabled: true,
        pressure_min: 0,
        pressure_max: 1000,
        curve: CurveKind::Gamma(number(0.0)),
    };
    let err = p.validate().unwrap_err();
    assert!(names(&err, "Gamma"), "unexpected error: {err:?}");
}

#[test]
fn validate_gamma_negative_rejected() {
    let mut p = CalibrationProfile::identity();
    p.pressure.curve = CurveKind::Gamma(number(-1.0));
    let err = p.validate().unwrap_err();
    assert!(err.report().parts.iter().any(
        |part| matches!(part, ReasonPart::Number(quoted) if value(*quoted) == -1.0)
    ));
}

#[test]
fn validate_custom_non_monotone_v() {
    let mut p = CalibrationProfile::identity();
    p.pressure.curve = CurveKind::Custom(points(&[(0.0, 0.0), (0.5, 0.8), (1.0, 0.5)]));
    let err = p.validate().unwrap_err();
    assert!(names(&err, "v values"), "unexpected error: {err:?}");
}

#[test]
fn validate_custom_unsorted_t() {
    let mut p = CalibrationProfile::identity();
    p.pressure.curve =
        CurveKind::Custom(points(&[(0.0, 0.0), (0.8, 0.5), (0.3, 0.8), (1.0, 1.0)]));
    let err = p.validate().unwrap_err();
    assert!(names(&err, "t values"), "unexpected error: {err:?}");
    assert!(validate_custom_points(&points(&[(0.0, 0.0), (1.0, 1.0)])).is_ok());
}

fn smoothed(mode: SmoothingMode) -> CalibrationProfile {
    let mut p = CalibrationProfile::identity();
    p.smoothing = SmoothingConfig { mode };
    p
}

fn euro(min_cutoff: f64, beta: f64, d_cutoff: f64) -> SmoothingMode {
    SmoothingMode::OneEuro(OneEuroParams {
        min_cutoff: number(min_cutoff),
        beta: number(beta),
        d_cutoff: number(d_cutoff),
    })
}

#[test]
fn validate_ema_alpha_zero_rejected() {
    let err = smoothed(SmoothingMode::Ema { alpha: number(0.0) }).validate().unwrap_err();
    assert!(names(&err, "alpha"), "unexpected error: {err:?}");
}

#[test]
fn validate_ema_alpha_gt_one_rejected() {
    assert!(smoothed(SmoothingMode::Ema { alpha: number(1.5) }).validate().is_err());
}

#[test]
fn validate_ema_alpha_one_accepted() {
    smoothed(SmoothingMode::Ema { alpha: number(1.0) }).validate().unwrap();
}

#[test]
fn validate_one_euro_min_cutoff_zero_rejected() {
    let err = smoothed(euro(0.0, 0.1, 1.0)).validate().unwrap_err();
    assert!(names(&err, "min_cutoff"), "unexpected error: {err:?}");
}

#[test]
fn validate_one_euro_d_cutoff_zero_rejected() {
    assert!(smoothed(euro(1.0, 0.0, 0.0)).validate().is_err());
}

#[test]
fn validate_one_euro_negative_beta_rejected() {
    assert!(smoothed(euro(1.0, -0.1, 1.0)).validate().is_err());
}

#[test]
fn validate_activation_off_gt_on() {
    let mut p = CalibrationProfile::identity();
    p.activation = ActivationConfig {
        enabled: true,
        on_threshold: number(0.3),
        off_threshold: number(0.5),
        require_proximity: true,
    };
    let err = p.validate().unwrap_err();
    assert!(names(&err, "off_threshold"), "unexpected error: {err:?}");
}

#[test]
fn validate_activation_on_threshold_out_of_range() {
    let mut p = CalibrationProfile::identity();
    p.activation = ActivationConfig {
        enabled: true,
        on_threshold: number(1.5),
        off_threshold: number(0.0),
        require_proximity: false,
    };
    assert!(p.validate().is_err());
}

#[test]
fn load_rejects_gamma_zero() {
    let mut profile = CalibrationProfile::identity();
    profile.pressure.curve = CurveKind::Gamma(number(0.0));
    assert!(names(&profile.validate().unwrap_err(), "Gamma"));
}

#[test]
fn load_rejects_non_monotone_custom_points() {
    let mut profile = CalibrationProfile::identity();
    profile.pressure.curve = CurveKind::Custom(points(&[(0.0, 0.0), (0.5, 0.8), (1.0, 0.5)]));
    assert!(names(&profile.validate().unwrap_err(), "v values"));
}

#[test]
fn load_rejects_ema_alpha_zero() {
    let profile = smoothed(SmoothingMode::Ema { alpha: number(0.0) });
    assert!(names(&profile.validate().unwrap_err(), "alpha"));
}

#[test]
fn load_rejects_ema_alpha_gt_one() {
    let profile = smoothed(SmoothingMode::Ema { alpha: number(1.1) });
    assert!(matches!(profile.validate(), Err(ProfileError::Validation { .. })));
}

#[test]
fn load_rejects_one_euro_negative_cutoff() {
    let profile = smoothed(euro(-1.0, 0.0, 1.0));
    assert!(matches!(profile.validate(), Err(ProfileError::Validation { .. })));
}

fn cfg(on: f64, off: f64, require_prox: bool) -> ActivationConfig {
    ActivationConfig {
        enabled: true,
        on_threshold: number(on),
        off_threshold: number(off),
        require_proximity: require_prox,
    }
}

#[test]
fn hysteresis_holds_previous_state_in_band() {
    let c = cfg(0.5, 0.3, false);
    let mut latch = ProcessorState::new().active_latch;
    assert!(!c.apply(number(0.1), true, &mut latch), "should be inactive below off_threshold");
    assert!(c.apply(number(0.6), true, &mut latch), "should become active above on_threshold");
    assert!(c.apply(number(0.4), true, &mut latch), "should stay active inside hysteresis band");
    assert!(!c.apply(number(0.2), true, &mut latch), "should become inactive");
    assert!(!c.apply(number(0.4), true, &mut latch), "should stay inactive inside the band");
    assert!(c.apply(number(0.55), true, &mut latch), "should become active again");
}

#[test]
fn equal_thresholds_no_band() {
    let c = cfg(0.5, 0.5, false);
    let mut latch = ProcessorState::new().active_latch;
    assert!(c.apply(number(0.5), true, &mut latch), "at threshold should be active");
    assert!(!c.apply(number(0.4), true, &mut latch), "below threshold should be inactive");
}

#[test]
fn proximity_gate_clears_active_on_leave() {
    let c = cfg(0.3, 0.1, true);
    let mut latch = ProcessorState::new().active_latch;
    assert!(c.apply(number(0.4), true, &mut latch), "should be active in proximity");
    assert!(!c.apply(number(0.4), false, &mut latch), "should be inactive out of proximity");
    assert!(c.apply(number(0.4), true, &mut latch), "should re-activate back in proximity");
}

#[test]
fn no_proximity_gate_ignores_proximity() {
    let c = cfg(0.3, 0.1, false);
    let mut latch = ProcessorState::new().active_latch;
    c.apply(number(0.4), true, &mut latch);
    assert!(c.apply(number(0.4), false, &mut latch), "should stay active under pressure");
}

#[test]
fn activates_above_on_threshold() {
    let mut latch = ProcessorState::new().active_latch;
    assert!(cfg(0.4, 0.2, false).apply(number(0.5), true, &mut latch));
}

#[test]
fn inactive_below_off_threshold() {
    let mut latch = ProcessorState::new().active_latch;
    assert!(!cfg(0.4, 0.2, false).apply(number(0.1), true, &mut latch));
}

#[test]
fn fresh_state_starts_inactive() {
    assert!(!ProcessorState::new().active_latch);
}

fn make_sample_full(
    azimuth: Option<i32>,
    altitude: Option<i32>,
    twist: Option<i32>,
    tilt_x: Option<f64>,
    tilt_y: Option<f64>,
) -> PenSample {
    let mut raw = make_sample(0.0, 0.0, 0.0, 0);
    raw.azimuth_deci_deg = azimuth;
    raw.altitude_deci_deg = altitude;
    raw.twist_deci_deg = twist;
    raw.tilt_x_deg = tilt_x.map(number);
    raw.tilt_y_deg = tilt_y.map(number);
    raw
}

fn tilt(convention: TiltConvention) -> TiltConfig {
    TiltConfig { enabled: true, convention }
}

#[test]
fn tilt_xy_copies_raw_fields() {
    let raw = make_sample_full(None, None, None, Some(15.0), Some(-10.0));
    assert_eq!(
        tilt(TiltConvention::TiltXY).apply(&raw),
        TiltPlan::Keep { x: Some(number(15.0)), y: Some(number(-10.0)) }
    );
}

#[test]
fn tilt_xy_none_when_absent() {
    let raw = make_sample_full(None, None, None, None, None);
    assert_eq!(
        tilt(TiltConvention::TiltXY).apply(&raw),
        TiltPlan::Keep { x: None, y: None }
    );
}

#[test]
fn azimuth_altitude_convention_degrees() {
    let raw = make_sample_full(Some(1800), Some(450), Some(900), None, None);
    let mut profile = CalibrationProfile::identity();
    profile.tilt = tilt(TiltConvention::AzimuthAltitude);
    let processed = run(&profile, &raw, &dummy_caps(), &mut ProcessorState::new());
    assert_eq!(processed.tilt_x.map(value), Some(180.0), "azimuth as tilt_x");
    assert_eq!(processed.tilt_y.map(value), Some(45.0), "altitude as tilt_y");
    assert_eq!(processed.twist.map(value), Some(90.0), "twist");
}

#[test]
fn azimuth_altitude_none_when_absent() {
    let raw = make_sample_full(None, None, None, Some(5.0), Some(3.0));
    assert_eq!(tilt(TiltConvention::AzimuthAltitude).apply(&raw), TiltPlan::Absent);
}

/// The tilt that a sample has after the stage derived it from its orientation.
fn oriented(raw: &PenSample) -> (Option<f64>, Option<f64>) {
    let mut profile = CalibrationProfile::identity();
    profile.tilt = tilt(TiltConvention::DerivedFromOrientation);
    let processed = run(&profile, raw, &dummy_caps(), &mut ProcessorState::new());
    (processed.tilt_x.map(value), processed.tilt_y.map(value))
}

#[test]
fn derived_from_orientation_known_values() {
    let raw = make_sample_full(Some(0), Some(450), None, None, None);
    assert_eq!(
        tilt(TiltConvention::DerivedFromOrientation).apply(&raw),
        TiltPlan::Derive { azimuth: 0, altitude: 450 }
    );
    let (tx, ty) = oriented(&raw);
    assert!((tx.unwrap() - 45.0).abs() < 1e-6, "tilt_x: {tx:?}");
    assert!(ty.unwrap().abs() < 1e-6, "tilt_y: {ty:?}");
}

#[test]
fn derived_from_orientation_vertical_pen() {
    let raw = make_sample_full(Some(0), Some(900), None, None, None);
    assert_eq!(
        tilt(TiltConvention::DerivedFromOrientation).apply(&raw),
        TiltPlan::Derive { azimuth: 0, altitude: 900 }
    );
    assert_eq!(oriented(&raw), (Some(0.0), Some(0.0)));
}

#[test]
fn twist_deci_deg_to_degrees() {
    let raw = make_sample_full(None, None, Some(450), Some(0.0), Some(0.0));
    for convention in [
        TiltConvention::TiltXY,
        TiltConvention::AzimuthAltitude,
        TiltConvention::DerivedFromOrientation,
    ] {
        let mut profile = CalibrationProfile::identity();
        profile.tilt = tilt(convention);
        let processed = run(&profile, &raw, &dummy_caps(), &mut ProcessorState::new());
        assert_eq!(processed.twist.map(value), Some(45.0), "twist failed for {convention:?}");
    }
}

/// Positions through a filter at a steady rate.
fn filter(mode: SmoothingMode, inputs: &[(f64, f64)]) -> Vec<(Option<f64>, Option<f64>)> {
    let profile = smoothed(mode);
    let caps = dummy_caps();
    let mut state = ProcessorState::new();
    inputs
        .iter()
        .enumerate()
        .map(|(i, (x, y))| {
            let raw = make_sample(*x, *y, 0.0, i as u64 * 16_000_000);
            let processed = run(&profile, &raw, &caps, &mut state);
            (processed.x_filtered.map(value), processed.y_filtered.map(value))
        })
        .collect()
}

fn ema(alpha: f64) -> SmoothingMode {
    SmoothingMode::Ema { alpha: number(alpha) }
}

#[test]
fn off_mode_returns_none() {
    let profile = smoothed(SmoothingMode::Off);
    let mut state = ProcessorState::new();
    let processed =
        run(&profile, &make_sample(0.5, 0.7, 0.0, 16_000_000), &dummy_caps(), &mut state);
    assert_eq!(processed.x_filtered, None);
    assert_eq!(processed.y_filtered, None);
    assert_eq!(state.ema, None);
    assert_eq!(state.one_euro, None);
}

#[test]
fn ema_deterministic() {
    let inputs = [(0.0, 0.0), (1.0, 0.0), (1.0, 1.0), (0.5, 0.5)];
    assert_eq!(filter(ema(0.5), &inputs), filter(ema(0.5), &inputs));
}

#[test]
fn ema_hand_computed_sequence() {
    let out = filter(ema(0.5), &[(0.0, 0.0), (1.0, 0.0), (1.0, 0.0), (0.0, 0.0)]);
    assert_eq!(out[0].0, Some(0.0), "sample 0 (cold start)");
    assert!((out[1].0.unwrap() - 0.5).abs() < 1e-12, "sample 1: {:?}", out[1]);
    assert!((out[2].0.unwrap() - 0.75).abs() < 1e-12, "sample 2: {:?}", out[2]);
    assert!((out[3].0.unwrap() - 0.375).abs() < 1e-12, "sample 3: {:?}", out[3]);
}

#[test]
fn ema_alpha_one_passthrough() {
    let out = filter(ema(1.0), &[(0.2, 0.8), (0.6, 0.3)]);
    assert!((out[1].0.unwrap() - 0.6).abs() < 1e-12);
    assert!((out[1].1.unwrap() - 0.3).abs() < 1e-12);
}

#[test]
fn ema_cold_start_echoes_input() {
    assert_eq!(filter(ema(0.3), &[(0.7, 0.2)]), vec![(Some(0.7), Some(0.2))]);
}

#[test]
fn ema_weights_stay_in_range() {
    let state = ProcessorState { ema: Some((number(0.0), number(0.0))), ..ProcessorState::new() };
    let weight = |alpha: f64| match (SmoothingConfig { mode: ema(alpha) }).apply(&state, 0) {
        SmoothingPlan::Ema { alpha, .. } => value(alpha),
        other => panic!("unexpected plan {other:?}"),
    };
    assert_eq!(weight(0.0), f64::EPSILON);
    assert_eq!(weight(7.0), 1.0);
    assert_eq!(weight(0.25), 0.25);
}

#[test]
fn one_euro_deterministic() {
    let inputs: Vec<(f64, f64)> =
        (0..20).map(|i| (f64::from(i) * 0.05, f64::from(i) * 0.03)).collect();
    assert_eq!(
        filter(euro(1.0, 0.007, 1.0), &inputs),
        filter(euro(1.0, 0.007, 1.0), &inputs)
    );
}

#[test]
fn one_euro_cold_start_echoes_input() {
    let mode = SmoothingMode::OneEuro(OneEuroParams::default());
    assert_eq!(filter(mode, &[(0.4, 0.9)]), vec![(Some(0.4), Some(0.9))]);
}

#[test]
fn one_euro_constant_input_converges() {
    let out = filter(euro(2.0, 0.0, 1.0), &vec![(0.7, 0.0); 500]);
    let last = out[499].0.unwrap();
    assert!((last - 0.7).abs() < 1e-3, "One-Euro did not converge: {last}");
}

fn make_curve(min: u32, max: u32, curve: CurveKind) -> PressureCurve {
    PressureCurve { enabled: true, pressure_min: min, pressure_max: max, curve }
}

#[test]
fn clamp_at_min_gives_zero() {
    assert_eq!(pressed(&make_curve(100, 900, CurveKind::Linear), 100), 0.0);
}

#[test]
fn clamp_at_max_gives_one() {
    assert_eq!(pressed(&make_curve(100, 900, CurveKind::Linear), 900), 1.0);
}

#[test]
fn clamp_below_min() {
    assert_eq!(pressed(&make_curve(100, 900, CurveKind::Linear), 0), 0.0);
}

#[test]
fn clamp_above_max() {
    assert_eq!(pressed(&make_curve(100, 900, CurveKind::Linear), u32::MAX), 1.0);
}

#[test]
fn degenerate_range_min_equals_max() {
    let curve = make_curve(500, 500, CurveKind::Linear);
    assert_eq!(pressed(&curve, 500), 0.0);
    assert_eq!(pressed(&curve, 0), 0.0);
    assert_eq!(pressed(&curve, 1000), 0.0);
}

#[test]
fn linear_midpoint() {
    assert!((pressed(&make_curve(0, 1000, CurveKind::Linear), 500) - 0.5).abs() < 1e-12);
}

#[test]
fn linear_quarter_point() {
    assert!((pressed(&make_curve(0, 1000, CurveKind::Linear), 250) - 0.25).abs() < 1e-12);
}

fn gamma(g: f64) -> PressureCurve {
    make_curve(0, 1000, CurveKind::Gamma(number(g)))
}

#[test]
fn gamma_endpoints() {
    assert_eq!(pressed(&gamma(2.0), 0), 0.0, "gamma at min");
    assert!((pressed(&gamma(2.0), 1000) - 1.0).abs() < 1e-12, "gamma at max");
}

#[test]
fn gamma_2_midpoint() {
    assert!((pressed(&gamma(2.0), 500) - 0.25).abs() < 1e-12);
}

#[test]
fn gamma_monotonic() {
    let curve = gamma(3.0);
    let mut prev = pressed(&curve, 0);
    for raw in (0..=1000u32).step_by(50) {
        let v = pressed(&curve, raw);
        assert!(v >= prev - 1e-15, "gamma not monotonic at raw={raw}: v={v}, prev={prev}");
        prev = v;
    }
}

#[test]
fn gamma_half_midpoint() {
    assert!((pressed(&gamma(0.5), 500) - 0.5_f64.sqrt()).abs() < 1e-12);
}

#[test]
fn gamma_zero_fallback_to_linear() {
    assert!((pressed(&gamma(0.0), 500) - 0.5).abs() < 1e-12);
    let response = |g: f64| CurveKind::Gamma(number(g)).response(number(0.5));
    assert_eq!(response(0.0), Response::Same);
    assert_eq!(response(-1.0), Response::Same);
    assert_eq!(response(f64::NAN), Response::Same);
    assert_eq!(response(2.5), Response::Power(number(2.5)));
    assert_eq!(CurveKind::Linear.response(number(0.5)), Response::Same);
}

fn custom(list: &[(f64, f64)]) -> PressureCurve {
    make_curve(0, 1000, CurveKind::Custom(points(list)))
}

#[test]
fn custom_hits_control_points() {
    let curve = custom(&[(0.0, 0.0), (0.5, 0.3), (1.0, 1.0)]);
    assert!((pressed(&curve, 0) - 0.0).abs() < 1e-12, "at t=0");
    assert!((pressed(&curve, 500) - 0.3).abs() < 1e-12, "at t=0.5");
    assert!((pressed(&curve, 1000) - 1.0).abs() < 1e-12, "at t=1.0");
}

#[test]
fn custom_interpolates_between_points() {
    let curve = custom(&[(0.0, 0.0), (0.5, 0.3), (1.0, 1.0)]);
    let result = pressed(&curve, 250);
    assert!((result - 0.15).abs() < 1e-12, "custom interp: {result}");
    let points = points(&[(0.0, 0.0), (0.5, 0.3), (1.0, 1.0)]);
    assert_eq!(curve_segment(number(0.25), &points), CurveSegment::Between(0));
    assert_eq!(curve_segment(number(0.75), &points), CurveSegment::Between(1));
}

#[test]
fn custom_empty_falls_back_to_linear() {
    assert!((pressed(&custom(&[]), 500) - 0.5).abs() < 1e-12);
    assert_eq!(curve_segment(number(0.5), &vec![]), CurveSegment::Empty);
    assert_eq!(CurveKind::Custom(vec![]).response(number(0.5)), Response::Same);
}

#[test]
fn custom_curves_never_fall() {
    let curve = custom(&[(0.2, 0.1), (0.5, 0.3), (0.5, 0.4), (0.8, 0.9)]);
    let mut prev = pressed(&curve, 0);
    for raw in 0..=1000u32 {
        let v = pressed(&curve, raw);
        assert!(v >= prev, "falls at raw={raw}: v={v}, prev={prev}");
        prev = v;
    }
    let at = |t: f64| curve.curve.response(number(t));
    let point = |t: f64, v: f64| (number(t), number(v));
    assert_eq!(at(0.2), Response::Value(number(0.1)));
    assert_eq!(at(0.3), Response::Line { from: point(0.2, 0.1), to: point(0.5, 0.3) });
    assert_eq!(at(0.6), Response::Line { from: point(0.5, 0.4), to: point(0.8, 0.9) });
    assert_eq!(at(0.9), Response::Value(number(0.9)));
}

#[test]
fn pressure_beyond_the_window_counts_as_its_end() {
    for curve in [CurveKind::Linear, CurveKind::Gamma(number(2.0))] {
        let curve = make_curve(100, 900, curve);
        assert_eq!(curve.position(0), curve.position(100));
        assert_eq!(curve.position(u32::MAX), curve.position(900));
        assert_eq!((pressed(&curve, 50), pressed(&curve, 950)), (0.0, 1.0));
    }
}

#[test]
fn custom_extrapolation_clamped() {
    let curve = custom(&[(0.2, 0.1), (0.8, 0.9)]);
    let below = pressed(&curve, 0);
    assert!((below - 0.1).abs() < 1e-12, "extrapolate below: {below}");
    let above = pressed(&curve, 1000);
    assert!((above - 0.9).abs() < 1e-12, "extrapolate above: {above}");
}

#[test]
fn output_always_in_range() {
    let curves = vec![
        make_curve(100, 900, CurveKind::Linear),
        make_curve(100, 900, CurveKind::Gamma(number(0.5))),
        make_curve(100, 900, CurveKind::Gamma(number(2.0))),
        make_curve(
            100,
            900,
            CurveKind::Custom(points(&[(0.0, 0.0), (0.25, 0.6), (0.75, 0.8), (1.0, 1.0)])),
        ),
    ];
    for curve in &curves {
        for raw in [0u32, 100, 200, 500, 700, 900, 1000, u32::MAX] {
            let v = pressed(curve, raw);
            assert!((0.0..=1.0).contains(&v), "output out of range: {v} (raw={raw})");
        }
    }
}

fn with_pressure(pressure_raw: u32) -> PenSample {
    let mut raw = make_sample(0.0, 0.0, 0.0, 0);
    raw.pressure_raw = pressure_raw;
    raw
}

#[test]
fn learn_min_max_empty() {
    assert_eq!(learn_min_max(&[]), (0, 0));
}

#[test]
fn learn_min_max_synthetic() {
    let pressures = [0u32, 150, 700, 1023, 512, 42, 999];
    let samples: Vec<PenSample> = pressures.iter().map(|&p| with_pressure(p)).collect();
    let (min, max) = learn_min_max(&samples);
    assert_eq!(min, 0, "min");
    assert_eq!(max, 1023, "max");
}

#[test]
fn learn_min_max_single() {
    let samples = [with_pressure(500)];
    assert_eq!(learn_min_max(&samples), (500, 500));
}

#[test]
fn learn_min_max_uniform() {
    let samples: Vec<PenSample> = (0..5).map(|_| with_pressure(300)).collect();
    assert_eq!(learn_min_max(&samples), (300, 300));
}

#[test]
fn identity_apply_passthrough() {
    let raw = sample_512(0.25, 0.75, 0.5);
    let mut state = ProcessorState::new();
    let processed = run(&CalibrationProfile::identity(), &raw, &dummy_caps(), &mut state);

    assert_eq!(processed.raw, raw, "raw field must equal the input sample");
    assert_eq!(processed.x, raw.x_norm, "x must equal x_norm");
    assert_eq!(processed.y, raw.y_norm, "y must equal y_norm");
    assert_eq!(processed.pressure, raw.pressure_norm, "pressure must equal pressure_norm");
    assert_eq!(processed.x_filtered, None, "x_filtered must be None");
    assert_eq!(processed.y_filtered, None, "y_filtered must be None");
    assert_eq!(processed.tilt_x, raw.tilt_x_deg);
    assert_eq!(processed.tilt_y, raw.tilt_y_deg);
    assert_eq!(processed.active, raw.in_proximity);
    assert!(!processed.out_of_range);
}

#[test]
fn twist_deci_deg_conversion() {
    let mut raw = sample_512(0.5, 0.5, 0.5);
    raw.twist_deci_deg = Some(450);
    let mut state = ProcessorState::new();
    let processed = run(&CalibrationProfile::identity(), &raw, &dummy_caps(), &mut state);
    assert_eq!(processed.twist.map(value), Some(45.0));
}

#[test]
fn processor_state_new_equals_default() {
    assert_eq!(ProcessorState::new(), ProcessorState::default());
}

#[test]
fn profile_identity_equals_default() {
    assert_eq!(CalibrationProfile::identity(), CalibrationProfile::default());
}

#[test]
fn disabled_coordinate_stage_uses_raw_normalized() {
    let raw = sample_512(0.3, 0.7, 0.5);
    let mut state = ProcessorState::new();
    let mut profile = CalibrationProfile::identity();
    profile.coordinate_map.enabled = false;
    let processed = run(&profile, &raw, &dummy_caps(), &mut state);
    assert_eq!(processed.x, raw.x_norm);
    assert_eq!(processed.y, raw.y_norm);
    profile.coordinate_map.enabled = true;
    assert_eq!(
        profile.plan(&raw, &state).position,
        PositionPlan::Transform { x_raw: 500, y_raw: 500 }
    );
}

#[test]
fn disabled_pressure_stage_uses_raw_norm() {
    let raw = sample_512(0.5, 0.5, 0.7);
    let mut state = ProcessorState::new();
    let mut profile = CalibrationProfile::identity();
    profile.pressure.enabled = false;
    let processed = run(&profile, &raw, &dummy_caps(), &mut state);
    assert_eq!(
        processed.pressure, raw.pressure_norm,
        "disabled pressure stage must pass raw.pressure_norm through"
    );
}

fn with_curve(min: u32, max: u32, curve: CurveKind) -> CalibrationProfile {
    let mut profile = CalibrationProfile::identity();
    profile.pressure = make_curve(min, max, curve);
    profile
}

#[test]
fn enabled_pressure_stage_applies_curve() {
    let raw = sample_512(0.5, 0.5, 0.5);
    assert_eq!(raw.pressure_raw, 512);
    let profile = with_curve(0, 1000, CurveKind::Linear);
    let processed = run(&profile, &raw, &dummy_caps(), &mut ProcessorState::new());
    let pressure = value(processed.pressure);
    assert!((pressure - 512.0 / 1000.0).abs() < 1e-12, "pressure: {pressure}");
}

#[test]
fn enabled_pressure_stage_gamma() {
    let raw = sample_512(0.5, 0.5, 0.5);
    let profile = with_curve(0, 1000, CurveKind::Gamma(number(2.0)));
    let processed = run(&profile, &raw, &dummy_caps(), &mut ProcessorState::new());
    let pressure = value(processed.pressure);
    assert!((pressure - (512.0_f64 / 1000.0).powf(2.0)).abs() < 1e-12, "pressure: {pressure}");
}

#[test]
fn pressure_stage_output_in_range() {
    let profile = with_curve(100, 900, CurveKind::Gamma(number(2.0)));
    let mut state = ProcessorState::new();
    for raw_p in [0u32, 50, 100, 500, 900, 1000] {
        let mut raw = sample_512(0.5, 0.5, 0.5);
        raw.pressure_raw = raw_p;
        let pressure = value(run(&profile, &raw, &dummy_caps(), &mut state).pressure);
        assert!((0.0..=1.0).contains(&pressure), "out of range: {pressure} (raw={raw_p})");
    }
}

#[test]
fn identity_profile_passthrough() {
    let raw = make_sample(0.3, 0.7, 0.5, 1_000_000);
    let mut state = ProcessorState::new();
    let processed = run(&CalibrationProfile::identity(), &raw, &dummy_caps(), &mut state);
    assert_eq!(processed.raw, raw, "raw field must equal the input sample");
    assert_eq!(processed.x, raw.x_norm, "x must equal x_norm");
    assert_eq!(processed.y, raw.y_norm, "y must equal y_norm");
    assert_eq!(processed.pressure, raw.pressure_norm, "pressure must equal pressure_norm");
    assert_eq!(processed.x_filtered, None, "smoothing disabled");
    assert_eq!(processed.y_filtered, None, "smoothing disabled");
    assert!(!processed.out_of_range, "in-range values must not set out_of_range");
}

#[test]
fn ema_smoothing_lags_step_input() {
    let caps = dummy_caps();
    let mut state = ProcessorState::new();
    let profile = smoothed(ema(0.3));
    for i in 0..10u64 {
        run(&profile, &make_sample(0.0, 0.0, 0.0, i * 8_000_000), &caps, &mut state);
    }
    let stepped = run(&profile, &make_sample(1.0, 0.0, 0.0, 10 * 8_000_000), &caps, &mut state);
    let xf = value(stepped.x_filtered.expect("smoothing enabled"));
    assert!(xf < 1.0, "EMA must lag the step; got x_filtered={xf} (expected < 1.0)");
    assert!(xf > 0.0, "EMA must be above 0 after a step; got x_filtered={xf}");
}

#[test]
fn activation_latches_with_hysteresis() {
    let caps = dummy_caps();
    let mut state = ProcessorState::new();
    let mut profile = CalibrationProfile::identity();
    profile.activation = cfg(0.5, 0.3, true);
    let mut active = |pressure: f64, t: u64| {
        run(&profile, &make_sample(0.5, 0.5, pressure, t), &caps, &mut state).active
    };
    assert!(!active(0.1, 0), "should start inactive below off_threshold");
    assert!(active(0.6, 8_000_000), "should activate above on_threshold");
    assert!(active(0.4, 16_000_000), "should stay active in hysteresis band (no chatter)");
    assert!(!active(0.2, 24_000_000), "should deactivate below off_threshold");
}

#[test]
fn apply_dt_derived_from_timestamps_deterministic() {
    let caps = dummy_caps();
    let profile = smoothed(SmoothingMode::OneEuro(OneEuroParams::default()));
    let samples: Vec<_> = (0..20u64)
        .map(|i| make_sample(i as f64 * 0.05, i as f64 * 0.03, 0.0, i * 8_000_000))
        .collect();
    let outputs = |samples: &[PenSample]| -> Vec<(Option<Double>, Option<Double>)> {
        let mut st = ProcessorState::new();
        samples
            .iter()
            .map(|s| {
                let p = run(&profile, s, &caps, &mut st);
                (p.x_filtered, p.y_filtered)
            })
            .collect()
    };
    assert_eq!(outputs(&samples), outputs(&samples), "apply must be deterministic");

    let mut state = ProcessorState::new();
    assert_eq!(state.elapsed_ns(5), 0);
    run(&profile, &samples[1], &caps, &mut state);
    assert_eq!(state.last_t_capture_ns, Some(8_000_000));
    assert!(matches!(
        profile.plan(&samples[2], &state).smoothing,
        SmoothingPlan::OneEuro { dt_ns: 8_000_000, .. }
    ));
    assert_eq!(state.elapsed_ns(3), 0);
}

fn leaves(raw: &PenSample, caps: &DeviceCapabilities) -> bool {
    run(&CalibrationProfile::identity(), raw, caps, &mut ProcessorState::new()).out_of_range
}

#[test]
fn out_of_range_false_for_in_range_sample() {
    let raw = make_sample(0.5, 0.5, 0.5, 0);
    assert!(!leaves(&raw, &dummy_caps()), "in-range sample must not set out_of_range");
}

#[test]
fn out_of_range_true_for_x_below_min() {
    let mut raw = make_sample(0.0, 0.5, 0.5, 0);
    raw.x_raw = -1;
    assert!(leaves(&raw, &dummy_caps()), "x below min must set out_of_range");
}

#[test]
fn out_of_range_true_for_x_above_max() {
    let mut raw = make_sample(1.0, 0.5, 0.5, 0);
    raw.x_raw = 1001;
    assert!(leaves(&raw, &dummy_caps()), "x above max must set out_of_range");
}

#[test]
fn out_of_range_true_for_pressure_above_max() {
    let mut raw = make_sample(0.5, 0.5, 1.0, 0);
    raw.pressure_raw = 1001;
    assert!(leaves(&raw, &dummy_caps()), "pressure above max must set out_of_range");
}

#[test]
fn out_of_range_skips_unsupported_axes() {
    let mut caps = dummy_caps();
    caps.pressure.supported = false;
    let mut raw = make_sample(0.5, 0.5, 1.0, 0);
    raw.pressure_raw = 9999;
    assert!(!leaves(&raw, &caps), "unsupported axes must not set out_of_range");
}

#[test]
fn pipeline_stage_ordering() {
    let mut profile = with_curve(0, 1000, CurveKind::Gamma(number(2.0)));
    profile.activation = cfg(0.5, 0.4, true);
    let mut raw = make_sample(0.5, 0.5, 0.8, 0);
    raw.pressure_raw = 800;
    let processed = run(&profile, &raw, &dummy_caps(), &mut ProcessorState::new());
    let expected_pressure = 0.8_f64.powi(2);
    assert!(
        (value(processed.pressure) - expected_pressure).abs() < 1e-12,
        "expected {expected_pressure}, got {}",
        value(processed.pressure)
    );
    assert!(processed.active, "activation should see the shaped pressure");
}

#[test]
fn fits_grow_with_their_points() {
    assert_eq!(fit_degree(0), FitDegree::Identity);
    assert_eq!(fit_degree(1), FitDegree::Identity);
    assert_eq!(fit_degree(2), FitDegree::Similarity);
    assert_eq!(fit_degree(3), FitDegree::Similarity);
    assert_eq!(fit_degree(4), FitDegree::Projective);
}

#[test]
fn pivots_are_the_largest_entries() {
    let column = |list: &[f64]| list.iter().map(|v| number(*v)).collect::<Vec<Double>>();
    assert_eq!(pivot_row(&column(&[1.0, -3.0, 3.0])), Some(1));
    assert_eq!(pivot_row(&column(&[0.0, 1e-13])), None);
    assert_eq!(pivot_row(&column(&[0.0, 1e-11])), Some(1));
    assert_eq!(pivot_row(&column(&[f64::NAN, 2.0])), Some(0));
    assert_eq!(pivot_row(&column(&[1.0, f64::NAN, -2.0])), Some(2));
    assert_eq!(pivot_row(&column(&[1.0, f64::NAN])), Some(0));
    assert_eq!(pivot_row(&column(&[0.0, f64::NAN])), None);
}

#[test]
fn values_that_are_no_number_are_refused() {
    let nan = number(f64::NAN);
    let mut p = CalibrationProfile::identity();
    p.pressure.curve = CurveKind::Gamma(nan);
    assert!(matches!(
        p.validate(),
        Err(ProfileError::Validation { field: "pressure.curve (Gamma)", .. })
    ));
    assert!(smoothed(SmoothingMode::Ema { alpha: nan }).validate().is_err());
    assert!(smoothed(euro(f64::NAN, 0.1, 1.0)).validate().is_err());
    assert!(smoothed(euro(1.0, f64::NAN, 1.0)).validate().is_err());
    assert!(smoothed(euro(1.0, 0.1, f64::NAN)).validate().is_err());
    assert!(validate_custom_points(&points(&[(0.0, 0.0), (f64::NAN, 1.0)])).is_err());
    assert!(validate_custom_points(&points(&[(0.0, f64::NAN), (1.0, 1.0)])).is_err());
    assert!(validate_custom_points(&points(&[(0.0, 0.5), (0.0, 0.5)])).is_ok());
}

#[test]
fn one_euro_starts_over_where_no_time_passed() {
    let caps = dummy_caps();
    let profile = smoothed(SmoothingMode::OneEuro(OneEuroParams::default()));
    let mut state = ProcessorState::new();
    run(&profile, &make_sample(0.0, 0.0, 0.0, 10_000_000), &caps, &mut state);
    let again = make_sample(1.0, 1.0, 0.0, 10_000_000);
    assert_eq!(profile.plan(&again, &state).smoothing, SmoothingPlan::Start);
    let processed = run(&profile, &again, &caps, &mut state);
    assert_eq!(processed.x_filtered, Some(number(1.0)));
    assert_eq!(processed.y_filtered, Some(number(1.0)));
    let (x, _) = state.one_euro.unwrap();
    assert_eq!(x, OneEuroAxisState { prev_filtered: number(1.0), prev_dx: number(0.0) });
}

#[test]
fn empty_pressure_windows_give_no_pressure() {
    let mut profile = CalibrationProfile::identity();
    profile.pressure = PressureCurve {
        enabled: true,
        pressure_min: 500,
        pressure_max: 500,
        curve: CurveKind::Custom(points(&[(0.0, 0.4), (1.0, 1.0)])),
    };
    let sample = make_sample(0.5, 0.5, 0.9, 0);
    let mut state = ProcessorState::new();
    assert_eq!(
        profile.plan(&sample, &state).pressure,
        PressurePlan::Keep(number(0.0))
    );
    let processed = run(&profile, &sample, &dummy_caps(), &mut state);
    assert_eq!(processed.pressure, number(0.0));
}

#[test]
fn curves_cannot_leave_the_range_of_pressure() {
    let mut profile = CalibrationProfile::identity();
    profile.pressure.enabled = true;
    let sample = make_sample(0.5, 0.5, 0.5, 0);
    let values = |pressure: f64| StageValues {
        x: number(0.0),
        y: number(0.0),
        pressure: number(pressure),
        tilt_x: number(0.0),
        tilt_y: number(0.0),
        twist: number(0.0),
        filtered: (
            OneEuroAxisState { prev_filtered: number(0.0), prev_dx: number(0.0) },
            OneEuroAxisState { prev_filtered: number(0.0), prev_dx: number(0.0) },
        ),
    };
    for (shaped, kept) in [(0.25, 0.25), (1.5, 1.0), (-2.0, 0.0), (f64::NAN, 0.0), (1.0, 1.0)] {
        let mut state = ProcessorState::new();
        let processed = profile.apply(&sample, &dummy_caps(), &mut state, &values(shaped));
        assert_eq!(value(processed.pressure), kept);
    }
}
