//! Axes, samples, backends and the numbers they carry.
use stylus_input_capture::device::backend::{EvdevBackend, MacosBackend};
use stylus_input_capture::device::capabilities::{AxisInfo, AxisUnit, DeviceCapabilities};
use stylus_input_capture::device::error::BackendError;
use stylus_input_capture::device::normalize::{normalize, UnitRatio};
use stylus_input_capture::device::sample::PenSample;
use stylus_input_capture::double::Double;
use stylus_input_capture::text::{
    contains, decimal, hexadecimal, is_blank, is_json, parse_u8, same_text,
    strip_prefix,
};

fn number(value: f64) -> Double {
    Double::from_bits(value.to_bits())
}

fn normalized(raw: i64, min: i64, max: i64) -> f64 {
    let UnitRatio { numerator, denominator } = normalize(raw, min, max);
    numerator as f64 / denominator as f64
}

#[test]
fn normalize_min_value() {
    assert_eq!(normalized(0, 0, 1000), 0.0);
}

#[test]
fn normalize_max_value() {
    assert_eq!(normalized(1000, 0, 1000), 1.0);
}

#[test]
fn normalize_midpoint() {
    let result = normalized(500, 0, 1000);
    assert!((result - 0.5).abs() < 1e-12, "expected ~0.5, got {result}");
}

#[test]
fn normalize_clamp_below() {
    assert_eq!(normalized(-50, 0, 1000), 0.0);
}

#[test]
fn normalize_clamp_above() {
    assert_eq!(normalized(1500, 0, 1000), 1.0);
}

#[test]
fn normalize_degenerate_max_equals_min() {
    assert_eq!(normalized(42, 42, 42), 0.0);
    assert_eq!(normalized(0, 5, 5), 0.0);
}

#[test]
fn normalize_non_zero_min() {
    let result = normalized(150, 100, 200);
    assert!((result - 0.5).abs() < 1e-12, "expected ~0.5, got {result}");
}

#[test]
fn descending_ranges_run_backwards() {
    assert_eq!(normalized(10, 10, 0), 0.0);
    assert_eq!(normalized(0, 10, 0), 1.0);
    assert_eq!(normalized(i64::MAX, i64::MIN, i64::MAX), 1.0);
}

fn copied<T: Copy>(value: &T) -> T {
    *value
}

#[test]
fn pen_sample_is_copy() {
    let copy: fn(&PenSample) -> PenSample = copied::<PenSample>;
    assert_eq!(std::mem::size_of_val(&copy), std::mem::size_of::<usize>());
}

#[test]
fn unsupported_axes_exclude_nothing() {
    let mut axis = AxisInfo {
        min: 0,
        max: 10,
        resolution: number(0.0),
        unit: AxisUnit::Inch,
        supported: true,
    };
    assert!(axis.excludes(-1) && axis.excludes(11));
    assert!(!axis.excludes(0) && !axis.excludes(10));
    axis.supported = false;
    assert!(!axis.excludes(11));
}

#[test]
fn descriptions_can_be_duplicated() {
    let axis = AxisInfo {
        min: 0,
        max: 10,
        resolution: number(0.5),
        unit: AxisUnit::Centimeter,
        supported: true,
    };
    let caps = DeviceCapabilities {
        device_name: "A".to_string(),
        driver_version: "B".to_string(),
        x: axis,
        y: axis,
        z: axis,
        pressure: axis,
        tangent_pressure: axis,
        azimuth: axis,
        altitude: axis,
        twist: axis,
        rotation: axis,
        max_packet_rate_hz: 5,
        queue_size: 6,
    };
    let again = caps.duplicate();
    assert_eq!(again.device_name, "A");
    assert_eq!(again.driver_version, "B");
    assert_eq!((again.x, again.queue_size), (caps.x, 6));
}

#[test]
fn missing_backends_say_so() {
    let mut evdev = EvdevBackend::new();
    assert!(matches!(
        evdev.capabilities(),
        Err(BackendError::NotImplemented { backend: "evdev" })
    ));
    assert!(evdev.start().is_err() && evdev.stop().is_err());
    let error = MacosBackend::new().start().unwrap_err();
    assert!(error.message().contains("macOS"));
    assert!(!BackendError::NoDevice.message().is_empty());
}

#[test]
fn doubles_compare_like_numbers() {
    let values = [
        f64::NEG_INFINITY,
        -1.5,
        -f64::MIN_POSITIVE,
        -5e-324,
        -0.0,
        0.0,
        5e-324,
        0.1,
        1.0,
        1.0 + f64::EPSILON,
        96.5,
        f64::MAX,
        f64::INFINITY,
        f64::NAN,
    ];
    for a in values {
        assert_eq!(number(a).is_nan(), a.is_nan());
        for b in values {
            assert_eq!(number(a).lt(number(b)), a < b, "{a} < {b}");
            assert_eq!(number(a).le(number(b)), a <= b, "{a} <= {b}");
        }
        for n in [0u8, 1, 2, 96, 255] {
            assert_eq!(number(a).exceeded_by(n), f64::from(n) > a, "{n} > {a}");
        }
        if !a.is_nan() {
            assert_eq!(number(a).clamp(number(0.0), number(1.0)), number(a.clamp(0.0, 1.0)));
        }
    }
    assert!(number(0.5).within(Double::zero(), Double::one()));
    assert!(!number(1.5).within(Double::zero(), Double::one()));
}

#[test]
fn doubles_round_like_numbers() {
    for value in [-3.0, -0.5, 0.0, 0.49, 0.5, 1.5, 2.5, 47.999, 95.5, 96.4, 1e300, f64::NAN] {
        let expected = f64::round(value).clamp(0.0, 96.0) as u8;
        assert_eq!(number(value).rounded(96), expected, "{value}");
    }
}

#[test]
fn numbers_are_written_and_read() {
    assert_eq!(decimal(0), "0");
    assert_eq!(decimal(u64::MAX), u64::MAX.to_string());
    assert_eq!(hexadecimal(0, 4), "0000");
    assert_eq!(hexadecimal(0x56A, 4), "056a");
    assert_eq!(hexadecimal(0xABCDEF, 4), "abcdef");
    assert_eq!(hexadecimal(0, 0), "");
    for text in ["0", "7", "007", "255", "256", "+3", "-3", "", "x", "+"] {
        assert_eq!(parse_u8(text), text.parse::<u8>().ok(), "{text}");
    }
}

#[test]
fn texts_are_searched() {
    assert!(contains("loopMIDI port", "MIDI"));
    assert!(!contains("loopMIDI", "midi"));
    assert!(contains("a", ""));
    assert_eq!(strip_prefix("pen:tip", "pen:").as_deref(), Some("tip"));
    assert_eq!(strip_prefix("tip", "pen:").as_deref(), None);
    assert!(same_text("a", "a") && !same_text("a", "b"));
    assert!(is_blank(" \t\n") && !is_blank(" a"));
    assert!(is_json(Some("JSON")) && is_json(Some("json")));
    assert!(!is_json(Some("toml")) && !is_json(None));
}
