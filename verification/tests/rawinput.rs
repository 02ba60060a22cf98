//! HID reports, descriptors and the capture state.
use std::collections::HashSet;

use stylus_input_capture::device::capabilities::AxisUnit;
use stylus_input_capture::device::normalize::UnitRatio;
use stylus_input_capture::device::sample::{PenSample, SampleEvent, ToolKind};
use stylus_input_capture::double::Double;
use stylus_input_capture::rawinput::block::{
    begin_block, complete_samples, decode_reports, take_samples, ReportNumbers,
};
use stylus_input_capture::rawinput::caps::{
    capabilities_from_profile, AxisRange, ProfileCaps, ProfileKind,
};
use stylus_input_capture::rawinput::capture::{
    drain_step, emit_proximity_transition, field_value, handle_device_change, measure_rate,
    needs_single_read, next_block, qpc_frequency, qpc_ns, range_for, reports_in_block,
    take_sample, usage_listed, CaptureState, DrainStep, BATCH_REPORTS, BLOCK_HID, DRAIN_FAILED,
    GIDC_ARRIVAL, GIDC_REMOVAL,
};
use stylus_input_capture::rawinput::decode::{
    angles_fit, decode_report, extract_bits, sample_of, sign_extend, BitfieldReader, FieldLayout,
    PenReport,
    TiltSource, UsageReader, UsageSnapshot,
};
use stylus_input_capture::rawinput::enumerate::{
    build_pad_profile, build_profile, digitizer_vendor_ids, parse_caps, parse_pad_buttons,
    resolution_from_cap, unit_exponent, ButtonCap, DeviceInfo, DeviceProfile, ProfileMap,
    ResolutionParts, UsageSpan, ValueCap, MAX_PAD_BUTTONS,
};
use stylus_input_capture::rawinput::hid::{
    is_vendor_page, BUTTON_BIT_BARREL, BUTTON_BIT_ERASER, BUTTON_BIT_TIP, PAGE_CONSUMER,
    PAGE_DIGITIZER, PAGE_GENERIC_DESKTOP, TLC_PEN, USAGE_ALTITUDE, USAGE_AZIMUTH,
    USAGE_BARREL_PRESSURE, USAGE_BARREL_SWITCH, USAGE_CONSUMER_CONTROL, USAGE_ERASER,
    USAGE_INVERT, USAGE_IN_RANGE, USAGE_TIP_PRESSURE, USAGE_TIP_SWITCH, USAGE_TWIST, USAGE_X,
    USAGE_X_TILT, USAGE_Y, USAGE_Y_TILT,
};
use stylus_input_capture::rawinput::pad::button_edges;

const BUTTONS: &[(u16, u16)] = &[(0x09, 1), (0x09, 2), (0x09, 3), (0x0C, 0xE9)];

fn number(value: f64) -> Double {
    Double::from_bits(value.to_bits())
}

fn value(number: Double) -> f64 {
    f64::from_bits(number.to_bits())
}

/// The tilt in degrees of an orientation in tenths of a degree.
fn derived_tilt(azimuth: i32, altitude: i32) -> (f64, f64) {
    if altitude == 900 {
        return (0.0, 0.0);
    }
    let azimuth = (f64::from(azimuth) / 10.0).to_radians();
    let slope = (f64::from(altitude) / 10.0).to_radians().tan();
    ((azimuth.cos() / slope).atan().to_degrees(), (azimuth.sin() / slope).atan().to_degrees())
}

/// The places and the tilt of a report as numbers.
fn numbers(report: &PenReport) -> ReportNumbers {
    let tilt = match report.tilt {
        TiltSource::Degrees { x, y } => {
            (number(f64::from(x.unwrap_or(0))), number(f64::from(y.unwrap_or(0))))
        }
        TiltSource::Orientation { azimuth, altitude } => {
            let (x, y) = derived_tilt(azimuth, altitude);
            (number(x), number(y))
        }
        _ => (number(-1.0), number(-1.0)),
    };
    ReportNumbers {
        x_norm: number(fraction(report.x_place)),
        y_norm: number(fraction(report.y_place)),
        pressure_norm: number(fraction(report.pressure_place)),
        tilt,
    }
}

fn completed(report: &PenReport) -> PenSample {
    let n = numbers(report);
    sample_of(report, n.x_norm, n.y_norm, n.pressure_norm, n.tilt)
}

fn fraction(ratio: UnitRatio) -> f64 {
    ratio.numerator as f64 / ratio.denominator as f64
}

#[test]
fn press_and_release_produce_edges() {
    assert_eq!(button_edges(BUTTONS, &[], &[(0x09, 2)]), vec![(1, true)]);
    assert_eq!(button_edges(BUTTONS, &[(0x09, 2)], &[]), vec![(1, false)]);
}

#[test]
fn unchanged_state_produces_no_edges() {
    let held = [(0x09, 1), (0x0C, 0xE9)];
    assert!(button_edges(BUTTONS, &held, &held).is_empty());
    assert!(button_edges(BUTTONS, &[], &[]).is_empty());
}

#[test]
fn simultaneous_changes_emit_one_edge_each() {
    let edges = button_edges(BUTTONS, &[(0x09, 1)], &[(0x09, 3), (0x0C, 0xE9)]);
    assert_eq!(edges, vec![(0, false), (2, true), (3, true)]);
}

#[test]
fn undeclared_usages_are_ignored() {
    assert!(button_edges(BUTTONS, &[], &[(0x09, 99)]).is_empty());
}

#[test]
fn index_follows_button_list_position() {
    let edges = button_edges(BUTTONS, &[], &[(0x0C, 0xE9)]);
    assert_eq!(edges, vec![(3, true)]);
}

#[test]
fn going_back_turns_the_edges_around() {
    let prev = [(0x09, 1)];
    let curr = [(0x09, 3)];
    let there = button_edges(BUTTONS, &prev, &curr);
    let back = button_edges(BUTTONS, &curr, &prev);
    assert_eq!(there, vec![(0, false), (2, true)]);
    assert_eq!(back, vec![(0, true), (2, false)]);
}

#[test]
fn buttons_past_the_last_index_are_not_told() {
    let buttons: Vec<(u16, u16)> = (0..300).map(|usage| (0x09, usage)).collect();
    assert_eq!(button_edges(&buttons, &[], &[(0x09, 255), (0x09, 256)]), vec![(255, true)]);
}

#[test]
fn sign_extend_handles_negative_8bit() {
    assert_eq!(sign_extend(0xE2, 8), -30);
    assert_eq!(sign_extend(0x2D, 8), 45);
    assert_eq!(sign_extend(0xFFFF, 16), -1);
    assert_eq!(sign_extend(0x7FFF, 16), 32767);
}

#[test]
fn sign_extend_passes_through_full_width() {
    assert_eq!(sign_extend(12345, 32), 12345);
    assert_eq!(sign_extend(0, 0), 0);
    assert_eq!(sign_extend(0xFFFF_FFFF, 32), -1);
}

#[test]
fn patterns_read_back_as_the_number_they_were() {
    for number in [-512i32, -1, 0, 7, 511] {
        assert_eq!(sign_extend((number & 0x3FF) as u32, 10), number);
    }
}

fn pen_profile() -> ProfileCaps {
    ProfileCaps {
        device_name: "Test Pen".into(),
        driver_version: "hid".into(),
        x: Some(AxisRange::new(0, 30000)),
        y: Some(AxisRange::new(0, 20000)),
        pressure: Some(AxisRange::new(0, 8191)),
        x_tilt: Some(AxisRange::new(-90, 90)),
        y_tilt: Some(AxisRange::new(-90, 90)),
        has_in_range: true,
        has_tip: true,
        has_barrel: true,
        has_eraser: true,
        has_invert: true,
        ..Default::default()
    }
}

fn value_layout() -> Vec<FieldLayout> {
    vec![
        FieldLayout::unsigned(PAGE_GENERIC_DESKTOP, USAGE_X, 0, 16),
        FieldLayout::unsigned(PAGE_GENERIC_DESKTOP, USAGE_Y, 16, 16),
        FieldLayout::unsigned(PAGE_DIGITIZER, USAGE_TIP_PRESSURE, 32, 16),
        FieldLayout::signed(PAGE_DIGITIZER, USAGE_X_TILT, 48, 8),
        FieldLayout::signed(PAGE_DIGITIZER, USAGE_Y_TILT, 56, 8),
    ]
}

fn button_layout() -> Vec<FieldLayout> {
    vec![
        FieldLayout::unsigned(PAGE_DIGITIZER, USAGE_TIP_SWITCH, 64, 1),
        FieldLayout::unsigned(PAGE_DIGITIZER, USAGE_BARREL_SWITCH, 65, 1),
        FieldLayout::unsigned(PAGE_DIGITIZER, USAGE_ERASER, 66, 1),
        FieldLayout::unsigned(PAGE_DIGITIZER, USAGE_INVERT, 67, 1),
        FieldLayout::unsigned(PAGE_DIGITIZER, USAGE_IN_RANGE, 68, 1),
    ]
}

fn report(x: u16, y: u16, p: u16, tx: i8, ty: i8, switches: u8) -> [u8; 9] {
    [
        x as u8,
        (x >> 8) as u8,
        y as u8,
        (y >> 8) as u8,
        p as u8,
        (p >> 8) as u8,
        tx as u8,
        ty as u8,
        switches,
    ]
}

fn decode(bytes: &[u8], t_capture_ns: u64, serial: u32) -> PenReport {
    let values = value_layout();
    let buttons = button_layout();
    let reader = BitfieldReader::new(bytes, &values, &buttons);
    let caps = pen_profile();
    assert!(angles_fit(&reader, &caps));
    decode_report(&reader, &caps, t_capture_ns, serial)
}

#[test]
fn decodes_pen_position_pressure_and_tilt() {
    let s = completed(&decode(&report(15000, 5000, 4096, -30, 45, 0x11), 123, 7));

    assert_eq!(s.x_raw, 15000);
    assert_eq!(s.y_raw, 5000);
    assert_eq!(s.pressure_raw, 4096);
    assert!((value(s.x_norm) - 0.5).abs() < 1e-9);
    assert!((value(s.y_norm) - 0.25).abs() < 1e-9);
    assert!((value(s.pressure_norm) - 0.5).abs() < 1e-3);
    assert_eq!(s.tilt_x_deg.map(value), Some(-30.0));
    assert_eq!(s.tilt_y_deg.map(value), Some(45.0));
    assert_eq!(s.serial, 7);
    assert_eq!(s.t_capture_ns, 123);
    assert_eq!(s.t_device_ms, 0);
    assert_eq!(s.z_raw, 0);
    assert_eq!(s.rotation_deci_deg, None);
    assert_eq!(s.tool_serial, 0);
    assert_eq!(s.status, 0);
}

#[test]
fn pen_tip_down_sets_buttons_and_proximity_and_toolkind() {
    let s = decode(&report(0, 0, 0, 0, 0, 0x13), 0, 0);

    assert_eq!(s.buttons & (1 << BUTTON_BIT_TIP), 1 << BUTTON_BIT_TIP);
    assert_eq!(s.buttons & (1 << BUTTON_BIT_BARREL), 1 << BUTTON_BIT_BARREL);
    assert_eq!(s.buttons & (1 << BUTTON_BIT_ERASER), 0);
    assert!(s.in_proximity);
    assert_eq!(s.tool, ToolKind::Pen);
}

#[test]
fn eraser_switch_selects_eraser_toolkind() {
    let s = decode(&report(100, 200, 0, 0, 0, 0x14), 0, 0);

    assert_eq!(s.tool, ToolKind::Eraser);
    assert_eq!(s.buttons & (1 << BUTTON_BIT_ERASER), 1 << BUTTON_BIT_ERASER);
}

#[test]
fn invert_usage_selects_eraser_toolkind() {
    let s = decode(&report(0, 0, 0, 0, 0, 0x18), 0, 0);
    assert_eq!(s.tool, ToolKind::Eraser);
}

#[test]
fn out_of_range_clears_proximity() {
    let s = decode(&report(0, 0, 0, 0, 0, 0x00), 0, 0);
    assert!(!s.in_proximity);
}

#[test]
fn missing_axes_take_defaults() {
    let caps = ProfileCaps {
        x: Some(AxisRange::new(0, 1000)),
        y: Some(AxisRange::new(0, 1000)),
        ..Default::default()
    };
    let values = vec![
        FieldLayout::unsigned(PAGE_GENERIC_DESKTOP, USAGE_X, 0, 16),
        FieldLayout::unsigned(PAGE_GENERIC_DESKTOP, USAGE_Y, 16, 16),
    ];
    let bytes: [u8; 4] = [232, 3, 244, 1];
    let reader = BitfieldReader::new(&bytes, &values, &[]);

    let whole = completed(&decode_report(&reader, &caps, 0, 0));
    assert_eq!((whole.tilt_x_deg, whole.tilt_y_deg), (None, None));
    assert_eq!((whole.azimuth_deci_deg, whole.altitude_deci_deg), (None, None));
    let s = decode_report(&reader, &caps, 0, 0);
    assert_eq!(s.x_raw, 1000);
    assert!((fraction(s.x_place) - 1.0).abs() < 1e-9);
    assert_eq!(s.pressure_raw, 0);
    assert_eq!(s.tilt, TiltSource::Absent);
    assert_eq!(s.twist_deci_deg, None);
    assert_eq!(s.tangent_pressure_raw, None);
    assert!(s.in_proximity);
    assert_eq!(s.tool, ToolKind::Pen);
}

#[test]
fn azimuth_altitude_derive_tilt_when_no_direct_tilt() {
    let caps = ProfileCaps {
        x: Some(AxisRange::new(0, 1000)),
        y: Some(AxisRange::new(0, 1000)),
        azimuth: Some(AxisRange::new(0, 359)),
        altitude: Some(AxisRange::new(0, 90)),
        ..Default::default()
    };
    let values = vec![
        FieldLayout::unsigned(PAGE_DIGITIZER, USAGE_AZIMUTH, 0, 16),
        FieldLayout::unsigned(PAGE_DIGITIZER, USAGE_ALTITUDE, 16, 16),
    ];
    let bytes: [u8; 4] = [0, 0, 45, 0];
    let reader = BitfieldReader::new(&bytes, &values, &[]);

    let s = decode_report(&reader, &caps, 0, 0);
    assert_eq!(s.azimuth_deci_deg(), Some(0));
    assert_eq!(s.altitude_deci_deg(), Some(450));
    assert_eq!(s.tilt, TiltSource::Orientation { azimuth: 0, altitude: 450 });
    let sample = completed(&s);
    let tx = f64::from_bits(sample.tilt_x_deg.unwrap().to_bits());
    let ty = f64::from_bits(sample.tilt_y_deg.unwrap().to_bits());
    assert!((tx - 45.0).abs() < 1e-6, "tilt_x={tx}");
    assert!(ty.abs() < 1e-6, "tilt_y={ty}");
}

#[test]
fn wheels_make_an_airbrush_and_twist_counts_in_tenths() {
    let caps = ProfileCaps {
        tangent_pressure: Some(AxisRange::new(0, 255)),
        twist: Some(AxisRange::new(0, 359)),
        pressure: Some(AxisRange::new(-10, 10)),
        ..Default::default()
    };
    let values = vec![
        FieldLayout::unsigned(PAGE_DIGITIZER, USAGE_BARREL_PRESSURE, 0, 8),
        FieldLayout::unsigned(PAGE_DIGITIZER, USAGE_TWIST, 8, 16),
        FieldLayout::signed(PAGE_DIGITIZER, USAGE_TIP_PRESSURE, 24, 8),
    ];
    let bytes: [u8; 4] = [200, 10, 1, 0xF6];
    let reader = BitfieldReader::new(&bytes, &values, &[]);
    let s = decode_report(&reader, &caps, 0, 0);
    assert_eq!(s.tool, ToolKind::Airbrush);
    assert_eq!(s.tangent_pressure_raw, Some(200));
    assert_eq!(s.twist_deci_deg, Some(2660));
    assert_eq!(s.pressure_raw, 0);
    assert_eq!(fraction(s.pressure_place), 0.5);
}

#[test]
fn angles_too_large_for_tenths_are_told() {
    let caps = ProfileCaps { twist: Some(AxisRange::new(0, 1)), ..Default::default() };
    let values = vec![FieldLayout::unsigned(PAGE_DIGITIZER, USAGE_TWIST, 0, 32)];
    let large: [u8; 4] = [0, 0, 0, 0x7F];
    assert!(!angles_fit(&BitfieldReader::new(&large, &values, &[]), &caps));
    let small: [u8; 4] = [0, 1, 0, 0];
    assert!(angles_fit(&BitfieldReader::new(&small, &values, &[]), &caps));
}

#[test]
fn bits_are_read_least_significant_first() {
    let bytes: [u8; 3] = [0b1010_0110, 0b0000_0011, 0xFF];
    assert_eq!(extract_bits(&bytes, 0, 8), 0xA6);
    assert_eq!(extract_bits(&bytes, 0, 16), 0x03A6);
    assert_eq!(extract_bits(&bytes, 4, 6), 0b11_1010);
    assert_eq!(extract_bits(&bytes, 16, 16), 0x00FF);
    assert_eq!(extract_bits(&bytes, 0, 0), 0);
}

#[test]
fn readers_find_the_first_field_of_a_usage() {
    let values = vec![
        FieldLayout::unsigned(PAGE_DIGITIZER, USAGE_TWIST, 0, 4),
        FieldLayout::unsigned(PAGE_DIGITIZER, USAGE_TWIST, 4, 4),
    ];
    let switches = vec![FieldLayout::unsigned(PAGE_DIGITIZER, USAGE_ERASER, 3, 0)];
    let bytes: [u8; 1] = [0x3A];
    let reader = BitfieldReader::new(&bytes, &values, &switches);
    assert_eq!(reader.value(PAGE_DIGITIZER, USAGE_TWIST), Some(0xA));
    assert_eq!(reader.value(PAGE_DIGITIZER, USAGE_X_TILT), None);
    assert!(reader.button(PAGE_DIGITIZER, USAGE_ERASER));
    assert!(!reader.button(PAGE_DIGITIZER, USAGE_TIP_SWITCH));
}

#[test]
fn snapshots_decode_like_reports() {
    let bytes = report(15000, 5000, 4096, -30, 45, 0x13);
    let snapshot = UsageSnapshot {
        values: vec![
            (PAGE_GENERIC_DESKTOP, USAGE_X, 15000),
            (PAGE_GENERIC_DESKTOP, USAGE_Y, 5000),
            (PAGE_DIGITIZER, USAGE_TIP_PRESSURE, 4096),
            (PAGE_DIGITIZER, USAGE_X_TILT, -30),
            (PAGE_DIGITIZER, USAGE_Y_TILT, 45),
        ],
        pressed: vec![
            (PAGE_DIGITIZER, USAGE_TIP_SWITCH),
            (PAGE_DIGITIZER, USAGE_BARREL_SWITCH),
            (PAGE_DIGITIZER, USAGE_IN_RANGE),
        ],
    };
    assert_eq!(decode_report(&snapshot, &pen_profile(), 9, 8), decode(&bytes, 9, 8));
    assert_eq!(snapshot.value(PAGE_DIGITIZER, USAGE_TWIST), None);
    assert!(!snapshot.button(PAGE_DIGITIZER, USAGE_ERASER));
}

fn sample_profile() -> ProfileCaps {
    ProfileCaps {
        device_name: "Test Digitizer".into(),
        driver_version: "hid".into(),
        x: Some(AxisRange { min: 0, max: 30000, resolution: number(100.0), bit_size: 16 }),
        y: Some(AxisRange::new(0, 20000)),
        pressure: Some(AxisRange::new(0, 8191)),
        twist: Some(AxisRange::new(0, 3600)),
        ..Default::default()
    }
}

#[test]
fn present_axes_are_supported_with_logical_range() {
    let caps = capabilities_from_profile(&sample_profile(), 0);
    assert!(caps.x.supported);
    assert_eq!(caps.x.min, 0);
    assert_eq!(caps.x.max, 30000);
    assert_eq!(caps.x.resolution, number(100.0));
    assert!(caps.pressure.supported);
    assert_eq!(caps.pressure.max, 8191);
}

#[test]
fn absent_axes_are_unsupported() {
    let caps = capabilities_from_profile(&sample_profile(), 0);
    assert!(!caps.azimuth.supported);
    assert!(!caps.altitude.supported);
    assert!(!caps.tangent_pressure.supported);
    assert!(!caps.z.supported);
    assert!(!caps.rotation.supported);
}

#[test]
fn twist_axis_uses_degree_unit() {
    let caps = capabilities_from_profile(&sample_profile(), 0);
    assert!(caps.twist.supported);
    assert_eq!(caps.twist.unit, AxisUnit::Degree);
}

#[test]
fn queue_size_is_passed_through() {
    let caps = capabilities_from_profile(&sample_profile(), 512);
    assert_eq!(caps.queue_size, 512);
    assert_eq!(caps.max_packet_rate_hz, 0);
    assert_eq!(caps.device_name, "Test Digitizer");
    assert_eq!(caps.driver_version, "hid");
}

#[test]
fn signedness_follows_logical_min() {
    assert!(AxisRange::new(-90, 90).is_signed());
    assert!(!AxisRange::new(0, 8191).is_signed());
}

fn proximities(events: &[SampleEvent]) -> Vec<bool> {
    events
        .iter()
        .filter_map(|event| match event {
            SampleEvent::Proximity { in_range, .. } => Some(*in_range),
            _ => None,
        })
        .collect()
}

#[test]
fn proximity_emits_only_on_transition() {
    let mut state = CaptureState::new(ProfileMap::new(), 1);
    let mut events = Vec::new();
    let key = 1isize;
    for r in [true, true, true, false, false, true] {
        emit_proximity_transition(&mut state, key, r, 0, &mut events);
    }
    assert_eq!(proximities(&events), vec![true, false, true]);
}

#[test]
fn removal_emits_leaving_proximity_when_active() {
    let mut state = CaptureState::new(ProfileMap::new(), 1);
    let mut events = Vec::new();
    let key = 5isize;
    state.prox.insert(key, true);
    handle_device_change(&mut state, GIDC_REMOVAL, key, None, &mut events);
    assert_eq!(proximities(&events), vec![false]);
    assert!(!state.prox.contains_key(&key));
}

fn profile(handle: isize, caps: ProfileCaps) -> DeviceProfile {
    DeviceProfile { handle, preparsed: vec![1, 2], caps }
}

fn pen_sample(in_proximity: bool) -> PenSample {
    PenSample {
        t_capture_ns: 0,
        t_device_ms: 0,
        serial: 0,
        x_raw: 0,
        y_raw: 0,
        z_raw: 0,
        x_norm: number(0.0),
        y_norm: number(0.0),
        pressure_raw: 0,
        pressure_norm: number(0.0),
        tangent_pressure_raw: None,
        azimuth_deci_deg: None,
        altitude_deci_deg: None,
        twist_deci_deg: None,
        tilt_x_deg: None,
        tilt_y_deg: None,
        rotation_deci_deg: None,
        buttons: 0,
        tool: ToolKind::Pen,
        tool_serial: 3,
        in_proximity,
        status: 0,
    }
}

#[test]
fn arrivals_are_described_and_devices_keep_apart() {
    let mut state = CaptureState::new(ProfileMap::new(), 1);
    let mut events = Vec::new();
    handle_device_change(
        &mut state,
        GIDC_ARRIVAL,
        7,
        Some(profile(7, sample_profile())),
        &mut events,
    );
    assert!(matches!(
        &events[..],
        [SampleEvent::Capabilities(caps)]
            if caps.device_name == "Test Digitizer" && caps.queue_size == BATCH_REPORTS
    ));
    assert!(state.profiles.contains_key(&7));

    events.clear();
    handle_device_change(&mut state, GIDC_ARRIVAL, 8, None, &mut events);
    handle_device_change(&mut state, 99, 7, None, &mut events);
    handle_device_change(&mut state, GIDC_REMOVAL, 8, None, &mut events);
    assert!(events.is_empty());
    assert!(state.profiles.contains_key(&7));
}

#[test]
fn samples_come_after_their_proximity() {
    let mut state = CaptureState::new(ProfileMap::new(), 1);
    let mut events = Vec::new();
    take_sample(&mut state, 4, pen_sample(true), 10, &mut events);
    take_sample(&mut state, 4, pen_sample(true), 20, &mut events);
    assert!(matches!(
        &events[..],
        [
            SampleEvent::Proximity { in_range: true, tool_serial: 3 },
            SampleEvent::Sample(_),
            SampleEvent::Sample(_)
        ]
    ));
    assert_eq!(state.active_handle, 4);
    assert_eq!(state.count_since_first, 2);
    assert_eq!(state.first_ns, 10);
}

#[test]
fn rates_are_measured_once() {
    let mut profiles = ProfileMap::new();
    profiles.insert(4, profile(4, sample_profile()));
    let mut state = CaptureState::new(profiles, 1);
    let mut events = Vec::new();
    for i in 0..=200u64 {
        assert!(state.can_count());
        measure_rate(&mut state, 4, 1_000 + i * 10_000_000, &mut events);
    }
    assert!(matches!(
        &events[..],
        [SampleEvent::Capabilities(caps)] if caps.max_packet_rate_hz == 101
    ));
    assert!(state.rate_emitted);
}

#[test]
fn serials_count_up_and_wrap() {
    let mut state = CaptureState::new(ProfileMap::new(), 1);
    assert_eq!(state.next_serial(), 1);
    assert_eq!(state.next_serial(), 2);
    state.serial = u32::MAX;
    assert_eq!(state.next_serial(), 0);
}

#[test]
fn unknown_devices_are_learned_from_their_reports() {
    let mut state = CaptureState::new(ProfileMap::new(), 1);
    assert!(!state.adopt(9, None));
    assert!(state.adopt(9, Some(profile(9, sample_profile()))));
    assert!(state.adopt(9, None));
    assert_eq!(state.profiles[&9].preparsed, vec![1, 2]);
}

#[test]
fn clocks_and_blocks() {
    assert_eq!(qpc_frequency(0), 1);
    assert_eq!(qpc_frequency(10_000_000), 10_000_000);
    assert_eq!(qpc_ns(25_000_000, 10_000_000), 2_500_000_000);
    assert_eq!(qpc_ns(-25_000_000, 10_000_000), (-2_500_000_000_i64) as u64);
    assert_eq!(qpc_ns(-7, -2_000_000_000), 3);
    assert_eq!(qpc_ns(7, -2_000_000_000), u64::MAX - 2);
    assert_eq!(qpc_ns(i64::MAX, 1), (i128::from(i64::MAX) * 1_000_000_000) as u64);
    assert_eq!(qpc_ns(0, i64::MIN), 0);
    assert_eq!(next_block(1000, 48), 1048);
    assert_eq!(next_block(1000, 49), 1056);
    assert_eq!(drain_step(0), DrainStep::Done);
    assert_eq!(drain_step(DRAIN_FAILED), DrainStep::Failed);
    assert_eq!(drain_step(3), DrainStep::Walk(3));
    assert!(needs_single_read(0, 1));
    assert!(!needs_single_read(2, 1));
    assert!(!needs_single_read(0, 0));
    assert_eq!(reports_in_block(BLOCK_HID, 10, 4), 4);
    assert_eq!(reports_in_block(BLOCK_HID, 0, 4), 0);
    assert_eq!(reports_in_block(BLOCK_HID + 1, 10, 4), 0);
}

#[test]
fn fields_are_signed_by_their_range() {
    let mut caps = pen_profile();
    caps.x_tilt = Some(AxisRange { min: -90, max: 90, resolution: number(0.0), bit_size: 8 });
    assert_eq!(range_for(&caps, PAGE_DIGITIZER, USAGE_X_TILT), caps.x_tilt);
    assert_eq!(range_for(&caps, PAGE_GENERIC_DESKTOP, USAGE_X), caps.x);
    assert_eq!(range_for(&caps, PAGE_CONSUMER, USAGE_X), None);
    assert_eq!(field_value(&caps, PAGE_DIGITIZER, USAGE_X_TILT, 0xE2), -30);
    assert_eq!(field_value(&caps, PAGE_GENERIC_DESKTOP, USAGE_X, 0xE2), 0xE2);
    assert!(usage_listed(&[3, 5, 7], 2, 5));
    assert!(!usage_listed(&[3, 5, 7], 2, 7));
}

fn value_cap(usage_page: u16, usage: u16, logical_max: i32) -> ValueCap {
    ValueCap {
        usage_page,
        usages: UsageSpan::One(usage),
        logical_min: 0,
        logical_max,
        physical_min: 0,
        physical_max: 0,
        units_exp: 0,
        bit_size: 16,
        resolution: number(0.0),
    }
}

#[test]
fn descriptors_become_profiles() {
    let caps = parse_caps(
        &[
            value_cap(PAGE_GENERIC_DESKTOP, USAGE_X, 100),
            value_cap(PAGE_GENERIC_DESKTOP, USAGE_X, 200),
            value_cap(PAGE_GENERIC_DESKTOP, USAGE_Y, 300),
            value_cap(PAGE_DIGITIZER, USAGE_TIP_PRESSURE, 1023),
            value_cap(PAGE_DIGITIZER, 0x99, 5),
        ],
        &[
            ButtonCap {
                usage_page: PAGE_DIGITIZER,
                usages: UsageSpan::Range { first: USAGE_TIP_SWITCH, last: USAGE_BARREL_SWITCH },
            },
            ButtonCap { usage_page: PAGE_CONSUMER, usages: UsageSpan::One(USAGE_ERASER) },
        ],
    );
    assert_eq!(caps.x.unwrap().max, 200);
    assert_eq!(caps.y.unwrap().max, 300);
    assert_eq!(caps.pressure.unwrap().bit_size, 16);
    assert_eq!(caps.twist, None);
    assert!(caps.has_tip && caps.has_barrel);
    assert!(!caps.has_eraser && !caps.has_invert && !caps.has_in_range);
}

#[test]
fn unit_exponents_are_signed_nibbles() {
    assert_eq!(unit_exponent(0), 0);
    assert_eq!(unit_exponent(7), 7);
    assert_eq!(unit_exponent(8), -8);
    assert_eq!(unit_exponent(0xFFFF_FFFE), -2);
    let mut cap = value_cap(PAGE_GENERIC_DESKTOP, USAGE_X, 21600);
    assert_eq!(resolution_from_cap(&cap), None);
    cap.physical_max = 216;
    cap.units_exp = 0xF;
    assert_eq!(
        resolution_from_cap(&cap),
        Some(ResolutionParts { logical_span: 21600, physical_span: 216, exponent: -1 })
    );
}

#[test]
fn pad_buttons_are_sorted_and_unique() {
    let caps = [
        ButtonCap { usage_page: 0x0C, usages: UsageSpan::One(0xE9) },
        ButtonCap { usage_page: 0x09, usages: UsageSpan::Range { first: 2, last: 4 } },
        ButtonCap { usage_page: 0x09, usages: UsageSpan::Range { first: 1, last: 2 } },
        ButtonCap { usage_page: 0x09, usages: UsageSpan::Range { first: 9, last: 8 } },
    ];
    assert_eq!(
        parse_pad_buttons(&caps),
        vec![(0x09, 1), (0x09, 2), (0x09, 3), (0x09, 4), (0x0C, 0xE9)]
    );
    let many = [
        ButtonCap { usage_page: 0x09, usages: UsageSpan::Range { first: 100, last: u16::MAX } },
        ButtonCap { usage_page: 0x01, usages: UsageSpan::One(1) },
    ];
    let kept = parse_pad_buttons(&many);
    assert_eq!(kept.len(), MAX_PAD_BUTTONS);
    assert_eq!(kept[0], (0x09, 100));
    assert_eq!(kept[63], (0x09, 163));
    assert!(parse_pad_buttons(&[]).is_empty());
}

fn info(usage_page: u16, usage: u16) -> DeviceInfo {
    DeviceInfo { usage_page, usage, vendor_id: 0x056A, product_id: 0x3F, version: 256 }
}

#[test]
fn pens_get_a_profile() {
    let built = build_profile(
        11,
        Some(info(PAGE_DIGITIZER, TLC_PEN)),
        None,
        Some(vec![9]),
        Some(pen_profile()),
    )
    .unwrap();
    assert_eq!(built.handle, 11);
    assert_eq!(built.preparsed, vec![9]);
    assert_eq!(built.caps.device_name, "HID digitizer");
    assert_eq!(built.caps.driver_version, "hid vid:056a pid:003f ver:256");
    assert_eq!(built.caps.vendor_id, 0x056A);
    assert_eq!(built.caps.kind, ProfileKind::Pen);
    assert_eq!(built.caps.x, pen_profile().x);
    assert!(build_profile(1, None, None, Some(vec![]), Some(pen_profile())).is_none());
    assert!(build_profile(
        1,
        Some(info(PAGE_CONSUMER, USAGE_CONSUMER_CONTROL)),
        None,
        Some(vec![]),
        Some(pen_profile())
    )
    .is_none());
    assert!(build_profile(1, Some(info(PAGE_DIGITIZER, TLC_PEN)), None, None, None).is_none());
}

#[test]
fn pads_need_keys_and_a_tablet_of_their_vendor() {
    let mut profiles = ProfileMap::new();
    let mut caps = pen_profile();
    caps.vendor_id = 0x056A;
    profiles.insert(1, profile(1, caps));
    profiles.insert(2, profile(2, pen_profile()));
    let mut pad = ProfileCaps::default();
    pad.kind = ProfileKind::Pad;
    pad.vendor_id = 0x1111;
    profiles.insert(3, profile(3, pad));
    let vendors = digitizer_vendor_ids(&profiles);
    assert_eq!(vendors, HashSet::from([0x056A]));

    let keys = Some(vec![(0x09, 1)]);
    let consumer = Some(info(PAGE_CONSUMER, USAGE_CONSUMER_CONTROL));
    let built = build_pad_profile(
        5,
        consumer,
        &vendors,
        Some("Keys".to_string()),
        Some(vec![]),
        keys.clone(),
    )
    .unwrap();
    assert_eq!(built.caps.kind, ProfileKind::Pad);
    assert_eq!(built.caps.pad_buttons, vec![(0x09, 1)]);
    assert_eq!(built.caps.device_name, "Keys");
    assert_eq!(built.caps.x, None);

    let vendor_page = Some(info(0xFF0D, 1));
    let nameless =
        build_pad_profile(5, vendor_page, &vendors, None, Some(vec![]), keys.clone()).unwrap();
    assert_eq!(nameless.caps.device_name, "HID tablet pad");

    assert!(build_pad_profile(5, consumer, &HashSet::new(), None, Some(vec![]), keys.clone())
        .is_none());
    assert!(build_pad_profile(5, consumer, &vendors, None, Some(vec![]), Some(vec![])).is_none());
    assert!(build_pad_profile(
        5,
        Some(info(PAGE_DIGITIZER, TLC_PEN)),
        &vendors,
        None,
        Some(vec![]),
        keys
    )
    .is_none());
    assert!(is_vendor_page(0xFF00) && !is_vendor_page(0xFEFF));
}

fn position(x: i32) -> UsageSnapshot {
    UsageSnapshot { values: vec![(PAGE_GENERIC_DESKTOP, USAGE_X, x)], pressed: Vec::new() }
}

#[test]
fn blocks_of_known_tablets_are_decoded() {
    let mut state = CaptureState::new(ProfileMap::new(), 1);
    assert_eq!(begin_block(&mut state, 3, 2, 9, 4, None), 0);
    assert_eq!(begin_block(&mut state, 3, 1, 9, 4, Some(profile(3, pen_profile()))), 0);
    assert!(!state.profiles.contains_key(&3));
    assert_eq!(begin_block(&mut state, 3, 2, 0, 4, Some(profile(3, pen_profile()))), 0);
    assert!(state.profiles.contains_key(&3));
    assert_eq!(begin_block(&mut state, 3, 2, 9, 4, None), 4);
}

#[test]
fn reports_of_a_block_are_numbered_in_order() {
    let mut state = CaptureState::new(ProfileMap::new(), 1);
    begin_block(&mut state, 3, 2, 9, 2, Some(profile(3, pen_profile())));
    state.serial = u32::MAX - 1;
    let reports = decode_reports(&mut state, 3, &[position(10), position(20)], 77);
    let told: Vec<(u32, i32, u64)> =
        reports.iter().map(|r| (r.serial, r.x_raw, r.t_capture_ns)).collect();
    assert_eq!(told, vec![(u32::MAX, 10, 77), (0, 20, 77)]);
    assert_eq!(state.serial, 0);
}

#[test]
fn samples_of_a_block_all_go_out() {
    let mut state = CaptureState::new(ProfileMap::new(), 1);
    let mut out = Vec::new();
    let samples: Vec<PenSample> = [(1, true), (2, true), (3, false)]
        .map(|(serial, near)| PenSample { serial, ..pen_sample(near) })
        .to_vec();
    assert!(state.can_count_all(samples.len()));
    take_samples(&mut state, 3, &samples, 5, &mut out);
    let serials: Vec<u32> = out
        .iter()
        .filter_map(|event| match event {
            SampleEvent::Sample(sample) => Some(sample.serial),
            _ => None,
        })
        .collect();
    assert_eq!(serials, vec![1, 2, 3]);
    assert_eq!(proximities(&out), vec![true, false]);
    assert_eq!(state.count_since_first, 3);

    let mut apart = CaptureState::new(ProfileMap::new(), 1);
    let mut told = Vec::new();
    take_samples(&mut apart, 3, &samples[..1], 5, &mut told);
    take_samples(&mut apart, 3, &samples[1..], 5, &mut told);
    assert_eq!(told.len(), out.len());
    assert_eq!(apart.count_since_first, 3);

    state.count_since_first = u64::MAX - 1;
    assert!(state.can_count_all(1));
    assert!(!state.can_count_all(2));
}

#[test]
fn blocks_become_samples_in_order() {
    let values = value_layout();
    let buttons = button_layout();
    let reports = [report(1, 2, 3, 4, 5, 0x10), report(6, 7, 8, 9, 10, 0x10)];
    let readers: Vec<BitfieldReader> = reports
        .iter()
        .map(|bytes| BitfieldReader::new(bytes, &values, &buttons))
        .collect();
    let mut state = CaptureState::new(ProfileMap::new(), 1);
    state.serial = u32::MAX;
    let built = Some(profile(3, pen_profile()));
    assert_eq!(begin_block(&mut state, 3, BLOCK_HID, 9, 2, built), 2);
    let decoded = decode_reports(&mut state, 3, &readers, 55);
    let told: Vec<ReportNumbers> = decoded.iter().map(numbers).collect();
    let samples = complete_samples(&decoded, &told);
    let mut out = Vec::new();
    take_samples(&mut state, 3, &samples, 55, &mut out);
    let sent: Vec<(u32, u64, i32)> = out
        .iter()
        .filter_map(|event| match event {
            SampleEvent::Sample(s) => Some((s.serial, s.t_capture_ns, s.x_raw)),
            _ => None,
        })
        .collect();
    assert_eq!(sent, vec![(0, 55, 1), (1, 55, 6)]);
    assert_eq!(state.serial, 1);
    assert_eq!(begin_block(&mut state, 4, BLOCK_HID, 9, 2, None), 0);
    assert_eq!(begin_block(&mut state, 3, BLOCK_HID + 1, 9, 2, None), 0);
    assert_eq!(state.serial, 1);
}

#[test]
fn a_run_of_reports_announces_one_rate() {
    let mut state = CaptureState::new(ProfileMap::new(), 1);
    assert!(state.adopt(4, Some(profile(4, sample_profile()))));
    let mut announced = Vec::new();
    for (place, now_ns) in [7, 400_000_007, 999_999_999, 1_250_000_007, 5_000_000_007]
        .into_iter()
        .enumerate()
    {
        let mut events = Vec::new();
        measure_rate(&mut state, 4, now_ns, &mut events);
        for event in events {
            if let SampleEvent::Capabilities(caps) = event {
                announced.push((place, caps.max_packet_rate_hz));
            }
        }
    }
    assert_eq!(announced, vec![(3, 3)]);
}
