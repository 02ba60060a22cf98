//! Events, scales, pads, mappings and the performance engine.
use stylus_input_capture::double::Double;
use stylus_input_capture::midi::engine::{velocity_for, Drag, DragOrigin, MpeEngine, PenReading};
use stylus_input_capture::midi::event::{MidiEvent, CC_TIMBRE, PITCH_BEND_CENTER};
use stylus_input_capture::midi::expression::{
    AxisSource, ExpressionSources, HsvLevels, Rgb, SentExpression,
};
use stylus_input_capture::midi::mapping::{
    default_y_bend_semitones, GridConfig, MappingError, MidiMapping, MpeConfig, NoteMode, TiltAxis,
    TiltCc, VelocitySource,
};
use stylus_input_capture::midi::pads::{is_root, pad_at, pad_note, Pad};
use stylus_input_capture::midi::scale::{in_scale, nearest_in_scale, Fraction, ScaleKind};
use stylus_input_capture::midi::vibrato::{envelope_ms, VibratoConfig, VibratoState};

fn number(value: f64) -> Double {
    Double::from_bits(value.to_bits())
}

fn value(number: Double) -> f64 {
    f64::from_bits(number.to_bits())
}

#[test]
fn note_on_off_encode() {
    assert_eq!(
        MidiEvent::NoteOn { channel: 1, note: 60, velocity: 100 }.to_bytes().as_slice(),
        &[0x91, 60, 100]
    );
    assert_eq!(
        MidiEvent::NoteOff { channel: 0, note: 64, velocity: 0 }.to_bytes().as_slice(),
        &[0x80, 64, 0]
    );
}

#[test]
fn control_change_and_channel_pressure_encode() {
    assert_eq!(
        MidiEvent::ControlChange { channel: 2, controller: CC_TIMBRE, value: 64 }
            .to_bytes()
            .as_slice(),
        &[0xB2, 74, 64]
    );
    assert_eq!(
        MidiEvent::ChannelPressure { channel: 3, value: 120 }.to_bytes().as_slice(),
        &[0xD3, 120]
    );
}

#[test]
fn pitch_bend_splits_into_lsb_msb() {
    assert_eq!(
        MidiEvent::PitchBend { channel: 0, value: PITCH_BEND_CENTER }.to_bytes().as_slice(),
        &[0xE0, 0x00, 0x40]
    );
    assert_eq!(
        MidiEvent::PitchBend { channel: 0, value: 16383 }.to_bytes().as_slice(),
        &[0xE0, 0x7F, 0x7F]
    );
    assert_eq!(
        MidiEvent::PitchBend { channel: 0, value: 0 }.to_bytes().as_slice(),
        &[0xE0, 0x00, 0x00]
    );
}

#[test]
fn channel_is_masked_to_low_nibble() {
    let bytes = MidiEvent::NoteOn { channel: 0x1F, note: 60, velocity: 1 }.to_bytes();
    assert_eq!(bytes.as_slice(), &[0x9F, 60, 1]);
}

/// A sample of the pen as the quantised reading that the engine takes. The
/// vertical way from the strike bends, the horizontal one drives timbre; a
/// glide bends toward the pad under the pen.
fn reading(e: &MpeEngine, m: &MidiMapping, x: f64, y: f64, pressure: f64, active: bool) -> PenReading {
    let col = (x.clamp(0.0, 1.0) * f64::from(m.grid.cols)) as u8;
    let row = (y.clamp(0.0, 1.0) * f64::from(m.grid.rows)) as u8;
    let pad = pad_at(col, row, &m.grid);
    let fraction = |x: f64| (x.clamp(0.0, 1.0) * f64::from(m.grid.cols)).fract();
    let (semitones, rightward) = match e.drag_origin(pad, m) {
        Some(origin) => {
            let rightward = x - value(origin.x);
            match origin.glide {
                Some(toward) => {
                    let within = fraction(x) - fraction(value(origin.x));
                    (f64::from(toward) + within * 2.0, rightward)
                }
                None => ((value(origin.y) - y) * value(m.y_bend_semitones), rightward),
            }
        }
        None => (0.0, 0.0),
    };
    let range = value(m.mpe.pitch_bend_range_semitones);
    let from_pressure = match m.velocity {
        VelocitySource::Pressure { min, max } => scaled_velocity(min, max, pressure),
        VelocitySource::Fixed(v) => v,
    };
    PenReading {
        active,
        pad,
        x: number(x),
        y: number(y),
        pressure_velocity: from_pressure,
        held: Drag { bend: bend_value(semitones, range), timbre: seven_bit(0.5 + rightward) },
        pressure: seven_bit(pressure),
        tilt_x: None,
        tilt_y: None,
    }
}

fn scaled_velocity(min: u8, max: u8, pressure: f64) -> u8 {
    let p = pressure.clamp(0.0, 1.0);
    (f64::from(min) + p * (f64::from(max) - f64::from(min))).round() as u8
}

fn seven_bit(v: f64) -> u8 {
    (v.clamp(0.0, 1.0) * 127.0).round() as u8
}

fn bend_value(semitones: f64, range: f64) -> u16 {
    (8192.0 + (semitones / range).clamp(-1.0, 1.0) * 8191.0).round() as u16
}

fn mapping() -> MidiMapping {
    let mut m = MidiMapping::default();
    m.scale = ScaleKind::Chromatic;
    m.key = 0;
    m.low_note = 48;
    m.grid.rows = 8;
    m.grid.cols = 8;
    m.grid.row_interval_degrees = 12;
    m.mode = NoteMode::Discrete;
    m
}

fn pad_center(row: u8, col: u8) -> (f64, f64) {
    let x = (f64::from(col) + 0.5) / 8.0;
    let y = 1.0 - (f64::from(row) + 0.5) / 8.0;
    (x, y)
}

fn feed(
    e: &mut MpeEngine,
    m: &MidiMapping,
    (x, y): (f64, f64),
    pressure: f64,
    active: bool,
) -> Vec<MidiEvent> {
    let mut out = Vec::new();
    let reading = reading(e, m, x, y, pressure, active);
    e.process(&reading, m, &mut out);
    out
}

fn is_note(event: &MidiEvent) -> bool {
    matches!(event, MidiEvent::NoteOn { .. } | MidiEvent::NoteOff { .. })
}

fn bend_of(events: &[MidiEvent]) -> Option<u16> {
    events.iter().find_map(|ev| match ev {
        MidiEvent::PitchBend { value, .. } => Some(*value),
        _ => None,
    })
}

fn timbre_of(events: &[MidiEvent]) -> Option<u8> {
    events.iter().find_map(|ev| match ev {
        MidiEvent::ControlChange { controller: CC_TIMBRE, value, .. } => Some(*value),
        _ => None,
    })
}

#[test]
fn pad_press_emits_note_on_then_pen_up_note_off() {
    let mut e = MpeEngine::new();
    let m = mapping();

    let center = pad_center(0, 0);
    let out = feed(&mut e, &m, center, 0.8, true);
    assert!(
        matches!(out.first(), Some(MidiEvent::NoteOn { note: 48, .. })),
        "expected NoteOn 48, got {out:?}"
    );
    let on_channel = out[0].channel();
    assert!((m.mpe.member_low..=m.mpe.member_high).contains(&on_channel));
    assert_eq!(e.active_note(), Some(48));
    assert_eq!(e.active_channel(), Some(on_channel));
    assert_eq!(e.active_pad(), Some(Pad { row: 0, col: 0 }));

    let out = feed(&mut e, &m, center, 0.0, false);
    assert_eq!(out, vec![MidiEvent::NoteOff { channel: on_channel, note: 48, velocity: 0 }]);
    assert_eq!(e.active_note(), None);
}

#[test]
fn holding_within_a_pad_sustains_without_retrigger() {
    let mut e = MpeEngine::new();
    let m = mapping();

    let (x, y) = pad_center(3, 4);
    feed(&mut e, &m, (x, y), 0.6, true);
    let note = e.active_note().unwrap();

    let mut out = Vec::new();
    for i in 0..50 {
        let dx = 0.04 * f64::from(i % 5) / 5.0 / 8.0;
        out.extend(feed(&mut e, &m, (x + dx, y), 0.5 + 0.005 * f64::from(i), true));
    }
    assert_eq!(e.active_note(), Some(note), "note must stay held");
    assert!(!out.iter().any(is_note), "holding inside one pad must not retrigger, got {out:?}");
    assert!(
        out.iter().any(|ev| matches!(ev, MidiEvent::ChannelPressure { .. })),
        "pressure changes while held must emit channel pressure"
    );
}

#[test]
fn successive_notes_use_different_member_channels() {
    let mut e = MpeEngine::new();
    let m = mapping();
    let mut channels = Vec::new();

    for col in [0u8, 2, 4] {
        let center = pad_center(0, col);
        let out = feed(&mut e, &m, center, 0.8, true);
        let on = out
            .iter()
            .find_map(|ev| match ev {
                MidiEvent::NoteOn { channel, .. } => Some(*channel),
                _ => None,
            })
            .expect("note on");
        channels.push(on);
        feed(&mut e, &m, center, 0.0, false);
    }

    assert_eq!(channels[0] + 1, channels[1]);
    assert_eq!(channels[1] + 1, channels[2]);
}

#[test]
fn discrete_mode_retriggers_when_sliding_to_a_new_pad() {
    let mut e = MpeEngine::new();
    let m = mapping();

    feed(&mut e, &m, pad_center(0, 0), 0.8, true);
    let out = feed(&mut e, &m, pad_center(0, 2), 0.8, true);

    let has_off_48 = out.iter().any(|e| matches!(e, MidiEvent::NoteOff { note: 48, .. }));
    let has_on_50 = out.iter().any(|e| matches!(e, MidiEvent::NoteOn { note: 50, .. }));
    assert!(has_off_48 && has_on_50, "expected retrigger, got {out:?}");
    assert_eq!(e.active_note(), Some(50));
    assert_eq!(e.active_pad(), Some(Pad { row: 0, col: 2 }));
}

#[test]
fn hold_mode_latches_the_struck_pad_while_sliding() {
    let mut e = MpeEngine::new();
    let mut m = mapping();
    m.mode = NoteMode::Hold;

    let (x0, y0) = pad_center(0, 0);
    feed(&mut e, &m, (x0, y0), 0.8, true);
    let on_channel = e.active_channel().unwrap();

    let mut out = Vec::new();
    for col in 1..8u8 {
        out.extend(feed(&mut e, &m, pad_center(0, col), 0.8, true));
    }
    assert_eq!(e.active_note(), Some(48), "pitch must stay latched");
    assert!(!out.iter().any(is_note), "hold mode must not retrigger while moving, got {out:?}");

    let out = feed(&mut e, &m, (1.0, y0), 0.0, false);
    assert_eq!(out, vec![MidiEvent::NoteOff { channel: on_channel, note: 48, velocity: 0 }]);
}

#[test]
fn bend_is_centered_at_strike_regardless_of_landing_position() {
    let mut e = MpeEngine::new();
    let m = mapping();

    let (x, y) = pad_center(0, 0);
    let off_center = x + 0.3 / 8.0;
    let out = feed(&mut e, &m, (off_center, y), 0.8, true);
    assert_eq!(bend_of(&out), Some(PITCH_BEND_CENTER));
    assert!(matches!(out[0], MidiEvent::NoteOn { .. }));
    assert!(matches!(out[1], MidiEvent::PitchBend { .. }));
    feed(&mut e, &m, (off_center, y), 0.0, false);

    let low = y + 0.3 / 8.0;
    let out = feed(&mut e, &m, (off_center, low), 0.8, true);
    assert_eq!(bend_of(&out), Some(PITCH_BEND_CENTER));
    let out = feed(&mut e, &m, pad_center(0, 2), 0.8, true);
    assert!(matches!(
        out[..3],
        [
            MidiEvent::NoteOff { .. },
            MidiEvent::NoteOn { .. },
            MidiEvent::PitchBend { value: PITCH_BEND_CENTER, .. }
        ]
    ));
    assert_eq!(timbre_of(&out), Some(64));
}

#[test]
fn strikes_ignore_what_the_held_note_was_dragged_to() {
    assert_eq!(Drag::at_strike(), Drag { bend: 8192, timbre: 64 });
    let mut e = MpeEngine::new();
    let m = mapping();
    let (x, y) = pad_center(0, 0);
    let mut sample = reading(&e, &m, x, y, 0.8, true);
    sample.held = Drag { bend: 1, timbre: 2 };
    let mut out = Vec::new();
    e.process(&sample, &m, &mut out);
    assert_eq!((bend_of(&out), timbre_of(&out)), (Some(PITCH_BEND_CENTER), Some(64)));
    out.clear();
    e.process(&sample, &m, &mut out);
    assert_eq!((bend_of(&out), timbre_of(&out)), (Some(1), Some(2)));
}

#[test]
fn expression_needs_a_note_and_a_change() {
    let mut e = MpeEngine::new();
    let m = mapping();
    let (x, y) = pad_center(0, 0);
    let sample = reading(&e, &m, x, y, 0.8, true);
    let drag = Drag { bend: 9000, timbre: 80 };
    let mut out = Vec::new();
    e.emit_expression(&drag, &sample, &m, &mut out);
    assert!(out.is_empty());
    e.process(&sample, &m, &mut out);
    out.clear();
    e.emit_expression(&drag, &sample, &m, &mut out);
    assert_eq!((bend_of(&out), timbre_of(&out)), (Some(9000), Some(80)));
    out.clear();
    e.emit_expression(&drag, &sample, &m, &mut out);
    assert!(out.is_empty());
}

#[test]
fn within_pad_y_drives_cc74_and_pressure_drives_channel_pressure_on_change_only() {
    let mut e = MpeEngine::new();
    let m = mapping();

    let x = 0.5 / 8.0;
    let y_top = 1.0 - 0.999 / 8.0;
    let out = feed(&mut e, &m, (x, y_top), 0.5, true);
    timbre_of(&out).expect("CC74 on press");
    assert!(out.iter().any(|e| matches!(e, MidiEvent::ChannelPressure { value: 64, .. })));

    let out = feed(&mut e, &m, (x, y_top), 0.5, true);
    assert!(!out.iter().any(|e| matches!(e, MidiEvent::ControlChange { controller: 74, .. })));
    assert!(!out.iter().any(|e| matches!(e, MidiEvent::ChannelPressure { .. })));
}

#[test]
fn vertical_drags_bend_from_wherever_the_note_was_struck() {
    let mut e = MpeEngine::new();
    let m = mapping();

    let (x, y) = pad_center(0, 0);
    let low = y + 0.3 / 8.0;
    let out = feed(&mut e, &m, (x, low), 0.8, true);
    assert_eq!(bend_of(&out), Some(PITCH_BEND_CENTER));

    let out = feed(&mut e, &m, (x, low - 0.1 / 8.0), 0.8, true);
    let bend_up = bend_of(&out).expect("bend after moving");
    assert!(bend_up > PITCH_BEND_CENTER);
    assert_eq!(e.last_bend(), Some(bend_up));

    let out = feed(&mut e, &m, (x, low), 0.8, true);
    assert_eq!(bend_of(&out), Some(PITCH_BEND_CENTER));
}

#[test]
fn horizontal_drags_drive_timbre_and_expression_goes_out_on_change_only() {
    let mut e = MpeEngine::new();
    let mut m = mapping();
    m.mode = NoteMode::Hold;

    let (x, y) = pad_center(0, 3);
    let out = feed(&mut e, &m, (x, y), 0.5, true);
    assert_eq!(timbre_of(&out), Some(64));
    assert!(out.iter().any(|e| matches!(e, MidiEvent::ChannelPressure { value: 64, .. })));
    assert_eq!(e.last_cc74(), Some(64));
    assert_eq!(e.last_pressure(), Some(64));

    assert!(feed(&mut e, &m, (x, y), 0.5, true).is_empty());

    let bright = timbre_of(&feed(&mut e, &m, (x + 0.25, y), 0.5, true)).expect("a timbre");
    let dark = timbre_of(&feed(&mut e, &m, (x - 0.25, y), 0.5, true)).expect("a timbre");
    assert!(dark < 64 && 64 < bright);
    assert_eq!(bend_of(&feed(&mut e, &m, (x, y), 0.5, true)), None);
}

#[test]
fn glide_mode_bends_toward_the_pointed_pad() {
    let mut e = MpeEngine::new();
    let mut m = mapping();
    m.mode = NoteMode::Glide;

    feed(&mut e, &m, pad_center(0, 0), 0.8, true);
    let out = feed(&mut e, &m, pad_center(0, 4), 0.8, true);
    assert_eq!(e.active_note(), Some(48), "glide keeps the struck note");
    let bend = bend_of(&out).expect("glide must emit a bend");
    assert!(bend > PITCH_BEND_CENTER, "bend must go up toward pad 4");
    let (x, y) = pad_center(0, 4);
    let further = bend_of(&feed(&mut e, &m, (x + 0.3 / 8.0, y), 0.8, true));
    assert!(further > Some(bend), "the pitch slides on within the pad");
    assert!(!out.iter().any(is_note), "in-range glide must not retrigger, got {out:?}");
}

#[test]
fn glide_strikes_anew_beyond_the_bend_range() {
    let mut e = MpeEngine::new();
    let mut m = mapping();
    m.mode = NoteMode::Glide;
    m.mpe.pitch_bend_range_semitones = number(2.0);
    feed(&mut e, &m, pad_center(0, 0), 0.8, true);
    assert!(!feed(&mut e, &m, pad_center(0, 2), 0.8, true).iter().any(is_note));
    let out = feed(&mut e, &m, pad_center(0, 3), 0.8, true);
    assert!(out.iter().any(|e| matches!(e, MidiEvent::NoteOn { note: 51, .. })));
    assert_eq!(bend_of(&out), Some(PITCH_BEND_CENTER));
}

#[test]
fn silent_pads_off_the_top_of_midi_range_do_not_note_on() {
    let mut e = MpeEngine::new();
    let mut m = mapping();
    m.low_note = 120;

    let out = feed(&mut e, &m, pad_center(1, 0), 0.8, true);
    assert!(out.is_empty(), "out-of-range pad must stay silent, got {out:?}");
    assert_eq!(e.active_note(), None);
}

#[test]
fn all_notes_off_clears_active_and_sweeps_member_channels() {
    let mut e = MpeEngine::new();
    let m = mapping();
    feed(&mut e, &m, pad_center(0, 0), 0.8, true);

    let mut out = Vec::new();
    e.all_notes_off(&m, &mut out);
    assert_eq!(e.active_note(), None);
    assert!(out.iter().any(|e| matches!(e, MidiEvent::NoteOff { note: 48, .. })));
    let off_sweep = out
        .iter()
        .filter(|e| matches!(e, MidiEvent::ControlChange { controller: 123, .. }))
        .count();
    assert_eq!(off_sweep as u8, m.mpe.member_count());
}

#[test]
fn velocity_tracks_pressure_and_is_never_zero() {
    let source = VelocitySource::Pressure { min: 1, max: 127 };
    assert_eq!(velocity_for(source, scaled_velocity(1, 127, 0.0)), 1);
    assert_eq!(velocity_for(source, scaled_velocity(1, 127, 1.0)), 127);
    assert_eq!(velocity_for(VelocitySource::Fixed(0), 64), 1);
    assert_eq!(velocity_for(VelocitySource::Fixed(200), 64), 127);
}

#[test]
fn tilt_drives_its_controller_on_change() {
    let mut e = MpeEngine::new();
    let mut m = mapping();
    m.tilt_cc = Some(TiltCc { controller: 17, axis: TiltAxis::Y, range_deg: number(60.0) });
    let (x, y) = pad_center(0, 0);
    let mut sample = reading(&e, &m, x, y, 0.5, true);
    sample.tilt_x = Some(3);
    sample.tilt_y = Some(99);
    let mut out = Vec::new();
    e.process(&sample, &m, &mut out);
    assert!(out
        .iter()
        .any(|e| matches!(e, MidiEvent::ControlChange { controller: 17, value: 99, .. })));
    assert_eq!(e.last_tilt_cc(), Some(99));
    out.clear();
    sample.held = Drag::at_strike();
    e.process(&sample, &m, &mut out);
    assert!(out.is_empty());
}

#[test]
fn default_mapping_validates() {
    MidiMapping::default().validate().unwrap();
    assert_eq!(MidiMapping::default().y_bend_semitones, default_y_bend_semitones());
}

#[test]
fn rejects_bad_channel_range() {
    let mut m = MidiMapping::default();
    m.mpe.member_low = 10;
    m.mpe.member_high = 3;
    assert!(m.validate().is_err());
}

#[test]
fn rejects_empty_grid() {
    let mut m = MidiMapping::default();
    m.grid.rows = 0;
    assert!(m.validate().is_err());
    m.grid.rows = 8;
    m.grid.cols = 0;
    assert!(m.validate().is_err());
}

#[test]
fn rejects_negative_drag_bend() {
    let mut m = MidiMapping::default();
    m.y_bend_semitones = number(-1.0);
    let refused = m.validate();
    assert!(matches!(
        &refused,
        Err(MappingError::Validation { field, .. }) if *field == "y_bend_semitones"
    ));
    m.y_bend_semitones = number(f64::NAN);
    assert!(m.validate().is_err());
    m.y_bend_semitones = number(0.0);
    assert!(m.validate().is_ok());
}

#[test]
fn bend_ranges_are_positive_numbers() {
    let mut m = MidiMapping::default();
    for refused in [0.0, -0.0, -48.0, f64::NAN] {
        m.mpe.pitch_bend_range_semitones = number(refused);
        assert!(matches!(
            m.validate(),
            Err(MappingError::Validation { field: "mpe.pitch_bend_range_semitones", .. })
        ));
    }
    m.mpe.pitch_bend_range_semitones = number(0.5);
    assert!(m.validate().is_ok());
}

#[test]
fn checking_a_mapping_clamps_its_vibrato() {
    let mut m = MidiMapping::default();
    assert_eq!(m.vibrato, VibratoConfig::default());
    m.vibrato.default_rate_hz = number(100.0);
    m.key = 12;
    assert!(m.validate().is_err());
    assert_eq!(value(m.vibrato.default_rate_hz), 20.0);
    assert_eq!(m.key, 12);
    m.key = 3;
    assert!(m.validate().is_ok());
    assert_eq!(value(m.vibrato.default_rate_hz), 20.0);
}

#[test]
fn member_count_is_inclusive() {
    let m = MpeConfig::default();
    assert_eq!(m.member_count(), 15);
    assert_eq!(m.zone_member_count(), 15);
    assert_eq!(m.zone_member_range(), (1..=15).collect::<Vec<u8>>());
}

fn scaled(scale: ScaleKind) -> MidiMapping {
    let mut m = MidiMapping::default();
    m.scale = scale;
    m.key = 0;
    m.low_note = 48;
    m
}

fn pad_under(x: f64, y: f64, grid: &GridConfig) -> Pad {
    pad_at(
        (x.clamp(0.0, 1.0) * f64::from(grid.cols)) as u8,
        (y.clamp(0.0, 1.0) * f64::from(grid.rows)) as u8,
        grid,
    )
}

#[test]
fn pad_at_corners_and_clamping() {
    let g = GridConfig::default();
    assert_eq!(pad_under(0.0, 1.0, &g), Pad { row: 0, col: 0 });
    assert_eq!(pad_under(0.999, 0.0, &g), Pad { row: 7, col: 7 });
    assert_eq!(pad_under(1.0, 1.0, &g), Pad { row: 0, col: 7 });
    assert_eq!(pad_under(2.0, -1.0, &g), Pad { row: 7, col: 7 });
}

#[test]
fn chromatic_layout_steps_by_semitone_and_row_interval() {
    let mut m = scaled(ScaleKind::Chromatic);
    m.grid.row_interval_degrees = 5;
    assert_eq!(pad_note(Pad { row: 0, col: 0 }, &m), Some(48));
    assert_eq!(pad_note(Pad { row: 0, col: 1 }, &m), Some(49));
    assert_eq!(pad_note(Pad { row: 1, col: 0 }, &m), Some(53));
}

#[test]
fn major_layout_walks_scale_degrees() {
    let m = scaled(ScaleKind::Major);
    let row0: Vec<_> = (0..7).map(|c| pad_note(Pad { row: 0, col: c }, &m).unwrap()).collect();
    assert_eq!(row0, vec![48, 50, 52, 53, 55, 57, 59]);
    assert_eq!(pad_note(Pad { row: 1, col: 0 }, &m), Some(53));
    assert_eq!(pad_note(Pad { row: 0, col: 7 }, &m), Some(60));
}

#[test]
fn out_of_scale_low_note_snaps_up() {
    let mut m = scaled(ScaleKind::Major);
    m.low_note = 49;
    assert_eq!(pad_note(Pad { row: 0, col: 0 }, &m), Some(50));
}

#[test]
fn notes_off_the_top_are_none() {
    let mut m = scaled(ScaleKind::Chromatic);
    m.low_note = 120;
    assert_eq!(pad_note(Pad { row: 0, col: 7 }, &m), Some(127));
    assert_eq!(pad_note(Pad { row: 1, col: 7 }, &m), None);
}

#[test]
fn root_pads_are_flagged() {
    let m = scaled(ScaleKind::Major);
    assert!(is_root(Pad { row: 0, col: 0 }, &m));
    assert!(!is_root(Pad { row: 0, col: 1 }, &m));
    assert!(is_root(Pad { row: 0, col: 7 }, &m));
}

fn continuous(x: f64, low_note: u8, span_notes: u8) -> f64 {
    f64::from(low_note) + x.clamp(0.0, 1.0) * f64::from(span_notes)
}

fn quantize(x: f64, low_note: u8, span_notes: u8, scale: ScaleKind, key: u8) -> u8 {
    let pitch = continuous(x, low_note, span_notes);
    let fraction = match pitch.fract() {
        part if part == 0.0 => Fraction::Whole,
        part if part < 0.5 => Fraction::BelowHalf,
        part if part == 0.5 => Fraction::Half,
        _ => Fraction::AboveHalf,
    };
    nearest_in_scale(pitch as u16, fraction, scale, key)
}

#[test]
fn chromatic_snaps_to_rounded_note() {
    assert_eq!(quantize(0.0, 48, 12, ScaleKind::Chromatic, 0), 48);
    assert_eq!(quantize(1.0, 48, 12, ScaleKind::Chromatic, 0), 60);
    assert_eq!(quantize(0.5, 48, 12, ScaleKind::Chromatic, 0), 54);
}

#[test]
fn major_scale_skips_non_scale_notes() {
    let note = quantize(1.0 / 12.0, 48, 12, ScaleKind::Major, 0);
    assert!(note == 48 || note == 50);
    assert_ne!(note, 49);
    assert!(in_scale(note, 0, ScaleKind::Major.intervals()));
}

#[test]
fn bend_is_residual_to_exact_position() {
    let exact = continuous(2.3 / 12.0, 48, 12);
    let note = quantize(2.3 / 12.0, 48, 12, ScaleKind::Chromatic, 0);
    assert!((exact - 50.3).abs() < 1e-9);
    assert_eq!(note, 50);
    assert!((exact - f64::from(note) - 0.3).abs() < 1e-9);
}

#[test]
fn quantized_note_always_in_scale_across_range() {
    for kind in ScaleKind::ALL {
        for key in 0..12u8 {
            for i in 0..=100 {
                let x = f64::from(i) / 100.0;
                let note = quantize(x, 36, 48, kind, key);
                assert!(
                    in_scale(note, key, kind.intervals()),
                    "{kind:?} key {key}: note {note} not in scale"
                );
            }
        }
    }
}

#[test]
fn out_of_unit_x_is_clamped() {
    assert_eq!(quantize(-1.0, 48, 12, ScaleKind::Chromatic, 0), 48);
    assert_eq!(quantize(2.0, 48, 12, ScaleKind::Chromatic, 0), 60);
}

#[test]
fn of_two_equally_near_notes_the_lower_is_taken() {
    assert_eq!(nearest_in_scale(49, Fraction::Whole, ScaleKind::Major, 0), 48);
    assert_eq!(nearest_in_scale(49, Fraction::Half, ScaleKind::Chromatic, 0), 50);
    assert_eq!(nearest_in_scale(50, Fraction::Half, ScaleKind::MinorPentatonic, 0), 51);
}

#[test]
fn pitches_snap_to_the_nearest_note_of_the_scale() {
    assert_eq!(quantize(0.35, 48, 4, ScaleKind::Major, 0), 50);
    assert_eq!(nearest_in_scale(49, Fraction::BelowHalf, ScaleKind::Major, 0), 50);
    assert_eq!(nearest_in_scale(48, Fraction::AboveHalf, ScaleKind::Major, 0), 48);
    assert_eq!(nearest_in_scale(300, Fraction::Whole, ScaleKind::Chromatic, 0), 127);
    assert_eq!(nearest_in_scale(300, Fraction::Half, ScaleKind::Major, 1), 126);
    assert_eq!(nearest_in_scale(0, Fraction::Whole, ScaleKind::MajorPentatonic, 11), 1);
    for tenths in 0..1400u16 {
        let pitch = f64::from(tenths) / 10.0;
        let note = quantize(pitch / 140.0, 0, 140, ScaleKind::Blues, 5);
        let away = |n: u8| (f64::from(n) - pitch).abs();
        for other in (0..128).filter(|n| in_scale(*n, 5, ScaleKind::Blues.intervals())) {
            assert!(away(note) <= away(other) + 1e-9, "{pitch}: {note}, not {other}");
        }
    }
}

#[test]
fn deadzone_rejects_small_envelope() {
    let c = VibratoConfig::default();
    assert!(!c.engages(number(0.001)));
    assert!(c.engages(number(0.01)));
    assert_eq!(value(c.gesture_deadzone), 0.002);
    assert_eq!(value(c.default_depth_semitones), 0.35);
    assert_eq!(value(c.default_rate_hz), 6.0);
    assert_eq!(value(c.fade_in_ms), 200.0);
    assert_eq!(value(c.depth_smoothing_ms), 50.0);
    assert_eq!(value(c.rate_smoothing_ms), 80.0);
    assert_eq!(value(c.pressure_to_amount), 0.5);
    assert_eq!(value(c.y_axis_to_amount), 1.0);
    assert_eq!(value(c.max_depth_semitones), 1.5);
    assert_eq!(value(c.manual_bend_smoothing_ms), 8.0);
}

#[test]
fn reset_clears_state() {
    let mut state = VibratoState {
        phase: number(1.5),
        depth_current: number(0.4),
        depth_target: number(0.4),
        rate_current: number(6.0),
        slow_y: number(0.3),
        slow_y_initialized: true,
        osc_env: number(0.01),
        fade: number(1.0),
    };
    assert_eq!(state.manual_y(), Some(number(0.3)));
    state.reset();
    assert_eq!(state, VibratoState::default());
    assert_eq!(state.manual_y(), None);
}

#[test]
fn config_clamp_keeps_values_in_range() {
    let mut c = VibratoConfig {
        default_rate_hz: number(100.0),
        max_depth_semitones: number(50.0),
        gesture_deadzone: number(1.0),
        ..Default::default()
    };
    c.clamp();
    assert!(value(c.default_rate_hz) <= 20.0);
    assert!(value(c.max_depth_semitones) <= 12.0);
    assert!(value(c.gesture_deadzone) <= 0.05);

    let mut deep = VibratoConfig {
        default_depth_semitones: number(9.0),
        max_depth_semitones: number(2.0),
        fade_in_ms: number(-1.0),
        y_axis_to_amount: number(9.0),
        manual_bend_smoothing_ms: number(600.0),
        ..Default::default()
    };
    deep.clamp();
    assert_eq!(value(deep.default_depth_semitones), 2.0);
    assert_eq!(value(deep.fade_in_ms), 0.0);
    assert_eq!(value(deep.y_axis_to_amount), 4.0);
    assert_eq!(value(deep.manual_bend_smoothing_ms), 500.0);
    let once = deep;
    deep.clamp();
    assert_eq!(deep, once);
}

#[test]
fn envelopes_rise_faster_than_they_fall() {
    assert_eq!(envelope_ms(number(0.1), number(0.2)), 30);
    assert_eq!(envelope_ms(number(0.2), number(0.1)), 120);
}

#[test]
fn from_engine_none_without_voice() {
    let engine = MpeEngine::new();
    assert!(SentExpression::from_engine(&engine).is_none());
    assert!(ExpressionSources::from_performance(&engine, &mapping()).is_none());
}

#[test]
fn expression_follows_the_pen_where_it_is_mapped() {
    let mut e = MpeEngine::new();
    let mut m = mapping();
    let (x, y) = pad_center(2, 2);
    feed(&mut e, &m, (x, y), 0.5, true);
    let shown = ExpressionSources::from_performance(&e, &m).unwrap();
    assert_eq!((shown.strike_x, shown.strike_y), (number(x), number(y)));
    assert_eq!(shown.timbre, AxisSource::Pen);
    assert_eq!(shown.pressure, AxisSource::Pen);
    assert_eq!(shown.tilt, None);
    m.x_to_cc74 = false;
    m.pressure_to_channel_pressure = false;
    let sent = ExpressionSources::from_performance(&e, &m).unwrap();
    assert_eq!(sent.pressure, AxisSource::Sent(64));
    assert_eq!(sent.timbre, AxisSource::Sent(e.last_cc74().unwrap()));
    let midi = SentExpression::from_engine(&e).unwrap();
    assert_eq!(midi.bend, PITCH_BEND_CENTER);
    assert_eq!(midi.pressure, Some(64));
}

#[test]
fn hue_sectors_give_the_primary_colours() {
    let levels = HsvLevels { full: 255, rising: 0, low: 0, falling: 255 };
    assert_eq!(Rgb::in_sector(0, &levels), Rgb { r: 255, g: 0, b: 0 });
    assert_eq!(Rgb::in_sector(2, &levels), Rgb { r: 0, g: 255, b: 0 });
    assert_eq!(Rgb::in_sector(4, &levels), Rgb { r: 0, g: 0, b: 255 });
    let rising = HsvLevels { full: 255, rising: 255, low: 0, falling: 0 };
    for sector in 0..6 {
        assert_eq!(
            Rgb::in_sector(sector, &rising),
            Rgb::in_sector((sector + 1) % 6, &levels)
        );
    }
    assert_eq!(Rgb::grey(9), Rgb { r: 9, g: 9, b: 9 });
}

#[test]
fn drags_are_measured_from_the_strike() {
    let mut m = MidiMapping { scale: ScaleKind::Chromatic, mode: NoteMode::Glide, ..mapping() };
    let mut e = MpeEngine::new();
    let far = Pad { row: 0, col: 4 };
    assert_eq!(e.drag_origin(far, &m), None);
    let (x, y) = pad_center(0, 0);
    let pen = reading(&e, &m, x, y, 0.8, true);
    e.process(&pen, &m, &mut Vec::new());
    let origin = |glide| Some(DragOrigin { x: pen.x, y: pen.y, glide });
    assert_eq!(e.drag_origin(far, &m), origin(Some(4)));
    assert_eq!(e.drag_origin(Pad { row: 0, col: 0 }, &m), origin(Some(0)));
    m.low_note = 120;
    assert_eq!(e.drag_origin(Pad { row: 7, col: 7 }, &m), origin(Some(0)));
    m.mode = NoteMode::Hold;
    assert_eq!(e.drag_origin(far, &m), origin(None));
}
