//! Actions, bindings, arguments and decisions of the performance display.
use std::collections::HashSet;

use stylus_input_capture::consumer::source::{ConnectionStatus, Source};
use stylus_input_capture::device::capabilities::{AxisInfo, AxisUnit, DeviceCapabilities};
use stylus_input_capture::device::sample::{PenSample, ToolKind};
use stylus_input_capture::double::Double;
use stylus_input_capture::hud::actions::Action;
use stylus_input_capture::hud::app::{
    activity_entry, change_mapping, choose_velocity, end_test_note, flashing_pad, note_label,
    octave_shift, only_port_ignores_mpe, pad_style, path_complaint, play, port_to_remember,
    preselect_port, repair_activation, repair_mapping, reselect_port, send_test_note,
    service_test_note, status_label, status_outcome, stream_label, take_message, takes_place,
    Outcome, PadStyle, Recent, TestNote,
};
use stylus_input_capture::hud::bindings::{Binding, InputChord, KeyName, Keymap, PenButton};
use stylus_input_capture::hud::cli::{format_label, source_label, Args, ParseError};
use stylus_input_capture::hud::midi_out::{find_port_index_by_name, mpe_init_events, push_rpn};
use stylus_input_capture::hud::panels::{
    file_status, flash_age, meters, note_badge, pad_look, playing_profile, prefilled_path,
    FileTask, Flash, MeterValue, TxMeter, TxRate,
};
use stylus_input_capture::hud::pen_guide::{
    is_seen, pen_guide_bullets, PenSignature, PenTracker, STABLE_SAMPLES,
};
use stylus_input_capture::hud::settings::{
    binding_text, pen_presses, BindingEditor, ChordOutcome,
};
use stylus_input_capture::midi::engine::{Drag, MpeEngine, PenReading};
use stylus_input_capture::midi::event::MidiEvent;
use stylus_input_capture::midi::mapping::{MidiMapping, NoteMode, TiltAxis, TiltCc, VelocitySource};
use stylus_input_capture::midi::pads::Pad;
use stylus_input_capture::midi::scale::ScaleKind;
use stylus_input_capture::process::profile::ActivationConfig;
use stylus_input_capture::stream::{Format, StreamMessage};

fn number(value: f64) -> Double {
    Double::from_bits(value.to_bits())
}

fn key(name: &str) -> KeyName {
    KeyName::from_name(name).expect("a key")
}

#[test]
fn ids_are_unique_and_round_trip() {
    let mut seen = HashSet::new();
    for action in Action::ALL {
        assert!(seen.insert(action.id()), "duplicate id: {}", action.id());
        assert_eq!(Action::from_id(action.id()), Some(action));
    }
}

#[test]
fn documented_actions_can_be_bound() {
    let trail = Action::from_id("toggle_trail_color").unwrap();
    assert_eq!(trail, Action::ToggleTrailColor);
    assert_eq!(trail.id(), "toggle_trail_color");
    let guide = Action::from_id("show_pen_guide").unwrap();
    assert_eq!(guide, Action::ShowPenGuide);
    let mut keymap = Keymap::default();
    let chord = InputChord::Tablet { index: 2 };
    assert_eq!(keymap.bind(chord.clone(), trail), None);
    assert_eq!(keymap.binding_for(trail), Some(&chord));
    assert_eq!(keymap.bind(chord.clone(), guide), Some(trail));
    assert_eq!(keymap.binding_for(guide), Some(&chord));
    assert_eq!(keymap.binding_for(trail), None);
}

#[test]
fn unknown_id_yields_none() {
    assert_eq!(Action::from_id("warp_drive"), None);
}

#[test]
fn every_action_has_label_and_category() {
    for action in Action::ALL {
        assert!(!action.label().is_empty());
        assert!(!action.category().is_empty());
    }
}

#[test]
fn chord_labels_round_trip_through_parse() {
    let chords = [
        InputChord::key(key("Escape")),
        InputChord::Key { key: key("T"), ctrl: true, shift: true, alt: false },
        InputChord::Key { key: key("+"), ctrl: true, shift: false, alt: true },
        InputChord::Pen(PenButton::Barrel),
        InputChord::Pen(PenButton::Eraser),
        InputChord::Tablet { index: 7 },
    ];
    for chord in chords {
        assert_eq!(InputChord::parse(&chord.label()), Some(chord));
    }
}

#[test]
fn chords_have_their_labels() {
    let chord = InputChord::Key { key: key("T"), ctrl: true, shift: true, alt: true };
    assert_eq!(chord.label(), "Ctrl+Shift+Alt+T");
    assert_eq!(InputChord::Pen(PenButton::Barrel).label(), "pen:barrel");
    assert_eq!(InputChord::Tablet { index: 12 }.label(), "tablet:12");
    assert!(chord.same(&InputChord::parse("Ctrl+Shift+Alt+T").unwrap()));
    assert!(!chord.same(&InputChord::key(key("T"))));
}

#[test]
fn keys_go_by_the_name_of_the_toolkit() {
    assert_eq!(key("Esc").name(), "Escape");
    assert_eq!(key("+").name(), egui::Key::Plus.name());
    assert_eq!(KeyName::from_name("NoSuchKey"), None);
    for known in egui::Key::ALL {
        assert_eq!(key(known.name()).name(), known.name());
    }
}

#[test]
fn invalid_chords_fail_to_parse() {
    for text in ["", "pen:tip", "tablet:not-a-number", "Ctrl+", "NoSuchKey"] {
        assert_eq!(InputChord::parse(text), None, "should reject '{text}'");
    }
}

#[test]
fn defaults_match_legacy_shortcuts() {
    let keymap = Keymap::default();
    assert_eq!(keymap.resolve(&InputChord::key(key("Escape"))), Some(Action::Panic));
    assert_eq!(keymap.resolve(&InputChord::key(key("T"))), Some(Action::TestNote));
    assert_eq!(keymap.resolve(&InputChord::key(key("PageUp"))), Some(Action::OctaveUp));
    assert_eq!(keymap.resolve(&InputChord::key(key("PageDown"))), Some(Action::OctaveDown));
    assert_eq!(
        keymap.resolve(&InputChord::Key { key: key("T"), ctrl: true, shift: false, alt: false }),
        None
    );
}

#[test]
fn bind_replaces_both_chord_and_action_bindings() {
    let mut keymap = Keymap::default();

    let displaced = keymap.bind(InputChord::key(key("T")), Action::Panic);
    assert_eq!(displaced, Some(Action::TestNote));
    assert_eq!(keymap.resolve(&InputChord::key(key("T"))), Some(Action::Panic));
    assert_eq!(keymap.resolve(&InputChord::key(key("Escape"))), None);
    assert_eq!(keymap.binding_for(Action::TestNote), None);

    assert_eq!(keymap.bind(InputChord::key(key("T")), Action::Panic), None);
}

#[test]
fn clear_removes_only_that_action() {
    let mut keymap = Keymap::default();
    keymap.clear(Action::TestNote);
    assert_eq!(keymap.binding_for(Action::TestNote), None);
    assert!(keymap.binding_for(Action::Panic).is_some());
}

#[test]
fn unknown_action_ids_are_kept_but_never_resolve() {
    let keymap = Keymap {
        bindings: vec![
            Binding {
                input: InputChord::parse("F9").unwrap(),
                action: "future_feature".to_string(),
            },
            Binding { input: InputChord::parse("Escape").unwrap(), action: "panic".to_string() },
        ],
    };
    assert_eq!(keymap.bindings.len(), 2);
    assert_eq!(
        keymap.resolve(&InputChord::parse("F9").unwrap()),
        None,
        "unknown action id must not resolve"
    );
    assert_eq!(keymap.resolve(&InputChord::key(key("Escape"))), Some(Action::Panic));
}

#[test]
fn bindings_stay_one_to_one() {
    let mut keymap = Keymap::default();
    keymap.bind(InputChord::Pen(PenButton::Barrel), Action::Panic);
    keymap.bind(InputChord::Tablet { index: 2 }, Action::ScaleNext);
    keymap.bind(InputChord::Tablet { index: 2 }, Action::KeyNext);
    let chords: HashSet<String> = keymap.bindings.iter().map(|b| b.input.label()).collect();
    let actions: HashSet<&str> = keymap.bindings.iter().map(|b| b.action.as_str()).collect();
    assert_eq!(chords.len(), keymap.bindings.len());
    assert_eq!(actions.len(), keymap.bindings.len());
    assert_eq!(keymap.resolve(&InputChord::Tablet { index: 2 }), Some(Action::KeyNext));
    assert_eq!(keymap.binding_for(Action::ScaleNext), None);
}

fn parse(arguments: &[&str]) -> Result<Args, ParseError> {
    Args::parse_from(&arguments.iter().map(|a| Some(a.to_string())).collect())
}

#[test]
fn defaults_to_stdin_postcard() {
    let args = parse(&[]).unwrap();
    assert_eq!(args.source, Source::Stdin);
    assert_eq!(args.format, Format::Postcard);
    assert!(!args.spawn);
    assert_eq!(args.profile, None);
    assert_eq!(args.mapping, None);
}

#[test]
fn parses_tcp_mapping_and_spawn() {
    let args =
        parse(&["--tcp", "127.0.0.1:9123", "--mapping", "lead.midimap.toml", "--spawn"]).unwrap();
    assert_eq!(args.source, Source::Tcp("127.0.0.1:9123".to_owned()));
    assert_eq!(args.mapping, Some("lead.midimap.toml".to_owned()));
    assert!(args.spawn);
}

#[test]
fn rejects_conflicting_sources() {
    let err = parse(&["--tcp", "127.0.0.1:9123", "--pipe", "wacom"]).unwrap_err();
    assert_eq!(err, ParseError::ConflictingSources);
}

#[test]
fn sources_conflict_also_across_standard_input() {
    assert_eq!(
        parse(&["--tcp", "127.0.0.1:9123", "--stdin", "--pipe", "wacom"]),
        Err(ParseError::ConflictingSources)
    );
    assert_eq!(
        parse(&["--pipe", "a", "--stdin", "--pipe", "b"]),
        Err(ParseError::ConflictingSources)
    );
    let again = parse(&["--tcp", "a", "--stdin", "--tcp", "a"]).unwrap();
    assert_eq!(again.source, Source::Tcp("a".to_owned()));
    assert_eq!(parse(&["--tcp", "a", "--stdin"]).unwrap().source, Source::Stdin);
}

#[test]
fn rejects_invalid_format() {
    assert_eq!(
        parse(&["--format", "yaml"]).unwrap_err(),
        ParseError::InvalidFormat("yaml".to_owned())
    );
}

#[test]
fn other_bad_arguments_have_their_errors() {
    assert_eq!(parse(&["--tcp"]).unwrap_err(), ParseError::MissingValue { flag: "--tcp" });
    assert_eq!(parse(&["--loud"]).unwrap_err(), ParseError::UnknownFlag("--loud".to_owned()));
    assert_eq!(
        parse(&["stray"]).unwrap_err(),
        ParseError::UnexpectedArgument("stray".to_owned())
    );
    assert_eq!(Args::parse_from(&vec![None]).unwrap_err(), ParseError::NonUtf8Argument);
    assert!(parse(&["--format", "yaml"]).unwrap_err().message().contains("yaml"));
}

#[test]
fn labels_of_formats_select_them() {
    for format in [Format::Postcard, Format::Json] {
        assert_eq!(parse(&["--format", format_label(format)]).unwrap().format, format);
    }
    assert_eq!(source_label(&Source::Tcp("a:1".to_owned())), "tcp: a:1");
    assert_eq!(stream_label(false, &Source::Pipe("p".to_owned())), "pipe: p");
    assert_eq!(stream_label(true, &Source::Stdin), "spawned tablet-cli");
}

fn has_bend_range(events: &[MidiEvent], wanted: u8) -> bool {
    events.iter().any(|e| {
        matches!(
            e,
            MidiEvent::ControlChange { channel, controller: 6, value: 48 } if *channel == wanted
        )
    })
}

#[test]
fn mpe_init_sets_mcm_and_per_member_bend_range() {
    let m = MidiMapping::default();
    let events = mpe_init_events(&m);

    assert!(events.iter().any(|e| matches!(
        e,
        MidiEvent::ControlChange { channel: 0, controller: 6, value: 15 }
    )));
    for ch in 1..=15u8 {
        assert!(has_bend_range(&events, ch), "missing bend-range RPN for channel {ch}");
    }
}

#[test]
fn raised_member_low_still_advertises_a_zone_covering_emitted_channels() {
    let mut m = MidiMapping::default();
    m.mpe.member_low = 5;
    m.mpe.member_high = 8;
    let events = mpe_init_events(&m);

    assert!(events.iter().any(|e| matches!(
        e,
        MidiEvent::ControlChange { channel: 0, controller: 6, value: 8 }
    )));
    for ch in 1..=8u8 {
        assert!(has_bend_range(&events, ch), "missing bend-range RPN for channel {ch}");
    }
}

#[test]
fn parameters_take_six_messages_or_fewer() {
    let mut out = Vec::new();
    push_rpn(&mut out, 3, 0, 6, 15);
    assert_eq!(
        out[..3],
        [
            MidiEvent::ControlChange { channel: 3, controller: 101, value: 0 },
            MidiEvent::ControlChange { channel: 3, controller: 100, value: 6 },
            MidiEvent::ControlChange { channel: 3, controller: 6, value: 15 },
        ]
    );
}

#[test]
fn ports_are_found_by_part_of_their_name() {
    let ports = vec!["Through Port".to_string(), "loopMIDI A".to_string(), "loopMIDI B".to_string()];
    assert_eq!(find_port_index_by_name(&ports, "loopMIDI"), Some(1));
    assert_eq!(find_port_index_by_name(&ports, "synth"), None);
    assert_eq!(preselect_port(Some("loopMIDI B"), &ports), 2);
    assert_eq!(preselect_port(Some("gone"), &ports), 0);
    let fewer = vec!["loopMIDI B".to_string()];
    assert_eq!(reselect_port(&ports, 2, &fewer), 0);
    assert_eq!(reselect_port(&ports, 1, &fewer), 0);
    assert_eq!(reselect_port(&fewer, 0, &ports), 2);
    assert_eq!(port_to_remember(Some("out"), &ports, 1), Some("out".to_string()));
    assert_eq!(port_to_remember(None, &ports, 1), Some("loopMIDI A".to_string()));
    assert_eq!(port_to_remember(None, &ports, 3), None);
    assert!(only_port_ignores_mpe(&vec!["Microsoft GS Wavetable Synth 0".to_string()]));
    assert!(!only_port_ignores_mpe(&ports));
}

fn sample() -> PenSample {
    PenSample {
        t_capture_ns: 0,
        t_device_ms: 0,
        serial: 0,
        x_raw: 0,
        y_raw: 0,
        z_raw: 0,
        x_norm: number(0.0),
        y_norm: number(0.0),
        pressure_raw: 0,
        pressure_norm: number(0.0),
        tangent_pressure_raw: None,
        azimuth_deci_deg: None,
        altitude_deci_deg: None,
        twist_deci_deg: None,
        tilt_x_deg: None,
        tilt_y_deg: None,
        rotation_deci_deg: None,
        buttons: 0,
        tool: ToolKind::Pen,
        tool_serial: 0,
        in_proximity: true,
        status: 0,
    }
}

#[test]
fn signature_maps_optional_axes_to_flags() {
    let bare = PenSignature::of(&sample(), "Tablet");
    assert_eq!(
        bare,
        PenSignature { device_name: "Tablet".to_owned(), ..PenSignature::default() }
    );

    let mut s = sample();
    s.tilt_x_deg = Some(number(12.0));
    s.tool_serial = 3;
    let tilt = PenSignature::of(&s, "Tablet");
    assert!(tilt.has_tilt);
    assert_eq!(tilt.tool_serial, 3);
    assert!(!tilt.has_tangent_pressure);

    let mut s = sample();
    s.tangent_pressure_raw = Some(512);
    s.twist_deci_deg = Some(0);
    s.rotation_deci_deg = Some(0);
    let airbrush = PenSignature::of(&s, "Tablet");
    assert!(airbrush.has_tangent_pressure);
    assert!(airbrush.has_twist);
    assert!(airbrush.has_rotation);
    assert!(!airbrush.has_tilt);
}

#[test]
fn tool_kind_does_not_change_identity() {
    let mut pen = sample();
    let mut eraser = sample();
    eraser.tool = ToolKind::Eraser;
    pen.tool = ToolKind::Pen;
    assert_eq!(PenSignature::of(&pen, "Tablet"), PenSignature::of(&eraser, "Tablet"));
}

fn sig(name: &str, has_tilt: bool) -> PenSignature {
    PenSignature { device_name: name.to_owned(), has_tilt, ..PenSignature::default() }
}

#[test]
fn tracker_emits_after_stable_run_only() {
    let mut tracker = PenTracker::default();
    for i in 1..STABLE_SAMPLES {
        assert_eq!(tracker.observe(sig("A", false)), None, "sample {i}");
        assert_eq!(tracker.current(), None);
    }
    assert_eq!(tracker.observe(sig("A", false)), Some(sig("A", false)));
    assert_eq!(tracker.current(), Some(&sig("A", false)));
}

#[test]
fn tracker_never_re_emits_current_pen() {
    let mut tracker = PenTracker::default();
    for _ in 0..STABLE_SAMPLES {
        tracker.observe(sig("A", false));
    }
    for _ in 0..(STABLE_SAMPLES * 3) {
        assert_eq!(tracker.observe(sig("A", false)), None);
    }
}

#[test]
fn signature_change_mid_debounce_restarts_count() {
    let mut tracker = PenTracker::default();
    for _ in 0..(STABLE_SAMPLES - 1) {
        tracker.observe(sig("A", false));
    }
    assert_eq!(tracker.observe(sig("B", false)), None);
    for i in 1..STABLE_SAMPLES - 1 {
        assert_eq!(tracker.observe(sig("B", false)), None, "sample {i}");
    }
    assert_eq!(tracker.observe(sig("B", false)), Some(sig("B", false)));
}

#[test]
fn glitch_toward_other_pen_is_forgotten_on_return() {
    let mut tracker = PenTracker::default();
    for _ in 0..STABLE_SAMPLES {
        tracker.observe(sig("A", false));
    }
    for _ in 0..(STABLE_SAMPLES - 1) {
        tracker.observe(sig("B", false));
    }
    assert_eq!(tracker.observe(sig("A", false)), None);
    for i in 1..STABLE_SAMPLES {
        assert_eq!(tracker.observe(sig("B", false)), None, "sample {i}");
    }
    assert_eq!(tracker.observe(sig("B", false)), Some(sig("B", false)));
}

#[test]
fn switching_back_and_forth_emits_each_change() {
    let mut tracker = PenTracker::default();
    let mut run = |s: PenSignature| {
        let mut emitted = None;
        for _ in 0..STABLE_SAMPLES {
            if let Some(out) = tracker.observe(s.clone()) {
                emitted = Some(out);
            }
        }
        emitted
    };
    assert_eq!(run(sig("A", true)), Some(sig("A", true)));
    assert_eq!(run(sig("B", false)), Some(sig("B", false)));
    assert_eq!(run(sig("A", true)), Some(sig("A", true)));
}

#[test]
fn seen_pens_check_suppresses_reintroduction() {
    let seen = vec![sig("A", true)];
    assert!(is_seen(&seen, &sig("A", true)));
    assert!(!is_seen(&seen, &sig("A", false)));
    assert!(!is_seen(&seen, &sig("B", true)));
}

#[test]
fn features_label_lists_present_axes() {
    assert_eq!(sig("A", false).features_label(), "pressure");
    let full = PenSignature {
        has_tilt: true,
        has_twist: true,
        has_tangent_pressure: true,
        has_rotation: true,
        ..PenSignature::default()
    };
    assert_eq!(full.features_label(), "pressure · tilt · twist · airbrush wheel · rotation");
}

#[test]
fn guides_speak_of_the_mapping_in_use() {
    let mut m = MidiMapping::default();
    m.velocity = VelocitySource::Fixed(90);
    m.tilt_cc = Some(TiltCc { controller: 1, axis: TiltAxis::Y, range_deg: number(60.0) });
    m.x_to_cc74 = false;
    let mut keymap = Keymap::default();
    keymap.bind(InputChord::Pen(PenButton::Barrel), Action::Panic);
    let lines: Vec<String> = pen_guide_bullets(&sig("A", true), &m, &keymap, "2")
        .into_iter()
        .map(|line| line.text)
        .collect();
    assert_eq!(lines[0], "Tip — strike a pad to play; velocity fixed at 90");
    assert!(lines.contains(&"Drag up/down → pitch bend (±2 st)".to_string()));
    assert!(lines.contains(&"Tilt → CC1 (tilt Y)".to_string()));
    assert!(lines.contains(&format!("Barrel button → {}", Action::Panic.label())));
    assert!(lines.contains(&"Eraser → unbound — bind in Settings".to_string()));
    assert!(!lines.iter().any(|line| line.contains("CC74")));
}

#[test]
fn notes_have_their_labels() {
    assert_eq!(note_label(60), "C4");
    assert_eq!(note_label(0), "C-1");
    assert_eq!(note_label(127), "G9");
    assert_eq!(
        activity_entry(&MidiEvent::NoteOn { channel: 2, note: 61, velocity: 99 }),
        Some("▶ C#4 ch2 v99".to_string())
    );
    assert_eq!(
        activity_entry(&MidiEvent::NoteOff { channel: 2, note: 61, velocity: 0 }),
        Some("■ C#4 ch2".to_string())
    );
    assert_eq!(activity_entry(&MidiEvent::PitchBend { channel: 2, value: 8192 }), None);
}

#[test]
fn recent_items_displace_the_oldest() {
    let mut recent = Recent::new(2);
    for item in [1, 2, 3] {
        recent.push(item);
    }
    assert_eq!(recent.len(), 2);
    assert_eq!((*recent.get(0), *recent.get(1)), (2, 3));
}

fn reading(col: u8, active: bool) -> PenReading {
    PenReading {
        active,
        pad: Pad { col, row: 0 },
        x: number(0.1),
        y: number(0.9),
        pressure_velocity: 80,
        held: Drag { bend: 8192, timbre: 64 },
        pressure: 70,
        tilt_x: None,
        tilt_y: None,
    }
}

#[test]
fn playing_logs_notes_and_flashes_the_struck_pad() {
    let mapping = MidiMapping::default();
    let mut engine = MpeEngine::new();
    let mut activity = Recent::new(64);
    let struck = play(&mut engine, &reading(0, true), &mapping, &mut activity);
    assert!(matches!(struck.events[0], MidiEvent::NoteOn { .. }));
    assert_eq!(struck.flash, Some(Pad { col: 0, row: 0 }));
    assert_eq!(activity.len(), 1);
    let held = play(&mut engine, &reading(0, true), &mapping, &mut activity);
    assert!(held.events.is_empty());
    assert_eq!(held.flash, None);
    let released = play(&mut engine, &reading(0, false), &mapping, &mut activity);
    assert!(matches!(released.events[..], [MidiEvent::NoteOff { .. }]));
    assert_eq!(released.flash, None);
    assert_eq!(activity.len(), 2);
    assert!(activity.get(0).starts_with('▶') && activity.get(1).starts_with('■'));
    assert_eq!(flashing_pad(&vec![], Some(Pad { col: 1, row: 1 })), None);
}

#[test]
fn samples_wait_for_a_description() {
    let axis = AxisInfo {
        min: 0,
        max: 1,
        resolution: number(0.0),
        unit: AxisUnit::Unitless,
        supported: true,
    };
    let caps = DeviceCapabilities {
        device_name: "Tablet".to_string(),
        driver_version: String::new(),
        x: axis,
        y: axis,
        z: axis,
        pressure: axis,
        tangent_pressure: axis,
        azimuth: axis,
        altitude: axis,
        twist: axis,
        rotation: axis,
        max_packet_rate_hz: 0,
        queue_size: 0,
    };
    let mut latest = None;
    assert!(take_message(&mut latest, StreamMessage::Sample(sample())).is_none());
    assert!(take_message(&mut latest, StreamMessage::Capabilities(caps)).is_none());
    assert_eq!(latest.as_ref().unwrap().device_name, "Tablet");
    assert!(take_message(&mut latest, StreamMessage::Heartbeat).is_none());
    assert_eq!(take_message(&mut latest, StreamMessage::Sample(sample())), Some(sample()));
}

#[test]
fn test_notes_end_in_time() {
    let mut pending = None;
    let events = send_test_note(&mut pending, 0, 1_000);
    assert_eq!(events, vec![MidiEvent::NoteOn { channel: 0, note: 60, velocity: 100 }]);
    assert_eq!(pending, Some(TestNote { channel: 0, note: 60, deadline: 1_500 }));
    assert!(service_test_note(&mut pending, 1_499).is_empty());
    let again = send_test_note(&mut pending, 3, 1_400);
    assert_eq!(again[0], MidiEvent::NoteOff { channel: 0, note: 60, velocity: 0 });
    assert_eq!(
        service_test_note(&mut pending, 1_900),
        vec![MidiEvent::NoteOff { channel: 3, note: 60, velocity: 0 }]
    );
    assert_eq!(pending, None);
    assert!(end_test_note(&mut pending).is_empty());
}

#[test]
fn actions_change_mappings() {
    let mut m = MidiMapping::default();
    m.low_note = 90;
    m.scale = ScaleKind::Mixolydian;
    m.key = 0;
    m.mode = NoteMode::Discrete;
    assert!(change_mapping(Action::OctaveUp, &mut m));
    assert_eq!(m.low_note, 96);
    assert!(change_mapping(Action::OctaveDown, &mut m));
    assert_eq!(m.low_note, 84);
    assert!(change_mapping(Action::ScaleNext, &mut m));
    assert_eq!(m.scale, ScaleKind::Chromatic);
    assert!(change_mapping(Action::ScalePrev, &mut m));
    assert_eq!(m.scale, ScaleKind::Mixolydian);
    assert!(change_mapping(Action::KeyPrev, &mut m));
    assert_eq!(m.key, 11);
    assert!(change_mapping(Action::KeyNext, &mut m));
    assert_eq!(m.key, 0);
    assert!(change_mapping(Action::CycleNoteMode, &mut m));
    assert_eq!(m.mode, NoteMode::Hold);
    m.tilt_cc = None;
    assert!(change_mapping(Action::ToggleTiltCc, &mut m));
    assert_eq!(
        m.tilt_cc,
        Some(TiltCc { controller: 1, axis: TiltAxis::X, range_deg: number(60.0) })
    );
    assert!(!change_mapping(Action::Panic, &mut m));
    octave_shift(&mut m, -100);
    assert_eq!(m.low_note, 0);
    assert!(m.validate().is_ok());
}

#[test]
fn actions_wait_while_text_is_typed() {
    assert!(takes_place(Action::Panic, true, false));
    assert!(!takes_place(Action::OctaveUp, true, true));
    assert!(!takes_place(Action::TestNote, false, false));
    assert!(takes_place(Action::TestNote, false, true));
}

#[test]
fn sliders_are_repaired() {
    let mut m = MidiMapping::default();
    m.mpe.member_low = 9;
    m.mpe.member_high = 4;
    m.velocity = VelocitySource::Pressure { min: 100, max: 20 };
    repair_mapping(&mut m);
    assert_eq!(m.mpe.member_high, 9);
    assert_eq!(m.velocity, VelocitySource::Pressure { min: 100, max: 100 });

    let mut activation = ActivationConfig {
        on_threshold: number(0.25),
        off_threshold: number(0.5),
        ..ActivationConfig::default()
    };
    repair_activation(&mut activation);
    assert_eq!(activation.off_threshold, number(0.25));

    assert_eq!(
        choose_velocity(VelocitySource::Fixed(3), true),
        VelocitySource::Pressure { min: 1, max: 127 }
    );
    assert_eq!(choose_velocity(VelocitySource::Fixed(3), false), VelocitySource::Fixed(3));
}

#[test]
fn pads_and_states_have_their_look() {
    assert_eq!(pad_style(None, true, true), PadStyle::Dead);
    assert_eq!(pad_style(Some(60), true, true), PadStyle::Active);
    assert_eq!(pad_style(Some(60), false, true), PadStyle::Root);
    assert_eq!(pad_style(Some(60), false, false), PadStyle::Plain);
    assert_eq!(status_outcome("load failed: x"), Outcome::Bad);
    assert_eq!(status_outcome("saved"), Outcome::Good);
    assert_eq!(status_outcome("nothing"), Outcome::Neutral);
    assert_eq!(path_complaint("  "), Some("enter a path first"));
    assert_eq!(path_complaint("a"), None);
    assert_eq!(status_label(ConnectionStatus::Connected), "connected");
}

#[test]
fn the_next_chord_is_bound_while_listening() {
    let mut editor = BindingEditor::default();
    let mut keymap = Keymap::default();
    editor.show(true);
    editor.listen(Action::ScaleNext);
    assert_eq!(
        editor.on_chord(&mut keymap, InputChord::key(key("T"))),
        ChordOutcome::Bound { action: Action::ScaleNext, displaced: Some(Action::TestNote) }
    );
    assert_eq!(editor.status.as_deref(), Some("Next scale bound to T"));
    assert_eq!(editor.listening, None);
    assert_eq!(
        editor.on_chord(&mut keymap, InputChord::key(key("T"))),
        ChordOutcome::Triggers(Action::ScaleNext)
    );
    assert_eq!(
        editor.on_chord(&mut keymap, InputChord::Tablet { index: 1 }),
        ChordOutcome::Ignored
    );
    assert_eq!(binding_text(&keymap, Action::ScaleNext), "T");
    assert_eq!(binding_text(&keymap, Action::TestNote), "unbound");
}

#[test]
fn escape_and_closing_end_the_listening() {
    let mut editor = BindingEditor::default();
    let mut keymap = Keymap::default();
    editor.show(true);
    editor.listen(Action::KeyNext);
    assert_eq!(
        editor.on_chord(&mut keymap, InputChord::key(key("Escape"))),
        ChordOutcome::Cancelled
    );
    assert_eq!(keymap, Keymap::default());
    editor.listen(Action::KeyNext);
    editor.show(false);
    assert_eq!(editor.listening, None);
    assert_eq!(
        editor.on_chord(&mut keymap, InputChord::key(key("Escape"))),
        ChordOutcome::Triggers(Action::Panic)
    );
    editor.listen(Action::KeyNext);
    editor.stop_listening();
    assert_eq!(editor.listening, None);
}

#[test]
fn bindings_are_cleared_and_reset() {
    let mut editor = BindingEditor::default();
    let mut keymap = Keymap::default();
    editor.clear(&mut keymap, Action::Panic);
    assert_eq!(keymap.binding_for(Action::Panic), None);
    assert_eq!(editor.status.as_deref(), Some("Panic (all notes off) unbound"));
    editor.reset(&mut keymap);
    assert_eq!(keymap, Keymap::default());
    assert_eq!(editor.status.as_deref(), Some("bindings reset to defaults"));
}

#[test]
fn pen_buttons_trigger_when_pressed() {
    assert_eq!(pen_presses(0, 0b110), vec![PenButton::Barrel, PenButton::Eraser]);
    assert_eq!(pen_presses(0b010, 0b110), vec![PenButton::Eraser]);
    assert!(pen_presses(0b111, 0b111).is_empty());
    assert!(pen_presses(0b110, 0b001).is_empty());
    assert_eq!(PenButton::Barrel.bit(), 1);
    assert_eq!(PenButton::Eraser.bit(), 2);
}

#[test]
fn pressure_decides_contact_without_a_profile() {
    let profile = playing_profile();
    assert!(profile.activation.enabled);
    assert_eq!(profile.activation.on_threshold, number(0.04));
    assert_eq!(profile.activation.off_threshold, number(0.02));
    assert!(profile.validate().is_ok());
}

#[test]
fn events_are_counted_by_the_second() {
    let mut meter = TxMeter::new(100);
    meter.count(7);
    assert_eq!(meter.tick(1_099), None);
    assert_eq!(meter.tick(1_100), Some(TxRate { events: 7, window_ms: 1_000 }));
    meter.count(3);
    assert_eq!(meter.tick(2_600), Some(TxRate { events: 3, window_ms: 1_500 }));
    assert_eq!(meter.sent, 10);
}

#[test]
fn flashes_fade() {
    let flash = Some(Flash { pad: Pad { col: 1, row: 1 }, started_ms: 1_000 });
    assert_eq!(flash_age(flash, 1_000), Some(0));
    assert_eq!(flash_age(flash, 1_149), Some(149));
    assert_eq!(flash_age(flash, 1_150), None);
    assert_eq!(flash_age(None, 5), None);
}

#[test]
fn pads_show_their_state() {
    let mut m = MidiMapping::default();
    m.scale = ScaleKind::Major;
    m.key = 0;
    m.low_note = 48;
    let root = Pad { col: 0, row: 0 };
    let other = Pad { col: 1, row: 0 };
    let look = pad_look(root, &m, None, Some(root), Some(other), true);
    assert_eq!(look.style, PadStyle::Root);
    assert!(look.outlined && !look.flashing && !look.glowing);
    assert_eq!(look.label.as_deref(), Some("C3"));
    let look = pad_look(other, &m, Some(other), Some(other), Some(other), false);
    assert_eq!(look.style, PadStyle::Active);
    assert!(!look.outlined && look.flashing && look.glowing);
    assert_eq!(look.label, None);
    m.low_note = 127;
    let dead = pad_look(Pad { col: 7, row: 7 }, &m, None, Some(Pad { col: 7, row: 7 }), None, true);
    assert_eq!(dead.style, PadStyle::Dead);
    assert!(!dead.outlined && !dead.glowing);
    assert_eq!(dead.label, None);
    let silent = Pad { col: 7, row: 7 };
    let held = pad_look(silent, &m, Some(silent), None, None, true);
    assert_eq!(held.style, PadStyle::Dead);
    assert!(held.glowing);
}

#[test]
fn meters_show_what_is_mapped() {
    let mut engine = MpeEngine::new();
    let mut m = MidiMapping::default();
    m.tilt_cc = Some(TiltCc { controller: 11, axis: TiltAxis::X, range_deg: number(60.0) });
    assert_eq!(note_badge(&engine), "—");
    let mut activity = Recent::new(4);
    play(&mut engine, &reading(0, true), &m, &mut activity);
    let shown: Vec<(String, MeterValue)> =
        meters(&engine, &m).into_iter().map(|meter| (meter.caption, meter.value)).collect();
    assert_eq!(
        shown,
        vec![
            ("bend".to_string(), MeterValue::Bend(8192)),
            ("pressure".to_string(), MeterValue::Level(70)),
            ("CC74".to_string(), MeterValue::Level(64)),
            ("tilt CC11".to_string(), MeterValue::Level(0)),
        ]
    );
    assert!(note_badge(&engine).ends_with(" ch1"));
}

#[test]
fn files_and_paths_are_told() {
    assert_eq!(file_status(FileTask::Load, None), "loaded");
    assert_eq!(file_status(FileTask::Save, Some("full")), "save failed: full");
    assert_eq!(prefilled_path(None, Some("b")), "b");
    assert_eq!(prefilled_path(Some("a"), Some("b")), "a");
    assert_eq!(prefilled_path(None, None), "");
}
