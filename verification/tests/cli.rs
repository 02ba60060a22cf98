//! Configuration, metrics and the event queue of the capture program.
use stylus_input_capture::cli::config::{
    apply_cli_overrides, Args, CaptureConfig, Config, ConfigError, LogLevel, OutputConfig,
    OutputFormat, TelemetryConfig, Transport,
};
use stylus_input_capture::cli::metrics::{
    packets_per_second, MetricsCounters, MetricsEmitter, PacketRate,
};
use stylus_input_capture::cli::runtime::{
    after_pass, surviving_clients, warn_on_serial_gap, EventQueue, LoopStep, SerialGap,
    StreamSession,
};
use stylus_input_capture::device::capabilities::{AxisInfo, AxisUnit, DeviceCapabilities};
use stylus_input_capture::device::sample::{PenSample, SampleEvent, ToolKind};
use stylus_input_capture::double::Double;
use stylus_input_capture::stream::{stream_message_from_event, Format, StreamMessage};

fn number(value: f64) -> Double {
    Double::from_bits(value.to_bits())
}

fn per_second(rate: PacketRate) -> f64 {
    rate.packets as f64 / (rate.elapsed_ns as f64 / 1e9)
}

fn args() -> Args {
    Args {
        transport: None,
        format: None,
        tcp_addr: None,
        pipe_name: None,
        config: None,
        queue_size: None,
        requested_rate_hz: None,
        flip_y: None,
        log_level: None,
    }
}

fn sample(serial: u32) -> PenSample {
    PenSample {
        t_capture_ns: 0,
        t_device_ms: 0,
        serial,
        x_raw: 0,
        y_raw: 0,
        z_raw: 0,
        x_norm: number(0.0),
        y_norm: number(0.0),
        pressure_raw: 0,
        pressure_norm: number(0.0),
        tangent_pressure_raw: None,
        azimuth_deci_deg: None,
        altitude_deci_deg: None,
        twist_deci_deg: None,
        tilt_x_deg: None,
        tilt_y_deg: None,
        rotation_deci_deg: None,
        buttons: 0,
        tool: ToolKind::Pen,
        tool_serial: 0,
        in_proximity: true,
        status: 0,
    }
}

fn capabilities(name: &str, rate: u32) -> DeviceCapabilities {
    let unsupported = AxisInfo {
        min: 0,
        max: 0,
        resolution: number(0.0),
        unit: AxisUnit::Unitless,
        supported: false,
    };
    DeviceCapabilities {
        device_name: name.to_string(),
        driver_version: "test".to_string(),
        x: unsupported,
        y: unsupported,
        z: unsupported,
        pressure: unsupported,
        tangent_pressure: unsupported,
        azimuth: unsupported,
        altitude: unsupported,
        twist: unsupported,
        rotation: unsupported,
        max_packet_rate_hz: rate,
        queue_size: 2,
    }
}

fn capabilities_event(name: &str) -> SampleEvent {
    SampleEvent::Capabilities(capabilities(name, 200))
}

fn name_of(event: SampleEvent) -> String {
    match event {
        SampleEvent::Capabilities(caps) => caps.device_name,
        _ => panic!("unexpected event"),
    }
}

const DEFAULT_FIELDS: [&str; 7] =
    ["x", "y", "pressure", "tilt", "rotation", "tangent", "buttons"];

#[test]
fn defaults_match_spec_section_9() {
    let config = Config::default();
    assert_eq!(config.capture.requested_rate_hz, 200);
    assert_eq!(config.capture.queue_size, 1024);
    assert!(config.capture.flip_y);
    assert_eq!(config.capture.fields, DEFAULT_FIELDS);
    assert_eq!(config.output.transport, Transport::Stdout);
    assert_eq!(config.output.format, OutputFormat::Postcard);
    assert_eq!(config.output.tcp_addr, "127.0.0.1:9123");
    assert_eq!(config.output.pipe_name, "wacom-capture");
    assert_eq!(config.telemetry.metrics_interval_ms, 1000);
    assert_eq!(config.telemetry.log_level, LogLevel::Info);
    assert!(config.validate(true).is_ok());
}

#[test]
fn toml_loads_and_cli_overrides_win() {
    let mut config = Config {
        capture: CaptureConfig {
            requested_rate_hz: 133,
            queue_size: 64,
            flip_y: false,
            fields: CaptureConfig::default().fields,
        },
        output: OutputConfig {
            transport: "stdout".parse::<Transport>().unwrap(),
            format: "postcard".parse::<OutputFormat>().unwrap(),
            tcp_addr: "127.0.0.1:9000".to_string(),
            pipe_name: "from-file".to_string(),
        },
        telemetry: TelemetryConfig {
            metrics_interval_ms: TelemetryConfig::default().metrics_interval_ms,
            log_level: "debug".parse::<LogLevel>().unwrap(),
        },
    };
    let mut args = args();
    args.transport = Some("tcp".to_string());
    args.format = Some("json".to_string());
    args.queue_size = Some(2048);
    args.requested_rate_hz = Some(250);
    args.flip_y = Some(true);
    args.log_level = Some("warn".to_string());

    assert!(apply_cli_overrides(&mut config, &args).is_ok());
    assert!(config.validate(true).is_ok());

    assert_eq!(config.output.transport, Transport::Tcp);
    assert_eq!(config.output.format, OutputFormat::Json);
    assert_eq!(config.capture.queue_size, 2048);
    assert_eq!(config.capture.requested_rate_hz, 250);
    assert!(config.capture.flip_y);
    assert_eq!(config.telemetry.log_level, LogLevel::Warn);
    assert_eq!(config.output.tcp_addr, "127.0.0.1:9000");
    assert_eq!(config.output.pipe_name, "from-file");
}

#[test]
fn invalid_transport_format_and_log_level_are_rejected() {
    assert!(matches!(
        "udp".parse::<Transport>(),
        Err(ConfigError::InvalidTransport { .. })
    ));
    assert!(matches!(
        "xml".parse::<OutputFormat>(),
        Err(ConfigError::InvalidFormat { .. })
    ));
    assert!(matches!(
        "verbose".parse::<LogLevel>(),
        Err(ConfigError::InvalidLogLevel { .. })
    ));
}

#[test]
fn output_format_converts_to_stream_format() {
    assert_eq!(Format::from(OutputFormat::Postcard), Format::Postcard);
    assert_eq!(Format::from(OutputFormat::Json), Format::Json);
}

#[test]
fn names_parse_back() {
    for transport in [Transport::Stdout, Transport::Tcp, Transport::Pipe] {
        assert_eq!(Transport::parse(transport.as_str()).unwrap(), transport);
    }
    for format in [OutputFormat::Postcard, OutputFormat::Json] {
        assert_eq!(OutputFormat::parse(format.as_str()).unwrap(), format);
    }
    for level in
        [LogLevel::Trace, LogLevel::Debug, LogLevel::Info, LogLevel::Warn, LogLevel::Error]
    {
        assert_eq!(LogLevel::parse(level.as_str()).unwrap(), level);
    }
}

#[test]
fn an_invalid_override_stops_the_merge() {
    for (transport, format, level) in
        [(Some("udp"), None, None), (None, Some("xml"), None), (None, None, Some("loud"))]
    {
        let mut config = Config::default();
        let mut args = args();
        args.transport = transport.map(str::to_string);
        args.format = format.map(str::to_string);
        args.log_level = level.map(str::to_string);
        assert!(apply_cli_overrides(&mut config, &args).is_err());
    }
}

#[test]
fn no_arguments_leave_the_configuration() {
    let mut config = Config::default();
    assert!(apply_cli_overrides(&mut config, &args()).is_ok());
    assert_eq!(config, Config::default());
}

#[test]
fn each_bad_setting_has_its_error() {
    let mut config = Config::default();
    config.capture.queue_size = 0;
    assert!(matches!(config.validate(true), Err(ConfigError::InvalidQueueSize)));

    let mut config = Config::default();
    config.capture.requested_rate_hz = 0;
    assert!(matches!(config.validate(true), Err(ConfigError::InvalidRequestedRate)));

    let mut config = Config::default();
    config.telemetry.metrics_interval_ms = 0;
    assert!(matches!(config.validate(true), Err(ConfigError::InvalidMetricsInterval)));

    let mut config = Config::default();
    config.output.transport = Transport::Tcp;
    config.output.tcp_addr = "nowhere".to_string();
    let refused = config.validate(false);
    assert!(matches!(&refused, Err(ConfigError::InvalidTcpAddr { value }) if value == "nowhere"));
    assert!(refused.unwrap_err().message().contains("nowhere"));

    let mut config = Config::default();
    config.output.transport = Transport::Pipe;
    config.output.pipe_name = " ".to_string();
    assert!(matches!(config.validate(true), Err(ConfigError::EmptyPipeName)));

    let mut config = Config::default();
    config.capture.fields.clear();
    assert!(matches!(config.validate(true), Err(ConfigError::EmptyFields)));
}

#[test]
fn packets_per_second_uses_elapsed_time() {
    let rate = per_second(packets_per_second(50, 250_000_000));
    assert!((rate - 200.0).abs() < f64::EPSILON);
    assert_eq!(per_second(packets_per_second(50, 0)), 0.0);
}

#[test]
fn snapshot_uses_deltas_and_current_counters() {
    let mut counters = MetricsCounters::new(0);
    let start: u64 = 7_000_000_000;
    let mut emitter = MetricsEmitter::new(&counters, 1_000_000_000, start);

    counters.packets_processed = 25;
    counters.queue_depth = 7;
    counters.dropped = 3;

    let metrics = emitter.snapshot(&counters, start + 500_000_000, 190, 200, 2);

    assert_eq!(metrics.dropped, 3);
    assert_eq!(metrics.queue_depth, 7);
    assert_eq!(metrics.actual_rate_hz, 190);
    assert_eq!(metrics.requested_rate_hz, 200);
    assert_eq!(metrics.connected_clients, 2);
    assert!((per_second(metrics.packets_per_sec) - 50.0).abs() < f64::EPSILON);

    counters.dropped = 5;
    assert_eq!(emitter.dropped_since_last_emit(&counters), 2);
    assert!(emitter.has_emitted());
}

#[test]
fn metrics_are_due_after_an_interval() {
    let counters = MetricsCounters::new(0);
    let emitter = MetricsEmitter::new(&counters, 1_000, 10);
    assert!(!emitter.due(1_009));
    assert!(emitter.due(1_010));
    assert!(!emitter.due(3));
    assert!(!emitter.has_emitted());
}

#[test]
fn full_queue_discards_oldest_when_consumer_is_available() {
    let mut queue = EventQueue::new(2);
    let mut counters = MetricsCounters::new(0);

    queue.enqueue_event(true, &mut counters, capabilities_event("one"));
    queue.enqueue_event(true, &mut counters, capabilities_event("two"));
    queue.enqueue_event(true, &mut counters, capabilities_event("three"));

    assert_eq!(counters.dropped, 1);
    assert_eq!(counters.queue_depth(), 2);
    let first = queue.pop_event().expect("second event remains");
    let second = queue.pop_event().expect("third event remains");

    assert_eq!(name_of(first), "two");
    assert_eq!(name_of(second), "three");
    assert!(queue.pop_event().is_none());
}

#[test]
fn full_queue_drops_the_newest_while_the_consumer_reads() {
    let mut queue = EventQueue::new(1);
    let mut counters = MetricsCounters::new(0);
    queue.enqueue_event(true, &mut counters, capabilities_event("one"));
    queue.enqueue_event(false, &mut counters, capabilities_event("two"));
    assert_eq!(counters.dropped, 2);
    assert_eq!(counters.queue_depth(), 1);
    assert_eq!(name_of(queue.pop_event_counted(&mut counters).unwrap()), "one");
    assert_eq!(counters.queue_depth(), 0);
}

#[test]
fn mock_serial_gaps_are_reported_in_metrics_frame() {
    const SAMPLE_COUNT: u32 = 100;
    const GAP_EVERY: u32 = 10;
    const EXPECTED_GAPS: u64 = 9;

    let mut session = StreamSession::new(200, 1_000, &MetricsCounters::new(0), 0);
    let mut counters = MetricsCounters::new(0);
    let mut serial: u32 = 0;
    let mut detected_gaps: u64 = 0;
    for i in 0..SAMPLE_COUNT {
        if i > 0 && i % GAP_EVERY == 0 {
            serial += 1;
        }
        serial += 1;
        let (message, gap) = session.take_event(SampleEvent::Sample(sample(serial)), &mut counters);
        assert!(matches!(message, StreamMessage::Sample(s) if s.serial == serial));
        detected_gaps += gap.map_or(0, |gap| u64::from(gap.gap_size));
    }

    assert_eq!(counters.packets_processed, u64::from(SAMPLE_COUNT));
    assert!(detected_gaps > 0);
    assert_eq!(detected_gaps, EXPECTED_GAPS);

    counters.dropped = detected_gaps;
    let (metrics, lost) = session.final_metrics(&counters, 1_000_000_000, 1).unwrap();
    assert_eq!(metrics.dropped, EXPECTED_GAPS);
    assert_eq!(metrics.dropped, detected_gaps);
    assert_eq!(lost, detected_gaps);
    assert_eq!(per_second(metrics.packets_per_sec), 100.0);
    assert!(session.final_metrics(&counters, 1_000_000_000, 1).is_none());
}

#[test]
fn serial_gaps_wrap() {
    let mut last = None;
    assert_eq!(warn_on_serial_gap(&mut last, u32::MAX), None);
    assert_eq!(warn_on_serial_gap(&mut last, 0), None);
    assert_eq!(
        warn_on_serial_gap(&mut last, 3),
        Some(SerialGap { previous_serial: 0, serial: 3, gap_size: 2 })
    );
    assert_eq!(last, Some(3));
}

#[test]
fn sessions_learn_the_rate_of_the_device() {
    let mut counters = MetricsCounters::new(0);
    let mut session = StreamSession::new(200, 1_000, &counters, 0);
    assert_eq!(session.actual_rate_hz, 200);
    let (message, gap) =
        session.take_event(SampleEvent::Capabilities(capabilities("pad", 133)), &mut counters);
    assert!(matches!(message, StreamMessage::Capabilities(caps) if caps.device_name == "pad"));
    assert_eq!(gap, None);
    assert_eq!(session.actual_rate_hz, 133);
    assert!(session.metrics_if_due(&counters, 999_999_999, 0).is_none());
    let (metrics, _) = session.metrics_if_due(&counters, 1_000_000_000, 4).unwrap();
    assert_eq!(metrics.actual_rate_hz, 133);
    assert_eq!(metrics.connected_clients, 4);
}

#[test]
fn sessions_end_once_idle_and_empty() {
    assert_eq!(after_pass(false, true, 0), LoopStep::Continue);
    assert_eq!(after_pass(true, true, 0), LoopStep::Continue);
    assert_eq!(after_pass(true, false, 3), LoopStep::Rest);
    assert_eq!(after_pass(false, false, 0), LoopStep::Rest);
    assert_eq!(after_pass(true, false, 0), LoopStep::Stop);
}

#[test]
fn failed_clients_leave() {
    assert_eq!(surviving_clients(&vec![true, false, true, false]), (vec![0, 2], Some(1)));
    assert_eq!(surviving_clients(&vec![true, true]), (vec![0, 1], None));
    assert_eq!(surviving_clients(&vec![]), (vec![], None));
}

#[test]
fn events_become_messages() {
    assert!(matches!(
        stream_message_from_event(SampleEvent::Proximity { in_range: true, tool_serial: 9 }),
        StreamMessage::Proximity { in_range: true, tool_serial: 9 }
    ));
    assert!(matches!(
        stream_message_from_event(SampleEvent::TabletButton { index: 2, pressed: false }),
        StreamMessage::TabletButton { index: 2, pressed: false }
    ));
}

#[test]
fn queue_depths_go_up_and_down() {
    let mut counters = MetricsCounters::new(7);
    counters.increment_packets_processed();
    counters.increment_queue_depth();
    assert_eq!(counters.queue_depth(), 1);
    counters.decrement_queue_depth();
    assert_eq!(counters.queue_depth(), 0);
    counters.decrement_queue_depth();
    assert_eq!(counters.queue_depth(), 0);
    counters.queue_depth = u32::MAX;
    counters.increment_queue_depth();
    assert_eq!(counters.queue_depth(), u32::MAX);
    assert_eq!((counters.dropped, counters.packets_processed), (7, 1));
}

#[test]
fn long_runs_leave_the_last_events() {
    let mut queue = EventQueue::new(3);
    let mut counters = MetricsCounters::new(0);
    for name in ["a", "b", "c", "d", "e"] {
        queue.enqueue_event(true, &mut counters, capabilities_event(name));
    }
    assert_eq!((counters.dropped, counters.queue_depth()), (2, 3));
    for name in ["c", "d", "e"] {
        assert_eq!(name_of(queue.pop_event_counted(&mut counters).unwrap()), name);
    }
    assert!(queue.pop_event_counted(&mut counters).is_none());
    assert_eq!(counters.queue_depth(), 0);
}
