//! The reader of a capture stream: reconnects, buffers and gaps.
use stylus_input_capture::consumer::source::{
    finish_ingest, handle_message, next_backoff, reconnects, sleep_slice, ConnectionStatus,
    IngestState, ReaderStep, Reconnect, SharedSource, Source, StreamEnd, INITIAL_BACKOFF,
    MAX_BACKOFF, SLEEP_SLICE,
};
use stylus_input_capture::device::sample::{PenSample, ToolKind};
use stylus_input_capture::double::Double;
use stylus_input_capture::stream::{Metrics, StreamMessage};

fn sample(serial: u32) -> StreamMessage {
    StreamMessage::Sample(PenSample {
        t_capture_ns: 0,
        t_device_ms: 0,
        serial,
        x_raw: 0,
        y_raw: 0,
        z_raw: 0,
        x_norm: Double::zero(),
        y_norm: Double::zero(),
        pressure_raw: 0,
        pressure_norm: Double::zero(),
        tangent_pressure_raw: None,
        azimuth_deci_deg: None,
        altitude_deci_deg: None,
        twist_deci_deg: None,
        tilt_x_deg: None,
        tilt_y_deg: None,
        rotation_deci_deg: None,
        buttons: 0,
        tool: ToolKind::Pen,
        tool_serial: 0,
        in_proximity: true,
        status: 0,
    })
}

fn serials(messages: &[StreamMessage]) -> Vec<u32> {
    messages
        .iter()
        .map(|message| match message {
            StreamMessage::Sample(sample) => sample.serial,
            _ => panic!("unexpected message"),
        })
        .collect()
}

#[test]
fn next_backoff_doubles_from_initial() {
    assert_eq!(next_backoff(INITIAL_BACKOFF), 500);
    assert_eq!(next_backoff(500), 1_000);
    assert_eq!(next_backoff(1_000), 2_000);
}

#[test]
fn next_backoff_caps_at_max() {
    assert_eq!(next_backoff(2_000), MAX_BACKOFF);
    assert_eq!(next_backoff(MAX_BACKOFF), MAX_BACKOFF);
    assert_eq!(next_backoff(100_000), MAX_BACKOFF);
}

#[test]
fn next_backoff_never_exceeds_cap_from_any_start() {
    let mut backoff = INITIAL_BACKOFF;
    for _ in 0..20 {
        backoff = next_backoff(backoff);
        assert!(backoff <= MAX_BACKOFF);
    }
    assert_eq!(backoff, MAX_BACKOFF);
}

#[test]
fn tcp_and_pipe_sources_reconnect_but_stdin_does_not() {
    assert!(reconnects(&Source::Tcp("127.0.0.1:9123".to_owned())));
    assert!(reconnects(&Source::Pipe("wacom-capture".to_owned())));
    assert!(!reconnects(&Source::Stdin));
}

#[test]
fn interruptible_sleep_returns_promptly_when_stop_is_set() {
    let mut remaining = 10_000;
    assert_eq!(sleep_slice(&mut remaining, true), None);
    assert_eq!(remaining, 10_000);
}

#[test]
fn sleeps_add_up() {
    let mut remaining = 2 * SLEEP_SLICE + 1;
    assert_eq!(sleep_slice(&mut remaining, false), Some(SLEEP_SLICE));
    assert_eq!(sleep_slice(&mut remaining, false), Some(SLEEP_SLICE));
    assert_eq!(sleep_slice(&mut remaining, false), Some(1));
    assert_eq!(sleep_slice(&mut remaining, false), None);
}

#[test]
fn shared_source_connected_flag_is_sticky_until_taken() {
    let mut shared = SharedSource::new(8);
    assert!(!shared.take_connected_flag());

    shared.set_status(ConnectionStatus::Connecting);
    assert!(!shared.take_connected_flag());

    shared.set_status(ConnectionStatus::Connected);
    shared.set_status(ConnectionStatus::Disconnected);
    assert!(shared.take_connected_flag());
    assert!(!shared.take_connected_flag());
}

#[test]
fn buffers_keep_the_newest_messages() {
    let mut shared = SharedSource::new(2);
    let mut ingest = IngestState::default();
    for serial in [1, 2, 5] {
        assert!(shared.can_count());
        handle_message(sample(serial), &mut ingest, &mut shared);
    }
    assert_eq!(shared.state().display_dropped, 1);
    assert_eq!(shared.state().serial_gaps, 2);
    assert_eq!(serials(&shared.drain_messages()), vec![2, 5]);
    assert!(shared.drain_messages().is_empty());
    assert_eq!(ingest.last_serial, Some(5));
}

#[test]
fn serials_that_go_back_are_no_gap() {
    let mut shared = SharedSource::new(8);
    let mut ingest = IngestState::default();
    for serial in [9, 3, 4] {
        handle_message(sample(serial), &mut ingest, &mut shared);
    }
    assert_eq!(shared.state().serial_gaps, 0);
}

#[test]
fn the_latest_metrics_are_kept() {
    let mut shared = SharedSource::new(8);
    let mut ingest = IngestState::default();
    let metrics = Metrics {
        packets_per_sec: Double::one(),
        dropped: 4,
        queue_depth: 1,
        actual_rate_hz: 190,
        requested_rate_hz: 200,
        connected_clients: 1,
    };
    handle_message(StreamMessage::Metrics(metrics), &mut ingest, &mut shared);
    handle_message(StreamMessage::Heartbeat, &mut ingest, &mut shared);
    assert_eq!(shared.state().latest_metrics, Some(metrics));
    assert_eq!(shared.drain_messages().len(), 2);
}

#[test]
fn failed_attempts_wait_longer_each_time() {
    let mut shared = SharedSource::new(8);
    let mut policy = Reconnect::new(&Source::Tcp("127.0.0.1:9123".to_owned()));
    let mut waits = Vec::new();
    for _ in 0..6 {
        assert_eq!(policy.begin(false, &mut shared), ReaderStep::Attempt);
        assert_eq!(shared.state().status, ConnectionStatus::Connecting);
        match policy.after_attempt(false, &mut shared) {
            ReaderStep::Sleep(wait) => waits.push(wait),
            other => panic!("unexpected step {other:?}"),
        }
        assert_eq!(shared.state().status, ConnectionStatus::Disconnected);
    }
    assert_eq!(waits, vec![250, 500, 1000, 2000, 3000, 3000]);

    assert_eq!(policy.begin(false, &mut shared), ReaderStep::Attempt);
    shared.set_status(ConnectionStatus::Connected);
    assert_eq!(policy.after_attempt(false, &mut shared), ReaderStep::Sleep(250));
    assert_eq!(policy.backoff, 500);
}

#[test]
fn stops_and_ended_pipes_finish_the_reader() {
    let mut shared = SharedSource::new(8);
    let mut stdin = Reconnect::new(&Source::Stdin);
    assert_eq!(stdin.begin(false, &mut shared), ReaderStep::Attempt);
    assert_eq!(stdin.after_attempt(false, &mut shared), ReaderStep::Finish);

    let mut pipe = Reconnect::new(&Source::Pipe("wacom-capture".to_owned()));
    assert_eq!(pipe.begin(true, &mut shared), ReaderStep::Finish);
    assert_eq!(pipe.after_attempt(true, &mut shared), ReaderStep::Finish);
}

#[test]
fn the_end_of_a_stream_is_no_error() {
    let mut shared = SharedSource::new(8);
    shared.set_status(ConnectionStatus::Connected);
    let state = finish_ingest(StreamEnd::Truncated, &mut shared).unwrap();
    assert_eq!(state.status, ConnectionStatus::Disconnected);
    shared.set_status(ConnectionStatus::Connected);
    assert!(finish_ingest(StreamEnd::Failed, &mut shared).is_none());
    assert_eq!(shared.state().status, ConnectionStatus::Disconnected);
}

#[test]
fn sources_are_told_apart_by_their_target() {
    let tcp = Source::Tcp("a".to_owned());
    assert!(tcp.same(&Source::Tcp("a".to_owned())));
    assert!(!tcp.same(&Source::Tcp("b".to_owned())));
    assert!(!tcp.same(&Source::Pipe("a".to_owned())));
    assert!(Source::Stdin.same(&Source::Stdin));
}
