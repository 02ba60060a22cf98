//! What holds of every run of the capture program.
//!
//! The laws speak of calls: of what went in and what came out.
use vstd::prelude::*;

use crate::cli::config::{apply_cli_overrides, Args, Config, ConfigError, LogLevel, OutputFormat, Transport};
use crate::cli::metrics::{packets_per_second, MetricsCounters, MetricsEmitter, MetricsSnapshot, PacketRate};
use crate::cli::runtime::{
    after_pass, successes, surviving_clients, warn_on_serial_gap, EventQueue, LoopStep, SerialGap, StreamSession,
};
use crate::device::sample::SampleEvent;
use crate::stream::{stream_message_from_event, StreamMessage};
use crate::text::is_white;

verus! {

/// An event that finds room goes behind the others, and only the depth counts it.
pub proof fn events_queue_up_while_there_is_room(
    queue: &mut EventQueue,
    reader_free: bool,
    counters: &mut MetricsCounters,
    event: SampleEvent,
)
    requires
        old(queue).valid(),
        old(queue)@.len() < old(queue).capacity(),
        call_ensures(EventQueue::enqueue_event, (queue, reader_free, counters, event), ()),
    ensures
        final(queue)@ == old(queue)@.push(event),
        final(queue).capacity() == old(queue).capacity(),
        final(counters).dropped == old(counters).dropped,
        final(counters).packets_processed == old(counters).packets_processed,
        old(counters).queue_depth < u32::MAX ==> final(counters).queue_depth == old(counters).queue_depth + 1,
{
}

/// An event that finds the queue full takes the place of the oldest one, which is
/// counted as lost: everything else stays, in order, and so does the depth. Where
/// the reading end is busy the queue stays as it is, and the event is lost.
pub proof fn the_newest_event_displaces_the_oldest(
    queue: &mut EventQueue,
    reader_free: bool,
    counters: &mut MetricsCounters,
    event: SampleEvent,
)
    requires
        old(queue).valid(),
        0 < old(queue).capacity(),
        old(queue)@.len() == old(queue).capacity(),
        0 < old(counters).queue_depth,
        old(counters).dropped < u64::MAX - 1,
        call_ensures(EventQueue::enqueue_event, (queue, reader_free, counters, event), ()),
    ensures
        reader_free ==> {
            &&& final(queue)@.len() == old(queue)@.len()
            &&& final(queue)@.last() == event
            &&& forall|i: int| #![trigger final(queue)@[i]] 0 <= i < old(queue)@.len() - 1 ==> final(queue)@[i] == old(queue)@[i + 1]
            &&& final(counters).dropped == old(counters).dropped + 1
        },
        !reader_free ==> {
            &&& final(queue)@ == old(queue)@
            &&& final(counters).dropped == old(counters).dropped + 2
        },
        final(counters).queue_depth == old(counters).queue_depth,
        final(counters).packets_processed == old(counters).packets_processed,
{
}

/// Events leave the queue in the order in which they came, one at a time.
pub proof fn events_leave_in_order(
    queue: &mut EventQueue,
    counters: &mut MetricsCounters,
    r: Option<SampleEvent>,
)
    requires
        old(queue).valid(),
        call_ensures(EventQueue::pop_event_counted, (queue, counters), r),
    ensures
        r is None <==> old(queue)@.len() == 0,
        r is None ==> final(queue)@ == old(queue)@ && *final(counters) == *old(counters),
        r matches Some(event) ==> {
            &&& old(queue)@ == seq![event] + final(queue)@
            &&& old(counters).queue_depth > 0 ==> final(counters).queue_depth == old(counters).queue_depth - 1
            &&& final(counters).dropped == old(counters).dropped
            &&& final(counters).packets_processed == old(counters).packets_processed
        },
{
    if let Some(event) = r {
        assert(old(queue)@ =~= seq![event] + final(queue)@);
    }
}

/// A queue starts empty and holds what it was made for.
pub proof fn queues_start_empty(capacity: usize, r: EventQueue)
    requires
        call_ensures(EventQueue::new, (capacity,), r),
    ensures
        r@.len() == 0,
        r.capacity() == capacity,
        r.valid(),
{
}

/// A gap is told exactly where a number is neither the next one nor the same one
/// again. The numbers between the two are the ones that are missing, also where
/// the numbers wrapped.
pub proof fn gaps_count_the_missing_numbers(last: &mut Option<u32>, serial: u32, r: Option<SerialGap>)
    requires
        call_ensures(warn_on_serial_gap, (last, serial), r),
    ensures
        *final(last) == Some(serial),
        *old(last) is None ==> r is None,
        *old(last) matches Some(before) ==> {
            let next = (before + 1) % 0x1_0000_0000;
            &&& r is None <==> serial == before || serial == next
            &&& r matches Some(gap) ==> gap.previous_serial == before && gap.serial == serial && gap.gap_size > 0 && (next
                + gap.gap_size) % 0x1_0000_0000 == serial
        },
{
}

/// An event becomes its message. A sample is counted and its number checked
/// against the last one; a description sets the rate. Nothing else changes.
pub proof fn sessions_take_in_events(
    session: &mut StreamSession,
    event: SampleEvent,
    counters: &mut MetricsCounters,
    r: (StreamMessage, Option<SerialGap>),
    message: StreamMessage,
    last: &mut Option<u32>,
    serial: u32,
    gap: Option<SerialGap>,
)
    requires
        call_ensures(StreamSession::take_event, (session, event, counters), r),
        call_ensures(stream_message_from_event, (event,), message),
        call_ensures(warn_on_serial_gap, (last, serial), gap),
        *old(last) == old(session).last_sample_serial,
    ensures
        r.0 == message,
        event matches SampleEvent::Sample(sample) ==> {
            &&& sample.serial == serial ==> r.1 == gap
            &&& final(session).last_sample_serial == Some(sample.serial)
            &&& old(counters).packets_processed < u64::MAX ==> final(counters).packets_processed == old(
                counters,
            ).packets_processed + 1
            &&& final(session).actual_rate_hz == old(session).actual_rate_hz
        },
        !(event is Sample) ==> {
            &&& r.1 is None
            &&& final(session).last_sample_serial == old(session).last_sample_serial
            &&& final(counters).packets_processed == old(counters).packets_processed
        },
        event matches SampleEvent::Capabilities(caps) ==> final(session).actual_rate_hz == caps.max_packet_rate_hz,
        !(event is Capabilities) ==> final(session).actual_rate_hz == old(session).actual_rate_hz,
        final(session).requested_rate_hz == old(session).requested_rate_hz,
        final(counters).dropped == old(counters).dropped,
        final(counters).queue_depth == old(counters).queue_depth,
{
}

/// Does `sent` tell of the session and its counters, since the last metrics?
pub open spec fn tells_of(
    session: StreamSession,
    counters: MetricsCounters,
    now_ns: u64,
    clients: u32,
    sent: (MetricsSnapshot, u64),
) -> bool {
    let (metrics, lost) = sent;
    let last = session.emitter@;
    &&& metrics.dropped == counters.dropped
    &&& metrics.queue_depth == counters.queue_depth
    &&& metrics.actual_rate_hz == session.actual_rate_hz
    &&& metrics.requested_rate_hz == session.requested_rate_hz
    &&& metrics.connected_clients == clients
    &&& last.last_dropped <= counters.dropped ==> last.last_dropped + lost == counters.dropped
    &&& last.last_dropped > counters.dropped ==> lost == 0
    &&& last.last_emit_ns < now_ns && last.last_packets_processed <= counters.packets_processed ==> {
        &&& last.last_packets_processed + metrics.packets_per_sec.packets == counters.packets_processed
        &&& last.last_emit_ns + metrics.packets_per_sec.elapsed_ns == now_ns
    }
    &&& last.last_emit_ns >= now_ns ==> metrics.packets_per_sec.packets == 0
}

/// Does the emitter now count from here?
pub open spec fn counts_from(session: StreamSession, counters: MetricsCounters, now_ns: u64) -> bool {
    &&& session.emitter@.last_emit_ns == now_ns
    &&& session.emitter@.last_packets_processed == counters.packets_processed
    &&& session.emitter@.last_dropped == counters.dropped
    &&& session.emitter@.emitted
}

/// Metrics go out once an interval has passed since the last ones, tell what
/// happened in between, and start the next interval. Until then nothing changes.
pub proof fn metrics_go_out_every_interval(
    session: &mut StreamSession,
    counters: MetricsCounters,
    now_ns: u64,
    clients: u32,
    r: Option<(MetricsSnapshot, u64)>,
)
    requires
        call_ensures(StreamSession::metrics_if_due, (session, &counters, now_ns, clients), r),
    ensures
        ({
            let (last, interval) = (old(session).emitter@.last_emit_ns, old(session).emitter@.interval_ns);
            r is Some <==> interval == 0 || last + interval <= now_ns
        }),
        r matches Some(sent) ==> tells_of(*old(session), counters, now_ns, clients, sent) && counts_from(
            *final(session),
            counters,
            now_ns,
        ),
        r is None ==> final(session).emitter@ == old(session).emitter@,
        final(session).emitter@.interval_ns == old(session).emitter@.interval_ns,
        final(session).actual_rate_hz == old(session).actual_rate_hz,
        final(session).requested_rate_hz == old(session).requested_rate_hz,
        final(session).last_sample_serial == old(session).last_sample_serial,
{
}

/// A session that ends without having sent metrics sends them at its end, and any
/// other sends no more.
pub proof fn short_sessions_send_metrics_at_their_end(
    session: &mut StreamSession,
    counters: MetricsCounters,
    now_ns: u64,
    clients: u32,
    r: Option<(MetricsSnapshot, u64)>,
)
    requires
        call_ensures(StreamSession::final_metrics, (session, &counters, now_ns, clients), r),
    ensures
        r is None <==> old(session).emitter@.emitted,
        r matches Some(sent) ==> tells_of(*old(session), counters, now_ns, clients, sent) && counts_from(
            *final(session),
            counters,
            now_ns,
        ),
{
}

/// A session starts with the rate that was asked for, has seen no sample and sent
/// no metrics, and counts from now.
pub proof fn sessions_start_from_now(
    requested_rate_hz: u32,
    interval_ms: u64,
    counters: MetricsCounters,
    now_ns: u64,
    r: StreamSession,
)
    requires
        call_ensures(StreamSession::new, (requested_rate_hz, interval_ms, &counters, now_ns), r),
    ensures
        r.actual_rate_hz == requested_rate_hz,
        r.requested_rate_hz == requested_rate_hz,
        r.last_sample_serial is None,
        r.emitter@.interval_ns == interval_ms * 1_000_000,
        r.emitter@.last_emit_ns == now_ns,
        r.emitter@.last_packets_processed == counters.packets_processed,
        r.emitter@.last_dropped == counters.dropped,
        !r.emitter@.emitted,
{
}

/// The loop ends only on a shutdown, never before the queue is empty, and rests
/// only after a pass that found nothing.
pub proof fn sessions_end_with_an_empty_queue(shutdown: bool, progressed: bool, depth: u32, r: LoopStep)
    requires
        call_ensures(after_pass, (shutdown, progressed, depth), r),
    ensures
        r == LoopStep::Stop <==> shutdown && !progressed && depth == 0,
        r == LoopStep::Continue <==> progressed,
        r == LoopStep::Rest <==> !progressed && (!shutdown || depth > 0),
{
}

proof fn lemma_successes(written: Seq<bool>, place: usize)
    requires
        written.len() <= usize::MAX,
    ensures
        successes(written).contains(place) <==> place < written.len() && written[place as int],
        forall|i: int, j: int|
            #![trigger successes(written)[i], successes(written)[j]]
            0 <= i < j < successes(written).len() ==> successes(written)[i] < successes(written)[j],
        forall|i: int| 0 <= i < successes(written).len() ==> #[trigger] successes(written)[i] < written.len(),
    decreases written.len(),
{
    if written.len() > 0 {
        let before = written.drop_last();
        lemma_successes(before, place);
        let all = successes(written);
        let earlier = successes(before);
        if written.last() {
            assert(all[earlier.len() as int] == written.len() - 1);
            if earlier.contains(place) {
                let k = choose|k: int| 0 <= k < earlier.len() && earlier[k] == place;
                assert(all[k] == place);
            }
            if all.contains(place) {
                let k = choose|k: int| 0 <= k < all.len() && all[k] == place;
                if k < earlier.len() {
                    assert(earlier[k] == place);
                }
            }
        }
    }
}

/// Exactly the clients that took the message stay, in their order, and the one
/// that is told of is the first that did not take it.
pub proof fn clients_that_took_the_message_stay(
    written: Vec<bool>,
    r: (Vec<usize>, Option<usize>),
    place: usize,
)
    requires
        written@.len() <= usize::MAX,
        call_ensures(surviving_clients, (&written,), r),
    ensures
        r.0@.contains(place) <==> place < written@.len() && written@[place as int],
        forall|i: int, j: int| #![trigger r.0@[i], r.0@[j]] 0 <= i < j < r.0@.len() ==> r.0@[i] < r.0@[j],
        r.1 is None <==> forall|j: int| 0 <= j < written@.len() ==> #[trigger] written@[j],
        r.1 matches Some(i) ==> i < written@.len() && !written@[i as int],
        r.1 matches Some(i) ==> forall|j: int| 0 <= j < i ==> #[trigger] written@[j],
{
    lemma_successes(written@, place);
}

/// Counting a sample, a lost event and the depth each move their own counter by
/// one and leave the others.
pub proof fn counters_count_their_own(
    sent: &mut MetricsCounters,
    lost: &mut MetricsCounters,
    deeper: &mut MetricsCounters,
    shallower: &mut MetricsCounters,
)
    requires
        call_ensures(MetricsCounters::increment_packets_processed, (sent,), ()),
        call_ensures(MetricsCounters::increment_dropped, (lost,), ()),
        call_ensures(MetricsCounters::increment_queue_depth, (deeper,), ()),
        call_ensures(MetricsCounters::decrement_queue_depth, (shallower,), ()),
    ensures
        final(sent).packets_processed == (old(sent).packets_processed + 1) % 0x1_0000_0000_0000_0000,
        final(sent).dropped == old(sent).dropped && final(sent).queue_depth == old(sent).queue_depth,
        final(lost).dropped == (old(lost).dropped + 1) % 0x1_0000_0000_0000_0000,
        final(lost).packets_processed == old(lost).packets_processed && final(lost).queue_depth == old(lost).queue_depth,
        old(deeper).queue_depth < u32::MAX ==> final(deeper).queue_depth == old(deeper).queue_depth + 1,
        old(deeper).queue_depth == u32::MAX ==> final(deeper).queue_depth == u32::MAX,
        final(deeper).packets_processed == old(deeper).packets_processed && final(deeper).dropped == old(deeper).dropped,
        old(shallower).queue_depth > 0 ==> final(shallower).queue_depth == old(shallower).queue_depth - 1,
        old(shallower).queue_depth == 0 ==> final(shallower).queue_depth == 0,
        final(shallower).packets_processed == old(shallower).packets_processed && final(shallower).dropped == old(
            shallower,
        ).dropped,
{
}

/// Counters start at nothing but the events that were lost before.
pub proof fn counters_start_at_nothing(dropped: u64, r: MetricsCounters, depth: u32)
    requires
        call_ensures(MetricsCounters::new, (dropped,), r),
        call_ensures(MetricsCounters::queue_depth, (&r,), depth),
    ensures
        r.packets_processed == 0,
        r.dropped == dropped,
        r.queue_depth == 0,
        depth == 0,
{
}

/// A rate is the packets over the time, and nothing where no time has passed.
pub proof fn rates_need_time(packets: u64, elapsed_ns: u64, r: PacketRate)
    requires
        call_ensures(packets_per_second, (packets, elapsed_ns), r),
    ensures
        r.elapsed_ns > 0,
        elapsed_ns > 0 ==> r.packets == packets && r.elapsed_ns == elapsed_ns,
        elapsed_ns == 0 ==> r.packets == 0,
{
}

/// Metrics are due once the interval has passed, and tell of the events that were
/// lost since the last ones.
pub proof fn emitters_wait_for_their_interval(
    emitter: MetricsEmitter,
    counters: MetricsCounters,
    now_ns: u64,
    due: bool,
    sent: bool,
    lost: u64,
)
    requires
        call_ensures(MetricsEmitter::due, (&emitter, now_ns), due),
        call_ensures(MetricsEmitter::has_emitted, (&emitter,), sent),
        call_ensures(MetricsEmitter::dropped_since_last_emit, (&emitter, &counters), lost),
    ensures
        due <==> emitter@.interval_ns == 0 || emitter@.last_emit_ns + emitter@.interval_ns <= now_ns,
        sent == emitter@.emitted,
        emitter@.last_dropped <= counters.dropped ==> emitter@.last_dropped + lost == counters.dropped,
        emitter@.last_dropped > counters.dropped ==> lost == 0,
{
}

/// The names of the ways out, of the encodings and of the levels are fixed, and
/// nothing else names one. The name of a value names that value.
pub proof fn settings_have_fixed_names(text: &str, t: Result<Transport, ConfigError>, f: Result<OutputFormat, ConfigError>)
    requires
        call_ensures(Transport::parse, (text,), t),
        call_ensures(OutputFormat::parse, (text,), f),
    ensures
        t matches Ok(Transport::Stdout) <==> text@ == "stdout"@,
        t matches Ok(Transport::Tcp) <==> text@ == "tcp"@,
        t matches Ok(Transport::Pipe) <==> text@ == "pipe"@,
        t matches Err(e) ==> e matches ConfigError::InvalidTransport { value } && value@ == text@,
        f matches Ok(OutputFormat::Postcard) <==> text@ == "postcard"@,
        f matches Ok(OutputFormat::Json) <==> text@ == "json"@,
        f matches Err(e) ==> e matches ConfigError::InvalidFormat { value } && value@ == text@,
{
    reveal_strlit("stdout");
    reveal_strlit("tcp");
    reveal_strlit("pipe");
    reveal_strlit("postcard");
    reveal_strlit("json");
    assert("stdout"@.len() == 6 && "tcp"@.len() == 3 && "pipe"@.len() == 4);
    assert("postcard"@.len() == 8 && "json"@.len() == 4);
}

/// The names of the levels are fixed, and nothing else names one.
pub proof fn levels_have_fixed_names(text: &str, r: Result<LogLevel, ConfigError>)
    requires
        call_ensures(LogLevel::parse, (text,), r),
    ensures
        r matches Ok(LogLevel::Trace) <==> text@ == "trace"@,
        r matches Ok(LogLevel::Debug) <==> text@ == "debug"@,
        r matches Ok(LogLevel::Info) <==> text@ == "info"@,
        r matches Ok(LogLevel::Warn) <==> text@ == "warn"@,
        r matches Ok(LogLevel::Error) <==> text@ == "error"@,
        r matches Err(e) ==> e matches ConfigError::InvalidLogLevel { value } && value@ == text@,
{
    reveal_strlit("trace");
    reveal_strlit("debug");
    reveal_strlit("info");
    reveal_strlit("warn");
    reveal_strlit("error");
    assert("trace"@[0] == 't' && "debug"@[0] == 'd' && "info"@[0] == 'i' && "warn"@[0] == 'w' && "error"@[0] == 'e');
}

/// What is written for a value is read as that value.
pub proof fn written_settings_are_read_back(
    t: Transport,
    f: OutputFormat,
    l: LogLevel,
    t_text: &'static str,
    f_text: &'static str,
    l_text: &'static str,
    t_back: Result<Transport, ConfigError>,
    f_back: Result<OutputFormat, ConfigError>,
    l_back: Result<LogLevel, ConfigError>,
)
    requires
        call_ensures(Transport::as_str, (t,), t_text),
        call_ensures(OutputFormat::as_str, (f,), f_text),
        call_ensures(LogLevel::as_str, (l,), l_text),
        call_ensures(Transport::parse, (t_text,), t_back),
        call_ensures(OutputFormat::parse, (f_text,), f_back),
        call_ensures(LogLevel::parse, (l_text,), l_back),
    ensures
        t_back matches Ok(back) && back == t,
        f_back matches Ok(back) && back == f,
        l_back matches Ok(back) && back == l,
{
}

/// What `given` holds, or else `before`.
pub open spec fn or_else<T>(given: Option<T>, before: T) -> T {
    if given is Some {
        given->0
    } else {
        before
    }
}

/// Arguments that go through win over the file, each for its own setting, and
/// what was not given stays as the file had it.
pub proof fn arguments_win_over_the_file(
    config: &mut Config,
    args: Args,
    r: Result<(), ConfigError>,
    t: Result<Transport, ConfigError>,
    f: Result<OutputFormat, ConfigError>,
    l: Result<LogLevel, ConfigError>,
)
    requires
        call_ensures(apply_cli_overrides, (config, &args), r),
        args.transport matches Some(text) ==> exists|s: &str|
            #![trigger s@]
            s@ == text@ && call_ensures(Transport::parse, (s,), t),
        args.format matches Some(text) ==> exists|s: &str|
            #![trigger s@]
            s@ == text@ && call_ensures(OutputFormat::parse, (s,), f),
        args.log_level matches Some(text) ==> exists|s: &str|
            #![trigger s@]
            s@ == text@ && call_ensures(LogLevel::parse, (s,), l),
    ensures
        r is Ok <==> (args.transport is Some ==> t is Ok) && (args.format is Some ==> f is Ok) && (args.log_level is Some
            ==> l is Ok),
        r is Ok ==> {
            let (before, after) = (*old(config), *final(config));
            &&& after.output.transport == if args.transport is Some {
                t->Ok_0
            } else {
                before.output.transport
            }
            &&& after.output.format == if args.format is Some {
                f->Ok_0
            } else {
                before.output.format
            }
            &&& after.telemetry.log_level == if args.log_level is Some {
                l->Ok_0
            } else {
                before.telemetry.log_level
            }
            &&& after.capture.queue_size == or_else(args.queue_size, before.capture.queue_size)
            &&& after.capture.requested_rate_hz == or_else(args.requested_rate_hz, before.capture.requested_rate_hz)
            &&& after.capture.flip_y == or_else(args.flip_y, before.capture.flip_y)
            &&& args.tcp_addr matches Some(text) ==> after.output.tcp_addr@ == text@
            &&& args.tcp_addr is None ==> after.output.tcp_addr@ == before.output.tcp_addr@
            &&& args.pipe_name matches Some(text) ==> after.output.pipe_name@ == text@
            &&& args.pipe_name is None ==> after.output.pipe_name@ == before.output.pipe_name@
        },
        final(config).capture.fields@ == old(config).capture.fields@,
        final(config).telemetry.metrics_interval_ms == old(config).telemetry.metrics_interval_ms,
{
}

/// A configuration can be used exactly where it asks for some rate, some room,
/// some field, some time between metrics, a pipe with a name and an address that
/// is one. The first of these that fails is the one that is told.
pub proof fn usable_configurations_are_complete(config: Config, is_socket: bool, r: Result<(), ConfigError>)
    requires
        call_ensures(Config::validate, (&config, is_socket), r),
    ensures
        ({
            let named = exists|i: int|
                0 <= i < config.output.pipe_name@.len() && !is_white(#[trigger] config.output.pipe_name@[i]);
            r is Ok <==> {
                &&& config.capture.queue_size != 0
                &&& config.capture.requested_rate_hz != 0
                &&& config.capture.fields@.len() != 0
                &&& config.telemetry.metrics_interval_ms != 0
                &&& named
                &&& is_socket
            }
        }),
        r matches Err(ConfigError::InvalidQueueSize) <==> config.capture.queue_size == 0,
        r matches Err(ConfigError::InvalidRequestedRate) <==> config.capture.queue_size != 0
            && config.capture.requested_rate_hz == 0,
        r matches Err(ConfigError::InvalidTcpAddr { value }) ==> !is_socket && value@ == config.output.tcp_addr@,
        r matches Err(ConfigError::EmptyFields) ==> config.capture.fields@.len() == 0,
        r matches Err(ConfigError::InvalidMetricsInterval) ==> config.telemetry.metrics_interval_ms == 0,
{
}

} // verus!
