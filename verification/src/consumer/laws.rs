//! What holds of every reader of a stream.
//!
//! The laws speak of calls: of what went in and what came out.
use vstd::prelude::*;

use crate::consumer::source::{
    finish_ingest, handle_message, next_backoff, reconnects, sleep_slice, ConnectionStatus, IngestState, ReaderStep,
    Reconnect, SharedSource, Source, SourceState, StreamEnd,
};
use crate::stream::StreamMessage;

verus! {

/// A message is kept for display behind the others; where there is no room the
/// oldest one goes, and is counted. Which connection it came over stays as it was.
pub proof fn messages_are_kept_for_display(
    message: StreamMessage,
    ingest: &mut IngestState,
    shared: &mut SharedSource,
)
    requires
        old(shared)@.counts(),
        0 < old(shared)@.capacity,
        old(shared)@.messages.len() <= old(shared)@.capacity,
        call_ensures(handle_message, (message, ingest, shared), ()),
    ensures
        ({
            let (before, after) = (old(shared)@, final(shared)@);
            let full = before.messages.len() == before.capacity;
            &&& after.messages.last() == message
            &&& !full ==> after.messages.drop_last() == before.messages && after.state.display_dropped
                == before.state.display_dropped
            &&& full ==> after.messages.drop_last() == before.messages.drop_first() && after.state.display_dropped
                == before.state.display_dropped + 1
            &&& after.capacity == before.capacity
            &&& after.state.status == before.state.status
            &&& after.connected_since_check == before.connected_since_check
        }),
{
    let (before, after) = (old(shared)@, final(shared)@);
    if before.messages.len() == before.capacity {
        assert(after.messages.drop_last() =~= before.messages.drop_first());
    } else {
        assert(after.messages.drop_last() =~= before.messages);
    }
}

/// A message tells about the stream: a description becomes the latest one, and so
/// do metrics. A sample tells its number, and every number skipped since the last
/// sample is counted as missing; one that does not go up skips none.
pub proof fn messages_tell_about_the_stream(
    message: StreamMessage,
    ingest: &mut IngestState,
    shared: &mut SharedSource,
)
    requires
        old(shared)@.counts(),
        call_ensures(handle_message, (message, ingest, shared), ()),
    ensures
        ({
            let (before, after) = (old(shared)@.state, final(shared)@.state);
            &&& message matches StreamMessage::Capabilities(caps) ==> after.latest_capabilities == Some(caps)
            &&& !(message is Capabilities) ==> after.latest_capabilities == before.latest_capabilities
            &&& message matches StreamMessage::Metrics(metrics) ==> after.latest_metrics == Some(metrics)
            &&& !(message is Metrics) ==> after.latest_metrics == before.latest_metrics
            &&& !(message is Sample) ==> after.serial_gaps == before.serial_gaps && final(ingest).last_serial == old(
                ingest,
            ).last_serial
            &&& message matches StreamMessage::Sample(sample) ==> {
                &&& final(ingest).last_serial == Some(sample.serial)
                &&& match old(ingest).last_serial {
                    Some(last) if last < sample.serial => last + 1 + (after.serial_gaps - before.serial_gaps)
                        == sample.serial,
                    _ => after.serial_gaps == before.serial_gaps,
                }
            }
        }),
{
}

/// A wait is followed by one twice as long, but never longer than three seconds.
pub proof fn waits_double_up_to_three_seconds(previous: u64, r: u64)
    requires
        call_ensures(next_backoff, (previous,), r),
    ensures
        previous <= 1500 ==> r == previous + previous,
        previous >= 1500 ==> r == 3000,
{
}

/// A sleep is taken in pieces of fifty milliseconds, the last one shorter, until
/// nothing remains or a stop was asked for.
pub proof fn sleeps_are_taken_in_pieces(remaining: &mut u64, stop: bool, r: Option<u64>)
    requires
        call_ensures(sleep_slice, (remaining, stop), r),
    ensures
        r is None <==> stop || *old(remaining) == 0,
        r is None ==> *final(remaining) == *old(remaining),
        r matches Some(piece) ==> {
            &&& *old(remaining) >= 50 ==> piece == 50
            &&& *old(remaining) < 50 ==> piece == *old(remaining)
            &&& *final(remaining) + piece == *old(remaining)
        },
{
}

/// Everything but standard input is connected anew, after a quarter of a second
/// at first.
pub proof fn standard_input_ends_for_good(source: Source, r: bool, policy: Reconnect)
    requires
        call_ensures(reconnects, (&source,), r),
        call_ensures(Reconnect::new, (&source,), policy),
    ensures
        r <==> source is Tcp || source is Pipe,
        policy.retry == r,
        policy.backoff == 250,
{
}

/// Before an attempt a reader is connecting, and knows of no connection yet; one
/// that was stopped is down and ends.
pub proof fn attempts_begin_with_connecting(policy: Reconnect, stop: bool, shared: &mut SharedSource, r: ReaderStep)
    requires
        call_ensures(Reconnect::begin, (&policy, stop, shared), r),
    ensures
        stop ==> r == ReaderStep::Finish && final(shared)@.state.status == ConnectionStatus::Disconnected,
        !stop ==> r == ReaderStep::Attempt && final(shared)@.state.status == ConnectionStatus::Connecting
            && !final(shared)@.connected_since_check,
        final(shared)@.messages == old(shared)@.messages,
        final(shared)@.state.display_dropped == old(shared)@.state.display_dropped,
        final(shared)@.state.latest_capabilities == old(shared)@.state.latest_capabilities,
{
}

/// After an attempt the reader is down. One that may try again waits: as long as
/// its policy says, or a quarter of a second where a connection had been made. The
/// wait after that is longer.
pub proof fn failed_attempts_wait_longer(
    policy: &mut Reconnect,
    stop: bool,
    shared: &mut SharedSource,
    r: ReaderStep,
    longer: u64,
)
    requires
        call_ensures(Reconnect::after_attempt, (policy, stop, shared), r),
        r matches ReaderStep::Sleep(wait) ==> call_ensures(next_backoff, (wait,), longer),
    ensures
        final(shared)@.state.status == ConnectionStatus::Disconnected,
        !final(shared)@.connected_since_check,
        final(shared)@.messages == old(shared)@.messages,
        final(policy).retry == old(policy).retry,
        r == ReaderStep::Finish <==> stop || !old(policy).retry,
        !(r is Attempt),
        r matches ReaderStep::Sleep(wait) ==> {
            &&& old(shared)@.connected_since_check ==> wait == 250
            &&& !old(shared)@.connected_since_check ==> wait == old(policy).backoff
            &&& final(policy).backoff == longer
        },
{
}

/// The state of the connection is the one that was noted last, and a connection
/// that was made is remembered until it is asked for, once.
pub proof fn connections_are_remembered_once(
    shared: &mut SharedSource,
    status: ConnectionStatus,
    asked: &mut SharedSource,
    flag: bool,
)
    requires
        call_ensures(SharedSource::set_status, (shared, status), ()),
        call_ensures(SharedSource::take_connected_flag, (asked,), flag),
    ensures
        final(shared)@.state.status == status,
        status == ConnectionStatus::Connected ==> final(shared)@.connected_since_check,
        status != ConnectionStatus::Connected ==> final(shared)@.connected_since_check == old(
            shared,
        )@.connected_since_check,
        final(shared)@.messages == old(shared)@.messages,
        flag == old(asked)@.connected_since_check,
        !final(asked)@.connected_since_check,
        final(asked)@.messages == old(asked)@.messages,
        final(asked)@.state == old(asked)@.state,
{
}

/// Taking the messages out gives them all, in order, and leaves none.
pub proof fn drained_readers_are_empty(shared: &mut SharedSource, r: Vec<StreamMessage>)
    requires
        call_ensures(SharedSource::drain_messages, (shared,), r),
    ensures
        r@ == old(shared)@.messages,
        final(shared)@.messages.len() == 0,
        final(shared)@.state == old(shared)@.state,
        final(shared)@.capacity == old(shared)@.capacity,
{
}

/// A stream that ended is down. An end between frames gives what is known of the
/// stream, a fault gives nothing.
pub proof fn ended_streams_are_down(end: StreamEnd, shared: &mut SharedSource, r: Option<SourceState>)
    requires
        call_ensures(finish_ingest, (end, shared), r),
    ensures
        final(shared)@.state.status == ConnectionStatus::Disconnected,
        final(shared)@.messages == old(shared)@.messages,
        final(shared)@.state.serial_gaps == old(shared)@.state.serial_gaps,
        end == StreamEnd::Truncated <==> r is Some,
        r matches Some(known) ==> known == final(shared)@.state,
{
}

} // verus!
