//! The state behind a stream reader.
//!
//! Times are milliseconds.
use std::collections::VecDeque;
use vstd::prelude::*;

use crate::device::capabilities::DeviceCapabilities;
use crate::device::sample::PenSample;
use crate::stream::{Metrics, StreamMessage};

verus! {

/// Where a stream is read from.
#[derive(Clone, Debug, PartialEq, Eq)]
pub enum Source {
    /// Standard input, whose end is final.
    Stdin,
    /// A TCP address, connected anew after an end.
    Tcp(String),
    /// A named pipe, opened anew after an end.
    Pipe(String),
}

/// A source by its characters.
pub enum SourceView {
    Stdin,
    Tcp(Seq<char>),
    Pipe(Seq<char>),
}

impl View for Source {
    type V = SourceView;

    open spec fn view(&self) -> SourceView {
        match self {
            Source::Stdin => SourceView::Stdin,
            Source::Tcp(addr) => SourceView::Tcp(addr@),
            Source::Pipe(name) => SourceView::Pipe(name@),
        }
    }
}

impl Source {
    /// A copy.
    pub fn duplicate(&self) -> (r: Source)
        ensures
            r@ == self@,
    {
        match self {
            Source::Stdin => Source::Stdin,
            Source::Tcp(addr) => Source::Tcp(addr.clone()),
            Source::Pipe(name) => Source::Pipe(name.clone()),
        }
    }

    /// Is this the same source?
    pub fn same(&self, other: &Source) -> (r: bool)
        ensures
            r == (self@ == other@),
    {
        match (self, other) {
            (Source::Stdin, Source::Stdin) => true,
            (Source::Tcp(a), Source::Tcp(b)) => *a == *b,
            (Source::Pipe(a), Source::Pipe(b)) => *a == *b,
            _ => false,
        }
    }
}

/// Messages that the display buffer holds where nothing else is asked for.
pub const DEFAULT_DISPLAY_CAPACITY: usize = 4096;

/// Wait before the first attempt to reconnect.
pub const INITIAL_BACKOFF: u64 = 250;

/// Longest wait between two attempts.
pub const MAX_BACKOFF: u64 = 3000;

/// Longest sleep without a look at the stop flag.
pub const SLEEP_SLICE: u64 = 50;

/// The wait that follows a wait: twice as long, up to the longest.
pub open spec fn backoff_after(previous: int) -> int {
    if 2 * previous > MAX_BACKOFF {
        MAX_BACKOFF as int
    } else {
        2 * previous
    }
}

/// The wait that follows a wait.
pub fn next_backoff(previous: u64) -> (r: u64)
    ensures
        r == backoff_after(previous as int),
        r <= MAX_BACKOFF,
{
    if previous > MAX_BACKOFF / 2 {
        MAX_BACKOFF
    } else {
        2 * previous
    }
}

/// The wait before attempt `n` of a run of failures.
pub open spec fn nth_backoff(n: nat) -> int
    decreases n,
{
    if n == 0 {
        INITIAL_BACKOFF as int
    } else {
        backoff_after(nth_backoff((n - 1) as nat))
    }
}

/// Waits never shorten, never exceed the longest one, and reach it after four
/// failures.
pub proof fn backoff_grows_to_its_cap(n: nat)
    ensures
        INITIAL_BACKOFF <= nth_backoff(n) <= MAX_BACKOFF,
        nth_backoff(n) <= nth_backoff(n + 1),
        n >= 4 ==> nth_backoff(n) == MAX_BACKOFF,
    decreases n,
{
    if n > 0 {
        backoff_grows_to_its_cap((n - 1) as nat);
        if n == 4 {
            reveal_with_fuel(nth_backoff, 5);
        }
    }
}

/// The next piece of a sleep, taken off what remains of it; `None` once it is
/// over or a stop was asked for.
pub fn sleep_slice(remaining: &mut u64, stop: bool) -> (r: Option<u64>)
    ensures
        match r {
            Some(slice) => !stop && 0 < slice <= SLEEP_SLICE && slice + *final(remaining) == *old(remaining) && (slice
                < SLEEP_SLICE ==> *final(remaining) == 0),
            None => (stop || *old(remaining) == 0) && *final(remaining) == *old(remaining),
        },
{
    if *remaining == 0 || stop {
        return None;
    }
    let slice: u64 = if *remaining < SLEEP_SLICE {
        *remaining
    } else {
        SLEEP_SLICE
    };
    *remaining = *remaining - slice;
    Some(slice)
}

/// Is a source connected anew after an end or an error?
pub fn reconnects(source: &Source) -> (r: bool)
    ensures
        r == !(source is Stdin),
{
    match source {
        Source::Stdin => false,
        Source::Tcp(_) => true,
        Source::Pipe(_) => true,
    }
}

/// State of the connection.
#[derive(Clone, Copy, Debug, PartialEq, Eq, Structural)]
pub enum ConnectionStatus {
    Connecting,
    Connected,
    Disconnected,
}

/// What is known of a stream.
#[derive(Clone, Debug)]
pub struct SourceState {
    pub status: ConnectionStatus,
    pub latest_capabilities: Option<DeviceCapabilities>,
    pub latest_metrics: Option<Metrics>,
    /// Messages that the display buffer lost.
    pub display_dropped: u64,
    /// Samples that never arrived.
    pub serial_gaps: u64,
}

impl Default for SourceState {
    fn default() -> (r: SourceState)
        ensures
            r == (SourceState {
                status: ConnectionStatus::Connecting,
                latest_capabilities: None,
                latest_metrics: None,
                display_dropped: 0,
                serial_gaps: 0,
            }),
    {
        SourceState {
            status: ConnectionStatus::Connecting,
            latest_capabilities: None,
            latest_metrics: None,
            display_dropped: 0,
            serial_gaps: 0,
        }
    }
}

/// The last serial number that a reader saw.
#[derive(Debug)]
pub struct IngestState {
    pub last_serial: Option<u32>,
}

impl Default for IngestState {
    fn default() -> (r: IngestState)
        ensures
            r.last_serial is None,
    {
        IngestState { last_serial: None }
    }
}

/// What a reader shares with the display.
pub struct SharedView {
    pub state: SourceState,
    /// Messages for display, oldest first.
    pub messages: Seq<StreamMessage>,
    /// Has a connection been made since this was last asked?
    pub connected_since_check: bool,
    /// Messages that are kept for display.
    pub capacity: nat,
}

/// What a reader shares with the display. At most `capacity` messages are kept;
/// the oldest make room for new ones.
pub struct SharedSource {
    state: SourceState,
    messages: VecDeque<StreamMessage>,
    connected_since_check: bool,
    capacity: usize,
}

impl View for SharedSource {
    type V = SharedView;

    closed spec fn view(&self) -> SharedView {
        SharedView {
            state: self.state,
            messages: self.messages@,
            connected_since_check: self.connected_since_check,
            capacity: self.capacity as nat,
        }
    }
}

/// Samples missing between two serial numbers. A number that is no larger than
/// the one before counts as none missing.
pub open spec fn missing_between(last: Option<u32>, serial: u32) -> int {
    match last {
        Some(previous) => if serial > previous {
            serial - previous - 1
        } else {
            0
        },
        None => 0,
    }
}

impl SharedView {
    /// With a message added, the oldest one dropped where the buffer is full.
    pub open spec fn with_message(self, message: StreamMessage) -> SharedView {
        if self.messages.len() == self.capacity {
            SharedView {
                messages: if self.messages.len() > 0 {
                    self.messages.skip(1).push(message)
                } else {
                    seq![message]
                },
                state: SourceState { display_dropped: (self.state.display_dropped + 1) as u64, ..self.state },
                ..self
            }
        } else {
            SharedView { messages: self.messages.push(message), ..self }
        }
    }

    /// With what a message tells about the stream noted.
    pub open spec fn noting(self, message: StreamMessage, last_serial: Option<u32>) -> SharedView {
        SharedView {
            state: match message {
                StreamMessage::Capabilities(caps) => SourceState { latest_capabilities: Some(caps), ..self.state },
                StreamMessage::Metrics(metrics) => SourceState { latest_metrics: Some(metrics), ..self.state },
                StreamMessage::Sample(sample) => SourceState {
                    serial_gaps: (self.state.serial_gaps + missing_between(last_serial, sample.serial)) as u64,
                    ..self.state
                },
                _ => self.state,
            },
            ..self
        }
    }

    /// Can one more message be counted?
    pub open spec fn counts(self) -> bool {
        self.state.display_dropped < u64::MAX && self.state.serial_gaps <= u64::MAX - u32::MAX
    }
}

impl SharedSource {
    /// A buffer that keeps `capacity` messages, and nothing known yet.
    pub fn new(capacity: usize) -> (r: SharedSource)
        ensures
            r@ == (SharedView {
                state: SourceState {
                    status: ConnectionStatus::Connecting,
                    latest_capabilities: None,
                    latest_metrics: None,
                    display_dropped: 0,
                    serial_gaps: 0,
                },
                messages: Seq::empty(),
                connected_since_check: false,
                capacity: capacity as nat,
            }),
            r@.counts(),
    {
        SharedSource {
            state: SourceState::default(),
            messages: VecDeque::new(),
            connected_since_check: false,
            capacity,
        }
    }

    /// What is known of the stream.
    pub fn state(&self) -> (r: SourceState)
        ensures
            r == self@.state,
    {
        SourceState {
            status: self.state.status,
            latest_capabilities: match &self.state.latest_capabilities {
                Some(caps) => Some(caps.duplicate()),
                None => None,
            },
            latest_metrics: self.state.latest_metrics,
            display_dropped: self.state.display_dropped,
            serial_gaps: self.state.serial_gaps,
        }
    }

    /// Can one more message be counted? The counters hold every number of
    /// messages that a stream can deliver in practice.
    pub fn can_count(&self) -> (r: bool)
        ensures
            r == self@.counts(),
    {
        self.state.display_dropped < u64::MAX && self.state.serial_gaps <= u64::MAX - u32::MAX as u64
    }

    /// Note the state of the connection, and that one was made.
    pub fn set_status(&mut self, status: ConnectionStatus)
        ensures
            final(self)@ == (SharedView {
                state: SourceState { status, ..old(self)@.state },
                connected_since_check: old(self)@.connected_since_check || status == ConnectionStatus::Connected,
                ..old(self)@
            }),
    {
        if status == ConnectionStatus::Connected {
            self.connected_since_check = true;
        }
        self.state.status = status;
    }

    /// Has a connection been made since this was last asked?
    pub fn take_connected_flag(&mut self) -> (r: bool)
        ensures
            r == old(self)@.connected_since_check,
            final(self)@ == (SharedView { connected_since_check: false, ..old(self)@ }),
    {
        let taken = self.connected_since_check;
        self.connected_since_check = false;
        taken
    }

    /// Take all messages out, oldest first.
    pub fn drain_messages(&mut self) -> (r: Vec<StreamMessage>)
        ensures
            r@ == old(self)@.messages,
            final(self)@ == (SharedView { messages: Seq::empty(), ..old(self)@ }),
    {
        let mut taken: Vec<StreamMessage> = Vec::new();
        let ghost all = self.messages@;
        while self.messages.len() > 0
            invariant
                self.messages@.len() <= all.len(),
                taken@ =~= all.take(all.len() - self.messages@.len()),
                self.messages@ =~= all.skip(all.len() - self.messages@.len()),
                self@ == (SharedView { messages: self.messages@, ..old(self)@ }),
            decreases self.messages@.len(),
        {
            if let Some(message) = self.messages.pop_front() {
                taken.push(message);
            }
        }
        proof {
            assert(taken@ =~= all);
            assert(self.messages@ =~= Seq::<StreamMessage>::empty());
        }
        taken
    }

    fn push_message(&mut self, message: StreamMessage)
        requires
            old(self)@.state.display_dropped < u64::MAX,
        ensures
            final(self)@ == old(self)@.with_message(message),
    {
        if self.messages.len() == self.capacity {
            let dropped = self.messages.pop_front();
            self.state.display_dropped = self.state.display_dropped + 1;
        }
        self.messages.push_back(message);
        proof {
            assert(self.messages@ =~= old(self)@.with_message(message).messages);
        }
    }

    fn record_serial_gap(&mut self, sample: &PenSample, ingest_state: &mut IngestState)
        requires
            old(self)@.counts(),
        ensures
            final(self)@ == old(self)@.noting(StreamMessage::Sample(*sample), old(ingest_state).last_serial),
            final(ingest_state).last_serial == Some(sample.serial),
            final(self)@.state.display_dropped == old(self)@.state.display_dropped,
    {
        if let Some(previous) = ingest_state.last_serial {
            let jump: u32 = sample.serial.saturating_sub(previous);
            if jump > 1 {
                self.state.serial_gaps = self.state.serial_gaps + (jump - 1) as u64;
            }
        }
        ingest_state.last_serial = Some(sample.serial);
    }
}

/// Take in a message: note what it tells about the stream, then keep it for
/// display.
pub fn handle_message(message: StreamMessage, ingest_state: &mut IngestState, shared: &mut SharedSource)
    requires
        old(shared)@.counts(),
    ensures
        final(shared)@ == old(shared)@.noting(message, old(ingest_state).last_serial).with_message(message),
        final(ingest_state).last_serial == match message {
            StreamMessage::Sample(sample) => Some(sample.serial),
            _ => old(ingest_state).last_serial,
        },
{
    match &message {
        StreamMessage::Capabilities(caps) => {
            shared.state.latest_capabilities = Some(caps.duplicate());
        },
        StreamMessage::Metrics(metrics) => {
            shared.state.latest_metrics = Some(*metrics);
        },
        StreamMessage::Sample(sample) => {
            shared.record_serial_gap(sample, ingest_state);
        },
        _ => {},
    }
    shared.push_message(message);
}

/// The buffer never grows past its capacity, keeps the newest messages in
/// order, and counts every one that it loses.
pub proof fn display_buffers_keep_the_newest(shared: SharedView, message: StreamMessage)
    requires
        0 < shared.capacity,
        shared.messages.len() <= shared.capacity,
        shared.counts(),
    ensures
        ({
            let after = shared.with_message(message);
            &&& after.messages.len() <= after.capacity
            &&& after.messages.last() == message
            &&& after.messages.len() + after.state.display_dropped == shared.messages.len()
                + shared.state.display_dropped + 1
            &&& after.messages == shared.messages.push(message).skip(
                shared.messages.len() + 1 - after.messages.len(),
            )
        }),
{
    let after = shared.with_message(message);
    if shared.messages.len() == shared.capacity {
        assert(after.messages =~= shared.messages.push(message).skip(1));
    } else {
        assert(after.messages =~= shared.messages.push(message).skip(0));
    }
}

/// The number of the last sample among messages, if one came, or `before`.
pub open spec fn serial_seen(before: Option<u32>, messages: Seq<StreamMessage>) -> Option<u32>
    decreases messages.len(),
{
    if messages.len() == 0 {
        before
    } else {
        match messages.last() {
            StreamMessage::Sample(sample) => Some(sample.serial),
            _ => serial_seen(before, messages.drop_last()),
        }
    }
}

/// What is shared after messages were taken in, in order.
pub open spec fn after_messages(shared: SharedView, before: Option<u32>, messages: Seq<StreamMessage>) -> SharedView
    decreases messages.len(),
{
    if messages.len() == 0 {
        shared
    } else {
        let earlier = messages.drop_last();
        after_messages(shared, before, earlier).noting(
            messages.last(),
            serial_seen(before, earlier),
        ).with_message(messages.last())
    }
}

/// The numbers of the samples among messages, in order.
pub open spec fn serials_in(messages: Seq<StreamMessage>) -> Seq<u32>
    decreases messages.len(),
{
    if messages.len() == 0 {
        Seq::empty()
    } else {
        match messages.last() {
            StreamMessage::Sample(sample) => serials_in(messages.drop_last()).push(sample.serial),
            _ => serials_in(messages.drop_last()),
        }
    }
}

/// Samples missing between each number and the next, all in all.
pub open spec fn missing_in(serials: Seq<u32>) -> int
    decreases serials.len(),
{
    if serials.len() < 2 {
        0
    } else {
        missing_in(serials.drop_last()) + missing_between(Some(serials[serials.len() - 2]), serials.last())
    }
}

/// The device as the messages described it last, if they did.
pub open spec fn last_capabilities(messages: Seq<StreamMessage>) -> Option<DeviceCapabilities>
    decreases messages.len(),
{
    if messages.len() == 0 {
        None
    } else {
        match messages.last() {
            StreamMessage::Capabilities(caps) => Some(caps),
            _ => last_capabilities(messages.drop_last()),
        }
    }
}

/// The metrics that the messages brought last, if they did.
pub open spec fn last_metrics(messages: Seq<StreamMessage>) -> Option<Metrics>
    decreases messages.len(),
{
    if messages.len() == 0 {
        None
    } else {
        match messages.last() {
            StreamMessage::Metrics(metrics) => Some(metrics),
            _ => last_metrics(messages.drop_last()),
        }
    }
}

/// The smaller of two numbers.
pub open spec fn smaller(a: nat, b: nat) -> nat {
    if a < b {
        a
    } else {
        b
    }
}

/// A reader that nobody empties holds the last messages of its stream, as many
/// as it has room for, in the order in which they came. It has counted all
/// others as dropped and every number that is missing between two samples, and
/// knows the device and the metrics that were told last.
pub proof fn readers_hold_the_last_messages(shared: SharedView, messages: Seq<StreamMessage>)
    requires
        0 < shared.capacity,
        shared.messages.len() == 0,
        shared.state.display_dropped == 0,
        shared.state.serial_gaps == 0,
        shared.state.latest_capabilities is None,
        shared.state.latest_metrics is None,
        messages.len() <= u64::MAX,
        missing_in(serials_in(messages)) <= u64::MAX,
    ensures
        ({
            let after = after_messages(shared, None, messages);
            let kept = smaller(messages.len(), shared.capacity);
            &&& after.capacity == shared.capacity
            &&& after.messages == messages.skip(messages.len() - kept)
            &&& after.state.display_dropped == messages.len() - kept
            &&& after.state.serial_gaps == missing_in(serials_in(messages))
            &&& after.state.latest_capabilities == last_capabilities(messages)
            &&& after.state.latest_metrics == last_metrics(messages)
            &&& after.state.status == shared.state.status
            &&& after.connected_since_check == shared.connected_since_check
        }),
    decreases messages.len(),
{
    lemma_last_serial(messages);
    if messages.len() == 0 {
        assert(messages.skip(0) =~= shared.messages);
    } else {
        let earlier = messages.drop_last();
        lemma_last_serial(earlier);
        lemma_missing_grows(earlier, messages.last());
        assert(earlier.push(messages.last()) =~= messages);
        readers_hold_the_last_messages(shared, earlier);
        let after = after_messages(shared, None, messages);
        let kept = smaller(messages.len(), shared.capacity);
        assert(after.messages =~= messages.skip(messages.len() - kept));
    }
}

/// The last number that a reader saw is the last one among the messages.
proof fn lemma_last_serial(messages: Seq<StreamMessage>)
    ensures
        serial_seen(None, messages) == if serials_in(messages).len() == 0 {
            None
        } else {
            Some(serials_in(messages).last())
        },
    decreases messages.len(),
{
    if messages.len() > 0 {
        lemma_last_serial(messages.drop_last());
    }
}

/// One more message never makes a number less missing.
proof fn lemma_missing_grows(earlier: Seq<StreamMessage>, message: StreamMessage)
    ensures
        missing_in(serials_in(earlier)) >= 0,
        missing_in(serials_in(earlier.push(message))) == missing_in(serials_in(earlier)) + match message {
            StreamMessage::Sample(sample) => missing_between(serial_seen(None, earlier), sample.serial),
            _ => 0,
        },
        missing_in(serials_in(earlier.push(message))) >= missing_in(serials_in(earlier)),
{
    lemma_last_serial(earlier);
    lemma_missing_is_counted(serials_in(earlier));
    assert(earlier.push(message).drop_last() =~= earlier);
    if let StreamMessage::Sample(sample) = message {
        let serials = serials_in(earlier);
        assert(serials.push(sample.serial).drop_last() =~= serials);
    }
}

proof fn lemma_missing_is_counted(serials: Seq<u32>)
    ensures
        missing_in(serials) >= 0,
    decreases serials.len(),
{
    if serials.len() >= 2 {
        lemma_missing_is_counted(serials.drop_last());
    }
}

/// What the reader does next.
#[derive(Clone, Copy, Debug, PartialEq, Eq, Structural)]
pub enum ReaderStep {
    /// Open the source and read it to its end.
    Attempt,
    /// Sleep for so many milliseconds, then try again.
    Sleep(u64),
    /// End.
    Finish,
}

/// The reconnect policy of a reader.
#[derive(Clone, Copy, Debug, PartialEq, Eq, Structural)]
pub struct Reconnect {
    /// Is the source connected anew after an end?
    pub retry: bool,
    /// The wait before the next attempt.
    pub backoff: u64,
}

impl Reconnect {
    /// The policy for a source.
    pub fn new(source: &Source) -> (r: Reconnect)
        ensures
            r == (Reconnect { retry: !(source is Stdin), backoff: INITIAL_BACKOFF }),
    {
        Reconnect { retry: reconnects(source), backoff: INITIAL_BACKOFF }
    }

    /// Before an attempt: a stop ends the reader, and the connection is then
    /// down; otherwise it is being made, and a flag left from before is gone.
    pub fn begin(&self, stop: bool, shared: &mut SharedSource) -> (r: ReaderStep)
        ensures
            r == (if stop {
                ReaderStep::Finish
            } else {
                ReaderStep::Attempt
            }),
            final(shared)@ == (if stop {
                SharedView {
                    state: SourceState { status: ConnectionStatus::Disconnected, ..old(shared)@.state },
                    ..old(shared)@
                }
            } else {
                SharedView {
                    state: SourceState { status: ConnectionStatus::Connecting, ..old(shared)@.state },
                    connected_since_check: false,
                    ..old(shared)@
                }
            }),
    {
        if stop {
            shared.set_status(ConnectionStatus::Disconnected);
            return ReaderStep::Finish;
        }
        shared.set_status(ConnectionStatus::Connecting);
        let stale = shared.take_connected_flag();
        ReaderStep::Attempt
    }

    /// After an attempt: the connection is down. A source that is not retried
    /// ends the reader, and so does a stop. Otherwise the wait starts over where
    /// a connection was made, and the next one is longer.
    pub fn after_attempt(&mut self, stop: bool, shared: &mut SharedSource) -> (r: ReaderStep)
        ensures
            final(shared)@ == (SharedView {
                state: SourceState { status: ConnectionStatus::Disconnected, ..old(shared)@.state },
                connected_since_check: false,
                ..old(shared)@
            }),
            final(self).retry == old(self).retry,
            ({
                let wait = if old(shared)@.connected_since_check {
                    INITIAL_BACKOFF
                } else {
                    old(self).backoff
                };
                if !old(self).retry || stop {
                    r == ReaderStep::Finish && final(self).backoff == old(self).backoff
                } else {
                    r == ReaderStep::Sleep(wait) && final(self).backoff == backoff_after(wait as int)
                }
            }),
    {
        let did_connect = shared.take_connected_flag();
        shared.set_status(ConnectionStatus::Disconnected);
        if !self.retry || stop {
            return ReaderStep::Finish;
        }
        if did_connect {
            self.backoff = INITIAL_BACKOFF;
        }
        let wait: u64 = self.backoff;
        self.backoff = next_backoff(wait);
        ReaderStep::Sleep(wait)
    }
}

/// How a run of reading a stream ended.
#[derive(Clone, Copy, Debug, PartialEq, Eq, Structural)]
pub enum StreamEnd {
    /// The stream ended, in or between two frames.
    Truncated,
    /// Something went wrong.
    Failed,
}

/// After a stream was read to its end: the connection is down. An end of the
/// stream is no error.
pub fn finish_ingest(end: StreamEnd, shared: &mut SharedSource) -> (r: Option<SourceState>)
    ensures
        final(shared)@ == (SharedView {
            state: SourceState { status: ConnectionStatus::Disconnected, ..old(shared)@.state },
            ..old(shared)@
        }),
        r == match end {
            StreamEnd::Truncated => Some(final(shared)@.state),
            StreamEnd::Failed => None,
        },
{
    shared.set_status(ConnectionStatus::Disconnected);
    match end {
        StreamEnd::Truncated => Some(shared.state()),
        StreamEnd::Failed => None,
    }
}

/// Sources are the same by their kind and their address, and a copy is the same.
pub proof fn sources_are_the_same_by_address(a: Source, b: Source, same: bool, copy: Source)
    requires
        call_ensures(Source::same, (&a, &b), same),
        call_ensures(Source::duplicate, (&a,), copy),
    ensures
        same <==> match (a, b) {
            (Source::Stdin, Source::Stdin) => true,
            (Source::Tcp(x), Source::Tcp(y)) => x@ == y@,
            (Source::Pipe(x), Source::Pipe(y)) => x@ == y@,
            _ => false,
        },
        match (a, copy) {
            (Source::Stdin, Source::Stdin) => true,
            (Source::Tcp(x), Source::Tcp(y)) => x@ == y@,
            (Source::Pipe(x), Source::Pipe(y)) => x@ == y@,
            _ => false,
        },
{
}

/// A buffer starts empty, connecting, and with nothing lost.
pub proof fn buffers_start_empty(capacity: usize, fresh: SharedSource, shared: SharedSource, state: SourceState, room: bool)
    requires
        call_ensures(SharedSource::new, (capacity,), fresh),
        call_ensures(SharedSource::state, (&shared,), state),
        call_ensures(SharedSource::can_count, (&shared,), room),
    ensures
        fresh@.messages.len() == 0,
        fresh@.capacity == capacity,
        !fresh@.connected_since_check,
        fresh@.state.status is Connecting,
        fresh@.state.latest_capabilities is None,
        fresh@.state.latest_metrics is None,
        fresh@.state.display_dropped == 0 && fresh@.state.serial_gaps == 0,
        state == shared@.state,
        room <==> shared@.state.display_dropped < 0xFFFF_FFFF_FFFF_FFFF && shared@.state.serial_gaps
            <= 0xFFFF_FFFF_0000_0000,
{
}

} // verus!
