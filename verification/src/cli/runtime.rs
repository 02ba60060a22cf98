//! The way of an event from capture to the stream.
use vstd::prelude::*;

use crate::cli::metrics::{since, EmitterView, MetricsCounters, MetricsEmitter, MetricsSnapshot};
use crate::device::sample::SampleEvent;
use crate::stream::{message_of, stream_message_from_event, StreamMessage};

verus! {

/// Declares `rtrb::Producer`, the writing end of a ring. Trusted: that there
/// is such a type; what it holds is told by the names below.
#[verifier::external_type_specification]
#[verifier::external_body]
#[verifier::reject_recursive_types(T)]
pub struct ExProducer<T>(rtrb::Producer<T>);

/// Declares `rtrb::Consumer`, the reading end of a ring. Trusted: that there
/// is such a type; what it holds is told by the names below.
#[verifier::external_type_specification]
#[verifier::external_body]
#[verifier::reject_recursive_types(T)]
pub struct ExConsumer<T>(rtrb::Consumer<T>);

/// The events in the ring of which these are the two ends, oldest first.
pub uninterp spec fn ring_contents(
    producer: rtrb::Producer<SampleEvent>,
    consumer: rtrb::Consumer<SampleEvent>,
) -> Seq<SampleEvent>;

/// How many events fit in the ring of which these are the two ends.
pub uninterp spec fn ring_capacity(
    producer: rtrb::Producer<SampleEvent>,
    consumer: rtrb::Consumer<SampleEvent>,
) -> nat;

/// Are these the two ends of one ring?
pub uninterp spec fn ring_paired(
    producer: rtrb::Producer<SampleEvent>,
    consumer: rtrb::Consumer<SampleEvent>,
) -> bool;

/// Calls `rtrb::RingBuffer::new`. Trusted: both ends belong to one ring of the
/// given capacity, which is empty. The call panics where the slots take more
/// than `isize::MAX` bytes; an event takes fewer than 1024.
#[verifier::external_body]
fn new_ring(capacity: usize) -> (r: (rtrb::Producer<SampleEvent>, rtrb::Consumer<SampleEvent>))
    requires
        capacity * 1024 <= isize::MAX,
    ensures
        ring_paired(r.0, r.1),
        ring_contents(r.0, r.1) == Seq::<SampleEvent>::empty(),
        ring_capacity(r.0, r.1) == capacity,
{
    rtrb::RingBuffer::<SampleEvent>::new(capacity)
}

/// Calls `rtrb::Producer::push`. Trusted: an event goes behind the others
/// where the ring has room, and comes back where it has none. The other end is
/// held while this happens, so nothing leaves the ring meanwhile.
#[verifier::external_body]
fn push_ring(
    producer: &mut rtrb::Producer<SampleEvent>,
    consumer: &rtrb::Consumer<SampleEvent>,
    event: SampleEvent,
) -> (r: Result<(), SampleEvent>)
    requires
        ring_paired(*old(producer), *consumer),
    ensures
        ring_paired(*final(producer), *consumer),
        ring_capacity(*final(producer), *consumer) == ring_capacity(*old(producer), *consumer),
        match r {
            Ok(_) => ring_contents(*old(producer), *consumer).len() < ring_capacity(*old(producer), *consumer)
                && ring_contents(*final(producer), *consumer) == ring_contents(*old(producer), *consumer).push(event),
            Err(back) => ring_contents(*old(producer), *consumer).len() >= ring_capacity(*old(producer), *consumer)
                && back == event && ring_contents(*final(producer), *consumer) == ring_contents(
                *old(producer),
                *consumer,
            ),
        },
{
    match producer.push(event) {
        Ok(()) => Ok(()),
        Err(rtrb::PushError::Full(back)) => Err(back),
    }
}

/// Calls `rtrb::Consumer::pop`. Trusted: the oldest event leaves the ring,
/// where there is one. The other end is held while this happens, so nothing
/// enters the ring meanwhile.
#[verifier::external_body]
fn pop_ring(
    producer: &rtrb::Producer<SampleEvent>,
    consumer: &mut rtrb::Consumer<SampleEvent>,
) -> (r: Option<SampleEvent>)
    requires
        ring_paired(*producer, *old(consumer)),
    ensures
        ring_paired(*producer, *final(consumer)),
        ring_capacity(*producer, *final(consumer)) == ring_capacity(*producer, *old(consumer)),
        match r {
            Some(event) => ring_contents(*producer, *old(consumer)).len() > 0 && event == ring_contents(
                *producer,
                *old(consumer),
            )[0] && ring_contents(*producer, *final(consumer)) == ring_contents(*producer, *old(consumer)).skip(1),
            None => ring_contents(*producer, *old(consumer)).len() == 0 && ring_contents(*producer, *final(consumer))
                == ring_contents(*producer, *old(consumer)),
        },
{
    consumer.pop().ok()
}

/// The bounded queue between capture and stream. When it is full, the oldest
/// event makes room for the newest.
pub struct EventQueue {
    producer: rtrb::Producer<SampleEvent>,
    consumer: rtrb::Consumer<SampleEvent>,
}

impl View for EventQueue {
    type V = Seq<SampleEvent>;

    closed spec fn view(&self) -> Seq<SampleEvent> {
        ring_contents(self.producer, self.consumer)
    }
}

/// Events and counters after an event came to a queue that holds `capacity`
/// events. Where the queue is full, its oldest event is dropped, provided that
/// the reading end is free and there is one; without room after that, the new
/// event is dropped too.
pub open spec fn enqueued(
    events: Seq<SampleEvent>,
    counters: MetricsCounters,
    capacity: nat,
    reader_free: bool,
    event: SampleEvent,
) -> (Seq<SampleEvent>, MetricsCounters) {
    if events.len() < capacity {
        (events.push(event), counters.deeper())
    } else if reader_free && events.len() > 0 {
        if events.len() - 1 < capacity {
            (events.skip(1).push(event), counters.with_drop().shallower().deeper())
        } else {
            (events.skip(1), counters.with_drop().shallower().with_drop())
        }
    } else {
        (events, counters.with_drop().with_drop())
    }
}

impl EventQueue {
    /// How many events the queue holds at most.
    pub closed spec fn capacity(self) -> nat {
        ring_capacity(self.producer, self.consumer)
    }

    /// Does the queue own both ends of one ring, and hold no more than fits?
    pub closed spec fn valid(self) -> bool {
        ring_paired(self.producer, self.consumer) && self@.len() <= self.capacity()
    }

    /// An empty queue.
    pub fn new(capacity: usize) -> (r: EventQueue)
        requires
            capacity * 1024 <= isize::MAX,
        ensures
            r@ == Seq::<SampleEvent>::empty(),
            r.capacity() == capacity,
            r.valid(),
    {
        let (producer, consumer) = new_ring(capacity);
        EventQueue { producer, consumer }
    }

    /// Queue an event, and count what becomes of it and of what it displaces.
    /// `reader_free` says whether the reading end may be used for that now.
    pub fn enqueue_event(&mut self, reader_free: bool, counters: &mut MetricsCounters, event: SampleEvent)
        requires
            old(self).valid(),
        ensures
            final(self).capacity() == old(self).capacity(),
            (final(self)@, *final(counters)) == enqueued(
                old(self)@,
                *old(counters),
                old(self).capacity(),
                reader_free,
                event,
            ),
            final(self).valid(),
            final(self)@.len() <= final(self).capacity(),
    {
        match push_ring(&mut self.producer, &self.consumer, event) {
            Ok(_) => {
                counters.increment_queue_depth();
            },
            Err(event) => {
                counters.increment_dropped();
                if reader_free {
                    if let Some(_) = pop_ring(&self.producer, &mut self.consumer) {
                        counters.decrement_queue_depth();
                    }
                }
                match push_ring(&mut self.producer, &self.consumer, event) {
                    Ok(_) => {
                        counters.increment_queue_depth();
                    },
                    Err(_) => {
                        counters.increment_dropped();
                    },
                }
            },
        }
    }

    /// Take the oldest event out.
    pub fn pop_event(&mut self) -> (r: Option<SampleEvent>)
        requires
            old(self).valid(),
        ensures
            final(self).capacity() == old(self).capacity(),
            match r {
                Some(event) => old(self)@.len() > 0 && event == old(self)@[0] && final(self)@ == old(self)@.skip(1),
                None => old(self)@.len() == 0 && final(self)@ == old(self)@,
            },
            final(self).valid(),
            final(self)@.len() <= final(self).capacity(),
    {
        pop_ring(&self.producer, &mut self.consumer)
    }

    /// Take the oldest event out and count it.
    pub fn pop_event_counted(&mut self, counters: &mut MetricsCounters) -> (r: Option<SampleEvent>)
        requires
            old(self).valid(),
        ensures
            final(self).capacity() == old(self).capacity(),
            match r {
                Some(event) => old(self)@.len() > 0 && event == old(self)@[0] && final(self)@ == old(self)@.skip(1)
                    && *final(counters) == old(counters).shallower(),
                None => old(self)@.len() == 0 && final(self)@ == old(self)@ && *final(counters) == *old(counters),
            },
            final(self).valid(),
            final(self)@.len() <= final(self).capacity(),
    {
        let event = self.pop_event();
        if event.is_some() {
            counters.decrement_queue_depth();
        }
        event
    }
}

/// A queue with room loses nothing, and one that is full and can be read loses
/// its oldest event and nothing else: the newest always gets in.
pub proof fn full_queues_drop_the_oldest(
    events: Seq<SampleEvent>,
    counters: MetricsCounters,
    capacity: nat,
    event: SampleEvent,
)
    requires
        events.len() <= capacity,
        capacity > 0,
    ensures
        ({
            let (after, counted) = enqueued(events, counters, capacity, true, event);
            &&& after.len() > 0
            &&& after.last() == event
            &&& after.len() <= capacity
            &&& events.len() < capacity ==> after == events.push(event) && counted.dropped == counters.dropped
            &&& events.len() == capacity ==> after == events.skip(1).push(event) && counted.dropped
                == counters.with_drop().dropped
        }),
{
}

/// The depth counter follows the queue: where it held the number of events, it
/// still does after an event came or went.
pub proof fn depth_follows_the_queue(
    events: Seq<SampleEvent>,
    counters: MetricsCounters,
    capacity: nat,
    reader_free: bool,
    event: SampleEvent,
)
    requires
        events.len() <= capacity <= u32::MAX,
        counters.queue_depth == events.len(),
    ensures
        ({
            let (after, counted) = enqueued(events, counters, capacity, reader_free, event);
            counted.queue_depth == after.len()
        }),
        events.len() > 0 ==> counters.shallower().queue_depth == events.skip(1).len(),
{
}

/// Events and counters after a run of events came to a queue that can be read.
pub open spec fn all_enqueued(
    events: Seq<SampleEvent>,
    counters: MetricsCounters,
    capacity: nat,
    arrivals: Seq<SampleEvent>,
) -> (Seq<SampleEvent>, MetricsCounters)
    decreases arrivals.len(),
{
    if arrivals.len() == 0 {
        (events, counters)
    } else {
        let (before, counted) = all_enqueued(events, counters, capacity, arrivals.drop_last());
        enqueued(before, counted, capacity, true, arrivals.last())
    }
}

/// A queue that nobody empties holds the last events of a run, as many as fit,
/// in their order. Every other event is counted as dropped.
pub proof fn queues_hold_the_last_events(
    counters: MetricsCounters,
    capacity: nat,
    arrivals: Seq<SampleEvent>,
)
    requires
        0 < capacity <= u32::MAX,
        counters.queue_depth == 0,
        counters.dropped + arrivals.len() <= u64::MAX,
    ensures
        ({
            let (after, counted) = all_enqueued(Seq::empty(), counters, capacity, arrivals);
            let kept = if arrivals.len() < capacity {
                arrivals.len()
            } else {
                capacity
            };
            &&& after == arrivals.skip(arrivals.len() - kept)
            &&& counted.queue_depth == kept
            &&& counted.dropped == counters.dropped + arrivals.len() - kept
            &&& counted.packets_processed == counters.packets_processed
        }),
    decreases arrivals.len(),
{
    let (after, counted) = all_enqueued(Seq::empty(), counters, capacity, arrivals);
    if arrivals.len() == 0 {
        assert(after =~= arrivals.skip(0));
    } else {
        queues_hold_the_last_events(counters, capacity, arrivals.drop_last());
        let kept = if arrivals.len() < capacity {
            arrivals.len()
        } else {
            capacity
        };
        assert(after =~= arrivals.skip(arrivals.len() - kept));
    }
}

/// A run of serial numbers that never arrived.
#[derive(Clone, Copy, Debug, PartialEq, Eq, Structural)]
pub struct SerialGap {
    pub previous_serial: u32,
    pub serial: u32,
    pub gap_size: u32,
}

/// The steps from one serial number to a later one; numbers wrap.
pub open spec fn serial_steps(last: u32, serial: u32) -> int {
    if serial >= last {
        serial - last
    } else {
        serial - last + 0x1_0000_0000
    }
}

/// Note the serial number of a sample. Returns the gap before it that is worth
/// a warning.
pub fn warn_on_serial_gap(last_serial: &mut Option<u32>, serial: u32) -> (r: Option<SerialGap>)
    ensures
        *final(last_serial) == Some(serial),
        r == match *old(last_serial) {
            Some(last) => if serial_steps(last, serial) > 1 {
                Some(
                    SerialGap {
                        previous_serial: last,
                        serial,
                        gap_size: (serial_steps(last, serial) - 1) as u32,
                    },
                )
            } else {
                None
            },
            None => None,
        },
{
    let gap = match *last_serial {
        Some(last) => {
            let delta: u32 = serial.wrapping_sub(last);
            if delta > 1 {
                Some(SerialGap { previous_serial: last, serial, gap_size: delta - 1 })
            } else {
                None
            }
        },
        None => None,
    };
    *last_serial = Some(serial);
    gap
}

/// What the stream loop does next.
#[derive(Clone, Copy, Debug, PartialEq, Eq, Structural)]
pub enum LoopStep {
    /// Look for clients and events again.
    Continue,
    /// Do so after a moment's rest.
    Rest,
    /// End the session.
    Stop,
}

/// The state of a stream session.
#[derive(Debug)]
pub struct StreamSession {
    /// Rate that the device delivers.
    pub actual_rate_hz: u32,
    /// Rate that the device was asked for.
    pub requested_rate_hz: u32,
    /// Serial number of the last sample.
    pub last_sample_serial: Option<u32>,
    /// Decides on the metrics.
    pub emitter: MetricsEmitter,
}

impl StreamSession {
    /// A session that starts at `now_ns`, with metrics every
    /// `metrics_interval_ms`.
    pub fn new(
        requested_rate_hz: u32,
        metrics_interval_ms: u64,
        counters: &MetricsCounters,
        now_ns: u64,
    ) -> (r: StreamSession)
        ensures
            r.actual_rate_hz == requested_rate_hz,
            r.requested_rate_hz == requested_rate_hz,
            r.last_sample_serial is None,
            r.emitter@ == (EmitterView {
                interval_ns: (metrics_interval_ms * 1_000_000) as u128,
                last_emit_ns: now_ns,
                last_packets_processed: counters.packets_processed,
                last_dropped: counters.dropped,
                emitted: false,
            }),
    {
        StreamSession {
            actual_rate_hz: requested_rate_hz,
            requested_rate_hz,
            last_sample_serial: None,
            emitter: MetricsEmitter::new(counters, metrics_interval_ms as u128 * 1_000_000, now_ns),
        }
    }

    /// Take in an event: note the rate of a device, count a sample and look
    /// for a gap before it. Returns the message to send and the gap to warn of.
    pub fn take_event(&mut self, event: SampleEvent, counters: &mut MetricsCounters) -> (r: (
        StreamMessage,
        Option<SerialGap>,
    ))
        ensures
            r.0 == message_of(event),
            final(self).requested_rate_hz == old(self).requested_rate_hz,
            final(self).emitter@ == old(self).emitter@,
            final(self).actual_rate_hz == match event {
                SampleEvent::Capabilities(caps) => caps.max_packet_rate_hz,
                _ => old(self).actual_rate_hz,
            },
            match event {
                SampleEvent::Sample(sample) => {
                    &&& *final(counters) == old(counters).with_packet()
                    &&& final(self).last_sample_serial == Some(sample.serial)
                    &&& r.1 == match old(self).last_sample_serial {
                        Some(last) => if serial_steps(last, sample.serial) > 1 {
                            Some(
                                SerialGap {
                                    previous_serial: last,
                                    serial: sample.serial,
                                    gap_size: (serial_steps(last, sample.serial) - 1) as u32,
                                },
                            )
                        } else {
                            None
                        },
                        None => None,
                    }
                },
                _ => {
                    &&& *final(counters) == *old(counters)
                    &&& final(self).last_sample_serial == old(self).last_sample_serial
                    &&& r.1 is None
                },
            },
    {
        let mut gap = None;
        match &event {
            SampleEvent::Capabilities(caps) => {
                self.actual_rate_hz = caps.max_packet_rate_hz;
            },
            SampleEvent::Sample(sample) => {
                counters.increment_packets_processed();
                gap = warn_on_serial_gap(&mut self.last_sample_serial, sample.serial);
            },
            _ => {},
        }
        (stream_message_from_event(event), gap)
    }

    /// The metrics to send once the queue has been emptied: those of an
    /// interval that has passed. The second part is the number of lost events
    /// to warn of.
    pub fn metrics_if_due(&mut self, counters: &MetricsCounters, now_ns: u64, connected_clients: u32) -> (r: Option<
        (MetricsSnapshot, u64),
    >)
        ensures
            final(self).actual_rate_hz == old(self).actual_rate_hz,
            final(self).requested_rate_hz == old(self).requested_rate_hz,
            final(self).last_sample_serial == old(self).last_sample_serial,
            r is Some <==> since(now_ns, old(self).emitter@.last_emit_ns) >= old(self).emitter@.interval_ns,
            match r {
                Some(sent) => old(self).emits(*counters, now_ns, connected_clients, sent, final(self).emitter@),
                None => final(self).emitter@ == old(self).emitter@,
            },
    {
        if self.emitter.due(now_ns) {
            Some(self.emit(counters, now_ns, connected_clients))
        } else {
            None
        }
    }

    /// The metrics to send at the end of the session: a session that never
    /// sent any sends some now.
    pub fn final_metrics(&mut self, counters: &MetricsCounters, now_ns: u64, connected_clients: u32) -> (r: Option<
        (MetricsSnapshot, u64),
    >)
        ensures
            final(self).actual_rate_hz == old(self).actual_rate_hz,
            final(self).requested_rate_hz == old(self).requested_rate_hz,
            final(self).last_sample_serial == old(self).last_sample_serial,
            r is Some <==> !old(self).emitter@.emitted,
            match r {
                Some(sent) => old(self).emits(*counters, now_ns, connected_clients, sent, final(self).emitter@),
                None => final(self).emitter@ == old(self).emitter@,
            },
            final(self).emitter@.emitted,
    {
        if self.emitter.has_emitted() {
            None
        } else {
            Some(self.emit(counters, now_ns, connected_clients))
        }
    }

    /// Is `sent` what the session reports, and `after` its emitter then?
    pub open spec fn emits(
        self,
        counters: MetricsCounters,
        now_ns: u64,
        connected_clients: u32,
        sent: (MetricsSnapshot, u64),
        after: EmitterView,
    ) -> bool {
        let before = self.emitter@;
        &&& sent.0 == MetricsSnapshot {
            packets_per_sec: crate::cli::metrics::rate_of(
                since(counters.packets_processed, before.last_packets_processed),
                since(now_ns, before.last_emit_ns),
            ),
            dropped: counters.dropped,
            queue_depth: counters.queue_depth,
            actual_rate_hz: self.actual_rate_hz,
            requested_rate_hz: self.requested_rate_hz,
            connected_clients,
        }
        &&& sent.1 == since(counters.dropped, before.last_dropped)
        &&& after == EmitterView {
            interval_ns: before.interval_ns,
            last_emit_ns: now_ns,
            last_packets_processed: counters.packets_processed,
            last_dropped: counters.dropped,
            emitted: true,
        }
    }

    fn emit(&mut self, counters: &MetricsCounters, now_ns: u64, connected_clients: u32) -> (r: (MetricsSnapshot, u64))
        ensures
            final(self).actual_rate_hz == old(self).actual_rate_hz,
            final(self).requested_rate_hz == old(self).requested_rate_hz,
            final(self).last_sample_serial == old(self).last_sample_serial,
            old(self).emits(*counters, now_ns, connected_clients, r, final(self).emitter@),
    {
        let lost: u64 = self.emitter.dropped_since_last_emit(counters);
        let snapshot = self.emitter.snapshot(
            counters,
            now_ns,
            self.actual_rate_hz,
            self.requested_rate_hz,
            connected_clients,
        );
        (snapshot, lost)
    }
}

/// What the loop does after a pass: it ends once a shutdown was asked for, the
/// pass found nothing and the queue is empty, and rests after a pass that found
/// nothing.
pub fn after_pass(shutdown: bool, progressed: bool, queue_depth: u32) -> (r: LoopStep)
    ensures
        r == (if progressed {
            LoopStep::Continue
        } else if shutdown && queue_depth == 0 {
            LoopStep::Stop
        } else {
            LoopStep::Rest
        }),
{
    if shutdown && !progressed && queue_depth == 0 {
        LoopStep::Stop
    } else if !progressed {
        LoopStep::Rest
    } else {
        LoopStep::Continue
    }
}

/// The places of the clients that took a message, in order.
pub open spec fn successes(written: Seq<bool>) -> Seq<usize>
    decreases written.len(),
{
    if written.len() == 0 {
        Seq::empty()
    } else if written.last() {
        successes(written.drop_last()).push((written.len() - 1) as usize)
    } else {
        successes(written.drop_last())
    }
}

/// Which clients stay after a message was written to each of them: those that
/// took it. `None` for the second part where all did, or the place of the first
/// one that did not.
pub fn surviving_clients(written: &Vec<bool>) -> (r: (Vec<usize>, Option<usize>))
    ensures
        r.0@ == successes(written@),
        match r.1 {
            Some(i) => i < written@.len() && !written@[i as int] && forall|j: int| 0 <= j < i ==> written@[j],
            None => forall|j: int| 0 <= j < written@.len() ==> written@[j],
        },
{
    let mut kept: Vec<usize> = Vec::new();
    let mut first_failure: Option<usize> = None;
    let mut i: usize = 0;
    proof {
        assert(written@.take(0) =~= Seq::<bool>::empty());
    }
    while i < written.len()
        invariant
            i <= written@.len(),
            kept@ == successes(written@.take(i as int)),
            match first_failure {
                Some(k) => k < i && !written@[k as int] && forall|j: int| 0 <= j < k ==> written@[j],
                None => forall|j: int| 0 <= j < i ==> written@[j],
            },
        decreases written@.len() - i,
    {
        proof {
            assert(written@.take(i + 1).drop_last() =~= written@.take(i as int));
            assert(written@.take(i + 1).last() == written@[i as int]);
        }
        if written[i] {
            kept.push(i);
        } else if first_failure.is_none() {
            first_failure = Some(i);
        }
        i = i + 1;
    }
    proof {
        assert(written@.take(written@.len() as int) =~= written@);
    }
    (kept, first_failure)
}

/// The oldest event leaves first, and only it.
pub proof fn the_oldest_event_leaves_first(queue: &mut EventQueue, r: Option<SampleEvent>, i: int)
    requires
        old(queue).valid(),
        call_ensures(EventQueue::pop_event, (queue,), r),
    ensures
        r is Some <==> old(queue)@.len() > 0,
        r matches Some(event) ==> event == old(queue)@[0] && final(queue)@.len() + 1 == old(queue)@.len(),
        0 <= i < final(queue)@.len() && r is Some ==> final(queue)@[i] == old(queue)@[i + 1],
        r is None ==> final(queue)@.len() == 0,
{
}

} // verus!
