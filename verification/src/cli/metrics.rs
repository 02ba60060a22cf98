//! Counters of a capture session and the metrics drawn from them.
//!
//! Times are nanoseconds since the session began.
use vstd::prelude::*;

verus! {

/// Running counts of a session. There is one value for all who count: it cannot
/// be copied, so that everybody sees what everybody else has counted.
#[derive(Debug, PartialEq, Eq, Structural)]
pub struct MetricsCounters {
    /// Samples that went out. The count wraps.
    pub packets_processed: u64,
    /// Events that were lost between capture and stream. The count wraps.
    pub dropped: u64,
    /// Events in the queue.
    pub queue_depth: u32,
}

impl MetricsCounters {
    /// Counters that start with `dropped` lost events.
    pub fn new(dropped: u64) -> (r: MetricsCounters)
        ensures
            r == (MetricsCounters { packets_processed: 0, dropped, queue_depth: 0 }),
    {
        MetricsCounters { packets_processed: 0, dropped, queue_depth: 0 }
    }

    /// One more sample went out.
    pub open spec fn with_packet(self) -> MetricsCounters {
        MetricsCounters {
            packets_processed: if self.packets_processed == u64::MAX {
                0
            } else {
                (self.packets_processed + 1) as u64
            },
            ..self
        }
    }

    /// One more event was lost.
    pub open spec fn with_drop(self) -> MetricsCounters {
        MetricsCounters {
            dropped: if self.dropped == u64::MAX {
                0
            } else {
                (self.dropped + 1) as u64
            },
            ..self
        }
    }

    /// One more event is in the queue.
    pub open spec fn deeper(self) -> MetricsCounters {
        MetricsCounters {
            queue_depth: if self.queue_depth == u32::MAX {
                u32::MAX
            } else {
                (self.queue_depth + 1) as u32
            },
            ..self
        }
    }

    /// One event fewer is in the queue.
    pub open spec fn shallower(self) -> MetricsCounters {
        MetricsCounters {
            queue_depth: if self.queue_depth == 0 {
                0
            } else {
                (self.queue_depth - 1) as u32
            },
            ..self
        }
    }

    /// Count a sample that went out.
    pub fn increment_packets_processed(&mut self)
        ensures
            *final(self) == old(self).with_packet(),
    {
        self.packets_processed = self.packets_processed.wrapping_add(1);
    }

    /// Count a lost event.
    pub fn increment_dropped(&mut self)
        ensures
            *final(self) == old(self).with_drop(),
    {
        self.dropped = self.dropped.wrapping_add(1);
    }

    /// Count an event into the queue.
    pub fn increment_queue_depth(&mut self)
        ensures
            *final(self) == old(self).deeper(),
    {
        self.queue_depth = self.queue_depth.saturating_add(1);
    }

    /// Count an event out of the queue.
    pub fn decrement_queue_depth(&mut self)
        ensures
            *final(self) == old(self).shallower(),
    {
        self.queue_depth = self.queue_depth.saturating_sub(1);
    }

    /// Number of events in the queue.
    pub fn queue_depth(&self) -> (r: u32)
        ensures
            r == self.queue_depth,
    {
        self.queue_depth
    }
}

/// An event that goes into the queue and one that comes out cancel, as long as
/// the depth can be counted; the other counts stay as they are.
pub proof fn depth_steps_cancel(counters: MetricsCounters)
    ensures
        counters.deeper().queue_depth == if counters.queue_depth == u32::MAX {
            u32::MAX as int
        } else {
            counters.queue_depth + 1
        },
        counters.queue_depth < u32::MAX ==> counters.deeper().shallower() == counters,
        counters.queue_depth > 0 ==> counters.shallower().deeper() == counters,
        counters.deeper().dropped == counters.dropped,
        counters.deeper().packets_processed == counters.packets_processed,
        counters.shallower().dropped == counters.dropped,
        counters.shallower().packets_processed == counters.packets_processed,
{
}

/// A number of packets over a span of time that is not empty.
#[derive(Clone, Copy, Debug, PartialEq, Eq, Structural)]
pub struct PacketRate {
    pub packets: u64,
    pub elapsed_ns: u64,
}

/// The rate of packets over a span of time; no time gives a rate of 0.
pub open spec fn rate_of(packet_delta: u64, elapsed_ns: u64) -> PacketRate {
    if elapsed_ns > 0 {
        PacketRate { packets: packet_delta, elapsed_ns }
    } else {
        PacketRate { packets: 0, elapsed_ns: 1 }
    }
}

/// The rate of packets over a span of time.
pub fn packets_per_second(packet_delta: u64, elapsed_ns: u64) -> (r: PacketRate)
    ensures
        r == rate_of(packet_delta, elapsed_ns),
        r.elapsed_ns > 0,
{
    if elapsed_ns > 0 {
        PacketRate { packets: packet_delta, elapsed_ns }
    } else {
        PacketRate { packets: 0, elapsed_ns: 1 }
    }
}

/// The metrics of one interval.
#[derive(Clone, Copy, Debug, PartialEq, Eq, Structural)]
pub struct MetricsSnapshot {
    pub packets_per_sec: PacketRate,
    pub dropped: u64,
    pub queue_depth: u32,
    pub actual_rate_hz: u32,
    pub requested_rate_hz: u32,
    pub connected_clients: u32,
}

/// What an emitter remembers.
pub struct EmitterView {
    pub interval_ns: u128,
    pub last_emit_ns: u64,
    pub last_packets_processed: u64,
    pub last_dropped: u64,
    pub emitted: bool,
}

/// `a - b`, or 0 where that is negative.
pub open spec fn since(a: u64, b: u64) -> u64 {
    if a >= b {
        (a - b) as u64
    } else {
        0
    }
}

/// Decides when metrics go out and what they say.
#[derive(Debug)]
pub struct MetricsEmitter {
    interval_ns: u128,
    last_emit_ns: u64,
    last_packets_processed: u64,
    last_dropped: u64,
    emitted: bool,
}

impl View for MetricsEmitter {
    type V = EmitterView;

    closed spec fn view(&self) -> EmitterView {
        EmitterView {
            interval_ns: self.interval_ns,
            last_emit_ns: self.last_emit_ns,
            last_packets_processed: self.last_packets_processed,
            last_dropped: self.last_dropped,
            emitted: self.emitted,
        }
    }
}

impl MetricsEmitter {
    /// An emitter that has sent nothing yet.
    pub fn new(counters: &MetricsCounters, interval_ns: u128, now_ns: u64) -> (r: MetricsEmitter)
        ensures
            r@ == (EmitterView {
                interval_ns,
                last_emit_ns: now_ns,
                last_packets_processed: counters.packets_processed,
                last_dropped: counters.dropped,
                emitted: false,
            }),
    {
        MetricsEmitter {
            interval_ns,
            last_emit_ns: now_ns,
            last_packets_processed: counters.packets_processed,
            last_dropped: counters.dropped,
            emitted: false,
        }
    }

    /// Has an interval passed since the last metrics?
    pub fn due(&self, now_ns: u64) -> (r: bool)
        ensures
            r == (since(now_ns, self@.last_emit_ns) >= self@.interval_ns),
    {
        now_ns.saturating_sub(self.last_emit_ns) as u128 >= self.interval_ns
    }

    /// Have any metrics gone out?
    pub fn has_emitted(&self) -> (r: bool)
        ensures
            r == self@.emitted,
    {
        self.emitted
    }

    /// Events lost since the last metrics.
    pub fn dropped_since_last_emit(&self, counters: &MetricsCounters) -> (r: u64)
        ensures
            r == since(counters.dropped, self@.last_dropped),
    {
        counters.dropped.saturating_sub(self.last_dropped)
    }

    /// The metrics since the last ones, which these take the place of.
    pub fn snapshot(
        &mut self,
        counters: &MetricsCounters,
        now_ns: u64,
        actual_rate_hz: u32,
        requested_rate_hz: u32,
        connected_clients: u32,
    ) -> (r: MetricsSnapshot)
        ensures
            r == (MetricsSnapshot {
                packets_per_sec: rate_of(
                    since(counters.packets_processed, old(self)@.last_packets_processed),
                    since(now_ns, old(self)@.last_emit_ns),
                ),
                dropped: counters.dropped,
                queue_depth: counters.queue_depth,
                actual_rate_hz,
                requested_rate_hz,
                connected_clients,
            }),
            final(self)@ == (EmitterView {
                interval_ns: old(self)@.interval_ns,
                last_emit_ns: now_ns,
                last_packets_processed: counters.packets_processed,
                last_dropped: counters.dropped,
                emitted: true,
            }),
    {
        let elapsed: u64 = now_ns.saturating_sub(self.last_emit_ns);
        let delta: u64 = counters.packets_processed.saturating_sub(self.last_packets_processed);
        let packets_per_sec = packets_per_second(delta, elapsed);
        self.last_emit_ns = now_ns;
        self.last_packets_processed = counters.packets_processed;
        self.last_dropped = counters.dropped;
        self.emitted = true;
        MetricsSnapshot {
            packets_per_sec,
            dropped: counters.dropped,
            queue_depth: counters.queue_depth,
            actual_rate_hz,
            requested_rate_hz,
            connected_clients,
        }
    }
}

/// A snapshot tells the packets and the time since the last one, and what the
/// counters hold. The next one starts from it.
pub proof fn snapshots_start_from_the_last(
    emitter: &mut MetricsEmitter,
    counters: MetricsCounters,
    now: u64,
    actual: u32,
    requested: u32,
    clients: u32,
    r: MetricsSnapshot,
)
    requires
        call_ensures(MetricsEmitter::snapshot, (emitter, &counters, now, actual, requested, clients), r),
    ensures
        old(emitter)@.last_emit_ns < now && old(emitter)@.last_packets_processed <= counters.packets_processed ==> {
            &&& old(emitter)@.last_emit_ns + r.packets_per_sec.elapsed_ns == now
            &&& old(emitter)@.last_packets_processed + r.packets_per_sec.packets == counters.packets_processed
        },
        now <= old(emitter)@.last_emit_ns ==> r.packets_per_sec.packets == 0,
        r.packets_per_sec.elapsed_ns > 0,
        r.dropped == counters.dropped,
        r.queue_depth == counters.queue_depth,
        r.actual_rate_hz == actual,
        r.requested_rate_hz == requested,
        r.connected_clients == clients,
        final(emitter)@.last_emit_ns == now,
        final(emitter)@.last_packets_processed == counters.packets_processed,
        final(emitter)@.interval_ns == old(emitter)@.interval_ns,
        final(emitter)@.emitted,
{
}

/// An emitter starts from the counters and the time that it is given, and has
/// sent nothing.
pub proof fn emitters_start_from_now(counters: MetricsCounters, interval: u128, now: u64, r: MetricsEmitter)
    requires
        call_ensures(MetricsEmitter::new, (&counters, interval, now), r),
    ensures
        r@.interval_ns == interval,
        r@.last_emit_ns == now,
        r@.last_packets_processed == counters.packets_processed,
        r@.last_dropped == counters.dropped,
        !r@.emitted,
{
}

} // verus!
