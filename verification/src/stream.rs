//! Messages of the capture stream.
use vstd::prelude::*;

use crate::device::capabilities::DeviceCapabilities;
use crate::device::sample::{PenSample, SampleEvent};
use crate::double::Double;

verus! {

/// Encoding of a stream.
#[derive(Clone, Copy, Debug, PartialEq, Eq, Structural)]
pub enum Format {
    Postcard,
    Json,
}

/// Health of a capture session.
#[derive(Clone, Copy, Debug, PartialEq, Eq, Structural)]
pub struct Metrics {
    pub packets_per_sec: Double,
    pub dropped: u64,
    pub queue_depth: u32,
    pub actual_rate_hz: u32,
    pub requested_rate_hz: u32,
    pub connected_clients: u32,
}

/// One message of a stream.
#[derive(Clone, Debug)]
pub enum StreamMessage {
    Capabilities(DeviceCapabilities),
    Sample(PenSample),
    Proximity { in_range: bool, tool_serial: u64 },
    TabletButton { index: u8, pressed: bool },
    Metrics(Metrics),
    Heartbeat,
}

/// The message that carries an event.
pub open spec fn message_of(event: SampleEvent) -> StreamMessage {
    match event {
        SampleEvent::Capabilities(caps) => StreamMessage::Capabilities(caps),
        SampleEvent::Sample(sample) => StreamMessage::Sample(sample),
        SampleEvent::Proximity { in_range, tool_serial } => StreamMessage::Proximity { in_range, tool_serial },
        SampleEvent::TabletButton { index, pressed } => StreamMessage::TabletButton { index, pressed },
    }
}

/// The message that carries an event.
pub fn stream_message_from_event(event: SampleEvent) -> (r: StreamMessage)
    ensures
        r == message_of(event),
{
    match event {
        SampleEvent::Capabilities(caps) => StreamMessage::Capabilities(caps),
        SampleEvent::Sample(sample) => StreamMessage::Sample(sample),
        SampleEvent::Proximity { in_range, tool_serial } => StreamMessage::Proximity { in_range, tool_serial },
        SampleEvent::TabletButton { index, pressed } => StreamMessage::TabletButton { index, pressed },
    }
}

/// A client learns exactly what happened: the message of an event is of the
/// event's kind and carries everything that the event does, unchanged.
pub proof fn messages_carry_their_event(event: SampleEvent, r: StreamMessage)
    requires
        call_ensures(stream_message_from_event, (event,), r),
    ensures
        event matches SampleEvent::Capabilities(told) ==> r matches StreamMessage::Capabilities(sent) && sent == told,
        event matches SampleEvent::Sample(told) ==> r matches StreamMessage::Sample(sent) && sent == told,
        event matches SampleEvent::Proximity { in_range, tool_serial } ==> {
            &&& r matches StreamMessage::Proximity { in_range: near, tool_serial: tool } && near == in_range && tool
                == tool_serial
        },
        event matches SampleEvent::TabletButton { index, pressed } ==> {
            &&& r matches StreamMessage::TabletButton { index: place, pressed: down } && place == index && down == pressed
        },
        !(r is Metrics),
        !(r is Heartbeat),
{
}

/// No two events look the same on the stream.
pub proof fn events_stay_apart_on_the_stream(
    first: SampleEvent,
    second: SampleEvent,
    r: StreamMessage,
)
    requires
        call_ensures(stream_message_from_event, (first,), r),
        call_ensures(stream_message_from_event, (second,), r),
    ensures
        first == second,
{
}

} // verus!
