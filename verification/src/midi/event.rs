//! MIDI channel-voice messages and their byte encoding.
//!
//! Channels are counted from 0, as on the wire.
use vstd::prelude::*;

verus! {

/// Pitch-bend value of an unbent channel.
pub const PITCH_BEND_CENTER: u16 = 8192;

/// Controller number of the timbre axis.
pub const CC_TIMBRE: u8 = 74;

/// Controller number of "all notes off".
pub const CC_ALL_NOTES_OFF: u8 = 123;

/// A MIDI channel-voice message, independent of any transport.
#[derive(Clone, Copy, Debug, PartialEq, Eq, Structural)]
pub enum MidiEvent {
    /// Start of a note; a velocity of 0 would read as its end.
    NoteOn { channel: u8, note: u8, velocity: u8 },
    /// End of a note.
    NoteOff { channel: u8, note: u8, velocity: u8 },
    /// 14-bit pitch bend around [`PITCH_BEND_CENTER`].
    PitchBend { channel: u8, value: u16 },
    /// Pressure of the whole channel.
    ChannelPressure { channel: u8, value: u8 },
    /// Controller value.
    ControlChange { channel: u8, controller: u8, value: u8 },
}

/// Two or three encoded bytes, held in place.
#[derive(Clone, Copy, Debug, PartialEq, Eq)]
pub struct MidiBytes {
    buf: [u8; 3],
    len: usize,
}

impl View for MidiBytes {
    type V = Seq<u8>;

    closed spec fn view(&self) -> Seq<u8> {
        self.buf@.take(self.len as int)
    }
}

impl MidiBytes {
    #[verifier::type_invariant]
    spec fn bounded(self) -> bool {
        self.len <= 3
    }

    /// A message of two bytes.
    pub fn two(a: u8, b: u8) -> (r: MidiBytes)
        ensures
            r@ == seq![a, b],
    {
        let r = MidiBytes { buf: [a, b, 0], len: 2 };
        proof {
            assert(r@ =~= seq![a, b]);
        }
        r
    }

    /// A message of three bytes.
    pub fn three(a: u8, b: u8, c: u8) -> (r: MidiBytes)
        ensures
            r@ == seq![a, b, c],
    {
        let r = MidiBytes { buf: [a, b, c], len: 3 };
        proof {
            assert(r@ =~= seq![a, b, c]);
        }
        r
    }

    /// The bytes to send.
    pub fn as_slice(&self) -> (r: &[u8])
        ensures
            r@ == self@,
    {
        proof {
            use_type_invariant(&*self);
        }
        vstd::slice::slice_subrange(vstd::array::array_as_slice(&self.buf), 0, self.len)
    }
}

impl MidiEvent {
    /// The channel that the event names.
    pub open spec fn on_channel(self) -> u8 {
        match self {
            MidiEvent::NoteOn { channel, .. } => channel,
            MidiEvent::NoteOff { channel, .. } => channel,
            MidiEvent::PitchBend { channel, .. } => channel,
            MidiEvent::ChannelPressure { channel, .. } => channel,
            MidiEvent::ControlChange { channel, .. } => channel,
        }
    }

    /// The encoding: a status byte whose low nibble is the channel, then data
    /// bytes of seven bits, the low half of a pitch bend first.
    pub open spec fn encoding(self) -> Seq<u8> {
        let ch = (self.on_channel() % 16) as int;
        match self {
            MidiEvent::NoteOff { note, velocity, .. } => {
                seq![(0x80 + ch) as u8, note % 128, velocity % 128]
            },
            MidiEvent::NoteOn { note, velocity, .. } => {
                seq![(0x90 + ch) as u8, note % 128, velocity % 128]
            },
            MidiEvent::ControlChange { controller, value, .. } => {
                seq![(0xB0 + ch) as u8, controller % 128, value % 128]
            },
            MidiEvent::ChannelPressure { value, .. } => seq![(0xD0 + ch) as u8, value % 128],
            MidiEvent::PitchBend { value, .. } => {
                let v = if value > 0x3FFF {
                    0x3FFF
                } else {
                    value as int
                };
                seq![(0xE0 + ch) as u8, (v % 128) as u8, (v / 128) as u8]
            },
        }
    }

    /// Channel of this event.
    pub fn channel(&self) -> (r: u8)
        ensures
            r == self.on_channel(),
    {
        match self {
            MidiEvent::NoteOn { channel, .. } => *channel,
            MidiEvent::NoteOff { channel, .. } => *channel,
            MidiEvent::PitchBend { channel, .. } => *channel,
            MidiEvent::ChannelPressure { channel, .. } => *channel,
            MidiEvent::ControlChange { channel, .. } => *channel,
        }
    }

    /// Encode to raw MIDI bytes. Values that do not fit are masked, so no
    /// event gives a malformed message.
    pub fn to_bytes(&self) -> (r: MidiBytes)
        ensures
            r@ == self.encoding(),
    {
        let ch: u8 = self.channel() % 16;
        match *self {
            MidiEvent::NoteOff { note, velocity, .. } => {
                MidiBytes::three(0x80 + ch, note % 128, velocity % 128)
            },
            MidiEvent::NoteOn { note, velocity, .. } => {
                MidiBytes::three(0x90 + ch, note % 128, velocity % 128)
            },
            MidiEvent::ControlChange { controller, value, .. } => {
                MidiBytes::three(0xB0 + ch, controller % 128, value % 128)
            },
            MidiEvent::ChannelPressure { value, .. } => MidiBytes::two(0xD0 + ch, value % 128),
            MidiEvent::PitchBend { value, .. } => {
                let v: u16 = if value > 0x3FFF {
                    0x3FFF
                } else {
                    value
                };
                MidiBytes::three(0xE0 + ch, (v % 128) as u8, (v / 128) as u8)
            },
        }
    }
}

/// Every event encodes to a well-formed message: one status byte with its top
/// bit set, naming the event's channel in the low nibble, then only data bytes
/// below 128.
pub proof fn encodings_are_well_formed(event: MidiEvent)
    ensures
        2 <= event.encoding().len() <= 3,
        event.encoding()[0] >= 0x80,
        event.encoding()[0] % 16 == event.on_channel() % 16,
        forall|i: int| 1 <= i < event.encoding().len() ==> event.encoding()[i] < 128,
{
}

/// Is every value of the event within its MIDI range?
pub open spec fn in_midi_range(event: MidiEvent) -> bool {
    event.on_channel() < 16 && match event {
        MidiEvent::NoteOn { note, velocity, .. } => note < 128 && velocity < 128,
        MidiEvent::NoteOff { note, velocity, .. } => note < 128 && velocity < 128,
        MidiEvent::PitchBend { value, .. } => value <= 0x3FFF,
        MidiEvent::ChannelPressure { value, .. } => value < 128,
        MidiEvent::ControlChange { controller, value, .. } => controller < 128 && value < 128,
    }
}

/// No two events whose values are in range share an encoding.
pub proof fn encodings_are_distinct(a: MidiEvent, b: MidiEvent)
    requires
        in_midi_range(a),
        in_midi_range(b),
        a.encoding() == b.encoding(),
    ensures
        a == b,
{
    assert(a.encoding()[0] == b.encoding()[0]);
    assert(a.encoding()[1] == b.encoding()[1]);
    assert(a.encoding().len() == b.encoding().len());
    if a.encoding().len() == 3 {
        assert(a.encoding()[2] == b.encoding()[2]);
    }
}

} // verus!
