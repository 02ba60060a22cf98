//! The stateful mapping from pen readings to MPE events.
//!
//! One pen touches one point, so at most one note sounds at a time; each note
//! gets a member channel of its own, in turn, so that successive notes share
//! no controller state. While a note is held, expression goes out only where a
//! value changed.
use vstd::prelude::*;

use crate::double::Double;
use crate::midi::event::{MidiEvent, CC_ALL_NOTES_OFF, CC_TIMBRE, PITCH_BEND_CENTER};
use crate::midi::mapping::{MidiMapping, NoteMode, TiltAxis, VelocitySource};
use crate::midi::pads::{note_of, pad_note, Pad};

verus! {

/// The sounding note, the channel that carries it, and where it was struck.
#[derive(Clone, Copy, Debug, PartialEq, Eq, Structural)]
pub struct Voice {
    pub channel: u8,
    pub note: u8,
    /// The pad whose note is sounding.
    pub pad: Pad,
    /// Horizontal position of the strike.
    pub strike_x: Double,
    /// Vertical position of the strike.
    pub strike_y: Double,
}

/// The values that dragging drives, measured from a strike.
#[derive(Clone, Copy, Debug, PartialEq, Eq, Structural)]
pub struct Drag {
    /// 14-bit pitch bend.
    pub bend: u16,
    /// Value of the timbre controller.
    pub timbre: u8,
}

/// Timbre of a note that has not been dragged.
pub const NEUTRAL_TIMBRE: u8 = 64;

impl Drag {
    /// No drag: the note is in tune and its timbre neutral.
    pub open spec fn none_spec() -> Drag {
        Drag { bend: PITCH_BEND_CENTER, timbre: NEUTRAL_TIMBRE }
    }

    /// The drag of a note at its strike, wherever the pen lands: none yet.
    pub fn at_strike() -> (r: Drag)
        ensures
            r == (Drag { bend: PITCH_BEND_CENTER, timbre: 64 }),
            r == Drag::none_spec(),
    {
        Drag { bend: PITCH_BEND_CENTER, timbre: NEUTRAL_TIMBRE }
    }
}

/// One pen sample in MIDI terms.
#[derive(Clone, Copy, Debug, PartialEq, Eq, Structural)]
pub struct PenReading {
    /// Does the pen press the surface?
    pub active: bool,
    /// The pad under the pen.
    pub pad: Pad,
    /// Horizontal position of the pen.
    pub x: Double,
    /// Vertical position of the pen.
    pub y: Double,
    /// What the pressure gives as a velocity.
    pub pressure_velocity: u8,
    /// The drag from the strike of the note that is held.
    pub held: Drag,
    /// Channel pressure.
    pub pressure: u8,
    /// Controller value of the horizontal tilt, if the pen reports it.
    pub tilt_x: Option<u8>,
    /// Controller value of the vertical tilt, if the pen reports it.
    pub tilt_y: Option<u8>,
}

/// What an engine remembers between samples.
pub struct Performance {
    /// Place of the next note's channel among the members.
    pub next_member_offset: int,
    /// The sounding note.
    pub voice: Option<Voice>,
    /// The expression values that went out last for it.
    pub last_bend: Option<u16>,
    pub last_cc74: Option<u8>,
    pub last_pressure: Option<u8>,
    pub last_tilt_cc: Option<u8>,
}

/// The velocity within the range in which a note-on stays a note-on.
pub open spec fn audible(v: int) -> int {
    if v < 1 {
        1
    } else if v > 127 {
        127
    } else {
        v
    }
}

/// The velocity of a note struck while the pressure gives `from_pressure`.
pub open spec fn velocity_of(source: VelocitySource, from_pressure: u8) -> int {
    match source {
        VelocitySource::Fixed(v) => audible(v as int),
        VelocitySource::Pressure { .. } => audible(from_pressure as int),
    }
}

/// The velocity of a note struck while the pressure gives `from_pressure`. It
/// is never 0, so a note-on is never read as a note-off.
pub fn velocity_for(source: VelocitySource, from_pressure: u8) -> (r: u8)
    ensures
        r == velocity_of(source, from_pressure),
        1 <= r <= 127,
{
    let v: u8 = match source {
        VelocitySource::Fixed(v) => v,
        VelocitySource::Pressure { .. } => from_pressure,
    };
    if v < 1 {
        1
    } else if v > 127 {
        127
    } else {
        v
    }
}

/// The tilt reading that the mapping listens to.
pub open spec fn tilt_reading(r: PenReading, m: MidiMapping) -> Option<u8> {
    match m.tilt_cc {
        Some(tilt) => match tilt.axis {
            TiltAxis::X => r.tilt_x,
            TiltAxis::Y => r.tilt_y,
        },
        None => None,
    }
}

/// Does sliding from the sounding note to a pad of note `target` leave the
/// bend range?
pub open spec fn out_of_bend(m: MidiMapping, from: u8, target: u8) -> bool {
    let range = m.mpe.pitch_bend_range_semitones;
    let reach = if from < target {
        target - from
    } else {
        from - target
    };
    !range.nan() && range.rank() < Double::whole_rank(reach)
}

/// The note that a reading strikes, given what sounds: pressing a pad does, and
/// so does sliding onto another one, as the mode says.
pub open spec fn strikes(voice: Option<Voice>, r: PenReading, m: MidiMapping) -> Option<u8> {
    match (voice, note_of(r.pad, m)) {
        (_, None) => None,
        (None, Some(note)) => Some(note),
        (Some(v), Some(note)) => if r.pad == v.pad {
            None
        } else {
            match m.mode {
                NoteMode::Hold => None,
                NoteMode::Glide => if out_of_bend(m, v.note, note) {
                    Some(note)
                } else {
                    None
                },
                NoteMode::Discrete => Some(note),
            }
        },
    }
}

/// What the drag of the sounding note is measured from.
#[derive(Clone, Copy, Debug, PartialEq, Eq, Structural)]
pub struct DragOrigin {
    /// Where the note was struck.
    pub x: Double,
    pub y: Double,
    /// Semitones up to the pad under the pen, where the bend follows the pads
    /// and not the drag.
    pub glide: Option<i16>,
}

/// What the drag of a note is measured from, with the pen on `pad`. Gliding
/// bends toward the note of the pad; one without a note leaves the pitch.
pub open spec fn drag_origin_of(voice: Voice, pad: Pad, m: MidiMapping) -> DragOrigin {
    DragOrigin {
        x: voice.strike_x,
        y: voice.strike_y,
        glide: match m.mode {
            NoteMode::Glide => Some(
                match note_of(pad, m) {
                    Some(target) => (target - voice.note) as i16,
                    None => 0,
                },
            ),
            _ => None,
        },
    }
}

/// The end of the sounding note.
pub open spec fn note_off(voice: Option<Voice>) -> Seq<MidiEvent> {
    match voice {
        Some(v) => seq![MidiEvent::NoteOff { channel: v.channel, note: v.note, velocity: 0 }],
        None => Seq::empty(),
    }
}

/// `event`, where a value changed.
pub open spec fn on_change(changed: bool, event: MidiEvent) -> Seq<MidiEvent> {
    if changed {
        seq![event]
    } else {
        Seq::empty()
    }
}

impl Performance {
    /// Nothing sounds and no expression has gone out.
    pub open spec fn silenced(self) -> Performance {
        Performance {
            next_member_offset: self.next_member_offset,
            voice: None,
            last_bend: None,
            last_cc74: None,
            last_pressure: None,
            last_tilt_cc: None,
        }
    }

    /// The channel of the next note.
    pub open spec fn next_channel(self, m: MidiMapping) -> int {
        m.mpe.member_low + self.next_member_offset % m.mpe.members()
    }

    /// After striking `note` at a reading.
    pub open spec fn after_strike(self, r: PenReading, m: MidiMapping, note: u8) -> Performance {
        Performance {
            next_member_offset: (self.next_member_offset + 1) % m.mpe.members(),
            voice: Some(
                Voice {
                    channel: self.next_channel(m) as u8,
                    note,
                    pad: r.pad,
                    strike_x: r.x,
                    strike_y: r.y,
                },
            ),
            ..self.silenced()
        }
    }

    /// The events of striking `note`: what sounded ends first.
    pub open spec fn strike_events(self, r: PenReading, m: MidiMapping, note: u8) -> Seq<MidiEvent> {
        note_off(self.voice).push(
            MidiEvent::NoteOn {
                channel: self.next_channel(m) as u8,
                note,
                velocity: velocity_of(m.velocity, r.pressure_velocity) as u8,
            },
        )
    }

    /// After the expression of the sounding note has gone out.
    pub open spec fn after_expression(self, drag: Drag, r: PenReading, m: MidiMapping) -> Performance {
        match self.voice {
            None => self,
            Some(_) => Performance {
                last_bend: Some(drag.bend),
                last_cc74: if m.x_to_cc74 {
                    Some(drag.timbre)
                } else {
                    self.last_cc74
                },
                last_pressure: if m.pressure_to_channel_pressure {
                    Some(r.pressure)
                } else {
                    self.last_pressure
                },
                last_tilt_cc: match tilt_reading(r, m) {
                    Some(value) => Some(value),
                    None => self.last_tilt_cc,
                },
                ..self
            },
        }
    }

    /// The expression events of the sounding note: bend, timbre, pressure and
    /// tilt, each where it is mapped and changed.
    pub open spec fn expression_events(self, drag: Drag, r: PenReading, m: MidiMapping) -> Seq<MidiEvent> {
        match self.voice {
            None => Seq::empty(),
            Some(v) => {
                on_change(
                    self.last_bend != Some(drag.bend),
                    MidiEvent::PitchBend { channel: v.channel, value: drag.bend },
                ) + on_change(
                    m.x_to_cc74 && self.last_cc74 != Some(drag.timbre),
                    MidiEvent::ControlChange { channel: v.channel, controller: CC_TIMBRE, value: drag.timbre },
                ) + on_change(
                    m.pressure_to_channel_pressure && self.last_pressure != Some(r.pressure),
                    MidiEvent::ChannelPressure { channel: v.channel, value: r.pressure },
                ) + match tilt_reading(r, m) {
                    Some(value) => on_change(
                        self.last_tilt_cc != Some(value),
                        MidiEvent::ControlChange {
                            channel: v.channel,
                            controller: m.tilt_cc->0.controller,
                            value,
                        },
                    ),
                    None => Seq::empty(),
                }
            },
        }
    }

    /// After the notes of an active reading, before its expression.
    pub open spec fn after_notes(self, r: PenReading, m: MidiMapping) -> Performance {
        match strikes(self.voice, r, m) {
            Some(note) => self.after_strike(r, m, note),
            None => self,
        }
    }

    /// The drag that an active reading expresses: that of the note it holds,
    /// and none where it strikes one.
    pub open spec fn drag_of(self, r: PenReading, m: MidiMapping) -> Drag {
        if strikes(self.voice, r, m) is Some {
            Drag::none_spec()
        } else {
            r.held
        }
    }

    /// After a reading.
    pub open spec fn after(self, r: PenReading, m: MidiMapping) -> Performance {
        if r.active {
            self.after_notes(r, m).after_expression(self.drag_of(r, m), r, m)
        } else {
            self.silenced()
        }
    }

    /// The events that a reading gives rise to.
    pub open spec fn events(self, r: PenReading, m: MidiMapping) -> Seq<MidiEvent> {
        if r.active {
            (match strikes(self.voice, r, m) {
                Some(note) => self.strike_events(r, m, note),
                None => Seq::empty(),
            }) + self.after_notes(r, m).expression_events(self.drag_of(r, m), r, m)
        } else {
            note_off(self.voice)
        }
    }
}

/// "All notes off" on each member channel.
pub open spec fn sweep(m: MidiMapping) -> Seq<MidiEvent> {
    Seq::new(
        if m.mpe.member_low <= m.mpe.member_high {
            m.mpe.members() as nat
        } else {
            0
        },
        |i: int|
            MidiEvent::ControlChange {
                channel: (m.mpe.member_low + i) as u8,
                controller: CC_ALL_NOTES_OFF,
                value: 0,
            },
    )
}

/// The stateful mapper. One engine serves one pen stream.
#[derive(Clone, Debug)]
pub struct MpeEngine {
    next_member_offset: u8,
    voice: Option<Voice>,
    last_bend: Option<u16>,
    last_cc74: Option<u8>,
    last_pressure: Option<u8>,
    last_tilt_cc: Option<u8>,
}

impl View for MpeEngine {
    type V = Performance;

    closed spec fn view(&self) -> Performance {
        Performance {
            next_member_offset: self.next_member_offset as int,
            voice: self.voice,
            last_bend: self.last_bend,
            last_cc74: self.last_cc74,
            last_pressure: self.last_pressure,
            last_tilt_cc: self.last_tilt_cc,
        }
    }
}

impl Default for MpeEngine {
    fn default() -> (r: MpeEngine)
        ensures
            r@ == (Performance {
                next_member_offset: 0,
                voice: None,
                last_bend: None,
                last_cc74: None,
                last_pressure: None,
                last_tilt_cc: None,
            }),
    {
        MpeEngine {
            next_member_offset: 0,
            voice: None,
            last_bend: None,
            last_cc74: None,
            last_pressure: None,
            last_tilt_cc: None,
        }
    }
}

impl MpeEngine {
    /// An engine with nothing sounding.
    pub fn new() -> (r: MpeEngine)
        ensures
            r@ == (Performance {
                next_member_offset: 0,
                voice: None,
                last_bend: None,
                last_cc74: None,
                last_pressure: None,
                last_tilt_cc: None,
            }),
    {
        MpeEngine::default()
    }

    /// The sounding note.
    pub fn active_note(&self) -> (r: Option<u8>)
        ensures
            r == match self@.voice {
                Some(v) => Some(v.note),
                None => None,
            },
    {
        match self.voice {
            Some(v) => Some(v.note),
            None => None,
        }
    }

    /// The channel that carries the sounding note.
    pub fn active_channel(&self) -> (r: Option<u8>)
        ensures
            r == match self@.voice {
                Some(v) => Some(v.channel),
                None => None,
            },
    {
        match self.voice {
            Some(v) => Some(v.channel),
            None => None,
        }
    }

    /// The pad whose note is sounding.
    pub fn active_pad(&self) -> (r: Option<Pad>)
        ensures
            r == match self@.voice {
                Some(v) => Some(v.pad),
                None => None,
            },
    {
        match self.voice {
            Some(v) => Some(v.pad),
            None => None,
        }
    }

    /// Where the sounding note was struck.
    pub fn strike_origin(&self) -> (r: Option<(Double, Double)>)
        ensures
            r == match self@.voice {
                Some(v) => Some((v.strike_x, v.strike_y)),
                None => None,
            },
    {
        match self.voice {
            Some(v) => Some((v.strike_x, v.strike_y)),
            None => None,
        }
    }

    /// What the drag of the sounding note is measured from, with the pen on
    /// `pad`.
    pub fn drag_origin(&self, pad: Pad, m: &MidiMapping) -> (r: Option<DragOrigin>)
        ensures
            r == match self@.voice {
                Some(v) => Some(drag_origin_of(v, pad, *m)),
                None => None,
            },
    {
        match self.voice {
            Some(v) => {
                let glide: Option<i16> = match m.mode {
                    NoteMode::Glide => match pad_note(pad, m) {
                        Some(target) => Some(target as i16 - v.note as i16),
                        None => Some(0),
                    },
                    _ => None,
                };
                Some(DragOrigin { x: v.strike_x, y: v.strike_y, glide })
            },
            None => None,
        }
    }

    /// The pitch bend that went out last for the sounding note.
    pub fn last_bend(&self) -> (r: Option<u16>)
        ensures
            r == self@.last_bend,
    {
        self.last_bend
    }

    /// The timbre that went out last for the sounding note.
    pub fn last_cc74(&self) -> (r: Option<u8>)
        ensures
            r == self@.last_cc74,
    {
        self.last_cc74
    }

    /// The pressure that went out last for the sounding note.
    pub fn last_pressure(&self) -> (r: Option<u8>)
        ensures
            r == self@.last_pressure,
    {
        self.last_pressure
    }

    /// The tilt controller value that went out last for the sounding note.
    pub fn last_tilt_cc(&self) -> (r: Option<u8>)
        ensures
            r == self@.last_tilt_cc,
    {
        self.last_tilt_cc
    }

    /// Take in one reading, adding the events that it gives rise to.
    pub fn process(&mut self, r: &PenReading, m: &MidiMapping, out: &mut Vec<MidiEvent>)
        requires
            m.mpe.members() <= 255,
        ensures
            final(self)@ == old(self)@.after(*r, *m),
            final(out)@ == old(out)@ + old(self)@.events(*r, *m),
    {
        if !r.active {
            self.release(out);
            return;
        }
        let fresh = match self.struck_note(r, m) {
            Some(note) => {
                self.retrigger(r, m, note, out);
                true
            },
            None => false,
        };
        let drag = if fresh {
            Drag::at_strike()
        } else {
            r.held
        };
        self.emit_expression(&drag, r, m, out);
        proof {
            assert(out@ =~= old(out)@ + old(self)@.events(*r, *m));
        }
    }

    /// End the sounding note, if there is one, and forget its expression.
    fn release(&mut self, out: &mut Vec<MidiEvent>)
        ensures
            final(self)@ == old(self)@.silenced(),
            final(out)@ == old(out)@ + note_off(old(self)@.voice),
    {
        if let Some(voice) = self.voice {
            out.push(MidiEvent::NoteOff { channel: voice.channel, note: voice.note, velocity: 0 });
        }
        self.voice = None;
        self.reset_expression();
        proof {
            assert(out@ =~= old(out)@ + note_off(old(self)@.voice));
        }
    }

    /// The note that a reading strikes: the pressed pad's where nothing
    /// sounds, and what sliding onto another pad does where something does.
    /// Pads beyond the MIDI range stay silent.
    fn struck_note(&self, r: &PenReading, m: &MidiMapping) -> (note: Option<u8>)
        ensures
            note == strikes(self@.voice, *r, *m),
    {
        match self.voice {
            None => pad_note(r.pad, m),
            Some(voice) => self.continued_note(r, m, &voice),
        }
    }

    fn continued_note(&self, r: &PenReading, m: &MidiMapping, voice: &Voice) -> (note: Option<u8>)
        ensures
            note == strikes(Some(*voice), *r, *m),
    {
        if r.pad == voice.pad {
            return None;
        }
        match m.mode {
            NoteMode::Hold => None,
            NoteMode::Glide => match pad_note(r.pad, m) {
                Some(target) => {
                    let reach: u8 = if voice.note < target {
                        target - voice.note
                    } else {
                        voice.note - target
                    };
                    if m.mpe.pitch_bend_range_semitones.exceeded_by(reach) {
                        Some(target)
                    } else {
                        None
                    }
                },
                None => None,
            },
            NoteMode::Discrete => pad_note(r.pad, m),
        }
    }

    /// End what sounds and strike `note` on the next member channel.
    fn retrigger(&mut self, r: &PenReading, m: &MidiMapping, note: u8, out: &mut Vec<MidiEvent>)
        requires
            m.mpe.members() <= 255,
        ensures
            final(self)@ == old(self)@.after_strike(*r, *m, note),
            final(out)@ == old(out)@ + old(self)@.strike_events(*r, *m, note),
    {
        if let Some(old_voice) = self.voice {
            out.push(
                MidiEvent::NoteOff { channel: old_voice.channel, note: old_voice.note, velocity: 0 },
            );
        }
        let channel: u8 = self.alloc_channel(m);
        let velocity: u8 = velocity_for(m.velocity, r.pressure_velocity);
        out.push(MidiEvent::NoteOn { channel, note, velocity });
        self.voice = Some(Voice { channel, note, pad: r.pad, strike_x: r.x, strike_y: r.y });
        self.reset_expression();
        proof {
            assert(out@ =~= old(out)@ + old(self)@.strike_events(*r, *m, note));
        }
    }

    /// Send the expression of the sounding note where it changed.
    pub fn emit_expression(&mut self, drag: &Drag, r: &PenReading, m: &MidiMapping, out: &mut Vec<MidiEvent>)
        ensures
            final(self)@ == old(self)@.after_expression(*drag, *r, *m),
            final(out)@ == old(out)@ + old(self)@.expression_events(*drag, *r, *m),
    {
        let channel: u8 = match self.voice {
            Some(voice) => voice.channel,
            None => {
                return;
            },
        };
        if self.last_bend != Some(drag.bend) {
            out.push(MidiEvent::PitchBend { channel, value: drag.bend });
            self.last_bend = Some(drag.bend);
        }
        if m.x_to_cc74 {
            if self.last_cc74 != Some(drag.timbre) {
                out.push(
                    MidiEvent::ControlChange { channel, controller: CC_TIMBRE, value: drag.timbre },
                );
                self.last_cc74 = Some(drag.timbre);
            }
        }
        if m.pressure_to_channel_pressure {
            if self.last_pressure != Some(r.pressure) {
                out.push(MidiEvent::ChannelPressure { channel, value: r.pressure });
                self.last_pressure = Some(r.pressure);
            }
        }
        if let Some(tilt) = m.tilt_cc {
            let reading = match tilt.axis {
                TiltAxis::X => r.tilt_x,
                TiltAxis::Y => r.tilt_y,
            };
            if let Some(value) = reading {
                if self.last_tilt_cc != Some(value) {
                    out.push(
                        MidiEvent::ControlChange { channel, controller: tilt.controller, value },
                    );
                    self.last_tilt_cc = Some(value);
                }
            }
        }
        proof {
            assert(out@ =~= old(out)@ + old(self)@.expression_events(*drag, *r, *m));
        }
    }

    /// Panic: end the sounding note and send "all notes off" on every member
    /// channel, so that nothing is left hanging.
    pub fn all_notes_off(&mut self, m: &MidiMapping, out: &mut Vec<MidiEvent>)
        ensures
            final(self)@ == (Performance { next_member_offset: 0, ..old(self)@.silenced() }),
            final(out)@ == old(out)@ + note_off(old(self)@.voice) + sweep(*m),
    {
        self.release(out);
        let ghost released = out@;
        let low: u16 = m.mpe.member_low as u16;
        let high: u16 = m.mpe.member_high as u16;
        let mut channel: u16 = low;
        while channel <= high
            invariant
                low == m.mpe.member_low,
                high == m.mpe.member_high,
                low <= channel,
                channel <= high + 1 || channel == low,
                out@ =~= released + sweep(*m).take(channel - low),
            decreases high + 1 - channel,
        {
            out.push(
                MidiEvent::ControlChange {
                    channel: channel as u8,
                    controller: CC_ALL_NOTES_OFF,
                    value: 0,
                },
            );
            channel = channel + 1;
        }
        self.next_member_offset = 0;
        proof {
            assert(out@ =~= released + sweep(*m));
        }
    }

    /// The next member channel, in turn.
    fn alloc_channel(&mut self, m: &MidiMapping) -> (r: u8)
        requires
            m.mpe.members() <= 255,
        ensures
            r == old(self)@.next_channel(*m),
            final(self)@ == (Performance {
                next_member_offset: (old(self)@.next_member_offset + 1) % m.mpe.members(),
                ..old(self)@
            }),
    {
        let count: u8 = m.mpe.member_count();
        let place: u8 = self.next_member_offset % count;
        proof {
            vstd::arithmetic::div_mod::lemma_add_mod_noop(self.next_member_offset as int, 1, count as int);
            if place + 1 < count {
                vstd::arithmetic::div_mod::lemma_small_mod((place + 1) as nat, count as nat);
                vstd::arithmetic::div_mod::lemma_mod_twice(self.next_member_offset as int, count as int);
            } else {
                vstd::arithmetic::div_mod::lemma_mod_self_0(count as int);
            }
            if count > 1 {
                vstd::arithmetic::div_mod::lemma_small_mod(1, count as nat);
            }
        }
        self.next_member_offset = if place + 1 < count {
            place + 1
        } else {
            0
        };
        m.mpe.member_low + place
    }

    fn reset_expression(&mut self)
        ensures
            final(self)@ == (Performance {
                last_bend: None,
                last_cc74: None,
                last_pressure: None,
                last_tilt_cc: None,
                ..old(self)@
            }),
    {
        self.last_bend = None;
        self.last_cc74 = None;
        self.last_pressure = None;
        self.last_tilt_cc = None;
    }
}

/// An engine tells what went out last on each axis of the sounding note.
pub proof fn engines_tell_what_went_out(
    engine: MpeEngine,
    bend: Option<u16>,
    timbre: Option<u8>,
    pressure: Option<u8>,
    tilt: Option<u8>,
    strike: Drag,
)
    requires
        call_ensures(MpeEngine::last_bend, (&engine,), bend),
        call_ensures(MpeEngine::last_cc74, (&engine,), timbre),
        call_ensures(MpeEngine::last_pressure, (&engine,), pressure),
        call_ensures(MpeEngine::last_tilt_cc, (&engine,), tilt),
        call_ensures(Drag::at_strike, (), strike),
    ensures
        bend == engine@.last_bend,
        timbre == engine@.last_cc74,
        pressure == engine@.last_pressure,
        tilt == engine@.last_tilt_cc,
        strike.bend == 8192 && strike.timbre == 64,
{
}

} // verus!
