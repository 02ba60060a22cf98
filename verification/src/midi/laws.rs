//! What holds of every performance.
use vstd::arithmetic::power2::pow2;
use vstd::prelude::*;

use crate::double::Double;
use crate::midi::engine::{
    drag_origin_of, note_off, strikes, velocity_for, Drag, DragOrigin, MpeEngine, PenReading, Performance, Voice,
};
use crate::midi::event::{MidiEvent, CC_TIMBRE, PITCH_BEND_CENTER};
use crate::midi::mapping::{MidiMapping, NoteMode, TiltAxis, VelocitySource};
use crate::midi::pads::{note_of, pad_note, sounds, Pad};

verus! {

/// Channel and note of what sounds.
pub open spec fn sounding(voice: Option<Voice>) -> Option<(u8, u8)> {
    match voice {
        Some(v) => Some((v.channel, v.note)),
        None => None,
    }
}

/// What a receiver hears after `events`, having heard `start` before: `None`
/// where an event makes no sense to it. A note starts only in silence and with
/// a velocity above 0, ends only while it sounds, and anything else speaks of
/// the channel that sounds.
pub open spec fn heard(start: Option<(u8, u8)>, events: Seq<MidiEvent>) -> Option<Option<(u8, u8)>>
    decreases events.len(),
{
    if events.len() == 0 {
        Some(start)
    } else {
        match heard(start, events.drop_last()) {
            None => None,
            Some(now) => match events.last() {
                MidiEvent::NoteOn { channel, note, velocity } => if now is None && velocity > 0 {
                    Some(Some((channel, note)))
                } else {
                    None
                },
                MidiEvent::NoteOff { channel, note, .. } => if now == Some((channel, note)) {
                    Some(None)
                } else {
                    None
                },
                other => if now is Some && (now->0).0 == other.on_channel() {
                    Some(now)
                } else {
                    None
                },
            },
        }
    }
}

/// Hearing one run of events and then another is hearing both.
proof fn lemma_heard_in_turn(start: Option<(u8, u8)>, first: Seq<MidiEvent>, second: Seq<MidiEvent>)
    requires
        heard(start, first) is Some,
    ensures
        heard(start, first + second) == heard(heard(start, first)->0, second),
    decreases second.len(),
{
    if second.len() == 0 {
        assert(first + second =~= first);
    } else {
        lemma_heard_in_turn(start, first, second.drop_last());
        assert((first + second).drop_last() =~= first + second.drop_last());
        assert((first + second).last() == second.last());
    }
}

proof fn lemma_heard_one(start: Option<(u8, u8)>, event: MidiEvent)
    ensures
        heard(start, seq![event]) == (match event {
            MidiEvent::NoteOn { channel, note, velocity } => if start is None && velocity > 0 {
                Some(Some((channel, note)))
            } else {
                None
            },
            MidiEvent::NoteOff { channel, note, .. } => if start == Some((channel, note)) {
                Some(None)
            } else {
                None
            },
            other => if start is Some && (start->0).0 == other.on_channel() {
                Some(start)
            } else {
                None
            },
        }),
{
    assert(seq![event].drop_last() =~= Seq::<MidiEvent>::empty());
    assert(heard(start, seq![event].drop_last()) == Some(start));
}

/// Expression events leave what sounds as it is.
proof fn lemma_expression_heard(start: Option<(u8, u8)>, events: Seq<MidiEvent>)
    requires
        start is Some,
        forall|i: int|
            0 <= i < events.len() ==> !(#[trigger] events[i] is NoteOn) && !(events[i] is NoteOff)
                && events[i].on_channel() == (start->0).0,
    ensures
        heard(start, events) == Some(start),
    decreases events.len(),
{
    if events.len() > 0 {
        assert forall|i: int| 0 <= i < events.drop_last().len() implies !(#[trigger] events.drop_last()[i] is NoteOn)
            && !(events.drop_last()[i] is NoteOff) && events.drop_last()[i].on_channel() == (start->0).0 by {
            assert(events.drop_last()[i] == events[i]);
        }
        lemma_expression_heard(start, events.drop_last());
        assert(events.last() == events[events.len() - 1]);
    }
}

/// The events of one reading make sense to a receiver that hears what the
/// engine thinks it hears, and afterwards it still does: a note is struck only
/// once the one before has ended, no note is ended twice, and expression speaks
/// of the sounding note alone.
pub proof fn readings_make_sense(p: Performance, r: PenReading, m: MidiMapping)
    ensures
        heard(sounding(p.voice), p.events(r, m)) == Some(sounding(p.after(r, m).voice)),
{
    let start = sounding(p.voice);
    lemma_note_off_heard(p.voice);
    if r.active {
        let now = p.after_notes(r, m);
        let notes = match strikes(p.voice, r, m) {
            Some(note) => p.strike_events(r, m, note),
            None => Seq::empty(),
        };
        if let Some(note) = strikes(p.voice, r, m) {
            let on = p.strike_events(r, m, note).last();
            assert(notes =~= note_off(p.voice) + seq![on]);
            lemma_heard_in_turn(start, note_off(p.voice), seq![on]);
            lemma_heard_one(None, on);
        }
        assert(heard(start, notes) == Some(sounding(now.voice)));
        let expression = now.expression_events(p.drag_of(r, m), r, m);
        if now.voice is Some {
            lemma_expression_heard(sounding(now.voice), expression);
        }
        lemma_heard_in_turn(start, notes, expression);
    }
}

proof fn lemma_note_off_heard(voice: Option<Voice>)
    ensures
        heard(sounding(voice), note_off(voice)) == Some(None::<(u8, u8)>),
{
    if let Some(v) = voice {
        lemma_heard_one(sounding(voice), note_off(voice)[0]);
    }
}

/// The performance after a run of readings, each under its own mapping.
pub open spec fn after_all(p: Performance, readings: Seq<(PenReading, MidiMapping)>) -> Performance
    decreases readings.len(),
{
    if readings.len() == 0 {
        p
    } else {
        let (r, m) = readings.last();
        after_all(p, readings.drop_last()).after(r, m)
    }
}

/// The events of a run of readings.
pub open spec fn all_events(p: Performance, readings: Seq<(PenReading, MidiMapping)>) -> Seq<MidiEvent>
    decreases readings.len(),
{
    if readings.len() == 0 {
        Seq::empty()
    } else {
        let (r, m) = readings.last();
        all_events(p, readings.drop_last()) + after_all(p, readings.drop_last()).events(r, m)
    }
}

/// A whole performance makes sense to its receiver, whatever the pen does and
/// however the mapping changes on the way.
pub proof fn performances_make_sense(p: Performance, readings: Seq<(PenReading, MidiMapping)>)
    ensures
        heard(sounding(p.voice), all_events(p, readings)) == Some(sounding(after_all(p, readings).voice)),
    decreases readings.len(),
{
    if readings.len() > 0 {
        let before = readings.drop_last();
        let (r, m) = readings.last();
        performances_make_sense(p, before);
        readings_make_sense(after_all(p, before), r, m);
        lemma_heard_in_turn(
            sounding(p.voice),
            all_events(p, before),
            after_all(p, before).events(r, m),
        );
    }
}

/// A struck note is a MIDI note of the scale, its velocity is audible, and its
/// channel is one of the members.
#[verifier::spinoff_prover]
pub proof fn struck_notes_are_in_range(p: Performance, r: PenReading, m: MidiMapping, i: int)
    requires
        m.valid(),
        0 <= p.next_member_offset,
        0 <= i < p.events(r, m).len(),
        p.events(r, m)[i] is NoteOn,
    ensures
        p.events(r, m)[i] matches MidiEvent::NoteOn { channel, note, velocity } && {
            &&& m.mpe.member_low <= channel <= m.mpe.member_high
            &&& sounds(r.pad, m, note as int)
            &&& 1 <= velocity <= 127
        },
{
    vstd::arithmetic::div_mod::lemma_mod_bound(p.next_member_offset, m.mpe.members());
    let expression = p.after_notes(r, m).expression_events(p.drag_of(r, m), r, m);
    assert(forall|j: int| 0 <= j < expression.len() ==> !(#[trigger] expression[j] is NoteOn));
    if let Some(note) = strikes(p.voice, r, m) {
        let notes = p.strike_events(r, m, note);
        assert(p.events(r, m) =~= notes + expression);
        if i >= notes.len() {
            assert(p.events(r, m)[i] == expression[i - notes.len()]);
        }
        assert(i < notes.len());
        assert(note_of(r.pad, m) == Some(note));
    } else if r.active {
        assert(p.events(r, m) =~= expression);
    }
}

/// Successive notes take the member channels in turn: the channel after the
/// last one used, or the first again.
pub proof fn channels_are_used_in_turn(p: Performance, r: PenReading, m: MidiMapping, note: u8)
    requires
        m.valid(),
        0 <= p.next_member_offset,
    ensures
        ({
            let used = p.next_channel(m);
            let next = p.after_strike(r, m, note).next_channel(m);
            next == if used < m.mpe.member_high {
                used + 1
            } else {
                m.mpe.member_low as int
            }
        }),
{
    let n = m.mpe.members();
    let o = p.next_member_offset;
    vstd::arithmetic::div_mod::lemma_mod_bound(o, n);
    vstd::arithmetic::div_mod::lemma_mod_twice(o + 1, n);
    vstd::arithmetic::div_mod::lemma_add_mod_noop(o, 1, n);
    if n == 1 {
        assert((o + 1) % 1 == 0);
    } else {
        vstd::arithmetic::div_mod::lemma_small_mod(1, n as nat);
        if o % n + 1 < n {
            vstd::arithmetic::div_mod::lemma_small_mod((o % n + 1) as nat, n as nat);
        } else {
            vstd::arithmetic::div_mod::lemma_mod_self_0(n);
        }
    }
}

/// A pen that rests sends nothing: after a reading, one that differs in
/// nothing that the mapping listens to gives rise to no event.
pub proof fn resting_pen_is_silent(p: Performance, r: PenReading, again: PenReading, m: MidiMapping)
    requires
        r.active,
        again.active,
        again.pad == r.pad,
        again.held == p.drag_of(r, m),
        again.pressure == r.pressure,
        again.tilt_x == r.tilt_x,
        again.tilt_y == r.tilt_y,
    ensures
        p.after(r, m).events(again, m) == Seq::<MidiEvent>::empty(),
        p.after(r, m).after(again, m) == p.after(r, m),
{
    let q = p.after(r, m);
    assert(strikes(q.voice, again, m) is None);
    assert(q.events(again, m) =~= Seq::<MidiEvent>::empty());
}

/// In hold mode the struck note stays for as long as the pen presses, wherever
/// it slides.
pub proof fn hold_mode_latches(p: Performance, r: PenReading, m: MidiMapping)
    requires
        m.mode == NoteMode::Hold,
        p.voice is Some,
        r.active,
    ensures
        p.after(r, m).voice == p.voice,
{
}

/// Gliding never bends further than the receiver can follow: a note that is
/// not struck anew bends by no more than the bend range. The pad of the strike
/// bends not at all, so long as it keeps its note.
pub proof fn glides_stay_in_range(voice: Voice, r: PenReading, m: MidiMapping)
    requires
        m.valid(),
        m.mode == NoteMode::Glide,
        !m.mpe.pitch_bend_range_semitones.nan(),
        strikes(Some(voice), r, m) is None,
        note_of(voice.pad, m) == Some(voice.note),
    ensures
        ({
            let glide = drag_origin_of(voice, r.pad, m).glide->0;
            let reach = if glide < 0 {
                -glide
            } else {
                glide as int
            };
            &&& drag_origin_of(voice, r.pad, m).glide is Some
            &&& Double::whole_rank(reach) <= m.mpe.pitch_bend_range_semitones.rank()
            &&& r.pad == voice.pad ==> glide == 0
        }),
{
    assert(Double::whole_rank(0) == 0);
}

/// A note starts in tune wherever the pen lands on its pad, and whatever was
/// sent before: right after the note-on its channel gets the centred bend, no
/// bend comes earlier, and where timbre is mapped the neutral one follows.
pub proof fn strikes_are_in_tune(p: Performance, r: PenReading, m: MidiMapping)
    requires
        r.active,
        strikes(p.voice, r, m) is Some,
    ensures
        ({
            let events = p.events(r, m);
            let first: int = if p.voice is Some {
                2
            } else {
                1
            };
            let channel = p.after(r, m).voice->0.channel;
            &&& first < events.len()
            &&& events[first - 1] matches MidiEvent::NoteOn { channel: on, .. } && on == channel
            &&& events[first] == MidiEvent::PitchBend { channel, value: PITCH_BEND_CENTER }
            &&& forall|i: int| 0 <= i < first ==> !((#[trigger] events[i]) is PitchBend)
            &&& m.x_to_cc74 ==> first + 1 < events.len() && events[first + 1] == MidiEvent::ControlChange {
                channel,
                controller: CC_TIMBRE,
                value: 64,
            }
        }),
        p.after(r, m).last_bend == Some(PITCH_BEND_CENTER),
        m.x_to_cc74 ==> p.after(r, m).last_cc74 == Some(64u8),
{
    let note = strikes(p.voice, r, m)->0;
    let notes = p.strike_events(r, m, note);
    let now = p.after_notes(r, m);
    let expression = now.expression_events(Drag::none_spec(), r, m);
    assert(expression[0] == MidiEvent::PitchBend { channel: now.voice->0.channel, value: PITCH_BEND_CENTER });
    assert(p.events(r, m)[notes.len() as int] == expression[0]);
    if m.x_to_cc74 {
        assert(expression[1] == MidiEvent::ControlChange {
            channel: now.voice->0.channel,
            controller: CC_TIMBRE,
            value: 64,
        });
        assert(p.events(r, m)[(notes.len() + 1) as int] == expression[1]);
    }
}

/// Expression goes out on change only: sending the same drag and reading twice
/// adds nothing the second time and changes nothing, and where no note sounds
/// nothing goes out at all.
pub proof fn repeated_expression_is_silent(p: Performance, drag: Drag, r: PenReading, m: MidiMapping)
    ensures
        p.after_expression(drag, r, m).expression_events(drag, r, m) == Seq::<MidiEvent>::empty(),
        p.after_expression(drag, r, m).after_expression(drag, r, m) == p.after_expression(drag, r, m),
        p.voice is None ==> p.expression_events(drag, r, m) == Seq::<MidiEvent>::empty() && p.after_expression(
            drag,
            r,
            m,
        ) == p,
{
    assert(p.after_expression(drag, r, m).expression_events(drag, r, m) =~= Seq::<MidiEvent>::empty());
}

/// Is `event` the start or the end of a note?
pub open spec fn plays(event: MidiEvent) -> bool {
    event is NoteOn || event is NoteOff
}

/// Do the events that came behind `before` start `note` at a reading, after
/// ending what sounded, and no other note; and is it what sounds then?
pub open spec fn starts_note(
    engine: Performance,
    after: Performance,
    before: Seq<MidiEvent>,
    out: Seq<MidiEvent>,
    r: PenReading,
    note: u8,
) -> bool {
    let at: int = before.len() + if engine.voice is Some {
        1int
    } else {
        0
    };
    &&& at < out.len()
    &&& out.take(before.len() as int) == before
    &&& engine.voice matches Some(v) ==> out[at - 1] == MidiEvent::NoteOff { channel: v.channel, note: v.note, velocity: 0 }
    &&& out[at] matches MidiEvent::NoteOn { channel, note: struck, velocity } && {
        &&& struck == note
        &&& 1 <= velocity <= 127
        &&& after.voice == Some(Voice { channel, note, pad: r.pad, strike_x: r.x, strike_y: r.y })
    }
    &&& forall|i: int| at < i < out.len() ==> !plays(#[trigger] out[i])
}

/// Do the events that came behind `before` leave what sounds alone?
pub open spec fn keeps_note(
    engine: Performance,
    after: Performance,
    before: Seq<MidiEvent>,
    out: Seq<MidiEvent>,
) -> bool {
    &&& after.voice == engine.voice
    &&& before.len() <= out.len()
    &&& out.take(before.len() as int) == before
    &&& forall|i: int| before.len() <= i < out.len() ==> !plays(#[trigger] out[i])
}

/// Pressing a pad in silence starts the note of that pad, and a pad without a
/// note starts nothing and sends nothing.
pub proof fn pressing_starts_the_pads_note(
    engine: &mut MpeEngine,
    r: PenReading,
    m: MidiMapping,
    out: &mut Vec<MidiEvent>,
    note: Option<u8>,
)
    requires
        call_ensures(MpeEngine::process, (engine, &r, &m, out), ()),
        call_ensures(pad_note, (r.pad, &m), note),
        r.active,
        old(engine)@.voice is None,
    ensures
        note matches Some(n) ==> starts_note(old(engine)@, final(engine)@, old(out)@, final(out)@, r, n),
        note is None ==> final(out)@ == old(out)@ && final(engine)@ == old(engine)@,
{
    lemma_process(old(engine)@, r, m, old(out)@);
}

/// With pads as keys, entering another pad always starts the note of that pad
/// and ends the one before, be it higher or lower. Only a pad without a note
/// leaves the old one sounding.
pub proof fn entering_another_pad_starts_its_note(
    engine: &mut MpeEngine,
    r: PenReading,
    m: MidiMapping,
    out: &mut Vec<MidiEvent>,
    note: Option<u8>,
)
    requires
        call_ensures(MpeEngine::process, (engine, &r, &m, out), ()),
        call_ensures(pad_note, (r.pad, &m), note),
        m.mode == NoteMode::Discrete,
        r.active,
        old(engine)@.voice matches Some(v) && v.pad != r.pad,
    ensures
        note matches Some(n) ==> starts_note(old(engine)@, final(engine)@, old(out)@, final(out)@, r, n),
        note is None ==> keeps_note(old(engine)@, final(engine)@, old(out)@, final(out)@),
{
    lemma_process(old(engine)@, r, m, old(out)@);
}

/// In glide mode a note is started anew exactly where the pad under the pen has
/// a note that lies further from the sounding one, in either direction, than the
/// bend range reaches.
pub proof fn gliding_starts_a_note_beyond_the_bend_range(
    engine: &mut MpeEngine,
    r: PenReading,
    m: MidiMapping,
    out: &mut Vec<MidiEvent>,
    note: Option<u8>,
)
    requires
        call_ensures(MpeEngine::process, (engine, &r, &m, out), ()),
        call_ensures(pad_note, (r.pad, &m), note),
        m.mode == NoteMode::Glide,
        r.active,
        old(engine)@.voice matches Some(v) && v.pad != r.pad,
        !m.mpe.pitch_bend_range_semitones.nan(),
    ensures
        ({
            let reach = m.mpe.pitch_bend_range_semitones.rank();
            let from = (old(engine)@.voice->0).note;
            match note {
                Some(n) => {
                    let up = (n - from) * pow2(1074);
                    if -reach <= up <= reach {
                        keeps_note(old(engine)@, final(engine)@, old(out)@, final(out)@)
                    } else {
                        starts_note(old(engine)@, final(engine)@, old(out)@, final(out)@, r, n)
                    }
                },
                None => keeps_note(old(engine)@, final(engine)@, old(out)@, final(out)@),
            }
        }),
{
    lemma_process(old(engine)@, r, m, old(out)@);
    if let Some(n) = note {
        let from = (old(engine)@.voice->0).note;
        vstd::arithmetic::power2::lemma_pow2_pos(1074);
        let p = pow2(1074) as int;
        let up = (n - from) * p;
        let reach = m.mpe.pitch_bend_range_semitones.rank();
        assert((from - n) * p == -up) by (nonlinear_arith)
            requires
                up == (n - from) * p,
        ;
        assert(n >= from ==> up >= 0) by (nonlinear_arith)
            requires
                up == (n - from) * p,
                p > 0,
        ;
        assert(n <= from ==> up <= 0) by (nonlinear_arith)
            requires
                up == (n - from) * p,
                p > 0,
        ;
    }
}

/// While the pen stays on the pad that it struck, and in hold mode wherever it
/// goes, the note is left alone.
pub proof fn staying_keeps_the_note(
    engine: &mut MpeEngine,
    r: PenReading,
    m: MidiMapping,
    out: &mut Vec<MidiEvent>,
)
    requires
        call_ensures(MpeEngine::process, (engine, &r, &m, out), ()),
        r.active,
        old(engine)@.voice matches Some(v) && (v.pad == r.pad || m.mode == NoteMode::Hold),
    ensures
        keeps_note(old(engine)@, final(engine)@, old(out)@, final(out)@),
{
    lemma_process(old(engine)@, r, m, old(out)@);
}

/// Lifting the pen ends what sounds and sends nothing else; the engine then
/// remembers no expression, and its place among the channels stays.
pub proof fn lifting_ends_the_note(
    engine: &mut MpeEngine,
    r: PenReading,
    m: MidiMapping,
    out: &mut Vec<MidiEvent>,
)
    requires
        call_ensures(MpeEngine::process, (engine, &r, &m, out), ()),
        !r.active,
    ensures
        match old(engine)@.voice {
            Some(v) => final(out)@ == old(out)@.push(
                MidiEvent::NoteOff { channel: v.channel, note: v.note, velocity: 0 },
            ),
            None => final(out)@ == old(out)@,
        },
        final(engine)@.voice is None,
        final(engine)@.last_bend is None,
        final(engine)@.last_cc74 is None,
        final(engine)@.last_pressure is None,
        final(engine)@.last_tilt_cc is None,
        final(engine)@.next_member_offset == old(engine)@.next_member_offset,
{
    if let Some(v) = old(engine)@.voice {
        assert(final(out)@ =~= old(out)@.push(
            MidiEvent::NoteOff { channel: v.channel, note: v.note, velocity: 0 },
        ));
    } else {
        assert(final(out)@ =~= old(out)@);
    }
}

/// A note that is started takes the member channel whose turn it is, and the
/// turn passes to the next one, from the last back to the first.
pub proof fn notes_take_turns_on_the_channels(
    engine: &mut MpeEngine,
    r: PenReading,
    m: MidiMapping,
    out: &mut Vec<MidiEvent>,
    i: int,
)
    requires
        m.mpe.member_low <= m.mpe.member_high <= 15,
        call_ensures(MpeEngine::process, (engine, &r, &m, out), ()),
        0 <= old(engine)@.next_member_offset <= m.mpe.member_high - m.mpe.member_low,
        old(out)@.len() <= i < final(out)@.len(),
        final(out)@[i] is NoteOn,
    ensures
        ({
            let turn = m.mpe.member_low + old(engine)@.next_member_offset;
            &&& final(out)@[i] matches MidiEvent::NoteOn { channel, .. } && channel == turn
            &&& final(engine)@.next_member_offset == if turn == m.mpe.member_high {
                0
            } else {
                old(engine)@.next_member_offset + 1
            }
        }),
{
    lemma_process(old(engine)@, r, m, old(out)@);
    let p = old(engine)@;
    let n = m.mpe.members();
    let o = p.next_member_offset;
    vstd::arithmetic::div_mod::lemma_small_mod(o as nat, n as nat);
    if o + 1 < n {
        vstd::arithmetic::div_mod::lemma_small_mod((o + 1) as nat, n as nat);
    } else {
        vstd::arithmetic::div_mod::lemma_mod_self_0(n);
    }
}

/// A velocity is that of its source, as far as it is audible: softer ones count
/// as 1, louder ones as 127. A fixed one does not depend on the pressure.
pub proof fn velocities_come_from_their_source(source: VelocitySource, from_pressure: u8, r: u8)
    requires
        call_ensures(velocity_for, (source, from_pressure), r),
    ensures
        ({
            let wanted = match source {
                VelocitySource::Fixed(v) => v,
                VelocitySource::Pressure { .. } => from_pressure,
            };
            &&& 1 <= wanted <= 127 ==> r == wanted
            &&& wanted == 0 ==> r == 1
            &&& wanted > 127 ==> r == 127
        }),
{
}

/// A note is started with the velocity of the mapping's source.
pub proof fn notes_start_with_their_velocity(
    engine: &mut MpeEngine,
    r: PenReading,
    m: MidiMapping,
    out: &mut Vec<MidiEvent>,
    i: int,
    velocity: u8,
)
    requires
        call_ensures(MpeEngine::process, (engine, &r, &m, out), ()),
        call_ensures(velocity_for, (m.velocity, r.pressure_velocity), velocity),
        old(out)@.len() <= i < final(out)@.len(),
        final(out)@[i] is NoteOn,
    ensures
        final(out)@[i] matches MidiEvent::NoteOn { velocity: sent, .. } && sent == velocity,
{
    lemma_process(old(engine)@, r, m, old(out)@);
}

/// `event` alone where it is wanted, and nothing otherwise.
pub open spec fn sent_if(wanted: bool, event: MidiEvent) -> Seq<MidiEvent> {
    if wanted {
        seq![event]
    } else {
        Seq::empty()
    }
}

/// The tilt that a mapping listens to: that of the axis it names.
pub open spec fn heeded_tilt(r: PenReading, m: MidiMapping) -> Option<u8> {
    match m.tilt_cc {
        None => None,
        Some(cc) if cc.axis == TiltAxis::Y => r.tilt_y,
        Some(_) => r.tilt_x,
    }
}

/// What a receiver on `channel` has to be told of a drag and a reading, when it
/// was told `engine`'s last values: the bend; the timbre on controller 74, the
/// pressure and the tilt on its controller, where the mapping wants them. Only
/// what changed is told.
pub open spec fn news(engine: Performance, channel: u8, drag: Drag, r: PenReading, m: MidiMapping) -> Seq<MidiEvent> {
    let tilt = heeded_tilt(r, m);
    sent_if(engine.last_bend != Some(drag.bend), MidiEvent::PitchBend { channel, value: drag.bend }) + sent_if(
        m.x_to_cc74 && engine.last_cc74 != Some(drag.timbre),
        MidiEvent::ControlChange { channel, controller: 74, value: drag.timbre },
    ) + sent_if(
        m.pressure_to_channel_pressure && engine.last_pressure != Some(r.pressure),
        MidiEvent::ChannelPressure { channel, value: r.pressure },
    ) + sent_if(
        tilt is Some && engine.last_tilt_cc != tilt,
        MidiEvent::ControlChange { channel, controller: m.tilt_cc->0.controller, value: tilt->0 },
    )
}

/// Does the engine remember what a receiver was told last?
pub open spec fn remembers(before: Performance, after: Performance, drag: Drag, r: PenReading, m: MidiMapping) -> bool {
    &&& after.last_bend == Some(drag.bend)
    &&& after.last_cc74 == if m.x_to_cc74 {
        Some(drag.timbre)
    } else {
        before.last_cc74
    }
    &&& after.last_pressure == if m.pressure_to_channel_pressure {
        Some(r.pressure)
    } else {
        before.last_pressure
    }
    &&& after.last_tilt_cc == if heeded_tilt(r, m) is Some {
        heeded_tilt(r, m)
    } else {
        before.last_tilt_cc
    }
}

/// Expression goes out for a sounding note alone, on its channel: exactly what
/// the receiver does not know yet. The note stays as it is.
pub proof fn expression_tells_the_news(
    engine: &mut MpeEngine,
    drag: Drag,
    r: PenReading,
    m: MidiMapping,
    out: &mut Vec<MidiEvent>,
)
    requires
        call_ensures(MpeEngine::emit_expression, (engine, &drag, &r, &m, out), ()),
    ensures
        final(engine)@.voice == old(engine)@.voice,
        final(engine)@.next_member_offset == old(engine)@.next_member_offset,
        match old(engine)@.voice {
            Some(v) => final(out)@ == old(out)@ + news(old(engine)@, v.channel, drag, r, m) && remembers(
                old(engine)@,
                final(engine)@,
                drag,
                r,
                m,
            ),
            None => final(out)@ == old(out)@ && final(engine)@ == old(engine)@,
        },
{
    if let Some(v) = old(engine)@.voice {
        assert(final(out)@ =~= old(out)@ + news(old(engine)@, v.channel, drag, r, m));
    } else {
        assert(final(out)@ =~= old(out)@);
    }
}

/// While a note is held, a reading tells how far the pen was dragged, and how
/// hard and how tilted it is, as far as that is news.
pub proof fn held_notes_follow_the_pen(
    engine: &mut MpeEngine,
    r: PenReading,
    m: MidiMapping,
    out: &mut Vec<MidiEvent>,
)
    requires
        call_ensures(MpeEngine::process, (engine, &r, &m, out), ()),
        r.active,
        old(engine)@.voice matches Some(v) && (v.pad == r.pad || m.mode == NoteMode::Hold),
    ensures
        final(out)@ == old(out)@ + news(old(engine)@, (old(engine)@.voice->0).channel, r.held, r, m),
        remembers(old(engine)@, final(engine)@, r.held, r, m),
{
    assert(final(out)@ =~= old(out)@ + news(old(engine)@, (old(engine)@.voice->0).channel, r.held, r, m));
}

/// A note that is started is told everything at once, whatever the receiver knew
/// of the note before: no bend, neutral timbre, and the pressure and tilt of the
/// strike.
pub proof fn new_notes_are_told_everything(
    engine: &mut MpeEngine,
    r: PenReading,
    m: MidiMapping,
    out: &mut Vec<MidiEvent>,
    at: int,
)
    requires
        call_ensures(MpeEngine::process, (engine, &r, &m, out), ()),
        old(out)@.len() <= at < final(out)@.len(),
        final(out)@[at] is NoteOn,
    ensures
        ({
            let channel = final(out)@[at]->NoteOn_channel;
            let unknown = Performance {
                last_bend: None,
                last_cc74: None,
                last_pressure: None,
                last_tilt_cc: None,
                ..old(engine)@
            };
            let drag = Drag { bend: 8192, timbre: 64 };
            &&& final(out)@.skip(at + 1) == news(unknown, channel, drag, r, m)
            &&& remembers(unknown, final(engine)@, drag, r, m)
        }),
{
    lemma_process(old(engine)@, r, m, old(out)@);
    let unknown = Performance {
        last_bend: None,
        last_cc74: None,
        last_pressure: None,
        last_tilt_cc: None,
        ..old(engine)@
    };
    let channel = final(out)@[at]->NoteOn_channel;
    assert(final(out)@.skip(at + 1) =~= news(unknown, channel, Drag { bend: 8192, timbre: 64 }, r, m));
}

/// A panic ends what sounds, then silences each member channel once, in order,
/// with controller 123, and starts over with the channels.
pub proof fn panics_silence_every_channel(engine: &mut MpeEngine, m: MidiMapping, out: &mut Vec<MidiEvent>)
    requires
        m.mpe.member_low <= m.mpe.member_high,
        call_ensures(MpeEngine::all_notes_off, (engine, &m, out), ()),
    ensures
        ({
            let at: int = old(out)@.len() + if old(engine)@.voice is Some {
                1int
            } else {
                0
            };
            &&& final(out)@.len() == at + m.mpe.member_high - m.mpe.member_low + 1
            &&& final(out)@.take(old(out)@.len() as int) == old(out)@
            &&& old(engine)@.voice matches Some(v) ==> final(out)@[at - 1] == (MidiEvent::NoteOff {
                channel: v.channel,
                note: v.note,
                velocity: 0,
            })
            &&& forall|i: int|
                #![trigger final(out)@[i]]
                at <= i < final(out)@.len() ==> final(out)@[i] == (MidiEvent::ControlChange {
                    channel: (m.mpe.member_low + i - at) as u8,
                    controller: 123,
                    value: 0,
                })
        }),
        final(engine)@.voice is None,
        final(engine)@.last_bend is None,
        final(engine)@.last_cc74 is None,
        final(engine)@.last_pressure is None,
        final(engine)@.last_tilt_cc is None,
        final(engine)@.next_member_offset == 0,
{
    assert(final(out)@.take(old(out)@.len() as int) =~= old(out)@);
}

/// The drag of a held note is measured from where it was struck. Gliding aims at
/// the note of the pad under the pen: the sounding note and the aim add up to
/// it, and a pad without a note aims at the sounding note itself.
pub proof fn drags_are_measured_from_the_strike(
    engine: MpeEngine,
    pad: Pad,
    m: MidiMapping,
    note: Option<u8>,
    r: Option<DragOrigin>,
)
    requires
        call_ensures(MpeEngine::drag_origin, (&engine, pad, &m), r),
        call_ensures(pad_note, (pad, &m), note),
    ensures
        r is Some <==> engine@.voice is Some,
        engine@.voice matches Some(v) ==> r matches Some(origin) && {
            &&& origin.x == v.strike_x
            &&& origin.y == v.strike_y
            &&& origin.glide is Some <==> m.mode == NoteMode::Glide
            &&& origin.glide matches Some(aim) ==> match note {
                Some(n) => v.note + aim == n,
                None => aim == 0,
            }
        },
{
}

/// What an engine says of itself is what sounds, and what was told last.
pub proof fn engines_tell_what_sounds(
    engine: MpeEngine,
    note: Option<u8>,
    channel: Option<u8>,
    pad: Option<Pad>,
    origin: Option<(Double, Double)>,
)
    requires
        call_ensures(MpeEngine::active_note, (&engine,), note),
        call_ensures(MpeEngine::active_channel, (&engine,), channel),
        call_ensures(MpeEngine::active_pad, (&engine,), pad),
        call_ensures(MpeEngine::strike_origin, (&engine,), origin),
    ensures
        match engine@.voice {
            Some(v) => note == Some(v.note) && channel == Some(v.channel) && pad == Some(v.pad) && origin == Some(
                (v.strike_x, v.strike_y),
            ),
            None => note is None && channel is None && pad is None && origin is None,
        },
{
}

/// An engine that starts is silent, knows of no expression and begins with the
/// first channel.
pub proof fn engines_start_silent(r: MpeEngine)
    requires
        call_ensures(MpeEngine::new, (), r),
    ensures
        r@.voice is None,
        r@.last_bend is None,
        r@.last_cc74 is None,
        r@.last_pressure is None,
        r@.last_tilt_cc is None,
        r@.next_member_offset == 0,
{
}

/// Where the notes and the expression of a reading stand among its events.
proof fn lemma_process(p: Performance, r: PenReading, m: MidiMapping, before: Seq<MidiEvent>)
    ensures
        ({
            let out = before + p.events(r, m);
            let at = (before.len() + note_off(p.voice).len()) as int;
            let expression = p.after_notes(r, m).expression_events(p.drag_of(r, m), r, m);
            &&& out.take(before.len() as int) == before
            &&& forall|i: int| 0 <= i < expression.len() ==> !plays(#[trigger] expression[i])
            &&& r.active ==> match strikes(p.voice, r, m) {
                Some(note) => {
                    &&& at < out.len()
                    &&& p.voice is Some ==> out[at - 1] == note_off(p.voice)[0]
                    &&& out[at] == p.strike_events(r, m, note).last()
                    &&& out.skip(at + 1) == expression
                    &&& forall|i: int| at < i < out.len() ==> !plays(#[trigger] out[i])
                    &&& forall|i: int| before.len() <= i < at ==> !((#[trigger] out[i]) is NoteOn)
                },
                None => {
                    &&& out == before + expression
                    &&& forall|i: int| before.len() <= i < out.len() ==> !plays(#[trigger] out[i])
                },
            }
            &&& !r.active ==> forall|i: int| before.len() <= i < out.len() ==> !((#[trigger] out[i]) is NoteOn)
        }),
{
    let out = before + p.events(r, m);
    let at = (before.len() + note_off(p.voice).len()) as int;
    let expression = p.after_notes(r, m).expression_events(p.drag_of(r, m), r, m);
    assert(out.take(before.len() as int) =~= before);
    if r.active {
        match strikes(p.voice, r, m) {
            Some(note) => {
                let notes = p.strike_events(r, m, note);
                assert(out =~= before + (notes + expression));
                assert(out.skip(at + 1) =~= expression);
                assert forall|i: int| at < i < out.len() implies !plays(#[trigger] out[i]) by {
                    assert(out[i] == expression[i - at - 1]);
                }
            },
            None => {
                assert(out =~= before + expression);
                assert forall|i: int| before.len() <= i < out.len() implies !plays(#[trigger] out[i]) by {
                    assert(out[i] == expression[i - before.len()]);
                }
            },
        }
    }
}

} // verus!
