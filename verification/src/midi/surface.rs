//! What holds of every playing surface: its pads, scales and settings, and the
//! bytes that its events become.
//!
//! The laws speak of calls: of what went in and what came out.
use vstd::prelude::*;

use crate::double::{lemma_units_order, Double};
use crate::midi::engine::MpeEngine;
use crate::midi::event::{MidiBytes, MidiEvent};
use crate::midi::expression::{AxisSource, ExpressionSources, HsvLevels, Rgb, SentExpression};
use crate::midi::mapping::{GridConfig, MappingError, MidiMapping, MpeConfig, VelocitySource};
use crate::midi::pads::{
    degree_index, is_root, notes_between, pad_at, pad_note, pad_notes_are_unique, sounds, Pad,
};
use crate::midi::scale::{candidate, holds_note, in_scale, nearest_in_scale, preferred, Fraction, ScaleKind};
use crate::midi::vibrato::{envelope_ms, VibratoConfig, VibratoState};

verus! {

/// Does the scale of a mapping hold a note? It does where the note lies some
/// degree of the scale above the key, octaves aside.
pub open spec fn fits_scale(m: MidiMapping, note: int) -> bool {
    m.scale.degrees().contains(((note - m.key) % 12) as u8)
}

/// Is no note between `low` and `high`, both left out, in the scale?
pub open spec fn none_between(m: MidiMapping, low: int, high: int) -> bool {
    forall|n: int| low < n < high ==> !#[trigger] fits_scale(m, n)
}

/// The scale note before one that has others below it.
proof fn lemma_note_before(m: MidiMapping, low: int, high: int) -> (note: int)
    requires
        notes_between(m.scale.degrees(), m.key as int, low, high) > 0,
    ensures
        low <= note < high,
        fits_scale(m, note),
        none_between(m, note, high),
        notes_between(m.scale.degrees(), m.key as int, low, note) + 1 == notes_between(
            m.scale.degrees(),
            m.key as int,
            low,
            high,
        ),
    decreases high - low,
{
    if holds_note(m.scale.degrees(), m.key as int, high - 1) {
        assert(fits_scale(m, high - 1));
        high - 1
    } else {
        let note = lemma_note_before(m, low, high - 1);
        assert forall|n: int| note < n < high implies !#[trigger] fits_scale(m, n) by {
            if n == high - 1 {
                assert(!holds_note(m.scale.degrees(), m.key as int, n));
            }
        }
        note
    }
}

/// Where no note fits, none is counted.
proof fn lemma_none_counted(m: MidiMapping, low: int, high: int)
    requires
        forall|n: int| low <= n < high ==> !#[trigger] fits_scale(m, n),
    ensures
        notes_between(m.scale.degrees(), m.key as int, low, high) == 0,
    decreases high - low,
{
    if low < high {
        lemma_none_counted(m, low, high - 1);
        assert(!fits_scale(m, high - 1));
    }
}

/// The notes of a range are counted in two parts.
proof fn lemma_counted_in_parts(m: MidiMapping, low: int, at: int, high: int)
    requires
        low <= at <= high,
    ensures
        notes_between(m.scale.degrees(), m.key as int, low, high) == notes_between(
            m.scale.degrees(),
            m.key as int,
            low,
            at,
        ) + notes_between(m.scale.degrees(), m.key as int, at, high),
    decreases high - at,
{
    if at < high {
        lemma_counted_in_parts(m, low, at, high - 1);
    }
}

/// The scale note that follows one, where there is one at or before `high`.
proof fn lemma_note_after(m: MidiMapping, low: int, note: int, high: int) -> (next: int)
    requires
        low <= note < high,
        fits_scale(m, note),
        fits_scale(m, high),
    ensures
        note < next <= high,
        fits_scale(m, next),
        notes_between(m.scale.degrees(), m.key as int, low, next) == notes_between(
            m.scale.degrees(),
            m.key as int,
            low,
            note,
        ) + 1,
    decreases high - note,
{
    if none_between(m, note, high) {
        lemma_none_counted(m, note + 1, high);
        lemma_counted_in_parts(m, low, note, high);
        lemma_counted_in_parts(m, note, note + 1, high);
        assert(notes_between(m.scale.degrees(), m.key as int, note, note) == 0);
        assert(notes_between(m.scale.degrees(), m.key as int, note, note + 1) == 1);
        high
    } else {
        let nearer = choose|n: int| note < n < high && #[trigger] fits_scale(m, n);
        lemma_note_after(m, low, note, nearer)
    }
}

/// The bottom-left pad sounds the lowest note of the scale from the low note up;
/// it is silent only where no note of the scale is left there.
pub proof fn the_first_pad_sounds_the_lowest_note(m: MidiMapping, r: Option<u8>)
    requires
        call_ensures(pad_note, (Pad { row: 0, col: 0 }, &m), r),
    ensures
        match r {
            Some(note) => m.low_note <= note <= 127 && fits_scale(m, note as int) && none_between(
                m,
                m.low_note - 1,
                note as int,
            ),
            None => none_between(m, m.low_note - 1, 128),
        },
{
    let pad = Pad { row: 0, col: 0 };
    let low = m.low_note as int;
    assert(degree_index(pad, m.grid) == 0) by (nonlinear_arith)
        requires
            degree_index(pad, m.grid) == (pad.row * crate::midi::pads::at_least_one(m.grid.row_interval_degrees as int)
                + pad.col) as nat,
            pad.row == 0,
            pad.col == 0,
    ;
    match r {
        Some(note) => {
            assert(sounds(pad, m, note as int));
            assert forall|n: int| low - 1 < n < note implies !#[trigger] fits_scale(m, n) by {
                if fits_scale(m, n) {
                    lemma_counted_in_parts(m, low, n, note as int);
                    lemma_counted_in_parts(m, n, n + 1, note as int);
                    assert(notes_between(m.scale.degrees(), m.key as int, n, n) == 0);
                }
            }
        },
        None => {
            if exists|n: int| low - 1 < n < 128 && #[trigger] fits_scale(m, n) {
                let n = choose|n: int| low - 1 < n < 128 && #[trigger] fits_scale(m, n);
                let first = lemma_lowest(m, low, n);
                assert(sounds(pad, m, first));
            }
        },
    }
}

/// The lowest scale note from `low` up, where there is one at or before `high`.
proof fn lemma_lowest(m: MidiMapping, low: int, high: int) -> (note: int)
    requires
        low <= high,
        fits_scale(m, high),
    ensures
        low <= note <= high,
        fits_scale(m, note),
        notes_between(m.scale.degrees(), m.key as int, low, note) == 0,
    decreases high - low,
{
    if exists|n: int| low <= n < high && #[trigger] fits_scale(m, n) {
        let nearer = choose|n: int| low <= n < high && #[trigger] fits_scale(m, n);
        lemma_lowest(m, low, nearer)
    } else {
        lemma_none_counted(m, low, high);
        high
    }
}

/// A pad to the right sounds the next note of the scale: it is higher and no note
/// of the scale lies between. It is silent only where the pad beside it is, or
/// where no note of the scale is left.
pub proof fn pads_to_the_right_sound_the_next_note(
    m: MidiMapping,
    pad: Pad,
    right: Pad,
    here: Option<u8>,
    there: Option<u8>,
)
    requires
        right.row == pad.row,
        right.col == pad.col + 1,
        call_ensures(pad_note, (pad, &m), here),
        call_ensures(pad_note, (right, &m), there),
    ensures
        match (here, there) {
            (Some(low), Some(high)) => low < high <= 127 && fits_scale(m, low as int) && fits_scale(m, high as int)
                && none_between(m, low as int, high as int),
            (Some(low), None) => none_between(m, low as int, 128),
            (None, Some(_)) => false,
            (None, None) => true,
        },
{
    let low_note = m.low_note as int;
    assert(degree_index(right, m.grid) == degree_index(pad, m.grid) + 1) by {
        let step = crate::midi::pads::at_least_one(m.grid.row_interval_degrees as int);
        assert(pad.row * step >= 0) by (nonlinear_arith)
            requires
                pad.row >= 0,
                step >= 1,
        ;
    }
    if let Some(high) = there {
        assert(sounds(right, m, high as int));
        let before = lemma_note_before(m, low_note, high as int);
        assert(sounds(pad, m, before));
        if let Some(low) = here {
            pad_notes_are_unique(pad, m, low as int, before);
        }
    } else if let Some(low) = here {
        assert(sounds(pad, m, low as int));
        assert forall|n: int| low < n < 128 implies !#[trigger] fits_scale(m, n) by {
            if fits_scale(m, n) {
                let next = lemma_note_after(m, low_note, low as int, n);
                assert(sounds(right, m, next));
            }
        }
    }
}

/// A row up is as many degrees up as the grid says, at least one: a pad sounds
/// what the pad so many columns further right in the row below sounds.
pub proof fn rows_lie_an_interval_apart(m: MidiMapping, pad: Pad, below: Pad, here: Option<u8>, there: Option<u8>)
    requires
        pad.row == below.row + 1,
        below.col == pad.col + if m.grid.row_interval_degrees == 0 {
            1
        } else {
            m.grid.row_interval_degrees as int
        },
        call_ensures(pad_note, (pad, &m), here),
        call_ensures(pad_note, (below, &m), there),
    ensures
        here == there,
{
    let step = crate::midi::pads::at_least_one(m.grid.row_interval_degrees as int);
    assert((below.row + 1) * step == below.row * step + step) by (nonlinear_arith);
    assert(below.row * step >= 0) by (nonlinear_arith)
        requires
            below.row >= 0,
            step >= 1,
    ;
    assert(degree_index(pad, m.grid) == degree_index(below, m.grid));
    if let Some(a) = here {
        assert(sounds(below, m, a as int));
        if let Some(b) = there {
            pad_notes_are_unique(pad, m, a as int, b as int);
        }
    } else if let Some(b) = there {
        assert(sounds(pad, m, b as int));
    }
}

/// On the chromatic scale the pads count semitones: columns one apart, rows as
/// many as the grid says, from the low note up to the last MIDI note.
pub proof fn chromatic_pads_count_semitones(m: MidiMapping, pad: Pad, r: Option<u8>)
    requires
        m.scale == ScaleKind::Chromatic,
        m.grid.row_interval_degrees > 0,
        m.low_note <= 127,
        call_ensures(pad_note, (pad, &m), r),
    ensures
        ({
            let note = m.low_note + pad.row * m.grid.row_interval_degrees + pad.col;
            &&& r matches Some(n) ==> n == note
            &&& r is Some <==> note <= 127
        }),
{
    let index = pad.row * m.grid.row_interval_degrees + pad.col;
    assert(index >= 0) by (nonlinear_arith)
        requires
            index == pad.row * m.grid.row_interval_degrees + pad.col,
            pad.row >= 0,
            m.grid.row_interval_degrees >= 0,
            pad.col >= 0,
    ;
    let note = m.low_note + index;
    lemma_chromatic_counts(m, m.low_note as int, note);
    assert forall|n: int| #[trigger] fits_scale(m, n) by {
        let pc = ((n - m.key) % 12) as u8;
        assert(m.scale.degrees()[pc as int] == pc);
    }
    assert(fits_scale(m, note));
    if note <= 127 {
        assert(sounds(pad, m, note));
        if let Some(n) = r {
            pad_notes_are_unique(pad, m, n as int, note);
        }
    } else if let Some(n) = r {
        lemma_chromatic_counts(m, m.low_note as int, n as int);
    }
}

proof fn lemma_chromatic_counts(m: MidiMapping, low: int, high: int)
    requires
        m.scale == ScaleKind::Chromatic,
        low <= high,
    ensures
        notes_between(m.scale.degrees(), m.key as int, low, high) == high - low,
    decreases high - low,
{
    if low < high {
        lemma_chromatic_counts(m, low, high - 1);
        let pc = ((high - 1 - m.key) % 12) as u8;
        assert(m.scale.degrees()[pc as int] == pc);
    }
}

/// A pad is a root exactly where its note is the key of the mapping, octaves
/// aside.
pub proof fn roots_sound_the_key(m: MidiMapping, pad: Pad, note: Option<u8>, r: bool)
    requires
        call_ensures(is_root, (pad, &m), r),
        call_ensures(pad_note, (pad, &m), note),
    ensures
        r <==> (note matches Some(n) && n % 12 == m.key % 12),
{
    if let Some(n) = note {
        assert(sounds(pad, m, n as int));
        assert((n - m.key) % 12 == 0 <==> n % 12 == m.key % 12);
        if r {
            let other = choose|other: int| #[trigger] sounds(pad, m, other) && (other - m.key) % 12 == 0;
            pad_notes_are_unique(pad, m, other, n as int);
        }
    }
}

/// Cells of the surface belong to the pad in their column, and in their row from
/// the top: the top row of cells to the top row of pads. What lies past an edge
/// belongs to the pad at that edge.
pub proof fn cells_belong_to_their_pad(col: u8, row_from_top: u8, grid: GridConfig, r: Pad)
    requires
        call_ensures(pad_at, (col, row_from_top, &grid), r),
    ensures
        col < grid.cols ==> r.col == col,
        0 < grid.cols <= col ==> r.col + 1 == grid.cols,
        row_from_top < grid.rows ==> r.row + row_from_top + 1 == grid.rows,
        grid.rows <= row_from_top ==> r.row == 0,
        grid.cols == 0 ==> r.col == 0,
{
}

/// A note is in a scale exactly where some degree above the key meets it, octaves
/// aside.
pub proof fn notes_fit_where_a_degree_meets_them(note: u8, key: u8, intervals: &[u8], r: bool)
    requires
        forall|i: int| 0 <= i < intervals@.len() ==> #[trigger] intervals@[i] < 12,
        call_ensures(in_scale, (note, key, intervals), r),
    ensures
        r <==> exists|i: int| 0 <= i < intervals@.len() && (key + #[trigger] intervals@[i]) % 12 == note % 12,
{
    let pc = ((note - key) % 12) as u8;
    if r {
        let i = choose|i: int| 0 <= i < intervals@.len() && intervals@[i] == pc;
        assert((key + intervals@[i]) % 12 == note % 12);
    }
    if exists|i: int| 0 <= i < intervals@.len() && (key + #[trigger] intervals@[i]) % 12 == note % 12 {
        let i = choose|i: int| 0 <= i < intervals@.len() && (key + #[trigger] intervals@[i]) % 12 == note % 12;
        assert(intervals@[i] < 12);
        assert(intervals@[i] == pc);
    }
}

/// Every scale starts at its root and ascends within an octave.
pub proof fn scales_ascend_from_their_root(scale: ScaleKind, r: &'static [u8])
    requires
        call_ensures(ScaleKind::intervals, (scale,), r),
    ensures
        r@.len() > 0,
        r@[0] == 0,
        forall|i: int| 0 <= i < r@.len() ==> #[trigger] r@[i] < 12,
        forall|i: int, j: int| 0 <= i < j < r@.len() ==> r@[i] < r@[j],
{
}

/// Is the semitone `p` above the root a degree?
pub open spec fn has_degree(degrees: Seq<u8>, p: int) -> bool {
    exists|i: int| 0 <= i < degrees.len() && #[trigger] degrees[i] == p
}

/// The scales are related as music has it. The chromatic one has every semitone,
/// the major one the white keys from C. The natural minor, Dorian and Mixolydian
/// scales are major scales begun at another degree. The pentatonic ones leave out
/// the fourth and the seventh of the major scale, and the blues scale adds one
/// note to the minor pentatonic one.
pub proof fn scales_are_related(
    chromatic: &'static [u8],
    major: &'static [u8],
    minor: &'static [u8],
    dorian: &'static [u8],
    mixolydian: &'static [u8],
    major_five: &'static [u8],
    minor_five: &'static [u8],
    blues: &'static [u8],
    p: int,
)
    requires
        0 <= p < 12,
        call_ensures(ScaleKind::intervals, (ScaleKind::Chromatic,), chromatic),
        call_ensures(ScaleKind::intervals, (ScaleKind::Major,), major),
        call_ensures(ScaleKind::intervals, (ScaleKind::NaturalMinor,), minor),
        call_ensures(ScaleKind::intervals, (ScaleKind::Dorian,), dorian),
        call_ensures(ScaleKind::intervals, (ScaleKind::Mixolydian,), mixolydian),
        call_ensures(ScaleKind::intervals, (ScaleKind::MajorPentatonic,), major_five),
        call_ensures(ScaleKind::intervals, (ScaleKind::MinorPentatonic,), minor_five),
        call_ensures(ScaleKind::intervals, (ScaleKind::Blues,), blues),
    ensures
        has_degree(chromatic@, p),
        has_degree(major@, p) <==> p == 0 || p == 2 || p == 4 || p == 5 || p == 7 || p == 9 || p == 11,
        has_degree(minor@, p) <==> has_degree(major@, (p + 9) % 12),
        has_degree(dorian@, p) <==> has_degree(major@, (p + 2) % 12),
        has_degree(mixolydian@, p) <==> has_degree(major@, (p + 7) % 12),
        has_degree(major_five@, p) <==> has_degree(major@, p) && p != 5 && p != 11,
        has_degree(minor_five@, p) <==> has_degree(major_five@, (p + 9) % 12),
        has_degree(blues@, p) <==> has_degree(minor_five@, p) || p == 6,
{
    lemma_degree_table(chromatic@, p);
    lemma_degree_table(major@, p);
    lemma_degree_table(minor@, p);
    lemma_degree_table(dorian@, p);
    lemma_degree_table(mixolydian@, p);
    lemma_degree_table(major_five@, p);
    lemma_degree_table(minor_five@, p);
    lemma_degree_table(blues@, p);
    lemma_degree_table(major@, (p + 9) % 12);
    lemma_degree_table(major@, (p + 2) % 12);
    lemma_degree_table(major@, (p + 7) % 12);
    lemma_degree_table(major_five@, (p + 9) % 12);
}

/// A short table has a degree where one of its entries is it.
proof fn lemma_degree_table(degrees: Seq<u8>, p: int)
    requires
        5 <= degrees.len() <= 12,
    ensures
        has_degree(degrees, p) <==> {
            ||| degrees[0] == p
            ||| degrees[1] == p
            ||| degrees[2] == p
            ||| degrees[3] == p
            ||| degrees[4] == p
            ||| degrees.len() > 5 && degrees[5] == p
            ||| degrees.len() > 6 && degrees[6] == p
            ||| degrees.len() > 7 && degrees[7] == p
            ||| degrees.len() > 8 && degrees[8] == p
            ||| degrees.len() > 9 && degrees[9] == p
            ||| degrees.len() > 10 && degrees[10] == p
            ||| degrees.len() > 11 && degrees[11] == p
        },
{
}

/// How far `note` lies from the pitch that stands `quarters` quarters of a
/// semitone above `floor`, in quarters.
pub open spec fn quarters_away(floor: int, quarters: int, note: int) -> int {
    let apart = 4 * note - (4 * floor + quarters);
    if apart < 0 {
        -apart
    } else {
        apart
    }
}

/// Snapping finds a note of the scale to which no other is nearer. Of two that
/// are equally near it takes the lower one, and the upper one for a pitch half
/// way between two semitones.
pub proof fn snapping_finds_the_nearest_note(
    floor: u16,
    fraction: Fraction,
    scale: ScaleKind,
    key: u8,
    r: u8,
    quarters: int,
    other: int,
)
    requires
        call_ensures(nearest_in_scale, (floor, fraction, scale, key), r),
        quarters == match fraction {
            Fraction::Whole => 0int,
            Fraction::BelowHalf => 1,
            Fraction::Half => 2,
            Fraction::AboveHalf => 3,
        },
        0 <= other <= 127,
        holds_note(scale.degrees(), key as int, other),
    ensures
        r <= 127,
        holds_note(scale.degrees(), key as int, r as int),
        quarters_away(floor as int, quarters, r as int) <= quarters_away(floor as int, quarters, other),
        quarters_away(floor as int, quarters, r as int) == quarters_away(floor as int, quarters, other) && r != other ==> (
        if fraction == Fraction::Half {
            other < r
        } else {
            r < other
        }),
{
    assert(candidate(scale, key as int, other));
    assert(preferred(floor as int, fraction, r as int, other));
}

/// Events whose values are in range can be read back from their bytes: the kind
/// from the upper half of the first byte, the channel from its lower half, then
/// the values in order, a bend with its lower seven bits first.
pub proof fn bytes_tell_the_event(event: MidiEvent, r: MidiBytes, channel: u8)
    requires
        call_ensures(MidiEvent::to_bytes, (&event,), r),
        call_ensures(MidiEvent::channel, (&event,), channel),
        channel < 16,
    ensures
        event matches MidiEvent::NoteOff { channel: ch, note, velocity } ==> channel == ch && (note < 128 && velocity < 128
            ==> r@ == seq![(128 + ch) as u8, note, velocity]),
        event matches MidiEvent::NoteOn { channel: ch, note, velocity } ==> channel == ch && (note < 128 && velocity < 128
            ==> r@ == seq![(144 + ch) as u8, note, velocity]),
        event matches MidiEvent::ControlChange { channel: ch, controller, value } ==> channel == ch && (controller < 128
            && value < 128 ==> r@ == seq![(176 + ch) as u8, controller, value]),
        event matches MidiEvent::ChannelPressure { channel: ch, value } ==> channel == ch && (value < 128 ==> r@ == seq![
            (208 + ch) as u8,
            value,
        ]),
        event matches MidiEvent::PitchBend { channel: ch, value } ==> channel == ch && r@.len() == 3 && r@[0] == 224 + ch
            && r@[1] < 128 && r@[2] < 128 && (value < 16384 ==> r@[1] + 128 * r@[2] == value) && (value >= 16384 ==> r@[1]
            + 128 * r@[2] == 16383),
{
}

/// A slice of a message is the message.
pub proof fn messages_are_sent_whole(bytes: MidiBytes, r: &[u8], a: u8, b: u8, c: u8, two: MidiBytes, three: MidiBytes)
    requires
        call_ensures(MidiBytes::as_slice, (&bytes,), r),
        call_ensures(MidiBytes::two, (a, b), two),
        call_ensures(MidiBytes::three, (a, b, c), three),
    ensures
        r@ == bytes@,
        two@ == seq![a, b],
        three@ == seq![a, b, c],
{
}

/// The channels of a zone lie beside the master, on the side of the members:
/// above it up to the last member, or below it down to the first. They ascend
/// without a gap, and are as many as is told.
pub proof fn zones_lie_beside_the_master(mpe: MpeConfig, r: Vec<u8>, count: u8, i: int)
    requires
        call_ensures(MpeConfig::zone_member_range, (&mpe,), r),
        call_ensures(MpeConfig::zone_member_count, (&mpe,), count),
        0 <= i < r@.len(),
    ensures
        count == r@.len(),
        mpe.master_channel < mpe.member_high ==> r@[i] == mpe.master_channel + 1 + i && r@.last() == mpe.member_high,
        mpe.member_high <= mpe.master_channel ==> r@[i] == mpe.member_low + i && r@.last() + 1 == mpe.master_channel,
{
}

/// A zone is empty only where the master is the only channel.
pub proof fn zones_are_empty_without_members(mpe: MpeConfig, r: Vec<u8>, count: u8)
    requires
        call_ensures(MpeConfig::zone_member_range, (&mpe,), r),
        call_ensures(MpeConfig::zone_member_count, (&mpe,), count),
    ensures
        count == r@.len(),
        r@.len() == 0 <==> mpe.member_high <= mpe.master_channel <= mpe.member_low,
{
}

/// The members are counted from the first to the last, both with them.
pub proof fn members_are_counted_with_both_ends(mpe: MpeConfig, r: u8)
    requires
        mpe.member_low <= mpe.member_high,
        mpe.member_high - mpe.member_low < 255,
        call_ensures(MpeConfig::member_count, (&mpe,), r),
    ensures
        mpe.member_low + r == mpe.member_high + 1,
{
}

/// A mapping is accepted exactly where it can be played: the key is a pitch class,
/// the grid has pads and its rows lie apart, the notes and channels are MIDI's,
/// the members are in order, the drag bend is not negative and the bend range is
/// positive, and pressure does not turn velocity around. Checking brings the
/// vibrato into its ranges and leaves everything else.
pub proof fn accepted_mappings_can_be_played(m: &mut MidiMapping, r: Result<(), MappingError>, tuned: &mut VibratoConfig)
    requires
        call_ensures(MidiMapping::validate, (m,), r),
        call_ensures(VibratoConfig::clamp, (tuned,), ()),
        *old(tuned) == old(m).vibrato,
    ensures
        ({
            let zero = Double { bits: 0 };
            let given = *old(m);
            r is Ok <==> {
                &&& given.key < 12
                &&& given.grid.rows >= 1
                &&& given.grid.cols >= 1
                &&& given.grid.row_interval_degrees >= 1
                &&& given.low_note < 128
                &&& zero.at_most(given.y_bend_semitones)
                &&& given.mpe.master_channel < 16
                &&& given.mpe.member_high < 16
                &&& given.mpe.member_low <= given.mpe.member_high
                &&& zero.less(given.mpe.pitch_bend_range_semitones)
                &&& given.velocity matches VelocitySource::Pressure { min, max } ==> min <= max
            }
        }),
        *final(m) == (MidiMapping { vibrato: *final(tuned), ..*old(m) }),
        r matches Err(e) ==> e is Validation,
{
}

/// Is `after` the setting brought between `lo` and `hi`?
pub open spec fn brought_between(before: Double, after: Double, lo: Double, hi: Double) -> bool {
    &&& lo.at_most(before) && before.at_most(hi) ==> after == before
    &&& before.less(lo) ==> after == lo
    &&& hi.less(before) ==> after == hi
}

/// A number by its encoding.
pub open spec fn coded(bits: u64) -> Double {
    Double { bits }
}

/// Every setting of the vibrato is brought into its own range: the depths between
/// 0 and 12 semitones, the rate between half a turn and 20 turns a second, the
/// times up to two seconds, or half a second for the manual bend, pressure between
/// 0 and 1, strokes up to 4, jitter up to a twentieth. The slightest depth is no
/// larger than the largest.
pub proof fn vibrato_settings_stay_in_their_ranges(config: &mut VibratoConfig)
    requires
        call_ensures(VibratoConfig::clamp, (config,), ()),
    ensures
        ({
            let (before, after) = (*old(config), *final(config));
            let zero = coded(0);
            let twelve = coded(0x4028_0000_0000_0000);
            let two_seconds = coded(0x409f_4000_0000_0000);
            &&& after.enabled_by_default == before.enabled_by_default
            &&& brought_between(before.max_depth_semitones, after.max_depth_semitones, zero, twelve)
            &&& brought_between(
                before.default_rate_hz,
                after.default_rate_hz,
                coded(0x3fe0_0000_0000_0000),
                coded(0x4034_0000_0000_0000),
            )
            &&& brought_between(before.fade_in_ms, after.fade_in_ms, zero, two_seconds)
            &&& brought_between(before.depth_smoothing_ms, after.depth_smoothing_ms, zero, two_seconds)
            &&& brought_between(before.rate_smoothing_ms, after.rate_smoothing_ms, zero, two_seconds)
            &&& brought_between(before.pressure_to_amount, after.pressure_to_amount, zero, coded(0x3ff0_0000_0000_0000))
            &&& brought_between(before.y_axis_to_amount, after.y_axis_to_amount, zero, coded(0x4010_0000_0000_0000))
            &&& brought_between(before.gesture_deadzone, after.gesture_deadzone, zero, coded(0x3fa9_9999_9999_999a))
            &&& brought_between(
                before.manual_bend_smoothing_ms,
                after.manual_bend_smoothing_ms,
                zero,
                coded(0x407f_4000_0000_0000),
            )
            &&& brought_between(
                before.default_depth_semitones,
                after.default_depth_semitones,
                zero,
                if before.max_depth_semitones.nan() {
                    twelve
                } else {
                    after.max_depth_semitones
                },
            )
            &&& !after.max_depth_semitones.less(after.default_depth_semitones)
        }),
{
    lemma_units_order(0, 0x4028_0000_0000_0000);
    lemma_units_order(0, 0x409f_4000_0000_0000);
    lemma_units_order(0x3fe0_0000_0000_0000, 0x4034_0000_0000_0000);
    lemma_units_order(0, 0x3ff0_0000_0000_0000);
    lemma_units_order(0, 0x4010_0000_0000_0000);
    lemma_units_order(0, 0x3fa9_9999_9999_999a);
    lemma_units_order(0, 0x407f_4000_0000_0000);
    lemma_units_order(0, config.max_depth_semitones.magnitude_spec());
    lemma_units_order(config.max_depth_semitones.magnitude_spec(), 0x4028_0000_0000_0000);
}

/// Strokes make the pitch waver only where they are larger than jitter and there
/// is some depth. Their size is followed faster up than down. The manual bend
/// follows the slow position once there is one.
pub proof fn strokes_waver_above_jitter(
    config: VibratoConfig,
    envelope: Double,
    size: Double,
    engages: bool,
    time: u32,
    state: VibratoState,
    manual: Option<Double>,
)
    requires
        call_ensures(VibratoConfig::engages, (&config, envelope), engages),
        call_ensures(envelope_ms, (envelope, size), time),
        call_ensures(VibratoState::manual_y, (&state,), manual),
    ensures
        envelope.at_most(config.gesture_deadzone) ==> !engages,
        config.max_depth_semitones.at_most(coded(0)) ==> !engages,
        config.gesture_deadzone.less(envelope) && coded(0).less(config.max_depth_semitones) ==> engages,
        envelope.less(size) ==> time == 30,
        size.at_most(envelope) ==> time == 120,
        manual is Some <==> state.slow_y_initialized,
        manual matches Some(y) ==> y == state.slow_y,
{
}

/// What is seen of a sounding note: it is drawn from its strike, an axis that the
/// mapping drives follows the pen, any other shows what went out last, and
/// without a note nothing is seen.
pub proof fn displays_show_what_sounds(
    engine: MpeEngine,
    m: MidiMapping,
    seen: Option<ExpressionSources>,
    sent: Option<SentExpression>,
)
    requires
        call_ensures(ExpressionSources::from_performance, (&engine, &m), seen),
        call_ensures(SentExpression::from_engine, (&engine,), sent),
    ensures
        seen is Some <==> engine@.voice is Some,
        sent is Some <==> engine@.voice is Some,
        seen matches Some(s) ==> {
            &&& s.strike_x == (engine@.voice->0).strike_x
            &&& s.strike_y == (engine@.voice->0).strike_y
            &&& s.tilt == engine@.last_tilt_cc
            &&& s.timbre == AxisSource::Pen <==> m.x_to_cc74
            &&& s.pressure == AxisSource::Pen <==> m.pressure_to_channel_pressure
            &&& s.timbre matches AxisSource::Sent(v) ==> engine@.last_cc74 == Some(v)
            &&& s.timbre is Resting ==> engine@.last_cc74 is None
            &&& s.pressure matches AxisSource::Sent(v) ==> engine@.last_pressure == Some(v)
            &&& s.pressure is Resting ==> engine@.last_pressure is None
        },
        sent matches Some(s) ==> {
            &&& engine@.last_bend matches Some(bend) ==> s.bend == bend
            &&& engine@.last_bend is None ==> s.bend == 8192
            &&& s.timbre == engine@.last_cc74
            &&& s.pressure == engine@.last_pressure
            &&& s.tilt == engine@.last_tilt_cc
        },
{
}

/// On the hue circle red is full in the first and the last sector, green in the
/// second and third, blue in the fourth and fifth; the colour opposite to a full
/// one is low. A grey has the same of each.
pub proof fn colours_go_round_the_circle(sector: i32, levels: HsvLevels, r: Rgb, level: u8, grey: Rgb)
    requires
        0 <= sector < 6,
        call_ensures(Rgb::in_sector, (sector, &levels), r),
        call_ensures(Rgb::grey, (level,), grey),
    ensures
        sector == 0 || sector == 5 ==> r.r == levels.full,
        sector == 1 || sector == 2 ==> r.g == levels.full,
        sector == 3 || sector == 4 ==> r.b == levels.full,
        sector == 2 || sector == 3 ==> r.r == levels.low,
        sector == 4 || sector == 5 ==> r.g == levels.low,
        sector == 0 || sector == 1 ==> r.b == levels.low,
        sector == 0 ==> r.g == levels.rising,
        sector == 1 ==> r.r == levels.falling,
        sector == 2 ==> r.b == levels.rising,
        sector == 3 ==> r.g == levels.falling,
        sector == 4 ==> r.r == levels.rising,
        sector == 5 ==> r.b == levels.falling,
        grey.r == level && grey.g == level && grey.b == level,
{
}

} // verus!
