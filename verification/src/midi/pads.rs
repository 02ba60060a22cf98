//! The pad grid of the playing surface and the notes that its pads sound.
use vstd::prelude::*;

use crate::midi::mapping::{GridConfig, MidiMapping};
use crate::midi::scale::{holds_note, in_scale, ScaleKind};

verus! {

/// One pad of the grid. Row 0 is the bottom row, column 0 the left one.
#[derive(Clone, Copy, Debug, PartialEq, Eq, Structural)]
pub struct Pad {
    pub row: u8,
    pub col: u8,
}

/// `n`, but at least 1.
pub open spec fn at_least_one(n: int) -> int {
    if n < 1 {
        1
    } else {
        n
    }
}

/// The pad that holds a surface cell, given by its column and by its row
/// counted from the top. Cells past an edge belong to the last pad there.
pub fn pad_at(col: u8, row_from_top: u8, grid: &GridConfig) -> (r: Pad)
    ensures
        r.col == (if col < grid.cols {
            col as int
        } else {
            at_least_one(grid.cols as int) - 1
        }),
        r.row == (if row_from_top < grid.rows {
            grid.rows - 1 - row_from_top
        } else {
            0
        }),
{
    let cols: u8 = if grid.cols < 1 {
        1
    } else {
        grid.cols
    };
    let rows: u8 = if grid.rows < 1 {
        1
    } else {
        grid.rows
    };
    let top: u8 = if row_from_top < rows {
        row_from_top
    } else {
        rows - 1
    };
    Pad {
        row: rows - 1 - top,
        col: if col < cols {
            col
        } else {
            cols - 1
        },
    }
}

/// Number of scale notes from `lo` up to, and not counting, `hi`.
pub open spec fn notes_between(degrees: Seq<u8>, key: int, lo: int, hi: int) -> nat
    decreases hi - lo,
{
    if hi <= lo {
        0
    } else {
        notes_between(degrees, key, lo, hi - 1) + if holds_note(degrees, key, hi - 1) {
            1nat
        } else {
            0nat
        }
    }
}

/// How many scale degrees a pad lies above the bottom-left one.
pub open spec fn degree_index(pad: Pad, grid: GridConfig) -> nat {
    (pad.row * at_least_one(grid.row_interval_degrees as int) + pad.col) as nat
}

/// Is `note` what `pad` sounds: the scale note that has as many scale notes
/// below it, from the low note up, as the pad is degrees above the first pad?
pub open spec fn sounds(pad: Pad, m: MidiMapping, note: int) -> bool {
    let key = m.key as int;
    &&& m.low_note <= note <= 127
    &&& holds_note(m.scale.degrees(), key, note)
    &&& notes_between(m.scale.degrees(), key, m.low_note as int, note) == degree_index(pad, m.grid)
}

/// The note of a pad, if it has one.
pub open spec fn note_of(pad: Pad, m: MidiMapping) -> Option<u8> {
    if exists|note: u8| sounds(pad, m, note as int) {
        Some(choose|note: u8| sounds(pad, m, note as int))
    } else {
        None
    }
}

/// Are the degrees ascending offsets within an octave that start at the root?
spec fn octave_table(s: Seq<u8>) -> bool {
    &&& 0 < s.len() <= 12
    &&& s[0] == 0
    &&& forall|i: int, j: int| 0 <= i < j < s.len() ==> s[i] < s[j]
    &&& forall|i: int| 0 <= i < s.len() ==> s[i] < 12
}

proof fn lemma_octave_table(scale: ScaleKind)
    ensures
        octave_table(scale.degrees()),
{
}

/// The number of scale notes of adjoining ranges is the sum of both.
proof fn lemma_split(s: Seq<u8>, key: int, a: int, b: int, c: int)
    requires
        a <= b <= c,
    ensures
        notes_between(s, key, a, c) == notes_between(s, key, a, b) + notes_between(s, key, b, c),
    decreases c - b,
{
    if b < c {
        lemma_split(s, key, a, b, c - 1);
    }
}

/// No scale note lies where none is held.
proof fn lemma_gap(s: Seq<u8>, key: int, a: int, b: int)
    requires
        forall|n: int| a <= n < b ==> !holds_note(s, key, n),
    ensures
        notes_between(s, key, a, b) == 0,
    decreases b - a,
{
    if a < b {
        lemma_gap(s, key, a, b - 1);
    }
}

/// Degree `i` above a root has `i` scale notes below it.
proof fn lemma_degree(s: Seq<u8>, key: int, root: int, i: int)
    requires
        octave_table(s),
        (root - key) % 12 == 0,
        0 <= i < s.len(),
    ensures
        notes_between(s, key, root, root + s[i]) == i,
        holds_note(s, key, root + s[i]),
    decreases i,
{
    assert((root + s[i] - key) % 12 == s[i]);
    assert(s.contains(s[i]));
    if i > 0 {
        lemma_degree(s, key, root, i - 1);
        let a = root + s[i - 1];
        let b = root + s[i];
        assert forall|n: int| a + 1 <= n < b implies !holds_note(s, key, n) by {
            lemma_between_degrees(s, key, root, i, n);
        }
        lemma_gap(s, key, a + 1, b);
        lemma_split(s, key, a, a + 1, b);
        assert(notes_between(s, key, a, a + 1) == 1) by {
            assert(notes_between(s, key, a, a) == 0);
        }
        lemma_split(s, key, root, a, b);
    }
}

proof fn lemma_between_degrees(s: Seq<u8>, key: int, root: int, i: int, n: int)
    requires
        octave_table(s),
        (root - key) % 12 == 0,
        0 < i < s.len(),
        root + s[i - 1] < n < root + s[i],
    ensures
        !holds_note(s, key, n),
{
    let pc = ((n - key) % 12) as u8;
    assert(pc == n - root);
    if s.contains(pc) {
        let j = choose|j: int| 0 <= j < s.len() && s[j] == pc;
        if j < i - 1 {
            assert(s[j] < s[i - 1]);
        } else if j > i {
            assert(s[i] < s[j]);
        }
    }
}

/// An octave from a root holds one note for each degree.
proof fn lemma_octave(s: Seq<u8>, key: int, root: int)
    requires
        octave_table(s),
        (root - key) % 12 == 0,
    ensures
        notes_between(s, key, root, root + 12) == s.len(),
{
    let last = s.len() - 1;
    lemma_degree(s, key, root, last);
    let a = root + s[last];
    assert forall|n: int| a + 1 <= n < root + 12 implies !holds_note(s, key, n) by {
        let pc = ((n - key) % 12) as u8;
        assert(pc == n - root);
        if s.contains(pc) {
            let j = choose|j: int| 0 <= j < s.len() && s[j] == pc;
            if j < last {
                assert(s[j] < s[last]);
            }
        }
    }
    lemma_gap(s, key, a + 1, root + 12);
    lemma_split(s, key, a, a + 1, root + 12);
    assert(notes_between(s, key, a, a + 1) == 1) by {
        assert(notes_between(s, key, a, a) == 0);
    }
    lemma_split(s, key, root, a, root + 12);
}

/// `octaves` octaves from a root hold that many times the degrees.
proof fn lemma_octaves(s: Seq<u8>, key: int, root: int, octaves: nat)
    requires
        octave_table(s),
        (root - key) % 12 == 0,
    ensures
        notes_between(s, key, root, root + 12 * octaves) == s.len() * octaves,
    decreases octaves,
{
    if octaves == 0 {
        assert(s.len() * 0 == 0);
    } else {
        let before = (octaves - 1) as nat;
        lemma_octaves(s, key, root, before);
        let top = root + 12 * before;
        assert((top - key) % 12 == 0);
        lemma_octave(s, key, top);
        lemma_split(s, key, root, top, top + 12);
        assert(s.len() * octaves == s.len() * before + s.len()) by (nonlinear_arith)
            requires
                octaves == before + 1,
        ;
    }
}

/// Walking `index` degrees up from `base`, which is degree `position` above
/// `root`, leads to degree `step` of the octave that starts `octaves` above.
proof fn lemma_walk(
    s: Seq<u8>,
    key: int,
    root: int,
    position: int,
    index: int,
    octaves: int,
    step: int,
) -> (note: int)
    requires
        octave_table(s),
        (root - key) % 12 == 0,
        0 <= position < s.len(),
        0 <= index,
        0 <= octaves,
        0 <= step < s.len(),
        position + index == s.len() * octaves + step,
    ensures
        note == root + 12 * octaves + s[step],
        note >= root + s[position],
        holds_note(s, key, note),
        notes_between(s, key, root + s[position], note) == index,
{
    let top = root + 12 * octaves;
    let base = root + s[position];
    let note = top + s[step];
    assert((top - key) % 12 == 0);
    lemma_octaves(s, key, root, octaves as nat);
    lemma_degree(s, key, top, step);
    lemma_split(s, key, root, top, note);
    lemma_degree(s, key, root, position);
    if note < base {
        lemma_split(s, key, root, note, base);
        lemma_split(s, key, note, note + 1, base);
        assert(notes_between(s, key, note, note) == 0);
        assert(false);
    }
    lemma_split(s, key, root, base, note);
    note
}

/// The first scale note from `low` up, or 128 where no MIDI note is left.
fn snap_up(low: u8, key: u8, intervals: &[u8]) -> (r: u8)
    ensures
        low <= r,
        low <= 127 ==> r <= 128,
        r <= 127 ==> holds_note(intervals@, key as int, r as int),
        forall|n: int| low <= n < r ==> !holds_note(intervals@, key as int, n),
{
    let mut base: u8 = low;
    while base <= 127 && !in_scale(base, key, intervals)
        invariant
            low <= base,
            base <= 128 || base == low,
            forall|n: int| low <= n < base ==> !holds_note(intervals@, key as int, n),
        decreases 255 - base,
    {
        base = base + 1;
    }
    base
}

/// The scale note `index` degrees above the scale note `base`. Whole octaves
/// are jumped over.
fn climb(base: u8, key: u8, index: u32, intervals: &[u8]) -> (note: i32)
    requires
        octave_table(intervals@),
        holds_note(intervals@, key as int, base as int),
        index <= 0x1_0000,
    ensures
        note >= base,
        holds_note(intervals@, key as int, note as int),
        notes_between(intervals@, key as int, base as int, note as int) == index,
{
    let ghost s = intervals@;
    let base_class: u8 = (base % 12 + 12 - key % 12) % 12;
    assert(base_class == (base - key) % 12);
    let mut position: usize = 0;
    while position < intervals.len() && intervals[position] != base_class
        invariant
            position <= intervals@.len(),
            intervals@ == s,
            forall|j: int| 0 <= j < position ==> s[j] != base_class,
        decreases intervals@.len() - position,
    {
        position = position + 1;
    }
    assert(position < s.len() && s[position as int] == base_class) by {
        let j = choose|j: int| 0 <= j < s.len() && s[j] == base_class;
    }

    let per_octave: u32 = intervals.len() as u32;
    let total: u32 = position as u32 + index;
    let octaves: u32 = total / per_octave;
    let step: usize = (total % per_octave) as usize;
    let root: i32 = base as i32 - base_class as i32;
    proof {
        assert(s.len() * octaves + step == total && octaves <= total) by (nonlinear_arith)
            requires
                octaves == total / per_octave,
                step == total % per_octave,
                per_octave == s.len(),
                per_octave > 0,
        ;
        assert((root - key) % 12 == 0);
        lemma_walk(s, key as int, root as int, position as int, index as int, octaves as int, step as int);
    }
    root + octaves as i32 * 12 + intervals[step] as i32
}

/// The note a pad sounds, or `None` where it falls off the top of the MIDI
/// range. A low note outside the scale counts as the next note in it.
pub fn pad_note(pad: Pad, m: &MidiMapping) -> (r: Option<u8>)
    ensures
        match r {
            Some(note) => sounds(pad, *m, note as int),
            None => forall|note: int| !sounds(pad, *m, note),
        },
        r == note_of(pad, *m),
{
    let interval: u32 = if m.grid.row_interval_degrees < 1 {
        1
    } else {
        m.grid.row_interval_degrees as u32
    };
    assert(0 <= pad.row * interval <= 255 * 255) by (nonlinear_arith)
        requires
            0 <= pad.row <= 255,
            0 <= interval <= 255,
    ;
    let index: u32 = pad.row as u32 * interval + pad.col as u32;
    let intervals = m.scale.intervals();
    let base: u8 = snap_up(m.low_note, m.key, intervals);
    proof {
        lemma_octave_table(m.scale);
        lemma_gap(intervals@, m.key as int, m.low_note as int, base as int);
    }
    if base > 127 {
        assert(forall|other: int| !sounds(pad, *m, other));
        return None;
    }
    let note: i32 = climb(base, m.key, index, intervals);
    proof {
        lemma_split(intervals@, m.key as int, m.low_note as int, base as int, note as int);
    }
    if note <= 127 {
        proof {
            assert(sounds(pad, *m, note as int));
            let chosen = choose|other: u8| sounds(pad, *m, other as int);
            assert(sounds(pad, *m, (note as u8) as int));
            lemma_unique(intervals@, m.key as int, m.low_note as int, chosen as int, note as int);
        }
        Some(note as u8)
    } else {
        proof {
            assert forall|other: int| !sounds(pad, *m, other) by {
                if sounds(pad, *m, other) {
                    lemma_unique(intervals@, m.key as int, m.low_note as int, other, note as int);
                }
            }
        }
        None
    }
}

/// Two scale notes with as many scale notes below them are the same note.
proof fn lemma_unique(s: Seq<u8>, key: int, low: int, a: int, b: int)
    requires
        low <= a,
        low <= b,
        holds_note(s, key, a),
        holds_note(s, key, b),
        notes_between(s, key, low, a) == notes_between(s, key, low, b),
    ensures
        a == b,
{
    if a < b {
        lemma_split(s, key, low, a, b);
        lemma_split(s, key, a, a + 1, b);
        assert(notes_between(s, key, a, a) == 0);
    } else if b < a {
        lemma_split(s, key, low, b, a);
        lemma_split(s, key, b, b + 1, a);
        assert(notes_between(s, key, b, b) == 0);
    }
}

/// Is this pad's note the root of the scale?
pub fn is_root(pad: Pad, m: &MidiMapping) -> (r: bool)
    ensures
        r == (exists|note: int| #[trigger] sounds(pad, *m, note) && (note - m.key) % 12 == 0),
{
    match pad_note(pad, m) {
        Some(note) => {
            let root = note % 12 == m.key % 12;
            proof {
                assert(sounds(pad, *m, note as int));
                assert forall|other: int| #[trigger] sounds(pad, *m, other) implies other == note by {
                    lemma_unique(
                        m.scale.degrees(),
                        m.key as int,
                        m.low_note as int,
                        other,
                        note as int,
                    );
                }
                assert(root == ((note - m.key) % 12 == 0));
            }
            root
        },
        None => false,
    }
}

/// A pad sounds at most one note.
pub proof fn pad_notes_are_unique(pad: Pad, m: MidiMapping, a: int, b: int)
    requires
        sounds(pad, m, a),
        sounds(pad, m, b),
    ensures
        a == b,
{
    lemma_unique(m.scale.degrees(), m.key as int, m.low_note as int, a, b);
}

/// A pad that lies more degrees up the grid sounds a higher note, and pads of
/// equal degree sound the same one.
pub proof fn pad_notes_ascend(lower: Pad, upper: Pad, m: MidiMapping, a: int, b: int)
    requires
        sounds(lower, m, a),
        sounds(upper, m, b),
    ensures
        degree_index(lower, m.grid) < degree_index(upper, m.grid) <==> a < b,
        degree_index(lower, m.grid) == degree_index(upper, m.grid) <==> a == b,
{
    let s = m.scale.degrees();
    let key = m.key as int;
    let low = m.low_note as int;
    if a < b {
        lemma_split(s, key, low, a, b);
        lemma_split(s, key, a, a + 1, b);
        assert(notes_between(s, key, a, a) == 0);
    } else if b < a {
        lemma_split(s, key, low, b, a);
        lemma_split(s, key, b, b + 1, a);
        assert(notes_between(s, key, b, b) == 0);
    }
}

/// Climbing as many degrees as the scale has in an octave raises the note by
/// exactly an octave.
pub proof fn pads_repeat_at_the_octave(lower: Pad, upper: Pad, m: MidiMapping, a: int)
    requires
        sounds(lower, m, a),
        degree_index(upper, m.grid) == degree_index(lower, m.grid) + m.scale.degrees().len(),
        a + 12 <= 127,
    ensures
        sounds(upper, m, a + 12),
{
    let s = m.scale.degrees();
    let key = m.key as int;
    lemma_octave_table(m.scale);
    let pc = ((a - key) % 12) as u8;
    let i = choose|i: int| 0 <= i < s.len() && s[i] == pc;
    let root = a - pc;
    assert((root - key) % 12 == 0);
    assert((root + 12 - key) % 12 == 0);
    lemma_degree(s, key, root, i);
    lemma_degree(s, key, root + 12, i);
    lemma_octave(s, key, root);
    lemma_split(s, key, root, a, a + 12);
    lemma_split(s, key, root, root + 12, a + 12);
    lemma_split(s, key, m.low_note as int, a, a + 12);
}

} // verus!
