//! Musical scales and snapping a pitch to one.
use vstd::prelude::*;

verus! {

/// A musical scale.
#[derive(Clone, Copy, Debug, PartialEq, Eq, Structural)]
pub enum ScaleKind {
    Chromatic,
    Major,
    NaturalMinor,
    MajorPentatonic,
    MinorPentatonic,
    Blues,
    Dorian,
    Mixolydian,
}

/// Pitch-class names from C up to B.
pub const PITCH_CLASS_NAMES: [&'static str; 12] = [
    "C",
    "C#",
    "D",
    "D#",
    "E",
    "F",
    "F#",
    "G",
    "G#",
    "A",
    "A#",
    "B",
];

impl ScaleKind {
    /// All scales, in menu order.
    pub const ALL: [ScaleKind; 8] = [
        ScaleKind::Chromatic,
        ScaleKind::Major,
        ScaleKind::NaturalMinor,
        ScaleKind::MajorPentatonic,
        ScaleKind::MinorPentatonic,
        ScaleKind::Blues,
        ScaleKind::Dorian,
        ScaleKind::Mixolydian,
    ];

    /// Semitone offsets of the scale degrees from the root, ascending.
    pub open spec fn degrees(self) -> Seq<u8> {
        match self {
            ScaleKind::Chromatic => seq![0u8, 1, 2, 3, 4, 5, 6, 7, 8, 9, 10, 11],
            ScaleKind::Major => seq![0u8, 2, 4, 5, 7, 9, 11],
            ScaleKind::NaturalMinor => seq![0u8, 2, 3, 5, 7, 8, 10],
            ScaleKind::MajorPentatonic => seq![0u8, 2, 4, 7, 9],
            ScaleKind::MinorPentatonic => seq![0u8, 3, 5, 7, 10],
            ScaleKind::Blues => seq![0u8, 3, 5, 6, 7, 10],
            ScaleKind::Dorian => seq![0u8, 2, 3, 5, 7, 9, 10],
            ScaleKind::Mixolydian => seq![0u8, 2, 4, 5, 7, 9, 10],
        }
    }

    /// Semitone offsets of the scale degrees from the root.
    pub fn intervals(self) -> (r: &'static [u8])
        ensures
            r@ == self.degrees(),
    {
        let r: &'static [u8] = match self {
            ScaleKind::Chromatic => &[0, 1, 2, 3, 4, 5, 6, 7, 8, 9, 10, 11],
            ScaleKind::Major => &[0, 2, 4, 5, 7, 9, 11],
            ScaleKind::NaturalMinor => &[0, 2, 3, 5, 7, 8, 10],
            ScaleKind::MajorPentatonic => &[0, 2, 4, 7, 9],
            ScaleKind::MinorPentatonic => &[0, 3, 5, 7, 10],
            ScaleKind::Blues => &[0, 3, 5, 6, 7, 10],
            ScaleKind::Dorian => &[0, 2, 3, 5, 7, 9, 10],
            ScaleKind::Mixolydian => &[0, 2, 4, 5, 7, 9, 10],
        };
        proof {
            assert(r@ =~= self.degrees());
        }
        r
    }

    /// Label for menus.
    pub fn label(self) -> (r: &'static str)
        ensures
            r@ == match self {
                ScaleKind::Chromatic => "Chromatic"@,
                ScaleKind::Major => "Major"@,
                ScaleKind::NaturalMinor => "Natural minor"@,
                ScaleKind::MajorPentatonic => "Major pentatonic"@,
                ScaleKind::MinorPentatonic => "Minor pentatonic"@,
                ScaleKind::Blues => "Blues"@,
                ScaleKind::Dorian => "Dorian"@,
                ScaleKind::Mixolydian => "Mixolydian"@,
            },
    {
        match self {
            ScaleKind::Chromatic => "Chromatic",
            ScaleKind::Major => "Major",
            ScaleKind::NaturalMinor => "Natural minor",
            ScaleKind::MajorPentatonic => "Major pentatonic",
            ScaleKind::MinorPentatonic => "Minor pentatonic",
            ScaleKind::Blues => "Blues",
            ScaleKind::Dorian => "Dorian",
            ScaleKind::Mixolydian => "Mixolydian",
        }
    }
}

/// Does a set of degrees, rooted at `key`, hold the pitch `note`?
pub open spec fn holds_note(degrees: Seq<u8>, key: int, note: int) -> bool {
    degrees.contains(((note - key) % 12) as u8)
}

/// Is `note` in the scale that `intervals` spells, rooted at `key`?
pub fn in_scale(note: u8, key: u8, intervals: &[u8]) -> (r: bool)
    ensures
        r == holds_note(intervals@, key as int, note as int),
{
    let pitch_class: u8 = (note % 12 + 12 - key % 12) % 12;
    assert(pitch_class as int == (note - key) % 12);
    let mut i: usize = 0;
    while i < intervals.len()
        invariant
            i <= intervals@.len(),
            pitch_class as int == (note - key) % 12,
            forall|j: int| 0 <= j < i ==> intervals@[j] != pitch_class,
        decreases intervals@.len() - i,
    {
        if intervals[i] == pitch_class {
            assert(intervals@[i as int] == pitch_class);
            return true;
        }
        i = i + 1;
    }
    false
}

/// How far a pitch lies above the whole note below it. Distances from a pitch
/// to whole notes compare in the same way for all pitches of one kind.
#[derive(Clone, Copy, Debug, PartialEq, Eq, Structural)]
pub enum Fraction {
    /// Not at all.
    Whole,
    /// Less than half a semitone.
    BelowHalf,
    /// Half a semitone.
    Half,
    /// More than half a semitone.
    AboveHalf,
}

impl Fraction {
    /// Quarters of a semitone that stand for the fraction.
    pub open spec fn quarters(self) -> int {
        match self {
            Fraction::Whole => 0,
            Fraction::BelowHalf => 1,
            Fraction::Half => 2,
            Fraction::AboveHalf => 3,
        }
    }

    /// Is this the kind of a fraction of `part` in `whole` of a semitone?
    pub open spec fn describes(self, part: int, whole: int) -> bool {
        match self {
            Fraction::Whole => part == 0,
            Fraction::BelowHalf => 0 < part && 2 * part < whole,
            Fraction::Half => 2 * part == whole,
            Fraction::AboveHalf => whole < 2 * part && part < whole,
        }
    }
}

/// Distance between two pitches.
pub open spec fn distance(a: int, b: int) -> int {
    if a <= b {
        b - a
    } else {
        a - b
    }
}

/// The distance in quarters from `note` to the pitch that stands for all of
/// its kind above `floor`.
pub open spec fn gap(floor: int, fraction: Fraction, note: int) -> int {
    distance(4 * note, 4 * floor + fraction.quarters())
}

/// Is `note` a MIDI note of the scale?
pub open spec fn candidate(scale: ScaleKind, key: int, note: int) -> bool {
    0 <= note <= 127 && holds_note(scale.degrees(), key, note)
}

/// Is `a` to be taken before `b`: nearer to the pitch or, if both are equally
/// near, the one that rounding leads to first? That is the lower one for a
/// whole pitch and the upper one half way between two notes.
pub open spec fn preferred(floor: int, fraction: Fraction, a: int, b: int) -> bool {
    gap(floor, fraction, a) < gap(floor, fraction, b) || (gap(floor, fraction, a) == gap(floor, fraction, b) && if fraction
        == Fraction::Half {
        a >= b
    } else {
        a <= b
    })
}

/// Snap a pitch, the `fraction` above the whole note `floor`, to the nearest
/// MIDI note of `scale` rooted at `key`.
pub fn nearest_in_scale(floor: u16, fraction: Fraction, scale: ScaleKind, key: u8) -> (r: u8)
    ensures
        candidate(scale, key as int, r as int),
        forall|n: int| #[trigger] candidate(scale, key as int, n) ==> preferred(floor as int, fraction, r as int, n),
{
    let intervals = scale.intervals();
    let quarters: i32 = match fraction {
        Fraction::Whole => 0,
        Fraction::BelowHalf => 1,
        Fraction::Half => 2,
        Fraction::AboveHalf => 3,
    };
    let pitch: i32 = floor as i32 * 4 + quarters;
    let mut best: Option<(u8, i32)> = None;
    let mut note: u8 = 0;
    while note <= 127
        invariant
            note <= 128,
            intervals@ == scale.degrees(),
            quarters == fraction.quarters(),
            pitch == 4 * floor + quarters,
            match best {
                Some((b, away)) => candidate(scale, key as int, b as int) && b < note && away == gap(
                    floor as int,
                    fraction,
                    b as int,
                ) && forall|n: int|
                    n < note && #[trigger] candidate(scale, key as int, n) ==> preferred(
                        floor as int,
                        fraction,
                        b as int,
                        n,
                    ),
                None => forall|n: int| n < note ==> !#[trigger] candidate(scale, key as int, n),
            },
        decreases 128 - note,
    {
        if in_scale(note, key, intervals) {
            let place: i32 = note as i32 * 4;
            let away: i32 = if place <= pitch {
                pitch - place
            } else {
                place - pitch
            };
            assert(candidate(scale, key as int, note as int));
            let better: bool = match best {
                Some((_, least)) => away < least || (away == least && quarters == 2),
                None => true,
            };
            if better {
                best = Some((note, away));
            }
        }
        note = note + 1;
    }
    proof {
        scales_hold_midi_notes(scale, key as int);
    }
    match best {
        Some((note, _)) => note,
        None => 0,
    }
}

/// Snapping always lands in the scale: every scale holds its root, and there is
/// a root among the MIDI notes.
pub proof fn scales_hold_midi_notes(scale: ScaleKind, key: int)
    ensures
        exists|n: int| candidate(scale, key, n),
{
    assert(scale.degrees()[0] == 0);
    assert(scale.degrees().contains(0u8));
    let root = key % 12;
    assert((root - key) % 12 == 0);
    assert(candidate(scale, key, root));
}

/// The kind of a fraction is all that matters: for a pitch of `part` in `whole`
/// of a semitone above `floor`, whole notes compare by their distance, here in
/// parts, as they do by their gap.
pub proof fn gaps_compare_as_distances(
    floor: int,
    fraction: Fraction,
    part: int,
    whole: int,
    a: int,
    b: int,
)
    requires
        whole > 0,
        fraction.describes(part, whole),
    ensures
        gap(floor, fraction, a) < gap(floor, fraction, b) <==> distance(whole * a, whole * floor + part) < distance(
            whole * b,
            whole * floor + part,
        ),
        gap(floor, fraction, a) == gap(floor, fraction, b) <==> distance(whole * a, whole * floor + part)
            == distance(whole * b, whole * floor + part),
{
    lemma_distance_in_parts(floor, fraction, part, whole, a);
    lemma_distance_in_parts(floor, fraction, part, whole, b);
    let steps = |n: int| if n <= floor {
        floor - n
    } else {
        n - floor
    };
    let (i, j) = (steps(a), steps(b));
    if (a <= floor) == (b <= floor) {
        if i < j {
            lemma_more_parts(whole, i, j);
        } else if j < i {
            lemma_more_parts(whole, j, i);
        }
    } else if a <= floor {
        lemma_across(fraction, part, whole, i, j);
    } else {
        lemma_across(fraction, part, whole, j, i);
    }
}

/// The distance to a note is a whole number of semitones, and the fraction
/// added or taken off.
proof fn lemma_distance_in_parts(floor: int, fraction: Fraction, part: int, whole: int, n: int)
    requires
        whole > 0,
        fraction.describes(part, whole),
    ensures
        n <= floor ==> distance(whole * n, whole * floor + part) == whole * (floor - n) + part,
        n > floor ==> distance(whole * n, whole * floor + part) == whole * (n - floor) - part,
{
    if n <= floor {
        assert(whole * floor - whole * n == whole * (floor - n)) by (nonlinear_arith);
        assert(whole * (floor - n) >= 0) by (nonlinear_arith)
            requires
                whole > 0,
                floor >= n,
        ;
    } else {
        assert(whole * n - whole * floor == whole * (n - floor)) by (nonlinear_arith);
        assert(whole * (n - floor) >= whole) by (nonlinear_arith)
            requires
                whole > 0,
                n - floor >= 1,
        ;
    }
}

proof fn lemma_more_parts(whole: int, i: int, j: int)
    requires
        whole > 0,
        i < j,
    ensures
        whole * i + whole <= whole * j,
{
    assert(whole * i + whole <= whole * j) by (nonlinear_arith)
        requires
            whole > 0,
            i + 1 <= j,
    ;
}

/// A note `i` semitones and the fraction below against one `j` semitones less
/// the fraction above.
proof fn lemma_across(fraction: Fraction, part: int, whole: int, i: int, j: int)
    requires
        whole > 0,
        fraction.describes(part, whole),
    ensures
        4 * i + fraction.quarters() < 4 * j - fraction.quarters() <==> whole * i + part < whole * j - part,
        4 * i + fraction.quarters() == 4 * j - fraction.quarters() <==> whole * i + part == whole * j - part,
{
    if i < j {
        lemma_more_parts(whole, i, j);
        if i + 1 < j {
            lemma_more_parts(whole, i + 1, j);
            assert(whole * (i + 1) == whole * i + whole) by (nonlinear_arith);
        } else {
            assert(whole * j == whole * i + whole) by (nonlinear_arith)
                requires
                    j == i + 1,
            ;
        }
    } else if j < i {
        lemma_more_parts(whole, j, i);
    }
}

} // verus!
