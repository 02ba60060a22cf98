//! The pressure response.
use vstd::prelude::*;

use crate::device::normalize::UnitRatio;
use crate::device::sample::PenSample;
use crate::double::Double;
use crate::process::profile::{CurveKind, PressureCurve};
use crate::process::validate::{rises_at, rising};

verus! {

impl PressureCurve {
    /// Where `raw_pressure` lies within the window of the stage.
    pub open spec fn place(self, raw_pressure: u32) -> UnitRatio {
        UnitRatio::along(raw_pressure as int, self.pressure_min as int, self.pressure_max as int)
    }

    /// Where `raw_pressure` lies within the window of the stage; an empty
    /// window gives 0.
    pub fn position(&self, raw_pressure: u32) -> (r: UnitRatio)
        requires
            self.pressure_min <= self.pressure_max,
        ensures
            r.valid(),
            r == self.place(raw_pressure),
    {
        let clamped: u32 = if raw_pressure < self.pressure_min {
            self.pressure_min
        } else if raw_pressure > self.pressure_max {
            self.pressure_max
        } else {
            raw_pressure
        };
        if self.pressure_max == self.pressure_min {
            return UnitRatio { numerator: 0, denominator: 1 };
        }
        UnitRatio {
            numerator: (clamped - self.pressure_min) as u64,
            denominator: (self.pressure_max - self.pressure_min) as u64,
        }
    }
}

/// A harder press lies no less far within the window, always between its ends,
/// and whatever lies beyond an end counts as that end.
pub proof fn places_rise_with_pressure(stage: PressureCurve, lighter: u32, harder: u32)
    requires
        stage.pressure_min <= stage.pressure_max,
        lighter <= harder,
    ensures
        stage.place(lighter).valid(),
        stage.place(harder).valid(),
        stage.place(lighter).denominator == stage.place(harder).denominator,
        stage.place(lighter).numerator <= stage.place(harder).numerator,
        harder <= stage.pressure_min ==> stage.place(lighter) == stage.place(harder) && stage.place(
            harder,
        ).numerator == 0,
        stage.pressure_max <= lighter ==> stage.place(lighter) == stage.place(harder),
        stage.pressure_min < stage.pressure_max <= lighter ==> stage.place(lighter).numerator == stage.place(
            lighter,
        ).denominator,
{
}

/// Where on a curve of straight lines an input falls.
#[derive(Clone, Copy, Debug, PartialEq, Eq, Structural)]
pub enum CurveSegment {
    /// The curve has no points.
    Empty,
    /// At or beyond an end: the response is that of the end.
    End(Double),
    /// Between this point and the next.
    Between(usize),
}

/// Does `t` lie between point `i` and the next?
pub open spec fn lies_between(points: Seq<(Double, Double)>, t: Double, i: int) -> bool {
    points[i].0.at_most(t) && t.at_most(points[i + 1].0)
}

/// Is `segment` where `t` falls on the curve through `points`? Among several
/// lines it is the first.
pub open spec fn falls_in(points: Seq<(Double, Double)>, t: Double, segment: CurveSegment) -> bool {
    match segment {
        CurveSegment::Empty => points.len() == 0,
        CurveSegment::End(v) => points.len() > 0 && if t.at_most(points[0].0) {
            v == points[0].1
        } else {
            &&& v == points.last().1
            &&& points.last().0.at_most(t) || forall|i: int|
                0 <= i < points.len() - 1 ==> !#[trigger] lies_between(points, t, i)
        },
        CurveSegment::Between(i) => {
            &&& i + 1 < points.len()
            &&& lies_between(points, t, i as int)
            &&& !t.at_most(points[0].0)
            &&& !points.last().0.at_most(t)
            &&& forall|j: int| 0 <= j < i ==> !#[trigger] lies_between(points, t, j)
        },
    }
}

/// Where `t` falls on the curve through `points`.
pub fn curve_segment(t: Double, points: &Vec<(Double, Double)>) -> (r: CurveSegment)
    ensures
        falls_in(points@, t, r),
{
    let total: usize = points.len();
    if total == 0 {
        return CurveSegment::Empty;
    }
    let (first_t, first_v) = points[0];
    if t.le(first_t) {
        return CurveSegment::End(first_v);
    }
    let (last_t, last_v) = points[total - 1];
    if last_t.le(t) {
        return CurveSegment::End(last_v);
    }
    let mut i: usize = 0;
    while i < total - 1
        invariant
            total == points@.len(),
            total >= 1,
            i <= total - 1,
            !t.at_most(points@[0].0),
            !points@.last().0.at_most(t),
            forall|j: int| 0 <= j < i ==> !#[trigger] lies_between(points@, t, j),
        decreases total - i,
    {
        let (t0, _) = points[i];
        let (t1, _) = points[i + 1];
        if t0.le(t) && t.le(t1) {
            assert(lies_between(points@, t, i as int));
            return CurveSegment::Between(i);
        }
        assert(!lies_between(points@, t, i as int));
        i = i + 1;
    }
    CurveSegment::End(last_v)
}

/// On a valid curve every number falls somewhere: at or beyond an end, or
/// between two points.
pub proof fn every_input_has_a_segment(points: Seq<(Double, Double)>, t: Double)
    requires
        points.len() > 0,
        !t.nan(),
        forall|i: int| 0 <= i < points.len() ==> !(#[trigger] points[i]).0.nan(),
        !t.at_most(points[0].0),
        !points.last().0.at_most(t),
    ensures
        exists|i: int| 0 <= i < points.len() - 1 && #[trigger] lies_between(points, t, i),
{
    lemma_crossing(points, t, points.len() - 1);
}

proof fn lemma_crossing(points: Seq<(Double, Double)>, t: Double, k: int)
    requires
        0 <= k < points.len(),
        !t.nan(),
        forall|i: int| 0 <= i < points.len() ==> !(#[trigger] points[i]).0.nan(),
        !t.at_most(points[0].0),
        t.less(points[k].0),
    ensures
        exists|i: int| 0 <= i < points.len() - 1 && #[trigger] lies_between(points, t, i),
    decreases k,
{
    if k > 0 {
        if points[k - 1].0.at_most(t) {
            assert(lies_between(points, t, k - 1));
        } else {
            lemma_crossing(points, t, k - 1);
        }
    }
}

/// What a curve makes of an input.
#[derive(Clone, Copy, Debug, PartialEq, Eq)]
pub enum Response {
    /// The input itself.
    Same,
    /// The input to this power.
    Power(Double),
    /// This value.
    Value(Double),
    /// The value at the input on the straight line between two points.
    Line { from: (Double, Double), to: (Double, Double) },
}

impl Response {
    /// No response of this kind is less.
    pub open spec fn least(self) -> Double {
        match self {
            Response::Value(v) => v,
            Response::Line { from, .. } => from.1,
            _ => Double::zero_spec(),
        }
    }

    /// No response of this kind is greater.
    pub open spec fn greatest(self) -> Double {
        match self {
            Response::Value(v) => v,
            Response::Line { to, .. } => to.1,
            _ => Double::one_spec(),
        }
    }
}

impl CurveKind {
    /// Is `r` what this curve makes of `t`? An exponent that is not positive
    /// and a curve without points leave the input as it is.
    pub open spec fn responds(self, t: Double, r: Response) -> bool {
        match self {
            CurveKind::Linear => r == Response::Same,
            CurveKind::Gamma(g) => r == if Double::zero_spec().less(g) {
                Response::Power(g)
            } else {
                Response::Same
            },
            CurveKind::Custom(points) => match r {
                Response::Same => falls_in(points@, t, CurveSegment::Empty),
                Response::Power(_) => false,
                Response::Value(v) => falls_in(points@, t, CurveSegment::End(v)),
                Response::Line { from, to } => exists|i: usize| #[trigger]
                    falls_in(points@, t, CurveSegment::Between(i)) && from == points@[i as int] && to
                        == points@[i + 1],
            },
        }
    }

    /// What this curve makes of `t`.
    pub fn response(&self, t: Double) -> (r: Response)
        ensures
            self.responds(t, r),
    {
        match self {
            CurveKind::Linear => Response::Same,
            CurveKind::Gamma(g) => if Double::zero().lt(*g) {
                Response::Power(*g)
            } else {
                Response::Same
            },
            CurveKind::Custom(points) => {
                let total: usize = points.len();
                match curve_segment(t, points) {
                    CurveSegment::Empty => Response::Same,
                    CurveSegment::End(v) => Response::Value(v),
                    CurveSegment::Between(i) => {
                        assert(i + 1 < total);
                        Response::Line { from: points[i], to: points[i + 1] }
                    },
                }
            },
        }
    }
}

/// Curves that cannot be drawn respond as a straight one does: a power without
/// a positive exponent, and lines without points.
pub proof fn undrawable_curves_are_straight(curve: CurveKind, t: Double, r: Response)
    requires
        curve.responds(t, r),
    ensures
        r == Response::Same <==> (match curve {
            CurveKind::Linear => true,
            CurveKind::Gamma(g) => !Double::zero_spec().less(g),
            CurveKind::Custom(points) => points@.len() == 0,
        }),
{
}

/// A valid curve never falls. Two inputs in order either go the same way, on a
/// power with a positive exponent or on a line that does not fall, or nothing
/// that the first can give is above what the second can give. A lone point has
/// to be a number.
pub proof fn valid_curves_never_fall(curve: CurveKind, t: Double, u: Double, first: Response, second: Response)
    requires
        t.at_most(u),
        curve.responds(t, first),
        curve.responds(u, second),
        match curve {
            CurveKind::Custom(points) => rising(points@) && (points@.len() == 1 ==> !points@[0].1.nan()),
            _ => true,
        },
    ensures
        first == second || first.greatest().at_most(second.least()),
        match first {
            Response::Same => true,
            Response::Power(g) => Double::zero_spec().less(g),
            Response::Value(v) => !v.nan(),
            Response::Line { from, to } => {
                &&& from.0.at_most(t)
                &&& t.at_most(to.0)
                &&& from.1.at_most(to.1)
            },
        },
{
    if let CurveKind::Custom(curve_points) = curve {
        let points = curve_points@;
        if points.len() > 0 {
            let (low, high) = lemma_span(points, t, first);
            let (next_low, next_high) = lemma_span(points, u, second);
            lemma_rising(points, low, low);
            lemma_rising(points, low, high);
            if high <= next_low {
                lemma_rising(points, high, next_low);
            } else if next_high <= low && first is Line && second is Line {
                lemma_rising(points, next_high, low);
                lemma_rising(points, next_low, next_high);
                assert(lies_between(points, t, next_low));
            }
        }
    }
}

/// On rising points neither coordinate is larger than a later one.
proof fn lemma_rising(points: Seq<(Double, Double)>, i: int, j: int)
    requires
        rising(points),
        points.len() == 1 ==> !points[0].1.nan(),
        0 <= i <= j < points.len(),
    ensures
        points.len() > 1 ==> points[i].0.at_most(points[j].0),
        points[i].1.at_most(points[j].1),
    decreases j - i,
{
    if i < j {
        assert(rises_at(points, i));
        lemma_rising(points, i + 1, j);
    } else if i + 1 < points.len() {
        assert(rises_at(points, i));
    } else if i > 0 {
        assert(rises_at(points, i - 1));
    }
}

/// The points at the two sides of a response on rising points.
proof fn lemma_span(points: Seq<(Double, Double)>, t: Double, r: Response) -> (span: (int, int))
    requires
        rising(points),
        points.len() > 0,
        points.len() == 1 ==> !points[0].1.nan(),
        !t.nan(),
        match r {
            Response::Value(v) => falls_in(points, t, CurveSegment::End(v)),
            Response::Line { from, to } => exists|i: usize| #[trigger]
                falls_in(points, t, CurveSegment::Between(i)) && from == points[i as int] && to == points[i + 1],
            _ => false,
        },
    ensures
        0 <= span.0 <= span.1 < points.len(),
        r.least() == points[span.0].1,
        r.greatest() == points[span.1].1,
        match r {
            Response::Line { from, to } => {
                &&& span.1 == span.0 + 1
                &&& from == points[span.0]
                &&& to == points[span.1]
                &&& falls_in(points, t, CurveSegment::Between(span.0 as usize))
                &&& span.0 <= usize::MAX
            },
            _ => {
                &&& span.0 == span.1
                &&& span.0 == 0 || span.0 == points.len() - 1
                &&& points.len() > 1 && span.0 == 0 ==> t.at_most(points[0].0)
                &&& points.len() > 1 && span.0 > 0 ==> points.last().0.at_most(t) && !t.at_most(points[0].0)
            },
        },
{
    match r {
        Response::Value(v) => {
            if t.at_most(points[0].0) || points.len() == 1 {
                (0, 0)
            } else {
                assert forall|i: int| 0 <= i < points.len() implies !(#[trigger] points[i]).0.nan() by {
                    lemma_rising(points, i, i);
                }
                if !points.last().0.at_most(t) {
                    every_input_has_a_segment(points, t);
                }
                (points.len() - 1, points.len() - 1)
            }
        },
        Response::Line { from, to } => {
            let i = choose|i: usize| #[trigger]
                falls_in(points, t, CurveSegment::Between(i)) && from == points[i as int] && to == points[i + 1];
            assert(rises_at(points, i as int));
            (i as int, i + 1)
        },
        _ => (0, 0),
    }
}

/// Is `(lo, hi)` the range of raw pressure over the samples? Without samples
/// both are 0.
pub open spec fn pressure_range(samples: Seq<PenSample>, lo: u32, hi: u32) -> bool {
    if samples.len() == 0 {
        lo == 0 && hi == 0
    } else {
        &&& forall|i: int| 0 <= i < samples.len() ==> lo <= (#[trigger] samples[i]).pressure_raw <= hi
        &&& exists|i: int| 0 <= i < samples.len() && (#[trigger] samples[i]).pressure_raw == lo
        &&& exists|i: int| 0 <= i < samples.len() && (#[trigger] samples[i]).pressure_raw == hi
    }
}

/// The range of raw pressure over the samples.
pub fn learn_min_max(samples: &[PenSample]) -> (r: (u32, u32))
    ensures
        pressure_range(samples@, r.0, r.1),
{
    if samples.len() == 0 {
        return (0, 0);
    }
    let mut lo: u32 = samples[0].pressure_raw;
    let mut hi: u32 = samples[0].pressure_raw;
    let ghost mut at_lo: int = 0;
    let ghost mut at_hi: int = 0;
    let mut i: usize = 1;
    while i < samples.len()
        invariant
            1 <= i <= samples@.len(),
            0 <= at_lo < i,
            0 <= at_hi < i,
            samples@[at_lo].pressure_raw == lo,
            samples@[at_hi].pressure_raw == hi,
            forall|j: int| 0 <= j < i ==> lo <= (#[trigger] samples@[j]).pressure_raw <= hi,
        decreases samples@.len() - i,
    {
        let p: u32 = samples[i].pressure_raw;
        if p < lo {
            lo = p;
            proof {
                at_lo = i as int;
            }
        }
        if p > hi {
            hi = p;
            proof {
                at_hi = i as int;
            }
        }
        i = i + 1;
    }
    (lo, hi)
}

/// A learned window is one that the stage accepts.
pub proof fn learned_windows_are_ordered(samples: Seq<PenSample>, lo: u32, hi: u32)
    requires
        pressure_range(samples, lo, hi),
    ensures
        lo <= hi,
{
}

/// An input at or before the first point of a curve gets the response of the
/// first, one at or after the last that of the last, and one on the way lies
/// between the point it falls to and the next. A curve without points has none.
pub proof fn inputs_fall_where_they_lie(t: Double, points: Vec<(Double, Double)>, r: CurveSegment)
    requires
        call_ensures(curve_segment, (t, &points), r),
    ensures
        r is Empty <==> points@.len() == 0,
        points@.len() > 0 && t.at_most(points@[0].0) ==> r == CurveSegment::End(points@[0].1),
        points@.len() > 0 && !t.at_most(points@[0].0) && points@.last().0.at_most(t) ==> r == CurveSegment::End(
            points@.last().1,
        ),
        r matches CurveSegment::Between(i) ==> i + 1 < points@.len() && points@[i as int].0.at_most(t) && t.at_most(
            points@[i + 1].0,
        ),
{
}

} // verus!
