//! Decisions in fitting a coordinate map to calibration points.
use vstd::prelude::*;

use crate::double::{Double, SIGN_WEIGHT};

verus! {

/// The kind of map that is fitted.
#[derive(Clone, Copy, Debug, PartialEq, Eq, Structural)]
pub enum FitDegree {
    /// No change.
    Identity,
    /// Scale, rotation and shift.
    Similarity,
    /// A projective map.
    Projective,
}

/// The kind of map for a number of points.
pub fn fit_degree(points: usize) -> (r: FitDegree)
    ensures
        r == (if points < 2 {
            FitDegree::Identity
        } else if points < 4 {
            FitDegree::Similarity
        } else {
            FitDegree::Projective
        }),
{
    if points < 2 {
        FitDegree::Identity
    } else if points < 4 {
        FitDegree::Similarity
    } else {
        FitDegree::Projective
    }
}

/// A number without its sign.
pub open spec fn absolute(x: Double) -> Double {
    Double { bits: x.magnitude_spec() as u64 }
}

fn abs(x: Double) -> (r: Double)
    ensures
        r == absolute(x),
{
    if x.bits < SIGN_WEIGHT {
        x
    } else {
        Double { bits: x.bits - SIGN_WEIGHT }
    }
}

/// Encoding of the smallest size of a pivot, one part in a million million.
pub const PIVOT_FLOOR_BITS: u64 = 0x3d71_9799_812d_ea11;

/// The smallest size of a pivot.
pub open spec fn pivot_floor() -> Double {
    Double { bits: PIVOT_FLOOR_BITS }
}

/// The row to eliminate with: the first whose entry is largest in size. `None`
/// where all are too small. Comparisons with something that is no number do
/// not hold, so such an entry is passed over, and kept where it stands first.
pub fn pivot_row(column: &Vec<Double>) -> (r: Option<usize>)
    requires
        column@.len() > 0,
    ensures
        match r {
            Some(k) => {
                &&& k < column@.len()
                &&& !absolute(column@[k as int]).less(pivot_floor())
                &&& forall|i: int|
                    0 <= i < column@.len() ==> !absolute(column@[k as int]).less(absolute(#[trigger] column@[i]))
                &&& k > 0 ==> absolute(column@[0]).less(absolute(column@[k as int]))
                &&& forall|i: int|
                    0 <= i < k ==> (#[trigger] column@[i]).nan() || absolute(column@[i]).less(
                        absolute(column@[k as int]),
                    )
            },
            None => {
                &&& absolute(column@[0]).less(pivot_floor())
                &&& forall|i: int|
                    0 <= i < column@.len() ==> (#[trigger] column@[i]).nan() || absolute(column@[i]).less(
                        pivot_floor(),
                    )
            },
        },
{
    let mut best: usize = 0;
    let mut largest = abs(column[0]);
    let mut i: usize = 1;
    while i < column.len()
        invariant
            1 <= i <= column@.len(),
            best < i,
            largest == absolute(column@[best as int]),
            best > 0 ==> absolute(column@[0]).less(largest),
            forall|j: int| 0 <= j < i ==> !largest.less(absolute(#[trigger] column@[j])),
            forall|j: int|
                0 <= j < best ==> (#[trigger] column@[j]).nan() || absolute(column@[j]).less(largest),
        decreases column@.len() - i,
    {
        let size = abs(column[i]);
        if largest.lt(size) {
            largest = size;
            best = i;
        }
        i = i + 1;
    }
    if largest.lt(Double { bits: PIVOT_FLOOR_BITS }) {
        None
    } else {
        Some(best)
    }
}

/// The row to eliminate with has an entry that no other exceeds in size, and
/// that is at least a part in a million million; there is none where the first
/// entry and all others are smaller than that.
pub proof fn pivots_are_the_largest(column: Vec<Double>, r: Option<usize>, i: int)
    requires
        0 <= i < column@.len(),
        call_ensures(pivot_row, (&column,), r),
        forall|k: int| 0 <= k < column@.len() ==> !(#[trigger] column@[k]).nan() && column@[k].bits < 0x8000_0000_0000_0000,
    ensures
        r matches Some(k) ==> k < column@.len() && column@[i].bits <= column@[k as int].bits && column@[k as int].bits
            >= 0x3d71_9799_812d_ea11 && (i < k ==> column@[i].bits < column@[k as int].bits),
{
    if let Some(k) = r {
        assert(k < column@.len());
        let best = column@[k as int];
        let other = column@[i];
        assert(!best.nan() && !other.nan());
        assert(absolute(best) == best);
        assert(absolute(other) == other);
        crate::double::lemma_units_order(best.magnitude_spec(), other.magnitude_spec());
        crate::double::lemma_units_order(other.magnitude_spec(), best.magnitude_spec());
        crate::double::lemma_units_order(best.magnitude_spec(), PIVOT_FLOOR_BITS as nat);
        assert(!best.less(absolute(column@[i])));
        if i < k {
            assert(column@[i].nan() || absolute(column@[i]).less(best));
        }
    }
}

} // verus!
