//! Raw axis values as fractions of their range.
use vstd::prelude::*;

verus! {

/// A fraction within 0 and 1, as a pair of whole numbers.
#[derive(Clone, Copy, Debug, PartialEq, Eq, Structural)]
pub struct UnitRatio {
    pub numerator: u64,
    pub denominator: u64,
}

/// `value` within `lo` and `hi`.
pub open spec fn clamped(value: int, lo: int, hi: int) -> int {
    if value < lo {
        lo
    } else if value > hi {
        hi
    } else {
        value
    }
}

impl UnitRatio {
    /// Is this a fraction within 0 and 1?
    pub open spec fn valid(self) -> bool {
        0 < self.denominator && self.numerator <= self.denominator
    }

    /// Where `raw` lies on the way from `min` to `max`. Values beyond either
    /// end count as that end, and an empty range gives 0.
    pub open spec fn along(raw: int, min: int, max: int) -> UnitRatio {
        if min == max {
            UnitRatio { numerator: 0, denominator: 1 }
        } else if min < max {
            UnitRatio {
                numerator: (clamped(raw, min, max) - min) as u64,
                denominator: (max - min) as u64,
            }
        } else {
            UnitRatio {
                numerator: (min - clamped(raw, max, min)) as u64,
                denominator: (min - max) as u64,
            }
        }
    }
}

/// Where `raw` lies on the way from `min` to `max`.
pub fn normalize(raw: i64, min: i64, max: i64) -> (r: UnitRatio)
    ensures
        r.valid(),
        r == UnitRatio::along(raw as int, min as int, max as int),
{
    if max == min {
        return UnitRatio { numerator: 0, denominator: 1 };
    }
    let (lo, hi): (i64, i64) = if min < max {
        (min, max)
    } else {
        (max, min)
    };
    let inside: i64 = if raw < lo {
        lo
    } else if raw > hi {
        hi
    } else {
        raw
    };
    let span: u64 = (hi as i128 - lo as i128) as u64;
    let along: u64 = if min < max {
        (inside as i128 - lo as i128) as u64
    } else {
        (hi as i128 - inside as i128) as u64
    };
    UnitRatio { numerator: along, denominator: span }
}

/// A larger raw value lies no less far along an ascending range.
pub proof fn normalize_is_monotone(a: i64, b: i64, min: i64, max: i64)
    requires
        a <= b,
        min < max,
    ensures
        ({
            let ra = UnitRatio::along(a as int, min as int, max as int);
            let rb = UnitRatio::along(b as int, min as int, max as int);
            ra.denominator == rb.denominator && ra.numerator <= rb.numerator
        }),
{
}

} // verus!
