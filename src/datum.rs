//! The scalar values that make up a world state.
use vstd::prelude::*;

verus! {

/// A tagged scalar. Values of different tags are never equal and never
/// ordered against each other.
#[derive(Clone, Copy, Debug, PartialEq, Eq, Hash, Structural)]
pub enum Datum {
    Bool(bool),
    I64(i64),
    /// The ordinal of a variant of a user enum.
    Enum(u64),
}

/// Clamps an integer into the range of `i64`.
pub open spec fn clamp_i64(v: int) -> i64 {
    if v > i64::MAX {
        i64::MAX
    } else if v < i64::MIN {
        i64::MIN
    } else {
        v as i64
    }
}

/// Distance used by the heuristic: numeric distance for integers, 0 or 1 for
/// booleans, enum ordinals and values of different tags.
pub open spec fn datum_distance(a: Datum, b: Datum) -> nat {
    match (a, b) {
        (Datum::I64(x), Datum::I64(y)) => if x >= y {
            (x - y) as nat
        } else {
            (y - x) as nat
        },
        _ => if a == b {
            0
        } else {
            1
        },
    }
}

/// `a >= b` within one tag; false across tags.
pub open spec fn datum_ge(a: Datum, b: Datum) -> bool {
    match (a, b) {
        (Datum::Bool(x), Datum::Bool(y)) => x || !y,
        (Datum::I64(x), Datum::I64(y)) => x >= y,
        (Datum::Enum(x), Datum::Enum(y)) => x >= y,
        _ => false,
    }
}

/// `a + b` for integers, saturating at the bounds of `i64`; any other pair
/// leaves `a` as it is.
pub open spec fn datum_add(a: Datum, b: Datum) -> Datum {
    match (a, b) {
        (Datum::I64(x), Datum::I64(y)) => Datum::I64(clamp_i64(x + y)),
        _ => a,
    }
}

/// `a - b` for integers, saturating at the bounds of `i64`; any other pair
/// leaves `a` as it is.
pub open spec fn datum_sub(a: Datum, b: Datum) -> Datum {
    match (a, b) {
        (Datum::I64(x), Datum::I64(y)) => Datum::I64(clamp_i64(x - y)),
        _ => a,
    }
}

fn clamp_to_i64(v: i128) -> (r: i64)
    ensures
        r == clamp_i64(v as int),
{
    if v > i64::MAX as i128 {
        i64::MAX
    } else if v < i64::MIN as i128 {
        i64::MIN
    } else {
        v as i64
    }
}

impl Datum {
    /// The distance between two datums (see `datum_distance`).
    pub fn distance(&self, other: &Datum) -> (r: u64)
        ensures
            r as nat == datum_distance(*self, *other),
    {
        match (self, other) {
            (Datum::I64(x), Datum::I64(y)) => {
                let d: i128 = if *x >= *y {
                    *x as i128 - *y as i128
                } else {
                    *y as i128 - *x as i128
                };
                d as u64
            },
            _ => {
                if *self == *other {
                    0
                } else {
                    1
                }
            },
        }
    }

    /// Whether `self >= other` within one tag.
    pub fn ge(&self, other: &Datum) -> (r: bool)
        ensures
            r == datum_ge(*self, *other),
    {
        match (self, other) {
            (Datum::Bool(x), Datum::Bool(y)) => *x || !*y,
            (Datum::I64(x), Datum::I64(y)) => *x >= *y,
            (Datum::Enum(x), Datum::Enum(y)) => *x >= *y,
            _ => false,
        }
    }

    /// Saturating integer addition; other tags are left unchanged.
    pub fn add(&self, other: &Datum) -> (r: Datum)
        ensures
            r == datum_add(*self, *other),
    {
        match (self, other) {
            (Datum::I64(x), Datum::I64(y)) => Datum::I64(clamp_to_i64(*x as i128 + *y as i128)),
            _ => *self,
        }
    }

    /// Saturating integer subtraction; other tags are left unchanged.
    pub fn sub(&self, other: &Datum) -> (r: Datum)
        ensures
            r == datum_sub(*self, *other),
    {
        match (self, other) {
            (Datum::I64(x), Datum::I64(y)) => Datum::I64(clamp_to_i64(*x as i128 - *y as i128)),
            _ => *self,
        }
    }
}

} // verus!
