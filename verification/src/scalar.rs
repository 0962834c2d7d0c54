//! Fixed-point scalar values for item stats.
//!
//! Every numeric stat in the engine is a `StatValue`: a signed quantity in
//! thousandths of a unit (milli-units). Addition saturates at the `i64`
//! range; multiplication is fixed-point (the product of the milli values,
//! divided by 1000 truncating toward zero) and also saturates.

use vstd::prelude::*;

verus! {

/// Milli-units per whole unit.
pub const MILLIS_PER_UNIT: i64 = 1000;

/// Truncating division of `p` by 1000 (rounds toward zero, as the hardware
/// division of the milli product does).
pub open spec fn trunc_div_1000(p: int) -> int {
    if p >= 0 {
        p / 1000
    } else {
        -((-p) / 1000)
    }
}

/// Clamp a mathematical integer into the `i64` range.
pub open spec fn clamp_i64(v: int) -> int {
    if v < i64::MIN {
        i64::MIN as int
    } else if v > i64::MAX {
        i64::MAX as int
    } else {
        v
    }
}

/// Saturating sum of two milli values.
pub open spec fn sat_add_milli(a: int, b: int) -> int {
    clamp_i64(a + b)
}

/// Saturating fixed-point product of two milli values.
pub open spec fn fix_mul_milli(a: int, b: int) -> int {
    clamp_i64(trunc_div_1000(a * b))
}

/// A scalar stat quantity, stored in milli-units.
#[derive(Clone, Copy, Debug, PartialEq, Eq, Structural)]
pub struct StatValue {
    pub milli: i64,
}

impl StatValue {
    /// The milli-unit reading of this value, as a mathematical integer.
    pub open spec fn as_int(self) -> int {
        self.milli as int
    }

    /// The zero value (the aggregation identity).
    pub fn zero() -> (r: StatValue)
        ensures
            r.as_int() == 0,
    {
        StatValue { milli: 0 }
    }

    /// Build a value from a milli-unit count.
    pub fn from_milli(m: i64) -> (r: StatValue)
        ensures
            r.as_int() == m as int,
    {
        StatValue { milli: m }
    }

    /// Build a value from a whole-unit count.
    pub fn from_units(u: i32) -> (r: StatValue)
        ensures
            r.as_int() == u as int * 1000,
    {
        StatValue { milli: (u as i64) * MILLIS_PER_UNIT }
    }

    /// Read the value back out in milli-units.
    pub fn to_milli(self) -> (r: i64)
        ensures
            r as int == self.as_int(),
    {
        self.milli
    }

    /// Saturating addition.
    pub fn saturating_add(self, other: StatValue) -> (r: StatValue)
        ensures
            r.as_int() == sat_add_milli(self.as_int(), other.as_int()),
    {
        match self.milli.checked_add(other.milli) {
            Some(v) => StatValue { milli: v },
            None => {
                if other.milli > 0 {
                    StatValue { milli: i64::MAX }
                } else {
                    StatValue { milli: i64::MIN }
                }
            },
        }
    }

    /// Saturating fixed-point multiplication: the milli product scaled back
    /// down by 1000, truncating toward zero.
    pub fn saturating_mul(self, other: StatValue) -> (r: StatValue)
        ensures
            r.as_int() == fix_mul_milli(self.as_int(), other.as_int()),
    {
        let a: i128 = self.milli as i128;
        let b: i128 = other.milli as i128;
        proof {
            assert((a as int) * (b as int) <= i128::MAX && (a as int) * (b as int)
                >= i128::MIN) by (nonlinear_arith)
                requires
                    -0x8000_0000_0000_0000 <= a as int <= 0x7fff_ffff_ffff_ffff,
                    -0x8000_0000_0000_0000 <= b as int <= 0x7fff_ffff_ffff_ffff;
        }
        let p: i128 = a * b;
        let q: i128 = match p.checked_div(1000) {
            Some(v) => v,
            None => 0,  // unreachable: |p / 1000| < |p| <= i128::MAX
        };
        proof {
            assert((p as int) > 0 ==> 0 <= (p as int) / 1000 <= p as int) by (nonlinear_arith);
            assert((p as int) < 0 ==> 0 <= (-(p as int)) / 1000 <= -(p as int))
                by (nonlinear_arith);
            assert(q as int == trunc_div_1000(p as int));
        }
        if q > i64::MAX as i128 {
            StatValue { milli: i64::MAX }
        } else if q < i64::MIN as i128 {
            StatValue { milli: i64::MIN }
        } else {
            StatValue { milli: q as i64 }
        }
    }

    /// Whether the value is strictly positive.
    pub fn is_positive(self) -> (r: bool)
        ensures
            r == (self.as_int() > 0),
    {
        self.milli > 0
    }

    /// Whether the value is zero.
    pub fn is_zero(self) -> (r: bool)
        ensures
            r == (self.as_int() == 0),
    {
        self.milli == 0
    }

    /// Whether the value is strictly negative.
    pub fn is_negative(self) -> (r: bool)
        ensures
            r == (self.as_int() < 0),
    {
        self.milli < 0
    }

    /// Whether the value is strictly greater than one whole unit.
    pub fn gt_one(self) -> (r: bool)
        ensures
            r == (self.as_int() > 1000),
    {
        self.milli > 1000
    }

    /// Whether the value is exactly one whole unit.
    pub fn eq_one(self) -> (r: bool)
        ensures
            r == (self.as_int() == 1000),
    {
        self.milli == 1000
    }

    /// Whether the value is strictly less than one whole unit.
    pub fn lt_one(self) -> (r: bool)
        ensures
            r == (self.as_int() < 1000),
    {
        self.milli < 1000
    }
}

} // verus!
