//! The numeric element of the engine's matrices.
//!
//! The engine never fixes the element type: every matrix operation and every
//! propagation step is specified over the abstract operations of [`Scalar`],
//! whose specification functions give the exact value of each executable
//! operation. [`Fixed`], a saturating decimal fixed-point number, is the
//! crate's own verified element.

use vstd::prelude::*;

verus! {

/// A numeric element: executable arithmetic whose results are pinned down,
/// value for value, by the trait's specification functions.
pub trait Scalar: Copy + Sized {
    /// The additive identity.
    spec fn zero_s() -> Self;

    /// The multiplicative identity.
    spec fn one_s() -> Self;

    /// The value of `add_v`.
    spec fn add_s(a: Self, b: Self) -> Self;

    /// The value of `sub_v`.
    spec fn sub_s(a: Self, b: Self) -> Self;

    /// The value of `mul_v`.
    spec fn mul_s(a: Self, b: Self) -> Self;

    /// The value of `lt_v`: a strict "less than" comparison.
    spec fn lt_s(a: Self, b: Self) -> bool;

    fn zero_v() -> (r: Self)
        ensures
            r == Self::zero_s(),
    ;

    fn one_v() -> (r: Self)
        ensures
            r == Self::one_s(),
    ;

    fn add_v(a: Self, b: Self) -> (r: Self)
        ensures
            r == Self::add_s(a, b),
    ;

    fn sub_v(a: Self, b: Self) -> (r: Self)
        ensures
            r == Self::sub_s(a, b),
    ;

    fn mul_v(a: Self, b: Self) -> (r: Self)
        ensures
            r == Self::mul_s(a, b),
    ;

    fn lt_v(a: Self, b: Self) -> (r: bool)
        ensures
            r == Self::lt_s(a, b),
    ;
}

/// The comparison of a `Scalar` type is a strict total order: asymmetric,
/// transitive, and connex (incomparable values are equal).
pub open spec fn lt_is_total_order<T: Scalar>() -> bool {
    &&& (forall|a: T, b: T| #[trigger] T::lt_s(a, b) ==> !T::lt_s(b, a))
    &&& (forall|a: T, b: T, c: T|
        #[trigger] T::lt_s(a, b) && #[trigger] T::lt_s(b, c) ==> T::lt_s(a, c))
    &&& (forall|a: T, b: T| !(#[trigger] T::lt_s(a, b)) && !T::lt_s(b, a) ==> a == b)
}

/// Number of fixed-point units per whole one: `Fixed` counts ten-thousandths.
pub const FIXED_SCALE: i64 = 10000;

/// Clamp a mathematical integer into the `i64` range.
pub open spec fn sat64(x: int) -> i64 {
    if x > i64::MAX as int {
        i64::MAX
    } else if x < i64::MIN as int {
        i64::MIN
    } else {
        x as i64
    }
}

/// Division truncating toward zero, for a positive divisor.
pub open spec fn tdiv(x: int, d: int) -> int {
    if x >= 0 {
        x / d
    } else {
        -((-x) / d)
    }
}

/// A decimal fixed-point number: `v` counts units of `1 / FIXED_SCALE`.
/// Addition, subtraction and multiplication saturate at the `i64` bounds;
/// multiplication truncates the scaled product toward zero.
#[derive(Clone, Copy, Debug, PartialEq, Eq, Structural)]
pub struct Fixed {
    pub v: i64,
}

impl Scalar for Fixed {
    open spec fn zero_s() -> Fixed {
        Fixed { v: 0 }
    }

    open spec fn one_s() -> Fixed {
        Fixed { v: FIXED_SCALE }
    }

    open spec fn add_s(a: Fixed, b: Fixed) -> Fixed {
        Fixed { v: sat64(a.v + b.v) }
    }

    open spec fn sub_s(a: Fixed, b: Fixed) -> Fixed {
        Fixed { v: sat64(a.v - b.v) }
    }

    open spec fn mul_s(a: Fixed, b: Fixed) -> Fixed {
        Fixed { v: sat64(tdiv(a.v * b.v, FIXED_SCALE as int)) }
    }

    open spec fn lt_s(a: Fixed, b: Fixed) -> bool {
        a.v < b.v
    }

    fn zero_v() -> (r: Fixed) {
        Fixed { v: 0 }
    }

    fn one_v() -> (r: Fixed) {
        Fixed { v: FIXED_SCALE }
    }

    fn add_v(a: Fixed, b: Fixed) -> (r: Fixed) {
        let s: i128 = a.v as i128 + b.v as i128;
        if s > i64::MAX as i128 {
            Fixed { v: i64::MAX }
        } else if s < i64::MIN as i128 {
            Fixed { v: i64::MIN }
        } else {
            Fixed { v: s as i64 }
        }
    }

    fn sub_v(a: Fixed, b: Fixed) -> (r: Fixed) {
        let s: i128 = a.v as i128 - b.v as i128;
        if s > i64::MAX as i128 {
            Fixed { v: i64::MAX }
        } else if s < i64::MIN as i128 {
            Fixed { v: i64::MIN }
        } else {
            Fixed { v: s as i64 }
        }
    }

    fn mul_v(a: Fixed, b: Fixed) -> (r: Fixed) {
        let av: i128 = a.v as i128;
        let bv: i128 = b.v as i128;
        let am: u128 = if av < 0 {
            (-av) as u128
        } else {
            av as u128
        };
        let bm: u128 = if bv < 0 {
            (-bv) as u128
        } else {
            bv as u128
        };
        let negative: bool = (av < 0) != (bv < 0);
        proof {
            lemma_abs_mul(av as int, bv as int);
            assert(am as int * bm as int <= 0x8000_0000_0000_0000 * 0x8000_0000_0000_0000)
                by (nonlinear_arith)
                requires
                    am as int <= 0x8000_0000_0000_0000,
                    bm as int <= 0x8000_0000_0000_0000,
            ;
        }
        let q: u128 = (am * bm) / (FIXED_SCALE as u128);
        if negative {
            if q >= 0x8000_0000_0000_0000u128 {
                Fixed { v: i64::MIN }
            } else {
                Fixed { v: -(q as i64) }
            }
        } else {
            if q > i64::MAX as u128 {
                Fixed { v: i64::MAX }
            } else {
                Fixed { v: q as i64 }
            }
        }
    }

    fn lt_v(a: Fixed, b: Fixed) -> (r: bool) {
        a.v < b.v
    }
}

/// The magnitude of a product is the product of the magnitudes.
proof fn lemma_abs_mul(a: int, b: int)
    ensures
        a >= 0 && b >= 0 ==> a * b >= 0,
        a < 0 && b < 0 ==> a * b >= 0 && a * b == (-a) * (-b),
        a < 0 && b >= 0 ==> a * b <= 0 && -(a * b) == (-a) * b,
        a >= 0 && b < 0 ==> a * b <= 0 && -(a * b) == a * (-b),
{
    assert(a >= 0 && b >= 0 ==> a * b >= 0) by (nonlinear_arith);
    assert(a < 0 && b < 0 ==> a * b >= 0 && a * b == (-a) * (-b)) by (nonlinear_arith);
    assert(a < 0 && b >= 0 ==> a * b <= 0 && -(a * b) == (-a) * b) by (nonlinear_arith);
    assert(a >= 0 && b < 0 ==> a * b <= 0 && -(a * b) == a * (-b)) by (nonlinear_arith);
}

/// The comparison of `Fixed` values is a strict total order.
pub proof fn lemma_fixed_lt_total_order()
    ensures
        lt_is_total_order::<Fixed>(),
{
}

} // verus!
