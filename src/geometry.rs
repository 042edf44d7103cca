use vstd::prelude::*;
use vstd::arithmetic::div_mod::{lemma_div_is_ordered, lemma_div_multiples_vanish};
use vstd::arithmetic::mul::lemma_mul_inequality;

verus! {

/// A point in the plane, in fixed-point position units.
#[derive(Clone, Copy, Debug, PartialEq, Eq, Structural)]
pub struct Point2 {
    pub x: i64,
    pub y: i64,
}

/// A point in space, in fixed-point position units; `z` is depth.
#[derive(Clone, Copy, Debug, PartialEq, Eq, Structural)]
pub struct Point3 {
    pub x: i64,
    pub y: i64,
    pub z: i64,
}

/// The point a fraction `num / den` of the way from `a` to `b`, rounded
/// towards `a`. A zero `den` means the whole way.
pub open spec fn lerp_spec(a: int, b: int, num: int, den: int) -> int {
    if den == 0 {
        b
    } else if a <= b {
        a + (b - a) * num / den
    } else {
        a - (a - b) * num / den
    }
}

proof fn lemma_scaled_within(span: int, num: int, den: int)
    requires
        0 <= span,
        0 <= num <= den,
        0 < den,
    ensures
        0 <= span * num / den <= span,
{
    lemma_mul_inequality(num, den, span);
    assert(0 <= span * num) by (nonlinear_arith)
        requires
            0 <= span,
            0 <= num,
    ;
    assert(num * span == span * num) by (nonlinear_arith);
    assert(den * span == span * den) by (nonlinear_arith);
    lemma_div_is_ordered(span * num, span * den, den);
    lemma_div_is_ordered(0, span * num, den);
    lemma_div_multiples_vanish(span, den);
}

/// `lerp_spec` never leaves the segment between its endpoints.
pub proof fn lemma_lerp_between(a: int, b: int, num: int, den: int)
    requires
        0 <= num <= den,
    ensures
        a <= b ==> a <= lerp_spec(a, b, num, den) <= b,
        b < a ==> b <= lerp_spec(a, b, num, den) <= a,
{
    if den > 0 {
        if a <= b {
            lemma_scaled_within(b - a, num, den);
        } else {
            lemma_scaled_within(a - b, num, den);
        }
    }
}

/// One coordinate of `lerp_spec`, computed without overflow.
pub fn lerp_coord(a: i64, b: i64, num: u64, den: u64) -> (r: i64)
    requires
        num <= den,
    ensures
        r as int == lerp_spec(a as int, b as int, num as int, den as int),
{
    if den == 0 {
        return b;
    }
    proof {
        lemma_lerp_between(a as int, b as int, num as int, den as int);
    }
    if a <= b {
        let span: u128 = (b as i128 - a as i128) as u128;
        assert(span * (num as u128) <= 0xffff_ffff_ffff_ffff_ffff_ffff_ffff_ffffu128) by (
        nonlinear_arith)
            requires
                span <= 0xffff_ffff_ffff_ffffu128,
                num <= 0xffff_ffff_ffff_ffffu64,
        ;
        let step: u128 = span * (num as u128) / (den as u128);
        (a as i128 + step as i128) as i64
    } else {
        let span: u128 = (a as i128 - b as i128) as u128;
        assert(span * (num as u128) <= 0xffff_ffff_ffff_ffff_ffff_ffff_ffff_ffffu128) by (
        nonlinear_arith)
            requires
                span <= 0xffff_ffff_ffff_ffffu128,
                num <= 0xffff_ffff_ffff_ffffu64,
        ;
        let step: u128 = span * (num as u128) / (den as u128);
        (a as i128 - step as i128) as i64
    }
}

} // verus!
