//! Machine-integer arithmetic as Rust performs it, stated over mathematical integers.
use vstd::prelude::*;

verus! {

/// Division of machine integers as Rust computes it: the quotient is rounded toward zero.
pub open spec fn trunc_div(a: int, b: int) -> int
    recommends
        b != 0,
{
    if b > 0 {
        if a >= 0 {
            a / b
        } else {
            -((-a) / b)
        }
    } else if a >= 0 {
        -(a / (-b))
    } else {
        (-a) / (-b)
    }
}

/// Remainder of machine integers as Rust computes it: it takes the sign of the dividend.
pub open spec fn trunc_rem(a: int, b: int) -> int
    recommends
        b != 0,
{
    a - b * trunc_div(a, b)
}

/// `v` is a value of `i16`.
pub open spec fn is_i16(v: int) -> bool {
    i16::MIN <= v <= i16::MAX
}

/// `v` is a value of `i16`, tested on a wider integer.
pub(crate) fn fits_i16(v: i64) -> (ok: bool)
    ensures
        ok == is_i16(v as int),
{
    i16::MIN as i64 <= v && v <= i16::MAX as i64
}

/// Truncating an `i16` to `u8` keeps its value modulo 256.
pub proof fn lemma_i16_as_u8(v: i16)
    ensures
        (v as u8) as int == (v as int) % 256,
{
    assert((v as u8) as int == (v as int) % 256) by (bit_vector);
}

/// `n / d` as Rust computes it, for a divisor of either sign. A negative divisor is negated
/// first (the specification that `/` carries for a negative divisor is too weak to prove the
/// quotient), which gives the same rounded-toward-zero quotient.
pub(crate) fn div_toward_zero(n: i16, d: i16) -> (q: i16)
    requires
        d != 0,
        !(n == i16::MIN && d == -1),
    ensures
        q == trunc_div(n as int, d as int),
{
    if d > 0 {
        n / d
    } else if d == i16::MIN {
        if n == i16::MIN {
            1
        } else {
            0
        }
    } else {
        let q = n / -d;
        assert(q > i16::MIN) by {
            if d == -1 {
                assert((n as int) / 1 == n as int);
                assert((-(n as int)) / 1 == -(n as int));
            } else {
                assert(-d >= 2);
                if n < 0 {
                    assert((-(n as int)) / (-(d as int)) <= (-(n as int)) / 2) by (nonlinear_arith)
                        requires -(d as int) >= 2, -(n as int) > 0;
                }
            }
        }
        -q
    }
}

} // verus!
