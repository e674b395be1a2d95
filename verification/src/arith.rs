//! Truncating integer division and remainder.
//!
//! The language's `/` and `%` on integers follow the machine convention:
//! the quotient is rounded toward zero and the remainder carries the sign of
//! the dividend. Specification-level `/` and `%` are Euclidean, so the
//! truncating forms are defined here and the executable operations are proved
//! against them.

use vstd::prelude::*;

verus! {

pub open spec fn abs_int(a: int) -> int {
    if a < 0 {
        -a
    } else {
        a
    }
}

/// The quotient of `a` and `b`, rounded toward zero.
pub open spec fn div_trunc(a: int, b: int) -> int {
    let q = abs_int(a) / abs_int(b);
    if (a < 0) != (b < 0) {
        -q
    } else {
        q
    }
}

/// The remainder that matches [`div_trunc`]: `a - b * div_trunc(a, b)`.
pub open spec fn rem_trunc(a: int, b: int) -> int {
    a - b * div_trunc(a, b)
}

/// The magnitude of `a`, as an unsigned value.
pub fn abs_u64(a: i64) -> (r: u64)
    ensures
        r == abs_int(a as int),
{
    if a >= 0 {
        a as u64
    } else if a == i64::MIN {
        9223372036854775808u64
    } else {
        (-a) as u64
    }
}

proof fn lemma_mul_signs(x: int, y: int) by (nonlinear_arith)
    ensures
        (-x) * y == -(x * y),
        x * (-y) == -(x * y),
        (-x) * (-y) == x * y,
{
}

/// The truncating quotient, as the machine computes it.
pub fn div_values(a: i64, b: i64) -> (q: i64)
    requires
        b != 0,
        !(a == i64::MIN && b == -1),
    ensures
        q == div_trunc(a as int, b as int),
{
    let ua = abs_u64(a);
    let ub = abs_u64(b);
    let uq = ua / ub;
    if (a < 0) != (b < 0) {
        if uq == 9223372036854775808u64 {
            i64::MIN
        } else {
            proof {
                vstd::arithmetic::div_mod::lemma_div_is_ordered_by_denominator(
                    ua as int,
                    1,
                    ub as int,
                );
            }
            -(uq as i64)
        }
    } else {
        proof {
            if ua == 9223372036854775808 {
                assert(ub >= 2);
                vstd::arithmetic::div_mod::lemma_div_is_ordered_by_denominator(
                    ua as int,
                    2,
                    ub as int,
                );
            }
        }
        uq as i64
    }
}

/// The remainder that matches [`div_values`]; it carries the dividend's sign.
pub fn rem_values(a: i64, b: i64) -> (r: i64)
    requires
        b != 0,
        !(a == i64::MIN && b == -1),
    ensures
        r == rem_trunc(a as int, b as int),
{
    let ua = abs_u64(a);
    let ub = abs_u64(b);
    let ur = ua % ub;
    proof {
        vstd::arithmetic::div_mod::lemma_fundamental_div_mod(ua as int, ub as int);
        lemma_mul_signs(ub as int, ua as int / ub as int);
    }
    if a < 0 {
        -(ur as i64)
    } else {
        ur as i64
    }
}

/// Division truncates toward zero and the remainder matches that truncation:
/// for every `a` and `b` with `b != 0`, the quotient and remainder recompose
/// `a`, the remainder is smaller in magnitude than `b`, and the remainder
/// carries the sign of `a` (which is exactly rounding toward zero).
pub proof fn lemma_truncating_div_rem(a: int, b: int)
    requires
        b != 0,
    ensures
        a == b * div_trunc(a, b) + rem_trunc(a, b),
        abs_int(rem_trunc(a, b)) < abs_int(b),
        a >= 0 ==> rem_trunc(a, b) >= 0,
        a <= 0 ==> rem_trunc(a, b) <= 0,
{
    vstd::arithmetic::div_mod::lemma_fundamental_div_mod(abs_int(a), abs_int(b));
    vstd::arithmetic::div_mod::lemma_mod_bound(abs_int(a), abs_int(b));
    vstd::arithmetic::div_mod::lemma_div_pos_is_pos(abs_int(a), abs_int(b));
    lemma_mul_signs(b, div_trunc(a, b));
    lemma_mul_signs(abs_int(b), abs_int(a) / abs_int(b));
}

} // verus!
