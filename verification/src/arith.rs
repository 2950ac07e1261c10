//! Integer arithmetic helpers: addition and truncating division with
//! remainder.

use vstd::arithmetic::div_mod::lemma_div_is_ordered_by_denominator;
use vstd::arithmetic::div_mod::lemma_div_nonincreasing;
use vstd::arithmetic::div_mod::lemma_div_pos_is_pos;
use vstd::arithmetic::div_mod::lemma_fundamental_div_mod;
use vstd::arithmetic::div_mod::lemma_mod_division_less_than_divisor;
use vstd::math::abs;
use vstd::prelude::*;
use vstd::string::StringExecFns;

verus! {

/// Returns the sum of `a` and `b`. The inputs must not overflow `i32`.
pub fn add_numbers(a: i32, b: i32) -> (sum: i32)
    requires
        i32::MIN <= a + b <= i32::MAX,
    ensures
        sum == a + b,
{
    a + b
}

/// Addition is commutative: `add_numbers(a, b)` and `add_numbers(b, a)`
/// return the same sum, for every pair of `i32` arguments.
pub proof fn lemma_add_numbers_commutative(a: i32, b: i32)
    ensures
        a + b == b + a,
{
}

/// The sum is a function of the addends alone: any two results that
/// satisfy the contract of `add_numbers` on the same addends agree.
pub proof fn lemma_add_numbers_deterministic(a: i32, b: i32, sum1: i32, sum2: i32)
    requires
        sum1 == a + b,
        sum2 == a + b,
    ensures
        sum1 == sum2,
{
}

/// The quotient of division truncating toward zero.
pub open spec fn trunc_quotient(dividend: int, divisor: int) -> int {
    if (dividend < 0) == (divisor < 0) {
        (abs(dividend) as int) / (abs(divisor) as int)
    } else {
        -((abs(dividend) as int) / (abs(divisor) as int))
    }
}

/// The remainder left by division truncating toward zero; it carries the
/// sign of the dividend.
pub open spec fn trunc_remainder(dividend: int, divisor: int) -> int {
    if dividend < 0 {
        -((abs(dividend) as int) % (abs(divisor) as int))
    } else {
        (abs(dividend) as int) % (abs(divisor) as int)
    }
}

/// Returns the quotient (truncating toward zero) and the remainder of
/// `dividend` divided by `divisor`, or an error when the divisor is zero.
/// The one excluded input is `i32::MIN / -1`, whose quotient does not fit
/// in an `i32`.
pub fn divide_with_remainder(dividend: i32, divisor: i32) -> (r: Result<(i32, i32), String>)
    requires
        !(dividend == i32::MIN && divisor == -1),
    ensures
        r is Err <==> divisor == 0,
        r is Ok ==> r->Ok_0.0 == trunc_quotient(dividend as int, divisor as int),
        r is Ok ==> r->Ok_0.1 == trunc_remainder(dividend as int, divisor as int),
        r is Err ==> r->Err_0@ == "Cannot divide by zero"@,
{
    if divisor == 0 {
        return Err(String::from_str("Cannot divide by zero"));
    }
    let dividend_mag: u32 = if dividend < 0 {
        (-(dividend as i64)) as u32
    } else {
        dividend as u32
    };
    let divisor_mag: u32 = if divisor < 0 {
        (-(divisor as i64)) as u32
    } else {
        divisor as u32
    };
    assert(dividend_mag == abs(dividend as int));
    assert(divisor_mag == abs(divisor as int));
    assert(divisor_mag >= 1);
    let quotient_mag: u32 = dividend_mag / divisor_mag;
    let remainder_mag: u32 = dividend_mag % divisor_mag;
    proof {
        lemma_div_pos_is_pos(dividend_mag as int, divisor_mag as int);
        lemma_div_nonincreasing(dividend_mag as int, divisor_mag as int);
        lemma_mod_division_less_than_divisor(dividend_mag as int, divisor_mag as int);
        if dividend == i32::MIN && divisor < 0 {
            // Here the divisor is at most -2, so the quotient magnitude is
            // at most half of 2^31 and fits in an i32.
            lemma_div_is_ordered_by_denominator(dividend_mag as int, 2, divisor_mag as int);
        }
    }
    let quotient: i32 = if (dividend < 0) != (divisor < 0) {
        (-(quotient_mag as i64)) as i32
    } else {
        quotient_mag as i32
    };
    let remainder: i32 = if dividend < 0 {
        (-(remainder_mag as i64)) as i32
    } else {
        remainder_mag as i32
    };
    Ok((quotient, remainder))
}

/// The law of truncating division: for every dividend and nonzero divisor,
/// the quotient and remainder recombine to the dividend, and the remainder
/// is strictly smaller than the divisor in magnitude.
pub proof fn lemma_divide_with_remainder_identity(dividend: int, divisor: int)
    requires
        divisor != 0,
    ensures
        dividend == trunc_quotient(dividend, divisor) * divisor + trunc_remainder(
            dividend,
            divisor,
        ),
        abs(trunc_remainder(dividend, divisor)) < abs(divisor),
{
    let m = abs(dividend) as int;
    let n = abs(divisor) as int;
    lemma_fundamental_div_mod(m, n);
    lemma_mod_division_less_than_divisor(m, n);
    let q = m / n;
    let r = m % n;
    assert(m == n * q + r);
    if dividend >= 0 && divisor > 0 {
        assert(dividend == q * divisor + r) by (nonlinear_arith)
            requires
                dividend == m,
                divisor == n,
                m == n * q + r,
        ;
    } else if dividend >= 0 && divisor < 0 {
        assert(dividend == (-q) * divisor + r) by (nonlinear_arith)
            requires
                dividend == m,
                divisor == -n,
                m == n * q + r,
        ;
    } else if dividend < 0 && divisor > 0 {
        assert(dividend == (-q) * divisor + (-r)) by (nonlinear_arith)
            requires
                dividend == -m,
                divisor == n,
                m == n * q + r,
        ;
    } else {
        assert(dividend == q * divisor + (-r)) by (nonlinear_arith)
            requires
                dividend == -m,
                divisor == -n,
                m == n * q + r,
        ;
    }
}

/// Quotient and remainder are functions of the operands alone: any two
/// result pairs that satisfy the contract of `divide_with_remainder` on the
/// same operands agree.
pub proof fn lemma_divide_with_remainder_deterministic(
    dividend: int,
    divisor: int,
    pair1: (int, int),
    pair2: (int, int),
)
    requires
        pair1.0 == trunc_quotient(dividend, divisor),
        pair1.1 == trunc_remainder(dividend, divisor),
        pair2.0 == trunc_quotient(dividend, divisor),
        pair2.1 == trunc_remainder(dividend, divisor),
    ensures
        pair1 == pair2,
{
}

} // verus!
