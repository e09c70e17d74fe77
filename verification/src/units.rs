//! Fixed-point units and the rounding rules shared by the whole crate.
//!
//! A physical quantity `q` is stored as the integer `q * SCALE`. Products of
//! several quantities are formed exactly and divided once, rounding toward
//! zero, so that a flow and its reverse always cancel. Results that do not fit
//! the storage type saturate at its extremes instead of wrapping.
//!
//! The transfer law is linear in temperature and divides by the scales of the
//! conductivity, of the coefficient and of the time step only. A host that
//! needs finer steps than thousandths of a degree can therefore count its
//! temperatures in any smaller unit and change nothing else.
use vstd::prelude::*;

verus! {

/// Stored units per physical unit: quantities are counted in thousandths.
pub const SCALE: i64 = 1000;

/// Nanoseconds per second.
pub const NANOS_PER_SECOND: u64 = 1_000_000_000;

/// Division rounding toward zero, the quotient of Rust's `/` on signed
/// integers.
pub open spec fn trunc_div(n: int, d: int) -> int {
    if n >= 0 {
        n / d
    } else {
        -((-n) / d)
    }
}

/// The absolute value of `v`.
pub open spec fn magnitude(v: int) -> nat {
    if v >= 0 {
        v as nat
    } else {
        (-v) as nat
    }
}

/// `v` limited to the range `[-i64::MAX, i64::MAX]`, which is closed under
/// negation.
pub open spec fn clamp_symmetric(v: int) -> int {
    if v > i64::MAX as int {
        i64::MAX as int
    } else if v < -(i64::MAX as int) {
        -(i64::MAX as int)
    } else {
        v
    }
}

/// `v` limited to the range of `i64`.
pub open spec fn clamp_i64(v: int) -> int {
    if v > i64::MAX as int {
        i64::MAX as int
    } else if v < i64::MIN as int {
        i64::MIN as int
    } else {
        v
    }
}

/// Rounding toward zero commutes with negation.
pub proof fn lemma_trunc_div_neg(n: int, d: int)
    requires
        d > 0,
    ensures
        trunc_div(-n, d) == -trunc_div(n, d),
{
}

/// Symmetric saturation commutes with negation.
pub proof fn lemma_clamp_symmetric_neg(v: int)
    ensures
        clamp_symmetric(-v) == -clamp_symmetric(v),
{
}

/// Rounding toward zero never increases the magnitude and keeps the sign.
pub proof fn lemma_trunc_div_bounds(n: int, d: int)
    requires
        d > 0,
    ensures
        n >= 0 ==> 0 <= trunc_div(n, d) && trunc_div(n, d) * d <= n,
        n <= 0 ==> 0 >= trunc_div(n, d) && trunc_div(n, d) * d >= n,
        magnitude(trunc_div(n, d)) == magnitude(n) / (d as nat),
{
    let m = magnitude(n) as int;
    vstd::arithmetic::div_mod::lemma_fundamental_div_mod(m, d);
    vstd::arithmetic::div_mod::lemma_div_pos_is_pos(m, d);
    vstd::arithmetic::div_mod::lemma_mod_bound(m, d);
    assert(d * (m / d) == (m / d) * d) by (nonlinear_arith);
    assert((-(m / d)) * d == -((m / d) * d)) by (nonlinear_arith);
}

/// The absolute value of a signed integer, as an unsigned one.
pub fn abs_i128(v: i128) -> (m: u128)
    requires
        v > i128::MIN,
    ensures
        m == magnitude(v as int),
{
    if v >= 0 {
        v as u128
    } else {
        (-v) as u128
    }
}

/// Adds `delta` to `value`, saturating at the bounds of `i64`.
pub fn saturating_offset(value: i64, delta: i128) -> (r: i64)
    ensures
        r == clamp_i64(value + delta),
{
    if delta >= 0 {
        if delta > i64::MAX as i128 - value as i128 {
            i64::MAX
        } else {
            (value as i128 + delta) as i64
        }
    } else {
        if delta < i64::MIN as i128 - value as i128 {
            i64::MIN
        } else {
            (value as i128 + delta) as i64
        }
    }
}

} // verus!
