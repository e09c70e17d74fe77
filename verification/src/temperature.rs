//! Heat cells and the pairwise transfer law.
use vstd::prelude::*;
use std::time::Duration;
use crate::time::duration_nanos;
use crate::units::{
    abs_i128, clamp_symmetric, lemma_clamp_symmetric_neg, lemma_trunc_div_bounds, lemma_trunc_div_neg,
    magnitude, trunc_div, SCALE,
};

verus! {

/// The divisor of the transfer law: `4 * SCALE * SCALE * NANOS_PER_SECOND`.
///
/// One factor 2 averages the two conductivities, the other halves the flow
/// because every adjacency is evaluated from both of its ends; the rest
/// removes the scales of the conductivity, of the coefficient and of the time
/// step.
pub const TRANSFER_DIVISOR: u128 = 4_000_000_000_000_000;

/// A temperature in thousandths of a degree. Any value is allowed; there is no
/// physical floor.
#[derive(Clone, Copy, Debug, PartialEq, Eq, Structural)]
pub struct Temperature {
    pub value: i64,
}

/// A thermal conductivity in thousandths. It is expected to be non-negative
/// but never validated: a negative one reverses the direction of the flow.
#[derive(Clone, Copy, Debug, PartialEq, Eq, Structural)]
pub struct ThermalConductivity {
    pub value: i64,
}

/// The atomic unit of a grid: a temperature and a conductivity.
#[derive(Clone, Copy, Debug, PartialEq, Eq, Structural)]
pub struct HeatCell {
    pub temperature: Temperature,
    pub conductivity: ThermalConductivity,
}

impl Temperature {
    pub fn set_temperature(&mut self, value: i64)
        ensures
            final(self).value == value,
    {
        self.value = value;
    }

    pub fn get_temperature(&self) -> (value: i64)
        ensures
            value == self.value,
    {
        self.value
    }
}

impl Default for Temperature {
    /// Zero degrees.
    fn default() -> (r: Self)
        ensures
            r.value == 0,
    {
        Temperature { value: 0 }
    }
}

impl Default for ThermalConductivity {
    /// A conductivity of one.
    fn default() -> (r: Self)
        ensures
            r.value == SCALE,
    {
        ThermalConductivity { value: SCALE }
    }
}

impl Default for HeatCell {
    /// Zero degrees at a conductivity of one.
    fn default() -> (r: Self)
        ensures
            r.temperature.value == 0,
            r.conductivity.value == SCALE,
    {
        HeatCell {
            temperature: Temperature { value: 0 },
            conductivity: ThermalConductivity { value: SCALE },
        }
    }
}

/// The exact product that the transfer law rounds: twice the average
/// conductivity, times the temperature difference seen from `this`, times the
/// time step in nanoseconds, times the coefficient.
pub open spec fn transfer_numerator(this: HeatCell, other: HeatCell, nanos: nat, coefficient: int) -> int {
    (this.conductivity.value + other.conductivity.value)
        * (other.temperature.value - this.temperature.value)
        * nanos
        * coefficient
}

/// The heat that `this` gains from `other` over `nanos` nanoseconds, in
/// thousandths of a degree:
/// `avg_conductivity * (other - this) * dt * coefficient / 2`, rounded toward
/// zero and saturated to `[-i64::MAX, i64::MAX]`.
#[verifier::opaque]
pub open spec fn transfer_amount(this: HeatCell, other: HeatCell, nanos: nat, coefficient: int) -> int {
    clamp_symmetric(trunc_div(transfer_numerator(this, other, nanos, coefficient), TRANSFER_DIVISOR as int))
}

/// A transfer never exceeds `i64::MAX` in magnitude, so that its negation is
/// always defined.
pub proof fn lemma_transfer_amount_bounded(this: HeatCell, other: HeatCell, nanos: nat, coefficient: int)
    ensures
        -(i64::MAX as int) <= transfer_amount(this, other, nanos, coefficient) <= i64::MAX as int,
{
    reveal(transfer_amount);
}

/// Seen from the other cell, a transfer is the same amount with the opposite
/// sign: what one cell gains, the other loses.
pub proof fn lemma_transfer_antisymmetric(this: HeatCell, other: HeatCell, nanos: nat, coefficient: int)
    ensures
        transfer_amount(other, this, nanos, coefficient) == -transfer_amount(
            this,
            other,
            nanos,
            coefficient,
        ),
{
    reveal(transfer_amount);
    let sum = this.conductivity.value + other.conductivity.value;
    let diff = other.temperature.value - this.temperature.value;
    assert(transfer_numerator(other, this, nanos, coefficient) == -transfer_numerator(
        this,
        other,
        nanos,
        coefficient,
    )) by (nonlinear_arith)
        requires
            transfer_numerator(this, other, nanos, coefficient) == sum * diff * nanos * coefficient,
            transfer_numerator(other, this, nanos, coefficient) == sum * (-diff) * nanos
                * coefficient,
    ;
    lemma_trunc_div_neg(transfer_numerator(this, other, nanos, coefficient), TRANSFER_DIVISOR as int);
    lemma_clamp_symmetric_neg(
        trunc_div(transfer_numerator(this, other, nanos, coefficient), TRANSFER_DIVISOR as int),
    );
}

/// Nothing flows over a time step of zero, between cells of equal
/// temperature, or at a coefficient of zero.
pub proof fn lemma_transfer_zero(this: HeatCell, other: HeatCell, nanos: nat, coefficient: int)
    requires
        nanos == 0 || coefficient == 0 || this.temperature.value == other.temperature.value
            || this.conductivity.value + other.conductivity.value == 0,
    ensures
        transfer_amount(this, other, nanos, coefficient) == 0,
{
    reveal(transfer_amount);
    let sum = this.conductivity.value + other.conductivity.value;
    let diff = other.temperature.value - this.temperature.value;
    assert(sum * diff * nanos * coefficient == 0) by (nonlinear_arith)
        requires
            nanos == 0 || coefficient == 0 || diff == 0 || sum == 0,
    ;
}

/// A transfer survives the rounding exactly when the exact product reaches
/// the divisor in magnitude, and it then has the sign of that product.
pub proof fn lemma_transfer_sign(this: HeatCell, other: HeatCell, nanos: nat, coefficient: int)
    ensures
        transfer_amount(this, other, nanos, coefficient) > 0 <==> transfer_numerator(
            this,
            other,
            nanos,
            coefficient,
        ) >= TRANSFER_DIVISOR as int,
        transfer_amount(this, other, nanos, coefficient) < 0 <==> transfer_numerator(
            this,
            other,
            nanos,
            coefficient,
        ) <= -(TRANSFER_DIVISOR as int),
{
    reveal(transfer_amount);
    let numerator = transfer_numerator(this, other, nanos, coefficient);
    let divisor = TRANSFER_DIVISOR as int;
    let size = magnitude(numerator) as int;
    lemma_trunc_div_bounds(numerator, divisor);
    vstd::arithmetic::div_mod::lemma_fundamental_div_mod(size, divisor);
    vstd::arithmetic::div_mod::lemma_mod_bound(size, divisor);
    vstd::arithmetic::div_mod::lemma_div_pos_is_pos(size, divisor);
    assert(size / divisor >= 1 <==> size >= divisor) by (nonlinear_arith)
        requires
            size == divisor * (size / divisor) + size % divisor,
            0 <= size % divisor < divisor,
            size / divisor >= 0,
    ;
}

/// The sign and the magnitude of a product of two integers.
proof fn lemma_product_sign_magnitude(x: int, y: int)
    ensures
        magnitude(x * y) == magnitude(x) * magnitude(y),
        (x * y < 0) == (x != 0 && y != 0 && ((x < 0) != (y < 0))),
        (x * y == 0) == (x == 0 || y == 0),
{
    assert(magnitude(x * y) == magnitude(x) * magnitude(y)) by (nonlinear_arith);
    assert((x * y < 0) == (x != 0 && y != 0 && ((x < 0) != (y < 0)))) by (nonlinear_arith);
    assert((x * y == 0) == (x == 0 || y == 0)) by (nonlinear_arith);
}

/// A product that has left the range of `u128` stays outside it when multiplied
/// by a positive factor.
proof fn lemma_overflow_persists(p: nat, f: nat)
    requires
        p > u128::MAX,
        f >= 1,
    ensures
        p * f > u128::MAX,
{
    assert(p * f >= p) by (nonlinear_arith)
        requires
            f >= 1,
    ;
}

/// A magnitude beyond `u128` divided by the transfer divisor is beyond `i64`.
proof fn lemma_overflow_saturates(m: nat)
    requires
        m > u128::MAX,
    ensures
        m / (TRANSFER_DIVISOR as nat) > i64::MAX,
{
    vstd::arithmetic::div_mod::lemma_div_is_ordered(
        u128::MAX as int,
        m as int,
        TRANSFER_DIVISOR as int,
    );
}

/// `a * b * n * k / TRANSFER_DIVISOR`, rounded toward zero and saturated to
/// `[-i64::MAX, i64::MAX]`, for factors as wide as the transfer law meets.
fn scaled_product(a: i128, b: i128, n: u128, k: i128) -> (q: i64)
    requires
        a > i128::MIN,
        b > i128::MIN,
        k > i128::MIN,
    ensures
        q == clamp_symmetric(trunc_div(a * b * n * k, TRANSFER_DIVISOR as int)),
        q > i64::MIN,
{
    let ghost product = a * b * n * k;
    let ghost total = magnitude(a as int) * magnitude(b as int) * (n as nat) * magnitude(k as int);
    proof {
        lemma_product_sign_magnitude(a as int, b as int);
        lemma_product_sign_magnitude(a * b, n as int);
        lemma_product_sign_magnitude(a * b * n, k as int);
        lemma_trunc_div_bounds(product, TRANSFER_DIVISOR as int);
    }
    if a == 0 || b == 0 || n == 0 || k == 0 {
        return 0;
    }
    let negative = ((a < 0) != (b < 0)) != (k < 0);
    let ma = abs_i128(a);
    let mb = abs_i128(b);
    let mk = abs_i128(k);
    let limit: u128 = i64::MAX as u128;
    let quotient: u128 = match ma.checked_mul(mb) {
        None => {
            proof {
                lemma_overflow_persists(ma as nat * mb as nat, n as nat);
                lemma_overflow_persists(ma as nat * mb as nat * n as nat, mk as nat);
                lemma_overflow_saturates(total);
            }
            limit
        },
        Some(paired) => match paired.checked_mul(n) {
            None => {
                proof {
                    lemma_overflow_persists(ma as nat * mb as nat * n as nat, mk as nat);
                    lemma_overflow_saturates(total);
                }
                limit
            },
            Some(timed) => match timed.checked_mul(mk) {
                None => {
                    proof {
                        lemma_overflow_saturates(total);
                    }
                    limit
                },
                Some(whole) => {
                    let exact = whole / TRANSFER_DIVISOR;
                    if exact > limit {
                        limit
                    } else {
                        exact
                    }
                },
            },
        },
    };
    if negative {
        -(quotient as i64)
    } else {
        quotient as i64
    }
}

/// The pairwise transfer law for a time step given in nanoseconds.
///
/// Returns `(delta, -delta)`: the first value is added to `cell1`, the second
/// to `cell2`. Heat flows from hot to cold while conductivities and the
/// coefficient are positive; `coefficient` is in thousandths.
pub fn heat_transfer(cell1: &HeatCell, cell2: &HeatCell, nanos: u128, coefficient: i64) -> (deltas: (i64, i64))
    ensures
        deltas.0 == transfer_amount(*cell1, *cell2, nanos as nat, coefficient as int),
        deltas.1 == -deltas.0,
{
    proof {
        reveal(transfer_amount);
    }
    let conductivity_sum: i128 = cell1.conductivity.value as i128 + cell2.conductivity.value as i128;
    let temperature_difference: i128 = cell2.temperature.value as i128 - cell1.temperature.value as i128;
    let heat = scaled_product(conductivity_sum, temperature_difference, nanos, coefficient as i128);
    (heat, -heat)
}

/// The pairwise transfer law.
///
/// Returns `(delta, -delta)`: the first value is added to `cell1`, the second
/// to `cell2`, so that the two always sum to exactly zero. `dt` is the time
/// step and `transfer_coefficient` the coefficient in thousandths.
pub fn calculate_heat_transfer(
    cell1: &HeatCell,
    cell2: &HeatCell,
    dt: Duration,
    transfer_coefficient: i64,
) -> (deltas: (i64, i64))
    ensures
        deltas.0 == transfer_amount(
            *cell1,
            *cell2,
            duration_nanos(dt),
            transfer_coefficient as int,
        ),
        deltas.1 == -deltas.0,
{
    heat_transfer(cell1, cell2, dt.as_nanos(), transfer_coefficient)
}

} // verus!
