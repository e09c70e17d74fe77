//! Stability: in the stable range a diffusion step never overshoots.
//!
//! The update has no guard against instability; a host that makes the product
//! of conductivity, coefficient and time step too large gets temperatures that
//! swing past each other and grow. The theorems here say how small is small
//! enough: while four times that product does not exceed one, every cell ends
//! a tick between the coldest and the warmest of itself and its neighbors, so
//! a grid that starts within a range of temperatures stays within it for
//! ever, never saturates, and conserves its heat.
use vstd::prelude::*;
use crate::grid::{Direction, GridModel};
use crate::temperature::{transfer_amount, transfer_numerator, HeatCell, TRANSFER_DIVISOR};
use crate::units::{lemma_trunc_div_bounds, trunc_div, NANOS_PER_SECOND, SCALE};

verus! {

/// The range in which a step cannot overshoot, for conductivities up to
/// `ceiling`: the coefficient is not negative, and four times the product of
/// `ceiling`, the coefficient and the time step does not exceed one.
pub open spec fn damped(ceiling: int, nanos: nat, coefficient: int) -> bool {
    &&& coefficient >= 0
    &&& 4 * ceiling * coefficient * nanos <= SCALE * SCALE * NANOS_PER_SECOND
}

/// Between two cells with conductivities from zero to `ceiling`, in the
/// damped range, eight times the transfer lies between zero and the
/// temperature gap: the two visits of a tick together move at most a quarter
/// of the gap.
pub proof fn lemma_damped_transfer(
    this: HeatCell,
    other: HeatCell,
    ceiling: int,
    nanos: nat,
    coefficient: int,
)
    requires
        0 <= this.conductivity.value <= ceiling,
        0 <= other.conductivity.value <= ceiling,
        damped(ceiling, nanos, coefficient),
    ensures
        other.temperature.value - this.temperature.value >= 0 ==> 0 <= 8 * transfer_amount(
            this,
            other,
            nanos,
            coefficient,
        ) <= other.temperature.value - this.temperature.value,
        other.temperature.value - this.temperature.value <= 0 ==> other.temperature.value
            - this.temperature.value <= 8 * transfer_amount(this, other, nanos, coefficient) <= 0,
{
    reveal(transfer_amount);
    let sum = this.conductivity.value + other.conductivity.value;
    let gap = other.temperature.value - this.temperature.value;
    let rate = sum * coefficient * nanos;
    let limit = SCALE * SCALE * NANOS_PER_SECOND;
    let divisor = TRANSFER_DIVISOR as int;
    let numerator = transfer_numerator(this, other, nanos, coefficient);
    assert(numerator == gap * rate) by (nonlinear_arith)
        requires
            numerator == sum * gap * nanos * coefficient,
            rate == sum * coefficient * nanos,
    ;
    assert(0 <= 2 * rate <= limit) by (nonlinear_arith)
        requires
            rate == sum * coefficient * nanos,
            0 <= sum <= 2 * ceiling,
            coefficient >= 0,
            nanos >= 0,
            4 * ceiling * coefficient * nanos <= limit,
    ;
    let quotient = trunc_div(numerator, divisor);
    lemma_trunc_div_bounds(numerator, divisor);
    if gap >= 0 {
        assert(numerator >= 0 && 2 * numerator <= gap * limit) by (nonlinear_arith)
            requires
                numerator == gap * rate,
                0 <= 2 * rate <= limit,
                gap >= 0,
        ;
        assert(8 * quotient <= gap) by (nonlinear_arith)
            requires
                quotient * divisor <= numerator,
                2 * numerator <= gap * limit,
                divisor == 4 * limit,
                limit > 0,
        ;
    } else {
        assert(numerator <= 0 && 2 * numerator >= gap * limit) by (nonlinear_arith)
            requires
                numerator == gap * rate,
                0 <= 2 * rate <= limit,
                gap <= 0,
        ;
        assert(8 * quotient >= gap) by (nonlinear_arith)
            requires
                quotient * divisor >= numerator,
                2 * numerator >= gap * limit,
                divisor == 4 * limit,
                limit > 0,
        ;
    }
}

impl GridModel {
    /// Whether every temperature of the grid lies between `low` and `high`.
    pub open spec fn temperatures_within(self, low: int, high: int) -> bool {
        forall|c: (int, int)| #[trigger]
            self.cells.contains_key(c) ==> low <= self.cells[c].temperature.value <= high
    }

    /// Whether every conductivity of the grid lies between zero and
    /// `ceiling`.
    pub open spec fn conductivities_within(self, ceiling: int) -> bool {
        forall|c: (int, int)| #[trigger]
            self.cells.contains_key(c) ==> 0 <= self.cells[c].conductivity.value <= ceiling
    }

    /// In the damped range, what a cell gains from one direction is at most a
    /// quarter of the way to any bound that holds of the cell and of its
    /// neighbor there.
    proof fn lemma_damped_flow(
        self,
        c: (int, int),
        d: Direction,
        low: int,
        high: int,
        ceiling: int,
        nanos: nat,
        coefficient: int,
    )
        requires
            self.wf(),
            self.occupied(c),
            self.temperatures_within(low, high),
            self.conductivities_within(ceiling),
            damped(ceiling, nanos, coefficient),
        ensures
            low - self.cells[c].temperature.value <= 4 * self.flow(c, d, nanos, coefficient) <= high
                - self.cells[c].temperature.value,
    {
        if let Some(n) = self.neighbor(c, d) {
            self.lemma_exchange_is_double_transfer(c, n, nanos, coefficient);
            lemma_damped_transfer(self.cells[c], self.cells[n], ceiling, nanos, coefficient);
        }
    }

    /// The discrete maximum principle. In the damped range a step moves no
    /// temperature out of a range that held all temperatures before it: the
    /// step does not overshoot, it saturates nowhere, and it leaves the
    /// conductivities as they were.
    pub proof fn lemma_step_stays_within(
        self,
        low: int,
        high: int,
        ceiling: int,
        nanos: nat,
        coefficient: int,
    )
        requires
            self.wf(),
            self.temperatures_within(low, high),
            self.conductivities_within(ceiling),
            damped(ceiling, nanos, coefficient),
        ensures
            self.diffused(nanos, coefficient).wf(),
            self.diffused(nanos, coefficient).temperatures_within(low, high),
            self.diffused(nanos, coefficient).conductivities_within(ceiling),
            self.unsaturated(nanos, coefficient),
    {
        let after = self.diffused(nanos, coefficient);
        self.lemma_diffused_wf(nanos, coefficient);
        // Temperatures are stored in `i64`, so the bounds may be taken within its range.
        let floor = if low < i64::MIN { i64::MIN as int } else { low };
        let roof = if high > i64::MAX { i64::MAX as int } else { high };
        assert(self.temperatures_within(floor, roof));
        assert forall|c: (int, int)| #[trigger] self.cells.contains_key(c) implies floor
            <= self.cells[c].temperature.value + self.net_delta(c, nanos, coefficient) <= roof by {
            self.lemma_damped_flow(c, Direction::East, floor, roof, ceiling, nanos, coefficient);
            self.lemma_damped_flow(c, Direction::North, floor, roof, ceiling, nanos, coefficient);
            self.lemma_damped_flow(c, Direction::West, floor, roof, ceiling, nanos, coefficient);
            self.lemma_damped_flow(c, Direction::South, floor, roof, ceiling, nanos, coefficient);
        }
        assert forall|c: (int, int)| #[trigger] after.cells.contains_key(c) implies low
            <= after.cells[c].temperature.value <= high && 0 <= after.cells[c].conductivity.value
            <= ceiling by {
            assert(self.cells.contains_key(c));
        }
    }

    /// In the damped range a grid stays for ever within the range of
    /// temperatures it started in.
    pub proof fn lemma_steps_stay_within(
        self,
        ticks: nat,
        low: int,
        high: int,
        ceiling: int,
        nanos: nat,
        coefficient: int,
    )
        requires
            self.wf(),
            self.temperatures_within(low, high),
            self.conductivities_within(ceiling),
            damped(ceiling, nanos, coefficient),
        ensures
            self.diffused_times(ticks, nanos, coefficient).wf(),
            self.diffused_times(ticks, nanos, coefficient).temperatures_within(low, high),
            self.diffused_times(ticks, nanos, coefficient).conductivities_within(ceiling),
            self.diffused_times(ticks, nanos, coefficient).total_heat() == self.total_heat(),
        decreases ticks,
    {
        if ticks > 0 {
            let earlier = self.diffused_times((ticks - 1) as nat, nanos, coefficient);
            self.lemma_steps_stay_within((ticks - 1) as nat, low, high, ceiling, nanos, coefficient);
            earlier.lemma_step_stays_within(low, high, ceiling, nanos, coefficient);
            earlier.lemma_heat_is_conserved(nanos, coefficient);
        }
    }
}

} // verus!
