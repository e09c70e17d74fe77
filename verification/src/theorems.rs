//! Theorems about the diffusion step, stated over the mathematical model of a
//! grid.
use vstd::prelude::*;
use crate::grid::{Direction, GridModel};
use crate::temperature::{
    lemma_transfer_antisymmetric, lemma_transfer_zero, transfer_amount, transfer_numerator, HeatCell,
    TRANSFER_DIVISOR,
};
use crate::units::{lemma_trunc_div_bounds, magnitude, trunc_div, NANOS_PER_SECOND, SCALE};

verus! {

impl GridModel {
    /// Across one adjacency, the two visits of a tick together move twice the
    /// halved flow of the transfer law: one full transfer.
    pub proof fn lemma_exchange_is_double_transfer(
        self,
        c: (int, int),
        n: (int, int),
        nanos: nat,
        coefficient: int,
    )
        ensures
            self.exchange(c, n, nanos, coefficient) == 2 * transfer_amount(
                self.cells[c],
                self.cells[n],
                nanos,
                coefficient,
            ),
            self.exchange(n, c, nanos, coefficient) == -self.exchange(c, n, nanos, coefficient),
    {
        lemma_transfer_antisymmetric(self.cells[c], self.cells[n], nanos, coefficient);
    }

    /// A diffusion step over a time step of zero changes nothing: every cell
    /// keeps its temperature exactly.
    pub proof fn lemma_zero_time_is_identity(self, coefficient: int)
        requires
            self.wf(),
        ensures
            self.diffused(0, coefficient) == self,
    {
        let after = self.diffused(0, coefficient);
        assert forall|c: (int, int)| #[trigger] self.cells.contains_key(c) implies after.cells[c]
            == self.cells[c] by {
            self.lemma_still_without_flow(c, 0, coefficient);
        }
        assert(after.cells =~= self.cells);
    }

    /// A cell keeps its temperature over a time step of zero, and whenever
    /// all of its neighbors are as warm as it is.
    proof fn lemma_still_without_flow(self, c: (int, int), nanos: nat, coefficient: int)
        requires
            self.occupied(c),
            nanos == 0 || forall|d: Direction| #[trigger]
                self.neighbor(c, d) is Some ==> self.cells[d.step(c)].temperature.value
                    == self.cells[c].temperature.value,
        ensures
            self.diffused_cell(c, nanos, coefficient) == self.cells[c],
    {
        assert forall|d: Direction| #[trigger] self.flow(c, d, nanos, coefficient) == 0 by {
            if let Some(n) = self.neighbor(c, d) {
                lemma_transfer_zero(self.cells[c], self.cells[n], nanos, coefficient);
                lemma_transfer_zero(self.cells[n], self.cells[c], nanos, coefficient);
            }
        }
    }

    /// Whether the cells at `a` and `b` stand side by side and are the only
    /// cells of the grid.
    pub open spec fn isolated_pair(self, a: (int, int), b: (int, int)) -> bool {
        &&& self.wf()
        &&& Self::adjacent(a, b)
        &&& self.cells.dom() =~= set![a, b]
    }

    /// The temperature of the cell at `b` less that of the cell at `a`.
    pub open spec fn gap(self, a: (int, int), b: (int, int)) -> int {
        self.cells[b].temperature.value - self.cells[a].temperature.value
    }

    /// In an isolated pair each cell exchanges heat with the other cell and
    /// with nobody else.
    proof fn lemma_pair_net_delta(self, a: (int, int), b: (int, int), nanos: nat, coefficient: int)
        requires
            self.isolated_pair(a, b),
        ensures
            self.net_delta(a, nanos, coefficient) == self.exchange(a, b, nanos, coefficient),
    {
        assert forall|d: Direction|
            #[trigger] self.flow(a, d, nanos, coefficient) == (if d.step(a) == b {
                self.exchange(a, b, nanos, coefficient)
            } else {
                0
            }) by {}
    }

    /// One tick of an isolated pair of equal conductivity, in the stable
    /// range: the warmer cell stays the warmer one, and the gap between the
    /// two shrinks by four times the pairwise transfer, so it never grows and
    /// strictly shrinks whenever any heat moves at all.
    pub proof fn lemma_pair_step_contracts(
        self,
        a: (int, int),
        b: (int, int),
        nanos: nat,
        coefficient: int,
    )
        requires
            self.isolated_pair(a, b),
            self.cells[a].conductivity == self.cells[b].conductivity,
            stable(self.cells[a].conductivity.value as int, nanos, coefficient),
        ensures
            self.diffused(nanos, coefficient).isolated_pair(a, b),
            self.diffused(nanos, coefficient).cells[a].conductivity == self.cells[a].conductivity,
            self.diffused(nanos, coefficient).cells[b].conductivity == self.cells[b].conductivity,
            self.diffused(nanos, coefficient).gap(a, b) == self.gap(a, b) - 4 * transfer_amount(
                self.cells[a],
                self.cells[b],
                nanos,
                coefficient,
            ),
            self.gap(a, b) >= 0 ==> 0 <= self.diffused(nanos, coefficient).gap(a, b) <= self.gap(
                a,
                b,
            ),
            self.gap(a, b) <= 0 ==> self.gap(a, b) <= self.diffused(nanos, coefficient).gap(a, b)
                <= 0,
            transfer_amount(self.cells[a], self.cells[b], nanos, coefficient) != 0 ==> magnitude(
                self.diffused(nanos, coefficient).gap(a, b),
            ) < magnitude(self.gap(a, b)),
    {
        self.lemma_diffused_wf(nanos, coefficient);
        self.lemma_pair_net_delta(a, b, nanos, coefficient);
        self.lemma_pair_net_delta(b, a, nanos, coefficient);
        self.lemma_exchange_is_double_transfer(a, b, nanos, coefficient);
        lemma_stable_transfer(self.cells[a], self.cells[b], nanos, coefficient);
    }

    /// An isolated pair of equal conductivity, ticked again and again in the
    /// stable range, converges without oscillating: at every tick the warmer
    /// cell stays the warmer one and the gap between the two does not grow.
    pub proof fn lemma_pair_converges(
        self,
        a: (int, int),
        b: (int, int),
        ticks: nat,
        nanos: nat,
        coefficient: int,
    )
        requires
            self.isolated_pair(a, b),
            self.cells[a].conductivity == self.cells[b].conductivity,
            stable(self.cells[a].conductivity.value as int, nanos, coefficient),
        ensures
            self.diffused_times(ticks, nanos, coefficient).isolated_pair(a, b),
            self.diffused_times(ticks, nanos, coefficient).cells[a].conductivity
                == self.cells[a].conductivity,
            self.diffused_times(ticks, nanos, coefficient).cells[b].conductivity
                == self.cells[b].conductivity,
            self.gap(a, b) >= 0 ==> 0 <= self.diffused_times(ticks + 1, nanos, coefficient).gap(a, b)
                <= self.diffused_times(ticks, nanos, coefficient).gap(a, b) <= self.gap(a, b),
            self.gap(a, b) <= 0 ==> self.gap(a, b) <= self.diffused_times(
                ticks,
                nanos,
                coefficient,
            ).gap(a, b) <= self.diffused_times(ticks + 1, nanos, coefficient).gap(a, b) <= 0,
        decreases ticks,
    {
        let now = self.diffused_times(ticks, nanos, coefficient);
        if ticks > 0 {
            let earlier = self.diffused_times((ticks - 1) as nat, nanos, coefficient);
            self.lemma_pair_converges(a, b, (ticks - 1) as nat, nanos, coefficient);
            earlier.lemma_pair_step_contracts(a, b, nanos, coefficient);
        }
        now.lemma_pair_step_contracts(a, b, nanos, coefficient);
    }

    /// Whether `c` is one of the four corners of the grid.
    pub open spec fn is_corner(self, c: (int, int)) -> bool {
        &&& c.0 == 0 || c.0 == self.width - 1
        &&& c.1 == 0 || c.1 == self.height - 1
    }

    /// Whether `c` lies within the bounds and on none of the four edges.
    pub open spec fn is_interior(self, c: (int, int)) -> bool {
        &&& 1 <= c.0 <= self.width - 2
        &&& 1 <= c.1 <= self.height - 2
    }

    /// Whether the cell at `hot` is warmer than `cool`, the temperature of
    /// every other cell.
    pub open spec fn single_hot_cell(self, hot: (int, int), cool: int) -> bool {
        &&& self.cells[hot].temperature.value > cool
        &&& forall|c: (int, int)|
            self.in_bounds(c) && c != hot ==> (#[trigger] self.cells[c]).temperature.value == cool
    }

    /// In a full grid with a single hot interior cell among cells of one
    /// cooler temperature, one tick changes the temperature of each of the
    /// four face-adjacent neighbors of the hot cell and leaves every corner
    /// cell as it was: the neighbors change by strictly more than the
    /// corners. This holds wherever the transfer between the neighbor and the
    /// hot cell does not round to zero and the neighbor's temperature has
    /// room to move.
    pub proof fn lemma_boundary_asymmetry(
        self,
        hot: (int, int),
        cool: int,
        near: (int, int),
        corner: (int, int),
        nanos: nat,
        coefficient: int,
    )
        requires
            self.wf(),
            self.full(),
            self.width >= 3,
            self.height >= 3,
            self.is_interior(hot),
            self.single_hot_cell(hot, cool),
            Self::adjacent(hot, near),
            self.is_corner(corner),
            transfer_amount(self.cells[near], self.cells[hot], nanos, coefficient) != 0,
            transfer_amount(self.cells[near], self.cells[hot], nanos, coefficient) < 0 ==> cool
                > i64::MIN,
        ensures
            self.diffused(nanos, coefficient).cells[corner].temperature.value == cool,
            self.diffused(nanos, coefficient).cells[near].temperature.value != cool,
            magnitude(self.diffused(nanos, coefficient).cells[near].temperature.value - cool)
                > magnitude(self.diffused(nanos, coefficient).cells[corner].temperature.value - cool),
    {
        assert(self.in_bounds(corner));
        assert(self.in_bounds(near));
        assert(self.in_bounds(hot));
        assert forall|d: Direction| #[trigger]
            self.neighbor(corner, d) is Some implies self.cells[d.step(corner)].temperature.value
            == self.cells[corner].temperature.value by {}
        self.lemma_still_without_flow(corner, nanos, coefficient);
        let t = transfer_amount(self.cells[near], self.cells[hot], nanos, coefficient);
        assert forall|d: Direction|
            #[trigger] self.flow(near, d, nanos, coefficient) == (if d.step(near) == hot {
                2 * t
            } else {
                0
            }) by {
            if let Some(n) = self.neighbor(near, d) {
                if n == hot {
                    self.lemma_exchange_is_double_transfer(near, hot, nanos, coefficient);
                } else {
                    lemma_transfer_zero(self.cells[near], self.cells[n], nanos, coefficient);
                    lemma_transfer_zero(self.cells[n], self.cells[near], nanos, coefficient);
                }
            }
        }
    }
}

/// The stable range of the update for cells of the given conductivity:
/// conductivity and coefficient are not negative, and twice their product with
/// the time step does not exceed one.
pub open spec fn stable(conductivity: int, nanos: nat, coefficient: int) -> bool {
    &&& conductivity >= 0
    &&& coefficient >= 0
    &&& 2 * conductivity * coefficient * nanos <= SCALE * SCALE * NANOS_PER_SECOND
}

/// Between two cells of equal conductivity in the stable range, four times
/// the transfer lies between zero and the temperature gap.
proof fn lemma_stable_transfer(this: HeatCell, other: HeatCell, nanos: nat, coefficient: int)
    requires
        this.conductivity == other.conductivity,
        stable(this.conductivity.value as int, nanos, coefficient),
    ensures
        other.temperature.value - this.temperature.value >= 0 ==> 0 <= 4 * transfer_amount(
            this,
            other,
            nanos,
            coefficient,
        ) <= other.temperature.value - this.temperature.value,
        other.temperature.value - this.temperature.value <= 0 ==> other.temperature.value
            - this.temperature.value <= 4 * transfer_amount(this, other, nanos, coefficient) <= 0,
{
    reveal(transfer_amount);
    let k = this.conductivity.value as int;
    let gap = other.temperature.value - this.temperature.value;
    let rate = 2 * k * coefficient * nanos;
    let limit = SCALE * SCALE * NANOS_PER_SECOND;
    let divisor = TRANSFER_DIVISOR as int;
    let numerator = transfer_numerator(this, other, nanos, coefficient);
    assert(numerator == gap * rate) by (nonlinear_arith)
        requires
            numerator == (k + k) * gap * nanos * coefficient,
            rate == 2 * k * coefficient * nanos,
    ;
    assert(rate >= 0) by (nonlinear_arith)
        requires
            rate == 2 * k * coefficient * nanos,
            k >= 0,
            coefficient >= 0,
            nanos >= 0,
    ;
    let quotient = trunc_div(numerator, divisor);
    lemma_trunc_div_bounds(numerator, divisor);
    if gap >= 0 {
        assert(numerator >= 0 && numerator <= gap * limit) by (nonlinear_arith)
            requires
                numerator == gap * rate,
                0 <= rate <= limit,
                gap >= 0,
        ;
        assert(4 * quotient <= gap) by (nonlinear_arith)
            requires
                quotient * divisor <= numerator,
                numerator <= gap * limit,
                divisor == 4 * limit,
                limit > 0,
        ;
    } else {
        assert(numerator <= 0 && numerator >= gap * limit) by (nonlinear_arith)
            requires
                numerator == gap * rate,
                0 <= rate <= limit,
                gap <= 0,
        ;
        assert(4 * quotient >= gap) by (nonlinear_arith)
            requires
                quotient * divisor >= numerator,
                numerator >= gap * limit,
                divisor == 4 * limit,
                limit > 0,
        ;
    }
}

} // verus!
