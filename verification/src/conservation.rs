//! Conservation of heat: a diffusion step moves heat between cells and
//! neither creates nor destroys any, as long as no temperature saturates.
//!
//! The heat of a grid is the sum of the temperatures of its cells, taken slot
//! by slot in row-major order. The proof pairs every flow with the flow seen
//! from the other end of its adjacency: what a cell gains from the west is
//! what the cell before it loses to the east, and what it gains from the
//! south is what the cell one row below loses to the north.
use vstd::prelude::*;
use vstd::arithmetic::div_mod::{
    lemma_div_pos_is_pos, lemma_fundamental_div_mod, lemma_fundamental_div_mod_converse,
    lemma_mod_bound,
};
use crate::grid::{Direction, Grid, GridModel};

verus! {

impl GridModel {
    /// The coordinate of the slot with row-major index `i`.
    pub open spec fn coordinate(self, i: int) -> (int, int) {
        (i % (self.width as int), i / (self.width as int))
    }

    /// The temperature held in slot `i`; zero where the slot is vacant.
    pub open spec fn slot_heat(self, i: int) -> int {
        if self.occupied(self.coordinate(i)) {
            self.cells[self.coordinate(i)].temperature.value as int
        } else {
            0
        }
    }

    /// The sum of the temperatures in the first `n` slots.
    pub open spec fn heat_below(self, n: nat) -> int
        decreases n,
    {
        if n == 0 {
            0
        } else {
            self.heat_below((n - 1) as nat) + self.slot_heat(n - 1)
        }
    }

    /// The heat of the grid: the sum of the temperatures of all its cells.
    pub open spec fn total_heat(self) -> int {
        self.heat_below(self.width * self.height)
    }

    /// Whether a diffusion step leaves every temperature within the range of
    /// `i64`, so that nothing is lost to saturation.
    pub open spec fn unsaturated(self, nanos: nat, coefficient: int) -> bool {
        forall|c: (int, int)| #[trigger]
            self.cells.contains_key(c) ==> i64::MIN <= self.cells[c].temperature.value
                + self.net_delta(c, nanos, coefficient) <= i64::MAX
    }

    /// The slot with row-major index `y * width + x` has the coordinate
    /// `(x, y)`.
    pub proof fn lemma_coordinate_of_index(self, x: int, y: int)
        requires
            0 <= x < self.width,
        ensures
            self.coordinate(y * self.width + x) == (x, y),
    {
        lemma_fundamental_div_mod_converse(y * self.width + x, self.width as int, y, x);
    }

    /// Every slot has a coordinate within the bounds, and that coordinate has
    /// the slot's index.
    pub proof fn lemma_coordinate_in_bounds(self, i: int)
        requires
            self.wf(),
            0 <= i < self.width * self.height,
        ensures
            self.in_bounds(self.coordinate(i)),
            self.index(self.coordinate(i)) == i,
    {
        let w = self.width as int;
        let h = self.height as int;
        lemma_fundamental_div_mod(i, w);
        lemma_mod_bound(i, w);
        lemma_div_pos_is_pos(i, w);
        let q = i / w;
        let r = i % w;
        assert(w * q == q * w) by (nonlinear_arith);
        assert(q < h) by (nonlinear_arith)
            requires
                q * w + r == i,
                0 <= r,
                i < w * h,
                w > 0,
        ;
    }

    /// A diffusion step that saturates nowhere conserves heat: the sum of all
    /// temperatures is the same after the step as before it.
    pub proof fn lemma_heat_is_conserved(self, nanos: nat, coefficient: int)
        requires
            self.wf(),
            self.unsaturated(nanos, coefficient),
        ensures
            self.diffused(nanos, coefficient).total_heat() == self.total_heat(),
    {
        let slots = self.width * self.height;
        assert(slots >= self.width) by (nonlinear_arith)
            requires
                slots == self.width * self.height,
                self.height >= 1,
                self.width >= 1,
        ;
        lemma_heat_below_after(self, slots, nanos, coefficient);
        lemma_net_below_splits(self, slots, nanos, coefficient);
        lemma_west_below(self, slots, nanos, coefficient);
        lemma_south_below(self, slots, nanos, coefficient);
        lemma_last_slot_has_no_east(self, nanos, coefficient);
        lemma_north_below_top(self, slots, nanos, coefficient);
    }
}

/// The sum over the first `n` slots of what each gains from direction `d`.
spec fn flow_below(m: GridModel, d: Direction, n: nat, nanos: nat, coefficient: int) -> int
    decreases n,
{
    if n == 0 {
        0
    } else {
        flow_below(m, d, (n - 1) as nat, nanos, coefficient) + m.flow(
            m.coordinate(n - 1),
            d,
            nanos,
            coefficient,
        )
    }
}

/// The sum of the net deltas of the first `n` slots.
spec fn net_below(m: GridModel, n: nat, nanos: nat, coefficient: int) -> int
    decreases n,
{
    if n == 0 {
        0
    } else {
        net_below(m, (n - 1) as nat, nanos, coefficient) + m.net_delta(
            m.coordinate(n - 1),
            nanos,
            coefficient,
        )
    }
}

/// The net deltas add up direction by direction.
proof fn lemma_net_below_splits(m: GridModel, n: nat, nanos: nat, coefficient: int)
    ensures
        net_below(m, n, nanos, coefficient) == flow_below(m, Direction::East, n, nanos, coefficient)
            + flow_below(m, Direction::North, n, nanos, coefficient) + flow_below(
            m,
            Direction::West,
            n,
            nanos,
            coefficient,
        ) + flow_below(m, Direction::South, n, nanos, coefficient),
    decreases n,
{
    if n > 0 {
        lemma_net_below_splits(m, (n - 1) as nat, nanos, coefficient);
    }
}

/// After an unsaturated step, the heat in the first `n` slots has grown by
/// the sum of their net deltas.
proof fn lemma_heat_below_after(m: GridModel, n: nat, nanos: nat, coefficient: int)
    requires
        m.wf(),
        m.unsaturated(nanos, coefficient),
        n <= m.width * m.height,
    ensures
        m.diffused(nanos, coefficient).heat_below(n) == m.heat_below(n) + net_below(
            m,
            n,
            nanos,
            coefficient,
        ),
    decreases n,
{
    if n > 0 {
        lemma_heat_below_after(m, (n - 1) as nat, nanos, coefficient);
    }
}

/// What a slot gains from the west is what the slot before it loses to the
/// east; the first slot gains nothing from the west.
proof fn lemma_west_mirrors_east(m: GridModel, i: int, nanos: nat, coefficient: int)
    requires
        m.wf(),
        0 <= i < m.width * m.height,
    ensures
        i > 0 ==> m.flow(m.coordinate(i), Direction::West, nanos, coefficient) == -m.flow(
            m.coordinate(i - 1),
            Direction::East,
            nanos,
            coefficient,
        ),
        i == 0 ==> m.flow(m.coordinate(i), Direction::West, nanos, coefficient) == 0,
{
    let w = m.width as int;
    let c = m.coordinate(i);
    m.lemma_coordinate_in_bounds(i);
    if c.0 >= 1 {
        let p = (c.0 - 1, c.1);
        m.lemma_coordinate_of_index(c.0 - 1, c.1);
        m.lemma_exchange_is_double_transfer(c, p, nanos, coefficient);
    } else {
        assert(!m.in_bounds(Direction::West.step(c)));
        if i > 0 {
            assert(c.1 >= 1) by (nonlinear_arith)
                requires
                    i == c.1 * w + c.0,
                    c.0 == 0,
                    i > 0,
                    w > 0,
            ;
            assert(i - 1 == (c.1 - 1) * w + (w - 1)) by (nonlinear_arith)
                requires
                    i == c.1 * w + c.0,
                    c.0 == 0,
            ;
            m.lemma_coordinate_of_index(w - 1, c.1 - 1);
            let p = m.coordinate(i - 1);
            assert(!m.in_bounds(Direction::East.step(p)));
        }
    }
}

/// The flows from the west over the first `n` slots cancel the flows to the
/// east over the first `n - 1`.
proof fn lemma_west_below(m: GridModel, n: nat, nanos: nat, coefficient: int)
    requires
        m.wf(),
        n <= m.width * m.height,
    ensures
        n > 0 ==> flow_below(m, Direction::West, n, nanos, coefficient) == -flow_below(
            m,
            Direction::East,
            (n - 1) as nat,
            nanos,
            coefficient,
        ),
    decreases n,
{
    if n > 0 {
        lemma_west_below(m, (n - 1) as nat, nanos, coefficient);
        lemma_west_mirrors_east(m, n - 1, nanos, coefficient);
        if n == 1 {
            assert(flow_below(m, Direction::West, 0, nanos, coefficient) == 0);
        }
    }
}

/// The last slot lies on the east edge and loses nothing to the east.
proof fn lemma_last_slot_has_no_east(m: GridModel, nanos: nat, coefficient: int)
    requires
        m.wf(),
    ensures
        m.width * m.height > 0,
        m.flow(
            m.coordinate(m.width * m.height - 1),
            Direction::East,
            nanos,
            coefficient,
        ) == 0,
{
    let w = m.width as int;
    let h = m.height as int;
    assert(w * h - 1 == (h - 1) * w + (w - 1)) by (nonlinear_arith);
    assert(w * h > 0) by (nonlinear_arith)
        requires
            w > 0,
            h > 0,
    ;
    m.lemma_coordinate_of_index(w - 1, h - 1);
    let c = m.coordinate(w * h - 1);
    assert(!m.in_bounds(Direction::East.step(c)));
}

/// What a slot gains from the south is what the slot one row below loses to
/// the north; the slots of the bottom row gain nothing from the south.
proof fn lemma_south_mirrors_north(m: GridModel, i: int, nanos: nat, coefficient: int)
    requires
        m.wf(),
        0 <= i < m.width * m.height,
    ensures
        i >= m.width ==> m.flow(m.coordinate(i), Direction::South, nanos, coefficient) == -m.flow(
            m.coordinate(i - m.width),
            Direction::North,
            nanos,
            coefficient,
        ),
        i < m.width ==> m.flow(m.coordinate(i), Direction::South, nanos, coefficient) == 0,
{
    let w = m.width as int;
    let c = m.coordinate(i);
    m.lemma_coordinate_in_bounds(i);
    if c.1 >= 1 {
        let p = (c.0, c.1 - 1);
        assert(i - w == (c.1 - 1) * w + c.0) by (nonlinear_arith)
            requires
                i == c.1 * w + c.0,
        ;
        assert(i >= w) by (nonlinear_arith)
            requires
                i == c.1 * w + c.0,
                c.1 >= 1,
                c.0 >= 0,
                w > 0,
        ;
        m.lemma_coordinate_of_index(c.0, c.1 - 1);
        m.lemma_exchange_is_double_transfer(c, p, nanos, coefficient);
    } else {
        assert(i < w) by (nonlinear_arith)
            requires
                i == c.1 * w + c.0,
                c.1 == 0,
                c.0 < w,
        ;
        assert(!m.in_bounds(Direction::South.step(c)));
    }
}

/// The flows from the south over the first `n` slots cancel the flows to the
/// north over the first `n - width`.
proof fn lemma_south_below(m: GridModel, n: nat, nanos: nat, coefficient: int)
    requires
        m.wf(),
        n <= m.width * m.height,
    ensures
        n >= m.width ==> flow_below(m, Direction::South, n, nanos, coefficient) == -flow_below(
            m,
            Direction::North,
            (n - m.width) as nat,
            nanos,
            coefficient,
        ),
        n < m.width ==> flow_below(m, Direction::South, n, nanos, coefficient) == 0,
    decreases n,
{
    if n > 0 {
        lemma_south_below(m, (n - 1) as nat, nanos, coefficient);
        lemma_south_mirrors_north(m, n - 1, nanos, coefficient);
    }
}

/// The slots of the top row lose nothing to the north, so the flows to the
/// north over the first `n` slots are those over all slots below the top row.
proof fn lemma_north_below_top(m: GridModel, n: nat, nanos: nat, coefficient: int)
    requires
        m.wf(),
        m.width * m.height - m.width <= n <= m.width * m.height,
    ensures
        flow_below(m, Direction::North, n, nanos, coefficient) == flow_below(
            m,
            Direction::North,
            (m.width * m.height - m.width) as nat,
            nanos,
            coefficient,
        ),
    decreases n,
{
    let w = m.width as int;
    let h = m.height as int;
    let slots = m.width * m.height;
    assert(slots >= w) by (nonlinear_arith)
        requires
            slots == w * h,
            w >= 1,
            h >= 1,
    ;
    if n > slots - w {
        lemma_north_below_top(m, (n - 1) as nat, nanos, coefficient);
        let i = n - 1;
        let c = m.coordinate(i);
        m.lemma_coordinate_in_bounds(i);
        assert(c.1 == h - 1) by (nonlinear_arith)
            requires
                i == c.1 * w + c.0,
                0 <= c.0 < w,
                0 <= c.1 < h,
                i >= slots - w,
                slots == w * h,
        ;
        assert(!m.in_bounds(Direction::North.step(c)));
    }
}

impl Grid {
    /// The heat of the grid: the sum of the temperatures of all its cells, in
    /// thousandths of a degree.
    pub fn total_heat(&self) -> (heat: i128)
        ensures
            heat == self@.total_heat(),
    {
        let width = self.width();
        let height = self.height();
        let slots = self.slots();
        let ghost m = self@;
        let mut heat: i128 = 0;
        let mut counted: usize = 0;
        let mut y: u32 = 0;
        while y < height
            invariant
                m == self@,
                m.wf(),
                width == m.width,
                height == m.height,
                slots == m.width * m.height,
                y <= height,
                counted == y * width,
                heat == m.heat_below(counted as nat),
                -(counted * 0x8000_0000_0000_0000) <= heat <= counted * 0x8000_0000_0000_0000,
            decreases height - y,
        {
            let mut x: u32 = 0;
            while x < width
                invariant
                    m == self@,
                    m.wf(),
                    width == m.width,
                    height == m.height,
                    slots == m.width * m.height,
                    y < height,
                    x <= width,
                    counted == y * width + x,
                    heat == m.heat_below(counted as nat),
                    -(counted * 0x8000_0000_0000_0000) <= heat <= counted * 0x8000_0000_0000_0000,
                decreases width - x,
            {
                proof {
                    crate::grid::lemma_index_in_range(
                        width as int,
                        height as int,
                        x as int,
                        y as int,
                    );
                    m.lemma_coordinate_of_index(x as int, y as int);
                }
                match self.temperature(x, y) {
                    Some(value) => {
                        heat = heat + value as i128;
                    },
                    None => {},
                }
                counted = counted + 1;
                x += 1;
            }
            proof {
                assert((y + 1) * width == y * width + width) by (nonlinear_arith);
            }
            y += 1;
        }
        proof {
            assert(counted == slots) by (nonlinear_arith)
                requires
                    counted == y * width,
                    y == height,
                    slots == width * height,
            ;
        }
        heat
    }
}

} // verus!
