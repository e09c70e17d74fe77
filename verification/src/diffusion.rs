//! The diffusion step: one tick of heat transfer over a whole grid.
//!
//! A step runs in two phases. *Gather* visits every cell as the self role
//! and, for each of its neighbors, adds the two deltas of the pairwise
//! transfer law to an accumulator, one entry per slot; every transfer reads
//! the temperatures as they were before the tick. *Apply* then adds each
//! accumulator entry to the temperature of its cell.
//!
//! Every adjacency is therefore evaluated twice per tick, once from each end,
//! each time with the halved flow of the transfer law; the two visits
//! together move one full, non-halved transfer across the adjacency (see
//! [`GridModel::lemma_exchange_is_double_transfer`]). This is the intended
//! behaviour of this crate, not an accident of the traversal.
use vstd::prelude::*;
use std::time::Duration;
use crate::clock::SimulationRate;
use crate::grid::{lemma_index_injective, lemma_index_in_range, Direction, Grid, GridModel};
use crate::temperature::{
    heat_transfer, lemma_transfer_amount_bounded, transfer_amount, HeatCell, Temperature,
};
use crate::time::duration_nanos;
use crate::units::{clamp_i64, saturating_offset};

verus! {

/// The transfer coefficient of the simulation, one half, in thousandths. It is
/// a design constant and not configurable at run time.
pub const TRANSFER_COEFFICIENT: i64 = 500;

impl GridModel {
    /// The heat that the cell at `c` gains in one tick across its adjacency
    /// with the cell at `n`: what the transfer law gives it when `c` is
    /// visited as self, and what it gives it when `n` is.
    pub open spec fn exchange(self, c: (int, int), n: (int, int), nanos: nat, coefficient: int) -> int {
        transfer_amount(self.cells[c], self.cells[n], nanos, coefficient) - transfer_amount(
            self.cells[n],
            self.cells[c],
            nanos,
            coefficient,
        )
    }

    /// The heat that the cell at `c` gains in one tick from direction `d`;
    /// zero where it has no neighbor there.
    pub open spec fn flow(self, c: (int, int), d: Direction, nanos: nat, coefficient: int) -> int {
        match self.neighbor(c, d) {
            Some(n) => self.exchange(c, n, nanos, coefficient),
            None => 0,
        }
    }

    /// The net heat that the cell at `c` gains in one tick: the sum of what it
    /// exchanges with each of its neighbors.
    pub open spec fn net_delta(self, c: (int, int), nanos: nat, coefficient: int) -> int {
        self.flow(c, Direction::East, nanos, coefficient) + self.flow(
            c,
            Direction::North,
            nanos,
            coefficient,
        ) + self.flow(c, Direction::West, nanos, coefficient) + self.flow(
            c,
            Direction::South,
            nanos,
            coefficient,
        )
    }

    /// The cell at `c` after one tick: its temperature has moved by the net
    /// delta, saturating at the bounds of `i64`; its conductivity is
    /// unchanged.
    pub open spec fn diffused_cell(self, c: (int, int), nanos: nat, coefficient: int) -> HeatCell {
        HeatCell {
            temperature: Temperature {
                value: clamp_i64(
                    self.cells[c].temperature.value + self.net_delta(c, nanos, coefficient),
                ) as i64,
            },
            conductivity: self.cells[c].conductivity,
        }
    }

    /// The grid after one diffusion step of `nanos` nanoseconds: the same
    /// dimensions, the same occupied coordinates, and every cell updated from
    /// the temperatures before the step.
    pub open spec fn diffused(self, nanos: nat, coefficient: int) -> GridModel {
        GridModel {
            width: self.width,
            height: self.height,
            cells: Map::new(
                |c: (int, int)| self.occupied(c),
                |c: (int, int)| self.diffused_cell(c, nanos, coefficient),
            ),
        }
    }

    /// The grid after `ticks` diffusion steps of `nanos` nanoseconds each.
    pub open spec fn diffused_times(self, ticks: nat, nanos: nat, coefficient: int) -> GridModel
        decreases ticks,
    {
        if ticks == 0 {
            self
        } else {
            self.diffused_times((ticks - 1) as nat, nanos, coefficient).diffused(nanos, coefficient)
        }
    }
}

impl GridModel {
    /// A diffusion step keeps a grid well formed: the dimensions and the
    /// occupied coordinates stay as they are.
    pub proof fn lemma_diffused_wf(self, nanos: nat, coefficient: int)
        requires
            self.wf(),
        ensures
            self.diffused(nanos, coefficient).wf(),
            self.diffused(nanos, coefficient).cells.dom() == self.cells.dom(),
    {
        let after = self.diffused(nanos, coefficient);
        assert forall|c: (int, int)| after.cells.contains_key(c) implies after.in_bounds(c) by {
            assert(self.in_bounds(c));
        }
    }
}

/// Whether `a` comes before `cursor` in row-major order.
spec fn before(a: (int, int), cursor: (int, int)) -> bool {
    a.1 < cursor.1 || (a.1 == cursor.1 && a.0 < cursor.0)
}

/// Whether gather has already handled the cell at `a` as self toward
/// direction `d`, when it stands at `cursor` with `done` directions of that
/// cell behind it.
spec fn visited(a: (int, int), d: Direction, cursor: (int, int), done: int) -> bool {
    before(a, cursor) || (a == cursor && d.rank() < done)
}

/// The part of `flow(c, d)` that gather has accumulated so far.
spec fn partial_flow(
    m: GridModel,
    c: (int, int),
    d: Direction,
    cursor: (int, int),
    done: int,
    nanos: nat,
    coefficient: int,
) -> int {
    match m.neighbor(c, d) {
        Some(n) => (if visited(c, d, cursor, done) {
            transfer_amount(m.cells[c], m.cells[n], nanos, coefficient)
        } else {
            0
        }) + (if visited(n, d.reversed(), cursor, done) {
            -transfer_amount(m.cells[n], m.cells[c], nanos, coefficient)
        } else {
            0
        }),
        None => 0,
    }
}

/// The part of `net_delta(c)` that gather has accumulated so far.
spec fn partial_delta(
    m: GridModel,
    c: (int, int),
    cursor: (int, int),
    done: int,
    nanos: nat,
    coefficient: int,
) -> int {
    partial_flow(m, c, Direction::East, cursor, done, nanos, coefficient) + partial_flow(
        m,
        c,
        Direction::North,
        cursor,
        done,
        nanos,
        coefficient,
    ) + partial_flow(m, c, Direction::West, cursor, done, nanos, coefficient) + partial_flow(
        m,
        c,
        Direction::South,
        cursor,
        done,
        nanos,
        coefficient,
    )
}

/// The accumulator holds, for every slot, what gather has accumulated so far.
spec fn gathered(
    m: GridModel,
    acc: Seq<i128>,
    cursor: (int, int),
    done: int,
    nanos: nat,
    coefficient: int,
) -> bool {
    &&& acc.len() == m.width * m.height
    &&& forall|c: (int, int)|
        m.in_bounds(c) ==> acc[#[trigger] m.index(c)] == partial_delta(
            m,
            c,
            cursor,
            done,
            nanos,
            coefficient,
        )
}

/// What the cell at `c` gains when it is visited as self toward `d`.
spec fn sent(m: GridModel, c: (int, int), d: Direction, nanos: nat, coefficient: int) -> int {
    match m.neighbor(c, d) {
        Some(n) => transfer_amount(m.cells[c], m.cells[n], nanos, coefficient),
        None => 0,
    }
}

/// What the cell at `c` gains when the cell at `from` is visited as self
/// toward `d`.
spec fn received(
    m: GridModel,
    c: (int, int),
    from: (int, int),
    d: Direction,
    nanos: nat,
    coefficient: int,
) -> int {
    if m.neighbor(from, d) == Some(c) {
        -transfer_amount(m.cells[from], m.cells[c], nanos, coefficient)
    } else {
        0
    }
}

/// One visit changes one direction's share of a cell's accumulated delta by
/// what that visit hands to the cell.
proof fn lemma_partial_flow_step(
    m: GridModel,
    c: (int, int),
    slot: Direction,
    cursor: (int, int),
    d: Direction,
    nanos: nat,
    coefficient: int,
)
    ensures
        partial_flow(m, c, slot, cursor, d.rank() + 1, nanos, coefficient) == partial_flow(
            m,
            c,
            slot,
            cursor,
            d.rank(),
            nanos,
            coefficient,
        ) + (if c == cursor && slot == d {
            sent(m, cursor, d, nanos, coefficient)
        } else {
            0
        }) + (if slot == d.reversed() {
            received(m, c, cursor, d, nanos, coefficient)
        } else {
            0
        }),
{
}

/// One visit changes a cell's accumulated delta by what that visit hands to
/// the cell: the first delta of the transfer to the visited cell, the second
/// to its neighbor, nothing to anyone else.
proof fn lemma_partial_delta_step(
    m: GridModel,
    c: (int, int),
    cursor: (int, int),
    d: Direction,
    nanos: nat,
    coefficient: int,
)
    ensures
        partial_delta(m, c, cursor, d.rank() + 1, nanos, coefficient) == partial_delta(
            m,
            c,
            cursor,
            d.rank(),
            nanos,
            coefficient,
        ) + (if c == cursor {
            sent(m, cursor, d, nanos, coefficient)
        } else {
            0
        }) + received(m, c, cursor, d, nanos, coefficient),
{
    lemma_partial_flow_step(m, c, Direction::East, cursor, d, nanos, coefficient);
    lemma_partial_flow_step(m, c, Direction::North, cursor, d, nanos, coefficient);
    lemma_partial_flow_step(m, c, Direction::West, cursor, d, nanos, coefficient);
    lemma_partial_flow_step(m, c, Direction::South, cursor, d, nanos, coefficient);
}

/// What gather has accumulated for a cell is a sum of at most eight
/// transfers.
proof fn lemma_partial_delta_bounded(
    m: GridModel,
    c: (int, int),
    cursor: (int, int),
    done: int,
    nanos: nat,
    coefficient: int,
)
    ensures
        -8 * (i64::MAX as int) <= partial_delta(m, c, cursor, done, nanos, coefficient) <= 8 * (
        i64::MAX as int),
{
    lemma_partial_flow_bounded(m, c, Direction::East, cursor, done, nanos, coefficient);
    lemma_partial_flow_bounded(m, c, Direction::North, cursor, done, nanos, coefficient);
    lemma_partial_flow_bounded(m, c, Direction::West, cursor, done, nanos, coefficient);
    lemma_partial_flow_bounded(m, c, Direction::South, cursor, done, nanos, coefficient);
}

/// One direction's share of an accumulated delta is a sum of at most two
/// transfers.
proof fn lemma_partial_flow_bounded(
    m: GridModel,
    c: (int, int),
    slot: Direction,
    cursor: (int, int),
    done: int,
    nanos: nat,
    coefficient: int,
)
    ensures
        -2 * (i64::MAX as int) <= partial_flow(m, c, slot, cursor, done, nanos, coefficient) <= 2
            * (i64::MAX as int),
{
    let n = slot.step(c);
    lemma_transfer_amount_bounded(m.cells[c], m.cells[n], nanos, coefficient);
    lemma_transfer_amount_bounded(m.cells[n], m.cells[c], nanos, coefficient);
}

/// An accumulator of one zero per slot.
fn zeroed(slots: usize) -> (acc: Vec<i128>)
    ensures
        acc.len() == slots,
        forall|i: int| 0 <= i < slots ==> acc[i] == 0,
{
    let mut acc: Vec<i128> = Vec::new();
    let mut filled: usize = 0;
    while filled < slots
        invariant
            filled <= slots,
            acc.len() == filled,
            forall|i: int| 0 <= i < filled ==> acc[i] == 0,
        decreases slots - filled,
    {
        acc.push(0);
        filled += 1;
    }
    acc
}

/// One visit of gather: the cell at `(x, y)` as self, toward one direction.
fn gather_direction(
    grid: &Grid,
    acc: &mut Vec<i128>,
    x: u32,
    y: u32,
    direction: Direction,
    nanos: u128,
    coefficient: i64,
)
    requires
        grid@.wf(),
        grid@.in_bounds((x as int, y as int)),
        gathered(grid@, old(acc)@, (x as int, y as int), direction.rank(), nanos as nat, coefficient as int),
    ensures
        gathered(
            grid@,
            final(acc)@,
            (x as int, y as int),
            direction.rank() + 1,
            nanos as nat,
            coefficient as int,
        ),
{
    let ghost m = grid@;
    let ghost cursor = (x as int, y as int);
    let ghost done = direction.rank();
    match grid.neighbor(x, y, direction) {
        None => {
            proof {
                assert forall|c: (int, int)| m.in_bounds(c) implies acc@[#[trigger] m.index(c)]
                    == partial_delta(m, c, cursor, done + 1, nanos as nat, coefficient as int) by {
                    lemma_partial_delta_step(m, c, cursor, direction, nanos as nat, coefficient as int);
                }
            }
        },
        Some((nx, ny)) => {
            let ghost n = (nx as int, ny as int);
            let this = grid.cell(x, y).unwrap();
            let other = grid.cell(nx, ny).unwrap();
            let deltas = heat_transfer(&this, &other, nanos, coefficient);
            let i = grid.index(x, y).unwrap();
            let j = grid.index(nx, ny).unwrap();
            proof {
                lemma_partial_delta_bounded(m, cursor, cursor, done, nanos as nat, coefficient as int);
                lemma_partial_delta_bounded(m, n, cursor, done, nanos as nat, coefficient as int);
            }
            let mine = acc[i] + deltas.0 as i128;
            acc.set(i, mine);
            let theirs = acc[j] + deltas.1 as i128;
            acc.set(j, theirs);
            proof {
                assert forall|c: (int, int)| m.in_bounds(c) implies acc@[#[trigger] m.index(c)]
                    == partial_delta(m, c, cursor, done + 1, nanos as nat, coefficient as int) by {
                    lemma_index_in_range(m.width as int, m.height as int, c.0, c.1);
                    if m.index(c) == i {
                        lemma_index_injective(m.width as int, c.0, c.1, cursor.0, cursor.1);
                    }
                    if m.index(c) == j {
                        lemma_index_injective(m.width as int, c.0, c.1, n.0, n.1);
                    }
                    lemma_partial_delta_step(m, c, cursor, direction, nanos as nat, coefficient as int);
                }
            }
        },
    }
}

/// Once gather has passed every cell, what it has accumulated for a cell is
/// the cell's net delta.
proof fn lemma_partial_delta_complete(
    m: GridModel,
    c: (int, int),
    nanos: nat,
    coefficient: int,
)
    requires
        m.wf(),
        m.in_bounds(c),
    ensures
        partial_delta(m, c, (0, m.height as int), 0, nanos, coefficient) == m.net_delta(
            c,
            nanos,
            coefficient,
        ),
{
    let end = (0int, m.height as int);
    assert forall|d: Direction|
        partial_flow(m, c, d, end, 0, nanos, coefficient) == #[trigger] m.flow(
            c,
            d,
            nanos,
            coefficient,
        ) by {
        if let Some(n) = m.neighbor(c, d) {
            assert(m.in_bounds(n));
        }
    }
}

/// Before gather has visited anything, it has accumulated nothing.
proof fn lemma_partial_delta_initial(m: GridModel, c: (int, int), nanos: nat, coefficient: int)
    requires
        m.wf(),
        m.in_bounds(c),
    ensures
        partial_delta(m, c, (0, 0), 0, nanos, coefficient) == 0,
{
    assert forall|d: Direction| partial_flow(m, c, d, (0, 0), 0, nanos, coefficient) == 0 by {
        if let Some(n) = m.neighbor(c, d) {
            assert(m.in_bounds(n));
        }
    }
}

/// Moving the cursor changes nothing by itself, as long as the same visits
/// lie behind it.
proof fn lemma_partial_delta_cursor(
    m: GridModel,
    c: (int, int),
    from: (int, int),
    from_done: int,
    to: (int, int),
    nanos: nat,
    coefficient: int,
)
    requires
        m.wf(),
        forall|a: (int, int), d: Direction|
            m.in_bounds(a) ==> #[trigger] visited(a, d, from, from_done) == visited(a, d, to, 0),
    ensures
        partial_delta(m, c, from, from_done, nanos, coefficient) == partial_delta(
            m,
            c,
            to,
            0,
            nanos,
            coefficient,
        ),
{
    assert forall|d: Direction|
        partial_flow(m, c, d, from, from_done, nanos, coefficient) == partial_flow(
            m,
            c,
            d,
            to,
            0,
            nanos,
            coefficient,
        ) by {
        if let Some(n) = m.neighbor(c, d) {
            assert(m.in_bounds(n));
        }
    }
}

/// The gather phase: the net delta of every cell, computed from the grid as
/// it stands, one accumulator entry per slot in row-major order.
fn gather(grid: &Grid, nanos: u128, coefficient: i64) -> (acc: Vec<i128>)
    ensures
        grid@.wf(),
        acc.len() == grid@.width * grid@.height,
        forall|c: (int, int)|
            grid@.in_bounds(c) ==> acc[#[trigger] grid@.index(c)] == grid@.net_delta(
                c,
                nanos as nat,
                coefficient as int,
            ),
{
    let width = grid.width();
    let height = grid.height();
    let ghost m = grid@;
    let mut acc = zeroed(grid.slots());
    proof {
        assert forall|c: (int, int)| m.in_bounds(c) implies acc@[#[trigger] m.index(c)]
            == partial_delta(m, c, (0, 0), 0, nanos as nat, coefficient as int) by {
            lemma_index_in_range(m.width as int, m.height as int, c.0, c.1);
            lemma_partial_delta_initial(m, c, nanos as nat, coefficient as int);
        }
    }
    let mut y: u32 = 0;
    while y < height
        invariant
            m == grid@,
            m.wf(),
            width == m.width,
            height == m.height,
            y <= height,
            gathered(m, acc@, (0, y as int), 0, nanos as nat, coefficient as int),
        decreases height - y,
    {
        let mut x: u32 = 0;
        while x < width
            invariant
                m == grid@,
                m.wf(),
                width == m.width,
                height == m.height,
                y < height,
                x <= width,
                gathered(m, acc@, (x as int, y as int), 0, nanos as nat, coefficient as int),
            decreases width - x,
        {
            gather_direction(grid, &mut acc, x, y, Direction::East, nanos, coefficient);
            gather_direction(grid, &mut acc, x, y, Direction::North, nanos, coefficient);
            gather_direction(grid, &mut acc, x, y, Direction::West, nanos, coefficient);
            gather_direction(grid, &mut acc, x, y, Direction::South, nanos, coefficient);
            proof {
                assert forall|c: (int, int)| m.in_bounds(c) implies acc@[#[trigger] m.index(c)]
                    == partial_delta(
                    m,
                    c,
                    (x + 1, y as int),
                    0,
                    nanos as nat,
                    coefficient as int,
                ) by {
                    lemma_partial_delta_cursor(
                        m,
                        c,
                        (x as int, y as int),
                        4,
                        (x + 1, y as int),
                        nanos as nat,
                        coefficient as int,
                    );
                }
            }
            x += 1;
        }
        proof {
            assert forall|c: (int, int)| m.in_bounds(c) implies acc@[#[trigger] m.index(c)]
                == partial_delta(m, c, (0, y + 1), 0, nanos as nat, coefficient as int) by {
                lemma_partial_delta_cursor(
                    m,
                    c,
                    (width as int, y as int),
                    0,
                    (0, y + 1),
                    nanos as nat,
                    coefficient as int,
                );
            }
        }
        y += 1;
    }
    proof {
        assert forall|c: (int, int)| m.in_bounds(c) implies acc@[#[trigger] m.index(c)]
            == m.net_delta(c, nanos as nat, coefficient as int) by {
            lemma_partial_delta_complete(m, c, nanos as nat, coefficient as int);
        }
    }
    acc
}

/// What the apply phase has made of the cell at `c` when it stands at
/// `cursor`: cells before the cursor have their new temperature, the others
/// still their old one.
spec fn applied_cell(
    m: GridModel,
    c: (int, int),
    cursor: (int, int),
    nanos: nat,
    coefficient: int,
) -> HeatCell {
    if before(c, cursor) {
        m.diffused_cell(c, nanos, coefficient)
    } else {
        m.cells[c]
    }
}

/// The grid in the middle of the apply phase.
spec fn applied(
    m: GridModel,
    now: GridModel,
    cursor: (int, int),
    nanos: nat,
    coefficient: int,
) -> bool {
    &&& now.wf()
    &&& now.width == m.width
    &&& now.height == m.height
    &&& now.cells.dom() == m.cells.dom()
    &&& forall|c: (int, int)| #[trigger]
        m.cells.contains_key(c) ==> now.cells[c] == applied_cell(m, c, cursor, nanos, coefficient)
}

/// The apply phase: adds every accumulator entry to the temperature of its
/// cell.
fn apply(grid: &mut Grid, acc: &Vec<i128>, nanos: Ghost<nat>, coefficient: Ghost<int>)
    requires
        old(grid)@.wf(),
        acc.len() == old(grid)@.width * old(grid)@.height,
        forall|c: (int, int)|
            old(grid)@.in_bounds(c) ==> acc[#[trigger] old(grid)@.index(c)] == old(grid)@.net_delta(
                c,
                nanos@,
                coefficient@,
            ),
    ensures
        final(grid)@ == old(grid)@.diffused(nanos@, coefficient@),
{
    let ghost m = grid@;
    let width = grid.width();
    let height = grid.height();
    let mut y: u32 = 0;
    proof {
        assert forall|c: (int, int)| #[trigger] m.cells.contains_key(c) implies grid@.cells[c]
            == applied_cell(m, c, (0, 0), nanos@, coefficient@) by {
            assert(m.in_bounds(c));
        }
    }
    while y < height
        invariant
            m.wf(),
            width == m.width,
            height == m.height,
            y <= height,
            acc.len() == m.width * m.height,
            forall|c: (int, int)|
                m.in_bounds(c) ==> acc[#[trigger] m.index(c)] == m.net_delta(
                    c,
                    nanos@,
                    coefficient@,
                ),
            applied(m, grid@, (0, y as int), nanos@, coefficient@),
        decreases height - y,
    {
        let mut x: u32 = 0;
        while x < width
            invariant
                m.wf(),
                width == m.width,
                height == m.height,
                y < height,
                x <= width,
                acc.len() == m.width * m.height,
                forall|c: (int, int)|
                    m.in_bounds(c) ==> acc[#[trigger] m.index(c)] == m.net_delta(
                        c,
                        nanos@,
                        coefficient@,
                    ),
                applied(m, grid@, (x as int, y as int), nanos@, coefficient@),
            decreases width - x,
        {
            match grid.cell(x, y) {
                Some(cell) => {
                    let i = grid.index(x, y).unwrap();
                    assert(i == m.index((x as int, y as int)));
                    let updated = HeatCell {
                        temperature: Temperature {
                            value: saturating_offset(cell.temperature.value, acc[i]),
                        },
                        conductivity: cell.conductivity,
                    };
                    grid.set_cell(x, y, updated);
                    proof {
                        assert(grid@.cells.dom() =~= m.cells.dom());
                    }
                },
                None => {},
            }
            x += 1;
        }
        proof {
            assert forall|c: (int, int)| #[trigger] m.cells.contains_key(c) implies grid@.cells[c]
                == applied_cell(m, c, (0, y + 1), nanos@, coefficient@) by {
                assert(m.in_bounds(c));
            }
        }
        y += 1;
    }
    proof {
        let target = m.diffused(nanos@, coefficient@);
        assert forall|c: (int, int)| #[trigger] target.cells.contains_key(c) implies grid@.cells[c]
            == target.cells[c] by {
            assert(m.in_bounds(c));
        }
        assert(grid@.cells =~= target.cells);
    }
}

impl Grid {
    /// One diffusion step over a time step of `nanos` nanoseconds, at the
    /// given coefficient in thousandths.
    ///
    /// Every cell's temperature moves by the net of what the transfer law
    /// moves across its adjacencies, all of it computed from the temperatures
    /// before the step; conductivities, vacant slots and the dimensions stay
    /// as they are.
    pub fn diffuse_nanos(&mut self, nanos: u128, coefficient: i64)
        ensures
            old(self)@.wf(),
            final(self)@ == old(self)@.diffused(nanos as nat, coefficient as int),
            nanos == 0 ==> final(self)@ == old(self)@,
    {
        let acc = gather(self, nanos, coefficient);
        proof {
            if nanos == 0 {
                self@.lemma_zero_time_is_identity(coefficient as int);
            }
        }
        apply(self, &acc, Ghost(nanos as nat), Ghost(coefficient as int));
    }

    /// One diffusion step over the time step `dt`, at the given coefficient
    /// in thousandths.
    pub fn diffuse(&mut self, dt: Duration, coefficient: i64)
        ensures
            old(self)@.wf(),
            final(self)@ == old(self)@.diffused(duration_nanos(dt), coefficient as int),
    {
        self.diffuse_nanos(dt.as_nanos(), coefficient);
    }
}

/// One frame of the simulation, for a frame time given in nanoseconds: feeds
/// the frame time to the clock and, if a step is due, runs one diffusion step
/// over that frame time at [`TRANSFER_COEFFICIENT`]. Returns whether a step
/// ran.
pub fn thermal_conduction_nanos(grid: &mut Grid, simulation_rate: &mut SimulationRate, nanos: u128) -> (fired: bool)
    ensures
        fired == old(simulation_rate).rate.ticked(nanos as nat).is_due(),
        final(simulation_rate).rate == old(simulation_rate).rate.ticked(nanos as nat).consumed(),
        fired ==> final(grid)@ == old(grid)@.diffused(nanos as nat, TRANSFER_COEFFICIENT as int),
        !fired ==> final(grid)@ == old(grid)@,
{
    if simulation_rate.rate.advance_nanos(nanos) {
        grid.diffuse_nanos(nanos, TRANSFER_COEFFICIENT);
        true
    } else {
        false
    }
}

/// One frame of the simulation: feeds the frame time `delta` to the clock and,
/// if a step is due, runs one diffusion step over `delta` at
/// [`TRANSFER_COEFFICIENT`]. Returns whether a step ran.
pub fn thermal_conduction(grid: &mut Grid, simulation_rate: &mut SimulationRate, delta: Duration) -> (fired: bool)
    ensures
        fired == old(simulation_rate).rate.ticked(duration_nanos(delta)).is_due(),
        final(simulation_rate).rate == old(simulation_rate).rate.ticked(
            duration_nanos(delta),
        ).consumed(),
        fired ==> final(grid)@ == old(grid)@.diffused(
            duration_nanos(delta),
            TRANSFER_COEFFICIENT as int,
        ),
        !fired ==> final(grid)@ == old(grid)@,
{
    thermal_conduction_nanos(grid, simulation_rate, delta.as_nanos())
}

} // verus!
