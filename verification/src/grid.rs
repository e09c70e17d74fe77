//! The dense grid of heat cells and its neighbor resolver.
//!
//! A grid has a fixed width and height and owns one slot per coordinate, in
//! row-major order. A slot holds a cell or is vacant; a grid under
//! construction has vacant slots, and a vacant slot is no neighbor of
//! anything. Cells are addressed by coordinate alone: the mathematical model
//! of a grid is a finite partial map from coordinates to cells.
use vstd::prelude::*;
use crate::temperature::HeatCell;

verus! {

/// One of the four axis-aligned directions, in the order in which the
/// neighbors of a cell are visited.
#[derive(Clone, Copy, Debug, PartialEq, Eq, Structural)]
pub enum Direction {
    /// Toward larger `x`.
    East,
    /// Toward larger `y`.
    North,
    /// Toward smaller `x`.
    West,
    /// Toward smaller `y`.
    South,
}

impl Direction {
    /// The position of the direction in the visiting order.
    pub open spec fn rank(self) -> int {
        match self {
            Direction::East => 0,
            Direction::North => 1,
            Direction::West => 2,
            Direction::South => 3,
        }
    }

    /// The direction that leads back.
    pub open spec fn reversed(self) -> Direction {
        match self {
            Direction::East => Direction::West,
            Direction::North => Direction::South,
            Direction::West => Direction::East,
            Direction::South => Direction::North,
        }
    }

    /// The coordinate one step from `c` in this direction.
    pub open spec fn step(self, c: (int, int)) -> (int, int) {
        match self {
            Direction::East => (c.0 + 1, c.1),
            Direction::North => (c.0, c.1 + 1),
            Direction::West => (c.0 - 1, c.1),
            Direction::South => (c.0, c.1 - 1),
        }
    }

    /// The direction that leads back.
    pub fn opposite(self) -> (r: Direction)
        ensures
            r == self.reversed(),
    {
        match self {
            Direction::East => Direction::West,
            Direction::North => Direction::South,
            Direction::West => Direction::East,
            Direction::South => Direction::North,
        }
    }
}

/// Why a grid could not be built.
#[derive(Clone, Copy, Debug, PartialEq, Eq, Structural)]
pub enum GridError {
    /// The width or the height is zero.
    ZeroArea,
    /// The grid would have more slots than can be addressed.
    TooLarge,
}

/// The mathematical model of a grid: its dimensions and the cells it holds,
/// by coordinate. A coordinate outside the map's domain is vacant.
pub struct GridModel {
    pub width: nat,
    pub height: nat,
    pub cells: Map<(int, int), HeatCell>,
}

impl GridModel {
    /// Whether `c` lies within `[0, width) x [0, height)`.
    pub open spec fn in_bounds(self, c: (int, int)) -> bool {
        0 <= c.0 < self.width && 0 <= c.1 < self.height
    }

    /// A grid has a positive area and holds cells only within its bounds.
    pub open spec fn wf(self) -> bool {
        &&& self.width > 0
        &&& self.height > 0
        &&& forall|c: (int, int)| self.cells.contains_key(c) ==> self.in_bounds(c)
    }

    /// The row-major index of a coordinate.
    pub open spec fn index(self, c: (int, int)) -> int {
        c.1 * self.width + c.0
    }

    /// Whether a cell stands at `c`.
    pub open spec fn occupied(self, c: (int, int)) -> bool {
        self.cells.contains_key(c)
    }

    /// Whether every coordinate within the bounds holds a cell.
    pub open spec fn full(self) -> bool {
        forall|c: (int, int)| self.in_bounds(c) ==> self.cells.contains_key(c)
    }

    /// The neighbor of `c` in direction `d`: the coordinate one step away,
    /// where cells stand at both.
    pub open spec fn neighbor(self, c: (int, int), d: Direction) -> Option<(int, int)> {
        if self.occupied(c) && self.occupied(d.step(c)) {
            Some(d.step(c))
        } else {
            None
        }
    }

    /// The neighbor of `c` in direction `d` as a sequence of at most one
    /// coordinate.
    pub open spec fn neighbor_seq(self, c: (int, int), d: Direction) -> Seq<(int, int)> {
        match self.neighbor(c, d) {
            Some(n) => seq![n],
            None => Seq::empty(),
        }
    }

    /// The neighbors of `c` in visiting order: east, north, west, south.
    pub open spec fn neighbors(self, c: (int, int)) -> Seq<(int, int)> {
        self.neighbor_seq(c, Direction::East) + self.neighbor_seq(c, Direction::North)
            + self.neighbor_seq(c, Direction::West) + self.neighbor_seq(c, Direction::South)
    }

    /// Whether `a` and `b` are one axis-aligned step apart.
    pub open spec fn adjacent(a: (int, int), b: (int, int)) -> bool {
        ||| (b.0 == a.0 - 1 && b.1 == a.1)
        ||| (b.0 == a.0 + 1 && b.1 == a.1)
        ||| (b.0 == a.0 && b.1 == a.1 - 1)
        ||| (b.0 == a.0 && b.1 == a.1 + 1)
    }

    /// The neighbors of `c` are exactly the occupied coordinates among
    /// `(x-1, y)`, `(x+1, y)`, `(x, y-1)`, `(x, y+1)`, each once, and all of
    /// them lie within the bounds; a vacant `c` has none.
    pub proof fn lemma_neighbors_are_adjacent_cells(self, c: (int, int))
        requires
            self.wf(),
        ensures
            forall|n: (int, int)|
                self.neighbors(c).contains(n) <==> (self.occupied(c) && self.occupied(n)
                    && Self::adjacent(c, n)),
            forall|n: (int, int)| self.neighbors(c).contains(n) ==> self.in_bounds(n),
            self.neighbors(c).no_duplicates(),
            self.neighbors(c).len() <= 4,
            !self.occupied(c) ==> self.neighbors(c).len() == 0,
    {
        let e = self.neighbor_seq(c, Direction::East);
        let n = self.neighbor_seq(c, Direction::North);
        let w = self.neighbor_seq(c, Direction::West);
        let all = self.neighbors(c);
        assert forall|p: (int, int)| all.contains(p) <==> (self.occupied(c) && self.occupied(p)
            && Self::adjacent(c, p)) by {
            if self.occupied(c) && self.occupied(p) && Self::adjacent(c, p) {
                if p == Direction::East.step(c) {
                    assert(all[0] == p);
                } else if p == Direction::North.step(c) {
                    assert(all[e.len() as int] == p);
                } else if p == Direction::West.step(c) {
                    assert(all[(e.len() + n.len()) as int] == p);
                } else {
                    assert(all[(e.len() + n.len() + w.len()) as int] == p);
                }
            }
        }
    }
}

/// A dense, row-major grid of heat cells.
pub struct Grid {
    width: u32,
    height: u32,
    cells: Vec<Option<HeatCell>>,
}

/// A row-major index lies within the area of the grid.
pub proof fn lemma_index_in_range(width: int, height: int, x: int, y: int)
    requires
        0 <= x < width,
        0 <= y < height,
    ensures
        0 <= y * width + x < width * height,
        y * width + x <= (height - 1) * width + (width - 1),
{
    assert(y * width <= (height - 1) * width) by (nonlinear_arith)
        requires
            0 <= y <= height - 1,
            width > 0,
    ;
    assert(y * width >= 0) by (nonlinear_arith)
        requires
            0 <= y,
            width > 0,
    ;
    assert((height - 1) * width + width == width * height) by (nonlinear_arith);
}

/// Two coordinates within a row of the same width share a row-major index
/// only if they are the same coordinate.
pub proof fn lemma_index_injective(width: int, x1: int, y1: int, x2: int, y2: int)
    requires
        0 <= x1 < width,
        0 <= x2 < width,
        y1 * width + x1 == y2 * width + x2,
    ensures
        x1 == x2,
        y1 == y2,
{
    assert(y1 == y2) by (nonlinear_arith)
        requires
            0 <= x1 < width,
            0 <= x2 < width,
            y1 * width + x1 == y2 * width + x2,
    ;
}

impl View for Grid {
    type V = GridModel;

    closed spec fn view(&self) -> GridModel {
        GridModel {
            width: self.width as nat,
            height: self.height as nat,
            cells: Map::new(
                |c: (int, int)|
                    0 <= c.0 < self.width && 0 <= c.1 < self.height && self.cells@[c.1
                        * self.width + c.0] is Some,
                |c: (int, int)| self.cells@[c.1 * self.width + c.0].unwrap(),
            ),
        }
    }
}

impl Grid {
    #[verifier::type_invariant]
    spec fn well_formed(self) -> bool {
        &&& self.width > 0
        &&& self.height > 0
        &&& self.cells.len() == self.width * self.height
    }

    /// A grid of the given dimensions whose every slot holds `fill`.
    fn build(width: u32, height: u32, fill: Option<HeatCell>) -> (r: Result<Grid, GridError>)
        ensures
            r is Ok <==> width > 0 && height > 0 && width * height <= usize::MAX,
            (width == 0 || height == 0) <==> r == Err::<Grid, GridError>(GridError::ZeroArea),
            (width > 0 && height > 0 && width * height > usize::MAX) <==> r == Err::<
                Grid,
                GridError,
            >(GridError::TooLarge),
            r matches Ok(grid) ==> {
                &&& grid.width == width
                &&& grid.height == height
                &&& forall|i: int| 0 <= i < grid.cells.len() ==> grid.cells[i] == fill
            },
    {
        if width == 0 || height == 0 {
            return Err(GridError::ZeroArea);
        }
        assert(width * height <= u64::MAX) by (nonlinear_arith)
            requires
                width <= u32::MAX,
                height <= u32::MAX,
        ;
        let area: u64 = (width as u64) * (height as u64);
        if area > usize::MAX as u64 {
            return Err(GridError::TooLarge);
        }
        let slots: usize = area as usize;
        let mut cells: Vec<Option<HeatCell>> = Vec::new();
        let mut filled: usize = 0;
        while filled < slots
            invariant
                filled <= slots,
                cells.len() == filled,
                forall|i: int| 0 <= i < cells.len() ==> cells[i] == fill,
            decreases slots - filled,
        {
            cells.push(fill);
            filled += 1;
        }
        Ok(Grid { width, height, cells })
    }

    /// An empty grid of the given dimensions: every slot is vacant.
    ///
    /// A grid of zero area is rejected, and so is one with more slots than a
    /// `usize` can count.
    pub fn new(width: u32, height: u32) -> (r: Result<Grid, GridError>)
        ensures
            r is Ok <==> width > 0 && height > 0 && width * height <= usize::MAX,
            (width == 0 || height == 0) <==> r == Err::<Grid, GridError>(GridError::ZeroArea),
            (width > 0 && height > 0 && width * height > usize::MAX) <==> r == Err::<
                Grid,
                GridError,
            >(GridError::TooLarge),
            r matches Ok(grid) ==> {
                &&& grid@.wf()
                &&& grid@.width == width
                &&& grid@.height == height
                &&& grid@.cells == Map::<(int, int), HeatCell>::empty()
            },
    {
        match Self::build(width, height, None) {
            Ok(grid) => {
                proof {
                    use_type_invariant(&grid);
                    assert forall|c: (int, int)| !(#[trigger] grid@.cells.contains_key(c)) by {
                        if 0 <= c.0 < width && 0 <= c.1 < height {
                            lemma_index_in_range(width as int, height as int, c.0, c.1);
                        }
                    }
                }
                Ok(grid)
            },
            Err(error) => Err(error),
        }
    }

    /// A fully populated grid of the given dimensions: every slot holds a copy
    /// of `cell`.
    ///
    /// A grid of zero area is rejected, and so is one with more slots than a
    /// `usize` can count.
    pub fn filled(width: u32, height: u32, cell: HeatCell) -> (r: Result<Grid, GridError>)
        ensures
            r is Ok <==> width > 0 && height > 0 && width * height <= usize::MAX,
            (width == 0 || height == 0) <==> r == Err::<Grid, GridError>(GridError::ZeroArea),
            (width > 0 && height > 0 && width * height > usize::MAX) <==> r == Err::<
                Grid,
                GridError,
            >(GridError::TooLarge),
            r matches Ok(grid) ==> {
                &&& grid@.wf()
                &&& grid@.width == width
                &&& grid@.height == height
                &&& grid@.cells == Map::new(|c: (int, int)| grid@.in_bounds(c), |c: (int, int)| cell)
            },
    {
        match Self::build(width, height, Some(cell)) {
            Ok(grid) => {
                proof {
                    use_type_invariant(&grid);
                    assert forall|c: (int, int)| grid@.in_bounds(c) implies #[trigger]
                        grid@.cells.contains_key(c) && grid@.cells[c] == cell by {
                        lemma_index_in_range(width as int, height as int, c.0, c.1);
                    }
                }
                Ok(grid)
            },
            Err(error) => Err(error),
        }
    }

    /// The number of columns.
    pub fn width(&self) -> (w: u32)
        ensures
            w == self@.width,
            self@.wf(),
    {
        proof {
            use_type_invariant(&*self);
        }
        self.width
    }

    /// The number of rows.
    pub fn height(&self) -> (h: u32)
        ensures
            h == self@.height,
            self@.wf(),
    {
        proof {
            use_type_invariant(&*self);
        }
        self.height
    }

    /// Whether `(x, y)` lies within the grid.
    pub fn in_bounds(&self, x: u32, y: u32) -> (inside: bool)
        ensures
            inside == self@.in_bounds((x as int, y as int)),
    {
        x < self.width && y < self.height
    }

    /// The row-major index `y * width + x` of a coordinate within the grid,
    /// and `None` for a coordinate outside it.
    pub fn index(&self, x: u32, y: u32) -> (i: Option<usize>)
        ensures
            self@.in_bounds((x as int, y as int)) <==> i is Some,
            i matches Some(at) ==> at == self@.index((x as int, y as int)) && at < self@.width
                * self@.height,
    {
        proof {
            use_type_invariant(&*self);
        }
        if x < self.width && y < self.height {
            Some(self.slot(x, y))
        } else {
            None
        }
    }

    /// The row-major index of a coordinate within the grid.
    fn slot(&self, x: u32, y: u32) -> (i: usize)
        requires
            x < self.width,
            y < self.height,
        ensures
            i == y * self.width + x,
            i < self.cells.len(),
    {
        proof {
            use_type_invariant(&*self);
            lemma_index_in_range(self.width as int, self.height as int, x as int, y as int);
            assert(y * self.width >= 0) by (nonlinear_arith)
                requires
                    y >= 0,
                    self.width > 0,
            ;
        }
        (y as usize) * (self.width as usize) + (x as usize)
    }

    /// The cell at `(x, y)`, or `None` where the coordinate is vacant or
    /// outside the grid.
    pub fn cell(&self, x: u32, y: u32) -> (found: Option<HeatCell>)
        ensures
            found == (if self@.occupied((x as int, y as int)) {
                Some(self@.cells[(x as int, y as int)])
            } else {
                None
            }),
    {
        if x < self.width && y < self.height {
            let i = self.slot(x, y);
            self.cells[i]
        } else {
            None
        }
    }

    /// The temperature of the cell at `(x, y)` in thousandths of a degree, or
    /// `None` where the coordinate is vacant or outside the grid.
    pub fn temperature(&self, x: u32, y: u32) -> (found: Option<i64>)
        ensures
            found == (if self@.occupied((x as int, y as int)) {
                Some(self@.cells[(x as int, y as int)].temperature.value)
            } else {
                None
            }),
    {
        match self.cell(x, y) {
            Some(cell) => Some(cell.temperature.value),
            None => None,
        }
    }

    /// Puts `cell` at `(x, y)`, replacing what stood there. Returns whether
    /// the coordinate lies within the grid; outside it nothing changes.
    pub fn set_cell(&mut self, x: u32, y: u32, cell: HeatCell) -> (placed: bool)
        ensures
            placed == old(self)@.in_bounds((x as int, y as int)),
            final(self)@.wf(),
            final(self)@.width == old(self)@.width,
            final(self)@.height == old(self)@.height,
            placed ==> final(self)@.cells == old(self)@.cells.insert((x as int, y as int), cell),
            !placed ==> final(self)@.cells == old(self)@.cells,
    {
        proof {
            use_type_invariant(&*self);
        }
        if x < self.width && y < self.height {
            let i = self.slot(x, y);
            self.cells[i] = Some(cell);
            proof {
                let w = self.width as int;
                let at = (x as int, y as int);
                let expected = old(self)@.cells.insert(at, cell);
                assert forall|c: (int, int)|
                    self@.cells.contains_key(c) == #[trigger] expected.contains_key(c) && (
                    expected.contains_key(c) ==> self@.cells[c] == expected[c]) by {
                    if 0 <= c.0 < w && 0 <= c.1 < self.height {
                        lemma_index_in_range(w, self.height as int, c.0, c.1);
                        if c.1 * w + c.0 == i {
                            lemma_index_injective(w, c.0, c.1, x as int, y as int);
                        }
                    }
                }
                assert(self@.cells =~= expected);
            }
            true
        } else {
            false
        }
    }

    /// Sets the temperature of the cell at `(x, y)`. Returns whether a cell
    /// stands there; where none does, nothing changes.
    pub fn set_temperature(&mut self, x: u32, y: u32, value: i64) -> (found: bool)
        ensures
            found == old(self)@.occupied((x as int, y as int)),
            final(self)@.wf(),
            final(self)@.width == old(self)@.width,
            final(self)@.height == old(self)@.height,
            found ==> final(self)@.cells == old(self)@.cells.insert(
                (x as int, y as int),
                (HeatCell {
                    temperature: crate::temperature::Temperature { value },
                    conductivity: old(self)@.cells[(x as int, y as int)].conductivity,
                }),
            ),
            !found ==> final(self)@.cells == old(self)@.cells,
    {
        proof {
            use_type_invariant(&*self);
        }
        match self.cell(x, y) {
            Some(cell) => {
                let updated = HeatCell {
                    temperature: crate::temperature::Temperature { value },
                    conductivity: cell.conductivity,
                };
                self.set_cell(x, y, updated);
                true
            },
            None => false,
        }
    }

    /// The number of slots, `width * height`.
    pub fn slots(&self) -> (n: usize)
        ensures
            n == self@.width * self@.height,
            n > 0,
    {
        proof {
            use_type_invariant(&*self);
            assert(self.width * self.height > 0) by (nonlinear_arith)
                requires
                    self.width > 0,
                    self.height > 0,
            ;
        }
        self.cells.len()
    }

    /// The neighbor of `(x, y)` in the given direction: the coordinate one
    /// step away, where cells stand at both. There is no wraparound, and a
    /// vacant coordinate is nobody's neighbor and has none.
    pub fn neighbor(&self, x: u32, y: u32, direction: Direction) -> (found: Option<(u32, u32)>)
        ensures
            found is Some == self@.neighbor((x as int, y as int), direction) is Some,
            found matches Some(n) ==> self@.neighbor((x as int, y as int), direction) == Some(
                (n.0 as int, n.1 as int),
            ),
    {
        proof {
            use_type_invariant(&*self);
        }
        if self.cell(x, y).is_none() {
            return None;
        }
        let target: Option<(u32, u32)> = match direction {
            Direction::East => if x < u32::MAX {
                Some((x + 1, y))
            } else {
                None
            },
            Direction::North => if y < u32::MAX {
                Some((x, y + 1))
            } else {
                None
            },
            Direction::West => if x > 0 {
                Some((x - 1, y))
            } else {
                None
            },
            Direction::South => if y > 0 {
                Some((x, y - 1))
            } else {
                None
            },
        };
        match target {
            Some((nx, ny)) => if self.cell(nx, ny).is_some() {
                Some((nx, ny))
            } else {
                None
            },
            None => None,
        }
    }

    /// The neighbors of `(x, y)`: the coordinates among `(x+1, y)`,
    /// `(x, y+1)`, `(x-1, y)` and `(x, y-1)`, in this order, at which a cell
    /// stands, provided one stands at `(x, y)` itself. A corner cell of a full
    /// grid has two, an edge cell three, an interior cell four; a coordinate
    /// without a cell has none.
    pub fn neighbors(&self, x: u32, y: u32) -> (found: Vec<(u32, u32)>)
        ensures
            found@.map_values(|n: (u32, u32)| (n.0 as int, n.1 as int)) == self@.neighbors(
                (x as int, y as int),
            ),
    {
        let mut found: Vec<(u32, u32)> = Vec::new();
        if let Some(n) = self.neighbor(x, y, Direction::East) {
            found.push(n);
        }
        if let Some(n) = self.neighbor(x, y, Direction::North) {
            found.push(n);
        }
        if let Some(n) = self.neighbor(x, y, Direction::West) {
            found.push(n);
        }
        if let Some(n) = self.neighbor(x, y, Direction::South) {
            found.push(n);
        }
        found
    }
}

} // verus!
