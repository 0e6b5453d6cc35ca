//! The table of cells and the rule that takes it from one generation to the next.

use vstd::prelude::*;
use crate::grid::GridID;

verus! {

/// A cell lives in the next generation when it has more live neighbours than this.
pub const LOWER_EXCLUSIVE: u8 = 1;

/// A cell lives in the next generation when it has at most this many live neighbours.
pub const UPPER_INCLUSIVE: u8 = 4;

/// The cell at `(row, column)` lies inside `grid` and is alive.
pub open spec fn is_live(grid: Seq<Seq<bool>>, row: int, column: int) -> bool {
    &&& 0 <= row < grid.len()
    &&& 0 <= column < grid[row].len()
    &&& grid[row][column]
}

/// What the position `(row, column)` adds to a neighbour count: one for a live
/// cell inside the grid, nothing for a dead cell or a position outside it.
pub open spec fn live(grid: Seq<Seq<bool>>, row: int, column: int) -> int {
    if is_live(grid, row, column) {
        1
    } else {
        0
    }
}

/// Number of live cells among the eight positions around `(row, column)`.
pub open spec fn live_neighbors(grid: Seq<Seq<bool>>, row: int, column: int) -> int {
    live(grid, row - 1, column - 1) + live(grid, row - 1, column) + live(grid, row - 1, column + 1)
        + live(grid, row, column - 1) + live(grid, row, column + 1)
        + live(grid, row + 1, column - 1) + live(grid, row + 1, column) + live(grid, row + 1, column + 1)
}

/// One if `(row, column)` lies inside `grid`, else nothing.
pub open spec fn inside(grid: Seq<Seq<bool>>, row: int, column: int) -> int {
    if 0 <= row < grid.len() && 0 <= column < grid[row].len() {
        1
    } else {
        0
    }
}

/// Number of the eight positions around `(row, column)` that lie inside `grid`.
pub open spec fn inside_neighbors(grid: Seq<Seq<bool>>, row: int, column: int) -> int {
    inside(grid, row - 1, column - 1) + inside(grid, row - 1, column) + inside(grid, row - 1, column + 1)
        + inside(grid, row, column - 1) + inside(grid, row, column + 1)
        + inside(grid, row + 1, column - 1) + inside(grid, row + 1, column) + inside(grid, row + 1, column + 1)
}

/// The transition rule: a cell with `count` live neighbours is alive afterwards.
/// The cell's own state plays no part.
pub open spec fn rule(count: int) -> bool {
    LOWER_EXCLUSIVE < count <= UPPER_INCLUSIVE
}

/// The generation that follows `grid`: same shape, every cell decided by the
/// rule from the neighbour counts in `grid`.
pub open spec fn next_generation(grid: Seq<Seq<bool>>) -> Seq<Seq<bool>> {
    Seq::new(
        grid.len(),
        |r: int| Seq::new(grid[r].len(), |c: int| rule(live_neighbors(grid, r, c))),
    )
}

/// The grid of `height` rows and `width` columns in which every cell is dead.
pub open spec fn dead_grid(width: nat, height: nat) -> Seq<Seq<bool>> {
    Seq::new(height, |r: int| Seq::new(width, |c: int| false))
}

/// All rows of `grid` have the same length, and both extents fit in a `u32`.
pub open spec fn is_table(grid: Seq<Seq<bool>>) -> bool {
    &&& grid.len() <= u32::MAX
    &&& forall|r: int| 0 <= r < grid.len() ==> (#[trigger] grid[r]).len() == grid[0].len()
    &&& grid.len() > 0 ==> grid[0].len() <= u32::MAX
}

/// Decides from a neighbour count whether a cell is alive in the next generation.
pub fn survives(count: u8) -> (alive: bool)
    ensures
        alive == rule(count as int),
{
    count > LOWER_EXCLUSIVE && count <= UPPER_INCLUSIVE
}

/// The cells of a grid as plain rows, with nothing known of their lengths.
pub struct AutomataGrid(pub Vec<Vec<bool>>);

impl View for AutomataGrid {
    type V = Seq<Seq<bool>>;

    open spec fn view(&self) -> Seq<Seq<bool>> {
        Seq::new(self.0@.len(), |r: int| self.0@[r]@)
    }
}

impl Default for AutomataGrid {
    fn default() -> (grid: Self)
        ensures
            grid@ == Seq::<Seq<bool>>::empty(),
    {
        AutomataGrid(Vec::new())
    }
}

/// A rectangular grid of cells, each alive or dead.
#[derive(Debug, PartialEq, Eq)]
pub struct Simulation {
    states: Vec<Vec<bool>>,
}

impl View for Simulation {
    type V = Seq<Seq<bool>>;

    closed spec fn view(&self) -> Seq<Seq<bool>> {
        Seq::new(self.states@.len(), |r: int| self.states@[r]@)
    }
}

impl Simulation {
    #[verifier::type_invariant]
    spec fn well_formed(self) -> bool {
        is_table(self@)
    }

    /// An all-dead grid of `width` columns and `height` rows.
    pub fn new(width: u32, height: u32) -> (s: Self)
        ensures
            s@ == dead_grid(width as nat, height as nat),
    {
        let states = vec![vec![false; width as usize]; height as usize];
        let s = Simulation { states };
        assert(s@ =~~= dead_grid(width as nat, height as nat));
        s
    }

    /// The extent of the grid as `(width, height)`, read from the first row.
    pub fn get_size(&self) -> (size: (u32, u32))
        requires
            self@.len() > 0,
        ensures
            size.0 == self@[0].len(),
            size.1 == self@.len(),
    {
        proof {
            use_type_invariant(self);
        }
        (self.states[0].len() as u32, self.states.len() as u32)
    }

    /// Whether the cell at `coord` is alive.
    pub fn get(&self, coord: GridID) -> (alive: bool)
        requires
            coord.0 < self@.len(),
            coord.1 < self@[coord.0 as int].len(),
        ensures
            alive == self@[coord.0 as int][coord.1 as int],
    {
        self.states[coord.0][coord.1]
    }

    /// Makes the cell at `coord` alive or dead and leaves every other cell as it was.
    pub fn set(&mut self, coord: GridID, alive: bool)
        requires
            coord.0 < old(self)@.len(),
            coord.1 < old(self)@[coord.0 as int].len(),
        ensures
            final(self)@ == old(self)@.update(
                coord.0 as int,
                old(self)@[coord.0 as int].update(coord.1 as int, alive),
            ),
    {
        proof {
            use_type_invariant(&*self);
        }
        let ghost before = self@;
        let mut states: Vec<Vec<bool>> = Vec::new();
        std::mem::swap(&mut states, &mut self.states);
        states[coord.0][coord.1] = alive;
        proof {
            let after = Seq::new(states@.len(), |r: int| states@[r]@);
            assert forall|r: int| 0 <= r < after.len() implies (#[trigger] after[r]).len()
                == after[0].len() by {
                assert(before[r].len() == before[0].len());
            }
            assert(after =~~= before.update(
                coord.0 as int,
                before[coord.0 as int].update(coord.1 as int, alive),
            ));
        }
        self.states = states;
    }

    /// One if the position `(row, column)` holds a live cell of the grid, else nothing.
    fn live_at(&self, row: i64, column: i64) -> (n: u8)
        ensures
            n == live(self@, row as int, column as int),
    {
        proof {
            use_type_invariant(self);
        }
        if row < 0 || column < 0 || row >= self.states.len() as i64 {
            return 0;
        }
        let cells = &self.states[row as usize];
        if column >= cells.len() as i64 {
            return 0;
        }
        if cells[column as usize] {
            1
        } else {
            0
        }
    }

    /// Counts the live cells among the up to eight neighbours of `coord`.
    /// Positions beyond the edge of the grid count as nothing.
    pub fn neighbor_count(&self, coord: GridID) -> (n: u8)
        requires
            coord.0 < self@.len(),
            coord.1 < self@[coord.0 as int].len(),
        ensures
            n == live_neighbors(self@, coord.0 as int, coord.1 as int),
    {
        proof {
            use_type_invariant(self);
        }
        let r = coord.0 as i64;
        let c = coord.1 as i64;
        self.live_at(r - 1, c - 1) + self.live_at(r - 1, c) + self.live_at(r - 1, c + 1)
            + self.live_at(r, c - 1) + self.live_at(r, c + 1)
            + self.live_at(r + 1, c - 1) + self.live_at(r + 1, c) + self.live_at(r + 1, c + 1)
    }

    /// Replaces the grid by its next generation. Every cell is decided from
    /// the neighbour counts of the generation before; the shape stays.
    pub fn next(&mut self)
        ensures
            final(self)@ == next_generation(old(self)@),
    {
        proof {
            use_type_invariant(&*self);
        }
        let rows = self.states.len();
        let mut fresh: Vec<Vec<bool>> = Vec::new();
        let mut r: usize = 0;
        while r < rows
            invariant
                rows == self@.len(),
                is_table(self@),
                r <= rows,
                fresh@.len() == r,
                forall|i: int| 0 <= i < r ==> (#[trigger] fresh@[i])@ == next_generation(self@)[i],
            decreases rows - r,
        {
            let columns = self.states[r].len();
            let mut cells: Vec<bool> = Vec::new();
            let mut c: usize = 0;
            while c < columns
                invariant
                    r < self@.len(),
                    columns == self@[r as int].len(),
                    c <= columns,
                    cells@.len() == c,
                    forall|j: int|
                        0 <= j < c ==> #[trigger] cells@[j] == rule(
                            live_neighbors(self@, r as int, j),
                        ),
                decreases columns - c,
            {
                let count = self.neighbor_count(GridID(r, c));
                cells.push(survives(count));
                c += 1;
            }
            assert(cells@ =~= next_generation(self@)[r as int]);
            fresh.push(cells);
            r += 1;
        }
        proof {
            let after = Seq::new(fresh@.len(), |i: int| fresh@[i]@);
            assert(after =~= next_generation(self@));
            lemma_next_generation_is_table(self@);
        }
        self.states = fresh;
    }

    /// Hands the cells out as plain rows.
    pub fn into_grid(self) -> (grid: AutomataGrid)
        ensures
            grid@ == self@,
    {
        let grid = AutomataGrid(self.states);
        assert(grid@ =~= self@);
        grid
    }

    /// Takes plain rows as a grid if they form a table, and hands them back
    /// untouched if they do not.
    pub fn from_grid(grid: AutomataGrid) -> (result: Result<Self, AutomataGrid>)
        ensures
            match result {
                Ok(s) => is_table(grid@) && s@ == grid@,
                Err(rejected) => !is_table(grid@) && rejected == grid,
            },
    {
        let rows = grid.0.len();
        if rows > u32::MAX as usize {
            return Err(grid);
        }
        if rows > 0 {
            let columns = grid.0[0].len();
            if columns > u32::MAX as usize {
                return Err(grid);
            }
            let mut r: usize = 1;
            while r < rows
                invariant
                    rows == grid@.len(),
                    columns == grid@[0].len(),
                    1 <= r <= rows,
                    forall|i: int| 0 <= i < r ==> (#[trigger] grid@[i]).len() == columns,
                decreases rows - r,
            {
                if grid.0[r].len() != columns {
                    assert(grid@[r as int].len() != grid@[0].len());
                    return Err(grid);
                }
                r += 1;
            }
        }
        let s = Simulation { states: grid.0 };
        assert(s@ =~= grid@);
        Ok(s)
    }
}

impl Clone for Simulation {
    fn clone(&self) -> (copy: Self)
        ensures
            copy@ == self@,
    {
        proof {
            use_type_invariant(self);
        }
        let mut states: Vec<Vec<bool>> = Vec::new();
        let mut r: usize = 0;
        while r < self.states.len()
            invariant
                r <= self.states@.len(),
                states@.len() == r,
                forall|i: int| 0 <= i < r ==> (#[trigger] states@[i])@ == self@[i],
            decreases self.states@.len() - r,
        {
            let cells = self.states[r].clone();
            assert(cells@ =~= self@[r as int]);
            states.push(cells);
            r += 1;
        }
        proof {
            let copied = Seq::new(states@.len(), |i: int| states@[i]@);
            assert(copied =~= self@);
        }
        Simulation { states }
    }
}

/// The next generation of a table is a table of the same extent.
pub proof fn lemma_next_generation_is_table(grid: Seq<Seq<bool>>)
    requires
        is_table(grid),
    ensures
        is_table(next_generation(grid)),
        next_generation(grid).len() == grid.len(),
        forall|r: int| 0 <= r < grid.len() ==> (#[trigger] next_generation(grid)[r]).len() == grid[r].len(),
{
    let next = next_generation(grid);
    assert forall|r: int| 0 <= r < next.len() implies (#[trigger] next[r]).len() == next[0].len() by {
        assert(grid[r].len() == grid[0].len());
    }
}

/// A new grid has the extent it was asked for, and every cell of it is dead.
pub proof fn lemma_new_grid_is_dead(width: u32, height: u32)
    requires
        height >= 1,
    ensures
        dead_grid(width as nat, height as nat).len() == height,
        dead_grid(width as nat, height as nat)[0].len() == width,
        is_table(dead_grid(width as nat, height as nat)),
        forall|row: int, column: int|
            !is_live(dead_grid(width as nat, height as nat), row, column),
{
}

/// The transition is a function of the grid alone: from equal grids it gives
/// equal generations, however often it is run.
pub proof fn lemma_transition_is_deterministic(first: Seq<Seq<bool>>, second: Seq<Seq<bool>>)
    requires
        first == second,
    ensures
        next_generation(first) == next_generation(second),
{
}

/// A position outside the grid adds nothing to any neighbour count.
pub proof fn lemma_outside_counts_nothing(grid: Seq<Seq<bool>>, row: int, column: int)
    requires
        !(0 <= row < grid.len() && 0 <= column < grid[row].len()),
    ensures
        live(grid, row, column) == 0,
{
}

/// A neighbour count lies between zero and eight, and is no larger than the
/// number of neighbouring positions that lie inside the grid.
pub proof fn lemma_neighbor_count_is_bounded(grid: Seq<Seq<bool>>, row: int, column: int)
    ensures
        0 <= live_neighbors(grid, row, column) <= inside_neighbors(grid, row, column) <= 8,
{
}

/// In a table, a corner cell has three neighbouring positions at most and a
/// cell on an edge five at most.
pub proof fn lemma_edge_cells_have_fewer_neighbors(grid: Seq<Seq<bool>>, row: int, column: int)
    requires
        is_table(grid),
        0 <= row < grid.len(),
        0 <= column < grid[row].len(),
    ensures
        (row == 0 || row == grid.len() - 1 || column == 0 || column == grid[row].len() - 1)
            ==> live_neighbors(grid, row, column) <= 5,
        (row == 0 || row == grid.len() - 1) && (column == 0 || column == grid[row].len() - 1)
            ==> live_neighbors(grid, row, column) <= 3,
{
    assert(grid[row].len() == grid[0].len());
    if row - 1 >= 0 {
        assert(grid[row - 1].len() == grid[0].len());
    }
    if row + 1 < grid.len() {
        assert(grid[row + 1].len() == grid[0].len());
    }
}

/// A grid of a single cell is dead after one transition, whatever it held.
pub proof fn lemma_single_cell_dies(grid: Seq<Seq<bool>>)
    requires
        grid.len() == 1,
        grid[0].len() == 1,
    ensures
        next_generation(grid) == dead_grid(1, 1),
{
    assert(live_neighbors(grid, 0, 0) == 0);
    assert(next_generation(grid) =~~= dead_grid(1, 1));
}

} // verus!
