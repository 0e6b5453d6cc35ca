//! The shared settings of a simulation and the system that advances it while it runs.

use vstd::prelude::*;
use crate::grid::Size;
use crate::simulation::is_table;
use crate::simulation::next_generation;
use crate::simulation::AutomataGrid;
use crate::simulation::Simulation;

verus! {

/// Why a change of the settings was turned down.
#[derive(Clone, Copy, Debug, PartialEq, Eq, Structural)]
pub enum ControlError {
    /// The width or the height asked for was zero.
    ZeroExtent,
}

/// Why a tick could not advance the grid.
#[derive(Clone, Copy, Debug, PartialEq, Eq, Structural)]
pub enum GridError {
    /// The rows differ in length, or an extent does not fit in a `u32`.
    Malformed,
}

/// Whether the simulation runs, and the grid size it is meant to have.
/// The size always has a width and a height of at least one.
#[derive(Debug)]
pub struct AutomataControl {
    running: bool,
    size: Size,
}

impl AutomataControl {
    #[verifier::type_invariant]
    spec fn well_formed(self) -> bool {
        self.size.is_positive()
    }

    pub closed spec fn spec_running(&self) -> bool {
        self.running
    }

    pub closed spec fn spec_size(&self) -> Size {
        self.size
    }

    /// Whether the simulation advances on a tick.
    #[verifier::when_used_as_spec(spec_running)]
    pub fn running(&self) -> (running: bool)
        ensures
            running == self.spec_running(),
    {
        self.running
    }

    /// The grid size that is asked for.
    #[verifier::when_used_as_spec(spec_size)]
    pub fn size(&self) -> (size: Size)
        ensures
            size == self.spec_size(),
            size.is_positive(),
    {
        proof {
            use_type_invariant(self);
        }
        self.size
    }

    /// Starts or stops the simulation.
    pub fn set_running(&mut self, running: bool)
        ensures
            final(self).running() == running,
            final(self).size() == old(self).size(),
    {
        proof {
            use_type_invariant(&*self);
        }
        self.running = running;
    }

    /// Asks for another grid size. A size with a zero extent is turned down
    /// and the settings stay as they were.
    pub fn set_size(&mut self, size: Size) -> (result: Result<(), ControlError>)
        ensures
            final(self).running() == old(self).running(),
            size.is_positive() ==> result is Ok && final(self).size() == size,
            !size.is_positive() ==> result == Err::<(), ControlError>(ControlError::ZeroExtent)
                && final(self).size() == old(self).size(),
    {
        proof {
            use_type_invariant(&*self);
        }
        if size.0 == 0 || size.1 == 0 {
            return Err(ControlError::ZeroExtent);
        }
        self.size = size;
        Ok(())
    }
}

impl Default for AutomataControl {
    /// A stopped simulation on a grid of 25 by 25 cells.
    fn default() -> (control: Self)
        ensures
            !control.running(),
            control.size() == Size(25, 25),
    {
        AutomataControl { running: false, size: Size(25, 25) }
    }
}

/// Advances the grid once per tick while the settings say that the
/// simulation runs.
pub struct CellSystem;

impl CellSystem {
    /// One tick. A stopped simulation leaves the grid alone; a running one
    /// replaces it by its next generation. Rows that do not form a table
    /// are reported and left as they were.
    pub fn run(&mut self, control: &AutomataControl, grid: &mut AutomataGrid) -> (result: Result<
        (),
        GridError,
    >)
        ensures
            !control.running() ==> result is Ok && *final(grid) == *old(grid),
            control.running() && is_table(old(grid)@) ==> result is Ok && final(grid)@
                == next_generation(old(grid)@),
            control.running() && !is_table(old(grid)@) ==> result == Err::<(), GridError>(
                GridError::Malformed,
            ) && *final(grid) == *old(grid),
    {
        if !control.running() {
            return Ok(());
        }
        let mut rows: Vec<Vec<bool>> = Vec::new();
        std::mem::swap(&mut rows, &mut grid.0);
        match Simulation::from_grid(AutomataGrid(rows)) {
            Ok(mut simulation) => {
                simulation.next();
                *grid = simulation.into_grid();
                Ok(())
            },
            Err(rejected) => {
                *grid = rejected;
                Err(GridError::Malformed)
            },
        }
    }
}

} // verus!
