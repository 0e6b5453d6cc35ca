//! Paces a report of the displayed cells: one report every hundred ticks.

use vstd::prelude::*;

verus! {

/// Number of ticks from one report to the next.
pub const REPORT_PERIOD: u32 = 100;

/// Counts ticks and says on which of them the cells are to be reported.
#[derive(Debug)]
pub struct PrintCellsTransform {
    counter: u32,
}

impl PrintCellsTransform {
    #[verifier::type_invariant]
    spec fn well_formed(self) -> bool {
        self.counter < REPORT_PERIOD
    }

    /// Ticks counted since the last report.
    pub closed spec fn ticks(&self) -> nat {
        self.counter as nat
    }

    /// A counter that has seen no tick yet.
    pub fn new() -> (system: Self)
        ensures
            system.ticks() == 0,
    {
        PrintCellsTransform { counter: 0 }
    }

    /// Ticks counted since the last report: always below the period.
    pub fn counter(&self) -> (counter: u32)
        ensures
            counter == self.ticks(),
            counter < REPORT_PERIOD,
    {
        proof {
            use_type_invariant(self);
        }
        self.counter
    }

    /// Counts one tick. On the tick that completes a period the counter
    /// starts over and the result says that the cells are to be reported.
    pub fn run(&mut self) -> (report: bool)
        ensures
            report == (old(self).ticks() + 1 == REPORT_PERIOD),
            final(self).ticks() == if report {
                0
            } else {
                old(self).ticks() + 1
            },
    {
        proof {
            use_type_invariant(&*self);
        }
        let counted = self.counter + 1;
        if counted < REPORT_PERIOD {
            self.counter = counted;
            return false;
        }
        self.counter = 0;
        true
    }
}

/// From a fresh counter, the first report falls on the tick that completes
/// the first period, and each later one a full period after the one before.
pub proof fn lemma_reports_are_a_period_apart(ticks: nat)
    ensures
        ticks_after(ticks) == ticks % (REPORT_PERIOD as nat),
        ticks > 0 ==> (reports_on(ticks) <==> ticks % (REPORT_PERIOD as nat) == 0),
    decreases ticks,
{
    if ticks > 0 {
        lemma_reports_are_a_period_apart((ticks - 1) as nat);
    }
}

/// The counter after `ticks` ticks of a fresh system.
pub open spec fn ticks_after(ticks: nat) -> nat
    decreases ticks,
{
    if ticks == 0 {
        0
    } else if ticks_after((ticks - 1) as nat) + 1 == REPORT_PERIOD {
        0
    } else {
        ticks_after((ticks - 1) as nat) + 1
    }
}

/// Whether tick number `ticks` of a fresh system, counted from one, reports.
pub open spec fn reports_on(ticks: nat) -> bool {
    ticks > 0 && ticks_after((ticks - 1) as nat) + 1 == REPORT_PERIOD
}

} // verus!
