//! Line counters: how many lines were seen, how many were kept, how many were
//! excluded.

use crate::filters::FilterDecision;
use vstd::prelude::*;

verus! {

/// The counter after one more line. A counter that is full starts again at 0.
pub open spec fn bumped(n: u64) -> u64 {
    if n == u64::MAX {
        0
    } else {
        (n + 1) as u64
    }
}

/// The counter after `times` more lines.
pub open spec fn bumped_by(n: u64, times: nat) -> u64
    decreases times,
{
    if times == 0 {
        n
    } else {
        bumped(bumped_by(n, (times - 1) as nat))
    }
}

/// How often `d` occurs in `decisions`.
pub open spec fn occurrences(decisions: Seq<FilterDecision>, d: FilterDecision) -> nat
    decreases decisions.len(),
{
    if decisions.len() == 0 {
        0
    } else {
        occurrences(decisions.drop_last(), d) + if decisions.last() == d {
            1nat
        } else {
            0nat
        }
    }
}

/// How many of `decisions` let their line through.
pub open spec fn accepted_in(decisions: Seq<FilterDecision>) -> nat {
    occurrences(decisions, FilterDecision::Included) + occurrences(
        decisions,
        FilterDecision::Passed,
    )
}

/// How many of `decisions` are `Excluded`.
pub open spec fn excluded_in(decisions: Seq<FilterDecision>) -> nat {
    occurrences(decisions, FilterDecision::Excluded)
}

/// How many of `decisions` are `DroppedNoIncludeMatch`.
pub open spec fn dropped_in(decisions: Seq<FilterDecision>) -> nat {
    occurrences(decisions, FilterDecision::DroppedNoIncludeMatch)
}

/// Counters of processed lines.
#[derive(Debug)]
pub struct Stats {
    total: u64,
    included: u64,
    excluded: u64,
}

impl Stats {
    /// The number of lines seen.
    pub closed spec fn total(&self) -> u64 {
        self.total
    }

    /// The number of lines kept.
    pub closed spec fn included(&self) -> u64 {
        self.included
    }

    /// The number of lines excluded.
    pub closed spec fn excluded(&self) -> u64 {
        self.excluded
    }

    /// Whether the counters are those of a run that has classified exactly
    /// `decisions`, one line each.
    pub open spec fn reflects(&self, decisions: Seq<FilterDecision>) -> bool {
        &&& self.total() == decisions.len()
        &&& self.included() == accepted_in(decisions)
        &&& self.excluded() == excluded_in(decisions)
    }

    /// Whether these are the counters `before` with one more line of the given
    /// verdict counted: as seen, and as kept or excluded where the verdict says
    /// so.
    pub open spec fn follows(&self, before: Stats, decision: FilterDecision) -> bool {
        &&& self.total() == bumped(before.total())
        &&& self.included() == if decision.is_accepted() {
            bumped(before.included())
        } else {
            before.included()
        }
        &&& self.excluded() == if decision is Excluded {
            bumped(before.excluded())
        } else {
            before.excluded()
        }
    }

    /// Counters that have seen nothing.
    pub fn new() -> (stats: Stats)
        ensures
            stats.total() == 0,
            stats.included() == 0,
            stats.excluded() == 0,
            stats.reflects(Seq::empty()),
    {
        Stats { total: 0, included: 0, excluded: 0 }
    }

    /// Counts one line seen.
    pub fn inc_total(&mut self)
        ensures
            final(self).total() == bumped(old(self).total()),
            final(self).included() == old(self).included(),
            final(self).excluded() == old(self).excluded(),
    {
        self.total = self.total.wrapping_add(1);
    }

    /// Counts one line kept.
    pub fn inc_included(&mut self)
        ensures
            final(self).total() == old(self).total(),
            final(self).included() == bumped(old(self).included()),
            final(self).excluded() == old(self).excluded(),
    {
        self.included = self.included.wrapping_add(1);
    }

    /// Counts one line excluded.
    pub fn inc_excluded(&mut self)
        ensures
            final(self).total() == old(self).total(),
            final(self).included() == old(self).included(),
            final(self).excluded() == bumped(old(self).excluded()),
    {
        self.excluded = self.excluded.wrapping_add(1);
    }

    /// The three counters: lines seen, lines kept, lines excluded.
    pub fn snapshot(&self) -> (counts: (u64, u64, u64))
        ensures
            counts == (self.total(), self.included(), self.excluded()),
    {
        (self.total, self.included, self.excluded)
    }

    /// Counts one classified line: always as seen, and as kept or excluded
    /// where the verdict says so.
    pub fn record(&mut self, decision: FilterDecision)
        ensures
            final(self).follows(*old(self), decision),
    {
        self.inc_total();
        match decision {
            FilterDecision::Excluded => {
                self.inc_excluded();
            },
            FilterDecision::Included => {
                self.inc_included();
            },
            FilterDecision::Passed => {
                self.inc_included();
            },
            FilterDecision::DroppedNoIncludeMatch => {},
        }
    }
}

/// Every decision is of exactly one kind: kept, excluded or dropped.
pub proof fn lemma_decisions_partition(decisions: Seq<FilterDecision>)
    ensures
        decisions.len() == accepted_in(decisions) + excluded_in(decisions) + dropped_in(
            decisions,
        ),
    decreases decisions.len(),
{
    if decisions.len() > 0 {
        lemma_decisions_partition(decisions.drop_last());
    }
}

/// Counter conservation: in counters that reflect a run, the lines seen are
/// the lines kept, the lines excluded and the lines dropped for want of an
/// include match; so kept and excluded together never exceed the total.
pub proof fn lemma_counter_conservation(stats: Stats, decisions: Seq<FilterDecision>)
    requires
        stats.reflects(decisions),
    ensures
        stats.total() == stats.included() + stats.excluded() + dropped_in(decisions),
        stats.total() >= stats.included() + stats.excluded(),
{
    lemma_decisions_partition(decisions);
}

/// Recording keeps the counters in step with the run: if `before` reflects
/// `decisions` and is not full, and `after` is `before` with `decision`
/// recorded, then `after` reflects `decisions` with `decision` added.
pub proof fn lemma_record_reflects(
    before: Stats,
    after: Stats,
    decisions: Seq<FilterDecision>,
    decision: FilterDecision,
)
    requires
        before.reflects(decisions),
        before.total() < u64::MAX,
        after.follows(before, decision),
    ensures
        after.reflects(decisions.push(decision)),
{
    lemma_decisions_partition(decisions);
    assert(decisions.push(decision).drop_last() =~= decisions);
}

} // verus!
