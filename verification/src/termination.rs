//! The termination policy: an external cutoff the search controller polls
//! at the start of every branch and backtrack transition.  The indefinite
//! policy never stops the search; a node budget stops it once that many
//! search nodes have been consumed.

use vstd::prelude::*;

verus! {

/// When the search must stop even without a definitive answer.
#[derive(Clone, Copy, PartialEq, Eq, Structural, Debug)]
pub enum TerminationPolicy {
    /// Never cut the search short.
    Indefinite,
    /// Stop once this many search nodes have been explored.
    NodeBudget(u64),
}

impl TerminationPolicy {
    /// The policy tells a search that has explored `nodes` nodes to stop.
    pub open spec fn spec_fires(self, nodes: u64) -> bool {
        match self {
            TerminationPolicy::Indefinite => false,
            TerminationPolicy::NodeBudget(budget) => nodes >= budget,
        }
    }

    /// Polled by the search controller before it consumes another node.
    pub fn fires(&self, nodes: u64) -> (r: bool)
        ensures
            r == self.spec_fires(nodes),
    {
        match self {
            TerminationPolicy::Indefinite => false,
            TerminationPolicy::NodeBudget(budget) => nodes >= *budget,
        }
    }
}

} // verus!
