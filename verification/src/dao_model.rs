//! The ledger as a mathematical value: a sequence of proposals, where a
//! proposal's place is its id, and the matching pool.

use vstd::prelude::*;
use crate::proposal::{DaoError, ProposalStatus, ProposalView};

verus! {

/// The sum of the contributions of all the given proposals.
pub open spec fn total_contributions(proposals: Seq<ProposalView>) -> nat
    decreases proposals.len(),
{
    if proposals.len() == 0 {
        0
    } else {
        total_contributions(proposals.drop_last()) + proposals.last().contributions
    }
}

/// What a ledger is, mathematically.
pub struct DaoView {
    /// Every proposal ever created, in order of creation.
    pub proposals: Seq<ProposalView>,
    /// Sum of all deposits ever made.
    pub matching_pool: nat,
}

impl DaoView {
    /// The ledger before anything has happened.
    pub open spec fn empty() -> DaoView {
        DaoView { proposals: Seq::empty(), matching_pool: 0 }
    }

    /// The number of proposals ever created, which is also the next id.
    pub open spec fn proposal_count(self) -> nat {
        self.proposals.len()
    }

    /// Whether a proposal has the given id.
    pub open spec fn has(self, id: nat) -> bool {
        id < self.proposals.len()
    }

    /// The invariant of the ledger: ids are the places `0, 1, 2, ...`, the
    /// two counters of each proposal agree, and the pool is the sum of all
    /// contributions.
    pub open spec fn wf(self) -> bool {
        &&& forall|i: int|
            0 <= i < self.proposals.len() ==> (#[trigger] self.proposals[i]).id == i
        &&& forall|i: int|
            0 <= i < self.proposals.len() ==> (#[trigger] self.proposals[i]).counters_agree()
        &&& self.matching_pool == total_contributions(self.proposals)
    }

    /// The ledger after `proposer` has created one more proposal.
    pub open spec fn create(
        self,
        proposer: Seq<char>,
        title: Seq<char>,
        description: Seq<char>,
    ) -> DaoView {
        DaoView {
            proposals: self.proposals.push(
                ProposalView::fresh(self.proposals.len(), proposer, title, description),
            ),
            ..self
        }
    }

    /// The outcome of a contribution to proposal `id`.
    pub open spec fn vote_outcome(self, id: nat) -> Result<(), DaoError> {
        if !self.has(id) {
            Err(DaoError::NotFound)
        } else {
            self.proposals[id as int].contribution_outcome()
        }
    }

    /// The ledger after a contribution of `amount` to proposal `id` has been
    /// taken: the proposal and the pool grow together.
    pub open spec fn contribute(self, id: nat, amount: nat) -> DaoView {
        DaoView {
            proposals: self.proposals.update(
                id as int,
                self.proposals[id as int].contributed(amount),
            ),
            matching_pool: self.matching_pool + amount,
        }
    }

    /// The ledger after an attempted contribution, taken or refused.
    pub open spec fn after_vote(self, id: nat, amount: nat) -> DaoView {
        if self.vote_outcome(id) is Ok {
            self.contribute(id, amount)
        } else {
            self
        }
    }

    /// The outcome of a status change of proposal `id` asked for by `caller`.
    pub open spec fn status_change_outcome(self, caller: Seq<char>, id: nat) -> Result<
        (),
        DaoError,
    > {
        if !self.has(id) {
            Err(DaoError::NotFound)
        } else {
            self.proposals[id as int].status_change_outcome(caller)
        }
    }

    /// The ledger with the status of proposal `id` replaced.
    pub open spec fn with_status(self, id: nat, status: ProposalStatus) -> DaoView {
        DaoView {
            proposals: self.proposals.update(
                id as int,
                self.proposals[id as int].with_status(status),
            ),
            ..self
        }
    }

    /// The ledger after an attempted status change, made or refused.
    pub open spec fn after_status_change(
        self,
        caller: Seq<char>,
        id: nat,
        status: ProposalStatus,
    ) -> DaoView {
        if self.status_change_outcome(caller, id) is Ok {
            self.with_status(id, status)
        } else {
            self
        }
    }

    /// The matched funding of proposal `id`, capped at the whole pool.
    pub open spec fn matched_funding(self, id: nat) -> Result<nat, DaoError> {
        if !self.has(id) {
            Err(DaoError::NotFound)
        } else {
            Ok(self.proposals[id as int].matched_funding(self.matching_pool))
        }
    }
}

/// Appending a proposal adds its contributions to the total.
pub proof fn lemma_total_push(proposals: Seq<ProposalView>, p: ProposalView)
    ensures
        total_contributions(proposals.push(p)) == total_contributions(proposals) + p.contributions,
{
    assert(proposals.push(p).drop_last() =~= proposals);
}

/// Replacing one proposal changes the total by the difference of the two
/// contributions, and no proposal holds more than the total.
pub proof fn lemma_total_update(proposals: Seq<ProposalView>, i: int, p: ProposalView)
    requires
        0 <= i < proposals.len(),
    ensures
        proposals[i].contributions <= total_contributions(proposals),
        total_contributions(proposals.update(i, p)) == total_contributions(proposals)
            - proposals[i].contributions + p.contributions,
    decreases proposals.len(),
{
    let last = proposals.len() - 1;
    if i == last {
        assert(proposals.update(i, p).drop_last() =~= proposals.drop_last());
    } else {
        lemma_total_update(proposals.drop_last(), i, p);
        assert(proposals.update(i, p).drop_last() =~= proposals.drop_last().update(i, p));
    }
}

/// The total of a prefix is at most the total of the whole.
pub proof fn lemma_total_prefix(proposals: Seq<ProposalView>, n: int)
    requires
        0 <= n <= proposals.len(),
    ensures
        total_contributions(proposals.take(n)) <= total_contributions(proposals),
    decreases proposals.len(),
{
    if n == proposals.len() {
        assert(proposals.take(n) =~= proposals);
    } else {
        lemma_total_prefix(proposals.drop_last(), n);
        assert(proposals.drop_last().take(n) =~= proposals.take(n));
    }
}

} // verus!
