//! One funding proposal: the record, its mathematical view and the
//! transitions that a single record can make.

use vstd::prelude::*;
use crate::funding::{compute_matched_amount, matched_amount};

verus! {

/// Where a proposal stands in its life.
#[derive(Clone, Copy, PartialEq, Eq, Structural, Debug)]
pub enum ProposalStatus {
    Active,
    Funded,
    Completed,
}

/// Why an operation on the ledger was refused. A refused operation changes
/// nothing.
#[derive(Clone, Copy, PartialEq, Eq, Structural, Debug)]
pub enum DaoError {
    /// No proposal has the given id.
    NotFound,
    /// The caller is not the proposer.
    Unauthorized,
    /// The proposal no longer takes contributions.
    InvalidState,
}

/// A funding request with the contributions it has gathered.
#[derive(Debug, PartialEq, Eq)]
pub struct Proposal {
    pub id: u64,
    pub proposer: String,
    pub title: String,
    pub description: String,
    /// Number of contribution events received.
    pub votes: u64,
    /// Sum of the deposits received, in the smallest currency unit.
    pub contributions: u128,
    /// Number of contribution events received, as the matching formula
    /// counts them.
    pub voter_count: u64,
    pub status: ProposalStatus,
}

/// What a [`Proposal`] is, mathematically.
pub struct ProposalView {
    pub id: nat,
    pub proposer: Seq<char>,
    pub title: Seq<char>,
    pub description: Seq<char>,
    pub votes: nat,
    pub contributions: nat,
    pub voter_count: nat,
    pub status: ProposalStatus,
}

impl ProposalView {
    /// A proposal as it is at creation: active, with nothing received.
    pub open spec fn fresh(
        id: nat,
        proposer: Seq<char>,
        title: Seq<char>,
        description: Seq<char>,
    ) -> ProposalView {
        ProposalView {
            id,
            proposer,
            title,
            description,
            votes: 0,
            contributions: 0,
            voter_count: 0,
            status: ProposalStatus::Active,
        }
    }

    /// The proposal after one more contribution of `amount`.
    pub open spec fn contributed(self, amount: nat) -> ProposalView {
        ProposalView {
            votes: self.votes + 1,
            voter_count: self.voter_count + 1,
            contributions: self.contributions + amount,
            ..self
        }
    }

    /// The proposal with its status replaced.
    pub open spec fn with_status(self, status: ProposalStatus) -> ProposalView {
        ProposalView { status, ..self }
    }

    /// The outcome of a contribution: refused unless the proposal is active.
    pub open spec fn contribution_outcome(self) -> Result<(), DaoError> {
        if self.status == ProposalStatus::Active {
            Ok(())
        } else {
            Err(DaoError::InvalidState)
        }
    }

    /// The outcome of a status change asked for by `caller`: refused unless
    /// the caller is the proposer.
    pub open spec fn status_change_outcome(self, caller: Seq<char>) -> Result<(), DaoError> {
        if caller == self.proposer {
            Ok(())
        } else {
            Err(DaoError::Unauthorized)
        }
    }

    /// The matched funding of this proposal against a pool of `pool`.
    pub open spec fn matched_funding(self, pool: nat) -> nat {
        matched_amount(self.voter_count, self.contributions, pool)
    }

    /// Both counters have counted the same contribution events.
    pub open spec fn counters_agree(self) -> bool {
        self.votes == self.voter_count
    }
}

impl View for Proposal {
    type V = ProposalView;

    open spec fn view(&self) -> ProposalView {
        ProposalView {
            id: self.id as nat,
            proposer: self.proposer@,
            title: self.title@,
            description: self.description@,
            votes: self.votes as nat,
            contributions: self.contributions as nat,
            voter_count: self.voter_count as nat,
            status: self.status,
        }
    }
}

impl Clone for Proposal {
    fn clone(&self) -> (copy: Self)
        ensures
            copy == *self,
    {
        Proposal {
            id: self.id,
            proposer: self.proposer.clone(),
            title: self.title.clone(),
            description: self.description.clone(),
            votes: self.votes,
            contributions: self.contributions,
            voter_count: self.voter_count,
            status: self.status,
        }
    }
}

impl Proposal {
    /// Creates the proposal with the given id, active and with nothing
    /// received yet.
    pub fn new(id: u64, proposer: String, title: String, description: String) -> (proposal: Self)
        ensures
            proposal@ == ProposalView::fresh(id as nat, proposer@, title@, description@),
    {
        Proposal {
            id,
            proposer,
            title,
            description,
            votes: 0,
            contributions: 0,
            voter_count: 0,
            status: ProposalStatus::Active,
        }
    }

    /// Records one contribution of `deposit`, if the proposal is active.
    ///
    /// Both counters go up by one and the deposit is added to the
    /// contributions. A deposit of zero is taken like any other.
    pub fn record_contribution(&mut self, deposit: u128) -> (outcome: Result<(), DaoError>)
        requires
            old(self)@.contribution_outcome() is Ok ==> {
                &&& old(self).votes < u64::MAX
                &&& old(self).voter_count < u64::MAX
                &&& old(self).contributions + deposit <= u128::MAX
            },
        ensures
            outcome == old(self)@.contribution_outcome(),
            outcome is Ok ==> final(self)@ == old(self)@.contributed(deposit as nat),
            outcome is Err ==> *final(self) == *old(self),
    {
        match self.status {
            ProposalStatus::Active => {
                self.votes = self.votes + 1;
                self.voter_count = self.voter_count + 1;
                self.contributions = self.contributions + deposit;
                Ok(())
            },
            _ => Err(DaoError::InvalidState),
        }
    }

    /// Sets the status on behalf of `caller`, who must be the proposer.
    ///
    /// The order of the statuses is not enforced: any status may follow any
    /// other.
    pub fn change_status(&mut self, caller: &String, status: ProposalStatus) -> (outcome: Result<
        (),
        DaoError,
    >)
        ensures
            outcome == old(self)@.status_change_outcome(caller@),
            outcome is Ok ==> final(self)@ == old(self)@.with_status(status),
            outcome is Err ==> *final(self) == *old(self),
    {
        if *caller == self.proposer {
            self.status = status;
            Ok(())
        } else {
            Err(DaoError::Unauthorized)
        }
    }

    /// The matched funding of this proposal against a pool of `pool`.
    pub fn matched_funding(&self, pool: u128) -> (matched: u128)
        ensures
            matched == self@.matched_funding(pool as nat),
    {
        compute_matched_amount(self.voter_count, self.contributions, pool)
    }
}

} // verus!
