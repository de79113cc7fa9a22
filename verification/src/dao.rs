//! The proposal ledger: proposals by id, and the matching pool that every
//! contribution feeds.

use vstd::prelude::*;
use crate::dao_model::{
    lemma_total_prefix, lemma_total_push, lemma_total_update, total_contributions, DaoView,
};
use crate::proposal::{DaoError, Proposal, ProposalStatus, ProposalView};

verus! {

/// The views of the given proposals, in the same order.
pub open spec fn views_of(proposals: Seq<Proposal>) -> Seq<ProposalView> {
    proposals.map_values(|p: Proposal| p@)
}

/// The ledger. A proposal's id is its place in `proposals`; proposals are
/// never removed.
pub struct DaicDao {
    proposals: Vec<Proposal>,
    proposal_count: u64,
    matching_pool: u128,
}

impl View for DaicDao {
    type V = DaoView;

    closed spec fn view(&self) -> DaoView {
        DaoView {
            proposals: views_of(self.proposals@),
            matching_pool: self.matching_pool as nat,
        }
    }
}

impl DaicDao {
    /// The invariant that every operation keeps: the ledger's view is well
    /// formed and the stored count is the number of proposals.
    pub closed spec fn wf(&self) -> bool {
        &&& self@.wf()
        &&& self.proposal_count == self.proposals@.len()
    }

    /// A well-formed ledger has a well-formed view, whose sizes fit the
    /// machine.
    pub proof fn lemma_wf_view(&self)
        requires
            self.wf(),
        ensures
            self@.wf(),
            self@.proposals.len() <= u64::MAX,
            self@.matching_pool <= u128::MAX,
            forall|i: int|
                0 <= i < self@.proposals.len() ==> {
                    &&& (#[trigger] self@.proposals[i]).votes <= u64::MAX
                    &&& self@.proposals[i].voter_count <= u64::MAX
                    &&& self@.proposals[i].contributions <= self@.matching_pool
                },
    {
        assert forall|i: int| 0 <= i < self@.proposals.len() implies {
            &&& (#[trigger] self@.proposals[i]).votes <= u64::MAX
            &&& self@.proposals[i].voter_count <= u64::MAX
            &&& self@.proposals[i].contributions <= self@.matching_pool
        } by {
            lemma_total_update(self@.proposals, i, self@.proposals[i]);
        }
    }

    /// The place of the proposal with the given id, if there is one.
    fn slot(&self, proposal_id: u64) -> (slot: Option<usize>)
        requires
            self.wf(),
        ensures
            slot is Some <==> self@.has(proposal_id as nat),
            slot is Some ==> slot->0 == proposal_id && self@.proposals[proposal_id as int]
                == self.proposals@[proposal_id as int]@,
    {
        let n: usize = self.proposals.len();
        if proposal_id < n as u64 {
            Some(proposal_id as usize)
        } else {
            None
        }
    }

    /// An empty ledger.
    pub fn new() -> (dao: Self)
        ensures
            dao.wf(),
            dao@ == DaoView::empty(),
    {
        let dao = DaicDao { proposals: Vec::new(), proposal_count: 0, matching_pool: 0 };
        assert(dao@.proposals =~= Seq::empty());
        dao
    }

    /// Rebuilds a ledger from stored records and a stored pool.
    ///
    /// The parts are accepted exactly when they satisfy the ledger's
    /// invariant: the records' ids are their places, the two counters of
    /// each record agree, and the pool is the sum of all contributions.
    pub fn from_parts(proposals: Vec<Proposal>, matching_pool: u128) -> (dao: Option<Self>)
        ensures
            dao is Some <==> (DaoView {
                proposals: views_of(proposals@),
                matching_pool: matching_pool as nat,
            }).wf(),
            dao is Some ==> dao->0.wf() && dao->0@ == (DaoView {
                proposals: views_of(proposals@),
                matching_pool: matching_pool as nat,
            }),
    {
        let ghost views = views_of(proposals@);
        let n: usize = proposals.len();
        let mut sum: u128 = 0;
        let mut i: usize = 0;
        while i < n
            invariant
                n == proposals@.len(),
                views == views_of(proposals@),
                i <= n,
                sum == total_contributions(views.take(i as int)),
                forall|j: int| 0 <= j < i ==> (#[trigger] views[j]).id == j,
                forall|j: int| 0 <= j < i ==> (#[trigger] views[j]).counters_agree(),
            decreases n - i,
        {
            let p = &proposals[i];
            proof {
                assert(views.take(i + 1) =~= views.take(i as int).push(views[i as int]));
                lemma_total_push(views.take(i as int), views[i as int]);
                lemma_total_prefix(views, i + 1);
            }
            if p.id != i as u64 || p.votes != p.voter_count {
                return None;
            }
            match sum.checked_add(p.contributions) {
                Some(next) => { sum = next; },
                None => { return None; },
            }
            i = i + 1;
        }
        assert(views.take(n as int) =~= views);
        if sum != matching_pool {
            return None;
        }
        Some(DaicDao { proposals, proposal_count: n as u64, matching_pool })
    }

    /// Creates a proposal owned by `proposer` and returns its id, the number
    /// of proposals created before it.
    pub fn create_proposal(&mut self, proposer: String, title: String, description: String) -> (id:
        u64)
        requires
            old(self).wf(),
            old(self)@.proposal_count() < u64::MAX,
        ensures
            final(self).wf(),
            id == old(self)@.proposal_count(),
            final(self)@ == old(self)@.create(proposer@, title@, description@),
            final(self)@.proposal_count() == old(self)@.proposal_count() + 1,
    {
        let id: u64 = self.proposal_count;
        let proposal = Proposal::new(id, proposer, title, description);
        proof {
            lemma_total_push(self@.proposals, proposal@);
        }
        self.proposals.push(proposal);
        self.proposal_count = self.proposal_count + 1;
        assert(self@.proposals =~= old(self)@.proposals.push(proposal@));
        id
    }

    /// Records a contribution of `deposit` to the proposal `proposal_id`.
    ///
    /// The proposal's counters, its contributions and the pool change
    /// together, or not at all.
    pub fn vote(&mut self, proposal_id: u64, deposit: u128) -> (outcome: Result<(), DaoError>)
        requires
            old(self).wf(),
            old(self)@.vote_outcome(proposal_id as nat) is Ok ==> {
                &&& old(self)@.proposals[proposal_id as int].votes < u64::MAX
                &&& old(self)@.matching_pool + deposit <= u128::MAX
            },
        ensures
            final(self).wf(),
            outcome == old(self)@.vote_outcome(proposal_id as nat),
            final(self)@ == old(self)@.after_vote(proposal_id as nat, deposit as nat),
            outcome is Err ==> final(self)@ == old(self)@,
    {
        let idx: usize = match self.slot(proposal_id) {
            Some(idx) => idx,
            None => { return Err(DaoError::NotFound); },
        };
        proof {
            self.lemma_wf_view();
            lemma_total_update(
                self@.proposals,
                idx as int,
                self@.proposals[idx as int].contributed(deposit as nat),
            );
        }
        let mut proposal = self.proposals[idx].clone();
        match proposal.record_contribution(deposit) {
            Ok(()) => {
                self.proposals.set(idx, proposal);
                self.matching_pool = self.matching_pool + deposit;
                assert(self@.proposals =~= old(self)@.proposals.update(idx as int, proposal@));
                Ok(())
            },
            Err(e) => Err(e),
        }
    }

    /// Sets the status of a proposal on behalf of `caller`.
    fn set_status(&mut self, caller: &String, proposal_id: u64, status: ProposalStatus) -> (outcome:
        Result<(), DaoError>)
        requires
            old(self).wf(),
        ensures
            final(self).wf(),
            outcome == old(self)@.status_change_outcome(caller@, proposal_id as nat),
            final(self)@ == old(self)@.after_status_change(caller@, proposal_id as nat, status),
            outcome is Err ==> final(self)@ == old(self)@,
    {
        let idx: usize = match self.slot(proposal_id) {
            Some(idx) => idx,
            None => { return Err(DaoError::NotFound); },
        };
        proof {
            lemma_total_update(
                self@.proposals,
                idx as int,
                self@.proposals[idx as int].with_status(status),
            );
        }
        let mut proposal = self.proposals[idx].clone();
        match proposal.change_status(caller, status) {
            Ok(()) => {
                self.proposals.set(idx, proposal);
                assert(self@.proposals =~= old(self)@.proposals.update(idx as int, proposal@));
                Ok(())
            },
            Err(e) => Err(e),
        }
    }

    /// Marks a proposal as funded. Only its proposer may do so; the status
    /// it had before does not matter.
    pub fn mark_funded(&mut self, caller: &String, proposal_id: u64) -> (outcome: Result<
        (),
        DaoError,
    >)
        requires
            old(self).wf(),
        ensures
            final(self).wf(),
            outcome == old(self)@.status_change_outcome(caller@, proposal_id as nat),
            final(self)@ == old(self)@.after_status_change(
                caller@,
                proposal_id as nat,
                ProposalStatus::Funded,
            ),
            outcome is Err ==> final(self)@ == old(self)@,
    {
        self.set_status(caller, proposal_id, ProposalStatus::Funded)
    }

    /// Marks a proposal as completed. Only its proposer may do so; the
    /// status it had before does not matter.
    pub fn mark_completed(&mut self, caller: &String, proposal_id: u64) -> (outcome: Result<
        (),
        DaoError,
    >)
        requires
            old(self).wf(),
        ensures
            final(self).wf(),
            outcome == old(self)@.status_change_outcome(caller@, proposal_id as nat),
            final(self)@ == old(self)@.after_status_change(
                caller@,
                proposal_id as nat,
                ProposalStatus::Completed,
            ),
            outcome is Err ==> final(self)@ == old(self)@,
    {
        self.set_status(caller, proposal_id, ProposalStatus::Completed)
    }

    /// The proposal with the given id, if there is one.
    pub fn get_proposal(&self, proposal_id: u64) -> (found: Option<Proposal>)
        requires
            self.wf(),
        ensures
            found is Some <==> self@.has(proposal_id as nat),
            found is Some ==> found->0@ == self@.proposals[proposal_id as int],
    {
        match self.slot(proposal_id) {
            Some(idx) => Some(self.proposals[idx].clone()),
            None => None,
        }
    }

    /// All proposals, in order of creation.
    pub fn get_all_proposals(&self) -> (all: Vec<Proposal>)
        ensures
            views_of(all@) == self@.proposals,
    {
        let mut all: Vec<Proposal> = Vec::new();
        let n: usize = self.proposals.len();
        let mut i: usize = 0;
        while i < n
            invariant
                n == self.proposals@.len(),
                i <= n,
                all@ == self.proposals@.take(i as int),
            decreases n - i,
        {
            all.push(self.proposals[i].clone());
            assert(all@ =~= self.proposals@.take(i + 1));
            i = i + 1;
        }
        assert(all@ =~= self.proposals@);
        all
    }

    /// The number of proposals ever created.
    pub fn get_proposal_count(&self) -> (count: u64)
        requires
            self.wf(),
        ensures
            count == self@.proposal_count(),
    {
        self.proposal_count
    }

    /// The matching pool, which is the sum of the contributions of all
    /// proposals.
    pub fn get_matching_pool(&self) -> (pool: u128)
        requires
            self.wf(),
        ensures
            pool == self@.matching_pool,
            pool == total_contributions(self@.proposals),
    {
        self.matching_pool
    }

    /// The matched funding of a proposal: the square of its number of
    /// contributions times their truncated average, capped at the whole
    /// pool.
    pub fn get_matched_funding(&self, proposal_id: u64) -> (matched: Result<u128, DaoError>)
        requires
            self.wf(),
        ensures
            matched is Ok <==> self@.has(proposal_id as nat),
            matched is Err ==> matched == Err::<u128, DaoError>(DaoError::NotFound),
            matched is Ok ==> Ok::<nat, DaoError>(matched->Ok_0 as nat) == self@.matched_funding(
                proposal_id as nat,
            ),
            self@.has(proposal_id as nat) && self@.proposals[proposal_id as int].contributions
                == 0 ==> matched == Ok::<u128, DaoError>(0),
    {
        match self.slot(proposal_id) {
            Some(idx) => Ok(self.proposals[idx].matched_funding(self.matching_pool)),
            None => Err(DaoError::NotFound),
        }
    }
}

} // verus!
