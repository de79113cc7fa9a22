//! What holds of the ledger over whole histories: each law is stated over
//! the views that the operations' contracts use, and proved.
//!
//! The contract of each operation of the ledger says that the ledger's view
//! changes as [`step`] says for the matching [`DaoOp`]; a history is a
//! sequence of such calls, and [`run`] follows it.

use vstd::prelude::*;
use crate::dao_model::{lemma_total_push, lemma_total_update, total_contributions, DaoView};
use crate::proposal::{DaoError, ProposalStatus, ProposalView};

verus! {

/// One call on the ledger, with everything it was given.
pub enum DaoOp {
    /// `create_proposal` by `proposer`.
    Create { proposer: Seq<char>, title: Seq<char>, description: Seq<char> },
    /// `vote` with a deposit of `amount` on proposal `id`.
    Vote { id: nat, amount: nat },
    /// `mark_funded` by `caller` on proposal `id`.
    MarkFunded { caller: Seq<char>, id: nat },
    /// `mark_completed` by `caller` on proposal `id`.
    MarkCompleted { caller: Seq<char>, id: nat },
}

/// The ledger after one call, whether the call was carried out or refused.
pub open spec fn step(s: DaoView, op: DaoOp) -> DaoView {
    match op {
        DaoOp::Create { proposer, title, description } => s.create(proposer, title, description),
        DaoOp::Vote { id, amount } => s.after_vote(id, amount),
        DaoOp::MarkFunded { caller, id } => s.after_status_change(
            caller,
            id,
            ProposalStatus::Funded,
        ),
        DaoOp::MarkCompleted { caller, id } => s.after_status_change(
            caller,
            id,
            ProposalStatus::Completed,
        ),
    }
}

/// The ledger after the given calls, made in order from `start`.
pub open spec fn run(start: DaoView, ops: Seq<DaoOp>) -> DaoView
    decreases ops.len(),
{
    if ops.len() == 0 {
        start
    } else {
        step(run(start, ops.drop_last()), ops.last())
    }
}

/// The number of `create_proposal` calls among the given calls.
pub open spec fn creations(ops: Seq<DaoOp>) -> nat
    decreases ops.len(),
{
    if ops.len() == 0 {
        0
    } else {
        creations(ops.drop_last()) + if ops.last() is Create {
            1nat
        } else {
            0nat
        }
    }
}

/// Whether `op`, made on the ledger `before`, is a contribution to proposal
/// `id` that is taken.
pub open spec fn is_taken_vote(before: DaoView, op: DaoOp, id: nat) -> bool {
    op matches DaoOp::Vote { id: target, .. } && target == id && before.vote_outcome(id) is Ok
}

/// The number of contributions to proposal `id` that are taken among the
/// given calls, made in order from `start`.
pub open spec fn votes_taken(start: DaoView, ops: Seq<DaoOp>, id: nat) -> nat
    decreases ops.len(),
{
    if ops.len() == 0 {
        0
    } else {
        votes_taken(start, ops.drop_last(), id) + if is_taken_vote(
            run(start, ops.drop_last()),
            ops.last(),
            id,
        ) {
            1nat
        } else {
            0nat
        }
    }
}

/// The sum of the deposits of the contributions to proposal `id` that are
/// taken among the given calls, made in order from `start`.
pub open spec fn amount_taken(start: DaoView, ops: Seq<DaoOp>, id: nat) -> nat
    decreases ops.len(),
{
    if ops.len() == 0 {
        0
    } else {
        amount_taken(start, ops.drop_last(), id) + if is_taken_vote(
            run(start, ops.drop_last()),
            ops.last(),
            id,
        ) {
            ops.last()->amount
        } else {
            0nat
        }
    }
}

/// Every call keeps the ledger's invariant.
pub proof fn law_step_keeps_invariant(s: DaoView, op: DaoOp)
    requires
        s.wf(),
    ensures
        step(s, op).wf(),
{
    match op {
        DaoOp::Create { proposer, title, description } => {
            lemma_total_push(
                s.proposals,
                ProposalView::fresh(s.proposals.len(), proposer, title, description),
            );
        },
        DaoOp::Vote { id, amount } => {
            if s.vote_outcome(id) is Ok {
                let p = s.proposals[id as int].contributed(amount);
                lemma_total_update(s.proposals, id as int, p);
            }
        },
        DaoOp::MarkFunded { caller, id } => {
            if s.status_change_outcome(caller, id) is Ok {
                let p = s.proposals[id as int].with_status(ProposalStatus::Funded);
                lemma_total_update(s.proposals, id as int, p);
            }
        },
        DaoOp::MarkCompleted { caller, id } => {
            if s.status_change_outcome(caller, id) is Ok {
                let p = s.proposals[id as int].with_status(ProposalStatus::Completed);
                lemma_total_update(s.proposals, id as int, p);
            }
        },
    }
}

/// After any calls from the empty ledger, the matching pool is the sum of
/// the contributions of all proposals, each id is its proposal's place, and
/// the two counters of each proposal agree.
pub proof fn law_pool_is_total(ops: Seq<DaoOp>)
    ensures
        run(DaoView::empty(), ops).wf(),
        run(DaoView::empty(), ops).matching_pool == total_contributions(
            run(DaoView::empty(), ops).proposals,
        ),
{
    law_run_keeps_invariant(DaoView::empty(), ops);
}

/// Any calls keep the ledger's invariant.
pub proof fn law_run_keeps_invariant(start: DaoView, ops: Seq<DaoOp>)
    requires
        start.wf(),
    ensures
        run(start, ops).wf(),
    decreases ops.len(),
{
    if ops.len() > 0 {
        law_run_keeps_invariant(start, ops.drop_last());
        law_step_keeps_invariant(run(start, ops.drop_last()), ops.last());
    }
}

/// The number of proposals grows by one with each `create_proposal` and
/// with nothing else; so the id that a `create_proposal` returns, which is
/// the number of proposals before it, is the number of `create_proposal`
/// calls made before it: ids are `0, 1, 2, ...` in call order.
pub proof fn law_ids_are_sequential(start: DaoView, ops: Seq<DaoOp>)
    ensures
        run(start, ops).proposal_count() == start.proposal_count() + creations(ops),
        run(DaoView::empty(), ops).proposal_count() == creations(ops),
    decreases ops.len(),
{
    if ops.len() > 0 {
        law_ids_are_sequential(start, ops.drop_last());
        law_ids_are_sequential(DaoView::empty(), ops.drop_last());
    }
}

/// Made from the empty ledger, the `k`-th of a run of `create_proposal`
/// calls, counting from zero, finds `k` proposals and so returns the id
/// `k`; the proposal it creates keeps that id, and after the run the count
/// is the number of calls made.
pub proof fn law_kth_creation_returns_k(ops: Seq<DaoOp>, k: int)
    requires
        forall|i: int| 0 <= i < ops.len() ==> ops[i] is Create,
        0 <= k < ops.len(),
    ensures
        run(DaoView::empty(), ops.take(k)).proposal_count() == k,
        run(DaoView::empty(), ops).proposal_count() == ops.len(),
        run(DaoView::empty(), ops).proposals[k].id == k,
{
    lemma_creations_only(ops);
    lemma_creations_only(ops.take(k));
    law_ids_are_sequential(DaoView::empty(), ops);
    law_ids_are_sequential(DaoView::empty(), ops.take(k));
    law_run_keeps_invariant(DaoView::empty(), ops);
}

/// Among calls that are all `create_proposal`, every call is a creation.
proof fn lemma_creations_only(ops: Seq<DaoOp>)
    requires
        forall|i: int| 0 <= i < ops.len() ==> ops[i] is Create,
    ensures
        creations(ops) == ops.len(),
    decreases ops.len(),
{
    if ops.len() > 0 {
        lemma_creations_only(ops.drop_last());
    }
}

/// What proposal `id` had received in `start`: nothing, if it did not
/// exist yet.
pub open spec fn received_before(start: DaoView, id: nat) -> ProposalView {
    if start.has(id) {
        start.proposals[id as int]
    } else {
        ProposalView::fresh(id, Seq::empty(), Seq::empty(), Seq::empty())
    }
}

/// After any calls, each counter of a proposal has grown by the number of
/// contributions to it that were taken, and its contributions by the sum of
/// their deposits. No contribution to a proposal is taken before the
/// proposal exists.
pub proof fn law_counters_count_contributions(start: DaoView, ops: Seq<DaoOp>, id: nat)
    ensures
        run(start, ops).proposals.len() >= start.proposals.len(),
        !run(start, ops).has(id) ==> votes_taken(start, ops, id) == 0 && amount_taken(
            start,
            ops,
            id,
        ) == 0,
        run(start, ops).has(id) ==> {
            let p = run(start, ops).proposals[id as int];
            let q = received_before(start, id);
            &&& p.votes == q.votes + votes_taken(start, ops, id)
            &&& p.voter_count == q.voter_count + votes_taken(start, ops, id)
            &&& p.contributions == q.contributions + amount_taken(start, ops, id)
        },
    decreases ops.len(),
{
    if ops.len() > 0 {
        law_counters_count_contributions(start, ops.drop_last(), id);
    }
}

/// From the empty ledger, after any calls, both counters of every proposal
/// equal the number of contributions to it that were taken, and its
/// contributions equal the sum of their deposits.
pub proof fn law_counters_from_empty(ops: Seq<DaoOp>, id: nat)
    requires
        run(DaoView::empty(), ops).has(id),
    ensures
        ({
            let p = run(DaoView::empty(), ops).proposals[id as int];
            &&& p.votes == votes_taken(DaoView::empty(), ops, id)
            &&& p.voter_count == votes_taken(DaoView::empty(), ops, id)
            &&& p.contributions == amount_taken(DaoView::empty(), ops, id)
        }),
{
    law_counters_count_contributions(DaoView::empty(), ops, id);
}

/// A proposal that is funded or completed is never active again, whatever
/// calls follow, and so takes no further contribution: its counters and its
/// contributions stay as they are.
pub proof fn law_closed_proposal_stays_closed(start: DaoView, ops: Seq<DaoOp>, id: nat)
    requires
        start.has(id),
        start.proposals[id as int].status != ProposalStatus::Active,
    ensures
        run(start, ops).has(id),
        run(start, ops).proposals[id as int].status != ProposalStatus::Active,
        votes_taken(start, ops, id) == 0,
        amount_taken(start, ops, id) == 0,
        run(start, ops).proposals[id as int].votes == start.proposals[id as int].votes,
        run(start, ops).proposals[id as int].voter_count == start.proposals[id as int].voter_count,
        run(start, ops).proposals[id as int].contributions
            == start.proposals[id as int].contributions,
    decreases ops.len(),
{
    if ops.len() > 0 {
        law_closed_proposal_stays_closed(start, ops.drop_last(), id);
    }
    law_counters_count_contributions(start, ops, id);
}

/// A contribution to a proposal that is funded or completed is refused as
/// an invalid state, and the ledger stays as it was.
pub proof fn law_closed_proposal_takes_nothing(s: DaoView, id: nat, amount: nat)
    requires
        s.has(id),
        s.proposals[id as int].status != ProposalStatus::Active,
    ensures
        s.vote_outcome(id) == Err::<(), DaoError>(DaoError::InvalidState),
        s.after_vote(id, amount) == s,
{
}

/// A status change that anyone but the proposer asks for is refused as
/// unauthorized, and the ledger, the status with it, stays as it was.
pub proof fn law_only_proposer_changes_status(
    s: DaoView,
    caller: Seq<char>,
    id: nat,
    status: ProposalStatus,
)
    requires
        s.has(id),
        caller != s.proposals[id as int].proposer,
    ensures
        s.status_change_outcome(caller, id) == Err::<(), DaoError>(DaoError::Unauthorized),
        s.after_status_change(caller, id, status) == s,
{
}

/// A proposal that has received no money is matched with nothing.
pub proof fn law_nothing_matches_nothing(s: DaoView, id: nat)
    requires
        s.has(id),
        s.proposals[id as int].contributions == 0,
    ensures
        s.matched_funding(id) == Ok::<nat, DaoError>(0),
{
}

} // verus!
