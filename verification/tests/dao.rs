use daic_contracts::dao::DaicDao;
use daic_contracts::funding::compute_matched_amount;
use daic_contracts::proposal::{DaoError, Proposal, ProposalStatus};

fn alice() -> String {
    "alice.near".to_string()
}

fn bob() -> String {
    "bob.near".to_string()
}

fn dao_with_one() -> DaicDao {
    let mut dao = DaicDao::new();
    dao.create_proposal(alice(), "Well".to_string(), "Dig a well".to_string());
    dao
}

#[test]
fn new_ledger_is_empty() {
    let dao = DaicDao::new();
    assert_eq!(dao.get_proposal_count(), 0);
    assert_eq!(dao.get_matching_pool(), 0);
    assert!(dao.get_all_proposals().is_empty());
    assert_eq!(dao.get_proposal(0), None);
}

#[test]
fn ids_count_up_from_zero() {
    let mut dao = DaicDao::new();
    for expected in 0..5u64 {
        let id = dao.create_proposal(alice(), format!("t{}", expected), String::new());
        assert_eq!(id, expected);
        assert_eq!(dao.get_proposal_count(), expected + 1);
    }
    let all = dao.get_all_proposals();
    assert_eq!(all.len(), 5);
    for (place, p) in all.iter().enumerate() {
        assert_eq!(p.id, place as u64);
        assert_eq!(p.title, format!("t{}", place));
    }
}

#[test]
fn created_proposal_is_active_and_empty() {
    let dao = dao_with_one();
    let p = dao.get_proposal(0).unwrap();
    assert_eq!(
        p,
        Proposal {
            id: 0,
            proposer: alice(),
            title: "Well".to_string(),
            description: "Dig a well".to_string(),
            votes: 0,
            contributions: 0,
            voter_count: 0,
            status: ProposalStatus::Active,
        }
    );
}

#[test]
fn empty_texts_are_accepted() {
    let mut dao = DaicDao::new();
    let id = dao.create_proposal(alice(), String::new(), String::new());
    let p = dao.get_proposal(id).unwrap();
    assert_eq!(p.title, "");
    assert_eq!(p.description, "");
}

#[test]
fn contributions_add_up() {
    let mut dao = dao_with_one();
    dao.create_proposal(bob(), "Road".to_string(), String::new());
    assert_eq!(dao.vote(0, 10), Ok(()));
    assert_eq!(dao.vote(1, 5), Ok(()));
    assert_eq!(dao.vote(0, 32), Ok(()));
    let p0 = dao.get_proposal(0).unwrap();
    assert_eq!((p0.votes, p0.voter_count, p0.contributions), (2, 2, 42));
    let p1 = dao.get_proposal(1).unwrap();
    assert_eq!((p1.votes, p1.voter_count, p1.contributions), (1, 1, 5));
    assert_eq!(dao.get_matching_pool(), 47);
}

#[test]
fn pool_is_sum_of_contributions() {
    let mut dao = DaicDao::new();
    for i in 0..4u64 {
        dao.create_proposal(alice(), format!("p{}", i), String::new());
    }
    let deposits: [(u64, u128); 6] = [(0, 7), (3, 1), (1, 1000), (3, 0), (0, 5), (2, 19)];
    for (id, amount) in deposits {
        assert_eq!(dao.vote(id, amount), Ok(()));
        let total: u128 = dao.get_all_proposals().iter().map(|p| p.contributions).sum();
        assert_eq!(dao.get_matching_pool(), total);
    }
    assert_eq!(dao.get_matching_pool(), 1032);
}

#[test]
fn zero_deposit_still_counts() {
    let mut dao = dao_with_one();
    assert_eq!(dao.vote(0, 0), Ok(()));
    let p = dao.get_proposal(0).unwrap();
    assert_eq!((p.votes, p.voter_count, p.contributions), (1, 1, 0));
    assert_eq!(dao.get_matching_pool(), 0);
    assert_eq!(dao.get_matched_funding(0), Ok(0));
}

#[test]
fn vote_on_unknown_proposal_is_not_found() {
    let mut dao = dao_with_one();
    assert_eq!(dao.vote(1, 10), Err(DaoError::NotFound));
    assert_eq!(dao.get_matching_pool(), 0);
    assert_eq!(dao.get_proposal_count(), 1);
}

#[test]
fn vote_on_funded_proposal_is_invalid_state() {
    let mut dao = dao_with_one();
    assert_eq!(dao.vote(0, 10), Ok(()));
    assert_eq!(dao.mark_funded(&alice(), 0), Ok(()));
    let before = dao.get_proposal(0).unwrap();
    assert_eq!(dao.vote(0, 10), Err(DaoError::InvalidState));
    assert_eq!(dao.get_proposal(0).unwrap(), before);
    assert_eq!(dao.get_matching_pool(), 10);
}

#[test]
fn vote_on_completed_proposal_is_invalid_state() {
    let mut dao = dao_with_one();
    assert_eq!(dao.vote(0, 3), Ok(()));
    assert_eq!(dao.mark_completed(&alice(), 0), Ok(()));
    let before = dao.get_proposal(0).unwrap();
    assert_eq!(dao.vote(0, 10), Err(DaoError::InvalidState));
    assert_eq!(dao.get_proposal(0).unwrap(), before);
    assert_eq!(dao.get_matching_pool(), 3);
}

#[test]
fn only_proposer_marks_funded() {
    let mut dao = dao_with_one();
    assert_eq!(dao.mark_funded(&bob(), 0), Err(DaoError::Unauthorized));
    assert_eq!(dao.get_proposal(0).unwrap().status, ProposalStatus::Active);
    assert_eq!(dao.mark_funded(&alice(), 0), Ok(()));
    assert_eq!(dao.get_proposal(0).unwrap().status, ProposalStatus::Funded);
}

#[test]
fn only_proposer_marks_completed() {
    let mut dao = dao_with_one();
    assert_eq!(dao.mark_completed(&bob(), 0), Err(DaoError::Unauthorized));
    assert_eq!(dao.get_proposal(0).unwrap().status, ProposalStatus::Active);
    assert_eq!(dao.mark_completed(&alice(), 0), Ok(()));
    assert_eq!(dao.get_proposal(0).unwrap().status, ProposalStatus::Completed);
}

#[test]
fn marking_unknown_proposal_is_not_found() {
    let mut dao = dao_with_one();
    assert_eq!(dao.mark_funded(&alice(), 9), Err(DaoError::NotFound));
    assert_eq!(dao.mark_completed(&alice(), 9), Err(DaoError::NotFound));
    assert_eq!(dao.mark_funded(&bob(), 9), Err(DaoError::NotFound));
}

#[test]
fn status_order_is_not_enforced() {
    let mut dao = dao_with_one();
    assert_eq!(dao.mark_completed(&alice(), 0), Ok(()));
    assert_eq!(dao.get_proposal(0).unwrap().status, ProposalStatus::Completed);
    assert_eq!(dao.mark_funded(&alice(), 0), Ok(()));
    assert_eq!(dao.get_proposal(0).unwrap().status, ProposalStatus::Funded);
}

#[test]
fn status_change_keeps_the_rest() {
    let mut dao = dao_with_one();
    assert_eq!(dao.vote(0, 77), Ok(()));
    let before = dao.get_proposal(0).unwrap();
    assert_eq!(dao.mark_funded(&alice(), 0), Ok(()));
    let after = dao.get_proposal(0).unwrap();
    assert_eq!(after, Proposal { status: ProposalStatus::Funded, ..before });
    assert_eq!(dao.get_matching_pool(), 77);
}

#[test]
fn matched_funding_scenario() {
    let mut dao = DaicDao::new();
    let p0 = dao.create_proposal(alice(), "P0".to_string(), String::new());
    assert_eq!(dao.vote(p0, 100), Ok(()));
    assert_eq!(dao.get_proposal(p0).unwrap().voter_count, 1);
    assert_eq!(dao.get_matching_pool(), 100);
    assert_eq!(dao.get_matched_funding(p0), Ok(100));
    assert_eq!(dao.vote(p0, 100), Ok(()));
    let p = dao.get_proposal(p0).unwrap();
    assert_eq!((p.voter_count, p.contributions), (2, 200));
    assert_eq!(dao.get_matching_pool(), 200);
    assert_eq!(dao.get_matched_funding(p0), Ok(200));
}

#[test]
fn matched_funding_below_the_cap() {
    let mut dao = DaicDao::new();
    dao.create_proposal(alice(), "small".to_string(), String::new());
    dao.create_proposal(bob(), "large".to_string(), String::new());
    assert_eq!(dao.vote(0, 3), Ok(()));
    assert_eq!(dao.vote(0, 4), Ok(()));
    assert_eq!(dao.vote(1, 1000), Ok(()));
    // two contributions, truncated average 3: 2 * 2 * 3
    assert_eq!(dao.get_matched_funding(0), Ok(12));
    // one contribution of 1000: 1 * 1 * 1000
    assert_eq!(dao.get_matched_funding(1), Ok(1000));
}

#[test]
fn matched_funding_without_contributions_is_zero() {
    let dao = dao_with_one();
    assert_eq!(dao.get_matched_funding(0), Ok(0));
}

#[test]
fn missing_proposal_is_absent_for_reads_and_not_found_for_matching() {
    let dao = dao_with_one();
    assert_eq!(dao.get_proposal(1), None);
    assert_eq!(dao.get_matched_funding(1), Err(DaoError::NotFound));
}

#[test]
fn matched_amount_divides_before_it_multiplies() {
    // 3 contributions adding up to 10: average 3, matched 3 * 3 * 3
    assert_eq!(compute_matched_amount(3, 10, 1_000), 27);
    assert_eq!(compute_matched_amount(3, 10, 20), 20);
    // fewer units than contributions: the average truncates to zero
    assert_eq!(compute_matched_amount(4, 3, 1_000), 0);
    assert_eq!(compute_matched_amount(0, 10, 1_000), 0);
    assert_eq!(compute_matched_amount(5, 0, 1_000), 0);
}

#[test]
fn matched_amount_too_large_for_the_machine_is_capped() {
    let pool = u128::MAX - 1;
    assert_eq!(compute_matched_amount(u64::MAX, u128::MAX, pool), pool);
    assert_eq!(compute_matched_amount(1 << 40, 1 << 100, 12345), 12345);
}

#[test]
fn proposal_transitions_on_their_own() {
    let mut p = Proposal::new(7, alice(), "t".to_string(), "d".to_string());
    assert_eq!(p.record_contribution(9), Ok(()));
    assert_eq!((p.votes, p.voter_count, p.contributions), (1, 1, 9));
    assert_eq!(p.matched_funding(5), 5);
    assert_eq!(p.matched_funding(50), 9);
    assert_eq!(p.change_status(&bob(), ProposalStatus::Funded), Err(DaoError::Unauthorized));
    assert_eq!(p.status, ProposalStatus::Active);
    assert_eq!(p.change_status(&alice(), ProposalStatus::Funded), Ok(()));
    assert_eq!(p.record_contribution(1), Err(DaoError::InvalidState));
    assert_eq!((p.votes, p.voter_count, p.contributions), (1, 1, 9));
}

#[test]
fn ledger_survives_storing_and_loading() {
    let mut dao = dao_with_one();
    dao.create_proposal(bob(), "Road".to_string(), String::new());
    assert_eq!(dao.vote(0, 10), Ok(()));
    assert_eq!(dao.vote(1, 5), Ok(()));
    assert_eq!(dao.mark_funded(&bob(), 1), Ok(()));
    let records = dao.get_all_proposals();
    let pool = dao.get_matching_pool();
    let mut loaded = DaicDao::from_parts(records.clone(), pool).unwrap();
    assert_eq!(loaded.get_all_proposals(), records);
    assert_eq!(loaded.get_matching_pool(), 15);
    assert_eq!(loaded.get_proposal_count(), 2);
    assert_eq!(loaded.create_proposal(alice(), "next".to_string(), String::new()), 2);
}

#[test]
fn inconsistent_parts_are_refused() {
    let good = Proposal {
        id: 0,
        proposer: alice(),
        title: String::new(),
        description: String::new(),
        votes: 2,
        contributions: 30,
        voter_count: 2,
        status: ProposalStatus::Active,
    };
    assert!(DaicDao::from_parts(vec![good.clone()], 30).is_some());
    assert!(DaicDao::from_parts(vec![], 0).is_some());
    // the pool is not the sum
    assert!(DaicDao::from_parts(vec![good.clone()], 31).is_none());
    assert!(DaicDao::from_parts(vec![], 1).is_none());
    // an id that is not the place
    assert!(DaicDao::from_parts(vec![Proposal { id: 1, ..good.clone() }], 30).is_none());
    // counters that disagree
    assert!(DaicDao::from_parts(vec![Proposal { votes: 3, ..good.clone() }], 30).is_none());
    // a sum that does not fit the machine
    let huge = Proposal { contributions: u128::MAX, ..good.clone() };
    let more = Proposal { id: 1, contributions: 1, ..good };
    assert!(DaicDao::from_parts(vec![huge, more], 0).is_none());
}

#[test]
fn proposal_record_survives_encoding() {
    let mut dao = dao_with_one();
    assert_eq!(dao.vote(0, 1_000_000_000_000_000_000_000_000), Ok(()));
    assert_eq!(dao.mark_funded(&alice(), 0), Ok(()));
    let p = dao.get_proposal(0).unwrap();
    let status: u8 = match p.status {
        ProposalStatus::Active => 0,
        ProposalStatus::Funded => 1,
        ProposalStatus::Completed => 2,
    };
    let fields = (
        p.id,
        p.proposer.clone(),
        p.title.clone(),
        p.description.clone(),
        p.votes,
        p.contributions,
        p.voter_count,
        status,
    );
    let bytes = near_sdk::borsh::to_vec(&fields).unwrap();
    let back: (u64, String, String, String, u64, u128, u64, u8) =
        near_sdk::borsh::from_slice(&bytes).unwrap();
    let decoded = Proposal {
        id: back.0,
        proposer: back.1,
        title: back.2,
        description: back.3,
        votes: back.4,
        contributions: back.5,
        voter_count: back.6,
        status: match back.7 {
            0 => ProposalStatus::Active,
            1 => ProposalStatus::Funded,
            _ => ProposalStatus::Completed,
        },
    };
    assert_eq!(decoded, p);
    assert_eq!(DaicDao::from_parts(vec![decoded], dao.get_matching_pool()).unwrap().get_proposal(0), Some(p));
}

#[test]
fn closed_proposal_takes_nothing_whatever_follows() {
    let mut dao = dao_with_one();
    dao.create_proposal(bob(), "Road".to_string(), String::new());
    assert_eq!(dao.vote(0, 8), Ok(()));
    assert_eq!(dao.mark_funded(&alice(), 0), Ok(()));
    let closed = dao.get_proposal(0).unwrap();
    assert_eq!(dao.vote(0, 1), Err(DaoError::InvalidState));
    assert_eq!(dao.vote(1, 4), Ok(()));
    assert_eq!(dao.mark_completed(&alice(), 0), Ok(()));
    assert_eq!(dao.vote(0, 1), Err(DaoError::InvalidState));
    assert_eq!(dao.mark_funded(&alice(), 0), Ok(()));
    assert_eq!(dao.vote(0, 1), Err(DaoError::InvalidState));
    let p = dao.get_proposal(0).unwrap();
    assert_eq!((p.votes, p.voter_count, p.contributions), (closed.votes, closed.voter_count, 8));
    assert_eq!(dao.get_matching_pool(), 12);
}
