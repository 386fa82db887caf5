//! End-to-end lifecycle tests against the real derivation backend.

use evoter::addr::Address;
use evoter::errors::VotingError;
use evoter::handlers::{close_poll, create_poll, vote_poll};
use evoter::ledger::Ledger;

fn addr(seed: u8) -> Address {
    Address::new([seed; 32])
}

fn new_ledger() -> Ledger {
    Ledger::new(addr(7))
}

fn two_options() -> Vec<String> {
    vec!["Coffee".to_string(), "Tea".to_string()]
}

#[test]
fn create_poll_stores_zeroed_counters() {
    let mut ledger = new_ledger();
    let creator = addr(1);
    let ev = create_poll(
        &mut ledger,
        &creator,
        1,
        "Coffee or tea?".to_string(),
        two_options(),
        1000,
    )
    .unwrap();
    assert_eq!(ev.poll_id, 1);
    assert_eq!(ev.option_count, 2);
    assert_eq!(ev.ts, 1000);
    assert_eq!(ev.creator.bytes, creator.bytes);
    let poll = ledger.get_poll(&ev.poll).unwrap();
    assert_eq!(poll.votes, vec![0u64, 0u64]);
    assert_eq!(poll.options, two_options());
    assert_eq!(poll.question, "Coffee or tea?");
    assert!(poll.is_active);
    assert_eq!(poll.creator.bytes, creator.bytes);
}

#[test]
fn create_poll_at_upper_bounds_succeeds() {
    let mut ledger = new_ledger();
    let creator = addr(1);
    let question: String = "q".repeat(200);
    let options: Vec<String> = (0..10).map(|_| "o".repeat(50)).collect();
    let ev = create_poll(&mut ledger, &creator, 9, question, options, 0).unwrap();
    let poll = ledger.get_poll(&ev.poll).unwrap();
    assert_eq!(poll.votes.len(), 10);
    assert!(poll.votes.iter().all(|v| *v == 0));
}

#[test]
fn create_poll_rejects_duplicate_poll_id() {
    let mut ledger = new_ledger();
    let creator = addr(1);
    create_poll(&mut ledger, &creator, 1, "q".to_string(), two_options(), 0).unwrap();
    let err = match create_poll(&mut ledger, &creator, 1, "q".to_string(), two_options(), 1) {
        Err(e) => e,
        Ok(_) => panic!("second creation at the same address must fail"),
    };
    assert_eq!(err, VotingError::PollAlreadyExists);
    assert_eq!(ledger.polls.len(), 1);
}

#[test]
fn first_vote_increments_exactly_one_counter() {
    let mut ledger = new_ledger();
    let creator = addr(1);
    let ev = create_poll(&mut ledger, &creator, 1, "q".to_string(), two_options(), 0).unwrap();
    let voter = addr(2);
    assert!(!ledger.has_voted(&ev.poll, &voter));
    let voted = vote_poll(&mut ledger, &ev.poll, &voter, 0, 5).unwrap();
    assert_eq!(voted.option_index, 0);
    assert_eq!(voted.ts, 5);
    assert_eq!(ledger.get_poll(&ev.poll).unwrap().votes, vec![1u64, 0u64]);
    assert!(ledger.has_voted(&ev.poll, &voter));
    assert_eq!(ledger.vote_records.len(), 1);
    assert_eq!(ledger.vote_records[0].1.voter.bytes, voter.bytes);
    assert_eq!(ledger.vote_records[0].1.poll.bytes, ev.poll.bytes);
    assert_eq!(ledger.vote_records[0].1.option_index, 0);
}

#[test]
fn second_vote_from_same_voter_is_rejected() {
    let mut ledger = new_ledger();
    let creator = addr(1);
    let ev = create_poll(&mut ledger, &creator, 1, "q".to_string(), two_options(), 0).unwrap();
    let voter = addr(2);
    vote_poll(&mut ledger, &ev.poll, &voter, 0, 5).unwrap();
    let err = match vote_poll(&mut ledger, &ev.poll, &voter, 1, 6) {
        Err(e) => e,
        Ok(_) => panic!("double vote must fail"),
    };
    assert_eq!(err, VotingError::AlreadyVoted);
    assert_eq!(ledger.get_poll(&ev.poll).unwrap().votes, vec![1u64, 0u64]);
    assert_eq!(ledger.vote_records.len(), 1);
}

#[test]
fn vote_with_out_of_range_index_changes_nothing() {
    let mut ledger = new_ledger();
    let creator = addr(1);
    let ev = create_poll(&mut ledger, &creator, 1, "q".to_string(), two_options(), 0).unwrap();
    let err = match vote_poll(&mut ledger, &ev.poll, &addr(2), 2, 5) {
        Err(e) => e,
        Ok(_) => panic!("out-of-range option must fail"),
    };
    assert_eq!(err, VotingError::InvalidOption);
    assert_eq!(ledger.get_poll(&ev.poll).unwrap().votes, vec![0u64, 0u64]);
    assert_eq!(ledger.vote_records.len(), 0);
}

#[test]
fn vote_on_unknown_poll_is_rejected() {
    let mut ledger = new_ledger();
    let err = match vote_poll(&mut ledger, &addr(9), &addr(2), 0, 5) {
        Err(e) => e,
        Ok(_) => panic!("vote on a missing poll must fail"),
    };
    assert_eq!(err, VotingError::PollNotFound);
}

#[test]
fn vote_counter_at_maximum_reports_overflow() {
    let mut ledger = new_ledger();
    let creator = addr(1);
    let ev = create_poll(&mut ledger, &creator, 1, "q".to_string(), two_options(), 0).unwrap();
    ledger.polls[0].1.votes[0] = u64::MAX;
    let err = match vote_poll(&mut ledger, &ev.poll, &addr(2), 0, 5) {
        Err(e) => e,
        Ok(_) => panic!("overflowing counter must fail"),
    };
    assert_eq!(err, VotingError::VoteOverflow);
    assert_eq!(ledger.get_poll(&ev.poll).unwrap().votes, vec![u64::MAX, 0u64]);
    assert_eq!(ledger.vote_records.len(), 0);
}

#[test]
fn closed_poll_rejects_votes_and_double_close() {
    let mut ledger = new_ledger();
    let creator = addr(1);
    let ev = create_poll(&mut ledger, &creator, 1, "q".to_string(), two_options(), 0).unwrap();
    let closed = close_poll(&mut ledger, &ev.poll, &creator, 9).unwrap();
    assert_eq!(closed.ts, 9);
    assert!(!ledger.get_poll(&ev.poll).unwrap().is_active);
    let err = match vote_poll(&mut ledger, &ev.poll, &addr(2), 0, 10) {
        Err(e) => e,
        Ok(_) => panic!("vote on a closed poll must fail"),
    };
    assert_eq!(err, VotingError::PollClosed);
    let err = match close_poll(&mut ledger, &ev.poll, &creator, 11) {
        Err(e) => e,
        Ok(_) => panic!("double close must fail"),
    };
    assert_eq!(err, VotingError::PollAlreadyClosed);
}

#[test]
fn only_the_creator_may_close() {
    let mut ledger = new_ledger();
    let creator = addr(1);
    let ev = create_poll(&mut ledger, &creator, 1, "q".to_string(), two_options(), 0).unwrap();
    let err = match close_poll(&mut ledger, &ev.poll, &addr(2), 9) {
        Err(e) => e,
        Ok(_) => panic!("close by a non-creator must fail"),
    };
    assert_eq!(err, VotingError::Unauthorized);
    assert!(ledger.get_poll(&ev.poll).unwrap().is_active);
}

#[test]
fn close_of_unknown_poll_is_rejected() {
    let mut ledger = new_ledger();
    let err = match close_poll(&mut ledger, &addr(9), &addr(1), 9) {
        Err(e) => e,
        Ok(_) => panic!("close of a missing poll must fail"),
    };
    assert_eq!(err, VotingError::PollNotFound);
}

#[test]
fn coffee_or_tea_scenario() {
    let mut ledger = new_ledger();
    let creator = addr(1);
    let ev = create_poll(
        &mut ledger,
        &creator,
        1,
        "Coffee or tea?".to_string(),
        two_options(),
        100,
    )
    .unwrap();
    assert_eq!(ledger.get_poll(&ev.poll).unwrap().votes, vec![0u64, 0u64]);
    let voter_a = addr(2);
    let voter_b = addr(3);
    let voter_c = addr(4);
    vote_poll(&mut ledger, &ev.poll, &voter_a, 0, 101).unwrap();
    assert_eq!(ledger.get_poll(&ev.poll).unwrap().votes, vec![1u64, 0u64]);
    vote_poll(&mut ledger, &ev.poll, &voter_b, 1, 102).unwrap();
    assert_eq!(ledger.get_poll(&ev.poll).unwrap().votes, vec![1u64, 1u64]);
    assert!(vote_poll(&mut ledger, &ev.poll, &voter_a, 1, 103).is_err());
    assert_eq!(ledger.get_poll(&ev.poll).unwrap().votes, vec![1u64, 1u64]);
    close_poll(&mut ledger, &ev.poll, &creator, 104).unwrap();
    assert!(!ledger.get_poll(&ev.poll).unwrap().is_active);
    let err = match vote_poll(&mut ledger, &ev.poll, &voter_c, 0, 105) {
        Err(e) => e,
        Ok(_) => panic!("vote after close must fail"),
    };
    assert_eq!(err, VotingError::PollClosed);
}
