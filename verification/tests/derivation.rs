//! Derived-address tests: determinism, seed separation, and the budget
//! constants.

use evoter::addr::Address;
use evoter::derivation::{derive_poll_address, derive_vote_marker};
use evoter::records::{PollAccount, VoteRecord};

fn addr(seed: u8) -> Address {
    Address::new([seed; 32])
}

#[test]
fn poll_address_derivation_is_deterministic() {
    let program = addr(7);
    let creator = addr(1);
    let (a1, b1) = derive_poll_address(&program, &creator, 42).unwrap();
    let (a2, b2) = derive_poll_address(&program, &creator, 42).unwrap();
    assert_eq!(a1.bytes, a2.bytes);
    assert_eq!(b1, b2);
}

#[test]
fn different_poll_ids_derive_different_addresses() {
    let program = addr(7);
    let creator = addr(1);
    let (a1, _) = derive_poll_address(&program, &creator, 42).unwrap();
    let (a2, _) = derive_poll_address(&program, &creator, 43).unwrap();
    assert_ne!(a1.bytes, a2.bytes);
}

#[test]
fn different_creators_derive_different_addresses() {
    let program = addr(7);
    let (a1, _) = derive_poll_address(&program, &addr(1), 42).unwrap();
    let (a2, _) = derive_poll_address(&program, &addr(2), 42).unwrap();
    assert_ne!(a1.bytes, a2.bytes);
}

#[test]
fn derived_address_is_not_a_seed_echo() {
    let program = addr(7);
    let creator = addr(1);
    let (a, _) = derive_poll_address(&program, &creator, 42).unwrap();
    assert_ne!(a.bytes, creator.bytes);
    assert_ne!(a.bytes, program.bytes);
}

#[test]
fn marker_derivation_is_deterministic_and_pairwise_distinct() {
    let program = addr(7);
    let poll = addr(5);
    let voter = addr(2);
    let (m1, b1) = derive_vote_marker(&program, &poll, &voter).unwrap();
    let (m2, b2) = derive_vote_marker(&program, &poll, &voter).unwrap();
    assert_eq!(m1.bytes, m2.bytes);
    assert_eq!(b1, b2);
    let (m3, _) = derive_vote_marker(&program, &poll, &addr(3)).unwrap();
    assert_ne!(m1.bytes, m3.bytes);
}

#[test]
fn poll_and_marker_seeds_do_not_collide() {
    let program = addr(7);
    let poll = addr(5);
    let voter = addr(2);
    let (m, _) = derive_vote_marker(&program, &poll, &voter).unwrap();
    let (p, _) = derive_poll_address(&program, &poll, 42).unwrap();
    assert_ne!(m.bytes, p.bytes);
}

#[test]
fn budget_constants_match_the_layout() {
    assert_eq!(PollAccount::calculate_max_space(), 914);
    assert_eq!(VoteRecord::SIZE, 74);
}

#[test]
fn address_equality_is_bytewise() {
    let a = Address::new([1; 32]);
    let b = Address::new([1; 32]);
    let mut c_bytes = [1u8; 32];
    c_bytes[31] = 2;
    let c = Address::new(c_bytes);
    assert!(a.eq_bytes(&b));
    assert!(!a.eq_bytes(&c));
}
