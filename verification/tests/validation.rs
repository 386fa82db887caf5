//! Input-validation tests: each rejected shape, in checking order.

use evoter::addr::Address;
use evoter::errors::VotingError;
use evoter::handlers::{create_poll, validate_poll_inputs};
use evoter::ledger::Ledger;

fn addr(seed: u8) -> Address {
    Address::new([seed; 32])
}

fn options_of(n: usize) -> Vec<String> {
    (0..n).map(|i| format!("option {}", i)).collect()
}

fn create_err(options: Vec<String>, question: &str) -> VotingError {
    let mut ledger = Ledger::new(addr(7));
    let r = create_poll(&mut ledger, &addr(1), 1, question.to_string(), options, 0);
    let err = match r {
        Err(e) => e,
        Ok(_) => panic!("creation must fail"),
    };
    assert_eq!(ledger.polls.len(), 0);
    assert_eq!(ledger.vote_records.len(), 0);
    err
}

#[test]
fn one_option_is_not_enough() {
    assert_eq!(create_err(options_of(1), "q"), VotingError::NotEnoughOptions);
}

#[test]
fn no_option_is_not_enough() {
    assert_eq!(create_err(options_of(0), "q"), VotingError::NotEnoughOptions);
}

#[test]
fn eleven_options_are_too_many() {
    assert_eq!(create_err(options_of(11), "q"), VotingError::TooManyOptions);
}

#[test]
fn question_of_201_chars_is_too_long() {
    let question = "q".repeat(201);
    assert_eq!(create_err(options_of(2), &question), VotingError::QuestionTooLong);
}

#[test]
fn option_of_51_chars_is_too_long() {
    let options = vec!["fine".to_string(), "o".repeat(51)];
    assert_eq!(create_err(options, "q"), VotingError::OptionTooLong);
}

#[test]
fn empty_option_is_rejected() {
    let options = vec!["fine".to_string(), String::new()];
    assert_eq!(create_err(options, "q"), VotingError::EmptyOption);
}

#[test]
fn option_count_is_checked_before_texts() {
    let options = vec![String::new()];
    assert_eq!(create_err(options, "q"), VotingError::NotEnoughOptions);
}

#[test]
fn too_long_is_reported_before_empty_within_one_option() {
    let options = vec!["o".repeat(51), String::new()];
    assert_eq!(create_err(options, "q"), VotingError::OptionTooLong);
}

#[test]
fn validate_accepts_inputs_within_bounds() {
    let question = "q".repeat(200);
    let options: Vec<String> = (0..10).map(|_| "o".repeat(50)).collect();
    assert!(validate_poll_inputs(&question, &options).is_none());
    let err = validate_poll_inputs(&question, &options_of(1));
    assert_eq!(err, Some(VotingError::NotEnoughOptions));
}

#[test]
fn lengths_count_characters_not_bytes() {
    let question = "é".repeat(200);
    let options = vec!["ä".repeat(50), "ö".repeat(50)];
    assert!(validate_poll_inputs(&question, &options).is_none());
}
