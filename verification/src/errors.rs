//! The error taxonomy of the ledger: input validation, authorization, state,
//! concurrency conflict and arithmetic failures. Every error is terminal for
//! its invocation: a handler that fails commits nothing.

use vstd::prelude::*;

verus! {

/// Why a handler refused a request. Each variant names exactly one condition;
/// the handlers' contracts state which inputs yield which variant.
#[derive(Clone, Copy, PartialEq, Eq, Structural, Debug)]
pub enum VotingError {
    /// Fewer than two options were supplied.
    NotEnoughOptions,
    /// More options than the record budget admits.
    TooManyOptions,
    /// The question exceeds its declared upper bound.
    QuestionTooLong,
    /// An option exceeds its declared upper bound.
    OptionTooLong,
    /// An option is the empty string.
    EmptyOption,
    /// The poll no longer accepts votes.
    PollClosed,
    /// The poll was already closed; closing is not repeatable.
    PollAlreadyClosed,
    /// The option index is not below the option count.
    InvalidOption,
    /// Only the poll's creator may close it.
    Unauthorized,
    /// The vote counter would exceed its representable range.
    VoteOverflow,
    /// A vote marker for this (poll, voter) pair already occupies its
    /// derived address.
    AlreadyVoted,
    /// A poll record already occupies the address derived from
    /// (creator, poll id); creation is rejected, not merged.
    PollAlreadyExists,
    /// No poll record occupies the named address.
    PollNotFound,
    /// No derived address exists for the seed tuple (statistically
    /// improbable, but reported rather than guessed at).
    DerivationFailure,
}

} // verus!
