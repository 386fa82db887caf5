//! Notifications for off-chain observers. A handler that succeeds returns
//! its notification; publishing it is the caller's business, so the core's
//! correctness needs no real event pipeline.

use vstd::prelude::*;
use crate::addr::Address;

verus! {

/// A poll was created.
#[derive(Clone, Copy, Debug)]
pub struct PollCreated {
    /// The derived address of the new poll record.
    pub poll: Address,
    /// Who created the poll.
    pub creator: Address,
    /// The caller-supplied poll identifier.
    pub poll_id: u64,
    /// How many options the poll declares.
    pub option_count: u8,
    /// When the poll was created.
    pub ts: i64,
}

/// A ballot was cast.
#[derive(Clone, Copy, Debug)]
pub struct Voted {
    /// The poll that received the ballot.
    pub poll: Address,
    /// Who cast it.
    pub voter: Address,
    /// The chosen option.
    pub option_index: u8,
    /// When the ballot was cast.
    pub ts: i64,
}

/// A poll stopped accepting votes.
#[derive(Clone, Copy, Debug)]
pub struct PollClosed {
    /// The poll that was closed.
    pub poll: Address,
    /// Who closed it; always the poll's creator.
    pub creator: Address,
    /// When it was closed.
    pub ts: i64,
}

} // verus!
