//! The two persisted record shapes and their storage budget.
//!
//! A `PollAccount` is budgeted once, ahead of creation, from declared upper
//! bounds on its variable-length fields; it is never resized. A `VoteRecord`
//! has no variable-length field and a fixed footprint.

use vstd::prelude::*;
use crate::addr::Address;

verus! {

/// Upper bound on the number of options a poll may declare.
pub const MAX_OPTIONS: usize = 10;

/// Upper bound on the length of the question text.
pub const MAX_QUESTION_LEN: usize = 200;

/// Upper bound on the length of each option text.
pub const MAX_OPTION_LEN: usize = 50;

/// The persisted representation of a poll.
pub struct PollAccount {
    /// The principal that created the poll; immutable after creation.
    pub creator: Address,
    /// Caller-supplied identifier, part of the derivation seed; unique per
    /// creator.
    pub poll_id: u64,
    /// The question text, at most `MAX_QUESTION_LEN` characters.
    pub question: String,
    /// The ordered options, between 2 and `MAX_OPTIONS`, each non-empty and
    /// at most `MAX_OPTION_LEN` characters.
    pub options: Vec<String>,
    /// One counter per option; `votes[i]` counts the ballots for
    /// `options[i]`.
    pub votes: Vec<u64>,
    /// `true` from creation until the creator closes the poll; never
    /// reverts to `true`.
    pub is_active: bool,
    /// Disambiguation byte recorded at creation, so the record's address can
    /// be re-derived and verified later.
    pub bump: u8,
}

/// The mathematical value of a `PollAccount`.
pub struct PollData {
    pub creator: Seq<u8>,
    pub poll_id: u64,
    pub question: Seq<char>,
    pub options: Seq<Seq<char>>,
    pub votes: Seq<u64>,
    pub is_active: bool,
    pub bump: u8,
}

/// The views of a sequence of option texts.
pub open spec fn options_view(options: Seq<String>) -> Seq<Seq<char>> {
    options.map_values(|o: String| o@)
}

impl View for PollAccount {
    type V = PollData;

    open spec fn view(&self) -> PollData {
        PollData {
            creator: self.creator@,
            poll_id: self.poll_id,
            question: self.question@,
            options: options_view(self.options@),
            votes: self.votes@,
            is_active: self.is_active,
            bump: self.bump,
        }
    }
}

/// One persisted marker per (poll, voter) pair; its existence at its derived
/// address is the double-vote guard.
pub struct VoteRecord {
    /// The principal that cast the ballot.
    pub voter: Address,
    /// The address of the poll the ballot was cast on.
    pub poll: Address,
    /// The chosen option, an index below the poll's option count at the time
    /// of casting.
    pub option_index: u8,
    /// Disambiguation byte of the marker's derived address.
    pub bump: u8,
}

/// The mathematical value of a `VoteRecord`.
pub struct VoteData {
    pub voter: Seq<u8>,
    pub poll: Seq<u8>,
    pub option_index: u8,
    pub bump: u8,
}

impl View for VoteRecord {
    type V = VoteData;

    open spec fn view(&self) -> VoteData {
        VoteData {
            voter: self.voter@,
            poll: self.poll@,
            option_index: self.option_index,
            bump: self.bump,
        }
    }
}

/// A single option text is acceptable: non-empty and within its bound.
pub open spec fn option_text_ok(o: Seq<char>) -> bool {
    0 < o.len() && o.len() <= MAX_OPTION_LEN
}

/// The creation inputs are acceptable: option count, question length and
/// every option within their declared bounds.
pub open spec fn inputs_ok(question: Seq<char>, options: Seq<Seq<char>>) -> bool {
    &&& 2 <= options.len()
    &&& options.len() <= MAX_OPTIONS
    &&& question.len() <= MAX_QUESTION_LEN
    &&& forall|i: int| 0 <= i < options.len() ==> option_text_ok(#[trigger] options[i])
}

impl PollData {
    /// Well-formedness of a stored poll: its texts satisfy the creation
    /// bounds and it carries one counter per option.
    pub open spec fn wf(self) -> bool {
        &&& inputs_ok(self.question, self.options)
        &&& self.votes.len() == self.options.len()
    }
}

/// The serialized footprint of the options sequence: a length-prefixed text
/// field per option, one length unit per character.
pub open spec fn spec_options_bytes(options: Seq<Seq<char>>) -> int
    decreases options.len(),
{
    if options.len() == 0 {
        0
    } else {
        (4 + options[0].len()) + spec_options_bytes(options.drop_first())
    }
}

/// The serialized footprint of a poll record: header, fixed-width identity
/// fields, the length-prefixed question, the length-prefixed option
/// sequence, the length-prefixed counters, the flag byte, the nonce byte and
/// the reserved margin.
pub open spec fn spec_record_bytes(p: PollData) -> int {
    8 + 32 + 8 + (4 + p.question.len()) + (4 + spec_options_bytes(p.options)) + (4 + 8
        * p.votes.len()) + 1 + 1 + 32
}

/// The budget computed ahead of creation, from the declared upper bounds
/// alone.
pub open spec fn spec_max_space() -> int {
    8 + 32 + 8 + (4 + MAX_QUESTION_LEN) + (4 + MAX_OPTIONS * (4 + MAX_OPTION_LEN)) + (4
        + MAX_OPTIONS * 8) + 1 + 1 + 32
}

proof fn lemma_options_bytes_bounded(options: Seq<Seq<char>>)
    requires
        forall|i: int| 0 <= i < options.len() ==> option_text_ok(#[trigger] options[i]),
    ensures
        spec_options_bytes(options) <= options.len() * (4 + MAX_OPTION_LEN),
    decreases options.len(),
{
    if options.len() > 0 {
        lemma_options_bytes_bounded(options.drop_first());
    }
}

/// The budget suffices: no well-formed poll record ever outgrows the space
/// allocated at creation.
pub proof fn lemma_budget_covers_record(p: PollData)
    requires
        p.wf(),
    ensures
        spec_record_bytes(p) <= spec_max_space(),
{
    lemma_options_bytes_bounded(p.options);
}

impl PollAccount {
    /// The maximum byte footprint a poll record can ever occupy, computed
    /// from the declared upper bounds rather than the runtime lengths, so
    /// storage is allocated once and never resized.
    pub fn calculate_max_space() -> (size: usize)
        ensures
            size == spec_max_space(),
    {
        8 + 32 + 8 + (4 + MAX_QUESTION_LEN) + (4 + MAX_OPTIONS * (4 + MAX_OPTION_LEN)) + (4
            + MAX_OPTIONS * 8) + 1 + 1 + 32
    }
}

impl VoteRecord {
    /// The fixed footprint of a vote marker: header, two identity fields,
    /// the option index and the nonce byte.
    pub const SIZE: usize = 8 + 32 + 32 + 1 + 1;
}

} // verus!
