//! The laws of the ledger, proved once and for all over the transition
//! functions: what every creation stores, how the double-vote guard holds,
//! which requests each guard rejects, and that no failing request moves
//! the store.

use vstd::prelude::*;
use crate::derivation::{poll_address, vote_marker_address};
use crate::errors::VotingError;
use crate::handlers::{spec_create_poll, spec_vote_poll, spec_close_poll, lemma_validate_exact};
use crate::ledger::{
    LedgerData,
    spec_lookup,
    spec_key_index,
    lemma_lookup_some_index,
    lemma_lookup_none_no_match,
    lemma_lookup_push,
    lemma_lookup_update,
};
use crate::records::{PollData, VoteData, inputs_ok, MAX_OPTIONS, MAX_QUESTION_LEN};

verus! {

/// Every transition leaves a well-formed store well-formed.
pub proof fn lemma_create_preserves_wf(
    pre: LedgerData,
    creator: Seq<u8>,
    poll_id: u64,
    question: Seq<char>,
    options: Seq<Seq<char>>,
)
    requires
        pre.wf(),
    ensures
        spec_create_poll(pre, creator, poll_id, question, options).0.wf(),
{
    let (post, res) = spec_create_poll(pre, creator, poll_id, question, options);
    if res is Ok {
        lemma_validate_exact(question, options);
        let derived = poll_address(pre.program, creator, poll_id)->Some_0;
        lemma_lookup_none_no_match(pre.polls, derived.0);
        assert forall|a: int, b: int| 0 <= a < b < post.polls.len() implies (
        #[trigger] post.polls[a]).0 != (#[trigger] post.polls[b]).0 by {
            if b < post.polls.len() - 1 {
                assert(pre.polls[a].0 != pre.polls[b].0);
            }
        }
        assert forall|k: int| 0 <= k < post.polls.len() implies (
        #[trigger] post.polls[k]).1.wf() by {
            if k < post.polls.len() - 1 {
                assert(pre.polls[k].1.wf());
            }
        }
    }
}

/// See above: casting a ballot preserves well-formedness.
pub proof fn lemma_vote_preserves_wf(pre: LedgerData, poll: Seq<u8>, voter: Seq<u8>, i: u8)
    requires
        pre.wf(),
    ensures
        spec_vote_poll(pre, poll, voter, i).0.wf(),
{
    let (post, res) = spec_vote_poll(pre, poll, voter, i);
    if res is Ok {
        lemma_lookup_some_index(pre.polls, poll);
        let m = vote_marker_address(pre.program, poll, voter)->Some_0;
        lemma_lookup_none_no_match(pre.vote_records, m.0);
        assert forall|a: int, b: int| 0 <= a < b < post.polls.len() implies (
        #[trigger] post.polls[a]).0 != (#[trigger] post.polls[b]).0 by {
            assert(pre.polls[a].0 != pre.polls[b].0);
        }
        assert forall|k: int| 0 <= k < post.polls.len() implies (
        #[trigger] post.polls[k]).1.wf() by {
            assert(pre.polls[k].1.wf());
        }
        assert forall|a: int, b: int| 0 <= a < b < post.vote_records.len() implies (
        #[trigger] post.vote_records[a]).0 != (#[trigger] post.vote_records[b]).0 by {
            if b < post.vote_records.len() - 1 {
                assert(pre.vote_records[a].0 != pre.vote_records[b].0);
            }
        }
    }
}

/// See above: closing a poll preserves well-formedness.
pub proof fn lemma_close_preserves_wf(pre: LedgerData, poll: Seq<u8>, caller: Seq<u8>)
    requires
        pre.wf(),
    ensures
        spec_close_poll(pre, poll, caller).0.wf(),
{
    let (post, res) = spec_close_poll(pre, poll, caller);
    if res is Ok {
        lemma_lookup_some_index(pre.polls, poll);
        assert forall|a: int, b: int| 0 <= a < b < post.polls.len() implies (
        #[trigger] post.polls[a]).0 != (#[trigger] post.polls[b]).0 by {
            assert(pre.polls[a].0 != pre.polls[b].0);
        }
        assert forall|k: int| 0 <= k < post.polls.len() implies (
        #[trigger] post.polls[k]).1.wf() by {
            assert(pre.polls[k].1.wf());
        }
    }
}

/// For all acceptable inputs whose derived address is defined and still
/// free, creation succeeds, and the stored record carries the given texts,
/// one counter per option, every counter at zero, and voting open. Nothing
/// else in the store moves.
pub proof fn lemma_create_poll_valid(
    pre: LedgerData,
    creator: Seq<u8>,
    poll_id: u64,
    question: Seq<char>,
    options: Seq<Seq<char>>,
    addr: Seq<u8>,
    bump: u8,
)
    requires
        pre.wf(),
        inputs_ok(question, options),
        poll_address(pre.program, creator, poll_id) == Some((addr, bump)),
        spec_lookup(pre.polls, addr) is None,
    ensures
        ({
            let (post, res) = spec_create_poll(pre, creator, poll_id, question, options);
            let record = PollData {
                creator,
                poll_id,
                question,
                options,
                votes: Seq::new(options.len(), |j: int| 0u64),
                is_active: true,
                bump,
            };
            &&& res == Ok::<Seq<u8>, VotingError>(addr)
            &&& spec_lookup(post.polls, addr) == Some(record)
            &&& record.votes.len() == options.len()
            &&& forall|j: int| 0 <= j < options.len() ==> record.votes[j] == 0u64
            &&& forall|a: Seq<u8>|
                a != addr ==> spec_lookup(post.polls, a) == spec_lookup(pre.polls, a)
            &&& post.vote_records == pre.vote_records
            &&& post.wf()
        }),
{
    lemma_validate_exact(question, options);
    let (post, res) = spec_create_poll(pre, creator, poll_id, question, options);
    let record = PollData {
        creator,
        poll_id,
        question,
        options,
        votes: Seq::new(options.len(), |j: int| 0u64),
        is_active: true,
        bump,
    };
    assert forall|a: Seq<u8>| spec_lookup(post.polls, a) == (if spec_lookup(pre.polls, a) is Some {
        spec_lookup(pre.polls, a)
    } else if a == addr {
        Some(record)
    } else {
        None::<PollData>
    }) by {
        lemma_lookup_push(pre.polls, addr, record, a);
    }
    lemma_create_preserves_wf(pre, creator, poll_id, question, options);
}

/// Unacceptable creation inputs are rejected before any state moves, and
/// the reported failure is the first one in checking order.
pub proof fn lemma_create_poll_rejects_invalid(
    pre: LedgerData,
    creator: Seq<u8>,
    poll_id: u64,
    question: Seq<char>,
    options: Seq<Seq<char>>,
)
    requires
        !inputs_ok(question, options),
    ensures
        spec_create_poll(pre, creator, poll_id, question, options).0 == pre,
        spec_create_poll(pre, creator, poll_id, question, options).1 is Err,
        options.len() < 2 ==> spec_create_poll(pre, creator, poll_id, question, options).1
            == Err::<Seq<u8>, VotingError>(VotingError::NotEnoughOptions),
        options.len() > MAX_OPTIONS ==> spec_create_poll(pre, creator, poll_id, question, options).1
            == Err::<Seq<u8>, VotingError>(VotingError::TooManyOptions),
        2 <= options.len() <= MAX_OPTIONS && question.len() > MAX_QUESTION_LEN ==> spec_create_poll(
            pre,
            creator,
            poll_id,
            question,
            options,
        ).1 == Err::<Seq<u8>, VotingError>(VotingError::QuestionTooLong),
{
    lemma_validate_exact(question, options);
}

/// A first ballot on an open poll with a valid option succeeds: the chosen
/// counter rises by exactly one, every other counter and every other poll
/// stays, and exactly one marker appears, at the pair's derived address.
pub proof fn lemma_first_vote(
    pre: LedgerData,
    poll: Seq<u8>,
    voter: Seq<u8>,
    i: u8,
    p: PollData,
    maddr: Seq<u8>,
    mbump: u8,
)
    requires
        pre.wf(),
        spec_lookup(pre.polls, poll) == Some(p),
        p.is_active,
        (i as int) < p.options.len(),
        vote_marker_address(pre.program, poll, voter) == Some((maddr, mbump)),
        spec_lookup(pre.vote_records, maddr) is None,
        p.votes[i as int] < u64::MAX,
    ensures
        ({
            let (post, res) = spec_vote_poll(pre, poll, voter, i);
            let updated = PollData {
                votes: p.votes.update(i as int, (p.votes[i as int] + 1) as u64),
                ..p
            };
            let marker = VoteData { voter, poll, option_index: i, bump: mbump };
            &&& res == Ok::<(), VotingError>(())
            &&& spec_lookup(post.polls, poll) == Some(updated)
            &&& updated.votes[i as int] == p.votes[i as int] + 1
            &&& forall|j: int|
                0 <= j < p.votes.len() && j != i as int ==> updated.votes[j] == p.votes[j]
            &&& forall|a: Seq<u8>|
                a != poll ==> spec_lookup(post.polls, a) == spec_lookup(pre.polls, a)
            &&& spec_lookup(post.vote_records, maddr) == Some(marker)
            &&& forall|a: Seq<u8>|
                a != maddr ==> spec_lookup(post.vote_records, a) == spec_lookup(
                    pre.vote_records,
                    a,
                )
            &&& post.vote_records.len() == pre.vote_records.len() + 1
            &&& post.wf()
        }),
{
    let (post, res) = spec_vote_poll(pre, poll, voter, i);
    let updated = PollData { votes: p.votes.update(i as int, (p.votes[i as int] + 1) as u64), ..p };
    let marker = VoteData { voter, poll, option_index: i, bump: mbump };
    lemma_lookup_some_index(pre.polls, poll);
    let ki = spec_key_index(pre.polls, poll);
    assert(pre.polls[ki] == (poll, p));
    assert forall|a: Seq<u8>| spec_lookup(post.polls, a) == (if a == poll {
        Some(updated)
    } else {
        spec_lookup(pre.polls, a)
    }) by {
        lemma_lookup_update(pre.polls, ki, updated, a);
    }
    assert forall|a: Seq<u8>| spec_lookup(post.vote_records, a) == (if spec_lookup(
        pre.vote_records,
        a,
    ) is Some {
        spec_lookup(pre.vote_records, a)
    } else if a == maddr {
        Some(marker)
    } else {
        None::<VoteData>
    }) by {
        lemma_lookup_push(pre.vote_records, maddr, marker, a);
    }
    lemma_vote_preserves_wf(pre, poll, voter, i);
}

/// A second ballot from the same voter on the same poll is rejected as
/// already cast — whatever valid option it names — and the store does not
/// move. The guard is the marker created by the first ballot, sitting at
/// the address both attempts derive.
pub proof fn lemma_no_double_vote(
    pre: LedgerData,
    poll: Seq<u8>,
    voter: Seq<u8>,
    i: u8,
    j: u8,
    p: PollData,
)
    requires
        pre.wf(),
        spec_lookup(pre.polls, poll) == Some(p),
        spec_vote_poll(pre, poll, voter, i).1 == Ok::<(), VotingError>(()),
        (j as int) < p.options.len(),
    ensures
        ({
            let post = spec_vote_poll(pre, poll, voter, i).0;
            spec_vote_poll(post, poll, voter, j) == (post, Err::<(), VotingError>(
                VotingError::AlreadyVoted,
            ))
        }),
{
    let post = spec_vote_poll(pre, poll, voter, i).0;
    let m = vote_marker_address(pre.program, poll, voter)->Some_0;
    let updated = PollData { votes: p.votes.update(i as int, (p.votes[i as int] + 1) as u64), ..p };
    let marker = VoteData { voter, poll, option_index: i, bump: m.1 };
    lemma_lookup_some_index(pre.polls, poll);
    let ki = spec_key_index(pre.polls, poll);
    assert(pre.polls[ki] == (poll, p));
    lemma_lookup_update(pre.polls, ki, updated, poll);
    lemma_lookup_push(pre.vote_records, m.0, marker, m.0);
}

/// A ballot naming an option index at or past the option count is rejected
/// as invalid and the store does not move.
pub proof fn lemma_vote_invalid_option(
    pre: LedgerData,
    poll: Seq<u8>,
    voter: Seq<u8>,
    i: u8,
    p: PollData,
)
    requires
        spec_lookup(pre.polls, poll) == Some(p),
        p.is_active,
        p.options.len() <= i as int,
    ensures
        spec_vote_poll(pre, poll, voter, i) == (pre, Err::<(), VotingError>(
            VotingError::InvalidOption,
        )),
{
}

/// Once the creator closes a poll, every later ballot on it is rejected as
/// closed, and the store does not move.
pub proof fn lemma_vote_after_close(
    pre: LedgerData,
    poll: Seq<u8>,
    caller: Seq<u8>,
    voter: Seq<u8>,
    i: u8,
)
    requires
        pre.wf(),
        spec_close_poll(pre, poll, caller).1 == Ok::<(), VotingError>(()),
    ensures
        ({
            let post = spec_close_poll(pre, poll, caller).0;
            spec_vote_poll(post, poll, voter, i) == (post, Err::<(), VotingError>(
                VotingError::PollClosed,
            ))
        }),
{
    let p = spec_lookup(pre.polls, poll)->Some_0;
    let closed = PollData { is_active: false, ..p };
    lemma_lookup_some_index(pre.polls, poll);
    let ki = spec_key_index(pre.polls, poll);
    assert(pre.polls[ki] == (poll, p));
    lemma_lookup_update(pre.polls, ki, closed, poll);
}

/// Closing an already closed poll is rejected, and the store does not
/// move.
pub proof fn lemma_close_twice(pre: LedgerData, poll: Seq<u8>, caller: Seq<u8>)
    requires
        pre.wf(),
        spec_close_poll(pre, poll, caller).1 == Ok::<(), VotingError>(()),
    ensures
        ({
            let post = spec_close_poll(pre, poll, caller).0;
            spec_close_poll(post, poll, caller) == (post, Err::<(), VotingError>(
                VotingError::PollAlreadyClosed,
            ))
        }),
{
    let p = spec_lookup(pre.polls, poll)->Some_0;
    let closed = PollData { is_active: false, ..p };
    lemma_lookup_some_index(pre.polls, poll);
    let ki = spec_key_index(pre.polls, poll);
    assert(pre.polls[ki] == (poll, p));
    lemma_lookup_update(pre.polls, ki, closed, poll);
}

/// How one poll record may change across a single transition: identity,
/// texts and nonce are immutable, it keeps one counter per option, no
/// counter ever decreases, and a closed poll never reopens.
pub open spec fn poll_evolves(before: PollData, after: PollData) -> bool {
    &&& after.creator == before.creator
    &&& after.poll_id == before.poll_id
    &&& after.question == before.question
    &&& after.options == before.options
    &&& after.bump == before.bump
    &&& after.votes.len() == before.votes.len()
    &&& forall|j: int| 0 <= j < before.votes.len() ==> before.votes[j] <= after.votes[j]
    &&& (after.is_active ==> before.is_active)
}

/// Creating a poll, however it ends, leaves every existing poll record and
/// every existing marker exactly as it was.
pub proof fn lemma_create_touches_no_existing_record(
    pre: LedgerData,
    creator: Seq<u8>,
    poll_id: u64,
    question: Seq<char>,
    options: Seq<Seq<char>>,
    a: Seq<u8>,
)
    requires
        spec_lookup(pre.polls, a) is Some,
    ensures
        ({
            let post = spec_create_poll(pre, creator, poll_id, question, options).0;
            &&& spec_lookup(post.polls, a) == spec_lookup(pre.polls, a)
            &&& post.vote_records == pre.vote_records
        }),
{
    let (post, res) = spec_create_poll(pre, creator, poll_id, question, options);
    if res is Ok {
        let derived = poll_address(pre.program, creator, poll_id)->Some_0;
        let record = PollData {
            creator,
            poll_id,
            question,
            options,
            votes: Seq::new(options.len(), |j: int| 0u64),
            is_active: true,
            bump: derived.1,
        };
        lemma_lookup_push(pre.polls, derived.0, record, a);
    }
}

/// Casting a ballot, however it ends, only lets poll records evolve as
/// `poll_evolves` allows, and leaves every existing marker as it was.
pub proof fn lemma_vote_preserves_record_invariants(
    pre: LedgerData,
    poll: Seq<u8>,
    voter: Seq<u8>,
    i: u8,
    a: Seq<u8>,
)
    requires
        pre.wf(),
    ensures
        ({
            let post = spec_vote_poll(pre, poll, voter, i).0;
            &&& spec_lookup(pre.polls, a) is Some ==> spec_lookup(post.polls, a) is Some
                && poll_evolves(
                spec_lookup(pre.polls, a)->Some_0,
                spec_lookup(post.polls, a)->Some_0,
            )
            &&& spec_lookup(pre.vote_records, a) is Some ==> spec_lookup(post.vote_records, a)
                == spec_lookup(pre.vote_records, a)
        }),
{
    let (post, res) = spec_vote_poll(pre, poll, voter, i);
    if res is Ok {
        let p = spec_lookup(pre.polls, poll)->Some_0;
        let updated = PollData {
            votes: p.votes.update(i as int, (p.votes[i as int] + 1) as u64),
            ..p
        };
        let m = vote_marker_address(pre.program, poll, voter)->Some_0;
        let marker = VoteData { voter, poll, option_index: i, bump: m.1 };
        lemma_lookup_some_index(pre.polls, poll);
        assert(pre.polls[spec_key_index(pre.polls, poll)] == (poll, p));
        lemma_lookup_update(pre.polls, spec_key_index(pre.polls, poll), updated, a);
        lemma_lookup_push(pre.vote_records, m.0, marker, a);
    }
}

/// Closing a poll, however it ends, only clears one active flag: every
/// record's identity, texts and counters stay, and every marker stays.
pub proof fn lemma_close_preserves_record_invariants(
    pre: LedgerData,
    poll: Seq<u8>,
    caller: Seq<u8>,
    a: Seq<u8>,
)
    requires
        pre.wf(),
    ensures
        ({
            let post = spec_close_poll(pre, poll, caller).0;
            &&& spec_lookup(pre.polls, a) is Some ==> spec_lookup(post.polls, a) is Some
                && poll_evolves(
                spec_lookup(pre.polls, a)->Some_0,
                spec_lookup(post.polls, a)->Some_0,
            )
            &&& post.vote_records == pre.vote_records
        }),
{
    let (post, res) = spec_close_poll(pre, poll, caller);
    if res is Ok {
        let p = spec_lookup(pre.polls, poll)->Some_0;
        let closed = PollData { is_active: false, ..p };
        lemma_lookup_some_index(pre.polls, poll);
        assert(pre.polls[spec_key_index(pre.polls, poll)] == (poll, p));
        lemma_lookup_update(pre.polls, spec_key_index(pre.polls, poll), closed, a);
    }
}

/// Anyone but the creator who tries to close a poll is rejected, and the
/// store does not move.
pub proof fn lemma_close_unauthorized(pre: LedgerData, poll: Seq<u8>, caller: Seq<u8>, p: PollData)
    requires
        spec_lookup(pre.polls, poll) == Some(p),
        p.creator != caller,
    ensures
        spec_close_poll(pre, poll, caller) == (pre, Err::<(), VotingError>(
            VotingError::Unauthorized,
        )),
{
}

} // verus!
