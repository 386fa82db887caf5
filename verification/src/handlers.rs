//! The lifecycle handlers: create a poll, cast a ballot, close a poll.
//!
//! Each handler is an atomic, all-or-nothing step: it validates, then
//! mutates, and on any failure the store is exactly what it was. The
//! spec-level transition functions state each step's whole effect; the
//! executable handlers are proved to realise them.

use vstd::prelude::*;
use vstd::string::StrSliceExecFns;
use crate::addr::Address;
use crate::derivation::{poll_address, vote_marker_address, derive_poll_address, derive_vote_marker};
use crate::errors::VotingError;
use crate::events::{PollCreated, Voted, PollClosed};
use crate::ledger::{
    Ledger,
    LedgerData,
    spec_lookup,
    spec_key_index,
    key_index,
    lemma_lookup_first_match,
    lemma_lookup_no_match,
};
use crate::records::{
    PollAccount,
    PollData,
    VoteRecord,
    VoteData,
    MAX_OPTIONS,
    MAX_QUESTION_LEN,
    MAX_OPTION_LEN,
    inputs_ok,
    option_text_ok,
    options_view,
};

verus! {

/// The first validation failure among the option texts, scanning in order:
/// for each option, too long is reported before empty.
pub open spec fn spec_first_option_error(options: Seq<Seq<char>>) -> Option<VotingError>
    decreases options.len(),
{
    if options.len() == 0 {
        None
    } else if options[0].len() > MAX_OPTION_LEN {
        Some(VotingError::OptionTooLong)
    } else if options[0].len() == 0 {
        Some(VotingError::EmptyOption)
    } else {
        spec_first_option_error(options.drop_first())
    }
}

/// The first validation failure of the creation inputs, in checking order:
/// option count, question length, then each option in turn.
pub open spec fn spec_validate(question: Seq<char>, options: Seq<Seq<char>>) -> Option<
    VotingError,
> {
    if options.len() < 2 {
        Some(VotingError::NotEnoughOptions)
    } else if options.len() > MAX_OPTIONS {
        Some(VotingError::TooManyOptions)
    } else if question.len() > MAX_QUESTION_LEN {
        Some(VotingError::QuestionTooLong)
    } else {
        spec_first_option_error(options)
    }
}

proof fn lemma_first_option_error_none(options: Seq<Seq<char>>)
    ensures
        spec_first_option_error(options) is None <==> (forall|i: int|
            0 <= i < options.len() ==> option_text_ok(#[trigger] options[i])),
    decreases options.len(),
{
    if options.len() > 0 {
        lemma_first_option_error_none(options.drop_first());
        if spec_first_option_error(options) is None {
            assert forall|i: int| 0 <= i < options.len() implies option_text_ok(
                #[trigger] options[i],
            ) by {
                if i > 0 {
                    assert(options[i] == options.drop_first()[i - 1]);
                }
            }
        }
    }
}

/// Validation passes exactly on the acceptable inputs.
pub proof fn lemma_validate_exact(question: Seq<char>, options: Seq<Seq<char>>)
    ensures
        spec_validate(question, options) is None <==> inputs_ok(question, options),
{
    lemma_first_option_error_none(options);
}

/// Check the creation inputs and report the first failure, before any
/// state is touched.
pub fn validate_poll_inputs(question: &String, options: &Vec<String>) -> (r: Option<VotingError>)
    ensures
        r == spec_validate(question@, options_view(options@)),
{
    let ghost opts = options_view(options@);
    if options.len() < 2 {
        return Some(VotingError::NotEnoughOptions);
    }
    if options.len() > MAX_OPTIONS {
        return Some(VotingError::TooManyOptions);
    }
    if question.as_str().unicode_len() > MAX_QUESTION_LEN {
        return Some(VotingError::QuestionTooLong);
    }
    let mut i: usize = 0;
    proof {
        assert(opts.skip(0) =~= opts);
    }
    while i < options.len()
        invariant
            i <= opts.len(),
            opts.len() == options@.len(),
            opts == options_view(options@),
            2 <= opts.len() <= MAX_OPTIONS,
            question@.len() <= MAX_QUESTION_LEN,
            spec_first_option_error(opts) == spec_first_option_error(opts.skip(i as int)),
        decreases opts.len() - i,
    {
        let n = options[i].as_str().unicode_len();
        proof {
            assert(opts[i as int] == options@[i as int]@);
            assert(opts.skip(i as int)[0] == opts[i as int]);
        }
        if n > MAX_OPTION_LEN {
            proof {
                assert(opts.skip(i as int).len() > 0);
                assert(opts.skip(i as int)[0].len() > MAX_OPTION_LEN);
                assert(spec_first_option_error(opts.skip(i as int)) == Some(
                    VotingError::OptionTooLong,
                ));
            }
            return Some(VotingError::OptionTooLong);
        }
        if n == 0 {
            proof {
                assert(spec_first_option_error(opts.skip(i as int)) == Some(
                    VotingError::EmptyOption,
                ));
            }
            return Some(VotingError::EmptyOption);
        }
        proof {
            assert(opts.skip(i as int).drop_first() =~= opts.skip(i as int + 1));
        }
        i += 1;
    }
    proof {
        assert(opts.skip(opts.len() as int) =~= Seq::<Seq<char>>::empty());
    }
    None
}

fn zero_votes(n: usize) -> (r: Vec<u64>)
    ensures
        r@ == Seq::new(n as nat, |j: int| 0u64),
{
    let mut v: Vec<u64> = Vec::new();
    let mut i: usize = 0;
    while i < n
        invariant
            i <= n,
            v@.len() == i,
            forall|k: int| 0 <= k < i ==> v@[k] == 0u64,
        decreases n - i,
    {
        v.push(0u64);
        i += 1;
    }
    proof {
        assert(v@ =~= Seq::new(n as nat, |j: int| 0u64));
    }
    v
}

/// What creating a poll does to the store, and what it answers: the first
/// validation failure, or the derivation outcome, or rejection of an
/// occupied address, or a new record with every counter at zero.
pub open spec fn spec_create_poll(
    pre: LedgerData,
    creator: Seq<u8>,
    poll_id: u64,
    question: Seq<char>,
    options: Seq<Seq<char>>,
) -> (LedgerData, Result<Seq<u8>, VotingError>) {
    match spec_validate(question, options) {
        Some(e) => (pre, Err(e)),
        None => match poll_address(pre.program, creator, poll_id) {
            None => (pre, Err(VotingError::DerivationFailure)),
            Some(derived) => if spec_lookup(pre.polls, derived.0) is Some {
                (pre, Err(VotingError::PollAlreadyExists))
            } else {
                let record = PollData {
                    creator,
                    poll_id,
                    question,
                    options,
                    votes: Seq::new(options.len(), |j: int| 0u64),
                    is_active: true,
                    bump: derived.1,
                };
                (
                    LedgerData {
                        program: pre.program,
                        polls: pre.polls.push((derived.0, record)),
                        vote_records: pre.vote_records,
                    },
                    Ok(derived.0),
                )
            },
        },
    }
}

/// Create a poll: validate the inputs, derive the record's address from
/// (creator, poll id), refuse an occupied address, and otherwise store the
/// record with every counter at zero and voting open. On failure the store
/// is untouched.
pub fn create_poll(
    ledger: &mut Ledger,
    creator: &Address,
    poll_id: u64,
    question: String,
    options: Vec<String>,
    now_ts: i64,
) -> (r: Result<PollCreated, VotingError>)
    requires
        old(ledger)@.wf(),
    ensures
        final(ledger)@.wf(),
        final(ledger)@ == spec_create_poll(
            old(ledger)@,
            creator@,
            poll_id,
            question@,
            options_view(options@),
        ).0,
        ({
            let outcome = spec_create_poll(
                old(ledger)@,
                creator@,
                poll_id,
                question@,
                options_view(options@),
            ).1;
            match r {
                Ok(ev) => outcome == Ok::<Seq<u8>, VotingError>(ev.poll@) && ev.creator@
                    == creator@ && ev.poll_id == poll_id && ev.option_count as int
                    == options@.len() && ev.ts == now_ts,
                Err(e) => outcome == Err::<Seq<u8>, VotingError>(e),
            }
        }),
{
    let ghost opts = options_view(options@);
    if let Some(e) = validate_poll_inputs(&question, &options) {
        return Err(e);
    }
    let derived = match derive_poll_address(&ledger.program_id, creator, poll_id) {
        None => { return Err(VotingError::DerivationFailure) },
        Some(d) => d,
    };
    let addr = derived.0;
    let bump = derived.1;
    if let Some(i) = key_index(&ledger.polls, &addr) {
        proof {
            assert(ledger@.polls[i as int].0 == addr@);
            lemma_lookup_first_match(ledger@.polls, addr@, i as int);
        }
        return Err(VotingError::PollAlreadyExists);
    }
    proof {
        assert forall|k: int| 0 <= k < ledger@.polls.len() implies (
        #[trigger] ledger@.polls[k]).0 != addr@ by {
            assert(ledger@.polls[k].0 == ledger.polls@[k].0@);
        }
        lemma_lookup_no_match(ledger@.polls, addr@);
    }
    let count = options.len();
    let votes = zero_votes(count);
    let record = PollAccount {
        creator: *creator,
        poll_id,
        question,
        options,
        votes,
        is_active: true,
        bump,
    };
    ledger.polls.push((addr, record));
    proof {
        let spec_post = spec_create_poll(old(ledger)@, creator@, poll_id, question@, opts).0;
        assert(ledger@.polls =~= spec_post.polls);
        assert(ledger@.vote_records =~= spec_post.vote_records);
        lemma_validate_exact(question@, opts);
        assert forall|a: int, b: int| 0 <= a < b < ledger@.polls.len() implies (
        #[trigger] ledger@.polls[a]).0 != (#[trigger] ledger@.polls[b]).0 by {
            if b < ledger@.polls.len() - 1 {
                assert(old(ledger)@.polls[a].0 != old(ledger)@.polls[b].0);
            }
        }
    }
    Ok(
        PollCreated {
            poll: addr,
            creator: *creator,
            poll_id,
            option_count: count as u8,
            ts: now_ts,
        },
    )
}

/// What casting a ballot does to the store, and what it answers, in
/// checking order: the poll must exist and be open, the option index must
/// be in range, the marker address must derive and be unoccupied, and the
/// counter must have room. Only then does the counter rise by one and the
/// marker appear — one atomic unit.
pub open spec fn spec_vote_poll(
    pre: LedgerData,
    poll: Seq<u8>,
    voter: Seq<u8>,
    option_index: u8,
) -> (LedgerData, Result<(), VotingError>) {
    match spec_lookup(pre.polls, poll) {
        None => (pre, Err(VotingError::PollNotFound)),
        Some(p) => if !p.is_active {
            (pre, Err(VotingError::PollClosed))
        } else if p.options.len() <= option_index as int {
            (pre, Err(VotingError::InvalidOption))
        } else {
            match vote_marker_address(pre.program, poll, voter) {
                None => (pre, Err(VotingError::DerivationFailure)),
                Some(m) => if spec_lookup(pre.vote_records, m.0) is Some {
                    (pre, Err(VotingError::AlreadyVoted))
                } else if p.votes[option_index as int] == u64::MAX {
                    (pre, Err(VotingError::VoteOverflow))
                } else {
                    let updated = PollData {
                        votes: p.votes.update(
                            option_index as int,
                            (p.votes[option_index as int] + 1) as u64,
                        ),
                        ..p
                    };
                    let marker = VoteData { voter, poll, option_index, bump: m.1 };
                    (
                        LedgerData {
                            program: pre.program,
                            polls: pre.polls.update(
                                spec_key_index(pre.polls, poll),
                                (poll, updated),
                            ),
                            vote_records: pre.vote_records.push((m.0, marker)),
                        },
                        Ok(()),
                    )
                },
            }
        },
    }
}

/// Cast a ballot: the marker's creation at its derived address and the
/// counter's rise commit together, or the store is untouched. The marker's
/// prior existence is the sole double-vote guard.
pub fn vote_poll(
    ledger: &mut Ledger,
    poll: &Address,
    voter: &Address,
    option_index: u8,
    now_ts: i64,
) -> (r: Result<Voted, VotingError>)
    requires
        old(ledger)@.wf(),
    ensures
        final(ledger)@.wf(),
        final(ledger)@ == spec_vote_poll(old(ledger)@, poll@, voter@, option_index).0,
        ({
            let outcome = spec_vote_poll(old(ledger)@, poll@, voter@, option_index).1;
            match r {
                Ok(ev) => outcome == Ok::<(), VotingError>(()) && ev.poll@ == poll@ && ev.voter@
                    == voter@ && ev.option_index == option_index && ev.ts == now_ts,
                Err(e) => outcome == Err::<(), VotingError>(e),
            }
        }),
{
    let pi = match key_index(&ledger.polls, poll) {
        None => {
            proof {
                assert forall|k: int| 0 <= k < ledger@.polls.len() implies (
                #[trigger] ledger@.polls[k]).0 != poll@ by {
                    assert(ledger@.polls[k].0 == ledger.polls@[k].0@);
                }
                lemma_lookup_no_match(ledger@.polls, poll@);
            }
            return Err(VotingError::PollNotFound);
        },
        Some(i) => i,
    };
    proof {
        assert(ledger@.polls[pi as int].0 == poll@);
        lemma_lookup_first_match(ledger@.polls, poll@, pi as int);
    }
    if !ledger.polls[pi].1.is_active {
        return Err(VotingError::PollClosed);
    }
    if (option_index as usize) >= ledger.polls[pi].1.options.len() {
        return Err(VotingError::InvalidOption);
    }
    let marker = match derive_vote_marker(&ledger.program_id, poll, voter) {
        None => { return Err(VotingError::DerivationFailure) },
        Some(m) => m,
    };
    if let Some(j) = key_index(&ledger.vote_records, &marker.0) {
        proof {
            assert(ledger@.vote_records[j as int].0 == marker.0@);
            lemma_lookup_first_match(ledger@.vote_records, marker.0@, j as int);
        }
        return Err(VotingError::AlreadyVoted);
    }
    proof {
        assert forall|k: int| 0 <= k < ledger@.vote_records.len() implies (
        #[trigger] ledger@.vote_records[k]).0 != marker.0@ by {
            assert(ledger@.vote_records[k].0 == ledger.vote_records@[k].0@);
        }
        lemma_lookup_no_match(ledger@.vote_records, marker.0@);
    }
    let idx = option_index as usize;
    let current = ledger.polls[pi].1.votes[idx];
    if current == u64::MAX {
        return Err(VotingError::VoteOverflow);
    }
    ledger.polls[pi].1.votes[idx] = current + 1;
    ledger.vote_records.push(
        (marker.0, VoteRecord { voter: *voter, poll: *poll, option_index, bump: marker.1 }),
    );
    proof {
        let spec_post = spec_vote_poll(old(ledger)@, poll@, voter@, option_index).0;
        assert(ledger@.polls[pi as int].1.votes =~= spec_post.polls[pi as int].1.votes);
        assert(ledger@.polls =~= spec_post.polls);
        assert(ledger@.vote_records =~= spec_post.vote_records);
        assert forall|a: int, b: int| 0 <= a < b < ledger@.polls.len() implies (
        #[trigger] ledger@.polls[a]).0 != (#[trigger] ledger@.polls[b]).0 by {
            assert(old(ledger)@.polls[a].0 != old(ledger)@.polls[b].0);
        }
        assert forall|a: int, b: int| 0 <= a < b < ledger@.vote_records.len() implies (
        #[trigger] ledger@.vote_records[a]).0 != (#[trigger] ledger@.vote_records[b]).0 by {
            if b < ledger@.vote_records.len() - 1 {
                assert(old(ledger)@.vote_records[a].0 != old(ledger)@.vote_records[b].0);
            }
        }
        assert forall|k: int| 0 <= k < ledger@.polls.len() implies (
        #[trigger] ledger@.polls[k]).1.wf() by {
            assert(old(ledger)@.polls[k].1.wf());
        }
    }
    Ok(Voted { poll: *poll, voter: *voter, option_index, ts: now_ts })
}

/// What closing a poll does to the store, and what it answers: only the
/// creator may close, only once; closing clears the active flag and
/// nothing else.
pub open spec fn spec_close_poll(pre: LedgerData, poll: Seq<u8>, caller: Seq<u8>) -> (
    LedgerData,
    Result<(), VotingError>,
) {
    match spec_lookup(pre.polls, poll) {
        None => (pre, Err(VotingError::PollNotFound)),
        Some(p) => if p.creator != caller {
            (pre, Err(VotingError::Unauthorized))
        } else if !p.is_active {
            (pre, Err(VotingError::PollAlreadyClosed))
        } else {
            let updated = PollData { is_active: false, ..p };
            (
                LedgerData {
                    program: pre.program,
                    polls: pre.polls.update(spec_key_index(pre.polls, poll), (poll, updated)),
                    vote_records: pre.vote_records,
                },
                Ok(()),
            )
        },
    }
}

/// Close a poll: the caller must be its creator and the poll still open.
/// The active flag is cleared and never set again; everything else in the
/// record stays.
pub fn close_poll(ledger: &mut Ledger, poll: &Address, caller: &Address, now_ts: i64) -> (r:
    Result<PollClosed, VotingError>)
    requires
        old(ledger)@.wf(),
    ensures
        final(ledger)@.wf(),
        final(ledger)@ == spec_close_poll(old(ledger)@, poll@, caller@).0,
        ({
            let outcome = spec_close_poll(old(ledger)@, poll@, caller@).1;
            match r {
                Ok(ev) => outcome == Ok::<(), VotingError>(()) && ev.poll@ == poll@ && ev.creator@
                    == caller@ && ev.ts == now_ts,
                Err(e) => outcome == Err::<(), VotingError>(e),
            }
        }),
{
    let pi = match key_index(&ledger.polls, poll) {
        None => {
            proof {
                assert forall|k: int| 0 <= k < ledger@.polls.len() implies (
                #[trigger] ledger@.polls[k]).0 != poll@ by {
                    assert(ledger@.polls[k].0 == ledger.polls@[k].0@);
                }
                lemma_lookup_no_match(ledger@.polls, poll@);
            }
            return Err(VotingError::PollNotFound);
        },
        Some(i) => i,
    };
    proof {
        assert(ledger@.polls[pi as int].0 == poll@);
        lemma_lookup_first_match(ledger@.polls, poll@, pi as int);
    }
    if !ledger.polls[pi].1.creator.eq_bytes(caller) {
        return Err(VotingError::Unauthorized);
    }
    if !ledger.polls[pi].1.is_active {
        return Err(VotingError::PollAlreadyClosed);
    }
    ledger.polls[pi].1.is_active = false;
    proof {
        let spec_post = spec_close_poll(old(ledger)@, poll@, caller@).0;
        assert(ledger@.polls =~= spec_post.polls);
        assert(ledger@.vote_records =~= spec_post.vote_records);
        assert forall|a: int, b: int| 0 <= a < b < ledger@.polls.len() implies (
        #[trigger] ledger@.polls[a]).0 != (#[trigger] ledger@.polls[b]).0 by {
            assert(old(ledger)@.polls[a].0 != old(ledger)@.polls[b].0);
        }
        assert forall|k: int| 0 <= k < ledger@.polls.len() implies (
        #[trigger] ledger@.polls[k]).1.wf() by {
            assert(old(ledger)@.polls[k].1.wf());
        }
    }
    Ok(PollClosed { poll: *poll, creator: *caller, ts: now_ts })
}

} // verus!
