//! The record store: a mapping from derived addresses to record slots.
//!
//! Storage is modelled as two keyed arenas, one per record shape. A record
//! is created only by an insert-if-absent step against its derived address;
//! that single step is what makes creation idempotence and the double-vote
//! guard hold.

use vstd::prelude::*;
use crate::addr::Address;
use crate::derivation::vote_marker_address;
use crate::records::{PollAccount, PollData, VoteRecord, VoteData};

verus! {

/// First-match lookup among keyed entries.
pub open spec fn spec_lookup<T>(entries: Seq<(Seq<u8>, T)>, key: Seq<u8>) -> Option<T>
    decreases entries.len(),
{
    if entries.len() == 0 {
        None
    } else if entries[0].0 == key {
        Some(entries[0].1)
    } else {
        spec_lookup(entries.drop_first(), key)
    }
}

/// The position of the first entry under `key`; meaningful only when the
/// key is present.
pub open spec fn spec_key_index<T>(entries: Seq<(Seq<u8>, T)>, key: Seq<u8>) -> int
    decreases entries.len(),
{
    if entries.len() == 0 {
        0
    } else if entries[0].0 == key {
        0
    } else {
        1 + spec_key_index(entries.drop_first(), key)
    }
}

/// No two entries share an address: each record occupies one slot.
pub open spec fn distinct_keys<T>(entries: Seq<(Seq<u8>, T)>) -> bool {
    forall|i: int, j: int|
        0 <= i < j < entries.len() ==> (#[trigger] entries[i]).0 != (#[trigger] entries[j]).0
}

/// A first match at `i` settles both the lookup and the key's position.
pub proof fn lemma_lookup_first_match<T>(entries: Seq<(Seq<u8>, T)>, key: Seq<u8>, i: int)
    requires
        0 <= i < entries.len(),
        entries[i].0 == key,
        forall|k: int| 0 <= k < i ==> (#[trigger] entries[k]).0 != key,
    ensures
        spec_lookup(entries, key) == Some(entries[i].1),
        spec_key_index(entries, key) == i,
    decreases i,
{
    if i > 0 {
        lemma_lookup_first_match(entries.drop_first(), key, i - 1);
    }
}

/// A key that matches no entry is absent.
pub proof fn lemma_lookup_no_match<T>(entries: Seq<(Seq<u8>, T)>, key: Seq<u8>)
    requires
        forall|k: int| 0 <= k < entries.len() ==> (#[trigger] entries[k]).0 != key,
    ensures
        spec_lookup(entries, key) is None,
    decreases entries.len(),
{
    if entries.len() > 0 {
        lemma_lookup_no_match(entries.drop_first(), key);
    }
}

/// Appending an entry changes no present key and fills exactly its own.
pub proof fn lemma_lookup_push<T>(entries: Seq<(Seq<u8>, T)>, k: Seq<u8>, v: T, key: Seq<u8>)
    ensures
        spec_lookup(entries.push((k, v)), key) == (if spec_lookup(entries, key) is Some {
            spec_lookup(entries, key)
        } else if key == k {
            Some(v)
        } else {
            None::<T>
        }),
    decreases entries.len(),
{
    if entries.len() == 0 {
        assert(entries.push((k, v)).drop_first() =~= Seq::<(Seq<u8>, T)>::empty());
    } else {
        assert(entries.push((k, v)).drop_first() =~= entries.drop_first().push((k, v)));
        lemma_lookup_push(entries.drop_first(), k, v, key);
    }
}

/// An absent key matches no entry at all.
pub proof fn lemma_lookup_none_no_match<T>(entries: Seq<(Seq<u8>, T)>, key: Seq<u8>)
    requires
        spec_lookup(entries, key) is None,
    ensures
        forall|k: int| 0 <= k < entries.len() ==> (#[trigger] entries[k]).0 != key,
    decreases entries.len(),
{
    if entries.len() > 0 {
        lemma_lookup_none_no_match(entries.drop_first(), key);
        assert forall|k: int| 0 <= k < entries.len() implies (#[trigger] entries[k]).0 != key by {
            if k > 0 {
                assert(entries[k] == entries.drop_first()[k - 1]);
            }
        }
    }
}

/// A present key names one slot: the first match, whose entry carries the
/// key and the looked-up value.
pub proof fn lemma_lookup_some_index<T>(entries: Seq<(Seq<u8>, T)>, key: Seq<u8>)
    requires
        spec_lookup(entries, key) is Some,
    ensures
        0 <= spec_key_index(entries, key) < entries.len(),
        entries[spec_key_index(entries, key)].0 == key,
        spec_lookup(entries, key) == Some(entries[spec_key_index(entries, key)].1),
        forall|k: int|
            0 <= k < spec_key_index(entries, key) ==> (#[trigger] entries[k]).0 != key,
    decreases entries.len(),
{
    if entries.len() > 0 && entries[0].0 != key {
        lemma_lookup_some_index(entries.drop_first(), key);
        assert forall|k: int|
            0 <= k < spec_key_index(entries, key) implies (#[trigger] entries[k]).0 != key by {
            if k > 0 {
                assert(entries[k] == entries.drop_first()[k - 1]);
            }
        }
    }
}

/// Updating the slot of one key changes that key's value and no other.
pub proof fn lemma_lookup_update<T>(entries: Seq<(Seq<u8>, T)>, i: int, v: T, key: Seq<u8>)
    requires
        0 <= i < entries.len(),
        forall|k: int| 0 <= k < i ==> (#[trigger] entries[k]).0 != entries[i].0,
    ensures
        spec_lookup(entries.update(i, (entries[i].0, v)), key) == (if key == entries[i].0 {
            Some(v)
        } else {
            spec_lookup(entries, key)
        }),
    decreases i,
{
    let updated = entries.update(i, (entries[i].0, v));
    if i == 0 {
        assert(updated.drop_first() =~= entries.drop_first());
    } else {
        assert(updated.drop_first() =~= entries.drop_first().update(i - 1, (entries[i].0, v)));
        lemma_lookup_update(entries.drop_first(), i - 1, v, key);
    }
}

/// The persistent state one deployed instance works against: its own
/// program identity (fixed at startup) and the records created so far.
pub struct Ledger {
    /// The fixed identity of this deployed instance; immutable
    /// configuration, part of every derivation seed's context.
    pub program_id: Address,
    /// The poll records, each stored under its derived address.
    pub polls: Vec<(Address, PollAccount)>,
    /// The vote markers, each stored under its derived address.
    pub vote_records: Vec<(Address, VoteRecord)>,
}

/// The mathematical value of a `Ledger`.
pub struct LedgerData {
    pub program: Seq<u8>,
    pub polls: Seq<(Seq<u8>, PollData)>,
    pub vote_records: Seq<(Seq<u8>, VoteData)>,
}

impl View for Ledger {
    type V = LedgerData;

    open spec fn view(&self) -> LedgerData {
        LedgerData {
            program: self.program_id@,
            polls: self.polls@.map_values(|e: (Address, PollAccount)| (e.0@, e.1@)),
            vote_records: self.vote_records@.map_values(|e: (Address, VoteRecord)| (e.0@, e.1@)),
        }
    }
}

impl LedgerData {
    /// Well-formedness: every address holds at most one record, and every
    /// stored poll satisfies the creation bounds with one counter per
    /// option.
    pub open spec fn wf(self) -> bool {
        &&& distinct_keys(self.polls)
        &&& distinct_keys(self.vote_records)
        &&& forall|i: int| 0 <= i < self.polls.len() ==> (#[trigger] self.polls[i]).1.wf()
    }
}

/// Scan for the first entry stored under `key`.
pub(crate) fn key_index<T>(entries: &Vec<(Address, T)>, key: &Address) -> (r: Option<usize>)
    ensures
        match r {
            Some(i) => i < entries@.len() && (#[trigger] entries@[i as int]).0@ == key@ && forall|
                k: int,
            | 0 <= k < i ==> (#[trigger] entries@[k]).0@ != key@,
            None => forall|k: int| 0 <= k < entries@.len() ==> (#[trigger] entries@[k]).0@ != key@,
        },
{
    let mut i: usize = 0;
    while i < entries.len()
        invariant
            i <= entries@.len(),
            forall|k: int| 0 <= k < i ==> (#[trigger] entries@[k]).0@ != key@,
        decreases entries@.len() - i,
    {
        if entries[i].0.eq_bytes(key) {
            return Some(i);
        }
        i += 1;
    }
    None
}

impl Ledger {
    /// An empty store for one deployed instance, identified by its fixed
    /// program identity.
    pub fn new(program_id: Address) -> (r: Ledger)
        ensures
            r@.program == program_id@,
            r@.polls == Seq::<(Seq<u8>, PollData)>::empty(),
            r@.vote_records == Seq::<(Seq<u8>, VoteData)>::empty(),
            r@.wf(),
    {
        let r = Ledger { program_id, polls: Vec::new(), vote_records: Vec::new() };
        proof {
            assert(r@.polls =~= Seq::<(Seq<u8>, PollData)>::empty());
            assert(r@.vote_records =~= Seq::<(Seq<u8>, VoteData)>::empty());
        }
        r
    }

    /// The program identity this store was created with.
    pub fn program_id(&self) -> (r: &Address)
        ensures
            r@ == self@.program,
    {
        &self.program_id
    }

    /// The poll record stored at `poll`, if any.
    pub fn get_poll(&self, poll: &Address) -> (r: Option<&PollAccount>)
        ensures
            match r {
                Some(p) => spec_lookup(self@.polls, poll@) == Some(p@),
                None => spec_lookup(self@.polls, poll@) is None,
            },
    {
        match key_index(&self.polls, poll) {
            Some(i) => {
                proof {
                    lemma_lookup_first_match(self@.polls, poll@, i as int);
                }
                Some(&self.polls[i].1)
            },
            None => {
                proof {
                    lemma_lookup_no_match(self@.polls, poll@);
                }
                None
            },
        }
    }

    /// Whether a vote marker for (poll, voter) occupies its derived
    /// address.
    pub fn has_voted(&self, poll: &Address, voter: &Address) -> (r: bool)
        ensures
            r == (match vote_marker_address(self@.program, poll@, voter@) {
                Some(m) => spec_lookup(self@.vote_records, m.0) is Some,
                None => false,
            }),
    {
        match crate::derivation::derive_vote_marker(&self.program_id, poll, voter) {
            Some(marker) => {
                match key_index(&self.vote_records, &marker.0) {
                    Some(i) => {
                        proof {
                            lemma_lookup_first_match(self@.vote_records, marker.0@, i as int);
                        }
                        true
                    },
                    None => {
                        proof {
                            lemma_lookup_no_match(self@.vote_records, marker.0@);
                        }
                        false
                    },
                }
            },
            None => false,
        }
    }
}

} // verus!
