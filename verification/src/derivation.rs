//! Deterministic key derivation: an ordered tuple of byte-string seed
//! components is mapped to a storage address plus a disambiguation byte (the
//! "bump" nonce). The same tuple always derives the same address, so the
//! address itself serves as the index: no lookup table is maintained.

use vstd::prelude::*;
use crate::addr::Address;

verus! {

/// What the derivation returns for a seed tuple under a program identity:
/// `None` in the statistically improbable event that no bump seed yields an
/// address, else the address and its bump. The result depends on the seeds
/// and the program identity alone.
pub uninterp spec fn derived_record_key(seeds: Seq<Seq<u8>>, program: Seq<u8>) -> Option<
    (Seq<u8>, u8),
>;

/// The mathematical value of a derivation outcome.
pub open spec fn derived_view(r: Option<(Address, u8)>) -> Option<(Seq<u8>, u8)> {
    match r {
        Some(p) => Some((p.0@, p.1)),
        None => None,
    }
}

/// The views of a sequence of seed components.
pub open spec fn seeds_view(seeds: Seq<Vec<u8>>) -> Seq<Seq<u8>> {
    seeds.map_values(|s: Vec<u8>| s@)
}

/// Relies on `Pubkey::try_find_program_address` of anchor_lang's re-exported
/// Solana address type: it searches bump seeds deterministically, so its
/// result is a function of the seed tuple and the program identity alone,
/// and it returns `None` rather than panicking when no bump seed works.
#[verifier::external_body]
fn try_derive(seeds: &Vec<Vec<u8>>, program: &Address) -> (r: Option<(Address, u8)>)
    ensures
        derived_view(r) == derived_record_key(seeds_view(seeds@), program@),
{
    let seed_slices: Vec<&[u8]> = seeds.iter().map(|s| s.as_slice()).collect();
    let program_key = anchor_lang::prelude::Pubkey::new_from_array(program.bytes);
    anchor_lang::prelude::Pubkey::try_find_program_address(&seed_slices, &program_key).map(
        |p: (anchor_lang::prelude::Pubkey, u8)| (Address { bytes: p.0.to_bytes() }, p.1),
    )
}

/// The seed tag of a poll record: the ASCII bytes of "poll".
pub open spec fn poll_seed_tag() -> Seq<u8> {
    seq![112u8, 111u8, 108u8, 108u8]
}

/// The seed tag of a vote marker: the ASCII bytes of "vote".
pub open spec fn vote_seed_tag() -> Seq<u8> {
    seq![118u8, 111u8, 116u8, 101u8]
}

/// The seed tuple that locates a poll: tag, creator identity, poll id in
/// little-endian bytes.
pub open spec fn poll_seeds(creator: Seq<u8>, poll_id: u64) -> Seq<Seq<u8>> {
    seq![poll_seed_tag(), creator, vstd::bytes::spec_u64_to_le_bytes(poll_id)]
}

/// The seed tuple that locates a vote marker: tag, poll address, voter
/// identity.
pub open spec fn vote_seeds(poll: Seq<u8>, voter: Seq<u8>) -> Seq<Seq<u8>> {
    seq![vote_seed_tag(), poll, voter]
}

/// Where a poll of this creator and id lives under this program identity.
pub open spec fn poll_address(program: Seq<u8>, creator: Seq<u8>, poll_id: u64) -> Option<
    (Seq<u8>, u8),
> {
    derived_record_key(poll_seeds(creator, poll_id), program)
}

/// Where the vote marker of this (poll, voter) pair lives under this
/// program identity.
pub open spec fn vote_marker_address(program: Seq<u8>, poll: Seq<u8>, voter: Seq<u8>) -> Option<
    (Seq<u8>, u8),
> {
    derived_record_key(vote_seeds(poll, voter), program)
}

fn address_bytes(a: &Address) -> (r: Vec<u8>)
    ensures
        r@ == a@,
{
    vstd::slice::slice_to_vec(vstd::array::array_as_slice(&a.bytes))
}

fn poll_tag_bytes() -> (r: Vec<u8>)
    ensures
        r@ == poll_seed_tag(),
{
    let mut v: Vec<u8> = Vec::new();
    v.push(112u8);
    v.push(111u8);
    v.push(108u8);
    v.push(108u8);
    proof {
        assert(v@ =~= poll_seed_tag());
    }
    v
}

fn vote_tag_bytes() -> (r: Vec<u8>)
    ensures
        r@ == vote_seed_tag(),
{
    let mut v: Vec<u8> = Vec::new();
    v.push(118u8);
    v.push(111u8);
    v.push(116u8);
    v.push(101u8);
    proof {
        assert(v@ =~= vote_seed_tag());
    }
    v
}

/// Derive the storage address and bump nonce of the poll record for
/// (creator, poll id). Re-deriving from the same pair reproduces the same
/// outcome, because the outcome is a function of the seeds alone.
pub fn derive_poll_address(program: &Address, creator: &Address, poll_id: u64) -> (r: Option<
    (Address, u8),
>)
    ensures
        derived_view(r) == poll_address(program@, creator@, poll_id),
{
    let mut seeds: Vec<Vec<u8>> = Vec::new();
    seeds.push(poll_tag_bytes());
    seeds.push(address_bytes(creator));
    seeds.push(vstd::bytes::u64_to_le_bytes(poll_id));
    proof {
        assert(seeds_view(seeds@) =~= poll_seeds(creator@, poll_id));
    }
    try_derive(&seeds, program)
}

/// Derive the storage address and bump nonce of the vote marker for
/// (poll, voter). One pair, one address: a second derivation can only land
/// on the occupied slot.
pub fn derive_vote_marker(program: &Address, poll: &Address, voter: &Address) -> (r: Option<
    (Address, u8),
>)
    ensures
        derived_view(r) == vote_marker_address(program@, poll@, voter@),
{
    let mut seeds: Vec<Vec<u8>> = Vec::new();
    seeds.push(vote_tag_bytes());
    seeds.push(address_bytes(poll));
    seeds.push(address_bytes(voter));
    proof {
        assert(seeds_view(seeds@) =~= vote_seeds(poll@, voter@));
    }
    try_derive(&seeds, program)
}

} // verus!
