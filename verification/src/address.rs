//! Record addresses. Each record lives at the address derived from a
//! namespace tag, the keys that identify it and the program's identity, so
//! that every party computes the same address.

use crate::state::Address;
use solana_program::pubkey::Pubkey;
use vstd::prelude::*;
use vstd::utf8::encode_utf8;

verus! {

/// The address derived from `seeds` under `program_id`, with the
/// disambiguation counter ("bump") that the derivation settled on: the
/// counter starts at 255 and is lowered until the derived bytes are a valid
/// record address. `None` where no counter gives one, where there are more
/// than 15 seeds, or where a seed is longer than 32 bytes.
pub uninterp spec fn derived_address(seeds: Seq<Seq<u8>>, program_id: Seq<u8>) -> Option<
    (Seq<u8>, u8),
>;

/// The bytes of each seed.
pub open spec fn seed_bytes(seeds: Seq<Vec<u8>>) -> Seq<Seq<u8>> {
    Seq::new(seeds.len(), |i: int| seeds[i]@)
}

/// `Pubkey::try_find_program_address`: a function of the seeds and the
/// program's identity alone. The result is the named derivation.
#[verifier::external_body]
fn try_find_program_address(seeds: &Vec<Vec<u8>>, program_id: &Address) -> (r: Option<
    (Address, u8),
>)
    ensures
        r matches Some(found) ==> derived_address(seed_bytes(seeds@), program_id@) == Some(
            (found.0@, found.1),
        ),
        r is None ==> derived_address(seed_bytes(seeds@), program_id@) is None,
{
    let parts: Vec<&[u8]> = seeds.iter().map(|s: &Vec<u8>| s.as_slice()).collect();
    let id = Pubkey::new_from_array(program_id.bytes);
    match Pubkey::try_find_program_address(&parts, &id) {
        Some((address, bump)) => Some((Address { bytes: address.to_bytes() }, bump)),
        None => None,
    }
}

/// The bytes of a namespace tag.
pub open spec fn tag(name: Seq<char>) -> Seq<u8> {
    encode_utf8(name)
}

/// Seeds of the session record of `host`.
pub open spec fn session_seeds(host: Seq<u8>) -> Seq<Seq<u8>> {
    seq![tag("quiz_session"@), host]
}

/// Seeds of the record of question `index` of the session at `session`.
pub open spec fn question_seeds(session: Seq<u8>, index: u8) -> Seq<Seq<u8>> {
    seq![tag("quiz_question"@), session, seq![index]]
}

/// Seeds of the answer record of `player` in the session at `session`.
pub open spec fn answer_seeds(session: Seq<u8>, player: Seq<u8>) -> Seq<Seq<u8>> {
    seq![tag("player_answer"@), session, player]
}

/// Seeds of the score record of `player` in the session at `session`.
pub open spec fn score_seeds(session: Seq<u8>, player: Seq<u8>) -> Seq<Seq<u8>> {
    seq![tag("player_score"@), session, player]
}

/// The seeds with which a derived record signs: its seeds, then the bump.
pub open spec fn signer_seeds(seeds: Seq<Seq<u8>>, bump: u8) -> Seq<Seq<u8>> {
    seeds.push(seq![bump])
}

/// The address that `seeds` derive under `program_id`, if they derive one.
pub open spec fn address_of(seeds: Seq<Seq<u8>>, program_id: Seq<u8>) -> Option<Seq<u8>> {
    match derived_address(seeds, program_id) {
        Some(found) => Some(found.0),
        None => None,
    }
}

/// Derives the address of a record from its seeds, with the bump that the
/// derivation settled on.
pub fn derive_address(seeds: &Vec<Vec<u8>>, program_id: &Address) -> (r: Option<(Address, u8)>)
    ensures
        r matches Some(found) ==> derived_address(seed_bytes(seeds@), program_id@) == Some(
            (found.0@, found.1),
        ),
        r is None ==> derived_address(seed_bytes(seeds@), program_id@) is None,
{
    try_find_program_address(seeds, program_id)
}

fn tag_bytes(name: &str) -> (v: Vec<u8>)
    ensures
        v@ == tag(name@),
{
    let mut v: Vec<u8> = Vec::new();
    v.extend_from_slice(name.as_bytes());
    v
}

/// The seeds of the session record of `host`.
pub fn session_seeds_of(host: &Address) -> (seeds: Vec<Vec<u8>>)
    ensures
        seed_bytes(seeds@) == session_seeds(host@),
{
    let mut seeds: Vec<Vec<u8>> = Vec::new();
    seeds.push(tag_bytes("quiz_session"));
    seeds.push(host.to_vec());
    assert(seed_bytes(seeds@) =~= session_seeds(host@));
    seeds
}

/// The seeds of the record of question `index` of the session at `session`.
pub fn question_seeds_of(session: &Address, index: u8) -> (seeds: Vec<Vec<u8>>)
    ensures
        seed_bytes(seeds@) == question_seeds(session@, index),
{
    let mut seeds: Vec<Vec<u8>> = Vec::new();
    seeds.push(tag_bytes("quiz_question"));
    seeds.push(session.to_vec());
    let mut one: Vec<u8> = Vec::new();
    one.push(index);
    assert(one@ =~= seq![index]);
    seeds.push(one);
    assert(seed_bytes(seeds@) =~= question_seeds(session@, index));
    seeds
}

/// The seeds of the answer record of `player` in the session at `session`.
pub fn answer_seeds_of(session: &Address, player: &Address) -> (seeds: Vec<Vec<u8>>)
    ensures
        seed_bytes(seeds@) == answer_seeds(session@, player@),
{
    let mut seeds: Vec<Vec<u8>> = Vec::new();
    seeds.push(tag_bytes("player_answer"));
    seeds.push(session.to_vec());
    seeds.push(player.to_vec());
    assert(seed_bytes(seeds@) =~= answer_seeds(session@, player@));
    seeds
}

/// The seeds of the score record of `player` in the session at `session`.
pub fn score_seeds_of(session: &Address, player: &Address) -> (seeds: Vec<Vec<u8>>)
    ensures
        seed_bytes(seeds@) == score_seeds(session@, player@),
{
    let mut seeds: Vec<Vec<u8>> = Vec::new();
    seeds.push(tag_bytes("player_score"));
    seeds.push(session.to_vec());
    seeds.push(player.to_vec());
    assert(seed_bytes(seeds@) =~= score_seeds(session@, player@));
    seeds
}

/// Appends the bump to the seeds of a derived record.
pub fn with_bump(seeds: Vec<Vec<u8>>, bump: u8) -> (signing: Vec<Vec<u8>>)
    ensures
        seed_bytes(signing@) == signer_seeds(seed_bytes(seeds@), bump),
{
    let mut signing = seeds;
    let mut one: Vec<u8> = Vec::new();
    one.push(bump);
    assert(one@ =~= seq![bump]);
    signing.push(one);
    assert(seed_bytes(signing@) =~= signer_seeds(seed_bytes(seeds@), bump));
    signing
}

} // verus!
