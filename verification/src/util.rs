//! Small helpers: the hash that names url downloads, and who made popcorn.

use vstd::prelude::*;
use vstd::std_specs::hash::DefaultHasherAdditionalSpecFns;
use std::collections::hash_map::DefaultHasher;
use std::hash::Hasher;

verus! {

/// The bytes that `Hash::hash` of a `String` writes into a hasher, in order;
/// a function of the string's characters.
pub uninterp spec fn string_hash_writes(s: Seq<char>) -> Seq<Seq<u8>>;

/// `Hash::hash` of a `String` into a `DefaultHasher`: the writes it makes
/// are named, not restated.
#[verifier::external_body]
fn hash_string_into(t: &String, state: &mut DefaultHasher)
    ensures
        final(state)@ == old(state)@ + string_hash_writes(t@),
{
    std::hash::Hash::hash(t, state)
}

/// The hash of a text with a fresh `DefaultHasher`: the same text always
/// hashes the same.
pub fn calculate_hash(t: &String) -> (r: u64)
    ensures
        r == DefaultHasher::spec_finish(string_hash_writes(t@)),
{
    let mut s = DefaultHasher::new();
    hash_string_into(t, &mut s);
    assert(s@ =~= string_hash_writes(t@));
    s.finish()
}

/// Who made popcorn, and where it lives.
pub struct Blame<'a> {
    pub name: &'a str,
    pub description: &'a str,
    pub version: &'a str,
    pub source: &'a str,
}

} // verus!
