//! Hashing of text with std's default hasher.

use std::collections::hash_map::DefaultHasher;
use std::hash::Hash;
use vstd::prelude::*;

verus! {

/// What hashing a text of the given characters writes into a hasher.
pub uninterp spec fn str_writes(text: Seq<char>) -> Seq<Seq<u8>>;

/// `str::hash` into a `DefaultHasher`: it adds writes that depend on the text alone.
#[verifier::external_body]
pub(crate) fn feed(hasher: &mut DefaultHasher, text: &str)
    ensures
        final(hasher)@ == old(hasher)@ + str_writes(text@),
{
    text.hash(hasher)
}

} // verus!
