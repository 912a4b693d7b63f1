//! Comparing a candidate address with the wanted prefix.

use vstd::prelude::*;
use vstd::std_specs::iter::IteratorSpec;

verus! {

/// Whether `address`, after its first `skip` characters, goes on with
/// `prefix`. A candidate too short to hold `skip` characters and the prefix
/// does not match.
pub open spec fn prefix_matches(address: Seq<char>, skip: int, prefix: Seq<char>) -> bool {
    &&& 0 <= skip
    &&& skip + prefix.len() <= address.len()
    &&& address.subrange(skip, skip + prefix.len()) == prefix
}

/// Tests one candidate address against the prefix, character by character,
/// without ever reading past the end of the candidate.
pub fn matches_prefix(address: &str, skip: usize, prefix: &str) -> (r: bool)
    ensures
        r == prefix_matches(address@, skip as int, prefix@),
{
    broadcast use vstd::string::group_string_axioms;

    let mut candidate = address.chars();
    let mut skipped: usize = 0;
    while skipped < skip
        invariant
            skipped <= skip,
            skipped <= address@.len(),
            candidate.remaining() == address@.skip(skipped as int),
        decreases skip - skipped,
    {
        match candidate.next() {
            None => {
                return false;
            },
            Some(_) => {
                skipped = skipped + 1;
            },
        }
    }
    let mut wanted = prefix.chars();
    let ghost mut compared: int = 0;
    loop
        invariant
            0 <= compared <= prefix@.len(),
            skip + compared <= address@.len(),
            candidate.remaining() == address@.skip(skip + compared),
            wanted.remaining() == prefix@.skip(compared),
            address@.subrange(skip as int, skip + compared) == prefix@.subrange(0, compared),
        decreases prefix@.len() - compared,
    {
        match wanted.next() {
            None => {
                assert(prefix@.subrange(0, compared) == prefix@);
                return true;
            },
            Some(w) => {
                match candidate.next() {
                    None => {
                        return false;
                    },
                    Some(c) => {
                        if c != w {
                            assert(address@[skip + compared] != prefix@[compared]);
                            return false;
                        }
                        proof {
                            compared = compared + 1;
                        }
                    },
                }
            },
        }
    }
}

/// A prefix that does not fit behind the skipped characters never matches.
pub proof fn lemma_long_prefix_never_matches(address: Seq<char>, skip: int, prefix: Seq<char>)
    requires
        skip + prefix.len() > address.len(),
    ensures
        !prefix_matches(address, skip, prefix),
{
}

/// The empty prefix matches every candidate that holds the skipped characters.
pub proof fn lemma_empty_prefix_matches(address: Seq<char>, skip: int)
    requires
        0 <= skip <= address.len(),
    ensures
        prefix_matches(address, skip, Seq::<char>::empty()),
{
    assert(address.subrange(skip, skip + 0) =~= Seq::<char>::empty());
}

} // verus!
