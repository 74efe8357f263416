//! The crate's stable 64-bit content hash over character sequences, used both
//! for the incremental cache and for content-addressed staging names.
//!
//! The hash folds each character into a 64-bit accumulator with an xor and a
//! wrapping multiply (the Fowler-Noll-Vo construction); it depends only on
//! the character sequence, so equal text always hashes equally, in every run.

use vstd::prelude::*;

verus! {

pub const HASH_SEED: u64 = 0xcbf2_9ce4_8422_2325;

pub const HASH_PRIME: u64 = 0x0000_0100_0000_01b3;

/// One step of the hash: fold `c` into the accumulator `h`.
pub open spec fn spec_hash_step(h: u64, c: char) -> u64 {
    vstd::wrapping::u64_specs::wrapping_mul(h ^ ((c as u32) as u64), HASH_PRIME)
}

/// The hash of the character sequence `s`.
pub open spec fn spec_hash64(s: Seq<char>) -> u64
    decreases s.len(),
{
    if s.len() == 0 {
        HASH_SEED
    } else {
        spec_hash_step(spec_hash64(s.drop_last()), s.last())
    }
}

/// Hash a character vector.
pub fn hash_chars(s: &Vec<char>) -> (r: u64)
    ensures
        r == spec_hash64(s@),
{
    let mut h: u64 = HASH_SEED;
    let mut i: usize = 0;
    proof {
        assert(s@.subrange(0, 0) =~= Seq::<char>::empty());
    }
    while i < s.len()
        invariant
            i <= s@.len(),
            h == spec_hash64(s@.subrange(0, i as int)),
        decreases s@.len() - i,
    {
        let c = s[i];
        h = (h ^ ((c as u32) as u64)).wrapping_mul(HASH_PRIME);
        i = i + 1;
        proof {
            assert(s@.subrange(0, i as int).drop_last() =~= s@.subrange(0, i - 1));
            assert(s@.subrange(0, i as int).last() == s@[i - 1]);
        }
    }
    proof {
        assert(s@.subrange(0, i as int) =~= s@);
    }
    h
}

/// Hash a string.
pub fn hash_str(s: &str) -> (r: u64)
    ensures
        r == spec_hash64(s@),
{
    let v = crate::to_chars(s);
    hash_chars(&v)
}

} // verus!
