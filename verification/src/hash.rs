//! FNV-1a hashing of byte strings, used to derive stable recovery file names.

use vstd::prelude::*;

verus! {

/// One FNV-1a round: fold one byte into the running hash.
pub open spec fn fnv1a_step(h: u64, b: u8) -> u64 {
    vstd::wrapping::u64_specs::wrapping_mul(h ^ (b as u64), 0x100000001b3)
}

/// FNV-1a of `data` continued from running hash `h`.
pub open spec fn fnv1a_from(h: u64, data: Seq<u8>) -> u64
    decreases data.len(),
{
    if data.len() == 0 {
        h
    } else {
        fnv1a_from(fnv1a_step(h, data[0]), data.drop_first())
    }
}

/// FNV-1a hash of a byte string, from the standard offset basis.
pub open spec fn spec_fnv1a(data: Seq<u8>) -> u64 {
    fnv1a_from(0xcbf29ce484222325u64, data)
}

/// Stable non-cryptographic 64-bit hash (FNV-1a) of `data`.
pub fn hash64(data: &[u8]) -> (r: u64)
    ensures
        r == spec_fnv1a(data@),
{
    let mut hash: u64 = 0xcbf29ce484222325;
    let mut i: usize = 0;
    proof {
        assert(data@.skip(0) =~= data@);
    }
    while i < data.len()
        invariant
            i <= data@.len(),
            fnv1a_from(hash, data@.skip(i as int)) == spec_fnv1a(data@),
        decreases data@.len() - i,
    {
        let b = data[i];
        proof {
            assert(data@.skip(i as int).drop_first() =~= data@.skip(i + 1));
        }
        hash = (hash ^ (b as u64)).wrapping_mul(0x100000001b3);
        i = i + 1;
    }
    proof {
        assert(data@.skip(i as int) =~= Seq::<u8>::empty());
    }
    hash
}

} // verus!
