//! The 64-bit FNV-1a hash over bytes.
use vstd::prelude::*;

verus! {

/// The FNV-1a offset basis.
pub open spec fn fnv_offset() -> u64 {
    14695981039346656037u64
}

/// FNV-1a over `bytes`, starting from the state `h0`: each byte is xored
/// in, then the state is multiplied by the FNV prime, wrapping.
pub open spec fn fnv1a_from(h0: u64, bytes: Seq<u8>) -> u64
    decreases bytes.len(),
{
    if bytes.len() == 0 {
        h0
    } else {
        (fnv1a_from(h0, bytes.drop_last()) ^ (bytes.last() as u64)).wrapping_mul(1099511628211u64)
    }
}

/// FNV-1a over `bytes` from the state `h0`.
pub fn fnv1a_bytes(h0: u64, bytes: &[u8]) -> (h: u64)
    ensures
        h == fnv1a_from(h0, bytes@),
{
    let mut h: u64 = h0;
    let mut i: usize = 0;
    while i < bytes.len()
        invariant
            0 <= i <= bytes@.len(),
            h == fnv1a_from(h0, bytes@.subrange(0, i as int)),
        decreases bytes@.len() - i,
    {
        proof {
            assert(bytes@.subrange(0, i as int + 1).drop_last() =~= bytes@.subrange(0, i as int));
        }
        h = (h ^ (bytes[i] as u64)).wrapping_mul(1099511628211);
        i = i + 1;
    }
    proof {
        assert(bytes@.subrange(0, i as int) =~= bytes@);
    }
    h
}

} // verus!
