//! The masking of payload bytes: each byte is XOR-ed with one byte of a
//! four-byte key, the key repeating over the payload.

use vstd::prelude::*;

verus! {

/// `bytes` with byte `i` XOR-ed with byte `i mod 4` of `key`.
pub open spec fn masked(bytes: Seq<u8>, key: Seq<u8>) -> Seq<u8>
    recommends
        key.len() == 4,
{
    Seq::new(bytes.len(), |i: int| bytes[i] ^ key[i % 4])
}

/// Masking twice with one key gives the bytes back: the same operation
/// masks and unmasks.
pub proof fn lemma_mask_involution(bytes: Seq<u8>, key: Seq<u8>)
    requires
        key.len() == 4,
    ensures
        masked(masked(bytes, key), key) == bytes,
{
    assert forall|i: int| 0 <= i < bytes.len() implies #[trigger] masked(masked(bytes, key), key)[i]
        == bytes[i] by {
        let b = bytes[i];
        let k = key[i % 4];
        assert((b ^ k) ^ k == b) by (bit_vector);
    }
    assert(masked(masked(bytes, key), key) =~= bytes);
}

/// Masks `payload` in place with `key`; on masked bytes this unmasks them.
pub fn apply_mask(payload: &mut Vec<u8>, key: &[u8; 4])
    ensures
        final(payload)@ == masked(old(payload)@, key@),
{
    let n = payload.len();
    let mut i: usize = 0;
    while i < n
        invariant
            i <= n,
            n == payload@.len(),
            n == old(payload)@.len(),
            forall|j: int| 0 <= j < i ==> payload@[j] == old(payload)@[j] ^ key@[j % 4],
            forall|j: int| i <= j < n ==> payload@[j] == old(payload)@[j],
        decreases n - i,
    {
        let octet: u8 = payload[i] ^ key[i % 4];
        payload.set(i, octet);
        i = i + 1;
    }
    assert(payload@ =~= masked(old(payload)@, key@));
}

} // verus!
