//! The masking engine: XOR of a payload with a 4-byte key.
use vstd::prelude::*;

verus! {

/// `buf` with byte `i` XORed with `key[i % 4]`.
pub open spec fn masked(key: Seq<u8>, buf: Seq<u8>) -> Seq<u8> {
    Seq::new(buf.len(), |i: int| buf[i] ^ key[i % 4])
}

/// Mask or unmask `buf` in place with `key`.
pub fn mask(key: [u8; 4], buf: &mut Vec<u8>)
    ensures
        final(buf)@ == masked(key@, old(buf)@),
{
    let n = buf.len();
    let mut i: usize = 0;
    while i < n
        invariant
            n == old(buf)@.len(),
            buf@.len() == n,
            i <= n,
            forall|j: int| 0 <= j < i ==> buf@[j] == #[trigger] old(buf)@[j] ^ key@[j % 4],
            forall|j: int| i <= j < n ==> buf@[j] == #[trigger] old(buf)@[j],
        decreases n - i,
    {
        let b = buf[i] ^ key[i % 4];
        buf.set(i, b);
        i = i + 1;
    }
    assert(buf@ =~= masked(key@, old(buf)@));
}

/// Masking twice with the same key gives back the original bytes.
pub proof fn lemma_mask_involutive(key: Seq<u8>, buf: Seq<u8>)
    requires
        key.len() == 4,
    ensures
        masked(key, masked(key, buf)) == buf,
{
    assert forall|i: int| 0 <= i < buf.len() implies #[trigger] masked(key, masked(key, buf))[i]
        == buf[i] by {
        let a = buf[i];
        let k = key[i % 4];
        assert((a ^ k) ^ k == a) by (bit_vector);
    }
    assert(masked(key, masked(key, buf)) =~= buf);
}

} // verus!
