//! CRC-32 with the reflected polynomial `0xEDB88320`, bit by bit.
use vstd::prelude::*;

verus! {

/// One step of the reflected CRC-32 division by the polynomial `0xEDB88320`.
pub open spec fn crc_shift(c: u32) -> u32 {
    if c & 1 == 1 {
        (c >> 1) ^ 0xEDB8_8320
    } else {
        c >> 1
    }
}

/// `n` steps of the division.
pub open spec fn crc_shifts(c: u32, n: nat) -> u32
    decreases n,
{
    if n == 0 {
        c
    } else {
        crc_shifts(crc_shift(c), (n - 1) as nat)
    }
}

/// The register after one more byte.
pub open spec fn crc_feed(c: u32, byte: u8) -> u32 {
    crc_shifts(c ^ (byte as u32), 8)
}

/// The register after `bytes`, starting from all ones.
pub open spec fn crc_state(bytes: Seq<u8>) -> u32
    decreases bytes.len(),
{
    if bytes.len() == 0 {
        0xFFFF_FFFF
    } else {
        crc_feed(crc_state(bytes.drop_last()), bytes.last())
    }
}

/// The CRC-32 checksum of `bytes`: the register, inverted.
pub open spec fn crc32_spec(bytes: Seq<u8>) -> u32 {
    crc_state(bytes) ^ 0xFFFF_FFFF
}

/// The register after `more` has followed `bytes`.
pub open spec fn crc_continue(c: u32, more: Seq<u8>) -> u32
    decreases more.len(),
{
    if more.len() == 0 {
        c
    } else {
        crc_feed(crc_continue(c, more.drop_last()), more.last())
    }
}

/// Feeding two runs of bytes one after the other is feeding their
/// concatenation.
pub proof fn lemma_crc_concat(a: Seq<u8>, b: Seq<u8>)
    ensures
        crc_state(a + b) == crc_continue(crc_state(a), b),
    decreases b.len(),
{
    if b.len() == 0 {
        assert(a + b =~= a);
    } else {
        lemma_crc_concat(a, b.drop_last());
        assert((a + b).drop_last() =~= a + b.drop_last());
        assert((a + b).last() == b.last());
    }
}

/// Feeds one byte to the register.
pub fn feed_byte(c: u32, byte: u8) -> (next: u32)
    ensures
        next == crc_feed(c, byte),
{
    let mut cur: u32 = c ^ (byte as u32);
    let mut k: u8 = 0;
    while k < 8
        invariant
            k <= 8,
            crc_shifts(cur, (8 - k) as nat) == crc_feed(c, byte),
        decreases 8 - k,
    {
        cur = if cur & 1 == 1 {
            (cur >> 1) ^ 0xEDB8_8320
        } else {
            cur >> 1
        };
        k = k + 1;
    }
    cur
}

/// Feeds a run of bytes to the register.
pub fn feed_bytes(c: u32, bytes: &[u8]) -> (next: u32)
    ensures
        next == crc_continue(c, bytes@),
{
    let mut cur: u32 = c;
    let mut i: usize = 0;
    while i < bytes.len()
        invariant
            i <= bytes.len(),
            cur == crc_continue(c, bytes@.subrange(0, i as int)),
        decreases bytes.len() - i,
    {
        proof {
            let next = bytes@.subrange(0, i + 1);
            assert(next.drop_last() =~= bytes@.subrange(0, i as int));
            assert(next.last() == bytes@[i as int]);
        }
        cur = feed_byte(cur, bytes[i]);
        i = i + 1;
    }
    assert(bytes@.subrange(0, i as int) =~= bytes@);
    cur
}

/// The CRC-32 checksum of `bytes`.
pub fn crc32(bytes: &[u8]) -> (sum: u32)
    ensures
        sum == crc32_spec(bytes@),
{
    proof {
        lemma_crc_concat(Seq::empty(), bytes@);
        assert(Seq::<u8>::empty() + bytes@ =~= bytes@);
    }
    feed_bytes(0xFFFF_FFFF, bytes) ^ 0xFFFF_FFFF
}

} // verus!
