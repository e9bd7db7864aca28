use vstd::prelude::*;
use crate::error::PsarcError;

verus! {

/// The non-negative integer that a byte sequence denotes when read
/// big-endian: the first byte is the most significant.
pub open spec fn be_value(s: Seq<u8>) -> nat
    decreases s.len(),
{
    if s.len() == 0 {
        0
    } else {
        be_value(s.drop_last()) * 256 + s.last() as nat
    }
}

/// `be_value` of `n` bytes is below `256^n`; stated for the widths the
/// format uses so that the readers fit their integer types.
pub proof fn lemma_be_value_bound(s: Seq<u8>)
    ensures
        s.len() == 2 ==> be_value(s) < 0x1_0000,
        s.len() == 4 ==> be_value(s) < 0x1_0000_0000,
        s.len() == 5 ==> be_value(s) < 0x100_0000_0000,
{
    if s.len() <= 5 {
        lemma_be_value_small_bound(s);
        assert(pow256(0) == 1);
        assert(pow256(1) == 256);
        assert(pow256(2) == 0x1_0000);
        assert(pow256(3) == 0x100_0000);
        assert(pow256(4) == 0x1_0000_0000);
        assert(pow256(5) == 0x100_0000_0000);
    }
}

proof fn lemma_be_value_small_bound(s: Seq<u8>)
    requires
        s.len() <= 5,
    ensures
        be_value(s) < pow256(s.len() as nat),
    decreases s.len(),
{
    if s.len() > 0 {
        lemma_be_value_small_bound(s.drop_last());
    }
}

/// `256^n`, spelled out for the handful of widths in use.
spec fn pow256(n: nat) -> nat
    decreases n,
{
    if n == 0 {
        1
    } else {
        256 * pow256((n - 1) as nat)
    }
}

/// Splits `n` bytes off the front of a buffer; the remainder is handed back
/// for the next field. Fails only when fewer than `n` bytes remain.
pub fn take_bytes<'a>(bytes: &'a [u8], n: usize) -> (r: Result<(&'a [u8], &'a [u8]), PsarcError>)
    ensures
        bytes@.len() >= n ==> (r matches Ok(p)
            && p.0@ == bytes@.take(n as int)
            && p.1@ == bytes@.skip(n as int)),
        bytes@.len() < n ==> (r matches Err(e) && e == PsarcError::Truncated),
{
    if n <= bytes.len() {
        let head = &bytes[0..n];
        let tail = &bytes[n..bytes.len()];
        assert(head@ == bytes@.take(n as int));
        assert(tail@ == bytes@.skip(n as int));
        Ok((head, tail))
    } else {
        Err(PsarcError::Truncated)
    }
}

/// Reads a big-endian 16-bit field and returns the remainder of the buffer.
pub fn read_u16_be<'a>(bytes: &'a [u8]) -> (r: Result<(u16, &'a [u8]), PsarcError>)
    ensures
        bytes@.len() >= 2 ==> (r matches Ok(p)
            && p.0 == be_value(bytes@.take(2))
            && p.1@ == bytes@.skip(2)),
        bytes@.len() < 2 ==> (r matches Err(e) && e == PsarcError::Truncated),
{
    if bytes.len() < 2 {
        return Err(PsarcError::Truncated);
    }
    let v: u16 = (bytes[0] as u16) * 256 + (bytes[1] as u16);
    proof {
        lemma_be_prefix(bytes@, 2);
    }
    let rest = &bytes[2..bytes.len()];
    Ok((v, rest))
}

/// Reads a big-endian 32-bit field and returns the remainder of the buffer.
pub fn read_u32_be<'a>(bytes: &'a [u8]) -> (r: Result<(u32, &'a [u8]), PsarcError>)
    ensures
        bytes@.len() >= 4 ==> (r matches Ok(p)
            && p.0 == be_value(bytes@.take(4))
            && p.1@ == bytes@.skip(4)),
        bytes@.len() < 4 ==> (r matches Err(e) && e == PsarcError::Truncated),
{
    if bytes.len() < 4 {
        return Err(PsarcError::Truncated);
    }
    let v: u32 = ((bytes[0] as u32) * 0x100_0000) + ((bytes[1] as u32) * 0x1_0000)
        + ((bytes[2] as u32) * 0x100) + (bytes[3] as u32);
    proof {
        lemma_be_prefix(bytes@, 4);
    }
    let rest = &bytes[4..bytes.len()];
    Ok((v, rest))
}

/// Reads a 40-bit big-endian field, zero-extended into a 64-bit value, and
/// returns the remainder of the buffer. This bounds offsets and sizes to
/// 40 bits, the on-disk convention of the format.
pub fn read_u40_be<'a>(bytes: &'a [u8]) -> (r: Result<(u64, &'a [u8]), PsarcError>)
    ensures
        bytes@.len() >= 5 ==> (r matches Ok(p)
            && p.0 == be_value(bytes@.take(5))
            && p.0 < 0x100_0000_0000
            && p.1@ == bytes@.skip(5)),
        bytes@.len() < 5 ==> (r matches Err(e) && e == PsarcError::Truncated),
{
    if bytes.len() < 5 {
        return Err(PsarcError::Truncated);
    }
    let v: u64 = ((bytes[0] as u64) * 0x1_0000_0000) + ((bytes[1] as u64) * 0x100_0000)
        + ((bytes[2] as u64) * 0x1_0000) + ((bytes[3] as u64) * 0x100) + (bytes[4] as u64);
    proof {
        lemma_be_prefix(bytes@, 5);
    }
    let rest = &bytes[5..bytes.len()];
    Ok((v, rest))
}

/// Unfolds `be_value` over the first `n` bytes of `s` into the positional sum
/// the readers compute.
proof fn lemma_be_prefix(s: Seq<u8>, n: int)
    requires
        2 <= n <= 5,
        s.len() >= n,
    ensures
        n == 2 ==> be_value(s.take(2)) == s[0] * 0x100 + s[1],
        n == 4 ==> be_value(s.take(4)) == s[0] * 0x100_0000 + s[1] * 0x1_0000 + s[2] * 0x100
            + s[3],
        n == 5 ==> be_value(s.take(5)) == s[0] * 0x1_0000_0000 + s[1] * 0x100_0000 + s[2]
            * 0x1_0000 + s[3] * 0x100 + s[4],
{
    assert forall|k: int| 1 <= k <= n implies #[trigger] be_value(s.take(k)) == be_value(
        s.take(k - 1),
    ) * 256 + s[k - 1] by {
        assert(s.take(k).drop_last() == s.take(k - 1));
        assert(s.take(k).last() == s[k - 1]);
    }
    assert(be_value(s.take(0)) == 0);
}

} // verus!
