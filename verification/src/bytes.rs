//! Small byte-buffer helpers.

use vstd::prelude::*;

verus! {

/// Append the bytes of `s` to `v`.
pub fn extend_bytes(v: &mut Vec<u8>, s: &[u8])
    ensures
        final(v)@ == old(v)@ + s@,
{
    let mut i: usize = 0;
    while i < s.len()
        invariant
            i <= s@.len(),
            v@ == old(v)@ + s@.take(i as int),
        decreases s@.len() - i,
    {
        v.push(s[i]);
        proof {
            assert(s@.take(i + 1) =~= s@.take(i as int).push(s@[i as int]));
            assert(old(v)@ + s@.take(i + 1) =~= (old(v)@ + s@.take(i as int)).push(s@[i as int]));
        }
        i = i + 1;
    }
    proof {
        assert(s@.take(s@.len() as int) =~= s@);
    }
}

/// The bytes of an optional buffer.
pub open spec fn opt_bytes(o: Option<Vec<u8>>) -> Option<Seq<u8>> {
    match o {
        Some(v) => Some(v@),
        None => None,
    }
}

/// `x`, or `m` when `x` is larger.
pub open spec fn cap(x: nat, m: nat) -> nat {
    if x < m {
        x
    } else {
        m
    }
}

/// The four big-endian bytes of `x` taken modulo 2^32.
pub open spec fn be32_bytes(x: nat) -> Seq<u8> {
    let v = x % 0x1_0000_0000;
    seq![(v / 0x100_0000) as u8, ((v / 0x1_0000) % 256) as u8, ((v / 256) % 256) as u8, (v % 256) as u8]
}

/// The two big-endian bytes of `x` taken modulo 2^16.
pub open spec fn be16_bytes(x: nat) -> Seq<u8> {
    let v = x % 0x1_0000;
    seq![(v / 256) as u8, (v % 256) as u8]
}

/// The number two big-endian bytes spell.
pub open spec fn be16(b0: u8, b1: u8) -> nat {
    b0 as nat * 256 + b1 as nat
}

/// The number four big-endian bytes spell.
pub open spec fn be32(b0: u8, b1: u8, b2: u8, b3: u8) -> nat {
    b0 as nat * 0x100_0000 + b1 as nat * 0x1_0000 + b2 as nat * 256 + b3 as nat
}

/// Append `x` modulo 2^32 as four big-endian bytes.
pub fn push_be32(v: &mut Vec<u8>, x: usize)
    ensures
        final(v)@ == old(v)@ + be32_bytes(x as nat),
{
    let w: u64 = (x as u64) % 0x1_0000_0000;
    v.push((w / 0x100_0000) as u8);
    v.push(((w / 0x1_0000) % 256) as u8);
    v.push(((w / 256) % 256) as u8);
    v.push((w % 256) as u8);
    assert(v@ =~= old(v)@ + be32_bytes(x as nat));
}

/// Append `x` modulo 2^16 as two big-endian bytes.
pub fn push_be16(v: &mut Vec<u8>, x: usize)
    ensures
        final(v)@ == old(v)@ + be16_bytes(x as nat),
{
    let w: u64 = (x as u64) % 0x1_0000;
    v.push((w / 256) as u8);
    v.push((w % 256) as u8);
    assert(v@ =~= old(v)@ + be16_bytes(x as nat));
}

/// The big-endian number in `d[i..i + 2]`.
pub fn read_be16(d: &[u8], i: usize) -> (r: usize)
    requires
        i + 2 <= d@.len(),
    ensures
        r as nat == be16(d@[i as int], d@[i + 1]),
{
    (d[i] as usize) * 256 + (d[i + 1] as usize)
}

/// The big-endian number in `d[i..i + 4]`.
pub fn read_be32(d: &[u8], i: usize) -> (r: u64)
    requires
        i + 4 <= d@.len(),
    ensures
        r as nat == be32(d@[i as int], d@[i + 1], d@[i + 2], d@[i + 3]),
{
    (d[i] as u64) * 0x100_0000 + (d[i + 1] as u64) * 0x1_0000 + (d[i + 2] as u64) * 256 + (d[i
        + 3] as u64)
}

} // verus!
