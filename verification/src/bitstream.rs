//! H.264/H.265 bitstream layouts: Annex B (start codes) and AVCC/HVCC
//! (length-prefixed NAL units), and the avcC/hvcC decoder configuration
//! records built from or read into them.

use vstd::prelude::*;
use vstd::slice::slice_to_vec;
use crate::bytes::{
    be16, be16_bytes, be32, be32_bytes, cap, extend_bytes, opt_bytes, push_be16, push_be32, read_be16,
    read_be32,
};

verus! {

// ----------------------------------------------------------------------------
// Annex B to AVCC
// ----------------------------------------------------------------------------

/// A 3-byte start code `00 00 01` at `i`.
pub open spec fn start3_at(d: Seq<u8>, i: int) -> bool {
    0 <= i && i + 3 <= d.len() && d[i] == 0 && d[i + 1] == 0 && d[i + 2] == 1
}

/// A 4-byte start code `00 00 00 01` at `i`.
pub open spec fn start4_at(d: Seq<u8>, i: int) -> bool {
    0 <= i && i + 4 <= d.len() && d[i] == 0 && d[i + 1] == 0 && d[i + 2] == 0 && d[i + 3] == 1
}

/// Positions just after each start code found scanning forward from `i`:
/// a start code is skipped whole, any other byte one at a time.
pub open spec fn scan_starts(d: Seq<u8>, i: nat) -> Seq<nat>
    decreases d.len() - i,
{
    if i >= d.len() {
        seq![]
    } else if start3_at(d, i as int) {
        seq![(i + 3) as nat] + scan_starts(d, (i + 3) as nat)
    } else if start4_at(d, i as int) {
        seq![(i + 4) as nat] + scan_starts(d, (i + 4) as nat)
    } else {
        scan_starts(d, (i + 1) as nat)
    }
}

/// Every position found lies after a start code ending in 01, and consecutive
/// positions are at least a start code apart.
pub open spec fn starts_well_spaced(d: Seq<u8>, s: Seq<nat>, lo: int) -> bool {
    &&& forall|k: int| 0 <= k < s.len() ==> lo + 3 <= #[trigger] s[k] <= d.len()
    &&& forall|k: int| 0 <= k < s.len() ==> d[#[trigger] s[k] - 1] == 1
    &&& forall|k: int| 0 <= k < s.len() - 1 ==> #[trigger] s[k] + 3 <= s[k + 1]
}

pub proof fn lemma_scan_starts(d: Seq<u8>, i: nat)
    ensures
        starts_well_spaced(d, scan_starts(d, i), i as int),
    decreases d.len() - i,
{
    if i >= d.len() {
    } else if start3_at(d, i as int) || start4_at(d, i as int) {
        let n: nat = if start3_at(d, i as int) {
            (i + 3) as nat
        } else {
            (i + 4) as nat
        };
        lemma_scan_starts(d, n);
        let rest = scan_starts(d, n);
        let s = scan_starts(d, i);
        assert(s == seq![n] + rest);
        assert forall|k: int| 1 <= k < s.len() implies #[trigger] s[k] == rest[k - 1] by {}
        assert(s[0] == n);
        assert forall|k: int| 0 <= k < s.len() implies i + 3 <= #[trigger] s[k] <= d.len() by {
            if k > 0 {
                assert(s[k] == rest[k - 1]);
            }
        }
        assert forall|k: int| 0 <= k < s.len() implies d[#[trigger] s[k] - 1] == 1 by {
            if k > 0 {
                assert(s[k] == rest[k - 1]);
            }
        }
        assert forall|k: int| 0 <= k < s.len() - 1 implies #[trigger] s[k] + 3 <= s[k + 1] by {
            assert(s[k + 1] == rest[k]);
            if k > 0 {
                assert(s[k] == rest[k - 1]);
            }
        }
    } else {
        lemma_scan_starts(d, (i + 1) as nat);
    }
}

/// The unit `k` of a well-spaced scan lies within the data.
proof fn lemma_nal_bounds(d: Seq<u8>, s: Seq<nat>, k: int)
    requires
        starts_well_spaced(d, s, 0),
        0 <= k < s.len(),
    ensures
        s[k] <= nal_end(d, s, k) <= d.len(),
{
    if k + 1 < s.len() {
        assert(s[k] + 3 <= s[k + 1]);
        assert(d[s[k] - 1] == 1);
        assert(s[k + 1] <= d.len());
    }
}

/// Where NAL unit `k` ends: just before the next start code (taken as four
/// bytes when the two bytes before the next unit's three-byte code are zero),
/// or at the end of the data.
pub open spec fn nal_end(d: Seq<u8>, s: Seq<nat>, k: int) -> int {
    if k + 1 < s.len() {
        let next = s[k + 1] as int;
        if next >= 4 && d[next - 4] == 0 && d[next - 3] == 0 {
            next - 4
        } else {
            next - 3
        }
    } else {
        d.len() as int
    }
}

/// The first `k` NAL units, each written as a 4-byte big-endian length
/// (modulo 2^32) followed by its bytes.
pub open spec fn avcc_units(d: Seq<u8>, s: Seq<nat>, k: int) -> Seq<u8>
    decreases k,
{
    if k <= 0 {
        seq![]
    } else {
        let start = s[k - 1] as int;
        let end = nal_end(d, s, k - 1);
        avcc_units(d, s, k - 1) + be32_bytes((end - start) as nat) + d.subrange(start, end)
    }
}

/// Annex B to AVCC: empty data gives nothing; data without start codes is
/// returned as is; otherwise each NAL unit is length-prefixed.
pub open spec fn spec_annexb_to_avcc(d: Seq<u8>) -> Seq<u8> {
    let s = scan_starts(d, 0);
    if d.len() == 0 {
        seq![]
    } else if s.len() == 0 {
        d
    } else {
        avcc_units(d, s, s.len() as int)
    }
}

/// The start positions of NAL units in Annex B data.
fn find_nal_starts(data: &[u8]) -> (r: Vec<usize>)
    ensures
        r@.len() == scan_starts(data@, 0).len(),
        forall|k: int| 0 <= k < r@.len() ==> r@[k] as nat == #[trigger] scan_starts(data@, 0)[k],
{
    let mut starts: Vec<usize> = Vec::new();
    let mut i: usize = 0;
    while i < data.len()
        invariant
            i <= data@.len(),
            scan_starts(data@, 0) == starts@.map_values(|x: usize| x as nat) + scan_starts(
                data@,
                i as nat,
            ),
        decreases data@.len() - i,
    {
        let ghost before = starts@.map_values(|x: usize| x as nat);
        if data.len() - i >= 3 && data[i] == 0 && data[i + 1] == 0 {
            if data[i + 2] == 1 {
                starts.push(i + 3);
                proof {
                    assert(starts@.map_values(|x: usize| x as nat) =~= before.push((i + 3) as nat));
                    assert(before + scan_starts(data@, i as nat) =~= before.push((i + 3) as nat)
                        + scan_starts(data@, (i + 3) as nat));
                }
                i = i + 3;
                continue;
            } else if data.len() - i >= 4 && data[i + 2] == 0 && data[i + 3] == 1 {
                starts.push(i + 4);
                proof {
                    assert(starts@.map_values(|x: usize| x as nat) =~= before.push((i + 4) as nat));
                    assert(before + scan_starts(data@, i as nat) =~= before.push((i + 4) as nat)
                        + scan_starts(data@, (i + 4) as nat));
                }
                i = i + 4;
                continue;
            }
        }
        i = i + 1;
    }
    proof {
        assert(scan_starts(data@, i as nat) =~= Seq::<nat>::empty());
        assert(scan_starts(data@, 0) =~= starts@.map_values(|x: usize| x as nat));
    }
    starts
}

/// Convert Annex B data (NAL units separated by start codes) to AVCC/HVCC
/// (each NAL unit prefixed by its 4-byte big-endian length).
pub fn convert_annexb_to_avcc(data: &[u8]) -> (r: Vec<u8>)
    ensures
        r@ == spec_annexb_to_avcc(data@),
{
    if data.len() == 0 {
        return Vec::new();
    }
    let nal_starts = find_nal_starts(data);
    let ghost s = scan_starts(data@, 0);
    if nal_starts.len() == 0 {
        return slice_to_vec(data);
    }
    proof {
        lemma_scan_starts(data@, 0);
    }
    let mut result: Vec<u8> = Vec::new();
    let mut idx: usize = 0;
    while idx < nal_starts.len()
        invariant
            idx <= nal_starts@.len(),
            s == scan_starts(data@, 0),
            nal_starts@.len() == s.len(),
            forall|k: int| 0 <= k < nal_starts@.len() ==> nal_starts@[k] as nat == #[trigger] s[k],
            starts_well_spaced(data@, s, 0),
            result@ == avcc_units(data@, s, idx as int),
        decreases nal_starts@.len() - idx,
    {
        let start = nal_starts[idx];
        let end = if idx + 1 < nal_starts.len() {
            let next_nal_start = nal_starts[idx + 1];
            proof {
                assert(next_nal_start as nat == s[idx + 1]);
            }
            if next_nal_start >= 4 && data[next_nal_start - 4] == 0 && data[next_nal_start - 3]
                == 0 {
                next_nal_start - 4
            } else {
                next_nal_start - 3
            }
        } else {
            data.len()
        };
        proof {
            assert(end == nal_end(data@, s, idx as int));
            lemma_nal_bounds(data@, s, idx as int);
        }
        let nal_data = &data[start..end];
        push_be32(&mut result, nal_data.len());
        extend_bytes(&mut result, nal_data);
        idx = idx + 1;
    }
    result
}

// ----------------------------------------------------------------------------
// AVCC to Annex B
// ----------------------------------------------------------------------------

/// The 4-byte start code.
pub open spec fn start_code4() -> Seq<u8> {
    seq![0u8, 0u8, 0u8, 1u8]
}

/// The big-endian 32-bit number at `d[i..i + 4]`.
pub open spec fn be32_at(d: Seq<u8>, i: int) -> nat {
    be32(d[i], d[i + 1], d[i + 2], d[i + 3])
}

/// Walk length-prefixed NAL units from `i`, writing each after a 4-byte start
/// code; fewer than four remaining bytes end the walk (and are dropped). A
/// zero length, or one that runs past the end, makes the data not AVCC.
pub open spec fn avcc_walk(d: Seq<u8>, i: nat) -> Option<Seq<u8>>
    decreases d.len() - i,
{
    if i + 4 > d.len() {
        Some(seq![])
    } else {
        let n = be32_at(d, i as int);
        if n == 0 || n > d.len() - i - 4 {
            None
        } else {
            match avcc_walk(d, i + 4 + n) {
                Some(rest) => Some(start_code4() + d.subrange((i + 4) as int, (i + 4 + n) as int) + rest),
                None => None,
            }
        }
    }
}

/// AVCC to Annex B: data that is not well-formed AVCC (or too short, or that
/// yields nothing) is returned unchanged.
pub open spec fn spec_avcc_to_annexb(d: Seq<u8>) -> Seq<u8> {
    if d.len() < 4 {
        d
    } else {
        match avcc_walk(d, 0) {
            Some(out) => if out.len() == 0 {
                d
            } else {
                out
            },
            None => d,
        }
    }
}

/// `p` in front of the result of a walk.
pub open spec fn prepend(p: Seq<u8>, o: Option<Seq<u8>>) -> Option<Seq<u8>> {
    match o {
        Some(x) => Some(p + x),
        None => None,
    }
}

/// Convert AVCC/HVCC data (4-byte big-endian length prefixes) to Annex B
/// (4-byte start codes).
pub fn convert_avcc_to_annexb(data: &[u8]) -> (r: Vec<u8>)
    ensures
        r@ == spec_avcc_to_annexb(data@),
{
    if data.len() < 4 {
        return slice_to_vec(data);
    }
    let mut result: Vec<u8> = Vec::new();
    let mut i: usize = 0;
    while data.len() - i >= 4
        invariant
            i <= data@.len(),
            avcc_walk(data@, 0) == prepend(result@, avcc_walk(data@, i as nat)),
            result@.len() > 0 ==> i >= 5,
        decreases data@.len() - i,
    {
        let nal_len = read_be32(data, i);
        if nal_len == 0 || nal_len > (data.len() - i - 4) as u64 {
            return slice_to_vec(data);
        }
        let n = nal_len as usize;
        i = i + 4;
        let ghost before = result@;
        extend_bytes(&mut result, &[0, 0, 0, 1]);
        extend_bytes(&mut result, &data[i..i + n]);
        proof {
            assert(result@ =~= before + (start_code4() + data@.subrange(i as int, i + n)));
            match avcc_walk(data@, (i + n) as nat) {
                Some(rest) => {
                    assert(before + (start_code4() + data@.subrange(i as int, i + n) + rest) =~= result@
                        + rest);
                },
                None => {},
            }
        }
        i = i + n;
    }
    proof {
        assert(avcc_walk(data@, i as nat) == Some(Seq::<u8>::empty()));
        assert(result@ + Seq::<u8>::empty() =~= result@);
    }
    if result.len() == 0 || (i != data.len() && i < 4) {
        return slice_to_vec(data);
    }
    result
}

// ----------------------------------------------------------------------------
// Round trip
// ----------------------------------------------------------------------------

/// The NAL units of a scan from unit `j` on, each behind a 4-byte start code.
pub open spec fn annexb_units_from(d: Seq<u8>, s: Seq<nat>, j: int) -> Seq<u8>
    decreases s.len() - j,
{
    if j < 0 || j >= s.len() {
        seq![]
    } else {
        start_code4() + d.subrange(s[j] as int, nal_end(d, s, j)) + annexb_units_from(d, s, j + 1)
    }
}

/// Four big-endian bytes read back give the number written.
proof fn lemma_be32_read_back(x: nat)
    requires
        x < 0x1_0000_0000,
    ensures
        ({
            let b = be32_bytes(x);
            be32(b[0], b[1], b[2], b[3]) == x
        }),
{
    let b = be32_bytes(x);
    assert(x % 0x1_0000_0000 == x);
    assert(b[0] as nat == x / 0x100_0000);
    assert(b[1] as nat == (x / 0x1_0000) % 256);
    assert(b[2] as nat == (x / 256) % 256);
    assert(b[3] as nat == x % 256);
    assert((x / 0x100_0000) * 0x100_0000 + ((x / 0x1_0000) % 256) * 0x1_0000 + ((x / 256) % 256) * 256 + x
        % 256 == x) by (nonlinear_arith)
        requires
            x < 0x1_0000_0000,
    ;
}

/// The length-prefixed units of a scan extend one another.
proof fn lemma_avcc_units_prefix(d: Seq<u8>, s: Seq<nat>, j: int, k: int)
    requires
        0 <= j <= k,
    ensures
        avcc_units(d, s, k).len() >= avcc_units(d, s, j).len(),
        avcc_units(d, s, k).subrange(0, avcc_units(d, s, j).len() as int) == avcc_units(d, s, j),
    decreases k - j,
{
    if j < k {
        lemma_avcc_units_prefix(d, s, j, k - 1);
        let a = avcc_units(d, s, k - 1);
        assert(avcc_units(d, s, k).subrange(0, a.len() as int) =~= a);
        assert(avcc_units(d, s, k).subrange(0, avcc_units(d, s, j).len() as int) =~= a.subrange(
            0,
            avcc_units(d, s, j).len() as int,
        ));
    } else {
        assert(avcc_units(d, s, k).subrange(0, avcc_units(d, s, k).len() as int) =~= avcc_units(d, s, k));
    }
}

/// Walking the length-prefixed units of a scan, from the end of unit `j`,
/// gives the remaining units behind start codes.
#[verifier::spinoff_prover]
proof fn lemma_walk_units(d: Seq<u8>, s: Seq<nat>, j: int)
    requires
        d.len() < 0x1_0000_0000,
        starts_well_spaced(d, s, 0),
        forall|k: int| 0 <= k < s.len() ==> nal_end(d, s, k) > #[trigger] s[k],
        0 <= j <= s.len(),
    ensures
        avcc_walk(avcc_units(d, s, s.len() as int), avcc_units(d, s, j).len()) == Some(
            annexb_units_from(d, s, j),
        ),
    decreases s.len() - j,
{
    let t = avcc_units(d, s, s.len() as int);
    let off = avcc_units(d, s, j).len();
    if j == s.len() {
        assert(off + 4 > t.len());
    } else {
        lemma_nal_bounds(d, s, j);
        let start = s[j] as int;
        let end = nal_end(d, s, j);
        let n = (end - start) as nat;
        let next = avcc_units(d, s, j + 1);
        assert(next == avcc_units(d, s, j) + be32_bytes(n) + d.subrange(start, end));
        lemma_avcc_units_prefix(d, s, j + 1, s.len() as int);
        assert(t.subrange(0, next.len() as int) == next);
        assert(next.len() == off + 4 + n);
        assert forall|i: int| 0 <= i < 4 implies t[off + i] == be32_bytes(n)[i] by {
            assert(t[off + i] == t.subrange(0, next.len() as int)[off + i]);
        }
        lemma_be32_read_back(n);
        assert(be32_at(t, off as int) == n);
        assert(t.subrange((off + 4) as int, (off + 4 + n) as int) =~= d.subrange(start, end)) by {
            assert forall|i: int| 0 <= i < n implies #[trigger] t.subrange(
                (off + 4) as int,
                (off + 4 + n) as int,
            )[i] == d.subrange(start, end)[i] by {
                assert(t[off + 4 + i] == t.subrange(0, next.len() as int)[off + 4 + i]);
            }
        }
        lemma_walk_units(d, s, j + 1);
    }
}

/// Annex B data made length-prefixed and back gives each NAL unit behind a
/// 4-byte start code (bytes before the first start code are dropped), for
/// data under 4 GiB with at least one start code and no empty unit.
pub proof fn lemma_annexb_avcc_round_trip(d: Seq<u8>)
    requires
        d.len() < 0x1_0000_0000,
        scan_starts(d, 0).len() > 0,
        forall|k: int|
            0 <= k < scan_starts(d, 0).len() ==> nal_end(d, scan_starts(d, 0), k) > #[trigger] scan_starts(
                d,
                0,
            )[k],
    ensures
        spec_avcc_to_annexb(spec_annexb_to_avcc(d)) == annexb_units_from(d, scan_starts(d, 0), 0),
{
    let s = scan_starts(d, 0);
    lemma_scan_starts(d, 0);
    lemma_walk_units(d, s, 0);
    let t = avcc_units(d, s, s.len() as int);
    assert(avcc_units(d, s, 0).len() == 0);
    lemma_nal_bounds(d, s, 0);
    lemma_avcc_units_prefix(d, s, 1, s.len() as int);
    assert(avcc_units(d, s, 1).len() >= 5);
    assert(t.len() >= 5);
    assert(annexb_units_from(d, s, 0).len() >= 4);
}

/// A NAL unit as H.264 and H.265 lay them out: not empty, not ending in a
/// zero byte, and free of the three-byte sequences `00 00 00` and `00 00 01`.
pub open spec fn clean_payload(p: Seq<u8>) -> bool {
    &&& p.len() > 0
    &&& p[p.len() - 1] != 0
    &&& forall|i: int|
        0 <= i && i + 2 < p.len() ==> !(#[trigger] p[i] == 0 && p[i + 1] == 0 && (p[i + 2] == 0 || p[
            i + 2
        ] == 1))
}

/// From `off` on, the data tiles exactly into length-prefixed clean units.
pub open spec fn clean_units(d: Seq<u8>, off: nat) -> bool
    decreases d.len() - off,
{
    if off >= d.len() {
        off == d.len()
    } else if off + 4 > d.len() {
        false
    } else {
        let n = be32_at(d, off as int);
        &&& n > 0
        &&& off + 4 + n <= d.len()
        &&& clean_payload(d.subrange((off + 4) as int, (off + 4 + n) as int))
        &&& clean_units(d, off + 4 + n)
    }
}

/// Four bytes read as a number and written back are the same bytes.
proof fn lemma_be32_write_back(b0: u8, b1: u8, b2: u8, b3: u8)
    ensures
        be32_bytes(be32(b0, b1, b2, b3)) == seq![b0, b1, b2, b3],
{
    let v = be32(b0, b1, b2, b3);
    assert(v < 0x1_0000_0000);
    assert(v % 0x1_0000_0000 == v);
    let r0 = b1 as int * 0x1_0000 + b2 as int * 256 + b3 as int;
    vstd::arithmetic::div_mod::lemma_fundamental_div_mod_converse(v as int, 0x100_0000, b0 as int, r0);
    let q1 = b0 as int * 256 + b1 as int;
    let r1 = b2 as int * 256 + b3 as int;
    vstd::arithmetic::div_mod::lemma_fundamental_div_mod_converse(v as int, 0x1_0000, q1, r1);
    vstd::arithmetic::div_mod::lemma_fundamental_div_mod_converse(q1, 256, b0 as int, b1 as int);
    let q2 = b0 as int * 0x1_0000 + b1 as int * 256 + b2 as int;
    vstd::arithmetic::div_mod::lemma_fundamental_div_mod_converse(v as int, 256, q2, b3 as int);
    vstd::arithmetic::div_mod::lemma_fundamental_div_mod_converse(q2, 256, q1, b2 as int);
    assert(be32_bytes(v) =~= seq![b0, b1, b2, b3]);
}

/// Walking clean units gives output of the same length, each unit behind a
/// start code in the place of its length.
proof fn lemma_walk_clean(d: Seq<u8>, off: nat)
    requires
        clean_units(d, off),
    ensures
        avcc_walk(d, off) is Some,
        avcc_walk(d, off)->0.len() == d.len() - off,
    decreases d.len() - off,
{
    if off < d.len() {
        let n = be32_at(d, off as int);
        lemma_walk_clean(d, off + 4 + n);
    }
}

/// Where each clean unit's bytes begin (past its length), from `off` on.
pub open spec fn unit_starts(d: Seq<u8>, off: nat) -> Seq<nat>
    decreases d.len() - off,
{
    if off >= d.len() || off + 4 > d.len() {
        seq![]
    } else {
        let n = be32_at(d, off as int);
        if n == 0 || off + 4 + n > d.len() {
            seq![]
        } else {
            seq![off + 4] + unit_starts(d, off + 4 + n)
        }
    }
}

/// Scanning a clean unit's bytes finds no start code before the next unit
/// (or the end of the data).
proof fn lemma_scan_skips_payload(o: Seq<u8>, a: int, b: int, i: int)
    requires
        0 <= a <= i <= b <= o.len(),
        clean_payload(o.subrange(a, b)),
        b == o.len() || (b + 4 <= o.len() && o[b] == 0 && o[b + 1] == 0 && o[b + 2] == 0 && o[b + 3]
            == 1),
    ensures
        scan_starts(o, i as nat) == scan_starts(o, b as nat),
    decreases b - i,
{
    if i < b {
        let p = o.subrange(a, b);
        assert(o[b - 1] == p[p.len() - 1]);
        if i + 2 < b {
            assert(p[i - a] == o[i] && p[i - a + 1] == o[i + 1] && p[i - a + 2] == o[i + 2]);
        }
        assert(!start3_at(o, i));
        assert(!start4_at(o, i));
        lemma_scan_skips_payload(o, a, b, i + 1);
    }
}

/// The output of a walk of clean units from `off`.
pub open spec fn walk_out(d: Seq<u8>, off: nat) -> Seq<u8> {
    avcc_walk(d, off)->0
}

/// Scanning the walk's output finds exactly the starts of the clean units.
proof fn lemma_scan_clean_output(d: Seq<u8>, o: Seq<u8>, off: nat)
    requires
        clean_units(d, off),
        o.len() == d.len(),
        off <= d.len(),
        o.subrange(off as int, o.len() as int) == walk_out(d, off),
    ensures
        scan_starts(o, off) == unit_starts(d, off),
    decreases d.len() - off,
{
    if off < d.len() {
        let n = be32_at(d, off as int);
        let b = off + 4 + n;
        lemma_walk_clean(d, off);
        lemma_walk_clean(d, b);
        let w = walk_out(d, off);
        let rest = walk_out(d, b);
        assert(w == start_code4() + d.subrange((off + 4) as int, b as int) + rest);
        assert forall|i: int| 0 <= i < w.len() implies #[trigger] o[off + i] == w[i] by {
            assert(o.subrange(off as int, o.len() as int)[i] == o[off + i]);
        }
        assert(w[0] == 0 && w[1] == 0 && w[2] == 0 && w[3] == 1);
        assert(o[off as int + 0] == w[0] && o[off as int + 1] == w[1] && o[off as int + 2] == w[2]
            && o[off as int + 3] == w[3]);
        assert(start4_at(o, off as int));
        assert(!start3_at(o, off as int));
        assert(o.subrange((off + 4) as int, b as int) =~= d.subrange((off + 4) as int, b as int)) by {
            assert forall|i: int| 0 <= i < n implies #[trigger] o.subrange((off + 4) as int, b as int)[i]
                == d.subrange((off + 4) as int, b as int)[i] by {
                assert(o[off + 4 + i] == w[4 + i]);
            }
        }
        assert(o.subrange(b as int, o.len() as int) =~= rest) by {
            assert forall|i: int| 0 <= i < rest.len() implies #[trigger] o.subrange(b as int, o.len() as int)[i]
                == rest[i] by {
                assert(o[b + i] == w[4 + n + i]);
            }
        }
        if b < d.len() {
            let m = be32_at(d, b as int);
            assert(rest == start_code4() + d.subrange((b + 4) as int, (b + 4 + m) as int) + walk_out(d, b + 4 + m));
            assert(o[b as int] == rest[0] && o[b as int + 1] == rest[1] && o[b as int + 2] == rest[2] && o[b as int + 3] == rest[3]);
        }
        lemma_scan_skips_payload(o, (off + 4) as int, b as int, (off + 4) as int);
        lemma_scan_clean_output(d, o, b);
    }
}

/// What holds of the unit whose bytes begin at `u[k]`, for the unit starts
/// `u` of clean units: its length prefix, where the next unit begins, and
/// its place in the walk's output `o`.
pub open spec fn unit_fact(d: Seq<u8>, o: Seq<u8>, u: Seq<nat>, k: int) -> bool {
    let x = u[k] - 4;
    let n = be32_at(d, x);
    &&& u[k] >= 4
    &&& n > 0
    &&& x + 4 + n <= d.len()
    &&& (k + 1 < u.len() ==> u[k + 1] == x + 4 + n + 4)
    &&& (k + 1 == u.len() ==> x + 4 + n == d.len())
    &&& o.subrange(x, x + 4 + n) == start_code4() + d.subrange(x + 4, x + 4 + n)
}

proof fn lemma_unit_facts(d: Seq<u8>, o: Seq<u8>, off: nat)
    requires
        clean_units(d, off),
        o.len() == d.len(),
        off <= d.len(),
        o.subrange(off as int, o.len() as int) == walk_out(d, off),
    ensures
        forall|k: int| 0 <= k < unit_starts(d, off).len() ==> #[trigger] unit_fact(d, o, unit_starts(d, off), k),
        forall|k: int| 0 <= k < unit_starts(d, off).len() ==> #[trigger] unit_starts(d, off)[k] >= off + 4,
    decreases d.len() - off,
{
    if off < d.len() {
        let n = be32_at(d, off as int);
        let b = off + 4 + n;
        lemma_walk_clean(d, off);
        lemma_walk_clean(d, b);
        let w = walk_out(d, off);
        let rest = walk_out(d, b);
        assert(w == start_code4() + d.subrange((off + 4) as int, b as int) + rest);
        assert forall|i: int| 0 <= i < w.len() implies #[trigger] o[off + i] == w[i] by {
            assert(o.subrange(off as int, o.len() as int)[i] == o[off + i]);
        }
        assert(o.subrange(b as int, o.len() as int) =~= rest) by {
            assert forall|i: int| 0 <= i < rest.len() implies #[trigger] o.subrange(b as int, o.len() as int)[i]
                == rest[i] by {
                assert(o[b + i] == w[4 + n + i]);
            }
        }
        assert(o.subrange(off as int, b as int) =~= start_code4() + d.subrange((off + 4) as int, b as int)) by {
            assert forall|i: int| 0 <= i < 4 + n implies #[trigger] o.subrange(off as int, b as int)[i] == (
            start_code4() + d.subrange((off + 4) as int, b as int))[i] by {
                assert(o[off + i] == w[i]);
            }
        }
        lemma_unit_facts(d, o, b);
        let u = unit_starts(d, off);
        let u2 = unit_starts(d, b);
        assert(u == seq![off + 4] + u2);
        if b < d.len() {
            let m = be32_at(d, b as int);
            assert(u2 == seq![b + 4] + unit_starts(d, b + 4 + m));
        } else {
            assert(u2.len() == 0);
        }
        assert forall|k: int| 0 <= k < u.len() implies #[trigger] unit_fact(d, o, u, k) by {
            if k == 0 {
                assert(u[0] == off + 4);
            } else {
                assert(u[k] == u2[k - 1]);
                assert(unit_fact(d, o, u2, k - 1));
                if k + 1 < u.len() {
                    assert(u[k + 1] == u2[k]);
                }
            }
        }
        assert forall|k: int| 0 <= k < u.len() implies #[trigger] u[k] >= off + 4 by {
            if k > 0 {
                assert(u[k] == u2[k - 1]);
            }
        }
    }
}

/// The length-prefixed units rebuilt from the walk's output, up to unit `k`,
/// are the original data up to where unit `k` begins.
proof fn lemma_units_rebuilt(d: Seq<u8>, o: Seq<u8>, k: int)
    requires
        d.len() > 0,
        clean_units(d, 0),
        o.len() == d.len(),
        o == walk_out(d, 0),
        0 <= k <= unit_starts(d, 0).len(),
    ensures
        avcc_units(o, unit_starts(d, 0), k) == d.subrange(
            0,
            if k < unit_starts(d, 0).len() {
                unit_starts(d, 0)[k] - 4
            } else {
                d.len() as int
            },
        ),
    decreases k,
{
    let s = unit_starts(d, 0);
    assert(o.subrange(0, o.len() as int) =~= o);
    lemma_unit_facts(d, o, 0);
    if k == 0 {
        if s.len() > 0 {
            let n = be32_at(d, 0);
            assert(s == seq![4nat] + unit_starts(d, 4 + n));
        }
        assert(d.subrange(0, 0) =~= Seq::<u8>::empty());
        assert(d.len() > 0 ==> s.len() > 0);
    } else {
        lemma_units_rebuilt(d, o, k - 1);
        assert(unit_fact(d, o, s, k - 1));
        let x = s[k - 1] - 4;
        let n = be32_at(d, x);
        let start = s[k - 1] as int;
        let end = nal_end(o, s, k - 1);
        if k < s.len() {
            assert(unit_fact(d, o, s, k));
            let x2 = s[k] - 4;
            assert(o.subrange(x2, x2 + 4 + be32_at(d, x2))[0] == o[x2]);
            assert(o.subrange(x2, x2 + 4 + be32_at(d, x2))[1] == o[x2 + 1]);
            assert(end == x + 4 + n);
        } else {
            assert(end == x + 4 + n);
        }
        lemma_be32_write_back(d[x], d[x + 1], d[x + 2], d[x + 3]);
        assert(be32_bytes(n) =~= d.subrange(x, x + 4));
        assert(o.subrange(start, end) =~= d.subrange(x + 4, x + 4 + n)) by {
            assert forall|i: int| 0 <= i < n implies #[trigger] o.subrange(start, end)[i] == d.subrange(
                x + 4,
                x + 4 + n,
            )[i] by {
                assert(o.subrange(x, x + 4 + n)[4 + i] == o[x + 4 + i]);
                assert((start_code4() + d.subrange(x + 4, x + 4 + n))[4 + i] == d[x + 4 + i]);
            }
        }
        assert(avcc_units(o, s, k) == avcc_units(o, s, k - 1) + be32_bytes((end - start) as nat)
            + o.subrange(start, end));
        assert(d.subrange(0, x) + d.subrange(x, x + 4) + d.subrange(x + 4, x + 4 + n) =~= d.subrange(
            0,
            x + 4 + n,
        ));
    }
}

/// Length-prefixed data made Annex B and back is unchanged, when it tiles
/// exactly into NAL units laid out as H.264 and H.265 require (not empty, no
/// `00 00 00` or `00 00 01` inside, not ending in a zero byte).
pub proof fn lemma_avcc_annexb_round_trip(d: Seq<u8>)
    requires
        d.len() > 0,
        clean_units(d, 0),
    ensures
        spec_annexb_to_avcc(spec_avcc_to_annexb(d)) == d,
{
    lemma_walk_clean(d, 0);
    let o = walk_out(d, 0);
    assert(d.len() >= 5) by {
        let n = be32_at(d, 0);
        assert(n > 0);
    }
    assert(spec_avcc_to_annexb(d) == o);
    assert(o.subrange(0, o.len() as int) =~= o);
    lemma_scan_clean_output(d, o, 0);
    lemma_units_rebuilt(d, o, unit_starts(d, 0).len() as int);
    assert(d.subrange(0, d.len() as int) =~= d);
    let n = be32_at(d, 0);
    assert(unit_starts(d, 0) == seq![4nat] + unit_starts(d, 4 + n));
}

// ----------------------------------------------------------------------------
// Recognising AVCC
// ----------------------------------------------------------------------------

/// An H.264 NAL header byte with the forbidden bit clear and a type in 1..=23.
pub open spec fn valid_h264_header(b: u8) -> bool {
    (b >> 7u8) & 1u8 == 0 && (b & 0x1fu8) <= 23 && (b & 0x1fu8) > 0
}

/// The length prefixes from `offset` on tile the data exactly.
pub open spec fn lengths_tile(d: Seq<u8>, offset: nat) -> bool
    decreases d.len() - offset,
{
    if offset + 4 > d.len() {
        offset == d.len()
    } else {
        let n = be32_at(d, offset as int);
        if n == 0 || offset + 4 + n > d.len() {
            false
        } else {
            lengths_tile(d, offset + 4 + n)
        }
    }
}

/// Whether data looks like AVCC rather than Annex B: at least five bytes; not
/// opening with a 4-byte start code; a first length that is non-zero and fits.
/// When it opens like a 3-byte start code, the NAL header each reading
/// implies decides, and when both are plausible the data must be a single
/// unit or tile exactly into units. Otherwise the fifth byte must be a
/// plausible H.264 header, or at least have the forbidden bit clear.
pub open spec fn spec_is_avcc_format(d: Seq<u8>) -> bool {
    if d.len() < 5 {
        false
    } else if d[0] == 0 && d[1] == 0 && d[2] == 0 && d[3] == 1 {
        false
    } else {
        let n = be32_at(d, 0);
        if n == 0 || n > d.len() - 4 {
            false
        } else if d[0] == 0 && d[1] == 0 && d[2] == 1 && valid_h264_header(d[4])
            && !valid_h264_header(d[3]) {
            true
        } else if d[0] == 0 && d[1] == 0 && d[2] == 1 && valid_h264_header(d[3])
            && !valid_h264_header(d[4]) {
            false
        } else if d[0] == 0 && d[1] == 0 && d[2] == 1 && valid_h264_header(d[3])
            && valid_h264_header(d[4]) {
            n + 4 == d.len() || lengths_tile(d, 0)
        } else {
            valid_h264_header(d[4]) || (d[4] >> 7u8) & 1u8 == 0
        }
    }
}

/// Data opening with the 4-byte start code `00 00 00 01`.
pub open spec fn opens_with_start_code4(d: Seq<u8>) -> bool {
    d.len() >= 4 && d[0] == 0 && d[1] == 0 && d[2] == 0 && d[3] == 1
}

/// Data that tiles exactly into length-prefixed units, does not open with a
/// 4-byte start code, and whose first unit opens with a plausible H.264 NAL
/// header is AVCC. In particular one unit whose 4-byte length covers the
/// rest of the data exactly is AVCC.
pub proof fn lemma_tiled_units_are_avcc(d: Seq<u8>)
    requires
        d.len() >= 5,
        lengths_tile(d, 0),
        !opens_with_start_code4(d),
        valid_h264_header(d[4]),
    ensures
        spec_is_avcc_format(d),
{
}

/// One length-prefixed unit that fills the data exactly tiles it.
pub proof fn lemma_single_unit_tiles(d: Seq<u8>)
    requires
        d.len() >= 5,
        be32_at(d, 0) > 0,
        be32_at(d, 0) + 4 == d.len(),
    ensures
        lengths_tile(d, 0),
{
    assert(lengths_tile(d, d.len()));
}

fn is_valid_h264_header(b: u8) -> (r: bool)
    ensures
        r == valid_h264_header(b),
{
    let forbidden_bit = (b >> 7) & 1;
    let nal_type = b & 0x1F;
    forbidden_bit == 0 && nal_type <= 23 && nal_type > 0
}

/// Check if data looks like AVCC format (length-prefixed NAL units).
pub fn is_avcc_format(data: &[u8]) -> (r: bool)
    ensures
        r == spec_is_avcc_format(data@),
        data@.len() >= 5 && lengths_tile(data@, 0) && !opens_with_start_code4(data@)
            && valid_h264_header(data@[4]) ==> r,
        data@.len() >= 5 && be32_at(data@, 0) > 0 && be32_at(data@, 0) + 4 == data@.len()
            && !opens_with_start_code4(data@) && valid_h264_header(data@[4]) ==> r,
        opens_with_start_code4(data@) ==> !r,
        data@.len() < 5 ==> !r,
        r ==> data@.len() >= 5 && be32_at(data@, 0) > 0 && be32_at(data@, 0) + 4 <= data@.len(),
{
    proof {
        if data@.len() >= 5 && be32_at(data@, 0) > 0 && be32_at(data@, 0) + 4 == data@.len() {
            lemma_single_unit_tiles(data@);
        }
        if data@.len() >= 5 && lengths_tile(data@, 0) && !opens_with_start_code4(data@)
            && valid_h264_header(data@[4]) {
            lemma_tiled_units_are_avcc(data@);
        }
    }
    if data.len() < 5 {
        return false;
    }
    if data[0] == 0 && data[1] == 0 && data[2] == 0 && data[3] == 1 {
        return false;
    }
    let nal_len = read_be32(data, 0);
    if nal_len == 0 || nal_len > (data.len() - 4) as u64 {
        return false;
    }
    if data[0] == 0 && data[1] == 0 && data[2] == 1 {
        let annexb_valid = is_valid_h264_header(data[3]);
        let avcc_valid = is_valid_h264_header(data[4]);
        if avcc_valid && !annexb_valid {
            return true;
        }
        if annexb_valid && !avcc_valid {
            return false;
        }
        if avcc_valid && annexb_valid {
            if nal_len + 4 == data.len() as u64 {
                return true;
            }
            let mut offset: usize = 0;
            while data.len() - offset >= 4
                invariant
                    offset <= data@.len(),
                    spec_is_avcc_format(data@) == lengths_tile(data@, 0),
                    lengths_tile(data@, 0) == lengths_tile(data@, offset as nat),
                decreases data@.len() - offset,
            {
                let len = read_be32(data, offset);
                if len == 0 || len > (data.len() - offset - 4) as u64 {
                    assert(!lengths_tile(data@, offset as nat));
                    return false;
                }
                offset = offset + 4 + len as usize;
            }
            return offset == data.len();
        }
    }
    let nal_header = data[4];
    if is_valid_h264_header(nal_header) {
        return true;
    }
    let h265_forbidden_bit = (nal_header >> 7) & 1;
    h265_forbidden_bit == 0
}

// ----------------------------------------------------------------------------
// NAL unit ranges
// ----------------------------------------------------------------------------

/// The (start, end) byte ranges as natural numbers.
pub open spec fn ranges_view(v: Seq<(usize, usize)>) -> Seq<(nat, nat)> {
    v.map_values(|p: (usize, usize)| (p.0 as nat, p.1 as nat))
}

/// Every range lies within data of length `len`, start before end.
pub open spec fn ranges_within(r: Seq<(nat, nat)>, len: nat) -> bool {
    forall|k: int| 0 <= k < r.len() ==> #[trigger] r[k].0 <= r[k].1 <= len
}

/// Length of the start code at `i`: 4, 3, or 0 when there is none.
pub open spec fn sc_len(d: Seq<u8>, i: int) -> nat {
    if start4_at(d, i) {
        4
    } else if start3_at(d, i) {
        3
    } else {
        0
    }
}

/// The first start code at or after `j`, or the end of the data.
pub open spec fn next_sc(d: Seq<u8>, j: nat) -> nat
    decreases d.len() - j,
{
    if j >= d.len() {
        d.len()
    } else if sc_len(d, j as int) > 0 {
        j
    } else {
        next_sc(d, j + 1)
    }
}

pub proof fn lemma_next_sc(d: Seq<u8>, j: nat)
    requires
        j <= d.len(),
    ensures
        j <= next_sc(d, j) <= d.len(),
    decreases d.len() - j,
{
    if j < d.len() && sc_len(d, j as int) == 0 {
        lemma_next_sc(d, j + 1);
    }
}

/// The NAL units of Annex B data scanned from `i`: each runs from just after
/// a start code to the next start code (or the end); bytes before the first
/// start code are skipped.
pub open spec fn annexb_ranges(d: Seq<u8>, i: nat) -> Seq<(nat, nat)>
    decreases d.len() - i,
{
    if i >= d.len() {
        seq![]
    } else if sc_len(d, i as int) > 0 {
        let s = i + sc_len(d, i as int);
        let e = next_sc(d, s);
        proof {
            lemma_next_sc(d, s);
        }
        seq![(s, e)] + annexb_ranges(d, e)
    } else {
        annexb_ranges(d, i + 1)
    }
}

proof fn lemma_annexb_ranges_within(d: Seq<u8>, i: nat)
    ensures
        ranges_within(annexb_ranges(d, i), d.len()),
    decreases d.len() - i,
{
    if i >= d.len() {
    } else if sc_len(d, i as int) > 0 {
        let s = i + sc_len(d, i as int);
        let e = next_sc(d, s);
        lemma_next_sc(d, s);
        lemma_annexb_ranges_within(d, e);
        let r = annexb_ranges(d, i);
        let rest = annexb_ranges(d, e);
        assert forall|k: int| 0 <= k < r.len() implies #[trigger] r[k].0 <= r[k].1 <= d.len() by {
            if k > 0 {
                assert(r[k] == rest[k - 1]);
            }
        }
    } else {
        lemma_annexb_ranges_within(d, i + 1);
    }
}

fn start_code_len(data: &[u8], i: usize) -> (r: usize)
    requires
        i < data@.len(),
    ensures
        r == sc_len(data@, i as int),
{
    if data.len() - i >= 4 && data[i] == 0 && data[i + 1] == 0 && data[i + 2] == 0 && data[i
        + 3] == 1 {
        4
    } else if data.len() - i >= 3 && data[i] == 0 && data[i + 1] == 0 && data[i + 2] == 1 {
        3
    } else {
        0
    }
}

fn next_start_code(data: &[u8], from: usize) -> (r: usize)
    requires
        from <= data@.len(),
    ensures
        r == next_sc(data@, from as nat),
{
    let mut j = from;
    while j < data.len()
        invariant
            from <= j <= data@.len(),
            next_sc(data@, from as nat) == next_sc(data@, j as nat),
        decreases data@.len() - j,
    {
        if start_code_len(data, j) > 0 {
            return j;
        }
        j = j + 1;
    }
    data.len()
}

/// The NAL unit ranges of Annex B data.
fn annexb_nal_ranges(data: &[u8]) -> (r: Vec<(usize, usize)>)
    ensures
        ranges_view(r@) == annexb_ranges(data@, 0),
{
    let mut out: Vec<(usize, usize)> = Vec::new();
    let mut i: usize = 0;
    while i < data.len()
        invariant
            i <= data@.len(),
            annexb_ranges(data@, 0) == ranges_view(out@) + annexb_ranges(data@, i as nat),
        decreases data@.len() - i,
    {
        let sc = start_code_len(data, i);
        if sc > 0 {
            let nal_start = i + sc;
            let nal_end = next_start_code(data, nal_start);
            proof {
                lemma_next_sc(data@, nal_start as nat);
            }
            let ghost before = ranges_view(out@);
            out.push((nal_start, nal_end));
            proof {
                assert(ranges_view(out@) =~= before.push((nal_start as nat, nal_end as nat)));
                assert(before + annexb_ranges(data@, i as nat) =~= ranges_view(out@)
                    + annexb_ranges(data@, nal_end as nat));
            }
            i = nal_end;
        } else {
            i = i + 1;
        }
    }
    proof {
        assert(ranges_view(out@) + Seq::<(nat, nat)>::empty() =~= ranges_view(out@));
    }
    out
}

/// The NAL units of length-prefixed data walked from `off`; the walk stops at
/// fewer than four remaining bytes, a zero length, or a length that runs past
/// the end.
pub open spec fn prefixed_ranges(d: Seq<u8>, off: nat) -> Seq<(nat, nat)>
    decreases d.len() - off,
{
    if off + 4 > d.len() {
        seq![]
    } else {
        let n = be32_at(d, off as int);
        if n == 0 || off + 4 + n > d.len() {
            seq![]
        } else {
            seq![(off + 4, off + 4 + n)] + prefixed_ranges(d, off + 4 + n)
        }
    }
}

proof fn lemma_prefixed_ranges_within(d: Seq<u8>, off: nat)
    ensures
        ranges_within(prefixed_ranges(d, off), d.len()),
    decreases d.len() - off,
{
    if off + 4 <= d.len() {
        let n = be32_at(d, off as int);
        if n != 0 && off + 4 + n <= d.len() {
            lemma_prefixed_ranges_within(d, off + 4 + n);
            let r = prefixed_ranges(d, off);
            let rest = prefixed_ranges(d, off + 4 + n);
            assert forall|k: int| 0 <= k < r.len() implies #[trigger] r[k].0 <= r[k].1
                <= d.len() by {
                if k > 0 {
                    assert(r[k] == rest[k - 1]);
                }
            }
        }
    }
}

/// The NAL unit ranges of length-prefixed data.
fn prefixed_nal_ranges(data: &[u8]) -> (r: Vec<(usize, usize)>)
    ensures
        ranges_view(r@) == prefixed_ranges(data@, 0),
{
    let mut out: Vec<(usize, usize)> = Vec::new();
    let mut offset: usize = 0;
    while data.len() - offset >= 4
        invariant
            offset <= data@.len(),
            prefixed_ranges(data@, 0) == ranges_view(out@) + prefixed_ranges(
                data@,
                offset as nat,
            ),
        ensures
            prefixed_ranges(data@, offset as nat) == Seq::<(nat, nat)>::empty(),
        decreases data@.len() - offset,
    {
        let nal_length = read_be32(data, offset);
        if nal_length == 0 || nal_length > (data.len() - offset - 4) as u64 {
            break;
        }
        let end = offset + 4 + nal_length as usize;
        let ghost before = ranges_view(out@);
        out.push((offset + 4, end));
        proof {
            assert(ranges_view(out@) =~= before.push(((offset + 4) as nat, end as nat)));
            assert(before + prefixed_ranges(data@, offset as nat) =~= ranges_view(out@)
                + prefixed_ranges(data@, end as nat));
        }
        offset = end;
    }
    proof {
        assert(ranges_view(out@) + Seq::<(nat, nat)>::empty() =~= ranges_view(out@));
    }
    out
}

// ----------------------------------------------------------------------------
// Parameter sets and decoder configuration records
// ----------------------------------------------------------------------------

/// The NAL unit type in a header byte: the low five bits for H.264, bits 1..7
/// for HEVC.
pub open spec fn nal_kind(b: u8, hevc: bool) -> u8 {
    if hevc {
        (b >> 1u8) & 0x3fu8
    } else {
        b & 0x1fu8
    }
}

/// The non-empty ranges among `r` whose NAL unit type is `t`, in order.
pub open spec fn typed_ranges(d: Seq<u8>, r: Seq<(nat, nat)>, hevc: bool, t: u8) -> Seq<(nat, nat)>
    decreases r.len(),
{
    if r.len() == 0 {
        seq![]
    } else {
        let last = r.last();
        typed_ranges(d, r.drop_last(), hevc, t) + if last.0 < last.1 && nal_kind(
            d[last.0 as int],
            hevc,
        ) == t {
            seq![last]
        } else {
            seq![]
        }
    }
}

proof fn lemma_typed_ranges_within(d: Seq<u8>, r: Seq<(nat, nat)>, hevc: bool, t: u8)
    requires
        ranges_within(r, d.len()),
    ensures
        ranges_within(typed_ranges(d, r, hevc, t), d.len()),
        forall|k: int|
            0 <= k < typed_ranges(d, r, hevc, t).len() ==> #[trigger] typed_ranges(
                d,
                r,
                hevc,
                t,
            )[k].0 < typed_ranges(d, r, hevc, t)[k].1,
    decreases r.len(),
{
    if r.len() > 0 {
        assert(ranges_within(r.drop_last(), d.len())) by {
            assert forall|k: int| 0 <= k < r.drop_last().len() implies #[trigger] r.drop_last()[k].0
                <= r.drop_last()[k].1 <= d.len() by {
                assert(r.drop_last()[k] == r[k]);
            }
        }
        assert(r.last() == r[r.len() - 1]);
        lemma_typed_ranges_within(d, r.drop_last(), hevc, t);
        let prev = typed_ranges(d, r.drop_last(), hevc, t);
        let all = typed_ranges(d, r, hevc, t);
        let last = r.last();
        if last.0 < last.1 && nal_kind(d[last.0 as int], hevc) == t {
            assert(all == prev + seq![last]);
            assert(last.1 <= d.len());
        } else {
            assert(all == prev + Seq::<(nat, nat)>::empty());
            assert(all =~= prev);
        }
        assert forall|k: int| 0 <= k < all.len() implies #[trigger] all[k].0 <= all[k].1 <= d.len()
            && all[k].0 < all[k].1 by {
            if k < prev.len() {
                assert(all[k] == prev[k]);
            } else {
                assert(all[k] == r.last());
            }
        }
    }
}

/// Keep the non-empty ranges whose NAL unit type is `t`.
fn select_kind(data: &[u8], ranges: &Vec<(usize, usize)>, hevc: bool, t: u8) -> (r: Vec<
    (usize, usize),
>)
    requires
        ranges_within(ranges_view(ranges@), data@.len()),
    ensures
        ranges_view(r@) == typed_ranges(data@, ranges_view(ranges@), hevc, t),
{
    let ghost all = ranges_view(ranges@);
    let mut out: Vec<(usize, usize)> = Vec::new();
    let mut k: usize = 0;
    while k < ranges.len()
        invariant
            k <= ranges@.len(),
            all == ranges_view(ranges@),
            ranges_within(all, data@.len()),
            ranges_view(out@) == typed_ranges(data@, all.take(k as int), hevc, t),
        decreases ranges@.len() - k,
    {
        let (s, e) = ranges[k];
        proof {
            assert(all[k as int] == (s as nat, e as nat));
            assert(all.take(k + 1).drop_last() =~= all.take(k as int));
            assert(all.take(k + 1).last() == all[k as int]);
        }
        if s < e {
            let kind = if hevc {
                (data[s] >> 1) & 0x3F
            } else {
                data[s] & 0x1F
            };
            if kind == t {
                let ghost before = ranges_view(out@);
                out.push((s, e));
                proof {
                    assert(ranges_view(out@) =~= before + seq![(s as nat, e as nat)]);
                }
            } else {
                proof {
                    assert(ranges_view(out@) =~= ranges_view(out@) + Seq::<(nat, nat)>::empty());
                }
            }
        } else {
            proof {
                assert(ranges_view(out@) =~= ranges_view(out@) + Seq::<(nat, nat)>::empty());
            }
        }
        k = k + 1;
    }
    proof {
        assert(all.take(ranges@.len() as int) =~= all);
    }
    out
}

/// Parameter sets as written in a configuration record: each one as a 2-byte
/// big-endian length (modulo 2^16) followed by its bytes.
pub open spec fn param_array(d: Seq<u8>, rs: Seq<(nat, nat)>) -> Seq<u8>
    decreases rs.len(),
{
    if rs.len() == 0 {
        seq![]
    } else {
        let last = rs.last();
        param_array(d, rs.drop_last()) + be16_bytes((last.1 - last.0) as nat) + d.subrange(
            last.0 as int,
            last.1 as int,
        )
    }
}

/// Append the first `n` parameter sets of `sets`.
fn push_param_sets(result: &mut Vec<u8>, data: &[u8], sets: &Vec<(usize, usize)>, n: usize)
    requires
        n <= sets@.len(),
        ranges_within(ranges_view(sets@), data@.len()),
    ensures
        final(result)@ == old(result)@ + param_array(data@, ranges_view(sets@).take(n as int)),
{
    let ghost all = ranges_view(sets@);
    let mut k: usize = 0;
    while k < n
        invariant
            k <= n <= sets@.len(),
            all == ranges_view(sets@),
            ranges_within(all, data@.len()),
            result@ == old(result)@ + param_array(data@, all.take(k as int)),
        decreases n - k,
    {
        let (s, e) = sets[k];
        proof {
            assert(all[k as int] == (s as nat, e as nat));
            assert(all.take(k + 1).drop_last() =~= all.take(k as int));
            assert(all.take(k + 1).last() == all[k as int]);
        }
        let ghost before = result@;
        push_be16(result, e - s);
        extend_bytes(result, &data[s..e]);
        proof {
            assert(result@ =~= old(result)@ + param_array(data@, all.take(k + 1)));
        }
        k = k + 1;
    }
}

/// An avcC record: version 1, profile, compatibility and level copied from
/// bytes 1..4 of the first SPS, 4-byte NAL lengths, then `nsps` SPS and
/// `npps` PPS (the PPS count written as one byte).
pub open spec fn avcc_record(
    d: Seq<u8>,
    sps: Seq<(nat, nat)>,
    pps: Seq<(nat, nat)>,
    nsps: nat,
    npps: nat,
) -> Seq<u8> {
    let f = sps[0].0 as int;
    seq![1u8, d[f + 1], d[f + 2], d[f + 3], 0xffu8, (0xe0 + nsps) as u8] + param_array(
        d,
        sps.take(nsps as int),
    ) + seq![(npps % 256) as u8] + param_array(d, pps.take(npps as int))
}

fn build_avcc_record(
    data: &[u8],
    sps: &Vec<(usize, usize)>,
    pps: &Vec<(usize, usize)>,
    nsps: usize,
    npps: usize,
) -> (r: Vec<u8>)
    requires
        ranges_within(ranges_view(sps@), data@.len()),
        ranges_within(ranges_view(pps@), data@.len()),
        sps@.len() > 0,
        sps@[0].0 + 4 <= sps@[0].1,
        nsps <= 31,
        nsps <= sps@.len(),
        npps <= pps@.len(),
    ensures
        r@ == avcc_record(data@, ranges_view(sps@), ranges_view(pps@), nsps as nat, npps as nat),
{
    let (f, fe) = sps[0];
    proof {
        assert(ranges_view(sps@)[0] == (f as nat, fe as nat));
        assert(fe <= data@.len());
    }
    let mut result: Vec<u8> = Vec::new();
    result.push(1);
    result.push(data[f + 1]);
    result.push(data[f + 2]);
    result.push(data[f + 3]);
    result.push(0xFF);
    let count = nsps as u8;
    assert(0xE0u8 | count == 0xE0 + count) by (bit_vector)
        requires
            count <= 31,
    ;
    result.push(0xE0 | count);
    let ghost head = result@;
    push_param_sets(&mut result, data, sps, nsps);
    result.push((npps % 256) as u8);
    push_param_sets(&mut result, data, pps, npps);
    proof {
        assert(result@ =~= avcc_record(
            data@,
            ranges_view(sps@),
            ranges_view(pps@),
            nsps as nat,
            npps as nat,
        ));
    }
    result
}

/// The fixed part of an hvcC record written here: version 1, Main profile,
/// level 3.1, 4:2:0, 8-bit, 4-byte NAL lengths.
pub open spec fn hvcc_header() -> Seq<u8> {
    seq![
        1u8, 0x01u8, 0x60u8, 0u8, 0u8, 0u8, 0x90u8, 0u8, 0u8, 0u8, 0u8, 0u8, 0x5du8, 0xf0u8, 0u8,
        0xfcu8, 0xfdu8, 0xf8u8, 0xf8u8, 0u8, 0u8, 0x0fu8]
}

/// One hvcC array: the NAL unit type, a 2-byte count and the first `n` sets.
pub open spec fn hvcc_array(d: Seq<u8>, t: u8, sets: Seq<(nat, nat)>, n: nat) -> Seq<u8> {
    seq![t] + be16_bytes(n) + param_array(d, sets.take(n as int))
}

/// An hvcC record: the fixed header, the number of arrays, then the VPS array
/// (when there are VPS), the SPS array and the PPS array.
pub open spec fn hvcc_record(
    d: Seq<u8>,
    vps: Seq<(nat, nat)>,
    sps: Seq<(nat, nat)>,
    pps: Seq<(nat, nat)>,
    nv: nat,
    ns: nat,
    np: nat,
) -> Seq<u8> {
    hvcc_header() + seq![if vps.len() > 0 { 3u8 } else { 2u8 }] + (if vps.len() > 0 {
        hvcc_array(d, 32, vps, nv)
    } else {
        seq![]
    }) + hvcc_array(d, 33, sps, ns) + hvcc_array(d, 34, pps, np)
}

fn push_hvcc_array(
    result: &mut Vec<u8>,
    data: &[u8],
    t: u8,
    sets: &Vec<(usize, usize)>,
    n: usize,
)
    requires
        ranges_within(ranges_view(sets@), data@.len()),
        n <= sets@.len(),
        n <= 255,
    ensures
        final(result)@ == old(result)@ + hvcc_array(data@, t, ranges_view(sets@), n as nat),
{
    result.push(t);
    push_be16(result, n);
    push_param_sets(result, data, sets, n);
    assert(result@ =~= old(result)@ + hvcc_array(data@, t, ranges_view(sets@), n as nat));
}

fn build_hvcc_record(
    data: &[u8],
    vps: &Vec<(usize, usize)>,
    sps: &Vec<(usize, usize)>,
    pps: &Vec<(usize, usize)>,
    nv: usize,
    ns: usize,
    np: usize,
) -> (r: Vec<u8>)
    requires
        ranges_within(ranges_view(vps@), data@.len()),
        ranges_within(ranges_view(sps@), data@.len()),
        ranges_within(ranges_view(pps@), data@.len()),
        nv <= vps@.len(),
        ns <= sps@.len(),
        np <= pps@.len(),
        nv <= 255,
        ns <= 255,
        np <= 255,
    ensures
        r@ == hvcc_record(
            data@,
            ranges_view(vps@),
            ranges_view(sps@),
            ranges_view(pps@),
            nv as nat,
            ns as nat,
            np as nat,
        ),
{
    let mut result: Vec<u8> = Vec::new();
    let header: [u8; 22] = [
        1, 0x01, 0x60, 0, 0, 0, 0x90, 0, 0, 0, 0, 0, 0x5D, 0xF0, 0, 0xFC, 0xFD, 0xF8, 0xF8, 0, 0,
        0x0F,
    ];
    extend_bytes(&mut result, &header);
    assert(result@ =~= hvcc_header());
    let has_vps = vps.len() > 0;
    result.push(if has_vps { 3 } else { 2 });
    let ghost head = result@;
    if has_vps {
        push_hvcc_array(&mut result, data, 32, vps, nv);
    }
    let ghost mid = result@;
    push_hvcc_array(&mut result, data, 33, sps, ns);
    push_hvcc_array(&mut result, data, 34, pps, np);
    proof {
        if has_vps {
            assert(mid =~= head + hvcc_array(data@, 32, ranges_view(vps@), nv as nat));
        } else {
            assert(mid =~= head + Seq::<u8>::empty());
        }
        assert(result@ =~= hvcc_record(
            data@,
            ranges_view(vps@),
            ranges_view(sps@),
            ranges_view(pps@),
            nv as nat,
            ns as nat,
            np as nat,
        ));
    }
    result
}

/// H.264 Annex B extradata to an avcC record: the SPS (type 7) and PPS
/// (type 8) units are collected; at least one of each is needed and the first
/// SPS must hold four bytes. The SPS count is the number of SPS modulo 256,
/// capped at 31; the PPS count is the number of PPS modulo 256.
pub open spec fn spec_annexb_extradata_to_avcc(d: Seq<u8>) -> Option<Seq<u8>> {
    let r = annexb_ranges(d, 0);
    let sps = typed_ranges(d, r, false, 7);
    let pps = typed_ranges(d, r, false, 8);
    if d.len() == 0 || sps.len() == 0 || pps.len() == 0 {
        None
    } else if sps[0].1 < sps[0].0 + 4 {
        None
    } else {
        Some(avcc_record(d, sps, pps, cap(sps.len() % 256, 31), pps.len() % 256))
    }
}

/// The NAL length size an avcC record declares: the low two bits of byte 4
/// plus one.
pub open spec fn avcc_nal_length_size(rec: Seq<u8>) -> int {
    (rec[4] & 3u8) + 1
}

/// Every avcC record built here is version 1 and declares 4-byte NAL
/// lengths, the prefix size that `convert_annexb_to_avcc` writes.
pub proof fn lemma_avcc_record_declares_four_byte_lengths(
    d: Seq<u8>,
    sps: Seq<(nat, nat)>,
    pps: Seq<(nat, nat)>,
    nsps: nat,
    npps: nat,
)
    ensures
        avcc_record(d, sps, pps, nsps, npps).len() > 6,
        avcc_record(d, sps, pps, nsps, npps)[0] == 1,
        avcc_nal_length_size(avcc_record(d, sps, pps, nsps, npps)) == 4,
{
    let rec = avcc_record(d, sps, pps, nsps, npps);
    let b: u8 = rec[4];
    assert(b == 0xffu8);
    assert(b == 0xffu8 ==> (b & 3u8) == 3u8) by (bit_vector);
}

/// Convert H.264 Annex B extradata (SPS/PPS with start codes) to an avcC
/// (AVCDecoderConfigurationRecord).
pub fn convert_annexb_extradata_to_avcc(data: &[u8]) -> (r: Option<Vec<u8>>)
    ensures
        opt_bytes(r) == spec_annexb_extradata_to_avcc(data@),
        r matches Some(v) ==> v@.len() > 6 && v@[0] == 1 && avcc_nal_length_size(v@) == 4,
{
    proof {
        let r = annexb_ranges(data@, 0);
        let sps = typed_ranges(data@, r, false, 7);
        let pps = typed_ranges(data@, r, false, 8);
        lemma_avcc_record_declares_four_byte_lengths(
            data@,
            sps,
            pps,
            cap(sps.len() % 256, 31),
            pps.len() % 256,
        );
    }
    if data.len() == 0 {
        return None;
    }
    let ranges = annexb_nal_ranges(data);
    proof {
        lemma_annexb_ranges_within(data@, 0);
        lemma_typed_ranges_within(data@, ranges_view(ranges@), false, 7);
        lemma_typed_ranges_within(data@, ranges_view(ranges@), false, 8);
    }
    let sps = select_kind(data, &ranges, false, 7);
    let pps = select_kind(data, &ranges, false, 8);
    if sps.len() == 0 || pps.len() == 0 {
        return None;
    }
    let (f, fe) = sps[0];
    proof {
        assert(ranges_view(sps@)[0] == (f as nat, fe as nat));
    }
    if fe - f < 4 {
        return None;
    }
    let c = sps.len() % 256;
    let nsps = if c < 31 {
        c
    } else {
        31
    };
    let npps = pps.len() % 256;
    Some(build_avcc_record(data, &sps, &pps, nsps, npps))
}

/// An avcC record from the SPS and PPS carried in a length-prefixed packet
/// (at least eight bytes): up to 31 SPS and 255 PPS.
pub open spec fn spec_extract_avcc_from_avcc_packet(d: Seq<u8>) -> Option<Seq<u8>> {
    let r = prefixed_ranges(d, 0);
    let sps = typed_ranges(d, r, false, 7);
    let pps = typed_ranges(d, r, false, 8);
    if d.len() < 8 || sps.len() == 0 || pps.len() == 0 {
        None
    } else if sps[0].1 < sps[0].0 + 4 {
        None
    } else {
        Some(avcc_record(d, sps, pps, cap(sps.len(), 31), cap(pps.len(), 255)))
    }
}

/// Extract an avcC record from an AVCC-formatted packet that carries its SPS
/// and PPS in band.
pub fn extract_avcc_from_avcc_packet(data: &[u8]) -> (r: Option<Vec<u8>>)
    ensures
        opt_bytes(r) == spec_extract_avcc_from_avcc_packet(data@),
        r matches Some(v) ==> v@.len() > 6 && v@[0] == 1 && avcc_nal_length_size(v@) == 4,
{
    proof {
        let r = prefixed_ranges(data@, 0);
        let sps = typed_ranges(data@, r, false, 7);
        let pps = typed_ranges(data@, r, false, 8);
        lemma_avcc_record_declares_four_byte_lengths(data@, sps, pps, cap(sps.len(), 31), cap(pps.len(), 255));
    }
    if data.len() < 8 {
        return None;
    }
    let ranges = prefixed_nal_ranges(data);
    proof {
        lemma_prefixed_ranges_within(data@, 0);
        lemma_typed_ranges_within(data@, ranges_view(ranges@), false, 7);
        lemma_typed_ranges_within(data@, ranges_view(ranges@), false, 8);
    }
    let sps = select_kind(data, &ranges, false, 7);
    let pps = select_kind(data, &ranges, false, 8);
    if sps.len() == 0 || pps.len() == 0 {
        return None;
    }
    let (f, fe) = sps[0];
    proof {
        assert(ranges_view(sps@)[0] == (f as nat, fe as nat));
    }
    if fe - f < 4 {
        return None;
    }
    let nsps = if sps.len() < 31 {
        sps.len()
    } else {
        31
    };
    let npps = if pps.len() < 255 {
        pps.len()
    } else {
        255
    };
    Some(build_avcc_record(data, &sps, &pps, nsps, npps))
}

/// HEVC Annex B extradata to an hvcC record: VPS (32), SPS (33) and PPS (34)
/// units are collected; at least one SPS and one PPS are needed and the first
/// SPS must hold six bytes. Each count is taken modulo 2^16 and capped at 255.
pub open spec fn spec_annexb_extradata_to_hvcc(d: Seq<u8>) -> Option<Seq<u8>> {
    let r = annexb_ranges(d, 0);
    let vps = typed_ranges(d, r, true, 32);
    let sps = typed_ranges(d, r, true, 33);
    let pps = typed_ranges(d, r, true, 34);
    if d.len() == 0 || sps.len() == 0 || pps.len() == 0 {
        None
    } else if sps[0].1 < sps[0].0 + 6 {
        None
    } else {
        Some(
            hvcc_record(
                d,
                vps,
                sps,
                pps,
                cap(vps.len() % 0x1_0000, 255),
                cap(sps.len() % 0x1_0000, 255),
                cap(pps.len() % 0x1_0000, 255),
            ),
        )
    }
}

/// The NAL length size an hvcC record declares: the low two bits of byte 21
/// plus one.
pub open spec fn hvcc_nal_length_size(rec: Seq<u8>) -> int {
    (rec[21] & 3u8) + 1
}

/// Every hvcC record built here is version 1 and declares 4-byte NAL
/// lengths, the prefix size that `convert_annexb_to_avcc` writes.
pub proof fn lemma_hvcc_record_declares_four_byte_lengths(
    d: Seq<u8>,
    vps: Seq<(nat, nat)>,
    sps: Seq<(nat, nat)>,
    pps: Seq<(nat, nat)>,
    nv: nat,
    ns: nat,
    np: nat,
)
    ensures
        hvcc_record(d, vps, sps, pps, nv, ns, np).len() > 22,
        hvcc_record(d, vps, sps, pps, nv, ns, np)[0] == 1,
        hvcc_nal_length_size(hvcc_record(d, vps, sps, pps, nv, ns, np)) == 4,
{
    let rec = hvcc_record(d, vps, sps, pps, nv, ns, np);
    assert(rec[21] == hvcc_header()[21]);
    let b: u8 = rec[21];
    assert(b == 0x0fu8 ==> (b & 3u8) == 3u8) by (bit_vector);
}

/// Convert HEVC Annex B extradata (VPS/SPS/PPS with start codes) to an hvcC
/// (HEVCDecoderConfigurationRecord).
#[verifier::spinoff_prover]
#[verifier::rlimit(40)]
pub fn convert_annexb_extradata_to_hvcc(data: &[u8]) -> (r: Option<Vec<u8>>)
    ensures
        opt_bytes(r) == spec_annexb_extradata_to_hvcc(data@),
        r matches Some(v) ==> v@.len() > 22 && v@[0] == 1 && hvcc_nal_length_size(v@) == 4,
{
    proof {
        let r = annexb_ranges(data@, 0);
        lemma_hvcc_record_declares_four_byte_lengths(
            data@,
            typed_ranges(data@, r, true, 32),
            typed_ranges(data@, r, true, 33),
            typed_ranges(data@, r, true, 34),
            cap(typed_ranges(data@, r, true, 32).len() % 0x1_0000, 255),
            cap(typed_ranges(data@, r, true, 33).len() % 0x1_0000, 255),
            cap(typed_ranges(data@, r, true, 34).len() % 0x1_0000, 255),
        );
    }
    if data.len() == 0 {
        return None;
    }
    let ranges = annexb_nal_ranges(data);
    proof {
        lemma_annexb_ranges_within(data@, 0);
        lemma_typed_ranges_within(data@, ranges_view(ranges@), true, 32);
        lemma_typed_ranges_within(data@, ranges_view(ranges@), true, 33);
        lemma_typed_ranges_within(data@, ranges_view(ranges@), true, 34);
    }
    let vps = select_kind(data, &ranges, true, 32);
    let sps = select_kind(data, &ranges, true, 33);
    let pps = select_kind(data, &ranges, true, 34);
    if sps.len() == 0 || pps.len() == 0 {
        return None;
    }
    let (f, fe) = sps[0];
    proof {
        assert(ranges_view(sps@)[0] == (f as nat, fe as nat));
    }
    if fe - f < 6 {
        return None;
    }
    let nv = if vps.len() % 0x1_0000 < 255 {
        vps.len() % 0x1_0000
    } else {
        255
    };
    let ns = if sps.len() % 0x1_0000 < 255 {
        sps.len() % 0x1_0000
    } else {
        255
    };
    let np = if pps.len() % 0x1_0000 < 255 {
        pps.len() % 0x1_0000
    } else {
        255
    };
    Some(build_hvcc_record(data, &vps, &sps, &pps, nv, ns, np))
}

/// An hvcC record from the VPS, SPS and PPS carried in a length-prefixed
/// packet (at least eight bytes), up to 255 of each.
pub open spec fn spec_extract_hvcc_from_hvcc_packet(d: Seq<u8>) -> Option<Seq<u8>> {
    let r = prefixed_ranges(d, 0);
    let vps = typed_ranges(d, r, true, 32);
    let sps = typed_ranges(d, r, true, 33);
    let pps = typed_ranges(d, r, true, 34);
    if d.len() < 8 || sps.len() == 0 || pps.len() == 0 {
        None
    } else {
        Some(
            hvcc_record(d, vps, sps, pps, cap(vps.len(), 255), cap(sps.len(), 255), cap(pps.len(), 255)),
        )
    }
}

/// Extract an hvcC record from an HVCC-formatted packet that carries its
/// parameter sets in band.
pub fn extract_hvcc_from_hvcc_packet(data: &[u8]) -> (r: Option<Vec<u8>>)
    ensures
        opt_bytes(r) == spec_extract_hvcc_from_hvcc_packet(data@),
        r matches Some(v) ==> v@.len() > 22 && v@[0] == 1 && hvcc_nal_length_size(v@) == 4,
{
    proof {
        let r = prefixed_ranges(data@, 0);
        lemma_hvcc_record_declares_four_byte_lengths(
            data@,
            typed_ranges(data@, r, true, 32),
            typed_ranges(data@, r, true, 33),
            typed_ranges(data@, r, true, 34),
            cap(typed_ranges(data@, r, true, 32).len(), 255),
            cap(typed_ranges(data@, r, true, 33).len(), 255),
            cap(typed_ranges(data@, r, true, 34).len(), 255),
        );
    }
    if data.len() < 8 {
        return None;
    }
    let ranges = prefixed_nal_ranges(data);
    proof {
        lemma_prefixed_ranges_within(data@, 0);
        lemma_typed_ranges_within(data@, ranges_view(ranges@), true, 32);
        lemma_typed_ranges_within(data@, ranges_view(ranges@), true, 33);
        lemma_typed_ranges_within(data@, ranges_view(ranges@), true, 34);
    }
    let vps = select_kind(data, &ranges, true, 32);
    let sps = select_kind(data, &ranges, true, 33);
    let pps = select_kind(data, &ranges, true, 34);
    if sps.len() == 0 || pps.len() == 0 {
        return None;
    }
    let nv = if vps.len() < 255 {
        vps.len()
    } else {
        255
    };
    let ns = if sps.len() < 255 {
        sps.len()
    } else {
        255
    };
    let np = if pps.len() < 255 {
        pps.len()
    } else {
        255
    };
    Some(build_hvcc_record(data, &vps, &sps, &pps, nv, ns, np))
}

// ----------------------------------------------------------------------------
// Configuration records back to Annex B
// ----------------------------------------------------------------------------

/// Read `count` parameter sets (2-byte big-endian length, then the bytes)
/// from `off`, writing each after a 4-byte start code; `None` when one runs
/// past the end. Gives the output and the offset after the last set.
pub open spec fn ps_walk(d: Seq<u8>, off: nat, count: nat) -> Option<(Seq<u8>, nat)>
    decreases count,
{
    if count == 0 {
        Some((seq![], off))
    } else if off + 2 > d.len() {
        None
    } else {
        let n = be16(d[off as int], d[off + 1int]);
        if off + 2 + n > d.len() {
            None
        } else {
            match ps_walk(d, off + 2 + n, (count - 1) as nat) {
                Some((rest, o)) => Some(
                    (start_code4() + d.subrange(off + 2int, off + 2int + n) + rest, o),
                ),
                None => None,
            }
        }
    }
}

/// `p` in front of the output of a walk.
pub open spec fn prepend_walk(p: Seq<u8>, w: Option<(Seq<u8>, nat)>) -> Option<(Seq<u8>, nat)> {
    match w {
        Some((x, o)) => Some((p + x, o)),
        None => None,
    }
}

proof fn lemma_ps_walk_offset(d: Seq<u8>, off: nat, count: nat)
    ensures
        ps_walk(d, off, count) matches Some((_, o)) ==> off <= o && (count > 0 ==> o <= d.len()),
    decreases count,
{
    if count > 0 && off + 2 <= d.len() {
        let n = be16(d[off as int], d[off + 1int]);
        if off + 2 + n <= d.len() {
            lemma_ps_walk_offset(d, off + 2 + n, (count - 1) as nat);
        }
    }
}

/// Read `count` parameter sets starting at `*offset` and append them, each
/// after a start code, to `result`.
fn read_param_sets(data: &[u8], offset: &mut usize, count: usize, result: &mut Vec<u8>) -> (ok: bool)
    requires
        *old(offset) <= data@.len(),
    ensures
        ok <==> ps_walk(data@, *old(offset) as nat, count as nat) is Some,
        ok ==> match ps_walk(data@, *old(offset) as nat, count as nat) {
            Some((out, o)) => final(result)@ == old(result)@ + out && *final(offset) == o,
            None => false,
        },
        *final(offset) <= data@.len(),
{
    let ghost start = *offset as nat;
    assert(start == *old(offset) as nat);
    let ghost base = result@;
    let ghost mut produced: Seq<u8> = Seq::empty();
    let mut k: usize = 0;
    while k < count
        invariant
            k <= count,
            start == *old(offset) as nat,
            base == old(result)@,
            *offset <= data@.len(),
            result@ == base + produced,
            ps_walk(data@, start, count as nat) == prepend_walk(
                produced,
                ps_walk(data@, *offset as nat, (count - k) as nat),
            ),
        decreases count - k,
    {
        if data.len() - *offset < 2 {
            assert(ps_walk(data@, *offset as nat, (count - k) as nat) is None);
            assert(ps_walk(data@, start, count as nat) is None);
            return false;
        }
        let len = read_be16(data, *offset);
        if len > data.len() - *offset - 2 {
            assert(ps_walk(data@, *offset as nat, (count - k) as nat) is None);
            assert(ps_walk(data@, start, count as nat) is None);
            return false;
        }
        let from = *offset + 2;
        let ghost before = result@;
        extend_bytes(result, &[0, 0, 0, 1]);
        extend_bytes(result, &data[from..from + len]);
        proof {
            let piece = start_code4() + data@.subrange(from as int, from + len);
            assert(result@ =~= before + piece);
            match ps_walk(data@, (from + len) as nat, (count - k - 1) as nat) {
                Some((rest, o)) => {
                    assert(produced + (piece + rest) =~= (produced + piece) + rest);
                },
                None => {},
            }
            produced = produced + piece;
            assert(result@ =~= base + produced);
        }
        *offset = from + len;
        k = k + 1;
    }
    proof {
        assert(produced + Seq::<u8>::empty() =~= produced);
    }
    true
}

/// avcC to Annex B: at least seven bytes and version 1; the SPS (count in the
/// low five bits of byte 5) then, after a count byte, the PPS, each written
/// after a start code. A set that runs past the end, or a missing PPS count,
/// gives `None`.
pub open spec fn spec_avcc_extradata_to_annexb(d: Seq<u8>) -> Option<Seq<u8>> {
    if d.len() < 7 || d[0] != 1 {
        None
    } else {
        match ps_walk(d, 6, (d[5] & 0x1fu8) as nat) {
            None => None,
            Some((a, o)) => if o >= d.len() {
                None
            } else {
                match ps_walk(d, o + 1, d[o as int] as nat) {
                    None => None,
                    Some((b, _)) => Some(a + b),
                }
            },
        }
    }
}

/// Convert avcC extradata to Annex B (SPS/PPS with start codes).
pub fn convert_avcc_extradata_to_annexb(data: &[u8]) -> (r: Option<Vec<u8>>)
    ensures
        opt_bytes(r) == spec_avcc_extradata_to_annexb(data@),
{
    if data.len() < 7 {
        return None;
    }
    if data[0] != 1 {
        return None;
    }
    let num_sps = data[5] & 0x1F;
    let mut result: Vec<u8> = Vec::new();
    let mut offset: usize = 6;
    if !read_param_sets(data, &mut offset, num_sps as usize, &mut result) {
        return None;
    }
    let ghost a = result@;
    proof {
        assert(Seq::<u8>::empty() + a =~= a);
    }
    if offset >= data.len() {
        return None;
    }
    let num_pps = data[offset];
    offset = offset + 1;
    if !read_param_sets(data, &mut offset, num_pps as usize, &mut result) {
        return None;
    }
    Some(result)
}

/// Whether extradata looks like an avcC record: at least seven bytes, version
/// 1, and not opening like a start code.
pub open spec fn spec_is_avcc_extradata(d: Seq<u8>) -> bool {
    d.len() >= 7 && d[0] == 1 && !(d[1] == 0 && d[2] == 0)
}

/// Check if extradata looks like avcC (H.264).
pub fn is_avcc_extradata(data: &[u8]) -> (r: bool)
    ensures
        r == spec_is_avcc_extradata(data@),
{
    data.len() >= 7 && data[0] == 1 && !(data[1] == 0 && data[2] == 0)
}

/// Whether extradata looks like an hvcC record: at least 23 bytes, version 1,
/// not opening like a start code, and between one and eight arrays.
pub open spec fn spec_is_hvcc_extradata(d: Seq<u8>) -> bool {
    d.len() >= 23 && d[0] == 1 && !(d[1] == 0 && d[2] == 0) && 0 < d[22] <= 8
}

/// Check if extradata looks like hvcC (HEVC).
pub fn is_hvcc_extradata(data: &[u8]) -> (r: bool)
    ensures
        r == spec_is_hvcc_extradata(data@),
{
    if data.len() < 23 {
        return false;
    }
    if data[0] != 1 {
        return false;
    }
    if data[1] == 0 && data[2] == 0 {
        return false;
    }
    let num_arrays = data[22];
    num_arrays > 0 && num_arrays <= 8
}

/// Read `count` hvcC arrays from `off`: each has a type byte, a 2-byte count
/// and that many parameter sets. `None` when fewer than three bytes remain
/// for an array header or a set runs past the end.
pub open spec fn array_walk(d: Seq<u8>, off: nat, count: nat) -> Option<Seq<u8>>
    decreases count,
{
    if count == 0 {
        Some(seq![])
    } else if off + 3 > d.len() {
        None
    } else {
        match ps_walk(d, off + 3, be16(d[off + 1int], d[off + 2int])) {
            None => None,
            Some((a, o)) => match array_walk(d, o, (count - 1) as nat) {
                Some(rest) => Some(a + rest),
                None => None,
            },
        }
    }
}

/// hvcC to Annex B: at least 23 bytes and version 1, then the arrays (count
/// in byte 22); an output without any unit gives `None`.
pub open spec fn spec_hvcc_extradata_to_annexb(d: Seq<u8>) -> Option<Seq<u8>> {
    if d.len() < 23 || d[0] != 1 {
        None
    } else {
        match array_walk(d, 23, d[22] as nat) {
            Some(out) => if out.len() == 0 {
                None
            } else {
                Some(out)
            },
            None => None,
        }
    }
}

/// Convert hvcC extradata to Annex B (VPS/SPS/PPS with start codes).
pub fn convert_hvcc_extradata_to_annexb(data: &[u8]) -> (r: Option<Vec<u8>>)
    ensures
        opt_bytes(r) == spec_hvcc_extradata_to_annexb(data@),
{
    if data.len() < 23 {
        return None;
    }
    if data[0] != 1 {
        return None;
    }
    let num_arrays = data[22] as usize;
    let mut result: Vec<u8> = Vec::new();
    let mut offset: usize = 23;
    let mut k: usize = 0;
    while k < num_arrays
        invariant
            k <= num_arrays,
            num_arrays == data@[22] as nat,
            offset <= data@.len(),
            data@.len() >= 23,
            array_walk(data@, 23, num_arrays as nat) == match array_walk(
                data@,
                offset as nat,
                (num_arrays - k) as nat,
            ) {
                Some(rest) => Some(result@ + rest),
                None => None,
            },
        decreases num_arrays - k,
    {
        if data.len() - offset < 3 {
            return None;
        }
        let num_nalus = read_be16(data, offset + 1);
        offset = offset + 3;
        let ghost before = result@;
        let ghost at = offset;
        if !read_param_sets(data, &mut offset, num_nalus, &mut result) {
            return None;
        }
        proof {
            let (out, o) = ps_walk(data@, at as nat, num_nalus as nat).unwrap();
            match array_walk(data@, offset as nat, (num_arrays - k - 1) as nat) {
                Some(rest) => {
                    assert(before + (out + rest) =~= result@ + rest);
                },
                None => {},
            }
        }
        k = k + 1;
    }
    proof {
        assert(result@ + Seq::<u8>::empty() =~= result@);
    }
    if result.len() == 0 {
        return None;
    }
    Some(result)
}

// ----------------------------------------------------------------------------
// avcC extradata round trip
// ----------------------------------------------------------------------------

/// NAL units written one after another, each after a 4-byte start code.
pub open spec fn annexb_join(nals: Seq<Seq<u8>>) -> Seq<u8>
    decreases nals.len(),
{
    if nals.len() == 0 {
        seq![]
    } else {
        annexb_join(nals.drop_last()) + start_code4() + nals.last()
    }
}

/// Parameter sets written one after another, each after its 2-byte
/// big-endian length (modulo 2^16).
pub open spec fn be16_join(sets: Seq<Seq<u8>>) -> Seq<u8>
    decreases sets.len(),
{
    if sets.len() == 0 {
        seq![]
    } else {
        be16_join(sets.drop_last()) + be16_bytes(sets.last().len()) + sets.last()
    }
}

/// A NAL unit in which no `00 00 01` occurs.
pub open spec fn free_of_start_codes(nal: Seq<u8>) -> bool {
    forall|i: int| !#[trigger] start3_at(nal, i)
}

/// Where NAL unit `k` of `nals` (its start code) begins in `annexb_join(nals)`.
pub open spec fn join_pos(nals: Seq<Seq<u8>>, k: int) -> nat {
    annexb_join(nals.take(k)).len()
}

/// The byte ranges of NAL units `k..` in `annexb_join(nals)`.
pub open spec fn join_ranges(nals: Seq<Seq<u8>>, k: int) -> Seq<(nat, nat)> {
    Seq::new(
        (nals.len() - k) as nat,
        |i: int| (join_pos(nals, k + i) + 4, join_pos(nals, k + i + 1)),
    )
}

proof fn lemma_annexb_join_concat(a: Seq<Seq<u8>>, b: Seq<Seq<u8>>)
    ensures
        annexb_join(a + b) == annexb_join(a) + annexb_join(b),
    decreases b.len(),
{
    if b.len() == 0 {
        assert(a + b =~= a);
        assert(annexb_join(a) + annexb_join(b) =~= annexb_join(a));
    } else {
        lemma_annexb_join_concat(a, b.drop_last());
        assert((a + b).drop_last() =~= a + b.drop_last());
        assert((a + b).last() == b.last());
        assert(annexb_join(a + b) =~= annexb_join(a) + annexb_join(b));
    }
}

proof fn lemma_be16_join_concat(a: Seq<Seq<u8>>, b: Seq<Seq<u8>>)
    ensures
        be16_join(a + b) == be16_join(a) + be16_join(b),
    decreases b.len(),
{
    if b.len() == 0 {
        assert(a + b =~= a);
        assert(be16_join(a) + be16_join(b) =~= be16_join(a));
    } else {
        lemma_be16_join_concat(a, b.drop_last());
        assert((a + b).drop_last() =~= a + b.drop_last());
        assert((a + b).last() == b.last());
        assert(be16_join(a + b) =~= be16_join(a) + be16_join(b));
    }
}

proof fn lemma_annexb_join_one(x: Seq<u8>)
    ensures
        annexb_join(seq![x]) == start_code4() + x,
{
    let one = seq![x];
    assert(one.drop_last() =~= Seq::<Seq<u8>>::empty());
    assert(annexb_join(one.drop_last()) =~= Seq::<u8>::empty());
    assert(one.last() == x);
    assert(annexb_join(one) =~= start_code4() + x);
}

proof fn lemma_be16_join_one(x: Seq<u8>)
    ensures
        be16_join(seq![x]) == be16_bytes(x.len()) + x,
{
    let one = seq![x];
    assert(one.drop_last() =~= Seq::<Seq<u8>>::empty());
    assert(be16_join(one.drop_last()) =~= Seq::<u8>::empty());
    assert(one.last() == x);
    assert(be16_join(one) =~= be16_bytes(x.len()) + x);
}

/// `annexb_join` of a list split at its first unit.
proof fn lemma_annexb_join_front(nals: Seq<Seq<u8>>)
    requires
        nals.len() > 0,
    ensures
        annexb_join(nals) == start_code4() + nals[0] + annexb_join(nals.drop_first()),
{
    let one = seq![nals[0]];
    lemma_annexb_join_one(nals[0]);
    lemma_annexb_join_concat(one, nals.drop_first());
    assert(one + nals.drop_first() =~= nals);
}

proof fn lemma_be16_join_front(sets: Seq<Seq<u8>>)
    requires
        sets.len() > 0,
    ensures
        be16_join(sets) == be16_bytes(sets[0].len()) + sets[0] + be16_join(sets.drop_first()),
{
    let one = seq![sets[0]];
    lemma_be16_join_one(sets[0]);
    lemma_be16_join_concat(one, sets.drop_first());
    assert(one + sets.drop_first() =~= sets);
}

/// A piece of a subrange is a subrange.
proof fn lemma_subrange_within(rec: Seq<u8>, off: int, whole: Seq<u8>, a: int, b: int)
    requires
        0 <= off,
        off + whole.len() <= rec.len(),
        rec.subrange(off, off + whole.len()) == whole,
        0 <= a <= b <= whole.len(),
    ensures
        rec.subrange(off + a, off + b) == whole.subrange(a, b),
{
    assert forall|i: int| 0 <= i < b - a implies rec.subrange(off + a, off + b)[i] == whole.subrange(
        a,
        b,
    )[i] by {
        assert(rec.subrange(off, off + whole.len())[a + i] == rec[off + a + i]);
    }
    assert(rec.subrange(off + a, off + b) =~= whole.subrange(a, b));
}

/// Unit `k` sits between the units before it and those after it.
proof fn lemma_join_split(nals: Seq<Seq<u8>>, k: int)
    requires
        0 <= k < nals.len(),
    ensures
        annexb_join(nals) == annexb_join(nals.take(k)) + (start_code4() + nals[k]) + annexb_join(
            nals.skip(k + 1),
        ),
        join_pos(nals, k + 1) == join_pos(nals, k) + 4 + nals[k].len(),
{
    let one = seq![nals[k]];
    lemma_annexb_join_one(nals[k]);
    lemma_annexb_join_concat(nals.take(k), nals.skip(k));
    assert(nals.take(k) + nals.skip(k) =~= nals);
    lemma_annexb_join_concat(one, nals.skip(k + 1));
    assert(one + nals.skip(k + 1) =~= nals.skip(k));
    lemma_annexb_join_concat(nals.take(k), one);
    assert(nals.take(k) + one =~= nals.take(k + 1));
    assert(annexb_join(nals) =~= annexb_join(nals.take(k)) + (start_code4() + nals[k])
        + annexb_join(nals.skip(k + 1)));
}

/// No start code begins inside a unit free of start codes that is followed by
/// a 4-byte start code or by the end of the data.
proof fn lemma_no_start_code_inside(d: Seq<u8>, base: int, nal: Seq<u8>, j: int)
    requires
        0 <= base,
        base + nal.len() <= d.len(),
        d.subrange(base, base + nal.len()) == nal,
        free_of_start_codes(nal),
        base + nal.len() == d.len() || (base + nal.len() + 4 <= d.len() && d[base + nal.len()]
            == 0 && d[base + nal.len() + 1] == 0 && d[base + nal.len() + 2] == 0),
        base <= j < base + nal.len(),
    ensures
        sc_len(d, j) == 0,
{
    let e = base + nal.len();
    if start3_at(d, j) {
        if j + 2 < e {
            assert(nal[j - base] == d[j]);
            assert(nal[j - base + 1] == d[j + 1]);
            assert(nal[j - base + 2] == d[j + 2]);
            assert(start3_at(nal, j - base));
        }
    }
    if start4_at(d, j) {
        if j + 3 < e {
            assert(nal[j - base + 1] == d[j + 1]);
            assert(nal[j - base + 2] == d[j + 2]);
            assert(nal[j - base + 3] == d[j + 3]);
            assert(start3_at(nal, j - base + 1));
        }
    }
}

/// The scan for the next start code from `a` stops at `b` when none begins
/// in between and one begins at `b` (or `b` is the end).
proof fn lemma_next_sc_at(d: Seq<u8>, a: nat, b: nat)
    requires
        a <= b <= d.len(),
        forall|j: int| a <= j < b ==> sc_len(d, j) == 0,
        b == d.len() || sc_len(d, b as int) > 0,
    ensures
        next_sc(d, a) == b,
    decreases b - a,
{
    if a < b {
        assert(sc_len(d, a as int) == 0);
        lemma_next_sc_at(d, a + 1, b);
    }
}

/// Scanning joined units from the start of unit `k` finds exactly the units
/// `k..`.
proof fn lemma_scan_join(nals: Seq<Seq<u8>>, k: int)
    requires
        0 <= k <= nals.len(),
        forall|i: int| 0 <= i < nals.len() ==> free_of_start_codes(#[trigger] nals[i]),
    ensures
        annexb_ranges(annexb_join(nals), join_pos(nals, k)) == join_ranges(nals, k),
    decreases nals.len() - k,
{
    let d = annexb_join(nals);
    if k == nals.len() {
        assert(nals.take(k) =~= nals);
        assert(join_ranges(nals, k) =~= Seq::<(nat, nat)>::empty());
    } else {
        lemma_join_split(nals, k);
        let p: int = join_pos(nals, k) as int;
        let e: int = join_pos(nals, k + 1) as int;
        let nal = nals[k];
        assert(d[p] == 0 && d[p + 1] == 0 && d[p + 2] == 0 && d[p + 3] == 1);
        assert(start4_at(d, p));
        assert(d.subrange(p + 4, e) =~= nal);
        if k + 1 < nals.len() {
            lemma_join_split(nals, k + 1);
            assert(d[e] == 0 && d[e + 1] == 0 && d[e + 2] == 0 && d[e + 3] == 1);
            assert(start4_at(d, e));
        } else {
            assert(nals.take(k + 1) =~= nals);
        }
        assert forall|j: int| p + 4 <= j < e implies sc_len(d, j) == 0 by {
            lemma_no_start_code_inside(d, p + 4, nal, j);
        }
        lemma_next_sc_at(d, (p + 4) as nat, e as nat);
        lemma_scan_join(nals, k + 1);
        assert(join_ranges(nals, k) =~= seq![((p + 4) as nat, e as nat)] + join_ranges(nals, k + 1));
    }
}

proof fn lemma_typed_concat(d: Seq<u8>, a: Seq<(nat, nat)>, b: Seq<(nat, nat)>, hevc: bool, t: u8)
    ensures
        typed_ranges(d, a + b, hevc, t) == typed_ranges(d, a, hevc, t) + typed_ranges(
            d,
            b,
            hevc,
            t,
        ),
    decreases b.len(),
{
    if b.len() == 0 {
        assert(a + b =~= a);
        assert(typed_ranges(d, a, hevc, t) + typed_ranges(d, b, hevc, t) =~= typed_ranges(
            d,
            a,
            hevc,
            t,
        ));
    } else {
        lemma_typed_concat(d, a, b.drop_last(), hevc, t);
        assert((a + b).drop_last() =~= a + b.drop_last());
        assert((a + b).last() == b.last());
        assert(typed_ranges(d, a + b, hevc, t) =~= typed_ranges(d, a, hevc, t) + typed_ranges(
            d,
            b,
            hevc,
            t,
        ));
    }
}

proof fn lemma_typed_all(d: Seq<u8>, r: Seq<(nat, nat)>, hevc: bool, t: u8)
    requires
        forall|i: int|
            0 <= i < r.len() ==> #[trigger] r[i].0 < r[i].1 && nal_kind(d[r[i].0 as int], hevc)
                == t,
    ensures
        typed_ranges(d, r, hevc, t) == r,
    decreases r.len(),
{
    if r.len() > 0 {
        assert(r.last() == r[r.len() - 1]);
        assert forall|i: int| 0 <= i < r.drop_last().len() implies #[trigger] r.drop_last()[i].0
            < r.drop_last()[i].1 && nal_kind(d[r.drop_last()[i].0 as int], hevc) == t by {
            assert(r.drop_last()[i] == r[i]);
        }
        lemma_typed_all(d, r.drop_last(), hevc, t);
        assert(r.drop_last() + seq![r.last()] =~= r);
    }
}

proof fn lemma_typed_none(d: Seq<u8>, r: Seq<(nat, nat)>, hevc: bool, t: u8)
    requires
        forall|i: int| 0 <= i < r.len() ==> nal_kind(d[#[trigger] r[i].0 as int], hevc) != t,
    ensures
        typed_ranges(d, r, hevc, t) == Seq::<(nat, nat)>::empty(),
    decreases r.len(),
{
    if r.len() > 0 {
        assert(r.last() == r[r.len() - 1]);
        assert forall|i: int| 0 <= i < r.drop_last().len() implies nal_kind(
            d[#[trigger] r.drop_last()[i].0 as int],
            hevc,
        ) != t by {
            assert(r.drop_last()[i] == r[i]);
        }
        lemma_typed_none(d, r.drop_last(), hevc, t);
        assert(typed_ranges(d, r, hevc, t) =~= Seq::<(nat, nat)>::empty());
    }
}

/// Writing ranges of `d` that spell `sets` gives the length-prefixed sets.
proof fn lemma_param_array_spells(d: Seq<u8>, rs: Seq<(nat, nat)>, sets: Seq<Seq<u8>>)
    requires
        rs.len() == sets.len(),
        forall|i: int|
            0 <= i < rs.len() ==> #[trigger] rs[i].0 <= rs[i].1 <= d.len() && d.subrange(
                rs[i].0 as int,
                rs[i].1 as int,
            ) == sets[i],
    ensures
        param_array(d, rs) == be16_join(sets),
    decreases rs.len(),
{
    if rs.len() > 0 {
        let n = (rs.len() - 1) as int;
        assert(rs.last() == rs[n]);
        assert(sets.last() == sets[n]);
        assert forall|i: int| 0 <= i < rs.drop_last().len() implies #[trigger] rs.drop_last()[i].0
            <= rs.drop_last()[i].1 <= d.len() && d.subrange(
            rs.drop_last()[i].0 as int,
            rs.drop_last()[i].1 as int,
        ) == sets.drop_last()[i] by {
            assert(rs.drop_last()[i] == rs[i]);
            assert(sets.drop_last()[i] == sets[i]);
        }
        lemma_param_array_spells(d, rs.drop_last(), sets.drop_last());
        assert(d.subrange(rs[n].0 as int, rs[n].1 as int).len() == rs[n].1 - rs[n].0);
    }
}

proof fn lemma_be16_round_trip(x: nat)
    requires
        x < 0x1_0000,
    ensures
        be16(be16_bytes(x)[0], be16_bytes(x)[1]) == x,
{
    let hi = x / 256;
    let lo = x % 256;
    assert(hi < 256 && hi * 256 + lo == x) by (nonlinear_arith)
        requires
            x < 0x1_0000,
            hi == x / 256,
            lo == x % 256,
    ;
    assert(x % 0x1_0000 == x);
}

/// Reading length-prefixed sets back gives each after a start code.
proof fn lemma_ps_walk_reads(rec: Seq<u8>, off: nat, sets: Seq<Seq<u8>>)
    requires
        off + be16_join(sets).len() <= rec.len(),
        rec.subrange(off as int, (off + be16_join(sets).len()) as int) == be16_join(sets),
        forall|i: int| 0 <= i < sets.len() ==> (#[trigger] sets[i]).len() < 0x1_0000,
    ensures
        ps_walk(rec, off, sets.len()) == Some((annexb_join(sets), off + be16_join(sets).len())),
    decreases sets.len(),
{
    if sets.len() == 0 {
        assert(annexb_join(sets) =~= Seq::<u8>::empty());
    } else {
        let first = sets[0];
        let rest = sets.drop_first();
        lemma_be16_join_front(sets);
        lemma_annexb_join_front(sets);
        let n: int = first.len() as int;
        lemma_be16_round_trip(first.len());
        let joined = be16_join(sets);
        assert(rec.subrange(off as int, off + joined.len() as int)[0] == rec[off as int]);
        assert(rec.subrange(off as int, off + joined.len() as int)[1] == rec[off + 1int]);
        assert(rec[off as int] == joined[0]);
        assert(rec[off + 1int] == joined[1]);
        assert(be16(rec[off as int], rec[off + 1int]) == n);
        lemma_subrange_within(rec, off as int, joined, 2, 2 + n);
        assert(joined.subrange(2, 2 + n) =~= first);
        lemma_subrange_within(rec, off as int, joined, 2 + n, joined.len() as int);
        assert(joined.subrange(2 + n, joined.len() as int) =~= be16_join(rest));
        assert forall|i: int| 0 <= i < rest.len() implies (#[trigger] rest[i]).len() < 0x1_0000 by {
            assert(rest[i] == sets[i + 1]);
        }
        lemma_ps_walk_reads(rec, (off + 2 + n) as nat, rest);
        assert(rest.len() == (sets.len() - 1) as nat);
    }
}

/// The units are SPS and PPS as an avcC record carries them.
pub open spec fn avcc_parameter_sets(sps: Seq<Seq<u8>>, pps: Seq<Seq<u8>>) -> bool {
    &&& 1 <= sps.len() <= 31
    &&& 1 <= pps.len() <= 255
    &&& forall|i: int|
        0 <= i < sps.len() ==> {
            &&& 4 <= (#[trigger] sps[i]).len() < 0x1_0000
            &&& sps[i][0] & 0x1fu8 == 7
            &&& free_of_start_codes(sps[i])
        }
    &&& forall|i: int|
        0 <= i < pps.len() ==> {
            &&& 1 <= (#[trigger] pps[i]).len() < 0x1_0000
            &&& pps[i][0] & 0x1fu8 == 8
            &&& free_of_start_codes(pps[i])
        }
}

/// The avcC record of the given SPS and PPS.
pub open spec fn avcc_of_sets(sps: Seq<Seq<u8>>, pps: Seq<Seq<u8>>) -> Seq<u8> {
    seq![1u8, sps[0][1], sps[0][2], sps[0][3], 0xffu8, (0xe0 + sps.len()) as u8] + be16_join(sps)
        + seq![(pps.len() % 256) as u8] + be16_join(pps)
}

/// Scanning the joined units finds each unit, SPS first, then PPS.
proof fn lemma_scan_parameter_sets(sps: Seq<Seq<u8>>, pps: Seq<Seq<u8>>)
    requires
        avcc_parameter_sets(sps, pps),
    ensures
        ({
            let nals = sps + pps;
            let d = annexb_join(nals);
            let r = annexb_ranges(d, 0);
            &&& r.len() == nals.len()
            &&& forall|i: int|
                0 <= i < nals.len() ==> {
                    &&& (#[trigger] r[i]).0 + nals[i].len() == r[i].1 <= d.len()
                    &&& d.subrange(r[i].0 as int, r[i].1 as int) == nals[i]
                }
        }),
{
    let nals = sps + pps;
    let d = annexb_join(nals);
    let ns = sps.len() as int;
    assert forall|i: int| 0 <= i < nals.len() implies free_of_start_codes(#[trigger] nals[i]) by {
        if i < ns {
            assert(nals[i] == sps[i]);
        } else {
            assert(nals[i] == pps[i - ns]);
        }
    }
    lemma_scan_join(nals, 0);
    assert(nals.take(0) =~= Seq::<Seq<u8>>::empty());
    let r = annexb_ranges(d, 0);
    assert(r == join_ranges(nals, 0));
    assert forall|i: int| 0 <= i < nals.len() implies {
        &&& (#[trigger] r[i]).0 + nals[i].len() == r[i].1 <= d.len()
        &&& d.subrange(r[i].0 as int, r[i].1 as int) == nals[i]
    } by {
        lemma_join_split(nals, i);
        assert(d.subrange(join_pos(nals, i) + 4int, join_pos(nals, i + 1) as int) =~= nals[i]);
    }
}

/// The SPS ranges are those of type 7, the PPS ranges those of type 8.
#[verifier::spinoff_prover]
proof fn lemma_select_parameter_sets(sps: Seq<Seq<u8>>, pps: Seq<Seq<u8>>)
    requires
        avcc_parameter_sets(sps, pps),
    ensures
        ({
            let d = annexb_join(sps + pps);
            let r = annexb_ranges(d, 0);
            &&& typed_ranges(d, r, false, 7) == r.take(sps.len() as int)
            &&& typed_ranges(d, r, false, 8) == r.skip(sps.len() as int)
        }),
{
    lemma_scan_parameter_sets(sps, pps);
    let nals = sps + pps;
    let d = annexb_join(nals);
    let ns = sps.len() as int;
    let r = annexb_ranges(d, 0);
    let rs = r.take(ns);
    let rp = r.skip(ns);
    assert forall|i: int| 0 <= i < rs.len() implies #[trigger] rs[i].0 < rs[i].1 && nal_kind(
        d[rs[i].0 as int],
        false,
    ) == 7 by {
        assert(rs[i] == r[i]);
        assert(nals[i] == sps[i]);
        assert(d[r[i].0 as int] == d.subrange(r[i].0 as int, r[i].1 as int)[0]);
    }
    assert forall|i: int| 0 <= i < rs.len() implies nal_kind(d[#[trigger] rs[i].0 as int], false)
        != 8 by {
        assert(rs[i] == r[i]);
        assert(nals[i] == sps[i]);
        assert(d[r[i].0 as int] == d.subrange(r[i].0 as int, r[i].1 as int)[0]);
    }
    assert forall|i: int| 0 <= i < rp.len() implies #[trigger] rp[i].0 < rp[i].1 && nal_kind(
        d[rp[i].0 as int],
        false,
    ) == 8 by {
        assert(rp[i] == r[i + ns]);
        assert(nals[i + ns] == pps[i]);
        assert(d[r[i + ns].0 as int] == d.subrange(r[i + ns].0 as int, r[i + ns].1 as int)[0]);
    }
    assert forall|i: int| 0 <= i < rp.len() implies nal_kind(d[#[trigger] rp[i].0 as int], false)
        != 7 by {
        assert(rp[i] == r[i + ns]);
        assert(nals[i + ns] == pps[i]);
        assert(d[r[i + ns].0 as int] == d.subrange(r[i + ns].0 as int, r[i + ns].1 as int)[0]);
    }
    assert(rs + rp =~= r);
    lemma_typed_concat(d, rs, rp, false, 7);
    lemma_typed_concat(d, rs, rp, false, 8);
    lemma_typed_all(d, rs, false, 7);
    lemma_typed_none(d, rp, false, 7);
    lemma_typed_none(d, rs, false, 8);
    lemma_typed_all(d, rp, false, 8);
    assert(typed_ranges(d, r, false, 7) =~= rs);
    assert(typed_ranges(d, r, false, 8) =~= rp);
}

/// The SPS and PPS ranges, written as parameter arrays, spell the sets.
proof fn lemma_parameter_arrays(sps: Seq<Seq<u8>>, pps: Seq<Seq<u8>>)
    requires
        avcc_parameter_sets(sps, pps),
    ensures
        ({
            let d = annexb_join(sps + pps);
            let r = annexb_ranges(d, 0);
            &&& r.len() == sps.len() + pps.len()
            &&& param_array(d, r.take(sps.len() as int)) == be16_join(sps)
            &&& param_array(d, r.skip(sps.len() as int)) == be16_join(pps)
            &&& r[0].0 + 4 <= r[0].1 <= d.len()
            &&& d[r[0].0 + 1int] == sps[0][1]
            &&& d[r[0].0 + 2int] == sps[0][2]
            &&& d[r[0].0 + 3int] == sps[0][3]
        }),
{
    lemma_scan_parameter_sets(sps, pps);
    let nals = sps + pps;
    let d = annexb_join(nals);
    let ns = sps.len() as int;
    let r = annexb_ranges(d, 0);
    let rs = r.take(ns);
    let rp = r.skip(ns);
    assert forall|i: int| 0 <= i < rs.len() implies #[trigger] rs[i].0 <= rs[i].1 <= d.len()
        && d.subrange(rs[i].0 as int, rs[i].1 as int) == sps[i] by {
        assert(rs[i] == r[i]);
        assert(nals[i] == sps[i]);
    }
    assert forall|i: int| 0 <= i < rp.len() implies #[trigger] rp[i].0 <= rp[i].1 <= d.len()
        && d.subrange(rp[i].0 as int, rp[i].1 as int) == pps[i] by {
        assert(rp[i] == r[i + ns]);
        assert(nals[i + ns] == pps[i]);
    }
    lemma_param_array_spells(d, rs, sps);
    lemma_param_array_spells(d, rp, pps);
    assert(nals[0] == sps[0]);
    let f = r[0].0 as int;
    let first = d.subrange(f, r[0].1 as int);
    assert(first == sps[0]);
    assert(d[f + 1] == first[1] && d[f + 2] == first[2] && d[f + 3] == first[3]);
}

/// Annex B extradata of SPS and PPS converts to their avcC record.
proof fn lemma_annexb_to_avcc_of_sets(sps: Seq<Seq<u8>>, pps: Seq<Seq<u8>>)
    requires
        avcc_parameter_sets(sps, pps),
    ensures
        spec_annexb_extradata_to_avcc(annexb_join(sps + pps)) == Some(avcc_of_sets(sps, pps)),
{
    lemma_select_parameter_sets(sps, pps);
    lemma_parameter_arrays(sps, pps);
    let d = annexb_join(sps + pps);
    let ns = sps.len() as int;
    let r = annexb_ranges(d, 0);
    let rs = r.take(ns);
    let rp = r.skip(ns);
    assert(rs[0] == r[0]);
    assert(rs.take(ns) =~= rs);
    assert(rp.take(pps.len() as int) =~= rp);
    assert(cap(rs.len() % 256, 31) == sps.len());
    assert(rp.len() % 256 == pps.len());
    assert(avcc_record(d, rs, rp, sps.len(), pps.len()) =~= avcc_of_sets(sps, pps));
}

proof fn lemma_count_byte(s: u8)
    requires
        s < 32,
    ensures
        ((0xe0 + s) as u8) & 0x1fu8 == s,
{
    assert(s < 32 ==> ((0xe0 + s) as u8) & 0x1fu8 == s) by (bit_vector);
}

/// The avcC record of SPS and PPS converts back to each after a start code.
proof fn lemma_avcc_of_sets_to_annexb(sps: Seq<Seq<u8>>, pps: Seq<Seq<u8>>)
    requires
        avcc_parameter_sets(sps, pps),
    ensures
        spec_avcc_extradata_to_annexb(avcc_of_sets(sps, pps)) == Some(
            annexb_join(sps) + annexb_join(pps),
        ),
{
    let rec = avcc_of_sets(sps, pps);
    lemma_count_byte(sps.len() as u8);
    assert(rec[0] == 1);
    assert(rec[5] == (0xe0 + sps.len()) as u8);
    assert((rec[5] & 0x1fu8) as nat == sps.len());
    assert forall|i: int| 0 <= i < sps.len() implies (#[trigger] sps[i]).len() < 0x1_0000 by {}
    assert forall|i: int| 0 <= i < pps.len() implies (#[trigger] pps[i]).len() < 0x1_0000 by {}
    let o = 6 + be16_join(sps).len();
    assert(rec.subrange(6, o as int) =~= be16_join(sps));
    lemma_ps_walk_reads(rec, 6, sps);
    assert(rec[o as int] == (pps.len() % 256) as u8);
    assert(rec.subrange(o + 1int, (o + 1 + be16_join(pps).len()) as int) =~= be16_join(pps));
    lemma_ps_walk_reads(rec, (o + 1) as nat, pps);
}

/// H.264 parameter sets written as Annex B extradata (every SPS, then every
/// PPS, each after a 4-byte start code) come back unchanged from a round trip
/// through an avcC record: converting to avcC succeeds, and converting that
/// record back to Annex B gives the original bytes. This holds for one to 31
/// SPS of at least four bytes, one to 255 PPS, each unit shorter than 64 KiB,
/// of its own NAL unit type (7 for an SPS, 8 for a PPS), and holding no
/// `00 00 01`.
pub proof fn lemma_avcc_extradata_round_trip(sps: Seq<Seq<u8>>, pps: Seq<Seq<u8>>)
    requires
        avcc_parameter_sets(sps, pps),
    ensures
        spec_annexb_extradata_to_avcc(annexb_join(sps + pps)) is Some,
        spec_avcc_extradata_to_annexb(spec_annexb_extradata_to_avcc(annexb_join(sps + pps))->0)
            == Some(annexb_join(sps + pps)),
{
    lemma_annexb_to_avcc_of_sets(sps, pps);
    lemma_avcc_of_sets_to_annexb(sps, pps);
    lemma_annexb_join_concat(sps, pps);
}

// ----------------------------------------------------------------------------
// hvcC extradata round trip
// ----------------------------------------------------------------------------

/// Scanning joined units, each free of start codes, finds each unit.
proof fn lemma_scan_units(nals: Seq<Seq<u8>>)
    requires
        forall|i: int| 0 <= i < nals.len() ==> free_of_start_codes(#[trigger] nals[i]),
    ensures
        ({
            let d = annexb_join(nals);
            let r = annexb_ranges(d, 0);
            &&& r.len() == nals.len()
            &&& forall|i: int|
                0 <= i < nals.len() ==> {
                    &&& (#[trigger] r[i]).0 + nals[i].len() == r[i].1 <= d.len()
                    &&& d.subrange(r[i].0 as int, r[i].1 as int) == nals[i]
                }
        }),
{
    let d = annexb_join(nals);
    lemma_scan_join(nals, 0);
    assert(nals.take(0) =~= Seq::<Seq<u8>>::empty());
    let r = annexb_ranges(d, 0);
    assert(r == join_ranges(nals, 0));
    assert forall|i: int| 0 <= i < nals.len() implies {
        &&& (#[trigger] r[i]).0 + nals[i].len() == r[i].1 <= d.len()
        &&& d.subrange(r[i].0 as int, r[i].1 as int) == nals[i]
    } by {
        lemma_join_split(nals, i);
        assert(d.subrange(join_pos(nals, i) + 4int, join_pos(nals, i + 1) as int) =~= nals[i]);
    }
}

/// The ranges of type `t` are those from `lo` to `hi`.
proof fn lemma_typed_group(d: Seq<u8>, r: Seq<(nat, nat)>, lo: int, hi: int, hevc: bool, t: u8)
    requires
        0 <= lo <= hi <= r.len(),
        forall|i: int|
            0 <= i < r.len() ==> #[trigger] r[i].0 < r[i].1 && ((lo <= i < hi) == (nal_kind(
                d[r[i].0 as int],
                hevc,
            ) == t)),
    ensures
        typed_ranges(d, r, hevc, t) == r.subrange(lo, hi),
{
    let a = r.take(lo);
    let b = r.subrange(lo, hi);
    let c = r.skip(hi);
    assert forall|i: int| 0 <= i < a.len() implies nal_kind(d[#[trigger] a[i].0 as int], hevc)
        != t by {
        assert(a[i] == r[i]);
    }
    assert forall|i: int| 0 <= i < b.len() implies #[trigger] b[i].0 < b[i].1 && nal_kind(
        d[b[i].0 as int],
        hevc,
    ) == t by {
        assert(b[i] == r[i + lo]);
    }
    assert forall|i: int| 0 <= i < c.len() implies nal_kind(d[#[trigger] c[i].0 as int], hevc)
        != t by {
        assert(c[i] == r[i + hi]);
    }
    assert(a + b + c =~= r);
    lemma_typed_concat(d, a + b, c, hevc, t);
    lemma_typed_concat(d, a, b, hevc, t);
    lemma_typed_none(d, a, hevc, t);
    lemma_typed_all(d, b, hevc, t);
    lemma_typed_none(d, c, hevc, t);
    assert(typed_ranges(d, r, hevc, t) =~= b);
}

/// The NAL unit type of an HEVC unit: bits 1 to 6 of its first byte.
pub open spec fn hevc_unit_type(nal: Seq<u8>) -> u8 {
    (nal[0] >> 1u8) & 0x3fu8
}

/// The units are VPS, SPS and PPS as an hvcC record carries them.
pub open spec fn hvcc_parameter_sets(vps: Seq<Seq<u8>>, sps: Seq<Seq<u8>>, pps: Seq<Seq<u8>>) -> bool {
    &&& vps.len() <= 255
    &&& 1 <= sps.len() <= 255
    &&& 1 <= pps.len() <= 255
    &&& forall|i: int|
        0 <= i < vps.len() ==> {
            &&& 1 <= (#[trigger] vps[i]).len() < 0x1_0000
            &&& hevc_unit_type(vps[i]) == 32
            &&& free_of_start_codes(vps[i])
        }
    &&& forall|i: int|
        0 <= i < sps.len() ==> {
            &&& 6 <= (#[trigger] sps[i]).len() < 0x1_0000
            &&& hevc_unit_type(sps[i]) == 33
            &&& free_of_start_codes(sps[i])
        }
    &&& forall|i: int|
        0 <= i < pps.len() ==> {
            &&& 1 <= (#[trigger] pps[i]).len() < 0x1_0000
            &&& hevc_unit_type(pps[i]) == 34
            &&& free_of_start_codes(pps[i])
        }
}

/// One hvcC array of the given sets: the type, a 2-byte count, the sets.
pub open spec fn hvcc_array_of(t: u8, sets: Seq<Seq<u8>>) -> Seq<u8> {
    seq![t] + be16_bytes(sets.len()) + be16_join(sets)
}

/// The hvcC record of the given VPS, SPS and PPS.
pub open spec fn hvcc_of_sets(vps: Seq<Seq<u8>>, sps: Seq<Seq<u8>>, pps: Seq<Seq<u8>>) -> Seq<u8> {
    hvcc_header() + seq![if vps.len() > 0 { 3u8 } else { 2u8 }] + (if vps.len() > 0 {
        hvcc_array_of(32, vps)
    } else {
        seq![]
    }) + hvcc_array_of(33, sps) + hvcc_array_of(34, pps)
}

/// The units of VPS, SPS and PPS joined as Annex B.
pub open spec fn hvcc_units(vps: Seq<Seq<u8>>, sps: Seq<Seq<u8>>, pps: Seq<Seq<u8>>) -> Seq<Seq<u8>> {
    vps + sps + pps
}

/// Scanning the joined VPS, SPS and PPS finds each unit.
#[verifier::spinoff_prover]
proof fn lemma_hvcc_scan(vps: Seq<Seq<u8>>, sps: Seq<Seq<u8>>, pps: Seq<Seq<u8>>)
    requires
        hvcc_parameter_sets(vps, sps, pps),
    ensures
        ({
            let nals = hvcc_units(vps, sps, pps);
            let d = annexb_join(nals);
            let r = annexb_ranges(d, 0);
            let nv = vps.len() as int;
            let ns = sps.len() as int;
            &&& r.len() == nals.len()
            &&& forall|i: int|
                0 <= i < nals.len() ==> {
                    &&& (#[trigger] r[i]).0 + nals[i].len() == r[i].1 <= d.len()
                    &&& d.subrange(r[i].0 as int, r[i].1 as int) == nals[i]
                    &&& r[i].0 < r[i].1
                    &&& nal_kind(d[r[i].0 as int], true) == (if i < nv {
                        32u8
                    } else if i < nv + ns {
                        33u8
                    } else {
                        34u8
                    })
                }
        }),
{
    let nals = hvcc_units(vps, sps, pps);
    let d = annexb_join(nals);
    let nv = vps.len() as int;
    let ns = sps.len() as int;
    assert forall|i: int| 0 <= i < nals.len() implies free_of_start_codes(#[trigger] nals[i])
        && nals[i].len() >= 1 && hevc_unit_type(nals[i]) == (if i < nv {
        32u8
    } else if i < nv + ns {
        33u8
    } else {
        34u8
    }) by {
        if i < nv {
            assert(nals[i] == vps[i]);
        } else if i < nv + ns {
            assert(nals[i] == sps[i - nv]);
        } else {
            assert(nals[i] == pps[i - nv - ns]);
        }
    }
    lemma_scan_units(nals);
    let r = annexb_ranges(d, 0);
    assert forall|i: int| 0 <= i < r.len() implies nal_kind(d[#[trigger] r[i].0 as int], true)
        == hevc_unit_type(nals[i]) by {
        assert(d[r[i].0 as int] == d.subrange(r[i].0 as int, r[i].1 as int)[0]);
    }
}

/// Each NAL unit type selects its own group of ranges.
#[verifier::spinoff_prover]
proof fn lemma_hvcc_select(vps: Seq<Seq<u8>>, sps: Seq<Seq<u8>>, pps: Seq<Seq<u8>>)
    requires
        hvcc_parameter_sets(vps, sps, pps),
    ensures
        ({
            let d = annexb_join(hvcc_units(vps, sps, pps));
            let r = annexb_ranges(d, 0);
            let nv = vps.len() as int;
            let ns = sps.len() as int;
            &&& r.len() == vps.len() + sps.len() + pps.len()
            &&& typed_ranges(d, r, true, 32) == r.subrange(0, nv)
            &&& typed_ranges(d, r, true, 33) == r.subrange(nv, nv + ns)
            &&& typed_ranges(d, r, true, 34) == r.subrange(nv + ns, r.len() as int)
        }),
{
    lemma_hvcc_scan(vps, sps, pps);
    let d = annexb_join(hvcc_units(vps, sps, pps));
    let r = annexb_ranges(d, 0);
    let nv = vps.len() as int;
    let ns = sps.len() as int;
    lemma_typed_group(d, r, 0, nv, true, 32);
    lemma_typed_group(d, r, nv, nv + ns, true, 33);
    lemma_typed_group(d, r, nv + ns, r.len() as int, true, 34);
}

/// The three groups of ranges, written as parameter arrays, spell the sets.
#[verifier::spinoff_prover]
proof fn lemma_hvcc_arrays(vps: Seq<Seq<u8>>, sps: Seq<Seq<u8>>, pps: Seq<Seq<u8>>)
    requires
        hvcc_parameter_sets(vps, sps, pps),
    ensures
        ({
            let d = annexb_join(hvcc_units(vps, sps, pps));
            let r = annexb_ranges(d, 0);
            let nv = vps.len() as int;
            let ns = sps.len() as int;
            &&& param_array(d, r.subrange(0, nv)) == be16_join(vps)
            &&& param_array(d, r.subrange(nv, nv + ns)) == be16_join(sps)
            &&& param_array(d, r.subrange(nv + ns, r.len() as int)) == be16_join(pps)
            &&& r[nv].0 + 6 <= r[nv].1
        }),
{
    lemma_hvcc_scan(vps, sps, pps);
    let nals = hvcc_units(vps, sps, pps);
    let d = annexb_join(nals);
    let r = annexb_ranges(d, 0);
    let nv = vps.len() as int;
    let ns = sps.len() as int;
    let rv = r.subrange(0, nv);
    let rs = r.subrange(nv, nv + ns);
    let rp = r.subrange(nv + ns, r.len() as int);
    assert forall|i: int| 0 <= i < rv.len() implies #[trigger] rv[i].0 <= rv[i].1 <= d.len()
        && d.subrange(rv[i].0 as int, rv[i].1 as int) == vps[i] by {
        assert(rv[i] == r[i]);
        assert(nals[i] == vps[i]);
    }
    assert forall|i: int| 0 <= i < rs.len() implies #[trigger] rs[i].0 <= rs[i].1 <= d.len()
        && d.subrange(rs[i].0 as int, rs[i].1 as int) == sps[i] by {
        assert(rs[i] == r[i + nv]);
        assert(nals[i + nv] == sps[i]);
    }
    assert forall|i: int| 0 <= i < rp.len() implies #[trigger] rp[i].0 <= rp[i].1 <= d.len()
        && d.subrange(rp[i].0 as int, rp[i].1 as int) == pps[i] by {
        assert(rp[i] == r[i + nv + ns]);
        assert(nals[i + nv + ns] == pps[i]);
    }
    lemma_param_array_spells(d, rv, vps);
    lemma_param_array_spells(d, rs, sps);
    lemma_param_array_spells(d, rp, pps);
    assert(nals[nv] == sps[0]);
}

/// Annex B extradata of VPS, SPS and PPS converts to their hvcC record.
#[verifier::spinoff_prover]
#[verifier::rlimit(40)]
proof fn lemma_annexb_to_hvcc_of_sets(vps: Seq<Seq<u8>>, sps: Seq<Seq<u8>>, pps: Seq<Seq<u8>>)
    requires
        hvcc_parameter_sets(vps, sps, pps),
    ensures
        spec_annexb_extradata_to_hvcc(annexb_join(hvcc_units(vps, sps, pps))) == Some(
            hvcc_of_sets(vps, sps, pps),
        ),
{
    lemma_hvcc_select(vps, sps, pps);
    lemma_hvcc_arrays(vps, sps, pps);
    let d = annexb_join(hvcc_units(vps, sps, pps));
    let r = annexb_ranges(d, 0);
    let nv = vps.len() as int;
    let ns = sps.len() as int;
    let rv = r.subrange(0, nv);
    let rs = r.subrange(nv, nv + ns);
    let rp = r.subrange(nv + ns, r.len() as int);
    assert(rv.take(nv) =~= rv);
    assert(rs.take(ns) =~= rs);
    assert(rp.take(pps.len() as int) =~= rp);
    assert(rs[0] == r[nv]);
    assert(cap(rv.len() % 0x1_0000, 255) == vps.len());
    assert(cap(rs.len() % 0x1_0000, 255) == sps.len());
    assert(cap(rp.len() % 0x1_0000, 255) == pps.len());
    assert(hvcc_array(d, 33, rs, sps.len()) =~= hvcc_array_of(33, sps));
    assert(hvcc_array(d, 34, rp, pps.len()) =~= hvcc_array_of(34, pps));
    if vps.len() > 0 {
        assert(hvcc_array(d, 32, rv, vps.len()) =~= hvcc_array_of(32, vps));
    }
    assert(hvcc_record(d, rv, rs, rp, vps.len(), sps.len(), pps.len()) =~= hvcc_of_sets(
        vps,
        sps,
        pps,
    ));
}

/// Reading one hvcC array back gives its sets, each after a start code.
proof fn lemma_array_reads(rec: Seq<u8>, off: nat, t: u8, sets: Seq<Seq<u8>>)
    requires
        sets.len() < 0x1_0000,
        forall|i: int| 0 <= i < sets.len() ==> (#[trigger] sets[i]).len() < 0x1_0000,
        off + hvcc_array_of(t, sets).len() <= rec.len(),
        rec.subrange(off as int, (off + hvcc_array_of(t, sets).len()) as int) == hvcc_array_of(t, sets),
    ensures
        off + 3 <= rec.len(),
        ps_walk(rec, off + 3, be16(rec[off + 1int], rec[off + 2int])) == Some(
            (annexb_join(sets), off + hvcc_array_of(t, sets).len()),
        ),
{
    let arr = hvcc_array_of(t, sets);
    lemma_subrange_within(rec, off as int, arr, 1, 3);
    assert(arr.subrange(1, 3) =~= be16_bytes(sets.len()));
    assert(rec[off + 1int] == rec.subrange(off + 1int, off + 3int)[0]);
    assert(rec[off + 2int] == rec.subrange(off + 1int, off + 3int)[1]);
    lemma_be16_round_trip(sets.len());
    lemma_subrange_within(rec, off as int, arr, 3, arr.len() as int);
    assert(arr.subrange(3, arr.len() as int) =~= be16_join(sets));
    lemma_ps_walk_reads(rec, off + 3, sets);
}

/// The hvcC record of VPS, SPS and PPS converts back to each after a start
/// code.
#[verifier::rlimit(40)]
proof fn lemma_hvcc_of_sets_to_annexb(vps: Seq<Seq<u8>>, sps: Seq<Seq<u8>>, pps: Seq<Seq<u8>>)
    requires
        hvcc_parameter_sets(vps, sps, pps),
    ensures
        spec_hvcc_extradata_to_annexb(hvcc_of_sets(vps, sps, pps)) == Some(
            annexb_join(vps) + annexb_join(sps) + annexb_join(pps),
        ),
{
    let rec = hvcc_of_sets(vps, sps, pps);
    let av = if vps.len() > 0 { hvcc_array_of(32, vps) } else { Seq::<u8>::empty() };
    let a_s = hvcc_array_of(33, sps);
    let ap = hvcc_array_of(34, pps);
    assert forall|i: int| 0 <= i < vps.len() implies (#[trigger] vps[i]).len() < 0x1_0000 by {}
    assert forall|i: int| 0 <= i < sps.len() implies (#[trigger] sps[i]).len() < 0x1_0000 by {}
    assert forall|i: int| 0 <= i < pps.len() implies (#[trigger] pps[i]).len() < 0x1_0000 by {}
    assert(rec =~= hvcc_header() + seq![if vps.len() > 0 { 3u8 } else { 2u8 }] + av + a_s + ap);
    assert(rec[0] == 1);
    let o1: nat = 23 + av.len();
    let o2: nat = o1 + a_s.len();
    let o3: nat = o2 + ap.len();
    assert(rec.len() == o3);
    assert(rec.subrange(o1 as int, o2 as int) =~= a_s);
    assert(rec.subrange(o2 as int, o3 as int) =~= ap);
    lemma_array_reads(rec, o1, 33, sps);
    lemma_array_reads(rec, o2, 34, pps);
    assert(array_walk(rec, o3, 0) == Some(Seq::<u8>::empty()));
    assert(array_walk(rec, o2, 1) == Some(annexb_join(pps) + Seq::<u8>::empty()));
    assert(annexb_join(pps) + Seq::<u8>::empty() =~= annexb_join(pps));
    assert(array_walk(rec, o1, 2) == Some(annexb_join(sps) + annexb_join(pps)));
    lemma_annexb_join_front(sps);
    if vps.len() > 0 {
        assert(rec[22] == 3u8);
        assert(rec.subrange(23, o1 as int) =~= av);
        lemma_array_reads(rec, 23, 32, vps);
        assert(array_walk(rec, 23, 3) == Some(
            annexb_join(vps) + (annexb_join(sps) + annexb_join(pps)),
        ));
        assert(annexb_join(vps) + (annexb_join(sps) + annexb_join(pps)) =~= annexb_join(vps)
            + annexb_join(sps) + annexb_join(pps));
    } else {
        assert(rec[22] == 2u8);
        assert(o1 == 23);
        assert(annexb_join(vps) =~= Seq::<u8>::empty());
        assert(annexb_join(vps) + annexb_join(sps) + annexb_join(pps) =~= annexb_join(sps)
            + annexb_join(pps));
    }
}

/// HEVC parameter sets written as Annex B extradata (every VPS, then every
/// SPS, then every PPS, each after a 4-byte start code) come back unchanged
/// from a round trip through an hvcC record: converting to hvcC succeeds, and
/// converting that record back gives the original bytes. This holds for up
/// to 255 VPS, one to 255 SPS of at least six bytes and one to 255 PPS, each
/// unit shorter than 64 KiB, of its own NAL unit type (32, 33, 34), and
/// holding no `00 00 01`.
pub proof fn lemma_hvcc_extradata_round_trip(vps: Seq<Seq<u8>>, sps: Seq<Seq<u8>>, pps: Seq<Seq<u8>>)
    requires
        hvcc_parameter_sets(vps, sps, pps),
    ensures
        spec_annexb_extradata_to_hvcc(annexb_join(vps + sps + pps)) is Some,
        spec_hvcc_extradata_to_annexb(
            spec_annexb_extradata_to_hvcc(annexb_join(vps + sps + pps))->0,
        ) == Some(annexb_join(vps + sps + pps)),
{
    lemma_annexb_to_hvcc_of_sets(vps, sps, pps);
    lemma_hvcc_of_sets_to_annexb(vps, sps, pps);
    assert(hvcc_units(vps, sps, pps) == vps + sps + pps);
    lemma_annexb_join_concat(vps, sps);
    lemma_annexb_join_concat(vps + sps, pps);
}

} // verus!
