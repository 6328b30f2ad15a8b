//! AV1 extradata: recognising an av1C record and building one from raw OBUs
//! (the sequence header OBU carried as the record's config OBUs).

use vstd::prelude::*;
use vstd::slice::slice_to_vec;
use crate::bytes::{extend_bytes, opt_bytes};

verus! {

/// Whether extradata is already an av1C record: four bytes or more, opening
/// with marker 1 and version 1 (0x81).
pub open spec fn spec_is_av1c_extradata(d: Seq<u8>) -> bool {
    d.len() >= 4 && d[0] == 0x81
}

/// Check if extradata is already in av1C format.
pub fn is_av1c_extradata(data: &[u8]) -> (r: bool)
    ensures
        r == spec_is_av1c_extradata(data@),
{
    data.len() >= 4 && data[0] == 0x81
}

/// 128 to the power `i`.
pub open spec fn pow128(i: nat) -> nat
    decreases i,
{
    if i == 0 {
        1
    } else {
        128 * pow128((i - 1) as nat)
    }
}

/// How many bytes a LEB128 number at the front of `d` takes, counting from
/// byte `i`: up to the first byte without the continuation bit, at most
/// eight, and no more than `d` holds.
pub open spec fn leb_len_from(d: Seq<u8>, i: nat) -> nat
    decreases 8 - i,
{
    if i >= 8 || i >= d.len() {
        i
    } else if d[i as int] < 128 {
        i + 1
    } else {
        leb_len_from(d, i + 1)
    }
}

/// The length of the LEB128 number at the front of `d`.
pub open spec fn leb_len(d: Seq<u8>) -> nat {
    leb_len_from(d, 0)
}

/// The value of the first `k` LEB128 bytes of `d`: seven bits from each,
/// least significant group first.
pub open spec fn leb_value(d: Seq<u8>, k: nat) -> nat
    decreases k,
{
    if k == 0 {
        0
    } else {
        leb_value(d, (k - 1) as nat) + (d[k - 1] % 128) as nat * pow128((k - 1) as nat)
    }
}

proof fn lemma_pow128_values()
    ensures
        pow128(0) == 1,
        pow128(1) == 0x80,
        pow128(2) == 0x4000,
        pow128(3) == 0x20_0000,
        pow128(4) == 0x1000_0000,
        pow128(5) == 0x8_0000_0000,
        pow128(6) == 0x400_0000_0000,
        pow128(7) == 0x2_0000_0000_0000,
{
    reveal_with_fuel(pow128, 8);
}

proof fn lemma_leb_len_from(d: Seq<u8>, i: nat)
    requires
        i <= 8,
        i <= d.len(),
    ensures
        i <= leb_len_from(d, i) <= 8,
        leb_len_from(d, i) <= d.len(),
    decreases 8 - i,
{
    if i < 8 && i < d.len() && d[i as int] >= 128 {
        lemma_leb_len_from(d, i + 1);
    }
}

/// Read an unsigned LEB128 number: `None` for empty input, otherwise the
/// value and the number of bytes it took.
fn read_leb128(data: &[u8]) -> (r: Option<(u64, usize)>)
    ensures
        r is None <==> data@.len() == 0,
        r matches Some((v, n)) ==> n as nat == leb_len(data@) && v as nat == leb_value(
            data@,
            n as nat,
        ),
{
    let mut value: u64 = 0;
    let mut mult: u64 = 1;
    let mut i: usize = 0;
    while i < 8 && i < data.len()
        invariant
            i <= 8,
            i <= data@.len(),
            leb_len(data@) == leb_len_from(data@, i as nat),
            mult as nat == pow128(i as nat),
            value as nat == leb_value(data@, i as nat),
            value < mult,
            mult <= 0x100_0000_0000_0000,
        decreases 8 - i,
    {
        let byte = data[i];
        let low = (byte % 128) as u64;
        proof {
            lemma_pow128_values();
            assert(i == 0 || i == 1 || i == 2 || i == 3 || i == 4 || i == 5 || i == 6 || i == 7);
        }
        assert(value + low * mult < 128 * mult) by (nonlinear_arith)
            requires
                value < mult,
                low < 128,
        ;
        assert(pow128((i + 1) as nat) == 128 * pow128(i as nat));
        value = value + low * mult;
        if byte < 128 {
            i = i + 1;
            return Some((value, i));
        }
        mult = mult * 128;
        i = i + 1;
    }
    if i == 0 {
        return None;
    }
    Some((value, i))
}

/// The first sequence header OBU (type 1) in raw OBU data, as a byte range,
/// walking OBUs from `off`. An OBU with the forbidden bit set, or whose
/// header runs past the end, ends the walk with `None`; an OBU without a
/// size field takes the rest of the data; a sequence header that does not
/// fit is skipped, and the walk ends when the next OBU would start at or
/// past the end.
pub open spec fn find_seq_header(d: Seq<u8>, off: nat) -> Option<(nat, nat)>
    decreases d.len() - off,
{
    if off >= d.len() {
        None
    } else {
        let h = d[off as int];
        let ext = (h / 4) % 2 == 1;
        let has_size = (h / 2) % 2 == 1;
        let hs1: nat = if ext {
            2
        } else {
            1
        };
        if h >= 128 {
            None
        } else if ext && off + 1 >= d.len() {
            None
        } else if has_size && off + hs1 >= d.len() {
            None
        } else {
            let tail = d.subrange((off + hs1) as int, d.len() as int);
            let hs: nat = if has_size {
                hs1 + leb_len(tail)
            } else {
                hs1
            };
            let size: nat = if has_size {
                leb_value(tail, leb_len(tail))
            } else {
                (d.len() - (off + hs1)) as nat
            };
            let end = off + hs + size;
            if (h / 8) % 16 == 1 && end <= d.len() {
                Some((off, end))
            } else if end >= d.len() {
                None
            } else {
                find_seq_header(d, end)
            }
        }
    }
}

/// Find the sequence header OBU in raw AV1 OBU data.
fn find_sequence_header_obu(data: &[u8]) -> (r: Option<Vec<u8>>)
    ensures
        opt_bytes(r) == match find_seq_header(data@, 0) {
            Some((s, e)) => Some(data@.subrange(s as int, e as int)),
            None => None,
        },
{
    let mut offset: usize = 0;
    while offset < data.len()
        invariant
            find_seq_header(data@, 0) == find_seq_header(data@, offset as nat),
        decreases data@.len() - offset,
    {
        let header = data[offset];
        if header >= 128 {
            return None;
        }
        let obu_type = (header / 8) % 16;
        let has_extension = (header / 4) % 2 == 1;
        let has_size = (header / 2) % 2 == 1;
        let mut header_size: usize = 1;
        if has_extension {
            if data.len() - offset <= header_size {
                return None;
            }
            header_size = header_size + 1;
        }
        let obu_size: u64 = if has_size {
            if data.len() - offset <= header_size {
                return None;
            }
            let tail = &data[offset + header_size..data.len()];
            proof {
                lemma_leb_len_from(tail@, 0);
            }
            match read_leb128(tail) {
                Some((size, bytes_read)) => {
                    header_size = header_size + bytes_read;
                    size
                },
                None => {
                    return None;
                },
            }
        } else {
            (data.len() - (offset + header_size)) as u64
        };
        let end = match (offset as u64).checked_add(header_size as u64) {
            Some(x) => match x.checked_add(obu_size) {
                Some(y) => y,
                None => {
                    return None;
                },
            },
            None => {
                return None;
            },
        };
        if obu_type == 1 && end <= data.len() as u64 {
            return Some(slice_to_vec(&data[offset..end as usize]));
        }
        if end >= data.len() as u64 {
            return None;
        }
        offset = end as usize;
    }
    None
}

/// Where the payload of a sequence header OBU starts: after the header byte,
/// the extension byte when flagged, and the size field when present; `None`
/// when a flagged part is missing.
pub open spec fn payload_offset(o: Seq<u8>) -> Option<nat> {
    if o.len() == 0 {
        None
    } else {
        let h = o[0];
        let ext = (h / 4) % 2 == 1;
        let has_size = (h / 2) % 2 == 1;
        let p1: nat = if ext {
            2
        } else {
            1
        };
        if ext && 1 >= o.len() {
            None
        } else if has_size && p1 >= o.len() {
            None
        } else if has_size {
            Some(p1 + leb_len(o.subrange(p1 as int, o.len() as int)))
        } else {
            Some(p1)
        }
    }
}

/// Get the payload offset within a sequence header OBU.
fn get_seq_header_payload_offset(obu_data: &[u8]) -> (r: Option<usize>)
    ensures
        match r {
            Some(p) => payload_offset(obu_data@) == Some(p as nat),
            None => payload_offset(obu_data@) is None,
        },
{
    if obu_data.len() == 0 {
        return None;
    }
    let header = obu_data[0];
    let has_extension = (header / 4) % 2 == 1;
    let has_size = (header / 2) % 2 == 1;
    let mut offset: usize = 1;
    if has_extension {
        if offset >= obu_data.len() {
            return None;
        }
        offset = offset + 1;
    }
    if has_size {
        if offset >= obu_data.len() {
            return None;
        }
        match read_leb128(&obu_data[offset..obu_data.len()]) {
            Some((_, bytes_read)) => {
                proof {
                    lemma_leb_len_from(obu_data@.subrange(offset as int, obu_data@.len() as int), 0);
                }
                offset = offset + bytes_read;
            },
            None => {
                return None;
            },
        }
    }
    Some(offset)
}

/// Byte 2 of an av1C record for a profile: tier 0; 10-bit for the
/// professional profile; 4:4:4 for the high profile, 4:2:0 otherwise.
pub open spec fn av1c_color_byte(profile: u8) -> u8 {
    if profile == 1 {
        0x00
    } else if profile == 2 {
        0x4c
    } else {
        0x0c
    }
}

/// Raw OBU extradata to an av1C record: data already in av1C form is kept;
/// otherwise the sequence header OBU is found, its profile read from the top
/// three bits of the payload, level 4.0 assumed, and the OBU appended.
pub open spec fn spec_obu_extradata_to_av1c(d: Seq<u8>) -> Option<Seq<u8>> {
    if d.len() == 0 {
        None
    } else if spec_is_av1c_extradata(d) {
        Some(d)
    } else {
        match find_seq_header(d, 0) {
            None => None,
            Some((s, e)) => {
                let o = d.subrange(s as int, e as int);
                match payload_offset(o) {
                    None => None,
                    Some(p) => if p >= o.len() {
                        None
                    } else {
                        let profile = o[p as int] / 32;
                        Some(
                            seq![0x81u8, (profile * 32 + 8) as u8, av1c_color_byte(profile), 0u8]
                                + o,
                        )
                    },
                }
            },
        }
    }
}

/// Convert raw AV1 OBU extradata to an av1C record.
pub fn convert_obu_extradata_to_av1c(data: &[u8]) -> (r: Option<Vec<u8>>)
    ensures
        opt_bytes(r) == spec_obu_extradata_to_av1c(data@),
{
    if data.len() == 0 {
        return None;
    }
    if is_av1c_extradata(data) {
        return Some(slice_to_vec(data));
    }
    let seq_header_obu = match find_sequence_header_obu(data) {
        Some(o) => o,
        None => {
            return None;
        },
    };
    let payload_offset = match get_seq_header_payload_offset(seq_header_obu.as_slice()) {
        Some(p) => p,
        None => {
            return None;
        },
    };
    if payload_offset >= seq_header_obu.len() {
        return None;
    }
    let seq_profile = seq_header_obu[payload_offset] / 32;
    let color = if seq_profile == 1 {
        0x00u8
    } else if seq_profile == 2 {
        0x4Cu8
    } else {
        0x0Cu8
    };
    let mut result: Vec<u8> = Vec::new();
    result.push(0x81);
    result.push(seq_profile * 32 + 8);
    result.push(color);
    result.push(0x00);
    extend_bytes(&mut result, seq_header_obu.as_slice());
    proof {
        assert(result@ =~= seq![0x81u8, (seq_profile * 32 + 8) as u8, color, 0u8] + seq_header_obu@);
    }
    Some(result)
}

} // verus!
