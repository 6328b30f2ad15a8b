//! Parser for WebCodecs codec strings such as `vp09.PP.LL.DD`, `av01.P.LLT.DD`,
//! `avc1.PPCCLL` and `hev1.P.T.Lxxx`, and the mapping of their profile and
//! level fields to the media framework's numbering.
//!
//! The codec family is recognised by comparing the leading characters without
//! regard to ASCII case; no character outside ASCII lowercases to the letters
//! and digits of these prefixes, so this is the same as lowercasing first.

use vstd::prelude::*;
use vstd::string::StringSliceAdditionalSpecFns;
use crate::codec_id::AVCodecID;
use crate::text::{
    ascii_lower, dec2, hex2, lemma_parse_dec2, lemma_parse_hex2, lemma_split_concat,
    lemma_split_none,
    bytes_equal, bytes_equal_ci, bytes_start_with_ci, equals_ci, parse_u8_dec, parse_u8_hex,
    parse_u8_radix_bytes, split_on, split_ranges, starts_with_ci, DOT,
};

verus! {

/// Parsed codec information extracted from a codec string.
#[derive(Debug, Clone, Copy, PartialEq, Eq)]
pub struct ParsedCodec {
    /// The codec identifier.
    pub codec_id: AVCodecID,
    /// Profile number (codec-specific interpretation).
    pub profile: Option<u8>,
    /// Level value (codec-specific).
    pub level: Option<u8>,
    /// Bit depth (8, 10 or 12).
    pub bit_depth: Option<u8>,
    /// Chroma subsampling (420, 422, 444, 440).
    pub chroma_subsampling: Option<u16>,
}

/// A parsed codec that carries only its identifier.
pub open spec fn parsed_of(codec_id: AVCodecID) -> ParsedCodec {
    ParsedCodec { codec_id, profile: None, level: None, bit_depth: None, chroma_subsampling: None }
}

impl ParsedCodec {
    /// A parsed codec with just the codec identifier.
    pub fn new(codec_id: AVCodecID) -> (p: Self)
        ensures
            p == parsed_of(codec_id),
    {
        ParsedCodec { codec_id, profile: None, level: None, bit_depth: None, chroma_subsampling: None }
    }
}

// ----------------------------------------------------------------------------
// Patterns
// ----------------------------------------------------------------------------

pub open spec fn pat_vp09() -> Seq<u8> {
    seq!['v' as u8, 'p' as u8, '0' as u8, '9' as u8]
}

pub open spec fn pat_vp9() -> Seq<u8> {
    seq!['v' as u8, 'p' as u8, '9' as u8]
}

pub open spec fn pat_av01() -> Seq<u8> {
    seq!['a' as u8, 'v' as u8, '0' as u8, '1' as u8]
}

pub open spec fn pat_av1() -> Seq<u8> {
    seq!['a' as u8, 'v' as u8, '1' as u8]
}

pub open spec fn pat_avc1() -> Seq<u8> {
    seq!['a' as u8, 'v' as u8, 'c' as u8, '1' as u8]
}

pub open spec fn pat_avc3() -> Seq<u8> {
    seq!['a' as u8, 'v' as u8, 'c' as u8, '3' as u8]
}

pub open spec fn pat_hev1() -> Seq<u8> {
    seq!['h' as u8, 'e' as u8, 'v' as u8, '1' as u8]
}

pub open spec fn pat_hvc1() -> Seq<u8> {
    seq!['h' as u8, 'v' as u8, 'c' as u8, '1' as u8]
}

pub open spec fn pat_vp8() -> Seq<u8> {
    seq!['v' as u8, 'p' as u8, '8' as u8]
}

// ----------------------------------------------------------------------------
// Specification of the parser
// ----------------------------------------------------------------------------

/// Piece `k` of `s` split on '.', when there are more than `k` pieces.
pub open spec fn field(s: Seq<u8>, k: int) -> Option<Seq<u8>> {
    let parts = split_on(s, DOT);
    if k < parts.len() {
        Some(parts[k])
    } else {
        None
    }
}

/// Decimal value of field `k`, when it exists and parses.
pub open spec fn field_dec(s: Seq<u8>, k: int) -> Option<u8> {
    match field(s, k) {
        Some(p) => parse_u8_dec(p),
        None => None,
    }
}

/// VP9 chroma subsampling code: 00=4:2:0, 01=4:2:2, 02=4:4:4, 03=4:4:0.
pub open spec fn vp9_chroma(p: Seq<u8>) -> Option<u16> {
    if p == seq!['0' as u8, '0' as u8] {
        Some(420)
    } else if p == seq!['0' as u8, '1' as u8] {
        Some(422)
    } else if p == seq!['0' as u8, '2' as u8] {
        Some(444)
    } else if p == seq!['0' as u8, '3' as u8] {
        Some(440)
    } else {
        None
    }
}

/// AV1 chroma subsampling code: 110=4:2:0, 100=4:2:2, 000=4:4:4.
pub open spec fn av1_chroma(p: Seq<u8>) -> Option<u16> {
    if p == seq!['1' as u8, '1' as u8, '0' as u8] {
        Some(420)
    } else if p == seq!['1' as u8, '0' as u8, '0' as u8] {
        Some(422)
    } else if p == seq!['0' as u8, '0' as u8, '0' as u8] {
        Some(444)
    } else {
        None
    }
}

/// `vp09.PP.LL.DD.CC...`: profile, level and bit depth are decimal fields 1-3;
/// field 4 is the chroma code.
pub open spec fn spec_parse_vp9(s: Seq<u8>) -> ParsedCodec {
    ParsedCodec {
        codec_id: AVCodecID::Vp9,
        profile: field_dec(s, 1),
        level: field_dec(s, 2),
        bit_depth: field_dec(s, 3),
        chroma_subsampling: match field(s, 4) {
            Some(p) => vp9_chroma(p),
            None => None,
        },
    }
}

/// Number of leading ASCII decimal digits of `s`.
pub open spec fn leading_digit_count(s: Seq<u8>) -> nat
    decreases s.len(),
{
    if s.len() > 0 && 48 <= s[0] && s[0] <= 57 {
        1 + leading_digit_count(s.drop_first())
    } else {
        0
    }
}

/// `av01.P.LLT.DD.M.CCC...`: the level is the run of digits that opens field 2;
/// field 5 is the chroma code.
pub open spec fn spec_parse_av1(s: Seq<u8>) -> ParsedCodec {
    ParsedCodec {
        codec_id: AVCodecID::Av1,
        profile: field_dec(s, 1),
        level: match field(s, 2) {
            Some(p) => parse_u8_dec(p.take(leading_digit_count(p) as int)),
            None => None,
        },
        bit_depth: field_dec(s, 3),
        chroma_subsampling: match field(s, 5) {
            Some(p) => av1_chroma(p),
            None => None,
        },
    }
}

/// `avc1.PPCCLL`: when field 1 has at least six bytes, its first two and its
/// fifth and sixth bytes are the hexadecimal profile and level. Always 8-bit.
pub open spec fn spec_parse_avc(s: Seq<u8>) -> ParsedCodec {
    let f = field(s, 1);
    let long = f matches Some(p) && p.len() >= 6;
    ParsedCodec {
        codec_id: AVCodecID::H264,
        profile: if long {
            parse_u8_hex(f.unwrap().subrange(0, 2))
        } else {
            None
        },
        level: if long {
            parse_u8_hex(f.unwrap().subrange(4, 6))
        } else {
            None
        },
        bit_depth: Some(8),
        chroma_subsampling: None,
    }
}

/// Field 3 of an HEVC string opened by 'L' or 'l'; the decimal level follows.
pub open spec fn hevc_level(p: Seq<u8>) -> Option<u8> {
    if p.len() > 0 && (p[0] == 'L' as u8 || p[0] == 'l' as u8) {
        parse_u8_dec(p.drop_first())
    } else {
        None
    }
}

/// `hev1.P.T.Lxxx`: decimal profile in field 1 (profile 2 means 10-bit, any
/// other parsed profile 8-bit); level after the 'L' of field 3.
pub open spec fn spec_parse_hevc(s: Seq<u8>) -> ParsedCodec {
    let profile = field_dec(s, 1);
    ParsedCodec {
        codec_id: AVCodecID::Hevc,
        profile,
        level: match field(s, 3) {
            Some(p) => hevc_level(p),
            None => None,
        },
        bit_depth: match profile {
            Some(p) => if p == 2 {
                Some(10u8)
            } else {
                Some(8u8)
            },
            None => None,
        },
        chroma_subsampling: None,
    }
}

/// What `parse_codec_string` yields for the bytes `s` of a codec string.
pub open spec fn spec_parse_codec_string(s: Seq<u8>) -> Option<ParsedCodec> {
    if starts_with_ci(s, pat_vp09()) {
        Some(spec_parse_vp9(s))
    } else if equals_ci(s, pat_vp9()) {
        Some(parsed_of(AVCodecID::Vp9))
    } else if starts_with_ci(s, pat_av01()) {
        Some(spec_parse_av1(s))
    } else if equals_ci(s, pat_av1()) {
        Some(parsed_of(AVCodecID::Av1))
    } else if starts_with_ci(s, pat_avc1()) || starts_with_ci(s, pat_avc3()) {
        Some(spec_parse_avc(s))
    } else if starts_with_ci(s, pat_hev1()) || starts_with_ci(s, pat_hvc1()) {
        Some(spec_parse_hevc(s))
    } else if equals_ci(s, pat_vp8()) {
        Some(parsed_of(AVCodecID::Vp8))
    } else {
        None
    }
}

/// A byte that continues a multi-byte UTF-8 sequence; a string cannot be cut
/// in front of one.
pub open spec fn is_utf8_continuation(b: u8) -> bool {
    128 <= b && b < 192
}

// ----------------------------------------------------------------------------
// Implementation
// ----------------------------------------------------------------------------

/// Bytes of piece `k` of a split.
fn piece<'a>(s: &'a [u8], parts: &Vec<(usize, usize)>, k: usize) -> (r: &'a [u8])
    requires
        parts@.len() == split_on(s@, DOT).len(),
        forall|j: int|
            0 <= j < parts@.len() ==> {
                &&& (#[trigger] parts@[j]).0 <= parts@[j].1
                &&& parts@[j].1 <= s@.len()
                &&& s@.subrange(parts@[j].0 as int, parts@[j].1 as int) == split_on(s@, DOT)[j]
            },
        k < parts@.len(),
    ensures
        r@ == split_on(s@, DOT)[k as int],
        field(s@, k as int) == Some(r@),
{
    let (a, b) = parts[k];
    &s[a..b]
}

fn chroma_vp9(p: &[u8]) -> (r: Option<u16>)
    ensures
        r == vp9_chroma(p@),
{
    if bytes_equal(p, &['0' as u8, '0' as u8]) {
        Some(420)
    } else if bytes_equal(p, &['0' as u8, '1' as u8]) {
        Some(422)
    } else if bytes_equal(p, &['0' as u8, '2' as u8]) {
        Some(444)
    } else if bytes_equal(p, &['0' as u8, '3' as u8]) {
        Some(440)
    } else {
        None
    }
}

fn chroma_av1(p: &[u8]) -> (r: Option<u16>)
    ensures
        r == av1_chroma(p@),
{
    if bytes_equal(p, &['1' as u8, '1' as u8, '0' as u8]) {
        Some(420)
    } else if bytes_equal(p, &['1' as u8, '0' as u8, '0' as u8]) {
        Some(422)
    } else if bytes_equal(p, &['0' as u8, '0' as u8, '0' as u8]) {
        Some(444)
    } else {
        None
    }
}

/// Parse a VP9 codec string: `vp09.PP.LL.DD.CC.cp.tc.mc.FF`.
fn parse_vp9(codec: &[u8]) -> (r: ParsedCodec)
    ensures
        r == spec_parse_vp9(codec@),
{
    let parts = split_ranges(codec, DOT);
    let mut parsed = ParsedCodec::new(AVCodecID::Vp9);
    if parts.len() >= 2 {
        parsed.profile = parse_u8_radix_bytes(piece(codec, &parts, 1), 10);
    }
    if parts.len() >= 3 {
        parsed.level = parse_u8_radix_bytes(piece(codec, &parts, 2), 10);
    }
    if parts.len() >= 4 {
        parsed.bit_depth = parse_u8_radix_bytes(piece(codec, &parts, 3), 10);
    }
    if parts.len() >= 5 {
        parsed.chroma_subsampling = chroma_vp9(piece(codec, &parts, 4));
    }
    parsed
}

/// Number of leading ASCII digits.
fn count_leading_digits(s: &[u8]) -> (n: usize)
    ensures
        n == leading_digit_count(s@),
        n <= s@.len(),
{
    let mut i: usize = 0;
    assert(s@.skip(0) =~= s@);
    while i < s.len() && 48 <= s[i] && s[i] <= 57
        invariant
            i <= s.len(),
            leading_digit_count(s@) == i + leading_digit_count(s@.skip(i as int)),
        decreases s.len() - i,
    {
        proof {
            assert(s@.skip(i as int).drop_first() =~= s@.skip(i + 1));
        }
        i = i + 1;
    }
    proof {
        if i < s.len() {
            assert(s@.skip(i as int)[0] == s@[i as int]);
        }
    }
    i
}

/// Parse an AV1 codec string: `av01.P.LLT.DD.M.CCC.cp.tc.mc.F`.
fn parse_av1(codec: &[u8]) -> (r: ParsedCodec)
    ensures
        r == spec_parse_av1(codec@),
{
    let parts = split_ranges(codec, DOT);
    let mut parsed = ParsedCodec::new(AVCodecID::Av1);
    if parts.len() >= 2 {
        parsed.profile = parse_u8_radix_bytes(piece(codec, &parts, 1), 10);
    }
    if parts.len() >= 3 {
        let level_tier = piece(codec, &parts, 2);
        let n = count_leading_digits(level_tier);
        parsed.level = parse_u8_radix_bytes(&level_tier[0..n], 10);
        assert(level_tier@.subrange(0, n as int) =~= level_tier@.take(n as int));
    }
    if parts.len() >= 4 {
        parsed.bit_depth = parse_u8_radix_bytes(piece(codec, &parts, 3), 10);
    }
    if parts.len() >= 6 {
        parsed.chroma_subsampling = chroma_av1(piece(codec, &parts, 5));
    }
    parsed
}

/// Parse an H.264 codec string: `avc1.PPCCLL`.
fn parse_avc(codec: &[u8]) -> (r: ParsedCodec)
    ensures
        r == spec_parse_avc(codec@),
{
    let parts = split_ranges(codec, DOT);
    let mut parsed = ParsedCodec::new(AVCodecID::H264);
    if parts.len() >= 2 {
        let hex = piece(codec, &parts, 1);
        if hex.len() >= 6 {
            parsed.profile = parse_u8_radix_bytes(&hex[0..2], 16);
            parsed.level = parse_u8_radix_bytes(&hex[4..6], 16);
        }
    }
    parsed.bit_depth = Some(8);
    parsed
}

/// Parse an HEVC codec string: `hev1.P.TC.Lxxx.Bx`.
fn parse_hevc(codec: &[u8]) -> (r: ParsedCodec)
    ensures
        r == spec_parse_hevc(codec@),
{
    let parts = split_ranges(codec, DOT);
    let mut parsed = ParsedCodec::new(AVCodecID::Hevc);
    if parts.len() >= 2 {
        let profile = parse_u8_radix_bytes(piece(codec, &parts, 1), 10);
        if let Some(p) = profile {
            parsed.profile = Some(p);
            if p == 2 {
                parsed.bit_depth = Some(10);
            } else {
                parsed.bit_depth = Some(8);
            }
        }
    }
    if parts.len() >= 4 {
        let level_str = piece(codec, &parts, 3);
        if level_str.len() > 0 && (level_str[0] == 'L' as u8 || level_str[0] == 'l' as u8) {
            parsed.level = parse_u8_radix_bytes(&level_str[1..level_str.len()], 10);
            assert(level_str@.subrange(1, level_str@.len() as int) =~= level_str@.drop_first());
        }
    }
    parsed
}

/// Parse a WebCodecs codec string into structured information.
///
/// Supported forms: `vp09.PP.LL.DD.CC...` or `vp9`; `av01.P.LLT.DD.M.CCC...`
/// or `av1`; `avc1.PPCCLL` or `avc3.PPCCLL`; `hev1.P.T.Lxxx` or `hvc1...`;
/// `vp8`. Returns `None` when the string is not recognised.
pub fn parse_codec_string(codec: &str) -> (r: Option<ParsedCodec>)
    ensures
        r == spec_parse_codec_string(codec.spec_bytes()),
{
    let s = codec.as_bytes();
    if bytes_start_with_ci(s, &['v' as u8, 'p' as u8, '0' as u8, '9' as u8]) {
        return Some(parse_vp9(s));
    }
    if bytes_equal_ci(s, &['v' as u8, 'p' as u8, '9' as u8]) {
        return Some(ParsedCodec::new(AVCodecID::Vp9));
    }
    if bytes_start_with_ci(s, &['a' as u8, 'v' as u8, '0' as u8, '1' as u8]) {
        return Some(parse_av1(s));
    }
    if bytes_equal_ci(s, &['a' as u8, 'v' as u8, '1' as u8]) {
        return Some(ParsedCodec::new(AVCodecID::Av1));
    }
    if bytes_start_with_ci(s, &['a' as u8, 'v' as u8, 'c' as u8, '1' as u8]) || bytes_start_with_ci(
        s,
        &['a' as u8, 'v' as u8, 'c' as u8, '3' as u8],
    ) {
        return Some(parse_avc(s));
    }
    if bytes_start_with_ci(s, &['h' as u8, 'e' as u8, 'v' as u8, '1' as u8]) || bytes_start_with_ci(
        s,
        &['h' as u8, 'v' as u8, 'c' as u8, '1' as u8],
    ) {
        return Some(parse_hevc(s));
    }
    if bytes_equal_ci(s, &['v' as u8, 'p' as u8, '8' as u8]) {
        return Some(ParsedCodec::new(AVCodecID::Vp8));
    }
    None
}

// ----------------------------------------------------------------------------
// Profile and level numbering
// ----------------------------------------------------------------------------

/// The framework's H.264 profile number: the `profile_idc` itself for
/// Baseline (66), Main (77), Extended (88), High (100), High 10 (110),
/// High 4:2:2 (122) and High 4:4:4 Predictive (244); otherwise -1.
pub fn avc_profile_to_ffmpeg(profile_idc: u8) -> (r: i32)
    ensures
        r == (if profile_idc == 66 || profile_idc == 77 || profile_idc == 88 || profile_idc == 100
            || profile_idc == 110 || profile_idc == 122 || profile_idc == 244 {
            profile_idc as i32
        } else {
            -1i32
        }),
{
    match profile_idc {
        66 => 66,
        77 => 77,
        88 => 88,
        100 => 100,
        110 => 110,
        122 => 122,
        244 => 244,
        _ => -1,
    }
}

/// The framework's VP9 profile number: 0-3 map to themselves, anything else to 0.
pub fn vp9_profile_to_ffmpeg(profile: u8) -> (r: i32)
    ensures
        r == (if profile <= 3 {
            profile as i32
        } else {
            0i32
        }),
{
    match profile {
        0 => 0,
        1 => 1,
        2 => 2,
        3 => 3,
        _ => 0,
    }
}

/// The framework's AV1 profile number: 0-2 map to themselves, anything else to 0.
pub fn av1_profile_to_ffmpeg(profile: u8) -> (r: i32)
    ensures
        r == (if profile <= 2 {
            profile as i32
        } else {
            0i32
        }),
{
    match profile {
        0 => 0,
        1 => 1,
        2 => 2,
        _ => 0,
    }
}

/// The framework's HEVC profile number: 1-4 map to themselves, anything else to -1.
pub fn hevc_profile_to_ffmpeg(profile: u8) -> (r: i32)
    ensures
        r == (if 1 <= profile && profile <= 4 {
            profile as i32
        } else {
            -1i32
        }),
{
    match profile {
        1 => 1,
        2 => 2,
        3 => 3,
        4 => 4,
        _ => -1,
    }
}

/// H.264 levels are carried as `level * 10`, which is the framework's `level_idc`.
pub fn avc_level_to_ffmpeg(level: u8) -> (r: i32)
    ensures
        r == level as i32,
{
    level as i32
}

/// VP9 levels (10, 11, 20, ... 62) are passed through.
pub fn vp9_level_to_ffmpeg(level: u8) -> (r: i32)
    ensures
        r == level as i32,
{
    level as i32
}

/// AV1 levels (`seq_level_idx`, 0-23) are passed through.
pub fn av1_level_to_ffmpeg(level: u8) -> (r: i32)
    ensures
        r == level as i32,
{
    level as i32
}

/// HEVC levels are carried as `level * 30` and the framework counts
/// `level * 10`: the value is divided by three, rounding down.
pub fn hevc_level_to_ffmpeg(level: u8) -> (r: i32)
    ensures
        r == level as i32 / 3,
{
    level as i32 / 3
}

// ----------------------------------------------------------------------------
// Chroma subsampling codes
// ----------------------------------------------------------------------------

/// The chroma code of a `vp09` string is its fifth dot-separated field:
/// `00` is 4:2:0, `01` is 4:2:2, `02` is 4:4:4 and `03` is 4:4:0, whatever
/// the other fields hold; without that field there is no chroma
/// subsampling.
pub proof fn lemma_vp9_chroma_codes(s: Seq<u8>)
    requires
        starts_with_ci(s, pat_vp09()),
    ensures
        spec_parse_codec_string(s) is Some,
        spec_parse_codec_string(s)->0.codec_id == AVCodecID::Vp9,
        field(s, 4) == Some(seq!['0' as u8, '0' as u8]) ==> spec_parse_codec_string(s)->0.chroma_subsampling
            == Some(420u16),
        field(s, 4) == Some(seq!['0' as u8, '1' as u8]) ==> spec_parse_codec_string(s)->0.chroma_subsampling
            == Some(422u16),
        field(s, 4) == Some(seq!['0' as u8, '2' as u8]) ==> spec_parse_codec_string(s)->0.chroma_subsampling
            == Some(444u16),
        field(s, 4) == Some(seq!['0' as u8, '3' as u8]) ==> spec_parse_codec_string(s)->0.chroma_subsampling
            == Some(440u16),
        field(s, 4) is None ==> spec_parse_codec_string(s)->0.chroma_subsampling is None,
{
}

/// The chroma code of an `av01` string is its sixth dot-separated field:
/// `110` is 4:2:0, `100` is 4:2:2 and `000` is 4:4:4; without that field
/// there is no chroma subsampling.
pub proof fn lemma_av1_chroma_codes(s: Seq<u8>)
    requires
        starts_with_ci(s, pat_av01()),
    ensures
        spec_parse_codec_string(s) is Some,
        spec_parse_codec_string(s)->0.codec_id == AVCodecID::Av1,
        field(s, 5) == Some(seq!['1' as u8, '1' as u8, '0' as u8]) ==> spec_parse_codec_string(
            s,
        )->0.chroma_subsampling == Some(420u16),
        field(s, 5) == Some(seq!['1' as u8, '0' as u8, '0' as u8]) ==> spec_parse_codec_string(
            s,
        )->0.chroma_subsampling == Some(422u16),
        field(s, 5) == Some(seq!['0' as u8, '0' as u8, '0' as u8]) ==> spec_parse_codec_string(
            s,
        )->0.chroma_subsampling == Some(444u16),
        field(s, 5) is None ==> spec_parse_codec_string(s)->0.chroma_subsampling is None,
{
    assert(!starts_with_ci(s, pat_vp09())) by {
        assert(ascii_lower(s[1]) == 'v' as u8);
    }
    assert(!equals_ci(s, pat_vp9())) by {
        assert(ascii_lower(s[0]) == 'a' as u8);
    }
}

// ----------------------------------------------------------------------------
// What the fields of a codec string mean
// ----------------------------------------------------------------------------

/// `avc1.PPCCLL` / `avc3.PPCCLL`: the first two hexadecimal digits are the
/// profile, the last two the level (either case), whatever the two
/// constraint characters; H.264 is always 8-bit here.
pub proof fn lemma_avc_string_fields(
    prefix: Seq<u8>,
    profile: u8,
    constraints: Seq<u8>,
    level: u8,
    upper: bool,
)
    requires
        prefix == pat_avc1() || prefix == pat_avc3(),
        constraints.len() == 2,
        constraints[0] != DOT && constraints[1] != DOT,
    ensures
        spec_parse_codec_string(
            prefix + seq![DOT] + (hex2(profile, upper) + constraints + hex2(level, upper)),
        ) == Some(
            ParsedCodec {
                codec_id: AVCodecID::H264,
                profile: Some(profile),
                level: Some(level),
                bit_depth: Some(8u8),
                chroma_subsampling: None,
            },
        ),
{
    let params = hex2(profile, upper) + constraints + hex2(level, upper);
    let s = prefix + seq![DOT] + params;
    assert forall|i: int| 0 <= i < params.len() implies params[i] != DOT by {
        if i == 2 || i == 3 {
            assert(params[i] == constraints[i - 2]);
        }
    }
    lemma_split_none(prefix, DOT);
    lemma_split_none(params, DOT);
    lemma_split_concat(prefix, DOT, params);
    assert(split_on(s, DOT) =~= seq![prefix, params]);
    assert(field(s, 1) == Some(params));
    lemma_parse_hex2(profile, upper);
    lemma_parse_hex2(level, upper);
    assert(params.subrange(0, 2) =~= hex2(profile, upper));
    assert(params.subrange(4, 6) =~= hex2(level, upper));
    assert(ascii_lower(s[0]) == 'a' as u8);
    assert(ascii_lower(s[2]) == 'c' as u8);
    assert(!starts_with_ci(s, pat_vp09()));
    assert(!starts_with_ci(s, pat_av01()));
    assert(starts_with_ci(s, prefix));
}

/// `vp09.PP.LL.DD...`: the decimal fields one to three are the profile, the
/// level and the bit depth, whatever follows them.
pub proof fn lemma_vp9_string_fields(profile: u8, level: u8, depth: u8, rest: Seq<u8>)
    requires
        profile < 100,
        level < 100,
        depth < 100,
    ensures
        ({
            let s = pat_vp09() + seq![DOT] + (dec2(profile) + seq![DOT] + (dec2(level) + seq![DOT]
                + (dec2(depth) + seq![DOT] + rest)));
            &&& spec_parse_codec_string(s) is Some
            &&& spec_parse_codec_string(s)->0.codec_id == AVCodecID::Vp9
            &&& spec_parse_codec_string(s)->0.profile == Some(profile)
            &&& spec_parse_codec_string(s)->0.level == Some(level)
            &&& spec_parse_codec_string(s)->0.bit_depth == Some(depth)
        }),
{
    let d3 = dec2(depth) + seq![DOT] + rest;
    let d2 = dec2(level) + seq![DOT] + d3;
    let d1 = dec2(profile) + seq![DOT] + d2;
    let s = pat_vp09() + seq![DOT] + d1;
    lemma_split_none(pat_vp09(), DOT);
    lemma_split_none(dec2(profile), DOT);
    lemma_split_none(dec2(level), DOT);
    lemma_split_none(dec2(depth), DOT);
    lemma_split_concat(dec2(depth), DOT, rest);
    lemma_split_concat(dec2(level), DOT, d3);
    lemma_split_concat(dec2(profile), DOT, d2);
    lemma_split_concat(pat_vp09(), DOT, d1);
    let parts = split_on(s, DOT);
    assert(parts[1] == dec2(profile));
    assert(parts[2] == dec2(level));
    assert(parts[3] == dec2(depth));
    lemma_parse_dec2(profile);
    lemma_parse_dec2(level);
    lemma_parse_dec2(depth);
    assert(starts_with_ci(s, pat_vp09()));
}

/// `hev1.P.T.Lnn...` / `hvc1...`: field one is the decimal profile (profile 2
/// is 10-bit, any other 8-bit) and the level follows the `L` of field three.
pub proof fn lemma_hevc_string_fields(
    prefix: Seq<u8>,
    profile: u8,
    tier: Seq<u8>,
    level: u8,
    rest: Seq<u8>,
)
    requires
        prefix == pat_hev1() || prefix == pat_hvc1(),
        profile < 100,
        level < 100,
        forall|i: int| 0 <= i < tier.len() ==> tier[i] != DOT,
    ensures
        ({
            let s = prefix + seq![DOT] + (dec2(profile) + seq![DOT] + (tier + seq![DOT] + ((
            seq!['L' as u8] + dec2(level)) + seq![DOT] + rest)));
            &&& spec_parse_codec_string(s) is Some
            &&& spec_parse_codec_string(s)->0.codec_id == AVCodecID::Hevc
            &&& spec_parse_codec_string(s)->0.profile == Some(profile)
            &&& spec_parse_codec_string(s)->0.level == Some(level)
            &&& spec_parse_codec_string(s)->0.bit_depth == Some(
                if profile == 2 {
                    10u8
                } else {
                    8u8
                },
            )
        }),
{
    let lv = seq!['L' as u8] + dec2(level);
    let d3 = lv + seq![DOT] + rest;
    let d2 = tier + seq![DOT] + d3;
    let d1 = dec2(profile) + seq![DOT] + d2;
    let s = prefix + seq![DOT] + d1;
    lemma_split_none(prefix, DOT);
    lemma_split_none(dec2(profile), DOT);
    lemma_split_none(tier, DOT);
    lemma_split_none(lv, DOT);
    lemma_split_concat(lv, DOT, rest);
    lemma_split_concat(tier, DOT, d3);
    lemma_split_concat(dec2(profile), DOT, d2);
    lemma_split_concat(prefix, DOT, d1);
    let parts = split_on(s, DOT);
    assert(parts[1] == dec2(profile));
    assert(parts[3] == lv);
    assert(lv.drop_first() =~= dec2(level));
    lemma_parse_dec2(profile);
    lemma_parse_dec2(level);
    assert(ascii_lower(s[0]) == 'h' as u8);
    assert(!starts_with_ci(s, pat_vp09()));
    assert(!starts_with_ci(s, pat_av01()));
    assert(!starts_with_ci(s, pat_avc1()));
    assert(!starts_with_ci(s, pat_avc3()));
    assert(starts_with_ci(s, prefix));
}

/// `av01.P.LLT.DD...`: field one is the profile, the digits that open field
/// two are the level (the tier letter after them is not), field three is the
/// bit depth.
pub proof fn lemma_av1_string_fields(profile: u8, level: u8, tier: u8, depth: u8, rest: Seq<u8>)
    requires
        profile < 100,
        level < 100,
        depth < 100,
        !(48 <= tier <= 57),
        tier != DOT,
    ensures
        ({
            let s = pat_av01() + seq![DOT] + (dec2(profile) + seq![DOT] + ((dec2(level) + seq![tier])
                + seq![DOT] + (dec2(depth) + seq![DOT] + rest)));
            &&& spec_parse_codec_string(s) is Some
            &&& spec_parse_codec_string(s)->0.codec_id == AVCodecID::Av1
            &&& spec_parse_codec_string(s)->0.profile == Some(profile)
            &&& spec_parse_codec_string(s)->0.level == Some(level)
            &&& spec_parse_codec_string(s)->0.bit_depth == Some(depth)
        }),
{
    let lt = dec2(level) + seq![tier];
    let d3 = dec2(depth) + seq![DOT] + rest;
    let d2 = lt + seq![DOT] + d3;
    let d1 = dec2(profile) + seq![DOT] + d2;
    let s = pat_av01() + seq![DOT] + d1;
    lemma_split_none(pat_av01(), DOT);
    lemma_split_none(dec2(profile), DOT);
    lemma_split_none(lt, DOT);
    lemma_split_none(dec2(depth), DOT);
    lemma_split_concat(dec2(depth), DOT, rest);
    lemma_split_concat(lt, DOT, d3);
    lemma_split_concat(dec2(profile), DOT, d2);
    lemma_split_concat(pat_av01(), DOT, d1);
    let parts = split_on(s, DOT);
    assert(parts[1] == dec2(profile));
    assert(parts[2] == lt);
    assert(parts[3] == dec2(depth));
    reveal_with_fuel(leading_digit_count, 3);
    assert(lt.drop_first().drop_first() =~= seq![tier]);
    assert(leading_digit_count(lt) == 2);
    assert(lt.take(2) =~= dec2(level));
    lemma_parse_dec2(profile);
    lemma_parse_dec2(level);
    lemma_parse_dec2(depth);
    assert(ascii_lower(s[0]) == 'a' as u8);
    assert(!starts_with_ci(s, pat_vp09()));
    assert(starts_with_ci(s, pat_av01()));
}

} // verus!
