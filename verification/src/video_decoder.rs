//! Video decoder rules: which codec strings a decoder accepts (case-sensitive,
//! per the WebCodecs codec registry), the limits on coded dimensions, and the
//! display events a VP9 chunk produces.

use vstd::prelude::*;
use vstd::string::StringSliceAdditionalSpecFns;
use std::collections::BTreeMap;
use crate::codec_id::AVCodecID;
use crate::codec_string::is_utf8_continuation;
use crate::error::{CodecError, ErrorStatus, js_type_error, trim, trim_str};
use crate::bytes::extend_bytes;
use crate::hardware::HardwareAcceleration;
use crate::bitstream::{
    convert_avcc_to_annexb, is_avcc_format, spec_avcc_to_annexb, spec_is_avcc_format,
    convert_avcc_extradata_to_annexb, convert_hvcc_extradata_to_annexb, is_avcc_extradata,
    is_hvcc_extradata, spec_avcc_extradata_to_annexb, spec_hvcc_extradata_to_annexb,
    spec_is_avcc_extradata, spec_is_hvcc_extradata,
};
use vstd::slice::slice_to_vec;
use crate::muxer_base::error_with_subject;
use crate::text::{
    bytes_equal, bytes_equal_ci, bytes_start_with, bytes_start_with_ci, equals_ci, parse_u8_dec,
    parse_u8_hex, parse_u8_radix_bytes, split_on, split_ranges, starts_with, starts_with_ci, DOT,
    lemma_split_nonempty, hex2, lemma_parse_hex2, dec2, lemma_parse_dec2, lemma_split_concat,
    lemma_split_none,
};

verus! {

// ----------------------------------------------------------------------------
// Codec string validation
// ----------------------------------------------------------------------------

/// H.264 profiles a decoder takes: Baseline, Main, Extended, High, High 10,
/// High 4:2:2, High 4:4:4 Predictive.
pub open spec fn avc_profile_ok(p: u8) -> bool {
    p == 66 || p == 77 || p == 88 || p == 100 || p == 110 || p == 122 || p == 244
}

/// H.264 levels a decoder takes: 1 to 1.3, then x.0 to x.2 for x in 2..=6.
pub open spec fn avc_level_ok(l: u8) -> bool {
    (10 <= l <= 13) || (20 <= l <= 22) || (30 <= l <= 32) || (40 <= l <= 42) || (50 <= l <= 52)
        || (60 <= l <= 62)
}

/// VP9 levels a decoder takes.
pub open spec fn vp9_level_ok(l: u8) -> bool {
    l == 10 || l == 11 || l == 20 || l == 21 || l == 30 || l == 31 || l == 40 || l == 41 || l == 50
        || l == 51 || l == 52 || l == 60 || l == 61 || l == 62
}

/// The bytes of `s` after byte 5 (after a five-byte prefix such as `avc1.`).
pub open spec fn after_prefix(s: Seq<u8>) -> Seq<u8> {
    s.subrange(5, s.len() as int)
}

/// `avc1.PPCCLL` / `avc3.PPCCLL` with a known profile and level (two hex
/// digits each), or exactly `avc1`, `avc3` or `h264`.
pub open spec fn spec_validate_avc(s: Seq<u8>) -> bool {
    if !starts_with(s, seq!['a' as u8, 'v' as u8, 'c' as u8, '1' as u8, '.' as u8]) && !starts_with(
        s,
        seq!['a' as u8, 'v' as u8, 'c' as u8, '3' as u8, '.' as u8],
    ) {
        s == seq!['a' as u8, 'v' as u8, 'c' as u8, '1' as u8] || s == seq![
            'a' as u8,
            'v' as u8,
            'c' as u8,
            '3' as u8,
        ] || s == seq!['h' as u8, '2' as u8, '6' as u8, '4' as u8]
    } else {
        let p = after_prefix(s);
        p.len() == 6 && match (parse_u8_hex(p.subrange(0, 2)), parse_u8_hex(p.subrange(4, 6))) {
            (Some(profile), Some(level)) => avc_profile_ok(profile) && avc_level_ok(level),
            _ => false,
        }
    }
}

/// The H.264 profiles a decoder takes: Baseline (66), Main (77), Extended
/// (88), High (100), High 10 (110), High 4:2:2 (122), High 4:4:4 (244).
pub open spec fn h264_profile_table() -> Set<u8> {
    set![66u8, 77u8, 88u8, 100u8, 110u8, 122u8, 244u8]
}

/// The H.264 levels a decoder takes: 1.0 to 1.3 and x.0 to x.2 for x from 2
/// to 6, written as ten times the level.
pub open spec fn h264_level_table() -> Set<u8> {
    set![
        10u8, 11u8, 12u8, 13u8, 20u8, 21u8, 22u8, 30u8, 31u8, 32u8, 40u8, 41u8, 42u8, 50u8, 51u8,
        52u8, 60u8, 61u8, 62u8,
    ]
}

/// `avc1.PPCCLL` and `avc3.PPCCLL` are valid for every profile and level of
/// the tables, whatever the two constraint characters and whichever case
/// the hexadecimal digits are written in; e.g. `avc1.4D401F` (Main, 3.1).
pub proof fn lemma_avc_table_accepted(profile: u8, constraints: Seq<u8>, level: u8, upper: bool)
    requires
        h264_profile_table().contains(profile),
        h264_level_table().contains(level),
        constraints.len() == 2,
    ensures
        spec_validate_avc(
            seq!['a' as u8, 'v' as u8, 'c' as u8, '1' as u8, '.' as u8] + hex2(profile, upper)
                + constraints + hex2(level, upper),
        ),
        spec_validate_avc(
            seq!['a' as u8, 'v' as u8, 'c' as u8, '3' as u8, '.' as u8] + hex2(profile, upper)
                + constraints + hex2(level, upper),
        ),
{
    lemma_parse_hex2(profile, upper);
    lemma_parse_hex2(level, upper);
    let params = hex2(profile, upper) + constraints + hex2(level, upper);
    assert(params.subrange(0, 2) =~= hex2(profile, upper));
    assert(params.subrange(4, 6) =~= hex2(level, upper));
    let s1 = seq!['a' as u8, 'v' as u8, 'c' as u8, '1' as u8, '.' as u8] + params;
    let s3 = seq!['a' as u8, 'v' as u8, 'c' as u8, '3' as u8, '.' as u8] + params;
    assert(after_prefix(s1) =~= params);
    assert(after_prefix(s3) =~= params);
    assert(starts_with(s1, seq!['a' as u8, 'v' as u8, 'c' as u8, '1' as u8, '.' as u8]));
    assert(starts_with(s3, seq!['a' as u8, 'v' as u8, 'c' as u8, '3' as u8, '.' as u8]));
    assert(s1 =~= seq!['a' as u8, 'v' as u8, 'c' as u8, '1' as u8, '.' as u8] + hex2(profile, upper)
        + constraints + hex2(level, upper));
    assert(s3 =~= seq!['a' as u8, 'v' as u8, 'c' as u8, '3' as u8, '.' as u8] + hex2(profile, upper)
        + constraints + hex2(level, upper));
}

/// Conversely, an accepted `avc1.`/`avc3.` string names a profile and a
/// level of the tables.
pub proof fn lemma_avc_accepted_in_table(s: Seq<u8>)
    requires
        starts_with(s, seq!['a' as u8, 'v' as u8, 'c' as u8, '1' as u8, '.' as u8]) || starts_with(
            s,
            seq!['a' as u8, 'v' as u8, 'c' as u8, '3' as u8, '.' as u8],
        ),
        spec_validate_avc(s),
    ensures
        s.len() == 11,
        parse_u8_hex(s.subrange(5, 7)) matches Some(p) && h264_profile_table().contains(p),
        parse_u8_hex(s.subrange(9, 11)) matches Some(l) && h264_level_table().contains(l),
{
    let p = after_prefix(s);
    assert(p.subrange(0, 2) =~= s.subrange(5, 7));
    assert(p.subrange(4, 6) =~= s.subrange(9, 11));
}

/// The VP9 levels a decoder takes, written as ten times the level.
pub open spec fn vp9_level_table() -> Set<u8> {
    set![10u8, 11u8, 20u8, 21u8, 30u8, 31u8, 40u8, 41u8, 50u8, 51u8, 52u8, 60u8, 61u8, 62u8]
}

/// `vp09.PP.LL...` is valid exactly when the profile is 0 to 3 and the level
/// is one of the table, whatever follows the level.
pub proof fn lemma_vp9_validation_table(profile: u8, level: u8, rest: Seq<u8>)
    requires
        profile < 100,
        level < 100,
    ensures
        spec_validate_vp9(
            seq!['v' as u8, 'p' as u8, '0' as u8, '9' as u8, '.' as u8] + (dec2(profile) + seq![DOT]
                + (dec2(level) + seq![DOT] + rest)),
        ) == (profile <= 3 && vp9_level_table().contains(level)),
{
    let d2 = dec2(level) + seq![DOT] + rest;
    let tail = dec2(profile) + seq![DOT] + d2;
    let s = seq!['v' as u8, 'p' as u8, '0' as u8, '9' as u8, '.' as u8] + tail;
    assert(after_prefix(s) =~= tail);
    lemma_split_none(dec2(profile), DOT);
    lemma_split_none(dec2(level), DOT);
    lemma_split_nonempty(rest, DOT);
    lemma_split_concat(dec2(level), DOT, rest);
    lemma_split_concat(dec2(profile), DOT, d2);
    let parts = split_on(tail, DOT);
    assert(parts[0] == dec2(profile));
    assert(parts[1] == dec2(level));
    lemma_parse_dec2(profile);
    lemma_parse_dec2(level);
    assert(s.len() != 3);
    assert(starts_with(s, seq!['v' as u8, 'p' as u8, '0' as u8, '9' as u8, '.' as u8]));
}

/// `av01.P.LLT...` is valid exactly when the profile is 0 to 2 and the two
/// digits that open field two (the level) are at most 23.
pub proof fn lemma_av1_validation_table(profile: u8, level: u8, tier: Seq<u8>, rest: Seq<u8>)
    requires
        profile < 100,
        level < 100,
        forall|i: int| 0 <= i < tier.len() ==> tier[i] != DOT,
    ensures
        spec_validate_av1(
            seq!['a' as u8, 'v' as u8, '0' as u8, '1' as u8, '.' as u8] + (dec2(profile) + seq![DOT]
                + ((dec2(level) + tier) + seq![DOT] + rest)),
        ) == (profile <= 2 && level <= 23),
{
    let lt = dec2(level) + tier;
    let d2 = lt + seq![DOT] + rest;
    let tail = dec2(profile) + seq![DOT] + d2;
    let s = seq!['a' as u8, 'v' as u8, '0' as u8, '1' as u8, '.' as u8] + tail;
    assert(after_prefix(s) =~= tail);
    assert forall|i: int| 0 <= i < lt.len() implies lt[i] != DOT by {
        if i >= 2 {
            assert(lt[i] == tier[i - 2]);
        }
    }
    lemma_split_none(dec2(profile), DOT);
    lemma_split_none(lt, DOT);
    lemma_split_nonempty(rest, DOT);
    lemma_split_concat(lt, DOT, rest);
    lemma_split_concat(dec2(profile), DOT, d2);
    let parts = split_on(tail, DOT);
    assert(parts[0] == dec2(profile));
    assert(parts[1] == lt);
    assert(lt.subrange(0, 2) =~= dec2(level));
    lemma_parse_dec2(profile);
    lemma_parse_dec2(level);
    assert(s.len() != 3 && s.len() != 4);
    assert(starts_with(s, seq!['a' as u8, 'v' as u8, '0' as u8, '1' as u8, '.' as u8]));
}

/// `hev1.P...` / `hvc1.P...` with a decimal profile field is valid exactly
/// when the profile is 1 to 4, whatever follows it.
pub proof fn lemma_hevc_validation_table(prefix: Seq<u8>, profile: u8, rest: Seq<u8>)
    requires
        prefix == seq!['h' as u8, 'e' as u8, 'v' as u8, '1' as u8, '.' as u8] || prefix == seq![
            'h' as u8,
            'v' as u8,
            'c' as u8,
            '1' as u8,
            '.' as u8,
        ],
        profile < 100,
    ensures
        spec_validate_hevc(prefix + (dec2(profile) + seq![DOT] + rest)) == (1 <= profile <= 4),
{
    let tail = dec2(profile) + seq![DOT] + rest;
    let s = prefix + tail;
    assert(after_prefix(s) =~= tail);
    lemma_split_none(dec2(profile), DOT);
    lemma_split_concat(dec2(profile), DOT, rest);
    let parts = split_on(tail, DOT);
    assert(parts[0] == dec2(profile));
    lemma_parse_dec2(profile);
    assert(s.len() != 4);
    assert(starts_with(s, prefix));
}

/// Validating an H.264 string slices its six parameter characters at bytes 2
/// and 4; each must be a character boundary.
pub open spec fn avc_validation_defined(s: Seq<u8>) -> bool {
    (starts_with(s, seq!['a' as u8, 'v' as u8, 'c' as u8, '1' as u8, '.' as u8]) || starts_with(
        s,
        seq!['a' as u8, 'v' as u8, 'c' as u8, '3' as u8, '.' as u8],
    )) && s.len() == 11 ==> !is_utf8_continuation(s[7]) && !is_utf8_continuation(s[9])
}

/// Validate an H.264 codec string.
pub fn validate_avc_codec(codec: &str) -> (r: bool)
    requires
        avc_validation_defined(codec.spec_bytes()),
    ensures
        r == spec_validate_avc(codec.spec_bytes()),
{
    let s = codec.as_bytes();
    if !bytes_start_with(s, &['a' as u8, 'v' as u8, 'c' as u8, '1' as u8, '.' as u8])
        && !bytes_start_with(s, &['a' as u8, 'v' as u8, 'c' as u8, '3' as u8, '.' as u8]) {
        return bytes_equal(s, &['a' as u8, 'v' as u8, 'c' as u8, '1' as u8]) || bytes_equal(
            s,
            &['a' as u8, 'v' as u8, 'c' as u8, '3' as u8],
        ) || bytes_equal(s, &['h' as u8, '2' as u8, '6' as u8, '4' as u8]);
    }
    let params = &s[5..s.len()];
    if params.len() != 6 {
        return false;
    }
    let profile = match parse_u8_radix_bytes(&params[0..2], 16) {
        Some(p) => p,
        None => {
            return false;
        },
    };
    let level = match parse_u8_radix_bytes(&params[4..6], 16) {
        Some(l) => l,
        None => {
            return false;
        },
    };
    (profile == 66 || profile == 77 || profile == 88 || profile == 100 || profile == 110 || profile
        == 122 || profile == 244) && ((10 <= level && level <= 13) || (20 <= level && level <= 22)
        || (30 <= level && level <= 32) || (40 <= level && level <= 42) || (50 <= level && level
        <= 52) || (60 <= level && level <= 62))
}

/// `vp09.PP.LL.BB[...]` with profile 0 to 3 and a known level, or exactly
/// `vp9`.
pub open spec fn spec_validate_vp9(s: Seq<u8>) -> bool {
    if s == seq!['v' as u8, 'p' as u8, '9' as u8] {
        true
    } else if !starts_with(s, seq!['v' as u8, 'p' as u8, '0' as u8, '9' as u8, '.' as u8]) {
        false
    } else {
        let parts = split_on(after_prefix(s), DOT);
        parts.len() >= 3 && match (parse_u8_dec(parts[0]), parse_u8_dec(parts[1])) {
            (Some(profile), Some(level)) => profile <= 3 && vp9_level_ok(level),
            _ => false,
        }
    }
}

/// Validate a VP9 codec string.
pub fn validate_vp9_codec(codec: &str) -> (r: bool)
    ensures
        r == spec_validate_vp9(codec.spec_bytes()),
{
    let s = codec.as_bytes();
    if bytes_equal(s, &['v' as u8, 'p' as u8, '9' as u8]) {
        return true;
    }
    if !bytes_start_with(s, &['v' as u8, 'p' as u8, '0' as u8, '9' as u8, '.' as u8]) {
        return false;
    }
    let params = &s[5..s.len()];
    let parts = split_ranges(params, DOT);
    if parts.len() < 3 {
        return false;
    }
    let (a0, b0) = parts[0];
    let (a1, b1) = parts[1];
    let profile = match parse_u8_radix_bytes(&params[a0..b0], 10) {
        Some(p) => p,
        None => {
            return false;
        },
    };
    let level = match parse_u8_radix_bytes(&params[a1..b1], 10) {
        Some(l) => l,
        None => {
            return false;
        },
    };
    profile <= 3 && (level == 10 || level == 11 || level == 20 || level == 21 || level == 30
        || level == 31 || level == 40 || level == 41 || level == 50 || level == 51 || level == 52
        || level == 60 || level == 61 || level == 62)
}

/// `av01.P.LLT.BB[...]` with profile at most 2 and level at most 23 (the
/// first two characters of field 1), or exactly `av1` or `av01`.
pub open spec fn spec_validate_av1(s: Seq<u8>) -> bool {
    if s == seq!['a' as u8, 'v' as u8, '1' as u8] || s == seq![
        'a' as u8,
        'v' as u8,
        '0' as u8,
        '1' as u8,
    ] {
        true
    } else if !starts_with(s, seq!['a' as u8, 'v' as u8, '0' as u8, '1' as u8, '.' as u8]) {
        false
    } else {
        let parts = split_on(after_prefix(s), DOT);
        parts.len() >= 3 && match parse_u8_dec(parts[0]) {
            Some(profile) => parts[1].len() >= 2 && match parse_u8_dec(parts[1].subrange(0, 2)) {
                Some(level) => profile <= 2 && level <= 23,
                None => false,
            },
            None => false,
        }
    }
}

/// Validating an AV1 string slices field 1 at byte 2 (once the profile
/// parsed); it must be a character boundary.
pub open spec fn av1_validation_defined(s: Seq<u8>) -> bool {
    starts_with(s, seq!['a' as u8, 'v' as u8, '0' as u8, '1' as u8, '.' as u8]) ==> {
        let parts = split_on(after_prefix(s), DOT);
        parts.len() >= 3 && parse_u8_dec(parts[0]) is Some && parts[1].len() > 2
            ==> !is_utf8_continuation(parts[1][2])
    }
}

/// Validate an AV1 codec string.
pub fn validate_av1_codec(codec: &str) -> (r: bool)
    requires
        av1_validation_defined(codec.spec_bytes()),
    ensures
        r == spec_validate_av1(codec.spec_bytes()),
{
    let s = codec.as_bytes();
    if bytes_equal(s, &['a' as u8, 'v' as u8, '1' as u8]) || bytes_equal(
        s,
        &['a' as u8, 'v' as u8, '0' as u8, '1' as u8],
    ) {
        return true;
    }
    if !bytes_start_with(s, &['a' as u8, 'v' as u8, '0' as u8, '1' as u8, '.' as u8]) {
        return false;
    }
    let params = &s[5..s.len()];
    let parts = split_ranges(params, DOT);
    if parts.len() < 3 {
        return false;
    }
    let (a0, b0) = parts[0];
    let (a1, b1) = parts[1];
    let profile = match parse_u8_radix_bytes(&params[a0..b0], 10) {
        Some(p) => p,
        None => {
            return false;
        },
    };
    let level_str = &params[a1..b1];
    if level_str.len() < 2 {
        return false;
    }
    let level = match parse_u8_radix_bytes(&level_str[0..2], 10) {
        Some(l) => l,
        None => {
            return false;
        },
    };
    profile <= 2 && level <= 23
}

/// An ASCII digit.
pub open spec fn is_ascii_digit(b: u8) -> bool {
    48 <= b <= 57
}

/// The profile number of an HEVC profile field: the whole field when it
/// opens with a digit ("1"), else what follows its first character ("A1").
pub open spec fn hevc_profile_number(p: Seq<u8>) -> Option<u8> {
    if p.len() > 0 && is_ascii_digit(p[0]) {
        parse_u8_dec(p)
    } else if p.len() >= 2 {
        parse_u8_dec(p.subrange(1, p.len() as int))
    } else {
        None
    }
}

/// `hvc1.P...` / `hev1.P...` with a profile number 1 to 4, or exactly
/// `hevc`, `h265`, `hvc1` or `hev1`.
pub open spec fn spec_validate_hevc(s: Seq<u8>) -> bool {
    if s == seq!['h' as u8, 'e' as u8, 'v' as u8, 'c' as u8] || s == seq![
        'h' as u8,
        '2' as u8,
        '6' as u8,
        '5' as u8,
    ] {
        true
    } else if !starts_with(s, seq!['h' as u8, 'v' as u8, 'c' as u8, '1' as u8, '.' as u8])
        && !starts_with(s, seq!['h' as u8, 'e' as u8, 'v' as u8, '1' as u8, '.' as u8]) {
        s == seq!['h' as u8, 'v' as u8, 'c' as u8, '1' as u8] || s == seq![
            'h' as u8,
            'e' as u8,
            'v' as u8,
            '1' as u8,
        ]
    } else {
        match hevc_profile_number(split_on(after_prefix(s), DOT)[0]) {
            Some(p) => 1 <= p <= 4,
            None => false,
        }
    }
}

/// Validating an HEVC string slices a profile field that opens with a letter
/// after its first character; that must be a character boundary.
pub open spec fn hevc_validation_defined(s: Seq<u8>) -> bool {
    starts_with(s, seq!['h' as u8, 'v' as u8, 'c' as u8, '1' as u8, '.' as u8]) || starts_with(
        s,
        seq!['h' as u8, 'e' as u8, 'v' as u8, '1' as u8, '.' as u8],
    ) ==> {
        let p = split_on(after_prefix(s), DOT)[0];
        p.len() >= 2 && !is_ascii_digit(p[0]) ==> !is_utf8_continuation(p[1])
    }
}

/// Validate an HEVC codec string.
pub fn validate_hevc_codec(codec: &str) -> (r: bool)
    requires
        hevc_validation_defined(codec.spec_bytes()),
    ensures
        r == spec_validate_hevc(codec.spec_bytes()),
{
    let s = codec.as_bytes();
    if bytes_equal(s, &['h' as u8, 'e' as u8, 'v' as u8, 'c' as u8]) || bytes_equal(
        s,
        &['h' as u8, '2' as u8, '6' as u8, '5' as u8],
    ) {
        return true;
    }
    if !bytes_start_with(s, &['h' as u8, 'v' as u8, 'c' as u8, '1' as u8, '.' as u8])
        && !bytes_start_with(s, &['h' as u8, 'e' as u8, 'v' as u8, '1' as u8, '.' as u8]) {
        return bytes_equal(s, &['h' as u8, 'v' as u8, 'c' as u8, '1' as u8]) || bytes_equal(
            s,
            &['h' as u8, 'e' as u8, 'v' as u8, '1' as u8],
        );
    }
    let params = &s[5..s.len()];
    let parts = split_ranges(params, DOT);
    proof {
        lemma_split_nonempty(params@, DOT);
    }
    let (a0, b0) = parts[0];
    let profile_part = &params[a0..b0];
    let profile_num = if profile_part.len() > 0 && 48 <= profile_part[0] && profile_part[0] <= 57 {
        parse_u8_radix_bytes(profile_part, 10)
    } else if profile_part.len() >= 2 {
        parse_u8_radix_bytes(&profile_part[1..profile_part.len()], 10)
    } else {
        None
    };
    match profile_num {
        Some(p) => 1 <= p && p <= 4,
        None => false,
    }
}

// ----------------------------------------------------------------------------
// Casing and the decoder's codec string
// ----------------------------------------------------------------------------

/// `s` ignoring ASCII case names `p` but is not spelled `p` exactly.
pub open spec fn miscased_equal(s: Seq<u8>, p: Seq<u8>) -> bool {
    equals_ci(s, p) && s != p
}

/// `s` ignoring ASCII case begins with `p` but does not begin with `p`.
pub open spec fn miscased_prefix(s: Seq<u8>, p: Seq<u8>) -> bool {
    starts_with_ci(s, p) && !starts_with(s, p)
}

/// Codec strings are case-sensitive and untrimmed: no surrounding
/// whitespace, and `vp8`, `vp9`, `vp09.`, `av01.`, `avc1`, `avc3`, `hvc1`,
/// `hev1` only in lowercase. (Only ASCII letters lowercase into these, so
/// ASCII case folding decides.)
pub open spec fn spec_valid_codec_casing(codec: &str) -> bool {
    let s = codec.spec_bytes();
    &&& trim(codec@) == codec@
    &&& !miscased_equal(s, seq!['v' as u8, 'p' as u8, '8' as u8])
    &&& !miscased_equal(s, seq!['v' as u8, 'p' as u8, '9' as u8])
    &&& !miscased_prefix(s, seq!['v' as u8, 'p' as u8, '0' as u8, '9' as u8, '.' as u8])
    &&& !miscased_prefix(s, seq!['a' as u8, 'v' as u8, '0' as u8, '1' as u8, '.' as u8])
    &&& !miscased_prefix(s, seq!['a' as u8, 'v' as u8, 'c' as u8, '1' as u8])
    &&& !miscased_prefix(s, seq!['a' as u8, 'v' as u8, 'c' as u8, '3' as u8])
    &&& !miscased_prefix(s, seq!['h' as u8, 'v' as u8, 'c' as u8, '1' as u8])
    &&& !miscased_prefix(s, seq!['h' as u8, 'e' as u8, 'v' as u8, '1' as u8])
}

fn miscased_eq(s: &[u8], p: &[u8]) -> (r: bool)
    ensures
        r == miscased_equal(s@, p@),
{
    bytes_equal_ci(s, p) && !bytes_equal(s, p)
}

fn miscased_starts(s: &[u8], p: &[u8]) -> (r: bool)
    ensures
        r == miscased_prefix(s@, p@),
{
    bytes_start_with_ci(s, p) && !bytes_start_with(s, p)
}

/// Check that a codec string has valid casing.
pub fn has_valid_codec_casing(codec: &str) -> (r: bool)
    ensures
        r == spec_valid_codec_casing(codec),
{
    let trimmed = trim_str(codec);
    let whole = String::from_str(codec);
    if !(trimmed == whole) {
        return false;
    }
    let s = codec.as_bytes();
    if miscased_eq(s, &['v' as u8, 'p' as u8, '8' as u8]) {
        return false;
    }
    if miscased_eq(s, &['v' as u8, 'p' as u8, '9' as u8]) {
        return false;
    }
    if miscased_starts(s, &['v' as u8, 'p' as u8, '0' as u8, '9' as u8, '.' as u8]) {
        return false;
    }
    if miscased_starts(s, &['a' as u8, 'v' as u8, '0' as u8, '1' as u8, '.' as u8]) {
        return false;
    }
    if miscased_starts(s, &['a' as u8, 'v' as u8, 'c' as u8, '1' as u8]) {
        return false;
    }
    if miscased_starts(s, &['a' as u8, 'v' as u8, 'c' as u8, '3' as u8]) {
        return false;
    }
    if miscased_starts(s, &['h' as u8, 'v' as u8, 'c' as u8, '1' as u8]) {
        return false;
    }
    if miscased_starts(s, &['h' as u8, 'e' as u8, 'v' as u8, '1' as u8]) {
        return false;
    }
    true
}

/// The largest coded width or height a decoder takes.
pub const MAX_DIMENSION: u32 = 16384;

/// Check that coded dimensions are within range.
pub fn are_dimensions_valid(width: u32, height: u32) -> (r: bool)
    ensures
        r == (width <= MAX_DIMENSION && height <= MAX_DIMENSION),
{
    width <= MAX_DIMENSION && height <= MAX_DIMENSION
}

/// The codec a decoder is configured for, if the string is valid: its casing
/// first, then by family (`avc1`/`avc3`/`h264`, `hev1`/`hvc1`/`h265`/`hevc`,
/// `vp8`, `vp09`/`vp9`, `av01`/`av1`), each validated.
pub open spec fn spec_decoder_codec(codec: &str) -> Option<AVCodecID> {
    let s = codec.spec_bytes();
    if !spec_valid_codec_casing(codec) {
        None
    } else if starts_with(s, seq!['a' as u8, 'v' as u8, 'c' as u8, '1' as u8]) || starts_with(
        s,
        seq!['a' as u8, 'v' as u8, 'c' as u8, '3' as u8],
    ) || s == seq!['h' as u8, '2' as u8, '6' as u8, '4' as u8] {
        if spec_validate_avc(s) {
            Some(AVCodecID::H264)
        } else {
            None
        }
    } else if starts_with(s, seq!['h' as u8, 'e' as u8, 'v' as u8, '1' as u8]) || starts_with(
        s,
        seq!['h' as u8, 'v' as u8, 'c' as u8, '1' as u8],
    ) || s == seq!['h' as u8, '2' as u8, '6' as u8, '5' as u8] || s == seq![
        'h' as u8,
        'e' as u8,
        'v' as u8,
        'c' as u8,
    ] {
        if spec_validate_hevc(s) {
            Some(AVCodecID::Hevc)
        } else {
            None
        }
    } else if s == seq!['v' as u8, 'p' as u8, '8' as u8] {
        Some(AVCodecID::Vp8)
    } else if starts_with(s, seq!['v' as u8, 'p' as u8, '0' as u8, '9' as u8]) {
        if spec_validate_vp9(s) {
            Some(AVCodecID::Vp9)
        } else {
            None
        }
    } else if s == seq!['v' as u8, 'p' as u8, '9' as u8] {
        Some(AVCodecID::Vp9)
    } else if starts_with(s, seq!['a' as u8, 'v' as u8, '0' as u8, '1' as u8]) || s == seq![
        'a' as u8,
        'v' as u8,
        '1' as u8,
    ] {
        if spec_validate_av1(s) {
            Some(AVCodecID::Av1)
        } else {
            None
        }
    } else {
        None
    }
}

/// Where validating a decoder codec string is defined: the slices it takes
/// fall on character boundaries.
pub open spec fn decoder_codec_defined(codec: &str) -> bool {
    let s = codec.spec_bytes();
    spec_valid_codec_casing(codec) ==> avc_validation_defined(s) && av1_validation_defined(s)
        && hevc_validation_defined(s)
}

/// Whether validating `codec` as H.264 is defined (see
/// `avc_validation_defined`).
pub fn avc_validation_is_defined(codec: &str) -> (r: bool)
    ensures
        r == avc_validation_defined(codec.spec_bytes()),
{
    let s = codec.as_bytes();
    if (bytes_start_with(s, &['a' as u8, 'v' as u8, 'c' as u8, '1' as u8, '.' as u8])
        || bytes_start_with(s, &['a' as u8, 'v' as u8, 'c' as u8, '3' as u8, '.' as u8]))
        && s.len() == 11 {
        !(128 <= s[7] && s[7] < 192) && !(128 <= s[9] && s[9] < 192)
    } else {
        true
    }
}

/// Whether validating `codec` as AV1 is defined (see
/// `av1_validation_defined`).
pub fn av1_validation_is_defined(codec: &str) -> (r: bool)
    ensures
        r == av1_validation_defined(codec.spec_bytes()),
{
    let s = codec.as_bytes();
    if !bytes_start_with(s, &['a' as u8, 'v' as u8, '0' as u8, '1' as u8, '.' as u8]) {
        return true;
    }
    let params = &s[5..s.len()];
    let parts = split_ranges(params, DOT);
    if parts.len() < 3 {
        return true;
    }
    let (a0, b0) = parts[0];
    let (a1, b1) = parts[1];
    if parse_u8_radix_bytes(&params[a0..b0], 10).is_none() {
        return true;
    }
    let level_str = &params[a1..b1];
    if level_str.len() <= 2 {
        return true;
    }
    !(128 <= level_str[2] && level_str[2] < 192)
}

/// Whether validating `codec` as HEVC is defined (see
/// `hevc_validation_defined`).
pub fn hevc_validation_is_defined(codec: &str) -> (r: bool)
    ensures
        r == hevc_validation_defined(codec.spec_bytes()),
{
    let s = codec.as_bytes();
    if !bytes_start_with(s, &['h' as u8, 'v' as u8, 'c' as u8, '1' as u8, '.' as u8])
        && !bytes_start_with(s, &['h' as u8, 'e' as u8, 'v' as u8, '1' as u8, '.' as u8]) {
        return true;
    }
    let params = &s[5..s.len()];
    let parts = split_ranges(params, DOT);
    proof {
        lemma_split_nonempty(params@, DOT);
    }
    let (a0, b0) = parts[0];
    let p = &params[a0..b0];
    if p.len() >= 2 && !(48 <= p[0] && p[0] <= 57) {
        !(128 <= p[1] && p[1] < 192)
    } else {
        true
    }
}

/// Whether `codec` may be handed to `parse_codec_string`, `support_candidate`
/// and the decoder configuration check: the slices they take of it fall on
/// character boundaries.
pub fn codec_defined(codec: &str) -> (r: bool)
    ensures
        r == decoder_codec_defined(codec),
{
    if !has_valid_codec_casing(codec) {
        return true;
    }
    avc_validation_is_defined(codec) && av1_validation_is_defined(codec)
        && hevc_validation_is_defined(codec)
}

/// Parse a decoder codec string to a codec ID; an invalid or unknown string
/// is an error "Unsupported codec: {codec}".
pub fn parse_codec_string(codec: &str) -> (r: Result<AVCodecID, CodecError>)
    requires
        decoder_codec_defined(codec),
    ensures
        match r {
            Ok(id) => spec_decoder_codec(codec) == Some(id),
            Err(e) => spec_decoder_codec(codec) is None && e.status == ErrorStatus::GenericFailure
                && e.reason@ == "Unsupported codec: "@ + codec@,
        },
{
    let s = codec.as_bytes();
    let found = if !has_valid_codec_casing(codec) {
        None
    } else if bytes_start_with(s, &['a' as u8, 'v' as u8, 'c' as u8, '1' as u8])
        || bytes_start_with(s, &['a' as u8, 'v' as u8, 'c' as u8, '3' as u8]) || bytes_equal(
        s,
        &['h' as u8, '2' as u8, '6' as u8, '4' as u8],
    ) {
        if validate_avc_codec(codec) {
            Some(AVCodecID::H264)
        } else {
            None
        }
    } else if bytes_start_with(s, &['h' as u8, 'e' as u8, 'v' as u8, '1' as u8])
        || bytes_start_with(s, &['h' as u8, 'v' as u8, 'c' as u8, '1' as u8]) || bytes_equal(
        s,
        &['h' as u8, '2' as u8, '6' as u8, '5' as u8],
    ) || bytes_equal(s, &['h' as u8, 'e' as u8, 'v' as u8, 'c' as u8]) {
        if validate_hevc_codec(codec) {
            Some(AVCodecID::Hevc)
        } else {
            None
        }
    } else if bytes_equal(s, &['v' as u8, 'p' as u8, '8' as u8]) {
        Some(AVCodecID::Vp8)
    } else if bytes_start_with(s, &['v' as u8, 'p' as u8, '0' as u8, '9' as u8]) {
        if validate_vp9_codec(codec) {
            Some(AVCodecID::Vp9)
        } else {
            None
        }
    } else if bytes_equal(s, &['v' as u8, 'p' as u8, '9' as u8]) {
        Some(AVCodecID::Vp9)
    } else if bytes_start_with(s, &['a' as u8, 'v' as u8, '0' as u8, '1' as u8]) || bytes_equal(
        s,
        &['a' as u8, 'v' as u8, '1' as u8],
    ) {
        if validate_av1_codec(codec) {
            Some(AVCodecID::Av1)
        } else {
            None
        }
    } else {
        None
    };
    match found {
        Some(id) => Ok(id),
        None => Err(error_with_subject("Unsupported codec: ", codec)),
    }
}

// ----------------------------------------------------------------------------
// VP9 display events
// ----------------------------------------------------------------------------

/// Bit `k` (0 = most significant) of a byte.
pub open spec fn msb_bit(h: u8, k: u8) -> bool {
    (h >> ((7 - k) as u8)) & 1u8 == 1u8
}

fn bit_of(h: u8, k: u8) -> (r: bool)
    requires
        k <= 7,
    ensures
        r == msb_bit(h, k),
{
    (h >> (7 - k)) & 1 == 1
}

/// The visibility flags of a VP9 frame's uncompressed header, MSB first:
/// frame marker (must be 0b10), profile (two bits, one more when 3),
/// show_existing_frame, frame_type, show_frame. Gives (show_existing,
/// show_frame); a frame re-showing a stored one counts as shown. `None` for
/// an empty or malformed header.
pub open spec fn spec_vp9_visibility(d: Seq<u8>) -> Option<(bool, bool)> {
    if d.len() == 0 {
        None
    } else {
        let h = d[0];
        if !msb_bit(h, 0) || msb_bit(h, 1) {
            None
        } else {
            let profile3 = msb_bit(h, 2) && msb_bit(h, 3);
            let pos: u8 = if profile3 {
                5
            } else {
                4
            };
            if msb_bit(h, pos) {
                Some((true, true))
            } else {
                Some((false, msb_bit(h, (pos + 2) as u8)))
            }
        }
    }
}

/// The visibility flags of a VP9 frame.
pub fn vp9_visibility(data: &[u8]) -> (r: Option<(bool, bool)>)
    ensures
        r == spec_vp9_visibility(data@),
{
    if data.len() == 0 {
        return None;
    }
    let h = data[0];
    if !bit_of(h, 0) || bit_of(h, 1) {
        return None;
    }
    let pos: u8 = if bit_of(h, 2) && bit_of(h, 3) {
        5
    } else {
        4
    };
    if bit_of(h, pos) {
        return Some((true, true));
    }
    Some((false, bit_of(h, pos + 2)))
}

/// 256 to the power `i`.
pub open spec fn pow256(i: nat) -> nat
    decreases i,
{
    if i == 0 {
        1
    } else {
        256 * pow256((i - 1) as nat)
    }
}

/// The little-endian number spelled by `s`.
pub open spec fn le_value(s: Seq<u8>) -> nat
    decreases s.len(),
{
    if s.len() == 0 {
        0
    } else {
        le_value(s.drop_last()) + s.last() as nat * pow256((s.len() - 1) as nat)
    }
}

/// Walk the frame sizes of a superframe index from entry `i`: each frame
/// runs on from the previous one; a zero size or one that runs past `limit`
/// (the start of the index) makes the packet no superframe.
pub open spec fn superframe_walk(
    d: Seq<u8>,
    sizes_start: nat,
    length_size: nat,
    nb_frames: nat,
    i: nat,
    offset: nat,
    limit: nat,
) -> Option<Seq<(nat, nat)>>
    decreases nb_frames - i,
{
    if i >= nb_frames {
        Some(seq![])
    } else {
        let at = sizes_start + i * length_size;
        let size = le_value(d.subrange(at as int, (at + length_size) as int));
        let end = offset + size;
        if size == 0 || end > limit {
            None
        } else {
            match superframe_walk(d, sizes_start, length_size, nb_frames, i + 1, end, limit) {
                Some(rest) => Some(seq![(offset, end)] + rest),
                None => None,
            }
        }
    }
}

/// The constituent frames of a VP9 superframe: the packet ends with an index
/// `[marker][little-endian sizes][marker]`, the marker holding 0b110 in its
/// top three bits, the size length less one in bits 4-3 and the frame count
/// less one in bits 2-0. `None` when the packet is not a well-formed
/// superframe.
pub open spec fn spec_superframe(d: Seq<u8>) -> Option<Seq<(nat, nat)>> {
    if d.len() == 0 {
        None
    } else {
        let marker = d.last();
        let length_size: nat = (1 + (marker / 8) % 4) as nat;
        let nb_frames: nat = (1 + marker % 8) as nat;
        let idx_size: nat = 2 + nb_frames * length_size;
        if marker / 32 != 6 {
            None
        } else if d.len() < idx_size || d[d.len() - idx_size] != marker {
            None
        } else {
            superframe_walk(
                d,
                (d.len() - idx_size + 1) as nat,
                length_size,
                nb_frames,
                0,
                0,
                (d.len() - idx_size) as nat,
            )
        }
    }
}

/// The little-endian number in `d[at..at + n]`.
fn read_le(d: &[u8], at: usize, n: usize) -> (r: u64)
    requires
        at + n <= d@.len(),
        n <= 4,
    ensures
        r as nat == le_value(d@.subrange(at as int, at + n)),
{
    let dl = d.len();
    let mut value: u64 = 0;
    let mut mult: u64 = 1;
    let mut j: usize = 0;
    while j < n
        invariant
            j <= n <= 4,
            dl == d@.len(),
            at + n <= d@.len(),
            mult as nat == pow256(j as nat),
            value as nat == le_value(d@.subrange(at as int, at + j)),
            value < mult,
            mult <= 0x1_0000_0000,
        decreases n - j,
    {
        let b = d[at + j] as u64;
        proof {
            let t = d@.subrange(at as int, at + j + 1);
            assert(t.drop_last() =~= d@.subrange(at as int, at + j));
            assert(t.last() == d@[at + j]);
            assert(pow256((j + 1) as nat) == 256 * pow256(j as nat));
            assert(j < 4);
            assert(mult <= 0x100_0000) by {
                if j == 0 {
                } else if j == 1 {
                    assert(pow256(1) == 256) by {
                        reveal_with_fuel(pow256, 2);
                    }
                } else if j == 2 {
                    assert(pow256(2) == 0x1_0000) by {
                        reveal_with_fuel(pow256, 3);
                    }
                } else {
                    assert(pow256(3) == 0x100_0000) by {
                        reveal_with_fuel(pow256, 4);
                    }
                }
            }
        }
        assert(value + b * mult < 256 * mult) by (nonlinear_arith)
            requires
                value < mult,
                b < 256,
        ;
        value = value + b * mult;
        mult = mult * 256;
        j = j + 1;
    }
    value
}

proof fn lemma_superframe_walk_bounds(
    d: Seq<u8>,
    sizes_start: nat,
    length_size: nat,
    nb_frames: nat,
    i: nat,
    offset: nat,
    limit: nat,
)
    ensures
        superframe_walk(d, sizes_start, length_size, nb_frames, i, offset, limit) matches Some(r)
            ==> r.len() == nb_frames - i || (i >= nb_frames && r.len() == 0),
        superframe_walk(d, sizes_start, length_size, nb_frames, i, offset, limit) matches Some(r)
            ==> forall|k: int|
            0 <= k < r.len() ==> offset <= (#[trigger] r[k]).0 < r[k].1 <= limit,
    decreases nb_frames - i,
{
    if i < nb_frames {
        let at = sizes_start + i * length_size;
        let size = le_value(d.subrange(at as int, (at + length_size) as int));
        let end = offset + size;
        if size != 0 && end <= limit {
            lemma_superframe_walk_bounds(d, sizes_start, length_size, nb_frames, i + 1, end, limit);
            match superframe_walk(d, sizes_start, length_size, nb_frames, i + 1, end, limit) {
                Some(rest) => {
                    let r = seq![(offset, end)] + rest;
                    assert forall|k: int| 0 <= k < r.len() implies offset <= (#[trigger] r[k]).0
                        < r[k].1 <= limit by {
                        if k > 0 {
                            assert(r[k] == rest[k - 1]);
                        }
                    }
                },
                None => {},
            }
        }
    }
}

/// The constituent frame ranges of a VP9 superframe.
pub fn vp9_superframe_constituents(data: &[u8]) -> (r: Option<Vec<(usize, usize)>>)
    ensures
        match r {
            Some(v) => spec_superframe(data@) == Some(
                v@.map_values(|p: (usize, usize)| (p.0 as nat, p.1 as nat)),
            ),
            None => spec_superframe(data@) is None,
        },
{
    if data.len() == 0 {
        return None;
    }
    let marker = data[data.len() - 1];
    if marker / 32 != 6 {
        return None;
    }
    let length_size: usize = 1 + ((marker / 8) % 4) as usize;
    let nb_frames: usize = 1 + (marker % 8) as usize;
    assert(length_size <= 4 && nb_frames <= 8);
    assert(nb_frames * length_size <= 32) by (nonlinear_arith)
        requires
            length_size <= 4,
            nb_frames <= 8,
    ;
    let idx_size: usize = 2 + nb_frames * length_size;
    if data.len() < idx_size || data[data.len() - idx_size] != marker {
        return None;
    }
    let sizes_start = data.len() - idx_size + 1;
    let limit = data.len() - idx_size;
    let ghost walk0 = superframe_walk(
        data@,
        sizes_start as nat,
        length_size as nat,
        nb_frames as nat,
        0,
        0,
        limit as nat,
    );
    assert(spec_superframe(data@) == walk0);
    let dl = data.len();
    let mut ranges: Vec<(usize, usize)> = Vec::new();
    let mut offset: usize = 0;
    let mut i: usize = 0;
    while i < nb_frames
        invariant
            1 <= length_size <= 4,
            1 <= nb_frames <= 8,
            dl == data@.len(),
            walk0 == spec_superframe(data@),
            idx_size == 2 + nb_frames * length_size,
            idx_size <= data@.len(),
            sizes_start == data@.len() - idx_size + 1,
            limit == data@.len() - idx_size,
            i <= nb_frames,
            offset <= limit,
            walk0 == match superframe_walk(
                data@,
                sizes_start as nat,
                length_size as nat,
                nb_frames as nat,
                i as nat,
                offset as nat,
                limit as nat,
            ) {
                Some(rest) => Some(
                    ranges@.map_values(|p: (usize, usize)| (p.0 as nat, p.1 as nat)) + rest,
                ),
                None => None::<Seq<(nat, nat)>>,
            },
        decreases nb_frames - i,
    {
        assert(i * length_size + length_size <= nb_frames * length_size) by (nonlinear_arith)
            requires
                i < nb_frames,
        ;
        assert(sizes_start + i * length_size + length_size <= data@.len());
        let at = sizes_start + i * length_size;
        let size = read_le(data, at, length_size);
        if size == 0 || size > (limit - offset) as u64 {
            assert(superframe_walk(
                data@,
                sizes_start as nat,
                length_size as nat,
                nb_frames as nat,
                i as nat,
                offset as nat,
                limit as nat,
            ) is None);
            return None;
        }
        let end = offset + size as usize;
        let ghost before = ranges@.map_values(|p: (usize, usize)| (p.0 as nat, p.1 as nat));
        ranges.push((offset, end));
        proof {
            assert(ranges@.map_values(|p: (usize, usize)| (p.0 as nat, p.1 as nat)) =~= before.push(
                (offset as nat, end as nat),
            ));
            match superframe_walk(
                data@,
                sizes_start as nat,
                length_size as nat,
                nb_frames as nat,
                (i + 1) as nat,
                end as nat,
                limit as nat,
            ) {
                Some(rest) => {
                    assert(before + (seq![(offset as nat, end as nat)] + rest) =~= before.push(
                        (offset as nat, end as nat),
                    ) + rest);
                },
                None => {},
            }
        }
        offset = end;
        i = i + 1;
    }
    proof {
        assert(ranges@.map_values(|p: (usize, usize)| (p.0 as nat, p.1 as nat)) + Seq::<
            (nat, nat),
        >::empty() =~= ranges@.map_values(|p: (usize, usize)| (p.0 as nat, p.1 as nat)));
    }
    Some(ranges)
}

/// A frame produces a display event unless its header says it is neither
/// shown nor a re-show of a stored frame.
pub open spec fn displays(f: Seq<u8>) -> bool {
    spec_vp9_visibility(f) != Some((false, false))
}

/// The number of displayed frames among the first ranges of a superframe.
pub open spec fn count_displayed(d: Seq<u8>, r: Seq<(nat, nat)>) -> nat
    decreases r.len(),
{
    if r.len() == 0 {
        0
    } else {
        count_displayed(d, r.drop_last()) + if displays(
            d.subrange(r.last().0 as int, r.last().1 as int),
        ) {
            1nat
        } else {
            0nat
        }
    }
}

/// Display events a chunk produces: one, except for VP9, where a superframe
/// produces one per displayed constituent and another packet one when it is
/// displayed.
pub open spec fn spec_display_event_count(codec: &str, d: Seq<u8>) -> nat {
    let s = codec.spec_bytes();
    if s != seq!['v' as u8, 'p' as u8, '9' as u8] && !starts_with(
        s,
        seq!['v' as u8, 'p' as u8, '0' as u8, '9' as u8],
    ) {
        1
    } else {
        match spec_superframe(d) {
            Some(r) => count_displayed(d, r),
            None => if displays(d) {
                1
            } else {
                0
            },
        }
    }
}

/// Count the display events a chunk produces.
pub fn display_event_count(codec: &str, data: &[u8]) -> (r: u32)
    ensures
        r as nat == spec_display_event_count(codec, data@),
{
    let s = codec.as_bytes();
    if !bytes_equal(s, &['v' as u8, 'p' as u8, '9' as u8]) && !bytes_start_with(
        s,
        &['v' as u8, 'p' as u8, '0' as u8, '9' as u8],
    ) {
        return 1;
    }
    match vp9_superframe_constituents(data) {
        Some(ranges) => {
            let ghost rv = ranges@.map_values(|p: (usize, usize)| (p.0 as nat, p.1 as nat));
            proof {
                let m = data@.last();
                lemma_superframe_walk_bounds(
                    data@,
                    (data@.len() - (2 + (1 + m % 8) * (1 + (m / 8) % 4)) + 1) as nat,
                    (1 + (m / 8) % 4) as nat,
                    (1 + m % 8) as nat,
                    0,
                    0,
                    (data@.len() - (2 + (1 + m % 8) * (1 + (m / 8) % 4))) as nat,
                );
            }
            let mut count: u32 = 0;
            let mut k: usize = 0;
            while k < ranges.len()
                invariant
                    k <= ranges@.len(),
                    ranges@.len() <= 8,
                    rv == ranges@.map_values(|p: (usize, usize)| (p.0 as nat, p.1 as nat)),
                    forall|j: int| 0 <= j < rv.len() ==> (#[trigger] rv[j]).0 < rv[j].1 <= data@.len(),
                    count as nat == count_displayed(data@, rv.take(k as int)),
                    count <= k,
                decreases ranges@.len() - k,
            {
                let (a, b) = ranges[k];
                proof {
                    assert(rv[k as int] == (a as nat, b as nat));
                    assert(rv.take(k + 1).drop_last() =~= rv.take(k as int));
                    assert(rv.take(k + 1).last() == rv[k as int]);
                }
                let shown = match vp9_visibility(&data[a..b]) {
                    Some((false, false)) => false,
                    _ => true,
                };
                if shown {
                    count = count + 1;
                }
                k = k + 1;
            }
            proof {
                assert(rv.take(ranges@.len() as int) =~= rv);
            }
            count
        },
        None => {
            match vp9_visibility(data) {
                Some((false, false)) => 0,
                _ => 1,
            }
        },
    }
}

// ----------------------------------------------------------------------------
// Chunk metadata in flight
// ----------------------------------------------------------------------------

/// What the decoder remembers of a chunk until its last display event.
#[derive(Debug, Clone, Copy, PartialEq, Eq, Structural)]
pub struct ChunkMeta {
    pub timestamp: i64,
    pub duration: Option<i64>,
    /// Display events the chunk will still produce.
    pub remaining: u32,
}

/// A chunk entry with one display event fewer to come.
pub open spec fn one_event_fewer(meta: ChunkMeta) -> ChunkMeta {
    ChunkMeta { remaining: (meta.remaining - 1) as u32, ..meta }
}

fn with_one_event_fewer(meta: ChunkMeta) -> (r: ChunkMeta)
    requires
        meta.remaining > 1,
    ensures
        r == one_event_fewer(meta),
{
    ChunkMeta { remaining: meta.remaining - 1, ..meta }
}

/// Consume one display event from a chunk's entry: the entry is returned as
/// it was, and removed once no further event is expected (otherwise its
/// count drops by one). `None`, and no change, for an unknown chunk.
pub fn consume_chunk_meta(map: &mut BTreeMap<u64, ChunkMeta>, seq: u64) -> (r: Option<ChunkMeta>)
    ensures
        match r {
            Some(meta) => old(map)@.contains_key(seq) && old(map)@[seq] == meta && final(map)@ == if meta.remaining <= 1 {
                old(map)@.remove(seq)
            } else {
                old(map)@.insert(seq, one_event_fewer(meta))
            },
            None => !old(map)@.contains_key(seq) && final(map)@ == old(map)@,
        },
{
    broadcast use vstd::laws_cmp::group_laws_cmp, vstd::std_specs::btree::group_btree_axioms;
    match map.remove(&seq) {
        Some(meta) => {
            if meta.remaining > 1 {
                map.insert(seq, with_one_event_fewer(meta));
                proof {
                    assert(map@ =~= old(map)@.insert(seq, one_event_fewer(meta)));
                }
            }
            Some(meta)
        },
        None => {
            proof {
                assert(map@ =~= old(map)@);
            }
            None
        },
    }
}


// ----------------------------------------------------------------------------
// Decoder configuration
// ----------------------------------------------------------------------------

/// Why a decoder configuration is invalid, if it is: the codec must be
/// given and not empty, and each dimension that is given must be positive.
pub open spec fn video_config_refusal(
    codec: Option<&str>,
    coded_width: Option<u32>,
    coded_height: Option<u32>,
    display_aspect_width: Option<u32>,
    display_aspect_height: Option<u32>,
) -> Option<Seq<char>> {
    if !(codec matches Some(c) && c@.len() > 0) {
        Some("codec is required"@)
    } else if coded_width == Some(0u32) {
        Some("codedWidth must be greater than 0"@)
    } else if coded_height == Some(0u32) {
        Some("codedHeight must be greater than 0"@)
    } else if display_aspect_width == Some(0u32) {
        Some("displayAspectWidth must be greater than 0"@)
    } else if display_aspect_height == Some(0u32) {
        Some("displayAspectHeight must be greater than 0"@)
    } else {
        None
    }
}

/// Validate a video decoder configuration before anything else is done with
/// it: an invalid one is a TypeError (thrown by `configure`, a rejection from
/// `isConfigSupported`).
pub fn check_video_decoder_config(
    codec: Option<&str>,
    coded_width: Option<u32>,
    coded_height: Option<u32>,
    display_aspect_width: Option<u32>,
    display_aspect_height: Option<u32>,
) -> (r: Result<(), CodecError>)
    ensures
        match video_config_refusal(
            codec,
            coded_width,
            coded_height,
            display_aspect_width,
            display_aspect_height,
        ) {
            Some(msg) => r matches Err(e) && e.status == ErrorStatus::InvalidArg && e.reason@ == msg,
            None => r is Ok,
        },
{
    let has_codec = match codec {
        Some(c) => !c.is_empty(),
        None => false,
    };
    if !has_codec {
        return Err(js_type_error("codec is required"));
    }
    if coded_width == Some(0u32) {
        return Err(js_type_error("codedWidth must be greater than 0"));
    }
    if coded_height == Some(0u32) {
        return Err(js_type_error("codedHeight must be greater than 0"));
    }
    if display_aspect_width == Some(0u32) {
        return Err(js_type_error("displayAspectWidth must be greater than 0"));
    }
    if display_aspect_height == Some(0u32) {
        return Err(js_type_error("displayAspectHeight must be greater than 0"));
    }
    Ok(())
}

/// An H.264 codec string in the sense of the extradata rule (`avc1`, `avc3`).
pub open spec fn names_h264(codec: Seq<u8>) -> bool {
    starts_with(codec, seq!['a' as u8, 'v' as u8, 'c' as u8, '1' as u8]) || starts_with(
        codec,
        seq!['a' as u8, 'v' as u8, 'c' as u8, '3' as u8],
    )
}

/// An H.265 codec string in the sense of the extradata rule (`hvc1`, `hev1`).
pub open spec fn names_h265(codec: Seq<u8>) -> bool {
    starts_with(codec, seq!['h' as u8, 'v' as u8, 'c' as u8, '1' as u8]) || starts_with(
        codec,
        seq!['h' as u8, 'e' as u8, 'v' as u8, '1' as u8],
    )
}

/// The extradata handed to the decoder: a hardware decoder takes the
/// description as it is; a software decoder takes H.264 avcC and H.265 hvcC
/// records converted to Annex B, and anything else (or a record that does not
/// convert) as it is.
pub open spec fn spec_decoder_extradata(codec: Seq<u8>, d: Seq<u8>, is_hardware: bool) -> Seq<u8> {
    if is_hardware {
        d
    } else if names_h264(codec) && spec_is_avcc_extradata(d) {
        match spec_avcc_extradata_to_annexb(d) {
            Some(x) => x,
            None => d,
        }
    } else if names_h265(codec) && spec_is_hvcc_extradata(d) {
        match spec_hvcc_extradata_to_annexb(d) {
            Some(x) => x,
            None => d,
        }
    } else {
        d
    }
}

/// The extradata a decoder is configured with, from the configuration's
/// description (none without one).
pub fn decoder_extradata(codec: &str, description: Option<&[u8]>, is_hardware: bool) -> (r: Option<
    Vec<u8>,
>)
    ensures
        match description {
            Some(d) => r matches Some(x) && x@ == spec_decoder_extradata(
                codec.spec_bytes(),
                d@,
                is_hardware,
            ),
            None => r is None,
        },
{
    let d = match description {
        Some(d) => d,
        None => return None,
    };
    if is_hardware {
        return Some(slice_to_vec(d));
    }
    let c = codec.as_bytes();
    let is_h264 = bytes_start_with(c, &['a' as u8, 'v' as u8, 'c' as u8, '1' as u8])
        || bytes_start_with(c, &['a' as u8, 'v' as u8, 'c' as u8, '3' as u8]);
    let is_h265 = bytes_start_with(c, &['h' as u8, 'v' as u8, 'c' as u8, '1' as u8])
        || bytes_start_with(c, &['h' as u8, 'e' as u8, 'v' as u8, '1' as u8]);
    if is_h264 && is_avcc_extradata(d) {
        match convert_avcc_extradata_to_annexb(d) {
            Some(x) => Some(x),
            None => Some(slice_to_vec(d)),
        }
    } else if is_h265 && is_hvcc_extradata(d) {
        match convert_hvcc_extradata_to_annexb(d) {
            Some(x) => Some(x),
            None => Some(slice_to_vec(d)),
        }
    } else {
        Some(slice_to_vec(d))
    }
}

/// The decoder threads: one for a hardware decoder (flushing a hardware
/// decoder from several threads is unsafe), automatic (0) otherwise.
pub fn decoder_thread_count(is_hardware: bool) -> (r: i32)
    ensures
        r == (if is_hardware {
            1i32
        } else {
            0i32
        }),
{
    if is_hardware {
        1
    } else {
        0
    }
}

/// What `isConfigSupported` can tell before asking the codec library: no
/// codec when the given dimensions are out of range or the codec string is
/// not accepted; otherwise the codec a decoder would be created for.
pub open spec fn spec_support_candidate(
    codec: &str,
    coded_width: Option<u32>,
    coded_height: Option<u32>,
) -> Option<AVCodecID> {
    let w: u32 = match coded_width {
        Some(w) => w,
        None => 0,
    };
    let h: u32 = match coded_height {
        Some(h) => h,
        None => 0,
    };
    if w > 0 && h > 0 && !(w <= MAX_DIMENSION && h <= MAX_DIMENSION) {
        None
    } else {
        spec_decoder_codec(codec)
    }
}

/// The codec whose decoder `isConfigSupported` tries to create, if any; a
/// configuration without one is reported as unsupported.
pub fn support_candidate(codec: &str, coded_width: Option<u32>, coded_height: Option<u32>) -> (r:
    Option<AVCodecID>)
    requires
        decoder_codec_defined(codec),
    ensures
        r == spec_support_candidate(codec, coded_width, coded_height),
{
    let w: u32 = match coded_width {
        Some(w) => w,
        None => 0,
    };
    let h: u32 = match coded_height {
        Some(h) => h,
        None => 0,
    };
    if w > 0 && h > 0 && !are_dimensions_valid(w, h) {
        return None;
    }
    match parse_codec_string(codec) {
        Ok(id) => Some(id),
        Err(_) => None,
    }
}


// ----------------------------------------------------------------------------
// Decoder input and the hardware watch
// ----------------------------------------------------------------------------

/// An H.264 or H.265 codec string in the sense of the packet rule (`avc1`,
/// `avc3`, `hvc1`, `hev1`).
pub open spec fn names_avc_family(codec: Seq<u8>) -> bool {
    names_h264(codec) || names_h265(codec)
}

/// The bytes handed to the decoder for a chunk. A hardware decoder takes the
/// chunk as it is. A software decoder of H.264 or H.265 takes length-prefixed
/// data converted to Annex B, preceded on key chunks by the configured
/// extradata where there is one; anything else is passed as it is.
pub open spec fn spec_decode_input(
    codec: Seq<u8>,
    data: Seq<u8>,
    is_hardware: bool,
    is_key: bool,
    extradata: Option<Seq<u8>>,
) -> Seq<u8> {
    if is_hardware {
        data
    } else if names_avc_family(codec) && spec_is_avcc_format(data) {
        let converted = spec_avcc_to_annexb(data);
        match extradata {
            Some(x) => if is_key {
                x + converted
            } else {
                converted
            },
            None => converted,
        }
    } else {
        data
    }
}

/// The bytes handed to the decoder for a chunk (chunks decoded again after a
/// fall-back to software are passed without extradata).
pub fn decode_input(codec: &str, data: &[u8], is_hardware: bool, is_key: bool, extradata: Option<&[u8]>) -> (r:
    Vec<u8>)
    ensures
        r@ == spec_decode_input(
            codec.spec_bytes(),
            data@,
            is_hardware,
            is_key,
            match extradata {
                Some(x) => Some(x@),
                None => None,
            },
        ),
{
    if is_hardware {
        return slice_to_vec(data);
    }
    let c = codec.as_bytes();
    let avc_family = bytes_start_with(c, &['a' as u8, 'v' as u8, 'c' as u8, '1' as u8])
        || bytes_start_with(c, &['a' as u8, 'v' as u8, 'c' as u8, '3' as u8])
        || bytes_start_with(c, &['h' as u8, 'v' as u8, 'c' as u8, '1' as u8])
        || bytes_start_with(c, &['h' as u8, 'e' as u8, 'v' as u8, '1' as u8]);
    if avc_family && is_avcc_format(data) {
        let converted = convert_avcc_to_annexb(data);
        if is_key {
            if let Some(x) = extradata {
                let mut out = slice_to_vec(x);
                extend_bytes(&mut out, converted.as_slice());
                return out;
            }
        }
        converted
    } else {
        slice_to_vec(data)
    }
}

/// Empty outputs a hardware decoder may give, before its first frame, before
/// it is deemed to fail silently.
pub const SILENT_FAILURE_THRESHOLD: u32 = 10;

/// What to do when a hardware decoder misbehaves before its first frame.
#[derive(Debug, Clone, Copy, PartialEq, Eq, Structural)]
pub enum HwAction {
    /// Nothing yet.
    Continue,
    /// Report an OperationError: hardware was explicitly preferred.
    Fail,
    /// Switch to a software decoder and decode the buffered chunks again.
    FallBack,
}

/// The watch kept over a decoder until it produces its first frame.
#[derive(Debug, Clone, Copy, PartialEq, Eq, Structural)]
pub struct HwWatch {
    pub is_hardware: bool,
    pub preference: HardwareAcceleration,
    pub first_output_produced: bool,
    /// Consecutive chunks that produced no frame.
    pub silent_decode_count: u32,
}

/// The decoder is a hardware one that has not produced a frame yet.
pub open spec fn watching(w: HwWatch) -> bool {
    w.is_hardware && !w.first_output_produced
}

/// The action a misbehaving watched decoder calls for: an explicit
/// preference for hardware fails, no preference falls back to software.
pub open spec fn escalation(w: HwWatch) -> HwAction {
    match w.preference {
        HardwareAcceleration::PreferHardware => HwAction::Fail,
        HardwareAcceleration::NoPreference => HwAction::FallBack,
        HardwareAcceleration::PreferSoftware => HwAction::Continue,
    }
}

impl HwWatch {
    /// A decoder just configured.
    pub fn new(is_hardware: bool, preference: HardwareAcceleration) -> (w: Self)
        ensures
            w.is_hardware == is_hardware,
            w.preference == preference,
            !w.first_output_produced,
            w.silent_decode_count == 0,
    {
        HwWatch { is_hardware, preference, first_output_produced: false, silent_decode_count: 0 }
    }

    /// Whether chunks are kept for decoding again after a fall-back.
    pub fn buffers_chunks(&self) -> (b: bool)
        ensures
            b == watching(*self),
    {
        self.is_hardware && !self.first_output_produced
    }

    /// A chunk failed to decode. `Continue` means: report the decode failure.
    pub fn on_decode_error(&self) -> (a: HwAction)
        ensures
            a == (if watching(*self) {
                escalation(*self)
            } else {
                HwAction::Continue
            }),
    {
        if self.is_hardware && !self.first_output_produced {
            match self.preference {
                HardwareAcceleration::PreferHardware => HwAction::Fail,
                HardwareAcceleration::NoPreference => HwAction::FallBack,
                HardwareAcceleration::PreferSoftware => HwAction::Continue,
            }
        } else {
            HwAction::Continue
        }
    }

    /// A chunk decoded to no frame: a watched decoder counts it, and after
    /// `SILENT_FAILURE_THRESHOLD` such chunks escalates.
    pub fn on_empty_output(&mut self) -> (a: HwAction)
        requires
            watching(*old(self)) ==> old(self).silent_decode_count < u32::MAX,
        ensures
            watching(*old(self)) ==> final(self).silent_decode_count == old(self).silent_decode_count + 1
                && a == (if final(self).silent_decode_count >= SILENT_FAILURE_THRESHOLD {
                escalation(*old(self))
            } else {
                HwAction::Continue
            }),
            !watching(*old(self)) ==> final(self).silent_decode_count == old(self).silent_decode_count
                && a == HwAction::Continue,
            final(self).is_hardware == old(self).is_hardware,
            final(self).preference == old(self).preference,
            final(self).first_output_produced == old(self).first_output_produced,
    {
        if self.is_hardware && !self.first_output_produced {
            self.silent_decode_count = self.silent_decode_count + 1;
            if self.silent_decode_count >= SILENT_FAILURE_THRESHOLD {
                return match self.preference {
                    HardwareAcceleration::PreferHardware => HwAction::Fail,
                    HardwareAcceleration::NoPreference => HwAction::FallBack,
                    HardwareAcceleration::PreferSoftware => HwAction::Continue,
                };
            }
        }
        HwAction::Continue
    }

    /// A chunk decoded to at least one frame: the watch ends.
    pub fn on_output(&mut self)
        ensures
            watching(*old(self)) ==> final(self).first_output_produced && final(self).silent_decode_count
                == 0,
            !watching(*old(self)) ==> *final(self) == *old(self),
            final(self).is_hardware == old(self).is_hardware,
            final(self).preference == old(self).preference,
    {
        if self.is_hardware && !self.first_output_produced {
            self.first_output_produced = true;
            self.silent_decode_count = 0;
        }
    }

    /// The decoder was replaced by a software one.
    pub fn fell_back(&mut self)
        ensures
            !final(self).is_hardware,
            !final(self).first_output_produced,
            final(self).silent_decode_count == 0,
            final(self).preference == old(self).preference,
    {
        self.is_hardware = false;
        self.silent_decode_count = 0;
        self.first_output_produced = false;
    }
}



/// The oldest pending chunk (smallest sequence number) with the given
/// timestamp.
pub fn oldest_with_timestamp(map: &BTreeMap<u64, ChunkMeta>, pts: i64) -> (r: Option<u64>)
    ensures
        match r {
            Some(k) => map@.contains_key(k) && map@[k].timestamp == pts && forall|j: u64|
                j < k && #[trigger] map@.contains_key(j) ==> map@[j].timestamp != pts,
            None => forall|j: u64| #[trigger] map@.contains_key(j) ==> map@[j].timestamp != pts,
        },
{
    broadcast use vstd::laws_cmp::group_laws_cmp, vstd::std_specs::btree::group_btree_axioms;
    let entries = map.iter();
    let ghost rem = vstd::std_specs::iter::IteratorSpec::remaining(&entries);
    let ghost keys = rem.map_values(|p: (&u64, &ChunkMeta)| *p.0);
    proof {
        assert(vstd::std_specs::btree::increasing_seq(keys));
    }
    for kv in it: entries
        invariant
            it.seq() == rem,
            keys == rem.map_values(|p: (&u64, &ChunkMeta)| *p.0),
            vstd::std_specs::btree::increasing_seq(keys),
            forall|k: u64| #[trigger] map@.contains_key(k) ==> rem.contains((&k, &map@[k])),
            forall|i: int| 0 <= i < rem.len() ==> map@.contains_key(*rem[i].0) && map@[*rem[i].0]
                == *rem[i].1,
            forall|i: int| 0 <= i < it.index() ==> (*it.seq()[i].1).timestamp != pts,
    {
        let (k, v) = kv;
        if v.timestamp == pts {
            proof {
                assert(it.seq()[it.index()] == kv);
                assert forall|j: u64| j < *k && #[trigger] map@.contains_key(j) implies map@[j].timestamp
                    != pts by {
                    let e = (&j, &map@[j]);
                    assert(rem.contains(e));
                    let i = choose|i: int| 0 <= i < rem.len() && rem[i] == e;
                    assert(keys[i] == j);
                    assert(keys[it.index()] == *k);
                    if i > it.index() {
                        assert(vstd::std_specs::cmp::OrdSpec::cmp_spec(&keys[it.index()], &keys[i]) is Less);
                    }
                }
            }
            return Some(*k);
        }
    }
    None
}


/// The oldest pending chunk (smallest sequence number), if any.
pub fn first_pending(map: &BTreeMap<u64, ChunkMeta>) -> (r: Option<u64>)
    ensures
        match r {
            Some(k) => map@.contains_key(k) && forall|j: u64| #[trigger] map@.contains_key(j) ==> k <= j,
            None => forall|j: u64| !(#[trigger] map@.contains_key(j)),
        },
{
    broadcast use vstd::laws_cmp::group_laws_cmp, vstd::std_specs::btree::group_btree_axioms;
    let entries = map.iter();
    let ghost rem = vstd::std_specs::iter::IteratorSpec::remaining(&entries);
    let ghost keys = rem.map_values(|p: (&u64, &ChunkMeta)| *p.0);
    proof {
        assert(vstd::std_specs::btree::increasing_seq(keys));
    }
    for kv in it: entries
        invariant
            it.seq() == rem,
            keys == rem.map_values(|p: (&u64, &ChunkMeta)| *p.0),
            vstd::std_specs::btree::increasing_seq(keys),
            forall|k: u64| #[trigger] map@.contains_key(k) ==> rem.contains((&k, &map@[k])),
            forall|i: int| 0 <= i < rem.len() ==> map@.contains_key(*rem[i].0),
            it.index() == 0,
    {
        let (k, _v) = kv;
        proof {
            assert(it.seq()[it.index()] == kv);
            assert forall|j: u64| #[trigger] map@.contains_key(j) implies *k <= j by {
                let e = (&j, &map@[j]);
                assert(rem.contains(e));
                let i = choose|i: int| 0 <= i < rem.len() && rem[i] == e;
                assert(keys[i] == j);
                assert(keys[0] == *k);
                if i > 0 {
                    assert(vstd::std_specs::cmp::OrdSpec::cmp_spec(&keys[0], &keys[i]) is Less);
                }
            }
        }
        return Some(*k);
    }
    proof {
        assert forall|j: u64| !(#[trigger] map@.contains_key(j)) by {
            if map@.contains_key(j) {
                assert(rem.contains((&j, &map@[j])));
            }
        }
    }
    None
}

/// The pending-chunk table after one display event of chunk `seq` (no
/// change for an unknown chunk).
pub open spec fn consumed(m: Map<u64, ChunkMeta>, seq: u64) -> Map<u64, ChunkMeta> {
    if m.contains_key(seq) {
        if m[seq].remaining <= 1 {
            m.remove(seq)
        } else {
            m.insert(seq, one_event_fewer(m[seq]))
        }
    } else {
        m
    }
}

/// A frame that re-emits a stored reference frame: it is tagged with a chunk
/// whose entry is gone, or whose timestamp contradicts the frame's.
pub open spec fn is_reemitted(m: Map<u64, ChunkMeta>, frame_pts: i64, opaque_seq: u64) -> bool {
    opaque_seq != 0 && if m.contains_key(opaque_seq) {
        frame_pts != NO_PTS && m[opaque_seq].timestamp != frame_pts
    } else {
        true
    }
}

/// `k` is the oldest pending chunk with timestamp `pts`.
pub open spec fn oldest_with(m: Map<u64, ChunkMeta>, pts: i64, k: u64) -> bool {
    &&& m.contains_key(k)
    &&& m[k].timestamp == pts
    &&& forall|j: u64| j < k && #[trigger] m.contains_key(j) ==> m[j].timestamp != pts
}

/// `k` is the oldest pending chunk.
pub open spec fn oldest(m: Map<u64, ChunkMeta>, k: u64) -> bool {
    &&& m.contains_key(k)
    &&& forall|j: u64| #[trigger] m.contains_key(j) ==> k <= j
}

/// An unknown presentation timestamp.
pub const NO_PTS: i64 = i64::MIN;

/// The timestamp and duration of a decoded frame, taken from the pending
/// chunk it belongs to, which gives up one display event. A frame tagged
/// with a live chunk (and not re-emitted) takes that chunk's timing. Else a
/// frame with a timestamp keeps it and takes the oldest chunk with that
/// timestamp; its duration is the frame's own when positive (unless
/// re-emitted), else the chunk's. Else the oldest pending chunk gives its
/// timing, and with none pending the fallback is used.
pub fn resolve_frame_metadata(
    map: &mut BTreeMap<u64, ChunkMeta>,
    frame_pts: i64,
    opaque_seq: u64,
    frame_duration: i64,
    fallback: (i64, Option<i64>),
) -> (r: (i64, Option<i64>))
    ensures
        ({
            let m = old(map)@;
            let re = is_reemitted(m, frame_pts, opaque_seq);
            if !re && m.contains_key(opaque_seq) {
                r == (m[opaque_seq].timestamp, m[opaque_seq].duration) && final(map)@ == consumed(
                    m,
                    opaque_seq,
                )
            } else if frame_pts != NO_PTS {
                r.0 == frame_pts && (if forall|j: u64| #[trigger] m.contains_key(j) ==> m[j].timestamp
                    != frame_pts {
                    final(map)@ == m && r.1 == (if !re && frame_duration > 0 {
                        Some(frame_duration)
                    } else {
                        None
                    })
                } else {
                    exists|k: u64|
                        #[trigger] oldest_with(m, frame_pts, k) && final(map)@ == consumed(m, k) && r.1 == (
                        if !re && frame_duration > 0 {
                            Some(frame_duration)
                        } else {
                            m[k].duration
                        })
                })
            } else if exists|j: u64| #[trigger] m.contains_key(j) {
                exists|k: u64|
                    #[trigger] oldest(m, k) && r == (m[k].timestamp, m[k].duration) && final(map)@
                        == consumed(m, k)
            } else {
                r == fallback && final(map)@ == m
            }
        }),
{
    broadcast use vstd::laws_cmp::group_laws_cmp, vstd::std_specs::btree::group_btree_axioms;
    let opaque_meta: Option<ChunkMeta> = if opaque_seq != 0 {
        match map.get(&opaque_seq) {
            Some(m) => Some(*m),
            None => None,
        }
    } else {
        None
    };
    let reemitted = opaque_seq != 0 && match opaque_meta {
        Some(meta) => frame_pts != NO_PTS && meta.timestamp != frame_pts,
        None => true,
    };
    if !reemitted {
        if let Some(meta) = consume_chunk_meta(map, opaque_seq) {
            return (meta.timestamp, meta.duration);
        }
    }
    if frame_pts != NO_PTS {
        let found = oldest_with_timestamp(map, frame_pts);
        let mapped = match found {
            Some(k) => match consume_chunk_meta(map, k) {
                Some(meta) => meta.duration,
                None => None,
            },
            None => None,
        };
        let dur = if reemitted {
            mapped
        } else if frame_duration > 0 {
            Some(frame_duration)
        } else {
            mapped
        };
        proof {
            if let Some(k) = found {
                assert(oldest_with(old(map)@, frame_pts, k));
            }
        }
        return (frame_pts, dur);
    }
    if let Some(k) = first_pending(map) {
        if let Some(meta) = consume_chunk_meta(map, k) {
            proof {
                assert(oldest(old(map)@, k));
            }
            return (meta.timestamp, meta.duration);
        }
    }
    fallback
}

} // verus!
