use webcodecs::codec_id::AVCodecID;
use webcodecs::codec_string::{
    av1_level_to_ffmpeg, av1_profile_to_ffmpeg, avc_level_to_ffmpeg, avc_profile_to_ffmpeg,
    hevc_level_to_ffmpeg, hevc_profile_to_ffmpeg, parse_codec_string, vp9_level_to_ffmpeg,
    vp9_profile_to_ffmpeg, ParsedCodec,
};

#[test]
fn test_parse_vp9_full() {
    let parsed = parse_codec_string("vp09.00.10.08.00").unwrap();
    assert_eq!(parsed.codec_id, AVCodecID::Vp9);
    assert_eq!(parsed.profile, Some(0));
    assert_eq!(parsed.level, Some(10));
    assert_eq!(parsed.bit_depth, Some(8));
    assert_eq!(parsed.chroma_subsampling, Some(420));
}

#[test]
fn test_parse_vp9_simple() {
    let parsed = parse_codec_string("vp9").unwrap();
    assert_eq!(parsed.codec_id, AVCodecID::Vp9);
    assert_eq!(parsed.profile, None);
}

#[test]
fn test_parse_av1_full() {
    let parsed = parse_codec_string("av01.0.04M.10.0.110").unwrap();
    assert_eq!(parsed.codec_id, AVCodecID::Av1);
    assert_eq!(parsed.profile, Some(0));
    assert_eq!(parsed.level, Some(4));
    assert_eq!(parsed.bit_depth, Some(10));
    assert_eq!(parsed.chroma_subsampling, Some(420));
}

#[test]
fn test_parse_av1_simple() {
    let parsed = parse_codec_string("av1").unwrap();
    assert_eq!(parsed.codec_id, AVCodecID::Av1);
}

#[test]
fn test_parse_avc() {
    let parsed = parse_codec_string("avc1.42001f").unwrap();
    assert_eq!(parsed.codec_id, AVCodecID::H264);
    assert_eq!(parsed.profile, Some(66));
    assert_eq!(parsed.level, Some(31));
    assert_eq!(parsed.bit_depth, Some(8));
}

#[test]
fn test_parse_avc_high() {
    let parsed = parse_codec_string("avc1.640028").unwrap();
    assert_eq!(parsed.codec_id, AVCodecID::H264);
    assert_eq!(parsed.profile, Some(100));
    assert_eq!(parsed.level, Some(40));
}

#[test]
fn test_parse_hevc() {
    let parsed = parse_codec_string("hev1.1.6.L120.B0").unwrap();
    assert_eq!(parsed.codec_id, AVCodecID::Hevc);
    assert_eq!(parsed.profile, Some(1));
    assert_eq!(parsed.level, Some(120));
    assert_eq!(parsed.bit_depth, Some(8));
}

#[test]
fn test_parse_hevc_main10() {
    let parsed = parse_codec_string("hev1.2.4.L150.B0").unwrap();
    assert_eq!(parsed.codec_id, AVCodecID::Hevc);
    assert_eq!(parsed.profile, Some(2));
    assert_eq!(parsed.level, Some(150));
    assert_eq!(parsed.bit_depth, Some(10));
}

#[test]
fn test_parse_vp8() {
    let parsed = parse_codec_string("vp8").unwrap();
    assert_eq!(parsed.codec_id, AVCodecID::Vp8);
}

#[test]
fn test_parse_unknown() {
    let parsed = parse_codec_string("unknown-codec");
    assert!(parsed.is_none());
}

#[test]
fn codec_family_prefix_ignores_ascii_case() {
    assert_eq!(parse_codec_string("AVC1.640028").unwrap().codec_id, AVCodecID::H264);
    assert_eq!(parse_codec_string("VP8").unwrap().codec_id, AVCodecID::Vp8);
    assert_eq!(parse_codec_string("HVC1.1.6.L93.B0").unwrap().codec_id, AVCodecID::Hevc);
}

#[test]
fn parsed_codec_new_has_no_details() {
    let p = ParsedCodec::new(AVCodecID::Av1);
    assert_eq!(p.codec_id, AVCodecID::Av1);
    assert_eq!(p.profile, None);
    assert_eq!(p.level, None);
    assert_eq!(p.bit_depth, None);
    assert_eq!(p.chroma_subsampling, None);
}

#[test]
fn malformed_fields_parse_to_none() {
    let p = parse_codec_string("avc1.zz00zz").unwrap();
    assert_eq!(p.profile, None);
    assert_eq!(p.level, None);
    let v = parse_codec_string("vp09.xx").unwrap();
    assert_eq!(v.profile, None);
}

#[test]
fn profile_and_level_mappings() {
    assert_eq!(avc_profile_to_ffmpeg(100), 100);
    assert_eq!(vp9_profile_to_ffmpeg(2), 2);
    assert_eq!(av1_profile_to_ffmpeg(1), 1);
    assert_eq!(hevc_profile_to_ffmpeg(2), 2);
    assert_eq!(avc_level_to_ffmpeg(31), 31);
    assert_eq!(vp9_level_to_ffmpeg(10), 10);
    assert_eq!(hevc_level_to_ffmpeg(120), 40);
    assert_eq!(hevc_level_to_ffmpeg(93), 31);
    assert_eq!(av1_level_to_ffmpeg(4), 4);
    assert_eq!(avc_profile_to_ffmpeg(1), -1);
    assert_eq!(vp9_profile_to_ffmpeg(9), 0);
    assert_eq!(av1_profile_to_ffmpeg(7), 0);
    assert_eq!(hevc_profile_to_ffmpeg(0), -1);
}

#[test]
fn avc_string_with_a_multibyte_character_still_parses() {
    let parsed = parse_codec_string("avc1.0\u{e9}000").unwrap();
    assert_eq!(parsed.codec_id, AVCodecID::H264);
    assert_eq!(parsed.bit_depth, Some(8));
}
