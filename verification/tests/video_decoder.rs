use std::collections::BTreeMap;
use webcodecs::codec_id::AVCodecID;
use webcodecs::video_decoder::{
    are_dimensions_valid, consume_chunk_meta, display_event_count, has_valid_codec_casing,
    parse_codec_string, validate_av1_codec, validate_avc_codec, validate_hevc_codec,
    validate_vp9_codec, vp9_superframe_constituents, vp9_visibility, ChunkMeta,
    check_video_decoder_config, decoder_extradata, decoder_thread_count, support_candidate,
    decode_input, first_pending, oldest_with_timestamp, resolve_frame_metadata, HwAction, HwWatch,
    SILENT_FAILURE_THRESHOLD, codec_defined, avc_validation_is_defined,
    av1_validation_is_defined, hevc_validation_is_defined,
};
use webcodecs::hardware::{decoder_hw_type, AVHWDeviceType, HardwareAcceleration, TargetOs};
use webcodecs::error::ErrorStatus;

#[test]
fn decoder_codec_validation() {
    assert!(validate_avc_codec("avc1.42001E"));
    assert!(validate_avc_codec("h264"));
    assert!(!validate_avc_codec("avc1.42001"));
    assert!(!validate_avc_codec("avc1.420063"));
    assert!(validate_vp9_codec("vp09.00.10.08"));
    assert!(!validate_vp9_codec("vp09.04.10.08"));
    assert!(!validate_vp9_codec("vp09.00.10"));
    assert!(validate_av1_codec("av01.0.04M.08"));
    assert!(!validate_av1_codec("av01.3.04M.08"));
    assert!(!validate_av1_codec("av01.0.24M.08"));
    assert!(validate_hevc_codec("hvc1.1.6.L93.B0"));
    assert!(validate_hevc_codec("hev1.A4.6.L93.B0"));
    assert!(!validate_hevc_codec("hev1.C99.6.L93.B0"));
    assert!(are_dimensions_valid(16384, 1));
    assert!(!are_dimensions_valid(16385, 1));
}

#[test]
fn decoder_codec_strings_are_case_sensitive() {
    assert!(has_valid_codec_casing("vp8"));
    assert!(!has_valid_codec_casing("VP8"));
    assert!(!has_valid_codec_casing(" vp8"));
    assert!(!has_valid_codec_casing("Avc1.42001E"));
    assert!(matches!(parse_codec_string("vp8"), Ok(AVCodecID::Vp8)));
    assert!(matches!(parse_codec_string("vp9"), Ok(AVCodecID::Vp9)));
    assert!(matches!(parse_codec_string("av1"), Ok(AVCodecID::Av1)));
    assert!(matches!(parse_codec_string("hevc"), Ok(AVCodecID::Hevc)));
    let e = parse_codec_string("VP8").unwrap_err();
    assert_eq!(e.reason, "Unsupported codec: VP8");
    assert!(parse_codec_string("vp8.0").is_err());
}

#[test]
fn vp9_visibility_flags() {
    // marker 10, profile 0, show_existing 0, frame_type 0, show_frame 1
    assert_eq!(vp9_visibility(&[0b1000_0010]), Some((false, true)));
    assert_eq!(vp9_visibility(&[0b1000_0000]), Some((false, false)));
    assert_eq!(vp9_visibility(&[0b1000_1000]), Some((true, true)));
    assert_eq!(vp9_visibility(&[0b0000_0000]), None);
    assert_eq!(vp9_visibility(&[]), None);
}

#[test]
fn vp9_superframes_and_display_events() {
    // Two frames of 2 and 1 bytes: hidden, then shown; index with 1-byte sizes.
    let marker = 0b1100_0001u8;
    let data = vec![0b1000_0000, 0xaa, 0b1000_0010, marker, 2, 1, marker];
    assert_eq!(vp9_superframe_constituents(&data), Some(vec![(0, 2), (2, 3)]));
    assert_eq!(display_event_count("vp09.00.10.08", &data), 1);
    assert_eq!(display_event_count("vp9", &[0b1000_0000]), 0);
    assert_eq!(display_event_count("avc1.42001E", &[0b1000_0000]), 1);
    assert_eq!(vp9_superframe_constituents(&[1, 2, 3]), None);
}

#[test]
fn chunk_metadata_is_consumed_per_display_event() {
    let mut map = BTreeMap::new();
    map.insert(7u64, ChunkMeta { timestamp: 100, duration: Some(10), remaining: 2 });
    let a = consume_chunk_meta(&mut map, 7).unwrap();
    assert_eq!(a.remaining, 2);
    assert_eq!(map.get(&7).unwrap().remaining, 1);
    let b = consume_chunk_meta(&mut map, 7).unwrap();
    assert_eq!(b.timestamp, 100);
    assert!(map.is_empty());
    assert!(consume_chunk_meta(&mut map, 7).is_none());
}

#[test]
fn video_decoder_config_checks() {
    assert!(check_video_decoder_config(Some("vp8"), Some(640), Some(480), None, None).is_ok());
    let e = check_video_decoder_config(None, None, None, None, None).unwrap_err();
    assert_eq!(e.status, ErrorStatus::InvalidArg);
    assert_eq!(e.reason, "codec is required");
    assert_eq!(check_video_decoder_config(Some(""), None, None, None, None).unwrap_err().reason, "codec is required");
    assert_eq!(
        check_video_decoder_config(Some("vp8"), Some(0), Some(0), None, None).unwrap_err().reason,
        "codedWidth must be greater than 0"
    );
    assert_eq!(
        check_video_decoder_config(Some("vp8"), Some(2), Some(0), None, None).unwrap_err().reason,
        "codedHeight must be greater than 0"
    );
    assert_eq!(
        check_video_decoder_config(Some("vp8"), None, None, Some(0), Some(1)).unwrap_err().reason,
        "displayAspectWidth must be greater than 0"
    );
    assert_eq!(
        check_video_decoder_config(Some("vp8"), None, None, Some(1), Some(0)).unwrap_err().reason,
        "displayAspectHeight must be greater than 0"
    );
}

#[test]
fn decoder_hardware_only_when_preferred() {
    assert_eq!(decoder_hw_type(Some(HardwareAcceleration::PreferHardware), TargetOs::MacOs), Some(AVHWDeviceType::Videotoolbox));
    assert_eq!(decoder_hw_type(Some(HardwareAcceleration::PreferHardware), TargetOs::Other), Some(AVHWDeviceType::Cuda));
    assert_eq!(decoder_hw_type(Some(HardwareAcceleration::NoPreference), TargetOs::Linux), None);
    assert_eq!(decoder_hw_type(Some(HardwareAcceleration::PreferSoftware), TargetOs::Linux), None);
    assert_eq!(decoder_hw_type(None, TargetOs::Windows), None);
    assert_eq!(decoder_thread_count(true), 1);
    assert_eq!(decoder_thread_count(false), 0);
}

#[test]
fn decoder_extradata_conversion() {
    // avcC with one SPS and one PPS.
    let avcc = vec![1, 0x42, 0x00, 0x1E, 0xFF, 0xE1, 0, 2, 0x67, 0x42, 1, 0, 1, 0x68];
    let annexb = vec![0, 0, 0, 1, 0x67, 0x42, 0, 0, 0, 1, 0x68];
    assert_eq!(decoder_extradata("avc1.42001E", Some(&avcc), false), Some(annexb));
    // Hardware decoders take the record as it is.
    assert_eq!(decoder_extradata("avc1.42001E", Some(&avcc), true), Some(avcc.clone()));
    // Other codecs take the description as it is.
    assert_eq!(decoder_extradata("vp09.00.10.08", Some(&avcc), false), Some(avcc.clone()));
    assert_eq!(decoder_extradata("avc1.42001E", None, false), None);
}

#[test]
fn support_candidates() {
    assert_eq!(support_candidate("vp8", Some(640), Some(480)), Some(AVCodecID::Vp8));
    assert_eq!(support_candidate("vp8", Some(20000), Some(480)), None);
    assert_eq!(support_candidate("vp8", Some(20000), None), Some(AVCodecID::Vp8));
    assert_eq!(support_candidate("unknown", None, None), None);
}

fn meta(timestamp: i64, duration: Option<i64>, remaining: u32) -> ChunkMeta {
    ChunkMeta { timestamp, duration, remaining }
}

#[test]
fn decode_input_conversion() {
    let avcc = vec![0, 0, 0, 2, 0x65, 0xAA];
    let annexb = vec![0, 0, 0, 1, 0x65, 0xAA];
    let extradata = vec![0, 0, 0, 1, 0x67];
    assert_eq!(decode_input("avc1.42001E", &avcc, false, false, Some(&extradata)), annexb);
    let mut with_ps = extradata.clone();
    with_ps.extend_from_slice(&annexb);
    assert_eq!(decode_input("avc1.42001E", &avcc, false, true, Some(&extradata)), with_ps);
    assert_eq!(decode_input("avc1.42001E", &avcc, false, true, None), annexb);
    assert_eq!(decode_input("avc1.42001E", &avcc, true, true, Some(&extradata)), avcc);
    assert_eq!(decode_input("vp8", &avcc, false, true, Some(&extradata)), avcc);
}

#[test]
fn hardware_watch_escalates_after_silence() {
    let mut w = HwWatch::new(true, HardwareAcceleration::PreferHardware);
    assert!(w.buffers_chunks());
    for _ in 0..SILENT_FAILURE_THRESHOLD - 1 {
        assert_eq!(w.on_empty_output(), HwAction::Continue);
    }
    assert_eq!(w.on_empty_output(), HwAction::Fail);
    let mut n = HwWatch::new(true, HardwareAcceleration::NoPreference);
    assert_eq!(n.on_decode_error(), HwAction::FallBack);
    n.fell_back();
    assert!(!n.buffers_chunks());
    assert_eq!(n.on_decode_error(), HwAction::Continue);
    let mut o = HwWatch::new(true, HardwareAcceleration::PreferHardware);
    o.on_empty_output();
    o.on_output();
    assert!(o.first_output_produced);
    assert_eq!(o.silent_decode_count, 0);
    assert!(!o.buffers_chunks());
    assert_eq!(o.on_decode_error(), HwAction::Continue);
    assert_eq!(o.on_empty_output(), HwAction::Continue);
}

#[test]
fn pending_chunk_lookup() {
    let mut m = BTreeMap::new();
    assert_eq!(first_pending(&m), None);
    m.insert(7, meta(100, None, 1));
    m.insert(3, meta(200, None, 1));
    m.insert(5, meta(100, Some(4), 1));
    assert_eq!(first_pending(&m), Some(3));
    assert_eq!(oldest_with_timestamp(&m, 100), Some(5));
    assert_eq!(oldest_with_timestamp(&m, 300), None);
}

#[test]
fn frame_metadata_resolution() {
    let mut m = BTreeMap::new();
    m.insert(1, meta(1000, Some(40), 2));
    m.insert(2, meta(2000, Some(40), 1));
    // A frame tagged with a live chunk takes its timing.
    assert_eq!(resolve_frame_metadata(&mut m, 1000, 1, 0, (0, None)), (1000, Some(40)));
    assert_eq!(m.get(&1).unwrap().remaining, 1);
    // A re-emitted frame (tag contradicts its timestamp) keeps its own
    // timestamp and takes the matching chunk's duration.
    assert_eq!(resolve_frame_metadata(&mut m, 2000, 1, 99, (0, None)), (2000, Some(40)));
    assert!(!m.contains_key(&2));
    // An untagged frame without a timestamp takes the oldest chunk.
    assert_eq!(resolve_frame_metadata(&mut m, i64::MIN, 0, 0, (0, None)), (1000, Some(40)));
    assert!(m.is_empty());
    // Nothing pending: the fallback.
    assert_eq!(resolve_frame_metadata(&mut m, i64::MIN, 0, 0, (5, Some(6))), (5, Some(6)));
    // A frame with its own duration keeps it when not re-emitted.
    m.insert(9, meta(3000, Some(40), 1));
    assert_eq!(resolve_frame_metadata(&mut m, 3000, 0, 33, (0, None)), (3000, Some(33)));
    assert!(m.is_empty());
}

#[test]
fn codec_defined_refuses_cuts_inside_a_character() {
    assert!(codec_defined("avc1.42001E"));
    assert!(codec_defined("av01.0.04M.08"));
    assert!(codec_defined("hev1.A1.6.L93.B0"));
    assert!(codec_defined("vp8"));
    let avc = "avc1.4\u{e9}01E";
    assert!(!avc_validation_is_defined(avc));
    assert!(!codec_defined(avc));
    let av1 = "av01.0.0\u{e9}.08";
    assert!(!av1_validation_is_defined(av1));
    assert!(!codec_defined(av1));
    let hevc = "hev1.\u{e9}1.6";
    assert!(!hevc_validation_is_defined(hevc));
    assert!(!codec_defined(hevc));
    // A miscased string is refused before any slicing.
    assert!(codec_defined("AVC1.4\u{e9}01E"));
    if codec_defined("avc1.640028") {
        assert_eq!(parse_codec_string("avc1.640028").unwrap(), AVCodecID::H264);
    }
}
