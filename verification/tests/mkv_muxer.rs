use webcodecs::codec_id::AVCodecID;
use webcodecs::mkv_muxer::MkvFormat;
use webcodecs::muxer_base::{ContainerFormat, MuxerFormat};

#[test]
fn test_parse_mkv_video_codec() {
    assert!(matches!(MkvFormat::parse_video_codec("avc1.42001E"), Ok(AVCodecID::H264)));
    assert!(matches!(MkvFormat::parse_video_codec("hev1.1.6.L93.B0"), Ok(AVCodecID::Hevc)));
    assert!(matches!(MkvFormat::parse_video_codec("vp9"), Ok(AVCodecID::Vp9)));
    assert!(matches!(MkvFormat::parse_video_codec("av01.0.04M.08"), Ok(AVCodecID::Av1)));
}

#[test]
fn test_parse_mkv_audio_codec() {
    assert!(matches!(MkvFormat::parse_audio_codec("mp4a.40.2"), Ok(AVCodecID::Aac)));
    assert!(matches!(MkvFormat::parse_audio_codec("opus"), Ok(AVCodecID::Opus)));
    assert!(matches!(MkvFormat::parse_audio_codec("flac"), Ok(AVCodecID::Flac)));
    assert!(matches!(MkvFormat::parse_audio_codec("vorbis"), Ok(AVCodecID::Vorbis)));
    assert!(matches!(MkvFormat::parse_audio_codec("ac3"), Ok(AVCodecID::Ac3)));
    assert!(matches!(MkvFormat::parse_audio_codec("alac"), Ok(AVCodecID::Alac)));
}

#[test]
fn mkv_audio_names_and_errors() {
    assert!(matches!(MkvFormat::parse_audio_codec("PCM-S16"), Ok(AVCodecID::PcmS16le)));
    assert!(matches!(MkvFormat::parse_audio_codec("AC-3"), Ok(AVCodecID::Ac3)));
    assert!(matches!(MkvFormat::parse_audio_codec("mp3"), Ok(AVCodecID::Mp3)));
    let e = MkvFormat::parse_audio_codec("speex").unwrap_err();
    assert_eq!(e.reason, "Unsupported audio codec: speex");
    let v = MkvFormat::parse_video_codec("theora").unwrap_err();
    assert_eq!(v.reason, "Invalid codec string: theora");
}

#[test]
fn mkv_frame_sizes_and_format() {
    assert_eq!(MkvFormat::get_audio_frame_size(AVCodecID::Ac3), Some(1536));
    assert_eq!(MkvFormat::get_audio_frame_size(AVCodecID::Aac), Some(1024));
    assert_eq!(MkvFormat::get_audio_frame_size(AVCodecID::Flac), None);
    assert_eq!(MkvFormat::format(), ContainerFormat::Mkv);
    let o = MkvFormat::default_muxer_options();
    assert!(!o.fast_start && !o.fragmented && !o.live);
}
