use webcodecs::codec_id::AVCodecID;
use webcodecs::mp4_muxer::{check_mp4_track_codec, mp4_muxer_options, Mp4Format};
use webcodecs::muxer_base::{ContainerFormat, MuxerFormat};

#[test]
fn test_parse_video_codec() {
    assert!(matches!(Mp4Format::parse_video_codec("avc1.42001E"), Ok(AVCodecID::H264)));
    assert!(matches!(Mp4Format::parse_video_codec("hev1.1.6.L93.B0"), Ok(AVCodecID::Hevc)));
    assert!(matches!(Mp4Format::parse_video_codec("av01.0.04M.08"), Ok(AVCodecID::Av1)));
    assert!(matches!(Mp4Format::parse_video_codec("vp9"), Ok(AVCodecID::Vp9)));
    assert!(matches!(Mp4Format::parse_video_codec("vp09.00.10.08"), Ok(AVCodecID::Vp9)));
}

#[test]
fn mp4_refuses_vp8_and_unknown_video() {
    let e = Mp4Format::parse_video_codec("vp8").unwrap_err();
    assert_eq!(
        e.reason,
        "VP8/VP9 are not supported in MP4 container. Use WebM or MKV instead: vp8"
    );
    let u = Mp4Format::parse_video_codec("theora").unwrap_err();
    assert_eq!(u.reason, "Invalid codec string: theora");
}

#[test]
fn test_parse_audio_codec() {
    assert!(matches!(Mp4Format::parse_audio_codec("mp4a.40.2"), Ok(AVCodecID::Aac)));
    assert!(matches!(Mp4Format::parse_audio_codec("opus"), Ok(AVCodecID::Opus)));
    assert!(matches!(Mp4Format::parse_audio_codec("mp3"), Ok(AVCodecID::Mp3)));
    assert!(matches!(Mp4Format::parse_audio_codec("flac"), Ok(AVCodecID::Flac)));
}

#[test]
fn mp4_refuses_webm_and_raw_audio() {
    let v = Mp4Format::parse_audio_codec("Vorbis").unwrap_err();
    assert_eq!(v.reason, "Vorbis is not supported in MP4 container. Use WebM or MKV instead");
    let p = Mp4Format::parse_audio_codec("pcm-f32").unwrap_err();
    assert_eq!(p.reason, "PCM audio is not supported in MP4 container. Use MKV or WAV instead");
    let a = Mp4Format::parse_audio_codec("alac").unwrap_err();
    assert_eq!(a.reason, "Unsupported audio codec for MP4: alac");
    assert_eq!(Mp4Format::format(), ContainerFormat::Mp4);
    assert_eq!(Mp4Format::get_audio_frame_size(AVCodecID::Opus), Some(960));
    assert_eq!(Mp4Format::get_audio_frame_size(AVCodecID::Ac3), None);
}

#[test]
fn mp4_track_support_and_options() {
    assert!(check_mp4_track_codec(true, AVCodecID::H264, "avc1.42001E").is_ok());
    let e = check_mp4_track_codec(true, AVCodecID::Vp9, "vp9").unwrap_err();
    assert_eq!(e.reason, "Video codec vp9 is not supported in MP4 container");
    let a = check_mp4_track_codec(false, AVCodecID::Vorbis, "vorbis").unwrap_err();
    assert_eq!(a.reason, "Audio codec vorbis is not supported in MP4 container");
    let o = mp4_muxer_options(Some(true), None, false).unwrap();
    assert!(o.fast_start && !o.fragmented && !o.live);
    let err = mp4_muxer_options(Some(true), Some(true), true).unwrap_err();
    assert_eq!(
        err.reason,
        "fastStart is not compatible with streaming mode. Use fragmented: true for streaming."
    );
}
