use webcodecs::codec_id::AVCodecID;
use webcodecs::demuxer_base::DemuxerFormat;
use webcodecs::mkv_demuxer::MkvFormat;
use webcodecs::mp4_demuxer::Mp4Format;

#[test]
fn test_mp4_codec_id_to_string() {
    assert!(Mp4Format::codec_id_to_video_string(AVCodecID::H264, None).starts_with("avc1"));
    assert!(Mp4Format::codec_id_to_video_string(AVCodecID::Hevc, None).starts_with("hev1"));
    assert_eq!(Mp4Format::codec_id_to_video_string(AVCodecID::Vp8, None), "vp8");
    assert!(Mp4Format::codec_id_to_video_string(AVCodecID::Vp9, None).starts_with("vp09"));
    assert!(Mp4Format::codec_id_to_video_string(AVCodecID::Av1, None).starts_with("av01"));
}

#[test]
fn test_mp4_audio_codec_id_to_string() {
    assert_eq!(Mp4Format::codec_id_to_audio_string(AVCodecID::Aac, None), "mp4a.40.2");
    assert_eq!(Mp4Format::codec_id_to_audio_string(AVCodecID::Opus, None), "opus");
    assert_eq!(Mp4Format::codec_id_to_audio_string(AVCodecID::Mp3, None), "mp3");
}

#[test]
fn unknown_codecs_fall_back_to_lowercase_names() {
    assert_eq!(Mp4Format::codec_id_to_video_string(AVCodecID::Mjpeg, None), "mjpeg");
    assert_eq!(MkvFormat::codec_id_to_audio_string(AVCodecID::PcmS16le, None), "pcms16le");
    assert_eq!(MkvFormat::codec_id_to_audio_string(AVCodecID::Vorbis, None), "vorbis");
    assert_eq!(
        MkvFormat::codec_id_to_video_string(AVCodecID::H264, Some(&[1, 0x4d, 0x40, 0x1f])),
        "avc1.4D401F"
    );
}
