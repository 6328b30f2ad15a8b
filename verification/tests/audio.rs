use webcodecs::audio_codec::{
    audio_decoder_codec, check_audio_config, get_encoder_sample_format, parse_audio_codec_string,
};
use webcodecs::audio_encoder::{frame_duration_us, EncodeTimeline};
use webcodecs::audio_data::{
    allocation_size, audio_duration, calculate_buffer_size, check_destination_size,
    check_frame_data_size, compute_copy_plan, copy_samples_verbatim, number_of_planes,
    AVSampleFormat, AudioSampleFormat, CopyOptions, CopyPlanError, parse_sample_format, sample_source,
};
use webcodecs::codec_id::AVCodecID;
use webcodecs::error::ErrorStatus;

#[test]
fn sample_format_properties() {
    assert_eq!(AudioSampleFormat::S16Planar.bytes_per_sample(), 2);
    assert_eq!(AudioSampleFormat::F32.bytes_per_sample(), 4);
    assert!(AudioSampleFormat::U8Planar.is_planar());
    assert!(!AudioSampleFormat::S32.is_planar());
    assert_eq!(AudioSampleFormat::F32Planar.base(), AudioSampleFormat::F32);
    assert_eq!(AudioSampleFormat::from_av_format(AVSampleFormat::Fltp), Some(AudioSampleFormat::F32Planar));
    assert_eq!(AudioSampleFormat::from_av_format(AVSampleFormat::Dbl), None);
    assert_eq!(AudioSampleFormat::S16.to_av_format(), AVSampleFormat::S16);
    assert_eq!(number_of_planes(AudioSampleFormat::F32Planar, 6), 6);
    assert_eq!(number_of_planes(AudioSampleFormat::F32, 6), 1);
}

fn opts(plane_index: u32, frame_offset: Option<u32>, frame_count: Option<u32>, format: Option<AudioSampleFormat>) -> CopyOptions {
    CopyOptions { plane_index, frame_offset, frame_count, format }
}

#[test]
fn copy_plan_counts_and_errors() {
    let p = compute_copy_plan(AudioSampleFormat::F32, 2, 1024, &opts(0, None, None, None)).unwrap();
    assert_eq!((p.copy_frames, p.element_count), (1024, 2048));
    assert_eq!(allocation_size(&p).unwrap(), 8192);
    let q = compute_copy_plan(AudioSampleFormat::F32, 2, 1024, &opts(1, Some(24), Some(100), Some(AudioSampleFormat::S16Planar))).unwrap();
    assert_eq!((q.copy_frames, q.element_count), (100, 100));
    assert_eq!(allocation_size(&q).unwrap(), 200);
    let e = compute_copy_plan(AudioSampleFormat::F32, 2, 1024, &opts(1, None, None, None)).unwrap_err();
    assert_eq!(e, CopyPlanError::PlaneIndex { plane_index: 1, planes: 1 });
    assert_eq!(e.message(), "planeIndex 1 is out of bounds (numberOfPlanes is 1)");
    let f = compute_copy_plan(AudioSampleFormat::F32, 2, 10, &opts(0, Some(10), None, None)).unwrap_err();
    assert_eq!(f.message(), "frameOffset 10 is out of bounds (numberOfFrames is 10)");
    let g = compute_copy_plan(AudioSampleFormat::F32, 2, 10, &opts(0, Some(4), Some(7), None)).unwrap_err();
    assert_eq!(g.message(), "frameCount 7 exceeds the 6 frames available after frameOffset");
}

#[test]
fn destination_and_source_size_checks() {
    let p = compute_copy_plan(AudioSampleFormat::S16, 2, 4, &opts(0, None, None, None)).unwrap();
    assert!(check_destination_size(&p, 16).is_ok());
    assert_eq!(check_destination_size(&p, 15).unwrap_err(), "destination buffer too small: need 16 bytes, got 15");
    assert_eq!(calculate_buffer_size(AudioSampleFormat::S32Planar, 10, 2), 80);
    assert!(check_frame_data_size(AudioSampleFormat::U8, 4, 2, 8).is_ok());
    let e = check_frame_data_size(AudioSampleFormat::U8Planar, 4, 2, 7).unwrap_err();
    assert_eq!(e.status, ErrorStatus::InvalidArg);
    assert_eq!(e.reason, "Data buffer too small for planar format");
    assert_eq!(audio_duration(None, 48000, 48000), 1_000_000);
    assert_eq!(audio_duration(Some(5), 48000, 48000), 5);
    assert_eq!(audio_duration(None, 10, 0), 0);
}

#[test]
fn verbatim_copy_between_layouts() {
    // Two channels of 16-bit samples, interleaved: L0 R0 L1 R1 L2 R2
    let interleaved: Vec<u8> = vec![1, 1, 2, 2, 3, 3, 4, 4, 5, 5, 6, 6];
    let planes = vec![interleaved.clone()];
    // Extract the right channel from frame 1 on, as one plane.
    let p = compute_copy_plan(AudioSampleFormat::S16, 2, 3, &opts(1, Some(1), None, Some(AudioSampleFormat::S16Planar))).unwrap();
    let mut dest = vec![0u8; 4];
    copy_samples_verbatim(AudioSampleFormat::S16, &p, 2, 1, 1, &planes, &mut dest);
    assert_eq!(dest, vec![4, 4, 6, 6]);
    // Interleave two planes.
    let planar = vec![vec![1, 2, 3], vec![7, 8, 9]];
    let q = compute_copy_plan(AudioSampleFormat::U8Planar, 2, 3, &opts(0, None, None, Some(AudioSampleFormat::U8))).unwrap();
    let mut out = vec![0u8; 7];
    copy_samples_verbatim(AudioSampleFormat::U8Planar, &q, 2, 0, 0, &planar, &mut out);
    assert_eq!(out, vec![1, 7, 2, 8, 3, 9, 0]);
}

#[test]
fn audio_codec_strings() {
    assert!(matches!(parse_audio_codec_string("mp4a.40.2"), Ok(AVCodecID::Aac)));
    assert!(matches!(parse_audio_codec_string("MP4A.6B"), Ok(AVCodecID::Mp3)));
    assert!(matches!(parse_audio_codec_string("pcm_f32le"), Ok(AVCodecID::PcmF32le)));
    assert!(matches!(parse_audio_codec_string("pcm-s16"), Ok(AVCodecID::PcmS16le)));
    assert!(matches!(parse_audio_codec_string("ac-3"), Ok(AVCodecID::Ac3)));
    let e = parse_audio_codec_string("mp4a.67").unwrap_err();
    assert_eq!(e.reason, "Unsupported audio codec: mp4a.67");
    assert_eq!(get_encoder_sample_format(AVCodecID::Opus), AVSampleFormat::Flt);
    assert_eq!(get_encoder_sample_format(AVCodecID::Mp3), AVSampleFormat::S16p);
    assert_eq!(get_encoder_sample_format(AVCodecID::Png), AVSampleFormat::Fltp);
}

#[test]
fn audio_config_checks() {
    assert!(check_audio_config(Some("opus"), Some(true), Some(2), None).is_ok());
    assert!(check_audio_config(Some("opus"), Some(true), Some(2), Some(true)).is_ok());
    let msg = |r: Result<(), webcodecs::error::CodecError>| r.unwrap_err().reason;
    assert_eq!(msg(check_audio_config(None, Some(true), Some(2), None)), "codec is required");
    assert_eq!(msg(check_audio_config(Some(""), Some(true), Some(2), None)), "codec is required");
    assert_eq!(msg(check_audio_config(Some("opus"), Some(false), Some(2), None)), "sampleRate must be greater than 0");
    assert_eq!(msg(check_audio_config(Some("opus"), None, Some(2), None)), "sampleRate is required");
    assert_eq!(msg(check_audio_config(Some("opus"), Some(true), Some(0), None)), "numberOfChannels must be greater than 0");
    assert_eq!(msg(check_audio_config(Some("opus"), Some(true), None, None)), "numberOfChannels is required");
    assert_eq!(msg(check_audio_config(Some("opus"), Some(true), Some(1), Some(false))), "bitrate must be greater than 0");
    assert_eq!(check_audio_config(None, None, None, None).unwrap_err().status, ErrorStatus::InvalidArg);
}

#[test]
fn flac_decoder_needs_description() {
    assert_eq!(audio_decoder_codec("FLAC", true).ok(), Some(AVCodecID::Flac));
    assert_eq!(
        audio_decoder_codec("flac", false).unwrap_err().reason,
        "NotSupportedError: FLAC codec requires a description (STREAMINFO)"
    );
    assert_eq!(audio_decoder_codec("opus", false).ok(), Some(AVCodecID::Opus));
    assert_eq!(audio_decoder_codec("speex", true).unwrap_err().reason, "Unsupported audio codec: speex");
}

#[test]
fn encoder_timeline_stamps_frames_from_first_input() {
    let mut t = EncodeTimeline::new();
    t.note_input(1_000);
    t.note_input(5_000);
    assert_eq!(t.base_timestamp, Some(1_000));
    // 1024-sample frames at 48 kHz: 21333.33 us each.
    assert_eq!(t.begin_frame(1024, 48_000), 1_000);
    t.frame_encoded();
    assert_eq!(t.begin_frame(1024, 48_000), 1_000 + 21_333);
    t.frame_encoded();
    assert_eq!(t.begin_frame(1024, 48_000), 1_000 + 42_666);
    assert_eq!(t.next_output_timestamp(), Some(1_000));
    assert_eq!(t.next_output_timestamp(), Some(22_333));
    assert_eq!(t.next_output_timestamp(), Some(43_666));
    assert_eq!(t.next_output_timestamp(), None);
    assert!(t.take_decoder_config_due());
    assert!(!t.take_decoder_config_due());
    t.reset();
    assert_eq!(t.base_timestamp, None);
    assert_eq!(t.frame_count, 0);
    assert!(t.take_decoder_config_due());
}

#[test]
fn frame_durations() {
    assert_eq!(frame_duration_us(1024, 48_000), 21_333);
    assert_eq!(frame_duration_us(960, 48_000), 20_000);
    assert_eq!(frame_duration_us(-1024, 48_000), -21_333);
    assert_eq!(frame_duration_us(0, 44_100), 0);
}

#[test]
fn sample_format_names() {
    assert_eq!(parse_sample_format(Some("f32-planar")).ok(), Some(AudioSampleFormat::F32Planar));
    assert_eq!(parse_sample_format(Some("u8")).ok(), Some(AudioSampleFormat::U8));
    assert_eq!(AudioSampleFormat::S16Planar.as_str(), "s16-planar");
    let e = parse_sample_format(Some("f64")).unwrap_err();
    assert_eq!(e.status, ErrorStatus::InvalidArg);
    assert_eq!(e.reason, "Invalid format: f64");
    assert_eq!(parse_sample_format(None).unwrap_err().reason, "format is required");
}

#[test]
fn sample_sources() {
    // Planar from planar: same plane, offset frames.
    assert_eq!(sample_source(AudioSampleFormat::F32Planar, AudioSampleFormat::S16Planar, 3, 2, 1, 10), (1, 13));
    // Planar from interleaved: one channel picked out of frames.
    assert_eq!(sample_source(AudioSampleFormat::F32, AudioSampleFormat::S16Planar, 3, 2, 1, 10), (0, 27));
    // Interleaved from planar: channel e % 2 of frame e / 2.
    assert_eq!(sample_source(AudioSampleFormat::F32Planar, AudioSampleFormat::S16, 5, 2, 0, 10), (1, 12));
    // Interleaved from interleaved.
    assert_eq!(sample_source(AudioSampleFormat::F32, AudioSampleFormat::S16, 5, 2, 0, 10), (0, 25));
}
