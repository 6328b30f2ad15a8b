use webcodecs::codec_id::AVCodecID;
use webcodecs::demuxer_base::{
    convert_timestamp, packet_timing, parse_aac_codec_string, parse_h264_codec_string,
    parse_hevc_codec_string, parse_tracks, parse_vp9_codec_string, seek_timestamp, track_duration,
    DemuxerInner, DemuxerState, MediaType, PacketRoute, StreamInfo,
};
use webcodecs::mkv_demuxer::MkvFormat;

#[test]
fn test_convert_timestamp_normal() {
    assert_eq!(convert_timestamp(90, Some((1, 30))), 3_000_000);
}

#[test]
fn test_convert_timestamp_microseconds() {
    // Already in microseconds (1/1000000)
    assert_eq!(convert_timestamp(1_000_000, Some((1, 1_000_000))), 1);
}

#[test]
fn convert_timestamp_microsecond_time_base_rounds_toward_zero() {
    assert_eq!(convert_timestamp(2_500_000, Some((1, 1_000_000))), 2);
    assert_eq!(convert_timestamp(-1_500_000, Some((1, 1_000_000))), -1);
    assert_eq!(convert_timestamp(999_999, Some((1, 1_000_000))), 0);
    assert_eq!(convert_timestamp(i64::MAX, Some((1, 1_000_000))), i64::MAX / 1_000_000);
    // Other time bases with the same ratio use the general formula.
    assert_eq!(convert_timestamp(1_000_000, Some((2, 2_000_000))), 1_000_000);
}

#[test]
fn test_convert_timestamp_overflow_protection() {
    let result = convert_timestamp(i64::MAX / 1000, Some((1, 1)));
    // Should return original on overflow
    assert_eq!(result, i64::MAX / 1000);
}

#[test]
fn test_convert_timestamp_zero_denominator() {
    assert_eq!(convert_timestamp(1000, Some((1, 0))), 1000);
}

#[test]
fn test_parse_h264_codec_string() {
    let extradata = vec![1, 0x64, 0x00, 0x28];
    assert_eq!(parse_h264_codec_string(Some(&extradata)), "avc1.640028");
    assert_eq!(parse_h264_codec_string(None), "avc1.42001E");
    assert_eq!(parse_h264_codec_string(Some(&[0, 0, 0, 0])), "avc1.42001E");
}

#[test]
fn test_parse_hevc_codec_string() {
    assert_eq!(parse_hevc_codec_string(None), "hev1.1.6.L93.B0");
}

#[test]
fn test_parse_vp9_codec_string() {
    assert_eq!(parse_vp9_codec_string(None), "vp09.00.10.08");
}

#[test]
fn test_parse_aac_codec_string() {
    let aac_lc = vec![0x10];
    assert_eq!(parse_aac_codec_string(Some(&aac_lc)), "mp4a.40.2");
    let he_aac = vec![0x28];
    assert_eq!(parse_aac_codec_string(Some(&he_aac)), "mp4a.40.5");
    let he_aac_v2 = vec![0xE8];
    assert_eq!(parse_aac_codec_string(Some(&he_aac_v2)), "mp4a.40.29");
    assert_eq!(parse_aac_codec_string(None), "mp4a.40.2");
}

#[test]
fn test_demuxer_state_strings() {
    assert_eq!(DemuxerState::Unloaded.as_str(), "unloaded");
    assert_eq!(DemuxerState::Ready.as_str(), "ready");
    assert_eq!(DemuxerState::Demuxing.as_str(), "demuxing");
    assert_eq!(DemuxerState::EndOfStream.as_str(), "ended");
    assert_eq!(DemuxerState::Closed.as_str(), "closed");
}

#[test]
fn convert_timestamp_rounds_toward_zero_and_handles_negatives() {
    assert_eq!(convert_timestamp(1, Some((1, 3))), 333_333);
    assert_eq!(convert_timestamp(-1, Some((1, 3))), -333_333);
    assert_eq!(convert_timestamp(7, None), 7);
    assert_eq!(convert_timestamp(5, Some((2, -1))), -10_000_000);
}

#[test]
fn hevc_and_vp9_strings_from_extradata() {
    let mut hvcc = vec![0u8; 23];
    hvcc[0] = 1;
    hvcc[1] = 0x22; // tier flag set, profile 2
    hvcc[12] = 150;
    assert_eq!(parse_hevc_codec_string(Some(&hvcc)), "hev1.2.6.H150.B0");
    let vpcc = [1u8, 0, 0, 0, 2, 41, 0xA0, 0];
    assert_eq!(parse_vp9_codec_string(Some(&vpcc)), "vp09.02.41.10");
    let vpcc_odd_depth = [1u8, 0, 0, 0, 0, 10, 0x90, 0];
    assert_eq!(parse_vp9_codec_string(Some(&vpcc_odd_depth)), "vp09.00.10.08");
}

#[test]
fn track_duration_and_seek_conversion() {
    assert_eq!(track_duration(Some(90), (1, 30)), Some(3_000_000));
    assert_eq!(track_duration(Some(90), (1, 0)), Some(90));
    assert_eq!(track_duration(Some(i64::MAX), (1, 30)), None);
    assert_eq!(track_duration(None, (1, 30)), None);
    // 2 s in a 1/90000 time base
    assert_eq!(seek_timestamp(2_000_000, 0, Some((1, 90_000))), 180_000);
    assert_eq!(seek_timestamp(2_000_000, -1, Some((1, 90_000))), 2_000_000);
    assert_eq!(seek_timestamp(2_000_000, 0, Some((0, 90_000))), 2_000_000);
    assert_eq!(packet_timing(90, 0, Some((1, 30))), (3_000_000, None));
    assert_eq!(packet_timing(90, 3, Some((1, 30))), (3_000_000, Some(100_000)));
}

fn stream(index: i32, media_type: MediaType, codec_id: AVCodecID) -> StreamInfo {
    StreamInfo {
        index,
        media_type,
        codec_id,
        extradata: None,
        width: Some(640),
        height: Some(480),
        sample_rate: None,
        channels: None,
        time_base: (1, 1000),
        duration: Some(5000),
    }
}

#[test]
fn demuxer_selects_first_tracks_and_routes_packets() {
    let streams = vec![
        stream(0, MediaType::Audio, AVCodecID::Opus),
        stream(1, MediaType::Video, AVCodecID::Vp8),
        stream(2, MediaType::Video, AVCodecID::Av1),
    ];
    let tracks = parse_tracks::<MkvFormat>(&streams);
    assert_eq!(tracks.len(), 3);
    assert_eq!(tracks[0].track_type, "audio");
    assert_eq!(tracks[0].codec, "opus");
    assert_eq!(tracks[1].codec, "vp8");
    assert_eq!(tracks[2].codec, "av01.0.04M.08");
    assert_eq!(tracks[1].duration, Some(5_000_000));

    let mut d = DemuxerInner::new();
    assert!(d.check_can_load().is_ok());
    d.finish_load::<MkvFormat>(&streams);
    assert_eq!(d.state, DemuxerState::Ready);
    assert_eq!(d.selected_video_track, Some(1));
    assert_eq!(d.selected_audio_track, Some(0));
    let e = d.check_can_load().unwrap_err();
    assert_eq!(e.reason, "Demuxer already loaded. Call close() first.");

    assert_eq!(d.route_packet(1), PacketRoute::Video);
    assert_eq!(d.route_packet(0), PacketRoute::Audio);
    assert_eq!(d.route_packet(2), PacketRoute::Ignore);

    assert!(d.select_video_track(2).is_ok());
    assert_eq!(d.route_packet(2), PacketRoute::Video);
    assert_eq!(d.select_video_track(0).unwrap_err().reason, "Track 0 is not a video track");
    assert_eq!(d.select_audio_track(1).unwrap_err().reason, "Track 1 is not an audio track");
    assert_eq!(d.select_audio_track(-7).unwrap_err().reason, "Track -7 not found");
    assert_eq!(d.get_tracks().len(), 3);
}

#[test]
fn demuxer_life_cycle() {
    let mut d = DemuxerInner::new();
    assert!(!d.begin_demux());
    assert_eq!(d.state_string(), "unloaded");
    d.finish_load::<MkvFormat>(&vec![]);
    assert_eq!(d.selected_video_track, None);
    assert_eq!(d.seek_stream_index(), -1);
    assert!(d.begin_demux());
    assert_eq!(d.state, DemuxerState::Demuxing);
    d.end_of_stream();
    assert_eq!(d.state_string(), "ended");
    d.after_seek();
    assert_eq!(d.state, DemuxerState::Ready);
    d.close();
    assert_eq!(d.state_string(), "closed");
    assert!(d.get_tracks().is_empty());
}

#[test]
fn decoder_configs_of_selected_tracks() {
    let mut audio = stream(0, MediaType::Audio, AVCodecID::Opus);
    audio.sample_rate = Some(48_000);
    audio.channels = Some(2);
    audio.extradata = Some(vec![1, 2, 3]);
    let streams = vec![audio, stream(1, MediaType::Video, AVCodecID::Vp8)];
    let mut d = DemuxerInner::new();
    assert!(d.get_video_decoder_config::<MkvFormat>(None).is_none());
    d.finish_load::<MkvFormat>(&streams);
    let v = d.get_video_decoder_config::<MkvFormat>(Some(&streams)).unwrap();
    assert_eq!(v.codec, "vp8");
    assert_eq!((v.coded_width, v.coded_height), (640, 480));
    assert_eq!(v.description, None);
    let a = d.get_audio_decoder_config::<MkvFormat>(Some(&streams)).unwrap();
    assert_eq!(a.codec, "opus");
    assert_eq!((a.sample_rate, a.number_of_channels), (48_000, 2));
    assert_eq!(a.description, Some(vec![1, 2, 3]));
    assert!(d.get_video_decoder_config::<MkvFormat>(Some(&vec![])).is_none());
}
