use webcodecs::muxer_base::{
    next_audio_pts, next_reordered_video_timestamp, select_video_timestamps,
    strip_hevc_parameter_sets, ContainerFormat, MuxerOptions, MuxerSession, MuxerState,
    StripError, VideoTimestampState, video_time_base,
};

#[test]
fn reordered_vfr_timestamps_advance_by_previous_packet_duration() {
    let first = next_reordered_video_timestamp(i64::MIN, 0);
    let second = next_reordered_video_timestamp(first, 40);
    let third = next_reordered_video_timestamp(second, 20);

    assert_eq!([first, second, third], [0, 40, 60]);
}

#[test]
fn reordered_timestamps_remain_monotonic_without_duration() {
    assert_eq!(next_reordered_video_timestamp(10, 0), 11);
}

fn lp(nal: &[u8]) -> Vec<u8> {
    let mut out = (nal.len() as u32).to_be_bytes().to_vec();
    out.extend_from_slice(nal);
    out
}

const VPS: &[u8] = &[0x40, 0x01, 0xaa];
const SPS: &[u8] = &[0x42, 0x01, 0xbb];
const PPS: &[u8] = &[0x44, 0x01, 0xcc];
const IDR: &[u8] = &[0x28, 0x01, 0xdd];
const AUD: &[u8] = &[0x46, 0x01, 0x50];

fn known_sets() -> Vec<Vec<u8>> {
    vec![VPS.to_vec(), SPS.to_vec(), PPS.to_vec()]
}

fn concat(parts: &[&[u8]]) -> Vec<u8> {
    parts.concat()
}

#[test]
fn strips_parameter_sets_matching_hvcc() {
    let sample = concat(&[&lp(VPS), &lp(SPS), &lp(PPS), &lp(IDR)]);
    let stripped = strip_hevc_parameter_sets(&sample, 4, &known_sets())
        .unwrap()
        .expect("parameter sets should be stripped");
    assert_eq!(stripped, lp(IDR));
}

#[test]
fn strip_keeps_aud_and_non_ps_nals() {
    let sample = concat(&[&lp(AUD), &lp(SPS), &lp(IDR)]);
    let stripped = strip_hevc_parameter_sets(&sample, 4, &known_sets())
        .unwrap()
        .expect("SPS should be stripped");
    assert_eq!(stripped, concat(&[&lp(AUD), &lp(IDR)]));
}

#[test]
fn strip_passes_through_samples_without_parameter_sets() {
    let sample = concat(&[&lp(IDR), &lp(AUD)]);
    assert_eq!(strip_hevc_parameter_sets(&sample, 4, &known_sets()).unwrap(), None);
    assert_eq!(strip_hevc_parameter_sets(&[], 4, &known_sets()).unwrap(), None);
}

#[test]
fn strip_rejects_parameter_set_updates_absent_from_hvcc() {
    let updated_sps: &[u8] = &[0x42, 0x01, 0x99];
    let sample = concat(&[&lp(VPS), &lp(updated_sps), &lp(IDR)]);
    let err = strip_hevc_parameter_sets(&sample, 4, &known_sets()).unwrap_err().message();
    assert!(err.contains("parameter set update"), "{err}");
}

#[test]
fn strip_rejects_malformed_samples() {
    let mut trailing = lp(IDR);
    trailing.push(0xaa);
    assert!(strip_hevc_parameter_sets(&trailing, 4, &known_sets()).is_err());

    let mut zero = 0u32.to_be_bytes().to_vec();
    zero.extend_from_slice(&lp(IDR));
    assert!(strip_hevc_parameter_sets(&zero, 4, &known_sets()).is_err());

    let mut overrun = 0u32.to_be_bytes().to_vec();
    overrun[3] = 10;
    overrun.extend_from_slice(IDR);
    assert!(strip_hevc_parameter_sets(&overrun, 4, &known_sets()).is_err());
}

#[test]
fn strip_supports_short_length_prefixes() {
    let mut sample = vec![SPS.len() as u8];
    sample.extend_from_slice(SPS);
    sample.push(IDR.len() as u8);
    sample.extend_from_slice(IDR);
    let stripped = strip_hevc_parameter_sets(&sample, 1, &known_sets())
        .unwrap()
        .expect("SPS should be stripped");
    let mut expected = vec![IDR.len() as u8];
    expected.extend_from_slice(IDR);
    assert_eq!(stripped, expected);

    let mut sample = (SPS.len() as u16).to_be_bytes().to_vec();
    sample.extend_from_slice(SPS);
    sample.extend_from_slice(&(IDR.len() as u16).to_be_bytes());
    sample.extend_from_slice(IDR);
    let stripped = strip_hevc_parameter_sets(&sample, 2, &known_sets())
        .unwrap()
        .expect("SPS should be stripped");
    let mut expected = (IDR.len() as u16).to_be_bytes().to_vec();
    expected.extend_from_slice(IDR);
    assert_eq!(stripped, expected);
}

#[test]
fn strip_error_variants_and_messages() {
    let mut zero = 0u32.to_be_bytes().to_vec();
    zero.extend_from_slice(&lp(IDR));
    assert_eq!(strip_hevc_parameter_sets(&zero, 4, &known_sets()), Err(StripError::ZeroLengthNal));
    assert_eq!(
        strip_hevc_parameter_sets(&[0, 0], 4, &known_sets()),
        Err(StripError::TruncatedLengthPrefix)
    );
    assert_eq!(
        StripError::NalOverrun.message(),
        "malformed HEVC sample: NAL overruns end of sample"
    );
}

#[test]
fn muxer_state_names() {
    assert_eq!(MuxerState::ConfiguringTracks.as_str(), "configuring");
    assert_eq!(MuxerState::Muxing.as_str(), "muxing");
    assert_eq!(MuxerState::Finalized.as_str(), "finalized");
    assert_eq!(MuxerState::Closed.as_str(), "closed");
}

#[test]
fn video_timestamps_choose_private_pair_first() {
    assert_eq!(select_video_timestamps(100, None, None), (100, 100));
    assert_eq!(select_video_timestamps(100, Some(120), None), (120, 120));
    assert_eq!(select_video_timestamps(100, Some(120), Some(80)), (120, 80));
}

#[test]
fn mp4_decode_timestamps_stay_monotonic() {
    let mut s = VideoTimestampState::new();
    let (p0, d0) = s.arrange(true, 0, 0, 10, false);
    assert_eq!((p0, d0), (0, 0));
    // A decode timestamp going backwards is pushed past the last one.
    let (p1, d1) = s.arrange(true, 5, 0, 10, false);
    assert!(d1 > d0);
    assert!(p1 >= d1);
}

#[test]
fn audio_pts_strictly_increase() {
    assert_eq!(next_audio_pts(-1, 0), 0);
    assert_eq!(next_audio_pts(10, 10), 11);
    assert_eq!(next_audio_pts(10, 50), 50);
}

#[test]
fn muxer_session_life_cycle() {
    let opts = MuxerOptions { fast_start: true, fragmented: false, live: false };
    let mut s = MuxerSession::new_buffer(ContainerFormat::Mp4, opts);
    assert!(s.apply_faststart);
    assert!(!s.muxer_options.fast_start);
    assert_eq!(s.check_finalize().unwrap_err().reason, "No tracks added to muxer");
    assert!(s.check_add_video_track().is_ok());
    s.video_track_added();
    assert_eq!(s.check_add_video_track().unwrap_err().reason, "Video track already added");
    assert!(s.check_muxing().is_err());
    assert!(s.needs_header());
    s.header_written();
    assert_eq!(
        s.check_add_audio_track().unwrap_err().reason,
        "Cannot add track after muxing has started"
    );
    assert!(s.check_muxing().is_ok());
    assert_eq!(s.next_audio_pts(0), 0);
    assert_eq!(s.next_audio_pts(0), 1);
    assert!(s.check_finalize().is_ok());
    s.finalized();
    assert_eq!(s.check_finalize().unwrap_err().reason, "Muxer already finalized");
    assert_eq!(s.state_string(), "finalized");
    assert_eq!(s.check_streaming().unwrap_err().reason, "Not in streaming mode");

    let mkv = MuxerSession::new_buffer(ContainerFormat::Mkv, opts);
    assert!(!mkv.apply_faststart);
    let streaming = MuxerSession::new_streaming(opts);
    assert!(streaming.check_streaming().is_ok());
    assert!(!streaming.apply_faststart);
}

#[test]
fn video_track_time_bases() {
    // 30 fps: 30 doubled to 15360.
    assert_eq!(video_time_base(Some(30)), (1, 15360));
    // 25 fps: 25 * 512 = 12800.
    assert_eq!(video_time_base(Some(25)), (1, 12800));
    assert_eq!(video_time_base(Some(1)), (1, 16384));
    assert_eq!(video_time_base(Some(12000)), (1, 12000));
    assert_eq!(video_time_base(None), (1, 1_000_000));
}
