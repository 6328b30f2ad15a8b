//! Shared demuxer rules: the demuxer state machine, the conversion of stream
//! timestamps to microseconds, the codec strings derived from container
//! extradata, and the tracks a loaded file exposes.

use vstd::prelude::*;
use vstd::slice::slice_to_vec;
use crate::codec_id::{AVCodecID, lowercase_name};
use crate::error::{CodecError, ErrorStatus};
use crate::text::{
    dec2_u8, dec_int, dec_u8, hex2_upper, push_dec2_u8, push_dec_i64, push_dec_u8, push_hex2_upper,
    string_push,
};

verus! {

// ----------------------------------------------------------------------------
// State
// ----------------------------------------------------------------------------

/// Demuxer state machine.
#[derive(Debug, Clone, Copy, PartialEq, Eq, Structural)]
pub enum DemuxerState {
    /// Not yet loaded.
    Unloaded,
    /// File or buffer loaded, ready to demux.
    Ready,
    /// Currently demuxing.
    Demuxing,
    /// All packets read.
    EndOfStream,
    /// Closed.
    Closed,
}

/// The name of each state.
pub open spec fn demuxer_state_name(s: DemuxerState) -> Seq<char> {
    match s {
        DemuxerState::Unloaded => seq!['u', 'n', 'l', 'o', 'a', 'd', 'e', 'd'],
        DemuxerState::Ready => seq!['r', 'e', 'a', 'd', 'y'],
        DemuxerState::Demuxing => seq!['d', 'e', 'm', 'u', 'x', 'i', 'n', 'g'],
        DemuxerState::EndOfStream => seq!['e', 'n', 'd', 'e', 'd'],
        DemuxerState::Closed => seq!['c', 'l', 'o', 's', 'e', 'd'],
    }
}

impl DemuxerState {
    /// The state's name.
    pub fn as_str(&self) -> (s: &'static str)
        ensures
            s@ == demuxer_state_name(*self),
    {
        match self {
            DemuxerState::Unloaded => {
                proof {
                    reveal_strlit("unloaded");
                }
                "unloaded"
            },
            DemuxerState::Ready => {
                proof {
                    reveal_strlit("ready");
                }
                "ready"
            },
            DemuxerState::Demuxing => {
                proof {
                    reveal_strlit("demuxing");
                }
                "demuxing"
            },
            DemuxerState::EndOfStream => {
                proof {
                    reveal_strlit("ended");
                }
                "ended"
            },
            DemuxerState::Closed => {
                proof {
                    reveal_strlit("closed");
                }
                "closed"
            },
        }
    }
}

// ----------------------------------------------------------------------------
// Timestamps
// ----------------------------------------------------------------------------

/// Integer division rounding toward zero, as machine division does.
pub open spec fn trunc_div(x: int, d: int) -> int {
    let q = (if x < 0 {
        -x
    } else {
        x
    }) / (if d < 0 {
        -d
    } else {
        d
    });
    if (x < 0) != (d < 0) {
        -q
    } else {
        q
    }
}

/// Whether `x` fits in an `i64`.
pub open spec fn in_i64(x: int) -> bool {
    i64::MIN <= x <= i64::MAX
}

/// A stream timestamp in microseconds: `ts * 1_000_000 * num / den`, rounded
/// toward zero, computed in 64-bit arithmetic. Without a time base, with a
/// zero denominator, or when a step overflows, the timestamp is returned as
/// it is. A time base of exactly one microsecond (`1/1_000_000`) is set
/// apart: there the timestamp is divided by 1_000_000, rounded toward zero.
pub open spec fn spec_convert_timestamp(ts: i64, time_base: Option<(i32, i32)>) -> i64 {
    match time_base {
        Some((num, den)) => {
            if num == 1 && den == 1_000_000 {
                trunc_div(ts as int, 1_000_000) as i64
            } else {
                let a = ts * 1_000_000;
                let v = a * num;
                let q = trunc_div(v, den as int);
                if den != 0 && in_i64(a) && in_i64(v) && in_i64(q) {
                    q as i64
                } else {
                    ts
                }
            }
        },
        None => ts,
    }
}

/// Convert a timestamp from a stream time base to microseconds.
pub fn convert_timestamp(ts: i64, time_base: Option<(i32, i32)>) -> (r: i64)
    ensures
        r == spec_convert_timestamp(ts, time_base),
{
    match time_base {
        Some((num, den)) => {
            if num == 1 && den == 1_000_000 {
                return match ts.checked_div(1_000_000) {
                    Some(q) => q,
                    None => ts,
                };
            }
            if den == 0 {
                return ts;
            }
            match ts.checked_mul(1_000_000) {
                Some(a) => match a.checked_mul(num as i64) {
                    Some(v) => match v.checked_div(den as i64) {
                        Some(q) => q,
                        None => ts,
                    },
                    None => ts,
                },
                None => ts,
            }
        },
        None => ts,
    }
}

/// A track's duration in microseconds from its duration in time-base units:
/// `d * 1_000_000 * num / den`, rounded toward zero; `d` itself when the
/// denominator is zero; nothing when a step overflows.
pub open spec fn spec_track_duration(duration: Option<i64>, time_base: (i32, i32)) -> Option<i64> {
    match duration {
        Some(d) => {
            let (num, den) = time_base;
            let a = d * 1_000_000;
            let v = a * num;
            let q = trunc_div(v, den as int);
            if den == 0 {
                Some(d)
            } else if in_i64(a) && in_i64(v) && in_i64(q) {
                Some(q as i64)
            } else {
                None
            }
        },
        None => None,
    }
}

/// A track's duration in microseconds.
pub fn track_duration(duration: Option<i64>, time_base: (i32, i32)) -> (r: Option<i64>)
    ensures
        r == spec_track_duration(duration, time_base),
{
    match duration {
        Some(d) => {
            let (num, den) = time_base;
            if den == 0 {
                return Some(d);
            }
            match d.checked_mul(1_000_000) {
                Some(a) => match a.checked_mul(num as i64) {
                    Some(v) => v.checked_div(den as i64),
                    None => None,
                },
                None => None,
            }
        },
        None => None,
    }
}

/// A seek target in the units the seek takes: in the selected stream's time
/// base (`ts * den / (1_000_000 * num)`, rounded toward zero, wrapped to 64
/// bits) when a stream is selected and its time base is positive, otherwise
/// in microseconds.
pub open spec fn spec_seek_timestamp(
    timestamp_us: i64,
    stream_index: i32,
    time_base: Option<(i32, i32)>,
) -> i64 {
    match time_base {
        Some((num, den)) => if stream_index >= 0 && num > 0 && den > 0 {
            trunc_div(timestamp_us * den, 1_000_000 * num) as i64
        } else {
            timestamp_us
        },
        None => timestamp_us,
    }
}

/// Convert a seek position in microseconds to the seek's units.
pub fn seek_timestamp(timestamp_us: i64, stream_index: i32, time_base: Option<(i32, i32)>) -> (r:
    i64)
    ensures
        r == spec_seek_timestamp(timestamp_us, stream_index, time_base),
{
    match time_base {
        Some((num, den)) => {
            if stream_index >= 0 && num > 0 && den > 0 {
                let t = timestamp_us as i128;
                let n = den as i128;
                assert(-0x8000_0000_0000_0000_0000_0000 <= t * n <= 0x8000_0000_0000_0000_0000_0000)
                    by (nonlinear_arith)
                    requires
                        -0x8000_0000_0000_0000 <= t <= 0x8000_0000_0000_0000,
                        0 < n <= 0x8000_0000,
                ;
                let x: i128 = t * n;
                let d: i128 = 1_000_000i128 * (num as i128);
                match x.checked_div(d) {
                    Some(q) => #[verifier::truncate] (q as i64),
                    None => timestamp_us,
                }
            } else {
                timestamp_us
            }
        },
        None => timestamp_us,
    }
}

/// A packet's timestamp and duration in microseconds: the duration is kept
/// only when positive.
pub open spec fn spec_packet_timing(pts: i64, duration: i64, time_base: Option<(i32, i32)>) -> (
    i64,
    Option<i64>,
) {
    (
        spec_convert_timestamp(pts, time_base),
        if duration > 0 {
            Some(spec_convert_timestamp(duration, time_base))
        } else {
            None
        },
    )
}

/// The timestamp and duration of a demuxed packet, in microseconds.
pub fn packet_timing(pts: i64, duration: i64, time_base: Option<(i32, i32)>) -> (r: (
    i64,
    Option<i64>,
))
    ensures
        r == spec_packet_timing(pts, duration, time_base),
{
    let timestamp = convert_timestamp(pts, time_base);
    let dur = if duration > 0 {
        Some(convert_timestamp(duration, time_base))
    } else {
        None
    };
    (timestamp, dur)
}

// ----------------------------------------------------------------------------
// Codec strings from extradata
// ----------------------------------------------------------------------------

/// The bytes of an optional slice.
pub open spec fn opt_slice(o: Option<&[u8]>) -> Option<Seq<u8>> {
    match o {
        Some(s) => Some(s@),
        None => None,
    }
}

/// H.264: `avc1.PPCCLL` from an avcC (version 1, four bytes or more), else
/// `avc1.42001E` (Baseline, level 3.0).
pub open spec fn spec_h264_codec_string(e: Option<Seq<u8>>) -> Seq<char> {
    let default = seq!['a', 'v', 'c', '1', '.', '4', '2', '0', '0', '1', 'E'];
    match e {
        Some(d) => if d.len() >= 4 && d[0] == 1 {
            seq!['a', 'v', 'c', '1', '.'] + hex2_upper(d[1]) + hex2_upper(d[2]) + hex2_upper(d[3])
        } else {
            default
        },
        None => default,
    }
}

/// Codec string for H.264 from avcC extradata.
pub fn parse_h264_codec_string(extradata: Option<&[u8]>) -> (s: String)
    ensures
        s@ == spec_h264_codec_string(opt_slice(extradata)),
{
    match extradata {
        Some(data) => {
            if data.len() >= 4 && data[0] == 1 {
                let mut s = String::from_str("avc1.");
                proof {
                    reveal_strlit("avc1.");
                }
                push_hex2_upper(&mut s, data[1]);
                push_hex2_upper(&mut s, data[2]);
                push_hex2_upper(&mut s, data[3]);
                assert(s@ =~= spec_h264_codec_string(opt_slice(extradata)));
                return s;
            }
        },
        None => {},
    }
    proof {
        reveal_strlit("avc1.42001E");
    }
    String::from_str("avc1.42001E")
}

/// HEVC: `hev1.{profile}.6.{L|H}{level}.B0` from an hvcC (version 1, 13 bytes
/// or more: profile in the low five bits of byte 1, tier in bit 5, level in
/// byte 12), else `hev1.1.6.L93.B0`.
pub open spec fn spec_hevc_codec_string(e: Option<Seq<u8>>) -> Seq<char> {
    let default = seq!['h', 'e', 'v', '1', '.', '1', '.', '6', '.', 'L', '9', '3', '.', 'B', '0'];
    match e {
        Some(d) => if d.len() >= 13 && d[0] == 1 {
            seq!['h', 'e', 'v', '1', '.'] + dec_u8(d[1] % 32) + seq!['.', '6', '.'] + seq![
                if (d[1] / 32) % 2 == 1 {
                    'H'
                } else {
                    'L'
                },
            ] + dec_u8(d[12]) + seq!['.', 'B', '0']
        } else {
            default
        },
        None => default,
    }
}

/// Codec string for HEVC from hvcC extradata.
pub fn parse_hevc_codec_string(extradata: Option<&[u8]>) -> (s: String)
    ensures
        s@ == spec_hevc_codec_string(opt_slice(extradata)),
{
    match extradata {
        Some(data) => {
            if data.len() >= 13 && data[0] == 1 {
                let general_profile_idc = data[1] % 32;
                let general_tier_flag = (data[1] / 32) % 2;
                let general_level_idc = data[12];
                let mut s = String::from_str("hev1.");
                proof {
                    reveal_strlit("hev1.");
                    reveal_strlit(".6.");
                    reveal_strlit(".B0");
                }
                push_dec_u8(&mut s, general_profile_idc);
                s.append(".6.");
                string_push(
                    &mut s,
                    if general_tier_flag == 1 {
                        'H'
                    } else {
                        'L'
                    },
                );
                push_dec_u8(&mut s, general_level_idc);
                s.append(".B0");
                assert(s@ =~= spec_hevc_codec_string(opt_slice(extradata)));
                return s;
            }
        },
        None => {},
    }
    proof {
        reveal_strlit("hev1.1.6.L93.B0");
    }
    String::from_str("hev1.1.6.L93.B0")
}

/// The bit depth written in a VP9 codec string: 10 or 12 when the record
/// says so, 8 otherwise.
pub open spec fn vp9_bit_depth_code(bit_depth: u8) -> u8 {
    if bit_depth == 10 {
        10
    } else if bit_depth == 12 {
        12
    } else {
        8
    }
}

/// VP9: `vp09.PP.LL.DD` from a vpcC record (eight bytes or more: profile in
/// byte 4, level in byte 5, bit depth in the high four bits of byte 6), else
/// `vp09.00.10.08`.
pub open spec fn spec_vp9_codec_string(e: Option<Seq<u8>>) -> Seq<char> {
    let default = seq!['v', 'p', '0', '9', '.', '0', '0', '.', '1', '0', '.', '0', '8'];
    match e {
        Some(d) => if d.len() >= 8 {
            seq!['v', 'p', '0', '9', '.'] + dec2_u8(d[4]) + seq!['.'] + dec2_u8(d[5]) + seq!['.']
                + dec2_u8(vp9_bit_depth_code(d[6] / 16))
        } else {
            default
        },
        None => default,
    }
}

/// Codec string for VP9 from vpcC extradata.
pub fn parse_vp9_codec_string(extradata: Option<&[u8]>) -> (s: String)
    ensures
        s@ == spec_vp9_codec_string(opt_slice(extradata)),
{
    match extradata {
        Some(data) => {
            if data.len() >= 8 {
                let profile = data[4];
                let level = data[5];
                let bit_depth = data[6] / 16;
                let bit_depth_code: u8 = if bit_depth == 10 {
                    10
                } else if bit_depth == 12 {
                    12
                } else {
                    8
                };
                let mut s = String::from_str("vp09.");
                proof {
                    reveal_strlit("vp09.");
                }
                push_dec2_u8(&mut s, profile);
                string_push(&mut s, '.');
                push_dec2_u8(&mut s, level);
                string_push(&mut s, '.');
                push_dec2_u8(&mut s, bit_depth_code);
                assert(s@ =~= spec_vp9_codec_string(opt_slice(extradata)));
                return s;
            }
        },
        None => {},
    }
    proof {
        reveal_strlit("vp09.00.10.08");
    }
    String::from_str("vp09.00.10.08")
}

/// AAC: `mp4a.40.{object type}` with the object type in the top five bits of
/// the AudioSpecificConfig's first byte, else `mp4a.40.2` (AAC-LC).
pub open spec fn spec_aac_codec_string(e: Option<Seq<u8>>) -> Seq<char> {
    match e {
        Some(d) => if d.len() > 0 {
            seq!['m', 'p', '4', 'a', '.', '4', '0', '.'] + dec_u8(d[0] / 8)
        } else {
            seq!['m', 'p', '4', 'a', '.', '4', '0', '.', '2']
        },
        None => seq!['m', 'p', '4', 'a', '.', '4', '0', '.', '2'],
    }
}

/// Codec string for AAC from an AudioSpecificConfig.
pub fn parse_aac_codec_string(extradata: Option<&[u8]>) -> (s: String)
    ensures
        s@ == spec_aac_codec_string(opt_slice(extradata)),
{
    match extradata {
        Some(data) => {
            if data.len() > 0 {
                let object_type = data[0] / 8;
                let mut s = String::from_str("mp4a.40.");
                proof {
                    reveal_strlit("mp4a.40.");
                }
                push_dec_u8(&mut s, object_type);
                assert(s@ =~= spec_aac_codec_string(opt_slice(extradata)));
                return s;
            }
        },
        None => {},
    }
    proof {
        reveal_strlit("mp4a.40.2");
    }
    String::from_str("mp4a.40.2")
}

/// The WebCodecs string of a video codec in a container: from the extradata
/// for H.264, HEVC and VP9, fixed for VP8 and AV1, otherwise the codec's own
/// name in lowercase.
pub open spec fn container_video_string(codec_id: AVCodecID, e: Option<Seq<u8>>) -> Seq<char> {
    match codec_id {
        AVCodecID::H264 => spec_h264_codec_string(e),
        AVCodecID::Hevc => spec_hevc_codec_string(e),
        AVCodecID::Vp8 => seq!['v', 'p', '8'],
        AVCodecID::Vp9 => spec_vp9_codec_string(e),
        AVCodecID::Av1 => seq!['a', 'v', '0', '1', '.', '0', '.', '0', '4', 'M', '.', '0', '8'],
        _ => lowercase_name(codec_id),
    }
}

/// The WebCodecs string of an audio codec in a container: from the extradata
/// for AAC, fixed for Opus, MP3, FLAC and Vorbis, otherwise the codec's own
/// name in lowercase.
pub open spec fn container_audio_string(codec_id: AVCodecID, e: Option<Seq<u8>>) -> Seq<char> {
    match codec_id {
        AVCodecID::Aac => spec_aac_codec_string(e),
        AVCodecID::Opus => seq!['o', 'p', 'u', 's'],
        AVCodecID::Mp3 => seq!['m', 'p', '3'],
        AVCodecID::Flac => seq!['f', 'l', 'a', 'c'],
        AVCodecID::Vorbis => seq!['v', 'o', 'r', 'b', 'i', 's'],
        _ => lowercase_name(codec_id),
    }
}

/// The video codec string shared by the MP4 and Matroska demuxers.
pub fn container_video_codec_string(codec_id: AVCodecID, extradata: Option<&[u8]>) -> (s: String)
    ensures
        s@ == container_video_string(codec_id, opt_slice(extradata)),
{
    match codec_id {
        AVCodecID::H264 => parse_h264_codec_string(extradata),
        AVCodecID::Hevc => parse_hevc_codec_string(extradata),
        AVCodecID::Vp8 => {
            proof {
                reveal_strlit("vp8");
            }
            String::from_str("vp8")
        },
        AVCodecID::Vp9 => parse_vp9_codec_string(extradata),
        AVCodecID::Av1 => {
            proof {
                reveal_strlit("av01.0.04M.08");
            }
            String::from_str("av01.0.04M.08")
        },
        _ => codec_id.lowercase_name(),
    }
}

/// The audio codec string shared by the MP4 and Matroska demuxers.
pub fn container_audio_codec_string(codec_id: AVCodecID, extradata: Option<&[u8]>) -> (s: String)
    ensures
        s@ == container_audio_string(codec_id, opt_slice(extradata)),
{
    match codec_id {
        AVCodecID::Aac => parse_aac_codec_string(extradata),
        AVCodecID::Opus => {
            proof {
                reveal_strlit("opus");
            }
            String::from_str("opus")
        },
        AVCodecID::Mp3 => {
            proof {
                reveal_strlit("mp3");
            }
            String::from_str("mp3")
        },
        AVCodecID::Flac => {
            proof {
                reveal_strlit("flac");
            }
            String::from_str("flac")
        },
        AVCodecID::Vorbis => {
            proof {
                reveal_strlit("vorbis");
            }
            String::from_str("vorbis")
        },
        _ => codec_id.lowercase_name(),
    }
}

/// Format-specific behaviour of a demuxer: the codec strings it reports.
pub trait DemuxerFormat {
    /// The codec string reported for a video stream.
    spec fn video_string(codec_id: AVCodecID, extradata: Option<Seq<u8>>) -> Seq<char>;

    /// The codec string reported for an audio stream.
    spec fn audio_string(codec_id: AVCodecID, extradata: Option<Seq<u8>>) -> Seq<char>;

    /// Convert a video codec ID to a WebCodecs codec string.
    fn codec_id_to_video_string(codec_id: AVCodecID, extradata: Option<&[u8]>) -> (s: String)
        ensures
            s@ == Self::video_string(codec_id, opt_slice(extradata)),
    ;

    /// Convert an audio codec ID to a WebCodecs codec string.
    fn codec_id_to_audio_string(codec_id: AVCodecID, extradata: Option<&[u8]>) -> (s: String)
        ensures
            s@ == Self::audio_string(codec_id, opt_slice(extradata)),
    ;
}

// ----------------------------------------------------------------------------
// Streams and tracks
// ----------------------------------------------------------------------------

/// The kind of media a stream carries.
#[derive(Debug, Clone, Copy, PartialEq, Eq, Structural)]
pub enum MediaType {
    Video,
    Audio,
    Subtitle,
    Data,
}

/// The name of a media type.
pub open spec fn media_type_name(t: MediaType) -> Seq<char> {
    match t {
        MediaType::Video => seq!['v', 'i', 'd', 'e', 'o'],
        MediaType::Audio => seq!['a', 'u', 'd', 'i', 'o'],
        MediaType::Subtitle => seq!['s', 'u', 'b', 't', 'i', 't', 'l', 'e'],
        MediaType::Data => seq!['d', 'a', 't', 'a'],
    }
}

fn media_type_string(t: MediaType) -> (s: String)
    ensures
        s@ == media_type_name(t),
{
    match t {
        MediaType::Video => {
            proof {
                reveal_strlit("video");
            }
            String::from_str("video")
        },
        MediaType::Audio => {
            proof {
                reveal_strlit("audio");
            }
            String::from_str("audio")
        },
        MediaType::Subtitle => {
            proof {
                reveal_strlit("subtitle");
            }
            String::from_str("subtitle")
        },
        MediaType::Data => {
            proof {
                reveal_strlit("data");
            }
            String::from_str("data")
        },
    }
}

/// What the container reports about one of its streams.
pub struct StreamInfo {
    pub index: i32,
    pub media_type: MediaType,
    pub codec_id: AVCodecID,
    pub extradata: Option<Vec<u8>>,
    pub width: Option<u32>,
    pub height: Option<u32>,
    pub sample_rate: Option<u32>,
    pub channels: Option<u32>,
    /// Time base as (numerator, denominator).
    pub time_base: (i32, i32),
    /// Duration in time-base units.
    pub duration: Option<i64>,
}

/// The bytes of optional extradata.
pub open spec fn opt_vec(o: Option<Vec<u8>>) -> Option<Seq<u8>> {
    match o {
        Some(v) => Some(v@),
        None => None,
    }
}

fn extradata_slice(s: &StreamInfo) -> (r: Option<&[u8]>)
    ensures
        opt_slice(r) == opt_vec(s.extradata),
{
    match &s.extradata {
        Some(v) => Some(v.as_slice()),
        None => None,
    }
}

/// Track information exposed to JavaScript.
pub struct DemuxerTrackInfo {
    /// Track index.
    pub index: i32,
    /// Track type ("video", "audio", "subtitle" or "data").
    pub track_type: String,
    /// Codec string (WebCodecs format).
    pub codec: String,
    /// Duration in microseconds.
    pub duration: Option<i64>,
    /// Coded width (video only).
    pub coded_width: Option<u32>,
    /// Coded height (video only).
    pub coded_height: Option<u32>,
    /// Sample rate (audio only).
    pub sample_rate: Option<u32>,
    /// Number of channels (audio only).
    pub number_of_channels: Option<u32>,
}

/// The track a demuxer of format `F` reports for a stream.
pub open spec fn track_matches<F: DemuxerFormat>(t: DemuxerTrackInfo, s: StreamInfo) -> bool {
    &&& t.index == s.index
    &&& t.track_type@ == media_type_name(s.media_type)
    &&& t.codec@ == if s.media_type == MediaType::Video {
        F::video_string(s.codec_id, opt_vec(s.extradata))
    } else {
        F::audio_string(s.codec_id, opt_vec(s.extradata))
    }
    &&& t.duration == spec_track_duration(s.duration, s.time_base)
    &&& t.coded_width == s.width
    &&& t.coded_height == s.height
    &&& t.sample_rate == s.sample_rate
    &&& t.number_of_channels == s.channels
}

/// Two track descriptions that say the same.
pub open spec fn same_track(a: DemuxerTrackInfo, b: DemuxerTrackInfo) -> bool {
    &&& a.index == b.index
    &&& a.track_type@ == b.track_type@
    &&& a.codec@ == b.codec@
    &&& a.duration == b.duration
    &&& a.coded_width == b.coded_width
    &&& a.coded_height == b.coded_height
    &&& a.sample_rate == b.sample_rate
    &&& a.number_of_channels == b.number_of_channels
}

impl DemuxerTrackInfo {
    /// A copy of the track description.
    pub fn copy(&self) -> (t: DemuxerTrackInfo)
        ensures
            same_track(t, *self),
    {
        DemuxerTrackInfo {
            index: self.index,
            track_type: self.track_type.clone(),
            codec: self.codec.clone(),
            duration: self.duration,
            coded_width: self.coded_width,
            coded_height: self.coded_height,
            sample_rate: self.sample_rate,
            number_of_channels: self.number_of_channels,
        }
    }
}

/// Describe each stream as a track, using the format's codec strings.
pub fn parse_tracks<F: DemuxerFormat>(streams: &Vec<StreamInfo>) -> (r: Vec<DemuxerTrackInfo>)
    ensures
        r@.len() == streams@.len(),
        forall|i: int| 0 <= i < r@.len() ==> track_matches::<F>(#[trigger] r@[i], streams@[i]),
{
    let mut tracks: Vec<DemuxerTrackInfo> = Vec::new();
    let mut i: usize = 0;
    while i < streams.len()
        invariant
            i <= streams@.len(),
            tracks@.len() == i,
            forall|k: int| 0 <= k < i ==> track_matches::<F>(#[trigger] tracks@[k], streams@[k]),
        decreases streams@.len() - i,
    {
        let s = &streams[i];
        let extradata = extradata_slice(s);
        let codec = if s.media_type == MediaType::Video {
            F::codec_id_to_video_string(s.codec_id, extradata)
        } else {
            F::codec_id_to_audio_string(s.codec_id, extradata)
        };
        let track = DemuxerTrackInfo {
            index: s.index,
            track_type: media_type_string(s.media_type),
            codec,
            duration: track_duration(s.duration, s.time_base),
            coded_width: s.width,
            coded_height: s.height,
            sample_rate: s.sample_rate,
            number_of_channels: s.channels,
        };
        tracks.push(track);
        i = i + 1;
    }
    tracks
}

/// The index of the first track of the given type, if any.
pub open spec fn first_track_of(tracks: Seq<DemuxerTrackInfo>, kind: Seq<char>) -> Option<i32>
    decreases tracks.len(),
{
    if tracks.len() == 0 {
        None
    } else if tracks[0].track_type@ == kind {
        Some(tracks[0].index)
    } else {
        first_track_of(tracks.drop_first(), kind)
    }
}

fn find_first_track(tracks: &Vec<DemuxerTrackInfo>, kind: &String) -> (r: Option<i32>)
    ensures
        r == first_track_of(tracks@, kind@),
{
    assert(tracks@.skip(0) =~= tracks@);
    let mut i: usize = 0;
    while i < tracks.len()
        invariant
            i <= tracks@.len(),
            first_track_of(tracks@, kind@) == first_track_of(tracks@.skip(i as int), kind@),
        decreases tracks@.len() - i,
    {
        proof {
            assert(tracks@.skip(i as int)[0] == tracks@[i as int]);
            assert(tracks@.skip(i as int).drop_first() =~= tracks@.skip(i + 1));
        }
        if tracks[i].track_type == *kind {
            return Some(tracks[i].index);
        }
        i = i + 1;
    }
    None
}

/// The first track with the given index, if any.
pub open spec fn track_with_index(tracks: Seq<DemuxerTrackInfo>, index: i32) -> Option<
    DemuxerTrackInfo,
>
    decreases tracks.len(),
{
    if tracks.len() == 0 {
        None
    } else if tracks[0].index == index {
        Some(tracks[0])
    } else {
        track_with_index(tracks.drop_first(), index)
    }
}

/// The type of the first track with the given index.
fn find_track_type(tracks: &Vec<DemuxerTrackInfo>, index: i32) -> (r: Option<&String>)
    ensures
        match r {
            Some(t) => track_with_index(tracks@, index) matches Some(x) && x.track_type == *t,
            None => track_with_index(tracks@, index) is None,
        },
{
    assert(tracks@.skip(0) =~= tracks@);
    let mut i: usize = 0;
    while i < tracks.len()
        invariant
            i <= tracks@.len(),
            track_with_index(tracks@, index) == track_with_index(tracks@.skip(i as int), index),
        decreases tracks@.len() - i,
    {
        proof {
            assert(tracks@.skip(i as int)[0] == tracks@[i as int]);
            assert(tracks@.skip(i as int).drop_first() =~= tracks@.skip(i + 1));
        }
        if tracks[i].index == index {
            return Some(&tracks[i].track_type);
        }
        i = i + 1;
    }
    None
}

// ----------------------------------------------------------------------------
// The demuxer's own state
// ----------------------------------------------------------------------------

/// Where a demuxed packet goes.
#[derive(Debug, Clone, Copy, PartialEq, Eq, Structural)]
pub enum PacketRoute {
    /// To the video output.
    Video,
    /// To the audio output.
    Audio,
    /// Nowhere: its track is not selected.
    Ignore,
}

/// The state a demuxer keeps besides its container context: where it is in
/// its life cycle, the tracks of the loaded file, and the selected tracks.
pub struct DemuxerInner {
    pub state: DemuxerState,
    pub tracks: Vec<DemuxerTrackInfo>,
    pub selected_video_track: Option<i32>,
    pub selected_audio_track: Option<i32>,
}

/// A generic failure with the given message.
fn failure(reason: String) -> (e: CodecError)
    ensures
        e.status == ErrorStatus::GenericFailure,
        e.reason@ == reason@,
{
    CodecError { status: ErrorStatus::GenericFailure, reason }
}

/// "Track {index} not found".
pub open spec fn track_not_found_message(index: i32) -> Seq<char> {
    seq!['T', 'r', 'a', 'c', 'k', ' '] + dec_int(index as int) + seq![
        ' ',
        'n',
        'o',
        't',
        ' ',
        'f',
        'o',
        'u',
        'n',
        'd',
    ]
}

/// "Track {index} is not a{n} {kind} track".
pub open spec fn wrong_track_message(index: i32, video: bool) -> Seq<char> {
    seq!['T', 'r', 'a', 'c', 'k', ' '] + dec_int(index as int) + if video {
        seq![' ', 'i', 's', ' ', 'n', 'o', 't', ' ', 'a', ' ', 'v', 'i', 'd', 'e', 'o', ' ', 't', 'r', 'a', 'c', 'k']
    } else {
        seq![
            ' ', 'i', 's', ' ', 'n', 'o', 't', ' ', 'a', 'n', ' ', 'a', 'u', 'd', 'i', 'o', ' ', 't', 'r', 'a', 'c', 'k']
    }
}

/// "Demuxer already loaded. Call close() first."
pub open spec fn already_loaded_message() -> Seq<char> {
    seq![
        'D', 'e', 'm', 'u', 'x', 'e', 'r', ' ', 'a', 'l', 'r', 'e', 'a', 'd', 'y', ' ', 'l', 'o',
        'a', 'd', 'e', 'd', '.', ' ', 'C', 'a', 'l', 'l', ' ', 'c', 'l', 'o', 's', 'e', '(', ')',
        ' ', 'f', 'i', 'r', 's', 't', '.']
}

impl DemuxerInner {
    /// A demuxer that has loaded nothing.
    pub fn new() -> (d: Self)
        ensures
            d.state == DemuxerState::Unloaded,
            d.tracks@.len() == 0,
            d.selected_video_track is None,
            d.selected_audio_track is None,
    {
        DemuxerInner {
            state: DemuxerState::Unloaded,
            tracks: Vec::new(),
            selected_video_track: None,
            selected_audio_track: None,
        }
    }

    /// Whether a file or buffer may be loaded: only before the first load.
    pub fn check_can_load(&self) -> (r: Result<(), CodecError>)
        ensures
            r is Ok <==> self.state == DemuxerState::Unloaded,
            r matches Err(e) ==> e.status == ErrorStatus::GenericFailure && e.reason@
                == already_loaded_message(),
    {
        if self.state != DemuxerState::Unloaded {
            proof {
                reveal_strlit("Demuxer already loaded. Call close() first.");
            }
            return Err(failure(String::from_str("Demuxer already loaded. Call close() first.")));
        }
        Ok(())
    }

    /// Complete a load: describe the streams as tracks, select the first
    /// video and the first audio track, and become ready.
    pub fn finish_load<F: DemuxerFormat>(&mut self, streams: &Vec<StreamInfo>)
        ensures
            final(self).state == DemuxerState::Ready,
            final(self).tracks@.len() == streams@.len(),
            forall|i: int|
                0 <= i < streams@.len() ==> track_matches::<F>(
                    #[trigger] final(self).tracks@[i],
                    streams@[i],
                ),
            final(self).selected_video_track == first_track_of(
                final(self).tracks@,
                media_type_name(MediaType::Video),
            ),
            final(self).selected_audio_track == first_track_of(
                final(self).tracks@,
                media_type_name(MediaType::Audio),
            ),
    {
        let tracks = parse_tracks::<F>(streams);
        let video = media_type_string(MediaType::Video);
        let audio = media_type_string(MediaType::Audio);
        self.selected_video_track = find_first_track(&tracks, &video);
        self.selected_audio_track = find_first_track(&tracks, &audio);
        self.tracks = tracks;
        self.state = DemuxerState::Ready;
    }

    /// A copy of every track.
    pub fn get_tracks(&self) -> (r: Vec<DemuxerTrackInfo>)
        ensures
            r@.len() == self.tracks@.len(),
            forall|i: int| 0 <= i < r@.len() ==> same_track(#[trigger] r@[i], self.tracks@[i]),
    {
        let mut out: Vec<DemuxerTrackInfo> = Vec::new();
        let mut i: usize = 0;
        while i < self.tracks.len()
            invariant
                i <= self.tracks@.len(),
                out@.len() == i,
                forall|k: int| 0 <= k < i ==> same_track(#[trigger] out@[k], self.tracks@[k]),
            decreases self.tracks@.len() - i,
        {
            out.push(self.tracks[i].copy());
            i = i + 1;
        }
        out
    }

    fn select_track(&mut self, track_index: i32, video: bool) -> (r: Result<(), CodecError>)
        ensures
            final(self).state == old(self).state,
            final(self).tracks == old(self).tracks,
            match track_with_index(old(self).tracks@, track_index) {
                None => r matches Err(e) && e.reason@ == track_not_found_message(track_index)
                    && *final(self) == *old(self),
                Some(t) => if t.track_type@ == media_type_name(
                    if video {
                        MediaType::Video
                    } else {
                        MediaType::Audio
                    },
                ) {
                    r is Ok && (if video {
                        final(self).selected_video_track == Some(track_index)
                            && final(self).selected_audio_track == old(self).selected_audio_track
                    } else {
                        final(self).selected_audio_track == Some(track_index)
                            && final(self).selected_video_track == old(self).selected_video_track
                    })
                } else {
                    r matches Err(e) && e.reason@ == wrong_track_message(track_index, video)
                        && *final(self) == *old(self)
                },
            },
            r matches Err(e) ==> e.status == ErrorStatus::GenericFailure,
    {
        let kind = media_type_string(
            if video {
                MediaType::Video
            } else {
                MediaType::Audio
            },
        );
        let found = match find_track_type(&self.tracks, track_index) {
            Some(t) => Some(*t == kind),
            None => None,
        };
        match found {
            Some(true) => {
                if video {
                    self.selected_video_track = Some(track_index);
                } else {
                    self.selected_audio_track = Some(track_index);
                }
                Ok(())
            },
            Some(false) => {
                let mut reason = String::from_str("Track ");
                proof {
                    reveal_strlit("Track ");
                    reveal_strlit(" is not a video track");
                    reveal_strlit(" is not an audio track");
                }
                push_dec_i64(&mut reason, track_index as i64);
                if video {
                    reason.append(" is not a video track");
                } else {
                    reason.append(" is not an audio track");
                }
                assert(reason@ =~= wrong_track_message(track_index, video));
                Err(failure(reason))
            },
            None => {
                let mut reason = String::from_str("Track ");
                proof {
                    reveal_strlit("Track ");
                    reveal_strlit(" not found");
                }
                push_dec_i64(&mut reason, track_index as i64);
                reason.append(" not found");
                assert(reason@ =~= track_not_found_message(track_index));
                Err(failure(reason))
            },
        }
    }

    /// Select a video track by index: it must exist and be a video track.
    pub fn select_video_track(&mut self, track_index: i32) -> (r: Result<(), CodecError>)
        ensures
            final(self).state == old(self).state,
            final(self).tracks == old(self).tracks,
            final(self).selected_audio_track == old(self).selected_audio_track,
            match track_with_index(old(self).tracks@, track_index) {
                None => r matches Err(e) && e.reason@ == track_not_found_message(track_index)
                    && final(self).selected_video_track == old(self).selected_video_track,
                Some(t) => if t.track_type@ == media_type_name(MediaType::Video) {
                    r is Ok && final(self).selected_video_track == Some(track_index)
                } else {
                    r matches Err(e) && e.reason@ == wrong_track_message(track_index, true)
                        && final(self).selected_video_track == old(self).selected_video_track
                },
            },
            r matches Err(e) ==> e.status == ErrorStatus::GenericFailure,
    {
        self.select_track(track_index, true)
    }

    /// Select an audio track by index: it must exist and be an audio track.
    pub fn select_audio_track(&mut self, track_index: i32) -> (r: Result<(), CodecError>)
        ensures
            final(self).state == old(self).state,
            final(self).tracks == old(self).tracks,
            final(self).selected_video_track == old(self).selected_video_track,
            match track_with_index(old(self).tracks@, track_index) {
                None => r matches Err(e) && e.reason@ == track_not_found_message(track_index)
                    && final(self).selected_audio_track == old(self).selected_audio_track,
                Some(t) => if t.track_type@ == media_type_name(MediaType::Audio) {
                    r is Ok && final(self).selected_audio_track == Some(track_index)
                } else {
                    r matches Err(e) && e.reason@ == wrong_track_message(track_index, false)
                        && final(self).selected_audio_track == old(self).selected_audio_track
                },
            },
            r matches Err(e) ==> e.status == ErrorStatus::GenericFailure,
    {
        self.select_track(track_index, false)
    }

    /// Start a demuxing run: only a ready (or already demuxing) demuxer may,
    /// and it is then demuxing. Returns whether it may.
    pub fn begin_demux(&mut self) -> (ok: bool)
        ensures
            ok == (old(self).state == DemuxerState::Ready || old(self).state
                == DemuxerState::Demuxing),
            ok ==> final(self).state == DemuxerState::Demuxing,
            !ok ==> final(self).state == old(self).state,
            final(self).tracks == old(self).tracks,
            final(self).selected_video_track == old(self).selected_video_track,
            final(self).selected_audio_track == old(self).selected_audio_track,
    {
        if self.state != DemuxerState::Ready && self.state != DemuxerState::Demuxing {
            return false;
        }
        self.state = DemuxerState::Demuxing;
        true
    }

    /// Where a packet of the given stream goes: the selected video track
    /// first, then the selected audio track.
    pub fn route_packet(&self, stream_index: i32) -> (r: PacketRoute)
        ensures
            r == (if self.selected_video_track == Some(stream_index) {
                PacketRoute::Video
            } else if self.selected_audio_track == Some(stream_index) {
                PacketRoute::Audio
            } else {
                PacketRoute::Ignore
            }),
    {
        if self.selected_video_track == Some(stream_index) {
            PacketRoute::Video
        } else if self.selected_audio_track == Some(stream_index) {
            PacketRoute::Audio
        } else {
            PacketRoute::Ignore
        }
    }

    /// The container ran out of packets.
    pub fn end_of_stream(&mut self)
        ensures
            final(self).state == DemuxerState::EndOfStream,
            final(self).tracks == old(self).tracks,
            final(self).selected_video_track == old(self).selected_video_track,
            final(self).selected_audio_track == old(self).selected_audio_track,
    {
        self.state = DemuxerState::EndOfStream;
    }

    /// The stream a seek targets: the selected video track, or -1 for the
    /// container as a whole.
    pub fn seek_stream_index(&self) -> (r: i32)
        ensures
            r == match self.selected_video_track {
                Some(i) => i,
                None => -1i32,
            },
    {
        match self.selected_video_track {
            Some(i) => i,
            None => -1,
        }
    }

    /// After a successful seek a demuxer that had reached the end is ready
    /// again.
    pub fn after_seek(&mut self)
        ensures
            final(self).state == if old(self).state == DemuxerState::EndOfStream {
                DemuxerState::Ready
            } else {
                old(self).state
            },
            final(self).tracks == old(self).tracks,
            final(self).selected_video_track == old(self).selected_video_track,
            final(self).selected_audio_track == old(self).selected_audio_track,
    {
        if self.state == DemuxerState::EndOfStream {
            self.state = DemuxerState::Ready;
        }
    }

    /// Close: forget the tracks and the selection.
    pub fn close(&mut self)
        ensures
            final(self).state == DemuxerState::Closed,
            final(self).tracks@.len() == 0,
            final(self).selected_video_track is None,
            final(self).selected_audio_track is None,
    {
        self.tracks = Vec::new();
        self.selected_video_track = None;
        self.selected_audio_track = None;
        self.state = DemuxerState::Closed;
    }

    /// The current state's name.
    pub fn state_string(&self) -> (s: &'static str)
        ensures
            s@ == demuxer_state_name(self.state),
    {
        self.state.as_str()
    }

    /// The decoder configuration of the selected video track, given the
    /// container's streams (none before a load): its codec string, coded
    /// size (0 when unknown) and extradata as description.
    pub fn get_video_decoder_config<F: DemuxerFormat>(&self, streams: Option<&Vec<StreamInfo>>) -> (r:
        Option<DemuxerVideoDecoderConfig>)
        ensures
            match selected_stream(streams, self.selected_video_track) {
                Some(s) => r matches Some(c) && c.codec@ == F::video_string(s.codec_id, opt_vec(s.extradata))
                    && c.coded_width == unwrap_or_zero(s.width) && c.coded_height == unwrap_or_zero(
                    s.height,
                ) && opt_vec(c.description) == opt_vec(s.extradata),
                None => r is None,
            },
    {
        let s = match pick_stream(streams, self.selected_video_track) {
            Some(s) => s,
            None => return None,
        };
        let extradata = extradata_slice(s);
        Some(
            DemuxerVideoDecoderConfig {
                codec: F::codec_id_to_video_string(s.codec_id, extradata),
                coded_width: unwrap_u32(s.width),
                coded_height: unwrap_u32(s.height),
                description: copy_extradata(extradata),
            },
        )
    }

    /// The decoder configuration of the selected audio track: its codec
    /// string, sample rate and channel count (0 when unknown) and extradata
    /// as description.
    pub fn get_audio_decoder_config<F: DemuxerFormat>(&self, streams: Option<&Vec<StreamInfo>>) -> (r:
        Option<DemuxerAudioDecoderConfig>)
        ensures
            match selected_stream(streams, self.selected_audio_track) {
                Some(s) => r matches Some(c) && c.codec@ == F::audio_string(s.codec_id, opt_vec(s.extradata))
                    && c.sample_rate == unwrap_or_zero(s.sample_rate) && c.number_of_channels
                    == unwrap_or_zero(s.channels) && opt_vec(c.description) == opt_vec(s.extradata),
                None => r is None,
            },
    {
        let s = match pick_stream(streams, self.selected_audio_track) {
            Some(s) => s,
            None => return None,
        };
        let extradata = extradata_slice(s);
        Some(
            DemuxerAudioDecoderConfig {
                codec: F::codec_id_to_audio_string(s.codec_id, extradata),
                sample_rate: unwrap_u32(s.sample_rate),
                number_of_channels: unwrap_u32(s.channels),
                description: copy_extradata(extradata),
            },
        )
    }
}

/// The video decoder configuration of a demuxed track.
pub struct DemuxerVideoDecoderConfig {
    pub codec: String,
    pub coded_width: u32,
    pub coded_height: u32,
    pub description: Option<Vec<u8>>,
}

/// The audio decoder configuration of a demuxed track.
pub struct DemuxerAudioDecoderConfig {
    pub codec: String,
    pub sample_rate: u32,
    pub number_of_channels: u32,
    pub description: Option<Vec<u8>>,
}

/// The stream with the selected index, where there are streams and it
/// exists.
pub open spec fn selected_stream(streams: Option<&Vec<StreamInfo>>, selected: Option<i32>) -> Option<
    StreamInfo,
> {
    match (streams, selected) {
        (Some(ss), Some(i)) => if 0 <= i < ss@.len() {
            Some(ss@[i as int])
        } else {
            None
        },
        _ => None,
    }
}

/// A number that may be unknown, 0 when it is.
pub open spec fn unwrap_or_zero(x: Option<u32>) -> u32 {
    match x {
        Some(v) => v,
        None => 0,
    }
}

fn unwrap_u32(x: Option<u32>) -> (r: u32)
    ensures
        r == unwrap_or_zero(x),
{
    match x {
        Some(v) => v,
        None => 0,
    }
}

fn pick_stream<'a>(streams: Option<&'a Vec<StreamInfo>>, selected: Option<i32>) -> (r: Option<&'a StreamInfo>)
    ensures
        match selected_stream(streams, selected) {
            Some(s) => r == Some(&s),
            None => r is None,
        },
{
    match (streams, selected) {
        (Some(ss), Some(i)) => {
            if i >= 0 && (i as usize) < ss.len() {
                Some(&ss[i as usize])
            } else {
                None
            }
        },
        _ => None,
    }
}

fn copy_extradata(e: Option<&[u8]>) -> (r: Option<Vec<u8>>)
    ensures
        opt_vec(r) == opt_slice(e),
{
    match e {
        Some(d) => Some(slice_to_vec(d)),
        None => None,
    }
}

} // verus!
