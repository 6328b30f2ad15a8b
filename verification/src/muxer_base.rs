//! Shared muxer rules: the muxer state names, the timestamps written for
//! video and audio packets, and the removal of in-band HEVC parameter sets
//! that duplicate the sample description.

use vstd::prelude::*;
use vstd::string::*;
use vstd::slice::slice_to_vec;
use crate::codec_id::AVCodecID;
use crate::bytes::extend_bytes;
use crate::codec_string::{parse_codec_string, spec_parse_codec_string};
use crate::error::{CodecError, ErrorStatus};
use crate::text::{bytes_equal_ci, bytes_start_with_ci, equals_ci, starts_with_ci};
use vstd::string::StringSliceAdditionalSpecFns;

verus! {

// ----------------------------------------------------------------------------
// Muxer state
// ----------------------------------------------------------------------------

/// Muxer state machine.
#[derive(Debug, Clone, Copy, PartialEq, Eq, Structural)]
pub enum MuxerState {
    /// Tracks can be added.
    ConfiguringTracks,
    /// Tracks configured, accepting chunks.
    Muxing,
    /// Finalized: no more operations allowed.
    Finalized,
    /// Closed.
    Closed,
}

/// The name of each state.
pub open spec fn muxer_state_name(s: MuxerState) -> Seq<char> {
    match s {
        MuxerState::ConfiguringTracks => seq![
            'c', 'o', 'n', 'f', 'i', 'g', 'u', 'r', 'i', 'n', 'g'],
        MuxerState::Muxing => seq!['m', 'u', 'x', 'i', 'n', 'g'],
        MuxerState::Finalized => seq!['f', 'i', 'n', 'a', 'l', 'i', 'z', 'e', 'd'],
        MuxerState::Closed => seq!['c', 'l', 'o', 's', 'e', 'd'],
    }
}

impl MuxerState {
    /// The state's name.
    pub fn as_str(&self) -> (s: &'static str)
        ensures
            s@ == muxer_state_name(*self),
    {
        match self {
            MuxerState::ConfiguringTracks => {
                proof {
                    reveal_strlit("configuring");
                }
                "configuring"
            },
            MuxerState::Muxing => {
                proof {
                    reveal_strlit("muxing");
                }
                "muxing"
            },
            MuxerState::Finalized => {
                proof {
                    reveal_strlit("finalized");
                }
                "finalized"
            },
            MuxerState::Closed => {
                proof {
                    reveal_strlit("closed");
                }
                "closed"
            },
        }
    }
}

/// Audio frame size, in samples, of codecs whose frame size is fixed:
/// AAC 1024, Opus 960 (20 ms at 48 kHz), MP3 1152.
pub fn default_audio_frame_size(codec_id: AVCodecID) -> (r: Option<u32>)
    ensures
        r == match codec_id {
            AVCodecID::Aac => Some(1024u32),
            AVCodecID::Opus => Some(960u32),
            AVCodecID::Mp3 => Some(1152u32),
            _ => None,
        },
{
    match codec_id {
        AVCodecID::Aac => Some(1024),
        AVCodecID::Opus => Some(960),
        AVCodecID::Mp3 => Some(1152),
        _ => None,
    }
}

/// The spec counterpart of [`default_audio_frame_size`].
pub open spec fn spec_default_frame_size(codec_id: AVCodecID) -> Option<u32> {
    match codec_id {
        AVCodecID::Aac => Some(1024u32),
        AVCodecID::Opus => Some(960u32),
        AVCodecID::Mp3 => Some(1152u32),
        _ => None,
    }
}

// ----------------------------------------------------------------------------
// Container formats
// ----------------------------------------------------------------------------

/// The containers a muxer writes.
#[derive(Debug, Clone, Copy, PartialEq, Eq, Structural)]
pub enum ContainerFormat {
    Mp4,
    Mkv,
}

/// Options handed to the container writer.
#[derive(Debug, Clone, Copy, PartialEq, Eq, Structural)]
pub struct MuxerOptions {
    /// Move the index to the front of the file.
    pub fast_start: bool,
    /// Write a fragmented file.
    pub fragmented: bool,
    /// Live mode.
    pub live: bool,
}

/// The default options: none set.
pub open spec fn no_options() -> MuxerOptions {
    MuxerOptions { fast_start: false, fragmented: false, live: false }
}

/// Options with nothing set.
pub fn plain_muxer_options() -> (o: MuxerOptions)
    ensures
        o == no_options(),
{
    MuxerOptions { fast_start: false, fragmented: false, live: false }
}

/// "Invalid codec string: {codec}".
pub open spec fn invalid_codec_message(codec: Seq<char>) -> Seq<char> {
    seq![
        'I', 'n', 'v', 'a', 'l', 'i', 'd', ' ', 'c', 'o', 'd', 'e', 'c', ' ', 's', 't', 'r', 'i',
        'n', 'g', ':', ' '] + codec
}

/// A video codec string's codec, or the message of the error it raises.
pub open spec fn spec_parse_container_video_codec(codec: &str) -> Result<AVCodecID, Seq<char>> {
    match spec_parse_codec_string(codec.spec_bytes()) {
        Some(p) => Ok(p.codec_id),
        None => Err(invalid_codec_message(codec@)),
    }
}

/// The codec of a video codec string; an unrecognised string is an error.
pub fn parse_container_video_codec(codec: &str) -> (r: Result<AVCodecID, CodecError>)
    ensures
        match r {
            Ok(id) => spec_parse_container_video_codec(codec) == Ok::<AVCodecID, Seq<char>>(id),
            Err(e) => e.status == ErrorStatus::GenericFailure
                && spec_parse_container_video_codec(codec) == Err::<AVCodecID, Seq<char>>(
                e.reason@,
            ),
        },
{
    match parse_codec_string(codec) {
        Some(parsed) => Ok(parsed.codec_id),
        None => {
            proof {
                reveal_strlit("Invalid codec string: ");
            }
            let e = error_with_subject("Invalid codec string: ", codec);
            assert(e.reason@ =~= invalid_codec_message(codec@));
            Err(e)
        },
    }
}

/// A generic failure whose message is `prefix` followed by `subject`.
pub fn error_with_subject(prefix: &str, subject: &str) -> (e: CodecError)
    ensures
        e.status == ErrorStatus::GenericFailure,
        e.reason@ == prefix@ + subject@,
{
    let mut reason = String::from_str(prefix);
    reason.append(subject);
    CodecError { status: ErrorStatus::GenericFailure, reason }
}

/// The audio codec families that muxers recognise by name. Names are
/// compared without regard to ASCII case; no character outside ASCII
/// lowercases into these names, so this is the same as lowercasing first.
#[derive(Debug, Clone, Copy, PartialEq, Eq, Structural)]
pub enum AudioCodecName {
    /// `mp4a...` or `aac`.
    Aac,
    /// `opus`.
    Opus,
    /// `mp3...`.
    Mp3,
    /// `flac`.
    Flac,
    /// `vorbis`.
    Vorbis,
    /// `pcm` or `pcm-...`.
    Pcm,
    /// `alac`.
    Alac,
    /// `ac3` or `ac-3`.
    Ac3,
    /// Anything else.
    Other,
}

/// The family an audio codec string names.
pub open spec fn audio_codec_name(b: Seq<u8>) -> AudioCodecName {
    if starts_with_ci(b, seq!['m' as u8, 'p' as u8, '4' as u8, 'a' as u8]) || equals_ci(
        b,
        seq!['a' as u8, 'a' as u8, 'c' as u8],
    ) {
        AudioCodecName::Aac
    } else if equals_ci(b, seq!['o' as u8, 'p' as u8, 'u' as u8, 's' as u8]) {
        AudioCodecName::Opus
    } else if starts_with_ci(b, seq!['m' as u8, 'p' as u8, '3' as u8]) {
        AudioCodecName::Mp3
    } else if equals_ci(b, seq!['f' as u8, 'l' as u8, 'a' as u8, 'c' as u8]) {
        AudioCodecName::Flac
    } else if equals_ci(b, seq!['v' as u8, 'o' as u8, 'r' as u8, 'b' as u8, 'i' as u8, 's' as u8]) {
        AudioCodecName::Vorbis
    } else if equals_ci(b, seq!['p' as u8, 'c' as u8, 'm' as u8]) || starts_with_ci(
        b,
        seq!['p' as u8, 'c' as u8, 'm' as u8, '-' as u8],
    ) {
        AudioCodecName::Pcm
    } else if equals_ci(b, seq!['a' as u8, 'l' as u8, 'a' as u8, 'c' as u8]) {
        AudioCodecName::Alac
    } else if equals_ci(b, seq!['a' as u8, 'c' as u8, '3' as u8]) || equals_ci(
        b,
        seq!['a' as u8, 'c' as u8, '-' as u8, '3' as u8],
    ) {
        AudioCodecName::Ac3
    } else {
        AudioCodecName::Other
    }
}

/// Recognise the family an audio codec string names.
pub fn classify_audio_codec(codec: &str) -> (r: AudioCodecName)
    ensures
        r == audio_codec_name(codec.spec_bytes()),
{
    let b = codec.as_bytes();
    if bytes_start_with_ci(b, &['m' as u8, 'p' as u8, '4' as u8, 'a' as u8]) || bytes_equal_ci(
        b,
        &['a' as u8, 'a' as u8, 'c' as u8],
    ) {
        AudioCodecName::Aac
    } else if bytes_equal_ci(b, &['o' as u8, 'p' as u8, 'u' as u8, 's' as u8]) {
        AudioCodecName::Opus
    } else if bytes_start_with_ci(b, &['m' as u8, 'p' as u8, '3' as u8]) {
        AudioCodecName::Mp3
    } else if bytes_equal_ci(b, &['f' as u8, 'l' as u8, 'a' as u8, 'c' as u8]) {
        AudioCodecName::Flac
    } else if bytes_equal_ci(b, &['v' as u8, 'o' as u8, 'r' as u8, 'b' as u8, 'i' as u8, 's' as u8]) {
        AudioCodecName::Vorbis
    } else if bytes_equal_ci(b, &['p' as u8, 'c' as u8, 'm' as u8]) || bytes_start_with_ci(
        b,
        &['p' as u8, 'c' as u8, 'm' as u8, '-' as u8],
    ) {
        AudioCodecName::Pcm
    } else if bytes_equal_ci(b, &['a' as u8, 'l' as u8, 'a' as u8, 'c' as u8]) {
        AudioCodecName::Alac
    } else if bytes_equal_ci(b, &['a' as u8, 'c' as u8, '3' as u8]) || bytes_equal_ci(
        b,
        &['a' as u8, 'c' as u8, '-' as u8, '3' as u8],
    ) {
        AudioCodecName::Ac3
    } else {
        AudioCodecName::Other
    }
}

/// Format-specific behaviour of a muxer: the container it writes, its
/// default options, the codecs it accepts and their audio frame sizes.
pub trait MuxerFormat {
    /// The container written.
    spec fn container() -> ContainerFormat;

    /// What a video codec string maps to: its codec, or an error message.
    spec fn video_outcome(codec: &str) -> Result<AVCodecID, Seq<char>>;

    /// What an audio codec string maps to: its codec, or an error message.
    spec fn audio_outcome(codec: &str) -> Result<AVCodecID, Seq<char>>;

    /// The fixed audio frame size of a codec, if it has one.
    spec fn frame_size(codec_id: AVCodecID) -> Option<u32>;

    /// The container written.
    fn format() -> (f: ContainerFormat)
        ensures
            f == Self::container(),
    ;

    /// Default options for the container writer.
    fn default_muxer_options() -> (o: MuxerOptions)
        ensures
            o == no_options(),
    ;

    /// Parse a video codec string to a codec ID.
    fn parse_video_codec(codec: &str) -> (r: Result<AVCodecID, CodecError>)
        ensures
            match r {
                Ok(id) => Self::video_outcome(codec) == Ok::<AVCodecID, Seq<char>>(id),
                Err(e) => e.status == ErrorStatus::GenericFailure && Self::video_outcome(codec)
                    == Err::<AVCodecID, Seq<char>>(e.reason@),
            },
    ;

    /// Parse an audio codec string to a codec ID.
    fn parse_audio_codec(codec: &str) -> (r: Result<AVCodecID, CodecError>)
        ensures
            match r {
                Ok(id) => Self::audio_outcome(codec) == Ok::<AVCodecID, Seq<char>>(id),
                Err(e) => e.status == ErrorStatus::GenericFailure && Self::audio_outcome(codec)
                    == Err::<AVCodecID, Seq<char>>(e.reason@),
            },
    ;

    /// The audio frame size of a codec, if fixed.
    fn get_audio_frame_size(codec_id: AVCodecID) -> (r: Option<u32>)
        ensures
            r == Self::frame_size(codec_id),
    ;
}

// ----------------------------------------------------------------------------
// Saturating arithmetic on timestamps
// ----------------------------------------------------------------------------

/// `x` clamped into the range of `i64`.
pub open spec fn clamp_i64(x: int) -> i64 {
    if x > i64::MAX {
        i64::MAX
    } else if x < i64::MIN {
        i64::MIN
    } else {
        x as i64
    }
}

/// `a.saturating_add(b)`.
pub fn sat_add(a: i64, b: i64) -> (r: i64)
    ensures
        r == clamp_i64(a + b),
{
    match a.checked_add(b) {
        Some(v) => v,
        None => if b > 0 {
            i64::MAX
        } else {
            i64::MIN
        },
    }
}

/// `a.saturating_sub(b)`.
pub fn sat_sub(a: i64, b: i64) -> (r: i64)
    ensures
        r == clamp_i64(a - b),
{
    match a.checked_sub(b) {
        Some(v) => v,
        None => if b < 0 {
            i64::MAX
        } else {
            i64::MIN
        },
    }
}

// ----------------------------------------------------------------------------
// Video timestamps
// ----------------------------------------------------------------------------

/// Sentinel for "no video packet written yet".
pub const NO_TIMESTAMP: i64 = i64::MIN;

/// The timestamp given to a reordered video packet in a container that
/// cannot store its decode/presentation pair: 0 for the first packet,
/// otherwise the previous packet's timestamp advanced by its duration (at
/// least one tick), saturating.
pub open spec fn spec_next_reordered(last_dts: i64, last_duration: i64) -> i64 {
    if last_dts == NO_TIMESTAMP {
        0
    } else {
        clamp_i64(last_dts + if last_duration > 1 {
            last_duration as int
        } else {
            1
        })
    }
}

/// See [`spec_next_reordered`].
pub fn next_reordered_video_timestamp(last_dts: i64, last_duration: i64) -> (r: i64)
    ensures
        r == spec_next_reordered(last_dts, last_duration),
{
    if last_dts == NO_TIMESTAMP {
        0
    } else {
        let step = if last_duration > 1 {
            last_duration
        } else {
            1
        };
        sat_add(last_dts, step)
    }
}

/// Presentation and decode timestamps (microseconds) of a chunk before
/// rescaling: a private encoder pair when present, else the public timestamp
/// for both.
pub fn select_video_timestamps(timestamp: i64, original_pts: Option<i64>, dts: Option<i64>) -> (r:
    (i64, i64))
    ensures
        r.0 == match original_pts {
            Some(p) => p,
            None => timestamp,
        },
        r.1 == match dts {
            Some(d) => d,
            None => r.0,
        },
{
    let pts_us = match original_pts {
        Some(p) => p,
        None => timestamp,
    };
    let dts_us = match dts {
        Some(d) => d,
        None => pts_us,
    };
    (pts_us, dts_us)
}

/// What a muxer remembers about the video packets it has written.
pub struct VideoTimestampState {
    /// Running offset applied to decode timestamps (MP4 only).
    pub dts_shift: i64,
    /// Decode timestamp of the last written packet, or `NO_TIMESTAMP`.
    pub last_dts: i64,
    /// Duration of the last written packet.
    pub last_duration: i64,
}

/// Output of the MP4 rule: decode timestamps are shifted, kept strictly
/// increasing, and never above the presentation timestamp unless the two
/// constraints conflict; the shift absorbs the correction.
pub open spec fn mp4_rule(s: VideoTimestampState, pts: i64, dts: i64) -> (i64, i64, i64) {
    let shifted0 = clamp_i64(dts + s.dts_shift);
    let min_dts = clamp_i64(s.last_dts + 1);
    let shifted1 = if shifted0 < min_dts {
        min_dts
    } else {
        shifted0
    };
    let (shift2, shifted2) = if pts < shifted1 {
        (clamp_i64(s.dts_shift - clamp_i64(shifted1 - pts)), pts)
    } else {
        (s.dts_shift, shifted1)
    };
    let shifted3 = if shifted2 <= s.last_dts {
        clamp_i64(s.last_dts + 1)
    } else {
        shifted2
    };
    let final_pts = if pts > shifted3 {
        pts
    } else {
        shifted3
    };
    (final_pts, shifted3, shift2)
}

/// The presentation and decode timestamps written for a video packet whose
/// timestamps (in the stream time base) are `pts` and `dts`, its duration
/// `dur`, and the state afterwards. `has_decode_pair` tells whether the chunk
/// carried a private decode/presentation pair.
pub open spec fn spec_arrange_video(
    s: VideoTimestampState,
    is_mp4: bool,
    pts: i64,
    dts: i64,
    dur: i64,
    has_decode_pair: bool,
) -> ((i64, i64), VideoTimestampState) {
    let (final_pts, final_dts, shift) = if is_mp4 {
        mp4_rule(s, pts, dts)
    } else if has_decode_pair && dts != pts {
        let t = spec_next_reordered(s.last_dts, s.last_duration);
        (t, t, s.dts_shift)
    } else {
        let monotonic = if dts <= s.last_dts {
            clamp_i64(s.last_dts + 1)
        } else {
            dts
        };
        (if pts > monotonic {
            pts
        } else {
            monotonic
        }, monotonic, s.dts_shift)
    };
    ((final_pts, final_dts), VideoTimestampState {
        dts_shift: shift,
        last_dts: final_dts,
        last_duration: dur,
    })
}

impl VideoTimestampState {
    /// The state before any video packet is written.
    pub fn new() -> (s: Self)
        ensures
            s.dts_shift == 0,
            s.last_dts == NO_TIMESTAMP,
            s.last_duration == 0,
    {
        VideoTimestampState { dts_shift: 0, last_dts: NO_TIMESTAMP, last_duration: 0 }
    }

    /// Decide the timestamps written for the next video packet and remember
    /// them.
    pub fn arrange(&mut self, is_mp4: bool, pts: i64, dts: i64, dur: i64, has_decode_pair: bool) -> (r:
        (i64, i64))
        ensures
            (r, *final(self)) == spec_arrange_video(*old(self), is_mp4, pts, dts, dur, has_decode_pair),
    {
        let final_pts: i64;
        let final_dts: i64;
        if is_mp4 {
            let mut shifted_dts = sat_add(dts, self.dts_shift);
            let min_dts = sat_add(self.last_dts, 1);
            if shifted_dts < min_dts {
                shifted_dts = min_dts;
            }
            if pts < shifted_dts {
                self.dts_shift = sat_sub(self.dts_shift, sat_sub(shifted_dts, pts));
                shifted_dts = pts;
            }
            if shifted_dts <= self.last_dts {
                shifted_dts = sat_add(self.last_dts, 1);
            }
            final_pts = if pts > shifted_dts {
                pts
            } else {
                shifted_dts
            };
            final_dts = shifted_dts;
        } else if has_decode_pair && dts != pts {
            let sequential = next_reordered_video_timestamp(self.last_dts, self.last_duration);
            final_pts = sequential;
            final_dts = sequential;
        } else {
            let monotonic_dts = if dts <= self.last_dts {
                sat_add(self.last_dts, 1)
            } else {
                dts
            };
            final_pts = if pts > monotonic_dts {
                pts
            } else {
                monotonic_dts
            };
            final_dts = monotonic_dts;
        }
        self.last_dts = final_dts;
        self.last_duration = dur;
        (final_pts, final_dts)
    }
}

/// Law: decode timestamps never go backwards, and strictly advance unless
/// the previous one already sits at the top of the range; MP4 and ordinary
/// packets are presented no earlier than decoded, and reordered packets in
/// other containers are presented when decoded.
pub proof fn lemma_video_timestamps_monotonic(
    s: VideoTimestampState,
    is_mp4: bool,
    pts: i64,
    dts: i64,
    dur: i64,
    has_decode_pair: bool,
)
    ensures
        ({
            let ((p, d), t) = spec_arrange_video(s, is_mp4, pts, dts, dur, has_decode_pair);
            &&& s.last_dts == NO_TIMESTAMP || d >= s.last_dts
            &&& s.last_dts != NO_TIMESTAMP && s.last_dts < i64::MAX ==> d > s.last_dts
            &&& p >= d
            &&& t.last_dts == d
            &&& t.last_duration == dur
            &&& (!is_mp4 && has_decode_pair && dts != pts) ==> p == d
        }),
{
}

/// The presentation timestamp written for an audio packet: strictly after
/// the previous one (saturating at the top of the range).
pub open spec fn spec_next_audio_pts(last_pts: i64, pts: i64) -> i64 {
    if pts <= last_pts {
        clamp_i64(last_pts + 1)
    } else {
        pts
    }
}

/// See [`spec_next_audio_pts`].
pub fn next_audio_pts(last_pts: i64, pts: i64) -> (r: i64)
    ensures
        r == spec_next_audio_pts(last_pts, pts),
        r >= last_pts,
        last_pts < i64::MAX ==> r > last_pts,
{
    if pts <= last_pts {
        sat_add(last_pts, 1)
    } else {
        pts
    }
}

// ----------------------------------------------------------------------------
// HEVC parameter-set stripping
// ----------------------------------------------------------------------------

/// HEVC NAL unit types of the parameter sets: VPS, SPS, PPS.
pub const NAL_TYPE_VPS: u8 = 32;
pub const NAL_TYPE_PPS: u8 = 34;

/// Why a sample could not be stripped.
#[derive(Debug, Clone, Copy, PartialEq, Eq, Structural)]
pub enum StripError {
    /// Fewer bytes remain than a length prefix needs.
    TruncatedLengthPrefix,
    /// A NAL unit of length zero.
    ZeroLengthNal,
    /// A NAL unit that runs past the end of the sample.
    NalOverrun,
    /// A parameter set that is not byte-identical to any in the description.
    ParameterSetUpdate,
}

/// The message of each error.
pub open spec fn strip_error_message(e: StripError) -> Seq<char> {
    match e {
        StripError::TruncatedLengthPrefix => "malformed HEVC sample: truncated NAL length prefix"@,
        StripError::ZeroLengthNal => "malformed HEVC sample: zero-length NAL"@,
        StripError::NalOverrun => "malformed HEVC sample: NAL overruns end of sample"@,
        StripError::ParameterSetUpdate => "HEVC sample carries an in-band parameter set update absent from the hvcC description, which the 'hvc1' sample entry cannot represent"@,
    }
}

impl StripError {
    /// The error's message.
    pub fn message(&self) -> (s: String)
        ensures
            s@ == strip_error_message(*self),
    {
        match self {
            StripError::TruncatedLengthPrefix => String::from_str(
                "malformed HEVC sample: truncated NAL length prefix",
            ),
            StripError::ZeroLengthNal => String::from_str("malformed HEVC sample: zero-length NAL"),
            StripError::NalOverrun => String::from_str(
                "malformed HEVC sample: NAL overruns end of sample",
            ),
            StripError::ParameterSetUpdate => String::from_str(
                "HEVC sample carries an in-band parameter set update absent from the hvcC description, which the 'hvc1' sample entry cannot represent",
            ),
        }
    }
}

/// The big-endian number spelled by `bytes`, computed in `usize` arithmetic
/// where bytes shifted past the top are lost.
pub open spec fn be_usize(bytes: Seq<u8>) -> nat
    decreases bytes.len(),
{
    if bytes.len() == 0 {
        0
    } else {
        ((be_usize(bytes.drop_last()) * 256 + bytes.last()) as int % (usize::MAX as int + 1)) as nat
    }
}

/// NAL unit type of an HEVC NAL header byte.
pub open spec fn hevc_nal_type(header: u8) -> u8 {
    ((header >> 1u8) & 0x3fu8) as u8
}

/// Whether `nal` is a parameter set (VPS, SPS or PPS).
pub open spec fn is_parameter_set(nal: Seq<u8>) -> bool {
    NAL_TYPE_VPS <= hevc_nal_type(nal[0]) && hevc_nal_type(nal[0]) <= NAL_TYPE_PPS
}

/// Walk the length-prefixed NAL units of `data` from `offset`, with `out`
/// the stripped sample so far (`None` until the first parameter set).
/// Parameter sets are dropped, other units kept with their prefixes.
pub open spec fn strip_walk(
    data: Seq<u8>,
    len_size: nat,
    known: Seq<Seq<u8>>,
    offset: nat,
    out: Option<Seq<u8>>,
) -> Result<Option<Seq<u8>>, StripError>
    decreases data.len() - offset,
{
    if offset >= data.len() {
        Ok(out)
    } else if data.len() - offset < len_size {
        Err(StripError::TruncatedLengthPrefix)
    } else {
        let nal_start = offset + len_size;
        let nal_len = be_usize(data.subrange(offset as int, nal_start as int));
        if nal_len == 0 {
            Err(StripError::ZeroLengthNal)
        } else if data.len() - nal_start < nal_len {
            Err(StripError::NalOverrun)
        } else {
            let nal_end = nal_start + nal_len;
            let nal = data.subrange(nal_start as int, nal_end as int);
            let is_ps = is_parameter_set(nal);
            if is_ps && !known.contains(nal) {
                Err(StripError::ParameterSetUpdate)
            } else {
                let next = match out {
                    Some(buf) => if is_ps {
                        Some(buf)
                    } else {
                        Some(buf + data.subrange(offset as int, nal_end as int))
                    },
                    None => if is_ps {
                        Some(data.take(offset as int))
                    } else {
                        None
                    },
                };
                strip_walk(data, len_size, known, nal_end, next)
            }
        }
    }
}

/// Strip the VPS/SPS/PPS NAL units from a length-prefixed HEVC sample when
/// each is byte-identical to a parameter set of the sample description
/// (`known`); every other NAL unit, access unit delimiters included, is kept.
///
/// `Ok(None)` when the sample carries no parameter set (it passes through
/// unchanged). An error when the sample does not parse cleanly as
/// length-prefixed NAL units, or when a parameter set differs from every
/// known one: that is an in-band parameter update.
pub fn strip_hevc_parameter_sets(data: &[u8], len_size: usize, known: &[Vec<u8>]) -> (r: Result<
    Option<Vec<u8>>,
    StripError,
>)
    ensures
        match strip_walk(data@, len_size as nat, known@.map_values(|k: Vec<u8>| k@), 0, None) {
            Ok(Some(s)) => r matches Ok(Some(v)) && v@ == s,
            Ok(None) => r matches Ok(None),
            Err(e) => r == Err::<Option<Vec<u8>>, StripError>(e),
        },
{
    let ghost kn = known@.map_values(|k: Vec<u8>| k@);
    let mut offset: usize = 0;
    let mut out: Option<Vec<u8>> = None;
    while offset < data.len()
        invariant
            offset <= data@.len(),
            kn == known@.map_values(|k: Vec<u8>| k@),
            strip_walk(data@, len_size as nat, kn, 0, None) == strip_walk(
                data@,
                len_size as nat,
                kn,
                offset as nat,
                match out {
                    Some(v) => Some(v@),
                    None => None,
                },
            ),
        decreases data@.len() - offset,
    {
        if data.len() - offset < len_size {
            return Err(StripError::TruncatedLengthPrefix);
        }
        let nal_start = offset + len_size;
        let nal_len = be_usize_of(&data[offset..nal_start]);
        if nal_len == 0 {
            return Err(StripError::ZeroLengthNal);
        }
        if data.len() - nal_start < nal_len {
            return Err(StripError::NalOverrun);
        }
        let nal_end = nal_start + nal_len;
        let nal = &data[nal_start..nal_end];
        let nal_type = (nal[0] >> 1) & 0x3f;
        let is_ps = NAL_TYPE_VPS <= nal_type && nal_type <= NAL_TYPE_PPS;
        if is_ps && !contains_bytes(known, nal) {
            return Err(StripError::ParameterSetUpdate);
        }
        match out {
            Some(ref mut buf) => {
                if !is_ps {
                    let ghost before = buf@;
                    extend_bytes(buf, &data[offset..nal_end]);
                }
            },
            None => {
                if is_ps {
                    out = Some(slice_to_vec(&data[0..offset]));
                    assert(data@.subrange(0, offset as int) =~= data@.take(offset as int));
                }
            },
        }
        offset = nal_end;
    }
    match out {
        Some(v) => Ok(Some(v)),
        None => Ok(None),
    }
}

/// The big-endian value of `bytes` in `usize` arithmetic.
fn be_usize_of(bytes: &[u8]) -> (r: usize)
    ensures
        r as nat == be_usize(bytes@),
{
    let mut v: usize = 0;
    let mut i: usize = 0;
    while i < bytes.len()
        invariant
            i <= bytes@.len(),
            v as nat == be_usize(bytes@.take(i as int)),
        decreases bytes@.len() - i,
    {
        proof {
            assert(bytes@.take(i + 1).drop_last() =~= bytes@.take(i as int));
        }
        v = v.wrapping_mul(256).wrapping_add(bytes[i] as usize);
        proof {
            let m = usize::MAX as int + 1;
            let x = be_usize(bytes@.take(i as int)) as int;
            let b = bytes@[i as int] as int;
            assert(((x * 256) % m + b) % m == (x * 256 + b) % m) by {
                vstd::arithmetic::div_mod::lemma_add_mod_noop(x * 256, b, m);
                vstd::arithmetic::div_mod::lemma_mod_twice(b, m);
                assert(b % m == b) by {
                    vstd::arithmetic::div_mod::lemma_small_mod(b as nat, m as nat);
                }
            }
        }
        i = i + 1;
    }
    proof {
        assert(bytes@.take(bytes@.len() as int) =~= bytes@);
    }
    v
}

/// Whether some entry of `known` holds exactly the bytes of `nal`.
fn contains_bytes(known: &[Vec<u8>], nal: &[u8]) -> (r: bool)
    ensures
        r == known@.map_values(|k: Vec<u8>| k@).contains(nal@),
{
    let ghost kn = known@.map_values(|k: Vec<u8>| k@);
    let mut i: usize = 0;
    while i < known.len()
        invariant
            i <= known@.len(),
            kn == known@.map_values(|k: Vec<u8>| k@),
            forall|j: int| 0 <= j < i ==> kn[j] != nal@,
        decreases known@.len() - i,
    {
        if crate::text::bytes_equal(known[i].as_slice(), nal) {
            assert(kn[i as int] == nal@);
            return true;
        }
        i = i + 1;
    }
    false
}

// ----------------------------------------------------------------------------
// Video track time base
// ----------------------------------------------------------------------------

/// A frame rate's timescale: the rounded rate, doubled until it reaches
/// 10000 ticks per second.
pub open spec fn spec_timescale(t: int) -> int
    decreases 20000 - t,
    when t >= 1
{
    if t >= 10000 {
        t
    } else {
        spec_timescale(2 * t)
    }
}

/// The time base of a video track, as (numerator, denominator):
/// `1/timescale` for a frame rate of at least one frame per second (given
/// here rounded to a whole number), microseconds otherwise.
pub open spec fn spec_video_time_base(rounded_fps: Option<i32>) -> (i32, i32) {
    match rounded_fps {
        Some(f) => (1, spec_timescale(f as int) as i32),
        None => (1, 1_000_000),
    }
}

/// The time base of a video track, from its frame rate rounded to a whole
/// number where the rate is finite and at least one frame per second.
pub fn video_time_base(rounded_fps: Option<i32>) -> (r: (i32, i32))
    requires
        rounded_fps matches Some(f) ==> f >= 1,
    ensures
        r == spec_video_time_base(rounded_fps),
{
    match rounded_fps {
        Some(f) => {
            let mut t: i32 = f;
            while t < 10000
                invariant
                    t >= 1,
                    spec_timescale(t as int) == spec_timescale(f as int),
                decreases 20000 - t,
            {
                t = t * 2;
            }
            (1, t)
        },
        None => (1, 1_000_000),
    }
}

// ----------------------------------------------------------------------------
// Muxer life cycle
// ----------------------------------------------------------------------------

/// The state a muxer keeps besides its container writer: where it is in its
/// life cycle, which tracks it has, how its output is delivered, and the
/// timestamps of the packets written so far.
pub struct MuxerSession {
    pub state: MuxerState,
    pub has_video_track: bool,
    pub has_audio_track: bool,
    /// Output is read piecewise rather than returned whole.
    pub is_streaming: bool,
    /// Options for the container writer (fast start is never passed on).
    pub muxer_options: MuxerOptions,
    /// Move the index to the front after finalizing (MP4 buffer output only).
    pub apply_faststart: bool,
    /// Presentation timestamp of the last audio packet written.
    pub last_audio_pts: i64,
    /// Timestamps of the video packets written.
    pub video: VideoTimestampState,
}

/// A fresh session: configuring tracks, none added, no packet written.
pub open spec fn fresh_session(s: MuxerSession) -> bool {
    &&& s.state == MuxerState::ConfiguringTracks
    &&& !s.has_video_track
    &&& !s.has_audio_track
    &&& s.last_audio_pts == -1
    &&& s.video.last_dts == NO_TIMESTAMP
    &&& s.video.dts_shift == 0
    &&& s.video.last_duration == 0
}

/// A muxer life-cycle error: a generic failure with a fixed message.
fn lifecycle_error(message: &str) -> (e: CodecError)
    ensures
        e.status == ErrorStatus::GenericFailure,
        e.reason@ == message@,
{
    CodecError { status: ErrorStatus::GenericFailure, reason: String::from_str(message) }
}

impl MuxerSession {
    /// A session whose output is returned whole by `finalize`. Fast start is
    /// applied afterwards, for MP4 only, and never passed to the writer.
    pub fn new_buffer(format: ContainerFormat, options: MuxerOptions) -> (s: Self)
        ensures
            fresh_session(s),
            !s.is_streaming,
            s.apply_faststart == (options.fast_start && format == ContainerFormat::Mp4),
            s.muxer_options == (MuxerOptions { fast_start: false, ..options }),
    {
        MuxerSession {
            state: MuxerState::ConfiguringTracks,
            has_video_track: false,
            has_audio_track: false,
            is_streaming: false,
            muxer_options: MuxerOptions { fast_start: false, ..options },
            apply_faststart: options.fast_start && format == ContainerFormat::Mp4,
            last_audio_pts: -1,
            video: VideoTimestampState::new(),
        }
    }

    /// A session whose output is read as it is produced; fast start is not
    /// available.
    pub fn new_streaming(options: MuxerOptions) -> (s: Self)
        ensures
            fresh_session(s),
            s.is_streaming,
            !s.apply_faststart,
            s.muxer_options == (MuxerOptions { fast_start: false, ..options }),
    {
        MuxerSession {
            state: MuxerState::ConfiguringTracks,
            has_video_track: false,
            has_audio_track: false,
            is_streaming: true,
            muxer_options: MuxerOptions { fast_start: false, ..options },
            apply_faststart: false,
            last_audio_pts: -1,
            video: VideoTimestampState::new(),
        }
    }

    /// Whether a video track may be added: only while configuring, and once.
    pub fn check_add_video_track(&self) -> (r: Result<(), CodecError>)
        ensures
            r is Ok <==> (self.state == MuxerState::ConfiguringTracks && !self.has_video_track),
            r matches Err(e) ==> e.status == ErrorStatus::GenericFailure && e.reason@ == if self.state
                != MuxerState::ConfiguringTracks {
                "Cannot add track after muxing has started"@
            } else {
                "Video track already added"@
            },
    {
        if self.state != MuxerState::ConfiguringTracks {
            return Err(lifecycle_error("Cannot add track after muxing has started"));
        }
        if self.has_video_track {
            return Err(lifecycle_error("Video track already added"));
        }
        Ok(())
    }

    /// Whether an audio track may be added: only while configuring, and once.
    pub fn check_add_audio_track(&self) -> (r: Result<(), CodecError>)
        ensures
            r is Ok <==> (self.state == MuxerState::ConfiguringTracks && !self.has_audio_track),
            r matches Err(e) ==> e.status == ErrorStatus::GenericFailure && e.reason@ == if self.state
                != MuxerState::ConfiguringTracks {
                "Cannot add track after muxing has started"@
            } else {
                "Audio track already added"@
            },
    {
        if self.state != MuxerState::ConfiguringTracks {
            return Err(lifecycle_error("Cannot add track after muxing has started"));
        }
        if self.has_audio_track {
            return Err(lifecycle_error("Audio track already added"));
        }
        Ok(())
    }

    /// Record that the writer took the video track.
    pub fn video_track_added(&mut self)
        ensures
            *final(self) == (MuxerSession { has_video_track: true, ..*old(self) }),
    {
        self.has_video_track = true;
    }

    /// Record that the writer took the audio track.
    pub fn audio_track_added(&mut self)
        ensures
            *final(self) == (MuxerSession { has_audio_track: true, ..*old(self) }),
    {
        self.has_audio_track = true;
    }

    /// Whether the header still has to be written before a packet.
    pub fn needs_header(&self) -> (r: bool)
        ensures
            r == (self.state == MuxerState::ConfiguringTracks),
    {
        self.state == MuxerState::ConfiguringTracks
    }

    /// Record that the header was written: muxing starts.
    pub fn header_written(&mut self)
        requires
            old(self).state == MuxerState::ConfiguringTracks,
        ensures
            *final(self) == (MuxerSession { state: MuxerState::Muxing, ..*old(self) }),
    {
        self.state = MuxerState::Muxing;
    }

    /// Whether packets may be written now.
    pub fn check_muxing(&self) -> (r: Result<(), CodecError>)
        ensures
            r is Ok <==> self.state == MuxerState::Muxing,
            r matches Err(e) ==> e.status == ErrorStatus::GenericFailure && e.reason@
                == "Muxer is not in muxing state"@,
    {
        if self.state != MuxerState::Muxing {
            return Err(lifecycle_error("Muxer is not in muxing state"));
        }
        Ok(())
    }

    /// Whether finalizing may begin: a muxer still configuring needs a track
    /// (and then writes its header first); a finalized one cannot finalize
    /// again.
    pub fn check_finalize(&self) -> (r: Result<(), CodecError>)
        ensures
            r is Ok <==> (self.state != MuxerState::Finalized && (self.state
                == MuxerState::ConfiguringTracks ==> self.has_video_track
                || self.has_audio_track)),
            r matches Err(e) ==> e.status == ErrorStatus::GenericFailure && e.reason@ == if self.state
                == MuxerState::Finalized {
                "Muxer already finalized"@
            } else {
                "No tracks added to muxer"@
            },
    {
        if self.state == MuxerState::ConfiguringTracks && !self.has_video_track
            && !self.has_audio_track {
            return Err(lifecycle_error("No tracks added to muxer"));
        }
        if self.state == MuxerState::Finalized {
            return Err(lifecycle_error("Muxer already finalized"));
        }
        Ok(())
    }

    /// Record that the trailer was written.
    pub fn finalized(&mut self)
        ensures
            *final(self) == (MuxerSession { state: MuxerState::Finalized, ..*old(self) }),
    {
        self.state = MuxerState::Finalized;
    }

    /// Whether the buffered writer has to flush: only while muxing.
    pub fn needs_flush(&self) -> (r: bool)
        ensures
            r == (self.state == MuxerState::Muxing),
    {
        self.state == MuxerState::Muxing
    }

    /// Whether streaming reads are possible.
    pub fn check_streaming(&self) -> (r: Result<(), CodecError>)
        ensures
            r is Ok <==> self.is_streaming,
            r matches Err(e) ==> e.status == ErrorStatus::GenericFailure && e.reason@
                == "Not in streaming mode"@,
    {
        if !self.is_streaming {
            return Err(lifecycle_error("Not in streaming mode"));
        }
        Ok(())
    }

    /// The presentation timestamp for the next audio packet, in samples, and
    /// remember it.
    pub fn next_audio_pts(&mut self, pts_in_samples: i64) -> (r: i64)
        ensures
            r == spec_next_audio_pts(old(self).last_audio_pts, pts_in_samples),
            *final(self) == (MuxerSession { last_audio_pts: r, ..*old(self) }),
    {
        let pts = next_audio_pts(self.last_audio_pts, pts_in_samples);
        self.last_audio_pts = pts;
        pts
    }

    /// The current state's name.
    pub fn state_string(&self) -> (s: &'static str)
        ensures
            s@ == muxer_state_name(self.state),
    {
        self.state.as_str()
    }
}

} // verus!
