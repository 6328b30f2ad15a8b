//! Uncompressed audio: the sample formats, the copy plan of `copyTo` and
//! `allocationSize` (the "compute copy element count" algorithm), and the
//! byte-exact copy between layouts of the same sample type.

use vstd::prelude::*;
use crate::error::{CodecError, ErrorStatus};
use crate::text::{dec_nat, push_dec_u128, push_dec_u64};

verus! {

/// The media framework's sample formats.
#[derive(Debug, Clone, Copy, PartialEq, Eq, Structural)]
pub enum AVSampleFormat {
    U8,
    S16,
    S32,
    Flt,
    Dbl,
    U8p,
    S16p,
    S32p,
    Fltp,
    Dblp,
    S64,
    S64p,
}

/// Audio sample format (WebCodecs).
#[derive(Debug, Clone, Copy, PartialEq, Eq, Structural)]
pub enum AudioSampleFormat {
    /// Unsigned 8-bit integer samples, interleaved.
    U8,
    /// Signed 16-bit integer samples, interleaved.
    S16,
    /// Signed 32-bit integer samples, interleaved.
    S32,
    /// 32-bit float samples, interleaved.
    F32,
    /// Unsigned 8-bit integer samples, planar.
    U8Planar,
    /// Signed 16-bit integer samples, planar.
    S16Planar,
    /// Signed 32-bit integer samples, planar.
    S32Planar,
    /// 32-bit float samples, planar.
    F32Planar,
}

/// The WebCodecs format of a framework format, where there is one.
pub open spec fn spec_from_av_format(f: AVSampleFormat) -> Option<AudioSampleFormat> {
    match f {
        AVSampleFormat::U8 => Some(AudioSampleFormat::U8),
        AVSampleFormat::S16 => Some(AudioSampleFormat::S16),
        AVSampleFormat::S32 => Some(AudioSampleFormat::S32),
        AVSampleFormat::Flt => Some(AudioSampleFormat::F32),
        AVSampleFormat::U8p => Some(AudioSampleFormat::U8Planar),
        AVSampleFormat::S16p => Some(AudioSampleFormat::S16Planar),
        AVSampleFormat::S32p => Some(AudioSampleFormat::S32Planar),
        AVSampleFormat::Fltp => Some(AudioSampleFormat::F32Planar),
        _ => None,
    }
}

/// The framework format of a WebCodecs format.
pub open spec fn spec_to_av_format(f: AudioSampleFormat) -> AVSampleFormat {
    match f {
        AudioSampleFormat::U8 => AVSampleFormat::U8,
        AudioSampleFormat::S16 => AVSampleFormat::S16,
        AudioSampleFormat::S32 => AVSampleFormat::S32,
        AudioSampleFormat::F32 => AVSampleFormat::Flt,
        AudioSampleFormat::U8Planar => AVSampleFormat::U8p,
        AudioSampleFormat::S16Planar => AVSampleFormat::S16p,
        AudioSampleFormat::S32Planar => AVSampleFormat::S32p,
        AudioSampleFormat::F32Planar => AVSampleFormat::Fltp,
    }
}

/// Bytes per sample.
pub open spec fn sample_size(f: AudioSampleFormat) -> nat {
    match f {
        AudioSampleFormat::U8 | AudioSampleFormat::U8Planar => 1,
        AudioSampleFormat::S16 | AudioSampleFormat::S16Planar => 2,
        _ => 4,
    }
}

/// Whether samples are stored one plane per channel.
pub open spec fn planar(f: AudioSampleFormat) -> bool {
    match f {
        AudioSampleFormat::U8Planar | AudioSampleFormat::S16Planar | AudioSampleFormat::S32Planar
        | AudioSampleFormat::F32Planar => true,
        _ => false,
    }
}

/// The sample type with the planarity stripped.
pub open spec fn base_format(f: AudioSampleFormat) -> AudioSampleFormat {
    match f {
        AudioSampleFormat::U8 | AudioSampleFormat::U8Planar => AudioSampleFormat::U8,
        AudioSampleFormat::S16 | AudioSampleFormat::S16Planar => AudioSampleFormat::S16,
        AudioSampleFormat::S32 | AudioSampleFormat::S32Planar => AudioSampleFormat::S32,
        AudioSampleFormat::F32 | AudioSampleFormat::F32Planar => AudioSampleFormat::F32,
    }
}

impl AudioSampleFormat {
    /// Convert from a framework sample format.
    pub fn from_av_format(format: AVSampleFormat) -> (r: Option<Self>)
        ensures
            r == spec_from_av_format(format),
    {
        match format {
            AVSampleFormat::U8 => Some(AudioSampleFormat::U8),
            AVSampleFormat::S16 => Some(AudioSampleFormat::S16),
            AVSampleFormat::S32 => Some(AudioSampleFormat::S32),
            AVSampleFormat::Flt => Some(AudioSampleFormat::F32),
            AVSampleFormat::U8p => Some(AudioSampleFormat::U8Planar),
            AVSampleFormat::S16p => Some(AudioSampleFormat::S16Planar),
            AVSampleFormat::S32p => Some(AudioSampleFormat::S32Planar),
            AVSampleFormat::Fltp => Some(AudioSampleFormat::F32Planar),
            _ => None,
        }
    }

    /// Convert to a framework sample format.
    pub fn to_av_format(&self) -> (r: AVSampleFormat)
        ensures
            r == spec_to_av_format(*self),
    {
        match self {
            AudioSampleFormat::U8 => AVSampleFormat::U8,
            AudioSampleFormat::S16 => AVSampleFormat::S16,
            AudioSampleFormat::S32 => AVSampleFormat::S32,
            AudioSampleFormat::F32 => AVSampleFormat::Flt,
            AudioSampleFormat::U8Planar => AVSampleFormat::U8p,
            AudioSampleFormat::S16Planar => AVSampleFormat::S16p,
            AudioSampleFormat::S32Planar => AVSampleFormat::S32p,
            AudioSampleFormat::F32Planar => AVSampleFormat::Fltp,
        }
    }

    /// Bytes per sample.
    pub fn bytes_per_sample(&self) -> (r: usize)
        ensures
            r == sample_size(*self),
    {
        match self {
            AudioSampleFormat::U8 | AudioSampleFormat::U8Planar => 1,
            AudioSampleFormat::S16 | AudioSampleFormat::S16Planar => 2,
            AudioSampleFormat::S32 | AudioSampleFormat::S32Planar | AudioSampleFormat::F32
            | AudioSampleFormat::F32Planar => 4,
        }
    }

    /// Whether this is a planar format.
    pub fn is_planar(&self) -> (r: bool)
        ensures
            r == planar(*self),
    {
        match self {
            AudioSampleFormat::U8Planar | AudioSampleFormat::S16Planar
            | AudioSampleFormat::S32Planar | AudioSampleFormat::F32Planar => true,
            _ => false,
        }
    }

    /// The sample type with the planarity stripped (u8-planar to u8, ...).
    pub fn base(&self) -> (r: AudioSampleFormat)
        ensures
            r == base_format(*self),
    {
        match self {
            AudioSampleFormat::U8 | AudioSampleFormat::U8Planar => AudioSampleFormat::U8,
            AudioSampleFormat::S16 | AudioSampleFormat::S16Planar => AudioSampleFormat::S16,
            AudioSampleFormat::S32 | AudioSampleFormat::S32Planar => AudioSampleFormat::S32,
            AudioSampleFormat::F32 | AudioSampleFormat::F32Planar => AudioSampleFormat::F32,
        }
    }
}

/// The number of planes of audio data: one per channel for planar formats,
/// one otherwise.
pub open spec fn spec_number_of_planes(format: AudioSampleFormat, channels: u32) -> u32 {
    if planar(format) {
        channels
    } else {
        1
    }
}

/// The number of planes of audio data in `format` with `channels` channels.
pub fn number_of_planes(format: AudioSampleFormat, channels: u32) -> (r: u32)
    ensures
        r == spec_number_of_planes(format, channels),
{
    if format.is_planar() {
        channels
    } else {
        1
    }
}

/// The duration in microseconds of `frames` samples per channel at
/// `sample_rate`, rounded toward zero; 0 without a positive rate.
pub open spec fn spec_audio_duration(frames: u32, sample_rate: u32) -> i64 {
    if sample_rate > 0 {
        ((frames as int * 1_000_000) / sample_rate as int) as i64
    } else {
        0
    }
}

/// The duration of audio data: the one it was given, else computed from its
/// length and sample rate.
pub fn audio_duration(given: Option<i64>, frames: u32, sample_rate: u32) -> (r: i64)
    ensures
        r == match given {
            Some(d) => d,
            None => spec_audio_duration(frames, sample_rate),
        },
{
    match given {
        Some(d) => d,
        None => {
            if sample_rate > 0 {
                let n: i64 = (frames as i64) * 1_000_000;
                n / (sample_rate as i64)
            } else {
                0
            }
        },
    }
}

/// The bytes needed for `frames` samples of `channels` channels.
pub fn calculate_buffer_size(format: AudioSampleFormat, num_frames: u32, channels: u32) -> (r: u128)
    ensures
        r == num_frames as nat * channels as nat * sample_size(format),
{
    let b = format.bytes_per_sample() as u128;
    assert((num_frames as u128) * (channels as u128) <= 0xffff_ffff * 0xffff_ffffu128) by (nonlinear_arith);
    assert((num_frames as u128) * (channels as u128) * b <= 0xffff_ffff_ffff_ffff_ffff_ffff_ffff_ffffu128) by (nonlinear_arith)
        requires
            (num_frames as u128) * (channels as u128) <= 0xffff_ffff * 0xffff_ffff,
            b <= 4,
    ;
    (num_frames as u128) * (channels as u128) * b
}

// ----------------------------------------------------------------------------
// Copy plan
// ----------------------------------------------------------------------------

/// What a copy of audio data covers: the destination format, the frames
/// copied, and the number of samples written (frames times channels for an
/// interleaved destination, frames for one plane of a planar one).
#[derive(Debug, Clone, Copy, PartialEq, Eq, Structural)]
pub struct CopyPlan {
    pub dest_format: AudioSampleFormat,
    pub copy_frames: u32,
    pub element_count: u64,
}

/// The options of a copy.
#[derive(Debug, Clone, Copy, PartialEq, Eq, Structural)]
pub struct CopyOptions {
    pub plane_index: u32,
    pub frame_offset: Option<u32>,
    pub frame_count: Option<u32>,
    pub format: Option<AudioSampleFormat>,
}

/// Why a copy plan was refused; each is a RangeError.
#[derive(Debug, Clone, Copy, PartialEq, Eq, Structural)]
pub enum CopyPlanError {
    /// The plane index is not below the destination's number of planes.
    PlaneIndex { plane_index: u32, planes: u32 },
    /// The frame offset is not below the number of frames.
    FrameOffset { frame_offset: u32, frames: u32 },
    /// More frames were asked for than remain after the offset.
    FrameCount { frame_count: u32, available: u32 },
}

/// The copy plan, or why there is none, per the "compute copy element count"
/// algorithm: the plane index is bounded by the destination layout (one
/// plane when interleaved, one per channel when planar); the frame offset
/// must lie below the number of frames; a frame count must fit in what
/// remains.
pub open spec fn spec_copy_plan(
    format: AudioSampleFormat,
    channels: u32,
    frames: u32,
    o: CopyOptions,
) -> Result<CopyPlan, CopyPlanError> {
    let dest = match o.format {
        Some(f) => f,
        None => format,
    };
    let planes = spec_number_of_planes(dest, channels);
    let offset: u32 = match o.frame_offset {
        Some(x) => x,
        None => 0,
    };
    if o.plane_index >= planes {
        Err(CopyPlanError::PlaneIndex { plane_index: o.plane_index, planes })
    } else if offset >= frames {
        Err(CopyPlanError::FrameOffset { frame_offset: offset, frames })
    } else {
        let available = (frames - offset) as u32;
        match o.frame_count {
            Some(c) => if c > available {
                Err(CopyPlanError::FrameCount { frame_count: c, available })
            } else {
                Ok(
                    CopyPlan {
                        dest_format: dest,
                        copy_frames: c,
                        element_count: if planar(dest) {
                            c as u64
                        } else {
                            (c * channels) as u64
                        },
                    },
                )
            },
            None => Ok(
                CopyPlan {
                    dest_format: dest,
                    copy_frames: available,
                    element_count: if planar(dest) {
                        available as u64
                    } else {
                        (available * channels) as u64
                    },
                },
            ),
        }
    }
}

/// Compute the copy plan for audio data in `format` with `channels` channels
/// and `frames` frames.
pub fn compute_copy_plan(format: AudioSampleFormat, channels: u32, frames: u32, options: &CopyOptions) -> (r:
    Result<CopyPlan, CopyPlanError>)
    ensures
        r == spec_copy_plan(format, channels, frames, *options),
{
    let dest_format = match options.format {
        Some(f) => f,
        None => format,
    };
    let num_planes = number_of_planes(dest_format, channels);
    if options.plane_index >= num_planes {
        return Err(CopyPlanError::PlaneIndex { plane_index: options.plane_index, planes: num_planes });
    }
    let frame_offset = match options.frame_offset {
        Some(x) => x,
        None => 0,
    };
    if frame_offset >= frames {
        return Err(CopyPlanError::FrameOffset { frame_offset, frames });
    }
    let mut copy_frames = frames - frame_offset;
    match options.frame_count {
        Some(c) => {
            if c > copy_frames {
                return Err(CopyPlanError::FrameCount { frame_count: c, available: copy_frames });
            }
            copy_frames = c;
        },
        None => {},
    }
    assert((copy_frames as u64) * (channels as u64) <= 0xffff_ffff * 0xffff_ffffu64)
        by (nonlinear_arith);
    let element_count: u64 = if dest_format.is_planar() {
        copy_frames as u64
    } else {
        (copy_frames as u64) * (channels as u64)
    };
    Ok(CopyPlan { dest_format, copy_frames, element_count })
}

/// The RangeError message for a refused plan.
pub open spec fn copy_plan_message(e: CopyPlanError) -> Seq<char> {
    match e {
        CopyPlanError::PlaneIndex { plane_index, planes } => "planeIndex "@ + dec_nat(
            plane_index as nat,
        ) + " is out of bounds (numberOfPlanes is "@ + dec_nat(planes as nat) + ")"@,
        CopyPlanError::FrameOffset { frame_offset, frames } => "frameOffset "@ + dec_nat(
            frame_offset as nat,
        ) + " is out of bounds (numberOfFrames is "@ + dec_nat(frames as nat) + ")"@,
        CopyPlanError::FrameCount { frame_count, available } => "frameCount "@ + dec_nat(
            frame_count as nat,
        ) + " exceeds the "@ + dec_nat(available as nat)
            + " frames available after frameOffset"@,
    }
}

impl CopyPlanError {
    /// The RangeError message.
    pub fn message(&self) -> (s: String)
        ensures
            s@ == copy_plan_message(*self),
    {
        let mut s;
        match self {
            CopyPlanError::PlaneIndex { plane_index, planes } => {
                s = String::from_str("planeIndex ");
                push_dec_u64(&mut s, *plane_index as u64);
                s.append(" is out of bounds (numberOfPlanes is ");
                push_dec_u64(&mut s, *planes as u64);
                s.append(")");
            },
            CopyPlanError::FrameOffset { frame_offset, frames } => {
                s = String::from_str("frameOffset ");
                push_dec_u64(&mut s, *frame_offset as u64);
                s.append(" is out of bounds (numberOfFrames is ");
                push_dec_u64(&mut s, *frames as u64);
                s.append(")");
            },
            CopyPlanError::FrameCount { frame_count, available } => {
                s = String::from_str("frameCount ");
                push_dec_u64(&mut s, *frame_count as u64);
                s.append(" exceeds the ");
                push_dec_u64(&mut s, *available as u64);
                s.append(" frames available after frameOffset");
            },
        }
        assert(s@ =~= copy_plan_message(*self));
        s
    }
}

/// The byte size of a planned copy.
pub open spec fn plan_bytes(p: CopyPlan) -> nat {
    p.element_count as nat * sample_size(p.dest_format)
}

/// The size `allocationSize` reports for a plan: its byte size, which must
/// fit in 32 bits (an InvalidArg "RangeError: ..." otherwise).
pub fn allocation_size(plan: &CopyPlan) -> (r: Result<u32, CodecError>)
    ensures
        match r {
            Ok(n) => n as nat == plan_bytes(*plan),
            Err(e) => plan_bytes(*plan) > u32::MAX && e.status == ErrorStatus::InvalidArg
                && e.reason@ == "RangeError: allocation size does not fit in u32"@,
        },
{
    let b = plan.dest_format.bytes_per_sample() as u128;
    assert((plan.element_count as u128) * b <= 0xffff_ffff_ffff_ffff * 4u128) by (nonlinear_arith)
        requires
            b <= 4,
    ;
    let byte_size: u128 = (plan.element_count as u128) * b;
    if byte_size > 0xffff_ffffu128 {
        return Err(
            CodecError {
                status: ErrorStatus::InvalidArg,
                reason: String::from_str("RangeError: allocation size does not fit in u32"),
            },
        );
    }
    Ok(byte_size as u32)
}

// ----------------------------------------------------------------------------
// Copying between layouts of one sample type
// ----------------------------------------------------------------------------

/// Where destination sample `e` of a copy comes from: its source plane and
/// the sample's index in that plane. A planar destination is one channel
/// (`plane_index`); an interleaved destination holds `channels` samples per
/// frame. Frames are counted from `frame_offset`.
pub open spec fn source_of(
    src_planar: bool,
    dest_planar: bool,
    e: int,
    channels: int,
    plane_index: int,
    frame_offset: int,
) -> (int, int) {
    if dest_planar {
        if src_planar {
            (plane_index, frame_offset + e)
        } else {
            (0, (frame_offset + e) * channels + plane_index)
        }
    } else if src_planar {
        (e % channels, frame_offset + e / channels)
    } else {
        (0, frame_offset * channels + e)
    }
}

/// Destination sample `e` can be read whole from its source plane, when that
/// plane exists.
pub open spec fn source_fits(
    planes: Seq<Vec<u8>>,
    b: int,
    src_planar: bool,
    dest_planar: bool,
    e: int,
    channels: int,
    plane_index: int,
    frame_offset: int,
) -> bool {
    let (p, k) = source_of(src_planar, dest_planar, e, channels, plane_index, frame_offset);
    0 <= p < planes.len() ==> 0 <= k && (k + 1) * b <= planes[p]@.len()
}

/// Byte `i` of the destination after a verbatim copy: byte `i % b` of the
/// source sample of destination sample `i / b`, or the old byte when its
/// source plane is missing.
pub open spec fn verbatim_byte(
    planes: Seq<Vec<u8>>,
    old_dest: Seq<u8>,
    i: int,
    b: int,
    src_planar: bool,
    dest_planar: bool,
    channels: int,
    plane_index: int,
    frame_offset: int,
) -> u8 {
    let (p, k) = source_of(src_planar, dest_planar, i / b, channels, plane_index, frame_offset);
    if 0 <= p < planes.len() {
        planes[p]@[k * b + i % b]
    } else {
        old_dest[i]
    }
}

/// A plan's sample count agrees with its frame count and layout.
pub open spec fn plan_consistent(p: CopyPlan, channels: u32) -> bool {
    p.element_count == if planar(p.dest_format) {
        p.copy_frames as int
    } else {
        p.copy_frames as int * channels as int
    }
}

/// Copy the planned samples when source and destination share a sample type
/// (only the layout may differ): byte for byte, from the source planes
/// (`planes`, in the source's layout) into `dest`. Bytes past the copy are
/// left as they were.
pub fn copy_samples_verbatim(
    src_format: AudioSampleFormat,
    plan: &CopyPlan,
    channels: u32,
    plane_index: u32,
    frame_offset: u32,
    planes: &Vec<Vec<u8>>,
    dest: &mut Vec<u8>,
)
    requires
        base_format(src_format) == base_format(plan.dest_format),
        plan_consistent(*plan, channels),
        plan_bytes(*plan) <= old(dest)@.len(),
        forall|e: int|
            0 <= e < plan.element_count ==> #[trigger] source_fits(
                planes@,
                sample_size(plan.dest_format) as int,
                planar(src_format),
                planar(plan.dest_format),
                e,
                channels as int,
                plane_index as int,
                frame_offset as int,
            ),
    ensures
        final(dest)@.len() == old(dest)@.len(),
        forall|i: int|
            0 <= i < plan_bytes(*plan) ==> #[trigger] final(dest)@[i] == verbatim_byte(
                planes@,
                old(dest)@,
                i,
                sample_size(plan.dest_format) as int,
                planar(src_format),
                planar(plan.dest_format),
                channels as int,
                plane_index as int,
                frame_offset as int,
            ),
        forall|i: int|
            plan_bytes(*plan) <= i < old(dest)@.len() ==> #[trigger] final(dest)@[i] == old(
                dest,
            )@[i],
{
    let b = plan.dest_format.bytes_per_sample();
    let src_planar = src_format.is_planar();
    let dest_planar = plan.dest_format.is_planar();
    let count = plan.element_count;
    let ghost bytes = plan_bytes(*plan);
    assert((count as u128) * (b as u128) <= 0x1_0000_0000_0000_0000 * 4u128) by (nonlinear_arith)
        requires
            count <= 0xffff_ffff_ffff_ffff,
            b <= 4,
    ;
    let total128: u128 = (count as u128) * (b as u128);
    assert(total128 == bytes);
    let dest_len = dest.len();
    assert(total128 <= dest_len as u128);
    let total: usize = total128 as usize;
    let mut i: usize = 0;
    while i < total
        invariant
            b == sample_size(plan.dest_format),
            src_planar == planar(src_format),
            dest_planar == planar(plan.dest_format),
            count == plan.element_count,
            plan_consistent(*plan, channels),
            total as nat == bytes,
            bytes == plan_bytes(*plan),
            bytes <= old(dest)@.len(),
            i <= total,
            dest@.len() == old(dest)@.len(),
            forall|e: int|
                0 <= e < count ==> #[trigger] source_fits(
                    planes@,
                    b as int,
                    src_planar,
                    dest_planar,
                    e,
                    channels as int,
                    plane_index as int,
                    frame_offset as int,
                ),
            forall|x: int|
                0 <= x < i ==> #[trigger] dest@[x] == verbatim_byte(
                    planes@,
                    old(dest)@,
                    x,
                    b as int,
                    src_planar,
                    dest_planar,
                    channels as int,
                    plane_index as int,
                    frame_offset as int,
                ),
            forall|x: int| i <= x < old(dest)@.len() ==> #[trigger] dest@[x] == old(dest)@[x],
        decreases total - i,
    {
        let e = i / b;
        let j = i % b;
        assert(e < count) by (nonlinear_arith)
            requires
                e == i / b,
                i < total,
                total == count * b,
                b > 0,
        ;
        let (p, k): (usize, u128) = if dest_planar {
            if src_planar {
                (plane_index as usize, frame_offset as u128 + e as u128)
            } else {
                assert((frame_offset as u128 + e as u128) * (channels as u128) <= 0x1_0000_0000_0000_0000_0000 * 0x1_0000_0000u128)
                    by (nonlinear_arith)
                    requires
                        frame_offset <= 0xffff_ffff,
                        e <= 0xffff_ffff_ffff_ffff,
                        channels <= 0xffff_ffff,
                ;
                (0usize, (frame_offset as u128 + e as u128) * (channels as u128) + plane_index as u128)
            }
        } else if src_planar {
            assert(channels > 0) by (nonlinear_arith)
                requires
                    e < count,
                    count == plan.copy_frames as int * channels as int,
            ;
            ((e % (channels as usize)), frame_offset as u128 + (e / (channels as usize)) as u128)
        } else {
            assert((frame_offset as u128) * (channels as u128) <= 0x1_0000_0000 * 0x1_0000_0000u128)
                by (nonlinear_arith)
                requires
                    frame_offset <= 0xffff_ffff,
                    channels <= 0xffff_ffff,
            ;
            (0usize, (frame_offset as u128) * (channels as u128) + e as u128)
        };
        proof {
            assert(source_fits(
                planes@,
                b as int,
                src_planar,
                dest_planar,
                e as int,
                channels as int,
                plane_index as int,
                frame_offset as int,
            ));
            assert((p as int, k as int) == source_of(
                src_planar,
                dest_planar,
                e as int,
                channels as int,
                plane_index as int,
                frame_offset as int,
            ));
        }
        if p < planes.len() {
            let plane = &planes[p];
            assert(k * (b as u128) + (j as u128) < plane@.len()) by (nonlinear_arith)
                requires
                    (k + 1) * b <= plane@.len(),
                    j < b,
            ;
            let idx128: u128 = k * (b as u128) + (j as u128);
            assert(idx128 < plane.len() as u128);
            let idx: usize = idx128 as usize;
            assert(idx as int == k * b + j);
            let v = plane[idx];
            assert(plane@ == planes@[p as int]@);
            let ghost prev = dest@;
            dest.set(i, v);
            proof {
                assert(dest@ == prev.update(i as int, v));
                assert(v == planes@[p as int]@[k * b + i % b]);
            }
        }
        proof {
            assert(dest@[i as int] == verbatim_byte(
                planes@,
                old(dest)@,
                i as int,
                b as int,
                src_planar,
                dest_planar,
                channels as int,
                plane_index as int,
                frame_offset as int,
            ));
        }
        i = i + 1;
    }
}

/// "destination buffer too small: need {need} bytes, got {got}".
pub open spec fn destination_message(need: nat, got: nat) -> Seq<char> {
    "destination buffer too small: need "@ + dec_nat(need) + " bytes, got "@ + dec_nat(got)
}

/// Check that a destination of `dest_len` bytes holds the planned copy; the
/// RangeError message otherwise.
pub fn check_destination_size(plan: &CopyPlan, dest_len: usize) -> (r: Result<(), String>)
    ensures
        r is Ok <==> plan_bytes(*plan) <= dest_len,
        r matches Err(m) ==> m@ == destination_message(plan_bytes(*plan), dest_len as nat),
{
    let b = plan.dest_format.bytes_per_sample() as u128;
    assert((plan.element_count as u128) * b <= 0x1_0000_0000_0000_0000 * 4u128) by (nonlinear_arith)
        requires
            b <= 4,
    ;
    let need: u128 = (plan.element_count as u128) * b;
    if need > dest_len as u128 {
        let mut m = String::from_str("destination buffer too small: need ");
        push_dec_u128(&mut m, need);
        m.append(" bytes, got ");
        push_dec_u64(&mut m, dest_len as u64);
        assert(m@ =~= destination_message(plan_bytes(*plan), dest_len as nat));
        return Err(m);
    }
    Ok(())
}

/// Whether `data_len` bytes hold `num_frames` frames of `channels` channels in
/// `format`: planar data needs a full plane per channel, interleaved data
/// all samples.
pub open spec fn frame_data_fits(format: AudioSampleFormat, num_frames: u32, channels: u32, data_len: nat) -> bool {
    num_frames as nat * channels as nat * sample_size(format) <= data_len
}

/// Check the data given for new audio: an InvalidArg error naming the layout
/// when it is too small.
pub fn check_frame_data_size(format: AudioSampleFormat, num_frames: u32, channels: u32, data_len: usize) -> (r:
    Result<(), CodecError>)
    ensures
        r is Ok <==> frame_data_fits(format, num_frames, channels, data_len as nat),
        r matches Err(e) ==> e.status == ErrorStatus::InvalidArg && e.reason@ == if planar(format) {
            "Data buffer too small for planar format"@
        } else {
            "Data buffer too small for interleaved format"@
        },
{
    let need = calculate_buffer_size(format, num_frames, channels);
    if need > data_len as u128 {
        let reason = if format.is_planar() {
            String::from_str("Data buffer too small for planar format")
        } else {
            String::from_str("Data buffer too small for interleaved format")
        };
        return Err(CodecError { status: ErrorStatus::InvalidArg, reason });
    }
    Ok(())
}


/// The name of each format, as in the WebCodecs `AudioSampleFormat` enum.
pub open spec fn sample_format_name(f: AudioSampleFormat) -> Seq<char> {
    match f {
        AudioSampleFormat::U8 => "u8"@,
        AudioSampleFormat::S16 => "s16"@,
        AudioSampleFormat::S32 => "s32"@,
        AudioSampleFormat::F32 => "f32"@,
        AudioSampleFormat::U8Planar => "u8-planar"@,
        AudioSampleFormat::S16Planar => "s16-planar"@,
        AudioSampleFormat::S32Planar => "s32-planar"@,
        AudioSampleFormat::F32Planar => "f32-planar"@,
    }
}

impl AudioSampleFormat {
    /// The format's name.
    pub fn as_str(&self) -> (s: &'static str)
        ensures
            s@ == sample_format_name(*self),
    {
        match self {
            AudioSampleFormat::U8 => "u8",
            AudioSampleFormat::S16 => "s16",
            AudioSampleFormat::S32 => "s32",
            AudioSampleFormat::F32 => "f32",
            AudioSampleFormat::U8Planar => "u8-planar",
            AudioSampleFormat::S16Planar => "s16-planar",
            AudioSampleFormat::S32Planar => "s32-planar",
            AudioSampleFormat::F32Planar => "f32-planar",
        }
    }
}

/// Read the `format` member of audio data: one of the format names; a
/// missing or other value is a TypeError.
pub fn parse_sample_format(format: Option<&str>) -> (r: Result<AudioSampleFormat, CodecError>)
    ensures
        match r {
            Ok(f) => format matches Some(s) && s@ == sample_format_name(f),
            Err(e) => e.status == ErrorStatus::InvalidArg && match format {
                None => e.reason@ == "format is required"@,
                Some(s) => (forall|f: AudioSampleFormat| s@ != #[trigger] sample_format_name(f))
                    && e.reason@ == "Invalid format: "@ + s@,
            },
        },
{
    let s = match format {
        Some(s) => s,
        None => return Err(CodecError { status: ErrorStatus::InvalidArg, reason: String::from_str("format is required") }),
    };
    let all = [
        AudioSampleFormat::U8,
        AudioSampleFormat::S16,
        AudioSampleFormat::S32,
        AudioSampleFormat::F32,
        AudioSampleFormat::U8Planar,
        AudioSampleFormat::S16Planar,
        AudioSampleFormat::S32Planar,
        AudioSampleFormat::F32Planar,
    ];
    let mut i: usize = 0;
    while i < 8
        invariant
            0 <= i <= 8,
            format == Some(s),
            all@ == seq![
                AudioSampleFormat::U8,
                AudioSampleFormat::S16,
                AudioSampleFormat::S32,
                AudioSampleFormat::F32,
                AudioSampleFormat::U8Planar,
                AudioSampleFormat::S16Planar,
                AudioSampleFormat::S32Planar,
                AudioSampleFormat::F32Planar,
            ],
            forall|j: int| 0 <= j < i ==> s@ != sample_format_name(#[trigger] all@[j]),
        decreases 8 - i,
    {
        let f = all[i];
        let name = f.as_str();
        if str_equal(s, name) {
            return Ok(f);
        }
        i = i + 1;
    }
    proof {
        assert forall|f: AudioSampleFormat| s@ != #[trigger] sample_format_name(f) by {
            match f {
                AudioSampleFormat::U8 => assert(all@[0] == f),
                AudioSampleFormat::S16 => assert(all@[1] == f),
                AudioSampleFormat::S32 => assert(all@[2] == f),
                AudioSampleFormat::F32 => assert(all@[3] == f),
                AudioSampleFormat::U8Planar => assert(all@[4] == f),
                AudioSampleFormat::S16Planar => assert(all@[5] == f),
                AudioSampleFormat::S32Planar => assert(all@[6] == f),
                AudioSampleFormat::F32Planar => assert(all@[7] == f),
            }
        }
    }
    let mut reason = String::from_str("Invalid format: ");
    reason.append(s);
    Err(CodecError { status: ErrorStatus::InvalidArg, reason })
}

/// Whether two texts are equal.
fn str_equal(a: &str, b: &str) -> (r: bool)
    ensures
        r == (a@ == b@),
{
    let n = a.unicode_len();
    if n != b.unicode_len() {
        return false;
    }
    let mut i: usize = 0;
    while i < n
        invariant
            i <= n,
            n == a@.len(),
            n == b@.len(),
            forall|j: int| 0 <= j < i ==> a@[j] == b@[j],
        decreases n - i,
    {
        if a.get_char(i) != b.get_char(i) {
            return false;
        }
        i = i + 1;
    }
    assert(a@ =~= b@);
    true
}


/// Where destination sample `e` of a copy comes from (see `source_of`): its
/// source plane and its index in that plane.
pub fn sample_source(
    src_format: AudioSampleFormat,
    dest_format: AudioSampleFormat,
    e: u64,
    channels: u32,
    plane_index: u32,
    frame_offset: u32,
) -> (r: (u64, u64))
    requires
        channels > 0,
        (frame_offset + e) * channels + plane_index <= u64::MAX,
        frame_offset * channels + e <= u64::MAX,
    ensures
        (r.0 as int, r.1 as int) == source_of(
            planar(src_format),
            planar(dest_format),
            e as int,
            channels as int,
            plane_index as int,
            frame_offset as int,
        ),
{
    let c = channels as u64;
    let fo = frame_offset as u64;
    assert(fo + e <= (fo + e) * c) by (nonlinear_arith)
        requires
            c >= 1,
            fo + e >= 0,
    ;
    assert(e / c <= e) by (nonlinear_arith)
        requires
            c >= 1,
    ;
    if dest_format.is_planar() {
        if src_format.is_planar() {
            (plane_index as u64, fo + e)
        } else {
            (0, (fo + e) * c + plane_index as u64)
        }
    } else if src_format.is_planar() {
        (e % c, fo + e / c)
    } else {
        (0, fo * c + e)
    }
}

} // verus!
