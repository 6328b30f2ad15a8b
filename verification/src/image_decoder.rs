//! Image decoder rules: the MIME types it decodes, the track list it
//! exposes (one track, selectable), and the checks on decoded frames.

use vstd::prelude::*;
use vstd::string::StringSliceAdditionalSpecFns;
use crate::codec_id::AVCodecID;
use crate::error::{CodecError, ErrorStatus};
use crate::muxer_base::error_with_subject;
use crate::text::{bytes_equal, bytes_equal_ci, dec_nat, equals_ci, push_dec_u64};

verus! {

/// The codec of an image MIME type, compared without regard to ASCII case
/// (no character outside ASCII lowercases into these names): JPEG, PNG,
/// WebP, GIF, BMP, and AVIF (decoded as AV1).
pub open spec fn image_codec_of(b: Seq<u8>) -> Option<AVCodecID> {
    if equals_ci(b, seq!['i' as u8, 'm' as u8, 'a' as u8, 'g' as u8, 'e' as u8, '/' as u8, 'j' as u8, 'p' as u8, 'e' as u8, 'g' as u8]) || equals_ci(b, seq!['i' as u8, 'm' as u8, 'a' as u8, 'g' as u8, 'e' as u8, '/' as u8, 'j' as u8, 'p' as u8, 'g' as u8]) {
        Some(AVCodecID::Mjpeg)
    } else if equals_ci(b, seq!['i' as u8, 'm' as u8, 'a' as u8, 'g' as u8, 'e' as u8, '/' as u8, 'p' as u8, 'n' as u8, 'g' as u8]) {
        Some(AVCodecID::Png)
    } else if equals_ci(b, seq!['i' as u8, 'm' as u8, 'a' as u8, 'g' as u8, 'e' as u8, '/' as u8, 'w' as u8, 'e' as u8, 'b' as u8, 'p' as u8]) {
        Some(AVCodecID::Webp)
    } else if equals_ci(b, seq!['i' as u8, 'm' as u8, 'a' as u8, 'g' as u8, 'e' as u8, '/' as u8, 'g' as u8, 'i' as u8, 'f' as u8]) {
        Some(AVCodecID::Gif)
    } else if equals_ci(b, seq!['i' as u8, 'm' as u8, 'a' as u8, 'g' as u8, 'e' as u8, '/' as u8, 'b' as u8, 'm' as u8, 'p' as u8]) || equals_ci(b, seq!['i' as u8, 'm' as u8, 'a' as u8, 'g' as u8, 'e' as u8, '/' as u8, 'x' as u8, '-' as u8, 'b' as u8, 'm' as u8, 'p' as u8]) {
        Some(AVCodecID::Bmp)
    } else if equals_ci(b, seq!['i' as u8, 'm' as u8, 'a' as u8, 'g' as u8, 'e' as u8, '/' as u8, 'a' as u8, 'v' as u8, 'i' as u8, 'f' as u8]) {
        Some(AVCodecID::Av1)
    } else {
        None
    }
}

/// Parse an image MIME type to a codec ID; an unknown type is an error
/// "Unsupported image type: {mime_type}".
pub fn parse_mime_type(mime_type: &str) -> (r: Result<AVCodecID, CodecError>)
    ensures
        match r {
            Ok(id) => image_codec_of(mime_type.spec_bytes()) == Some(id),
            Err(e) => image_codec_of(mime_type.spec_bytes()) is None && e.status
                == ErrorStatus::GenericFailure && e.reason@ == "Unsupported image type: "@
                + mime_type@,
        },
{
    let b = mime_type.as_bytes();
    if bytes_equal_ci(b, &['i' as u8, 'm' as u8, 'a' as u8, 'g' as u8, 'e' as u8, '/' as u8, 'j' as u8, 'p' as u8, 'e' as u8, 'g' as u8]) || bytes_equal_ci(b, &['i' as u8, 'm' as u8, 'a' as u8, 'g' as u8, 'e' as u8, '/' as u8, 'j' as u8, 'p' as u8, 'g' as u8]) {
        return Ok(AVCodecID::Mjpeg);
    }
    if bytes_equal_ci(b, &['i' as u8, 'm' as u8, 'a' as u8, 'g' as u8, 'e' as u8, '/' as u8, 'p' as u8, 'n' as u8, 'g' as u8]) {
        return Ok(AVCodecID::Png);
    }
    if bytes_equal_ci(b, &['i' as u8, 'm' as u8, 'a' as u8, 'g' as u8, 'e' as u8, '/' as u8, 'w' as u8, 'e' as u8, 'b' as u8, 'p' as u8]) {
        return Ok(AVCodecID::Webp);
    }
    if bytes_equal_ci(b, &['i' as u8, 'm' as u8, 'a' as u8, 'g' as u8, 'e' as u8, '/' as u8, 'g' as u8, 'i' as u8, 'f' as u8]) {
        return Ok(AVCodecID::Gif);
    }
    if bytes_equal_ci(b, &['i' as u8, 'm' as u8, 'a' as u8, 'g' as u8, 'e' as u8, '/' as u8, 'b' as u8, 'm' as u8, 'p' as u8]) || bytes_equal_ci(b, &['i' as u8, 'm' as u8, 'a' as u8, 'g' as u8, 'e' as u8, '/' as u8, 'x' as u8, '-' as u8, 'b' as u8, 'm' as u8, 'p' as u8]) {
        return Ok(AVCodecID::Bmp);
    }
    if bytes_equal_ci(b, &['i' as u8, 'm' as u8, 'a' as u8, 'g' as u8, 'e' as u8, '/' as u8, 'a' as u8, 'v' as u8, 'i' as u8, 'f' as u8]) {
        return Ok(AVCodecID::Av1);
    }
    Err(error_with_subject("Unsupported image type: ", mime_type))
}

// ----------------------------------------------------------------------------
// Track list
// ----------------------------------------------------------------------------

/// What the decoder knows of an image track (its repetition count aside).
#[derive(Debug, Clone, Copy, PartialEq, Eq, Structural)]
pub struct ImageTrackData {
    /// Whether the track is animated.
    pub animated: bool,
    /// Number of frames in the track.
    pub frame_count: u32,
}

/// The track list of an image decoder and which track is selected.
pub struct ImageTrackListInner {
    pub tracks: Vec<ImageTrackData>,
    pub selected_index: Option<usize>,
}

/// Whether images of a codec may be animated (GIF and WebP).
pub open spec fn animated_codec(codec_id: Option<AVCodecID>) -> bool {
    codec_id == Some(AVCodecID::Gif) || codec_id == Some(AVCodecID::Webp)
}

impl ImageTrackListInner {
    /// The track list of a new decoder: one track, selected, animated for
    /// GIF and WebP (frame count not yet known: 0), otherwise one frame.
    pub fn initial(codec_id: Option<AVCodecID>) -> (t: Self)
        ensures
            t.tracks@ == seq![
                ImageTrackData {
                    animated: animated_codec(codec_id),
                    frame_count: if animated_codec(codec_id) {
                        0u32
                    } else {
                        1u32
                    },
                },
            ],
            t.selected_index == Some(0usize),
    {
        let animated = match codec_id {
            Some(AVCodecID::Gif) | Some(AVCodecID::Webp) => true,
            _ => false,
        };
        let mut tracks: Vec<ImageTrackData> = Vec::new();
        tracks.push(ImageTrackData {
            animated,
            frame_count: if animated {
                0
            } else {
                1
            },
        });
        assert(tracks@ =~= seq![
            ImageTrackData {
                animated: animated_codec(codec_id),
                frame_count: if animated_codec(codec_id) {
                    0u32
                } else {
                    1u32
                },
            },
        ]);
        ImageTrackListInner { tracks, selected_index: Some(0) }
    }

    /// The number of tracks (as a 32-bit count).
    pub fn length(&self) -> (n: u32)
        ensures
            n == self.tracks@.len() as u32,
    {
        self.tracks.len() as u32
    }

    /// The selected track's index, when it names a track.
    pub fn selected_track(&self) -> (r: Option<usize>)
        ensures
            r == match self.selected_index {
                Some(i) => if i < self.tracks@.len() {
                    Some(i)
                } else {
                    None
                },
                None => None,
            },
    {
        match self.selected_index {
            Some(i) => if i < self.tracks.len() {
                Some(i)
            } else {
                None
            },
            None => None,
        }
    }

    /// The selected index, or -1 when no track is selected.
    pub fn selected_index(&self) -> (r: i32)
        ensures
            r == match self.selected_index {
                Some(i) => i as i32,
                None => -1i32,
            },
    {
        match self.selected_index {
            Some(i) => i as i32,
            None => -1,
        }
    }

    /// The track at `index`, when there is one.
    pub fn item(&self, index: u32) -> (r: Option<usize>)
        ensures
            r == if (index as nat) < self.tracks@.len() {
                Some(index as usize)
            } else {
                None
            },
    {
        if (index as usize) < self.tracks.len() {
            Some(index as usize)
        } else {
            None
        }
    }

    /// Whether track `index` is animated (false when there is no such track).
    pub fn animated(&self, index: usize) -> (r: bool)
        ensures
            r == (index < self.tracks@.len() && self.tracks@[index as int].animated),
    {
        index < self.tracks.len() && self.tracks[index].animated
    }

    /// The frame count of track `index` (0 when there is no such track).
    pub fn frame_count(&self, index: usize) -> (r: u32)
        ensures
            r == if index < self.tracks@.len() {
                self.tracks@[index as int].frame_count
            } else {
                0
            },
    {
        if index < self.tracks.len() {
            self.tracks[index].frame_count
        } else {
            0
        }
    }

    /// Whether track `index` is the selected one.
    pub fn selected(&self, index: usize) -> (r: bool)
        ensures
            r == (self.selected_index == Some(index)),
    {
        self.selected_index == Some(index)
    }

    /// Select track `index` (deselecting any other), or deselect it when it
    /// is the selected one.
    pub fn set_selected(&mut self, index: usize, value: bool)
        ensures
            final(self).tracks@ == old(self).tracks@,
            final(self).selected_index == if value {
                Some(index)
            } else if old(self).selected_index == Some(index) {
                None
            } else {
                old(self).selected_index
            },
    {
        if value {
            self.selected_index = Some(index);
        } else if self.selected_index == Some(index) {
            self.selected_index = None;
        }
    }

    /// Record the frames decoded for the first track: with animation
    /// declined only the first frame is kept and the track is marked static;
    /// the track's frame count becomes the number kept. Returns that number.
    pub fn record_decoded(&mut self, decoded: usize, prefer_animation: Option<bool>) -> (kept: usize)
        ensures
            kept == if prefer_animation == Some(false) && decoded > 0 {
                1
            } else {
                decoded
            },
            final(self).selected_index == old(self).selected_index,
            final(self).tracks@.len() == old(self).tracks@.len(),
            old(self).tracks@.len() > 0 ==> final(self).tracks@[0] == (ImageTrackData {
                animated: if prefer_animation == Some(false) && decoded > 0 {
                    false
                } else {
                    old(self).tracks@[0].animated
                },
                frame_count: if kept > 0 {
                    kept as u32
                } else {
                    old(self).tracks@[0].frame_count
                },
            }),
            forall|i: int| 0 < i < old(self).tracks@.len() ==> final(self).tracks@[i] == old(self).tracks@[i],
    {
        let mut kept = decoded;
        if prefer_animation == Some(false) && decoded > 0 {
            kept = 1;
            if self.tracks.len() > 0 {
                let t = self.tracks[0];
                self.tracks.set(0, ImageTrackData { animated: false, ..t });
            }
        }
        if kept > 0 && self.tracks.len() > 0 {
            let t = self.tracks[0];
            self.tracks.set(0, ImageTrackData { frame_count: kept as u32, ..t });
        }
        kept
    }

    /// `reset` forgets the decoded frames: an animated first track's frame
    /// count goes back to 0 until the next decode counts them again.
    pub fn forget_decoded(&mut self)
        ensures
            final(self).selected_index == old(self).selected_index,
            final(self).tracks@.len() == old(self).tracks@.len(),
            old(self).tracks@.len() > 0 ==> final(self).tracks@[0] == (if old(self).tracks@[0].animated {
                ImageTrackData { frame_count: 0, ..old(self).tracks@[0] }
            } else {
                old(self).tracks@[0]
            }),
            forall|i: int| 0 < i < old(self).tracks@.len() ==> final(self).tracks@[i] == old(self).tracks@[i],
    {
        if self.tracks.len() > 0 {
            let t = self.tracks[0];
            if t.animated {
                self.tracks.set(0, ImageTrackData { frame_count: 0, ..t });
            }
        }
    }
}

/// "RangeError: Frame index {index} out of bounds (image has {frames} frames)".
pub open spec fn frame_index_message(index: nat, frames: nat) -> Seq<char> {
    "RangeError: Frame index "@ + dec_nat(index) + " out of bounds (image has "@ + dec_nat(frames)
        + " frames)"@
}

/// Check a requested frame index against the frames decoded: none decoded is
/// a generic failure, an index past them an InvalidArg range error.
pub fn check_frame_index(frame_index: u32, frames: usize) -> (r: Result<(), CodecError>)
    ensures
        r is Ok <==> (frames > 0 && (frame_index as nat) < frames),
        r matches Err(e) ==> if frames == 0 {
            e.status == ErrorStatus::GenericFailure && e.reason@ == "No frames decoded from image"@
        } else {
            e.status == ErrorStatus::InvalidArg && e.reason@ == frame_index_message(
                frame_index as nat,
                frames as nat,
            )
        },
{
    if frames == 0 {
        return Err(
            CodecError {
                status: ErrorStatus::GenericFailure,
                reason: String::from_str("No frames decoded from image"),
            },
        );
    }
    if frame_index as usize >= frames {
        let mut reason = String::from_str("RangeError: Frame index ");
        push_dec_u64(&mut reason, frame_index as u64);
        reason.append(" out of bounds (image has ");
        push_dec_u64(&mut reason, frames as u64);
        reason.append(" frames)");
        assert(reason@ =~= frame_index_message(frame_index as nat, frames as nat));
        return Err(CodecError { status: ErrorStatus::InvalidArg, reason });
    }
    Ok(())
}


/// Whether decoded frames carry their color space.
#[derive(Debug, Clone, Copy, PartialEq, Eq, Structural)]
pub enum ColorSpaceConversion {
    /// Color space metadata is extracted.
    Default,
    /// Color space metadata is ignored (the value `"none"`).
    Disabled,
}

/// What the options of an image decoder read as, or why they are refused:
/// `colorSpaceConversion` is `"none"` or `"default"` (the default), and the
/// desired width and height are given together or not at all.
pub open spec fn spec_image_options(
    color_space_conversion: Option<&str>,
    desired_width: Option<u32>,
    desired_height: Option<u32>,
) -> Result<ColorSpaceConversion, Seq<char>> {
    let conversion: Result<ColorSpaceConversion, Seq<char>> = match color_space_conversion {
        None => Ok(ColorSpaceConversion::Default),
        Some(c) => if c.spec_bytes() == seq!['n' as u8, 'o' as u8, 'n' as u8, 'e' as u8] {
            Ok(ColorSpaceConversion::Disabled)
        } else if c.spec_bytes() == seq![
            'd' as u8,
            'e' as u8,
            'f' as u8,
            'a' as u8,
            'u' as u8,
            'l' as u8,
            't' as u8,
        ] {
            Ok(ColorSpaceConversion::Default)
        } else {
            Err(
                "Invalid colorSpaceConversion value '"@ + c@ + "'. Expected 'none' or 'default'"@,
            )
        },
    };
    match conversion {
        Err(m) => Err(m),
        Ok(c) => if desired_width.is_some() != desired_height.is_some() {
            Err("Both desiredWidth and desiredHeight must be specified, or neither"@)
        } else {
            Ok(c)
        },
    }
}

/// Read the options of an image decoder; a refusal is a TypeError.
pub fn check_image_options(
    color_space_conversion: Option<&str>,
    desired_width: Option<u32>,
    desired_height: Option<u32>,
) -> (r: Result<ColorSpaceConversion, CodecError>)
    ensures
        match spec_image_options(color_space_conversion, desired_width, desired_height) {
            Ok(c) => r == Ok::<ColorSpaceConversion, CodecError>(c),
            Err(m) => r matches Err(e) && e.status == ErrorStatus::InvalidArg && e.reason@ == m,
        },
{
    let conversion = match color_space_conversion {
        None => ColorSpaceConversion::Default,
        Some(c) => {
            let b = c.as_bytes();
            if bytes_equal(b, &['n' as u8, 'o' as u8, 'n' as u8, 'e' as u8]) {
                ColorSpaceConversion::Disabled
            } else if bytes_equal(
                b,
                &['d' as u8, 'e' as u8, 'f' as u8, 'a' as u8, 'u' as u8, 'l' as u8, 't' as u8],
            ) {
                ColorSpaceConversion::Default
            } else {
                let mut reason = String::from_str("Invalid colorSpaceConversion value '");
                reason.append(c);
                reason.append("'. Expected 'none' or 'default'");
                return Err(CodecError { status: ErrorStatus::InvalidArg, reason });
            }
        },
    };
    if desired_width.is_some() != desired_height.is_some() {
        return Err(
            CodecError {
                status: ErrorStatus::InvalidArg,
                reason: String::from_str("Both desiredWidth and desiredHeight must be specified, or neither"),
            },
        );
    }
    Ok(conversion)
}

} // verus!
