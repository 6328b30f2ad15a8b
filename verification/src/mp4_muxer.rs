//! The MP4 muxer's format rules: the codecs an MP4 file takes and how their
//! names are read.

use vstd::prelude::*;
use vstd::string::StringSliceAdditionalSpecFns;
use crate::codec_id::AVCodecID;
use crate::error::{CodecError, ErrorStatus};
use crate::muxer_base::{
    AudioCodecName, ContainerFormat, MuxerFormat, MuxerOptions, audio_codec_name,
    classify_audio_codec, default_audio_frame_size, error_with_subject, no_options,
    parse_container_video_codec, plain_muxer_options, spec_default_frame_size,
    spec_parse_container_video_codec,
};

verus! {

/// MP4 format.
pub struct Mp4Format;

/// What an audio codec string maps to in MP4: AAC, Opus, MP3 and FLAC are
/// taken; Vorbis and PCM are refused with a pointer to a container that
/// takes them; anything else is unsupported.
pub open spec fn spec_mp4_audio_codec(codec: &str) -> Result<AVCodecID, Seq<char>> {
    match audio_codec_name(codec.spec_bytes()) {
        AudioCodecName::Aac => Ok(AVCodecID::Aac),
        AudioCodecName::Opus => Ok(AVCodecID::Opus),
        AudioCodecName::Mp3 => Ok(AVCodecID::Mp3),
        AudioCodecName::Flac => Ok(AVCodecID::Flac),
        AudioCodecName::Vorbis => Err(
            "Vorbis is not supported in MP4 container. Use WebM or MKV instead"@,
        ),
        AudioCodecName::Pcm => Err(
            "PCM audio is not supported in MP4 container. Use MKV or WAV instead"@,
        ),
        _ => Err("Unsupported audio codec for MP4: "@ + codec@),
    }
}

/// "VP8/VP9 are not supported in MP4 container. Use WebM or MKV instead: {codec}".
pub open spec fn vp8_in_mp4_message(codec: Seq<char>) -> Seq<char> {
    "VP8/VP9 are not supported in MP4 container. Use WebM or MKV instead: "@ + codec
}

/// What a video codec string maps to in MP4: H.264, H.265, AV1 and VP9 are
/// taken; VP8 is refused with a pointer to WebM and MKV; an unrecognised
/// string is an invalid codec string.
pub open spec fn spec_mp4_video_codec(codec: &str) -> Result<AVCodecID, Seq<char>> {
    match spec_parse_container_video_codec(codec) {
        Ok(AVCodecID::H264) => Ok(AVCodecID::H264),
        Ok(AVCodecID::Hevc) => Ok(AVCodecID::Hevc),
        Ok(AVCodecID::Av1) => Ok(AVCodecID::Av1),
        Ok(AVCodecID::Vp9) => Ok(AVCodecID::Vp9),
        Ok(AVCodecID::Vp8) => Err(vp8_in_mp4_message(codec@)),
        Ok(_) => Err("Unsupported video codec for MP4: "@ + codec@),
        Err(message) => Err(message),
    }
}

impl MuxerFormat for Mp4Format {
    open spec fn container() -> ContainerFormat {
        ContainerFormat::Mp4
    }

    open spec fn video_outcome(codec: &str) -> Result<AVCodecID, Seq<char>> {
        spec_mp4_video_codec(codec)
    }

    open spec fn audio_outcome(codec: &str) -> Result<AVCodecID, Seq<char>> {
        spec_mp4_audio_codec(codec)
    }

    open spec fn frame_size(codec_id: AVCodecID) -> Option<u32> {
        spec_default_frame_size(codec_id)
    }

    fn format() -> (f: ContainerFormat) {
        ContainerFormat::Mp4
    }

    fn default_muxer_options() -> (o: MuxerOptions) {
        plain_muxer_options()
    }

    fn parse_video_codec(codec: &str) -> (r: Result<AVCodecID, CodecError>) {
        match parse_container_video_codec(codec) {
            Ok(AVCodecID::H264) => Ok(AVCodecID::H264),
            Ok(AVCodecID::Hevc) => Ok(AVCodecID::Hevc),
            Ok(AVCodecID::Av1) => Ok(AVCodecID::Av1),
            Ok(AVCodecID::Vp9) => Ok(AVCodecID::Vp9),
            Ok(AVCodecID::Vp8) => {
                proof {
                    reveal_strlit(
                        "VP8/VP9 are not supported in MP4 container. Use WebM or MKV instead: ",
                    );
                }
                Err(
                    error_with_subject(
                        "VP8/VP9 are not supported in MP4 container. Use WebM or MKV instead: ",
                        codec,
                    ),
                )
            },
            Ok(_) => Err(error_with_subject("Unsupported video codec for MP4: ", codec)),
            Err(e) => Err(e),
        }
    }

    fn parse_audio_codec(codec: &str) -> (r: Result<AVCodecID, CodecError>) {
        match classify_audio_codec(codec) {
            AudioCodecName::Aac => Ok(AVCodecID::Aac),
            AudioCodecName::Opus => Ok(AVCodecID::Opus),
            AudioCodecName::Mp3 => Ok(AVCodecID::Mp3),
            AudioCodecName::Flac => Ok(AVCodecID::Flac),
            AudioCodecName::Vorbis => Err(
                CodecError {
                    status: ErrorStatus::GenericFailure,
                    reason: String::from_str(
                        "Vorbis is not supported in MP4 container. Use WebM or MKV instead",
                    ),
                },
            ),
            AudioCodecName::Pcm => Err(
                CodecError {
                    status: ErrorStatus::GenericFailure,
                    reason: String::from_str(
                        "PCM audio is not supported in MP4 container. Use MKV or WAV instead",
                    ),
                },
            ),
            _ => Err(error_with_subject("Unsupported audio codec for MP4: ", codec)),
        }
    }

    fn get_audio_frame_size(codec_id: AVCodecID) -> (r: Option<u32>) {
        default_audio_frame_size(codec_id)
    }
}

/// Options for an MP4 muxer: fast start cannot be combined with streaming
/// output; live mode does not apply to MP4.
pub fn mp4_muxer_options(fast_start: Option<bool>, fragmented: Option<bool>, streaming: bool) -> (r:
    Result<MuxerOptions, CodecError>)
    ensures
        match r {
            Ok(o) => !(fast_start == Some(true) && streaming) && o == (MuxerOptions {
                fast_start: fast_start == Some(true),
                fragmented: fragmented == Some(true),
                live: false,
            }),
            Err(e) => fast_start == Some(true) && streaming && e.status
                == ErrorStatus::GenericFailure && e.reason@
                == "fastStart is not compatible with streaming mode. Use fragmented: true for streaming."@,
        },
{
    let fast = match fast_start {
        Some(b) => b,
        None => false,
    };
    let frag = match fragmented {
        Some(b) => b,
        None => false,
    };
    if fast && streaming {
        return Err(
            CodecError {
                status: ErrorStatus::GenericFailure,
                reason: String::from_str(
                    "fastStart is not compatible with streaming mode. Use fragmented: true for streaming.",
                ),
            },
        );
    }
    Ok(MuxerOptions { fast_start: fast, fragmented: frag, live: false })
}

/// The video codecs an MP4 file stores: H.264, HEVC and AV1.
pub open spec fn mp4_stores_video(id: AVCodecID) -> bool {
    id == AVCodecID::H264 || id == AVCodecID::Hevc || id == AVCodecID::Av1
}

/// The audio codecs an MP4 file stores: AAC, MP3, FLAC and Opus.
pub open spec fn mp4_stores_audio(id: AVCodecID) -> bool {
    id == AVCodecID::Aac || id == AVCodecID::Mp3 || id == AVCodecID::Flac || id == AVCodecID::Opus
}

/// "{kind} codec {codec} is not supported in MP4 container".
pub open spec fn mp4_unsupported_message(video: bool, codec: Seq<char>) -> Seq<char> {
    (if video {
        "Video codec "@
    } else {
        "Audio codec "@
    }) + codec + " is not supported in MP4 container"@
}

/// Check that a parsed codec can go into an MP4 track.
pub fn check_mp4_track_codec(video: bool, codec_id: AVCodecID, codec: &str) -> (r: Result<
    (),
    CodecError,
>)
    ensures
        r is Ok <==> if video {
            mp4_stores_video(codec_id)
        } else {
            mp4_stores_audio(codec_id)
        },
        r matches Err(e) ==> e.status == ErrorStatus::GenericFailure && e.reason@
            == mp4_unsupported_message(video, codec@),
{
    let ok = if video {
        match codec_id {
            AVCodecID::H264 | AVCodecID::Hevc | AVCodecID::Av1 => true,
            _ => false,
        }
    } else {
        match codec_id {
            AVCodecID::Aac | AVCodecID::Mp3 | AVCodecID::Flac | AVCodecID::Opus => true,
            _ => false,
        }
    };
    if ok {
        return Ok(());
    }
    let mut reason = if video {
        String::from_str("Video codec ")
    } else {
        String::from_str("Audio codec ")
    };
    reason.append(codec);
    reason.append(" is not supported in MP4 container");
    assert(reason@ =~= mp4_unsupported_message(video, codec@));
    Err(CodecError { status: ErrorStatus::GenericFailure, reason })
}

} // verus!
