//! The Matroska muxer's format rules: the codecs an MKV file takes and how
//! their names are read.

use vstd::prelude::*;
use vstd::string::StringSliceAdditionalSpecFns;
use crate::codec_id::AVCodecID;
use crate::error::{CodecError, ErrorStatus};
use crate::muxer_base::{
    AudioCodecName, ContainerFormat, MuxerFormat, MuxerOptions, audio_codec_name,
    classify_audio_codec, error_with_subject, no_options, parse_container_video_codec,
    plain_muxer_options, spec_parse_container_video_codec,
};

verus! {

/// Matroska format.
pub struct MkvFormat;

/// What an audio codec string maps to in Matroska: AAC, Opus, MP3, FLAC,
/// Vorbis, PCM (as signed 16-bit little-endian), ALAC and AC-3 are taken;
/// anything else is unsupported.
pub open spec fn spec_mkv_audio_codec(codec: &str) -> Result<AVCodecID, Seq<char>> {
    match audio_codec_name(codec.spec_bytes()) {
        AudioCodecName::Aac => Ok(AVCodecID::Aac),
        AudioCodecName::Opus => Ok(AVCodecID::Opus),
        AudioCodecName::Mp3 => Ok(AVCodecID::Mp3),
        AudioCodecName::Flac => Ok(AVCodecID::Flac),
        AudioCodecName::Vorbis => Ok(AVCodecID::Vorbis),
        AudioCodecName::Pcm => Ok(AVCodecID::PcmS16le),
        AudioCodecName::Alac => Ok(AVCodecID::Alac),
        AudioCodecName::Ac3 => Ok(AVCodecID::Ac3),
        AudioCodecName::Other => Err("Unsupported audio codec: "@ + codec@),
    }
}

/// Audio frame sizes in Matroska: those of every container, and 1536 for
/// AC-3.
pub open spec fn spec_mkv_frame_size(codec_id: AVCodecID) -> Option<u32> {
    match codec_id {
        AVCodecID::Aac => Some(1024u32),
        AVCodecID::Opus => Some(960u32),
        AVCodecID::Mp3 => Some(1152u32),
        AVCodecID::Ac3 => Some(1536u32),
        _ => None,
    }
}

impl MuxerFormat for MkvFormat {
    open spec fn container() -> ContainerFormat {
        ContainerFormat::Mkv
    }

    open spec fn video_outcome(codec: &str) -> Result<AVCodecID, Seq<char>> {
        spec_parse_container_video_codec(codec)
    }

    open spec fn audio_outcome(codec: &str) -> Result<AVCodecID, Seq<char>> {
        spec_mkv_audio_codec(codec)
    }

    open spec fn frame_size(codec_id: AVCodecID) -> Option<u32> {
        spec_mkv_frame_size(codec_id)
    }

    fn format() -> (f: ContainerFormat) {
        ContainerFormat::Mkv
    }

    fn default_muxer_options() -> (o: MuxerOptions) {
        plain_muxer_options()
    }

    fn parse_video_codec(codec: &str) -> (r: Result<AVCodecID, CodecError>) {
        parse_container_video_codec(codec)
    }

    fn parse_audio_codec(codec: &str) -> (r: Result<AVCodecID, CodecError>) {
        match classify_audio_codec(codec) {
            AudioCodecName::Aac => Ok(AVCodecID::Aac),
            AudioCodecName::Opus => Ok(AVCodecID::Opus),
            AudioCodecName::Mp3 => Ok(AVCodecID::Mp3),
            AudioCodecName::Flac => Ok(AVCodecID::Flac),
            AudioCodecName::Vorbis => Ok(AVCodecID::Vorbis),
            AudioCodecName::Pcm => Ok(AVCodecID::PcmS16le),
            AudioCodecName::Alac => Ok(AVCodecID::Alac),
            AudioCodecName::Ac3 => Ok(AVCodecID::Ac3),
            AudioCodecName::Other => Err(error_with_subject("Unsupported audio codec: ", codec)),
        }
    }

    fn get_audio_frame_size(codec_id: AVCodecID) -> (r: Option<u32>) {
        match codec_id {
            AVCodecID::Aac => Some(1024),
            AVCodecID::Opus => Some(960),
            AVCodecID::Mp3 => Some(1152),
            AVCodecID::Ac3 => Some(1536),
            _ => None,
        }
    }
}

} // verus!
