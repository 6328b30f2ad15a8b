//! The MP4 demuxer's format rules: the codec strings it reports for the
//! streams it finds.

use vstd::prelude::*;
use crate::codec_id::AVCodecID;
use crate::demuxer_base::{
    DemuxerFormat, container_audio_codec_string, container_audio_string,
    container_video_codec_string, container_video_string, opt_slice,
};

verus! {

/// MP4 format.
pub struct Mp4Format;

impl DemuxerFormat for Mp4Format {
    open spec fn video_string(codec_id: AVCodecID, extradata: Option<Seq<u8>>) -> Seq<char> {
        container_video_string(codec_id, extradata)
    }

    open spec fn audio_string(codec_id: AVCodecID, extradata: Option<Seq<u8>>) -> Seq<char> {
        container_audio_string(codec_id, extradata)
    }

    fn codec_id_to_video_string(codec_id: AVCodecID, extradata: Option<&[u8]>) -> (s: String) {
        container_video_codec_string(codec_id, extradata)
    }

    fn codec_id_to_audio_string(codec_id: AVCodecID, extradata: Option<&[u8]>) -> (s: String) {
        container_audio_codec_string(codec_id, extradata)
    }
}

} // verus!
