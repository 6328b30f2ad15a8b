//! Verified core of a WebCodecs implementation: codec-string parsing,
//! bitstream format conversion, container timestamp rules and the small
//! state machines that govern hardware encoder use.

pub mod audio_codec;
pub mod audio_data;
pub mod audio_encoder;
pub mod av1;
pub mod bitstream;
pub mod bytes;
pub mod codec_id;
pub mod codec_pressure;
pub mod codec_state;
pub mod codec_string;
pub mod demuxer_base;
pub mod encoded_chunk;
pub mod error;
pub mod event_target;
pub mod flush_tracker;
pub mod hardware;
pub mod hw_fallback;
pub mod image_decoder;
pub mod mkv_demuxer;
pub mod mkv_muxer;
pub mod mp4_demuxer;
pub mod mp4_muxer;
pub mod muxer_base;
pub mod text;
pub mod video_decoder;
