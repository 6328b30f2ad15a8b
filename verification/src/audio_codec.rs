//! Audio codec strings as the audio encoder and decoder read them, and the
//! sample format each encoder is fed.
//!
//! Names are compared without regard to ASCII case; no character outside
//! ASCII lowercases into these names, so this is the same as lowercasing
//! first.

use vstd::prelude::*;
use vstd::string::StringSliceAdditionalSpecFns;
use crate::audio_data::AVSampleFormat;
use crate::codec_id::AVCodecID;
use crate::error::{CodecError, ErrorStatus, js_type_error, not_supported_error, dom_message, DOMExceptionName};
use crate::muxer_base::error_with_subject;
use crate::text::{bytes_equal_ci, bytes_start_with_ci, equals_ci, starts_with_ci};

verus! {

/// The codec an audio codec string names, if any: `mp4a.40*` and `aac` are
/// AAC; `mp3` and `mp4a.6b` MP3; `pcm-s16`/`pcm_s16le` and
/// `pcm-f32`/`pcm_f32le` little-endian PCM; `ac3`/`ac-3` AC-3; and `opus`,
/// `flac`, `vorbis`, `alac` their codecs.
pub open spec fn audio_codec_of(b: Seq<u8>) -> Option<AVCodecID> {
    if starts_with_ci(b, seq!['m' as u8, 'p' as u8, '4' as u8, 'a' as u8, '.' as u8, '4' as u8, '0' as u8])
        || equals_ci(b, seq!['a' as u8, 'a' as u8, 'c' as u8]) {
        Some(AVCodecID::Aac)
    } else if equals_ci(b, seq!['o' as u8, 'p' as u8, 'u' as u8, 's' as u8]) {
        Some(AVCodecID::Opus)
    } else if equals_ci(b, seq!['m' as u8, 'p' as u8, '3' as u8]) || equals_ci(
        b,
        seq!['m' as u8, 'p' as u8, '4' as u8, 'a' as u8, '.' as u8, '6' as u8, 'b' as u8],
    ) {
        Some(AVCodecID::Mp3)
    } else if equals_ci(b, seq!['f' as u8, 'l' as u8, 'a' as u8, 'c' as u8]) {
        Some(AVCodecID::Flac)
    } else if equals_ci(b, seq!['v' as u8, 'o' as u8, 'r' as u8, 'b' as u8, 'i' as u8, 's' as u8]) {
        Some(AVCodecID::Vorbis)
    } else if equals_ci(b, seq!['p' as u8, 'c' as u8, 'm' as u8, '-' as u8, 's' as u8, '1' as u8, '6' as u8])
        || equals_ci(
        b,
        seq!['p' as u8, 'c' as u8, 'm' as u8, '_' as u8, 's' as u8, '1' as u8, '6' as u8, 'l' as u8, 'e' as u8],
    ) {
        Some(AVCodecID::PcmS16le)
    } else if equals_ci(b, seq!['p' as u8, 'c' as u8, 'm' as u8, '-' as u8, 'f' as u8, '3' as u8, '2' as u8])
        || equals_ci(
        b,
        seq!['p' as u8, 'c' as u8, 'm' as u8, '_' as u8, 'f' as u8, '3' as u8, '2' as u8, 'l' as u8, 'e' as u8],
    ) {
        Some(AVCodecID::PcmF32le)
    } else if equals_ci(b, seq!['a' as u8, 'c' as u8, '3' as u8]) || equals_ci(
        b,
        seq!['a' as u8, 'c' as u8, '-' as u8, '3' as u8],
    ) {
        Some(AVCodecID::Ac3)
    } else if equals_ci(b, seq!['a' as u8, 'l' as u8, 'a' as u8, 'c' as u8]) {
        Some(AVCodecID::Alac)
    } else {
        None
    }
}

/// Parse a WebCodecs audio codec string to a codec ID; an unknown string is
/// an error "Unsupported audio codec: {codec}".
pub fn parse_audio_codec_string(codec: &str) -> (r: Result<AVCodecID, CodecError>)
    ensures
        match r {
            Ok(id) => audio_codec_of(codec.spec_bytes()) == Some(id),
            Err(e) => audio_codec_of(codec.spec_bytes()) is None && e.status
                == ErrorStatus::GenericFailure && e.reason@ == "Unsupported audio codec: "@ + codec@,
        },
{
    let b = codec.as_bytes();
    if bytes_start_with_ci(b, &['m' as u8, 'p' as u8, '4' as u8, 'a' as u8, '.' as u8, '4' as u8, '0' as u8])
        || bytes_equal_ci(b, &['a' as u8, 'a' as u8, 'c' as u8]) {
        return Ok(AVCodecID::Aac);
    }
    if bytes_equal_ci(b, &['o' as u8, 'p' as u8, 'u' as u8, 's' as u8]) {
        return Ok(AVCodecID::Opus);
    }
    if bytes_equal_ci(b, &['m' as u8, 'p' as u8, '3' as u8]) || bytes_equal_ci(
        b,
        &['m' as u8, 'p' as u8, '4' as u8, 'a' as u8, '.' as u8, '6' as u8, 'b' as u8],
    ) {
        return Ok(AVCodecID::Mp3);
    }
    if bytes_equal_ci(b, &['f' as u8, 'l' as u8, 'a' as u8, 'c' as u8]) {
        return Ok(AVCodecID::Flac);
    }
    if bytes_equal_ci(b, &['v' as u8, 'o' as u8, 'r' as u8, 'b' as u8, 'i' as u8, 's' as u8]) {
        return Ok(AVCodecID::Vorbis);
    }
    if bytes_equal_ci(b, &['p' as u8, 'c' as u8, 'm' as u8, '-' as u8, 's' as u8, '1' as u8, '6' as u8])
        || bytes_equal_ci(
        b,
        &['p' as u8, 'c' as u8, 'm' as u8, '_' as u8, 's' as u8, '1' as u8, '6' as u8, 'l' as u8, 'e' as u8],
    ) {
        return Ok(AVCodecID::PcmS16le);
    }
    if bytes_equal_ci(b, &['p' as u8, 'c' as u8, 'm' as u8, '-' as u8, 'f' as u8, '3' as u8, '2' as u8])
        || bytes_equal_ci(
        b,
        &['p' as u8, 'c' as u8, 'm' as u8, '_' as u8, 'f' as u8, '3' as u8, '2' as u8, 'l' as u8, 'e' as u8],
    ) {
        return Ok(AVCodecID::PcmF32le);
    }
    if bytes_equal_ci(b, &['a' as u8, 'c' as u8, '3' as u8]) || bytes_equal_ci(
        b,
        &['a' as u8, 'c' as u8, '-' as u8, '3' as u8],
    ) {
        return Ok(AVCodecID::Ac3);
    }
    if bytes_equal_ci(b, &['a' as u8, 'l' as u8, 'a' as u8, 'c' as u8]) {
        return Ok(AVCodecID::Alac);
    }
    Err(error_with_subject("Unsupported audio codec: ", codec))
}

/// The sample format an encoder of each codec is fed: float planar for AAC,
/// Vorbis and AC-3 (and by default), float interleaved for Opus and float
/// PCM, 16-bit planar for MP3 and ALAC, 16-bit interleaved for FLAC and
/// 16-bit PCM.
pub open spec fn spec_encoder_sample_format(codec_id: AVCodecID) -> AVSampleFormat {
    match codec_id {
        AVCodecID::Aac => AVSampleFormat::Fltp,
        AVCodecID::Opus => AVSampleFormat::Flt,
        AVCodecID::Mp3 => AVSampleFormat::S16p,
        AVCodecID::Flac => AVSampleFormat::S16,
        AVCodecID::Vorbis => AVSampleFormat::Fltp,
        AVCodecID::PcmS16le => AVSampleFormat::S16,
        AVCodecID::PcmS16be => AVSampleFormat::S16,
        AVCodecID::PcmF32le => AVSampleFormat::Flt,
        AVCodecID::PcmF32be => AVSampleFormat::Flt,
        AVCodecID::Ac3 => AVSampleFormat::Fltp,
        AVCodecID::Alac => AVSampleFormat::S16p,
        _ => AVSampleFormat::Fltp,
    }
}

/// The preferred sample format for an encoder.
pub fn get_encoder_sample_format(codec_id: AVCodecID) -> (r: AVSampleFormat)
    ensures
        r == spec_encoder_sample_format(codec_id),
{
    match codec_id {
        AVCodecID::Aac => AVSampleFormat::Fltp,
        AVCodecID::Opus => AVSampleFormat::Flt,
        AVCodecID::Mp3 => AVSampleFormat::S16p,
        AVCodecID::Flac => AVSampleFormat::S16,
        AVCodecID::Vorbis => AVSampleFormat::Fltp,
        AVCodecID::PcmS16le => AVSampleFormat::S16,
        AVCodecID::PcmS16be => AVSampleFormat::S16,
        AVCodecID::PcmF32le => AVSampleFormat::Flt,
        AVCodecID::PcmF32be => AVSampleFormat::Flt,
        AVCodecID::Ac3 => AVSampleFormat::Fltp,
        AVCodecID::Alac => AVSampleFormat::S16p,
        _ => AVSampleFormat::Fltp,
    }
}


/// Why an audio configuration is invalid, if it is. The codec must be given
/// and not empty; the sample rate must be given and positive; the channel
/// count must be given and positive; a bitrate, where given, must be
/// positive. A number is described by whether it is present and, if so,
/// whether it is greater than zero.
pub open spec fn audio_config_refusal(
    codec: Option<&str>,
    sample_rate_positive: Option<bool>,
    number_of_channels: Option<u32>,
    bitrate_positive: Option<bool>,
) -> Option<Seq<char>> {
    if !(codec matches Some(c) && c@.len() > 0) {
        Some("codec is required"@)
    } else if sample_rate_positive == Some(false) {
        Some("sampleRate must be greater than 0"@)
    } else if sample_rate_positive is None {
        Some("sampleRate is required"@)
    } else if number_of_channels == Some(0u32) {
        Some("numberOfChannels must be greater than 0"@)
    } else if number_of_channels is None {
        Some("numberOfChannels is required"@)
    } else if bitrate_positive == Some(false) {
        Some("bitrate must be greater than 0"@)
    } else {
        None
    }
}

/// Validate an audio decoder or encoder configuration before anything else
/// is done with it (a decoder configuration has no bitrate): an invalid one
/// is a TypeError.
pub fn check_audio_config(
    codec: Option<&str>,
    sample_rate_positive: Option<bool>,
    number_of_channels: Option<u32>,
    bitrate_positive: Option<bool>,
) -> (r: Result<(), CodecError>)
    ensures
        match audio_config_refusal(codec, sample_rate_positive, number_of_channels, bitrate_positive) {
            Some(msg) => r matches Err(e) && e.status == ErrorStatus::InvalidArg && e.reason@ == msg,
            None => r is Ok,
        },
{
    let has_codec = match codec {
        Some(c) => !c.is_empty(),
        None => false,
    };
    if !has_codec {
        return Err(js_type_error("codec is required"));
    }
    match sample_rate_positive {
        Some(true) => {},
        Some(false) => return Err(js_type_error("sampleRate must be greater than 0")),
        None => return Err(js_type_error("sampleRate is required")),
    }
    match number_of_channels {
        Some(n) => {
            if n == 0 {
                return Err(js_type_error("numberOfChannels must be greater than 0"));
            }
        },
        None => return Err(js_type_error("numberOfChannels is required")),
    }
    if bitrate_positive == Some(false) {
        return Err(js_type_error("bitrate must be greater than 0"));
    }
    Ok(())
}

/// The codec an audio decoder is created for, or why it is not supported:
/// the codec string must name a codec, and FLAC needs a description (its
/// STREAMINFO).
pub open spec fn spec_audio_decoder_codec(codec: &str, has_description: bool) -> Option<AVCodecID> {
    match audio_codec_of(codec.spec_bytes()) {
        Some(AVCodecID::Flac) => if equals_ci(codec.spec_bytes(), seq!['f' as u8, 'l' as u8, 'a' as u8, 'c' as u8]) && !has_description {
            None
        } else {
            Some(AVCodecID::Flac)
        },
        other => other,
    }
}

/// The codec an audio decoder is created for. An unknown codec string is
/// the error "Unsupported audio codec: {codec}"; FLAC without a description
/// is a NotSupportedError.
pub fn audio_decoder_codec(codec: &str, has_description: bool) -> (r: Result<AVCodecID, CodecError>)
    ensures
        match r {
            Ok(id) => spec_audio_decoder_codec(codec, has_description) == Some(id),
            Err(e) => spec_audio_decoder_codec(codec, has_description) is None && e.status
                == ErrorStatus::GenericFailure && e.reason@ == if audio_codec_of(codec.spec_bytes()) is None {
                "Unsupported audio codec: "@ + codec@
            } else {
                dom_message(
                    DOMExceptionName::NotSupportedError,
                    "FLAC codec requires a description (STREAMINFO)"@,
                )
            },
        },
{
    let id = match parse_audio_codec_string(codec) {
        Ok(id) => id,
        Err(e) => return Err(e),
    };
    if id == AVCodecID::Flac && !has_description && bytes_equal_ci(
        codec.as_bytes(),
        &['f' as u8, 'l' as u8, 'a' as u8, 'c' as u8],
    ) {
        return Err(not_supported_error("FLAC codec requires a description (STREAMINFO)"));
    }
    Ok(id)
}

} // verus!
