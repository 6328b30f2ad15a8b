//! Identifiers of the codecs that the library recognises.

use vstd::prelude::*;
use crate::text::string_push;

verus! {

/// A codec, as the media framework identifies it.
#[derive(Debug, Clone, Copy, PartialEq, Eq, Structural)]
pub enum AVCodecID {
    H264,
    Hevc,
    Vp8,
    Vp9,
    Av1,
    Aac,
    Opus,
    Mp3,
    Flac,
    Vorbis,
    PcmS16le,
    PcmS16be,
    PcmF32le,
    PcmF32be,
    Ac3,
    Alac,
    Mjpeg,
    Png,
    Webp,
    Gif,
    Bmp,
}

/// The identifier's name in lowercase, as `format!("{:?}", id).to_lowercase()`
/// spells it.
pub open spec fn lowercase_name(id: AVCodecID) -> Seq<char> {
    match id {
        AVCodecID::H264 => seq!['h', '2', '6', '4'],
        AVCodecID::Hevc => seq!['h', 'e', 'v', 'c'],
        AVCodecID::Vp8 => seq!['v', 'p', '8'],
        AVCodecID::Vp9 => seq!['v', 'p', '9'],
        AVCodecID::Av1 => seq!['a', 'v', '1'],
        AVCodecID::Aac => seq!['a', 'a', 'c'],
        AVCodecID::Opus => seq!['o', 'p', 'u', 's'],
        AVCodecID::Mp3 => seq!['m', 'p', '3'],
        AVCodecID::Flac => seq!['f', 'l', 'a', 'c'],
        AVCodecID::Vorbis => seq!['v', 'o', 'r', 'b', 'i', 's'],
        AVCodecID::PcmS16le => seq!['p', 'c', 'm', 's', '1', '6', 'l', 'e'],
        AVCodecID::PcmS16be => seq!['p', 'c', 'm', 's', '1', '6', 'b', 'e'],
        AVCodecID::PcmF32le => seq!['p', 'c', 'm', 'f', '3', '2', 'l', 'e'],
        AVCodecID::PcmF32be => seq!['p', 'c', 'm', 'f', '3', '2', 'b', 'e'],
        AVCodecID::Ac3 => seq!['a', 'c', '3'],
        AVCodecID::Alac => seq!['a', 'l', 'a', 'c'],
        AVCodecID::Mjpeg => seq!['m', 'j', 'p', 'e', 'g'],
        AVCodecID::Png => seq!['p', 'n', 'g'],
        AVCodecID::Webp => seq!['w', 'e', 'b', 'p'],
        AVCodecID::Gif => seq!['g', 'i', 'f'],
        AVCodecID::Bmp => seq!['b', 'm', 'p'],
    }
}

fn push_all(s: &mut String, cs: &[char])
    ensures
        final(s)@ == old(s)@ + cs@,
{
    let mut i: usize = 0;
    while i < cs.len()
        invariant
            i <= cs.len(),
            s@ == old(s)@ + cs@.take(i as int),
        decreases cs.len() - i,
    {
        string_push(s, cs[i]);
        proof {
            assert(cs@.take(i + 1) =~= cs@.take(i as int).push(cs@[i as int]));
        }
        i = i + 1;
    }
    proof {
        assert(cs@.take(cs@.len() as int) =~= cs@);
    }
}

/// A string holding the given characters.
pub fn string_of(cs: &[char]) -> (s: String)
    ensures
        s@ == cs@,
{
    let mut s = String::new();
    push_all(&mut s, cs);
    assert(s@ =~= cs@);
    s
}

impl AVCodecID {
    /// The identifier's name in lowercase.
    pub fn lowercase_name(&self) -> (s: String)
        ensures
            s@ == lowercase_name(*self),
    {
        let s = match self {
            AVCodecID::H264 => string_of(&['h', '2', '6', '4']),
            AVCodecID::Hevc => string_of(&['h', 'e', 'v', 'c']),
            AVCodecID::Vp8 => string_of(&['v', 'p', '8']),
            AVCodecID::Vp9 => string_of(&['v', 'p', '9']),
            AVCodecID::Av1 => string_of(&['a', 'v', '1']),
            AVCodecID::Aac => string_of(&['a', 'a', 'c']),
            AVCodecID::Opus => string_of(&['o', 'p', 'u', 's']),
            AVCodecID::Mp3 => string_of(&['m', 'p', '3']),
            AVCodecID::Flac => string_of(&['f', 'l', 'a', 'c']),
            AVCodecID::Vorbis => string_of(&['v', 'o', 'r', 'b', 'i', 's']),
            AVCodecID::PcmS16le => string_of(&['p', 'c', 'm', 's', '1', '6', 'l', 'e']),
            AVCodecID::PcmS16be => string_of(&['p', 'c', 'm', 's', '1', '6', 'b', 'e']),
            AVCodecID::PcmF32le => string_of(&['p', 'c', 'm', 'f', '3', '2', 'l', 'e']),
            AVCodecID::PcmF32be => string_of(&['p', 'c', 'm', 'f', '3', '2', 'b', 'e']),
            AVCodecID::Ac3 => string_of(&['a', 'c', '3']),
            AVCodecID::Alac => string_of(&['a', 'l', 'a', 'c']),
            AVCodecID::Mjpeg => string_of(&['m', 'j', 'p', 'e', 'g']),
            AVCodecID::Png => string_of(&['p', 'n', 'g']),
            AVCodecID::Webp => string_of(&['w', 'e', 'b', 'p']),
            AVCodecID::Gif => string_of(&['g', 'i', 'f']),
            AVCodecID::Bmp => string_of(&['b', 'm', 'p']),
        };
        s
    }
}

} // verus!
