//! Encoded chunks: the bytes of one encoded video or audio packet with its
//! type and timing. Chunks built from encoder output take their timing from
//! the packet, unless the encoder supplies the timestamp itself; video
//! chunks also keep the packet's decode timestamp for muxing.

use vstd::prelude::*;
use vstd::slice::slice_to_vec;
use crate::bitstream::{convert_annexb_to_avcc, spec_annexb_to_avcc};
use crate::error::{CodecError, ErrorStatus};
use crate::muxer_base::NO_TIMESTAMP;
use crate::text::{bytes_equal, dec_nat, push_dec_u64};
use vstd::string::StringSliceAdditionalSpecFns;

verus! {

/// Type of an encoded video chunk.
#[derive(Debug, Clone, Copy, PartialEq, Eq, Structural)]
pub enum EncodedVideoChunkType {
    /// Decodable on its own.
    Key,
    /// Depends on earlier chunks.
    Delta,
}

/// Type of an encoded audio chunk.
#[derive(Debug, Clone, Copy, PartialEq, Eq, Structural)]
pub enum EncodedAudioChunkType {
    Key,
    Delta,
}

/// What the codec library reports of an encoded packet.
pub struct PacketInfo {
    pub data: Vec<u8>,
    pub is_key: bool,
    /// Presentation timestamp (`i64::MIN` when unknown).
    pub pts: i64,
    /// Decode timestamp (`i64::MIN` when unknown).
    pub dts: i64,
    /// Duration (0 or less when unknown).
    pub duration: i64,
}

/// The message for a destination that cannot hold the chunk.
pub open spec fn too_small_message(need: nat, got: nat) -> Seq<char> {
    "destination is too small: need "@ + dec_nat(need) + " bytes, got "@ + dec_nat(got)
}

/// Copy `data` to the start of the `byte_length` bytes at `byte_offset` in
/// `destination`: a TypeError when they cannot hold it, the bytes outside the
/// copy untouched.
fn copy_into(data: &Vec<u8>, destination: &mut Vec<u8>, byte_offset: usize, byte_length: usize) -> (r:
    Result<(), CodecError>)
    requires
        byte_offset + byte_length <= old(destination)@.len(),
    ensures
        final(destination)@.len() == old(destination)@.len(),
        r is Ok <==> data@.len() <= byte_length,
        r matches Err(e) ==> e.status == ErrorStatus::InvalidArg && e.reason@ == too_small_message(
            data@.len(),
            byte_length as nat,
        ) && final(destination)@ == old(destination)@,
        r is Ok ==> final(destination)@ == old(destination)@.subrange(0, byte_offset as int) + data@
            + old(destination)@.subrange(byte_offset + data@.len(), old(destination)@.len() as int),
{
    let n = data.len();
    if byte_length < n {
        let mut m = String::from_str("destination is too small: need ");
        push_dec_u64(&mut m, n as u64);
        m.append(" bytes, got ");
        push_dec_u64(&mut m, byte_length as u64);
        assert(m@ =~= too_small_message(data@.len(), byte_length as nat));
        return Err(CodecError { status: ErrorStatus::InvalidArg, reason: m });
    }
    let dlen = destination.len();
    let mut i: usize = 0;
    while i < n
        invariant
            0 <= i <= n,
            dlen == destination@.len(),
            n == data@.len(),
            n <= byte_length,
            byte_offset + byte_length <= destination@.len(),
            destination@.len() == old(destination)@.len(),
            forall|k: int| 0 <= k < byte_offset ==> destination@[k] == old(destination)@[k],
            forall|k: int| 0 <= k < i ==> destination@[byte_offset + k] == data@[k],
            forall|k: int|
                byte_offset + i <= k < destination@.len() ==> destination@[k] == old(
                    destination,
                )@[k],
        decreases n - i,
    {
        destination.set(byte_offset + i, data[i]);
        i = i + 1;
    }
    assert(destination@ =~= old(destination)@.subrange(0, byte_offset as int) + data@ + old(
        destination,
    )@.subrange(byte_offset + data@.len(), old(destination)@.len() as int));
    Ok(())
}

/// An encoded video chunk.
pub struct EncodedVideoChunk {
    pub data: Vec<u8>,
    pub chunk_type: EncodedVideoChunkType,
    /// Presentation timestamp in microseconds.
    pub timestamp_us: i64,
    pub duration_us: Option<i64>,
    /// Decode timestamp of the packet, where it had one (used by muxers).
    pub dts_us: Option<i64>,
    /// The packet's presentation timestamp, kept beside `dts_us`.
    pub original_pts: Option<i64>,
}

impl EncodedVideoChunk {
    /// A chunk from script: no decode timestamp.
    pub fn new(chunk_type: EncodedVideoChunkType, timestamp: i64, duration: Option<i64>, data: Vec<u8>) -> (c:
        Self)
        ensures
            c.data@ == data@,
            c.chunk_type == chunk_type,
            c.timestamp_us == timestamp,
            c.duration_us == duration,
            c.dts_us is None,
            c.original_pts is None,
    {
        EncodedVideoChunk {
            data,
            chunk_type,
            timestamp_us: timestamp,
            duration_us: duration,
            dts_us: None,
            original_pts: None,
        }
    }

    /// A chunk from encoder output. The bytes are converted from Annex B to
    /// length-prefixed NAL units when `use_avcc` is set. The timestamp is the
    /// one given, else the packet's; the duration is the packet's when
    /// positive; a known decode timestamp is kept together with the packet's
    /// presentation timestamp.
    pub fn from_packet_with_format(packet: PacketInfo, explicit_timestamp: Option<i64>, use_avcc: bool) -> (c:
        Self)
        ensures
            c.chunk_type == (if packet.is_key {
                EncodedVideoChunkType::Key
            } else {
                EncodedVideoChunkType::Delta
            }),
            c.data@ == (if use_avcc {
                spec_annexb_to_avcc(packet.data@)
            } else {
                packet.data@
            }),
            c.timestamp_us == match explicit_timestamp {
                Some(t) => t,
                None => packet.pts,
            },
            c.duration_us == (if packet.duration > 0 {
                Some(packet.duration)
            } else {
                None
            }),
            c.dts_us == (if packet.dts != NO_TIMESTAMP {
                Some(packet.dts)
            } else {
                None
            }),
            c.original_pts == (if packet.dts != NO_TIMESTAMP {
                Some(packet.pts)
            } else {
                None
            }),
    {
        let chunk_type = if packet.is_key {
            EncodedVideoChunkType::Key
        } else {
            EncodedVideoChunkType::Delta
        };
        let dts_us = if packet.dts != NO_TIMESTAMP {
            Some(packet.dts)
        } else {
            None
        };
        let original_pts = if dts_us.is_some() {
            Some(packet.pts)
        } else {
            None
        };
        let timestamp_us = match explicit_timestamp {
            Some(t) => t,
            None => packet.pts,
        };
        let duration_us = if packet.duration > 0 {
            Some(packet.duration)
        } else {
            None
        };
        let data = if use_avcc {
            convert_annexb_to_avcc(packet.data.as_slice())
        } else {
            packet.data
        };
        EncodedVideoChunk { data, chunk_type, timestamp_us, duration_us, dts_us, original_pts }
    }

    /// The chunk type.
    pub fn chunk_type(&self) -> (t: EncodedVideoChunkType)
        ensures
            t == self.chunk_type,
    {
        self.chunk_type
    }

    /// The number of bytes, as a 32-bit count.
    pub fn byte_length(&self) -> (n: u32)
        ensures
            n == self.data@.len() as u32,
    {
        self.data.len() as u32
    }

    /// Whether this is a key chunk.
    pub fn is_key(&self) -> (b: bool)
        ensures
            b == (self.chunk_type == EncodedVideoChunkType::Key),
    {
        self.chunk_type == EncodedVideoChunkType::Key
    }

    /// Copy the bytes into the view of `byte_length` bytes at `byte_offset`
    /// of a destination buffer; a TypeError when the view is too small.
    pub fn copy_to(&self, destination: &mut Vec<u8>, byte_offset: usize, byte_length: usize) -> (r: Result<
        (),
        CodecError,
    >)
        requires
            byte_offset + byte_length <= old(destination)@.len(),
        ensures
            final(destination)@.len() == old(destination)@.len(),
            r is Ok <==> self.data@.len() <= byte_length,
            r matches Err(e) ==> e.status == ErrorStatus::InvalidArg && e.reason@ == too_small_message(
                self.data@.len(),
                byte_length as nat,
            ) && final(destination)@ == old(destination)@,
            r is Ok ==> final(destination)@ == old(destination)@.subrange(0, byte_offset as int)
                + self.data@ + old(destination)@.subrange(
                byte_offset + self.data@.len(),
                old(destination)@.len() as int,
            ),
    {
        copy_into(&self.data, destination, byte_offset, byte_length)
    }
}

/// An encoded audio chunk.
pub struct EncodedAudioChunk {
    pub data: Vec<u8>,
    pub chunk_type: EncodedAudioChunkType,
    pub timestamp_us: i64,
    pub duration_us: Option<i64>,
}

impl EncodedAudioChunk {
    /// A chunk from script.
    pub fn new(chunk_type: EncodedAudioChunkType, timestamp: i64, duration: Option<i64>, data: Vec<u8>) -> (c:
        Self)
        ensures
            c.data@ == data@,
            c.chunk_type == chunk_type,
            c.timestamp_us == timestamp,
            c.duration_us == duration,
    {
        EncodedAudioChunk { data, chunk_type, timestamp_us: timestamp, duration_us: duration }
    }

    /// A chunk from encoder output: the timestamp given, else the packet's;
    /// the duration given, else the packet's when positive.
    pub fn from_packet(packet: PacketInfo, duration_us: Option<i64>, explicit_timestamp: Option<i64>) -> (c:
        Self)
        ensures
            c.chunk_type == (if packet.is_key {
                EncodedAudioChunkType::Key
            } else {
                EncodedAudioChunkType::Delta
            }),
            c.data@ == packet.data@,
            c.timestamp_us == match explicit_timestamp {
                Some(t) => t,
                None => packet.pts,
            },
            c.duration_us == match duration_us {
                Some(d) => Some(d),
                None => if packet.duration > 0 {
                    Some(packet.duration)
                } else {
                    None
                },
            },
    {
        let chunk_type = if packet.is_key {
            EncodedAudioChunkType::Key
        } else {
            EncodedAudioChunkType::Delta
        };
        let timestamp_us = match explicit_timestamp {
            Some(t) => t,
            None => packet.pts,
        };
        let duration_us = match duration_us {
            Some(d) => Some(d),
            None => if packet.duration > 0 {
                Some(packet.duration)
            } else {
                None
            },
        };
        EncodedAudioChunk { data: packet.data, chunk_type, timestamp_us, duration_us }
    }

    /// The chunk type.
    pub fn chunk_type(&self) -> (t: EncodedAudioChunkType)
        ensures
            t == self.chunk_type,
    {
        self.chunk_type
    }

    /// The number of bytes, as a 32-bit count.
    pub fn byte_length(&self) -> (n: u32)
        ensures
            n == self.data@.len() as u32,
    {
        self.data.len() as u32
    }

    /// The timestamp handed to the decoder.
    pub fn get_timestamp(&self) -> (t: i64)
        ensures
            t == self.timestamp_us,
    {
        self.timestamp_us
    }

    /// Whether this is a key chunk.
    pub fn is_key(&self) -> (b: bool)
        ensures
            b == (self.chunk_type == EncodedAudioChunkType::Key),
    {
        self.chunk_type == EncodedAudioChunkType::Key
    }

    /// Copy the bytes into the view of `byte_length` bytes at `byte_offset`
    /// of a destination buffer; a TypeError when the view is too small.
    pub fn copy_to(&self, destination: &mut Vec<u8>, byte_offset: usize, byte_length: usize) -> (r: Result<
        (),
        CodecError,
    >)
        requires
            byte_offset + byte_length <= old(destination)@.len(),
        ensures
            final(destination)@.len() == old(destination)@.len(),
            r is Ok <==> self.data@.len() <= byte_length,
            r matches Err(e) ==> e.status == ErrorStatus::InvalidArg && e.reason@ == too_small_message(
                self.data@.len(),
                byte_length as nat,
            ) && final(destination)@ == old(destination)@,
            r is Ok ==> final(destination)@ == old(destination)@.subrange(0, byte_offset as int)
                + self.data@ + old(destination)@.subrange(
                byte_offset + self.data@.len(),
                old(destination)@.len() as int,
            ),
    {
        copy_into(&self.data, destination, byte_offset, byte_length)
    }
}


/// How a chunk's `type` member reads: `"key"` is a key chunk, `"delta"` a
/// delta chunk; a missing or other value is a TypeError.
pub open spec fn spec_chunk_type(t: Option<&str>) -> Result<bool, Seq<char>> {
    match t {
        None => Err("type is required"@),
        Some(s) => if s.spec_bytes() == seq!['k' as u8, 'e' as u8, 'y' as u8] {
            Ok(true)
        } else if s.spec_bytes() == seq!['d' as u8, 'e' as u8, 'l' as u8, 't' as u8, 'a' as u8] {
            Ok(false)
        } else {
            Err("Invalid chunk type: "@ + s@)
        },
    }
}

/// Read a chunk's `type` member; `Ok(true)` for a key chunk.
pub fn parse_chunk_type(t: Option<&str>) -> (r: Result<bool, CodecError>)
    ensures
        match spec_chunk_type(t) {
            Ok(k) => r == Ok::<bool, CodecError>(k),
            Err(m) => r matches Err(e) && e.status == ErrorStatus::InvalidArg && e.reason@ == m,
        },
{
    match t {
        None => Err(CodecError { status: ErrorStatus::InvalidArg, reason: String::from_str("type is required") }),
        Some(s) => {
            let b = s.as_bytes();
            if bytes_equal(b, &['k' as u8, 'e' as u8, 'y' as u8]) {
                Ok(true)
            } else if bytes_equal(b, &['d' as u8, 'e' as u8, 'l' as u8, 't' as u8, 'a' as u8]) {
                Ok(false)
            } else {
                let mut reason = String::from_str("Invalid chunk type: ");
                reason.append(s);
                Err(CodecError { status: ErrorStatus::InvalidArg, reason })
            }
        },
    }
}

/// The bytes of a view of `byte_length` bytes at `byte_offset` into a
/// buffer; a TypeError when the view does not lie within the buffer.
pub fn view_bytes(buffer: &[u8], byte_offset: u32, byte_length: u32) -> (r: Result<Vec<u8>, CodecError>)
    ensures
        byte_offset + byte_length <= buffer@.len() ==> (r matches Ok(v) && v@ == buffer@.subrange(
            byte_offset as int,
            byte_offset + byte_length,
        )),
        byte_offset + byte_length > buffer@.len() ==> (r matches Err(e) && e.status
            == ErrorStatus::InvalidArg && e.reason@ == "data must be a valid BufferSource"@),
{
    let end: u64 = byte_offset as u64 + byte_length as u64;
    if end > buffer.len() as u64 {
        return Err(
            CodecError {
                status: ErrorStatus::InvalidArg,
                reason: String::from_str("data must be a valid BufferSource"),
            },
        );
    }
    Ok(slice_to_vec(&buffer[byte_offset as usize..end as usize]))
}

} // verus!
