use webcodecs::encoded_chunk::{
    parse_chunk_type, view_bytes, EncodedAudioChunk, EncodedAudioChunkType, EncodedVideoChunk, EncodedVideoChunkType, PacketInfo,
};
use webcodecs::error::ErrorStatus;

fn packet(data: Vec<u8>, is_key: bool, pts: i64, dts: i64, duration: i64) -> PacketInfo {
    PacketInfo { data, is_key, pts, dts, duration }
}

#[test]
fn video_chunk_from_script() {
    let c = EncodedVideoChunk::new(EncodedVideoChunkType::Key, 1000, Some(33), vec![1, 2, 3]);
    assert_eq!(c.chunk_type(), EncodedVideoChunkType::Key);
    assert!(c.is_key());
    assert_eq!(c.byte_length(), 3);
    assert_eq!(c.timestamp_us, 1000);
    assert_eq!(c.duration_us, Some(33));
    assert_eq!(c.dts_us, None);
    assert_eq!(c.original_pts, None);
}

#[test]
fn video_chunk_from_packet_keeps_decode_timestamp() {
    let c = EncodedVideoChunk::from_packet_with_format(packet(vec![9, 9], false, 40, 20, 0), None, false);
    assert_eq!(c.chunk_type(), EncodedVideoChunkType::Delta);
    assert!(!c.is_key());
    assert_eq!(c.timestamp_us, 40);
    assert_eq!(c.duration_us, None);
    assert_eq!(c.dts_us, Some(20));
    assert_eq!(c.original_pts, Some(40));
    let d = EncodedVideoChunk::from_packet_with_format(packet(vec![], true, 40, i64::MIN, 5), Some(7), false);
    assert_eq!(d.timestamp_us, 7);
    assert_eq!(d.duration_us, Some(5));
    assert_eq!(d.dts_us, None);
    assert_eq!(d.original_pts, None);
}

#[test]
fn video_chunk_from_packet_converts_to_length_prefixed() {
    let annexb = vec![0, 0, 0, 1, 0x65, 0xAA, 0, 0, 1, 0x41];
    let c = EncodedVideoChunk::from_packet_with_format(packet(annexb, true, 0, 0, 1), None, true);
    assert_eq!(c.data, vec![0, 0, 0, 2, 0x65, 0xAA, 0, 0, 0, 1, 0x41]);
}

#[test]
fn copy_to_writes_into_the_view() {
    let c = EncodedVideoChunk::new(EncodedVideoChunkType::Key, 0, None, vec![1, 2, 3]);
    let mut buf = vec![0u8; 8];
    assert!(c.copy_to(&mut buf, 2, 4).is_ok());
    assert_eq!(buf, vec![0, 0, 1, 2, 3, 0, 0, 0]);
}

#[test]
fn copy_to_small_destination_is_type_error() {
    let c = EncodedAudioChunk::new(EncodedAudioChunkType::Key, 0, None, vec![1, 2, 3, 4, 5]);
    let mut buf = vec![7u8; 4];
    let e = c.copy_to(&mut buf, 0, 4).unwrap_err();
    assert_eq!(e.status, ErrorStatus::InvalidArg);
    assert_eq!(e.reason, "destination is too small: need 5 bytes, got 4");
    assert_eq!(buf, vec![7u8; 4]);
}

#[test]
fn audio_chunk_from_packet_timing() {
    let c = EncodedAudioChunk::from_packet(packet(vec![1], true, 100, 100, 20), None, Some(5));
    assert_eq!(c.chunk_type(), EncodedAudioChunkType::Key);
    assert_eq!(c.get_timestamp(), 5);
    assert_eq!(c.duration_us, Some(20));
    let d = EncodedAudioChunk::from_packet(packet(vec![1, 2], false, 100, 100, 0), Some(21333), None);
    assert_eq!(d.get_timestamp(), 100);
    assert_eq!(d.duration_us, Some(21333));
    assert!(!d.is_key());
    assert_eq!(d.byte_length(), 2);
    let e = EncodedAudioChunk::from_packet(packet(vec![], false, 3, 3, 0), None, None);
    assert_eq!(e.duration_us, None);
}

#[test]
fn chunk_type_member() {
    assert_eq!(parse_chunk_type(Some("key")).ok(), Some(true));
    assert_eq!(parse_chunk_type(Some("delta")).ok(), Some(false));
    let e = parse_chunk_type(Some("Key")).unwrap_err();
    assert_eq!(e.status, ErrorStatus::InvalidArg);
    assert_eq!(e.reason, "Invalid chunk type: Key");
    assert_eq!(parse_chunk_type(None).unwrap_err().reason, "type is required");
}

#[test]
fn buffer_views() {
    let buf = [1u8, 2, 3, 4, 5];
    assert_eq!(view_bytes(&buf, 1, 3).unwrap(), vec![2, 3, 4]);
    assert_eq!(view_bytes(&buf, 5, 0).unwrap(), Vec::<u8>::new());
    assert_eq!(view_bytes(&buf, 4, 2).unwrap_err().reason, "data must be a valid BufferSource");
}
