use webcodecs::av1::{convert_obu_extradata_to_av1c, is_av1c_extradata};
use webcodecs::bitstream::{
    convert_annexb_extradata_to_avcc, convert_annexb_extradata_to_hvcc, convert_annexb_to_avcc,
    convert_avcc_extradata_to_annexb, convert_avcc_to_annexb, convert_hvcc_extradata_to_annexb,
    extract_avcc_from_avcc_packet, extract_hvcc_from_hvcc_packet, is_avcc_extradata,
    is_avcc_format, is_hvcc_extradata,
};

const SPS: &[u8] = &[0x67, 0x64, 0x00, 0x28, 0xac];
const PPS: &[u8] = &[0x68, 0xee, 0x3c, 0x80];
const IDR: &[u8] = &[0x65, 0x88, 0x84];

fn annexb(units: &[&[u8]]) -> Vec<u8> {
    let mut out = Vec::new();
    for u in units {
        out.extend_from_slice(&[0, 0, 0, 1]);
        out.extend_from_slice(u);
    }
    out
}

fn avcc(units: &[&[u8]]) -> Vec<u8> {
    let mut out = Vec::new();
    for u in units {
        out.extend_from_slice(&(u.len() as u32).to_be_bytes());
        out.extend_from_slice(u);
    }
    out
}

#[test]
fn annexb_and_avcc_packets_convert_both_ways() {
    let a = annexb(&[SPS, PPS, IDR]);
    let l = avcc(&[SPS, PPS, IDR]);
    assert_eq!(convert_annexb_to_avcc(&a), l);
    assert_eq!(convert_avcc_to_annexb(&l), a);
    assert_eq!(convert_avcc_to_annexb(&convert_annexb_to_avcc(&a)), a);
}

#[test]
fn annexb_with_three_byte_start_codes() {
    let mut a = vec![0, 0, 1];
    a.extend_from_slice(IDR);
    assert_eq!(convert_annexb_to_avcc(&a), avcc(&[IDR]));
}

#[test]
fn data_without_start_codes_or_lengths_is_kept() {
    assert_eq!(convert_annexb_to_avcc(&[1, 2, 3]), vec![1, 2, 3]);
    assert_eq!(convert_annexb_to_avcc(&[]), Vec::<u8>::new());
    // A length that runs past the end is not AVCC.
    assert_eq!(convert_avcc_to_annexb(&[0, 0, 0, 9, 1]), vec![0, 0, 0, 9, 1]);
    assert_eq!(convert_avcc_to_annexb(&[0, 0]), vec![0, 0]);
}

#[test]
fn avcc_format_detection() {
    assert!(is_avcc_format(&avcc(&[IDR])));
    assert!(!is_avcc_format(&annexb(&[IDR])));
    assert!(!is_avcc_format(&[0, 0, 0, 0, 0x65]));
    assert!(!is_avcc_format(&[0, 1]));
}

#[test]
fn avcc_record_from_annexb_and_back() {
    let a = annexb(&[SPS, PPS]);
    let rec = convert_annexb_extradata_to_avcc(&a).unwrap();
    let mut expected = vec![1, 0x64, 0x00, 0x28, 0xff, 0xe1, 0, SPS.len() as u8];
    expected.extend_from_slice(SPS);
    expected.extend_from_slice(&[1, 0, PPS.len() as u8]);
    expected.extend_from_slice(PPS);
    assert_eq!(rec, expected);
    assert!(is_avcc_extradata(&rec));
    assert_eq!(convert_avcc_extradata_to_annexb(&rec).unwrap(), a);
    // Without a PPS there is no record.
    assert_eq!(convert_annexb_extradata_to_avcc(&annexb(&[SPS])), None);
    assert_eq!(convert_annexb_extradata_to_avcc(&[]), None);
}

#[test]
fn avcc_record_from_packet() {
    let p = avcc(&[SPS, PPS, IDR]);
    let rec = extract_avcc_from_avcc_packet(&p).unwrap();
    assert_eq!(rec, convert_annexb_extradata_to_avcc(&annexb(&[SPS, PPS])).unwrap());
    assert_eq!(extract_avcc_from_avcc_packet(&avcc(&[IDR, IDR])), None);
    assert_eq!(extract_avcc_from_avcc_packet(&[0, 0, 0]), None);
}

#[test]
fn avcc_extradata_errors() {
    assert_eq!(convert_avcc_extradata_to_annexb(&[1, 2, 3]), None);
    assert_eq!(convert_avcc_extradata_to_annexb(&[2, 0x64, 0, 0x28, 0xff, 0xe1, 0]), None);
    // SPS length past the end
    assert_eq!(convert_avcc_extradata_to_annexb(&[1, 0x64, 0, 0x28, 0xff, 0xe1, 0, 9]), None);
    assert!(!is_avcc_extradata(&[1, 0, 0, 1, 0, 0, 0]));
}

const VPS_H: &[u8] = &[0x40, 0x01, 0x0c];
const SPS_H: &[u8] = &[0x42, 0x01, 0x01, 0x60, 0x00, 0x00];
const PPS_H: &[u8] = &[0x44, 0x01, 0xc1];

#[test]
fn hvcc_record_from_annexb_and_back() {
    let a = annexb(&[VPS_H, SPS_H, PPS_H]);
    let rec = convert_annexb_extradata_to_hvcc(&a).unwrap();
    assert_eq!(rec[0], 1);
    assert_eq!(rec[22], 3);
    assert!(is_hvcc_extradata(&rec));
    assert_eq!(convert_hvcc_extradata_to_annexb(&rec).unwrap(), a);
    let from_packet = extract_hvcc_from_hvcc_packet(&avcc(&[VPS_H, SPS_H, PPS_H])).unwrap();
    assert_eq!(from_packet, rec);
    // Without VPS there are two arrays.
    let no_vps = convert_annexb_extradata_to_hvcc(&annexb(&[SPS_H, PPS_H])).unwrap();
    assert_eq!(no_vps[22], 2);
    // A short first SPS gives no record from Annex B.
    assert_eq!(convert_annexb_extradata_to_hvcc(&annexb(&[&[0x42, 0x01], PPS_H])), None);
}

#[test]
fn hvcc_extradata_checks() {
    let mut empty_arrays = vec![0u8; 23];
    empty_arrays[0] = 1;
    empty_arrays[1] = 1;
    assert!(!is_hvcc_extradata(&empty_arrays));
    assert_eq!(convert_hvcc_extradata_to_annexb(&empty_arrays), None);
    assert_eq!(convert_hvcc_extradata_to_annexb(&[1, 2, 3]), None);
}

#[test]
fn av1c_from_sequence_header_obu() {
    // OBU header: type 1 (sequence header), has_size; size 2; payload profile 1.
    let obu = [0x0a, 0x02, 0x20, 0x00];
    let rec = convert_obu_extradata_to_av1c(&obu).unwrap();
    assert_eq!(rec, vec![0x81, 0x28, 0x00, 0x00, 0x0a, 0x02, 0x20, 0x00]);
    assert!(is_av1c_extradata(&rec));
    // Already av1C: kept.
    assert_eq!(convert_obu_extradata_to_av1c(&rec).unwrap(), rec);
    // A temporal delimiter then the sequence header (profile 0).
    let obus = [0x12, 0x00, 0x0a, 0x01, 0x00];
    assert_eq!(
        convert_obu_extradata_to_av1c(&obus).unwrap(),
        vec![0x81, 0x08, 0x0c, 0x00, 0x0a, 0x01, 0x00]
    );
    // Forbidden bit set: nothing found.
    assert_eq!(convert_obu_extradata_to_av1c(&[0x80, 0x00]), None);
    assert_eq!(convert_obu_extradata_to_av1c(&[]), None);
}

#[test]
fn annexb_round_trip_normalises_start_codes() {
    let d = vec![9, 0, 0, 1, 0x65, 0xAA, 0, 0, 0, 1, 0x41];
    let back = convert_avcc_to_annexb(&convert_annexb_to_avcc(&d));
    assert_eq!(back, vec![0, 0, 0, 1, 0x65, 0xAA, 0, 0, 0, 1, 0x41]);
}

#[test]
fn length_prefixed_round_trip_is_identity() {
    let d = vec![0, 0, 0, 2, 0x65, 0xAA, 0, 0, 0, 3, 0x41, 0x9A, 0x07];
    assert_eq!(convert_annexb_to_avcc(&convert_avcc_to_annexb(&d)), d);
}

#[test]
fn avcc_extradata_round_trip_gives_back_the_parameter_sets() {
    let sps = [0x67u8, 0x42, 0x00, 0x1e, 0xab, 0x40];
    let pps_a = [0x68u8, 0xce, 0x3c, 0x80];
    let pps_b = [0x68u8, 0xde, 0x00];
    let mut annexb = Vec::new();
    for unit in [&sps[..], &pps_a[..], &pps_b[..]] {
        annexb.extend_from_slice(&[0, 0, 0, 1]);
        annexb.extend_from_slice(unit);
    }
    let avcc = convert_annexb_extradata_to_avcc(&annexb).unwrap();
    assert_eq!(&avcc[..6], &[1, 0x42, 0x00, 0x1e, 0xff, 0xe1]);
    assert_eq!(convert_avcc_extradata_to_annexb(&avcc), Some(annexb));
}
