use png_inject::bytes::{convert_u32_2_u8, convert_u8_2_u32, reverse_bytes};
use png_inject::chunk::{build_chunk, transcode, ChunkReport, TranscodeError, PNG_SIG};
use png_inject::crc::checksum;
use png_inject::report::{report_events, ReportEvent};

fn reference_crc(bytes: &[u8]) -> u32 {
    let mut table = [0u32; 256];
    for n in 0..256u32 {
        let mut c = n;
        for _ in 0..8 {
            c = if c & 1 != 0 { 0xEDB8_8320 ^ (c >> 1) } else { c >> 1 };
        }
        table[n as usize] = c;
    }
    let mut c = 0xFFFF_FFFFu32;
    for &b in bytes {
        c = table[((c ^ b as u32) & 0xFF) as usize] ^ (c >> 8);
    }
    c ^ 0xFFFF_FFFF
}

fn raw_chunk(ty: &[u8; 4], data: &[u8], crc: u32) -> Vec<u8> {
    let mut v = (data.len() as u32).to_be_bytes().to_vec();
    v.extend_from_slice(ty);
    v.extend_from_slice(data);
    v.extend_from_slice(&crc.to_be_bytes());
    v
}

fn good_chunk(ty: &[u8; 4], data: &[u8]) -> Vec<u8> {
    let mut body = ty.to_vec();
    body.extend_from_slice(data);
    raw_chunk(ty, data, reference_crc(&body))
}

fn with_signature(chunks: &[Vec<u8>]) -> Vec<u8> {
    let mut v = PNG_SIG.to_vec();
    for c in chunks {
        v.extend_from_slice(c);
    }
    v
}

#[test]
fn checksum_of_empty_is_zero() {
    assert_eq!(checksum(b""), 0x0000_0000);
}

#[test]
fn checksum_of_iend_is_known_constant() {
    assert_eq!(checksum(b"IEND"), 0xAE42_6082);
}

#[test]
fn checksum_standard_check_value() {
    assert_eq!(checksum(b"123456789"), 0xCBF4_3926);
}

#[test]
fn checksum_matches_reference_on_many_inputs() {
    let mut data: Vec<u8> = Vec::new();
    for i in 0..300u32 {
        data.push((i * 7 + 3) as u8);
        assert_eq!(checksum(&data), reference_crc(&data));
    }
}

#[test]
fn big_endian_read() {
    assert_eq!(convert_u8_2_u32(vec![0x01, 0x02, 0x03, 0x04]), 0x0102_0304);
    assert_eq!(convert_u8_2_u32(vec![0xFF, 0xFF, 0xFF, 0xFF]), 0xFFFF_FFFF);
    assert_eq!(convert_u8_2_u32(vec![0xAB]), 0xAB);
    assert_eq!(convert_u8_2_u32(vec![0x12, 0x34]), 0x1234);
    assert_eq!(convert_u8_2_u32(vec![]), 0);
}

#[test]
fn big_endian_write() {
    assert_eq!(convert_u32_2_u8(0x0102_0304), vec![0x01, 0x02, 0x03, 0x04]);
    assert_eq!(convert_u32_2_u8(6), vec![0, 0, 0, 6]);
    assert_eq!(convert_u32_2_u8(0xFFFF_FFFF), vec![0xFF; 4]);
    assert_eq!(convert_u8_2_u32(convert_u32_2_u8(0xDEAD_BEEF)), 0xDEAD_BEEF);
}

#[test]
fn reverse_in_place() {
    let mut v = vec![1u8, 2, 3, 4];
    reverse_bytes(&mut v);
    assert_eq!(v, vec![4, 3, 2, 1]);
    let mut odd = vec![1u8, 2, 3];
    reverse_bytes(&mut odd);
    assert_eq!(odd, vec![3, 2, 1]);
    let mut empty: Vec<u8> = vec![];
    reverse_bytes(&mut empty);
    assert!(empty.is_empty());
}

#[test]
fn injected_chunk_is_well_formed() {
    let c = build_chunk(*b"jiAO", b"shijie").unwrap();
    assert_eq!(c.len(), 12 + 6);
    assert_eq!(&c[0..4], &[0, 0, 0, 6]);
    assert_eq!(&c[4..8], b"jiAO");
    assert_eq!(&c[8..14], b"shijie");
    let stored = u32::from_be_bytes([c[14], c[15], c[16], c[17]]);
    assert_eq!(stored, reference_crc(b"jiAOshijie"));
    assert_ne!(stored, 0);
}

#[test]
fn empty_payload_chunk_is_twelve_bytes() {
    let c = build_chunk(*b"IEND", b"").unwrap();
    assert_eq!(c, vec![0, 0, 0, 0, b'I', b'E', b'N', b'D', 0xAE, 0x42, 0x60, 0x82]);
}

#[test]
fn short_input_is_truncated() {
    assert_eq!(transcode(&PNG_SIG[..7], *b"jiAO", b"x"), Err(TranscodeError::TruncatedInput));
    assert_eq!(transcode(&[], *b"jiAO", b"x"), Err(TranscodeError::TruncatedInput));
}

#[test]
fn any_signature_byte_changed_is_rejected() {
    let input = with_signature(&[good_chunk(b"IEND", b"")]);
    for i in 0..8 {
        let mut bad = input.clone();
        bad[i] ^= 0x01;
        assert_eq!(transcode(&bad, *b"jiAO", b"shijie"), Err(TranscodeError::BadSignature));
    }
}

#[test]
fn signature_only_input_passes_signature_check() {
    assert_eq!(transcode(&PNG_SIG, *b"jiAO", b"shijie"), Err(TranscodeError::TruncatedInput));
}

#[test]
fn terminal_only_stream_round_trips() {
    let iend = raw_chunk(b"IEND", b"", 0xAE42_6082);
    let input = with_signature(&[iend.clone()]);
    let r = transcode(&input, *b"jiAO", b"shijie").unwrap();
    let mut expected = PNG_SIG.to_vec();
    expected.extend_from_slice(&good_chunk(b"jiAO", b"shijie"));
    expected.extend_from_slice(&iend);
    assert_eq!(r.output, expected);
    assert_eq!(
        r.reports,
        vec![ChunkReport { length: 0, chunk_type: *b"IEND", checksum: 0xAE42_6082 }]
    );
}

#[test]
fn payload_one_byte_short_is_truncated() {
    let mut input = PNG_SIG.to_vec();
    input.extend_from_slice(&[0, 0, 0, 5]);
    input.extend_from_slice(b"IDAT");
    input.extend_from_slice(&[1, 2, 3, 4]);
    assert_eq!(transcode(&input, *b"jiAO", b"shijie"), Err(TranscodeError::TruncatedInput));
}

#[test]
fn missing_checksum_field_is_truncated() {
    let mut chunk = good_chunk(b"IEND", b"");
    chunk.pop();
    let input = with_signature(&[chunk]);
    assert_eq!(transcode(&input, *b"jiAO", b""), Err(TranscodeError::TruncatedInput));
}

#[test]
fn stream_without_terminal_chunk_is_truncated() {
    let input = with_signature(&[good_chunk(b"IHDR", &[0u8; 13])]);
    assert_eq!(transcode(&input, *b"jiAO", b""), Err(TranscodeError::TruncatedInput));
}

#[test]
fn non_ascii_type_is_rejected() {
    let input = with_signature(&[raw_chunk(&[b'I', 0xC3, b'N', b'D'], b"", 0)]);
    assert_eq!(transcode(&input, *b"jiAO", b""), Err(TranscodeError::InvalidChunkType));
}

#[test]
fn relayed_checksums_are_not_verified() {
    let iend = raw_chunk(b"IEND", b"", 0x1234_5678);
    let r = transcode(&with_signature(&[iend.clone()]), *b"jiAO", b"").unwrap();
    assert!(r.output.ends_with(&iend));
    assert_eq!(r.reports[0].checksum, 0x1234_5678);
}

#[test]
fn bytes_after_terminal_chunk_are_dropped() {
    let mut input = with_signature(&[good_chunk(b"IEND", b"")]);
    input.extend_from_slice(b"trailing garbage");
    let r = transcode(&input, *b"jiAO", b"").unwrap();
    assert_eq!(r.output.len(), 8 + 12 + 12);
}

#[test]
fn end_to_end_three_chunks() {
    let ihdr = good_chunk(b"IHDR", &[0, 0, 0, 1, 0, 0, 0, 1, 8, 2, 0, 0, 0]);
    let idat_data: Vec<u8> = (0..2500u32).map(|i| (i % 251) as u8).collect();
    let idat = good_chunk(b"IDAT", &idat_data);
    let iend = good_chunk(b"IEND", b"");
    let input = with_signature(&[ihdr.clone(), idat.clone(), iend.clone()]);
    let r = transcode(&input, *b"jiAO", b"shijie").unwrap();

    let mut expected = PNG_SIG.to_vec();
    expected.extend_from_slice(&good_chunk(b"jiAO", b"shijie"));
    expected.extend_from_slice(&ihdr);
    expected.extend_from_slice(&idat);
    expected.extend_from_slice(&iend);
    assert_eq!(r.output, expected);

    assert_eq!(r.reports.len(), 3);
    assert_eq!(r.reports[0].length, 13);
    assert_eq!(&r.reports[0].chunk_type, b"IHDR");
    assert_eq!(r.reports[1].length, 2500);
    assert_eq!(&r.reports[1].chunk_type, b"IDAT");
    assert_eq!(r.reports[2].length, 0);
    assert_eq!(&r.reports[2].chunk_type, b"IEND");
    assert_eq!(r.reports[2].checksum, 0xAE42_6082);

    let events = report_events(&r.reports);
    assert_eq!(events.len(), 5);
    assert_eq!(events[0], ReportEvent::Chunk(r.reports[0]));
    assert_eq!(events[1], ReportEvent::Separator);
    assert_eq!(events[2], ReportEvent::Chunk(r.reports[1]));
    assert_eq!(events[3], ReportEvent::Separator);
    assert_eq!(events[4], ReportEvent::Chunk(r.reports[2]));
    let chunk_lines = events.iter().filter(|e| matches!(e, ReportEvent::Chunk(_))).count();
    assert_eq!(chunk_lines, 3);
}

#[test]
fn no_reports_no_events() {
    assert!(report_events(&vec![]).is_empty());
}
