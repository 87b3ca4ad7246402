use varint_simd_fair::stream::{
    load_stream, read_record_count, LoadError, HEADER_LEN, PADDING,
};

#[test]
fn load_stream_reads_count_and_pads_payload() {
    let file = [0x03, 0, 0, 0, 0, 0, 0, 0, 0x01, 0x02, 0x03];
    let (bytes, count) = load_stream(&file).unwrap();
    assert_eq!(count, 3);
    assert_eq!(bytes.len(), 3 + 16);
    assert_eq!(&bytes[..3], &[0x01, 0x02, 0x03]);
    assert_eq!(&bytes[3..], &[0u8; 16]);
}

#[test]
fn load_stream_header_is_little_endian() {
    let file = [0x01, 0x02, 0x03, 0x04, 0x05, 0x06, 0x07, 0x08];
    let (bytes, count) = load_stream(&file).unwrap();
    assert_eq!(count, 0x0807_0605_0403_0201);
    assert_eq!(count, u64::from_le_bytes(file));
    assert_eq!(bytes, vec![0u8; 16]);
}

#[test]
fn load_stream_header_extremes() {
    assert_eq!(load_stream(&[0u8; 8]).unwrap().1, 0);
    assert_eq!(load_stream(&[0xffu8; 8]).unwrap().1, u64::MAX);
    assert_eq!(load_stream(&[0, 0, 0, 0, 0, 0, 0, 0x80]).unwrap().1, 1u64 << 63);
    assert_eq!(load_stream(&[0, 1, 0, 0, 0, 0, 0, 0]).unwrap().1, 256);
}

#[test]
fn load_stream_rejects_short_header() {
    assert_eq!(load_stream(&[]), Err(LoadError::TruncatedHeader));
    assert_eq!(load_stream(&[3]), Err(LoadError::TruncatedHeader));
    assert_eq!(load_stream(&[3, 0, 0, 0, 0, 0, 0]), Err(LoadError::TruncatedHeader));
}

#[test]
fn load_stream_count_is_independent_of_payload_length() {
    let mut file = vec![0xe8, 0x03, 0, 0, 0, 0, 0, 0];
    file.extend_from_slice(&[0xac, 0x02]);
    let (bytes, count) = load_stream(&file).unwrap();
    assert_eq!(count, 1000);
    assert_eq!(bytes.len(), 2 + PADDING);
    assert_eq!(&bytes[..2], &[0xac, 0x02]);
    assert!(bytes[2..].iter().all(|b| *b == 0));
}

#[test]
fn load_stream_keeps_a_long_payload_in_order() {
    let mut file = vec![0u8; HEADER_LEN];
    file[0] = 200;
    let payload: Vec<u8> = (0..200u32).map(|i| (i % 251) as u8).collect();
    file.extend_from_slice(&payload);
    let (bytes, count) = load_stream(&file).unwrap();
    assert_eq!(count, 200);
    assert_eq!(bytes.len(), 200 + PADDING);
    assert_eq!(&bytes[..200], &payload[..]);
    assert_eq!(&bytes[200..], &[0u8; 16]);
}

#[test]
fn read_record_count_reads_only_the_header() {
    let file = [0x2a, 0, 0, 0, 0, 0, 0, 0, 0xff, 0xff, 0xff];
    assert_eq!(read_record_count(&file), 42);
    assert_eq!(read_record_count(&[0, 0, 0, 0, 1, 0, 0, 0]), 1u64 << 32);
}
