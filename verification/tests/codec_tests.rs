use filetransfer::codec::DgHdr;

fn sample_header() -> DgHdr {
    DgHdr {
        file_id: 0x0102030405060708,
        total_size: 3000,
        offset: 1200,
        len: 1200,
        flags: 0,
        send_ts_ns: 987654321,
    }
}

#[test]
fn header_round_trip() {
    let h = sample_header();
    let wire = h.encode();
    assert_eq!(wire.len(), 40);
    let parsed = DgHdr::parse(&wire);
    let (h2, rest) = parsed.expect("a full header must parse");
    assert_eq!(h2, h);
    assert!(rest.is_empty());
}

#[test]
fn header_round_trip_extreme_fields() {
    let h = DgHdr {
        file_id: u64::MAX,
        total_size: u64::MAX,
        offset: 0,
        len: u32::MAX,
        flags: 0xff,
        send_ts_ns: u64::MAX,
    };
    let wire = h.encode();
    let (h2, rest) = DgHdr::parse(&wire).unwrap();
    assert_eq!(h2, h);
    assert!(rest.is_empty());
}

#[test]
fn encode_exact_layout() {
    let h = sample_header();
    let wire = h.encode();
    // file_id little-endian
    assert_eq!(&wire[0..8], &[0x08, 0x07, 0x06, 0x05, 0x04, 0x03, 0x02, 0x01]);
    // total_size 3000 = 0x0bb8
    assert_eq!(&wire[8..16], &[0xb8, 0x0b, 0, 0, 0, 0, 0, 0]);
    // offset 1200 = 0x04b0
    assert_eq!(&wire[16..24], &[0xb0, 0x04, 0, 0, 0, 0, 0, 0]);
    // len 1200
    assert_eq!(&wire[24..28], &[0xb0, 0x04, 0, 0]);
    // flags and zero padding
    assert_eq!(&wire[28..32], &[0, 0, 0, 0]);
    // timestamp 987654321 = 0x3ade68b1
    assert_eq!(&wire[32..40], &[0xb1, 0x68, 0xde, 0x3a, 0, 0, 0, 0]);
}

#[test]
fn parse_short_buffer_fails() {
    let short = [0u8; 39];
    assert!(DgHdr::parse(&short).is_none());
    assert!(DgHdr::parse(&[]).is_none());
}

#[test]
fn parse_keeps_payload() {
    let h = sample_header();
    let mut wire = h.encode();
    wire.extend_from_slice(&[9, 8, 7, 6]);
    let (h2, payload) = DgHdr::parse(&wire).unwrap();
    assert_eq!(h2, h);
    assert_eq!(payload, &[9, 8, 7, 6]);
}

#[test]
fn write_to_appends() {
    let h = sample_header();
    let mut buf = vec![0xaa, 0xbb];
    h.write_to(&mut buf);
    assert_eq!(buf.len(), 42);
    assert_eq!(&buf[0..2], &[0xaa, 0xbb]);
    assert_eq!(&buf[2..], h.encode().as_slice());
}

#[test]
fn is_last_reads_bit_zero() {
    let mut h = sample_header();
    assert!(!h.is_last());
    h.flags = 1;
    assert!(h.is_last());
    h.flags = 3;
    assert!(h.is_last());
    h.flags = 2;
    assert!(!h.is_last());
}
