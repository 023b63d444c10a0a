use ftltunnel::net::{frame_bytes, NetFrame, CHECKSUM_PENDING, FRAME_CHUNK_DATA};
use ftltunnel::{FTLTunnelError, MAX_PACKET_SIZE};

fn pending_image(frame_type: u8, body: &[u8]) -> Vec<u8> {
    let n = body.len() as u16;
    let mut v = vec![frame_type, (n >> 8) as u8, n as u8, 0, 0, 0xFF, 0xFF, 0xFF, 0xFF];
    v.extend_from_slice(body);
    v
}

#[test]
fn new_frame_is_zeroed_and_pending() {
    let f = NetFrame::new(3, 5).unwrap();
    assert_eq!(f.frame_type(), 3);
    assert_eq!(f.body_size(), 5);
    assert_eq!(f.flags(), 0);
    assert_eq!(f.frame_checksum(), CHECKSUM_PENDING);
    assert_eq!(f.body(), &[0u8; 5][..]);
}

#[test]
fn new_accepts_exact_packet_size() {
    let f = NetFrame::new(0, 16384 - 9).unwrap();
    assert_eq!(f.body_size(), 16375);
}

#[test]
fn new_rejects_one_byte_over() {
    match NetFrame::new(0, 16384 - 8) {
        Err(FTLTunnelError::ChunkSizeTooLarge { allowed, got }) => {
            assert_eq!(allowed, MAX_PACKET_SIZE);
            assert_eq!(got, 16385);
        }
        other => panic!("unexpected {:?}", other.is_ok()),
    }
}

#[test]
fn new_rejects_largest_body_size() {
    assert!(matches!(
        NetFrame::new(0, u16::MAX),
        Err(FTLTunnelError::ChunkSizeTooLarge { allowed: 16384, got: 65544 })
    ));
}

#[test]
fn fill_body_zero_pads_short_input() {
    let mut f = NetFrame::new(1, 6).unwrap();
    f.fill_body(&[9, 9, 9, 9, 9, 9]).unwrap();
    f.fill_body(&[1, 2, 3]).unwrap();
    assert_eq!(f.body(), &[1, 2, 3, 0, 0, 0][..]);
    assert_eq!(f.body_size(), 6);
}

#[test]
fn fill_body_rejects_long_input() {
    let mut f = NetFrame::new(1, 2).unwrap();
    assert_eq!(
        f.fill_body(&[1, 2, 3]),
        Err(FTLTunnelError::ChunkSizeTooLarge { allowed: 2, got: 3 })
    );
    assert_eq!(f.body(), &[0, 0][..]);
}

#[test]
fn encode_layout_is_big_endian_with_crc() {
    let body = [0xAAu8, 0xBB, 0xCC];
    let mut f = NetFrame::new(0x02, 3).unwrap();
    f.fill_body(&body).unwrap();
    let wire = f.encode().unwrap();
    let crc = crc::crc32::checksum_ieee(&pending_image(0x02, &body));
    assert_ne!(crc, CHECKSUM_PENDING);
    assert_eq!(f.frame_checksum(), crc);
    let mut expected = vec![0x02, 0x00, 0x03, 0x00, 0x00];
    expected.extend_from_slice(&crc.to_be_bytes());
    expected.extend_from_slice(&body);
    assert_eq!(wire, expected);
}

#[test]
fn checksum_of_known_frame() {
    let mut f = NetFrame::new(0, 0).unwrap();
    f.checksum().unwrap();
    assert_eq!(f.frame_checksum(), crc::crc32::checksum_ieee(&[0, 0, 0, 0, 0, 0xFF, 0xFF, 0xFF, 0xFF]));
    assert_ne!(f.frame_checksum(), CHECKSUM_PENDING);
}

#[test]
fn round_trip_preserves_type_size_and_body() {
    for &(t, n) in &[(0u8, 0usize), (1, 1), (2, 100), (0xFF, 16375)] {
        let body: Vec<u8> = (0..n).map(|i| (i * 31 % 256) as u8).collect();
        let mut f = NetFrame::new(t, n as u16).unwrap();
        f.fill_body(&body).unwrap();
        let wire = f.encode().unwrap();
        let d = NetFrame::from_bytes(&wire).unwrap();
        assert_eq!(d.frame_type(), t);
        assert_eq!(d.body_size() as usize, n);
        assert_eq!(d.body(), &body[..]);
        assert_eq!(d.frame_checksum(), f.frame_checksum());
    }
}

#[test]
fn frame_bytes_matches_three_step_encoding() {
    let body = b"chunk payload";
    let mut f = NetFrame::new(FRAME_CHUNK_DATA, body.len() as u16).unwrap();
    f.fill_body(body).unwrap();
    assert_eq!(frame_bytes(FRAME_CHUNK_DATA, body).unwrap(), f.encode().unwrap());
}

#[test]
fn frame_bytes_rejects_oversized_body() {
    let body = vec![0u8; 16376];
    assert_eq!(
        frame_bytes(0, &body),
        Err(FTLTunnelError::ChunkSizeTooLarge { allowed: 16384, got: 16385 })
    );
}

#[test]
fn every_single_bit_flip_is_detected() {
    let wire = frame_bytes(FRAME_CHUNK_DATA, b"hello, tunnel").unwrap();
    for byte in 0..wire.len() {
        for bit in 0..8 {
            let mut bad = wire.clone();
            bad[byte] ^= 1 << bit;
            let r = NetFrame::from_bytes(&bad);
            assert!(
                matches!(r, Err(FTLTunnelError::InvalidChecksum) | Err(FTLTunnelError::InvalidPacket)),
                "flip of bit {} in byte {} went unnoticed",
                bit,
                byte
            );
        }
    }
}

#[test]
fn checksum_field_flip_is_invalid_checksum() {
    let wire = frame_bytes(0, b"abc").unwrap();
    for byte in 5..9 {
        let mut bad = wire.clone();
        bad[byte] ^= 0x10;
        assert_eq!(NetFrame::from_bytes(&bad).err(), Some(FTLTunnelError::InvalidChecksum));
    }
}

#[test]
fn decode_rejects_short_header() {
    assert_eq!(NetFrame::from_bytes(&[0, 0, 0]).err(), Some(FTLTunnelError::InvalidPacket));
    assert_eq!(NetFrame::from_bytes(&[]).err(), Some(FTLTunnelError::InvalidPacket));
}

#[test]
fn decode_rejects_truncated_body() {
    let wire = frame_bytes(0, b"abcdef").unwrap();
    assert_eq!(NetFrame::from_bytes(&wire[..wire.len() - 1]).err(), Some(FTLTunnelError::InvalidPacket));
}

#[test]
fn decode_rejects_oversized_declared_body() {
    let mut bytes = vec![0u8, 0x40, 0x00, 0, 0, 0, 0, 0, 0];
    bytes.resize(9 + 0x4000, 0);
    assert_eq!(NetFrame::from_bytes(&bytes).err(), Some(FTLTunnelError::InvalidPacket));
}

#[test]
fn decode_ignores_trailing_bytes() {
    let mut wire = frame_bytes(4, b"xy").unwrap();
    wire.extend_from_slice(&[1, 2, 3]);
    let d = NetFrame::from_bytes(&wire).unwrap();
    assert_eq!(d.body(), b"xy");
    assert_eq!(d.frame_type(), 4);
}
