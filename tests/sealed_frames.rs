use ftltunnel::cipher::SEAL_OVERHEAD;
use ftltunnel::net::{frame_bytes, NetFrame, FRAME_CHUNK_DATA, FRAME_HANDSHAKE_OFFER};
use ftltunnel::transaction::Transaction;
use ftltunnel::FTLTunnelError;

#[test]
fn sealed_frame_opens_to_its_plaintext() {
    let t = Transaction::new(1200, 8, 20, b"").unwrap();
    let wire = t.seal_frame(FRAME_HANDSHAKE_OFFER, b"offer body").unwrap();
    assert_eq!(wire.len(), 9 + 10 + SEAL_OVERHEAD);
    let f = NetFrame::from_bytes(&wire).unwrap();
    assert_ne!(f.body(), b"offer body");
    let peer = Transaction::new(1, 1, 1, b"").unwrap();
    assert_eq!(peer.open_frame(&wire), Ok((FRAME_HANDSHAKE_OFFER, b"offer body".to_vec())));
}

#[test]
fn sealing_twice_differs() {
    let t = Transaction::new(1200, 8, 20, b"k").unwrap();
    assert_ne!(t.seal_frame(0, b"same").unwrap(), t.seal_frame(0, b"same").unwrap());
}

#[test]
fn wrong_key_is_authentication_failure() {
    let a = Transaction::new(1200, 8, 20, b"alpha").unwrap();
    let b = Transaction::new(1200, 8, 20, b"beta").unwrap();
    let wire = a.seal_frame(FRAME_CHUNK_DATA, b"data").unwrap();
    assert_eq!(b.open_frame(&wire), Err(FTLTunnelError::AuthenticationFailed));
}

#[test]
fn tampered_body_with_fresh_checksum_is_authentication_failure() {
    let t = Transaction::new(1200, 8, 20, b"").unwrap();
    let wire = t.seal_frame(FRAME_CHUNK_DATA, b"payload").unwrap();
    let mut body = NetFrame::from_bytes(&wire).unwrap().body().to_vec();
    body[30] ^= 1;
    let forged = frame_bytes(FRAME_CHUNK_DATA, &body).unwrap();
    assert_eq!(t.open_frame(&forged), Err(FTLTunnelError::AuthenticationFailed));
}

#[test]
fn corrupted_datagram_is_checksum_failure() {
    let t = Transaction::new(1200, 8, 20, b"").unwrap();
    let mut wire = t.seal_frame(FRAME_CHUNK_DATA, b"payload").unwrap();
    wire[20] ^= 0x80;
    assert_eq!(t.open_frame(&wire), Err(FTLTunnelError::InvalidChecksum));
}

#[test]
fn unsealed_short_body_is_refused() {
    let t = Transaction::new(1200, 8, 20, b"").unwrap();
    let wire = frame_bytes(0, &[1, 2, 3]).unwrap();
    assert_eq!(t.open_frame(&wire), Err(FTLTunnelError::AuthenticationFailed));
}

#[test]
fn seal_frame_refuses_empty_and_oversized() {
    let t = Transaction::new(1200, 8, 20, b"").unwrap();
    assert_eq!(t.seal_frame(0, b""), Err(FTLTunnelError::SerError));
    let big = vec![7u8; 16384 - 9 - SEAL_OVERHEAD + 1];
    assert_eq!(
        t.seal_frame(0, &big),
        Err(FTLTunnelError::ChunkSizeTooLarge { allowed: 16384, got: 16385 })
    );
    let fits = vec![7u8; 16384 - 9 - SEAL_OVERHEAD];
    assert_eq!(t.seal_frame(0, &fits).unwrap().len(), 16384);
}
