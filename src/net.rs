//! The wire frame: a 9-byte big-endian header, then an opaque body.
//!
//! | offset | field          | size      |
//! |--------|----------------|-----------|
//! | 0      | frame_type     | 1         |
//! | 1      | body_size      | 2         |
//! | 3      | flags          | 2         |
//! | 5      | frame_checksum | 4         |
//! | 9      | body           | body_size |
//!
//! The checksum is CRC-32 (IEEE) over the whole frame with the checksum field
//! set to `0xFFFFFFFF`.
use vstd::prelude::*;

use crate::{FTLTunnelError, MAX_PACKET_SIZE};

verus! {

/// Length of the frame header in bytes.
pub const FRAME_HEAD_LEN: u16 = 9;

/// The value that the checksum field holds while the checksum is computed,
/// and in a frame whose checksum has not been committed yet.
pub const CHECKSUM_PENDING: u32 = 0xFFFF_FFFF;

/// Frame type of a handshake offer.
pub const FRAME_HANDSHAKE_OFFER: u8 = 0x00;

/// Frame type of a handshake acceptance.
pub const FRAME_HANDSHAKE_ACCEPT: u8 = 0x01;

/// Frame type of a chunk of file data.
pub const FRAME_CHUNK_DATA: u8 = 0x02;

/// Frame type of a cumulative acknowledgment.
pub const FRAME_ACK: u8 = 0x03;

/// Frame type of a negative acknowledgment.
pub const FRAME_NACK: u8 = 0x04;

/// Frame type that ends a transfer.
pub const FRAME_FIN: u8 = 0x05;

/// The CRC-32 (IEEE) of a byte sequence.
pub uninterp spec fn crc32_ieee_of(bytes: Seq<u8>) -> u32;

/// Relies on `crc::crc32::checksum_ieee`: the CRC-32 (IEEE) of the bytes,
/// which depends on the bytes alone.
#[verifier::external_body]
fn crc32_ieee(bytes: &[u8]) -> (r: u32)
    ensures
        r == crc32_ieee_of(bytes@),
{
    crc::crc32::checksum_ieee(bytes)
}

/// Big-endian bytes of a `u16`.
pub open spec fn be16(v: u16) -> Seq<u8> {
    seq![(v >> 8u16) as u8, v as u8]
}

/// Big-endian bytes of a `u32`.
pub open spec fn be32(v: u32) -> Seq<u8> {
    seq![(v >> 24u32) as u8, (v >> 16u32) as u8, (v >> 8u32) as u8, v as u8]
}

/// The `u16` stored big-endian at `s[i..i + 2]`.
pub open spec fn be16_at(s: Seq<u8>, i: int) -> u16 {
    ((s[i] as u16) << 8u16) | (s[i + 1] as u16)
}

/// The `u32` stored big-endian at `s[i..i + 4]`.
pub open spec fn be32_at(s: Seq<u8>, i: int) -> u32 {
    ((s[i] as u32) << 24u32) | ((s[i + 1] as u32) << 16u32) | ((s[i + 2] as u32) << 8u32) | (
    s[i + 3] as u32)
}

/// The contents of a frame.
pub struct FrameView {
    pub frame_type: u8,
    pub body_size: u16,
    pub flags: u16,
    pub checksum: u32,
    pub body: Seq<u8>,
}

impl FrameView {
    /// The body has its declared size, and the frame fits in one datagram.
    pub open spec fn wf(self) -> bool {
        &&& self.body.len() == self.body_size as int
        &&& FRAME_HEAD_LEN + self.body_size <= MAX_PACKET_SIZE
    }

    /// The header as it stands on the wire, with the given checksum field.
    pub open spec fn header_with(self, checksum: u32) -> Seq<u8> {
        seq![self.frame_type] + be16(self.body_size) + be16(self.flags) + be32(checksum)
    }

    /// The frame as it stands on the wire.
    pub open spec fn wire(self) -> Seq<u8> {
        self.header_with(self.checksum) + self.body
    }

    /// The bytes over which the checksum is computed.
    pub open spec fn pending_image(self) -> Seq<u8> {
        self.header_with(CHECKSUM_PENDING) + self.body
    }

    /// The checksum that this frame's contents call for.
    pub open spec fn computed_checksum(self) -> u32 {
        crc32_ieee_of(self.pending_image())
    }

    /// The checksum field holds the checksum of the contents.
    pub open spec fn committed(self) -> bool {
        self.checksum == self.computed_checksum()
    }
}

/// The header fields read from the start of `bytes`, with a body of the
/// declared size taken from after the header.
pub open spec fn frame_at(bytes: Seq<u8>) -> FrameView {
    let body_size = be16_at(bytes, 1);
    FrameView {
        frame_type: bytes[0],
        body_size,
        flags: be16_at(bytes, 3),
        checksum: be32_at(bytes, 5),
        body: bytes.subrange(FRAME_HEAD_LEN as int, FRAME_HEAD_LEN + body_size),
    }
}

/// What decoding a datagram yields.
pub open spec fn decode_spec(bytes: Seq<u8>) -> Result<FrameView, FTLTunnelError> {
    if bytes.len() < FRAME_HEAD_LEN {
        Err(FTLTunnelError::InvalidPacket)
    } else if FRAME_HEAD_LEN + be16_at(bytes, 1) > MAX_PACKET_SIZE {
        Err(FTLTunnelError::InvalidPacket)
    } else if bytes.len() < FRAME_HEAD_LEN + be16_at(bytes, 1) {
        Err(FTLTunnelError::InvalidPacket)
    } else if !frame_at(bytes).committed() {
        Err(FTLTunnelError::InvalidChecksum)
    } else {
        Ok(frame_at(bytes))
    }
}

/// One datagram's worth of protocol data.
pub struct NetFrame {
    frame_type: u8,
    body_size: u16,
    flags: u16,
    frame_checksum: u32,
    frame_body: Vec<u8>,
}

impl View for NetFrame {
    type V = FrameView;

    closed spec fn view(&self) -> FrameView {
        FrameView {
            frame_type: self.frame_type,
            body_size: self.body_size,
            flags: self.flags,
            checksum: self.frame_checksum,
            body: self.frame_body@,
        }
    }
}


impl NetFrame {
    /// A frame of the given type with a zero-filled body of `body_size` bytes
    /// and its checksum pending; fails when the frame would not fit in one
    /// datagram.
    pub fn new(frame_type: u8, body_size: u16) -> (r: Result<Self, FTLTunnelError>)
        ensures
            FRAME_HEAD_LEN + body_size <= MAX_PACKET_SIZE <==> r is Ok,
            r matches Ok(f) ==> f@ == (FrameView {
                frame_type,
                body_size,
                flags: 0,
                checksum: CHECKSUM_PENDING,
                body: Seq::new(body_size as nat, |i: int| 0u8),
            }),
            r matches Ok(f) ==> f@.wf(),
            r is Err ==> r == Err::<Self, FTLTunnelError>(
                FTLTunnelError::ChunkSizeTooLarge {
                    allowed: MAX_PACKET_SIZE,
                    got: (FRAME_HEAD_LEN + body_size) as usize,
                },
            ),
    {
        let total: u32 = FRAME_HEAD_LEN as u32 + body_size as u32;
        if total > MAX_PACKET_SIZE as u32 {
            return Err(FTLTunnelError::ChunkSizeTooLarge { allowed: MAX_PACKET_SIZE, got: total as usize });
        }
        let frame_body: Vec<u8> = vec![0u8; body_size as usize];
        let frame = NetFrame { frame_type, body_size, flags: 0, frame_checksum: CHECKSUM_PENDING, frame_body };
        assert(frame@.body =~= Seq::new(body_size as nat, |i: int| 0u8));
        Ok(frame)
    }

    /// The frame's type.
    pub fn frame_type(&self) -> (r: u8)
        ensures
            r == self@.frame_type,
    {
        self.frame_type
    }

    /// The declared body size.
    pub fn body_size(&self) -> (r: u16)
        ensures
            r == self@.body_size,
    {
        self.body_size
    }

    /// The reserved flags field.
    pub fn flags(&self) -> (r: u16)
        ensures
            r == self@.flags,
    {
        self.flags
    }

    /// The checksum field: `CHECKSUM_PENDING` until the checksum is committed.
    pub fn frame_checksum(&self) -> (r: u32)
        ensures
            r == self@.checksum,
    {
        self.frame_checksum
    }

    /// The body.
    pub fn body(&self) -> (r: &[u8])
        ensures
            r@ == self@.body,
    {
        self.frame_body.as_slice()
    }

    /// Copies `frame_body` into the body. Shorter data is zero-padded at the
    /// tail, keeping the declared size; longer data is refused and the frame
    /// left as it was. A filled frame's checksum is pending again.
    pub fn fill_body(&mut self, frame_body: &[u8]) -> (r: Result<(), FTLTunnelError>)
        requires
            old(self)@.wf(),
        ensures
            final(self)@.wf(),
            frame_body@.len() <= old(self)@.body_size <==> r is Ok,
            r is Ok ==> final(self)@ == (FrameView {
                checksum: CHECKSUM_PENDING,
                body: frame_body@ + Seq::new(
                    (old(self)@.body_size - frame_body@.len()) as nat,
                    |i: int| 0u8,
                ),
                ..old(self)@
            }),
            r is Err ==> final(self)@ == old(self)@ && r == Err::<(), FTLTunnelError>(
                FTLTunnelError::ChunkSizeTooLarge {
                    allowed: old(self)@.body_size,
                    got: frame_body@.len() as usize,
                },
            ),
    {
        let n = frame_body.len();
        if n > self.body_size as usize {
            return Err(FTLTunnelError::ChunkSizeTooLarge { allowed: self.body_size, got: n });
        }
        let size = self.body_size as usize;
        let mut i: usize = 0;
        while i < size
            invariant
                n == frame_body@.len(),
                n <= size,
                size == self.body_size as usize,
                self.frame_body@.len() == size,
                self.body_size == old(self).body_size,
                self.frame_type == old(self).frame_type,
                self.flags == old(self).flags,
                self.frame_checksum == old(self).frame_checksum,
                i <= size,
                forall|j: int| 0 <= j < i ==> self.frame_body@[j] == (if j < n {
                    frame_body@[j]
                } else {
                    0u8
                }),
            decreases size - i,
        {
            let b: u8 = if i < n { frame_body[i] } else { 0u8 };
            self.frame_body.set(i, b);
            i = i + 1;
        }
        self.frame_checksum = CHECKSUM_PENDING;
        assert(self.frame_body@ =~= frame_body@ + Seq::new((size - n) as nat, |i: int| 0u8));
        Ok(())
    }

    /// The frame on the wire, with the checksum field as it stands.
    fn to_bytes(&self) -> (r: Vec<u8>)
        ensures
            r@ == self@.wire(),
    {
        let mut buf: Vec<u8> = Vec::new();
        buf.push(self.frame_type);
        buf.push((self.body_size >> 8u16) as u8);
        buf.push(self.body_size as u8);
        buf.push((self.flags >> 8u16) as u8);
        buf.push(self.flags as u8);
        buf.push((self.frame_checksum >> 24u32) as u8);
        buf.push((self.frame_checksum >> 16u32) as u8);
        buf.push((self.frame_checksum >> 8u32) as u8);
        buf.push(self.frame_checksum as u8);
        let ghost head = buf@;
        assert(head =~= self@.header_with(self.frame_checksum));
        let mut i: usize = 0;
        while i < self.frame_body.len()
            invariant
                i <= self.frame_body@.len(),
                buf@ == head + self.frame_body@.subrange(0, i as int),
            decreases self.frame_body@.len() - i,
        {
            buf.push(self.frame_body[i]);
            i = i + 1;
            assert(buf@ =~= head + self.frame_body@.subrange(0, i as int));
        }
        assert(self.frame_body@.subrange(0, i as int) =~= self.frame_body@);
        buf
    }

    /// Computes the CRC-32 of the frame with the checksum field set to
    /// `CHECKSUM_PENDING`, and stores it in the checksum field.
    pub fn checksum(&mut self) -> (r: Result<(), FTLTunnelError>)
        ensures
            r is Ok,
            final(self)@ == (FrameView { checksum: old(self)@.computed_checksum(), ..old(self)@ }),
    {
        self.frame_checksum = CHECKSUM_PENDING;
        let serialized = self.to_bytes();
        assert(serialized@ == old(self)@.pending_image());
        self.frame_checksum = crc32_ieee(serialized.as_slice());
        Ok(())
    }

    /// The frame on the wire, ready to send; commits the checksum first if it
    /// is still pending.
    pub fn encode(&mut self) -> (r: Result<Vec<u8>, FTLTunnelError>)
        ensures
            final(self)@ == (FrameView {
                checksum: if old(self)@.checksum == CHECKSUM_PENDING {
                    old(self)@.computed_checksum()
                } else {
                    old(self)@.checksum
                },
                ..old(self)@
            }),
            r matches Ok(bytes) && bytes@ == final(self)@.wire(),
    {
        if self.frame_checksum == CHECKSUM_PENDING {
            let _ = self.checksum();
        }
        Ok(self.to_bytes())
    }
}

impl NetFrame {
    /// Decodes one datagram: the header, then `body_size` body bytes, whose
    /// checksum must match. Bytes after the declared body are ignored.
    pub fn from_bytes(bytes: &[u8]) -> (r: Result<Self, FTLTunnelError>)
        ensures
            decode_spec(bytes@) is Ok <==> r is Ok,
            r matches Ok(f) ==> decode_spec(bytes@) == Ok::<FrameView, FTLTunnelError>(f@),
            r matches Ok(f) ==> f@.wf() && f@.committed(),
            r is Err ==> r == Err::<Self, FTLTunnelError>(decode_spec(bytes@)->Err_0),
    {
        let len = bytes.len();
        if len < FRAME_HEAD_LEN as usize {
            return Err(FTLTunnelError::InvalidPacket);
        }
        let frame_type = bytes[0];
        let body_size: u16 = ((bytes[1] as u16) << 8u16) | (bytes[2] as u16);
        let flags: u16 = ((bytes[3] as u16) << 8u16) | (bytes[4] as u16);
        let stored: u32 = ((bytes[5] as u32) << 24u32) | ((bytes[6] as u32) << 16u32) | ((
        bytes[7] as u32) << 8u32) | (bytes[8] as u32);
        if FRAME_HEAD_LEN as u32 + body_size as u32 > MAX_PACKET_SIZE as u32 {
            return Err(FTLTunnelError::InvalidPacket);
        }
        let end: usize = FRAME_HEAD_LEN as usize + body_size as usize;
        if len < end {
            return Err(FTLTunnelError::InvalidPacket);
        }
        let mut frame_body: Vec<u8> = Vec::new();
        let mut i: usize = FRAME_HEAD_LEN as usize;
        while i < end
            invariant
                FRAME_HEAD_LEN <= i <= end <= len,
                len == bytes@.len(),
                frame_body@ == bytes@.subrange(FRAME_HEAD_LEN as int, i as int),
            decreases end - i,
        {
            frame_body.push(bytes[i]);
            i = i + 1;
            assert(frame_body@ =~= bytes@.subrange(FRAME_HEAD_LEN as int, i as int));
        }
        let mut frame = NetFrame {
            frame_type,
            body_size,
            flags,
            frame_checksum: CHECKSUM_PENDING,
            frame_body,
        };
        let image = frame.to_bytes();
        let crc = crc32_ieee(image.as_slice());
        frame.frame_checksum = stored;
        assert(frame@ == frame_at(bytes@));
        if crc != stored {
            return Err(FTLTunnelError::InvalidChecksum);
        }
        Ok(frame)
    }
}

proof fn lemma_be16_round_trip(v: u16)
    ensures
        (((v >> 8u16) as u8 as u16) << 8u16) | (v as u8 as u16) == v,
{
    assert((((v >> 8u16) as u8 as u16) << 8u16) | (v as u8 as u16) == v) by (bit_vector);
}

pub(crate) proof fn lemma_be32_round_trip(v: u32)
    ensures
        (((v >> 24u32) as u8 as u32) << 24u32) | (((v >> 16u32) as u8 as u32) << 16u32) | (((v
            >> 8u32) as u8 as u32) << 8u32) | (v as u8 as u32) == v,
{
    assert((((v >> 24u32) as u8 as u32) << 24u32) | (((v >> 16u32) as u8 as u32) << 16u32) | (((v
        >> 8u32) as u8 as u32) << 8u32) | (v as u8 as u32) == v) by (bit_vector);
}

proof fn lemma_be32_injective(a: u8, b: u8, c: u8, d: u8, e: u8, f: u8, g: u8, h: u8)
    requires
        ((a as u32) << 24u32) | ((b as u32) << 16u32) | ((c as u32) << 8u32) | (d as u32) == ((
        e as u32) << 24u32) | ((f as u32) << 16u32) | ((g as u32) << 8u32) | (h as u32),
    ensures
        a == e && b == f && c == g && d == h,
{
    assert(a == e && b == f && c == g && d == h) by (bit_vector)
        requires
            ((a as u32) << 24u32) | ((b as u32) << 16u32) | ((c as u32) << 8u32) | (d as u32) == ((
            e as u32) << 24u32) | ((f as u32) << 16u32) | ((g as u32) << 8u32) | (h as u32),
    ;
}

/// The header fields of a frame read back from its own wire image.
proof fn lemma_frame_at_wire(v: FrameView)
    requires
        v.wf(),
    ensures
        frame_at(v.wire()) == v,
        v.wire().len() == FRAME_HEAD_LEN + v.body_size,
{
    let w = v.wire();
    lemma_be16_round_trip(v.body_size);
    lemma_be16_round_trip(v.flags);
    lemma_be32_round_trip(v.checksum);
    assert(be16_at(w, 1) == v.body_size);
    assert(be16_at(w, 3) == v.flags);
    assert(be32_at(w, 5) == v.checksum);
    assert(w.subrange(FRAME_HEAD_LEN as int, FRAME_HEAD_LEN + v.body_size) =~= v.body);
}

/// A well-formed frame whose checksum is committed decodes from its own wire
/// image to exactly itself.
pub proof fn lemma_decode_wire(v: FrameView)
    requires
        v.wf(),
        v.committed(),
    ensures
        decode_spec(v.wire()) == Ok::<FrameView, FTLTunnelError>(v),
{
    lemma_frame_at_wire(v);
}

/// The frame that `new(frame_type, body.len())`, then `fill_body(body)`,
/// then `encode()` produce.
pub open spec fn built_frame(frame_type: u8, body: Seq<u8>) -> FrameView {
    let pending = FrameView {
        frame_type,
        body_size: body.len() as u16,
        flags: 0,
        checksum: CHECKSUM_PENDING,
        body,
    };
    FrameView { checksum: pending.computed_checksum(), ..pending }
}

/// Round trip: for every frame type and every body that fits in a datagram,
/// a frame created with the body's length, filled with the body and encoded
/// decodes to the same frame type, body size and body.
pub proof fn lemma_round_trip(frame_type: u8, body: Seq<u8>)
    requires
        FRAME_HEAD_LEN + body.len() <= MAX_PACKET_SIZE,
    ensures
        body + Seq::new(0, |i: int| 0u8) == body,
        decode_spec(built_frame(frame_type, body).wire()) matches Ok(v) && v.frame_type
            == frame_type && v.body_size == body.len() && v.body == body,
{
    assert(body + Seq::new(0, |i: int| 0u8) =~= body);
    lemma_decode_wire(built_frame(frame_type, body));
}

/// A change confined to the checksum field of a valid frame is always
/// detected: decoding fails with `InvalidChecksum`. This covers every
/// single-bit flip inside the checksum field.
pub proof fn lemma_checksum_field_change_detected(v: FrameView, received: Seq<u8>)
    requires
        v.wf(),
        v.committed(),
        received.len() == v.wire().len(),
        forall|i: int|
            0 <= i < received.len() && !(5 <= i < FRAME_HEAD_LEN) ==> received[i] == v.wire()[i],
        exists|i: int| 5 <= i < FRAME_HEAD_LEN && received[i] != v.wire()[i],
    ensures
        decode_spec(received) == Err::<FrameView, FTLTunnelError>(FTLTunnelError::InvalidChecksum),
{
    let w = v.wire();
    lemma_frame_at_wire(v);
    assert(received[1] == w[1] && received[2] == w[2]);
    assert(received[0] == w[0] && received[3] == w[3] && received[4] == w[4]);
    let got = frame_at(received);
    assert(got.body =~= v.body);
    assert(got.pending_image() =~= v.pending_image());
    if got.checksum == v.checksum {
        lemma_be32_injective(received[5], received[6], received[7], received[8], w[5], w[6], w[7], w[8]);
        assert(false);
    }
}

/// The wire image of a frame of `frame_type` whose body is exactly `body`,
/// with its checksum committed; fails when it would not fit in one datagram.
pub fn frame_bytes(frame_type: u8, body: &[u8]) -> (r: Result<Vec<u8>, FTLTunnelError>)
    ensures
        FRAME_HEAD_LEN + body@.len() <= MAX_PACKET_SIZE <==> r is Ok,
        r matches Ok(bytes) ==> bytes@ == built_frame(frame_type, body@).wire(),
        r matches Ok(bytes) ==> decode_spec(bytes@) == Ok::<FrameView, FTLTunnelError>(
            built_frame(frame_type, body@),
        ),
        r is Err ==> r == Err::<Vec<u8>, FTLTunnelError>(
            FTLTunnelError::ChunkSizeTooLarge {
                allowed: MAX_PACKET_SIZE,
                got: if body@.len() + FRAME_HEAD_LEN <= usize::MAX {
                    (body@.len() + FRAME_HEAD_LEN) as usize
                } else {
                    usize::MAX
                },
            },
        ),
{
    let n = body.len();
    if n > (MAX_PACKET_SIZE - FRAME_HEAD_LEN) as usize {
        let got: usize = if n <= usize::MAX - FRAME_HEAD_LEN as usize {
            n + FRAME_HEAD_LEN as usize
        } else {
            usize::MAX
        };
        return Err(FTLTunnelError::ChunkSizeTooLarge { allowed: MAX_PACKET_SIZE, got });
    }
    let mut frame = match NetFrame::new(frame_type, n as u16) {
        Ok(f) => f,
        Err(e) => return Err(e),
    };
    let _ = frame.fill_body(body);
    proof {
        lemma_round_trip(frame_type, body@);
    }
    let r = frame.encode();
    proof {
        lemma_decode_wire(built_frame(frame_type, body@));
    }
    r
}

} // verus!
