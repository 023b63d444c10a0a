//! The session state machine: key derivation, the handshake that agrees on
//! transfer parameters, and the lifecycle
//! `Uninitiated -> Handshake -> Connected -> Sending | Receiving -> Done`,
//! where any live state may fall to `Failed`.
//!
//! The machine performs no I/O: its caller sends what it returns and hands
//! back what arrives.
use vstd::prelude::*;

use crate::cipher::{aead_open, aead_open_of, aead_seal, SEAL_OVERHEAD};
use crate::net::{built_frame, decode_spec, frame_bytes, NetFrame, FRAME_HEAD_LEN};
use crate::{FTLTunnelError, FailType, TransactionStatus, MAX_PACKET_SIZE};

verus! {

/// `transaction_type` of a handshake that offers a file.
pub const OFFER_SEND: u8 = 0;

/// `transaction_type` of a handshake that accepts an offer.
pub const ACCEPT_RECEIVE: u8 = 1;

/// How many times the handshake offer is sent without an answer before the
/// peer is given up.
pub const MAX_RING_ATTEMPTS: u32 = 5;

/// The BLAKE3 digest of a byte sequence.
pub uninterp spec fn blake3_of(input: Seq<u8>) -> Seq<u8>;

/// Relies on `blake3::hash`: a 32-byte digest (`blake3::OUT_LEN`) that
/// depends on the input alone.
#[verifier::external_body]
fn blake3_digest(input: &[u8]) -> (r: Vec<u8>)
    ensures
        r@ == blake3_of(input@),
        r@.len() == 32,
{
    blake3::hash(input).as_bytes().to_vec()
}

/// The negotiation payload exchanged once per transaction.
#[derive(Debug, PartialEq, Eq)]
pub struct HandshakeMessage {
    /// `OFFER_SEND` or `ACCEPT_RECEIVE`.
    pub transaction_type: u8,
    /// The file's name, as raw bytes.
    pub transaction_filename: Vec<u8>,
    pub transaction_filesize: u64,
    pub chunk_size: u16,
    /// Tolerated loss, in percent.
    pub loss_max: u8,
}

/// The parameters that a receiver settles on: it may lower the offered chunk
/// size and loss tolerance to its own, never raise them.
pub fn negotiate(offered_chunk: u16, offered_loss: u8, local_chunk: u16, local_loss: u8) -> (r: (
    u16,
    u8,
))
    ensures
        r.0 <= offered_chunk && r.1 <= offered_loss,
        r.0 <= local_chunk && r.1 <= local_loss,
        r.0 == offered_chunk || r.0 == local_chunk,
        r.1 == offered_loss || r.1 == local_loss,
{
    let chunk = if local_chunk < offered_chunk {
        local_chunk
    } else {
        offered_chunk
    };
    let loss = if local_loss < offered_loss {
        local_loss
    } else {
        offered_loss
    };
    (chunk, loss)
}

/// What a transaction holds.
pub struct TransactionView {
    pub target: Option<Seq<u8>>,
    pub target_size: Option<u64>,
    pub chunk_size: u16,
    pub pre_buffer_size: u32,
    pub sender: bool,
    pub loss_threshold: u8,
    pub secret: Seq<u8>,
    pub status: TransactionStatus,
    pub ring_attempts: u32,
}

/// One file transfer's session, from the handshake to its terminal state.
pub struct Transaction {
    target: Option<Vec<u8>>,
    target_size: Option<u64>,
    chunk_size: u16,
    pre_buffer_size: u32,
    sender: bool,
    loss_threshold: u8,
    transaction_secret: Vec<u8>,
    transaction_status: TransactionStatus,
    ring_attempts: u32,
}

impl View for Transaction {
    type V = TransactionView;

    closed spec fn view(&self) -> TransactionView {
        TransactionView {
            target: match self.target {
                Some(t) => Some(t@),
                None => None,
            },
            target_size: self.target_size,
            chunk_size: self.chunk_size,
            pre_buffer_size: self.pre_buffer_size,
            sender: self.sender,
            loss_threshold: self.loss_threshold,
            secret: self.transaction_secret@,
            status: self.transaction_status,
            ring_attempts: self.ring_attempts,
        }
    }
}

impl Transaction {
    /// A fresh transaction. The raw secret is hashed at once; only its digest
    /// is kept.
    pub fn new(chunk_size: u16, buffer_ctn: u32, loss_threshold: u8, transaction_secret: &[u8]) -> (r:
        Result<Self, FTLTunnelError>)
        ensures
            r matches Ok(t) && t@ == (TransactionView {
                target: None,
                target_size: None,
                chunk_size,
                pre_buffer_size: buffer_ctn,
                sender: false,
                loss_threshold,
                secret: blake3_of(transaction_secret@),
                status: TransactionStatus::Uninitiated,
                ring_attempts: 0,
            }),
            r matches Ok(t) ==> t@.secret.len() == 32,
    {
        let key = blake3_digest(transaction_secret);
        Ok(
            Transaction {
                target: None,
                target_size: None,
                chunk_size,
                pre_buffer_size: buffer_ctn,
                sender: false,
                loss_threshold,
                transaction_secret: key,
                transaction_status: TransactionStatus::Uninitiated,
                ring_attempts: 0,
            },
        )
    }

    /// The current state.
    pub fn status(&self) -> (r: TransactionStatus)
        ensures
            r == self@.status,
    {
        self.transaction_status
    }

    /// The chunk size, as negotiated once the transaction is connected.
    pub fn chunk_size(&self) -> (r: u16)
        ensures
            r == self@.chunk_size,
    {
        self.chunk_size
    }

    /// The send window, in chunks.
    pub fn pre_buffer_size(&self) -> (r: u32)
        ensures
            r == self@.pre_buffer_size,
    {
        self.pre_buffer_size
    }

    /// The tolerated loss in percent, as negotiated once connected.
    pub fn loss_threshold(&self) -> (r: u8)
        ensures
            r == self@.loss_threshold,
    {
        self.loss_threshold
    }

    /// The derived key.
    pub fn transaction_secret(&self) -> (r: &[u8])
        ensures
            r@ == self@.secret,
    {
        self.transaction_secret.as_slice()
    }

    /// The size of the file, once the handshake has fixed it.
    pub fn target_size(&self) -> (r: Option<u64>)
        ensures
            r == self@.target_size,
    {
        self.target_size
    }

    /// Whether this side sends the file.
    pub fn is_sender(&self) -> (r: bool)
        ensures
            r == self@.sender,
    {
        self.sender
    }

    /// Starts the sending side: records the file and returns the handshake
    /// offer to transmit. Allowed only before anything else happened.
    pub fn offer_send(&mut self, target: &[u8], target_size: u64) -> (r: Result<
        HandshakeMessage,
        FTLTunnelError,
    >)
        ensures
            old(self)@.status is Uninitiated <==> r is Ok,
            r is Err ==> final(self)@ == old(self)@ && r == Err::<HandshakeMessage, FTLTunnelError>(
                FTLTunnelError::InvalidState,
            ),
            r matches Ok(m) ==> final(self)@ == (TransactionView {
                target: Some(target@),
                target_size: Some(target_size),
                sender: true,
                status: TransactionStatus::Handshake,
                ring_attempts: 1,
                ..old(self)@
            }),
            r matches Ok(m) ==> m.transaction_type == OFFER_SEND && m.transaction_filename@
                == target@ && m.transaction_filesize == target_size && m.chunk_size
                == old(self)@.chunk_size && m.loss_max == old(self)@.loss_threshold,
    {
        if !matches!(self.transaction_status, TransactionStatus::Uninitiated) {
            return Err(FTLTunnelError::InvalidState);
        }
        let name = copy_bytes(target);
        self.target = Some(copy_bytes(target));
        self.target_size = Some(target_size);
        self.sender = true;
        self.transaction_status = TransactionStatus::Handshake;
        self.ring_attempts = 1;
        Ok(
            HandshakeMessage {
                transaction_type: OFFER_SEND,
                transaction_filename: name,
                transaction_filesize: target_size,
                chunk_size: self.chunk_size,
                loss_max: self.loss_threshold,
            },
        )
    }

    /// The read timeout elapsed with no answer to the offer. Returns whether
    /// the offer is to be sent again; after `MAX_RING_ATTEMPTS` sends the
    /// transaction fails with `FailedToRingPeer`. Outside the handshake
    /// nothing changes.
    pub fn ring_timeout(&mut self) -> (r: bool)
        ensures
            !(old(self)@.status is Handshake) ==> !r && final(self)@ == old(self)@,
            old(self)@.status is Handshake && old(self)@.ring_attempts < MAX_RING_ATTEMPTS ==> r
                && final(self)@ == (TransactionView {
                ring_attempts: (old(self)@.ring_attempts + 1) as u32,
                ..old(self)@
            }),
            old(self)@.status is Handshake && old(self)@.ring_attempts >= MAX_RING_ATTEMPTS ==> !r
                && final(self)@ == (TransactionView {
                status: TransactionStatus::Failed { fail_type: FailType::FailedToRingPeer },
                ..old(self)@
            }),
    {
        if !matches!(self.transaction_status, TransactionStatus::Handshake) {
            return false;
        }
        if self.ring_attempts < MAX_RING_ATTEMPTS {
            self.ring_attempts = self.ring_attempts + 1;
            true
        } else {
            self.transaction_status = TransactionStatus::Failed {
                fail_type: FailType::FailedToRingPeer,
            };
            false
        }
    }

    /// The sending side takes the peer's answer. An acceptance of this very
    /// file whose chunk size is positive and whose parameters do not exceed
    /// the offer connects the transaction with the answered parameters; any
    /// other answer fails it with `NegotiationFailed` and `MissingData`.
    pub fn accept_response(&mut self, response: &HandshakeMessage) -> (r: Result<
        (),
        FTLTunnelError,
    >)
        ensures
            !(old(self)@.status is Handshake) ==> final(self)@ == old(self)@ && r == Err::<
                (),
                FTLTunnelError,
            >(FTLTunnelError::InvalidState),
            old(self)@.status is Handshake ==> {
                let acceptable = response.transaction_type == ACCEPT_RECEIVE
                    && old(self)@.target == Some(response.transaction_filename@)
                    && old(self)@.target_size == Some(response.transaction_filesize)
                    && 0 < response.chunk_size <= old(self)@.chunk_size
                    && response.loss_max <= old(self)@.loss_threshold;
                &&& acceptable <==> r is Ok
                &&& acceptable ==> final(self)@ == (TransactionView {
                    chunk_size: response.chunk_size,
                    loss_threshold: response.loss_max,
                    status: TransactionStatus::Connected,
                    ..old(self)@
                })
                &&& !acceptable ==> r == Err::<(), FTLTunnelError>(FTLTunnelError::MissingData)
                    && final(self)@ == (TransactionView {
                    status: TransactionStatus::Failed { fail_type: FailType::NegotiationFailed },
                    ..old(self)@
                })
            },
    {
        if !matches!(self.transaction_status, TransactionStatus::Handshake) {
            return Err(FTLTunnelError::InvalidState);
        }
        let same_name = match &self.target {
            Some(t) => bytes_equal(t.as_slice(), response.transaction_filename.as_slice()),
            None => false,
        };
        let same_size = match self.target_size {
            Some(n) => n == response.transaction_filesize,
            None => false,
        };
        if response.transaction_type == ACCEPT_RECEIVE && same_name && same_size && 0
            < response.chunk_size && response.chunk_size <= self.chunk_size && response.loss_max
            <= self.loss_threshold {
            self.chunk_size = response.chunk_size;
            self.loss_threshold = response.loss_max;
            self.transaction_status = TransactionStatus::Connected;
            Ok(())
        } else {
            self.transaction_status = TransactionStatus::Failed {
                fail_type: FailType::NegotiationFailed,
            };
            Err(FTLTunnelError::MissingData)
        }
    }

    /// The receiving side answers an offer: it settles on the smaller chunk
    /// size and loss tolerance of the two sides, records the file, connects,
    /// and returns the acceptance to transmit. An offer that is not one, or
    /// that leaves a zero chunk size, fails the transaction.
    pub fn answer_offer(&mut self, offer: &HandshakeMessage) -> (r: Result<
        HandshakeMessage,
        FTLTunnelError,
    >)
        ensures
            !(old(self)@.status is Uninitiated) ==> final(self)@ == old(self)@ && r == Err::<
                HandshakeMessage,
                FTLTunnelError,
            >(FTLTunnelError::InvalidState),
            old(self)@.status is Uninitiated ==> {
                let chunk = if old(self)@.chunk_size < offer.chunk_size {
                    old(self)@.chunk_size
                } else {
                    offer.chunk_size
                };
                let loss = if old(self)@.loss_threshold < offer.loss_max {
                    old(self)@.loss_threshold
                } else {
                    offer.loss_max
                };
                let acceptable = offer.transaction_type == OFFER_SEND && chunk > 0;
                &&& acceptable <==> r is Ok
                &&& r matches Ok(m) ==> m == (HandshakeMessage {
                    transaction_type: ACCEPT_RECEIVE,
                    transaction_filename: m.transaction_filename,
                    transaction_filesize: offer.transaction_filesize,
                    chunk_size: chunk,
                    loss_max: loss,
                }) && m.transaction_filename@ == offer.transaction_filename@
                    && final(self)@ == (TransactionView {
                    target: Some(offer.transaction_filename@),
                    target_size: Some(offer.transaction_filesize),
                    chunk_size: chunk,
                    loss_threshold: loss,
                    sender: false,
                    status: TransactionStatus::Connected,
                    ..old(self)@
                })
                &&& !acceptable ==> r == Err::<HandshakeMessage, FTLTunnelError>(
                    FTLTunnelError::MissingData,
                ) && final(self)@ == (TransactionView {
                    status: TransactionStatus::Failed { fail_type: FailType::NegotiationFailed },
                    ..old(self)@
                })
            },
    {
        if !matches!(self.transaction_status, TransactionStatus::Uninitiated) {
            return Err(FTLTunnelError::InvalidState);
        }
        let (chunk, loss) = negotiate(
            offer.chunk_size,
            offer.loss_max,
            self.chunk_size,
            self.loss_threshold,
        );
        if offer.transaction_type != OFFER_SEND || chunk == 0 {
            self.transaction_status = TransactionStatus::Failed {
                fail_type: FailType::NegotiationFailed,
            };
            return Err(FTLTunnelError::MissingData);
        }
        let name = copy_bytes(offer.transaction_filename.as_slice());
        self.target = Some(copy_bytes(offer.transaction_filename.as_slice()));
        self.target_size = Some(offer.transaction_filesize);
        self.chunk_size = chunk;
        self.loss_threshold = loss;
        self.sender = false;
        self.transaction_status = TransactionStatus::Connected;
        Ok(
            HandshakeMessage {
                transaction_type: ACCEPT_RECEIVE,
                transaction_filename: name,
                transaction_filesize: offer.transaction_filesize,
                chunk_size: chunk,
                loss_max: loss,
            },
        )
    }

    /// Moves a connected transaction into its bulk phase: `Sending` on the
    /// sending side, `Receiving` on the other.
    pub fn begin_transfer(&mut self) -> (r: Result<(), FTLTunnelError>)
        ensures
            old(self)@.status is Connected <==> r is Ok,
            r is Err ==> final(self)@ == old(self)@ && r == Err::<(), FTLTunnelError>(
                FTLTunnelError::InvalidState,
            ),
            r is Ok ==> final(self)@ == (TransactionView {
                status: if old(self)@.sender {
                    TransactionStatus::Sending
                } else {
                    TransactionStatus::Receiving
                },
                ..old(self)@
            }),
    {
        if !matches!(self.transaction_status, TransactionStatus::Connected) {
            return Err(FTLTunnelError::InvalidState);
        }
        self.transaction_status = if self.sender {
            TransactionStatus::Sending
        } else {
            TransactionStatus::Receiving
        };
        Ok(())
    }

    /// Every chunk has been accounted for: the bulk phase ends in `Done`.
    pub fn complete(&mut self) -> (r: Result<(), FTLTunnelError>)
        ensures
            old(self)@.status is Sending || old(self)@.status is Receiving <==> r is Ok,
            r is Err ==> final(self)@ == old(self)@ && r == Err::<(), FTLTunnelError>(
                FTLTunnelError::InvalidState,
            ),
            r is Ok ==> final(self)@ == (TransactionView {
                status: TransactionStatus::Done,
                ..old(self)@
            }),
    {
        match self.transaction_status {
            TransactionStatus::Sending | TransactionStatus::Receiving => {
                self.transaction_status = TransactionStatus::Done;
                Ok(())
            },
            _ => Err(FTLTunnelError::InvalidState),
        }
    }

    /// A fatal event: a live transaction fails with `fail_type`; a terminal
    /// one stays as it is.
    pub fn fail(&mut self, fail_type: FailType)
        ensures
            old(self)@.status.is_terminal() ==> final(self)@ == old(self)@,
            !old(self)@.status.is_terminal() ==> final(self)@ == (TransactionView {
                status: TransactionStatus::Failed { fail_type },
                ..old(self)@
            }),
    {
        match self.transaction_status {
            TransactionStatus::Done | TransactionStatus::Failed { .. } => {},
            _ => {
                self.transaction_status = TransactionStatus::Failed { fail_type };
            },
        }
    }
}

impl Transaction {
    /// A datagram of `frame_type` whose body is `plaintext` sealed under the
    /// derived key. Fails with `ChunkSizeTooLarge` when the sealed frame
    /// would not fit in one datagram, and with `SerError` when the plaintext
    /// is empty or sealing fails.
    pub fn seal_frame(&self, frame_type: u8, plaintext: &[u8]) -> (r: Result<Vec<u8>, FTLTunnelError>)
        ensures
            plaintext@.len() + SEAL_OVERHEAD + FRAME_HEAD_LEN > MAX_PACKET_SIZE ==> r == Err::<
                Vec<u8>,
                FTLTunnelError,
            >(
                FTLTunnelError::ChunkSizeTooLarge {
                    allowed: MAX_PACKET_SIZE,
                    got: if plaintext@.len() + SEAL_OVERHEAD + FRAME_HEAD_LEN <= usize::MAX {
                        (plaintext@.len() + SEAL_OVERHEAD + FRAME_HEAD_LEN) as usize
                    } else {
                        usize::MAX
                    },
                },
            ),
            plaintext@.len() == 0 ==> r == Err::<Vec<u8>, FTLTunnelError>(FTLTunnelError::SerError),
            r is Err ==> plaintext@.len() + SEAL_OVERHEAD + FRAME_HEAD_LEN > MAX_PACKET_SIZE || r
                == Err::<Vec<u8>, FTLTunnelError>(FTLTunnelError::SerError),
            r matches Ok(bytes) ==> exists|sealed: Seq<u8>|
                sealed.len() == plaintext@.len() + SEAL_OVERHEAD && bytes@ == #[trigger] built_frame(
                    frame_type,
                    sealed,
                ).wire(),
    {
        let n = plaintext.len();
        let limit: usize = (MAX_PACKET_SIZE - FRAME_HEAD_LEN) as usize - SEAL_OVERHEAD;
        if n > limit {
            let extra: usize = SEAL_OVERHEAD + FRAME_HEAD_LEN as usize;
            let got: usize = if n <= usize::MAX - extra {
                n + extra
            } else {
                usize::MAX
            };
            return Err(FTLTunnelError::ChunkSizeTooLarge { allowed: MAX_PACKET_SIZE, got });
        }
        let sealed = match aead_seal(self.transaction_secret.as_slice(), plaintext) {
            Some(c) => c,
            None => return Err(FTLTunnelError::SerError),
        };
        let r = frame_bytes(frame_type, sealed.as_slice());
        match r {
            Ok(bytes) => {
                assert(bytes@ == built_frame(frame_type, sealed@).wire());
                Ok(bytes)
            },
            Err(_) => Err(FTLTunnelError::SerError),
        }
    }

    /// Decodes a datagram and opens its body under the derived key: returns
    /// the frame type and the plaintext. Decoding errors come as they are;
    /// a body that fails authentication gives `AuthenticationFailed`.
    pub fn open_frame(&self, datagram: &[u8]) -> (r: Result<(u8, Vec<u8>), FTLTunnelError>)
        ensures
            decode_spec(datagram@) is Err ==> r == Err::<(u8, Vec<u8>), FTLTunnelError>(
                decode_spec(datagram@)->Err_0,
            ),
            decode_spec(datagram@) matches Ok(v) ==> {
                &&& v.body.len() <= SEAL_OVERHEAD ==> r is Err
                &&& r is Err ==> r == Err::<(u8, Vec<u8>), FTLTunnelError>(
                    FTLTunnelError::AuthenticationFailed,
                )
                &&& r is Ok <==> aead_open_of(self@.secret, v.body) is Some
                &&& r matches Ok((t, p)) ==> t == v.frame_type && p@.len() == v.body.len()
                    - SEAL_OVERHEAD && aead_open_of(self@.secret, v.body) == Some(p@)
            },
    {
        let frame = match NetFrame::from_bytes(datagram) {
            Ok(f) => f,
            Err(e) => return Err(e),
        };
        match aead_open(self.transaction_secret.as_slice(), frame.body()) {
            Some(p) => Ok((frame.frame_type(), p)),
            None => Err(FTLTunnelError::AuthenticationFailed),
        }
    }
}

/// A copy of the bytes.
fn copy_bytes(a: &[u8]) -> (r: Vec<u8>)
    ensures
        r@ == a@,
{
    let mut r: Vec<u8> = Vec::new();
    let mut i: usize = 0;
    while i < a.len()
        invariant
            i <= a@.len(),
            r@ == a@.subrange(0, i as int),
        decreases a@.len() - i,
    {
        r.push(a[i]);
        i = i + 1;
        assert(r@ =~= a@.subrange(0, i as int));
    }
    assert(a@.subrange(0, i as int) =~= a@);
    r
}

/// Whether two byte slices are equal.
fn bytes_equal(a: &[u8], b: &[u8]) -> (r: bool)
    ensures
        r == (a@ == b@),
{
    if a.len() != b.len() {
        return false;
    }
    let mut i: usize = 0;
    while i < a.len()
        invariant
            a@.len() == b@.len(),
            i <= a@.len(),
            forall|j: int| 0 <= j < i ==> a@[j] == b@[j],
        decreases a@.len() - i,
    {
        if a[i] != b[i] {
            return false;
        }
        i = i + 1;
    }
    assert(a@ =~= b@);
    true
}

} // verus!
