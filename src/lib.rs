//! A point-to-point file-transfer tunnel over datagrams: the wire frame codec,
//! the session state machine that negotiates a transfer, and the windowed,
//! loss-tolerant chunk transfer engine.
use vstd::prelude::*;

pub mod net;
pub mod transaction;
pub mod transfer;
pub mod cipher;

verus! {

/// The largest datagram, header included, that the protocol ever puts on the wire.
pub const MAX_PACKET_SIZE: u16 = 16384;

/// Every error that a tunnel operation can report.
#[derive(Debug, Clone, Copy, PartialEq, Eq)]
pub enum FTLTunnelError {
    /// A filesystem or socket operation failed.
    IOError,
    /// A structured message could not be serialised or deserialised.
    SerError,
    /// The listening socket could not be bound.
    BindFail,
    /// A datagram is too short or declares an impossible body size.
    InvalidPacket,
    /// A datagram's checksum does not match its contents.
    InvalidChecksum,
    /// A body or chunk is larger than what it must fit in.
    ChunkSizeTooLarge { allowed: u16, got: usize },
    /// A handshake lacks a field, or proposes parameters that cannot be met.
    MissingData,
    /// A body failed authenticated decryption (tampering or a wrong key).
    AuthenticationFailed,
    /// The operation is not allowed in the transaction's current state.
    InvalidState,
}

/// Why a transaction failed terminally.
#[derive(Debug, Clone, Copy, PartialEq, Eq)]
pub enum FailType {
    FailedToRingPeer,
    FailedToBindPort,
    FailedToPreallocate,
    LossTooHigh,
    NetworkError,
    /// The peer's handshake was malformed or asked for what cannot be met.
    NegotiationFailed,
}

/// Where a transaction stands. `Done` and `Failed` are terminal.
#[derive(Debug, Clone, Copy, PartialEq, Eq)]
pub enum TransactionStatus {
    Uninitiated,
    Handshake,
    Connected,
    Sending,
    Receiving,
    Done,
    Failed { fail_type: FailType },
}

impl TransactionStatus {
    /// No further transition leaves this state.
    pub open spec fn is_terminal(self) -> bool {
        self is Done || self is Failed
    }
}

} // verus!
