//! Shared constants, error kinds and the key material handed out by a
//! completed handshake.

use vstd::prelude::*;

verus! {

/// Seconds after which an unanswered initiation may be retransmitted.
pub const REKEY_TIMEOUT: u64 = 5;

/// Session age, in seconds, at which the initiator begins a new handshake.
pub const REKEY_AFTER_TIME: u64 = 120;

/// Session age, in seconds, at which a session is destroyed.
pub const REJECT_AFTER_TIME: u64 = 180;

/// Total time, in seconds, during which initiation retransmits continue.
pub const REKEY_ATTEMPT_TIME: u64 = 90;

/// Idle time, in seconds, after which a passive keepalive is sent.
pub const KEEPALIVE_TIMEOUT: u64 = 10;

/// Messages a single session may send before it must be replaced (2^60).
pub const REJECT_AFTER_MESSAGES: u64 = 0x1000000000000000;

/// Width of the sliding anti-replay window, in counters.
pub const REPLAY_WINDOW: u64 = 8192;

/// Largest inner packet the transport path accepts.
pub const MAX_CONTENT_SIZE: usize = 65535 - 80;

/// Outbound inner packets queued per peer before the oldest is dropped.
pub const MAX_QUEUED_PACKETS: usize = 1024;

/// Retries the receiver-index allocator makes before giving up.
pub const MAX_ALLOC_RETRIES: usize = 64;

/// Why a handshake datagram was rejected.  Every variant is non-fatal: the
/// offending datagram is dropped and no peer state is mutated.
#[derive(Clone, Copy, PartialEq, Eq, Structural, Debug)]
pub enum HandshakeError {
    UnknownPublicKey,
    UnknownReceiverId,
    InvalidMessageFormat,
    InvalidMac1,
    InvalidMac2,
    Decryption,
    InvalidTimestamp,
    IndexExhaustion,
}

/// Why a configuration call was refused.
#[derive(Clone, Copy, PartialEq, Eq, Structural, Debug)]
pub enum ConfigError {
    DuplicatePublicKey,
    SelfPublicKey,
    UnknownPublicKey,
}

/// Why a transport datagram was dropped.
#[derive(Clone, Copy, PartialEq, Eq, Structural, Debug)]
pub enum TransportError {
    UnknownReceiverId,
    Replay,
    Decryption,
    ExpiredSession,
    Oversize,
    InvalidMessageFormat,
}

/// One direction of a transport key pair: the symmetric key together with
/// a receiver index.  In `send` the index is the one this side allocated
/// (inbound datagrams carry it); in `recv` it is the one the remote end
/// allocated (outbound datagrams carry it).
#[derive(Clone, Copy, PartialEq, Eq, Debug)]
pub struct Key {
    pub key: [u8; 32],
    pub id: u32,
}

/// The symmetric keys a completed handshake yields.  `send.id` is the id
/// this side chose; `recv.id` is the id the remote end chose.
#[derive(Clone, Copy, PartialEq, Eq, Debug)]
pub struct KeyPair {
    /// True once the pair is known good: set for the initiator when the
    /// response is consumed, and for the responder on first inbound packet.
    pub confirmed: bool,
    pub send: Key,
    pub recv: Key,
}

/// What processing one handshake datagram produced: the identifier of the
/// peer concerned, the datagram to send back (if any), and the negotiated
/// key pair (if the message completed a handshake).
pub type Output<T> = (T, Option<Vec<u8>>, Option<KeyPair>);

} // verus!
