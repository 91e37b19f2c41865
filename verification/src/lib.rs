//! Cryptographic session core of a point-to-point encrypted tunnel.
//!
//! The crate owns the Noise-IK handshake state machine, the per-peer
//! session-key lifecycle, the receiver-index allocator, the anti-replay
//! window and the timer-driven rekey / keepalive decisions.  Socket and
//! tunnel I/O stay outside; the library consumes untrusted datagrams and
//! plain payloads and returns the datagrams and actions that follow.

pub mod types;
pub mod bytes;
pub mod crypto;
pub mod noise;
pub mod replay;
pub mod device;
pub mod session;
pub mod peer;
pub mod tunnel;
