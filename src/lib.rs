//! Secure Remote Delegation: wire framing, transcript MACs, key schedule,
//! credential blobs, the symmetric ciphers that protect them, and the
//! initiator and responder sides of the handshake.

pub mod error;
pub mod wire;
pub mod primitives;
pub mod mac;
pub mod cipher;
pub mod message_types;
pub mod blob;
pub mod key_schedule;
pub mod legacy;
pub mod policy;
pub mod initiator;
pub mod responder;
pub mod exchange;
