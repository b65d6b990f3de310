//! The handshake messages and their byte-exact framing.

pub mod prolog;
pub mod srd_accept;
pub mod srd_confirm;
pub mod srd_delegate;
pub mod srd_initiate;
pub mod srd_offer;
pub mod srd_result;
