//! Messages of the older NOW-auth variant of the protocol, with 16-bit packet types
//! and key sizes counted in bytes.

pub mod now_auth_srd_challenge;
