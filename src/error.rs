use vstd::prelude::*;

verus! {

/// The kinds of failure that end a handshake.
#[derive(Debug, Clone, Copy, PartialEq, Eq, Structural)]
pub enum SrdError {
    Malformed,
    BadSignature,
    Desync,
    MacFailure,
    NoCipher,
    CbtRequired,
    CbtMismatch,
    CryptoFailure,
    InvalidKeySize,
    InvalidState,
    Io,
}

/// Status code carried by a RESULT message for each failure kind.
pub open spec fn spec_status_code(e: SrdError) -> u32 {
    match e {
        SrdError::MacFailure => 1,
        SrdError::Desync | SrdError::InvalidState => 2,
        SrdError::NoCipher => 3,
        SrdError::CbtMismatch | SrdError::CbtRequired => 4,
        SrdError::Malformed | SrdError::BadSignature | SrdError::InvalidKeySize => 5,
        SrdError::CryptoFailure | SrdError::Io => 6,
    }
}

impl SrdError {
    /// The RESULT status that reports this failure to the peer.
    pub fn status_code(&self) -> (r: u32)
        ensures
            r == spec_status_code(*self),
    {
        match self {
            SrdError::MacFailure => 1,
            SrdError::Desync | SrdError::InvalidState => 2,
            SrdError::NoCipher => 3,
            SrdError::CbtMismatch | SrdError::CbtRequired => 4,
            SrdError::Malformed | SrdError::BadSignature | SrdError::InvalidKeySize => 5,
            SrdError::CryptoFailure | SrdError::Io => 6,
        }
    }
}

} // verus!
