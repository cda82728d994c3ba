use vstd::prelude::*;

verus! {

/// Why an operation of this library did not produce a result.
#[derive(Clone, Copy, Debug, PartialEq, Eq, Structural)]
pub enum BoxError {
    /// A key, nonce, tag, seed or ciphertext did not have the size that the
    /// operation fixes for it. Nothing was computed.
    InvalidLength,
    /// The authentication tag did not verify. No plaintext is released.
    AuthenticationFailed,
    /// The underlying primitive library could not be set up.
    InitializationFailed,
}

impl BoxError {
    /// A short description that holds no key material.
    pub fn message(&self) -> (s: &'static str)
        ensures
            s@ == (match *self {
                BoxError::InvalidLength => "invalid length"@,
                BoxError::AuthenticationFailed => "authentication failed"@,
                BoxError::InitializationFailed => "initialization failed"@,
            }),
    {
        match self {
            BoxError::InvalidLength => "invalid length",
            BoxError::AuthenticationFailed => "authentication failed",
            BoxError::InitializationFailed => "initialization failed",
        }
    }
}

/// The bytes of a result that holds a buffer.
pub open spec fn outcome(r: Result<Vec<u8>, BoxError>) -> Result<Seq<u8>, BoxError> {
    match r {
        Ok(v) => Ok(v@),
        Err(e) => Err(e),
    }
}

/// What an open operation answers once the tag has been checked: the
/// plaintext where the check released one, and `AuthenticationFailed` where
/// it released nothing.
pub open spec fn released_spec(opened: Option<Seq<u8>>) -> Result<Seq<u8>, BoxError> {
    match opened {
        Some(m) => Ok(m),
        None => Err(BoxError::AuthenticationFailed),
    }
}

/// Turns what the tag check released into the caller's answer. The buffer is
/// handed on untouched, and no buffer is made up where none was released.
pub fn released(opened: Option<Vec<u8>>) -> (r: Result<Vec<u8>, BoxError>)
    ensures
        match opened {
            Some(m) => r == Ok::<Vec<u8>, BoxError>(m),
            None => r == Err::<Vec<u8>, BoxError>(BoxError::AuthenticationFailed),
        },
        outcome(r) == released_spec(
            match opened {
                Some(m) => Some(m@),
                None => None,
            },
        ),
{
    match opened {
        Some(m) => Ok(m),
        None => Err(BoxError::AuthenticationFailed),
    }
}

} // verus!
