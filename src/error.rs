//! Error kinds shared by the codec, the handshake and the session.
use vstd::prelude::*;

verus! {

/// `std::io::Error`, carried opaque in `BtProxyError::Io`.
#[verifier::external_type_specification]
#[verifier::external_body]
pub struct ExIoError(std::io::Error);

/// What went wrong, by kind, with a human-readable detail.
#[derive(Debug)]
pub enum BtProxyError {
    Io(std::io::Error),
    Protocol(String),
    Auth(String),
    Timeout(String),
    Config(String),
    Unsupported(String),
}

/// The error that marks a feature as not available on this platform.
pub fn unsupported<T>(msg: &str) -> (r: Result<T, BtProxyError>)
    ensures
        r matches Err(BtProxyError::Unsupported(m)) && m@ == msg@,
{
    Err(BtProxyError::Unsupported(msg.to_string()))
}

} // verus!
