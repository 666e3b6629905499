//! Error kinds of the login flow, the token store and the provider calls.

use vstd::prelude::*;

verus! {

/// Everything that can go wrong in the core: missing credentials, transport
/// failures, non-2xx protocol answers (with status and body kept for
/// diagnosis), callback problems, persistence problems, and malformed data.
#[derive(Debug, Clone)]
pub enum AuthError {
    ConfigurationMissing,
    NetworkFailure { detail: String },
    ProtocolFailure { status: u16, body: String },
    CallbackFailure { detail: String },
    PersistenceFailure { detail: String },
    ParseFailure { detail: String },
}

impl AuthError {
    /// A short human-readable rendering, in place of `Display`: the carried
    /// detail text, the body for a protocol failure, and a fixed sentence
    /// for missing configuration.
    pub fn message(&self) -> (r: String)
        ensures
            match self {
                AuthError::ConfigurationMissing => r@ == "client credentials are not configured"@,
                AuthError::NetworkFailure { detail } => r@ == detail@,
                AuthError::ProtocolFailure { status: _, body } => r@ == body@,
                AuthError::CallbackFailure { detail } => r@ == detail@,
                AuthError::PersistenceFailure { detail } => r@ == detail@,
                AuthError::ParseFailure { detail } => r@ == detail@,
            },
    {
        match self {
            AuthError::ConfigurationMissing => "client credentials are not configured".to_owned(),
            AuthError::NetworkFailure { detail } => detail.clone(),
            AuthError::ProtocolFailure { status: _, body } => body.clone(),
            AuthError::CallbackFailure { detail } => detail.clone(),
            AuthError::PersistenceFailure { detail } => detail.clone(),
            AuthError::ParseFailure { detail } => detail.clone(),
        }
    }
}

} // verus!
