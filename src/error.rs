//! Typed errors of the library.
use vstd::prelude::*;

verus! {

/// Which closed set of tagged values a stored text failed to parse into.
#[derive(Debug, Clone, Copy, PartialEq, Eq, Structural)]
pub enum ValueKind {
    AuthType,
    Theme,
    Language,
}

/// A stored text that names no variant of a closed tagged type.
#[derive(Debug, Clone, PartialEq, Eq)]
pub struct ParseError {
    pub kind: ValueKind,
    pub value: String,
}

/// Failures of the authenticator.
#[derive(Debug, Clone, PartialEq, Eq)]
pub enum AuthError {
    /// The handle or the secret is empty, or the service refused them.
    InvalidCredentials,
    /// The network failed or timed out.
    NetworkFailure,
    /// The service could not be reached.
    ServiceUnreachable,
    /// The service answered outside the protocol.
    ProtocolError(String),
    /// A refresh was asked for a handle with no stored refresh token.
    NoRefreshToken,
    /// A session was asked for a handle with no stored access token.
    NoAccessToken,
}

/// Failures of the persistence layer.
#[derive(Debug, Clone, PartialEq, Eq)]
pub enum PersistenceError {
    /// An account with the same decentralized identifier already exists.
    DuplicateIdentity,
    /// No identifier is left for a new row.
    CapacityExhausted,
    /// A stored value does not parse.
    Decode(ParseError),
}

} // verus!
