//! The ways a run can fail.

use vstd::prelude::*;

verus! {

/// What went wrong. Every failure ends the run.
#[derive(Clone, Copy, Debug, PartialEq, Eq, Structural)]
pub enum ErrorKind {
    /// The identifier is not well-formed bech32.
    InvalidEncoding,
    /// The identifier's human-readable part is not `npub`.
    WrongPrefix,
    /// The identifier's checksum is not that of the first bech32 variant.
    WrongVariant,
    /// The identifier's payload does not regroup into whole bytes.
    MalformedPayload,
    /// The identifier's payload is not a public key.
    InvalidPublicKey,
    /// The relay could not be reached.
    RelayConnectFailure,
    /// The relay did not answer a query in time.
    QueryTimeout,
    /// The relay reported an error for a query.
    RelayQueryFailure,
    /// The stored cache exists but cannot be read as a cache.
    CacheCorrupt,
    /// The cache could not be written.
    CachePersistFailure,
}

/// The message that tells the operator of a failure of the kind `kind`.
pub open spec fn message_of(kind: ErrorKind) -> Seq<char> {
    match kind {
        ErrorKind::InvalidEncoding => "the public key is not well-formed bech32"@,
        ErrorKind::WrongPrefix => "only npub... is allowed"@,
        ErrorKind::WrongVariant => "only bech32-(not-m) is allowed"@,
        ErrorKind::MalformedPayload => "the payload of the public key does not make whole bytes"@,
        ErrorKind::InvalidPublicKey => "the payload is not a public key"@,
        ErrorKind::RelayConnectFailure => "the relay could not be reached"@,
        ErrorKind::QueryTimeout => "the relay did not answer in time"@,
        ErrorKind::RelayQueryFailure => "the relay failed to answer a query"@,
        ErrorKind::CacheCorrupt => "the stored cache cannot be read"@,
        ErrorKind::CachePersistFailure => "the cache could not be stored"@,
    }
}

impl ErrorKind {
    /// The message that tells the operator of this failure.
    pub fn message(&self) -> (text: String)
        ensures
            text@ == message_of(*self),
    {
        match self {
            ErrorKind::InvalidEncoding => "the public key is not well-formed bech32".to_owned(),
            ErrorKind::WrongPrefix => "only npub... is allowed".to_owned(),
            ErrorKind::WrongVariant => "only bech32-(not-m) is allowed".to_owned(),
            ErrorKind::MalformedPayload => "the payload of the public key does not make whole bytes".to_owned(),
            ErrorKind::InvalidPublicKey => "the payload is not a public key".to_owned(),
            ErrorKind::RelayConnectFailure => "the relay could not be reached".to_owned(),
            ErrorKind::QueryTimeout => "the relay did not answer in time".to_owned(),
            ErrorKind::RelayQueryFailure => "the relay failed to answer a query".to_owned(),
            ErrorKind::CacheCorrupt => "the stored cache cannot be read".to_owned(),
            ErrorKind::CachePersistFailure => "the cache could not be stored".to_owned(),
        }
    }
}

} // verus!
