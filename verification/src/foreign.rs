//! Error types of other crates. The library hands them from the call that
//! produced them to the place that turns them into an [`ErrorKind`], and
//! never looks inside.
//!
//! [`ErrorKind`]: crate::error::ErrorKind

use vstd::prelude::*;

verus! {

/// Why a text is not bech32, or a payload does not regroup.
#[verifier::external_type_specification]
#[verifier::external_body]
pub struct ExBech32Error(bech32::Error);

/// Why a text is not the JSON that was asked for.
#[verifier::external_type_specification]
#[verifier::external_body]
pub struct ExJsonError(serde_json::Error);

/// Why bytes are no key.
#[verifier::external_type_specification]
#[verifier::external_body]
pub struct ExKeyError(nostr_sdk::secp256k1::Error);

/// Why a key is not written as bech32.
#[verifier::external_type_specification]
#[verifier::external_body]
pub struct ExNip19Error(nostr_sdk::nips::nip19::Error);

} // verus!
