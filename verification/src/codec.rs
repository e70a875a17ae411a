//! The identifier codec: from the bech32 text of a public key (`npub1...`)
//! to the key, and back.
//!
//! Bech32 itself, the regrouping of its payload into bytes and the test
//! whether 32 bytes are a key are the work of other crates. Their results
//! have names here; what this module decides on top of them is stated
//! exactly and proved.

use crate::error::ErrorKind;
use bech32::{CheckBase32, FromBase32};
use nostr_sdk::prelude::{ToBech32, XOnlyPublicKey};
use vstd::prelude::*;

verus! {

/// The checksum variant of a bech32 text.
#[derive(Clone, Copy, Debug, PartialEq, Eq, Structural)]
pub enum Variant {
    /// The first variant (BIP-173).
    Bech32,
    /// The later variant with another checksum constant (BIP-350, "m").
    Bech32m,
}

/// The parts of a well-formed bech32 text.
#[derive(Debug, PartialEq, Eq)]
pub struct Bech32Parts {
    /// The human-readable part, in lower case.
    pub hrp: String,
    /// The payload without the checksum: one value below 32 for each
    /// character.
    pub data: Vec<u8>,
    /// The variant that the checksum is good for.
    pub variant: Variant,
}

/// [`Bech32Parts`] as contracts speak of them.
pub struct Bech32PartsView {
    pub hrp: Seq<char>,
    pub data: Seq<u8>,
    pub variant: Variant,
}

impl View for Bech32Parts {
    type V = Bech32PartsView;

    open spec fn view(&self) -> Bech32PartsView {
        Bech32PartsView { hrp: self.hrp@, data: self.data@, variant: self.variant }
    }
}

/// A public key: the 32 bytes of the x coordinate of a point on the curve.
#[derive(Clone, Copy, Debug, PartialEq, Eq)]
pub struct PublicKey {
    bytes: [u8; 32],
}

impl View for PublicKey {
    type V = Seq<u8>;

    closed spec fn view(&self) -> Seq<u8> {
        self.bytes@
    }
}

/// The parts of `text` as bech32: its human-readable part in lower case, its
/// payload without the checksum, and the variant of its checksum. `None`
/// where `text` is not well-formed bech32 of either variant.
pub uninterp spec fn bech32_parts(text: Seq<char>) -> Option<Bech32PartsView>;

/// The bytes that a bech32 payload regroups into, five bits to eight. `None`
/// where a value is above 31, or where what is left over after the last
/// whole byte is not padding: fewer than five bits, all of them zero.
pub uninterp spec fn base32_bytes(data: Seq<u8>) -> Option<Seq<u8>>;

/// The key that `bytes` are: its 32 bytes as the curve library writes them.
/// `None` where `bytes` are not 32 bytes or no point of the curve has them
/// as its x coordinate.
pub uninterp spec fn xonly_key(bytes: Seq<u8>) -> Option<Seq<u8>>;

/// The bech32 text, with the prefix `npub`, of the key with these bytes.
/// `None` where the bytes are no key or the text cannot be written.
pub uninterp spec fn npub_of_key(key: Seq<u8>) -> Option<Seq<char>>;

/// Calls `bech32::decode`.
///
/// The contract claims that the outcome is a function of `text`, and gives
/// that function a name. It claims nothing of which texts are bech32.
#[verifier::external_body]
fn bech32_decode(text: &str) -> (decoded: Result<Bech32Parts, bech32::Error>)
    ensures
        match decoded {
            Ok(parts) => bech32_parts(text@) == Some(parts@),
            Err(_) => bech32_parts(text@) is None,
        },
{
    let (hrp, data, variant) = bech32::decode(text)?;
    let variant = match variant {
        bech32::Variant::Bech32 => Variant::Bech32,
        bech32::Variant::Bech32m => Variant::Bech32m,
    };
    Ok(Bech32Parts { hrp, data: data.into_iter().map(|value| value.to_u8()).collect(), variant })
}

/// Calls `Vec::<u8>::from_base32` of the bech32 crate, on the values that
/// `check_base32` of the same crate admits as five-bit groups.
///
/// The contract claims that the outcome is a function of `data`, and gives
/// that function a name.
#[verifier::external_body]
fn regroup_base32(data: &[u8]) -> (regrouped: Result<Vec<u8>, bech32::Error>)
    ensures
        match regrouped {
            Ok(bytes) => base32_bytes(data@) == Some(bytes@),
            Err(_) => base32_bytes(data@) is None,
        },
{
    Vec::<u8>::from_base32(&data.check_base32()?)
}

/// Calls `XOnlyPublicKey::from_slice` and, on the key it gives, `serialize`.
///
/// The contract claims that the outcome is a function of `bytes`, and gives
/// that function a name.
#[verifier::external_body]
fn parse_xonly(bytes: &[u8]) -> (parsed: Result<[u8; 32], nostr_sdk::secp256k1::Error>)
    ensures
        match parsed {
            Ok(key) => xonly_key(bytes@) == Some(key@),
            Err(_) => xonly_key(bytes@) is None,
        },
{
    XOnlyPublicKey::from_slice(bytes).map(|key| key.serialize())
}

/// Calls `to_bech32` on the `XOnlyPublicKey` that `from_slice` makes of
/// `key`.
///
/// The contract claims that the outcome is a function of `key`, and gives
/// that function a name.
#[verifier::external_body]
fn key_to_bech32(key: &[u8; 32]) -> (encoded: Result<String, nostr_sdk::nips::nip19::Error>)
    ensures
        match encoded {
            Ok(text) => npub_of_key(key@) == Some(text@),
            Err(_) => npub_of_key(key@) is None,
        },
{
    XOnlyPublicKey::from_slice(key)?.to_bech32()
}

/// The human-readable part that the text of a public key must have.
pub open spec fn npub_prefix() -> Seq<char> {
    seq!['n', 'p', 'u', 'b']
}

/// The payload of bech32 parts that are those of a public key's text: the
/// human-readable part is `npub` and the variant is the first one.
pub open spec fn npub_payload(parts: Bech32PartsView) -> Result<Seq<u8>, ErrorKind> {
    if parts.hrp != npub_prefix() {
        Err(ErrorKind::WrongPrefix)
    } else if parts.variant != Variant::Bech32 {
        Err(ErrorKind::WrongVariant)
    } else {
        Ok(parts.data)
    }
}

/// The key that a payload holds.
pub open spec fn key_of_payload(data: Seq<u8>) -> Result<Seq<u8>, ErrorKind> {
    match base32_bytes(data) {
        None => Err(ErrorKind::MalformedPayload),
        Some(bytes) => match xonly_key(bytes) {
            None => Err(ErrorKind::InvalidPublicKey),
            Some(key) => Ok(key),
        },
    }
}

/// The key that `text` stands for, or why it stands for none.
pub open spec fn public_key_of(text: Seq<char>) -> Result<Seq<u8>, ErrorKind> {
    match bech32_parts(text) {
        None => Err(ErrorKind::InvalidEncoding),
        Some(parts) => match npub_payload(parts) {
            Err(kind) => Err(kind),
            Ok(data) => key_of_payload(data),
        },
    }
}

/// Checks that bech32 parts are those of a public key's text and hands out
/// their payload: `WrongPrefix` unless the human-readable part is `npub`,
/// else `WrongVariant` unless the variant is the first one.
pub fn check_npub(parts: Bech32Parts) -> (checked: Result<Vec<u8>, ErrorKind>)
    ensures
        match checked {
            Ok(data) => npub_payload(parts@) == Ok::<Seq<u8>, ErrorKind>(data@),
            Err(kind) => npub_payload(parts@) == Err::<Seq<u8>, ErrorKind>(kind),
        },
{
    let expected = "npub".to_owned();
    proof {
        reveal_strlit("npub");
        assert(expected@ =~= npub_prefix());
    }
    if parts.hrp != expected {
        Err(ErrorKind::WrongPrefix)
    } else if parts.variant != Variant::Bech32 {
        Err(ErrorKind::WrongVariant)
    } else {
        Ok(parts.data)
    }
}

impl PublicKey {
    /// Reads a key from its bytes: `InvalidPublicKey` unless they are the 32
    /// bytes of a key.
    pub fn from_slice(bytes: &[u8]) -> (key: Result<PublicKey, ErrorKind>)
        ensures
            match key {
                Ok(key) => xonly_key(bytes@) == Some(key@),
                Err(kind) => kind == ErrorKind::InvalidPublicKey && xonly_key(bytes@) is None,
            },
    {
        match parse_xonly(bytes) {
            Ok(bytes) => Ok(PublicKey { bytes }),
            Err(_) => Err(ErrorKind::InvalidPublicKey),
        }
    }

    /// The key's 32 bytes.
    pub fn as_bytes(&self) -> (bytes: &[u8; 32])
        ensures
            bytes@ == self@,
    {
        &self.bytes
    }

    /// The key as bech32 text with the prefix `npub`.
    pub fn to_bech32(&self) -> (text: Option<String>)
        ensures
            match text {
                Some(text) => npub_of_key(self@) == Some(text@),
                None => npub_of_key(self@) is None,
            },
    {
        match key_to_bech32(&self.bytes) {
            Ok(text) => Some(text),
            Err(_) => None,
        }
    }
}

/// Reads the key out of a payload: `MalformedPayload` where the payload does
/// not regroup into bytes, else `InvalidPublicKey` where the bytes are no
/// key.
pub fn decode_payload(data: &[u8]) -> (key: Result<PublicKey, ErrorKind>)
    ensures
        match key {
            Ok(key) => key_of_payload(data@) == Ok::<Seq<u8>, ErrorKind>(key@),
            Err(kind) => key_of_payload(data@) == Err::<Seq<u8>, ErrorKind>(kind),
        },
{
    match regroup_base32(data) {
        Err(_) => Err(ErrorKind::MalformedPayload),
        Ok(bytes) => PublicKey::from_slice(bytes.as_slice()),
    }
}

/// Decodes the bech32 text of a public key.
///
/// Fails with `InvalidEncoding` where `text` is not well-formed bech32, else
/// with `WrongPrefix` unless its human-readable part is `npub`, else with
/// `WrongVariant` unless its checksum is of the first variant, else with
/// `MalformedPayload` where the payload does not regroup into bytes, else
/// with `InvalidPublicKey` where the bytes are no key.
pub fn decode_public_key(text: &str) -> (key: Result<PublicKey, ErrorKind>)
    ensures
        match key {
            Ok(key) => public_key_of(text@) == Ok::<Seq<u8>, ErrorKind>(key@),
            Err(kind) => public_key_of(text@) == Err::<Seq<u8>, ErrorKind>(kind),
        },
{
    match bech32_decode(text) {
        Err(_) => Err(ErrorKind::InvalidEncoding),
        Ok(parts) => match check_npub(parts) {
            Err(kind) => Err(kind),
            Ok(data) => decode_payload(data.as_slice()),
        },
    }
}

/// What encoding the key of `text` again gives, where `text` has a key.
pub open spec fn reencoded(text: Seq<char>) -> Option<Seq<char>> {
    match public_key_of(text) {
        Ok(key) => npub_of_key(key),
        Err(_) => None,
    }
}

/// Decoding a text and encoding its key again gives the text of that key: it
/// depends on the key alone, so two texts of one key, such as one text in
/// upper and in lower case, are encoded again alike.
pub proof fn lemma_reencoding_is_that_of_the_key(text: Seq<char>, other: Seq<char>)
    requires
        public_key_of(text) is Ok,
    ensures
        reencoded(text) == npub_of_key(public_key_of(text)->Ok_0),
        public_key_of(other) == public_key_of(text) ==> reencoded(other) == reencoded(text),
{
}

/// A well-formed bech32 text whose human-readable part is not `npub` is
/// refused with `WrongPrefix`, whatever its variant and payload.
pub proof fn lemma_other_prefix_is_refused(text: Seq<char>)
    requires
        bech32_parts(text) is Some,
        bech32_parts(text)->0.hrp != npub_prefix(),
    ensures
        public_key_of(text) == Err::<Seq<u8>, ErrorKind>(ErrorKind::WrongPrefix),
{
}

/// A well-formed bech32 text with the prefix `npub` and the checksum of the
/// later variant is refused with `WrongVariant`, whatever its payload.
pub proof fn lemma_other_variant_is_refused(text: Seq<char>)
    requires
        bech32_parts(text) is Some,
        bech32_parts(text)->0.hrp == npub_prefix(),
        bech32_parts(text)->0.variant == Variant::Bech32m,
    ensures
        public_key_of(text) == Err::<Seq<u8>, ErrorKind>(ErrorKind::WrongVariant),
{
}

} // verus!
