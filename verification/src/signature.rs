//! Checks a `signed_agent` claim: decodes a declared key and a signature text
//! and verifies a message against them, under secp256k1 or Ed25519.
//!
//! Decoding and elliptic-curve arithmetic are done by the `hex`, `bs58`,
//! `secp256k1` and `ed25519-dalek` crates. Their results enter the verified
//! code through the small functions at the head of this file; what each of
//! them is taken to return is written in its contract and was not proved.

use vstd::prelude::*;
use crate::document::KeyAlgorithm;
use crate::error::ProfileError;

verus! {

/// The length in bytes of the digest that a secp256k1 signature signs.
pub const SECP256K1_MESSAGE_SIZE: usize = 32;

/// A character is a hexadecimal digit, in either case.
pub open spec fn is_hex_digit(c: char) -> bool {
    ('0' <= c && c <= '9') || ('a' <= c && c <= 'f') || ('A' <= c && c <= 'F')
}

/// The number that a hexadecimal digit stands for.
pub open spec fn hex_digit_value(c: char) -> int {
    if '0' <= c && c <= '9' {
        c as int - '0' as int
    } else if 'a' <= c && c <= 'f' {
        c as int - 'a' as int + 10
    } else {
        c as int - 'A' as int + 10
    }
}

/// The bytes that a hexadecimal text stands for: two digits to a byte, the
/// high one first. A text of odd length, or with any other character, stands
/// for nothing.
pub open spec fn hex_decoding(text: Seq<char>) -> Option<Seq<u8>> {
    if text.len() % 2 == 0 && forall|i: int|
        0 <= i < text.len() ==> is_hex_digit(#[trigger] text[i]) {
        Some(
            Seq::new(
                text.len() / 2,
                |i: int|
                    (16 * hex_digit_value(text[2 * i]) + hex_digit_value(text[2 * i + 1])) as u8,
            ),
        )
    } else {
        None
    }
}

/// The view of decoded bytes, where there are any.
pub open spec fn bytes_view(bytes: Option<Vec<u8>>) -> Option<Seq<u8>> {
    match bytes {
        Some(b) => Some(b@),
        None => None,
    }
}

/// What `bs58`'s decoder, with its default alphabet, makes of a text: the
/// decoded bytes, or nothing where it reports an error.
pub uninterp spec fn base58_decoding(text: Seq<char>) -> Option<Seq<u8>>;

/// Whether `secp256k1::PublicKey::from_slice` accepts the bytes as a public key.
pub uninterp spec fn secp256k1_key_accepts(key: Seq<u8>) -> bool;

/// Whether `secp256k1::Signature`'s `FromStr` accepts the text as a signature.
pub uninterp spec fn secp256k1_signature_accepts(signature: Seq<char>) -> bool;

/// Whether `Secp256k1::verify` passes the signature that `signature` parses
/// to, for the 32-byte message `digest`, under the key that `key` parses to.
pub uninterp spec fn secp256k1_verifies(key: Seq<u8>, digest: Seq<u8>, signature: Seq<char>) -> bool;

/// Whether `ed25519_dalek::PublicKey::from_bytes` accepts the bytes as a public key.
pub uninterp spec fn ed25519_key_accepts(key: Seq<u8>) -> bool;

/// Whether `ed25519_dalek`'s `verify` passes the signature that `signature`
/// parses to, for `message`, under the key that `key` parses to.
pub uninterp spec fn ed25519_verifies(key: Seq<u8>, message: Seq<u8>, signature: Seq<u8>) -> bool;

/// The bytes have the form of an Ed25519 signature: 64 bytes, the three
/// highest bits of the last one clear.
pub open spec fn ed25519_signature_well_formed(signature: Seq<u8>) -> bool {
    signature.len() == 64 && signature[63] < 32
}

/// Calls `hex::decode`. It is taken to return the bytes that the text stands
/// for, two digits of either case to a byte, and to fail on a text of odd
/// length or with a character that is no hexadecimal digit.
#[verifier::external_body]
pub(crate) fn hex_decode(text: &str) -> (bytes: Option<Vec<u8>>)
    ensures
        bytes_view(bytes) == hex_decoding(text@),
{
    hex::decode(text).ok()
}

/// Calls `bs58::decode(..).into_vec()`. Its result is taken to depend on the
/// text alone; nothing more is claimed of it.
#[verifier::external_body]
pub(crate) fn base58_decode(text: &str) -> (bytes: Option<Vec<u8>>)
    ensures
        bytes_view(bytes) == base58_decoding(text@),
{
    bs58::decode(text).into_vec().ok()
}

/// Calls `secp256k1::PublicKey::from_slice` and tells whether it accepted the
/// bytes. The answer is taken to depend on the bytes alone.
#[verifier::external_body]
pub(crate) fn secp256k1_key_ok(key: &[u8]) -> (ok: bool)
    ensures
        ok == secp256k1_key_accepts(key@),
{
    secp256k1::PublicKey::from_slice(key).is_ok()
}

/// Parses the text as a `secp256k1::Signature` (hexadecimal DER) and tells
/// whether that succeeded. The answer is taken to depend on the text alone.
#[verifier::external_body]
pub(crate) fn secp256k1_signature_ok(signature: &str) -> (ok: bool)
    ensures
        ok == secp256k1_signature_accepts(signature@),
{
    signature.parse::<secp256k1::Signature>().is_ok()
}

/// Calls `Secp256k1::verify` on a verification-only context, with the key,
/// message and signature that the arguments parse to. The arguments must
/// parse: a key that `PublicKey::from_slice` accepts, a message of 32 bytes as
/// `Message::from_slice` asks, a signature text that parses. The answer is
/// taken to depend on the three arguments alone.
#[verifier::external_body]
pub(crate) fn secp256k1_verify(key: &[u8], digest: &[u8], signature: &str) -> (ok: bool)
    requires
        secp256k1_key_accepts(key@),
        digest@.len() == SECP256K1_MESSAGE_SIZE,
        secp256k1_signature_accepts(signature@),
    ensures
        ok == secp256k1_verifies(key@, digest@, signature@),
{
    let key = secp256k1::PublicKey::from_slice(key).unwrap();
    let message = secp256k1::Message::from_slice(digest).unwrap();
    let signature = signature.parse::<secp256k1::Signature>().unwrap();
    secp256k1::Secp256k1::verification_only().verify(&message, &signature, &key).is_ok()
}

/// Calls `ed25519_dalek::PublicKey::from_bytes` and tells whether it accepted
/// the bytes. The answer is taken to depend on the bytes alone.
#[verifier::external_body]
pub(crate) fn ed25519_key_ok(key: &[u8]) -> (ok: bool)
    ensures
        ok == ed25519_key_accepts(key@),
{
    ed25519_dalek::PublicKey::from_bytes(key).is_ok()
}

/// Converts the bytes to an `ed25519_dalek::Signature` and tells whether that
/// succeeded. It is taken to succeed exactly on 64 bytes whose last byte has
/// its three highest bits clear.
#[verifier::external_body]
pub(crate) fn ed25519_signature_ok(signature: &[u8]) -> (ok: bool)
    ensures
        ok == ed25519_signature_well_formed(signature@),
{
    ed25519_dalek::Signature::try_from(signature).is_ok()
}

/// Calls `verify` of `ed25519_dalek::PublicKey` with the key and signature
/// that the arguments parse to. Both must parse. The answer is taken to depend
/// on the three arguments alone.
#[verifier::external_body]
pub(crate) fn ed25519_verify(key: &[u8], message: &[u8], signature: &[u8]) -> (ok: bool)
    requires
        ed25519_key_accepts(key@),
        ed25519_signature_well_formed(signature@),
    ensures
        ok == ed25519_verifies(key@, message@, signature@),
{
    let key = ed25519_dalek::PublicKey::from_bytes(key).unwrap();
    let signature = ed25519_dalek::Signature::try_from(signature).unwrap();
    ed25519_dalek::Verifier::verify(&key, message, &signature).is_ok()
}

/// The result of a signature check whose three steps ended as given: the key
/// decoded, the signature decoded, the message verified. The first step that
/// failed names the error.
pub open spec fn verdict_of(key_decoded: bool, signature_decoded: bool, verified: bool) -> Result<
    (),
    ProfileError,
> {
    if !key_decoded {
        Err(ProfileError::KeyDecodeError)
    } else if !signature_decoded {
        Err(ProfileError::SignatureDecodeError)
    } else if !verified {
        Err(ProfileError::SignatureInvalid)
    } else {
        Ok(())
    }
}

/// The key material decodes from hexadecimal to a secp256k1 public key.
pub open spec fn secp256k1_key_decodes(key_material: Seq<char>) -> bool {
    hex_decoding(key_material) matches Some(key) && secp256k1_key_accepts(key)
}

/// The key material decodes from base58 to an Ed25519 public key.
pub open spec fn ed25519_key_decodes(key_material: Seq<char>) -> bool {
    base58_decoding(key_material) matches Some(key) && ed25519_key_accepts(key)
}

/// What checking `signature` against `message` under the declared key gives.
///
/// For secp256k1 the key material is hexadecimal, the signature text is
/// hexadecimal DER, and the message must be a digest of 32 bytes: a message of
/// another length verifies under no signature. For Ed25519 the key material is
/// base58, and the UTF-8 bytes of the signature text are the signature.
pub open spec fn signature_outcome(
    algorithm: KeyAlgorithm,
    key_material: Seq<char>,
    signature: Seq<char>,
    message: Seq<u8>,
) -> Result<(), ProfileError> {
    match algorithm {
        KeyAlgorithm::Secp256k1 => verdict_of(
            secp256k1_key_decodes(key_material),
            secp256k1_signature_accepts(signature),
            message.len() == SECP256K1_MESSAGE_SIZE && secp256k1_verifies(
                hex_decoding(key_material).unwrap(),
                message,
                signature,
            ),
        ),
        KeyAlgorithm::Ed25519 => verdict_of(
            ed25519_key_decodes(key_material),
            ed25519_signature_well_formed(vstd::utf8::encode_utf8(signature)),
            ed25519_verifies(
                base58_decoding(key_material).unwrap(),
                message,
                vstd::utf8::encode_utf8(signature),
            ),
        ),
    }
}

/// Turns the ends of the three steps of a signature check into its result.
pub fn verdict(key_decoded: bool, signature_decoded: bool, verified: bool) -> (result: Result<
    (),
    ProfileError,
>)
    ensures
        result == verdict_of(key_decoded, signature_decoded, verified),
{
    if !key_decoded {
        Err(ProfileError::KeyDecodeError)
    } else if !signature_decoded {
        Err(ProfileError::SignatureDecodeError)
    } else if !verified {
        Err(ProfileError::SignatureInvalid)
    } else {
        Ok(())
    }
}

/// Checks a secp256k1 signature, written as hexadecimal DER, over a 32-byte
/// message, under a key written in hexadecimal.
pub fn verify_secp256k1(key_material: &str, signature: &str, message: &[u8]) -> (result: Result<
    (),
    ProfileError,
>)
    ensures
        result == signature_outcome(KeyAlgorithm::Secp256k1, key_material@, signature@, message@),
{
    match hex_decode(key_material) {
        None => verdict(false, false, false),
        Some(key) => {
            let key_decoded = secp256k1_key_ok(key.as_slice());
            let signature_decoded = secp256k1_signature_ok(signature);
            let verified = key_decoded && signature_decoded && message.len()
                == SECP256K1_MESSAGE_SIZE && secp256k1_verify(key.as_slice(), message, signature);
            verdict(key_decoded, signature_decoded, verified)
        },
    }
}

/// Checks an Ed25519 signature, given as the bytes of the signature text,
/// over a message, under a key written in base58.
pub fn verify_ed25519(key_material: &str, signature: &str, message: &[u8]) -> (result: Result<
    (),
    ProfileError,
>)
    ensures
        result == signature_outcome(KeyAlgorithm::Ed25519, key_material@, signature@, message@),
{
    match base58_decode(key_material) {
        None => verdict(false, false, false),
        Some(key) => {
            let signature_bytes = signature.as_bytes();
            let key_decoded = ed25519_key_ok(key.as_slice());
            let signature_decoded = ed25519_signature_ok(signature_bytes);
            let verified = key_decoded && signature_decoded && ed25519_verify(
                key.as_slice(),
                message,
                signature_bytes,
            );
            verdict(key_decoded, signature_decoded, verified)
        },
    }
}

/// Decodes the key and the signature and verifies the message, under the
/// scheme given. Fails with `KeyDecodeError` where the key material does not
/// decode to a key, else with `SignatureDecodeError` where the signature text
/// does not decode, else with `SignatureInvalid` where the check does not pass.
pub fn verify_signature(
    algorithm: KeyAlgorithm,
    key_material: &str,
    signature: &str,
    message: &[u8],
) -> (result: Result<(), ProfileError>)
    ensures
        result == signature_outcome(algorithm, key_material@, signature@, message@),
{
    match algorithm {
        KeyAlgorithm::Secp256k1 => verify_secp256k1(key_material, signature, message),
        KeyAlgorithm::Ed25519 => verify_ed25519(key_material, signature, message),
    }
}

} // verus!
