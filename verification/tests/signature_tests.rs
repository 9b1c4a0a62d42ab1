use did_profiles::signature::{verdict, verify_ed25519, verify_secp256k1, verify_signature};
use did_profiles::{KeyAlgorithm, ProfileError};

const SECP_KEY: &str = "0227f746dfda94c96aa1b39d787902786eea510cb53fc467ab411f4d2f3448941f";
const SECP_MESSAGE: &[u8] = b"uhCAkTestAgentPubKey000000000001";
const SECP_SIGNATURE: &str = "3044022029ddd4845082395b9677a2db4acb8a2c3546d2ca542bf33ff15f866a8ed9279b022058e3c33d64b826a77897ec4608ee2a67933213399ee1d5ee5578497347502d87";

/// The base58 text of the Ed25519 key whose point is the neutral element.
/// Under it the signature made of the neutral element and the scalar zero
/// passes for every message, and its 64 bytes are a valid text.
const NEUTRAL_KEY: &str = "4uQeVj5tqViQh7yWWGStvkEG1Zmhx6uasJtWCJziofM";

fn neutral_signature() -> String {
    let mut text = String::from("\u{1}");
    text.push_str(&"\0".repeat(63));
    text
}

#[test]
fn verdict_names_the_first_step_that_failed() {
    assert_eq!(verdict(false, false, false), Err(ProfileError::KeyDecodeError));
    assert_eq!(verdict(false, true, true), Err(ProfileError::KeyDecodeError));
    assert_eq!(verdict(true, false, false), Err(ProfileError::SignatureDecodeError));
    assert_eq!(verdict(true, false, true), Err(ProfileError::SignatureDecodeError));
    assert_eq!(verdict(true, true, false), Err(ProfileError::SignatureInvalid));
    assert_eq!(verdict(true, true, true), Ok(()));
}

#[test]
fn secp256k1_signature_by_the_key_verifies() {
    assert_eq!(verify_secp256k1(SECP_KEY, SECP_SIGNATURE, SECP_MESSAGE), Ok(()));
    assert_eq!(
        verify_signature(KeyAlgorithm::Secp256k1, SECP_KEY, SECP_SIGNATURE, SECP_MESSAGE),
        Ok(())
    );
}

#[test]
fn secp256k1_key_in_upper_case_verifies() {
    let key = SECP_KEY.to_uppercase();
    assert_eq!(verify_secp256k1(&key, SECP_SIGNATURE, SECP_MESSAGE), Ok(()));
}

#[test]
fn secp256k1_signature_with_one_digit_changed_is_invalid() {
    let mut tampered = String::from(&SECP_SIGNATURE[..SECP_SIGNATURE.len() - 1]);
    tampered.push('0');
    assert_ne!(tampered, SECP_SIGNATURE);
    assert_eq!(
        verify_secp256k1(SECP_KEY, &tampered, SECP_MESSAGE),
        Err(ProfileError::SignatureInvalid)
    );
}

#[test]
fn secp256k1_signature_over_another_message_is_invalid() {
    assert_eq!(
        verify_secp256k1(SECP_KEY, SECP_SIGNATURE, b"uhCAkTestAgentPubKey000000000002"),
        Err(ProfileError::SignatureInvalid)
    );
}

#[test]
fn secp256k1_message_must_have_32_bytes() {
    assert_eq!(
        verify_secp256k1(SECP_KEY, SECP_SIGNATURE, b"short"),
        Err(ProfileError::SignatureInvalid)
    );
    assert_eq!(
        verify_secp256k1(SECP_KEY, SECP_SIGNATURE, b"uhCAkTestAgentPubKey0000000000012"),
        Err(ProfileError::SignatureInvalid)
    );
    assert_eq!(verify_secp256k1(SECP_KEY, SECP_SIGNATURE, b""), Err(ProfileError::SignatureInvalid));
}

#[test]
fn secp256k1_key_that_is_not_hexadecimal_does_not_decode() {
    let not_hex = "zz27f746dfda94c96aa1b39d787902786eea510cb53fc467ab411f4d2f3448941f";
    assert_eq!(
        verify_secp256k1(not_hex, SECP_SIGNATURE, SECP_MESSAGE),
        Err(ProfileError::KeyDecodeError)
    );
    let odd = &SECP_KEY[..SECP_KEY.len() - 1];
    assert_eq!(
        verify_secp256k1(odd, SECP_SIGNATURE, SECP_MESSAGE),
        Err(ProfileError::KeyDecodeError)
    );
    assert_eq!(
        verify_secp256k1("", SECP_SIGNATURE, SECP_MESSAGE),
        Err(ProfileError::KeyDecodeError)
    );
}

#[test]
fn secp256k1_key_that_is_no_point_does_not_decode() {
    assert_eq!(
        verify_secp256k1("00", SECP_SIGNATURE, SECP_MESSAGE),
        Err(ProfileError::KeyDecodeError)
    );
    let no_prefix = "0927f746dfda94c96aa1b39d787902786eea510cb53fc467ab411f4d2f3448941f";
    assert_eq!(
        verify_secp256k1(no_prefix, SECP_SIGNATURE, SECP_MESSAGE),
        Err(ProfileError::KeyDecodeError)
    );
}

#[test]
fn secp256k1_key_error_comes_before_signature_error() {
    assert_eq!(
        verify_secp256k1("00", "not a signature", b"short"),
        Err(ProfileError::KeyDecodeError)
    );
}

#[test]
fn secp256k1_signature_that_does_not_parse_is_a_decode_error() {
    assert_eq!(
        verify_secp256k1(SECP_KEY, "not a signature", SECP_MESSAGE),
        Err(ProfileError::SignatureDecodeError)
    );
    assert_eq!(verify_secp256k1(SECP_KEY, "", SECP_MESSAGE), Err(ProfileError::SignatureDecodeError));
    // Hexadecimal, but no DER signature.
    assert_eq!(
        verify_secp256k1(SECP_KEY, "0102", SECP_MESSAGE),
        Err(ProfileError::SignatureDecodeError)
    );
    // A decode error is reported even where the message could not be verified.
    assert_eq!(
        verify_secp256k1(SECP_KEY, "0102", b"short"),
        Err(ProfileError::SignatureDecodeError)
    );
}

#[test]
fn ed25519_signature_under_the_neutral_key_verifies() {
    assert_eq!(verify_ed25519(NEUTRAL_KEY, &neutral_signature(), b"agent-a"), Ok(()));
    assert_eq!(
        verify_signature(KeyAlgorithm::Ed25519, NEUTRAL_KEY, &neutral_signature(), b"agent-a"),
        Ok(())
    );
}

#[test]
fn ed25519_signature_with_one_character_changed_is_invalid() {
    let mut tampered = String::from("\u{2}");
    tampered.push_str(&"\0".repeat(63));
    assert_eq!(
        verify_ed25519(NEUTRAL_KEY, &tampered, b"agent-a"),
        Err(ProfileError::SignatureInvalid)
    );
    let mut other = String::from("\u{1}");
    other.push_str(&"\0".repeat(31));
    other.push('\u{1}');
    other.push_str(&"\0".repeat(31));
    assert_eq!(other.len(), 64);
    assert_eq!(verify_ed25519(NEUTRAL_KEY, &other, b"agent-a"), Err(ProfileError::SignatureInvalid));
}

#[test]
fn ed25519_signature_of_another_length_is_a_decode_error() {
    assert_eq!(
        verify_ed25519(NEUTRAL_KEY, "too short", b"agent-a"),
        Err(ProfileError::SignatureDecodeError)
    );
    assert_eq!(verify_ed25519(NEUTRAL_KEY, "", b"agent-a"), Err(ProfileError::SignatureDecodeError));
    let long = "\0".repeat(65);
    assert_eq!(
        verify_ed25519(NEUTRAL_KEY, &long, b"agent-a"),
        Err(ProfileError::SignatureDecodeError)
    );
    // 32 characters of two bytes each are 64 bytes, and a signature in form.
    let wide = "\u{80}".repeat(31) + "\0\0";
    assert_eq!(wide.len(), 64);
    assert_eq!(verify_ed25519(NEUTRAL_KEY, &wide, b"agent-a"), Err(ProfileError::SignatureInvalid));
}

#[test]
fn ed25519_signature_with_a_high_bit_set_is_a_decode_error() {
    let mut text = String::from("\u{1}");
    text.push_str(&"\0".repeat(62));
    text.push(' ');
    assert_eq!(text.len(), 64);
    assert_eq!(
        verify_ed25519(NEUTRAL_KEY, &text, b"agent-a"),
        Err(ProfileError::SignatureDecodeError)
    );
    // One below the bound is in form, and fails only at the check.
    let mut below = String::from("\u{1}");
    below.push_str(&"\0".repeat(62));
    below.push('\u{1f}');
    assert_eq!(verify_ed25519(NEUTRAL_KEY, &below, b"agent-a"), Err(ProfileError::SignatureInvalid));
}

#[test]
fn ed25519_key_that_is_not_base58_does_not_decode() {
    // 0, O, I and l are not in the alphabet.
    assert_eq!(
        verify_ed25519("0OIl", &neutral_signature(), b"agent-a"),
        Err(ProfileError::KeyDecodeError)
    );
    assert_eq!(
        verify_ed25519("clé", &neutral_signature(), b"agent-a"),
        Err(ProfileError::KeyDecodeError)
    );
}

#[test]
fn ed25519_key_of_another_length_does_not_decode() {
    // Decodes to eight bytes.
    assert_eq!(
        verify_ed25519("he11owor1d", &neutral_signature(), b"agent-a"),
        Err(ProfileError::KeyDecodeError)
    );
    assert_eq!(
        verify_ed25519("", &neutral_signature(), b"agent-a"),
        Err(ProfileError::KeyDecodeError)
    );
}

#[test]
fn ed25519_key_error_comes_before_signature_error() {
    assert_eq!(verify_ed25519("0OIl", "too short", b"agent-a"), Err(ProfileError::KeyDecodeError));
}

#[test]
fn the_scheme_decides_how_the_key_is_read() {
    // A hexadecimal key is no base58 key of 32 bytes, and the other way round.
    assert_eq!(
        verify_signature(KeyAlgorithm::Ed25519, SECP_KEY, &neutral_signature(), b"agent-a"),
        Err(ProfileError::KeyDecodeError)
    );
    assert_eq!(
        verify_signature(KeyAlgorithm::Secp256k1, NEUTRAL_KEY, SECP_SIGNATURE, SECP_MESSAGE),
        Err(ProfileError::KeyDecodeError)
    );
}
