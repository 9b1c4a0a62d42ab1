use did_profiles::did_validation::validate_did_doc;
use did_profiles::document::{find_extra, find_supported_key, supported_algorithm};
use did_profiles::{
    Document, KeyAlgorithm, ProfileError, PublicKey, PublicKeyEncoding, PublicKeyType,
};

const SECP_KEY: &str = "0227f746dfda94c96aa1b39d787902786eea510cb53fc467ab411f4d2f3448941f";
const SECP_AGENT: &str = "uhCAkTestAgentPubKey000000000001";
const SECP_SIGNATURE: &str = "3044022029ddd4845082395b9677a2db4acb8a2c3546d2ca542bf33ff15f866a8ed9279b022058e3c33d64b826a77897ec4608ee2a67933213399ee1d5ee5578497347502d87";
const NEUTRAL_KEY: &str = "4uQeVj5tqViQh7yWWGStvkEG1Zmhx6uasJtWCJziofM";

fn neutral_claim() -> String {
    let mut text = String::from("\u{1}");
    text.push_str(&"\0".repeat(63));
    text
}

fn key(kind: PublicKeyType, encoding: PublicKeyEncoding, data: &str) -> PublicKey {
    PublicKey { kind, encoding, data: String::from(data) }
}

fn ed25519_key(data: &str) -> PublicKey {
    key(PublicKeyType::Ed25519VerificationKey2018, PublicKeyEncoding::Base58, data)
}

fn secp_key(data: &str) -> PublicKey {
    key(PublicKeyType::EcdsaSecp256k1VerificationKey2019, PublicKeyEncoding::Hex, data)
}

fn rsa_key() -> PublicKey {
    key(PublicKeyType::RsaVerificationKey2018, PublicKeyEncoding::Pem, "-----BEGIN PUBLIC KEY-----")
}

fn document(keys: Vec<PublicKey>, claim: Option<&str>) -> Document {
    let mut extra = vec![(String::from("note"), String::from("n"))];
    if let Some(claim) = claim {
        extra.push((String::from("signed_agent"), String::from(claim)));
    }
    Document { public_key: keys, extra }
}

#[test]
fn only_two_pairs_of_type_and_encoding_are_supported() {
    let kinds = [
        PublicKeyType::UnknownKey,
        PublicKeyType::Ed25519VerificationKey2018,
        PublicKeyType::RsaVerificationKey2018,
        PublicKeyType::EcdsaSecp256k1VerificationKey2019,
    ];
    let encodings = [
        PublicKeyEncoding::Unknown,
        PublicKeyEncoding::Pem,
        PublicKeyEncoding::Jwk,
        PublicKeyEncoding::Hex,
        PublicKeyEncoding::Base64,
        PublicKeyEncoding::Base58,
        PublicKeyEncoding::Multibase,
        PublicKeyEncoding::EthereumAddress,
    ];
    for kind in kinds {
        for encoding in encodings {
            let expected = match (kind, encoding) {
                (PublicKeyType::EcdsaSecp256k1VerificationKey2019, PublicKeyEncoding::Hex) => {
                    Some(KeyAlgorithm::Secp256k1)
                }
                (PublicKeyType::Ed25519VerificationKey2018, PublicKeyEncoding::Base58) => {
                    Some(KeyAlgorithm::Ed25519)
                }
                _ => None,
            };
            assert_eq!(supported_algorithm(kind, encoding), expected);
        }
    }
}

#[test]
fn the_first_supported_key_is_found() {
    let keys = vec![
        rsa_key(),
        key(PublicKeyType::Ed25519VerificationKey2018, PublicKeyEncoding::Hex, "aa"),
        secp_key("bb"),
        ed25519_key("cc"),
    ];
    assert_eq!(find_supported_key(&keys), Some((2, KeyAlgorithm::Secp256k1)));
    let keys = vec![ed25519_key("cc"), secp_key("bb")];
    assert_eq!(find_supported_key(&keys), Some((0, KeyAlgorithm::Ed25519)));
}

#[test]
fn no_supported_key_is_found_where_there_is_none() {
    assert_eq!(find_supported_key(&vec![]), None);
    let keys = vec![
        rsa_key(),
        key(PublicKeyType::EcdsaSecp256k1VerificationKey2019, PublicKeyEncoding::Base58, "aa"),
        key(PublicKeyType::UnknownKey, PublicKeyEncoding::Hex, "aa"),
    ];
    assert_eq!(find_supported_key(&keys), None);
}

#[test]
fn an_extra_field_is_found_by_name() {
    let fields = vec![
        (String::from("a"), String::from("1")),
        (String::from("signed_agent"), String::from("2")),
        (String::from("signed_agent"), String::from("3")),
    ];
    assert_eq!(find_extra(&fields, "signed_agent"), Some(1));
    assert_eq!(find_extra(&fields, "a"), Some(0));
    assert_eq!(find_extra(&fields, "signed"), None);
    assert_eq!(find_extra(&vec![], "a"), None);
}

#[test]
fn document_signed_under_its_ed25519_key_is_valid() {
    let doc = document(vec![ed25519_key(NEUTRAL_KEY)], Some(&neutral_claim()));
    assert_eq!(validate_did_doc(&doc, "agent-a"), Ok(()));
}

#[test]
fn document_signed_under_its_secp256k1_key_is_valid() {
    let doc = document(vec![secp_key(SECP_KEY)], Some(SECP_SIGNATURE));
    assert_eq!(validate_did_doc(&doc, SECP_AGENT), Ok(()));
}

#[test]
fn document_signed_for_another_agent_is_invalid() {
    let doc = document(vec![secp_key(SECP_KEY)], Some(SECP_SIGNATURE));
    assert_eq!(
        validate_did_doc(&doc, "uhCAkTestAgentPubKey000000000002"),
        Err(ProfileError::SignatureInvalid)
    );
    // An identity that is no 32 bytes long cannot be signed for under secp256k1.
    assert_eq!(validate_did_doc(&doc, "agent-a"), Err(ProfileError::SignatureInvalid));
}

#[test]
fn document_with_only_an_rsa_key_is_unsupported() {
    let doc = document(vec![rsa_key()], Some(&neutral_claim()));
    assert_eq!(validate_did_doc(&doc, "agent-a"), Err(ProfileError::UnsupportedKeyType));
}

#[test]
fn unsupported_key_is_reported_before_the_claim_is_looked_at() {
    let without_claim = document(vec![rsa_key()], None);
    assert_eq!(validate_did_doc(&without_claim, "agent-a"), Err(ProfileError::UnsupportedKeyType));
    let with_garbage = document(vec![rsa_key()], Some("garbage"));
    assert_eq!(validate_did_doc(&with_garbage, "agent-a"), Err(ProfileError::UnsupportedKeyType));
    let no_keys = document(vec![], Some(&neutral_claim()));
    assert_eq!(validate_did_doc(&no_keys, "agent-a"), Err(ProfileError::UnsupportedKeyType));
}

#[test]
fn document_without_signed_agent_is_refused() {
    let doc = document(vec![ed25519_key(NEUTRAL_KEY)], None);
    assert_eq!(validate_did_doc(&doc, "agent-a"), Err(ProfileError::MissingSignedAgent));
    // The claim is missed before the key is decoded.
    let bad_key = document(vec![ed25519_key("0OIl")], None);
    assert_eq!(validate_did_doc(&bad_key, "agent-a"), Err(ProfileError::MissingSignedAgent));
}

#[test]
fn only_the_first_supported_key_is_used() {
    // The first supported key does not decode; the good key after it is not tried.
    let doc = document(
        vec![rsa_key(), ed25519_key("0OIl"), ed25519_key(NEUTRAL_KEY)],
        Some(&neutral_claim()),
    );
    assert_eq!(validate_did_doc(&doc, "agent-a"), Err(ProfileError::KeyDecodeError));
    // The other way round the document is valid.
    let doc = document(
        vec![rsa_key(), ed25519_key(NEUTRAL_KEY), ed25519_key("0OIl")],
        Some(&neutral_claim()),
    );
    assert_eq!(validate_did_doc(&doc, "agent-a"), Ok(()));
}

#[test]
fn the_key_type_decides_the_scheme() {
    // A secp256k1 claim under an Ed25519 key is no Ed25519 signature.
    let doc = document(vec![ed25519_key(NEUTRAL_KEY)], Some(SECP_SIGNATURE));
    assert_eq!(validate_did_doc(&doc, SECP_AGENT), Err(ProfileError::SignatureDecodeError));
}

#[test]
fn tampered_claim_is_invalid() {
    let mut tampered = String::from("\u{2}");
    tampered.push_str(&"\0".repeat(63));
    let doc = document(vec![ed25519_key(NEUTRAL_KEY)], Some(&tampered));
    assert_eq!(validate_did_doc(&doc, "agent-a"), Err(ProfileError::SignatureInvalid));
}
