//! Validates that the `signed_agent` claim of a DID document was made with a
//! key that the document itself declares.

use vstd::prelude::*;
use crate::document::{
    algorithm_of, find_extra, find_supported_key, first_named, first_supported,
    signed_agent_field, Document,
};
use crate::error::ProfileError;
use crate::signature::{signature_outcome, verify_signature};

verus! {

/// What validating `document` for the caller `agent` gives.
///
/// The first supported key in declared order is the only key used. The message
/// that the claim must sign is the caller's identity text, as UTF-8 bytes.
/// Nothing else in the document is looked at.
pub open spec fn validation_outcome(document: Document, agent: Seq<char>) -> Result<
    (),
    ProfileError,
> {
    match first_supported(document.public_key@) {
        None => Err(ProfileError::UnsupportedKeyType),
        Some(k) => match first_named(document.extra@, signed_agent_field()) {
            None => Err(ProfileError::MissingSignedAgent),
            Some(f) => signature_outcome(
                algorithm_of(
                    document.public_key@[k].kind,
                    document.public_key@[k].encoding,
                ).unwrap(),
                document.public_key@[k].data@,
                document.extra@[f].1@,
                vstd::utf8::encode_utf8(agent),
            ),
        },
    }
}

/// Validates a document's ownership claim for the acting caller.
///
/// Fails with `UnsupportedKeyType` where no declared key is supported, else
/// with `MissingSignedAgent` where the document has no `signed_agent` field,
/// else with the error of the signature check, if it fails.
pub fn validate_did_doc(did_document: &Document, agent: &str) -> (result: Result<(), ProfileError>)
    ensures
        result == validation_outcome(*did_document, agent@),
{
    let (key_position, algorithm) = match find_supported_key(&did_document.public_key) {
        Some(found) => found,
        None => { return Err(ProfileError::UnsupportedKeyType); },
    };
    let claim_position = match find_extra(&did_document.extra, "signed_agent") {
        Some(position) => position,
        None => { return Err(ProfileError::MissingSignedAgent); },
    };
    let key = &did_document.public_key[key_position];
    verify_signature(
        algorithm,
        key.data.as_str(),
        did_document.extra[claim_position].1.as_str(),
        agent.as_bytes(),
    )
}

} // verus!
