//! The reasons for which an operation on the profile ledger is refused.

use vstd::prelude::*;

verus! {

/// Why an operation was refused. Every refusal is final for the call that met it.
#[derive(Clone, Copy, Debug, PartialEq, Eq, Structural)]
pub enum ProfileError {
    /// The DID string is not accepted by the DID syntax validator.
    InvalidDidSyntax,
    /// The DID must be new, and the ledger already holds it.
    DidAlreadyExists,
    /// The DID must be registered, and the ledger does not hold it.
    DidNotFound,
    /// The document declares no key of a supported type and encoding.
    UnsupportedKeyType,
    /// The document carries no `signed_agent` entry.
    MissingSignedAgent,
    /// The key material does not decode to a public key.
    KeyDecodeError,
    /// The `signed_agent` text does not decode to a signature.
    SignatureDecodeError,
    /// The signature is not one by the declared key over the caller's identity.
    SignatureInvalid,
    /// The entry that a profile link points at is not a profile.
    DeserializationError,
}

impl ProfileError {
    /// The text shown to a caller for each refusal.
    pub open spec fn reason_text(self) -> Seq<char> {
        match self {
            ProfileError::InvalidDidSyntax => "Invalid did uri specified. Must start with 'did:'"@,
            ProfileError::DidAlreadyExists =>
                "Given did already exists in the DHT. Expected a unique DID."@,
            ProfileError::DidNotFound => "Given DID does not exist"@,
            ProfileError::UnsupportedKeyType =>
                "Public key not found with type Ed25519VerificationKey2018 or EcdsaSecp256k1VerificationKey2019"@,
            ProfileError::MissingSignedAgent => "No signed_agent field in the did document"@,
            ProfileError::KeyDecodeError => "Could not decode public key from did document data"@,
            ProfileError::SignatureDecodeError => "Signed agent not correct format"@,
            ProfileError::SignatureInvalid => "Signed agent is not valid"@,
            ProfileError::DeserializationError => "Could not convert entry"@,
        }
    }

    /// A human-readable reason, distinct for each refusal.
    pub fn reason(&self) -> (text: &'static str)
        ensures
            text@ == self.reason_text(),
    {
        match self {
            ProfileError::InvalidDidSyntax => "Invalid did uri specified. Must start with 'did:'",
            ProfileError::DidAlreadyExists =>
                "Given did already exists in the DHT. Expected a unique DID.",
            ProfileError::DidNotFound => "Given DID does not exist",
            ProfileError::UnsupportedKeyType =>
                "Public key not found with type Ed25519VerificationKey2018 or EcdsaSecp256k1VerificationKey2019",
            ProfileError::MissingSignedAgent => "No signed_agent field in the did document",
            ProfileError::KeyDecodeError => "Could not decode public key from did document data",
            ProfileError::SignatureDecodeError => "Signed agent not correct format",
            ProfileError::SignatureInvalid => "Signed agent is not valid",
            ProfileError::DeserializationError => "Could not convert entry",
        }
    }
}

} // verus!
