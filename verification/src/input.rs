//! The requests that callers send, and what each of them asks to be written.

use vstd::prelude::*;
use std::collections::BTreeMap;
use crate::document::Document;
use crate::entry::{ExpressionProof, Profile, Timestamp};

verus! {

/// A request that names a DID and nothing else.
#[derive(Clone, Debug, PartialEq, Eq)]
pub struct DidInput(pub String);

/// A request to register a DID with its document.
#[derive(Clone, Debug, PartialEq, Eq)]
pub struct RegisterDidInput {
    pub did: String,
    pub did_document: Document,
}

/// A request to claim a DID and give it its first profile. The document is
/// optional; a `signed_agent` claim may be handed in without one, and is then
/// kept with the profile.
#[derive(Clone, Debug, PartialEq, Eq)]
pub struct CreateProfileInput {
    pub did: String,
    pub did_document: Option<Document>,
    pub signed_agent: Option<String>,
    pub profile: BTreeMap<String, String>,
    pub context: Option<BTreeMap<String, String>>,
}

/// A request to replace the current profile of a DID.
#[derive(Clone, Debug, PartialEq, Eq)]
pub struct UpdateProfileInput {
    pub did: String,
    pub profile: BTreeMap<String, String>,
    pub context: Option<BTreeMap<String, String>>,
}

/// A request to add a profile revision to a DID.
#[derive(Clone, Debug, PartialEq, Eq)]
pub struct AddProfile {
    pub did: String,
    pub profile: BTreeMap<String, String>,
    pub context: Option<BTreeMap<String, String>>,
}

/// The author of a signed profile.
#[derive(Clone, Debug, PartialEq, Eq)]
pub struct Agent {
    pub did: String,
}

/// The content of a signed profile.
#[derive(Clone, Debug, PartialEq, Eq)]
pub struct ExpressionData {
    pub signed_agent: String,
    pub profile: BTreeMap<String, String>,
    pub context: BTreeMap<String, String>,
}

/// A profile with its author, its proof and its time of writing.
#[derive(Clone, Debug, PartialEq, Eq)]
pub struct ProfileInput {
    pub author: Agent,
    pub data: ExpressionData,
    pub proof: ExpressionProof,
    pub timestamp: Timestamp,
}

impl CreateProfileInput {
    /// The DID, the document and the profile that the request asks to write.
    pub fn into_parts(self) -> (parts: (String, Option<Document>, Profile))
        ensures
            parts == (
                self.did,
                self.did_document,
                Profile {
                    context: self.context,
                    attributes: self.profile,
                    signed_agent: self.signed_agent,
                    proof: None,
                    timestamp: None,
                },
            ),
    {
        (
            self.did,
            self.did_document,
            Profile {
                context: self.context,
                attributes: self.profile,
                signed_agent: self.signed_agent,
                proof: None,
                timestamp: None,
            },
        )
    }
}

impl UpdateProfileInput {
    /// The DID and the profile that the request asks to write.
    pub fn into_parts(self) -> (parts: (String, Profile))
        ensures
            parts == (
                self.did,
                Profile {
                    context: self.context,
                    attributes: self.profile,
                    signed_agent: None,
                    proof: None,
                    timestamp: None,
                },
            ),
    {
        (
            self.did,
            Profile {
                context: self.context,
                attributes: self.profile,
                signed_agent: None,
                proof: None,
                timestamp: None,
            },
        )
    }
}

impl AddProfile {
    /// The DID and the profile that the request asks to write.
    pub fn into_parts(self) -> (parts: (String, Profile))
        ensures
            parts == (
                self.did,
                Profile {
                    context: self.context,
                    attributes: self.profile,
                    signed_agent: None,
                    proof: None,
                    timestamp: None,
                },
            ),
    {
        (
            self.did,
            Profile {
                context: self.context,
                attributes: self.profile,
                signed_agent: None,
                proof: None,
                timestamp: None,
            },
        )
    }
}

impl ProfileInput {
    /// The author's DID and the profile that the request asks to write: the
    /// attributes under their context, with the claim, the proof and the time
    /// that came with them.
    pub fn into_parts(self) -> (parts: (String, Profile))
        ensures
            parts == (
                self.author.did,
                Profile {
                    context: Some(self.data.context),
                    attributes: self.data.profile,
                    signed_agent: Some(self.data.signed_agent),
                    proof: Some(self.proof),
                    timestamp: Some(self.timestamp),
                },
            ),
    {
        (
            self.author.did,
            Profile {
                context: Some(self.data.context),
                attributes: self.data.profile,
                signed_agent: Some(self.data.signed_agent),
                proof: Some(self.proof),
                timestamp: Some(self.timestamp),
            },
        )
    }
}

} // verus!
