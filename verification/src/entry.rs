//! The records that the ledger holds: DIDs, their documents, and profiles.

use vstd::prelude::*;
use std::collections::BTreeMap;
use crate::document::Document;

verus! {

/// A decentralized identifier, as the text that names it. The ledger holds a
/// DID at most once and never changes it.
#[derive(Clone, Debug, PartialEq, Eq)]
pub struct Did(pub String);

/// The document of a DID, written once when the DID is claimed.
#[derive(Clone, Debug, PartialEq, Eq)]
pub struct DidDocument(pub Document);

/// A signature over a profile, with the key that made it.
#[derive(Clone, Debug, PartialEq, Eq)]
pub struct ExpressionProof {
    pub signature: String,
    pub key: String,
}

/// A point in time: seconds since the Unix epoch, and nanoseconds within the
/// second.
#[derive(Clone, Copy, Debug, PartialEq, Eq, Structural)]
pub struct Timestamp {
    pub seconds: i64,
    pub nanoseconds: u32,
}

/// One revision of a profile: an attribute map, which a context map may
/// namespace, and what its author attached to it.
#[derive(Clone, Debug, PartialEq, Eq)]
pub struct Profile {
    pub context: Option<BTreeMap<String, String>>,
    pub attributes: BTreeMap<String, String>,
    pub signed_agent: Option<String>,
    pub proof: Option<ExpressionProof>,
    pub timestamp: Option<Timestamp>,
}

/// A record of the ledger.
#[derive(Clone, Debug, PartialEq, Eq)]
pub enum Entry {
    Did(Did),
    Document(DidDocument),
    Profile(Profile),
}

impl Profile {
    /// A profile of attributes alone.
    pub fn new(attributes: BTreeMap<String, String>) -> (profile: Profile)
        ensures
            profile == (Profile {
                context: None,
                attributes,
                signed_agent: None,
                proof: None,
                timestamp: None,
            }),
    {
        Profile { context: None, attributes, signed_agent: None, proof: None, timestamp: None }
    }

    /// A profile of attributes under a context map.
    pub fn with_context(
        context: BTreeMap<String, String>,
        attributes: BTreeMap<String, String>,
    ) -> (profile: Profile)
        ensures
            profile == (Profile {
                context: Some(context),
                attributes,
                signed_agent: None,
                proof: None,
                timestamp: None,
            }),
    {
        Profile {
            context: Some(context),
            attributes,
            signed_agent: None,
            proof: None,
            timestamp: None,
        }
    }
}

} // verus!
