//! The answers to a request for a DID's profile.

use vstd::prelude::*;
use std::collections::BTreeMap;
use crate::entry::{ExpressionProof, Profile, Timestamp};

verus! {

/// A profile as it is shown to a caller: the attribute map, beside it the
/// context map where the profile has one, and the proof and time where the
/// profile carries them.
#[derive(Clone, Debug, PartialEq, Eq)]
pub struct ContextProfileResponse {
    pub context: Option<BTreeMap<String, String>>,
    pub profile_data: BTreeMap<String, String>,
    pub proof: Option<ExpressionProof>,
    pub timestamp: Option<Timestamp>,
}

/// The answer with the context: the current profile, or nothing.
#[derive(Clone, Debug, PartialEq, Eq)]
pub struct GetProfileResponse(pub Option<ContextProfileResponse>);

/// The answer with the attributes alone: the current attribute map, or
/// nothing.
#[derive(Clone, Debug, PartialEq, Eq)]
pub struct GetProfileOutput(pub Option<BTreeMap<String, String>>);

/// Two optional maps hold the same pairs, or are both absent.
pub open spec fn same_map(
    left: Option<BTreeMap<String, String>>,
    right: Option<BTreeMap<String, String>>,
) -> bool {
    match (left, right) {
        (Some(l), Some(r)) => l@ == r@,
        (None, None) => true,
        _ => false,
    }
}

/// `shown` shows `profile`: the same attributes, context, proof and time.
pub open spec fn shows(shown: ContextProfileResponse, profile: Profile) -> bool {
    &&& shown.profile_data@ == profile.attributes@
    &&& same_map(shown.context, profile.context)
    &&& shown.proof == profile.proof
    &&& shown.timestamp == profile.timestamp
}

/// A copy of an optional map.
fn copy_map(map: &Option<BTreeMap<String, String>>) -> (copy: Option<BTreeMap<String, String>>)
    ensures
        same_map(copy, *map),
{
    match map {
        Some(held) => Some(held.clone()),
        None => None,
    }
}

/// A copy of an optional proof.
fn copy_proof(given: &Option<ExpressionProof>) -> (copy: Option<ExpressionProof>)
    ensures
        copy == *given,
{
    match given {
        Some(held) => Some(
            ExpressionProof { signature: held.signature.clone(), key: held.key.clone() },
        ),
        None => None,
    }
}

impl GetProfileResponse {
    /// Shows the profile that was read, with its context; nothing where
    /// nothing was read.
    pub fn from_profile(profile: Option<&Profile>) -> (response: GetProfileResponse)
        ensures
            match profile {
                Some(read) => response.0 matches Some(shown) && shows(shown, *read),
                None => response.0.is_none(),
            },
    {
        match profile {
            Some(read) => GetProfileResponse(
                Some(
                    ContextProfileResponse {
                        context: copy_map(&read.context),
                        profile_data: read.attributes.clone(),
                        proof: copy_proof(&read.proof),
                        timestamp: read.timestamp,
                    },
                ),
            ),
            None => GetProfileResponse(None),
        }
    }
}

impl GetProfileOutput {
    /// Shows the attributes of the profile that was read; nothing where
    /// nothing was read.
    pub fn from_profile(profile: Option<&Profile>) -> (output: GetProfileOutput)
        ensures
            match profile {
                Some(read) => output.0 matches Some(attributes) && attributes@ == read.attributes@,
                None => output.0.is_none(),
            },
    {
        match profile {
            Some(read) => GetProfileOutput(Some(read.attributes.clone())),
            None => GetProfileOutput(None),
        }
    }
}

} // verus!
