use did_profiles::profile::{add_profile, create_profile, get_profile};
use did_profiles::{
    AddProfile, Agent, ContextProfileResponse, CreateProfileInput, DidInput, ExpressionData,
    ExpressionProof, GetProfileOutput, GetProfileResponse, Ledger, Profile, ProfileInput,
    RegisterDidInput, Timestamp, UpdateProfileInput,
};
use did_profiles::Document;
use std::collections::BTreeMap;

fn pairs(items: &[(&str, &str)]) -> BTreeMap<String, String> {
    items.iter().map(|(k, v)| (String::from(*k), String::from(*v))).collect()
}

fn signed() -> ProfileInput {
    ProfileInput {
        author: Agent { did: String::from("did:example:123") },
        data: ExpressionData {
            signed_agent: String::from("claim"),
            profile: pairs(&[("foaf:name", "Alice")]),
            context: pairs(&[("foaf", "http://xmlns.com/foaf/0.1/")]),
        },
        proof: ExpressionProof { signature: String::from("sig"), key: String::from("key") },
        timestamp: Timestamp { seconds: 1_600_000_000, nanoseconds: 5 },
    }
}

#[test]
fn add_request_asks_for_its_attributes_and_context() {
    let request = AddProfile {
        did: String::from("did:example:123"),
        profile: pairs(&[("name", "Alice")]),
        context: None,
    };
    assert_eq!(
        request.into_parts(),
        (String::from("did:example:123"), Profile::new(pairs(&[("name", "Alice")])))
    );
    let request = AddProfile {
        did: String::from("did:example:123"),
        profile: pairs(&[("name", "Alice")]),
        context: Some(pairs(&[("c", "d")])),
    };
    assert_eq!(
        request.into_parts(),
        (
            String::from("did:example:123"),
            Profile::with_context(pairs(&[("c", "d")]), pairs(&[("name", "Alice")]))
        )
    );
}

#[test]
fn update_request_asks_for_its_attributes_and_context() {
    let request = UpdateProfileInput {
        did: String::from("did:example:9"),
        profile: pairs(&[("x", "1")]),
        context: Some(pairs(&[])),
    };
    assert_eq!(
        request.into_parts(),
        (String::from("did:example:9"), Profile::with_context(pairs(&[]), pairs(&[("x", "1")])))
    );
}

#[test]
fn create_request_keeps_document_and_claim() {
    let document = Document { public_key: vec![], extra: vec![] };
    let request = CreateProfileInput {
        did: String::from("did:example:123"),
        did_document: Some(document.clone()),
        signed_agent: Some(String::from("claim")),
        profile: pairs(&[("name", "Alice")]),
        context: None,
    };
    let (did, given, profile) = request.into_parts();
    assert_eq!(did, "did:example:123");
    assert_eq!(given, Some(document));
    assert_eq!(
        profile,
        Profile {
            context: None,
            attributes: pairs(&[("name", "Alice")]),
            signed_agent: Some(String::from("claim")),
            proof: None,
            timestamp: None,
        }
    );
}

#[test]
fn signed_request_keeps_claim_proof_and_time() {
    let (did, profile) = signed().into_parts();
    assert_eq!(did, "did:example:123");
    assert_eq!(
        profile,
        Profile {
            context: Some(pairs(&[("foaf", "http://xmlns.com/foaf/0.1/")])),
            attributes: pairs(&[("foaf:name", "Alice")]),
            signed_agent: Some(String::from("claim")),
            proof: Some(ExpressionProof { signature: String::from("sig"), key: String::from("key") }),
            timestamp: Some(Timestamp { seconds: 1_600_000_000, nanoseconds: 5 }),
        }
    );
}

#[test]
fn requests_that_only_carry_data_hold_what_they_were_given() {
    let request = DidInput(String::from("did:example:123"));
    assert_eq!(request.0, "did:example:123");
    let document = Document { public_key: vec![], extra: vec![] };
    let request = RegisterDidInput { did: String::from("did:example:123"), did_document: document.clone() };
    assert_eq!(request.did, "did:example:123");
    assert_eq!(request.did_document, document);
}

#[test]
fn answer_shows_the_profile_that_was_read() {
    let (_, profile) = signed().into_parts();
    assert_eq!(
        GetProfileResponse::from_profile(Some(&profile)),
        GetProfileResponse(Some(ContextProfileResponse {
            context: Some(pairs(&[("foaf", "http://xmlns.com/foaf/0.1/")])),
            profile_data: pairs(&[("foaf:name", "Alice")]),
            proof: Some(ExpressionProof { signature: String::from("sig"), key: String::from("key") }),
            timestamp: Some(Timestamp { seconds: 1_600_000_000, nanoseconds: 5 }),
        }))
    );
    assert_eq!(
        GetProfileOutput::from_profile(Some(&profile)),
        GetProfileOutput(Some(pairs(&[("foaf:name", "Alice")])))
    );
    let plain = Profile::new(pairs(&[("name", "Bob")]));
    assert_eq!(
        GetProfileResponse::from_profile(Some(&plain)),
        GetProfileResponse(Some(ContextProfileResponse {
            context: None,
            profile_data: pairs(&[("name", "Bob")]),
            proof: None,
            timestamp: None,
        }))
    );
}

#[test]
fn answer_is_empty_where_nothing_was_read() {
    assert_eq!(GetProfileResponse::from_profile(None), GetProfileResponse(None));
    assert_eq!(GetProfileOutput::from_profile(None), GetProfileOutput(None));
}

#[test]
fn signed_profile_goes_through_the_ledger_unchanged() {
    let mut ledger = Ledger::new();
    let (did, profile) = signed().into_parts();
    assert_eq!(create_profile(&mut ledger, "agent", 1, &did, None, profile.clone()), Ok(()));
    let (did, later) = signed().into_parts();
    assert_eq!(add_profile(&mut ledger, 2, &did, later), Ok(()));
    let read = get_profile(&ledger, "did:example:123").unwrap();
    assert_eq!(read, Some(&profile));
    let answer = GetProfileResponse::from_profile(read);
    assert_eq!(answer.0.unwrap().profile_data, pairs(&[("foaf:name", "Alice")]));
}
