//! The operations on the profile ledger: claiming a DID, attaching profiles to
//! it, revising the current profile, and reading it back.
//!
//! Every operation is fail-fast: the first check that fails ends it, and the
//! ledger is then exactly as it was. What each operation does is given by a
//! transition function on [`LedgerView`], and the operation's contract says
//! that it makes that transition.

use vstd::prelude::*;
use crate::did_validation::{validate_did_doc, validation_outcome};
use crate::document::Document;
use crate::entry::{Did, DidDocument, Entry, Profile};
use crate::error::ProfileError;
use crate::ledger::{
    lemma_find_did, lemma_links_from_are_links, lemma_links_from_push, lemma_links_start_at_dids,
    lemma_with_entry, lemma_with_link, EntryId, Ledger, LedgerView, Link, LinkTag,
};
use crate::utils::{
    did_uri_accepts, did_uri_ok, did_validate_and_check_integrity, get_latest_link,
    guard_outcome, is_latest, latest_of, lemma_latest_exists, try_from_entry,
};

verus! {

/// The end of an operation that changes the ledger: its result, and the ledger
/// after it.
pub ghost struct Step {
    pub result: Result<(), ProfileError>,
    pub ledger: LedgerView,
}

impl Step {
    /// The operation is refused with `error` and leaves `ledger` as it was.
    pub open spec fn refused(error: ProfileError, ledger: LedgerView) -> Step {
        Step { result: Err(error), ledger }
    }

    /// The operation succeeds and leaves `ledger`.
    pub open spec fn done(ledger: LedgerView) -> Step {
        Step { result: Ok(()), ledger }
    }
}

/// The link that ties a new document to the DID at `did_id`.
pub open spec fn document_link(ledger: LedgerView, did_id: EntryId, now: u64) -> Link {
    Link { base: did_id, target: ledger.next_id(), tag: LinkTag::Doc, timestamp: now }
}

/// The link that ties a new profile to the DID at `did_id`.
pub open spec fn profile_link(ledger: LedgerView, did_id: EntryId, now: u64) -> Link {
    Link { base: did_id, target: ledger.next_id(), tag: LinkTag::Profile, timestamp: now }
}

/// `ledger` with `document` written, and linked from the DID at `did_id`
/// under the tag `doc`.
pub open spec fn with_document(
    ledger: LedgerView,
    did_id: EntryId,
    document: Document,
    now: u64,
) -> LedgerView {
    ledger.with_entry(Entry::Document(DidDocument(document))).with_link(
        document_link(ledger, did_id, now),
    )
}

/// `ledger` with `profile` written as a new entry, and linked from the DID at
/// `did_id` under the tag `profile`.
pub open spec fn with_profile(
    ledger: LedgerView,
    did_id: EntryId,
    profile: Profile,
    now: u64,
) -> LedgerView {
    ledger.with_entry(Entry::Profile(profile)).with_link(profile_link(ledger, did_id, now))
}

/// `ledger` with the DID `did` written, and `document`, where one is given,
/// written and linked from it.
pub open spec fn with_claim(
    ledger: LedgerView,
    did: String,
    document: Option<Document>,
    now: u64,
) -> LedgerView {
    let registered = ledger.with_entry(Entry::Did(Did(did)));
    match document {
        Some(document) => with_document(registered, ledger.next_id(), document, now),
        None => registered,
    }
}

/// What validating an optional document gives: a document that is given must
/// be valid for the caller; none is nothing to validate.
pub open spec fn claim_outcome(document: Option<Document>, agent: Seq<char>) -> Result<
    (),
    ProfileError,
> {
    match document {
        Some(document) => validation_outcome(document, agent),
        None => Ok(()),
    }
}

/// The transition of [`register_did`].
pub open spec fn register_did_step(
    ledger: LedgerView,
    agent: Seq<char>,
    now: u64,
    did: String,
    document: Document,
) -> Step {
    match guard_outcome(ledger, did@, false) {
        Err(error) => Step::refused(error, ledger),
        Ok(_) => match validation_outcome(document, agent) {
            Err(error) => Step::refused(error, ledger),
            Ok(()) => Step::done(with_claim(ledger, did, Some(document), now)),
        },
    }
}

/// The transition of [`create_profile`].
pub open spec fn create_profile_step(
    ledger: LedgerView,
    agent: Seq<char>,
    now: u64,
    did: String,
    document: Option<Document>,
    profile: Profile,
) -> Step {
    match guard_outcome(ledger, did@, false) {
        Err(error) => Step::refused(error, ledger),
        Ok(did_id) => match claim_outcome(document, agent) {
            Err(error) => Step::refused(error, ledger),
            Ok(()) => Step::done(
                with_profile(with_claim(ledger, did, document, now), did_id, profile, now),
            ),
        },
    }
}

/// The transition of [`add_profile`].
pub open spec fn add_profile_step(
    ledger: LedgerView,
    now: u64,
    did: String,
    profile: Profile,
) -> Step {
    match guard_outcome(ledger, did@, true) {
        Err(error) => Step::refused(error, ledger),
        Ok(did_id) => Step::done(with_profile(ledger, did_id, profile, now)),
    }
}

/// The link to the current profile of the DID at `did_id`: the latest of its
/// links tagged `profile`.
pub open spec fn current_profile_link(ledger: LedgerView, did_id: EntryId) -> Option<Link> {
    latest_of(ledger.links_from(did_id, Some(LinkTag::Profile)))
}

/// The transition of [`update_profile`].
pub open spec fn update_profile_step(
    ledger: LedgerView,
    now: u64,
    did: String,
    profile: Profile,
) -> Step {
    match guard_outcome(ledger, did@, true) {
        Err(error) => Step::refused(error, ledger),
        Ok(did_id) => match current_profile_link(ledger, did_id) {
            None => Step::done(with_profile(ledger, did_id, profile, now)),
            Some(link) => if ledger.holds_profile(link.target) {
                Step::done(ledger.with_revision(link.target, profile))
            } else {
                Step::refused(ProfileError::DeserializationError, ledger)
            },
        },
    }
}

/// What [`get_profile`] returns on `ledger`.
pub open spec fn profile_of(ledger: LedgerView, did: Seq<char>) -> Result<
    Option<Profile>,
    ProfileError,
> {
    if !did_uri_accepts(did) {
        Err(ProfileError::InvalidDidSyntax)
    } else {
        match ledger.find_did(did) {
            None => Ok(None),
            Some(did_id) => match current_profile_link(ledger, did_id) {
                None => Ok(None),
                Some(link) => match ledger.entries[link.target.0 as int] {
                    Entry::Profile(profile) => Ok(Some(profile)),
                    _ => Err(ProfileError::DeserializationError),
                },
            },
        }
    }
}

/// The guard's identity for a DID is that of an entry that holds the DID, or,
/// for a DID that the ledger does not hold, the identity of the next entry.
pub proof fn lemma_guard_identity(ledger: LedgerView, did: Seq<char>, should_exist: bool)
    requires
        ledger.wf(),
        guard_outcome(ledger, did, should_exist) is Ok,
    ensures
        did_uri_accepts(did),
        should_exist ==> ledger.holds_did(
            guard_outcome(ledger, did, should_exist).unwrap().0 as int,
            did,
        )
            && ledger.find_did(did) == Some(guard_outcome(ledger, did, should_exist).unwrap()),
        !should_exist ==> !ledger.has_did(did) && guard_outcome(ledger, did, should_exist).unwrap()
            == ledger.next_id(),
{
    if should_exist {
        let i = choose|i: int| ledger.holds_did(i, did);
        lemma_find_did(ledger, i, did);
    }
}

/// The link to a DID's current profile is a link of the ledger, so in a
/// well-formed ledger it starts at that DID and ends at an entry.
pub proof fn lemma_current_link_is_held(ledger: LedgerView, did_id: EntryId)
    requires
        ledger.wf(),
    ensures
        current_profile_link(ledger, did_id) matches Some(link) ==> {
            &&& ledger.links.contains(link)
            &&& link.base == did_id
            &&& link.tag == LinkTag::Profile
            &&& ledger.admits_link(link.base, link.target)
        },
        current_profile_link(ledger, did_id).is_none() <==> ledger.links_from(
            did_id,
            Some(LinkTag::Profile),
        ).len() == 0,
{
    let from = ledger.links_from(did_id, Some(LinkTag::Profile));
    if from.len() > 0 {
        lemma_latest_exists(from);
        let i = choose|i: int| is_latest(from, i);
        lemma_links_from_are_links(ledger, did_id, Some(LinkTag::Profile), i);
        let k = choose|k: int| 0 <= k < ledger.links.len() && ledger.links[k] == from[i];
        assert(ledger.admits_link(ledger.links[k].base, ledger.links[k].target));
    }
}

/// Writing an entry that is no DID and linking it from the DID at `did_id`
/// keeps the invariant and every DID, and adds the link to the links from
/// `did_id` under the link's tag, and to no others.
pub proof fn lemma_with_linked_entry(ledger: LedgerView, entry: Entry, link: Link)
    requires
        ledger.wf(),
        ledger.has_room(1),
        !(entry is Did),
        ledger.valid_id(link.base),
        ledger.entries[link.base.0 as int] is Did,
        link.target == ledger.next_id(),
    ensures
        ledger.with_entry(entry).with_link(link).wf(),
        forall|did: Seq<char>| #[trigger]
            ledger.with_entry(entry).with_link(link).find_did(did) == ledger.find_did(did),
        forall|base: EntryId, tag: Option<LinkTag>| #[trigger]
            ledger.with_entry(entry).with_link(link).links_from(base, tag) == if base == link.base
                && (tag matches Some(t) ==> t == link.tag) {
                ledger.links_from(base, tag).push(link)
            } else {
                ledger.links_from(base, tag)
            },
{
    lemma_with_entry(ledger, entry);
    let written = ledger.with_entry(entry);
    lemma_with_link(written, link);
    let after = written.with_link(link);
    assert forall|did: Seq<char>| #[trigger] after.find_did(did) == ledger.find_did(did) by {
        assert(written.with_link(link).find_did(did) == written.find_did(did));
        assert(written.find_did(did) == ledger.find_did(did));
    }
    assert forall|base: EntryId, tag: Option<LinkTag>| #[trigger]
        after.links_from(base, tag) == if base == link.base && (tag matches Some(t) ==> t
            == link.tag) {
            ledger.links_from(base, tag).push(link)
        } else {
            ledger.links_from(base, tag)
        } by {
        lemma_links_from_push(ledger.links, link, base, tag);
    }
}

/// Claiming a DID that the ledger does not hold keeps the invariant and
/// registers the DID under the identity that was next. Every other DID is
/// found as before. The links from every entry are as before, but for the
/// link to the document, where one is given. Before the claim no link starts
/// at the new DID.
pub proof fn lemma_with_claim(ledger: LedgerView, did: String, document: Option<Document>, now: u64)
    requires
        ledger.wf(),
        ledger.has_room(2),
        !ledger.has_did(did@),
    ensures
        with_claim(ledger, did, document, now).wf(),
        with_claim(ledger, did, document, now).find_did(did@) == Some(ledger.next_id()),
        with_claim(ledger, did, document, now).holds_did(ledger.entries.len() as int, did@),
        forall|other: Seq<char>|
            other != did@ ==> #[trigger] with_claim(ledger, did, document, now).find_did(other)
                == ledger.find_did(other),
        with_claim(ledger, did, document, now).entries.len() == ledger.entries.len() + (
        if document is Some {
            2int
        } else {
            1int
        }),
        document matches Some(d) ==> with_claim(ledger, did, document, now).entries[
            ledger.entries.len() as int + 1
        ] == Entry::Document(DidDocument(d)),
        forall|tag: Option<LinkTag>| #[trigger]
            ledger.links_from(ledger.next_id(), tag) == Seq::<Link>::empty(),
        forall|base: EntryId, tag: Option<LinkTag>| #[trigger]
            with_claim(ledger, did, document, now).links_from(base, tag) == if document is Some
                && base == ledger.next_id() && (tag matches Some(t) ==> t == LinkTag::Doc) {
                ledger.links_from(base, tag).push(
                    document_link(ledger.with_entry(Entry::Did(Did(did))), ledger.next_id(), now),
                )
            } else {
                ledger.links_from(base, tag)
            },
{
    let entry = Entry::Did(Did(did));
    lemma_with_entry(ledger, entry);
    let registered = ledger.with_entry(entry);
    let claimed = with_claim(ledger, did, document, now);
    assert(registered.holds_did(ledger.entries.len() as int, did@));
    assert forall|tag: Option<LinkTag>| #[trigger]
        ledger.links_from(ledger.next_id(), tag) == Seq::<Link>::empty() by {
        lemma_links_start_at_dids(ledger, ledger.next_id(), tag);
    }
    match document {
        Some(d) => {
            let link = document_link(registered, ledger.next_id(), now);
            lemma_with_linked_entry(registered, Entry::Document(DidDocument(d)), link);
            assert(claimed == registered.with_entry(Entry::Document(DidDocument(d))).with_link(
                link,
            ));
            assert(registered.with_entry(Entry::Document(DidDocument(d))).holds_did(
                ledger.entries.len() as int,
                did@,
            ));
            assert(claimed.holds_did(ledger.entries.len() as int, did@));
            assert forall|other: Seq<char>| other != did@ implies #[trigger] claimed.find_did(other)
                == ledger.find_did(other) by {
                assert(claimed.find_did(other) == registered.find_did(other));
            }
            assert forall|base: EntryId, tag: Option<LinkTag>| #[trigger]
                claimed.links_from(base, tag) == if base == ledger.next_id() && (tag matches Some(t)
                    ==> t == LinkTag::Doc) {
                    ledger.links_from(base, tag).push(link)
                } else {
                    ledger.links_from(base, tag)
                } by {
                assert(registered.links_from(base, tag) == ledger.links_from(base, tag));
            }
        },
        None => {
            assert forall|base: EntryId, tag: Option<LinkTag>| #[trigger]
                claimed.links_from(base, tag) == ledger.links_from(base, tag) by {}
        },
    }
}

/// Writes a document and links it from the DID at `did_id`.
fn attach_document(ledger: &mut Ledger, did_id: EntryId, document: Document, now: u64)
    requires
        old(ledger).wf(),
        old(ledger)@.valid_id(did_id),
        old(ledger)@.entries[did_id.0 as int] is Did,
    ensures
        final(ledger).wf(),
        final(ledger)@ == with_document(old(ledger)@, did_id, document, now),
{
    match ledger.create(Entry::Document(DidDocument(document))) {
        Some(document_id) => {
            ledger.create_link(did_id, document_id, LinkTag::Doc, now);
        },
        None => {},
    }
}

/// Writes a profile as a new entry and links it from the DID at `did_id`.
fn attach_profile(ledger: &mut Ledger, did_id: EntryId, profile: Profile, now: u64)
    requires
        old(ledger).wf(),
        old(ledger)@.valid_id(did_id),
        old(ledger)@.entries[did_id.0 as int] is Did,
    ensures
        final(ledger).wf(),
        final(ledger)@ == with_profile(old(ledger)@, did_id, profile, now),
{
    match ledger.create(Entry::Profile(profile)) {
        Some(profile_id) => {
            ledger.create_link(did_id, profile_id, LinkTag::Profile, now);
        },
        None => {},
    }
}

/// Writes a DID that the ledger does not hold, and its document where one is
/// given.
fn claim(ledger: &mut Ledger, did: Did, document: Option<Document>, now: u64)
    requires
        old(ledger).wf(),
        !old(ledger)@.has_did(did.0@),
    ensures
        final(ledger).wf(),
        final(ledger)@ == with_claim(old(ledger)@, did.0, document, now),
        final(ledger)@.valid_id(old(ledger)@.next_id()),
        final(ledger)@.entries[old(ledger)@.entries.len() as int] is Did,
{
    match ledger.create(Entry::Did(did)) {
        Some(did_id) => {
            match document {
                Some(document) => attach_document(ledger, did_id, document, now),
                None => {},
            }
        },
        None => {},
    }
}

/// Registers a DID with its document, for the caller `agent`.
///
/// The DID must be new to the ledger and the document's `signed_agent` claim
/// valid for the caller. Then the DID is written, the document is written, and
/// the document is linked from the DID under the tag `doc`, with the timestamp
/// `now`. On any failure the ledger stays as it was.
pub fn register_did(
    ledger: &mut Ledger,
    agent: &str,
    now: u64,
    did: &String,
    document: Document,
) -> (result: Result<(), ProfileError>)
    requires
        old(ledger).wf(),
    ensures
        final(ledger).wf(),
        result == register_did_step(old(ledger)@, agent@, now, *did, document).result,
        final(ledger)@ == register_did_step(old(ledger)@, agent@, now, *did, document).ledger,
{
    let (held, _) = match did_validate_and_check_integrity(ledger, did, false) {
        Ok(found) => found,
        Err(error) => { return Err(error); },
    };
    match validate_did_doc(&document, agent) {
        Ok(()) => {},
        Err(error) => { return Err(error); },
    }
    proof {
        lemma_guard_identity(ledger@, did@, false);
    }
    claim(ledger, held, Some(document), now);
    Ok(())
}

/// Claims a DID and gives it its first profile, for the caller `agent`.
///
/// The DID must be new to the ledger. A document, where one is given, must be
/// valid for the caller, and is written and linked as in [`register_did`].
/// Then the profile is written and linked from the DID under the tag
/// `profile`. On any failure the ledger stays as it was.
pub fn create_profile(
    ledger: &mut Ledger,
    agent: &str,
    now: u64,
    did: &String,
    document: Option<Document>,
    profile: Profile,
) -> (result: Result<(), ProfileError>)
    requires
        old(ledger).wf(),
    ensures
        final(ledger).wf(),
        result == create_profile_step(old(ledger)@, agent@, now, *did, document, profile).result,
        final(ledger)@ == create_profile_step(
            old(ledger)@,
            agent@,
            now,
            *did,
            document,
            profile,
        ).ledger,
{
    let (held, did_id) = match did_validate_and_check_integrity(ledger, did, false) {
        Ok(found) => found,
        Err(error) => { return Err(error); },
    };
    match &document {
        Some(given) => match validate_did_doc(given, agent) {
            Ok(()) => {},
            Err(error) => { return Err(error); },
        },
        None => {},
    }
    proof {
        lemma_guard_identity(ledger@, did@, false);
    }
    claim(ledger, held, document, now);
    attach_profile(ledger, did_id, profile, now);
    Ok(())
}

/// Appends a profile revision to a registered DID.
///
/// The DID must be registered; ownership is not verified again. The profile is
/// written as a new entry and linked from the DID under the tag `profile`,
/// with the timestamp `now`. On failure the ledger stays as it was.
pub fn add_profile(
    ledger: &mut Ledger,
    now: u64,
    did: &String,
    profile: Profile,
) -> (result: Result<(), ProfileError>)
    requires
        old(ledger).wf(),
    ensures
        final(ledger).wf(),
        result == add_profile_step(old(ledger)@, now, *did, profile).result,
        final(ledger)@ == add_profile_step(old(ledger)@, now, *did, profile).ledger,
{
    let (_, did_id) = match did_validate_and_check_integrity(ledger, did, true) {
        Ok(found) => found,
        Err(error) => { return Err(error); },
    };
    proof {
        lemma_guard_identity(ledger@, did@, true);
    }
    attach_profile(ledger, did_id, profile, now);
    Ok(())
}

/// Replaces the current profile of a registered DID, or gives the DID its
/// first profile.
///
/// The DID must be registered. Where it has a current profile, that entry is
/// revised in place and the links stay as they were; where it has none, the
/// profile is written and linked as in [`add_profile`]. Fails with
/// `DeserializationError` where the latest `profile` link does not point at a
/// profile entry. On failure the ledger stays as it was.
pub fn update_profile(
    ledger: &mut Ledger,
    now: u64,
    did: &String,
    profile: Profile,
) -> (result: Result<(), ProfileError>)
    requires
        old(ledger).wf(),
    ensures
        final(ledger).wf(),
        result == update_profile_step(old(ledger)@, now, *did, profile).result,
        final(ledger)@ == update_profile_step(old(ledger)@, now, *did, profile).ledger,
{
    let (_, did_id) = match did_validate_and_check_integrity(ledger, did, true) {
        Ok(found) => found,
        Err(error) => { return Err(error); },
    };
    proof {
        lemma_guard_identity(ledger@, did@, true);
    }
    match get_latest_link(ledger, did_id, Some(LinkTag::Profile)) {
        Some(link) => {
            if ledger.update(link.target, profile) {
                Ok(())
            } else {
                Err(ProfileError::DeserializationError)
            }
        },
        None => {
            attach_profile(ledger, did_id, profile, now);
            Ok(())
        },
    }
}

/// Reads the current profile of a DID: the entry that the latest of the DID's
/// `profile` links points at.
///
/// Fails with `InvalidDidSyntax` where the DID's syntax is not accepted.
/// Returns none where the ledger does not hold the DID, or holds no profile
/// link from it. Fails with `DeserializationError` where the link points at an
/// entry that is not a profile.
pub fn get_profile<'a>(ledger: &'a Ledger, did: &str) -> (result: Result<
    Option<&'a Profile>,
    ProfileError,
>)
    requires
        ledger.wf(),
    ensures
        result == match profile_of(ledger@, did@) {
            Ok(Some(profile)) => Ok::<Option<&Profile>, ProfileError>(Some(&profile)),
            Ok(None) => Ok::<Option<&Profile>, ProfileError>(None),
            Err(error) => Err::<Option<&Profile>, ProfileError>(error),
        },
{
    if !did_uri_ok(did) {
        return Err(ProfileError::InvalidDidSyntax);
    }
    let did_id = match ledger.find_did(did) {
        Some(did_id) => did_id,
        None => { return Ok(None); },
    };
    let link = match get_latest_link(ledger, did_id, Some(LinkTag::Profile)) {
        Some(link) => link,
        None => { return Ok(None); },
    };
    proof {
        lemma_current_link_is_held(ledger@, did_id);
    }
    match ledger.get(link.target) {
        Some(entry) => match try_from_entry(entry) {
            Ok(profile) => Ok(Some(profile)),
            Err(error) => Err(error),
        },
        None => Ok(None),
    }
}

} // verus!
