//! What holds of the operations taken together, proved from their
//! transitions: a DID is claimed once, a refused operation leaves no trace,
//! reading a profile gives the last one written, and every operation moves a
//! DID through its states as it should and leaves every other DID alone.

use vstd::prelude::*;
use crate::did_validation::validation_outcome;
use crate::document::{algorithm_of, first_supported, is_first_supported, Document};
use crate::entry::{DidDocument, Entry, Profile};
use crate::error::ProfileError;
use crate::ledger::{
    lemma_find_did, lemma_links_from_are_links, lemma_with_revision, EntryId, LedgerView, Link,
    LinkTag, Write,
};
use crate::profile::{
    add_profile_step, create_profile_step, current_profile_link,
    lemma_current_link_is_held, lemma_guard_identity, lemma_with_claim, lemma_with_linked_entry,
    profile_link, profile_of, register_did_step, update_profile_step, with_claim, with_profile,
    Step,
};
use crate::state::{profiled, state_of, DidState};
use crate::utils::{did_uri_accepts, guard_outcome, lemma_latest_of_push};

verus! {

/// Every profile link from the DID at `did_id` is older than `now`.
pub open spec fn later_than_profiles(ledger: LedgerView, did_id: EntryId, now: u64) -> bool {
    forall|k: int|
        0 <= k < ledger.links.len() && (#[trigger] ledger.links[k]).base == did_id
            && ledger.links[k].tag == LinkTag::Profile ==> ledger.links[k].timestamp < now
}

/// Where every profile link of a DID is older than `now`, so is every link
/// that the ledger gives for the DID under the tag `profile`.
proof fn lemma_profile_links_older(ledger: LedgerView, did_id: EntryId, now: u64)
    requires
        later_than_profiles(ledger, did_id, now),
    ensures
        forall|j: int|
            0 <= j < ledger.links_from(did_id, Some(LinkTag::Profile)).len() ==> (
            #[trigger] ledger.links_from(did_id, Some(LinkTag::Profile))[j]).timestamp < now,
{
    let from = ledger.links_from(did_id, Some(LinkTag::Profile));
    assert forall|j: int| 0 <= j < from.len() implies (#[trigger] from[j]).timestamp < now by {
        lemma_links_from_are_links(ledger, did_id, Some(LinkTag::Profile), j);
        let k = choose|k: int| 0 <= k < ledger.links.len() && ledger.links[k] == from[j];
        assert(ledger.links[k].base == did_id);
    }
}

/// Writing and linking a profile for a registered DID keeps the invariant and
/// every DID, adds one link to the profile links of the DID, and leaves the
/// links of every other DID, and the document links of this one, as they were.
proof fn lemma_with_profile(ledger: LedgerView, did_id: EntryId, profile: Profile, now: u64)
    requires
        ledger.wf(),
        ledger.has_room(1),
        ledger.valid_id(did_id),
        ledger.entries[did_id.0 as int] is Did,
    ensures
        with_profile(ledger, did_id, profile, now).wf(),
        forall|did: Seq<char>| #[trigger]
            with_profile(ledger, did_id, profile, now).find_did(did) == ledger.find_did(did),
        forall|base: EntryId, tag: Option<LinkTag>| #[trigger]
            with_profile(ledger, did_id, profile, now).links_from(base, tag) == if base == did_id
                && (tag matches Some(t) ==> t == LinkTag::Profile) {
                ledger.links_from(base, tag).push(profile_link(ledger, did_id, now))
            } else {
                ledger.links_from(base, tag)
            },
        with_profile(ledger, did_id, profile, now).entries == ledger.entries.push(
            Entry::Profile(profile),
        ),
{
    lemma_with_linked_entry(ledger, Entry::Profile(profile), profile_link(ledger, did_id, now));
}

/// Every operation keeps the ledger's invariant, and an operation that is
/// refused leaves the ledger exactly as it was.
pub proof fn law_operations_keep_the_ledger(
    ledger: LedgerView,
    agent: Seq<char>,
    now: u64,
    did: String,
    document: Option<Document>,
    profile: Profile,
)
    requires
        ledger.wf(),
        ledger.has_room(3),
    ensures
        document matches Some(d) ==> register_did_step(ledger, agent, now, did, d).ledger.wf(),
        document matches Some(d) ==> (register_did_step(ledger, agent, now, did, d).result is Err
            ==> register_did_step(ledger, agent, now, did, d).ledger == ledger),
        create_profile_step(ledger, agent, now, did, document, profile).ledger.wf(),
        create_profile_step(ledger, agent, now, did, document, profile).result is Err
            ==> create_profile_step(ledger, agent, now, did, document, profile).ledger == ledger,
        add_profile_step(ledger, now, did, profile).ledger.wf(),
        add_profile_step(ledger, now, did, profile).result is Err ==> add_profile_step(
            ledger,
            now,
            did,
            profile,
        ).ledger == ledger,
        update_profile_step(ledger, now, did, profile).ledger.wf(),
        update_profile_step(ledger, now, did, profile).result is Err ==> update_profile_step(
            ledger,
            now,
            did,
            profile,
        ).ledger == ledger,
{
    if guard_outcome(ledger, did@, false) is Ok {
        lemma_guard_identity(ledger, did@, false);
        lemma_with_claim(ledger, did, document, now);
        let claimed = with_claim(ledger, did, document, now);
        lemma_with_profile(claimed, ledger.next_id(), profile, now);
    }
    if guard_outcome(ledger, did@, true) is Ok {
        let did_id = guard_outcome(ledger, did@, true).unwrap();
        lemma_guard_identity(ledger, did@, true);
        lemma_with_profile(ledger, did_id, profile, now);
        lemma_current_link_is_held(ledger, did_id);
        match current_profile_link(ledger, did_id) {
            Some(link) => {
                if ledger.holds_profile(link.target) {
                    lemma_with_revision(ledger, link.target, profile);
                }
            },
            None => {},
        }
    }
}

/// The journal tells every write of an operation, in order. A refused
/// operation adds nothing to it. Registration adds the DID, the document and
/// their link; adding a profile adds the profile and its link; an update that
/// finds a current profile adds the revision of that entry and nothing else.
pub proof fn law_journal_tells_the_writes(
    ledger: LedgerView,
    agent: Seq<char>,
    now: u64,
    did: String,
    document: Document,
    profile: Profile,
)
    requires
        ledger.wf(),
        ledger.has_room(3),
    ensures
        ({
            let registered = register_did_step(ledger, agent, now, did, document);
            let added = add_profile_step(ledger, now, did, profile);
            let updated = update_profile_step(ledger, now, did, profile);
            let mark = ledger.journal.len();
            let first = ledger.next_id();
            let second = EntryId((ledger.entries.len() + 1) as usize);
            &&& registered.result is Err ==> registered.ledger.writes_since(mark) == Seq::<
                Write,
            >::empty()
            &&& registered.result is Ok ==> registered.ledger.writes_since(mark) == seq![
                Write::Created(first),
                Write::Created(second),
                Write::Linked(
                    Link { base: first, target: second, tag: LinkTag::Doc, timestamp: now },
                ),
            ]
            &&& added.result is Err ==> added.ledger.writes_since(mark) == Seq::<Write>::empty()
            &&& added.result is Ok ==> added.ledger.writes_since(mark) == seq![
                Write::Created(first),
                Write::Linked(
                    profile_link(ledger, guard_outcome(ledger, did@, true).unwrap(), now),
                ),
            ]
            &&& updated.result is Err ==> updated.ledger.writes_since(mark) == Seq::<
                Write,
            >::empty()
            &&& updated.result is Ok ==> updated.ledger.writes_since(mark) == (
            match current_profile_link(ledger, guard_outcome(ledger, did@, true).unwrap()) {
                Some(link) => seq![Write::Revised(link.target)],
                None => seq![
                    Write::Created(first),
                    Write::Linked(
                        profile_link(ledger, guard_outcome(ledger, did@, true).unwrap(), now),
                    ),
                ],
            })
        }),
{
    let mark = ledger.journal.len();
    assert(ledger.writes_since(mark) =~= Seq::<Write>::empty());
    let registered = register_did_step(ledger, agent, now, did, document);
    if registered.result is Ok {
        lemma_guard_identity(ledger, did@, false);
        assert(registered.ledger.writes_since(mark) =~= seq![
            Write::Created(ledger.next_id()),
            Write::Created(EntryId((ledger.entries.len() + 1) as usize)),
            Write::Linked(
                Link {
                    base: ledger.next_id(),
                    target: EntryId((ledger.entries.len() + 1) as usize),
                    tag: LinkTag::Doc,
                    timestamp: now,
                },
            ),
        ]);
    }
    if guard_outcome(ledger, did@, true) is Ok {
        let did_id = guard_outcome(ledger, did@, true).unwrap();
        let written = with_profile(ledger, did_id, profile, now);
        assert(written.writes_since(mark) =~= seq![
            Write::Created(ledger.next_id()),
            Write::Linked(profile_link(ledger, did_id, now)),
        ]);
        match current_profile_link(ledger, did_id) {
            Some(link) => {
                assert(ledger.with_revision(link.target, profile).writes_since(mark) =~= seq![
                    Write::Revised(link.target),
                ]);
            },
            None => {},
        }
    }
}

/// A DID is claimed once. After a registration that succeeded, every further
/// registration of the same DID, by any caller, with any document and at any
/// time, is refused with `DidAlreadyExists`, and so is every attempt to create
/// a profile with it; the ledger, and with it the first document, stays as the
/// first registration left it.
pub proof fn law_registration_is_unique(
    ledger: LedgerView,
    agent: Seq<char>,
    now: u64,
    did: String,
    document: Document,
    other_agent: Seq<char>,
    later: u64,
    same_did: String,
    other_document: Option<Document>,
    profile: Profile,
)
    requires
        ledger.wf(),
        ledger.has_room(2),
        same_did@ == did@,
        register_did_step(ledger, agent, now, did, document).result is Ok,
    ensures
        ({
            let first = register_did_step(ledger, agent, now, did, document);
            &&& first.ledger.wf()
            &&& first.ledger.has_did(did@)
            &&& first.ledger.entries[ledger.entries.len() as int + 1] == Entry::Document(
                DidDocument(document),
            )
            &&& other_document matches Some(d) ==> register_did_step(
                first.ledger,
                other_agent,
                later,
                same_did,
                d,
            ) == Step::refused(ProfileError::DidAlreadyExists, first.ledger)
            &&& create_profile_step(
                first.ledger,
                other_agent,
                later,
                same_did,
                other_document,
                profile,
            ) == Step::refused(ProfileError::DidAlreadyExists, first.ledger)
        }),
{
    lemma_guard_identity(ledger, did@, false);
    lemma_with_claim(ledger, did, Some(document), now);
}

/// A claim that fails leaves no trace. Where the DID is new and well-formed
/// but the document is not valid for the caller (its signature does not
/// verify, say), registration and profile creation are refused with the
/// validation's error, the ledger is as it was, and the DID is still
/// unregistered and has no profile.
pub proof fn law_failed_claim_leaves_no_trace(
    ledger: LedgerView,
    agent: Seq<char>,
    now: u64,
    did: String,
    document: Document,
    profile: Profile,
)
    requires
        ledger.wf(),
        guard_outcome(ledger, did@, false) is Ok,
        validation_outcome(document, agent) is Err,
    ensures
        register_did_step(ledger, agent, now, did, document) == Step::refused(
            validation_outcome(document, agent)->Err_0,
            ledger,
        ),
        create_profile_step(ledger, agent, now, did, Some(document), profile) == Step::refused(
            validation_outcome(document, agent)->Err_0,
            ledger,
        ),
        state_of(ledger, did@) == DidState::Unregistered,
        profile_of(ledger, did@) == Ok::<Option<Profile>, ProfileError>(None),
{
    lemma_guard_identity(ledger, did@, false);
}

/// A document without a supported key is refused before any signature is
/// looked at: whatever its `signed_agent` field holds, and whoever calls,
/// validation fails with `UnsupportedKeyType`, and so does the claim of a new
/// DID with it.
pub proof fn law_unsupported_key_is_refused(
    ledger: LedgerView,
    agent: Seq<char>,
    now: u64,
    did: String,
    document: Document,
    profile: Profile,
)
    requires
        forall|i: int|
            0 <= i < document.public_key@.len() ==> algorithm_of(
                (#[trigger] document.public_key@[i]).kind,
                document.public_key@[i].encoding,
            ).is_none(),
    ensures
        validation_outcome(document, agent) == Err::<(), ProfileError>(
            ProfileError::UnsupportedKeyType,
        ),
        guard_outcome(ledger, did@, false) is Ok ==> register_did_step(
            ledger,
            agent,
            now,
            did,
            document,
        ) == Step::refused(ProfileError::UnsupportedKeyType, ledger),
        guard_outcome(ledger, did@, false) is Ok ==> create_profile_step(
            ledger,
            agent,
            now,
            did,
            Some(document),
            profile,
        ) == Step::refused(ProfileError::UnsupportedKeyType, ledger),
{
    assert forall|i: int| !is_first_supported(document.public_key@, i) by {
        if 0 <= i < document.public_key@.len() {
            assert(algorithm_of(
                document.public_key@[i].kind,
                document.public_key@[i].encoding,
            ).is_none());
        }
    }
    assert(first_supported(document.public_key@).is_none());
}

/// A profile added to a registered DID with a timestamp later than that of
/// every profile link of the DID is the profile that reading the DID then
/// gives.
pub proof fn law_added_profile_is_current(
    ledger: LedgerView,
    now: u64,
    did: String,
    profile: Profile,
)
    requires
        ledger.wf(),
        ledger.has_room(1),
        add_profile_step(ledger, now, did, profile).result is Ok,
        later_than_profiles(ledger, guard_outcome(ledger, did@, true).unwrap(), now),
    ensures
        add_profile_step(ledger, now, did, profile).ledger.wf(),
        profile_of(add_profile_step(ledger, now, did, profile).ledger, did@) == Ok::<
            Option<Profile>,
            ProfileError,
        >(Some(profile)),
{
    let did_id = guard_outcome(ledger, did@, true).unwrap();
    lemma_guard_identity(ledger, did@, true);
    lemma_with_profile(ledger, did_id, profile, now);
    lemma_profile_links_older(ledger, did_id, now);
    lemma_latest_of_push(
        ledger.links_from(did_id, Some(LinkTag::Profile)),
        profile_link(ledger, did_id, now),
    );
}

/// The latest profile wins. Of two profiles added one after the other, the
/// second with a timestamp later than the first's and than that of every
/// profile link that the DID had before, reading gives the second.
pub proof fn law_latest_profile_wins(
    ledger: LedgerView,
    did: String,
    first: Profile,
    earlier: u64,
    second: Profile,
    later: u64,
)
    requires
        ledger.wf(),
        ledger.has_room(2),
        add_profile_step(ledger, earlier, did, first).result is Ok,
        earlier < later,
        later_than_profiles(ledger, guard_outcome(ledger, did@, true).unwrap(), later),
    ensures
        ({
            let one = add_profile_step(ledger, earlier, did, first);
            let two = add_profile_step(one.ledger, later, did, second);
            &&& two.result is Ok
            &&& profile_of(two.ledger, did@) == Ok::<Option<Profile>, ProfileError>(Some(second))
        }),
{
    let did_id = guard_outcome(ledger, did@, true).unwrap();
    lemma_guard_identity(ledger, did@, true);
    lemma_with_profile(ledger, did_id, first, earlier);
    let one = add_profile_step(ledger, earlier, did, first);
    assert(one.ledger.find_did(did@) == ledger.find_did(did@));
    assert(guard_outcome(one.ledger, did@, true) == Ok::<EntryId, ProfileError>(did_id));
    assert(later_than_profiles(one.ledger, did_id, later)) by {
        assert forall|k: int|
            0 <= k < one.ledger.links.len() && (#[trigger] one.ledger.links[k]).base == did_id
                && one.ledger.links[k].tag == LinkTag::Profile implies one.ledger.links[k].timestamp
            < later by {
            if k < ledger.links.len() {
                assert(ledger.links[k] == one.ledger.links[k]);
            }
        }
    }
    law_added_profile_is_current(one.ledger, later, did, second);
}

/// Reading gives the last update. After an update that succeeded, whether it
/// revised the current profile or created the first one, and whatever its
/// timestamp, reading the DID gives the profile that the update wrote.
pub proof fn law_update_is_read_back(ledger: LedgerView, now: u64, did: String, profile: Profile)
    requires
        ledger.wf(),
        ledger.has_room(1),
        update_profile_step(ledger, now, did, profile).result is Ok,
    ensures
        update_profile_step(ledger, now, did, profile).ledger.wf(),
        profile_of(update_profile_step(ledger, now, did, profile).ledger, did@) == Ok::<
            Option<Profile>,
            ProfileError,
        >(Some(profile)),
{
    let did_id = guard_outcome(ledger, did@, true).unwrap();
    lemma_guard_identity(ledger, did@, true);
    lemma_current_link_is_held(ledger, did_id);
    match current_profile_link(ledger, did_id) {
        None => {
            lemma_with_profile(ledger, did_id, profile, now);
            lemma_latest_of_push(
                ledger.links_from(did_id, Some(LinkTag::Profile)),
                profile_link(ledger, did_id, now),
            );
        },
        Some(link) => {
            lemma_with_revision(ledger, link.target, profile);
        },
    }
}

/// Update is an upsert. On a registered DID without a profile the first update
/// creates one, which reading then gives; a second update revises that entry
/// in place, so the DID still has exactly one profile link, and reading gives
/// the second profile.
pub proof fn law_update_upserts(
    ledger: LedgerView,
    did: String,
    first: Profile,
    now: u64,
    second: Profile,
    later: u64,
)
    requires
        ledger.wf(),
        ledger.has_room(2),
        guard_outcome(ledger, did@, true) is Ok,
        !profiled(ledger, did@),
    ensures
        ({
            let did_id = guard_outcome(ledger, did@, true).unwrap();
            let one = update_profile_step(ledger, now, did, first);
            let two = update_profile_step(one.ledger, later, did, second);
            &&& one == Step::done(with_profile(ledger, did_id, first, now))
            &&& profile_of(one.ledger, did@) == Ok::<Option<Profile>, ProfileError>(Some(first))
            &&& two == Step::done(one.ledger.with_revision(ledger.next_id(), second))
            &&& two.ledger.links_from(did_id, Some(LinkTag::Profile)) == seq![
                profile_link(ledger, did_id, now),
            ]
            &&& profile_of(two.ledger, did@) == Ok::<Option<Profile>, ProfileError>(Some(second))
        }),
{
    let did_id = guard_outcome(ledger, did@, true).unwrap();
    lemma_guard_identity(ledger, did@, true);
    lemma_current_link_is_held(ledger, did_id);
    law_update_is_read_back(ledger, now, did, first);
    let one = update_profile_step(ledger, now, did, first);
    lemma_with_profile(ledger, did_id, first, now);
    let link = profile_link(ledger, did_id, now);
    let from = ledger.links_from(did_id, Some(LinkTag::Profile));
    assert(from =~= Seq::<Link>::empty());
    lemma_latest_of_push(from, link);
    assert(one.ledger.find_did(did@) == ledger.find_did(did@));
    assert(guard_outcome(one.ledger, did@, true) == Ok::<EntryId, ProfileError>(did_id));
    assert(current_profile_link(one.ledger, did_id) == Some(link));
    assert(one.ledger.holds_profile(link.target));
    law_update_is_read_back(one.ledger, later, did, second);
    assert(from.push(link) =~= seq![link]);
}

/// Registration takes a DID from unregistered to claimed, and gives it no
/// profile.
pub proof fn law_registration_claims(
    ledger: LedgerView,
    agent: Seq<char>,
    now: u64,
    did: String,
    document: Document,
)
    requires
        ledger.wf(),
        ledger.has_room(2),
        register_did_step(ledger, agent, now, did, document).result is Ok,
    ensures
        state_of(ledger, did@) == DidState::Unregistered,
        state_of(register_did_step(ledger, agent, now, did, document).ledger, did@)
            == DidState::Claimed,
        !profiled(register_did_step(ledger, agent, now, did, document).ledger, did@),
        profile_of(register_did_step(ledger, agent, now, did, document).ledger, did@) == Ok::<
            Option<Profile>,
            ProfileError,
        >(None),
{
    lemma_guard_identity(ledger, did@, false);
    lemma_with_claim(ledger, did, Some(document), now);
    let after = register_did_step(ledger, agent, now, did, document).ledger;
    lemma_current_link_is_held(after, ledger.next_id());
}

/// A profile given to a DID that was just registered is read back. After a
/// registration that succeeded, adding a profile to the same DID succeeds, at
/// whatever time and by whatever caller, and reading the DID then gives that
/// profile.
pub proof fn law_registered_did_takes_a_profile(
    ledger: LedgerView,
    agent: Seq<char>,
    now: u64,
    did: String,
    document: Document,
    later: u64,
    same_did: String,
    profile: Profile,
)
    requires
        ledger.wf(),
        ledger.has_room(3),
        same_did@ == did@,
        register_did_step(ledger, agent, now, did, document).result is Ok,
    ensures
        ({
            let registered = register_did_step(ledger, agent, now, did, document).ledger;
            let added = add_profile_step(registered, later, same_did, profile);
            &&& added.result is Ok
            &&& profile_of(added.ledger, did@) == Ok::<Option<Profile>, ProfileError>(Some(profile))
        }),
{
    lemma_guard_identity(ledger, did@, false);
    lemma_with_claim(ledger, did, Some(document), now);
    let registered = register_did_step(ledger, agent, now, did, document).ledger;
    let did_id = ledger.next_id();
    assert(guard_outcome(registered, same_did@, true) == Ok::<EntryId, ProfileError>(did_id));
    assert(registered.links_from(did_id, Some(LinkTag::Profile)) =~= Seq::<Link>::empty());
    lemma_with_profile(registered, did_id, profile, later);
    lemma_latest_of_push(
        registered.links_from(did_id, Some(LinkTag::Profile)),
        profile_link(registered, did_id, later),
    );
}

/// Creating a profile takes a DID from unregistered to claimed where a
/// document is given, and to registered where none is; either way the DID then
/// has a profile, and reading gives the profile that was created.
pub proof fn law_creation_claims_with_profile(
    ledger: LedgerView,
    agent: Seq<char>,
    now: u64,
    did: String,
    document: Option<Document>,
    profile: Profile,
)
    requires
        ledger.wf(),
        ledger.has_room(3),
        create_profile_step(ledger, agent, now, did, document, profile).result is Ok,
    ensures
        ({
            let after = create_profile_step(ledger, agent, now, did, document, profile).ledger;
            &&& state_of(ledger, did@) == DidState::Unregistered
            &&& state_of(after, did@) == if document is Some {
                DidState::Claimed
            } else {
                DidState::Registered
            }
            &&& profiled(after, did@)
            &&& profile_of(after, did@) == Ok::<Option<Profile>, ProfileError>(Some(profile))
        }),
{
    lemma_guard_identity(ledger, did@, false);
    lemma_with_claim(ledger, did, document, now);
    let claimed = with_claim(ledger, did, document, now);
    let did_id = ledger.next_id();
    lemma_with_profile(claimed, did_id, profile, now);
    assert(claimed.links_from(did_id, Some(LinkTag::Profile)) == ledger.links_from(
        did_id,
        Some(LinkTag::Profile),
    ));
    lemma_latest_of_push(
        claimed.links_from(did_id, Some(LinkTag::Profile)),
        profile_link(claimed, did_id, now),
    );
}

/// Adding and updating a profile need a DID that is registered or claimed,
/// leave it in the state it was in, and leave it with a profile.
pub proof fn law_profile_writes_keep_the_state(
    ledger: LedgerView,
    now: u64,
    did: String,
    profile: Profile,
)
    requires
        ledger.wf(),
        ledger.has_room(1),
    ensures
        add_profile_step(ledger, now, did, profile).result is Ok ==> {
            &&& state_of(ledger, did@) != DidState::Unregistered
            &&& state_of(add_profile_step(ledger, now, did, profile).ledger, did@) == state_of(
                ledger,
                did@,
            )
            &&& profiled(add_profile_step(ledger, now, did, profile).ledger, did@)
        },
        update_profile_step(ledger, now, did, profile).result is Ok ==> {
            &&& state_of(ledger, did@) != DidState::Unregistered
            &&& state_of(update_profile_step(ledger, now, did, profile).ledger, did@) == state_of(
                ledger,
                did@,
            )
            &&& profiled(update_profile_step(ledger, now, did, profile).ledger, did@)
        },
        state_of(ledger, did@) == DidState::Unregistered && did_uri_accepts(did@) ==> {
            &&& add_profile_step(ledger, now, did, profile) == Step::refused(
                ProfileError::DidNotFound,
                ledger,
            )
            &&& update_profile_step(ledger, now, did, profile) == Step::refused(
                ProfileError::DidNotFound,
                ledger,
            )
        },
{
    if guard_outcome(ledger, did@, true) is Ok {
        let did_id = guard_outcome(ledger, did@, true).unwrap();
        lemma_guard_identity(ledger, did@, true);
        lemma_with_profile(ledger, did_id, profile, now);
        lemma_current_link_is_held(ledger, did_id);
        match current_profile_link(ledger, did_id) {
            Some(link) => {
                if ledger.holds_profile(link.target) {
                    lemma_with_revision(ledger, link.target, profile);
                }
            },
            None => {},
        }
    }
}

/// An operation on one DID leaves every other DID alone: whether the
/// operation succeeds or not, any other DID keeps its state, and keeps or
/// lacks a profile link as before.
pub proof fn law_other_dids_are_left_alone(
    ledger: LedgerView,
    agent: Seq<char>,
    now: u64,
    did: String,
    document: Option<Document>,
    profile: Profile,
    other: Seq<char>,
)
    requires
        ledger.wf(),
        ledger.has_room(3),
        other != did@,
    ensures
        ({
            let registered = register_did_step(ledger, agent, now, did, document.unwrap()).ledger;
            let created = create_profile_step(ledger, agent, now, did, document, profile).ledger;
            let added = add_profile_step(ledger, now, did, profile).ledger;
            let updated = update_profile_step(ledger, now, did, profile).ledger;
            &&& document is Some ==> state_of(registered, other) == state_of(ledger, other)
            &&& document is Some ==> profiled(registered, other) == profiled(ledger, other)
            &&& state_of(created, other) == state_of(ledger, other)
            &&& profiled(created, other) == profiled(ledger, other)
            &&& state_of(added, other) == state_of(ledger, other)
            &&& profiled(added, other) == profiled(ledger, other)
            &&& state_of(updated, other) == state_of(ledger, other)
            &&& profiled(updated, other) == profiled(ledger, other)
        }),
{
    if ledger.has_did(other) {
        let i = choose|i: int| ledger.holds_did(i, other);
        lemma_find_did(ledger, i, other);
    }
    if guard_outcome(ledger, did@, false) is Ok {
        lemma_guard_identity(ledger, did@, false);
        lemma_with_claim(ledger, did, document, now);
        let claimed = with_claim(ledger, did, document, now);
        lemma_with_profile(claimed, ledger.next_id(), profile, now);
    }
    if guard_outcome(ledger, did@, true) is Ok {
        let did_id = guard_outcome(ledger, did@, true).unwrap();
        lemma_guard_identity(ledger, did@, true);
        lemma_with_profile(ledger, did_id, profile, now);
        lemma_current_link_is_held(ledger, did_id);
        match current_profile_link(ledger, did_id) {
            Some(link) => {
                if ledger.holds_profile(link.target) {
                    lemma_with_revision(ledger, link.target, profile);
                }
            },
            None => {},
        }
    }
}

/// Reading follows the state: for a DID of accepted syntax, reading gives
/// nothing exactly where no profile is linked from the DID, and never fails
/// for the DID's state alone.
pub proof fn law_reading_follows_the_state(ledger: LedgerView, did: Seq<char>)
    requires
        ledger.wf(),
        did_uri_accepts(did),
    ensures
        profile_of(ledger, did) == Ok::<Option<Profile>, ProfileError>(None) <==> !profiled(
            ledger,
            did,
        ),
        state_of(ledger, did) == DidState::Unregistered ==> !profiled(ledger, did),
{
    if ledger.has_did(did) {
        let i = choose|i: int| ledger.holds_did(i, did);
        lemma_find_did(ledger, i, did);
        lemma_current_link_is_held(ledger, EntryId(i as usize));
    }
}

} // verus!
