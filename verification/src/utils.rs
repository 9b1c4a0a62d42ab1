//! The checks that every operation starts with: the guard on a DID's syntax
//! and registration, the reading of an entry as a profile, and the choice of
//! the latest among a set of links.

use vstd::prelude::*;
use crate::entry::{Did, Entry, Profile};
use crate::error::ProfileError;
use crate::ledger::{EntryId, Ledger, LedgerView, Link, LinkTag};

verus! {

/// Whether `did_doc`'s parser of DID URIs accepts the text.
pub uninterp spec fn did_uri_accepts(did: Seq<char>) -> bool;

/// Parses the text as a `did_doc::Uri` and tells whether that succeeded. The
/// answer is taken to depend on the text alone; which texts the parser accepts
/// is not stated here.
#[verifier::external_body]
pub(crate) fn did_uri_ok(did: &str) -> (ok: bool)
    ensures
        ok == did_uri_accepts(did@),
{
    did.parse::<did_doc::Uri>().is_ok()
}

/// What the guard decides from the three facts it gathers: whether the DID's
/// syntax is accepted, whether the ledger holds the DID, and whether the
/// caller expects it to.
pub open spec fn guard_verdict(syntax_ok: bool, found: bool, should_exist: bool) -> Result<
    (),
    ProfileError,
> {
    if !syntax_ok {
        Err(ProfileError::InvalidDidSyntax)
    } else if should_exist && !found {
        Err(ProfileError::DidNotFound)
    } else if !should_exist && found {
        Err(ProfileError::DidAlreadyExists)
    } else {
        Ok(())
    }
}

/// What the guard gives for `did` on `ledger`: the error of `guard_verdict`,
/// or the identity of the DID. A DID that the ledger holds has the identity of
/// its entry; one that it does not hold has the identity under which the next
/// entry will be created.
pub open spec fn guard_outcome(ledger: LedgerView, did: Seq<char>, should_exist: bool) -> Result<
    EntryId,
    ProfileError,
> {
    match guard_verdict(did_uri_accepts(did), ledger.has_did(did), should_exist) {
        Err(error) => Err(error),
        Ok(()) => match ledger.find_did(did) {
            Some(id) => Ok(id),
            None => Ok(ledger.next_id()),
        },
    }
}

/// `i` is the position of the latest of `links`: no link has a greater
/// timestamp, and every link before it has a smaller one.
pub open spec fn is_latest(links: Seq<Link>, i: int) -> bool {
    &&& 0 <= i < links.len()
    &&& forall|j: int|
        0 <= j < links.len() ==> (#[trigger] links[j]).timestamp <= links[i].timestamp
    &&& forall|j: int| 0 <= j < i ==> (#[trigger] links[j]).timestamp < links[i].timestamp
}

/// The latest of `links`: the first, in the order given, among those with the
/// greatest timestamp. There is none where there are no links.
pub open spec fn latest_of(links: Seq<Link>) -> Option<Link> {
    if links.len() == 0 {
        None
    } else {
        Some(links[choose|i: int| is_latest(links, i)])
    }
}

/// Two latest positions are one position.
pub proof fn lemma_latest_unique(links: Seq<Link>, i: int, j: int)
    requires
        is_latest(links, i),
        is_latest(links, j),
    ensures
        i == j,
{
    if i < j {
        assert(links[i].timestamp < links[j].timestamp);
        assert(links[j].timestamp <= links[i].timestamp);
    } else if j < i {
        assert(links[j].timestamp < links[i].timestamp);
        assert(links[i].timestamp <= links[j].timestamp);
    }
}

/// Links that are not empty have a latest position.
pub proof fn lemma_latest_exists(links: Seq<Link>)
    requires
        links.len() > 0,
    ensures
        exists|i: int| is_latest(links, i),
        is_latest(links, choose|i: int| is_latest(links, i)),
        latest_of(links) == Some(links[choose|i: int| is_latest(links, i)]),
    decreases links.len(),
{
    if links.len() == 1 {
        assert(is_latest(links, 0));
    } else {
        let front = links.drop_last();
        lemma_latest_exists(front);
        let best = choose|i: int| is_latest(front, i);
        let last = links.len() - 1;
        if links[last].timestamp > front[best].timestamp {
            assert forall|j: int| 0 <= j < links.len() implies (#[trigger] links[j]).timestamp
                <= links[last].timestamp by {
                if j < last {
                    assert(front[j].timestamp <= front[best].timestamp);
                }
            }
            assert forall|j: int| 0 <= j < last implies (#[trigger] links[j]).timestamp
                < links[last].timestamp by {
                assert(front[j].timestamp <= front[best].timestamp);
            }
            assert(is_latest(links, last));
        } else {
            assert forall|j: int| 0 <= j < links.len() implies (#[trigger] links[j]).timestamp
                <= links[best].timestamp by {
                if j < last {
                    assert(front[j].timestamp <= front[best].timestamp);
                }
            }
            assert forall|j: int| 0 <= j < best implies (#[trigger] links[j]).timestamp
                < links[best].timestamp by {
                assert(front[j].timestamp < front[best].timestamp);
            }
            assert(is_latest(links, best));
        }
    }
}

/// The latest of `links` is the link at a latest position.
pub proof fn lemma_latest_at(links: Seq<Link>, i: int)
    requires
        is_latest(links, i),
    ensures
        latest_of(links) == Some(links[i]),
{
    lemma_latest_exists(links);
    lemma_latest_unique(links, i, choose|k: int| is_latest(links, k));
}

/// Among links that are all older than one appended after them, the appended
/// link is the latest.
pub proof fn lemma_latest_of_push(links: Seq<Link>, link: Link)
    requires
        forall|j: int| 0 <= j < links.len() ==> (#[trigger] links[j]).timestamp < link.timestamp,
    ensures
        latest_of(links.push(link)) == Some(link),
{
    let all = links.push(link);
    assert forall|j: int| 0 <= j < all.len() implies (#[trigger] all[j]).timestamp
        <= all[links.len() as int].timestamp by {
        if j < links.len() {
            assert(links[j].timestamp < link.timestamp);
        }
    }
    assert forall|j: int| 0 <= j < links.len() implies (#[trigger] all[j]).timestamp
        < all[links.len() as int].timestamp by {
        assert(links[j].timestamp < link.timestamp);
    }
    assert(is_latest(all, links.len() as int));
    lemma_latest_at(all, links.len() as int);
}

/// Turns the three facts that the guard gathers into its decision.
pub fn guard_decision(syntax_ok: bool, found: bool, should_exist: bool) -> (result: Result<
    (),
    ProfileError,
>)
    ensures
        result == guard_verdict(syntax_ok, found, should_exist),
{
    if !syntax_ok {
        Err(ProfileError::InvalidDidSyntax)
    } else if should_exist && !found {
        Err(ProfileError::DidNotFound)
    } else if !should_exist && found {
        Err(ProfileError::DidAlreadyExists)
    } else {
        Ok(())
    }
}

/// Guards an operation on a DID: validates the DID's syntax and checks that
/// the ledger holds it, or does not, as `should_exist` asks.
///
/// Fails with `InvalidDidSyntax` where the syntax is not accepted, else with
/// `DidNotFound` where the DID should exist and does not, or with
/// `DidAlreadyExists` where it should not exist and does. Otherwise returns
/// the DID and its identity.
pub fn did_validate_and_check_integrity(
    ledger: &Ledger,
    did: &String,
    should_exist: bool,
) -> (result: Result<(Did, EntryId), ProfileError>)
    requires
        ledger.wf(),
    ensures
        match guard_outcome(ledger@, did@, should_exist) {
            Ok(id) => result == Ok::<(Did, EntryId), ProfileError>((Did(*did), id)),
            Err(error) => result == Err::<(Did, EntryId), ProfileError>(error),
        },
{
    let syntax_ok = did_uri_ok(did.as_str());
    let found = ledger.find_did(did.as_str());
    match guard_decision(syntax_ok, found.is_some(), should_exist) {
        Err(error) => Err(error),
        Ok(()) => {
            let id = match found {
                Some(id) => id,
                None => EntryId(ledger.entry_count()),
            };
            Ok((Did(did.clone()), id))
        },
    }
}

/// Reads an entry as a profile. Fails with `DeserializationError` where the
/// entry is a DID or a document.
pub fn try_from_entry(entry: &Entry) -> (result: Result<&Profile, ProfileError>)
    ensures
        result == match *entry {
            Entry::Profile(profile) => Ok::<&Profile, ProfileError>(&profile),
            _ => Err::<&Profile, ProfileError>(ProfileError::DeserializationError),
        },
{
    match entry {
        Entry::Profile(profile) => Ok(profile),
        _ => Err(ProfileError::DeserializationError),
    }
}

/// Folds links to the latest: a link replaces the one kept so far only where
/// its timestamp is strictly greater, so of links with equal timestamps the
/// first stays.
pub fn latest_link(links: &Vec<Link>) -> (latest: Option<Link>)
    ensures
        latest == latest_of(links@),
        latest.is_none() <==> links@.len() == 0,
        latest matches Some(link) ==> exists|i: int| is_latest(links@, i) && links@[i] == link,
{
    if links.len() == 0 {
        return None;
    }
    let mut best: usize = 0;
    let mut k: usize = 1;
    while k < links.len()
        invariant
            1 <= k <= links@.len(),
            is_latest(links@.take(k as int), best as int),
        decreases links@.len() - k,
    {
        let ghost seen = links@.take(k as int);
        let ghost next = links@.take(k + 1);
        if links[k].timestamp > links[best].timestamp {
            proof {
                assert forall|j: int| 0 <= j < next.len() implies (#[trigger] next[j]).timestamp
                    <= next[k as int].timestamp by {
                    if j < k {
                        assert(seen[j].timestamp <= seen[best as int].timestamp);
                    }
                }
                assert forall|j: int| 0 <= j < k implies (#[trigger] next[j]).timestamp
                    < next[k as int].timestamp by {
                    assert(seen[j].timestamp <= seen[best as int].timestamp);
                }
            }
            best = k;
        } else {
            proof {
                assert forall|j: int| 0 <= j < next.len() implies (#[trigger] next[j]).timestamp
                    <= next[best as int].timestamp by {
                    if j < k {
                        assert(seen[j].timestamp <= seen[best as int].timestamp);
                    }
                }
                assert forall|j: int| 0 <= j < best implies (#[trigger] next[j]).timestamp
                    < next[best as int].timestamp by {
                    assert(seen[j].timestamp < seen[best as int].timestamp);
                }
            }
        }
        k += 1;
    }
    proof {
        assert(links@.take(k as int) =~= links@);
        lemma_latest_at(links@, best as int);
    }
    Some(links[best])
}

/// The latest link from `base` that carries `tag` (or any tag, where none is
/// given), or none where there is no such link.
pub fn get_latest_link(
    ledger: &Ledger,
    base: EntryId,
    tag: Option<LinkTag>,
) -> (latest: Option<Link>)
    ensures
        latest == latest_of(ledger@.links_from(base, tag)),
{
    let links = ledger.get_links(base, tag);
    latest_link(&links)
}

} // verus!
