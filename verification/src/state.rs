//! How far a DID has come on a ledger. The state is read off the ledger's
//! entries and links; nothing stores it.

use vstd::prelude::*;
use crate::ledger::{Ledger, LedgerView, LinkTag};

verus! {

/// The states of a DID.
#[derive(Clone, Copy, Debug, PartialEq, Eq, Structural)]
pub enum DidState {
    /// The ledger does not hold the DID.
    Unregistered,
    /// The ledger holds the DID, and no document of it.
    Registered,
    /// The ledger holds the DID and a document linked from it.
    Claimed,
}

/// The state of `did` on `ledger`.
pub open spec fn state_of(ledger: LedgerView, did: Seq<char>) -> DidState {
    match ledger.find_did(did) {
        None => DidState::Unregistered,
        Some(id) => if ledger.links_from(id, Some(LinkTag::Doc)).len() > 0 {
            DidState::Claimed
        } else {
            DidState::Registered
        },
    }
}

/// `did` is registered on `ledger` and a profile is linked from it.
pub open spec fn profiled(ledger: LedgerView, did: Seq<char>) -> bool {
    ledger.find_did(did) matches Some(id) && ledger.links_from(id, Some(LinkTag::Profile)).len()
        > 0
}

/// Reads the state of a DID off the ledger.
pub fn did_state(ledger: &Ledger, did: &str) -> (state: DidState)
    requires
        ledger.wf(),
    ensures
        state == state_of(ledger@, did@),
{
    match ledger.find_did(did) {
        None => DidState::Unregistered,
        Some(id) => {
            if ledger.get_links(id, Some(LinkTag::Doc)).len() > 0 {
                DidState::Claimed
            } else {
                DidState::Registered
            }
        },
    }
}

/// Tells whether a profile is linked from a DID.
pub fn has_profile(ledger: &Ledger, did: &str) -> (linked: bool)
    requires
        ledger.wf(),
    ensures
        linked == profiled(ledger@, did@),
{
    match ledger.find_did(did) {
        None => false,
        Some(id) => ledger.get_links(id, Some(LinkTag::Profile)).len() > 0,
    }
}

} // verus!
