//! Binds decentralized identifiers (DIDs) to profiles on an append-only
//! ledger, and admits a binding only from the agent who proves control of a
//! key that the DID's document declares.
//!
//! The parts, leaves first:
//!
//! - [`document`] finds the first key of a document whose type and encoding
//!   are supported, and looks extra fields up by name.
//! - [`signature`] decodes a key and a signature and verifies a message, under
//!   secp256k1 or Ed25519.
//! - [`did_validation`] puts the two together: a document is valid for a
//!   caller where its `signed_agent` field is a signature over the caller's
//!   identity by the first supported key.
//! - [`ledger`] holds entries and the tagged, timestamped links between them.
//! - [`utils`] guards an operation on a DID by its syntax and registration,
//!   and picks the latest of a set of links.
//! - [`profile`] holds the operations: register a DID, create, add and update
//!   a profile, and read the current one.
//! - [`state`] reads off the ledger how far a DID has come.
//! - [`input`] and [`output`] hold the shapes of requests and answers.
//! - [`guarantees`] states and proves what holds of the operations together.
//!
//! Every function is verified against its contract. The calls into the
//! `hex`, `bs58`, `secp256k1`, `ed25519-dalek` and `did_doc` crates are
//! believed, not proved: each stands in a function of a few lines whose
//! contract says what the call is taken to return.
//!
//! The caller's identity and the time of a call are arguments: nothing here
//! reads the clock or any state but the ledger it is handed.

pub mod did_validation;
pub mod document;
pub mod entry;
pub mod error;
pub mod guarantees;
pub mod input;
pub mod ledger;
pub mod output;
pub mod profile;
pub mod signature;
pub mod state;
pub mod utils;

pub use crate::document::{Document, KeyAlgorithm, PublicKey, PublicKeyEncoding, PublicKeyType};
pub use crate::entry::{Did, DidDocument, Entry, ExpressionProof, Profile, Timestamp};
pub use crate::error::ProfileError;
pub use crate::input::{
    AddProfile, Agent, CreateProfileInput, DidInput, ExpressionData, ProfileInput,
    RegisterDidInput, UpdateProfileInput,
};
pub use crate::ledger::{EntryId, Ledger, Link, LinkTag, Write};
pub use crate::output::{ContextProfileResponse, GetProfileOutput, GetProfileResponse};
pub use crate::state::DidState;
