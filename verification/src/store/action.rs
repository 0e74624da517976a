//! What an operation of the store has done for it, and what came of it.

use vstd::prelude::*;

use super::payload::ObjectContents;
use super::types::{AwsFailure, Fragment, StoreError, StoreMatch, StoreQueryResult};
use crate::text::optional_text;
use crate::types::{Address, ContentHash, Context};

verus! {

/// What to do next.
#[derive(Debug)]
pub enum StoreAction {
    /// Clear the flags of a fragment that say how it is handled, not what it is.
    Sanitise { fragment: Fragment },
    /// Check the sizes in a fragment.
    ValidateSize { fragment: Fragment },
    /// Check the sizes in a fragment against the size of its payload.
    ValidatePayload { fragment: Fragment, length: usize },
    /// Ask the catalog what matches an address.
    Query { repository: Context, address: Address, match_requested: StoreMatch },
    /// Have the catalog associate a payload with a repository and a context.
    Associate { repository: Context, address: Address },
    /// Have the catalog register a fragment, and associate it.
    Register { repository: Context, address: Address, fragment: Fragment },
    /// Write an object.
    PutObject { bucket: String, key: String, body: Vec<u8> },
    /// Read an object.
    GetObject { bucket: String, key: String },
    /// List the versions of an object.
    ListVersions { bucket: String, key: String },
    /// Delete an object, or one version of it.
    DeleteObject { bucket: String, key: String, version: Option<String> },
    /// Have the catalog mark a payload as being obliterated.
    BeginObliteration { hash: ContentHash },
    /// Take the payload that was read for the list of fragments that it is.
    References,
    /// Obliterate other addresses.
    Obliterate { repository: Context, addresses: Vec<Address> },
    /// Have the catalog drop an association of a payload that is being obliterated.
    Release { repository: Context, address: Address },
    /// Have the catalog mark a payload as obliterated.
    Finalize { hash: ContentHash },
    /// Nothing: the operation is over.
    Finish,
}

/// What a [`StoreAction`] says.
pub enum StoreStep {
    Sanitise { fragment: Fragment },
    ValidateSize { fragment: Fragment },
    ValidatePayload { fragment: Fragment, length: int },
    Query { repository: Context, address: Address, match_requested: StoreMatch },
    Associate { repository: Context, address: Address },
    Register { repository: Context, address: Address, fragment: Fragment },
    PutObject { bucket: Seq<char>, key: Seq<char>, body: Seq<u8> },
    GetObject { bucket: Seq<char>, key: Seq<char> },
    ListVersions { bucket: Seq<char>, key: Seq<char> },
    DeleteObject { bucket: Seq<char>, key: Seq<char>, version: Option<Seq<char>> },
    BeginObliteration { hash: ContentHash },
    References,
    Obliterate { repository: Context, addresses: Seq<Address> },
    Release { repository: Context, address: Address },
    Finalize { hash: ContentHash },
    Finish,
}

impl View for StoreAction {
    type V = StoreStep;

    open spec fn view(&self) -> StoreStep {
        match *self {
            StoreAction::Sanitise { fragment } => StoreStep::Sanitise { fragment },
            StoreAction::ValidateSize { fragment } => StoreStep::ValidateSize { fragment },
            StoreAction::ValidatePayload { fragment, length } => StoreStep::ValidatePayload {
                fragment,
                length: length as int,
            },
            StoreAction::Query { repository, address, match_requested } => StoreStep::Query {
                repository,
                address,
                match_requested,
            },
            StoreAction::Associate { repository, address } => StoreStep::Associate {
                repository,
                address,
            },
            StoreAction::Register { repository, address, fragment } => StoreStep::Register {
                repository,
                address,
                fragment,
            },
            StoreAction::PutObject { bucket, key, body } => StoreStep::PutObject {
                bucket: bucket@,
                key: key@,
                body: body@,
            },
            StoreAction::GetObject { bucket, key } => StoreStep::GetObject {
                bucket: bucket@,
                key: key@,
            },
            StoreAction::ListVersions { bucket, key } => StoreStep::ListVersions {
                bucket: bucket@,
                key: key@,
            },
            StoreAction::DeleteObject { bucket, key, version } => StoreStep::DeleteObject {
                bucket: bucket@,
                key: key@,
                version: optional_text(version),
            },
            StoreAction::BeginObliteration { hash } => StoreStep::BeginObliteration { hash },
            StoreAction::References => StoreStep::References,
            StoreAction::Obliterate { repository, addresses } => StoreStep::Obliterate {
                repository,
                addresses: addresses@,
            },
            StoreAction::Release { repository, address } => StoreStep::Release {
                repository,
                address,
            },
            StoreAction::Finalize { hash } => StoreStep::Finalize { hash },
            StoreAction::Finish => StoreStep::Finish,
        }
    }
}

/// How the obliteration of a payload begins.
#[derive(Clone, Copy, Debug, PartialEq, Eq, Structural)]
pub enum BeginObliteration {
    /// It is obliterated.
    AlreadyObliterated,
    /// It is marked as being obliterated: its metadata before, and with the mark.
    Acquired { original: Fragment, marker: Fragment },
}

/// What is left once an association is dropped.
#[derive(Clone, Copy, Debug, PartialEq, Eq, Structural)]
pub enum ReleaseAssociation {
    /// The payload is associated with something else, and is not marked any more.
    ReferencesRemain,
    /// Nothing refers to the payload.
    Unreferenced,
}

/// What came of obliterating one of the fragments that a payload lists.
#[derive(Clone, Copy, Debug, PartialEq, Eq, Structural)]
pub struct ChildOutcome {
    /// Whether it was obliterated.
    pub obliterated: bool,
    /// How many associations were dropped for it in all.
    pub num_fragments: u64,
    /// How many payloads were deleted for it in all.
    pub num_payloads: u64,
}

/// What came of an action.
pub enum StoreEvent {
    /// The flags of the fragment, as they are kept.
    Sanitised(u32),
    Queried(Result<StoreQueryResult, StoreError>),
    Done(Result<(), StoreError>),
    Requested(Result<(), AwsFailure>),
    Versions(Result<Option<Vec<Option<String>>>, AwsFailure>),
    Begun(Result<BeginObliteration, StoreError>),
    Contents(Result<ObjectContents, StoreError>),
    References(Vec<ContentHash>),
    /// What came of each address.
    Obliterated(Vec<ChildOutcome>),
    Released(Result<ReleaseAssociation, StoreError>),
}

/// Whether `event` is what can come of `step`.
pub open spec fn answers_store(event: StoreEvent, step: StoreStep) -> bool {
    match step {
        StoreStep::Sanitise { .. } => event is Sanitised,
        StoreStep::Query { .. } => event is Queried,
        StoreStep::PutObject { .. } | StoreStep::DeleteObject { .. } => event is Requested,
        StoreStep::ListVersions { .. } => event is Versions,
        StoreStep::BeginObliteration { .. } => event is Begun,
        StoreStep::GetObject { .. } => event is Contents,
        StoreStep::References => event is References,
        StoreStep::Obliterate { addresses, .. } => event matches StoreEvent::Obliterated(outcomes)
            && outcomes@.len() == addresses.len(),
        StoreStep::Release { .. } => event is Released,
        StoreStep::Finish => false,
        _ => event is Done,
    }
}

} // verus!
