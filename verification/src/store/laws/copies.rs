//! What copying a fragment and deleting an object do.

use vstd::prelude::*;

use super::super::action::{StoreEvent, StoreStep};
use super::super::copy::{CopyStage, CopyState};
use super::super::delete::{every_version_is_deleted, DeletionStage, DeletionState};
use super::super::settings::S3ObjectVersioning;
use super::super::types::{StoreFailure, StoreMatch};
use super::puts::request_said;
use crate::text::optional_text;
use crate::types::{Address, Context};

verus! {

/// A fragment is copied from where it is to where it is asked for. The catalog is asked for it at the
/// source, for the same repository and context; what it does not find there is not copied; what it
/// finds is associated under the same hash with the repository and the context of the destination, and
/// nothing else is done.
pub proof fn a_fragment_is_copied_to_where_it_was_asked(
    source_repository: Context,
    source: Address,
    destination_repository: Context,
    destination_context: Context,
    found: StoreEvent,
    associated: StoreEvent,
)
    requires
        found is Queried,
        associated is Done,
    ensures
        ({
            let start = CopyState::start(
                source_repository,
                source,
                destination_repository,
                destination_context,
            );
            let asked = start.after(found);
            let done = asked.after(associated);
            &&& start.step() == StoreStep::Query {
                repository: source_repository,
                address: source,
                match_requested: StoreMatch::MatchFull,
            }
            &&& match found {
                StoreEvent::Queried(Err(error)) => asked.failure == Some(error@) && asked.stage
                    == CopyStage::Failed,
                StoreEvent::Queried(Ok(result)) => if result.match_made == StoreMatch::MatchFull {
                    &&& asked.failure is None
                    &&& asked.step() == StoreStep::Associate {
                        repository: destination_repository,
                        address: Address { hash: source.hash, context: destination_context },
                    }
                    &&& match associated {
                        StoreEvent::Done(Err(error)) => done.failure == Some(error@),
                        _ => done.failure is None && done.stage == CopyStage::Finished,
                    }
                } else {
                    asked.failure == Some(StoreFailure::AddressNotFound(source)) && asked.stage
                        == CopyStage::Failed
                },
                _ => false,
            }
        }),
{
}

/// Which version the step deletes, if it deletes one.
pub open spec fn version_deleted(step: StoreStep) -> Option<Option<Seq<char>>> {
    match step {
        StoreStep::DeleteObject { version, .. } => Some(version),
        _ => None,
    }
}

/// An object is deleted with all of its versions. Where versions are not kept, or none are listed, it is
/// deleted once, by its key alone; where they are kept they are listed, and each that was listed is
/// deleted, one after the other. A deletion fails exactly where a request does, with what is said of it.
pub proof fn an_object_is_deleted_with_its_versions(
    bucket: Seq<char>,
    key: Seq<char>,
    versioning: S3ObjectVersioning,
    events: Seq<StoreEvent>,
)
    ensures
        DeletionState::start(bucket, key, versioning).after_all(events) matches Some(state) ==> {
            &&& state.valid()
            &&& match state.step() {
                StoreStep::DeleteObject { bucket: from, key: under, .. } => from == bucket && under
                    == key,
                StoreStep::ListVersions { bucket: from, key: under } => from == bucket && under
                    == key && events.len() == 0 && versioning == S3ObjectVersioning::Versioned,
                StoreStep::Finish => events.len() > 0,
                _ => false,
            }
            &&& events.len() == 0 ==> (versioning == S3ObjectVersioning::Versioned
                <==> state.step() is ListVersions)
            &&& versioning == S3ObjectVersioning::Unversioned ==> if events.len() == 0 {
                version_deleted(state.step()) == Some(None::<Seq<char>>)
            } else {
                &&& events.len() == 1
                &&& match events[0] {
                    StoreEvent::Requested(Err(failure)) => state.failure == Some(
                        request_said(failure, "S3 delete object failed"@),
                    ),
                    _ => state.stage == DeletionStage::Finished,
                }
            }
            &&& versioning == S3ObjectVersioning::Versioned && events.len() > 0 ==> match events[0] {
                StoreEvent::Versions(Err(failure)) => events.len() == 1 && state.failure == Some(
                    request_said(failure, "S3 list object versions failed"@),
                ),
                StoreEvent::Versions(Ok(None)) => if events.len() == 1 {
                    version_deleted(state.step()) == Some(None::<Seq<char>>)
                } else {
                    &&& events.len() == 2
                    &&& match events[1] {
                        StoreEvent::Requested(Err(failure)) => state.failure == Some(
                            request_said(failure, "S3 delete object failed"@),
                        ),
                        _ => state.stage == DeletionStage::Finished,
                    }
                },
                StoreEvent::Versions(Ok(Some(versions))) => {
                    &&& events.len() <= versions@.len() + 1
                    &&& state.stage == DeletionStage::Version || state.stage
                        == DeletionStage::Finished || state.stage == DeletionStage::Failed
                    &&& match events.last() {
                        StoreEvent::Requested(Err(failure)) => state.failure == Some(
                            request_said(failure, "S3 delete object version failed"@),
                        ),
                        _ => {
                            &&& state.deleted == events.len() - 1
                            &&& state.versions.len() == versions@.len()
                            &&& if events.len() == versions@.len() + 1 {
                                state.stage == DeletionStage::Finished
                            } else {
                                version_deleted(state.step()) == Some(
                                    optional_text(versions@[events.len() - 1]),
                                )
                            }
                        },
                    }
                    &&& forall|i: int|
                        0 <= i < versions@.len() ==> #[trigger] state.versions[i] == optional_text(
                            versions@[i],
                        )
                    &&& state.versions.len() == versions@.len()
                },
                _ => false,
            }
        },
    decreases events.len(),
{
    if events.len() > 0 {
        let before = events.drop_last();
        an_object_is_deleted_with_its_versions(bucket, key, versioning, before);
        every_version_is_deleted(bucket, key, versioning, events);
        assert(before.len() > 0 ==> before[0] == events[0]);
    }
}

} // verus!
