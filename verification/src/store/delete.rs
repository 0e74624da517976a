//! Deleting a payload for good.
//!
//! Where the object store may keep older versions of an object, each version is deleted.

use vstd::prelude::*;

use super::action::{answers_store, StoreAction, StoreEvent, StoreStep};
use super::settings::{AwsImmutableStore, S3ObjectVersioning};
use super::types::{request_error, request_failed, StoreError, StoreFailure};
use crate::text::optional_text;
use crate::types::ContentHash;

verus! {

/// What the deletion waits for.
#[derive(Clone, Copy, Debug, PartialEq, Eq, Structural)]
pub enum DeletionStage {
    /// The one value of the object is deleted.
    Unversioned,
    List,
    /// One version of the object is deleted.
    Version,
    /// The object is deleted, since no versions were listed.
    Plain,
    Finished,
    Failed,
}

/// The state of the deletion.
pub struct DeletionState {
    pub bucket: Seq<char>,
    pub key: Seq<char>,
    /// The versions that were listed.
    pub versions: Seq<Option<Seq<char>>>,
    /// How many of them are deleted.
    pub deleted: int,
    /// What is said of the failure, once there is one.
    pub failure: Option<StoreFailure>,
    pub stage: DeletionStage,
}

/// The ids of versions.
pub open spec fn version_ids(versions: Seq<Option<String>>) -> Seq<Option<Seq<char>>> {
    versions.map_values(|version: Option<String>| optional_text(version))
}

impl DeletionState {
    /// The state at the start of deleting the object under a key.
    pub open spec fn start(
        bucket: Seq<char>,
        key: Seq<char>,
        versioning: S3ObjectVersioning,
    ) -> DeletionState {
        DeletionState {
            bucket,
            key,
            versions: Seq::empty(),
            deleted: 0,
            failure: None,
            stage: match versioning {
                S3ObjectVersioning::Unversioned => DeletionStage::Unversioned,
                S3ObjectVersioning::Versioned => DeletionStage::List,
            },
        }
    }

    /// What to do next.
    pub open spec fn step(self) -> StoreStep {
        match self.stage {
            DeletionStage::Unversioned | DeletionStage::Plain => StoreStep::DeleteObject {
                bucket: self.bucket,
                key: self.key,
                version: None,
            },
            DeletionStage::List => StoreStep::ListVersions { bucket: self.bucket, key: self.key },
            DeletionStage::Version => StoreStep::DeleteObject {
                bucket: self.bucket,
                key: self.key,
                version: self.versions[self.deleted],
            },
            DeletionStage::Finished | DeletionStage::Failed => StoreStep::Finish,
        }
    }

    /// The state after a failure.
    pub open spec fn fail(self, failure: StoreFailure) -> DeletionState {
        DeletionState { failure: Some(failure), stage: DeletionStage::Failed, ..self }
    }

    /// The state once some versions are deleted: the next is, or all are.
    pub open spec fn go_on(self, deleted: int) -> DeletionState {
        DeletionState {
            deleted,
            stage: if deleted < self.versions.len() {
                DeletionStage::Version
            } else {
                DeletionStage::Finished
            },
            ..self
        }
    }

    /// The state after `event`.
    pub open spec fn after(self, event: StoreEvent) -> DeletionState {
        match (self.stage, event) {
            (DeletionStage::Unversioned, StoreEvent::Requested(Ok(()))) => DeletionState {
                stage: DeletionStage::Finished,
                ..self
            },
            (DeletionStage::Plain, StoreEvent::Requested(Ok(()))) => DeletionState {
                stage: DeletionStage::Finished,
                ..self
            },
            (DeletionStage::Unversioned, StoreEvent::Requested(Err(failure))) => self.fail(
                request_failed(failure, "S3 delete object failed"@),
            ),
            (DeletionStage::Plain, StoreEvent::Requested(Err(failure))) => self.fail(
                request_failed(failure, "S3 delete object failed"@),
            ),
            (DeletionStage::List, StoreEvent::Versions(Err(failure))) => self.fail(
                request_failed(failure, "S3 list object versions failed"@),
            ),
            (DeletionStage::List, StoreEvent::Versions(Ok(Some(versions)))) => (DeletionState {
                versions: version_ids(versions@),
                ..self
            }).go_on(0),
            (DeletionStage::List, StoreEvent::Versions(Ok(None))) => DeletionState {
                stage: DeletionStage::Plain,
                ..self
            },
            (DeletionStage::Version, StoreEvent::Requested(Ok(()))) => self.go_on(self.deleted + 1),
            (DeletionStage::Version, StoreEvent::Requested(Err(failure))) => self.fail(
                request_failed(failure, "S3 delete object version failed"@),
            ),
            _ => self,
        }
    }

    /// The state after each of `events` in turn, if each is what can come of the step before it.
    pub open spec fn after_all(self, events: Seq<StoreEvent>) -> Option<DeletionState>
        decreases events.len(),
    {
        if events.len() == 0 {
            Some(self)
        } else {
            match self.after_all(events.drop_last()) {
                Some(state) if answers_store(events.last(), state.step()) => Some(
                    state.after(events.last()),
                ),
                _ => None,
            }
        }
    }

    /// Whether the state is one that a deletion can be in.
    pub open spec fn valid(self) -> bool {
        &&& self.failure is Some <==> self.stage == DeletionStage::Failed
        &&& 0 <= self.deleted <= self.versions.len()
        &&& match self.stage {
            DeletionStage::Version => self.deleted < self.versions.len(),
            DeletionStage::Finished => self.deleted == self.versions.len(),
            DeletionStage::Failed => true,
            _ => self.versions.len() == 0,
        }
    }
}

/// A deletion that succeeds has deleted every version that was listed, and one of an object store that
/// keeps no versions lists none.
pub proof fn every_version_is_deleted(
    bucket: Seq<char>,
    key: Seq<char>,
    versioning: S3ObjectVersioning,
    events: Seq<StoreEvent>,
)
    ensures
        match DeletionState::start(bucket, key, versioning).after_all(events) {
            Some(state) => {
                &&& state.valid()
                &&& state.bucket == bucket && state.key == key
                &&& state.stage == DeletionStage::Finished ==> state.deleted
                    == state.versions.len()
                &&& versioning == S3ObjectVersioning::Unversioned ==> !(state.step()
                    is ListVersions) && state.versions.len() == 0 && (state.stage
                    == DeletionStage::Unversioned || state.stage == DeletionStage::Finished
                    || state.stage == DeletionStage::Failed)
            },
            None => true,
        },
    decreases events.len(),
{
    if events.len() > 0 {
        every_version_is_deleted(bucket, key, versioning, events.drop_last());
    }
}

/// A deletion in progress.
pub struct Deletion {
    pub bucket: String,
    pub key: String,
    pub versions: Vec<Option<String>>,
    pub deleted: usize,
    pub failure: Option<StoreError>,
    pub stage: DeletionStage,
}

/// What is said of a failure that there may be.
pub open spec fn optional_failure(failure: Option<StoreError>) -> Option<StoreFailure> {
    match failure {
        Some(error) => Some(error@),
        None => None,
    }
}

impl View for Deletion {
    type V = DeletionState;

    open spec fn view(&self) -> DeletionState {
        DeletionState {
            bucket: self.bucket@,
            key: self.key@,
            versions: version_ids(self.versions@),
            deleted: self.deleted as int,
            failure: optional_failure(self.failure),
            stage: self.stage,
        }
    }
}

impl AwsImmutableStore {
    /// Starts to delete the payload with a hash.
    pub fn delete_payload(&self, hash: ContentHash) -> (deletion: Deletion)
        ensures
            deletion@ == DeletionState::start(self.bucket@, hash.text(), self.object_versioning),
            deletion@.valid(),
    {
        let deletion = Deletion {
            bucket: self.bucket.clone(),
            key: hash.to_text(),
            versions: Vec::new(),
            deleted: 0,
            failure: None,
            stage: match self.object_versioning {
                S3ObjectVersioning::Unversioned => DeletionStage::Unversioned,
                S3ObjectVersioning::Versioned => DeletionStage::List,
            },
        };
        proof {
            assert(deletion@.versions =~= Seq::empty());
        }
        deletion
    }
}

impl Deletion {
    /// What to do next.
    pub fn action(&self) -> (action: StoreAction)
        requires
            self@.valid(),
        ensures
            action@ == self@.step(),
    {
        match self.stage {
            DeletionStage::Unversioned | DeletionStage::Plain => StoreAction::DeleteObject {
                bucket: self.bucket.clone(),
                key: self.key.clone(),
                version: None,
            },
            DeletionStage::List => StoreAction::ListVersions {
                bucket: self.bucket.clone(),
                key: self.key.clone(),
            },
            DeletionStage::Version => StoreAction::DeleteObject {
                bucket: self.bucket.clone(),
                key: self.key.clone(),
                version: match &self.versions[self.deleted] {
                    Some(version) => Some(version.clone()),
                    None => None,
                },
            },
            DeletionStage::Finished | DeletionStage::Failed => StoreAction::Finish,
        }
    }

    /// Takes a failure.
    fn fail(&mut self, error: StoreError)
        ensures
            final(self)@ == old(self)@.fail(error@),
    {
        self.failure = Some(error);
        self.stage = DeletionStage::Failed;
    }

    /// Goes on once some versions are deleted.
    fn go_on(&mut self, deleted: usize)
        ensures
            final(self)@ == old(self)@.go_on(deleted as int),
    {
        self.deleted = deleted;
        if deleted < self.versions.len() {
            self.stage = DeletionStage::Version;
        } else {
            self.stage = DeletionStage::Finished;
        }
    }

    /// Takes what came of the action.
    pub fn advance(&mut self, event: StoreEvent)
        requires
            old(self)@.valid(),
            answers_store(event, old(self)@.step()),
        ensures
            final(self)@ == old(self)@.after(event),
            final(self)@.valid(),
    {
        match self.stage {
            DeletionStage::Unversioned | DeletionStage::Plain => match event {
                StoreEvent::Requested(Err(failure)) => self.fail(
                    request_error(failure, "S3 delete object failed"),
                ),
                _ => {
                    self.stage = DeletionStage::Finished;
                },
            },
            DeletionStage::List => match event {
                StoreEvent::Versions(Ok(Some(versions))) => {
                    self.versions = versions;
                    self.go_on(0);
                },
                StoreEvent::Versions(Err(failure)) => self.fail(
                    request_error(failure, "S3 list object versions failed"),
                ),
                _ => {
                    self.stage = DeletionStage::Plain;
                },
            },
            DeletionStage::Version => match event {
                StoreEvent::Requested(Err(failure)) => self.fail(
                    request_error(failure, "S3 delete object version failed"),
                ),
                _ => {
                    let count: usize = self.versions.len();
                    assert(self.deleted < count);
                    self.go_on(self.deleted + 1);
                },
            },
            DeletionStage::Finished | DeletionStage::Failed => {},
        }
    }

    /// How the deletion ended.
    pub fn outcome(self) -> (outcome: Result<(), StoreError>)
        requires
            self@.valid(),
            self@.step() == StoreStep::Finish,
        ensures
            match outcome {
                Ok(()) => self@.stage == DeletionStage::Finished,
                Err(error) => self@.stage == DeletionStage::Failed && self@.failure
                    == Some(error@),
            },
    {
        match self.failure {
            Some(error) => Err(error),
            None => Ok(()),
        }
    }
}

} // verus!
