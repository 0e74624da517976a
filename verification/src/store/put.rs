//! Storing a fragment.

use vstd::prelude::*;

use super::action::{answers_store, StoreAction, StoreEvent, StoreStep};
use super::delete::optional_failure;
use super::settings::AwsImmutableStore;
use super::types::{
    request_error, request_failed, FlagMasks, Fragment, StoreError, StoreFailure, StoreMatch,
    StoreQueryResult,
};
use crate::types::{Address, Context};

verus! {

/// What there is to do about a fragment, from what the catalog says of it.
pub enum PutPlan {
    /// It is stored, for the same context.
    Nothing,
    /// The payload is stored; it is to be associated with the context.
    Associate,
    /// The payload is to be written.
    Write,
    /// It cannot be stored.
    Fail(StoreFailure),
}

/// What there is to do about a fragment at `address`, from what the catalog found there, if it was
/// asked and answered. A payload must be given where no payload of the repository matches: having the
/// hash of a payload is not having the payload.
pub open spec fn put_plan(
    found: Option<StoreQueryResult>,
    address: Address,
    fragment: Fragment,
    payload: bool,
    masks: FlagMasks,
) -> PutPlan {
    match found {
        Some(found) if found.fragment.flags & masks.obliterating == masks.obliterating => {
            PutPlan::Fail(
                StoreFailure::Internal("Failed to obliterate immutable "@ + address.text()),
            )
        },
        Some(found) if found.match_made != StoreMatch::MatchNone && fragment.size_content
            != found.fragment.size_content && found.fragment.flags & masks.obliterated
            != masks.obliterated => PutPlan::Fail(StoreFailure::Internal("Hash collision"@)),
        _ => {
            let match_made = match found {
                Some(found) => found.match_made,
                None => StoreMatch::MatchNone,
            };
            match match_made {
                StoreMatch::MatchFull => PutPlan::Nothing,
                StoreMatch::MatchPartition => PutPlan::Associate,
                StoreMatch::MatchHash => if payload {
                    PutPlan::Associate
                } else {
                    PutPlan::Fail(StoreFailure::Internal("Payload buffer required"@))
                },
                StoreMatch::MatchNone => if payload {
                    PutPlan::Write
                } else {
                    PutPlan::Fail(StoreFailure::Internal("Payload buffer required"@))
                },
            }
        },
    }
}

/// What the operation waits for.
#[derive(Clone, Copy, Debug, PartialEq, Eq, Structural)]
pub enum PutStage {
    Sanitise,
    Validate,
    Query,
    Associate,
    PutObject,
    Register,
    Finished,
    Failed,
}

/// The state of the operation.
pub struct PutState {
    pub bucket: Seq<char>,
    /// Whether payloads are written whether or not they are there.
    pub force_write: bool,
    pub masks: FlagMasks,
    pub repository: Context,
    pub address: Address,
    pub fragment: Fragment,
    pub payload: Option<Seq<u8>>,
    /// What the catalog found, if that is asked.
    pub found: Option<StoreQueryResult>,
    /// Whether this operation has written the payload.
    pub written: bool,
    /// What is said of the failure, once there is one.
    pub failure: Option<StoreFailure>,
    pub stage: PutStage,
}

impl PutState {
    /// The state at the start.
    pub open spec fn start(
        bucket: Seq<char>,
        force_write: bool,
        masks: FlagMasks,
        repository: Context,
        address: Address,
        fragment: Fragment,
        payload: Option<Seq<u8>>,
    ) -> PutState {
        PutState {
            bucket,
            force_write,
            masks,
            repository,
            address,
            fragment,
            payload,
            found: None,
            written: false,
            failure: None,
            stage: PutStage::Sanitise,
        }
    }

    /// What to do next.
    pub open spec fn step(self) -> StoreStep {
        match self.stage {
            PutStage::Sanitise => StoreStep::Sanitise { fragment: self.fragment },
            PutStage::Validate => match self.payload {
                Some(payload) => StoreStep::ValidatePayload {
                    fragment: self.fragment,
                    length: payload.len() as int,
                },
                None => StoreStep::ValidateSize { fragment: self.fragment },
            },
            PutStage::Query => StoreStep::Query {
                repository: self.repository,
                address: self.address,
                match_requested: StoreMatch::MatchFull,
            },
            PutStage::Associate => StoreStep::Associate {
                repository: self.repository,
                address: self.address,
            },
            PutStage::PutObject => StoreStep::PutObject {
                bucket: self.bucket,
                key: self.address.hash.text(),
                body: match self.payload {
                    Some(payload) => payload,
                    None => Seq::empty(),
                },
            },
            PutStage::Register => StoreStep::Register {
                repository: self.repository,
                address: self.address,
                fragment: self.fragment,
            },
            PutStage::Finished | PutStage::Failed => StoreStep::Finish,
        }
    }

    /// The state after a failure.
    pub open spec fn fail(self, failure: StoreFailure) -> PutState {
        PutState { failure: Some(failure), stage: PutStage::Failed, ..self }
    }

    /// The state once the payload is to be written, which must have the size that the fragment says.
    pub open spec fn write(self) -> PutState {
        match self.payload {
            Some(payload) if payload.len() == self.fragment.size_payload => PutState {
                stage: PutStage::PutObject,
                ..self
            },
            _ => self.fail(
                StoreFailure::Internal(
                    "Failed to store in immutable store for put "@ + self.address.hash.text(),
                ),
            ),
        }
    }

    /// The state once it is known what the catalog found. Where payloads are always written, what it
    /// found does not count, and a catalog that does not answer is taken to have found nothing.
    pub open spec fn decide(self, queried: Result<StoreQueryResult, StoreFailure>) -> PutState {
        let found = match queried {
            Ok(found) if !self.force_write => Some(found),
            _ => None,
        };
        let state = PutState { found, ..self };
        match put_plan(found, self.address, self.fragment, self.payload is Some, self.masks) {
            PutPlan::Nothing => PutState { stage: PutStage::Finished, ..state },
            PutPlan::Associate => PutState { stage: PutStage::Associate, ..state },
            PutPlan::Write => state.write(),
            PutPlan::Fail(failure) => state.fail(failure),
        }
    }

    /// The state after `event`.
    pub open spec fn after(self, event: StoreEvent) -> PutState {
        match (self.stage, event) {
            (PutStage::Sanitise, StoreEvent::Sanitised(flags)) => PutState {
                fragment: Fragment { flags, ..self.fragment },
                stage: PutStage::Validate,
                ..self
            },
            (PutStage::Validate, StoreEvent::Done(Ok(()))) => PutState {
                stage: PutStage::Query,
                ..self
            },
            (PutStage::Query, StoreEvent::Queried(Ok(found))) => self.decide(Ok(found)),
            (PutStage::Query, StoreEvent::Queried(Err(error))) => self.decide(Err(error@)),
            (PutStage::PutObject, StoreEvent::Requested(Ok(()))) => PutState {
                written: true,
                stage: PutStage::Register,
                ..self
            },
            (PutStage::PutObject, StoreEvent::Requested(Err(failure))) => self.fail(
                request_failed(failure, "S3 put object failed"@),
            ),
            (PutStage::Associate, StoreEvent::Done(Ok(()))) => PutState {
                stage: PutStage::Finished,
                ..self
            },
            (PutStage::Register, StoreEvent::Done(Ok(()))) => PutState {
                stage: PutStage::Finished,
                ..self
            },
            (_, StoreEvent::Done(Err(error))) => self.fail(error@),
            _ => self,
        }
    }

    /// The state after each of `events` in turn, if each is what can come of the step before it.
    pub open spec fn after_all(self, events: Seq<StoreEvent>) -> Option<PutState>
        decreases events.len(),
    {
        if events.len() == 0 {
            Some(self)
        } else {
            match self.after_all(events.drop_last()) {
                Some(state) if answers_store(events.last(), state.step()) => Some(
                    state.after(events.last()),
                ),
                _ => None,
            }
        }
    }

    /// How well what is stored matches, as far as that counts.
    pub open spec fn match_made(self) -> StoreMatch {
        match self.found {
            Some(found) => found.match_made,
            None => StoreMatch::MatchNone,
        }
    }

    /// Whether the state is one that an operation can be in.
    pub open spec fn valid(self) -> bool {
        &&& self.failure is Some <==> self.stage == PutStage::Failed
        &&& self.written ==> (self.payload matches Some(payload) && payload.len()
            == self.fragment.size_payload)
        &&& match self.stage {
            PutStage::Sanitise | PutStage::Validate | PutStage::Query => !self.written,
            PutStage::Associate => self.match_made() == StoreMatch::MatchPartition || (
            self.match_made() == StoreMatch::MatchHash && self.payload is Some),
            PutStage::PutObject => !self.written && (self.payload matches Some(payload)
                && payload.len() == self.fragment.size_payload),
            PutStage::Register => self.written,
            PutStage::Finished => self.written || self.match_made() != StoreMatch::MatchNone,
            PutStage::Failed => true,
        }
    }
}

/// A fragment is registered only after its payload was written, whole, and a payload that was not
/// written is associated only where the catalog reports a match. An operation that succeeds has
/// written the payload or was told of a match.
pub proof fn a_payload_is_written_before_it_is_registered(
    bucket: Seq<char>,
    force_write: bool,
    masks: FlagMasks,
    repository: Context,
    address: Address,
    fragment: Fragment,
    payload: Option<Seq<u8>>,
    events: Seq<StoreEvent>,
)
    ensures
        match PutState::start(
            bucket,
            force_write,
            masks,
            repository,
            address,
            fragment,
            payload,
        ).after_all(events) {
            Some(state) => {
                &&& state.valid()
                &&& state.payload == payload && state.address == address && state.repository
                    == repository
                &&& state.step() is Register ==> state.written
                &&& state.step() is Associate ==> state.match_made() != StoreMatch::MatchNone
                &&& state.written ==> (payload matches Some(payload) && payload.len()
                    == state.fragment.size_payload)
                &&& state.stage == PutStage::Finished ==> state.written || state.match_made()
                    != StoreMatch::MatchNone
            },
            None => true,
        },
    decreases events.len(),
{
    if events.len() > 0 {
        a_payload_is_written_before_it_is_registered(
            bucket,
            force_write,
            masks,
            repository,
            address,
            fragment,
            payload,
            events.drop_last(),
        );
    }
}

/// What a failure of the catalog leaves is repaired by storing the fragment again: an operation on the
/// same fragment and payload that finds nothing writes the same object under the same key, and ends
/// well if what it has done for it succeeds.
pub proof fn storing_again_repairs(
    bucket: Seq<char>,
    force_write: bool,
    masks: FlagMasks,
    repository: Context,
    address: Address,
    fragment: Fragment,
    payload: Seq<u8>,
    found: StoreQueryResult,
)
    requires
        payload.len() == fragment.size_payload,
        found == StoreQueryResult::nothing(),
        masks.obliterating != 0,
    ensures
        ({
            let start = PutState::start(
                bucket,
                force_write,
                masks,
                repository,
                address,
                fragment,
                Some(payload),
            );
            let prepared = seq![
                StoreEvent::Sanitised(fragment.flags),
                StoreEvent::Done(Ok(())),
                StoreEvent::Queried(Ok(found)),
            ];
            let written = prepared.push(StoreEvent::Requested(Ok(())));
            let registered = written.push(StoreEvent::Done(Ok(())));
            &&& start.after_all(prepared) matches Some(state) && state.step()
                == (StoreStep::PutObject { bucket, key: address.hash.text(), body: payload })
            &&& start.after_all(written) matches Some(state) && state.step()
                == (StoreStep::Register { repository, address, fragment })
            &&& start.after_all(registered) matches Some(state) && state.stage
                == PutStage::Finished
        }),
{
    let start = PutState::start(
        bucket,
        force_write,
        masks,
        repository,
        address,
        fragment,
        Some(payload),
    );
    let none = Seq::<StoreEvent>::empty();
    let sanitised = none.push(StoreEvent::Sanitised(fragment.flags));
    let checked = sanitised.push(StoreEvent::Done(Ok(())));
    let prepared = checked.push(StoreEvent::Queried(Ok(found)));
    let written = prepared.push(StoreEvent::Requested(Ok(())));
    let registered = written.push(StoreEvent::Done(Ok(())));
    let mask = masks.obliterating;
    assert(0u32 & mask == 0) by (bit_vector);
    assert(prepared =~= seq![
        StoreEvent::Sanitised(fragment.flags),
        StoreEvent::Done(Ok(())),
        StoreEvent::Queried(Ok(found)),
    ]);
    assert(sanitised.drop_last() =~= none);
    assert(checked.drop_last() =~= sanitised);
    assert(prepared.drop_last() =~= checked);
    assert(written.drop_last() =~= prepared);
    assert(registered.drop_last() =~= written);
    assert(start.after_all(none) == Some(start));
    let first = start.after(StoreEvent::Sanitised(fragment.flags));
    assert(start.after_all(sanitised) == Some(first));
    let second = first.after(StoreEvent::Done(Ok(())));
    assert(start.after_all(checked) == Some(second));
    let third = second.after(StoreEvent::Queried(Ok(found)));
    assert(start.after_all(prepared) == Some(third));
    assert(third.stage == PutStage::PutObject);
    let fourth = third.after(StoreEvent::Requested(Ok(())));
    assert(start.after_all(written) == Some(fourth));
    assert(start.after_all(registered) == Some(fourth.after(StoreEvent::Done(Ok(())))));
}

/// An operation in progress.
pub struct Put {
    pub bucket: String,
    pub force_write: bool,
    pub masks: FlagMasks,
    pub repository: Context,
    pub address: Address,
    pub fragment: Fragment,
    pub payload: Option<Vec<u8>>,
    pub found: Option<StoreQueryResult>,
    pub written: bool,
    pub failure: Option<StoreError>,
    pub stage: PutStage,
}

impl View for Put {
    type V = PutState;

    open spec fn view(&self) -> PutState {
        PutState {
            bucket: self.bucket@,
            force_write: self.force_write,
            masks: self.masks,
            repository: self.repository,
            address: self.address,
            fragment: self.fragment,
            payload: match self.payload {
                Some(payload) => Some(payload@),
                None => None,
            },
            found: self.found,
            written: self.written,
            failure: optional_failure(self.failure),
            stage: self.stage,
        }
    }
}

impl AwsImmutableStore {
    /// Starts to store a fragment for a repository at an address.
    pub fn put(
        &self,
        masks: FlagMasks,
        repository: Context,
        address: Address,
        fragment: Fragment,
        payload: Option<Vec<u8>>,
    ) -> (put: Put)
        ensures
            put@ == PutState::start(
                self.bucket@,
                self.force_write,
                masks,
                repository,
                address,
                fragment,
                match payload {
                    Some(payload) => Some(payload@),
                    None => None,
                },
            ),
            put@.valid(),
    {
        Put {
            bucket: self.bucket.clone(),
            force_write: self.force_write,
            masks,
            repository,
            address,
            fragment,
            payload,
            found: None,
            written: false,
            failure: None,
            stage: PutStage::Sanitise,
        }
    }
}

impl Put {
    /// What to do next.
    pub fn action(&self) -> (action: StoreAction)
        ensures
            action@ == self@.step(),
    {
        match self.stage {
            PutStage::Sanitise => StoreAction::Sanitise { fragment: self.fragment },
            PutStage::Validate => match &self.payload {
                Some(payload) => StoreAction::ValidatePayload {
                    fragment: self.fragment,
                    length: payload.len(),
                },
                None => StoreAction::ValidateSize { fragment: self.fragment },
            },
            PutStage::Query => StoreAction::Query {
                repository: self.repository,
                address: self.address,
                match_requested: StoreMatch::MatchFull,
            },
            PutStage::Associate => StoreAction::Associate {
                repository: self.repository,
                address: self.address,
            },
            PutStage::PutObject => {
                let body: Vec<u8> = match &self.payload {
                    Some(payload) => {
                        let body: Vec<u8> = payload.clone();
                        proof {
                            assert(body@ =~= payload@);
                        }
                        body
                    },
                    None => Vec::new(),
                };
                StoreAction::PutObject {
                    bucket: self.bucket.clone(),
                    key: self.address.hash.to_text(),
                    body,
                }
            },
            PutStage::Register => StoreAction::Register {
                repository: self.repository,
                address: self.address,
                fragment: self.fragment,
            },
            PutStage::Finished | PutStage::Failed => StoreAction::Finish,
        }
    }

    /// Takes a failure.
    fn fail(&mut self, error: StoreError)
        ensures
            final(self)@ == old(self)@.fail(error@),
    {
        self.failure = Some(error);
        self.stage = PutStage::Failed;
    }

    /// Has the payload written.
    fn write_payload(&mut self)
        ensures
            final(self)@ == old(self)@.write(),
    {
        let whole: bool = match &self.payload {
            Some(payload) => payload.len() == self.fragment.size_payload as usize,
            None => false,
        };
        if whole {
            self.stage = PutStage::PutObject;
        } else {
            let message = "Failed to store in immutable store for put ".to_owned().concat(
                self.address.hash.to_text().as_str(),
            );
            self.fail(StoreError::Internal(message));
        }
    }

    /// Takes what the catalog found.
    fn decide(&mut self, queried: Result<StoreQueryResult, StoreError>)
        ensures
            final(self)@ == old(self)@.decide(
                match queried {
                    Ok(found) => Ok(found),
                    Err(error) => Err(error@),
                },
            ),
    {
        let found: Option<StoreQueryResult> = match queried {
            Ok(found) => if self.force_write {
                None
            } else {
                Some(found)
            },
            Err(_) => None,
        };
        self.found = found;
        let match_made: StoreMatch = match found {
            Some(found) => {
                if found.fragment.flags & self.masks.obliterating == self.masks.obliterating {
                    let message = "Failed to obliterate immutable ".to_owned().concat(
                        self.address.to_text().as_str(),
                    );
                    self.fail(StoreError::Internal(message));
                    return ;
                }
                if found.match_made != StoreMatch::MatchNone && self.fragment.size_content
                    != found.fragment.size_content && found.fragment.flags & self.masks.obliterated
                    != self.masks.obliterated {
                    self.fail(StoreError::Internal("Hash collision".to_owned()));
                    return ;
                }
                found.match_made
            },
            None => StoreMatch::MatchNone,
        };
        let payload: bool = self.payload.is_some();
        match match_made {
            StoreMatch::MatchFull => {
                self.stage = PutStage::Finished;
            },
            StoreMatch::MatchPartition => {
                self.stage = PutStage::Associate;
            },
            StoreMatch::MatchHash => if payload {
                self.stage = PutStage::Associate;
            } else {
                self.fail(StoreError::Internal("Payload buffer required".to_owned()));
            },
            StoreMatch::MatchNone => if payload {
                self.write_payload();
            } else {
                self.fail(StoreError::Internal("Payload buffer required".to_owned()));
            },
        }
    }

    /// Takes what came of the action.
    pub fn advance(&mut self, event: StoreEvent)
        requires
            old(self)@.valid(),
            answers_store(event, old(self)@.step()),
        ensures
            final(self)@ == old(self)@.after(event),
            final(self)@.valid(),
    {
        match (self.stage, event) {
            (PutStage::Sanitise, StoreEvent::Sanitised(flags)) => {
                self.fragment.flags = flags;
                self.stage = PutStage::Validate;
            },
            (PutStage::Validate, StoreEvent::Done(Ok(()))) => {
                self.stage = PutStage::Query;
            },
            (PutStage::Query, StoreEvent::Queried(queried)) => self.decide(queried),
            (PutStage::PutObject, StoreEvent::Requested(Ok(()))) => {
                self.written = true;
                self.stage = PutStage::Register;
            },
            (PutStage::PutObject, StoreEvent::Requested(Err(failure))) => self.fail(
                request_error(failure, "S3 put object failed"),
            ),
            (PutStage::Associate, StoreEvent::Done(Ok(()))) => {
                self.stage = PutStage::Finished;
            },
            (PutStage::Register, StoreEvent::Done(Ok(()))) => {
                self.stage = PutStage::Finished;
            },
            (_, StoreEvent::Done(Err(error))) => self.fail(error),
            _ => {},
        }
    }

    /// How the operation ended.
    pub fn outcome(self) -> (outcome: Result<(), StoreError>)
        requires
            self@.valid(),
            self@.step() == StoreStep::Finish,
        ensures
            match outcome {
                Ok(()) => self@.stage == PutStage::Finished,
                Err(error) => self@.stage == PutStage::Failed && self@.failure == Some(error@),
            },
    {
        match self.failure {
            Some(error) => Err(error),
            None => Ok(()),
        }
    }
}

} // verus!
