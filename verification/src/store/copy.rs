//! Making a payload of one repository one of another, or of another context.

use vstd::prelude::*;

use super::action::{answers_store, StoreAction, StoreEvent, StoreStep};
use super::delete::optional_failure;
use super::types::{StoreError, StoreFailure, StoreMatch};
use crate::types::{Address, Context};

verus! {

/// What the operation waits for.
#[derive(Clone, Copy, Debug, PartialEq, Eq, Structural)]
pub enum CopyStage {
    Query,
    Associate,
    Finished,
    Failed,
}

/// The state of the operation.
pub struct CopyState {
    pub source_repository: Context,
    pub source: Address,
    pub destination_repository: Context,
    pub destination_context: Context,
    /// What is said of the failure, once there is one.
    pub failure: Option<StoreFailure>,
    pub stage: CopyStage,
}

impl CopyState {
    /// The state at the start.
    pub open spec fn start(
        source_repository: Context,
        source: Address,
        destination_repository: Context,
        destination_context: Context,
    ) -> CopyState {
        CopyState {
            source_repository,
            source,
            destination_repository,
            destination_context,
            failure: None,
            stage: CopyStage::Query,
        }
    }

    /// What to do next. The copy has the hash of the source and a context of its own.
    pub open spec fn step(self) -> StoreStep {
        match self.stage {
            CopyStage::Query => StoreStep::Query {
                repository: self.source_repository,
                address: self.source,
                match_requested: StoreMatch::MatchFull,
            },
            CopyStage::Associate => StoreStep::Associate {
                repository: self.destination_repository,
                address: Address { hash: self.source.hash, context: self.destination_context },
            },
            CopyStage::Finished | CopyStage::Failed => StoreStep::Finish,
        }
    }

    /// The state after a failure.
    pub open spec fn fail(self, failure: StoreFailure) -> CopyState {
        CopyState { failure: Some(failure), stage: CopyStage::Failed, ..self }
    }

    /// The state after `event`. Only what is stored at the source, for its own context, is copied.
    pub open spec fn after(self, event: StoreEvent) -> CopyState {
        match (self.stage, event) {
            (CopyStage::Query, StoreEvent::Queried(Ok(found))) => if found.match_made
                == StoreMatch::MatchFull {
                CopyState { stage: CopyStage::Associate, ..self }
            } else {
                self.fail(StoreFailure::AddressNotFound(self.source))
            },
            (CopyStage::Query, StoreEvent::Queried(Err(error))) => self.fail(error@),
            (CopyStage::Associate, StoreEvent::Done(Ok(()))) => CopyState {
                stage: CopyStage::Finished,
                ..self
            },
            (CopyStage::Associate, StoreEvent::Done(Err(error))) => self.fail(error@),
            _ => self,
        }
    }

    /// Whether the state is one that an operation can be in.
    pub open spec fn valid(self) -> bool {
        self.failure is Some <==> self.stage == CopyStage::Failed
    }
}

/// An operation in progress.
pub struct CopyFragment {
    pub source_repository: Context,
    pub source: Address,
    pub destination_repository: Context,
    pub destination_context: Context,
    pub failure: Option<StoreError>,
    pub stage: CopyStage,
}

impl View for CopyFragment {
    type V = CopyState;

    open spec fn view(&self) -> CopyState {
        CopyState {
            source_repository: self.source_repository,
            source: self.source,
            destination_repository: self.destination_repository,
            destination_context: self.destination_context,
            failure: optional_failure(self.failure),
            stage: self.stage,
        }
    }
}

impl CopyFragment {
    /// Starts to copy what is stored at an address.
    pub fn start(
        source_repository: Context,
        source: Address,
        destination_repository: Context,
        destination_context: Context,
    ) -> (copy: CopyFragment)
        ensures
            copy@ == CopyState::start(
                source_repository,
                source,
                destination_repository,
                destination_context,
            ),
            copy@.valid(),
    {
        CopyFragment {
            source_repository,
            source,
            destination_repository,
            destination_context,
            failure: None,
            stage: CopyStage::Query,
        }
    }

    /// What to do next.
    pub fn action(&self) -> (action: StoreAction)
        ensures
            action@ == self@.step(),
    {
        match self.stage {
            CopyStage::Query => StoreAction::Query {
                repository: self.source_repository,
                address: self.source,
                match_requested: StoreMatch::MatchFull,
            },
            CopyStage::Associate => StoreAction::Associate {
                repository: self.destination_repository,
                address: Address { hash: self.source.hash, context: self.destination_context },
            },
            CopyStage::Finished | CopyStage::Failed => StoreAction::Finish,
        }
    }

    /// Takes a failure.
    fn fail(&mut self, error: StoreError)
        ensures
            final(self)@ == old(self)@.fail(error@),
    {
        self.failure = Some(error);
        self.stage = CopyStage::Failed;
    }

    /// Takes what came of the action.
    pub fn advance(&mut self, event: StoreEvent)
        requires
            old(self)@.valid(),
            answers_store(event, old(self)@.step()),
        ensures
            final(self)@ == old(self)@.after(event),
            final(self)@.valid(),
    {
        match (self.stage, event) {
            (CopyStage::Query, StoreEvent::Queried(Ok(found))) => if found.match_made
                == StoreMatch::MatchFull {
                self.stage = CopyStage::Associate;
            } else {
                self.fail(StoreError::AddressNotFound(self.source));
            },
            (CopyStage::Query, StoreEvent::Queried(Err(error))) => self.fail(error),
            (CopyStage::Associate, StoreEvent::Done(Ok(()))) => {
                self.stage = CopyStage::Finished;
            },
            (CopyStage::Associate, StoreEvent::Done(Err(error))) => self.fail(error),
            _ => {},
        }
    }

    /// How the operation ended.
    pub fn outcome(self) -> (outcome: Result<(), StoreError>)
        requires
            self@.valid(),
            self@.step() == StoreStep::Finish,
        ensures
            match outcome {
                Ok(()) => self@.stage == CopyStage::Finished,
                Err(error) => self@.stage == CopyStage::Failed && self@.failure == Some(error@),
            },
    {
        match self.failure {
            Some(error) => Err(error),
            None => Ok(()),
        }
    }
}

} // verus!
