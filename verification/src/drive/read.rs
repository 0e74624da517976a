//! Reading the content of a file: from the store, or from the working directory.
//!
//! The store is asked first, for the address that is shown. A zero hash is not sent to the store,
//! which takes it for empty content: a staged file that has content but no hash yet is read from the
//! working directory. So is a file that the store does not hand out.

use vstd::prelude::*;

use super::action::{answers, Action, Event, Step};
use super::path::{rel_of, relative};
use crate::types::{Address, RepositoryId};

verus! {

/// What the reading waits for.
#[derive(Clone, Copy, Debug, PartialEq, Eq, Structural)]
pub enum ReadStage {
    /// The file in the working directory is read; one that is missing is empty.
    Unhashed,
    Fetch,
    ReadFetched,
    /// The file in the working directory is read in place of the stored one.
    Fallback,
    Finished,
    Failed,
}

/// The state of the reading.
pub struct ReadState {
    pub repository: RepositoryId,
    pub address: Address,
    /// The virtual path of the file.
    pub path: Seq<char>,
    /// What was read, once it is.
    pub bytes: Seq<u8>,
    /// What is said of the failure, once there is one.
    pub failure: Seq<char>,
    pub stage: ReadStage,
}

impl ReadState {
    /// The state at the start.
    pub open spec fn start(repository: RepositoryId, address: Address, path: Seq<char>) -> ReadState {
        ReadState {
            repository,
            address,
            path,
            bytes: Seq::empty(),
            failure: Seq::empty(),
            stage: if address.hash.is_zero() {
                ReadStage::Unhashed
            } else {
                ReadStage::Fetch
            },
        }
    }

    /// What to do next.
    pub open spec fn step(self) -> Step {
        match self.stage {
            ReadStage::Unhashed | ReadStage::Fallback => Step::ReadFile {
                path: relative(self.path),
            },
            ReadStage::Fetch => Step::Fetch { repository: self.repository, address: self.address },
            ReadStage::ReadFetched => Step::ReadFetched,
            ReadStage::Finished | ReadStage::Failed => Step::Finish,
        }
    }

    /// The state once the content is read.
    pub open spec fn found(self, bytes: Seq<u8>) -> ReadState {
        ReadState { bytes, stage: ReadStage::Finished, ..self }
    }

    /// The state after `event`.
    pub open spec fn after(self, event: Event) -> ReadState {
        match (self.stage, event) {
            (ReadStage::Unhashed, Event::Content(Ok(bytes))) => self.found(bytes@),
            (ReadStage::Unhashed, Event::Content(Err(_))) => self.found(Seq::empty()),
            (ReadStage::Fetch, Event::Done(Ok(()))) => ReadState {
                stage: ReadStage::ReadFetched,
                ..self
            },
            (ReadStage::Fetch, Event::Done(Err(error))) => ReadState {
                failure: error@,
                stage: ReadStage::Fallback,
                ..self
            },
            (ReadStage::ReadFetched, Event::Content(Ok(bytes))) => self.found(bytes@),
            (ReadStage::ReadFetched, Event::Content(Err(error))) => ReadState {
                failure: error@,
                stage: ReadStage::Failed,
                ..self
            },
            (ReadStage::Fallback, Event::Content(Ok(bytes))) => self.found(bytes@),
            (ReadStage::Fallback, Event::Content(Err(error))) => ReadState {
                failure: "CAS: "@ + self.failure + "; workdir: "@ + error@,
                stage: ReadStage::Failed,
                ..self
            },
            _ => self,
        }
    }

    /// The state after each of `events` in turn, if each is what can come of the step before it.
    pub open spec fn after_all(self, events: Seq<Event>) -> Option<ReadState>
        decreases events.len(),
    {
        if events.len() == 0 {
            Some(self)
        } else {
            match self.after_all(events.drop_last()) {
                Some(state) if answers(events.last(), state.step()) => Some(
                    state.after(events.last()),
                ),
                _ => None,
            }
        }
    }
}

/// The store is never asked for a zero hash: the working directory is, and what it does not hold is
/// empty.
pub proof fn a_zero_hash_is_not_fetched(
    repository: RepositoryId,
    address: Address,
    path: Seq<char>,
    events: Seq<Event>,
)
    requires
        address.hash.is_zero(),
    ensures
        match ReadState::start(repository, address, path).after_all(events) {
            Some(state) => !(state.step() is Fetch) && (state.stage == ReadStage::Unhashed
                || state.stage == ReadStage::Finished),
            None => true,
        },
    decreases events.len(),
{
    if events.len() > 0 {
        a_zero_hash_is_not_fetched(repository, address, path, events.drop_last());
    }
}

/// A reading in progress.
pub struct Read {
    pub repository: RepositoryId,
    pub address: Address,
    pub path: String,
    pub bytes: Vec<u8>,
    pub failure: String,
    pub stage: ReadStage,
}

impl View for Read {
    type V = ReadState;

    open spec fn view(&self) -> ReadState {
        ReadState {
            repository: self.repository,
            address: self.address,
            path: self.path@,
            bytes: self.bytes@,
            failure: self.failure@,
            stage: self.stage,
        }
    }
}

impl Read {
    /// Starts reading the file at the virtual path `path`, whose content is stored at `address`.
    pub fn start(repository: RepositoryId, address: Address, path: String) -> (read: Read)
        ensures
            read@ == ReadState::start(repository, address, path@),
    {
        Read {
            repository,
            address,
            path,
            bytes: Vec::new(),
            failure: String::new(),
            stage: if address.hash.is_default() {
                ReadStage::Unhashed
            } else {
                ReadStage::Fetch
            },
        }
    }

    /// What to do next.
    pub fn action(&self) -> (action: Action)
        ensures
            action@ == self@.step(),
    {
        match self.stage {
            ReadStage::Unhashed | ReadStage::Fallback => Action::ReadFile {
                path: rel_of(self.path.as_str()),
            },
            ReadStage::Fetch => Action::Fetch {
                repository: self.repository,
                address: self.address,
            },
            ReadStage::ReadFetched => Action::ReadFetched,
            ReadStage::Finished | ReadStage::Failed => Action::Finish,
        }
    }

    /// Takes what came of the action.
    pub fn advance(&mut self, event: Event)
        requires
            answers(event, old(self)@.step()),
        ensures
            final(self)@ == old(self)@.after(event),
    {
        match (self.stage, event) {
            (ReadStage::Fetch, Event::Done(Ok(()))) => {
                self.stage = ReadStage::ReadFetched;
            },
            (ReadStage::Fetch, Event::Done(Err(error))) => {
                self.failure = error;
                self.stage = ReadStage::Fallback;
            },
            (_, Event::Content(Ok(bytes))) => {
                self.bytes = bytes;
                self.stage = ReadStage::Finished;
            },
            (ReadStage::Unhashed, _) => {
                self.bytes = Vec::new();
                self.stage = ReadStage::Finished;
            },
            (ReadStage::ReadFetched, Event::Content(Err(error))) => {
                self.failure = error;
                self.stage = ReadStage::Failed;
            },
            (ReadStage::Fallback, Event::Content(Err(error))) => {
                self.failure = "CAS: ".to_owned().concat(self.failure.as_str()).concat(
                    "; workdir: ",
                ).concat(error.as_str());
                self.stage = ReadStage::Failed;
            },
            _ => {},
        }
    }
}

} // verus!
