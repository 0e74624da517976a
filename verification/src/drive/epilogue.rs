//! What follows a staged mutation: in versioned mode a commit, then the revision to serve is looked
//! up and its tree takes the place of the one that is served.

use vstd::prelude::*;

use super::action::{answers, Action, Event, Step};
use crate::types::ContentHash;

verus! {

/// What an epilogue waits for.
#[derive(Clone, Copy, Debug, PartialEq, Eq, Structural)]
pub enum EpilogueStage {
    Commit,
    StagedRevision,
    Anchor,
    LoadTree,
    SwapTree,
    Finished,
    Failed,
}

/// What came of the commit of an epilogue.
#[derive(Clone, Copy, Debug, PartialEq, Eq, Structural)]
pub enum CommitOutcome {
    /// Nothing: it is not asked for, or not answered yet, or it failed.
    Pending,
    /// A commit was made.
    Made,
    /// None was made, because nothing was staged.
    Empty,
}

/// The state of an epilogue.
pub struct EpilogueState {
    /// Whether each mutation makes a commit.
    pub versioned: bool,
    /// The message of the commit.
    pub message: Seq<char>,
    /// The revision that is served when the epilogue starts.
    pub served: ContentHash,
    pub commit: CommitOutcome,
    /// The revision to serve, once it is known.
    pub revision: ContentHash,
    /// The tree of that revision, once it is loaded.
    pub tree: u64,
    /// What is said of the failure, once there is one.
    pub failure: Seq<char>,
    pub stage: EpilogueStage,
}

impl EpilogueState {
    /// The state at the start.
    pub open spec fn start(
        versioned: bool,
        message: Seq<char>,
        served: ContentHash,
    ) -> EpilogueState {
        EpilogueState {
            versioned,
            message,
            served,
            commit: CommitOutcome::Pending,
            revision: served,
            tree: 0,
            failure: Seq::empty(),
            stage: if versioned {
                EpilogueStage::Commit
            } else {
                EpilogueStage::StagedRevision
            },
        }
    }

    /// What to do next.
    pub open spec fn step(self) -> Step {
        match self.stage {
            EpilogueStage::Commit => Step::Commit { message: self.message },
            EpilogueStage::StagedRevision => Step::StagedRevision,
            EpilogueStage::Anchor => Step::Anchor,
            EpilogueStage::LoadTree => Step::LoadTree { revision: self.revision },
            EpilogueStage::SwapTree => Step::SwapTree { tree: self.tree, revision: self.revision },
            EpilogueStage::Finished | EpilogueStage::Failed => Step::Finish,
        }
    }

    /// The state once the revision to serve is known: nothing is left to do if it is served.
    pub open spec fn serve(self, revision: ContentHash) -> EpilogueState {
        if revision == self.served {
            EpilogueState { revision, stage: EpilogueStage::Finished, ..self }
        } else {
            EpilogueState { revision, stage: EpilogueStage::LoadTree, ..self }
        }
    }

    /// The state after a failure.
    pub open spec fn fail(self, failure: Seq<char>) -> EpilogueState {
        EpilogueState { failure, stage: EpilogueStage::Failed, ..self }
    }

    /// The state after `event`.
    pub open spec fn after(self, event: Event) -> EpilogueState {
        match (self.stage, event) {
            // A commit with nothing to commit is no failure.
            (EpilogueStage::Commit, Event::Committed(Ok(made))) => EpilogueState {
                commit: if made is Some {
                    CommitOutcome::Made
                } else {
                    CommitOutcome::Empty
                },
                stage: EpilogueStage::Anchor,
                ..self
            },
            (EpilogueStage::Commit, Event::Committed(Err(failure))) => self.fail(failure@),
            (EpilogueStage::StagedRevision, Event::StagedRevision(Some(revision))) => self.serve(
                revision,
            ),
            (EpilogueStage::StagedRevision, Event::StagedRevision(None)) => EpilogueState {
                stage: EpilogueStage::Anchor,
                ..self
            },
            (EpilogueStage::Anchor, Event::Anchor(Ok(revision))) => self.serve(revision),
            (EpilogueStage::Anchor, Event::Anchor(Err(failure))) => self.fail(failure@),
            (EpilogueStage::LoadTree, Event::Tree(Ok(tree))) => EpilogueState {
                tree,
                stage: EpilogueStage::SwapTree,
                ..self
            },
            (EpilogueStage::LoadTree, Event::Tree(Err(failure))) => self.fail(failure@),
            (EpilogueStage::SwapTree, Event::Done(_)) => EpilogueState {
                stage: EpilogueStage::Finished,
                ..self
            },
            _ => self,
        }
    }

    /// Whether the state is one that an epilogue can be in: it commits in versioned mode alone, and
    /// goes on only once the commit is answered; it looks for a staged revision in drive mode alone,
    /// and loads no tree for the revision that is served.
    pub open spec fn valid(self) -> bool {
        &&& match self.stage {
            EpilogueStage::Commit => self.versioned && self.commit == CommitOutcome::Pending,
            EpilogueStage::StagedRevision => !self.versioned,
            EpilogueStage::LoadTree | EpilogueStage::SwapTree => self.revision != self.served,
            _ => true,
        }
        &&& match self.stage {
            EpilogueStage::Commit | EpilogueStage::Failed => true,
            _ => self.versioned ==> self.commit != CommitOutcome::Pending,
        }
        &&& !self.versioned ==> self.commit == CommitOutcome::Pending
    }

    /// How many commits the epilogue has made.
    pub open spec fn committed(self) -> int {
        if self.commit == CommitOutcome::Made {
            1
        } else {
            0
        }
    }

    /// How many commits of the epilogue had nothing to commit.
    pub open spec fn found_empty(self) -> int {
        if self.commit == CommitOutcome::Empty {
            1
        } else {
            0
        }
    }

    /// The state after each of `events` in turn, if each is what can come of the step before it.
    pub open spec fn after_all(self, events: Seq<Event>) -> Option<EpilogueState>
        decreases events.len(),
    {
        if events.len() == 0 {
            Some(self)
        } else {
            match self.after_all(events.drop_last()) {
                Some(state) if answers(events.last(), state.step()) => Some(
                    state.after(events.last()),
                ),
                _ => None,
            }
        }
    }
}

/// Whether `event` says that a commit was made.
pub open spec fn is_commit(event: Event) -> bool {
    event matches Event::Committed(Ok(Some(_)))
}

/// Whether `event` says that no commit was made because nothing was staged.
pub open spec fn is_empty_commit(event: Event) -> bool {
    event matches Event::Committed(Ok(None))
}

/// How many of `events` say that a commit was made.
pub open spec fn commits(events: Seq<Event>) -> int
    decreases events.len(),
{
    if events.len() == 0 {
        0
    } else {
        commits(events.drop_last()) + (if is_commit(events.last()) {
            1int
        } else {
            0
        })
    }
}

/// How many of `events` say that no commit was made because nothing was staged.
pub open spec fn empty_commits(events: Seq<Event>) -> int
    decreases events.len(),
{
    if events.len() == 0 {
        0
    } else {
        empty_commits(events.drop_last()) + (if is_empty_commit(events.last()) {
            1int
        } else {
            0
        })
    }
}

/// In drive mode no epilogue commits. In versioned mode one that finishes has made exactly one commit,
/// unless it was told that nothing is staged: then it has made none. A tree is loaded, and takes the
/// place of the served one, only for another revision than the served one.
pub proof fn a_mutation_commits_as_its_mode_says(
    versioned: bool,
    message: Seq<char>,
    served: ContentHash,
    events: Seq<Event>,
)
    ensures
        match EpilogueState::start(versioned, message, served).after_all(events) {
            Some(state) => {
                &&& state.valid()
                &&& state.versioned == versioned && state.message == message && state.served
                    == served
                &&& commits(events) == state.committed()
                &&& empty_commits(events) == state.found_empty()
                &&& !versioned ==> commits(events) == 0 && !(state.step() is Commit)
                &&& versioned && state.stage == EpilogueStage::Finished ==> commits(events)
                    + empty_commits(events) == 1
                &&& state.step() is LoadTree || state.step() is SwapTree ==> state.revision
                    != served
            },
            None => true,
        },
    decreases events.len(),
{
    if events.len() > 0 {
        a_mutation_commits_as_its_mode_says(versioned, message, served, events.drop_last());
    }
}

/// An epilogue in progress.
pub struct Epilogue {
    pub versioned: bool,
    pub message: String,
    pub served: ContentHash,
    pub commit: CommitOutcome,
    pub revision: ContentHash,
    pub tree: u64,
    pub failure: String,
    pub stage: EpilogueStage,
}

impl View for Epilogue {
    type V = EpilogueState;

    open spec fn view(&self) -> EpilogueState {
        EpilogueState {
            versioned: self.versioned,
            message: self.message@,
            served: self.served,
            commit: self.commit,
            revision: self.revision,
            tree: self.tree,
            failure: self.failure@,
            stage: self.stage,
        }
    }
}

impl Epilogue {
    /// Starts the epilogue of a mutation that was staged while `served` was the revision served.
    pub fn start(versioned: bool, message: String, served: ContentHash) -> (epilogue: Epilogue)
        ensures
            epilogue@ == EpilogueState::start(versioned, message@, served),
            epilogue@.valid(),
    {
        Epilogue {
            versioned,
            message,
            served,
            commit: CommitOutcome::Pending,
            revision: served,
            tree: 0,
            failure: String::new(),
            stage: if versioned {
                EpilogueStage::Commit
            } else {
                EpilogueStage::StagedRevision
            },
        }
    }

    /// What to do next.
    pub fn action(&self) -> (action: Action)
        ensures
            action@ == self@.step(),
    {
        match self.stage {
            EpilogueStage::Commit => Action::Commit { message: self.message.clone() },
            EpilogueStage::StagedRevision => Action::StagedRevision,
            EpilogueStage::Anchor => Action::Anchor,
            EpilogueStage::LoadTree => Action::LoadTree { revision: self.revision },
            EpilogueStage::SwapTree => Action::SwapTree {
                tree: self.tree,
                revision: self.revision,
            },
            EpilogueStage::Finished | EpilogueStage::Failed => Action::Finish,
        }
    }

    /// Takes the revision to serve.
    fn serve(&mut self, revision: ContentHash)
        ensures
            final(self)@ == old(self)@.serve(revision),
    {
        self.revision = revision;
        if revision == self.served {
            self.stage = EpilogueStage::Finished;
        } else {
            self.stage = EpilogueStage::LoadTree;
        }
    }

    /// Takes a failure.
    fn fail(&mut self, failure: String)
        ensures
            final(self)@ == old(self)@.fail(failure@),
    {
        self.failure = failure;
        self.stage = EpilogueStage::Failed;
    }

    /// Takes what came of the action.
    pub fn advance(&mut self, event: Event)
        requires
            answers(event, old(self)@.step()),
        ensures
            final(self)@ == old(self)@.after(event),
            old(self)@.valid() ==> final(self)@.valid(),
    {
        match event {
            Event::Committed(Ok(made)) => {
                self.commit = match made {
                    Some(_) => CommitOutcome::Made,
                    None => CommitOutcome::Empty,
                };
                self.stage = EpilogueStage::Anchor;
            },
            Event::Committed(Err(failure)) => self.fail(failure),
            Event::StagedRevision(Some(revision)) => self.serve(revision),
            Event::StagedRevision(None) => {
                self.stage = EpilogueStage::Anchor;
            },
            Event::Anchor(Ok(revision)) => self.serve(revision),
            Event::Anchor(Err(failure)) => self.fail(failure),
            Event::Tree(Ok(tree)) => {
                self.tree = tree;
                self.stage = EpilogueStage::SwapTree;
            },
            Event::Tree(Err(failure)) => self.fail(failure),
            Event::Done(_) => {
                self.stage = EpilogueStage::Finished;
            },
            _ => {},
        }
    }
}

} // verus!
