//! Creating a directory.
//!
//! The directory is created in the working directory and staged. That may record nothing for an empty
//! directory: in drive mode the staged revision stays what it was, in versioned mode there is nothing
//! to commit. Then an empty `.lorekeep` is written into it and staged instead. Once a commit is made
//! there is no second attempt. A request that fails after the directory was created removes it again.

use vstd::prelude::*;

use super::action::{answers, Action, Event, Step};
use super::api::{
    conflict_resp, err_resp, is_dir, node_named, parse_node_id, refusal, ApiError, NodeIds,
    NodeKind, Refusal, Status,
};
use super::epilogue::{
    commits, empty_commits, CommitOutcome, Epilogue, EpilogueStage, EpilogueState,
};
use super::path::{is_valid_name, join_virtual, joined, rel_of, relative, valid_name};
use crate::text::texts;
use crate::types::ContentHash;

verus! {

/// What the request waits for.
#[derive(Clone, Copy, Debug, PartialEq, Eq, Structural)]
pub enum MkdirStage {
    ParentInfo,
    ParentPath,
    Resolve,
    Exists,
    Create,
    Stage,
    Epilogue,
    WriteKeep,
    StageKeep,
    EpilogueKeep,
    Rollback,
    ResolveNew,
    Finished,
    Refused,
}

/// The state of the request.
pub struct MkdirState {
    pub name: Seq<char>,
    pub parent: u32,
    pub versioned: bool,
    /// The revision that is served when the request starts.
    pub served: ContentHash,
    /// The virtual path of the directory, once it is known.
    pub path: Seq<char>,
    /// Whether the directory was created by this request, and its removal not asked for since.
    pub created: bool,
    /// Whether staging the directory by itself came to nothing.
    pub fell_back: bool,
    pub epilogue: EpilogueState,
    /// What is said of the failure, while the directory is being removed.
    pub failure: Seq<char>,
    /// The node of the directory, once the request is done.
    pub node: Option<u32>,
    /// What the request is refused with, once it is.
    pub refused: Option<Refusal>,
    pub stage: MkdirStage,
}

/// The message of the commit of a new directory.
pub open spec fn mkdir_message(path: Seq<char>) -> Seq<char> {
    "lore-drive: mkdir "@ + path
}

impl MkdirState {
    /// The state at the start of a request for a directory `name` in a given parent.
    pub open spec fn start(
        name: Seq<char>,
        parent: u32,
        root: u32,
        versioned: bool,
        served: ContentHash,
    ) -> MkdirState {
        MkdirState {
            name,
            parent,
            versioned,
            served,
            path: joined("/"@, name),
            created: false,
            fell_back: false,
            epilogue: EpilogueState::start(versioned, Seq::empty(), served),
            failure: Seq::empty(),
            node: None,
            refused: None,
            stage: if parent == root {
                MkdirStage::Resolve
            } else {
                MkdirStage::ParentInfo
            },
        }
    }

    /// The path of the directory.
    pub open spec fn rel(self) -> Seq<char> {
        relative(self.path)
    }

    /// What to do next.
    pub open spec fn step(self) -> Step {
        match self.stage {
            MkdirStage::ParentInfo => Step::NodeInfo { node: self.parent },
            MkdirStage::ParentPath => Step::NodePath { node: self.parent },
            MkdirStage::Resolve => Step::Resolve { path: self.rel() },
            MkdirStage::Exists => Step::Exists { path: self.rel() },
            MkdirStage::Create => Step::CreateDir { path: self.rel() },
            MkdirStage::Stage => Step::Stage { paths: seq![self.rel()] },
            MkdirStage::Epilogue | MkdirStage::EpilogueKeep => self.epilogue.step(),
            MkdirStage::WriteKeep => Step::WriteEmpty { path: self.rel() + "/.lorekeep"@ },
            MkdirStage::StageKeep => Step::Stage { paths: seq![self.rel() + "/.lorekeep"@] },
            MkdirStage::Rollback => Step::RemoveTree { path: self.rel() },
            MkdirStage::ResolveNew => Step::Resolve { path: self.rel() },
            MkdirStage::Finished | MkdirStage::Refused => Step::Finish,
        }
    }

    /// The state once the request is refused.
    pub open spec fn refuse(self, refused: Refusal) -> MkdirState {
        MkdirState { refused: Some(refused), stage: MkdirStage::Refused, ..self }
    }

    /// The state once something is found in the way.
    pub open spec fn conflict(self) -> MkdirState {
        self.refuse(
            Refusal {
                status: Status::Conflict,
                error: "an entry with that name already exists"@,
                conflicts: Some(seq![self.path]),
            },
        )
    }

    /// The state once the directory has to be removed again.
    pub open spec fn roll_back(self, failure: Seq<char>) -> MkdirState {
        MkdirState { failure, stage: MkdirStage::Rollback, ..self }
    }

    /// The state once an epilogue is started.
    pub open spec fn finalize(self, stage: MkdirStage) -> MkdirState {
        MkdirState {
            epilogue: EpilogueState::start(self.versioned, mkdir_message(self.path), self.served),
            stage,
            ..self
        }
    }

    /// The state after `event`.
    pub open spec fn after(self, event: Event) -> MkdirState {
        match (self.stage, event) {
            (MkdirStage::ParentInfo, Event::NodeInfo(Err(error))) => self.refuse(error@),
            (MkdirStage::ParentInfo, Event::NodeInfo(Ok(info))) => if info.kind
                == NodeKind::Directory {
                MkdirState { stage: MkdirStage::ParentPath, ..self }
            } else {
                self.refuse(refusal(Status::BadRequest, "node is not a directory"@))
            },
            (MkdirStage::ParentPath, Event::NodePath(Err(error))) => self.refuse(error@),
            (MkdirStage::ParentPath, Event::NodePath(Ok(parent))) => MkdirState {
                path: joined(parent@, self.name),
                stage: MkdirStage::Resolve,
                ..self
            },
            (MkdirStage::Resolve, Event::Resolved(Some(_))) => self.conflict(),
            (MkdirStage::Resolve, Event::Resolved(None)) => MkdirState {
                stage: MkdirStage::Exists,
                ..self
            },
            (MkdirStage::Exists, Event::Exists(exists)) => if exists {
                self.conflict()
            } else {
                MkdirState { stage: MkdirStage::Create, ..self }
            },
            (MkdirStage::Create, Event::Done(Err(error))) => self.refuse(
                refusal(Status::InternalServerError, "create_dir: "@ + error@),
            ),
            (MkdirStage::Create, Event::Done(Ok(()))) => MkdirState {
                created: true,
                stage: MkdirStage::Stage,
                ..self
            },
            (MkdirStage::Stage, Event::Staged(Ok(staged))) => if !self.versioned && staged
                == self.served {
                MkdirState { fell_back: true, stage: MkdirStage::WriteKeep, ..self }
            } else {
                self.finalize(MkdirStage::Epilogue)
            },
            (MkdirStage::Stage, Event::Staged(Err(_))) => MkdirState {
                fell_back: true,
                stage: MkdirStage::WriteKeep,
                ..self
            },
            (MkdirStage::Epilogue, Event::Committed(Ok(None))) => MkdirState {
                epilogue: self.epilogue.after(event),
                fell_back: true,
                stage: MkdirStage::WriteKeep,
                ..self
            },
            (MkdirStage::Epilogue, _) => {
                let epilogue = self.epilogue.after(event);
                match epilogue.stage {
                    EpilogueStage::Finished => MkdirState {
                        epilogue,
                        stage: MkdirStage::ResolveNew,
                        ..self
                    },
                    EpilogueStage::Failed => if epilogue.commit == CommitOutcome::Made {
                        (MkdirState { epilogue, ..self }).roll_back(epilogue.failure)
                    } else {
                        MkdirState {
                            epilogue,
                            fell_back: true,
                            stage: MkdirStage::WriteKeep,
                            ..self
                        }
                    },
                    _ => MkdirState { epilogue, ..self },
                }
            },
            (MkdirStage::WriteKeep, Event::Done(Ok(()))) => MkdirState {
                stage: MkdirStage::StageKeep,
                ..self
            },
            (MkdirStage::WriteKeep, Event::Done(Err(error))) => self.roll_back(
                "write .lorekeep: "@ + error@,
            ),
            (MkdirStage::StageKeep, Event::Staged(Ok(_))) => self.finalize(
                MkdirStage::EpilogueKeep,
            ),
            (MkdirStage::StageKeep, Event::Staged(Err(error))) => self.roll_back(error@),
            (MkdirStage::EpilogueKeep, _) => {
                let epilogue = self.epilogue.after(event);
                match epilogue.stage {
                    EpilogueStage::Finished => MkdirState {
                        epilogue,
                        stage: MkdirStage::ResolveNew,
                        ..self
                    },
                    EpilogueStage::Failed => (MkdirState { epilogue, ..self }).roll_back(
                        epilogue.failure,
                    ),
                    _ => MkdirState { epilogue, ..self },
                }
            },
            (MkdirStage::Rollback, Event::Done(_)) => (MkdirState {
                created: false,
                ..self
            }).refuse(refusal(Status::InternalServerError, self.failure)),
            (MkdirStage::ResolveNew, Event::Resolved(node)) => MkdirState {
                node,
                stage: MkdirStage::Finished,
                ..self
            },
            _ => self,
        }
    }

    /// The state after each of `events` in turn, if each is what can come of the step before it.
    pub open spec fn after_all(self, events: Seq<Event>) -> Option<MkdirState>
        decreases events.len(),
    {
        if events.len() == 0 {
            Some(self)
        } else {
            match self.after_all(events.drop_last()) {
                Some(state) if answers(events.last(), state.step()) => Some(
                    state.after(events.last()),
                ),
                _ => None,
            }
        }
    }

    /// Whether the state is one that a request can be in.
    pub open spec fn valid(self) -> bool {
        &&& self.epilogue.valid() && self.epilogue.versioned == self.versioned
        &&& self.epilogue.served == self.served
        &&& match self.stage {
            MkdirStage::WriteKeep | MkdirStage::StageKeep => self.fell_back && self.epilogue.commit
                != CommitOutcome::Made,
            MkdirStage::EpilogueKeep => self.fell_back,
            MkdirStage::Rollback | MkdirStage::ResolveNew | MkdirStage::Finished
            | MkdirStage::Refused => true,
            _ => !self.fell_back,
        }
        &&& self.refused is Some <==> self.stage == MkdirStage::Refused
        &&& match self.stage {
            MkdirStage::ParentInfo | MkdirStage::ParentPath | MkdirStage::Resolve
            | MkdirStage::Exists | MkdirStage::Create => !self.created && self.epilogue.commit
                == CommitOutcome::Pending,
            MkdirStage::Stage => self.created && self.epilogue.commit == CommitOutcome::Pending,
            MkdirStage::Refused => !self.created,
            MkdirStage::Epilogue => self.created && self.epilogue.stage != EpilogueStage::Finished
                && self.epilogue.stage != EpilogueStage::Failed && self.epilogue.commit
                != CommitOutcome::Empty,
            MkdirStage::EpilogueKeep => self.created && self.epilogue.stage
                != EpilogueStage::Finished && self.epilogue.stage != EpilogueStage::Failed,
            MkdirStage::ResolveNew | MkdirStage::Finished => self.created && self.epilogue.stage
                == EpilogueStage::Finished && (!self.fell_back ==> self.epilogue.commit
                != CommitOutcome::Empty),
            _ => self.created,
        }
    }
}

/// Whatever comes of each step, a request that is refused after it created its directory has asked
/// for the removal of that directory, and one that is done has its directory created and its epilogue
/// finished.
pub proof fn a_refused_mkdir_removes_its_directory(
    name: Seq<char>,
    parent: u32,
    root: u32,
    versioned: bool,
    served: ContentHash,
    events: Seq<Event>,
)
    ensures
        match MkdirState::start(name, parent, root, versioned, served).after_all(events) {
            Some(state) => {
                &&& state.valid()
                &&& state.stage == MkdirStage::Refused ==> !state.created && state.refused is Some
                &&& state.stage == MkdirStage::Finished ==> state.created && state.epilogue.stage
                    == EpilogueStage::Finished
            },
            None => true,
        },
    decreases events.len(),
{
    if events.len() > 0 {
        a_refused_mkdir_removes_its_directory(
            name,
            parent,
            root,
            versioned,
            served,
            events.drop_last(),
        );
    }
}

/// How many commits a request has made follows from where it is.
proof fn lemma_mkdir_commits(
    name: Seq<char>,
    parent: u32,
    root: u32,
    versioned: bool,
    served: ContentHash,
    events: Seq<Event>,
)
    ensures
        match MkdirState::start(name, parent, root, versioned, served).after_all(events) {
            Some(state) => {
                &&& state.valid() && state.versioned == versioned
                &&& if state.stage == MkdirStage::WriteKeep || state.stage == MkdirStage::StageKeep
                    || !state.fell_back {
                    &&& commits(events) == state.epilogue.committed()
                    &&& empty_commits(events) == state.epilogue.found_empty()
                } else {
                    let before = commits(events) - state.epilogue.committed();
                    let vain = empty_commits(events) - state.epilogue.found_empty();
                    before == 0 && 0 <= vain <= (if versioned {
                        1int
                    } else {
                        0
                    })
                }
            },
            None => true,
        },
    decreases events.len(),
{
    if events.len() > 0 {
        lemma_mkdir_commits(name, parent, root, versioned, served, events.drop_last());
    }
}

/// In drive mode no request commits, and in versioned mode none makes more than one commit. One that
/// is done has made exactly one, unless there was nothing to commit even with the placeholder: then it
/// has made none.
pub proof fn mkdir_commits_as_its_mode_says(
    name: Seq<char>,
    parent: u32,
    root: u32,
    versioned: bool,
    served: ContentHash,
    events: Seq<Event>,
)
    ensures
        match MkdirState::start(name, parent, root, versioned, served).after_all(events) {
            Some(state) => {
                &&& state.valid() && state.versioned == versioned
                &&& !versioned ==> commits(events) == 0 && !(state.step() is Commit)
                &&& 0 <= commits(events) <= 1
                &&& state.step() is Commit ==> commits(events) == 0
                &&& state.stage == MkdirStage::Finished && versioned ==> (if state.fell_back {
                    commits(events) + state.epilogue.found_empty() == 1
                } else {
                    commits(events) == 1 && empty_commits(events) == 0
                })
            },
            None => true,
        },
{
    lemma_mkdir_commits(name, parent, root, versioned, served, events);
}

/// In versioned mode a directory whose commit finds nothing staged is not answered for yet: a
/// placeholder is written into it, staged, and committed with it.
pub proof fn a_directory_that_is_not_recorded_gets_a_placeholder(
    state: MkdirState,
    staged: ContentHash,
)
    requires
        state.valid(),
        state.stage == MkdirStage::Epilogue,
        state.epilogue.stage == EpilogueStage::Commit,
    ensures
        ({
            let keep = state.rel() + "/.lorekeep"@;
            let told = state.after(Event::Committed(Ok(None)));
            let written = told.after(Event::Done(Ok(())));
            let again = written.after(Event::Staged(Ok(staged)));
            &&& told.step() == (Step::WriteEmpty { path: keep })
            &&& written.step() == (Step::Stage { paths: seq![keep] })
            &&& again.step() == (Step::Commit { message: mkdir_message(state.path) })
        }),
{
}

/// A request in progress.
pub struct Mkdir {
    pub name: String,
    pub parent: u32,
    pub versioned: bool,
    pub served: ContentHash,
    pub path: String,
    pub created: bool,
    pub fell_back: bool,
    pub epilogue: Epilogue,
    pub failure: String,
    pub node: Option<u32>,
    pub refused: Option<ApiError>,
    pub stage: MkdirStage,
}

impl View for Mkdir {
    type V = MkdirState;

    open spec fn view(&self) -> MkdirState {
        MkdirState {
            name: self.name@,
            parent: self.parent,
            versioned: self.versioned,
            served: self.served,
            path: self.path@,
            created: self.created,
            fell_back: self.fell_back,
            epilogue: self.epilogue@,
            failure: self.failure@,
            node: self.node,
            refused: match self.refused {
                Some(error) => Some(error@),
                None => None,
            },
            stage: self.stage,
        }
    }
}

/// What a request for a directory is answered with.
#[derive(Debug)]
pub struct MkdirReply {
    pub node_id: Option<u64>,
    pub path: String,
    pub revision: String,
}

/// A request for a directory `name` in the node `parent_id`, as it starts, or why it is refused.
pub open spec fn mkdir_requested(
    name: Seq<char>,
    parent_id: u64,
    ids: NodeIds,
    versioned: bool,
    served: ContentHash,
) -> Result<MkdirState, Refusal> {
    if !is_valid_name(name) {
        Err(refusal(Status::BadRequest, "invalid directory name"@))
    } else {
        match node_named(parent_id, ids) {
            Ok(parent) => Ok(MkdirState::start(name, parent, ids.root, versioned, served)),
            Err(refused) => Err(refused),
        }
    }
}

impl Mkdir {
    /// Starts a request for a directory `name` in the node `parent_id`, while `served` is the
    /// revision served.
    pub fn start(
        name: String,
        parent_id: u64,
        ids: NodeIds,
        versioned: bool,
        served: ContentHash,
    ) -> (started: Result<Mkdir, ApiError>)
        ensures
            match started {
                Ok(request) => mkdir_requested(name@, parent_id, ids, versioned, served) == Ok::<
                    MkdirState,
                    Refusal,
                >(request@) && request@.valid(),
                Err(error) => mkdir_requested(name@, parent_id, ids, versioned, served) == Err::<
                    MkdirState,
                    Refusal,
                >(error@),
            },
    {
        if !valid_name(name.as_str()) {
            return Err(err_resp(Status::BadRequest, "invalid directory name"));
        }
        let parent: u32 = match parse_node_id(parent_id, ids) {
            Ok(parent) => parent,
            Err(error) => {
                return Err(error);
            },
        };
        let path = join_virtual("/", name.as_str());
        Ok(
            Mkdir {
                name,
                parent,
                versioned,
                served,
                path,
                created: false,
                fell_back: false,
                epilogue: Epilogue::start(versioned, String::new(), served),
                failure: String::new(),
                node: None,
                refused: None,
                stage: if parent == ids.root {
                    MkdirStage::Resolve
                } else {
                    MkdirStage::ParentInfo
                },
            },
        )
    }

    /// What to do next.
    pub fn action(&self) -> (action: Action)
        ensures
            action@ == self@.step(),
    {
        let rel: String = rel_of(self.path.as_str());
        match self.stage {
            MkdirStage::ParentInfo => Action::NodeInfo { node: self.parent },
            MkdirStage::ParentPath => Action::NodePath { node: self.parent },
            MkdirStage::Resolve => Action::Resolve { path: rel },
            MkdirStage::Exists => Action::Exists { path: rel },
            MkdirStage::Create => Action::CreateDir { path: rel },
            MkdirStage::Stage => stage_one(rel),
            MkdirStage::Epilogue | MkdirStage::EpilogueKeep => self.epilogue.action(),
            MkdirStage::WriteKeep => Action::WriteEmpty { path: rel.concat("/.lorekeep") },
            MkdirStage::StageKeep => stage_one(rel.concat("/.lorekeep")),
            MkdirStage::Rollback => Action::RemoveTree { path: rel },
            MkdirStage::ResolveNew => Action::Resolve { path: rel },
            MkdirStage::Finished | MkdirStage::Refused => Action::Finish,
        }
    }

    /// Refuses the request.
    fn refuse(&mut self, error: ApiError)
        ensures
            final(self)@ == old(self)@.refuse(error@),
    {
        self.refused = Some(error);
        self.stage = MkdirStage::Refused;
    }

    /// Refuses the request because something is in the way.
    fn conflict(&mut self)
        ensures
            final(self)@ == old(self)@.conflict(),
    {
        let mut conflicts: Vec<String> = Vec::new();
        conflicts.push(self.path.clone());
        proof {
            assert(texts(conflicts@) =~= seq![self.path@]);
        }
        self.refuse(conflict_resp("an entry with that name already exists", conflicts));
    }

    /// Has a placeholder put into the directory.
    fn fall_back(&mut self)
        ensures
            final(self)@ == (MkdirState {
                fell_back: true,
                stage: MkdirStage::WriteKeep,
                ..old(self)@
            }),
    {
        self.fell_back = true;
        self.stage = MkdirStage::WriteKeep;
    }

    /// Has the directory removed again.
    fn roll_back(&mut self, failure: String)
        ensures
            final(self)@ == old(self)@.roll_back(failure@),
    {
        self.failure = failure;
        self.stage = MkdirStage::Rollback;
    }

    /// Starts an epilogue.
    fn finalize(&mut self, stage: MkdirStage)
        ensures
            final(self)@ == old(self)@.finalize(stage),
    {
        let message = "lore-drive: mkdir ".to_owned().concat(self.path.as_str());
        self.epilogue = Epilogue::start(self.versioned, message, self.served);
        self.stage = stage;
    }

    /// Takes what came of the action.
    pub fn advance(&mut self, event: Event)
        requires
            old(self)@.valid(),
            answers(event, old(self)@.step()),
        ensures
            final(self)@ == old(self)@.after(event),
            final(self)@.valid(),
    {
        match self.stage {
            MkdirStage::ParentInfo => match event {
                Event::NodeInfo(Ok(info)) => if is_dir(info.kind) {
                    self.stage = MkdirStage::ParentPath;
                } else {
                    self.refuse(err_resp(Status::BadRequest, "node is not a directory"));
                },
                Event::NodeInfo(Err(error)) => self.refuse(error),
                _ => {},
            },
            MkdirStage::ParentPath => match event {
                Event::NodePath(Ok(parent)) => {
                    self.path = join_virtual(parent.as_str(), self.name.as_str());
                    self.stage = MkdirStage::Resolve;
                },
                Event::NodePath(Err(error)) => self.refuse(error),
                _ => {},
            },
            MkdirStage::Resolve => match event {
                Event::Resolved(Some(_)) => self.conflict(),
                _ => {
                    self.stage = MkdirStage::Exists;
                },
            },
            MkdirStage::Exists => match event {
                Event::Exists(true) => self.conflict(),
                _ => {
                    self.stage = MkdirStage::Create;
                },
            },
            MkdirStage::Create => match event {
                Event::Done(Err(error)) => self.refuse(
                    err_resp(
                        Status::InternalServerError,
                        "create_dir: ".to_owned().concat(error.as_str()).as_str(),
                    ),
                ),
                _ => {
                    self.created = true;
                    self.stage = MkdirStage::Stage;
                },
            },
            MkdirStage::Stage => match event {
                Event::Staged(Ok(staged)) => if !self.versioned && staged == self.served {
                    self.fall_back();
                } else {
                    self.finalize(MkdirStage::Epilogue);
                },
                _ => self.fall_back(),
            },
            MkdirStage::Epilogue => {
                let vain: bool = match &event {
                    Event::Committed(Ok(None)) => true,
                    _ => false,
                };
                self.epilogue.advance(event);
                if vain {
                    self.fall_back();
                } else {
                    match self.epilogue.stage {
                        EpilogueStage::Finished => {
                            self.stage = MkdirStage::ResolveNew;
                        },
                        EpilogueStage::Failed => if self.epilogue.commit == CommitOutcome::Made {
                            let failure = self.epilogue.failure.clone();
                            self.roll_back(failure);
                        } else {
                            self.fall_back();
                        },
                        _ => {},
                    }
                }
            },
            MkdirStage::WriteKeep => match event {
                Event::Done(Err(error)) => self.roll_back(
                    "write .lorekeep: ".to_owned().concat(error.as_str()),
                ),
                _ => {
                    self.stage = MkdirStage::StageKeep;
                },
            },
            MkdirStage::StageKeep => match event {
                Event::Staged(Err(error)) => self.roll_back(error),
                _ => self.finalize(MkdirStage::EpilogueKeep),
            },
            MkdirStage::EpilogueKeep => {
                self.epilogue.advance(event);
                match self.epilogue.stage {
                    EpilogueStage::Finished => {
                        self.stage = MkdirStage::ResolveNew;
                    },
                    EpilogueStage::Failed => {
                        let failure = self.epilogue.failure.clone();
                        self.roll_back(failure);
                    },
                    _ => {},
                }
            },
            MkdirStage::Rollback => {
                self.created = false;
                let error = err_resp(Status::InternalServerError, self.failure.as_str());
                self.refuse(error);
            },
            MkdirStage::ResolveNew => match event {
                Event::Resolved(node) => {
                    self.node = node;
                    self.stage = MkdirStage::Finished;
                },
                _ => {},
            },
            MkdirStage::Finished | MkdirStage::Refused => {},
        }
    }

    /// The status of the answer, once nothing is left to do.
    pub fn status(&self) -> (status: Status)
        requires
            self@.valid(),
            self@.step() == Step::Finish,
        ensures
            status == match self@.refused {
                Some(refused) => refused.status,
                None => Status::Created,
            },
            status == Status::Created <== self@.stage == MkdirStage::Finished,
    {
        match &self.refused {
            Some(error) => error.status,
            None => Status::Created,
        }
    }

    /// What the request is answered with, once nothing is left to do.
    pub fn reply(self) -> (reply: Result<MkdirReply, ApiError>)
        requires
            self@.valid(),
            self@.step() == Step::Finish,
        ensures
            match reply {
                Ok(reply) => {
                    &&& self@.stage == MkdirStage::Finished
                    &&& reply.node_id == match self@.node {
                        Some(node) => Some(node as u64),
                        None => None,
                    }
                    &&& reply.path@ == self@.path
                    &&& reply.revision@ == self@.epilogue.revision.text()
                },
                Err(error) => self@.stage == MkdirStage::Refused && self@.refused == Some(error@),
            },
    {
        match self.refused {
            Some(error) => Err(error),
            None => Ok(
                MkdirReply {
                    node_id: match self.node {
                        Some(node) => Some(node as u64),
                        None => None,
                    },
                    path: self.path,
                    revision: self.epilogue.revision.to_text(),
                },
            ),
        }
    }
}

/// The action that stages one path.
pub(super) fn stage_one(path: String) -> (action: Action)
    ensures
        action@ == (Step::Stage { paths: seq![path@] }),
{
    let mut paths: Vec<String> = Vec::new();
    paths.push(path);
    proof {
        assert(texts(paths@) =~= seq![path@]);
    }
    Action::Stage { paths }
}

} // verus!
