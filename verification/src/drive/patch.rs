//! Renaming and moving a node.
//!
//! The node is renamed in the working directory and the move is staged. A request that fails before
//! the move is served renames it back.

use vstd::prelude::*;

use super::action::{answers, Action, Event, Step};
use super::api::{
    conflict_resp, err_resp, is_dir, node_named, node_written, parse_node_id, parse_node_text,
    refusal, ApiError, NodeIds, NodeInfo, NodeKind, Refusal, Status,
};
use super::epilogue::{
    commits, empty_commits, is_commit, is_empty_commit, CommitOutcome, Epilogue, EpilogueStage,
    EpilogueState,
};
use super::path::{
    is_below, is_valid_name, join_virtual, joined, lies_below, rel_of, relative, valid_name,
};
use super::record::{shows, NodeRecord, Record, RecordStage, RecordState};
use crate::text::{optional_text, same_text, texts};
use crate::types::ContentHash;

verus! {

/// What the request waits for.
#[derive(Clone, Copy, Debug, PartialEq, Eq, Structural)]
pub enum PatchStage {
    NodeInfo,
    NodePath,
    ParentInfo,
    ParentPath,
    Resolve,
    Exists,
    Rename,
    StageMove,
    Epilogue,
    Undo,
    ResolveNew,
    Record,
    Finished,
    Refused,
}

/// The state of the request.
pub struct PatchState {
    pub node: u32,
    pub ids: NodeIds,
    /// The name to give the node, if it is given one.
    pub name: Option<Seq<char>>,
    /// The directory to move the node to, if it is moved to one.
    pub parent_id: Option<u64>,
    pub versioned: bool,
    /// The revision that is served when the request starts.
    pub served: ContentHash,
    pub info: Option<NodeInfo>,
    /// The virtual path of the node, once it is known.
    pub source: Seq<char>,
    /// The directory that the node is to be in, once it is known.
    pub parent: u32,
    /// The virtual path that the node is to be at, once it is known.
    pub target: Seq<char>,
    /// Whether the node was moved by this request, and moving it back not asked for since.
    pub moved: bool,
    pub epilogue: EpilogueState,
    /// The revision to answer with.
    pub revision: ContentHash,
    /// What is said of the failure, while the move is being undone.
    pub failure: Seq<char>,
    pub record: RecordState,
    /// What the request is refused with, once it is.
    pub refused: Option<Refusal>,
    pub stage: PatchStage,
}

impl PatchState {
    /// The state at the start.
    pub open spec fn start(
        node: u32,
        ids: NodeIds,
        name: Option<Seq<char>>,
        parent_id: Option<u64>,
        versioned: bool,
        served: ContentHash,
    ) -> PatchState {
        PatchState {
            node,
            ids,
            name,
            parent_id,
            versioned,
            served,
            info: None,
            source: Seq::empty(),
            parent: ids.root,
            target: Seq::empty(),
            moved: false,
            epilogue: EpilogueState::start(versioned, Seq::empty(), served),
            revision: served,
            failure: Seq::empty(),
            record: RecordState::start(node),
            refused: None,
            stage: PatchStage::NodeInfo,
        }
    }

    /// What to do next.
    pub open spec fn step(self) -> Step {
        let from = relative(self.source);
        let to = relative(self.target);
        match self.stage {
            PatchStage::NodeInfo => Step::NodeInfo { node: self.node },
            PatchStage::NodePath => Step::NodePath { node: self.node },
            PatchStage::ParentInfo => Step::NodeInfo { node: self.parent },
            PatchStage::ParentPath => Step::NodePath { node: self.parent },
            PatchStage::Resolve => Step::Resolve { path: to },
            PatchStage::Exists => Step::Exists { path: to },
            PatchStage::Rename => Step::Rename { from, to },
            PatchStage::StageMove => Step::StageMove { from, to },
            PatchStage::Epilogue => self.epilogue.step(),
            PatchStage::Undo => Step::Rename { from: to, to: from },
            PatchStage::ResolveNew => Step::Resolve { path: to },
            PatchStage::Record => self.record.step(),
            PatchStage::Finished | PatchStage::Refused => Step::Finish,
        }
    }

    /// The state once the request is refused.
    pub open spec fn refuse(self, refused: Refusal) -> PatchState {
        PatchState { refused: Some(refused), stage: PatchStage::Refused, ..self }
    }

    /// The state once something is found in the way.
    pub open spec fn conflict(self) -> PatchState {
        self.refuse(
            Refusal {
                status: Status::Conflict,
                error: "destination already exists"@,
                conflicts: Some(seq![self.target]),
            },
        )
    }

    /// The state once the move has to be undone.
    pub open spec fn undo(self, failure: Seq<char>) -> PatchState {
        PatchState { failure, stage: PatchStage::Undo, ..self }
    }

    /// The state once the record of `node` is looked up, to be answered with `revision`.
    pub open spec fn show(self, node: u32, revision: ContentHash) -> PatchState {
        PatchState {
            revision,
            record: RecordState::start(node),
            stage: PatchStage::Record,
            ..self
        }
    }

    /// The state once the virtual path of the directory that the node is to be in is known. A move to
    /// where the node is changes nothing, and a directory does not move below itself.
    pub open spec fn aimed(self, info: NodeInfo, parent: Seq<char>) -> PatchState {
        let target = joined(
            parent,
            match self.name {
                Some(name) => name,
                None => info.name@,
            },
        );
        let state = PatchState { target, ..self };
        if target == self.source {
            state.show(self.node, self.served)
        } else if info.kind == NodeKind::Directory && is_below(target, self.source) {
            state.refuse(refusal(Status::BadRequest, "cannot move a directory inside itself"@))
        } else {
            PatchState { stage: PatchStage::Resolve, ..state }
        }
    }

    /// The state once the directory that the node is to be in is known.
    pub open spec fn headed(self, info: NodeInfo, parent: u32) -> PatchState {
        let state = PatchState { parent, ..self };
        if parent == self.ids.root {
            state.aimed(info, "/"@)
        } else {
            PatchState { stage: PatchStage::ParentInfo, ..state }
        }
    }

    /// The state after `event`.
    pub open spec fn after(self, event: Event) -> PatchState {
        match (self.stage, event) {
            (PatchStage::NodeInfo, Event::NodeInfo(Err(error))) => self.refuse(error@),
            (PatchStage::NodeInfo, Event::NodeInfo(Ok(info))) => PatchState {
                info: Some(info),
                stage: PatchStage::NodePath,
                ..self
            },
            (PatchStage::NodePath, Event::NodePath(Err(error))) => self.refuse(error@),
            (PatchStage::NodePath, Event::NodePath(Ok(path))) => {
                let state = PatchState { source: path@, ..self };
                match (self.info, self.parent_id) {
                    (Some(info), None) => state.headed(info, info.parent_id),
                    (Some(info), Some(raw)) => match node_named(raw, self.ids) {
                        Ok(parent) => state.headed(info, parent),
                        Err(refused) => state.refuse(refused),
                    },
                    (None, _) => state,
                }
            },
            (PatchStage::ParentInfo, Event::NodeInfo(Err(error))) => self.refuse(error@),
            (PatchStage::ParentInfo, Event::NodeInfo(Ok(parent))) => if parent.kind
                == NodeKind::Directory {
                PatchState { stage: PatchStage::ParentPath, ..self }
            } else {
                self.refuse(refusal(Status::BadRequest, "node is not a directory"@))
            },
            (PatchStage::ParentPath, Event::NodePath(Err(error))) => self.refuse(error@),
            (PatchStage::ParentPath, Event::NodePath(Ok(path))) => match self.info {
                Some(info) => self.aimed(info, path@),
                None => self,
            },
            (PatchStage::Resolve, Event::Resolved(Some(_))) => self.conflict(),
            (PatchStage::Resolve, Event::Resolved(None)) => PatchState {
                stage: PatchStage::Exists,
                ..self
            },
            (PatchStage::Exists, Event::Exists(exists)) => if exists {
                self.conflict()
            } else {
                PatchState { stage: PatchStage::Rename, ..self }
            },
            (PatchStage::Rename, Event::Done(Err(error))) => self.refuse(
                refusal(Status::InternalServerError, "rename: "@ + error@),
            ),
            (PatchStage::Rename, Event::Done(Ok(()))) => PatchState {
                moved: true,
                stage: PatchStage::StageMove,
                ..self
            },
            (PatchStage::StageMove, Event::Staged(Err(error))) => self.undo(error@),
            (PatchStage::StageMove, Event::Staged(Ok(_))) => PatchState {
                epilogue: EpilogueState::start(
                    self.versioned,
                    "lore-drive: move "@ + self.source + " -> "@ + self.target,
                    self.served,
                ),
                stage: PatchStage::Epilogue,
                ..self
            },
            (PatchStage::Epilogue, _) => {
                let epilogue = self.epilogue.after(event);
                match epilogue.stage {
                    EpilogueStage::Finished => PatchState {
                        epilogue,
                        stage: PatchStage::ResolveNew,
                        ..self
                    },
                    EpilogueStage::Failed => (PatchState { epilogue, ..self }).undo(
                        epilogue.failure,
                    ),
                    _ => PatchState { epilogue, ..self },
                }
            },
            (PatchStage::Undo, Event::Done(_)) => (PatchState { moved: false, ..self }).refuse(
                refusal(Status::InternalServerError, self.failure),
            ),
            (PatchStage::ResolveNew, Event::Resolved(Some(node))) => self.show(
                node,
                self.epilogue.revision,
            ),
            (PatchStage::ResolveNew, Event::Resolved(None)) => self.refuse(
                refusal(Status::InternalServerError, "moved node not found"@),
            ),
            (PatchStage::Record, _) => {
                let record = self.record.after(event);
                let state = PatchState { record, ..self };
                match record.stage {
                    RecordStage::Finished => PatchState { stage: PatchStage::Finished, ..state },
                    RecordStage::Refused => PatchState {
                        refused: record.refused,
                        stage: PatchStage::Refused,
                        ..state
                    },
                    _ => state,
                }
            },
            _ => self,
        }
    }

    /// The state after each of `events` in turn, if each is what can come of the step before it.
    pub open spec fn after_all(self, events: Seq<Event>) -> Option<PatchState>
        decreases events.len(),
    {
        if events.len() == 0 {
            Some(self)
        } else {
            match self.after_all(events.drop_last()) {
                Some(state) if answers(events.last(), state.step()) => Some(
                    state.after(events.last()),
                ),
                _ => None,
            }
        }
    }

    /// Whether the state is one that a request can be in.
    pub open spec fn valid(self) -> bool {
        &&& self.refused is Some <==> self.stage == PatchStage::Refused
        &&& self.record.valid()
        &&& self.epilogue.valid() && self.epilogue.versioned == self.versioned
        &&& match self.stage {
            PatchStage::Epilogue | PatchStage::Undo | PatchStage::ResolveNew | PatchStage::Record
            | PatchStage::Finished | PatchStage::Refused => true,
            _ => self.epilogue.commit == CommitOutcome::Pending,
        }
        &&& self.stage == PatchStage::Record || self.stage == PatchStage::Finished ==> !self.moved
            ==> self.epilogue.commit == CommitOutcome::Pending
        &&& self.stage != PatchStage::NodeInfo && self.stage != PatchStage::Refused
            ==> self.info is Some
        &&& match self.stage {
            PatchStage::NodeInfo | PatchStage::NodePath | PatchStage::ParentInfo
            | PatchStage::ParentPath => !self.moved,
            PatchStage::Resolve | PatchStage::Exists | PatchStage::Rename => !self.moved
                && self.target != self.source,
            PatchStage::StageMove | PatchStage::Undo => self.moved,
            PatchStage::Epilogue => self.moved && self.epilogue.stage != EpilogueStage::Finished
                && self.epilogue.stage != EpilogueStage::Failed,
            PatchStage::ResolveNew => self.moved && self.epilogue.stage == EpilogueStage::Finished,
            PatchStage::Record => self.record.stage != RecordStage::Finished && self.record.stage
                != RecordStage::Refused && (self.moved ==> self.epilogue.stage
                == EpilogueStage::Finished) && (!self.moved ==> self.target == self.source),
            PatchStage::Finished => self.record.stage == RecordStage::Finished && (self.moved
                ==> self.epilogue.stage == EpilogueStage::Finished) && (!self.moved ==> self.target
                == self.source),
            PatchStage::Refused => self.moved ==> self.epilogue.stage == EpilogueStage::Finished,
        }
    }
}

/// A request that is refused before its move is served has asked for the node to be moved back, if it
/// had moved it. One that is done has the node at the path that was asked for: it was moved there,
/// with the epilogue finished, or it was there.
pub proof fn a_refused_move_is_undone(
    node: u32,
    ids: NodeIds,
    name: Option<Seq<char>>,
    parent_id: Option<u64>,
    versioned: bool,
    served: ContentHash,
    events: Seq<Event>,
)
    ensures
        match PatchState::start(node, ids, name, parent_id, versioned, served).after_all(events) {
            Some(state) => {
                &&& state.valid()
                &&& state.stage == PatchStage::Refused && state.epilogue.stage
                    != EpilogueStage::Finished ==> !state.moved
                &&& state.stage == PatchStage::Finished ==> (if state.moved {
                    state.epilogue.stage == EpilogueStage::Finished
                } else {
                    state.target == state.source
                })
            },
            None => true,
        },
    decreases events.len(),
{
    if events.len() > 0 {
        a_refused_move_is_undone(
            node,
            ids,
            name,
            parent_id,
            versioned,
            served,
            events.drop_last(),
        );
        let start = PatchState::start(node, ids, name, parent_id, versioned, served);
        if let Some(state) = start.after_all(events.drop_last()) {
            if answers(events.last(), state.step()) {
                lemma_patch_stays_valid(state, events.last());
            }
        }
    }
}

/// In drive mode no request commits. In versioned mode one that is done has made exactly one commit if
/// it moved the node, unless it was told that nothing is staged: then it has made none. It has made
/// none either if the node was where it was to be.
pub proof fn a_move_commits_as_its_mode_says(
    node: u32,
    ids: NodeIds,
    name: Option<Seq<char>>,
    parent_id: Option<u64>,
    versioned: bool,
    served: ContentHash,
    events: Seq<Event>,
)
    ensures
        match PatchState::start(node, ids, name, parent_id, versioned, served).after_all(events) {
            Some(state) => {
                &&& state.valid() && state.versioned == versioned
                &&& commits(events) == state.epilogue.committed()
                &&& empty_commits(events) == state.epilogue.found_empty()
                &&& !versioned ==> commits(events) == 0 && !(state.step() is Commit)
                &&& versioned && state.stage == PatchStage::Finished ==> commits(events)
                    + empty_commits(events) == (if state.moved {
                    1int
                } else {
                    0
                })
            },
            None => true,
        },
    decreases events.len(),
{
    if events.len() > 0 {
        a_move_commits_as_its_mode_says(
            node,
            ids,
            name,
            parent_id,
            versioned,
            served,
            events.drop_last(),
        );
        let start = PatchState::start(node, ids, name, parent_id, versioned, served);
        if let Some(state) = start.after_all(events.drop_last()) {
            if answers(events.last(), state.step()) {
                lemma_patch_stays_valid(state, events.last());
                lemma_patch_commit(state, events.last());
            }
        }
    }
}

/// Each event leads from a state that a request can be in to another.
proof fn lemma_patch_stays_valid(state: PatchState, event: Event)
    requires
        state.valid(),
        answers(event, state.step()),
    ensures
        state.after(event).valid(),
{
}

/// An event counts as a commit just where the epilogue takes it for one.
proof fn lemma_patch_commit(state: PatchState, event: Event)
    requires
        state.valid(),
        answers(event, state.step()),
    ensures
        state.after(event).versioned == state.versioned,
        state.after(event).epilogue.committed() == state.epilogue.committed() + (if is_commit(
            event,
        ) {
            1int
        } else {
            0
        }),
        state.after(event).epilogue.found_empty() == state.epilogue.found_empty() + (
        if is_empty_commit(event) {
            1int
        } else {
            0
        }),
{
}

/// A request in progress.
pub struct Patch {
    pub node: u32,
    pub ids: NodeIds,
    pub name: Option<String>,
    pub parent_id: Option<u64>,
    pub versioned: bool,
    pub served: ContentHash,
    pub info: Option<NodeInfo>,
    pub source: String,
    pub parent: u32,
    pub target: String,
    pub moved: bool,
    pub epilogue: Epilogue,
    pub revision: ContentHash,
    pub failure: String,
    pub record: Record,
    pub refused: Option<ApiError>,
    pub stage: PatchStage,
}

impl View for Patch {
    type V = PatchState;

    open spec fn view(&self) -> PatchState {
        PatchState {
            node: self.node,
            ids: self.ids,
            name: optional_text(self.name),
            parent_id: self.parent_id,
            versioned: self.versioned,
            served: self.served,
            info: self.info,
            source: self.source@,
            parent: self.parent,
            target: self.target@,
            moved: self.moved,
            epilogue: self.epilogue@,
            revision: self.revision,
            failure: self.failure@,
            record: self.record@,
            refused: match self.refused {
                Some(error) => Some(error@),
                None => None,
            },
            stage: self.stage,
        }
    }
}

/// What renaming or moving the node that `text` names starts with, or why it is refused.
pub open spec fn patch_requested(
    text: Seq<char>,
    ids: NodeIds,
    name: Option<Seq<char>>,
    parent_id: Option<u64>,
    versioned: bool,
    served: ContentHash,
) -> Result<PatchState, Refusal> {
    match node_written(text, ids) {
        Ok(node) => if node == ids.root {
            Err(refusal(Status::BadRequest, "cannot rename or move the root"@))
        } else if name is None && parent_id is None {
            Err(refusal(Status::BadRequest, "provide name and/or parent_id"@))
        } else if name matches Some(name) && !is_valid_name(name) {
            Err(refusal(Status::BadRequest, "invalid name"@))
        } else {
            Ok(PatchState::start(node, ids, name, parent_id, versioned, served))
        },
        Err(refused) => Err(refused),
    }
}

impl Patch {
    /// Starts a request to rename or move the node that `text` names, while `served` is the revision
    /// served.
    pub fn start(
        text: &str,
        ids: NodeIds,
        name: Option<String>,
        parent_id: Option<u64>,
        versioned: bool,
        served: ContentHash,
    ) -> (started: Result<Patch, ApiError>)
        ensures
            match started {
                Ok(request) => patch_requested(
                    text@,
                    ids,
                    optional_text(name),
                    parent_id,
                    versioned,
                    served,
                ) == Ok::<PatchState, Refusal>(request@) && request@.valid(),
                Err(error) => patch_requested(
                    text@,
                    ids,
                    optional_text(name),
                    parent_id,
                    versioned,
                    served,
                ) == Err::<PatchState, Refusal>(error@),
            },
    {
        let node: u32 = match parse_node_text(text, ids) {
            Ok(node) => node,
            Err(error) => {
                return Err(error);
            },
        };
        if node == ids.root {
            return Err(err_resp(Status::BadRequest, "cannot rename or move the root"));
        }
        if name.is_none() && parent_id.is_none() {
            return Err(err_resp(Status::BadRequest, "provide name and/or parent_id"));
        }
        if let Some(name) = &name {
            if !valid_name(name.as_str()) {
                return Err(err_resp(Status::BadRequest, "invalid name"));
            }
        }
        Ok(
            Patch {
                node,
                ids,
                name,
                parent_id,
                versioned,
                served,
                info: None,
                source: String::new(),
                parent: ids.root,
                target: String::new(),
                moved: false,
                epilogue: Epilogue::start(versioned, String::new(), served),
                revision: served,
                failure: String::new(),
                record: Record::start(node),
                refused: None,
                stage: PatchStage::NodeInfo,
            },
        )
    }

    /// What to do next.
    pub fn action(&self) -> (action: Action)
        ensures
            action@ == self@.step(),
    {
        let from: String = rel_of(self.source.as_str());
        let to: String = rel_of(self.target.as_str());
        match self.stage {
            PatchStage::NodeInfo => Action::NodeInfo { node: self.node },
            PatchStage::NodePath => Action::NodePath { node: self.node },
            PatchStage::ParentInfo => Action::NodeInfo { node: self.parent },
            PatchStage::ParentPath => Action::NodePath { node: self.parent },
            PatchStage::Resolve => Action::Resolve { path: to },
            PatchStage::Exists => Action::Exists { path: to },
            PatchStage::Rename => Action::Rename { from, to },
            PatchStage::StageMove => Action::StageMove { from, to },
            PatchStage::Epilogue => self.epilogue.action(),
            PatchStage::Undo => Action::Rename { from: to, to: from },
            PatchStage::ResolveNew => Action::Resolve { path: to },
            PatchStage::Record => self.record.action(),
            PatchStage::Finished | PatchStage::Refused => Action::Finish,
        }
    }

    /// Refuses the request.
    fn refuse(&mut self, error: ApiError)
        ensures
            final(self)@ == old(self)@.refuse(error@),
    {
        self.refused = Some(error);
        self.stage = PatchStage::Refused;
    }

    /// Refuses the request because something is in the way.
    fn conflict(&mut self)
        ensures
            final(self)@ == old(self)@.conflict(),
    {
        let mut conflicts: Vec<String> = Vec::new();
        conflicts.push(self.target.clone());
        proof {
            assert(texts(conflicts@) =~= seq![self.target@]);
        }
        self.refuse(conflict_resp("destination already exists", conflicts));
    }

    /// Has the move undone.
    fn undo(&mut self, failure: String)
        ensures
            final(self)@ == old(self)@.undo(failure@),
    {
        self.failure = failure;
        self.stage = PatchStage::Undo;
    }

    /// Has the record of a node looked up.
    fn show(&mut self, node: u32, revision: ContentHash)
        ensures
            final(self)@ == old(self)@.show(node, revision),
    {
        self.revision = revision;
        self.record = Record::start(node);
        self.stage = PatchStage::Record;
    }

    /// Takes the virtual path of the directory that the node is to be in.
    fn aim(&mut self, parent: &str)
        requires
            old(self)@.info is Some,
        ensures
            final(self)@ == old(self)@.aimed(old(self)@.info->0, parent@),
    {
        let (target, directory): (String, bool) = match &self.info {
            Some(info) => (
                match &self.name {
                    Some(name) => join_virtual(parent, name.as_str()),
                    None => join_virtual(parent, info.name.as_str()),
                },
                is_dir(info.kind),
            ),
            None => (String::new(), false),
        };
        let same: bool = same_text(target.as_str(), self.source.as_str());
        let below: bool = directory && lies_below(target.as_str(), self.source.as_str());
        self.target = target;
        if same {
            self.show(self.node, self.served);
        } else if below {
            self.refuse(err_resp(Status::BadRequest, "cannot move a directory inside itself"));
        } else {
            self.stage = PatchStage::Resolve;
        }
    }

    /// Takes the directory that the node is to be in.
    fn head(&mut self, parent: u32)
        requires
            old(self)@.info is Some,
        ensures
            final(self)@ == old(self)@.headed(old(self)@.info->0, parent),
    {
        self.parent = parent;
        if parent == self.ids.root {
            self.aim("/");
        } else {
            self.stage = PatchStage::ParentInfo;
        }
    }

    /// Takes what came of the action.
    pub fn advance(&mut self, event: Event)
        requires
            old(self)@.valid(),
            answers(event, old(self)@.step()),
        ensures
            final(self)@ == old(self)@.after(event),
            final(self)@.valid(),
    {
        proof {
            lemma_patch_stays_valid(self@, event);
        }
        match self.stage {
            PatchStage::NodeInfo => match event {
                Event::NodeInfo(Ok(info)) => {
                    self.info = Some(info);
                    self.stage = PatchStage::NodePath;
                },
                Event::NodeInfo(Err(error)) => self.refuse(error),
                _ => {},
            },
            PatchStage::NodePath => match event {
                Event::NodePath(Ok(path)) => {
                    self.source = path;
                    match self.parent_id {
                        Some(raw) => match parse_node_id(raw, self.ids) {
                            Ok(parent) => self.head(parent),
                            Err(error) => self.refuse(error),
                        },
                        None => {
                            let parent: u32 = match &self.info {
                                Some(info) => info.parent_id,
                                None => self.ids.root,
                            };
                            self.head(parent);
                        },
                    }
                },
                Event::NodePath(Err(error)) => self.refuse(error),
                _ => {},
            },
            PatchStage::ParentInfo => match event {
                Event::NodeInfo(Ok(parent)) => if is_dir(parent.kind) {
                    self.stage = PatchStage::ParentPath;
                } else {
                    self.refuse(err_resp(Status::BadRequest, "node is not a directory"));
                },
                Event::NodeInfo(Err(error)) => self.refuse(error),
                _ => {},
            },
            PatchStage::ParentPath => match event {
                Event::NodePath(Ok(path)) => self.aim(path.as_str()),
                Event::NodePath(Err(error)) => self.refuse(error),
                _ => {},
            },
            PatchStage::Resolve => match event {
                Event::Resolved(Some(_)) => self.conflict(),
                _ => {
                    self.stage = PatchStage::Exists;
                },
            },
            PatchStage::Exists => match event {
                Event::Exists(true) => self.conflict(),
                _ => {
                    self.stage = PatchStage::Rename;
                },
            },
            PatchStage::Rename => match event {
                Event::Done(Err(error)) => self.refuse(
                    err_resp(
                        Status::InternalServerError,
                        "rename: ".to_owned().concat(error.as_str()).as_str(),
                    ),
                ),
                _ => {
                    self.moved = true;
                    self.stage = PatchStage::StageMove;
                },
            },
            PatchStage::StageMove => match event {
                Event::Staged(Err(error)) => self.undo(error),
                _ => {
                    let message = "lore-drive: move ".to_owned().concat(
                        self.source.as_str(),
                    ).concat(" -> ").concat(self.target.as_str());
                    self.epilogue = Epilogue::start(self.versioned, message, self.served);
                    self.stage = PatchStage::Epilogue;
                },
            },
            PatchStage::Epilogue => {
                self.epilogue.advance(event);
                match self.epilogue.stage {
                    EpilogueStage::Finished => {
                        self.stage = PatchStage::ResolveNew;
                    },
                    EpilogueStage::Failed => {
                        let failure = self.epilogue.failure.clone();
                        self.undo(failure);
                    },
                    _ => {},
                }
            },
            PatchStage::Undo => {
                self.moved = false;
                let error = err_resp(Status::InternalServerError, self.failure.as_str());
                self.refuse(error);
            },
            PatchStage::ResolveNew => match event {
                Event::Resolved(Some(node)) => {
                    let revision: ContentHash = self.epilogue.revision;
                    self.show(node, revision);
                },
                _ => self.refuse(err_resp(Status::InternalServerError, "moved node not found")),
            },
            PatchStage::Record => {
                self.record.advance(event);
                match self.record.stage {
                    RecordStage::Finished => {
                        self.stage = PatchStage::Finished;
                    },
                    RecordStage::Refused => {
                        let error: Option<ApiError> = match &self.record.refused {
                            Some(error) => Some(error.duplicate()),
                            None => None,
                        };
                        self.refused = error;
                        self.stage = PatchStage::Refused;
                    },
                    _ => {},
                }
            },
            PatchStage::Finished | PatchStage::Refused => {},
        }
    }

    /// What the request is answered with, once nothing is left to do: the record of the node, and the
    /// revision that is served.
    pub fn reply(self) -> (reply: Result<(NodeRecord, String), ApiError>)
        requires
            self@.valid(),
            self@.step() == Step::Finish,
        ensures
            match reply {
                Ok(reply) => {
                    &&& self@.stage == PatchStage::Finished
                    &&& shows(
                        reply.0,
                        self@.record.info->0,
                        self@.record.path,
                        self@.record.lookup->0,
                    )
                    &&& reply.1@ == self@.revision.text()
                },
                Err(error) => self@.stage == PatchStage::Refused && self@.refused == Some(error@),
            },
    {
        if let Some(error) = self.refused {
            return Err(error);
        }
        match self.record.reply() {
            Ok(record) => Ok((record, self.revision.to_text())),
            Err(error) => Err(error),
        }
    }
}

} // verus!
