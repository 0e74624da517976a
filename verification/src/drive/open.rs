//! Opening a workspace.

use vstd::prelude::*;

use super::api::{mode_str, mode_text};
use crate::text::{decimal_signed, signed_digits};
use crate::types::{BranchId, ContentHash, RepositoryId};

verus! {

/// What opening a workspace waits for.
#[derive(Clone, Copy, Debug, PartialEq, Eq, Structural)]
pub enum OpenStage {
    /// The repository is to be opened, read-only.
    Connect,
    /// The revision and the branch that the workspace is at are to be looked up.
    Anchor,
    /// The staged revision is to be looked up.
    StagedRevision,
    /// The revision that the workspace is at is to be looked up, to be served.
    ServedAnchor,
    /// The name of the branch is to be looked up.
    BranchName,
    /// The store is to be opened.
    OpenStore,
    /// The tree of the revision to serve is to be loaded.
    LoadTree,
    Finished,
    Failed,
}

/// What came of a step of opening a workspace.
pub enum OpenEvent {
    Connected(Result<RepositoryId, String>),
    Anchor(Result<(ContentHash, BranchId), String>),
    StagedRevision(Option<ContentHash>),
    BranchName(Option<String>),
    /// The status that opening the store ended with, and the handle that it told, if it told one.
    StoreOpened(i32, Option<u64>),
    /// The status that loading the tree ended with, and the handle that it told, if it told one.
    TreeLoaded(i32, Option<u64>),
}

/// Whether `event` is what can come of a stage.
pub open spec fn answers_open(event: OpenEvent, stage: OpenStage) -> bool {
    match stage {
        OpenStage::Connect => event is Connected,
        OpenStage::Anchor | OpenStage::ServedAnchor => event is Anchor,
        OpenStage::StagedRevision => event is StagedRevision,
        OpenStage::BranchName => event is BranchName,
        OpenStage::OpenStore => event is StoreOpened,
        OpenStage::LoadTree => event is TreeLoaded,
        OpenStage::Finished | OpenStage::Failed => false,
    }
}

/// The state of opening a workspace.
pub struct OpeningState {
    pub versioned: bool,
    pub repository: RepositoryId,
    pub branch: BranchId,
    pub branch_name: Seq<char>,
    /// The revision to serve.
    pub revision: ContentHash,
    pub store: u64,
    pub tree: u64,
    /// What is said of the failure, once there is one.
    pub failure: Seq<char>,
    pub stage: OpenStage,
}

impl OpeningState {
    /// The state after a failure.
    pub open spec fn fail(self, failure: Seq<char>) -> OpeningState {
        OpeningState { failure, stage: OpenStage::Failed, ..self }
    }

    /// The state once the revision to serve is known.
    pub open spec fn serve(self, revision: ContentHash) -> OpeningState {
        OpeningState { revision, stage: OpenStage::BranchName, ..self }
    }

    /// The state after `event`. In drive mode a staged revision is served if there is one; otherwise,
    /// and in versioned mode, the revision that the workspace is at.
    pub open spec fn after(self, event: OpenEvent) -> OpeningState {
        match (self.stage, event) {
            (OpenStage::Connect, OpenEvent::Connected(Ok(repository))) => OpeningState {
                repository,
                stage: OpenStage::Anchor,
                ..self
            },
            (OpenStage::Connect, OpenEvent::Connected(Err(failure))) => self.fail(failure@),
            (OpenStage::Anchor, OpenEvent::Anchor(Ok(anchor))) => OpeningState {
                branch: anchor.1,
                stage: if self.versioned {
                    OpenStage::ServedAnchor
                } else {
                    OpenStage::StagedRevision
                },
                ..self
            },
            (OpenStage::Anchor, OpenEvent::Anchor(Err(failure))) => self.fail(failure@),
            (OpenStage::StagedRevision, OpenEvent::StagedRevision(Some(revision))) => self.serve(
                revision,
            ),
            (OpenStage::StagedRevision, OpenEvent::StagedRevision(None)) => OpeningState {
                stage: OpenStage::ServedAnchor,
                ..self
            },
            (OpenStage::ServedAnchor, OpenEvent::Anchor(Ok(anchor))) => self.serve(anchor.0),
            (OpenStage::ServedAnchor, OpenEvent::Anchor(Err(failure))) => self.fail(failure@),
            (OpenStage::BranchName, OpenEvent::BranchName(name)) => OpeningState {
                branch_name: match name {
                    Some(name) => name@,
                    None => Seq::empty(),
                },
                stage: OpenStage::OpenStore,
                ..self
            },
            (OpenStage::OpenStore, OpenEvent::StoreOpened(status, handle)) => if status != 0 {
                self.fail(
                    "lore_storage_open failed (status "@ + signed_digits(status as int) + ")"@,
                )
            } else {
                match handle {
                    Some(store) => OpeningState { store, stage: OpenStage::LoadTree, ..self },
                    None => self.fail("lore_storage_open succeeded but emitted no handle"@),
                }
            },
            (OpenStage::LoadTree, OpenEvent::TreeLoaded(status, handle)) => if status != 0 {
                self.fail(
                    "lore_revision_tree_load failed (status "@ + signed_digits(status as int)
                        + ")"@,
                )
            } else {
                match handle {
                    Some(tree) => OpeningState { tree, stage: OpenStage::Finished, ..self },
                    None => self.fail("load succeeded but emitted no tree handle"@),
                }
            },
            _ => self,
        }
    }

    /// The state after each of `events` in turn, if each is what can come of the stage before it.
    pub open spec fn after_all(self, events: Seq<OpenEvent>) -> Option<OpeningState>
        decreases events.len(),
    {
        if events.len() == 0 {
            Some(self)
        } else {
            match self.after_all(events.drop_last()) {
                Some(state) if answers_open(events.last(), state.stage) => Some(
                    state.after(events.last()),
                ),
                _ => None,
            }
        }
    }

    /// Whether the revision to serve is known.
    pub open spec fn serves(self) -> bool {
        match self.stage {
            OpenStage::BranchName | OpenStage::OpenStore | OpenStage::LoadTree
            | OpenStage::Finished => true,
            _ => false,
        }
    }
}

/// Whether one of `events` tells that the workspace is at a revision.
pub open spec fn tells_anchor(events: Seq<OpenEvent>, revision: ContentHash) -> bool
    decreases events.len(),
{
    events.len() > 0 && (tells_anchor(events.drop_last(), revision) || (events.last() matches
        OpenEvent::Anchor(Ok(anchor)) && anchor.0 == revision))
}

/// Whether one of `events` tells a staged revision, or with `None` that there is none.
pub open spec fn tells_staged(events: Seq<OpenEvent>, revision: Option<ContentHash>) -> bool
    decreases events.len(),
{
    events.len() > 0 && (tells_staged(events.drop_last(), revision) || events.last()
        == OpenEvent::StagedRevision(revision))
}

/// In versioned mode no staged revision is looked up, and the revision that is served is one that the
/// workspace is at. In drive mode the staged revision is served, and one that the workspace is at only
/// where nothing is staged.
pub proof fn a_workspace_serves_what_its_mode_says(start: OpeningState, events: Seq<OpenEvent>)
    requires
        start.stage == OpenStage::Connect,
    ensures
        match start.after_all(events) {
            Some(state) => {
                &&& state.versioned == start.versioned
                &&& start.versioned ==> state.stage != OpenStage::StagedRevision
                &&& start.versioned && state.serves() ==> tells_anchor(events, state.revision)
                &&& !start.versioned && state.serves() ==> tells_staged(
                    events,
                    Some(state.revision),
                ) || (tells_staged(events, None) && tells_anchor(events, state.revision))
                &&& !start.versioned && state.stage == OpenStage::ServedAnchor ==> tells_staged(
                    events,
                    None,
                )
            },
            None => true,
        },
    decreases events.len(),
{
    if events.len() > 0 {
        a_workspace_serves_what_its_mode_says(start, events.drop_last());
    }
}

/// What is said of the workspace.
#[derive(Debug)]
pub struct InfoReply {
    pub repository_id: String,
    pub branch_id: String,
    pub branch_name: String,
    pub revision: String,
    pub workdir: String,
    pub mode: String,
}

/// What is said of a workspace that serves a revision.
pub fn workspace_info(
    repository: RepositoryId,
    branch: BranchId,
    branch_name: &str,
    revision: ContentHash,
    workdir: &str,
    versioned: bool,
) -> (info: InfoReply)
    ensures
        info.repository_id@ == repository.text(),
        info.branch_id@ == branch.text(),
        info.branch_name@ == branch_name@,
        info.revision@ == revision.text(),
        info.workdir@ == workdir@,
        info.mode@ == mode_text(versioned),
{
    InfoReply {
        repository_id: repository.to_text(),
        branch_id: branch.to_text(),
        branch_name: branch_name.to_owned(),
        revision: revision.to_text(),
        workdir: workdir.to_owned(),
        mode: mode_str(versioned).to_owned(),
    }
}

/// A workspace being opened.
pub struct Opening {
    pub versioned: bool,
    pub repository: RepositoryId,
    pub branch: BranchId,
    pub branch_name: String,
    pub revision: ContentHash,
    pub store: u64,
    pub tree: u64,
    pub failure: String,
    pub stage: OpenStage,
}

impl View for Opening {
    type V = OpeningState;

    open spec fn view(&self) -> OpeningState {
        OpeningState {
            versioned: self.versioned,
            repository: self.repository,
            branch: self.branch,
            branch_name: self.branch_name@,
            revision: self.revision,
            store: self.store,
            tree: self.tree,
            failure: self.failure@,
            stage: self.stage,
        }
    }
}

impl Opening {
    /// Starts to open a workspace.
    pub fn start(versioned: bool) -> (opening: Opening)
        ensures
            opening@.versioned == versioned,
            opening@.repository.is_zero(),
            opening@.branch.is_zero(),
            opening@.branch_name == Seq::<char>::empty(),
            opening@.revision.is_zero(),
            opening@.store == 0,
            opening@.tree == 0,
            opening@.failure == Seq::<char>::empty(),
            opening@.stage == OpenStage::Connect,
    {
        Opening {
            versioned,
            repository: RepositoryId::default(),
            branch: BranchId::default(),
            branch_name: String::new(),
            revision: ContentHash::default(),
            store: 0,
            tree: 0,
            failure: String::new(),
            stage: OpenStage::Connect,
        }
    }

    /// Takes a failure.
    fn fail(&mut self, failure: String)
        ensures
            final(self)@ == old(self)@.fail(failure@),
    {
        self.failure = failure;
        self.stage = OpenStage::Failed;
    }

    /// Takes the revision to serve.
    fn serve(&mut self, revision: ContentHash)
        ensures
            final(self)@ == old(self)@.serve(revision),
    {
        self.revision = revision;
        self.stage = OpenStage::BranchName;
    }

    /// Takes what came of the step at hand.
    pub fn advance(&mut self, event: OpenEvent)
        requires
            answers_open(event, old(self)@.stage),
        ensures
            final(self)@ == old(self)@.after(event),
    {
        match (self.stage, event) {
            (OpenStage::Connect, OpenEvent::Connected(Ok(repository))) => {
                self.repository = repository;
                self.stage = OpenStage::Anchor;
            },
            (OpenStage::Connect, OpenEvent::Connected(Err(failure))) => self.fail(failure),
            (OpenStage::Anchor, OpenEvent::Anchor(Ok(anchor))) => {
                self.branch = anchor.1;
                self.stage = if self.versioned {
                    OpenStage::ServedAnchor
                } else {
                    OpenStage::StagedRevision
                };
            },
            (_, OpenEvent::Anchor(Err(failure))) => self.fail(failure),
            (OpenStage::StagedRevision, OpenEvent::StagedRevision(Some(revision))) => self.serve(
                revision,
            ),
            (OpenStage::StagedRevision, _) => {
                self.stage = OpenStage::ServedAnchor;
            },
            (OpenStage::ServedAnchor, OpenEvent::Anchor(Ok(anchor))) => self.serve(anchor.0),
            (OpenStage::BranchName, OpenEvent::BranchName(name)) => {
                self.branch_name = match name {
                    Some(name) => name,
                    None => String::new(),
                };
                self.stage = OpenStage::OpenStore;
            },
            (OpenStage::OpenStore, OpenEvent::StoreOpened(status, handle)) => if status != 0 {
                self.fail(
                    "lore_storage_open failed (status ".to_owned().concat(
                        decimal_signed(status).as_str(),
                    ).concat(")"),
                );
            } else if let Some(store) = handle {
                self.store = store;
                self.stage = OpenStage::LoadTree;
            } else {
                self.fail("lore_storage_open succeeded but emitted no handle".to_owned());
            },
            (OpenStage::LoadTree, OpenEvent::TreeLoaded(status, handle)) => if status != 0 {
                self.fail(
                    "lore_revision_tree_load failed (status ".to_owned().concat(
                        decimal_signed(status).as_str(),
                    ).concat(")"),
                );
            } else if let Some(tree) = handle {
                self.tree = tree;
                self.stage = OpenStage::Finished;
            } else {
                self.fail("load succeeded but emitted no tree handle".to_owned());
            },
            _ => {},
        }
    }
}

} // verus!
