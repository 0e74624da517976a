//! Uploading files.
//!
//! Every part is kept aside, and every path is checked against the served tree, before the working
//! directory is touched. Then the parts are placed and staged. A request that fails before its files
//! are served removes those that it placed. In drive mode the content of each file is stored, since
//! no commit will do that.

use vstd::prelude::*;

use super::action::{answers, Action, Event, Step};
use super::api::{
    address_opt, address_text, conflict_resp, err_resp, is_dir, is_file, node_named, parse_node_id,
    refusal, ApiError, NodeIds, NodeKind, Refusal, Status,
};
use super::epilogue::{
    commits, empty_commits, is_commit, is_empty_commit, CommitOutcome, Epilogue, EpilogueStage,
    EpilogueState,
};
use super::path::{join_all, joined_all, rel_of, relative, safe_segments, sanitize_rel_path};
use crate::text::{decimal, decimal_digits, optional_text, texts};
use crate::types::{Address, ContentHash};

verus! {

/// What the request waits for.
#[derive(Clone, Copy, Debug, PartialEq, Eq, Structural)]
pub enum UploadStage {
    ParentInfo,
    ParentPath,
    CreateScratch,
    NextPart,
    ReadPart,
    KeepPart,
    Resolve,
    Existing,
    CreateParents,
    Place,
    Stage,
    Epilogue,
    Rollback,
    ResolveNew,
    NewInfo,
    PutFile,
    Remember,
    Finished,
    Refused,
}

/// A part of an upload: the path it goes to, below the directory, and the size of its content.
pub struct PartState {
    pub segments: Seq<Seq<char>>,
    pub size: u64,
}

/// A part of an upload.
pub struct Part {
    pub segments: Vec<String>,
    pub size: u64,
}

impl View for Part {
    type V = PartState;

    open spec fn view(&self) -> PartState {
        PartState { segments: texts(self.segments@), size: self.size }
    }
}

/// What is said of an uploaded file.
pub struct FileState {
    pub name: Seq<char>,
    pub path: Seq<char>,
    pub node_id: Option<u64>,
    pub size: u64,
    pub address: Option<Seq<char>>,
}

/// What is said of an uploaded file.
#[derive(Debug)]
pub struct UploadedFile {
    pub name: String,
    pub path: String,
    pub node_id: Option<u64>,
    pub size: u64,
    pub address: Option<String>,
}

impl View for UploadedFile {
    type V = FileState;

    open spec fn view(&self) -> FileState {
        FileState {
            name: self.name@,
            path: self.path@,
            node_id: self.node_id,
            size: self.size,
            address: optional_text(self.address),
        }
    }
}

/// The state of the request.
pub struct UploadState {
    pub parent: u32,
    /// Whether a file that exists is replaced.
    pub overwrite: bool,
    pub versioned: bool,
    /// The revision that is served when the request starts.
    pub served: ContentHash,
    /// The virtual path of the directory, once it is known.
    pub parent_path: Seq<char>,
    /// The parts that are kept.
    pub parts: Seq<PartState>,
    /// The path of the part at hand.
    pub segments: Seq<Seq<char>>,
    /// The size of the part at hand.
    pub size: u64,
    /// The part that is being checked, placed or reported.
    pub next: int,
    /// The virtual paths that are in the way.
    pub conflicts: Seq<Seq<char>>,
    /// How many parts were placed by this request, and their removal not asked for since.
    pub placed: int,
    pub epilogue: EpilogueState,
    /// What is said of the failure, while files are being removed.
    pub failure: Seq<char>,
    /// The node of the part that is being checked or reported.
    pub node: u32,
    /// The address of the part that is being reported.
    pub address: Address,
    /// What is said of that address.
    pub shown: Option<Seq<char>>,
    /// What is said of the files so far.
    pub files: Seq<FileState>,
    /// What the request is refused with, once it is.
    pub refused: Option<Refusal>,
    pub stage: UploadStage,
}

/// The message of the commit of an upload.
pub open spec fn upload_message(count: nat, parent: Seq<char>) -> Seq<char> {
    "lore-drive: upload "@ + decimal_digits(count) + " file(s) to "@ + parent
}

impl UploadState {
    /// The state at the start of an upload to a given directory.
    pub open spec fn start(
        parent: u32,
        root: u32,
        overwrite: bool,
        versioned: bool,
        served: ContentHash,
        unknown: Address,
    ) -> UploadState {
        UploadState {
            parent,
            overwrite,
            versioned,
            served,
            parent_path: "/"@,
            parts: Seq::empty(),
            segments: Seq::empty(),
            size: 0,
            next: 0,
            conflicts: Seq::empty(),
            placed: 0,
            epilogue: EpilogueState::start(versioned, Seq::empty(), served),
            failure: Seq::empty(),
            node: parent,
            address: unknown,
            shown: None,
            files: Seq::empty(),
            refused: None,
            stage: if parent == root {
                UploadStage::CreateScratch
            } else {
                UploadStage::ParentInfo
            },
        }
    }

    /// The virtual path of a part.
    pub open spec fn path(self, part: int) -> Seq<char> {
        joined_all(self.parent_path, self.parts[part].segments)
    }

    /// The path of a part.
    pub open spec fn rel(self, part: int) -> Seq<char> {
        relative(self.path(part))
    }

    /// The paths of the first parts.
    pub open spec fn rels(self, count: int) -> Seq<Seq<char>> {
        Seq::new(count as nat, |i: int| self.rel(i))
    }

    /// What to do next.
    pub open spec fn step(self) -> Step {
        match self.stage {
            UploadStage::ParentInfo => Step::NodeInfo { node: self.parent },
            UploadStage::ParentPath => Step::NodePath { node: self.parent },
            UploadStage::CreateScratch => Step::CreateScratch,
            UploadStage::NextPart => Step::NextPart,
            UploadStage::ReadPart => Step::ReadPart,
            UploadStage::KeepPart => Step::KeepPart { part: self.parts.len() as int },
            UploadStage::Resolve => Step::Resolve { path: self.rel(self.next) },
            UploadStage::Existing => Step::NodeInfo { node: self.node },
            UploadStage::CreateParents => Step::CreateParents { path: self.rel(self.next) },
            UploadStage::Place => Step::Place { part: self.next, path: self.rel(self.next) },
            UploadStage::Stage => Step::Stage { paths: self.rels(self.parts.len() as int) },
            UploadStage::Epilogue => self.epilogue.step(),
            UploadStage::Rollback => Step::RemoveFiles { paths: self.rels(self.placed) },
            UploadStage::ResolveNew => Step::Resolve { path: self.rel(self.next) },
            UploadStage::NewInfo => Step::NodeInfo { node: self.node },
            UploadStage::PutFile => Step::PutFile {
                context: self.address.context,
                path: self.rel(self.next),
            },
            UploadStage::Remember => Step::Remember { node: self.node, address: self.address },
            UploadStage::Finished | UploadStage::Refused => Step::Finish,
        }
    }

    /// The state once the request is refused.
    pub open spec fn refuse(self, refused: Refusal) -> UploadState {
        UploadState { refused: Some(refused), stage: UploadStage::Refused, ..self }
    }

    /// The state once the files that were placed have to be removed again.
    pub open spec fn roll_back(self, failure: Seq<char>) -> UploadState {
        UploadState { failure, stage: UploadStage::Rollback, ..self }
    }

    /// The state once the part at hand is checked: the next is, or all are. Then either something is
    /// in the way, or the first part is placed.
    pub open spec fn checked(self) -> UploadState {
        if self.next + 1 < self.parts.len() {
            UploadState { next: self.next + 1, stage: UploadStage::Resolve, ..self }
        } else if self.conflicts.len() > 0 {
            self.refuse(
                Refusal {
                    status: Status::Conflict,
                    error: decimal_digits(self.conflicts.len()) + " path(s) already exist"@,
                    conflicts: Some(self.conflicts),
                },
            )
        } else {
            UploadState { next: 0, stage: UploadStage::CreateParents, ..self }
        }
    }

    /// The state once the part at hand is placed: the next is, or all are and they are staged.
    pub open spec fn put_in_place(self) -> UploadState {
        let state = UploadState { placed: self.placed + 1, ..self };
        if self.next + 1 < self.parts.len() {
            UploadState { next: self.next + 1, stage: UploadStage::CreateParents, ..state }
        } else {
            UploadState { stage: UploadStage::Stage, ..state }
        }
    }

    /// The state once the part at hand is reported, with a node and an address.
    pub open spec fn report(self, node: Option<u32>, address: Option<Seq<char>>) -> UploadState {
        let segments = self.parts[self.next].segments;
        let file = FileState {
            name: if segments.len() > 0 {
                segments.last()
            } else {
                Seq::empty()
            },
            path: "/"@ + self.rel(self.next),
            node_id: match node {
                Some(node) => Some(node as u64),
                None => None,
            },
            size: self.parts[self.next].size,
            address,
        };
        let state = UploadState { files: self.files.push(file), ..self };
        if self.next + 1 < self.parts.len() {
            UploadState { next: self.next + 1, stage: UploadStage::ResolveNew, ..state }
        } else {
            UploadState { stage: UploadStage::Finished, ..state }
        }
    }

    /// The state after `event`.
    pub open spec fn after(self, event: Event) -> UploadState {
        match (self.stage, event) {
            (UploadStage::ParentInfo, Event::NodeInfo(Err(error))) => self.refuse(error@),
            (UploadStage::ParentInfo, Event::NodeInfo(Ok(info))) => if info.kind
                == NodeKind::Directory {
                UploadState { stage: UploadStage::ParentPath, ..self }
            } else {
                self.refuse(refusal(Status::BadRequest, "node is not a directory"@))
            },
            (UploadStage::ParentPath, Event::NodePath(Err(error))) => self.refuse(error@),
            (UploadStage::ParentPath, Event::NodePath(Ok(path))) => UploadState {
                parent_path: path@,
                stage: UploadStage::CreateScratch,
                ..self
            },
            (UploadStage::CreateScratch, Event::Done(Err(error))) => self.refuse(
                refusal(Status::InternalServerError, "tempdir: "@ + error@),
            ),
            (UploadStage::CreateScratch, Event::Done(Ok(()))) => UploadState {
                stage: UploadStage::NextPart,
                ..self
            },
            (UploadStage::NextPart, Event::Part(Err(error))) => self.refuse(
                refusal(Status::BadRequest, "malformed multipart: "@ + error@),
            ),
            // A field that carries no file name is no file.
            (UploadStage::NextPart, Event::Part(Ok(Some(None)))) => self,
            (UploadStage::NextPart, Event::Part(Ok(Some(Some(filename))))) => match safe_segments(
                filename@,
            ) {
                Some(segments) => UploadState { segments, stage: UploadStage::ReadPart, ..self },
                None => self.refuse(
                    refusal(Status::BadRequest, "illegal path: "@ + filename@),
                ),
            },
            (UploadStage::NextPart, Event::Part(Ok(None))) => if self.parts.len() == 0 {
                self.refuse(refusal(Status::BadRequest, "no file parts in request"@))
            } else {
                UploadState { next: 0, stage: UploadStage::Resolve, ..self }
            },
            (UploadStage::ReadPart, Event::PartRead(Err(error))) => self.refuse(
                refusal(Status::BadRequest, "read part: "@ + error@),
            ),
            (UploadStage::ReadPart, Event::PartRead(Ok(size))) => UploadState {
                size,
                stage: UploadStage::KeepPart,
                ..self
            },
            (UploadStage::KeepPart, Event::Done(Err(error))) => self.refuse(
                refusal(Status::InternalServerError, error@),
            ),
            (UploadStage::KeepPart, Event::Done(Ok(()))) => UploadState {
                parts: self.parts.push(PartState { segments: self.segments, size: self.size }),
                stage: UploadStage::NextPart,
                ..self
            },
            (UploadStage::Resolve, Event::Resolved(Some(node))) => UploadState {
                node,
                stage: UploadStage::Existing,
                ..self
            },
            (UploadStage::Resolve, Event::Resolved(None)) => self.checked(),
            (UploadStage::Existing, Event::NodeInfo(Ok(info))) => if !self.overwrite {
                (UploadState {
                    conflicts: self.conflicts.push(self.path(self.next)),
                    ..self
                }).checked()
            } else if info.kind != NodeKind::File {
                self.refuse(
                    refusal(
                        Status::BadRequest,
                        self.path(self.next) + " exists and is not a file"@,
                    ),
                )
            } else {
                self.checked()
            },
            (UploadStage::Existing, Event::NodeInfo(Err(_))) => self.checked(),
            (UploadStage::CreateParents, Event::Done(Err(error))) => self.roll_back(error@),
            (UploadStage::CreateParents, Event::Done(Ok(()))) => UploadState {
                stage: UploadStage::Place,
                ..self
            },
            (UploadStage::Place, Event::Done(Err(error))) => self.roll_back(error@),
            (UploadStage::Place, Event::Done(Ok(()))) => self.put_in_place(),
            (UploadStage::Stage, Event::Staged(Err(error))) => self.roll_back(error@),
            (UploadStage::Stage, Event::Staged(Ok(_))) => UploadState {
                epilogue: EpilogueState::start(
                    self.versioned,
                    upload_message(self.parts.len(), self.parent_path),
                    self.served,
                ),
                stage: UploadStage::Epilogue,
                ..self
            },
            (UploadStage::Epilogue, _) => {
                let epilogue = self.epilogue.after(event);
                match epilogue.stage {
                    EpilogueStage::Finished => UploadState {
                        epilogue,
                        next: 0,
                        stage: UploadStage::ResolveNew,
                        ..self
                    },
                    EpilogueStage::Failed => (UploadState { epilogue, ..self }).roll_back(
                        epilogue.failure,
                    ),
                    _ => UploadState { epilogue, ..self },
                }
            },
            (UploadStage::Rollback, Event::Done(_)) => (UploadState { placed: 0, ..self }).refuse(
                refusal(Status::InternalServerError, self.failure),
            ),
            (UploadStage::ResolveNew, Event::Resolved(None)) => self.report(None, None),
            (UploadStage::ResolveNew, Event::Resolved(Some(node))) => UploadState {
                node,
                stage: UploadStage::NewInfo,
                ..self
            },
            (UploadStage::NewInfo, Event::NodeInfo(Err(_))) => self.report(Some(self.node), None),
            (UploadStage::NewInfo, Event::NodeInfo(Ok(info))) => {
                let shown = address_text(info.kind, info.address);
                if !self.versioned && info.kind == NodeKind::File {
                    UploadState { address: info.address, shown, stage: UploadStage::PutFile, ..self }
                } else {
                    self.report(Some(self.node), shown)
                }
            },
            (UploadStage::PutFile, Event::Stored(Ok(address))) => UploadState {
                address,
                stage: UploadStage::Remember,
                ..self
            },
            (UploadStage::PutFile, Event::Stored(Err(_))) => self.report(
                Some(self.node),
                self.shown,
            ),
            (UploadStage::Remember, Event::Done(_)) => self.report(
                Some(self.node),
                Some(self.address.text()),
            ),
            _ => self,
        }
    }

    /// The state after each of `events` in turn, if each is what can come of the step before it.
    pub open spec fn after_all(self, events: Seq<Event>) -> Option<UploadState>
        decreases events.len(),
    {
        if events.len() == 0 {
            Some(self)
        } else {
            match self.after_all(events.drop_last()) {
                Some(state) if answers(events.last(), state.step()) => Some(
                    state.after(events.last()),
                ),
                _ => None,
            }
        }
    }

    /// Whether what is said of a file is true of the part it was made of.
    pub open spec fn reports(self, part: int) -> bool {
        &&& self.files[part].path == "/"@ + self.rel(part)
        &&& self.files[part].size == self.parts[part].size
        &&& self.parts[part].segments.len() > 0 ==> self.files[part].name
            == self.parts[part].segments.last()
    }

    /// Whether the state is one that a request can be in.
    pub open spec fn valid(self) -> bool {
        &&& self.refused is Some <==> self.stage == UploadStage::Refused
        &&& self.conflicts.len() <= self.parts.len()
        &&& self.epilogue.valid() && self.epilogue.versioned == self.versioned
        &&& match self.stage {
            UploadStage::Epilogue | UploadStage::Rollback | UploadStage::ResolveNew
            | UploadStage::NewInfo | UploadStage::PutFile | UploadStage::Remember
            | UploadStage::Finished | UploadStage::Refused => true,
            _ => self.epilogue.commit == CommitOutcome::Pending,
        }
        &&& forall|i: int| 0 <= i < self.files.len() ==> #[trigger] self.reports(i)
        &&& match self.stage {
            UploadStage::ParentInfo | UploadStage::ParentPath | UploadStage::CreateScratch
            | UploadStage::NextPart | UploadStage::ReadPart
            | UploadStage::KeepPart => self.placed == 0 && self.conflicts.len() == 0
                && self.files.len() == 0,
            UploadStage::Resolve | UploadStage::Existing => 0 <= self.next < self.parts.len()
                && self.conflicts.len() <= self.next && self.placed == 0 && self.files.len() == 0,
            UploadStage::CreateParents | UploadStage::Place => 0 <= self.next < self.parts.len()
                && self.conflicts.len() == 0 && self.placed == self.next && self.files.len() == 0,
            UploadStage::Stage => self.conflicts.len() == 0 && self.placed == self.parts.len()
                && self.parts.len() > 0 && self.files.len() == 0,
            UploadStage::Epilogue => self.conflicts.len() == 0 && self.placed == self.parts.len()
                && self.parts.len() > 0 && self.files.len() == 0 && self.epilogue.stage
                != EpilogueStage::Finished && self.epilogue.stage != EpilogueStage::Failed,
            UploadStage::Rollback => self.conflicts.len() == 0 && 0 <= self.placed
                <= self.parts.len(),
            UploadStage::ResolveNew | UploadStage::NewInfo | UploadStage::PutFile
            | UploadStage::Remember => 0 <= self.next < self.parts.len() && self.conflicts.len()
                == 0 && self.placed == self.parts.len() && self.epilogue.stage
                == EpilogueStage::Finished && self.files.len() == self.next,
            UploadStage::Finished => self.conflicts.len() == 0 && self.placed == self.parts.len()
                && self.epilogue.stage == EpilogueStage::Finished && self.files.len()
                == self.parts.len(),
            UploadStage::Refused => self.placed == 0,
        }
    }
}

/// No file is placed while a path is in the way, and a request that is refused has asked for the
/// removal of every file that it placed. One that is done has placed every part, has its epilogue
/// finished, and reports every part in order.
pub proof fn an_upload_is_placed_whole_or_removed(
    parent: u32,
    root: u32,
    overwrite: bool,
    versioned: bool,
    served: ContentHash,
    unknown: Address,
    events: Seq<Event>,
)
    ensures
        match UploadState::start(parent, root, overwrite, versioned, served, unknown).after_all(
            events,
        ) {
            Some(state) => {
                &&& state.valid()
                &&& state.placed > 0 ==> state.conflicts.len() == 0
                &&& state.stage == UploadStage::Refused ==> state.placed == 0
                &&& state.stage == UploadStage::Finished ==> {
                    &&& state.placed == state.parts.len() == state.files.len()
                    &&& state.epilogue.stage == EpilogueStage::Finished
                    &&& forall|i: int| 0 <= i < state.parts.len() ==> #[trigger] state.reports(i)
                }
            },
            None => true,
        },
    decreases events.len(),
{
    if events.len() > 0 {
        an_upload_is_placed_whole_or_removed(
            parent,
            root,
            overwrite,
            versioned,
            served,
            unknown,
            events.drop_last(),
        );
        let start = UploadState::start(parent, root, overwrite, versioned, served, unknown);
        if let Some(state) = start.after_all(events.drop_last()) {
            if answers(events.last(), state.step()) {
                lemma_upload_stays_valid(state, events.last());
            }
        }
    }
}

/// In drive mode no upload commits. In versioned mode one that is done has made exactly one commit,
/// unless it was told that nothing is staged: then it has made none.
pub proof fn an_upload_commits_as_its_mode_says(
    parent: u32,
    root: u32,
    overwrite: bool,
    versioned: bool,
    served: ContentHash,
    unknown: Address,
    events: Seq<Event>,
)
    ensures
        match UploadState::start(parent, root, overwrite, versioned, served, unknown).after_all(
            events,
        ) {
            Some(state) => {
                &&& state.valid() && state.versioned == versioned
                &&& commits(events) == state.epilogue.committed()
                &&& empty_commits(events) == state.epilogue.found_empty()
                &&& !versioned ==> commits(events) == 0 && !(state.step() is Commit)
                &&& versioned && state.stage == UploadStage::Finished ==> commits(events)
                    + empty_commits(events) == 1
            },
            None => true,
        },
    decreases events.len(),
{
    if events.len() > 0 {
        an_upload_commits_as_its_mode_says(
            parent,
            root,
            overwrite,
            versioned,
            served,
            unknown,
            events.drop_last(),
        );
        let start = UploadState::start(parent, root, overwrite, versioned, served, unknown);
        if let Some(state) = start.after_all(events.drop_last()) {
            if answers(events.last(), state.step()) {
                lemma_upload_stays_valid(state, events.last());
                lemma_upload_commit(state, events.last());
            }
        }
    }
}

/// An event counts as a commit just where the epilogue takes it for one.
proof fn lemma_upload_commit(state: UploadState, event: Event)
    requires
        state.valid(),
        answers(event, state.step()),
    ensures
        state.after(event).versioned == state.versioned,
        state.after(event).epilogue.committed() == state.epilogue.committed() + (if is_commit(
            event,
        ) {
            1int
        } else {
            0
        }),
        state.after(event).epilogue.found_empty() == state.epilogue.found_empty() + (
        if is_empty_commit(event) {
            1int
        } else {
            0
        }),
{
}

/// Each event leads from a state that a request can be in to another.
proof fn lemma_upload_stays_valid(state: UploadState, event: Event)
    requires
        state.valid(),
        answers(event, state.step()),
    ensures
        state.after(event).valid(),
{
    let next = state.after(event);
    assert forall|i: int| 0 <= i < next.files.len() implies #[trigger] next.reports(i) by {
        if i < state.files.len() {
            assert(state.reports(i));
        }
    }
}

/// A request in progress.
pub struct Upload {
    pub parent: u32,
    pub overwrite: bool,
    pub versioned: bool,
    pub served: ContentHash,
    pub parent_path: String,
    pub parts: Vec<Part>,
    pub segments: Vec<String>,
    pub size: u64,
    pub next: usize,
    pub conflicts: Vec<String>,
    pub placed: usize,
    pub epilogue: Epilogue,
    pub failure: String,
    pub node: u32,
    pub address: Address,
    pub shown: Option<String>,
    pub files: Vec<UploadedFile>,
    pub refused: Option<ApiError>,
    pub stage: UploadStage,
}

impl View for Upload {
    type V = UploadState;

    open spec fn view(&self) -> UploadState {
        UploadState {
            parent: self.parent,
            overwrite: self.overwrite,
            versioned: self.versioned,
            served: self.served,
            parent_path: self.parent_path@,
            parts: self.parts@.map_values(|part: Part| part@),
            segments: texts(self.segments@),
            size: self.size,
            next: self.next as int,
            conflicts: texts(self.conflicts@),
            placed: self.placed as int,
            epilogue: self.epilogue@,
            failure: self.failure@,
            node: self.node,
            address: self.address,
            shown: optional_text(self.shown),
            files: self.files@.map_values(|file: UploadedFile| file@),
            refused: match self.refused {
                Some(error) => Some(error@),
                None => None,
            },
            stage: self.stage,
        }
    }
}

impl Upload {
    /// Starts an upload to the node `parent_id`, while `served` is the revision served.
    pub fn start(
        parent_id: u64,
        ids: NodeIds,
        overwrite: bool,
        versioned: bool,
        served: ContentHash,
    ) -> (started: Result<Upload, ApiError>)
        ensures
            match started {
                Ok(request) => node_named(parent_id, ids) == Ok::<u32, Refusal>(request@.parent)
                    && request@ == UploadState::start(
                    request@.parent,
                    ids.root,
                    overwrite,
                    versioned,
                    served,
                    request@.address,
                ) && request@.valid(),
                Err(error) => node_named(parent_id, ids) == Err::<u32, Refusal>(error@),
            },
    {
        let parent: u32 = match parse_node_id(parent_id, ids) {
            Ok(parent) => parent,
            Err(error) => {
                return Err(error);
            },
        };
        let request = Upload {
            parent,
            overwrite,
            versioned,
            served,
            parent_path: "/".to_owned(),
            parts: Vec::new(),
            segments: Vec::new(),
            size: 0,
            next: 0,
            conflicts: Vec::new(),
            placed: 0,
            epilogue: Epilogue::start(versioned, String::new(), served),
            failure: String::new(),
            node: parent,
            address: Address::default(),
            shown: None,
            files: Vec::new(),
            refused: None,
            stage: if parent == ids.root {
                UploadStage::CreateScratch
            } else {
                UploadStage::ParentInfo
            },
        };
        proof {
            let start = UploadState::start(
                parent,
                ids.root,
                overwrite,
                versioned,
                served,
                request@.address,
            );
            assert(request@.parts =~= start.parts);
            assert(request@.segments =~= start.segments);
            assert(request@.conflicts =~= start.conflicts);
            assert(request@.files =~= start.files);
        }
        Ok(request)
    }

    /// The virtual path of a part.
    fn path(&self, part: usize) -> (path: String)
        requires
            part < self.parts@.len(),
        ensures
            path@ == self@.path(part as int),
    {
        join_all(self.parent_path.as_str(), &self.parts[part].segments)
    }

    /// The path of a part.
    fn rel(&self, part: usize) -> (path: String)
        requires
            part < self.parts@.len(),
        ensures
            path@ == self@.rel(part as int),
    {
        rel_of(self.path(part).as_str())
    }

    /// The paths of the first parts.
    fn rels(&self, count: usize) -> (paths: Vec<String>)
        requires
            count <= self.parts@.len(),
        ensures
            texts(paths@) == self@.rels(count as int),
    {
        let mut paths: Vec<String> = Vec::new();
        let mut i: usize = 0;
        while i < count
            invariant
                i <= count <= self.parts@.len(),
                paths@.len() == i,
                forall|j: int| 0 <= j < i ==> #[trigger] texts(paths@)[j] == self@.rel(j),
            decreases count - i,
        {
            let path: String = self.rel(i);
            let ghost before = texts(paths@);
            paths.push(path);
            proof {
                assert(texts(paths@) =~= before.push(path@));
            }
            i = i + 1;
        }
        proof {
            assert(texts(paths@) =~= self@.rels(count as int));
        }
        paths
    }

    /// What to do next.
    pub fn action(&self) -> (action: Action)
        requires
            self@.valid(),
        ensures
            action@ == self@.step(),
    {
        match self.stage {
            UploadStage::ParentInfo => Action::NodeInfo { node: self.parent },
            UploadStage::ParentPath => Action::NodePath { node: self.parent },
            UploadStage::CreateScratch => Action::CreateScratch,
            UploadStage::NextPart => Action::NextPart,
            UploadStage::ReadPart => Action::ReadPart,
            UploadStage::KeepPart => Action::KeepPart { part: self.parts.len() },
            UploadStage::Resolve => Action::Resolve { path: self.rel(self.next) },
            UploadStage::Existing => Action::NodeInfo { node: self.node },
            UploadStage::CreateParents => Action::CreateParents { path: self.rel(self.next) },
            UploadStage::Place => Action::Place { part: self.next, path: self.rel(self.next) },
            UploadStage::Stage => Action::Stage { paths: self.rels(self.parts.len()) },
            UploadStage::Epilogue => self.epilogue.action(),
            UploadStage::Rollback => Action::RemoveFiles { paths: self.rels(self.placed) },
            UploadStage::ResolveNew => Action::Resolve { path: self.rel(self.next) },
            UploadStage::NewInfo => Action::NodeInfo { node: self.node },
            UploadStage::PutFile => Action::PutFile {
                context: self.address.context,
                path: self.rel(self.next),
            },
            UploadStage::Remember => Action::Remember { node: self.node, address: self.address },
            UploadStage::Finished | UploadStage::Refused => Action::Finish,
        }
    }

    /// Refuses the request.
    fn refuse(&mut self, error: ApiError)
        ensures
            final(self)@ == old(self)@.refuse(error@),
    {
        self.refused = Some(error);
        self.stage = UploadStage::Refused;
    }

    /// Has the files that were placed removed again.
    fn roll_back(&mut self, failure: String)
        ensures
            final(self)@ == old(self)@.roll_back(failure@),
    {
        self.failure = failure;
        self.stage = UploadStage::Rollback;
    }

    /// Takes that the part at hand is checked.
    fn checked(&mut self)
        requires
            old(self)@.next < old(self)@.parts.len(),
        ensures
            final(self)@ == old(self)@.checked(),
    {
        if self.parts.len() - self.next > 1 {
            self.next = self.next + 1;
            self.stage = UploadStage::Resolve;
        } else if self.conflicts.len() > 0 {
            let message = decimal(self.conflicts.len() as u64).concat(" path(s) already exist");
            let conflicts: Vec<String> = self.conflicts.clone();
            proof {
                assert(texts(conflicts@) =~= texts(self.conflicts@));
            }
            self.refuse(conflict_resp(message.as_str(), conflicts));
        } else {
            self.next = 0;
            self.stage = UploadStage::CreateParents;
        }
    }

    /// Takes that the part at hand is placed.
    fn put_in_place(&mut self)
        requires
            old(self)@.next < old(self)@.parts.len(),
            old(self)@.placed == old(self)@.next,
        ensures
            final(self)@ == old(self)@.put_in_place(),
    {
        let count: usize = self.parts.len();
        self.placed = self.placed + 1;
        if count - self.next > 1 {
            self.next = self.next + 1;
            self.stage = UploadStage::CreateParents;
        } else {
            self.stage = UploadStage::Stage;
        }
    }

    /// Reports the part at hand.
    fn report(&mut self, node: Option<u32>, address: Option<String>)
        requires
            old(self)@.next < old(self)@.parts.len(),
        ensures
            final(self)@ == old(self)@.report(node, optional_text(address)),
    {
        let rel: String = self.rel(self.next);
        let count: usize = self.parts.len();
        let part: &Part = &self.parts[self.next];
        let depth: usize = part.segments.len();
        let name: String = if depth > 0 {
            part.segments[depth - 1].clone()
        } else {
            String::new()
        };
        let size: u64 = part.size;
        let file = UploadedFile {
            name,
            path: "/".to_owned().concat(rel.as_str()),
            node_id: match node {
                Some(node) => Some(node as u64),
                None => None,
            },
            size,
            address,
        };
        let ghost before = self@.files;
        self.files.push(file);
        proof {
            assert(self@.files =~= before.push(file@));
        }
        if count - self.next > 1 {
            self.next = self.next + 1;
            self.stage = UploadStage::ResolveNew;
        } else {
            self.stage = UploadStage::Finished;
        }
    }

    /// Takes what came of an action that gathers parts.
    fn gather(&mut self, event: Event)
        requires
            old(self)@.valid(),
            answers(event, old(self)@.step()),
            ({
                ||| old(self)@.stage == UploadStage::ParentInfo
                ||| old(self)@.stage == UploadStage::ParentPath
                ||| old(self)@.stage == UploadStage::CreateScratch
                ||| old(self)@.stage == UploadStage::NextPart
                ||| old(self)@.stage == UploadStage::ReadPart
                ||| old(self)@.stage == UploadStage::KeepPart
            }),
        ensures
            final(self)@ == old(self)@.after(event),
    {
        match self.stage {
            UploadStage::ParentInfo => match event {
                Event::NodeInfo(Ok(info)) => if is_dir(info.kind) {
                    self.stage = UploadStage::ParentPath;
                } else {
                    self.refuse(err_resp(Status::BadRequest, "node is not a directory"));
                },
                Event::NodeInfo(Err(error)) => self.refuse(error),
                _ => {},
            },
            UploadStage::ParentPath => match event {
                Event::NodePath(Ok(path)) => {
                    self.parent_path = path;
                    self.stage = UploadStage::CreateScratch;
                },
                Event::NodePath(Err(error)) => self.refuse(error),
                _ => {},
            },
            UploadStage::CreateScratch => match event {
                Event::Done(Err(error)) => self.refuse(
                    err_resp(
                        Status::InternalServerError,
                        "tempdir: ".to_owned().concat(error.as_str()).as_str(),
                    ),
                ),
                _ => {
                    self.stage = UploadStage::NextPart;
                },
            },
            UploadStage::NextPart => match event {
                Event::Part(Err(error)) => self.refuse(
                    err_resp(
                        Status::BadRequest,
                        "malformed multipart: ".to_owned().concat(error.as_str()).as_str(),
                    ),
                ),
                Event::Part(Ok(Some(Some(filename)))) => match sanitize_rel_path(
                    filename.as_str(),
                ) {
                    Some(segments) => {
                        self.segments = segments;
                        self.stage = UploadStage::ReadPart;
                    },
                    None => self.refuse(
                        err_resp(
                            Status::BadRequest,
                            "illegal path: ".to_owned().concat(filename.as_str()).as_str(),
                        ),
                    ),
                },
                Event::Part(Ok(None)) => if self.parts.len() == 0 {
                    self.refuse(err_resp(Status::BadRequest, "no file parts in request"));
                } else {
                    self.next = 0;
                    self.stage = UploadStage::Resolve;
                },
                _ => {},
            },
            UploadStage::ReadPart => match event {
                Event::PartRead(Ok(size)) => {
                    self.size = size;
                    self.stage = UploadStage::KeepPart;
                },
                Event::PartRead(Err(error)) => self.refuse(
                    err_resp(
                        Status::BadRequest,
                        "read part: ".to_owned().concat(error.as_str()).as_str(),
                    ),
                ),
                _ => {},
            },
            UploadStage::KeepPart => match event {
                Event::Done(Err(error)) => self.refuse(
                    err_resp(Status::InternalServerError, error.as_str()),
                ),
                _ => {
                    let segments: Vec<String> = self.segments.clone();
                    proof {
                        assert(texts(segments@) =~= texts(self.segments@));
                    }
                    let part = Part { segments, size: self.size };
                    let ghost before = self@.parts;
                    self.parts.push(part);
                    proof {
                        assert(self@.parts =~= before.push(part@));
                    }
                    self.stage = UploadStage::NextPart;
                },
            },
            _ => {},
        }
    }

    /// Takes what came of an action that checks a part.
    fn check(&mut self, event: Event)
        requires
            old(self)@.valid(),
            answers(event, old(self)@.step()),
            ({
                ||| old(self)@.stage == UploadStage::Resolve
                ||| old(self)@.stage == UploadStage::Existing
            }),
        ensures
            final(self)@ == old(self)@.after(event),
    {
        match self.stage {
            UploadStage::Resolve => match event {
                Event::Resolved(Some(node)) => {
                    self.node = node;
                    self.stage = UploadStage::Existing;
                },
                _ => self.checked(),
            },
            UploadStage::Existing => match event {
                Event::NodeInfo(Ok(info)) => if !self.overwrite {
                    let path: String = self.path(self.next);
                    let ghost before = self@.conflicts;
                    self.conflicts.push(path);
                    proof {
                        assert(self@.conflicts =~= before.push(path@));
                    }
                    self.checked();
                } else if !is_file(info.kind) {
                    let message = self.path(self.next).concat(" exists and is not a file");
                    self.refuse(err_resp(Status::BadRequest, message.as_str()));
                } else {
                    self.checked();
                },
                _ => self.checked(),
            },
            _ => {},
        }
    }

    /// Takes what came of an action that places parts and has them served.
    fn place(&mut self, event: Event)
        requires
            old(self)@.valid(),
            answers(event, old(self)@.step()),
            ({
                ||| old(self)@.stage == UploadStage::CreateParents
                ||| old(self)@.stage == UploadStage::Place
                ||| old(self)@.stage == UploadStage::Stage
                ||| old(self)@.stage == UploadStage::Epilogue
                ||| old(self)@.stage == UploadStage::Rollback
            }),
        ensures
            final(self)@ == old(self)@.after(event),
    {
        match self.stage {
            UploadStage::CreateParents => match event {
                Event::Done(Err(error)) => self.roll_back(error),
                _ => {
                    self.stage = UploadStage::Place;
                },
            },
            UploadStage::Place => match event {
                Event::Done(Err(error)) => self.roll_back(error),
                _ => self.put_in_place(),
            },
            UploadStage::Stage => match event {
                Event::Staged(Err(error)) => self.roll_back(error),
                _ => {
                    let message = "lore-drive: upload ".to_owned().concat(
                        decimal(self.parts.len() as u64).as_str(),
                    ).concat(" file(s) to ").concat(self.parent_path.as_str());
                    self.epilogue = Epilogue::start(self.versioned, message, self.served);
                    self.stage = UploadStage::Epilogue;
                },
            },
            UploadStage::Epilogue => {
                self.epilogue.advance(event);
                match self.epilogue.stage {
                    EpilogueStage::Finished => {
                        self.next = 0;
                        self.stage = UploadStage::ResolveNew;
                    },
                    EpilogueStage::Failed => {
                        let failure = self.epilogue.failure.clone();
                        self.roll_back(failure);
                    },
                    _ => {},
                }
            },
            UploadStage::Rollback => {
                self.placed = 0;
                let error = err_resp(Status::InternalServerError, self.failure.as_str());
                self.refuse(error);
            },
            _ => {},
        }
    }

    /// Takes what came of an action that reports a part.
    fn tell(&mut self, event: Event)
        requires
            old(self)@.valid(),
            answers(event, old(self)@.step()),
            ({
                ||| old(self)@.stage == UploadStage::ResolveNew
                ||| old(self)@.stage == UploadStage::NewInfo
                ||| old(self)@.stage == UploadStage::PutFile
                ||| old(self)@.stage == UploadStage::Remember
            }),
        ensures
            final(self)@ == old(self)@.after(event),
    {
        match self.stage {
            UploadStage::ResolveNew => match event {
                Event::Resolved(Some(node)) => {
                    self.node = node;
                    self.stage = UploadStage::NewInfo;
                },
                _ => self.report(None, None),
            },
            UploadStage::NewInfo => match event {
                Event::NodeInfo(Ok(info)) => {
                    let shown: Option<String> = address_opt(info.kind, info.address);
                    if !self.versioned && is_file(info.kind) {
                        self.address = info.address;
                        self.shown = shown;
                        self.stage = UploadStage::PutFile;
                    } else {
                        self.report(Some(self.node), shown);
                    }
                },
                _ => self.report(Some(self.node), None),
            },
            UploadStage::PutFile => match event {
                Event::Stored(Ok(address)) => {
                    self.address = address;
                    self.stage = UploadStage::Remember;
                },
                _ => {
                    let shown: Option<String> = match &self.shown {
                        Some(text) => Some(text.clone()),
                        None => None,
                    };
                    self.report(Some(self.node), shown);
                },
            },
            UploadStage::Remember => {
                let text: String = self.address.to_text();
                self.report(Some(self.node), Some(text));
            },
            _ => {},
        }
    }

    /// Takes what came of the action.
    pub fn advance(&mut self, event: Event)
        requires
            old(self)@.valid(),
            answers(event, old(self)@.step()),
        ensures
            final(self)@ == old(self)@.after(event),
            final(self)@.valid(),
    {
        proof {
            lemma_upload_stays_valid(self@, event);
        }
        match self.stage {
            UploadStage::ParentInfo
            | UploadStage::ParentPath
            | UploadStage::CreateScratch
            | UploadStage::NextPart
            | UploadStage::ReadPart
            | UploadStage::KeepPart => self.gather(event),
            UploadStage::Resolve
            | UploadStage::Existing => self.check(event),
            UploadStage::CreateParents
            | UploadStage::Place
            | UploadStage::Stage
            | UploadStage::Epilogue
            | UploadStage::Rollback => self.place(event),
            UploadStage::ResolveNew
            | UploadStage::NewInfo
            | UploadStage::PutFile
            | UploadStage::Remember => self.tell(event),
            UploadStage::Finished | UploadStage::Refused => {},
        }
    }

    /// The status of the answer, once nothing is left to do.
    pub fn status(&self) -> (status: Status)
        requires
            self@.valid(),
            self@.step() == Step::Finish,
        ensures
            status == match self@.refused {
                Some(refused) => refused.status,
                None => Status::Created,
            },
            status == Status::Created <== self@.stage == UploadStage::Finished,
    {
        match &self.refused {
            Some(error) => error.status,
            None => Status::Created,
        }
    }

    /// What the request is answered with, once nothing is left to do: the revision that is served, and
    /// the files.
    pub fn reply(self) -> (reply: Result<(String, Vec<UploadedFile>), ApiError>)
        requires
            self@.valid(),
            self@.step() == Step::Finish,
        ensures
            match reply {
                Ok(reply) => {
                    &&& self@.stage == UploadStage::Finished
                    &&& reply.0@ == self@.epilogue.revision.text()
                    &&& reply.1@.map_values(|file: UploadedFile| file@) == self@.files
                },
                Err(error) => self@.stage == UploadStage::Refused && self@.refused == Some(error@),
            },
    {
        match self.refused {
            Some(error) => Err(error),
            None => Ok((self.epilogue.revision.to_text(), self.files)),
        }
    }
}

} // verus!
