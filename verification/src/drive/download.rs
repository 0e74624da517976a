//! Downloading a file, or a folder as a ZIP archive.
//!
//! A folder is walked in the served tree. Links in it are left out.

use vstd::prelude::*;
use vstd::utf8::{encode_utf8, is_ascii_chars_encode_utf8};

use super::action::{answers, Action, Event, Step};
use super::api::{
    err_resp, is_dir, is_file, is_link, node_written, parse_node_text, refusal, ApiError, ChildInfo,
    NodeIds, NodeKind, Refusal, Status,
};
use super::archive::{
    archive_entries, archive_methods, build_zip, check_names, contents_clear, directory_name,
    distinct_names, entries_of, failure_of, file_entries, methods_of, names_fit, ArchiveFile,
    ENTRY_NAME_LIMIT,
};
use super::effective::{Effective, EffectiveStage, EffectiveState};
use super::header::{binary_response, disposition_of, is_header_text, BinaryResponse};
use super::path::{join_virtual, joined};
use super::read::{Read, ReadStage, ReadState};
use crate::text::{optional_text, texts};
use crate::types::{Address, RepositoryId};

verus! {

/// What the request waits for.
#[derive(Clone, Copy, Debug, PartialEq, Eq, Structural)]
pub enum DownloadStage {
    NodeInfo,
    CreateScratch,
    NodePath,
    /// The address of a file is looked up.
    Address,
    /// A file that is downloaded by itself is read.
    Content,
    /// The folder on top of the stack is listed.
    Children,
    /// A file in a folder is read.
    Entry,
    /// The file is read.
    FileReady,
    /// The folder is walked.
    FolderReady,
    Refused,
}

/// A folder that was listed: the node, its path below the folder that is downloaded, and what is in
/// it.
pub struct Visit {
    pub node: u32,
    pub prefix: Seq<char>,
    pub children: Seq<ChildInfo>,
}

/// The path, below the folder that is downloaded, of an entry of a folder at `prefix`.
pub open spec fn entry_path(prefix: Seq<char>, name: Seq<char>) -> Seq<char> {
    if prefix.len() == 0 {
        name
    } else {
        prefix + "/"@ + name
    }
}

/// The state of the request.
pub struct DownloadState {
    pub node: u32,
    /// The repository that the workspace belongs to.
    pub repository: RepositoryId,
    pub kind: NodeKind,
    pub name: Seq<char>,
    pub size: u64,
    pub address: Address,
    /// The virtual path of the node, once it is known.
    pub path: Seq<char>,
    pub lookup: EffectiveState,
    pub read: ReadState,
    /// The folders that are still to be listed: the node of each, and its path.
    pub stack: Seq<(u32, Seq<char>)>,
    /// The path of the folder at hand.
    pub prefix: Seq<char>,
    /// The repository that the folder at hand belongs to.
    pub owner: RepositoryId,
    /// What is in the folder at hand.
    pub children: Seq<ChildInfo>,
    /// The entry of that folder that is at hand.
    pub next: int,
    /// The folders that were found.
    pub dirs: Seq<Seq<char>>,
    /// The files that were found, with their content.
    pub files: Seq<(Seq<char>, Seq<u8>)>,
    /// The folders that were listed.
    pub visits: Seq<Visit>,
    /// What the request is refused with, once it is.
    pub refused: Option<Refusal>,
    pub stage: DownloadStage,
}

impl DownloadState {
    /// What to do next.
    pub open spec fn step(self) -> Step {
        match self.stage {
            DownloadStage::NodeInfo => Step::NodeInfo { node: self.node },
            DownloadStage::CreateScratch => Step::CreateScratch,
            DownloadStage::NodePath => Step::NodePath { node: self.node },
            DownloadStage::Address => self.lookup.step(),
            DownloadStage::Content | DownloadStage::Entry => self.read.step(),
            DownloadStage::Children => Step::Children { node: self.stack.last().0 },
            DownloadStage::FileReady | DownloadStage::FolderReady
            | DownloadStage::Refused => Step::Finish,
        }
    }

    /// The state once the request is refused.
    pub open spec fn refuse(self, refused: Refusal) -> DownloadState {
        DownloadState { refused: Some(refused), stage: DownloadStage::Refused, ..self }
    }

    /// The state once the lookup of the address is at `lookup`.
    pub open spec fn looked_up(self, lookup: EffectiveState) -> DownloadState {
        let state = DownloadState { lookup, ..self };
        if lookup.stage == EffectiveStage::Finished {
            DownloadState {
                read: ReadState::start(
                    self.repository,
                    match lookup.answer {
                        Some(address) => address,
                        None => self.address,
                    },
                    self.path,
                ),
                stage: DownloadStage::Content,
                ..state
            }
        } else {
            DownloadState { stage: DownloadStage::Address, ..state }
        }
    }

    /// The state once the entries of the folder at hand are gone through from the next one on, up to
    /// a file that has to be read. A folder is noted and put on the stack. After the last entry the
    /// folder on top of the stack is listed, or the walk is over.
    pub open spec fn walk(self) -> DownloadState
        decreases self.children.len() - self.next,
    {
        if self.next < self.children.len() {
            let child = self.children[self.next];
            let path = entry_path(self.prefix, child.name@);
            if child.kind == NodeKind::Directory {
                (DownloadState {
                    dirs: self.dirs.push(path),
                    stack: self.stack.push((child.node_id, path)),
                    next: self.next + 1,
                    ..self
                }).walk()
            } else if child.kind == NodeKind::File {
                DownloadState {
                    read: ReadState::start(self.owner, child.address, joined(self.path, path)),
                    stage: DownloadStage::Entry,
                    ..self
                }
            } else {
                (DownloadState { next: self.next + 1, ..self }).walk()
            }
        } else if self.stack.len() > 0 {
            DownloadState { stage: DownloadStage::Children, ..self }
        } else {
            DownloadState { stage: DownloadStage::FolderReady, ..self }
        }
    }

    /// The state after `event`.
    pub open spec fn after(self, event: Event) -> DownloadState {
        match (self.stage, event) {
            (DownloadStage::NodeInfo, Event::NodeInfo(Err(error))) => self.refuse(error@),
            (DownloadStage::NodeInfo, Event::NodeInfo(Ok(info))) => {
                let state = DownloadState {
                    kind: info.kind,
                    name: info.name@,
                    size: info.size,
                    address: info.address,
                    ..self
                };
                if info.kind == NodeKind::Link {
                    state.refuse(refusal(Status::BadRequest, "link download is not supported"@))
                } else {
                    DownloadState { stage: DownloadStage::CreateScratch, ..state }
                }
            },
            (DownloadStage::CreateScratch, Event::Done(Err(error))) => self.refuse(
                refusal(Status::InternalServerError, "tempdir: "@ + error@),
            ),
            (DownloadStage::CreateScratch, Event::Done(Ok(()))) => DownloadState {
                stage: DownloadStage::NodePath,
                ..self
            },
            (DownloadStage::NodePath, Event::NodePath(Err(error))) => self.refuse(error@),
            (DownloadStage::NodePath, Event::NodePath(Ok(path))) => {
                let state = DownloadState { path: path@, ..self };
                if self.kind == NodeKind::File {
                    state.looked_up(
                        EffectiveState::start(self.node, self.kind, self.size, self.address),
                    )
                } else {
                    DownloadState {
                        stack: seq![(self.node, Seq::empty())],
                        stage: DownloadStage::Children,
                        ..state
                    }
                }
            },
            (DownloadStage::Address, _) => self.looked_up(self.lookup.after(event)),
            (DownloadStage::Content, _) => {
                let read = self.read.after(event);
                let state = DownloadState { read, ..self };
                match read.stage {
                    ReadStage::Finished => DownloadState {
                        stage: DownloadStage::FileReady,
                        ..state
                    },
                    ReadStage::Failed => state.refuse(
                        refusal(Status::InternalServerError, read.failure),
                    ),
                    _ => state,
                }
            },
            (DownloadStage::Children, Event::Children(Err(error))) => self.refuse(error@),
            (DownloadStage::Children, Event::Children(Ok(listed))) => (DownloadState {
                stack: self.stack.drop_last(),
                prefix: self.stack.last().1,
                owner: listed.0,
                children: listed.2@,
                next: 0,
                visits: self.visits.push(
                    Visit {
                        node: self.stack.last().0,
                        prefix: self.stack.last().1,
                        children: listed.2@,
                    },
                ),
                ..self
            }).walk(),
            (DownloadStage::Entry, _) => {
                let read = self.read.after(event);
                let state = DownloadState { read, ..self };
                match read.stage {
                    ReadStage::Finished => (DownloadState {
                        files: self.files.push(
                            (entry_path(self.prefix, self.children[self.next].name@), read.bytes),
                        ),
                        next: self.next + 1,
                        ..state
                    }).walk(),
                    ReadStage::Failed => state.refuse(
                        refusal(Status::InternalServerError, read.failure),
                    ),
                    _ => state,
                }
            },
            _ => self,
        }
    }

    /// Whether the state is one that a request can be in.
    pub open spec fn valid(self) -> bool {
        &&& self.refused is Some <==> self.stage == DownloadStage::Refused
        &&& match self.stage {
            DownloadStage::Address => self.lookup.valid() && self.lookup.stage
                != EffectiveStage::Finished,
            DownloadStage::Content => self.read.stage != ReadStage::Finished && self.read.stage
                != ReadStage::Failed,
            DownloadStage::Children => self.stack.len() > 0,
            DownloadStage::Entry => 0 <= self.next < self.children.len() && self.read.stage
                != ReadStage::Finished && self.read.stage != ReadStage::Failed,
            DownloadStage::FileReady => self.read.stage == ReadStage::Finished,
            _ => true,
        }
    }

    /// Whether the state is that at the start of a request for a node: nothing is found yet. The root
    /// has no record; it is a folder called `root`.
    pub open spec fn starts(self, node: u32, root: u32, repository: RepositoryId) -> bool {
        &&& self.node == node
        &&& self.repository == repository
        &&& self.stack.len() == 0
        &&& self.dirs.len() == 0
        &&& self.files.len() == 0
        &&& self.visits.len() == 0
        &&& self.refused is None
        &&& if node == root {
            &&& self.kind == NodeKind::Directory
            &&& self.name == "root"@
            &&& self.stage == DownloadStage::CreateScratch
        } else {
            self.stage == DownloadStage::NodeInfo
        }
    }

    /// The state after each of `events` in turn, if each is what can come of the step before it.
    pub open spec fn after_all(self, events: Seq<Event>) -> Option<DownloadState>
        decreases events.len(),
    {
        if events.len() == 0 {
            Some(self)
        } else {
            match self.after_all(events.drop_last()) {
                Some(state) if answers(events.last(), state.step()) => Some(
                    state.after(events.last()),
                ),
                _ => None,
            }
        }
    }

    /// Whether a folder was listed, with a given path.
    pub open spec fn visited(self, node: u32, path: Seq<char>) -> bool {
        exists|v: int| #[trigger]
            self.visits[v].node == node && self.visits[v].prefix == path && 0 <= v
                < self.visits.len()
    }

    /// Whether entry `i` of the `v`th folder that was listed is of a given kind and has a given path.
    pub open spec fn is_entry(self, v: int, i: int, kind: NodeKind, path: Seq<char>) -> bool {
        &&& 0 <= v < self.visits.len()
        &&& 0 <= i < self.visits[v].children.len()
        &&& self.visits[v].children[i].kind == kind
        &&& path == entry_path(self.visits[v].prefix, self.visits[v].children[i].name@)
    }

    /// Whether an entry of a folder that was listed is of a given kind and has a given path.
    pub open spec fn was_listed(self, kind: NodeKind, path: Seq<char>) -> bool {
        exists|v: int, i: int| self.is_entry(v, i, kind, path)
    }

    /// Whether a file was found at a path.
    pub open spec fn has_file(self, path: Seq<char>) -> bool {
        exists|k: int| 0 <= k < self.files.len() && (#[trigger] self.files[k]).0 == path
    }

    /// Whether entry `i` of the `v`th folder that was listed is taken care of: a folder is noted, and
    /// was listed or is still to be; a file is found.
    pub open spec fn noted(self, v: int, i: int) -> bool {
        let visit = self.visits[v];
        let child = visit.children[i];
        let path = entry_path(visit.prefix, child.name@);
        &&& child.kind == NodeKind::Directory ==> self.dirs.contains(path) && (self.stack.contains(
            (child.node_id, path),
        ) || self.visited(child.node_id, path))
        &&& child.kind == NodeKind::File ==> self.has_file(path)
    }

    /// How many entries of the `v`th folder that was listed have been gone through.
    pub open spec fn gone_through(self, v: int) -> int {
        if v == self.visits.len() - 1 {
            self.next
        } else {
            self.visits[v].children.len() as int
        }
    }

    /// Whether the walk has missed nothing so far, and made nothing up.
    pub open spec fn walked(self) -> bool {
        &&& self.visits.len() > 0 ==> {
            &&& self.visits[0].node == self.node
            &&& self.visits[0].prefix.len() == 0
            &&& self.visits.last().children == self.children
            &&& self.visits.last().prefix == self.prefix
            &&& 0 <= self.next <= self.children.len()
        }
        &&& self.visits.len() == 0 ==> self.dirs.len() == 0 && self.files.len() == 0 && (
        self.stack.len() == 0 || self.stack == seq![(self.node, Seq::<char>::empty())])
        &&& self.misses_nothing()
        &&& self.makes_nothing_up()
    }

    /// Whether every entry that was gone through is taken care of.
    pub open spec fn misses_nothing(self) -> bool {
        forall|v: int, i: int|
            #![trigger self.noted(v, i)]
            0 <= v < self.visits.len() && 0 <= i < self.gone_through(v) ==> self.noted(v, i)
    }

    /// Whether every folder that is noted, and every file that is found, was listed.
    pub open spec fn makes_nothing_up(self) -> bool {
        &&& forall|k: int|
            0 <= k < self.dirs.len() ==> self.was_listed(
                NodeKind::Directory,
                #[trigger] self.dirs[k],
            )
        &&& forall|k: int|
            0 <= k < self.files.len() ==> self.was_listed(
                NodeKind::File,
                (#[trigger] self.files[k]).0,
            )
    }

    /// Whether the walk of the folder at hand is where the stage says.
    pub open spec fn settled(self) -> bool {
        match self.stage {
            DownloadStage::Children => self.visits.len() > 0 ==> self.next == self.children.len(),
            DownloadStage::FolderReady => self.visits.len() > 0 && self.next == self.children.len()
                && self.stack.len() == 0,
            DownloadStage::Entry => self.visits.len() > 0 && 0 <= self.next < self.children.len()
                && self.children[self.next].kind == NodeKind::File,
            DownloadStage::Refused => true,
            _ => self.visits.len() == 0 && self.stack.len() == 0,
        }
    }

    /// Whether the state is one that a request can be in, and its walk has missed nothing so far and
    /// made nothing up.
    pub open spec fn sound(self) -> bool {
        self.valid() && self.walked() && self.settled()
    }

    /// The entries of the archive of a folder that is walked.
    pub open spec fn entries(self) -> Seq<(Seq<char>, Seq<u8>)> {
        self.dirs.map_values(|path: Seq<char>| (directory_name(path), Seq::<u8>::empty()))
            + self.files
    }

    /// Whether every entry of that archive has a name that an archive can hold.
    pub open spec fn entries_fit(self) -> bool {
        forall|i: int|
            0 <= i < self.entries().len() ==> encode_utf8((#[trigger] self.entries()[i]).0).len()
                <= ENTRY_NAME_LIMIT
    }
}

/// What a state says of the walk stays true when nothing that it speaks of changes.
proof fn lemma_walked_frame(state: DownloadState, other: DownloadState)
    requires
        state.walked(),
        other.node == state.node,
        other.visits == state.visits,
        other.dirs == state.dirs,
        other.files == state.files,
        other.stack == state.stack,
        other.children == state.children,
        other.prefix == state.prefix,
        other.next == state.next,
    ensures
        other.walked(),
{
    assert forall|v: int, i: int|
        #![trigger other.noted(v, i)]
        0 <= v < other.visits.len() && 0 <= i < other.gone_through(v) implies other.noted(v, i) by {
        assert(state.noted(v, i));
        lemma_visited_stays(state, other);
        assert(forall|path: Seq<char>| state.has_file(path) ==> other.has_file(path));
    }
    assert forall|k: int| 0 <= k < other.dirs.len() implies other.was_listed(
        NodeKind::Directory,
        #[trigger] other.dirs[k],
    ) by {
        assert(state.was_listed(NodeKind::Directory, state.dirs[k]));
        let (v, i) = choose|v: int, i: int|
            state.is_entry(v, i, NodeKind::Directory, state.dirs[k]);
        assert(other.is_entry(v, i, NodeKind::Directory, other.dirs[k]));
    }
    assert forall|k: int| 0 <= k < other.files.len() implies other.was_listed(
        NodeKind::File,
        (#[trigger] other.files[k]).0,
    ) by {
        assert(state.was_listed(NodeKind::File, state.files[k].0));
        let (v, i) = choose|v: int, i: int|
            state.is_entry(v, i, NodeKind::File, state.files[k].0);
        assert(other.is_entry(v, i, NodeKind::File, other.files[k].0));
    }
}

/// A folder that was listed stays listed.
proof fn lemma_visited_stays(state: DownloadState, other: DownloadState)
    requires
        state.visits.len() <= other.visits.len(),
        forall|v: int| 0 <= v < state.visits.len() ==> other.visits[v] == state.visits[v],
    ensures
        forall|node: u32, path: Seq<char>| #[trigger]
            state.visited(node, path) ==> other.visited(node, path),
{
    assert forall|node: u32, path: Seq<char>| #[trigger] state.visited(node, path) implies
        other.visited(node, path) by {
        let v = choose|v: int| #[trigger]
            state.visits[v].node == node && state.visits[v].prefix == path && 0 <= v
                < state.visits.len();
        assert(other.visits[v].node == node);
    }
}

/// Going on with the folder at hand by one entry keeps the walk sound, if the entry is taken care of
/// and what is found is that entry.
proof fn lemma_next_entry(state: DownloadState, other: DownloadState)
    requires
        state.walked(),
        state.visits.len() > 0,
        0 <= state.next < state.children.len(),
        other.node == state.node,
        other.visits == state.visits,
        other.children == state.children,
        other.prefix == state.prefix,
        other.next == state.next + 1,
        ({
            let child = state.children[state.next];
            let path = entry_path(state.prefix, child.name@);
            match child.kind {
                NodeKind::Directory => other.dirs == state.dirs.push(path) && other.stack
                    == state.stack.push((child.node_id, path)) && other.files == state.files,
                NodeKind::File => other.dirs == state.dirs && other.stack == state.stack
                    && other.files.len() == state.files.len() + 1 && other.files.drop_last()
                    == state.files && other.files.last().0 == path,
                _ => other.dirs == state.dirs && other.stack == state.stack && other.files
                    == state.files,
            }
        }),
    ensures
        other.walked(),
{
    let last = state.visits.len() - 1;
    let child = state.children[state.next];
    let path = entry_path(state.prefix, child.name@);
    lemma_visited_stays(state, other);
    assert forall|p: Seq<char>| #[trigger] state.dirs.contains(p) implies other.dirs.contains(
        p,
    ) by {
        let k = choose|k: int| 0 <= k < state.dirs.len() && state.dirs[k] == p;
        assert(other.dirs[k] == p);
    }
    assert forall|p: (u32, Seq<char>)| #[trigger] state.stack.contains(p) implies other.stack.contains(
        p,
    ) by {
        let k = choose|k: int| 0 <= k < state.stack.len() && state.stack[k] == p;
        assert(other.stack[k] == p);
    }
    assert forall|p: Seq<char>| #[trigger] state.has_file(p) implies other.has_file(p) by {
        let k = choose|k: int| 0 <= k < state.files.len() && (#[trigger] state.files[k]).0 == p;
        assert(state.files[k] == other.files[k]) by {
            if child.kind == NodeKind::File {
                assert(other.files.drop_last()[k] == other.files[k]);
            }
        }
    }
    assert forall|v: int, i: int|
        #![trigger other.noted(v, i)]
        0 <= v < other.visits.len() && 0 <= i < other.gone_through(v) implies other.noted(v, i) by {
        if v == last && i == state.next {
            match child.kind {
                NodeKind::Directory => {
                    assert(other.dirs[state.dirs.len() as int] == path);
                    assert(other.stack[state.stack.len() as int] == (child.node_id, path));
                },
                NodeKind::File => {
                    assert(other.files[state.files.len() as int].0 == path);
                },
                _ => {},
            }
        } else {
            assert(state.noted(v, i));
        }
    }
    assert forall|k: int| 0 <= k < other.dirs.len() implies other.was_listed(
        NodeKind::Directory,
        #[trigger] other.dirs[k],
    ) by {
        if k < state.dirs.len() {
            assert(state.was_listed(NodeKind::Directory, state.dirs[k]));
            let (v, i) = choose|v: int, i: int|
                state.is_entry(v, i, NodeKind::Directory, state.dirs[k]);
            assert(other.is_entry(v, i, NodeKind::Directory, other.dirs[k]));
        } else {
            assert(other.is_entry(last, state.next, NodeKind::Directory, other.dirs[k]));
        }
    }
    assert forall|k: int| 0 <= k < other.files.len() implies other.was_listed(
        NodeKind::File,
        (#[trigger] other.files[k]).0,
    ) by {
        if k < state.files.len() {
            if child.kind == NodeKind::File {
                assert(other.files.drop_last()[k] == other.files[k]);
            }
            assert(state.was_listed(NodeKind::File, state.files[k].0));
            let (v, i) = choose|v: int, i: int|
                state.is_entry(v, i, NodeKind::File, state.files[k].0);
            assert(other.is_entry(v, i, NodeKind::File, other.files[k].0));
        } else {
            assert(other.is_entry(last, state.next, NodeKind::File, other.files[k].0));
        }
    }
}

/// Going through the entries of the folder at hand keeps the walk sound.
proof fn lemma_walk(state: DownloadState)
    requires
        state.walked(),
        state.visits.len() > 0,
        state.refused is None,
    ensures
        state.walk().walked(),
        state.walk().settled(),
        state.walk().valid(),
        state.walk().node == state.node,
    decreases state.children.len() - state.next,
{
    if state.next < state.children.len() {
        let child = state.children[state.next];
        let path = entry_path(state.prefix, child.name@);
        if child.kind == NodeKind::Directory {
            let other = DownloadState {
                dirs: state.dirs.push(path),
                stack: state.stack.push((child.node_id, path)),
                next: state.next + 1,
                ..state
            };
            lemma_next_entry(state, other);
            lemma_walk(other);
        } else if child.kind != NodeKind::File {
            let other = DownloadState { next: state.next + 1, ..state };
            lemma_next_entry(state, other);
            lemma_walk(other);
        } else {
            lemma_walked_frame(state, state.walk());
        }
    } else {
        lemma_walked_frame(state, state.walk());
    }
}

/// Listing the folder on top of the stack keeps the walk sound.
proof fn lemma_listed(state: DownloadState, children: Seq<ChildInfo>, other: DownloadState)
    requires
        state.walked(),
        state.visits.len() > 0 ==> state.next == state.children.len(),
        state.stack.len() > 0,
        other.node == state.node,
        other.dirs == state.dirs,
        other.files == state.files,
        other.stack == state.stack.drop_last(),
        other.prefix == state.stack.last().1,
        other.children == children,
        other.next == 0,
        other.visits == state.visits.push(
            Visit { node: state.stack.last().0, prefix: state.stack.last().1, children },
        ),
    ensures
        other.walked(),
{
    let top = state.stack.last();
    lemma_visited_stays(state, other);
    assert(other.visits[state.visits.len() as int].node == top.0);
    assert(other.visited(top.0, top.1));
    assert forall|v: int, i: int|
        #![trigger other.noted(v, i)]
        0 <= v < other.visits.len() && 0 <= i < other.gone_through(v) implies other.noted(v, i) by {
        assert(v < state.visits.len());
        assert(state.noted(v, i));
        let child = state.visits[v].children[i];
        let path = entry_path(state.visits[v].prefix, child.name@);
        if child.kind == NodeKind::Directory && state.stack.contains((child.node_id, path)) {
            let k = choose|k: int|
                0 <= k < state.stack.len() && state.stack[k] == (child.node_id, path);
            if k < state.stack.len() - 1 {
                assert(other.stack[k] == (child.node_id, path));
            }
        }
        if child.kind == NodeKind::File {
            let k = choose|k: int|
                0 <= k < state.files.len() && (#[trigger] state.files[k]).0 == path;
            assert(other.files[k].0 == path);
        }
    }
    assert forall|k: int| 0 <= k < other.dirs.len() implies other.was_listed(
        NodeKind::Directory,
        #[trigger] other.dirs[k],
    ) by {
        assert(state.was_listed(NodeKind::Directory, state.dirs[k]));
        let (v, i) = choose|v: int, i: int|
            state.is_entry(v, i, NodeKind::Directory, state.dirs[k]);
        assert(other.is_entry(v, i, NodeKind::Directory, other.dirs[k]));
    }
    assert forall|k: int| 0 <= k < other.files.len() implies other.was_listed(
        NodeKind::File,
        (#[trigger] other.files[k]).0,
    ) by {
        assert(state.was_listed(NodeKind::File, state.files[k].0));
        let (v, i) = choose|v: int, i: int|
            state.is_entry(v, i, NodeKind::File, state.files[k].0);
        assert(other.is_entry(v, i, NodeKind::File, other.files[k].0));
    }
}

/// Each event leads from a state that a request can be in to another.
proof fn lemma_download_step(state: DownloadState, event: Event)
    requires
        state.sound(),
        answers(event, state.step()),
    ensures
        state.after(event).sound(),
        state.after(event).node == state.node,
{
    let next = state.after(event);
    match (state.stage, event) {
        (DownloadStage::Children, Event::Children(Ok(listed))) => {
            let other = DownloadState {
                stack: state.stack.drop_last(),
                prefix: state.stack.last().1,
                owner: listed.0,
                children: listed.2@,
                next: 0,
                visits: state.visits.push(
                    Visit {
                        node: state.stack.last().0,
                        prefix: state.stack.last().1,
                        children: listed.2@,
                    },
                ),
                ..state
            };
            lemma_listed(state, listed.2@, other);
            lemma_walk(other);
        },
        (DownloadStage::Entry, _) => {
            let read = state.read.after(event);
            if read.stage == ReadStage::Finished {
                let other = DownloadState {
                    read,
                    files: state.files.push(
                        (entry_path(state.prefix, state.children[state.next].name@), read.bytes),
                    ),
                    next: state.next + 1,
                    ..state
                };
                assert(other.files.drop_last() =~= state.files);
                lemma_next_entry(state, other);
                lemma_walk(other);
            } else {
                lemma_walked_frame(state, next);
            }
        },
        _ => {
            if state.visits.len() == 0 {
                assert(next.visits.len() == 0);
            } else {
                lemma_walked_frame(state, next);
            }
        },
    }
}

/// A folder that is downloaded is downloaded whole, whatever order its folders are listed in: the
/// folder itself was listed, and of every folder that was listed, each folder in it is noted and was
/// listed too, and each file in it is found. Nothing else is found.
pub proof fn a_folder_is_downloaded_whole(
    start: DownloadState,
    node: u32,
    root: u32,
    repository: RepositoryId,
    events: Seq<Event>,
)
    requires
        start.starts(node, root, repository),
    ensures
        match start.after_all(events) {
            Some(state) => {
                &&& state.sound() && state.node == node
                &&& state.stage == DownloadStage::FolderReady ==> {
                    &&& forall|v: int, i: int|
                        0 <= v < state.visits.len() && 0 <= i < state.visits[v].children.len()
                            ==> #[trigger] state.noted(v, i)
                    &&& state.stack.len() == 0
                }
            },
            None => true,
        },
    decreases events.len(),
{
    if events.len() > 0 {
        a_folder_is_downloaded_whole(start, node, root, repository, events.drop_last());
        if let Some(state) = start.after_all(events.drop_last()) {
            if answers(events.last(), state.step()) {
                lemma_download_step(state, events.last());
            }
        }
    }
}

/// A request in progress.
pub struct Download {
    pub node: u32,
    pub repository: RepositoryId,
    pub kind: NodeKind,
    pub name: String,
    pub size: u64,
    pub address: Address,
    pub path: String,
    pub lookup: Effective,
    pub read: Read,
    pub stack: Vec<(u32, String)>,
    pub prefix: String,
    pub owner: RepositoryId,
    pub children: Vec<ChildInfo>,
    pub next: usize,
    pub dirs: Vec<String>,
    pub files: Vec<ArchiveFile>,
    pub visits: Ghost<Seq<Visit>>,
    pub refused: Option<ApiError>,
    pub stage: DownloadStage,
}

/// The nodes and paths on a stack.
pub open spec fn stacked(stack: Seq<(u32, String)>) -> Seq<(u32, Seq<char>)> {
    stack.map_values(|folder: (u32, String)| (folder.0, folder.1@))
}

impl View for Download {
    type V = DownloadState;

    open spec fn view(&self) -> DownloadState {
        DownloadState {
            node: self.node,
            repository: self.repository,
            kind: self.kind,
            name: self.name@,
            size: self.size,
            address: self.address,
            path: self.path@,
            lookup: self.lookup@,
            read: self.read@,
            stack: stacked(self.stack@),
            prefix: self.prefix@,
            owner: self.owner,
            children: self.children@,
            next: self.next as int,
            dirs: texts(self.dirs@),
            files: file_entries(self.files@),
            visits: self.visits@,
            refused: match self.refused {
                Some(error) => Some(error@),
                None => None,
            },
            stage: self.stage,
        }
    }
}

/// A header can hold the content types of downloads.
proof fn lemma_content_types()
    ensures
        is_header_text("application/octet-stream"@),
        is_header_text("application/zip"@),
{
    reveal_strlit("application/octet-stream");
    reveal_strlit("application/zip");
    is_ascii_chars_encode_utf8("application/octet-stream"@);
    is_ascii_chars_encode_utf8("application/zip"@);
}

/// The names of directories and files fit an archive if those of its entries do.
proof fn lemma_entries_fit(dirs: Seq<String>, files: Seq<ArchiveFile>)
    ensures
        names_fit(dirs, files) == forall|i: int|
            0 <= i < entries_of(dirs, files).len() ==> encode_utf8(
                (#[trigger] entries_of(dirs, files)[i]).0,
            ).len() <= ENTRY_NAME_LIMIT,
{
    let entries = entries_of(dirs, files);
    if names_fit(dirs, files) {
        assert forall|i: int| 0 <= i < entries.len() implies encode_utf8(
            (#[trigger] entries[i]).0,
        ).len() <= ENTRY_NAME_LIMIT by {
            if i < dirs.len() {
                assert(entries[i].0 == directory_name(dirs[i]@));
            } else {
                assert(entries[i].0 == files[i - dirs.len()].path@);
            }
        }
    }
    if forall|i: int|
        0 <= i < entries.len() ==> encode_utf8((#[trigger] entries[i]).0).len()
            <= ENTRY_NAME_LIMIT {
        assert forall|i: int| 0 <= i < dirs.len() implies encode_utf8(
            directory_name((#[trigger] dirs[i])@),
        ).len() <= ENTRY_NAME_LIMIT by {
            assert(entries[i].0 == directory_name(dirs[i]@));
        }
        assert forall|i: int| 0 <= i < files.len() implies encode_utf8(
            (#[trigger] files[i]).path@,
        ).len() <= ENTRY_NAME_LIMIT by {
            assert(entries[dirs.len() + i].0 == files[i].path@);
        }
    }
}

impl Download {
    /// Starts a request for the node that `text` names, of a workspace of `repository`.
    pub fn start(text: &str, ids: NodeIds, repository: RepositoryId) -> (started: Result<
        Download,
        ApiError,
    >)
        ensures
            match started {
                Ok(request) => node_written(text@, ids) == Ok::<u32, Refusal>(request@.node)
                    && request@.starts(request@.node, ids.root, repository) && request@.sound(),
                Err(error) => node_written(text@, ids) == Err::<u32, Refusal>(error@),
            },
    {
        let node: u32 = match parse_node_text(text, ids) {
            Ok(node) => node,
            Err(error) => {
                return Err(error);
            },
        };
        let address = Address::default();
        Ok(
            Download {
                node,
                repository,
                kind: NodeKind::Directory,
                name: "root".to_owned(),
                size: 0,
                address,
                path: String::new(),
                lookup: Effective::start(node, NodeKind::Directory, 0, address),
                read: Read::start(repository, address, String::new()),
                stack: Vec::new(),
                prefix: String::new(),
                owner: repository,
                children: Vec::new(),
                next: 0,
                dirs: Vec::new(),
                files: Vec::new(),
                visits: Ghost(Seq::empty()),
                refused: None,
                stage: if node == ids.root {
                    DownloadStage::CreateScratch
                } else {
                    DownloadStage::NodeInfo
                },
            },
        )
    }

    /// What to do next.
    pub fn action(&self) -> (action: Action)
        requires
            self@.valid(),
        ensures
            action@ == self@.step(),
    {
        match self.stage {
            DownloadStage::NodeInfo => Action::NodeInfo { node: self.node },
            DownloadStage::CreateScratch => Action::CreateScratch,
            DownloadStage::NodePath => Action::NodePath { node: self.node },
            DownloadStage::Address => self.lookup.action(),
            DownloadStage::Content | DownloadStage::Entry => self.read.action(),
            DownloadStage::Children => {
                let top: usize = self.stack.len() - 1;
                Action::Children { node: self.stack[top].0 }
            },
            DownloadStage::FileReady | DownloadStage::FolderReady
            | DownloadStage::Refused => Action::Finish,
        }
    }

    /// Refuses the request.
    fn refuse(&mut self, error: ApiError)
        ensures
            final(self)@ == old(self)@.refuse(error@),
    {
        self.refused = Some(error);
        self.stage = DownloadStage::Refused;
    }

    /// Goes on once the lookup of the address has advanced.
    fn looked_up(&mut self)
        ensures
            final(self)@ == old(self)@.looked_up(old(self)@.lookup),
    {
        match self.lookup.stage {
            EffectiveStage::Finished => {
                let address: Address = match self.lookup.answer {
                    Some(address) => address,
                    None => self.address,
                };
                self.read = Read::start(self.repository, address, self.path.clone());
                self.stage = DownloadStage::Content;
            },
            _ => {
                self.stage = DownloadStage::Address;
            },
        }
    }

    /// The path of an entry of the folder at hand.
    fn entry_path(&self, name: &str) -> (path: String)
        ensures
            path@ == entry_path(self.prefix@, name@),
    {
        if self.prefix.as_str().is_empty() {
            name.to_owned()
        } else {
            self.prefix.clone().concat("/").concat(name)
        }
    }

    /// Goes through the entries of the folder at hand, up to a file that has to be read.
    fn walk(&mut self)
        requires
            old(self)@.next <= old(self)@.children.len(),
        ensures
            final(self)@ == old(self)@.walk(),
    {
        while self.next < self.children.len()
            invariant
                self@.next <= self@.children.len(),
                self@.walk() == old(self)@.walk(),
            decreases self@.children.len() - self@.next,
        {
            let child: &ChildInfo = &self.children[self.next];
            let path: String = self.entry_path(child.name.as_str());
            if is_dir(child.kind) {
                let node: u32 = child.node_id;
                let folder: String = path.clone();
                let ghost before = self@;
                self.dirs.push(path);
                self.stack.push((node, folder));
                self.next = self.next + 1;
                proof {
                    assert(self@.dirs =~= before.dirs.push(path@));
                    assert(self@.stack =~= before.stack.push((node, path@)));
                }
            } else if is_file(child.kind) {
                let address: Address = child.address;
                let file: String = join_virtual(self.path.as_str(), path.as_str());
                self.read = Read::start(self.owner, address, file);
                self.stage = DownloadStage::Entry;
                return ;
            } else {
                self.next = self.next + 1;
            }
        }
        if self.stack.len() > 0 {
            self.stage = DownloadStage::Children;
        } else {
            self.stage = DownloadStage::FolderReady;
        }
    }

    /// Takes what the folder on top of the stack holds.
    fn list(&mut self, owner: RepositoryId, children: Vec<ChildInfo>)
        requires
            old(self)@.stack.len() > 0,
        ensures
            final(self)@ == (DownloadState {
                stack: old(self)@.stack.drop_last(),
                prefix: old(self)@.stack.last().1,
                owner,
                children: children@,
                next: 0,
                visits: old(self)@.visits.push(
                    Visit {
                        node: old(self)@.stack.last().0,
                        prefix: old(self)@.stack.last().1,
                        children: children@,
                    },
                ),
                ..old(self)@
            }).walk(),
    {
        let ghost before = self@;
        let top: (u32, String) = self.stack.pop().unwrap();
        proof {
            assert(self@.stack =~= before.stack.drop_last());
            self.visits@ = self.visits@.push(
                Visit { node: top.0, prefix: top.1@, children: children@ },
            );
        }
        self.prefix = top.1;
        self.owner = owner;
        self.children = children;
        self.next = 0;
        self.walk();
    }

    /// Goes on once the reading of an entry has advanced.
    fn entry_read(&mut self)
        requires
            0 <= old(self)@.next < old(self)@.children.len(),
        ensures
            final(self)@ == match old(self)@.read.stage {
                ReadStage::Finished => (DownloadState {
                    files: old(self)@.files.push(
                        (
                            entry_path(
                                old(self)@.prefix,
                                old(self)@.children[old(self)@.next].name@,
                            ),
                            old(self)@.read.bytes,
                        ),
                    ),
                    next: old(self)@.next + 1,
                    ..old(self)@
                }).walk(),
                ReadStage::Failed => old(self)@.refuse(
                    refusal(Status::InternalServerError, old(self)@.read.failure),
                ),
                _ => old(self)@,
            },
    {
        match self.read.stage {
            ReadStage::Finished => {
                let path: String = self.entry_path(self.children[self.next].name.as_str());
                let content: Vec<u8> = self.read.bytes.clone();
                let count: usize = self.children.len();
                let ghost before = self@;
                assert(self.next < count);
                self.files.push(ArchiveFile { path, content });
                self.next = self.next + 1;
                proof {
                    assert(content@ =~= before.read.bytes);
                    assert(self@.files =~= before.files.push((path@, content@)));
                }
                self.walk();
            },
            ReadStage::Failed => {
                let error = err_resp(Status::InternalServerError, self.read.failure.as_str());
                self.refuse(error);
            },
            _ => {},
        }
    }

    /// Takes what came of the action.
    pub fn advance(&mut self, event: Event)
        requires
            old(self)@.sound(),
            answers(event, old(self)@.step()),
        ensures
            final(self)@ == old(self)@.after(event),
            final(self)@.sound(),
    {
        proof {
            lemma_download_step(self@, event);
        }
        match self.stage {
            DownloadStage::NodeInfo => match event {
                Event::NodeInfo(Ok(info)) => {
                    self.kind = info.kind;
                    self.name = info.name;
                    self.size = info.size;
                    self.address = info.address;
                    if is_link(info.kind) {
                        self.refuse(
                            err_resp(Status::BadRequest, "link download is not supported"),
                        );
                    } else {
                        self.stage = DownloadStage::CreateScratch;
                    }
                },
                Event::NodeInfo(Err(error)) => self.refuse(error),
                _ => {},
            },
            DownloadStage::CreateScratch => match event {
                Event::Done(Err(error)) => self.refuse(
                    err_resp(
                        Status::InternalServerError,
                        "tempdir: ".to_owned().concat(error.as_str()).as_str(),
                    ),
                ),
                _ => {
                    self.stage = DownloadStage::NodePath;
                },
            },
            DownloadStage::NodePath => match event {
                Event::NodePath(Ok(path)) => {
                    self.path = path;
                    if is_file(self.kind) {
                        self.lookup = Effective::start(
                            self.node,
                            self.kind,
                            self.size,
                            self.address,
                        );
                        self.looked_up();
                    } else {
                        let mut stack: Vec<(u32, String)> = Vec::new();
                        let empty: String = String::new();
                        stack.push((self.node, empty));
                        proof {
                            assert(stacked(stack@) =~= seq![(self.node, Seq::<char>::empty())]);
                        }
                        self.stack = stack;
                        self.stage = DownloadStage::Children;
                    }
                },
                Event::NodePath(Err(error)) => self.refuse(error),
                _ => {},
            },
            DownloadStage::Address => {
                self.lookup.advance(event);
                self.looked_up();
            },
            DownloadStage::Content => {
                self.read.advance(event);
                match self.read.stage {
                    ReadStage::Finished => {
                        self.stage = DownloadStage::FileReady;
                    },
                    ReadStage::Failed => {
                        let error = err_resp(
                            Status::InternalServerError,
                            self.read.failure.as_str(),
                        );
                        self.refuse(error);
                    },
                    _ => {},
                }
            },
            DownloadStage::Children => match event {
                Event::Children(Ok(listed)) => self.list(listed.0, listed.2),
                Event::Children(Err(error)) => self.refuse(error),
                _ => {},
            },
            DownloadStage::Entry => {
                self.read.advance(event);
                self.entry_read();
            },
            DownloadStage::FileReady | DownloadStage::FolderReady | DownloadStage::Refused => {},
        }
    }

    /// What the request is answered with, once nothing is left to do: a file as it is, or a folder as
    /// an archive of its folders and files.
    pub fn reply(self) -> (reply: Result<BinaryResponse, ApiError>)
        requires
            self@.valid(),
            self@.step() == Step::Finish,
        ensures
            match reply {
                Ok(response) => match self@.stage {
                    DownloadStage::FileReady => {
                        &&& response.bytes@ == self@.read.bytes
                        &&& response.disposition@ == disposition_of(self@.name)
                        &&& optional_text(response.content_type) == Some(
                            "application/octet-stream"@,
                        )
                    },
                    DownloadStage::FolderReady => {
                        &&& self@.entries_fit() && distinct_names(self@.entries())
                        &&& failure_of(self@.entries()) is None
                        &&& archive_entries(response.bytes@) == self@.entries()
                        &&& archive_methods(response.bytes@) == methods_of(
                            self@.dirs.len(),
                            self@.files.len(),
                        )
                        &&& response.disposition@ == disposition_of(self@.name + ".zip"@)
                        &&& optional_text(response.content_type) == Some("application/zip"@)
                    },
                    _ => false,
                },
                Err(error) => match self@.stage {
                    DownloadStage::Refused => self@.refused == Some(error@),
                    DownloadStage::FolderReady => if self@.entries_fit() {
                        &&& contents_clear(self@.entries()) ==> failure_of(self@.entries()) == Some(
                            error@.error,
                        )
                        &&& error@ == refusal(Status::InternalServerError, error@.error)
                    } else {
                        error@ == refusal(
                            Status::InternalServerError,
                            "the name of an entry is too long"@,
                        )
                    },
                    _ => false,
                },
            },
    {
        if let Some(error) = self.refused {
            return Err(error);
        }
        proof {
            lemma_content_types();
            assert(entries_of(self.dirs@, self.files@) =~= self@.entries());
            lemma_entries_fit(self.dirs@, self.files@);
        }
        match self.stage {
            DownloadStage::FileReady => Ok(
                binary_response(
                    self.read.bytes,
                    "application/octet-stream",
                    self.name.as_str(),
                ),
            ),
            _ => {
                if !check_names(&self.dirs, &self.files) {
                    return Err(
                        err_resp(Status::InternalServerError, "the name of an entry is too long"),
                    );
                }
                match build_zip(&self.dirs, &self.files) {
                    Ok(bytes) => Ok(
                        binary_response(
                            bytes,
                            "application/zip",
                            self.name.concat(".zip").as_str(),
                        ),
                    ),
                    Err(error) => Err(err_resp(Status::InternalServerError, error.as_str())),
                }
            },
        }
    }
}

} // verus!
