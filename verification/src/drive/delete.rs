//! Deleting a file, or a directory and all that is in it.
//!
//! The ids of deleted nodes are used again. So that a new node does not come by the properties of a
//! deleted one, the property entries of all deleted nodes are removed too. The nodes of a directory
//! are listed before it is removed, and their entries are removed once the deletion is served.

use vstd::prelude::*;

use super::action::{answers, Action, Event, Step};
use super::api::{
    err_resp, is_dir, node_written, parse_node_text, refusal, ApiError, ChildInfo, NodeIds,
    NodeKind, Refusal, Status,
};
use super::epilogue::{
    commits, empty_commits, CommitOutcome, Epilogue, EpilogueStage, EpilogueState,
};
use super::mkdir::stage_one;
use super::path::{rel_of, relative};
use crate::props::{key_bytes, props_key};
use crate::types::ContentHash;

verus! {

/// What the request waits for.
#[derive(Clone, Copy, Debug, PartialEq, Eq, Structural)]
pub enum DeleteStage {
    NodeInfo,
    NodePath,
    /// The last of the folders is listed.
    Children,
    Remove,
    Stage,
    Epilogue,
    /// The property entries are removed.
    Clear,
    Finished,
    Refused,
}

/// A folder that was listed, and what is in it.
pub struct Visit {
    pub node: u32,
    pub children: Seq<ChildInfo>,
}

/// The nodes of children.
pub open spec fn nodes_of(children: Seq<ChildInfo>) -> Seq<u32> {
    children.map_values(|child: ChildInfo| child.node_id)
}

/// The nodes of those children that are folders.
pub open spec fn folders_of(children: Seq<ChildInfo>) -> Seq<u32>
    decreases children.len(),
{
    if children.len() == 0 {
        Seq::empty()
    } else if children.last().kind == NodeKind::Directory {
        folders_of(children.drop_last()).push(children.last().node_id)
    } else {
        folders_of(children.drop_last())
    }
}

/// The keys of the property entries of nodes.
pub open spec fn keys_of(nodes: Seq<u32>) -> Seq<Seq<u8>> {
    nodes.map_values(|node: u32| key_bytes(node))
}

/// The state of the request.
pub struct DeleteState {
    pub node: u32,
    pub versioned: bool,
    /// The revision that is served when the request starts.
    pub served: ContentHash,
    /// Whether the node is a directory, once that is known.
    pub directory: bool,
    /// The virtual path of the node, once it is known.
    pub path: Seq<char>,
    /// The nodes that are known to be deleted: the node itself, and those in folders that were listed.
    pub nodes: Seq<u32>,
    /// The folders that are still to be listed.
    pub folders: Seq<u32>,
    /// The folders that were listed.
    pub visits: Seq<Visit>,
    /// How many of the nodes have had their property entries removed.
    pub cleared: int,
    pub epilogue: EpilogueState,
    /// What the request is refused with, once it is.
    pub refused: Option<Refusal>,
    pub stage: DeleteStage,
}

impl DeleteState {
    /// The state at the start.
    pub open spec fn start(node: u32, versioned: bool, served: ContentHash) -> DeleteState {
        DeleteState {
            node,
            versioned,
            served,
            directory: false,
            path: Seq::empty(),
            nodes: seq![node],
            folders: Seq::empty(),
            visits: Seq::empty(),
            cleared: 0,
            epilogue: EpilogueState::start(versioned, Seq::empty(), served),
            refused: None,
            stage: DeleteStage::NodeInfo,
        }
    }

    /// What to do next.
    pub open spec fn step(self) -> Step {
        match self.stage {
            DeleteStage::NodeInfo => Step::NodeInfo { node: self.node },
            DeleteStage::NodePath => Step::NodePath { node: self.node },
            DeleteStage::Children => Step::Children { node: self.folders.last() },
            DeleteStage::Remove => if self.directory {
                Step::RemoveTree { path: relative(self.path) }
            } else {
                Step::RemoveFile { path: relative(self.path) }
            },
            DeleteStage::Stage => Step::Stage { paths: seq![relative(self.path)] },
            DeleteStage::Epilogue => self.epilogue.step(),
            DeleteStage::Clear => Step::RemoveEntry { key: key_bytes(self.nodes[self.cleared]) },
            DeleteStage::Finished | DeleteStage::Refused => Step::Finish,
        }
    }

    /// The state once the request is refused.
    pub open spec fn refuse(self, refused: Refusal) -> DeleteState {
        DeleteState { refused: Some(refused), stage: DeleteStage::Refused, ..self }
    }

    /// The state once a folder has to be listed, or none has and the node is removed.
    pub open spec fn gather(self) -> DeleteState {
        DeleteState {
            stage: if self.folders.len() > 0 {
                DeleteStage::Children
            } else {
                DeleteStage::Remove
            },
            ..self
        }
    }

    /// The state once the last of the folders is listed.
    pub open spec fn visit(self, children: Seq<ChildInfo>) -> DeleteState {
        DeleteState {
            nodes: self.nodes + nodes_of(children),
            folders: self.folders.drop_last() + folders_of(children),
            visits: self.visits.push(Visit { node: self.folders.last(), children }),
            ..self
        }
    }

    /// The state after `event`.
    pub open spec fn after(self, event: Event) -> DeleteState {
        match (self.stage, event) {
            (DeleteStage::NodeInfo, Event::NodeInfo(Err(error))) => self.refuse(error@),
            (DeleteStage::NodeInfo, Event::NodeInfo(Ok(info))) => DeleteState {
                directory: info.kind == NodeKind::Directory,
                folders: if info.kind == NodeKind::Directory {
                    seq![self.node]
                } else {
                    Seq::empty()
                },
                stage: DeleteStage::NodePath,
                ..self
            },
            (DeleteStage::NodePath, Event::NodePath(Err(error))) => self.refuse(error@),
            (DeleteStage::NodePath, Event::NodePath(Ok(path))) => (DeleteState {
                path: path@,
                ..self
            }).gather(),
            (DeleteStage::Children, Event::Children(Err(error))) => self.refuse(error@),
            (DeleteStage::Children, Event::Children(Ok(listed))) => self.visit(listed.2@).gather(),
            (DeleteStage::Remove, Event::Done(Err(error))) => self.refuse(
                refusal(Status::InternalServerError, "remove: "@ + error@),
            ),
            (DeleteStage::Remove, Event::Done(Ok(()))) => DeleteState {
                stage: DeleteStage::Stage,
                ..self
            },
            (DeleteStage::Stage, Event::Staged(Err(error))) => self.refuse(
                refusal(Status::InternalServerError, error@),
            ),
            (DeleteStage::Stage, Event::Staged(Ok(_))) => DeleteState {
                epilogue: EpilogueState::start(
                    self.versioned,
                    "lore-drive: delete "@ + self.path,
                    self.served,
                ),
                stage: DeleteStage::Epilogue,
                ..self
            },
            (DeleteStage::Epilogue, _) => {
                let epilogue = self.epilogue.after(event);
                match epilogue.stage {
                    EpilogueStage::Finished => DeleteState {
                        epilogue,
                        stage: DeleteStage::Clear,
                        ..self
                    },
                    EpilogueStage::Failed => (DeleteState { epilogue, ..self }).refuse(
                        refusal(Status::InternalServerError, epilogue.failure),
                    ),
                    _ => DeleteState { epilogue, ..self },
                }
            },
            (DeleteStage::Clear, Event::Done(Err(error))) => self.refuse(
                refusal(Status::InternalServerError, "props: "@ + error@),
            ),
            (DeleteStage::Clear, Event::Done(Ok(()))) => DeleteState {
                cleared: self.cleared + 1,
                stage: if self.cleared + 1 < self.nodes.len() {
                    DeleteStage::Clear
                } else {
                    DeleteStage::Finished
                },
                ..self
            },
            _ => self,
        }
    }

    /// The state after each of `events` in turn, if each is what can come of the step before it.
    pub open spec fn after_all(self, events: Seq<Event>) -> Option<DeleteState>
        decreases events.len(),
    {
        if events.len() == 0 {
            Some(self)
        } else {
            match self.after_all(events.drop_last()) {
                Some(state) if answers(events.last(), state.step()) => Some(
                    state.after(events.last()),
                ),
                _ => None,
            }
        }
    }

    /// The keys of the property entries that were removed while `events` came in turn.
    pub open spec fn removed(self, events: Seq<Event>) -> Seq<Seq<u8>>
        decreases events.len(),
    {
        if events.len() == 0 {
            Seq::empty()
        } else {
            let before = self.removed(events.drop_last());
            match self.after_all(events.drop_last()) {
                Some(state) => match (state.step(), events.last()) {
                    (Step::RemoveEntry { key }, Event::Done(Ok(()))) => before.push(key),
                    _ => before,
                },
                None => before,
            }
        }
    }

    /// Whether a folder was listed.
    pub open spec fn visited(self, node: u32) -> bool {
        exists|v: int| 0 <= v < self.visits.len() && (#[trigger] self.visits[v]).node == node
    }

    /// Whether entry `i` of the `v`th folder that was listed is taken care of: it is known to be
    /// deleted, and a folder was listed or is still to be.
    pub open spec fn noted(self, v: int, i: int) -> bool {
        let child = self.visits[v].children[i];
        &&& self.nodes.contains(child.node_id)
        &&& child.kind == NodeKind::Directory ==> self.folders.contains(child.node_id)
            || self.visited(child.node_id)
    }

    /// Whether entry `i` of the `v`th folder that was listed is a given node.
    pub open spec fn is_entry(self, v: int, i: int, node: u32) -> bool {
        &&& 0 <= v < self.visits.len()
        &&& 0 <= i < self.visits[v].children.len()
        &&& self.visits[v].children[i].node_id == node
    }

    /// Whether the nodes that are known to be deleted are the node itself and all that is in the
    /// folders that were listed, and the folders among those were listed or are still to be.
    pub open spec fn gathered(self) -> bool {
        &&& self.nodes.contains(self.node)
        &&& self.directory ==> self.folders.contains(self.node) || self.visited(self.node)
        &&& forall|v: int, i: int|
            #![trigger self.noted(v, i)]
            0 <= v < self.visits.len() && 0 <= i < self.visits[v].children.len() ==> self.noted(
                v,
                i,
            )
        &&& forall|k: int|
            0 <= k < self.nodes.len() ==> (#[trigger] self.nodes[k]) == self.node || exists|
                v: int,
                i: int,
            |
                self.is_entry(v, i, self.nodes[k])
    }

    /// Whether the state is one that a request can be in.
    pub open spec fn valid(self) -> bool {
        &&& self.refused is Some <==> self.stage == DeleteStage::Refused
        &&& self.epilogue.valid() && self.epilogue.versioned == self.versioned
        &&& match self.stage {
            DeleteStage::Epilogue | DeleteStage::Clear | DeleteStage::Finished
            | DeleteStage::Refused => true,
            _ => self.epilogue.commit == CommitOutcome::Pending,
        }
        &&& self.nodes.len() > 0
        &&& match self.stage {
            DeleteStage::Children => self.folders.len() > 0,
            DeleteStage::NodeInfo | DeleteStage::NodePath | DeleteStage::Refused => true,
            _ => self.folders.len() == 0,
        }
        &&& match self.stage {
            DeleteStage::Clear => 0 <= self.cleared < self.nodes.len(),
            DeleteStage::Finished => self.cleared == self.nodes.len(),
            DeleteStage::Refused => 0 <= self.cleared <= self.nodes.len(),
            _ => self.cleared == 0,
        }
        &&& self.stage == DeleteStage::Epilogue ==> self.epilogue.stage != EpilogueStage::Finished
            && self.epilogue.stage != EpilogueStage::Failed
        &&& self.stage == DeleteStage::Clear || self.stage == DeleteStage::Finished
            ==> self.epilogue.stage == EpilogueStage::Finished
    }
}

/// In drive mode no deletion commits. In versioned mode one that is done has made exactly one commit,
/// unless it was told that nothing is staged: then it has made none.
pub proof fn a_deletion_commits_as_its_mode_says(
    node: u32,
    versioned: bool,
    served: ContentHash,
    events: Seq<Event>,
)
    ensures
        match DeleteState::start(node, versioned, served).after_all(events) {
            Some(state) => {
                &&& state.valid() && state.versioned == versioned
                &&& commits(events) == state.epilogue.committed()
                &&& empty_commits(events) == state.epilogue.found_empty()
                &&& !versioned ==> commits(events) == 0 && !(state.step() is Commit)
                &&& versioned && state.stage == DeleteStage::Finished ==> commits(events)
                    + empty_commits(events) == 1
            },
            None => true,
        },
    decreases events.len(),
{
    if events.len() > 0 {
        a_deletion_commits_as_its_mode_says(node, versioned, served, events.drop_last());
    }
}

/// Each child that is a folder is among the folders.
proof fn lemma_folders_of(children: Seq<ChildInfo>)
    ensures
        forall|i: int|
            0 <= i < children.len() && (#[trigger] children[i]).kind == NodeKind::Directory
                ==> folders_of(children).contains(children[i].node_id),
    decreases children.len(),
{
    if children.len() > 0 {
        let rest = children.drop_last();
        lemma_folders_of(rest);
        assert forall|i: int|
            0 <= i < children.len() && (#[trigger] children[i]).kind
                == NodeKind::Directory implies folders_of(children).contains(
            children[i].node_id,
        ) by {
            if i < rest.len() {
                assert(rest[i] == children[i]);
                let k = choose|k: int|
                    0 <= k < folders_of(rest).len() && folders_of(rest)[k] == children[i].node_id;
                assert(folders_of(children)[k] == children[i].node_id);
            } else {
                assert(folders_of(children)[folders_of(rest).len() as int] == children[i].node_id);
            }
        }
    }
}

/// Listing a folder keeps what is gathered whole.
proof fn lemma_visit(state: DeleteState, children: Seq<ChildInfo>)
    requires
        state.gathered(),
        state.folders.len() > 0,
    ensures
        state.visit(children).gathered(),
{
    let next = state.visit(children);
    let last = state.visits.len() as int;
    let top = state.folders.last();
    lemma_folders_of(children);
    assert(next.visits[last].node == top);
    assert(next.visited(top));
    assert forall|node: u32| #[trigger] state.visited(node) implies next.visited(node) by {
        let v = choose|v: int|
            0 <= v < state.visits.len() && (#[trigger] state.visits[v]).node == node;
        assert(next.visits[v].node == node);
    }
    assert forall|node: u32| #[trigger] state.nodes.contains(node) implies next.nodes.contains(
        node,
    ) by {
        let k = choose|k: int| 0 <= k < state.nodes.len() && state.nodes[k] == node;
        assert(next.nodes[k] == node);
    }
    assert forall|node: u32| #[trigger]
        state.folders.contains(node) implies next.folders.contains(node) || next.visited(node) by {
        let k = choose|k: int| 0 <= k < state.folders.len() && state.folders[k] == node;
        if k < state.folders.len() - 1 {
            assert(next.folders[k] == node);
        }
    }
    assert forall|v: int, i: int|
        #![trigger next.noted(v, i)]
        0 <= v < next.visits.len() && 0 <= i < next.visits[v].children.len() implies next.noted(
        v,
        i,
    ) by {
        if v < last {
            assert(state.noted(v, i));
        } else {
            let child = children[i];
            assert(next.nodes[state.nodes.len() + i] == child.node_id);
            if child.kind == NodeKind::Directory {
                let k = choose|k: int|
                    0 <= k < folders_of(children).len() && folders_of(children)[k]
                        == child.node_id;
                assert(next.folders[state.folders.len() - 1 + k] == child.node_id);
            }
        }
    }
    assert forall|k: int| 0 <= k < next.nodes.len() implies (#[trigger] next.nodes[k]) == next.node
        || exists|v: int, i: int| next.is_entry(v, i, next.nodes[k]) by {
        if k < state.nodes.len() {
            assert(state.nodes[k] == next.nodes[k]);
            if state.nodes[k] != state.node {
                let (v, i) = choose|v: int, i: int| state.is_entry(v, i, state.nodes[k]);
                assert(next.is_entry(v, i, next.nodes[k]));
            }
        } else {
            assert(next.is_entry(last, k - state.nodes.len(), next.nodes[k]));
        }
    }
}

/// What is gathered stays whole when nothing that it speaks of changes.
proof fn lemma_gathered_frame(state: DeleteState, next: DeleteState)
    requires
        state.gathered(),
        next.node == state.node,
        next.directory == state.directory,
        next.nodes == state.nodes,
        next.folders == state.folders,
        next.visits == state.visits,
    ensures
        next.gathered(),
{
    assert forall|node: u32| #[trigger] state.visited(node) implies next.visited(node) by {
        let v = choose|v: int|
            0 <= v < state.visits.len() && (#[trigger] state.visits[v]).node == node;
        assert(next.visits[v].node == node);
    }
    assert forall|v: int, i: int|
        #![trigger next.noted(v, i)]
        0 <= v < next.visits.len() && 0 <= i < next.visits[v].children.len() implies next.noted(
        v,
        i,
    ) by {
        assert(state.noted(v, i));
    }
    assert forall|k: int| 0 <= k < next.nodes.len() implies (#[trigger] next.nodes[k]) == next.node
        || exists|v: int, i: int| next.is_entry(v, i, next.nodes[k]) by {
        assert(state.nodes[k] == next.nodes[k]);
        if state.nodes[k] != state.node {
            let (v, i) = choose|v: int, i: int| state.is_entry(v, i, state.nodes[k]);
            assert(next.is_entry(v, i, next.nodes[k]));
        }
    }
}

/// Each event keeps what is gathered whole.
proof fn lemma_delete_step(state: DeleteState, event: Event)
    requires
        state.valid(),
        state.gathered(),
        state.stage == DeleteStage::NodeInfo ==> state.visits.len() == 0 && state.folders.len()
            == 0 && state.nodes == seq![state.node] && !state.directory,
        answers(event, state.step()),
    ensures
        state.after(event).valid(),
        state.after(event).gathered(),
        state.after(event).stage != DeleteStage::NodeInfo,
        state.after(event).node == state.node,
{
    let next = state.after(event);
    match (state.stage, event) {
        (DeleteStage::NodeInfo, Event::NodeInfo(Ok(info))) => {
            assert(next.nodes[0] == next.node);
            if next.directory {
                assert(next.folders[0] == next.node);
            }
        },
        (DeleteStage::Children, Event::Children(Ok(listed))) => {
            lemma_visit(state, listed.2@);
            lemma_gathered_frame(state.visit(listed.2@), next);
        },
        _ => {
            lemma_gathered_frame(state, next);
        },
    }
}

/// A deletion that is done has had the property entries of the whole subtree removed, and no others:
/// that of the node itself, and for every folder of the subtree those of all that is in it. Every such
/// folder was listed before anything was removed, and no entry is removed before the deletion is
/// served.
pub proof fn a_deletion_clears_the_properties_of_its_subtree(
    node: u32,
    versioned: bool,
    served: ContentHash,
    events: Seq<Event>,
)
    ensures
        ({
            let start = DeleteState::start(node, versioned, served);
            match start.after_all(events) {
                Some(state) => {
                    &&& state.valid() && state.gathered() && state.node == node
                    &&& start.removed(events) == keys_of(state.nodes.take(state.cleared))
                    &&& state.step() is RemoveTree || state.step() is RemoveFile
                        ==> state.folders.len() == 0
                    &&& state.step() is RemoveEntry ==> state.epilogue.stage
                        == EpilogueStage::Finished
                    &&& state.stage == DeleteStage::Finished ==> {
                        &&& state.folders.len() == 0
                        &&& state.directory ==> state.visited(node)
                        &&& start.removed(events) == keys_of(state.nodes)
                    }
                },
                None => true,
            }
        }),
    decreases events.len(),
{
    let start = DeleteState::start(node, versioned, served);
    if events.len() > 0 {
        a_deletion_clears_the_properties_of_its_subtree(
            node,
            versioned,
            served,
            events.drop_last(),
        );
        if let Some(state) = start.after_all(events.drop_last()) {
            if answers(events.last(), state.step()) {
                lemma_untouched(node, versioned, served, events.drop_last());
                lemma_delete_step(state, events.last());
                let next = state.after(events.last());
                if state.stage == DeleteStage::Clear && events.last() is Done && next.cleared
                    == state.cleared + 1 {
                    assert(next.nodes.take(next.cleared) =~= state.nodes.take(state.cleared).push(
                        state.nodes[state.cleared],
                    ));
                    assert(keys_of(next.nodes.take(next.cleared)) =~= keys_of(
                        state.nodes.take(state.cleared),
                    ).push(key_bytes(state.nodes[state.cleared])));
                } else {
                    assert(next.nodes.take(next.cleared) =~= state.nodes.take(state.cleared));
                }
                if next.stage == DeleteStage::Finished {
                    assert(next.nodes.take(next.cleared) =~= next.nodes);
                }
            }
        }
    } else {
        assert(start.nodes[0] == node);
        assert(keys_of(start.nodes.take(0)) =~= Seq::<Seq<u8>>::empty());
    }
}

/// As long as the kind of the node is not known, nothing is gathered but the node.
proof fn lemma_untouched(node: u32, versioned: bool, served: ContentHash, events: Seq<Event>)
    ensures
        match DeleteState::start(node, versioned, served).after_all(events) {
            Some(state) => state.stage == DeleteStage::NodeInfo ==> state == DeleteState::start(
                node,
                versioned,
                served,
            ),
            None => true,
        },
    decreases events.len(),
{
    if events.len() > 0 {
        lemma_untouched(node, versioned, served, events.drop_last());
    }
}

/// A request in progress.
pub struct Delete {
    pub node: u32,
    pub versioned: bool,
    pub served: ContentHash,
    pub directory: bool,
    pub path: String,
    pub nodes: Vec<u32>,
    pub folders: Vec<u32>,
    pub visits: Ghost<Seq<Visit>>,
    pub cleared: usize,
    pub epilogue: Epilogue,
    pub refused: Option<ApiError>,
    pub stage: DeleteStage,
}

impl View for Delete {
    type V = DeleteState;

    open spec fn view(&self) -> DeleteState {
        DeleteState {
            node: self.node,
            versioned: self.versioned,
            served: self.served,
            directory: self.directory,
            path: self.path@,
            nodes: self.nodes@,
            folders: self.folders@,
            visits: self.visits@,
            cleared: self.cleared as int,
            epilogue: self.epilogue@,
            refused: match self.refused {
                Some(error) => Some(error@),
                None => None,
            },
            stage: self.stage,
        }
    }
}

/// What deleting the node that `text` names starts with, or why it is refused.
pub open spec fn delete_requested(
    text: Seq<char>,
    ids: NodeIds,
    versioned: bool,
    served: ContentHash,
) -> Result<DeleteState, Refusal> {
    match node_written(text, ids) {
        Ok(node) => if node == ids.root {
            Err(refusal(Status::BadRequest, "cannot delete the root"@))
        } else {
            Ok(DeleteState::start(node, versioned, served))
        },
        Err(refused) => Err(refused),
    }
}

impl Delete {
    /// Starts a request to delete the node that `text` names, while `served` is the revision served.
    pub fn start(text: &str, ids: NodeIds, versioned: bool, served: ContentHash) -> (started: Result<
        Delete,
        ApiError,
    >)
        ensures
            match started {
                Ok(request) => delete_requested(text@, ids, versioned, served) == Ok::<
                    DeleteState,
                    Refusal,
                >(request@) && request@.valid(),
                Err(error) => delete_requested(text@, ids, versioned, served) == Err::<
                    DeleteState,
                    Refusal,
                >(error@),
            },
    {
        let node: u32 = match parse_node_text(text, ids) {
            Ok(node) => node,
            Err(error) => {
                return Err(error);
            },
        };
        if node == ids.root {
            return Err(err_resp(Status::BadRequest, "cannot delete the root"));
        }
        let mut nodes: Vec<u32> = Vec::new();
        nodes.push(node);
        proof {
            assert(nodes@ =~= seq![node]);
        }
        Ok(
            Delete {
                node,
                versioned,
                served,
                directory: false,
                path: String::new(),
                nodes,
                folders: Vec::new(),
                visits: Ghost(Seq::empty()),
                cleared: 0,
                epilogue: Epilogue::start(versioned, String::new(), served),
                refused: None,
                stage: DeleteStage::NodeInfo,
            },
        )
    }

    /// What to do next.
    pub fn action(&self) -> (action: Action)
        requires
            self@.valid(),
        ensures
            action@ == self@.step(),
    {
        match self.stage {
            DeleteStage::NodeInfo => Action::NodeInfo { node: self.node },
            DeleteStage::NodePath => Action::NodePath { node: self.node },
            DeleteStage::Children => Action::Children {
                node: self.folders[self.folders.len() - 1],
            },
            DeleteStage::Remove => if self.directory {
                Action::RemoveTree { path: rel_of(self.path.as_str()) }
            } else {
                Action::RemoveFile { path: rel_of(self.path.as_str()) }
            },
            DeleteStage::Stage => stage_one(rel_of(self.path.as_str())),
            DeleteStage::Epilogue => self.epilogue.action(),
            DeleteStage::Clear => Action::RemoveEntry { key: props_key(self.nodes[self.cleared]) },
            DeleteStage::Finished | DeleteStage::Refused => Action::Finish,
        }
    }

    /// Refuses the request.
    fn refuse(&mut self, error: ApiError)
        ensures
            final(self)@ == old(self)@.refuse(error@),
    {
        self.refused = Some(error);
        self.stage = DeleteStage::Refused;
    }

    /// Has a folder listed, or the node removed if all are.
    fn gather(&mut self)
        ensures
            final(self)@ == old(self)@.gather(),
    {
        self.stage = if self.folders.len() > 0 {
            DeleteStage::Children
        } else {
            DeleteStage::Remove
        };
    }

    /// Takes what is in the last of the folders.
    fn visit(&mut self, children: &Vec<ChildInfo>)
        requires
            old(self)@.folders.len() > 0,
        ensures
            final(self)@ == old(self)@.visit(children@),
    {
        let ghost before = self@;
        let ghost top = self.folders@.last();
        self.folders.pop();
        let mut i: usize = 0;
        while i < children.len()
            invariant
                i <= children@.len(),
                self@ == (DeleteState {
                    nodes: before.nodes + nodes_of(children@.take(i as int)),
                    folders: before.folders.drop_last() + folders_of(children@.take(i as int)),
                    ..before
                }),
            decreases children@.len() - i,
        {
            let child: &ChildInfo = &children[i];
            proof {
                let taken = children@.take(i + 1);
                assert(taken.drop_last() =~= children@.take(i as int));
                assert(taken.last() == *child);
                assert(nodes_of(taken) =~= nodes_of(children@.take(i as int)).push(child.node_id));
            }
            self.nodes.push(child.node_id);
            if is_dir(child.kind) {
                self.folders.push(child.node_id);
            }
            proof {
                assert(self@.nodes =~= before.nodes + nodes_of(children@.take(i + 1)));
                assert(self@.folders =~= before.folders.drop_last() + folders_of(
                    children@.take(i + 1),
                ));
            }
            i = i + 1;
        }
        proof {
            assert(children@.take(i as int) =~= children@);
        }
        self.visits = Ghost(self.visits@.push(Visit { node: top, children: children@ }));
    }

    /// Takes what came of the action.
    pub fn advance(&mut self, event: Event)
        requires
            old(self)@.valid(),
            answers(event, old(self)@.step()),
        ensures
            final(self)@ == old(self)@.after(event),
            final(self)@.valid(),
    {
        match self.stage {
            DeleteStage::NodeInfo => match event {
                Event::NodeInfo(Ok(info)) => {
                    self.directory = is_dir(info.kind);
                    if self.directory {
                        let mut folders: Vec<u32> = Vec::new();
                        folders.push(self.node);
                        proof {
                            assert(folders@ =~= seq![self.node]);
                        }
                        self.folders = folders;
                    } else {
                        self.folders = Vec::new();
                    }
                    self.stage = DeleteStage::NodePath;
                },
                Event::NodeInfo(Err(error)) => self.refuse(error),
                _ => {},
            },
            DeleteStage::NodePath => match event {
                Event::NodePath(Ok(path)) => {
                    self.path = path;
                    self.gather();
                },
                Event::NodePath(Err(error)) => self.refuse(error),
                _ => {},
            },
            DeleteStage::Children => match event {
                Event::Children(Ok(listed)) => {
                    self.visit(&listed.2);
                    self.gather();
                },
                Event::Children(Err(error)) => self.refuse(error),
                _ => {},
            },
            DeleteStage::Remove => match event {
                Event::Done(Err(error)) => self.refuse(
                    err_resp(
                        Status::InternalServerError,
                        "remove: ".to_owned().concat(error.as_str()).as_str(),
                    ),
                ),
                _ => {
                    self.stage = DeleteStage::Stage;
                },
            },
            DeleteStage::Stage => match event {
                Event::Staged(Err(error)) => self.refuse(
                    err_resp(Status::InternalServerError, error.as_str()),
                ),
                _ => {
                    let message = "lore-drive: delete ".to_owned().concat(self.path.as_str());
                    self.epilogue = Epilogue::start(self.versioned, message, self.served);
                    self.stage = DeleteStage::Epilogue;
                },
            },
            DeleteStage::Epilogue => {
                self.epilogue.advance(event);
                match self.epilogue.stage {
                    EpilogueStage::Finished => {
                        self.stage = DeleteStage::Clear;
                    },
                    EpilogueStage::Failed => {
                        let error = err_resp(
                            Status::InternalServerError,
                            self.epilogue.failure.as_str(),
                        );
                        self.refuse(error);
                    },
                    _ => {},
                }
            },
            DeleteStage::Clear => match event {
                Event::Done(Err(error)) => self.refuse(
                    err_resp(
                        Status::InternalServerError,
                        "props: ".to_owned().concat(error.as_str()).as_str(),
                    ),
                ),
                _ => {
                    let count: usize = self.nodes.len();
                    proof {
                        assert(self.cleared < count);
                    }
                    self.cleared = self.cleared + 1;
                    if self.cleared == count {
                        self.stage = DeleteStage::Finished;
                    }
                },
            },
            DeleteStage::Finished | DeleteStage::Refused => {},
        }
    }

    /// What the request is answered with, once nothing is left to do: the revision that is served.
    pub fn reply(self) -> (reply: Result<String, ApiError>)
        requires
            self@.valid(),
            self@.step() == Step::Finish,
        ensures
            match reply {
                Ok(revision) => self@.stage == DeleteStage::Finished && revision@
                    == self@.epilogue.revision.text(),
                Err(error) => self@.stage == DeleteStage::Refused && self@.refused == Some(error@),
            },
    {
        match self.refused {
            Some(error) => Err(error),
            None => Ok(self.epilogue.revision.to_text()),
        }
    }
}

} // verus!
