//! What requests to create a directory and to delete a node do.

use vstd::prelude::*;

use super::super::action::{answers, Event, Step};
use super::super::api::{refusal, ChildInfo, NodeKind, Refusal, Status};
use super::super::delete::{
    a_deletion_clears_the_properties_of_its_subtree, folders_of, nodes_of, DeleteStage, DeleteState,
};
use super::super::epilogue::EpilogueStage;
use super::super::mkdir::{a_refused_mkdir_removes_its_directory, MkdirStage, MkdirState};
use super::super::path::{joined, relative};
use super::uploads::folder_told;
use crate::props::key_bytes;
use crate::types::ContentHash;

verus! {

/// What a state of a request for a directory keeps is what was asked and told.
spec fn mkdir_remembers(
    state: MkdirState,
    name: Seq<char>,
    parent: u32,
    root: u32,
    events: Seq<Event>,
) -> bool {
    &&& state.name == name && state.parent == parent
    &&& match state.stage {
        MkdirStage::ParentInfo => events.len() == 0 && parent != root,
        MkdirStage::ParentPath => events.len() == 1 && parent != root,
        MkdirStage::Refused => true,
        _ => (parent != root ==> events.len() >= 2) && (folder_told(
            parent,
            root,
            events,
        ) matches Some(folder) && state.path == joined(folder, name)),
    }
}

/// A directory is made below the one that was asked for: at the path that was told of that one, or at
/// the root, joined with its name. Whatever is looked for, created, staged, removed again and looked up
/// at the end is so under that path, and the placeholder is in it.
pub proof fn a_directory_is_made_where_it_was_asked(
    name: Seq<char>,
    parent: u32,
    root: u32,
    versioned: bool,
    served: ContentHash,
    events: Seq<Event>,
)
    ensures
        MkdirState::start(name, parent, root, versioned, served).after_all(
            events,
        ) matches Some(state) ==> {
            let folder = folder_told(parent, root, events);
            let place = relative(joined(folder->Some_0, name));
            &&& match state.step() {
                Step::Resolve { path } => folder is Some && path == place,
                Step::Exists { path } => folder is Some && path == place,
                Step::CreateDir { path } => folder is Some && path == place,
                Step::Stage { paths } => folder is Some && (paths == (if state.fell_back {
                    seq![place + "/.lorekeep"@]
                } else {
                    seq![place]
                })),
                Step::WriteEmpty { path } => folder is Some && path == place + "/.lorekeep"@,
                Step::RemoveTree { path } => folder is Some && path == place,
                Step::NodeInfo { node } => node == parent,
                Step::NodePath { node } => node == parent,
                _ => true,
            }
            &&& state.stage == MkdirStage::Finished ==> folder is Some && state.path == joined(
                folder->Some_0,
                name,
            )
        },
{
    lemma_mkdir_remembers(name, parent, root, versioned, served, events);
}

proof fn lemma_mkdir_remembers(
    name: Seq<char>,
    parent: u32,
    root: u32,
    versioned: bool,
    served: ContentHash,
    events: Seq<Event>,
)
    ensures
        MkdirState::start(name, parent, root, versioned, served).after_all(
            events,
        ) matches Some(state) ==> state.valid() && mkdir_remembers(
            state,
            name,
            parent,
            root,
            events,
        ),
    decreases events.len(),
{
    a_refused_mkdir_removes_its_directory(name, parent, root, versioned, served, events);
    if events.len() > 0 {
        let before = events.drop_last();
        lemma_mkdir_remembers(name, parent, root, versioned, served, before);
        a_refused_mkdir_removes_its_directory(name, parent, root, versioned, served, before);
        assert(forall|i: int| 0 <= i < before.len() ==> before[i] == events[i]);
    }
}

/// What a request for a directory is refused with once `event` comes of its step, if it is.
pub open spec fn mkdir_refused(state: MkdirState, event: Event) -> Option<Refusal> {
    match (state.stage, event) {
        (MkdirStage::ParentInfo, Event::NodeInfo(Err(error))) => Some(error@),
        (MkdirStage::ParentInfo, Event::NodeInfo(Ok(info))) => if info.kind
            == NodeKind::Directory {
            None
        } else {
            Some(refusal(Status::BadRequest, "node is not a directory"@))
        },
        (MkdirStage::ParentPath, Event::NodePath(Err(error))) => Some(error@),
        (MkdirStage::Resolve, Event::Resolved(Some(_)))
        | (MkdirStage::Exists, Event::Exists(true)) => Some(
            Refusal {
                status: Status::Conflict,
                error: "an entry with that name already exists"@,
                conflicts: Some(seq![state.path]),
            },
        ),
        (MkdirStage::Create, Event::Done(Err(error))) => Some(
            refusal(Status::InternalServerError, "create_dir: "@ + error@),
        ),
        (MkdirStage::Rollback, _) => Some(refusal(Status::InternalServerError, state.failure)),
        _ => None,
    }
}

/// The directory is removed, and the failure is kept to be told.
pub open spec fn removes(state: MkdirState, failure: Seq<char>, next: MkdirState) -> bool {
    next.failure == failure && next.stage == MkdirStage::Rollback && next.created
}

/// A request for a directory is refused exactly where something it needs fails or something is in the
/// way, and says what. Anything else takes it on: what is there, the directory itself, its staging and
/// the epilogue. Where the directory by itself cannot be staged, or leaves the served revision as it is,
/// or cannot be committed, a placeholder is written, staged and committed in its place; where that fails
/// the directory is removed.
pub proof fn a_mkdir_goes_on_unless_something_fails(state: MkdirState, event: Event)
    requires
        state.valid(),
        answers(event, state.step()),
    ensures
        ({
            let next = state.after(event);
            let message = "lore-drive: mkdir "@ + state.path;
            let first = if state.versioned {
                Step::Commit { message }
            } else {
                Step::StagedRevision
            };
            &&& state.stage == MkdirStage::Epilogue || state.stage == MkdirStage::EpilogueKeep
                ==> state.step() == state.epilogue.step()
            &&& next.refused == mkdir_refused(state, event)
            &&& state.stage != MkdirStage::ParentPath ==> next.path == state.path
            &&& next.refused is None ==> match (state.stage, event) {
                (MkdirStage::ParentInfo, _) => next.step() == Step::NodePath { node: state.parent },
                (MkdirStage::ParentPath, Event::NodePath(Ok(folder))) => next.path == joined(
                    folder@,
                    state.name,
                ) && next.step() == Step::Resolve { path: relative(next.path) },
                (MkdirStage::Resolve, _) => next.step() == Step::Exists {
                    path: relative(state.path),
                },
                (MkdirStage::Exists, _) => next.step() == Step::CreateDir {
                    path: relative(state.path),
                },
                (MkdirStage::Create, _) => next.created && next.stage == MkdirStage::Stage,
                (MkdirStage::Stage, Event::Staged(Ok(staged))) => if !state.versioned && staged
                    == state.served {
                    next.stage == MkdirStage::WriteKeep
                } else {
                    next.stage == MkdirStage::Epilogue && next.step() == first
                },
                (MkdirStage::Stage, _) => next.stage == MkdirStage::WriteKeep,
                (MkdirStage::Epilogue, _) => if event == Event::Committed(Ok(None)) || (
                event matches Event::Committed(Err(_))) {
                    next.stage == MkdirStage::WriteKeep
                } else {
                    match state.epilogue.after(event).stage {
                        EpilogueStage::Finished => next.stage == MkdirStage::ResolveNew,
                        EpilogueStage::Failed => if state.versioned {
                            removes(state, state.epilogue.after(event).failure, next)
                        } else {
                            next.stage == MkdirStage::WriteKeep
                        },
                        _ => next.stage == MkdirStage::Epilogue && next.epilogue
                            == state.epilogue.after(event),
                    }
                },
                (MkdirStage::WriteKeep, Event::Done(Ok(()))) => next.stage == MkdirStage::StageKeep,
                (MkdirStage::WriteKeep, Event::Done(Err(error))) => removes(
                    state,
                    "write .lorekeep: "@ + error@,
                    next,
                ),
                (MkdirStage::StageKeep, Event::Staged(Ok(_))) => next.stage
                    == MkdirStage::EpilogueKeep && next.step() == first,
                (MkdirStage::StageKeep, Event::Staged(Err(error))) => removes(state, error@, next),
                (MkdirStage::EpilogueKeep, _) => match state.epilogue.after(event).stage {
                    EpilogueStage::Finished => next.stage == MkdirStage::ResolveNew,
                    EpilogueStage::Failed => removes(
                        state,
                        state.epilogue.after(event).failure,
                        next,
                    ),
                    _ => next.stage == MkdirStage::EpilogueKeep && next.epilogue
                        == state.epilogue.after(event),
                },
                (MkdirStage::ResolveNew, Event::Resolved(node)) => next.node == node && next.stage
                    == MkdirStage::Finished,
                _ => false,
            }
            &&& next.stage == MkdirStage::ResolveNew ==> next.epilogue.revision
                == state.epilogue.after(event).revision
            &&& state.stage == MkdirStage::ResolveNew ==> next.epilogue == state.epilogue
        }),
{
}

/// What is told of the node that is deleted: its record and its virtual path.
pub open spec fn deleted_path_told(events: Seq<Event>) -> Option<Seq<char>> {
    if events.len() < 2 {
        None
    } else {
        match (events[0], events[1]) {
            (Event::NodeInfo(Ok(_)), Event::NodePath(Ok(path))) => Some(path@),
            _ => None,
        }
    }
}

/// The nodes that the listings in `events` tell of, in order.
pub open spec fn nodes_told(events: Seq<Event>) -> Seq<u32>
    decreases events.len(),
{
    if events.len() == 0 {
        Seq::empty()
    } else {
        match events.last() {
            Event::Children(Ok(listed)) => nodes_told(events.drop_last()) + listed.2@.map_values(
                |child: ChildInfo| child.node_id,
            ),
            _ => nodes_told(events.drop_last()),
        }
    }
}

/// What is deleted is what was asked for: the path that was told of the node is removed and staged, as a
/// tree if the node is a directory and as a file if it is not, and the property entries that are removed
/// are those of the node and of all nodes that the listings told of.
pub proof fn a_node_is_deleted_where_it_is(
    node: u32,
    versioned: bool,
    served: ContentHash,
    events: Seq<Event>,
)
    ensures
        DeleteState::start(node, versioned, served).after_all(events) matches Some(state) ==> {
            let told = deleted_path_told(events);
            let is_folder = events[0] matches Event::NodeInfo(Ok(info)) && info.kind
                == NodeKind::Directory;
            &&& state.node == node && state.versioned == versioned && state.served == served
            &&& state.nodes == seq![node] + nodes_told(events)
            &&& state.stage == DeleteStage::NodeInfo ==> events.len() == 0
            &&& state.stage == DeleteStage::NodePath ==> events.len() == 1 && (
            events[0] matches Event::NodeInfo(Ok(_))) && state.directory == is_folder
            &&& state.stage != DeleteStage::NodeInfo && state.stage != DeleteStage::NodePath
                && state.stage != DeleteStage::Refused ==> events.len() >= 2 && told == Some(
                state.path,
            ) && state.directory == is_folder
            &&& match state.step() {
                Step::NodeInfo { node: asked } => asked == node,
                Step::NodePath { node: asked } => asked == node,
                Step::RemoveTree { path } => told is Some && is_folder && path == relative(
                    told->Some_0,
                ),
                Step::RemoveFile { path } => told is Some && !is_folder && path == relative(
                    told->Some_0,
                ),
                Step::Stage { paths } => told is Some && paths == seq![relative(told->Some_0)],
                Step::RemoveEntry { key } => 0 <= state.cleared <= nodes_told(events).len() && key
                    == key_bytes((seq![node] + nodes_told(events))[state.cleared]),
                _ => true,
            }
        },
    decreases events.len(),
{
    a_deletion_clears_the_properties_of_its_subtree(node, versioned, served, events);
    if events.len() > 0 {
        let before = events.drop_last();
        a_node_is_deleted_where_it_is(node, versioned, served, before);
        a_deletion_clears_the_properties_of_its_subtree(node, versioned, served, before);
        assert(forall|i: int| 0 <= i < before.len() ==> before[i] == events[i]);
        if let Event::Children(Ok(listed)) = events.last() {
            let listing = listed.2@.map_values(|child: ChildInfo| child.node_id);
            assert((seq![node] + nodes_told(before)) + listing =~= seq![node] + (nodes_told(before)
                + listing));
            assert(nodes_of(listed.2@) =~= listing);
        }
    } else {
        assert(seq![node] + nodes_told(events) =~= seq![node]);
    }
}

/// What a deletion is refused with once `event` comes of its step, if it is.
pub open spec fn deletion_refused(state: DeleteState, event: Event) -> Option<Refusal> {
    match (state.stage, event) {
        (DeleteStage::NodeInfo, Event::NodeInfo(Err(error))) => Some(error@),
        (DeleteStage::NodePath, Event::NodePath(Err(error))) => Some(error@),
        (DeleteStage::Children, Event::Children(Err(error))) => Some(error@),
        (DeleteStage::Remove, Event::Done(Err(error))) => Some(
            refusal(Status::InternalServerError, "remove: "@ + error@),
        ),
        (DeleteStage::Stage, Event::Staged(Err(error))) => Some(
            refusal(Status::InternalServerError, error@),
        ),
        (DeleteStage::Epilogue, _) => if state.epilogue.after(event).stage
            == EpilogueStage::Failed {
            Some(refusal(Status::InternalServerError, state.epilogue.after(event).failure))
        } else {
            None
        },
        (DeleteStage::Clear, Event::Done(Err(error))) => Some(
            refusal(Status::InternalServerError, "props: "@ + error@),
        ),
        _ => None,
    }
}

/// A deletion is refused exactly where something it needs fails, and says what. Anything else takes it
/// on: the record, the path, the listings of a directory, the removal, the staging, the epilogue, and
/// the property entries one by one.
pub proof fn a_deletion_goes_on_unless_something_fails(state: DeleteState, event: Event)
    requires
        state.valid(),
        answers(event, state.step()),
    ensures
        ({
            let next = state.after(event);
            &&& state.stage == DeleteStage::Epilogue ==> state.step() == state.epilogue.step()
            &&& next.refused == deletion_refused(state, event)
            &&& next.refused is None ==> match (state.stage, event) {
                (DeleteStage::NodeInfo, Event::NodeInfo(Ok(info))) => next.step()
                    == Step::NodePath { node: state.node } && next.directory == (info.kind
                    == NodeKind::Directory) && next.folders == (if info.kind
                    == NodeKind::Directory {
                    seq![state.node]
                } else {
                    Seq::empty()
                }),
                (DeleteStage::NodePath, _) => if state.folders.len() > 0 {
                    next.step() == Step::Children { node: state.folders.last() }
                } else {
                    next.stage == DeleteStage::Remove
                },
                (DeleteStage::Children, Event::Children(Ok(listed))) => {
                    &&& state.step() == Step::Children { node: next.visits.last().node }
                    &&& next.visits.len() == state.visits.len() + 1
                    &&& next.visits.last().node == state.folders.last()
                    &&& next.visits.last().children == listed.2@
                    &&& next.folders == state.folders.drop_last() + listed.2@.filter(
                        |child: ChildInfo| child.kind == NodeKind::Directory,
                    ).map_values(|child: ChildInfo| child.node_id)
                    &&& if next.folders.len() > 0 {
                        next.step() == Step::Children { node: next.folders.last() }
                    } else {
                        next.stage == DeleteStage::Remove
                    }
                },
                (DeleteStage::Remove, _) => next.step() == Step::Stage {
                    paths: seq![relative(state.path)],
                },
                (DeleteStage::Stage, _) => next.stage == DeleteStage::Epilogue
                    && next.epilogue.served == state.served && next.step() == (if state.versioned {
                    Step::Commit { message: "lore-drive: delete "@ + state.path }
                } else {
                    Step::StagedRevision
                }),
                (DeleteStage::Epilogue, _) => next.epilogue == state.epilogue.after(event) && (
                if next.epilogue.stage == EpilogueStage::Finished {
                    next.stage == DeleteStage::Clear && next.cleared == 0
                } else {
                    next.stage == DeleteStage::Epilogue
                }),
                (DeleteStage::Clear, _) => next.cleared == state.cleared + 1 && next.nodes
                    == state.nodes && next.epilogue == state.epilogue && (if next.cleared == state.nodes.len() {
                    next.stage == DeleteStage::Finished
                } else {
                    next.stage == DeleteStage::Clear
                }),
                _ => false,
            }
        }),
{
    if let (DeleteStage::Children, Event::Children(Ok(listed))) = (state.stage, event) {
        lemma_folders_of(listed.2@);
    }
}

/// The folders among children are those that are directories, in order.
proof fn lemma_folders_of(children: Seq<ChildInfo>)
    ensures
        folders_of(children) == children.filter(
            |child: ChildInfo| child.kind == NodeKind::Directory,
        ).map_values(|child: ChildInfo| child.node_id),
    decreases children.len(),
{
    let is_folder = |child: ChildInfo| child.kind == NodeKind::Directory;
    let node_of = |child: ChildInfo| child.node_id;
    reveal(Seq::filter);
    if children.len() > 0 {
        lemma_folders_of(children.drop_last());
        let front = children.drop_last().filter(is_folder);
        assert(front.push(children.last()).map_values(node_of) =~= front.map_values(node_of).push(
            children.last().node_id,
        ));
    } else {
        assert(children.filter(is_folder).map_values(node_of) =~= Seq::empty());
    }
}

} // verus!
