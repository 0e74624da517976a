//! What a request to rename or move a node does.

use vstd::prelude::*;

use super::super::action::{answers, Event, Step};
use super::super::api::{node_named, refusal, NodeIds, NodeInfo, NodeKind, Refusal, Status};
use super::super::epilogue::EpilogueStage;
use super::super::patch::{PatchStage, PatchState};
use super::super::path::{is_below, joined, relative};
use super::super::record::{RecordStage, RecordState};
use crate::types::ContentHash;

verus! {

/// The node that `events` tell of first: its record and its virtual path.
pub open spec fn node_told(events: Seq<Event>) -> Option<(NodeInfo, Seq<char>)> {
    if events.len() < 2 {
        None
    } else {
        match (events[0], events[1]) {
            (Event::NodeInfo(Ok(info)), Event::NodePath(Ok(path))) => Some((info, path@)),
            _ => None,
        }
    }
}

/// The directory that a node is to be in: the one that is asked for, or else the one that its record
/// names as its parent.
pub open spec fn directory_asked(
    info: NodeInfo,
    parent_id: Option<u64>,
    ids: NodeIds,
) -> Option<u32> {
    match parent_id {
        Some(raw) => match node_named(raw, ids) {
            Ok(parent) => Some(parent),
            Err(_) => None,
        },
        None => Some(info.parent_id),
    }
}

/// The virtual path of that directory: a slash for the root, and else what `events` tell of it.
pub open spec fn directory_told(directory: u32, ids: NodeIds, events: Seq<Event>) -> Option<
    Seq<char>,
> {
    if directory == ids.root {
        Some("/"@)
    } else if events.len() < 4 {
        None
    } else {
        match (events[2], events[3]) {
            (Event::NodeInfo(Ok(parent)), Event::NodePath(Ok(path))) => if parent.kind
                == NodeKind::Directory {
                Some(path@)
            } else {
                None
            },
            _ => None,
        }
    }
}

/// The virtual path that a node is to be at: in that directory, under the name that is asked for, or
/// else under the name that it has.
pub open spec fn destination(
    ids: NodeIds,
    name: Option<Seq<char>>,
    parent_id: Option<u64>,
    events: Seq<Event>,
) -> Option<Seq<char>> {
    match node_told(events) {
        Some((info, _)) => match directory_asked(info, parent_id, ids) {
            Some(directory) => match directory_told(directory, ids, events) {
                Some(path) => Some(
                    joined(
                        path,
                        match name {
                            Some(name) => name,
                            None => info.name@,
                        },
                    ),
                ),
                None => None,
            },
            None => None,
        },
        None => None,
    }
}

/// What a state keeps is what was asked and told.
spec fn remembers(start: PatchState, state: PatchState, events: Seq<Event>) -> bool {
    let aim = destination(start.ids, start.name, start.parent_id, events);
    &&& state.valid()
    &&& state.node == start.node && state.ids == start.ids && state.name == start.name
        && state.parent_id == start.parent_id && state.versioned == start.versioned && state.served
        == start.served
    &&& match state.stage {
        PatchStage::NodeInfo => events.len() == 0,
        PatchStage::NodePath => events.len() == 1 && (state.info matches Some(info) && events[0]
            == Event::NodeInfo(Ok(info))),
        PatchStage::ParentInfo => events.len() == 2 && (node_told(events) matches Some(told)
            && state.info == Some(told.0) && state.source == told.1 && state.parent
            != start.ids.root && directory_asked(told.0, start.parent_id, start.ids) == Some(
            state.parent,
        )),
        PatchStage::ParentPath => events.len() == 3 && (node_told(events) matches Some(told)
            && state.info == Some(told.0) && state.source == told.1 && state.parent
            != start.ids.root && directory_asked(told.0, start.parent_id, start.ids) == Some(
            state.parent,
        )) && (events[2] matches Event::NodeInfo(Ok(parent)) && parent.kind == NodeKind::Directory),
        PatchStage::Refused => true,
        _ => {
            &&& aim == Some(state.target)
            &&& node_told(events) matches Some(told) && state.info == Some(told.0) && state.source
                == told.1
            &&& events.len() >= 4 || directory_asked(
                node_told(events)->Some_0.0,
                start.parent_id,
                start.ids,
            ) == Some(start.ids.root)
            &&& state.stage != PatchStage::Record && state.stage != PatchStage::Finished ==> !(
            state.info->Some_0.kind == NodeKind::Directory && is_below(
                state.target,
                state.source,
            ))
        },
    }
}

proof fn lemma_told_stays(
    ids: NodeIds,
    name: Option<Seq<char>>,
    parent_id: Option<u64>,
    events: Seq<Event>,
    event: Event,
)
    ensures
        node_told(events) is Some ==> node_told(events.push(event)) == node_told(events),
        destination(ids, name, parent_id, events) is Some ==> destination(
            ids,
            name,
            parent_id,
            events.push(event),
        ) == destination(ids, name, parent_id, events),
{
}

#[verifier::rlimit(40)]
proof fn lemma_remembers(start: PatchState, state: PatchState, events: Seq<Event>, event: Event)
    requires
        remembers(start, state, events),
        answers(event, state.step()),
    ensures
        remembers(start, state.after(event), events.push(event)),
{
    lemma_told_stays(start.ids, start.name, start.parent_id, events, event);
    let all = events.push(event);
    assert(forall|i: int| 0 <= i < events.len() ==> all[i] == events[i]);
    assert(all[events.len() as int] == event);
}

proof fn lemma_remembers_all(
    node: u32,
    ids: NodeIds,
    name: Option<Seq<char>>,
    parent_id: Option<u64>,
    versioned: bool,
    served: ContentHash,
    events: Seq<Event>,
)
    ensures
        ({
            let start = PatchState::start(node, ids, name, parent_id, versioned, served);
            start.after_all(events) matches Some(state) ==> remembers(start, state, events)
        }),
    decreases events.len(),
{
    if events.len() > 0 {
        let start = PatchState::start(node, ids, name, parent_id, versioned, served);
        lemma_remembers_all(node, ids, name, parent_id, versioned, served, events.drop_last());
        if let Some(state) = start.after_all(events.drop_last()) {
            if answers(events.last(), state.step()) {
                lemma_remembers(start, state, events.drop_last(), events.last());
                assert(events.drop_last().push(events.last()) =~= events);
            }
        }
    }
}

/// A node is moved to where it was asked to be, and from where it is. The directory is the one that
/// the request names, and one that names none keeps the node in the directory that its record names:
/// so a rename changes the name alone. Whatever is looked for in the way, renamed, renamed back,
/// staged, committed and looked up at the end is looked for, renamed, staged and looked up under the
/// path of the node that was told and under that path in the directory.
pub proof fn a_node_is_moved_to_where_it_was_asked(
    node: u32,
    ids: NodeIds,
    name: Option<Seq<char>>,
    parent_id: Option<u64>,
    versioned: bool,
    served: ContentHash,
    events: Seq<Event>,
)
    ensures
        ({
            let start = PatchState::start(node, ids, name, parent_id, versioned, served);
            let aim = destination(ids, name, parent_id, events);
            start.after_all(events) matches Some(state) ==> {
                &&& events.len() == 0 ==> state.step() == Step::NodeInfo { node }
                &&& match state.step() {
                    Step::Resolve { path } => aim matches Some(target) && path == relative(target),
                    Step::Exists { path } => aim matches Some(target) && path == relative(target),
                    Step::Rename { from, to } => aim matches Some(target) && {
                        let source = node_told(events)->Some_0.1;
                        if state.moved {
                            from == relative(target) && to == relative(source)
                        } else {
                            from == relative(source) && to == relative(target)
                        }
                    },
                    Step::StageMove { from, to } => aim matches Some(target) && from == relative(
                        node_told(events)->Some_0.1,
                    ) && to == relative(target),
                    Step::NodePath { node: asked } => events.len() == 1 ==> asked == node,
                    Step::NodeInfo { node: asked } => events.len() == 2 && aim is None ==> (
                    node_told(events) matches Some(told) && directory_asked(
                        told.0,
                        parent_id,
                        ids,
                    ) == Some(asked) && asked != ids.root),
                    _ => true,
                }
                &&& (state.moved || state.stage == PatchStage::Finished) ==> aim == Some(
                    state.target,
                ) || state.stage == PatchStage::Refused
            }
        }),
{
    lemma_remembers_all(node, ids, name, parent_id, versioned, served, events);
}

/// A request that names no directory keeps the node in the one that it is in: a rename changes the last
/// segment of its path alone, and a request that asks for nothing leaves it where it is. One that names
/// a directory and no name changes the directory alone.
pub proof fn a_rename_changes_the_name_alone(
    ids: NodeIds,
    name: Seq<char>,
    raw: u64,
    events: Seq<Event>,
    folder: Seq<char>,
)
    requires
        node_told(events) matches Some(told) && directory_told(told.0.parent_id, ids, events)
            == Some(folder) && told.1 == joined(folder, told.0.name@),
    ensures
        destination(ids, Some(name), None, events) == Some(joined(folder, name)),
        destination(ids, None, None, events) == Some(node_told(events)->Some_0.1),
        (raw != ids.invalid && raw == ids.root) ==> destination(ids, None, Some(raw), events)
            == Some(joined("/"@, node_told(events)->Some_0.0.name@)),
{
}

/// What a request is refused with once `event` comes of its step, if it is: what is said of the node,
/// of the directory, of what is in the way, of the rename, or of the failure that had the move undone.
pub open spec fn move_refused(state: PatchState, event: Event) -> Option<Refusal> {
    match (state.stage, event) {
        (PatchStage::NodeInfo, Event::NodeInfo(Err(error))) => Some(error@),
        (PatchStage::NodePath, Event::NodePath(Err(error))) => Some(error@),
        (PatchStage::ParentInfo, Event::NodeInfo(Err(error))) => Some(error@),
        (PatchStage::ParentPath, Event::NodePath(Err(error))) => Some(error@),
        (PatchStage::ParentInfo, Event::NodeInfo(Ok(parent))) => if parent.kind
            == NodeKind::Directory {
            None
        } else {
            Some(refusal(Status::BadRequest, "node is not a directory"@))
        },
        (PatchStage::Resolve, Event::Resolved(Some(_))) => Some(in_the_way(state.target)),
        (PatchStage::Exists, Event::Exists(true)) => Some(in_the_way(state.target)),
        (PatchStage::Rename, Event::Done(Err(error))) => Some(
            refusal(Status::InternalServerError, "rename: "@ + error@),
        ),
        (PatchStage::Undo, _) => Some(refusal(Status::InternalServerError, state.failure)),
        (PatchStage::ResolveNew, Event::Resolved(None)) => Some(
            refusal(Status::InternalServerError, "moved node not found"@),
        ),
        (PatchStage::Record, Event::NodeInfo(Err(error))) => if state.record.stage
            == RecordStage::NodeInfo {
            Some(error@)
        } else {
            None
        },
        (PatchStage::Record, Event::NodePath(Err(error))) => if state.record.stage
            == RecordStage::NodePath {
            Some(error@)
        } else {
            None
        },
        _ => None,
    }
}

/// What is said of a path that is taken.
pub open spec fn in_the_way(path: Seq<char>) -> Refusal {
    Refusal {
        status: Status::Conflict,
        error: "destination already exists"@,
        conflicts: Some(seq![path]),
    }
}

/// Once the directory is known a move goes on by what the paths are: to where the node is, there is
/// nothing to move, and the record is shown as it is served; a directory does not go below itself;
/// else the path is looked for in the served tree.
pub open spec fn sets_out(state: PatchState, info: NodeInfo, next: PatchState) -> bool {
    if next.target == next.source {
        &&& next.step() == Step::NodeInfo { node: state.node }
        &&& next.record == RecordState::start(state.node)
        &&& next.revision == state.served && next.refused is None && next.stage
            == PatchStage::Record
    } else if info.kind == NodeKind::Directory && is_below(next.target, next.source) {
        next.refused == Some(
            refusal(Status::BadRequest, "cannot move a directory inside itself"@),
        )
    } else {
        next.refused is None && next.step() == Step::Resolve { path: relative(next.target) }
    }
}

/// A request is refused exactly where something it needs fails or something is in the way, and says
/// what. Anything else takes it on to the next step: the record, the path, the directory, what is in
/// the way, the rename, the staging, the epilogue, the node at its new path, and its record. What fails
/// once the node was renamed has it renamed back.
pub proof fn a_move_goes_on_unless_something_fails(state: PatchState, event: Event)
    requires
        state.valid(),
        answers(event, state.step()),
    ensures
        ({
            let next = state.after(event);
            &&& state.stage == PatchStage::Epilogue ==> state.step() == state.epilogue.step()
            &&& state.stage == PatchStage::Record ==> state.step() == state.record.step()
            &&& move_refused(state, event) is Some ==> next.refused == move_refused(state, event)
                && next.step() == Step::Finish
            &&& state.stage != PatchStage::NodePath && state.stage != PatchStage::ParentPath
                ==> next.refused == move_refused(state, event)
            &&& (event is NodeInfo && state.stage == PatchStage::NodeInfo && next.refused is None)
                ==> next.step() == Step::NodePath { node: state.node } && event
                == Event::NodeInfo(Ok(next.info->Some_0))
            &&& (event matches Event::NodePath(Ok(path)) && state.stage == PatchStage::NodePath)
                ==> {
                let info = state.info->Some_0;
                &&& next.source == event->NodePath_0->Ok_0@
                &&& match (state.parent_id, directory_asked(info, state.parent_id, state.ids)) {
                    (Some(raw), None) => node_named(raw, state.ids) matches Err(refused)
                        && next.refused == Some(refused),
                    (_, Some(directory)) => if directory == state.ids.root {
                        sets_out(state, info, next)
                    } else {
                        next.refused is None && next.step() == Step::NodeInfo { node: directory }
                    },
                    _ => false,
                }
            }
            &&& (event matches Event::NodeInfo(Ok(parent)) && state.stage == PatchStage::ParentInfo
                && next.refused is None) ==> next.step() == Step::NodePath { node: state.parent }
            &&& (event matches Event::NodePath(Ok(path)) && state.stage == PatchStage::ParentPath)
                ==> sets_out(state, state.info->Some_0, next)
            &&& (state.stage == PatchStage::Resolve && event == Event::Resolved(None))
                ==> next.step() == Step::Exists { path: relative(state.target) }
            &&& (state.stage == PatchStage::Exists && event == Event::Exists(false)) ==> next.step()
                == Step::Rename { from: relative(state.source), to: relative(state.target) }
            &&& (state.stage == PatchStage::Rename && event == Event::Done(Ok(()))) ==> next.moved
                && next.step() == Step::StageMove {
                from: relative(state.source),
                to: relative(state.target),
            }
            &&& (state.stage == PatchStage::StageMove) ==> match event {
                Event::Staged(Ok(_)) => next.stage == PatchStage::Epilogue && next.step() == (
                if state.versioned {
                    Step::Commit {
                        message: "lore-drive: move "@ + state.source + " -> "@ + state.target,
                    }
                } else {
                    Step::StagedRevision
                }) && next.epilogue.served == state.served,
                Event::Staged(Err(error)) => undoes(state, error@, next),
                _ => false,
            }
            &&& state.stage == PatchStage::Epilogue ==> match state.epilogue.after(event).stage {
                EpilogueStage::Finished => next.step() == Step::Resolve {
                    path: relative(state.target),
                } && next.stage == PatchStage::ResolveNew && next.epilogue
                    == state.epilogue.after(event),
                EpilogueStage::Failed => undoes(state, state.epilogue.after(event).failure, next),
                _ => next.stage == PatchStage::Epilogue && next.epilogue == state.epilogue.after(
                    event,
                ),
            }
            &&& (state.stage == PatchStage::ResolveNew && event matches Event::Resolved(Some(found)))
                ==> next.record == RecordState::start(event->Resolved_0->Some_0) && next.revision
                == state.epilogue.revision && next.stage == PatchStage::Record
            &&& state.stage == PatchStage::Record ==> next.record == state.record.after(event)
                && next.revision == state.revision && match next.record.stage {
                RecordStage::Finished => next.stage == PatchStage::Finished,
                RecordStage::Refused => next.stage == PatchStage::Refused,
                _ => next.stage == PatchStage::Record,
            }
        }),
{
}

/// The node is renamed back, and the failure is kept to be told.
pub open spec fn undoes(state: PatchState, failure: Seq<char>, next: PatchState) -> bool {
    &&& next.stage == PatchStage::Undo
    &&& next.failure == failure
    &&& next.step() == Step::Rename { from: relative(state.target), to: relative(state.source) }
}

} // verus!
