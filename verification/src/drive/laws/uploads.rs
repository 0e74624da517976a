//! What an upload does.

use vstd::prelude::*;

use super::super::action::{answers, Event, Step};
use super::super::api::{refusal, NodeKind, Refusal, Status};
use super::super::epilogue::EpilogueStage;
use super::super::path::{joined_all, relative, safe_segments};
use super::super::upload::{
    an_upload_is_placed_whole_or_removed, FileState, PartState, UploadStage, UploadState,
};
use crate::text::decimal_digits;
use crate::types::{Address, ContentHash};

verus! {

/// The virtual path of the directory that files are uploaded to: a slash for the root, and else what
/// `events` tell of it.
pub open spec fn folder_told(parent: u32, root: u32, events: Seq<Event>) -> Option<Seq<char>> {
    if parent == root {
        Some("/"@)
    } else if events.len() < 2 {
        None
    } else {
        match events[1] {
            Event::NodePath(Ok(path)) => Some(path@),
            _ => None,
        }
    }
}

/// Whether the last of `events` is that a part was kept: it was named, it was read, and it was kept.
pub open spec fn keeps_part(events: Seq<Event>) -> bool {
    &&& events.len() >= 3
    &&& events.last() matches Event::Done(Ok(_))
    &&& events[events.len() - 2] matches Event::PartRead(Ok(_))
    &&& events[events.len() - 3] matches Event::Part(Ok(Some(Some(_))))
}

/// The parts that `events` tell of: of each that was kept, the segments of its name and its size.
pub open spec fn parts_told(events: Seq<Event>) -> Seq<PartState>
    decreases events.len(),
{
    if events.len() == 0 {
        Seq::empty()
    } else if keeps_part(events) {
        let name = events[events.len() - 3]->Part_0->Ok_0->Some_0->Some_0;
        parts_told(events.drop_last()).push(
            PartState {
                segments: safe_segments(name@)->Some_0,
                size: events[events.len() - 2]->PartRead_0->Ok_0,
            },
        )
    } else {
        parts_told(events.drop_last())
    }
}

/// Where a part of an upload to a directory goes in the working directory.
pub open spec fn place_of(folder: Seq<char>, part: PartState) -> Seq<char> {
    relative(joined_all(folder, part.segments))
}

/// Where the first parts go.
pub open spec fn places_of(folder: Seq<char>, parts: Seq<PartState>, count: int) -> Seq<Seq<char>> {
    Seq::new(count as nat, |i: int| place_of(folder, parts[i]))
}

/// What a state keeps is what was asked and told.
spec fn remembers(
    state: UploadState,
    parent: u32,
    root: u32,
    overwrite: bool,
    versioned: bool,
    served: ContentHash,
    events: Seq<Event>,
) -> bool {
    &&& state.parent == parent && state.overwrite == overwrite && state.versioned == versioned
        && state.served == served
    &&& state.parts == parts_told(events)
    &&& match state.stage {
        UploadStage::ParentInfo => events.len() == 0 && parent != root,
        UploadStage::ParentPath => events.len() == 1 && parent != root,
        UploadStage::Refused => true,
        _ => folder_told(parent, root, events) == Some(state.parent_path) && (parent != root
            ==> events.len() >= 2),
    }
    &&& state.stage == UploadStage::ReadPart ==> events.len() > 0 && (
    events.last() matches Event::Part(Ok(Some(Some(name)))) && safe_segments(name@) == Some(
        state.segments,
    ))
    &&& state.stage == UploadStage::KeepPart ==> events.len() > 1 && (
    events.last() matches Event::PartRead(Ok(size)) && size == state.size) && (
    events[events.len() - 2] matches Event::Part(Ok(Some(Some(name)))) && safe_segments(name@)
        == Some(state.segments))
    &&& state.stage != UploadStage::KeepPart ==> events.len() == 0 || events.last() !is PartRead
        || state.stage == UploadStage::Refused
}

#[verifier::rlimit(50)]
proof fn lemma_remembers(
    state: UploadState,
    parent: u32,
    root: u32,
    overwrite: bool,
    versioned: bool,
    served: ContentHash,
    events: Seq<Event>,
    event: Event,
)
    requires
        state.valid(),
        remembers(state, parent, root, overwrite, versioned, served, events),
        answers(event, state.step()),
    ensures
        remembers(
            state.after(event),
            parent,
            root,
            overwrite,
            versioned,
            served,
            events.push(event),
        ),
{
    let all = events.push(event);
    assert(all.drop_last() =~= events);
    assert(forall|i: int| 0 <= i < events.len() ==> all[i] == events[i]);
    assert(all[events.len() as int] == event);
    if state.stage == UploadStage::KeepPart {
        assert(all[all.len() - 2] == events.last());
        assert(all[all.len() - 3] == events[events.len() - 2]);
        assert(event is Done);
        assert(keeps_part(all) <==> event matches Event::Done(Ok(_)));
    } else if events.len() > 0 {
        assert(all[all.len() - 2] == events.last());
    }
    assert(keeps_part(all) ==> state.stage == UploadStage::KeepPart);
}

proof fn lemma_remembers_all(
    parent: u32,
    root: u32,
    overwrite: bool,
    versioned: bool,
    served: ContentHash,
    unknown: Address,
    events: Seq<Event>,
)
    ensures
        UploadState::start(parent, root, overwrite, versioned, served, unknown).after_all(
            events,
        ) matches Some(state) ==> state.valid() && remembers(
            state,
            parent,
            root,
            overwrite,
            versioned,
            served,
            events,
        ),
    decreases events.len(),
{
    an_upload_is_placed_whole_or_removed(
        parent,
        root,
        overwrite,
        versioned,
        served,
        unknown,
        events,
    );
    if events.len() > 0 {
        let start = UploadState::start(parent, root, overwrite, versioned, served, unknown);
        lemma_remembers_all(
            parent,
            root,
            overwrite,
            versioned,
            served,
            unknown,
            events.drop_last(),
        );
        if let Some(state) = start.after_all(events.drop_last()) {
            if answers(events.last(), state.step()) {
                lemma_remembers(
                    state,
                    parent,
                    root,
                    overwrite,
                    versioned,
                    served,
                    events.drop_last(),
                    events.last(),
                );
                assert(events.drop_last().push(events.last()) =~= events);
            }
        }
    }
}

/// Every part goes below the directory that was asked for: below the path that was told of it, or at the
/// root. Whatever is looked for, placed, staged, removed again, stored and reported for a part is so
/// under that path joined with the segments of the name that the part came with.
pub proof fn parts_go_below_their_directory(
    parent: u32,
    root: u32,
    overwrite: bool,
    versioned: bool,
    served: ContentHash,
    unknown: Address,
    events: Seq<Event>,
)
    ensures
        UploadState::start(parent, root, overwrite, versioned, served, unknown).after_all(
            events,
        ) matches Some(state) ==> {
            let folder = folder_told(parent, root, events);
            let parts = parts_told(events);
            &&& state.parts == parts
            &&& match state.step() {
                Step::Resolve { path } => folder matches Some(folder) && 0 <= state.next
                    < parts.len() && path == place_of(folder, parts[state.next]),
                Step::CreateParents { path } => folder matches Some(folder) && 0 <= state.next
                    < parts.len() && path == place_of(folder, parts[state.next]),
                Step::Place { part, path } => folder matches Some(folder) && 0 <= part
                    < parts.len() && part == state.placed && path == place_of(folder, parts[part]),
                Step::Stage { paths } => folder matches Some(folder) && parts.len() > 0 && paths
                    == places_of(folder, parts, parts.len() as int),
                Step::RemoveFiles { paths } => folder matches Some(folder) && paths == places_of(
                    folder,
                    parts,
                    state.placed,
                ),
                Step::PutFile { context, path } => folder matches Some(folder) && 0 <= state.next
                    < parts.len() && path == place_of(folder, parts[state.next]) && context
                    == state.address.context,
                Step::KeepPart { part } => part == parts.len(),
                Step::NodePath { node } => node == parent,
                Step::NodeInfo { node } => events.len() == 0 ==> node == parent,
                _ => true,
            }
            &&& state.stage == UploadStage::Finished ==> {
                &&& state.files.len() == parts.len()
                &&& forall|i: int|
                    0 <= i < parts.len() ==> (#[trigger] state.files[i]).path == "/"@ + place_of(
                        folder->Some_0,
                        parts[i],
                    ) && state.files[i].size == parts[i].size && (parts[i].segments.len() > 0
                        ==> state.files[i].name == parts[i].segments.last())
            }
        },
{
    lemma_remembers_all(parent, root, overwrite, versioned, served, unknown, events);
    let start = UploadState::start(parent, root, overwrite, versioned, served, unknown);
    if let Some(state) = start.after_all(events) {
        let parts = parts_told(events);
        if let Some(folder) = folder_told(parent, root, events) {
            assert(state.parent_path == folder ==> state.rels(state.placed) =~= places_of(
                folder,
                parts,
                state.placed,
            ));
            assert(state.parent_path == folder ==> state.rels(parts.len() as int) =~= places_of(
                folder,
                parts,
                parts.len() as int,
            ));
        }
        assert forall|i: int|
            0 <= i < state.files.len() && state.stage == UploadStage::Finished implies (
        #[trigger] state.files[i]).path == "/"@ + place_of(
            folder_told(parent, root, events)->Some_0,
            parts[i],
        ) && state.files[i].size == parts[i].size && (parts[i].segments.len() > 0
            ==> state.files[i].name == parts[i].segments.last()) by {
            assert(state.reports(i));
        }
    }
}

/// The virtual path of the part at hand.
pub open spec fn path_at_hand(state: UploadState) -> Seq<char> {
    joined_all(state.parent_path, state.parts[state.next].segments)
}

/// What an upload is refused with once `event` comes of its step, if it is.
pub open spec fn upload_refused(state: UploadState, event: Event) -> Option<Refusal> {
    match (state.stage, event) {
        (UploadStage::ParentInfo, Event::NodeInfo(Err(error))) => Some(error@),
        (UploadStage::ParentInfo, Event::NodeInfo(Ok(info))) => if info.kind
            == NodeKind::Directory {
            None
        } else {
            Some(refusal(Status::BadRequest, "node is not a directory"@))
        },
        (UploadStage::ParentPath, Event::NodePath(Err(error))) => Some(error@),
        (UploadStage::CreateScratch, Event::Done(Err(error))) => Some(
            refusal(Status::InternalServerError, "tempdir: "@ + error@),
        ),
        (UploadStage::NextPart, Event::Part(Err(error))) => Some(
            refusal(Status::BadRequest, "malformed multipart: "@ + error@),
        ),
        (UploadStage::NextPart, Event::Part(Ok(Some(Some(name))))) => if safe_segments(
            name@,
        ) is None {
            Some(refusal(Status::BadRequest, "illegal path: "@ + name@))
        } else {
            None
        },
        (UploadStage::NextPart, Event::Part(Ok(None))) => if state.parts.len() == 0 {
            Some(refusal(Status::BadRequest, "no file parts in request"@))
        } else {
            None
        },
        (UploadStage::ReadPart, Event::PartRead(Err(error))) => Some(
            refusal(Status::BadRequest, "read part: "@ + error@),
        ),
        (UploadStage::KeepPart, Event::Done(Err(error))) => Some(
            refusal(Status::InternalServerError, error@),
        ),
        (UploadStage::Existing, Event::NodeInfo(Ok(info))) => if state.overwrite && info.kind
            != NodeKind::File {
            Some(refusal(Status::BadRequest, path_at_hand(state) + " exists and is not a file"@))
        } else if is_last(state) && in_the_way(state, event).len() > 0 {
            Some(taken(in_the_way(state, event)))
        } else {
            None
        },
        (UploadStage::Existing, Event::NodeInfo(Err(_)))
        | (UploadStage::Resolve, Event::Resolved(None)) => if is_last(state)
            && state.conflicts.len() > 0 {
            Some(taken(state.conflicts))
        } else {
            None
        },
        (UploadStage::Rollback, _) => Some(refusal(Status::InternalServerError, state.failure)),
        _ => None,
    }
}

/// Whether the part at hand is the last.
pub open spec fn is_last(state: UploadState) -> bool {
    state.next == state.parts.len() - 1
}

/// The paths that are in the way once `event` came: one that exists is, unless it may be replaced.
pub open spec fn in_the_way(state: UploadState, event: Event) -> Seq<Seq<char>> {
    if state.stage == UploadStage::Existing && (event matches Event::NodeInfo(Ok(_)))
        && !state.overwrite {
        state.conflicts.push(path_at_hand(state))
    } else {
        state.conflicts
    }
}

/// What is said of paths that are taken.
pub open spec fn taken(paths: Seq<Seq<char>>) -> Refusal {
    Refusal {
        status: Status::Conflict,
        error: decimal_digits(paths.len()) + " path(s) already exist"@,
        conflicts: Some(paths),
    }
}

/// What is said of the part at hand, with the node that was found and an address.
pub open spec fn file_at_hand(
    state: UploadState,
    node: Option<u64>,
    address: Option<Seq<char>>,
) -> FileState {
    let part = state.parts[state.next];
    FileState {
        name: if part.segments.len() > 0 {
            part.segments.last()
        } else {
            Seq::empty()
        },
        path: "/"@ + place_of(state.parent_path, part),
        node_id: node,
        size: part.size,
        address,
    }
}

/// The part at hand is reported, and the next is looked up, if there is one.
pub open spec fn reports(state: UploadState, next: UploadState, file: FileState) -> bool {
    &&& next.files == state.files.push(file)
    &&& next.refused is None
    &&& if is_last(state) {
        next.stage == UploadStage::Finished
    } else {
        next.next == state.next + 1 && next.stage == UploadStage::ResolveNew
    }
}

/// The files that were placed are removed, and the failure is kept to be told.
pub open spec fn removes(state: UploadState, failure: Seq<char>, next: UploadState) -> bool {
    next.stage == UploadStage::Rollback && next.failure == failure && next.placed == state.placed
        && next.refused is None
}

/// The part at hand was looked for: the next is, or the first is placed.
pub open spec fn looks_on(state: UploadState, next: UploadState) -> bool {
    if is_last(state) {
        next.stage == UploadStage::CreateParents && next.next == 0 && next.placed == 0
    } else {
        next.stage == UploadStage::Resolve && next.next == state.next + 1
    }
}

/// An upload is refused exactly where something it needs fails or something is in the way, and says
/// what. Anything else takes it on: the directory, the scratch, each part that has a file name, what is
/// at the path of each part, each part put in place, all of them staged, the epilogue, and what is said
/// of each file. What fails once parts were placed has those removed.
pub proof fn an_upload_goes_on_unless_something_fails(state: UploadState, event: Event)
    requires
        state.valid(),
        answers(event, state.step()),
    ensures
        ({
            let next = state.after(event);
            &&& state.stage == UploadStage::Epilogue ==> state.step() == state.epilogue.step()
            &&& next.refused == upload_refused(state, event)
            &&& next.parent == state.parent && next.overwrite == state.overwrite && next.versioned
                == state.versioned && next.served == state.served
            &&& state.stage != UploadStage::ParentPath ==> next.parent_path == state.parent_path
            &&& state.stage != UploadStage::KeepPart ==> next.parts == state.parts
            &&& state.stage != UploadStage::Stage && state.stage != UploadStage::Epilogue
                ==> next.epilogue == state.epilogue
            &&& next.stage == UploadStage::NewInfo || next.stage == UploadStage::PutFile
                || next.stage == UploadStage::Remember ==> next.files == state.files
            &&& next.refused is None ==> match (state.stage, event) {
                (UploadStage::ParentInfo, _) => next.step() == Step::NodePath {
                    node: state.parent,
                },
                (UploadStage::ParentPath, Event::NodePath(Ok(path))) => next.parent_path == path@
                    && next.step() == Step::CreateScratch,
                (UploadStage::CreateScratch, _) => next.step() == Step::NextPart,
                (UploadStage::NextPart, Event::Part(Ok(Some(Some(name))))) => next.step()
                    == Step::ReadPart && safe_segments(name@) == Some(next.segments),
                (UploadStage::NextPart, Event::Part(Ok(Some(None)))) => next == state,
                (UploadStage::NextPart, Event::Part(Ok(None))) => next.stage == UploadStage::Resolve
                    && next.next == 0,
                (UploadStage::ReadPart, Event::PartRead(Ok(size))) => next.size == size
                    && next.segments == state.segments && next.stage == UploadStage::KeepPart,
                (UploadStage::KeepPart, _) => next.step() == Step::NextPart && next.parts
                    == state.parts.push(PartState { segments: state.segments, size: state.size }),
                (UploadStage::Resolve, Event::Resolved(Some(node))) => next.step()
                    == Step::NodeInfo { node } && next.stage == UploadStage::Existing && next.next
                    == state.next && next.conflicts == state.conflicts,
                (UploadStage::Resolve, _) | (UploadStage::Existing, _) => next.conflicts
                    == in_the_way(state, event) && looks_on(state, next),
                (UploadStage::CreateParents, Event::Done(Ok(()))) => next.stage
                    == UploadStage::Place && next.next == state.next && next.placed == state.placed,
                (UploadStage::CreateParents, Event::Done(Err(error))) => removes(
                    state,
                    error@,
                    next,
                ),
                (UploadStage::Place, Event::Done(Ok(()))) => next.placed == state.placed + 1 && (
                if is_last(state) {
                    next.stage == UploadStage::Stage
                } else {
                    next.stage == UploadStage::CreateParents && next.next == state.next + 1
                }),
                (UploadStage::Place, Event::Done(Err(error))) => removes(state, error@, next),
                (UploadStage::Stage, Event::Staged(Ok(_))) => next.stage == UploadStage::Epilogue
                    && next.epilogue.served == state.served && next.step() == (
                if state.versioned {
                    Step::Commit {
                        message: "lore-drive: upload "@ + decimal_digits(state.parts.len())
                            + " file(s) to "@ + state.parent_path,
                    }
                } else {
                    Step::StagedRevision
                }),
                (UploadStage::Stage, Event::Staged(Err(error))) => removes(state, error@, next),
                (UploadStage::Epilogue, _) => match state.epilogue.after(event).stage {
                    EpilogueStage::Finished => next.stage == UploadStage::ResolveNew && next.next
                        == 0 && next.epilogue == state.epilogue.after(event),
                    EpilogueStage::Failed => removes(
                        state,
                        state.epilogue.after(event).failure,
                        next,
                    ),
                    _ => next.stage == UploadStage::Epilogue && next.epilogue
                        == state.epilogue.after(event),
                },
                (UploadStage::ResolveNew, Event::Resolved(Some(node))) => next.step()
                    == Step::NodeInfo { node } && next.stage == UploadStage::NewInfo && next.node
                    == node && next.next == state.next,
                (UploadStage::ResolveNew, _) => reports(
                    state,
                    next,
                    file_at_hand(state, None, None),
                ),
                (UploadStage::NewInfo, Event::NodeInfo(Ok(info))) => if !state.versioned
                    && info.kind == NodeKind::File {
                    next.step() == Step::PutFile {
                        context: info.address.context,
                        path: place_of(state.parent_path, state.parts[state.next]),
                    } && next.shown == Some(info.address.text()) && next.node == state.node
                        && next.next == state.next
                } else {
                    reports(
                        state,
                        next,
                        file_at_hand(
                            state,
                            Some(state.node as u64),
                            if info.kind == NodeKind::Directory {
                                None
                            } else {
                                Some(info.address.text())
                            },
                        ),
                    )
                },
                (UploadStage::NewInfo, _) => reports(
                    state,
                    next,
                    file_at_hand(state, Some(state.node as u64), None),
                ),
                (UploadStage::PutFile, Event::Stored(Ok(address))) => next.step()
                    == Step::Remember { node: state.node, address } && next.next == state.next,
                (UploadStage::PutFile, _) => reports(
                    state,
                    next,
                    file_at_hand(state, Some(state.node as u64), state.shown),
                ),
                (UploadStage::Remember, _) => reports(
                    state,
                    next,
                    file_at_hand(state, Some(state.node as u64), Some(state.address.text())),
                ),
                _ => false,
            }
        }),
{
}

} // verus!
