//! What a download does.

use vstd::prelude::*;
use vstd::utf8::encode_utf8;

use super::super::action::{answers, Event, Step};
use super::super::api::{refusal, ChildInfo, NodeKind, Refusal, Status};
use super::super::download::{
    a_folder_is_downloaded_whole, entry_path, DownloadStage, DownloadState, Visit,
};
use super::super::effective::{EffectiveStage, EffectiveState};
use super::super::archive::directory_name;
use super::super::path::{joined, relative};
use super::super::read::{ReadStage, ReadState};
use crate::types::RepositoryId;

verus! {

/// How many steps come before the path of the node is asked for: its record, unless it is the root, and
/// the scratch.
pub open spec fn steps_before_path(node: u32, root: u32) -> int {
    if node == root {
        1
    } else {
        2
    }
}

/// The virtual path of the node that `events` tell of.
pub open spec fn path_told(node: u32, root: u32, events: Seq<Event>) -> Option<Seq<char>> {
    let at = steps_before_path(node, root);
    if events.len() <= at {
        None
    } else {
        match events[at] {
            Event::NodePath(Ok(path)) => Some(path@),
            _ => None,
        }
    }
}

/// The listings that `events` tell of, in order: the repository that each folder belongs to, and what is
/// in it.
pub open spec fn listings_told(events: Seq<Event>) -> Seq<(RepositoryId, Seq<ChildInfo>)>
    decreases events.len(),
{
    if events.len() == 0 {
        Seq::empty()
    } else {
        match events.last() {
            Event::Children(Ok(listed)) => listings_told(events.drop_last()).push(
                (listed.0, listed.2@),
            ),
            _ => listings_told(events.drop_last()),
        }
    }
}

/// The paths of those of the first `count` children of a folder that are of a kind, in order.
pub open spec fn paths_in(
    prefix: Seq<char>,
    children: Seq<ChildInfo>,
    count: int,
    kind: NodeKind,
) -> Seq<Seq<char>>
    decreases count,
{
    if count <= 0 {
        Seq::empty()
    } else if children[count - 1].kind == kind {
        paths_in(prefix, children, count - 1, kind).push(
            if prefix.len() == 0 {
                children[count - 1].name@
            } else {
                prefix + "/"@ + children[count - 1].name@
            },
        )
    } else {
        paths_in(prefix, children, count - 1, kind)
    }
}

/// The paths of what is of a kind in all folders that were listed, in the order of the listings; of the
/// last, among its first `count` children.
pub open spec fn paths_listed(visits: Seq<Visit>, count: int, kind: NodeKind) -> Seq<Seq<char>>
    decreases visits.len(),
{
    if visits.len() == 0 {
        Seq::empty()
    } else {
        let before = visits.drop_last();
        paths_listed(
            before,
            if before.len() == 0 {
                0
            } else {
                before.last().children.len() as int
            },
            kind,
        ) + paths_in(visits.last().prefix, visits.last().children, count, kind)
    }
}

/// What a walk through a folder leaves as it is.
spec fn stays(state: DownloadState, next: DownloadState) -> bool {
    &&& next.node == state.node && next.repository == state.repository && next.kind == state.kind
    &&& next.name == state.name && next.size == state.size && next.address == state.address
    &&& next.path == state.path && next.lookup == state.lookup && next.refused == state.refused
    &&& next.prefix == state.prefix && next.owner == state.owner && next.children == state.children
    &&& next.files == state.files && next.visits == state.visits
}

/// The file at hand is read from where the record of the child and the listing say.
spec fn reads_at_hand(state: DownloadState) -> bool {
    let child = state.children[state.next];
    &&& state.read.repository == state.owner
    &&& state.read.address == child.address
    &&& state.read.path == joined(state.path, entry_path(state.prefix, child.name@))
}

/// A walk ends at the next file, or at the next folder to list, or at the end; what it passes is noted.
proof fn lemma_walk_ends(state: DownloadState)
    requires
        0 <= state.next <= state.children.len(),
    ensures
        ({
            let next = state.walk();
            &&& stays(state, next)
            &&& state.next <= next.next <= state.children.len()
            &&& match next.stage {
                DownloadStage::Entry => next.next < state.children.len()
                    && next.children[next.next].kind == NodeKind::File && reads_at_hand(next)
                    && next.read == ReadState::start(
                    next.owner,
                    next.children[next.next].address,
                    next.read.path,
                ),
                DownloadStage::Children => next.next == state.children.len() && next.stack.len()
                    > 0 && next.read == state.read,
                DownloadStage::FolderReady => next.next == state.children.len() && next.stack.len()
                    == 0 && next.read == state.read,
                _ => false,
            }
            &&& paths_in(state.prefix, state.children, next.next, NodeKind::File) == paths_in(
                state.prefix,
                state.children,
                state.next,
                NodeKind::File,
            )
            &&& forall|front: Seq<Seq<char>>| #[trigger]
                (front + paths_in(
                    state.prefix,
                    state.children,
                    state.next,
                    NodeKind::Directory,
                )) == state.dirs ==> next.dirs == front + paths_in(
                    state.prefix,
                    state.children,
                    next.next,
                    NodeKind::Directory,
                )
        }),
    decreases state.children.len() - state.next,
{
    if state.next < state.children.len() {
        let child = state.children[state.next];
        let path = entry_path(state.prefix, child.name@);
        if child.kind == NodeKind::Directory {
            let other = DownloadState {
                dirs: state.dirs.push(path),
                stack: state.stack.push((child.node_id, path)),
                next: state.next + 1,
                ..state
            };
            lemma_walk_ends(other);
            assert(paths_in(state.prefix, state.children, state.next + 1, NodeKind::File)
                == paths_in(state.prefix, state.children, state.next, NodeKind::File));
            assert forall|front: Seq<Seq<char>>| #[trigger]
                (front + paths_in(
                    state.prefix,
                    state.children,
                    state.next,
                    NodeKind::Directory,
                )) == state.dirs implies state.walk().dirs == front + paths_in(
                state.prefix,
                state.children,
                state.walk().next,
                NodeKind::Directory,
            ) by {
                assert(front + paths_in(
                    other.prefix,
                    other.children,
                    other.next,
                    NodeKind::Directory,
                ) =~= other.dirs);
            }
        } else if child.kind != NodeKind::File {
            lemma_walk_ends(DownloadState { next: state.next + 1, ..state });
            assert(paths_in(state.prefix, state.children, state.next + 1, NodeKind::Directory)
                == paths_in(state.prefix, state.children, state.next, NodeKind::Directory));
            assert(paths_in(state.prefix, state.children, state.next + 1, NodeKind::File)
                == paths_in(state.prefix, state.children, state.next, NodeKind::File));
        }
    }
}

/// What a state keeps is what was asked and told.
spec fn remembers(
    state: DownloadState,
    node: u32,
    root: u32,
    repository: RepositoryId,
    events: Seq<Event>,
) -> bool {
    let at = steps_before_path(node, root);
    let listings = listings_told(events);
    &&& state.node == node && state.repository == repository
    &&& match state.stage {
        DownloadStage::NodeInfo => events.len() == 0 && node != root,
        DownloadStage::CreateScratch => events.len() == at - 1,
        DownloadStage::NodePath => events.len() == at,
        DownloadStage::Refused => true,
        _ => events.len() > at && path_told(node, root, events) == Some(state.path),
    }
    &&& state.stage != DownloadStage::NodeInfo && state.stage != DownloadStage::Refused ==> if node
        == root {
        state.kind == NodeKind::Directory && state.name == "root"@
    } else {
        &&& events.len() > 0
        &&& events[0] matches Event::NodeInfo(Ok(info)) && state.kind == info.kind && state.name
            == info.name@ && state.size == info.size && state.address == info.address && info.kind
            != NodeKind::Link
    }
    &&& state.visits.len() == listings.len()
    &&& forall|v: int|
        0 <= v < listings.len() ==> (#[trigger] state.visits[v]).children == listings[v].1
    &&& listings.len() > 0 ==> state.owner == listings.last().0
    &&& state.stage != DownloadStage::Refused ==> {
        &&& state.dirs == paths_listed(state.visits, state.next, NodeKind::Directory)
        &&& state.files.map_values(|file: (Seq<char>, Seq<u8>)| file.0) == paths_listed(
            state.visits,
            state.next,
            NodeKind::File,
        )
    }
    &&& match state.stage {
        DownloadStage::Entry => state.kind != NodeKind::File && reads_at_hand(state),
        DownloadStage::Content | DownloadStage::FileReady => state.kind == NodeKind::File
            && state.read.repository == repository && state.read.path == state.path
            && state.read.address == (match state.lookup.answer {
            Some(address) => address,
            None => state.address,
        }) && state.lookup.stage == EffectiveStage::Finished,
        DownloadStage::Address => state.kind == NodeKind::File,
        DownloadStage::Children | DownloadStage::FolderReady => state.kind != NodeKind::File,
        _ => true,
    }
}

proof fn lemma_same_names(files: Seq<(Seq<char>, Seq<u8>)>, file: (Seq<char>, Seq<u8>))
    ensures
        files.push(file).map_values(|file: (Seq<char>, Seq<u8>)| file.0) == files.map_values(
            |file: (Seq<char>, Seq<u8>)| file.0,
        ).push(file.0),
{
    assert(files.push(file).map_values(|file: (Seq<char>, Seq<u8>)| file.0) =~= files.map_values(
        |file: (Seq<char>, Seq<u8>)| file.0,
    ).push(file.0));
}

#[verifier::rlimit(60)]
#[verifier::spinoff_prover]
proof fn lemma_listed(
    state: DownloadState,
    node: u32,
    root: u32,
    repository: RepositoryId,
    events: Seq<Event>,
    event: Event,
)
    requires
        state.sound(),
        remembers(state, node, root, repository, events),
        state.stage == DownloadStage::Children,
        event matches Event::Children(Ok(_)),
    ensures
        remembers(state.after(event), node, root, repository, events.push(event)),
{
    let all = events.push(event);
    assert(all.drop_last() =~= events);
    assert(forall|i: int| 0 <= i < events.len() ==> all[i] == events[i]);
    let listed = event->Children_0->Ok_0;
    let visits = state.visits.push(
        Visit {
            node: state.stack.last().0,
            prefix: state.stack.last().1,
            children: listed.2@,
        },
    );
    let other = DownloadState {
        stack: state.stack.drop_last(),
        prefix: state.stack.last().1,
        owner: listed.0,
        children: listed.2@,
        next: 0,
        visits,
        ..state
    };
    lemma_walk_ends(other);
    let next = other.walk();
    assert(visits.drop_last() =~= state.visits);
    assert(state.visits.len() == 0 ==> paths_listed(state.visits, 0, NodeKind::Directory)
        == paths_listed(state.visits, state.next, NodeKind::Directory) && paths_listed(
        state.visits,
        0,
        NodeKind::File,
    ) == paths_listed(state.visits, state.next, NodeKind::File));
    assert(state.dirs + paths_in(other.prefix, other.children, 0, NodeKind::Directory)
        =~= state.dirs);
    let names = state.files.map_values(|file: (Seq<char>, Seq<u8>)| file.0);
    assert(names + paths_in(other.prefix, other.children, 0, NodeKind::File) =~= names);
    assert(listings_told(all) == listings_told(events).push((listed.0, listed.2@)));
}

#[verifier::rlimit(60)]
#[verifier::spinoff_prover]
proof fn lemma_entry_read(
    state: DownloadState,
    node: u32,
    root: u32,
    repository: RepositoryId,
    events: Seq<Event>,
    event: Event,
)
    requires
        state.sound(),
        remembers(state, node, root, repository, events),
        state.stage == DownloadStage::Entry,
        answers(event, state.step()),
    ensures
        remembers(state.after(event), node, root, repository, events.push(event)),
{
    let all = events.push(event);
    assert(all.drop_last() =~= events);
    assert(forall|i: int| 0 <= i < events.len() ==> all[i] == events[i]);
    assert(listings_told(all) == listings_told(events));
    let read = state.read.after(event);
    if read.stage == ReadStage::Finished {
        let file = (entry_path(state.prefix, state.children[state.next].name@), read.bytes);
        let other = DownloadState {
            read,
            files: state.files.push(file),
            next: state.next + 1,
            ..state
        };
        lemma_walk_ends(other);
        lemma_same_names(state.files, file);
        let visits = state.visits;
        let before = visits.drop_last();
        let front = paths_listed(
            before,
            if before.len() == 0 {
                0
            } else {
                before.last().children.len() as int
            },
            NodeKind::Directory,
        );
        assert(front + paths_in(state.prefix, state.children, state.next, NodeKind::Directory)
            == state.dirs);
        assert(front + paths_in(other.prefix, other.children, other.next, NodeKind::Directory)
            == other.dirs);
        let names = paths_listed(
            before,
            if before.len() == 0 {
                0
            } else {
                before.last().children.len() as int
            },
            NodeKind::File,
        );
        assert(names + paths_in(other.prefix, other.children, other.next, NodeKind::File) =~= (names
            + paths_in(state.prefix, state.children, state.next, NodeKind::File)).push(file.0));
    }
}

#[verifier::rlimit(60)]
#[verifier::spinoff_prover]
proof fn lemma_remembers(
    state: DownloadState,
    node: u32,
    root: u32,
    repository: RepositoryId,
    events: Seq<Event>,
    event: Event,
)
    requires
        state.sound(),
        remembers(state, node, root, repository, events),
        answers(event, state.step()),
    ensures
        remembers(state.after(event), node, root, repository, events.push(event)),
{
    if state.stage == DownloadStage::Entry {
        lemma_entry_read(state, node, root, repository, events, event);
    } else if state.stage == DownloadStage::Children && (event matches Event::Children(Ok(_))) {
        lemma_listed(state, node, root, repository, events, event);
    } else {
        let all = events.push(event);
        assert(all.drop_last() =~= events);
        assert(forall|i: int| 0 <= i < events.len() ==> all[i] == events[i]);
        assert(all[events.len() as int] == event);
        assert(listings_told(all) == listings_told(events));
    }
}

proof fn lemma_remembers_all(
    start: DownloadState,
    node: u32,
    root: u32,
    repository: RepositoryId,
    events: Seq<Event>,
)
    requires
        start.starts(node, root, repository),
    ensures
        start.after_all(events) matches Some(state) ==> state.sound() && remembers(
            state,
            node,
            root,
            repository,
            events,
        ),
    decreases events.len(),
{
    a_folder_is_downloaded_whole(start, node, root, repository, events);
    if events.len() > 0 {
        lemma_remembers_all(start, node, root, repository, events.drop_last());
        a_folder_is_downloaded_whole(start, node, root, repository, events.drop_last());
        if let Some(state) = start.after_all(events.drop_last()) {
            if answers(events.last(), state.step()) {
                lemma_remembers(state, node, root, repository, events.drop_last(), events.last());
                assert(events.drop_last().push(events.last()) =~= events);
            }
        }
    } else {
        assert(start.files.map_values(|file: (Seq<char>, Seq<u8>)| file.0) =~= Seq::empty());
        assert(start.dirs =~= Seq::empty());
    }
}

/// Every file of a folder that is downloaded is read from where it is: from the repository that the
/// listing of its folder names, at the address that its record there has, and from the working directory
/// at the path of the downloaded folder joined with the path of the file below it. A file that is
/// downloaded by itself is read from the repository of the workspace, at the address that was looked up,
/// and at its own path. What a folder is made up of is what the listings tell, in their order.
pub proof fn every_file_is_read_from_where_it_is(
    start: DownloadState,
    node: u32,
    root: u32,
    repository: RepositoryId,
    events: Seq<Event>,
)
    requires
        start.starts(node, root, repository),
    ensures
        start.after_all(events) matches Some(state) ==> {
            let listings = listings_told(events);
            &&& state.stage == DownloadStage::Entry ==> {
                let (owner, children) = listings.last();
                let child = children[state.next];
                let below = if state.prefix.len() == 0 {
                    child.name@
                } else {
                    state.prefix + "/"@ + child.name@
                };
                &&& listings.len() > 0 && 0 <= state.next < children.len()
                &&& child.kind == NodeKind::File
                &&& path_told(node, root, events) matches Some(path) && match state.step() {
                    Step::Fetch { repository: owned, address } => owned == owner && address
                        == child.address,
                    Step::ReadFile { path: read } => read == relative(joined(path, below)),
                    Step::ReadFetched => true,
                    _ => false,
                }
                &&& state.read.address == child.address
            }
            &&& state.stage == DownloadStage::Content ==> match state.step() {
                Step::Fetch { repository: owned, address } => owned == repository && address == (
                match state.lookup.answer {
                    Some(address) => address,
                    None => state.address,
                }),
                Step::ReadFile { path: read } => path_told(node, root, events) matches Some(path)
                    && read == relative(path),
                Step::ReadFetched => true,
                _ => false,
            }
            &&& state.stage == DownloadStage::FolderReady ==> {
                &&& state.visits.len() == listings.len() && listings.len() > 0
                &&& forall|v: int|
                    0 <= v < listings.len() ==> (#[trigger] state.visits[v]).children
                        == listings[v].1
                &&& state.dirs == paths_listed(
                    state.visits,
                    listings.last().1.len() as int,
                    NodeKind::Directory,
                )
                &&& state.files.map_values(|file: (Seq<char>, Seq<u8>)| file.0) == paths_listed(
                    state.visits,
                    listings.last().1.len() as int,
                    NodeKind::File,
                )
            }
            &&& (state.stage == DownloadStage::FileReady || state.stage
                == DownloadStage::FolderReady) ==> state.name == (if node == root {
                "root"@
            } else {
                events[0]->NodeInfo_0->Ok_0.name@
            })
        },
{
    lemma_remembers_all(start, node, root, repository, events);
}

/// What a download is refused with once `event` comes of its step, if it is.
pub open spec fn download_refused(state: DownloadState, event: Event) -> Option<Refusal> {
    match (state.stage, event) {
        (DownloadStage::NodeInfo, Event::NodeInfo(Err(error))) => Some(error@),
        (DownloadStage::NodeInfo, Event::NodeInfo(Ok(info))) => if info.kind == NodeKind::Link {
            Some(refusal(Status::BadRequest, "link download is not supported"@))
        } else {
            None
        },
        (DownloadStage::CreateScratch, Event::Done(Err(error))) => Some(
            refusal(Status::InternalServerError, "tempdir: "@ + error@),
        ),
        (DownloadStage::NodePath, Event::NodePath(Err(error))) => Some(error@),
        (DownloadStage::Children, Event::Children(Err(error))) => Some(error@),
        (DownloadStage::Content, _) | (DownloadStage::Entry, _) => if state.read.after(event).stage
            == ReadStage::Failed {
            Some(refusal(Status::InternalServerError, state.read.after(event).failure))
        } else {
            None
        },
        _ => None,
    }
}

/// A download is refused exactly where something it needs fails, or for a link, and says what. Anything
/// else takes it on: the record, the scratch, the path, and then the address and the content of a file,
/// or the listing of each folder and the content of each file in it. What is read of a file is what its
/// entry holds.
pub proof fn a_download_goes_on_unless_something_fails(state: DownloadState, event: Event)
    requires
        state.sound(),
        answers(event, state.step()),
    ensures
        ({
            let next = state.after(event);
            &&& state.stage == DownloadStage::Address ==> state.step() == state.lookup.step()
            &&& state.stage == DownloadStage::Content || state.stage == DownloadStage::Entry
                ==> state.step() == state.read.step()
            &&& next.refused == download_refused(state, event)
            &&& next.refused is None ==> match (state.stage, event) {
                (DownloadStage::NodeInfo, Event::NodeInfo(Ok(info))) => next.step()
                    == Step::CreateScratch && next.kind == info.kind && next.name == info.name@
                    && next.size == info.size && next.address == info.address,
                (DownloadStage::CreateScratch, _) => next.step() == Step::NodePath {
                    node: state.node,
                },
                (DownloadStage::NodePath, Event::NodePath(Ok(path))) => next.path == path@ && (
                if state.kind == NodeKind::File {
                    next.lookup == EffectiveState::start(
                        state.node,
                        state.kind,
                        state.size,
                        state.address,
                    ) && (next.stage == DownloadStage::Address || next.stage
                        == DownloadStage::Content)
                } else {
                    next.step() == Step::Children { node: state.node } && next.stack == seq![
                        (state.node, Seq::<char>::empty()),
                    ]
                }),
                (DownloadStage::Address, _) => next.lookup == state.lookup.after(event) && (
                next.stage == DownloadStage::Content <==> next.lookup.stage
                    == EffectiveStage::Finished) && (next.stage == DownloadStage::Content
                    || next.stage == DownloadStage::Address),
                (DownloadStage::Content, _) => next.read == state.read.after(event) && (if next.read.stage
                    == ReadStage::Finished {
                    next.stage == DownloadStage::FileReady
                } else {
                    next.stage == DownloadStage::Content
                }),
                (DownloadStage::Children, Event::Children(Ok(listed))) => {
                    &&& state.step() == Step::Children { node: next.visits.last().node }
                    &&& next.visits == state.visits.push(
                        Visit {
                            node: state.stack.last().0,
                            prefix: state.stack.last().1,
                            children: listed.2@,
                        },
                    )
                    &&& next.owner == listed.0 && next.children == listed.2@ && next.prefix
                        == state.stack.last().1
                    &&& next.files == state.files
                },
                (DownloadStage::Entry, _) => if state.read.after(event).stage
                    == ReadStage::Finished {
                    &&& next.visits == state.visits && next.next > state.next
                    &&& next.files == state.files.push(
                        (
                            entry_path(state.prefix, state.children[state.next].name@),
                            state.read.after(event).bytes,
                        ),
                    )
                } else {
                    next.stage == DownloadStage::Entry && next.read == state.read.after(event)
                        && next.files == state.files && next.next == state.next
                },
                _ => false,
            }
        }),
{
    match (state.stage, event) {
        (DownloadStage::Children, Event::Children(Ok(listed))) => {
            lemma_walk_ends(
                DownloadState {
                    stack: state.stack.drop_last(),
                    prefix: state.stack.last().1,
                    owner: listed.0,
                    children: listed.2@,
                    next: 0,
                    visits: state.visits.push(
                        Visit {
                            node: state.stack.last().0,
                            prefix: state.stack.last().1,
                            children: listed.2@,
                        },
                    ),
                    ..state
                },
            );
        },
        (DownloadStage::Entry, _) => {
            let read = state.read.after(event);
            if read.stage == ReadStage::Finished {
                lemma_walk_ends(
                    DownloadState {
                        read,
                        files: state.files.push(
                            (entry_path(state.prefix, state.children[state.next].name@), read.bytes),
                        ),
                        next: state.next + 1,
                        ..state
                    },
                );
            }
        },
        _ => {},
    }
}

/// The archive of a folder has an entry for each folder that was found, empty and named with a slash,
/// and then one for each file, with what was read of it. Its names fit where each has at most 65,535
/// bytes.
pub proof fn an_entry_stands_for_what_was_found(state: DownloadState, at: int)
    ensures
        state.entries().len() == state.dirs.len() + state.files.len(),
        0 <= at < state.dirs.len() ==> state.entries()[at].0 == directory_name(state.dirs[at])
            && state.entries()[at].1.len() == 0,
        0 <= at < state.files.len() ==> state.entries()[state.dirs.len() + at] == state.files[at],
        state.entries_fit() <==> forall|i: int|
            0 <= i < state.entries().len() ==> encode_utf8((#[trigger] state.entries()[i]).0).len()
                <= 65535,
{
}

} // verus!
