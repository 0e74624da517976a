//! What the lookup of an address, of a record and of the content of a file does.

use vstd::prelude::*;

use super::super::action::{answers, Event, Step};
use super::super::api::{NodeInfo, NodeKind};
use super::super::effective::{EffectiveStage, EffectiveState};
use super::super::path::relative;
use super::super::read::{ReadStage, ReadState};
use super::super::record::{shows, NodeRecord, RecordStage, RecordState};
use crate::types::{Address, RepositoryId};

verus! {

/// The address of a node is the one of its record, and a directory has none. Only for a file that has
/// content and a zero hash is another looked for: the one that is remembered, or else the one that its
/// content is stored under, which is then remembered. Where none of them is had, it is the one of the
/// record.
pub proof fn an_address_is_the_one_that_is_known(
    node: u32,
    kind: NodeKind,
    size: u64,
    recorded: Address,
    events: Seq<Event>,
)
    ensures
        ({
            let start = EffectiveState::start(node, kind, size, recorded);
            let lacking = kind == NodeKind::File && size > 0 && recorded.hash.is_zero();
            &&& start.after_all(events) matches Some(state) ==> {
                &&& state.valid()
                &&& state.node == node && state.recorded == recorded
                &&& !lacking ==> events.len() == 0 && state.stage == EffectiveStage::Finished
                    && state.answer == (if kind == NodeKind::Directory {
                    None
                } else {
                    Some(recorded)
                })
                &&& lacking ==> if events.len() == 0 {
                    state.step() == Step::Cached { node }
                } else if events.len() == 1 {
                    match events[0] {
                        Event::Cached(Some(address)) => state.stage == EffectiveStage::Finished
                            && state.answer == Some(address),
                        _ => state.step() == Step::NodePath { node },
                    }
                } else if events.len() == 2 {
                    match events[1] {
                        Event::NodePath(Ok(path)) => state.step() == Step::PutFile {
                            context: recorded.context,
                            path: relative(path@),
                        },
                        _ => state.stage == EffectiveStage::Finished && state.answer == Some(
                            recorded,
                        ),
                    }
                } else if events.len() == 3 {
                    match events[2] {
                        Event::Stored(Ok(address)) => state.answer == Some(address) && state.step()
                            == Step::Remember { node, address },
                        _ => state.stage == EffectiveStage::Finished && state.answer == Some(
                            recorded,
                        ),
                    }
                } else {
                    &&& events.len() == 4 && state.stage == EffectiveStage::Finished
                    &&& events[2] matches Event::Stored(Ok(address)) && state.answer == Some(
                        address,
                    )
                }
                &&& (events.len() == 1 && state.stage == EffectiveStage::NodePath) ==> state.answer
                    == Some(recorded)
                &&& (events.len() == 2 && state.stage == EffectiveStage::PutFile) ==> state.answer
                    == Some(recorded)
            }
        }),
    decreases events.len(),
{
    if events.len() > 0 {
        an_address_is_the_one_that_is_known(node, kind, size, recorded, events.drop_last());
    }
}

/// A record is made up of what is told of the node: its record, its path and its address. It is not had
/// where the node or its path cannot be had, and the reply is then what is said of that.
pub proof fn a_record_shows_what_is_told(state: RecordState, event: Event)
    requires
        state.valid(),
        answers(event, state.step()),
    ensures
        ({
            let next = state.after(event);
            &&& next.valid() && next.node == state.node
            &&& (state.stage == RecordStage::NodeInfo) ==> match event {
                Event::NodeInfo(Ok(info)) => next.info == Some(info) && next.step()
                    == Step::NodePath { node: state.node } && next.refused is None,
                Event::NodeInfo(Err(error)) => next.refused == Some(error@) && next.step()
                    == Step::Finish,
                _ => false,
            }
            &&& (state.stage == RecordStage::NodePath) ==> match event {
                Event::NodePath(Ok(path)) => {
                    let info = state.info->Some_0;
                    &&& next.path == path@ && next.info == state.info && next.refused is None
                    &&& next.lookup == Some(
                        EffectiveState::start(state.node, info.kind, info.size, info.address),
                    )
                    &&& next.stage == RecordStage::Finished <==> next.lookup->Some_0.stage
                        == EffectiveStage::Finished
                },
                Event::NodePath(Err(error)) => next.refused == Some(error@) && next.step()
                    == Step::Finish,
                _ => false,
            }
            &&& (state.stage == RecordStage::Address) ==> {
                &&& state.step() == state.lookup->Some_0.step()
                &&& next.info == state.info && next.path == state.path && next.refused is None
                &&& next.lookup == Some(state.lookup->Some_0.after(event))
                &&& next.stage == RecordStage::Finished <==> next.lookup->Some_0.stage
                    == EffectiveStage::Finished
            }
            &&& RecordState::start(state.node).step() == Step::NodeInfo { node: state.node }
        }),
{
}

/// The content of a file comes from where its address says. One with a zero hash is read from the
/// working directory alone, and is empty if it is not there. Another is fetched from the repository
/// under its address and what was fetched is read; only where it cannot be fetched is it read from the
/// working directory, and if it is not there either both failures are told.
pub proof fn content_comes_from_where_the_address_says(
    repository: RepositoryId,
    address: Address,
    path: Seq<char>,
    events: Seq<Event>,
)
    ensures
        ({
            let start = ReadState::start(repository, address, path);
            start.after_all(events) matches Some(state) ==> {
                &&& state.repository == repository && state.address == address && state.path == path
                &&& if address.hash.is_zero() {
                    if events.len() == 0 {
                        state.step() == Step::ReadFile { path: relative(path) }
                    } else {
                        &&& events.len() == 1 && state.stage == ReadStage::Finished
                        &&& match events[0] {
                            Event::Content(Ok(bytes)) => state.bytes == bytes@,
                            _ => state.bytes.len() == 0,
                        }
                    }
                } else if events.len() == 0 {
                    state.step() == Step::Fetch { repository, address }
                } else if events.len() == 1 {
                    match events[0] {
                        Event::Done(Ok(())) => state.step() == Step::ReadFetched,
                        Event::Done(Err(error)) => state.step() == Step::ReadFile {
                            path: relative(path),
                        } && state.failure == error@,
                        _ => false,
                    }
                } else {
                    &&& events.len() == 2
                    &&& match (events[0], events[1]) {
                        (_, Event::Content(Ok(bytes))) => state.stage == ReadStage::Finished
                            && state.bytes == bytes@,
                        (Event::Done(Ok(())), Event::Content(Err(error))) => state.stage
                            == ReadStage::Failed && state.failure == error@,
                        (Event::Done(Err(first)), Event::Content(Err(error))) => state.stage
                            == ReadStage::Failed && state.failure == "CAS: "@ + first@
                            + "; workdir: "@ + error@,
                        _ => false,
                    }
                }
            }
        }),
    decreases events.len(),
{
    if events.len() > 0 {
        content_comes_from_where_the_address_says(repository, address, path, events.drop_last());
    }
}

/// The record that is shown of a node is the one that was told: its own number and that of its parent,
/// its name, its kind, its mode, its size, its path, and the address that was looked up, which a
/// directory has none of.
pub proof fn a_shown_record_is_the_one_told(
    record: NodeRecord,
    info: NodeInfo,
    path: Seq<char>,
    lookup: EffectiveState,
)
    requires
        shows(record, info, path, lookup),
    ensures
        record.node_id == info.node_id,
        record.parent_id == info.parent_id,
        record.name@ == info.name@,
        record.kind@ == (match info.kind {
            NodeKind::File => "file"@,
            NodeKind::Link => "link"@,
            NodeKind::Directory | NodeKind::Other => "directory"@,
        }),
        record.mode == info.mode,
        record.size == info.size,
        record.path@ == path,
        lookup.answer matches Some(address) ==> (record.address matches Some(text) && text@
            == address.text()),
        lookup.answer is None ==> record.address is None,
{
}

} // verus!
