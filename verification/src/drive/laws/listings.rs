//! What a request for the children of a directory does.

use vstd::prelude::*;

use super::super::action::{answers, Event, Step};
use super::super::api::{ChildInfo, NodeKind};
use super::super::browse::{a_listing_shows_every_child, BrowseStage, BrowseState, EntryState};
use super::super::effective::{EffectiveStage, EffectiveState};

verus! {

/// Whether an entry is that of a child: under its own node, name, mode and size, and a file or a link by
/// its kind, and a directory else.
pub open spec fn is_entry_of(entry: EntryState, child: ChildInfo) -> bool {
    &&& entry.node_id == child.node_id
    &&& entry.name == child.name@
    &&& entry.kind == (match child.kind {
        NodeKind::File => "file"@,
        NodeKind::Link => "link"@,
        NodeKind::Directory | NodeKind::Other => "directory"@,
    })
    &&& entry.mode == child.mode
    &&& entry.size == child.size
}

/// Whether an entry shows the address of the record of a child: none for a directory.
pub open spec fn shows_recorded(entry: EntryState, child: ChildInfo) -> bool {
    entry.address == (if child.kind == NodeKind::Directory {
        None
    } else {
        Some(child.address.text())
    })
}

/// Whether the address of a child has to be looked for: it is a file with content and a zero hash, in
/// the repository of the workspace.
pub open spec fn is_looked_for(state: BrowseState, child: ChildInfo) -> bool {
    state.owner == state.repository && child.kind == NodeKind::File && child.size > 0
        && child.address.hash.is_zero()
}

/// What going on to the next child that has to be looked for leaves and shows.
spec fn goes_on(state: BrowseState, next: BrowseState) -> bool {
    &&& next.node == state.node && next.repository == state.repository && next.owner == state.owner
        && next.revision == state.revision && next.children == state.children && next.refused
        == state.refused
    &&& state.next <= next.next <= state.children.len()
    &&& next.entries.len() == state.entries.len() + (next.next - state.next)
    &&& next.entries.take(state.entries.len() as int) == state.entries
    &&& forall|i: int|
        state.entries.len() <= i < next.entries.len() ==> {
            let child = state.children[i - state.entries.len() + state.next];
            &&& is_entry_of(#[trigger] next.entries[i], child)
            &&& shows_recorded(next.entries[i], child)
            &&& !is_looked_for(state, child)
        }
    &&& if next.next < state.children.len() {
        let child = state.children[next.next];
        &&& next.stage == BrowseStage::Address && is_looked_for(state, child)
        &&& next.lookup == EffectiveState::start(
            child.node_id,
            child.kind,
            child.size,
            child.address,
        )
    } else {
        next.stage == BrowseStage::Finished
    }
}

proof fn lemma_goes_on(state: BrowseState)
    requires
        0 <= state.next <= state.children.len(),
    ensures
        goes_on(state, state.go_on()),
    decreases state.children.len() - state.next,
{
    let next = state.go_on();
    if state.next < state.children.len() {
        let child = state.children[state.next];
        let lookup = EffectiveState::start(child.node_id, child.kind, child.size, child.address);
        if state.owner != state.repository || lookup.stage == EffectiveStage::Finished {
            let other = if state.owner != state.repository {
                BrowseState {
                    entries: state.entries.push(
                        super::super::browse::shown_child(
                            child,
                            super::super::api::address_text(child.kind, child.address),
                        ),
                    ),
                    next: state.next + 1,
                    ..state
                }
            } else {
                state.show(lookup.answer)
            };
            lemma_goes_on(other);
            assert(next == other.go_on());
            let length = state.entries.len();
            assert(next.entries.take(length as int + 1)[length as int] == next.entries[length as int]);
            assert(other.entries[length as int] == next.entries[length as int]);
            assert(next.entries.take(length as int) =~= next.entries.take(length as int + 1).take(
                length as int,
            ));
            assert(other.entries.take(length as int) =~= state.entries);
            assert(is_entry_of(next.entries[length as int], child));
            assert(shows_recorded(next.entries[length as int], child));
        } else {
            assert(next.entries.take(state.entries.len() as int) =~= state.entries);
        }
    } else {
        assert(next.entries.take(state.entries.len() as int) =~= state.entries);
    }
}

/// A listing shows each child once and in order, under its own name, kind, mode and size, and with the
/// address of its record, or the one that was looked up for it: only a file with content and a zero hash
/// is looked up, and only in the repository of the workspace. It is refused exactly where the directory
/// cannot be listed.
pub proof fn a_listing_shows_each_child_as_it_is(state: BrowseState, event: Event)
    requires
        state.valid(),
        answers(event, state.step()),
    ensures
        ({
            let next = state.after(event);
            &&& match event {
                Event::Children(Err(error)) => state.stage == BrowseStage::Children ==> next.refused
                    == Some(error@),
                _ => next.refused is None,
            }
            &&& (state.stage == BrowseStage::Children && event matches Event::Children(Ok(listed)))
                ==> {
                let listed = event->Children_0->Ok_0;
                &&& next.owner == listed.0 && next.revision == listed.1 && next.children
                    == listed.2@
                &&& next.entries.len() == next.next
                &&& forall|i: int|
                    0 <= i < next.next ==> is_entry_of(#[trigger] next.entries[i], listed.2@[i])
                        && shows_recorded(next.entries[i], listed.2@[i]) && !is_looked_for(
                        next,
                        listed.2@[i],
                    )
                &&& asks_next(next)
            }
            &&& state.stage == BrowseStage::Address ==> {
                let lookup = state.lookup.after(event);
                &&& state.step() == state.lookup.step()
                &&& next.children == state.children && next.owner == state.owner && next.revision
                    == state.revision
                &&& if lookup.stage == EffectiveStage::Finished {
                    &&& next.next > state.next
                    &&& next.entries.take(state.next) == state.entries
                    &&& is_entry_of(next.entries[state.next], state.children[state.next])
                    &&& next.entries[state.next].address == (match lookup.answer {
                        Some(address) => Some(address.text()),
                        None => None,
                    })
                    &&& forall|i: int|
                        state.next < i < next.next ==> is_entry_of(
                            #[trigger] next.entries[i],
                            state.children[i],
                        ) && shows_recorded(next.entries[i], state.children[i])
                    &&& asks_next(next)
                } else {
                    next.stage == BrowseStage::Address && next.lookup == lookup && next.entries
                        == state.entries && next.next == state.next
                }
            }
        }),
{
    a_listing_shows_every_child(state, event);
    match (state.stage, event) {
        (BrowseStage::Children, Event::Children(Ok(listed))) => {
            let other = BrowseState {
                owner: listed.0,
                revision: listed.1,
                children: listed.2@,
                next: 0,
                ..state
            };
            lemma_goes_on(other);
            let next = state.after(event);
            assert forall|i: int| 0 <= i < next.next implies is_entry_of(
                #[trigger] next.entries[i],
                listed.2@[i],
            ) && shows_recorded(next.entries[i], listed.2@[i]) && !is_looked_for(
                next,
                listed.2@[i],
            ) by {}
        },
        (BrowseStage::Address, _) => {
            let lookup = state.lookup.after(event);
            if lookup.stage == EffectiveStage::Finished {
                let other = (BrowseState { lookup, ..state }).show(lookup.answer);
                lemma_goes_on(other);
                let next = state.after(event);
                assert(next.entries.take(other.entries.len() as int)[state.next]
                    == next.entries[state.next]);
                assert(next.entries.take(state.next) =~= next.entries.take(state.next + 1).take(
                    state.next,
                ));
                assert(other.entries.take(state.next) =~= state.entries);
            }
        },
        _ => {},
    }
}

/// A listing that is not complete looks up the address of the next child, and one that is complete ends.
pub open spec fn asks_next(state: BrowseState) -> bool {
    if state.next < state.children.len() {
        let child = state.children[state.next];
        state.step() == Step::Cached { node: child.node_id } && is_looked_for(state, child)
            && state.lookup.recorded == child.address
    } else {
        state.stage == BrowseStage::Finished && state.next == state.children.len()
    }
}

} // verus!
