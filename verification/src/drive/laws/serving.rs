//! What the epilogue of a mutation does.

use vstd::prelude::*;

use super::super::action::{answers, Event, Step};
use super::super::epilogue::{EpilogueStage, EpilogueState};
use crate::types::ContentHash;

verus! {

/// The failure that an event tells of, if it tells of one: a commit, a branch or a tree that could not
/// be had. A staged revision that is missing is no failure, nor is a commit of nothing.
pub open spec fn serving_failed(event: Event) -> Option<Seq<char>> {
    match event {
        Event::Committed(Err(failure)) => Some(failure@),
        Event::Anchor(Err(failure)) => Some(failure@),
        Event::Tree(Err(failure)) => Some(failure@),
        _ => None,
    }
}

/// The revision that an event names to be served: the one that is staged, or the one that the branch is
/// at.
pub open spec fn revision_told(event: Event) -> Option<ContentHash> {
    match event {
        Event::StagedRevision(revision) => revision,
        Event::Anchor(Ok(revision)) => Some(revision),
        _ => None,
    }
}

/// The last revision that `events` name to be served.
pub open spec fn last_revision_told(events: Seq<Event>) -> Option<ContentHash>
    decreases events.len(),
{
    if events.len() == 0 {
        None
    } else if revision_told(events.last()) is Some {
        revision_told(events.last())
    } else {
        last_revision_told(events.drop_last())
    }
}

/// An epilogue fails exactly where a commit, the branch or the tree fails, with what is said of that. A
/// commit, made or empty, is followed by the branch; a staged revision is served, and without one the
/// branch is asked for; a revision that is served already ends the epilogue, and the tree of another is
/// loaded and then served.
pub proof fn an_epilogue_goes_on_unless_something_fails(state: EpilogueState, event: Event)
    requires
        state.valid(),
        answers(event, state.step()),
    ensures
        ({
            let next = state.after(event);
            &&& next.valid() && next.served == state.served && next.message == state.message
            &&& match serving_failed(event) {
                Some(failure) => next.stage == EpilogueStage::Failed && next.failure == failure,
                None => next.stage != EpilogueStage::Failed,
            }
            &&& (event matches Event::Committed(Ok(_))) ==> next.step() == Step::Anchor
            &&& event == Event::StagedRevision(None) ==> next.step() == Step::Anchor
            &&& revision_told(event) matches Some(revision) ==> next.revision == revision && (
            if revision == state.served {
                next.stage == EpilogueStage::Finished
            } else {
                next.step() == Step::LoadTree { revision }
            })
            &&& revision_told(event) is None ==> next.revision == state.revision
            &&& event matches Event::Tree(Ok(tree)) ==> next.step() == Step::SwapTree {
                tree,
                revision: state.revision,
            }
            &&& event is Done ==> next.stage == EpilogueStage::Finished
            &&& next.stage == EpilogueStage::Finished ==> event is Done || revision_told(event)
                == Some(state.served)
        }),
{
}

/// An epilogue that is done serves the revision that it was told last: the staged one, or the one of the
/// branch. It asks for one tree at most, that of this revision, and only if another was served.
pub proof fn the_revision_that_is_told_is_served(
    versioned: bool,
    message: Seq<char>,
    served: ContentHash,
    events: Seq<Event>,
)
    ensures
        ({
            let start = EpilogueState::start(versioned, message, served);
            &&& start.step() == (if versioned {
                Step::Commit { message }
            } else {
                Step::StagedRevision
            })
            &&& start.after_all(events) matches Some(state) ==> {
                &&& state.valid() && state.served == served && state.versioned == versioned
                &&& state.stage == EpilogueStage::Finished ==> last_revision_told(events) == Some(
                    state.revision,
                )
                &&& match state.step() {
                    Step::Commit { message: said } => events.len() == 0 && versioned && said
                        == message,
                    Step::StagedRevision => events.len() == 0 && !versioned,
                    Step::LoadTree { revision } => last_revision_told(events) == Some(revision)
                        && revision != served,
                    Step::SwapTree { tree, revision } => last_revision_told(events) == Some(
                        revision,
                    ) && revision != served && events.last() == Event::Tree(Ok(tree)),
                    _ => true,
                }
            }
        }),
    decreases events.len(),
{
    if events.len() > 0 {
        the_revision_that_is_told_is_served(versioned, message, served, events.drop_last());
        let start = EpilogueState::start(versioned, message, served);
        if let Some(state) = start.after_all(events.drop_last()) {
            if answers(events.last(), state.step()) {
                an_epilogue_goes_on_unless_something_fails(state, events.last());
            }
        }
    }
}

} // verus!
