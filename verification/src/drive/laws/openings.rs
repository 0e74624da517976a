//! What opening a workspace does.

use vstd::prelude::*;

use super::super::open::{answers_open, OpenEvent, OpenStage, OpeningState};
use crate::text::signed_digits;

verus! {

/// What is said of an event that is a failure.
pub open spec fn opening_failed(event: OpenEvent) -> Option<Seq<char>> {
    match event {
        OpenEvent::Connected(Err(failure)) => Some(failure@),
        OpenEvent::Anchor(Err(failure)) => Some(failure@),
        OpenEvent::StoreOpened(status, handle) => if status != 0 {
            Some("lore_storage_open failed (status "@ + signed_digits(status as int) + ")"@)
        } else if handle is None {
            Some("lore_storage_open succeeded but emitted no handle"@)
        } else {
            None
        },
        OpenEvent::TreeLoaded(status, handle) => if status != 0 {
            Some("lore_revision_tree_load failed (status "@ + signed_digits(status as int) + ")"@)
        } else if handle is None {
            Some("load succeeded but emitted no tree handle"@)
        } else {
            None
        },
        _ => None,
    }
}

/// A workspace fails to open exactly where something it needs fails, and says what. Anything else takes
/// it on: the repository, the branch, the staged revision in drive mode alone, the revision to serve, the
/// name of the branch, the store and the tree; and what each tells is kept.
pub proof fn an_opening_goes_on_unless_something_fails(state: OpeningState, event: OpenEvent)
    requires
        answers_open(event, state.stage),
    ensures
        ({
            let next = state.after(event);
            &&& next.versioned == state.versioned
            &&& match opening_failed(event) {
                Some(failure) => next.stage == OpenStage::Failed && next.failure == failure,
                None => next.stage != OpenStage::Failed,
            }
            &&& opening_failed(event) is None ==> match (state.stage, event) {
                (OpenStage::Connect, OpenEvent::Connected(Ok(repository))) => next.stage
                    == OpenStage::Anchor && next.repository == repository,
                (OpenStage::Anchor, OpenEvent::Anchor(Ok(anchor))) => next.branch == anchor.1
                    && next.repository == state.repository && next.stage == (if state.versioned {
                    OpenStage::ServedAnchor
                } else {
                    OpenStage::StagedRevision
                }),
                (OpenStage::StagedRevision, OpenEvent::StagedRevision(Some(staged))) => next.stage
                    == OpenStage::BranchName && next.revision == staged,
                (OpenStage::StagedRevision, _) => next.stage == OpenStage::ServedAnchor,
                (OpenStage::ServedAnchor, OpenEvent::Anchor(Ok(anchor))) => next.stage
                    == OpenStage::BranchName && next.revision == anchor.0,
                (OpenStage::BranchName, OpenEvent::BranchName(name)) => next.stage
                    == OpenStage::OpenStore && next.branch_name == (match name {
                    Some(name) => name@,
                    None => Seq::empty(),
                }),
                (OpenStage::OpenStore, OpenEvent::StoreOpened(_, handle)) => next.stage
                    == OpenStage::LoadTree && handle == Some(next.store),
                (OpenStage::LoadTree, OpenEvent::TreeLoaded(_, handle)) => next.stage
                    == OpenStage::Finished && handle == Some(next.tree),
                _ => false,
            }
            &&& event !is Connected ==> next.repository == state.repository
            &&& state.stage != OpenStage::Anchor ==> next.branch == state.branch
            &&& event !is BranchName ==> next.branch_name == state.branch_name
            &&& event !is StoreOpened ==> next.store == state.store
            &&& (event is BranchName || event is StoreOpened || event is TreeLoaded)
                ==> next.revision == state.revision
        }),
{
}

} // verus!
