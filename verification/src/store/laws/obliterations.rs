//! What obliterating a fragment does.

use vstd::prelude::*;

use super::super::action::{
    answers_store, BeginObliteration, ChildOutcome, ReleaseAssociation, StoreEvent, StoreStep,
};
use super::super::delete::{DeletionStage, DeletionState};
use super::super::obliterate::{
    a_payload_is_deleted_only_when_unreferenced, fragments_in, payloads_in, ObliterateStage,
    ObliterateState,
};
use super::super::payload::payload_in;
use super::super::settings::S3ObjectVersioning;
use super::super::types::{FlagMasks, StoreFailure};
use crate::types::{Address, Context};

verus! {

/// What an obliteration fails with once `event` comes of its step, if it does.
pub open spec fn obliteration_failed(state: ObliterateState, event: StoreEvent) -> Option<
    StoreFailure,
> {
    match (state.stage, event) {
        (ObliterateStage::Begin, StoreEvent::Begun(Err(error))) => Some(error@),
        (ObliterateStage::ValidateSize, StoreEvent::Done(Err(error))) => Some(error@),
        (ObliterateStage::GetObject, StoreEvent::Contents(Err(error))) => Some(error@),
        (ObliterateStage::GetObject, StoreEvent::Contents(Ok(contents))) => match payload_in(
            contents@,
            state.address.hash,
            state.original,
            state.force_write,
        ) {
            Ok(_) => None,
            Err(failure) => Some(failure),
        },
        (ObliterateStage::Children, StoreEvent::Obliterated(outcomes)) => if forall|i: int|
            0 <= i < outcomes@.len() ==> (#[trigger] outcomes@[i]).obliterated {
            None
        } else {
            Some(StoreFailure::Internal("Failed to obliterate immutable "@ + state.address.text()))
        },
        (ObliterateStage::Release, StoreEvent::Released(Err(error))) => Some(error@),
        (ObliterateStage::Delete, _) => state.deletion.after(event).failure,
        (ObliterateStage::Finalize, StoreEvent::Done(Err(error))) => Some(error@),
        _ => None,
    }
}

/// An obliteration fails exactly where something it needs fails, and says what. Anything else takes it
/// on. One that was made before is over at once. Only the payload of a list is read, with the metadata
/// from before the mark, and the fragments that it lists are obliterated for the context of the list.
/// Then the association is dropped; where others remain it is over, and where none does the object is
/// deleted and the payload is marked as obliterated.
pub proof fn an_obliteration_goes_on_unless_something_fails(
    state: ObliterateState,
    event: StoreEvent,
)
    requires
        state.valid(),
        answers_store(event, state.step()),
    ensures
        ({
            let next = state.after(event);
            &&& state.stage == ObliterateStage::Delete ==> state.step() == state.deletion.step()
            &&& next.failure == obliteration_failed(state, event)
            &&& next.failure is None ==> match (state.stage, event) {
                (ObliterateStage::Begin, StoreEvent::Begun(Ok(begun))) => match begun {
                    BeginObliteration::AlreadyObliterated => next.stage
                        == ObliterateStage::Finished && !next.released && !next.deleted,
                    BeginObliteration::Acquired { original, marker } => next.original == original
                        && next.marker == marker && next.step() == StoreStep::ValidateSize {
                        fragment: original,
                    },
                },
                (ObliterateStage::ValidateSize, _) => next.step() == (if state.marker.flags
                    & state.masks.fragmented != 0 {
                    StoreStep::GetObject { bucket: state.bucket, key: state.address.hash.text() }
                } else {
                    StoreStep::Release { repository: state.repository, address: state.address }
                }),
                (ObliterateStage::GetObject, StoreEvent::Contents(Ok(contents))) => next.step()
                    == StoreStep::References && (payload_in(
                    contents@,
                    state.address.hash,
                    state.original,
                    state.force_write,
                ) matches Ok(payload) && next.payload == Some(payload)),
                (ObliterateStage::References, StoreEvent::References(hashes)) => {
                    &&& next.step() matches StoreStep::Obliterate { repository, addresses }
                        && repository == state.repository && addresses.len() == hashes@.len()
                        && forall|i: int|
                        0 <= i < hashes@.len() ==> #[trigger] addresses[i] == (Address {
                            hash: hashes@[i],
                            context: state.address.context,
                        })
                },
                (ObliterateStage::Children, StoreEvent::Obliterated(outcomes)) => next.outcomes
                    == outcomes@ && next.num_fragments == (state.num_fragments + outcomes@.map_values(
                    |outcome: ChildOutcome| outcome.num_fragments as int,
                ).fold_left(0, |total: int, count: int| total + count))
                    % 0x1_0000_0000_0000_0000 && next.num_payloads == (state.num_payloads
                    + outcomes@.map_values(
                    |outcome: ChildOutcome| outcome.num_payloads as int,
                ).fold_left(0, |total: int, count: int| total + count))
                    % 0x1_0000_0000_0000_0000 && next.step() == StoreStep::Release {
                    repository: state.repository,
                    address: state.address,
                },
                (ObliterateStage::Release, StoreEvent::Released(Ok(released))) => next.released
                    && next.num_fragments == (state.num_fragments + 1) % 0x1_0000_0000_0000_0000
                    && next.num_payloads == state.num_payloads && match released {
                    ReleaseAssociation::ReferencesRemain => next.stage == ObliterateStage::Finished
                        && !next.deleted,
                    ReleaseAssociation::Unreferenced => next.stage == ObliterateStage::Delete
                        && next.deletion == state.deletion,
                },
                (ObliterateStage::Delete, _) => next.deletion == state.deletion.after(event) && (
                if next.deletion.stage == DeletionStage::Finished {
                    next.deleted && next.num_payloads == (state.num_payloads + 1)
                        % 0x1_0000_0000_0000_0000 && next.num_fragments == state.num_fragments
                        && next.step() == StoreStep::Finalize { hash: state.address.hash }
                } else {
                    !next.deleted && next.stage == ObliterateStage::Delete
                }),
                (ObliterateStage::Finalize, _) => next.stage == ObliterateStage::Finished
                    && next.num_fragments == state.num_fragments && next.num_payloads
                    == state.num_payloads,
                _ => false,
            }
        }),
{
    if let (ObliterateStage::Children, StoreEvent::Obliterated(outcomes)) = (state.stage, event) {
        lemma_totals(outcomes@);
    }
}

/// What came of the fragments of a list is counted together.
proof fn lemma_totals(outcomes: Seq<ChildOutcome>)
    ensures
        fragments_in(outcomes) == outcomes.map_values(
            |outcome: ChildOutcome| outcome.num_fragments as int,
        ).fold_left(0, |total: int, count: int| total + count),
        payloads_in(outcomes) == outcomes.map_values(
            |outcome: ChildOutcome| outcome.num_payloads as int,
        ).fold_left(0, |total: int, count: int| total + count),
    decreases outcomes.len(),
{
    let fragments = outcomes.map_values(|outcome: ChildOutcome| outcome.num_fragments as int);
    let payloads = outcomes.map_values(|outcome: ChildOutcome| outcome.num_payloads as int);
    reveal(Seq::fold_left);
    if outcomes.len() > 0 {
        let before = outcomes.drop_last();
        lemma_totals(before);
        assert(fragments.drop_last() =~= before.map_values(
            |outcome: ChildOutcome| outcome.num_fragments as int,
        ));
        assert(payloads.drop_last() =~= before.map_values(
            |outcome: ChildOutcome| outcome.num_payloads as int,
        ));
    }
}

/// An obliteration is of the address that it was asked for, in the repository that it was asked for: it
/// marks the hash of that address, reads and deletes the object under that hash in the bucket, and drops
/// the association of that address.
pub proof fn an_obliteration_is_of_what_was_asked(
    bucket: Seq<char>,
    versioning: S3ObjectVersioning,
    force_write: bool,
    masks: FlagMasks,
    repository: Context,
    address: Address,
    events: Seq<StoreEvent>,
)
    ensures
        ObliterateState::start(
            bucket,
            versioning,
            force_write,
            masks,
            repository,
            address,
        ).after_all(events) matches Some(state) ==> {
            &&& state.bucket == bucket && state.force_write == force_write && state.masks == masks
                && state.repository == repository && state.address == address
            &&& state.deletion.bucket == bucket && state.deletion.key == address.hash.text()
            &&& state.stage != ObliterateStage::Delete && state.stage != ObliterateStage::Finalize
                && state.stage != ObliterateStage::Finished && state.stage
                != ObliterateStage::Failed ==> state.deletion == DeletionState::start(
                bucket,
                address.hash.text(),
                versioning,
            )
            &&& match state.step() {
                StoreStep::BeginObliteration { hash } => hash == address.hash && events.len() == 0,
                StoreStep::GetObject { bucket: from, key } => from == bucket && key
                    == address.hash.text(),
                StoreStep::Release { repository: of, address: at } => of == repository && at
                    == address,
                StoreStep::DeleteObject { bucket: from, key, .. } => from == bucket && key
                    == address.hash.text(),
                StoreStep::ListVersions { bucket: from, key } => from == bucket && key
                    == address.hash.text(),
                StoreStep::Finalize { hash } => hash == address.hash,
                StoreStep::Obliterate { repository: of, .. } => of == repository,
                StoreStep::PutObject { .. } | StoreStep::Register { .. }
                | StoreStep::Associate { .. } => false,
                _ => true,
            }
        },
    decreases events.len(),
{
    if events.len() > 0 {
        let before = events.drop_last();
        an_obliteration_is_of_what_was_asked(
            bucket,
            versioning,
            force_write,
            masks,
            repository,
            address,
            before,
        );
        a_payload_is_deleted_only_when_unreferenced(
            bucket,
            versioning,
            force_write,
            masks,
            repository,
            address,
            before,
        );
    }
}

} // verus!
