//! What storing a fragment does.

use vstd::prelude::*;

use super::super::action::{answers_store, StoreEvent, StoreStep};
use super::super::put::{PutStage, PutState};
use super::super::types::{
    AwsFailure, FlagMasks, Fragment, StoreFailure, StoreMatch, StoreQueryResult,
};
use crate::types::{Address, Context};

verus! {

/// The fragment that is stored: the one that is given, with the flags that are kept of it.
pub open spec fn fragment_kept(fragment: Fragment, events: Seq<StoreEvent>) -> Fragment {
    match events[0] {
        StoreEvent::Sanitised(flags) => Fragment {
            flags,
            size_payload: fragment.size_payload,
            size_content: fragment.size_content,
        },
        _ => fragment,
    }
}

/// What the catalog found. What it found is not looked at where payloads are always written, and a
/// catalog that cannot be asked has found nothing.
pub open spec fn match_told(force_write: bool, event: StoreEvent) -> Option<StoreQueryResult> {
    match event {
        StoreEvent::Queried(Ok(found)) => if force_write || found.match_made
            == StoreMatch::MatchNone {
            None
        } else {
            Some(found)
        },
        _ => None,
    }
}

/// Whether what the catalog found is being obliterated.
pub open spec fn told_obliterating(force_write: bool, event: StoreEvent, masks: FlagMasks) -> bool {
    event matches StoreEvent::Queried(Ok(found)) && !force_write && found.fragment.flags
        & masks.obliterating == masks.obliterating
}

/// What a request of the object store that failed says.
pub open spec fn request_said(failure: AwsFailure, context: Seq<char>) -> StoreFailure {
    match failure {
        AwsFailure::Sdk => StoreFailure::SlowDown,
        AwsFailure::Other(error) => StoreFailure::Failed { error: error@, context },
    }
}

/// Storing again what is stored does nothing and ends well: where the catalog finds the fragment for the
/// same repository and context, with the same content size and not being obliterated, the operation is
/// over at once, with a payload or without one, and nothing is written, registered or associated.
pub proof fn storing_is_idempotent(
    bucket: Seq<char>,
    masks: FlagMasks,
    repository: Context,
    address: Address,
    fragment: Fragment,
    payload: Option<Seq<u8>>,
    events: Seq<StoreEvent>,
    found: StoreQueryResult,
)
    requires
        events.len() == 3,
        events[2] == StoreEvent::Queried(Ok(found)),
        found.match_made == StoreMatch::MatchFull,
        found.fragment.size_content == fragment.size_content,
        found.fragment.flags & masks.obliterating != masks.obliterating,
    ensures
        ({
            let start = PutState::start(
                bucket,
                false,
                masks,
                repository,
                address,
                fragment,
                payload,
            );
            start.after_all(events) matches Some(state) ==> {
                &&& state.stage == PutStage::Finished
                &&& state.failure is None
                &&& !state.written
                &&& state.step() == StoreStep::Finish
            }
        }),
{
    let start = PutState::start(bucket, false, masks, repository, address, fragment, payload);
    lemma_prefix(start, events);
}

proof fn lemma_prefix(start: PutState, events: Seq<StoreEvent>)
    requires
        start.stage == PutStage::Sanitise,
        !start.written,
        start.failure is None,
    ensures
        start.after_all(events) matches Some(state) ==> {
            &&& state.valid()
            &&& state.bucket == start.bucket && state.force_write == start.force_write
                && state.masks == start.masks && state.repository == start.repository
                && state.address == start.address && state.payload == start.payload
            &&& events.len() > 0 ==> state.fragment == fragment_kept(start.fragment, events)
            &&& events.len() == 0 ==> state == start
            &&& match state.stage {
                PutStage::Sanitise => events.len() == 0,
                PutStage::Validate => events.len() == 1,
                PutStage::Query => events.len() == 2 && !state.written,
                PutStage::Associate | PutStage::PutObject => events.len() == 3 && !state.written,
                PutStage::Register => events.len() == 4 && state.written,
                PutStage::Finished => 3 <= events.len() <= 5,
                PutStage::Failed => 2 <= events.len() <= 5,
            }
            &&& events.len() == 3 && state.stage != PutStage::Finished && state.stage
                != PutStage::Failed ==> state.stage == PutStage::Associate || state.stage
                == PutStage::PutObject
            &&& events.len() == 3 ==> !state.written
        },
    decreases events.len(),
{
    if events.len() > 0 {
        let before = events.drop_last();
        lemma_prefix(start, before);
        if let Some(state) = start.after_all(before) {
            if answers_store(events.last(), state.step()) {
                assert(before.len() > 0 ==> before[0] == events[0]);
            }
        }
    }
}

/// What storing a fragment does once the catalog is asked follows from what it found. A fragment that is
/// being obliterated is not stored; one whose content has another size, and is not obliterated, is a
/// collision; one that is there for the repository is associated, and so is one that is there for
/// another, if its payload is given; and one that is not there is written, if its payload is given and
/// as long as the fragment says.
pub proof fn a_put_does_what_the_catalog_calls_for(
    start: PutState,
    events: Seq<StoreEvent>,
)
    requires
        start.stage == PutStage::Sanitise,
        !start.written,
        start.failure is None,
        start.after_all(events) is Some,
    ensures
        ({
            let state = start.after_all(events)->Some_0;
            let kept = fragment_kept(start.fragment, events);
            let found = match_told(start.force_write, events[2]);
            let obliterating = told_obliterating(start.force_write, events[2], start.masks);
            let collides = found matches Some(found) && found.fragment.size_content
                != start.fragment.size_content && found.fragment.flags & start.masks.obliterated
                != start.masks.obliterated;
            let made = match found {
                Some(found) => found.match_made,
                None => StoreMatch::MatchNone,
            };
            &&& events.len() == 0 ==> state.step() == StoreStep::Sanitise {
                fragment: start.fragment,
            }
            &&& events.len() == 1 ==> state.step() == (match start.payload {
                Some(payload) => StoreStep::ValidatePayload {
                    fragment: kept,
                    length: payload.len() as int,
                },
                None => StoreStep::ValidateSize { fragment: kept },
            })
            &&& events.len() == 2 ==> match events[1] {
                StoreEvent::Done(Ok(_)) => state.step() == StoreStep::Query {
                    repository: start.repository,
                    address: start.address,
                    match_requested: StoreMatch::MatchFull,
                },
                StoreEvent::Done(Err(error)) => state.failure == Some(error@),
                _ => false,
            }
            &&& events.len() == 3 && obliterating ==> state.failure == Some(
                StoreFailure::Internal("Failed to obliterate immutable "@ + start.address.text()),
            )
            &&& events.len() == 3 && !obliterating && collides ==> state.failure == Some(
                StoreFailure::Internal("Hash collision"@),
            )
            &&& events.len() == 3 && !obliterating && !collides ==> match made {
                StoreMatch::MatchFull => state.stage == PutStage::Finished,
                StoreMatch::MatchPartition => state.step() == StoreStep::Associate {
                    repository: start.repository,
                    address: start.address,
                },
                StoreMatch::MatchHash => if start.payload is Some {
                    state.step() == StoreStep::Associate {
                        repository: start.repository,
                        address: start.address,
                    }
                } else {
                    state.failure == Some(StoreFailure::Internal("Payload buffer required"@))
                },
                StoreMatch::MatchNone => match start.payload {
                    Some(payload) => if payload.len() == start.fragment.size_payload {
                        state.step() == StoreStep::PutObject {
                            bucket: start.bucket,
                            key: start.address.hash.text(),
                            body: payload,
                        }
                    } else {
                        state.failure == Some(
                            StoreFailure::Internal(
                                "Failed to store in immutable store for put "@
                                    + start.address.hash.text(),
                            ),
                        )
                    },
                    None => state.failure == Some(
                        StoreFailure::Internal("Payload buffer required"@),
                    ),
                },
            }
            &&& events.len() == 4 ==> match events[3] {
                StoreEvent::Requested(Ok(_)) => state.step() == StoreStep::Register {
                    repository: start.repository,
                    address: start.address,
                    fragment: kept,
                },
                StoreEvent::Requested(Err(failure)) => state.failure == Some(
                    request_said(failure, "S3 put object failed"@),
                ),
                StoreEvent::Done(Ok(_)) => state.stage == PutStage::Finished,
                StoreEvent::Done(Err(error)) => state.failure == Some(error@),
                _ => false,
            }
            &&& events.len() == 5 ==> match events[4] {
                StoreEvent::Done(Ok(_)) => state.stage == PutStage::Finished,
                StoreEvent::Done(Err(error)) => state.failure == Some(error@),
                _ => false,
            }
            &&& events.len() <= 5
        }),
{
    lemma_prefix(start, events);
    if events.len() > 0 {
        lemma_prefix(start, events.drop_last());
        assert(start.after_all(events.drop_last()) is Some);
        let state = start.after_all(events.drop_last())->Some_0;
        assert(answers_store(events.last(), state.step()));
        assert(start.after_all(events) == Some(state.after(events.last())));
    }
}

/// What was stored can be stored again: once a fragment was written and registered, or associated, a
/// catalog that finds it as it was kept has a second operation on it end well at once, whether it brings
/// the payload or not.
pub proof fn what_was_stored_is_stored(
    first: PutState,
    events: Seq<StoreEvent>,
    payload: Option<Seq<u8>>,
    again: Seq<StoreEvent>,
)
    requires
        first.stage == PutStage::Sanitise && !first.written && first.failure is None
            && !first.force_write,
        first.after_all(events) matches Some(state) && state.stage == PutStage::Finished,
        again.len() == 3,
        fragment_kept(first.fragment, events).flags & first.masks.obliterating
            != first.masks.obliterating,
        again[2] == StoreEvent::Queried(
            Ok(
                StoreQueryResult {
                    match_made: StoreMatch::MatchFull,
                    fragment: fragment_kept(first.fragment, events),
                },
            ),
        ),
    ensures
        PutState::start(
            first.bucket,
            false,
            first.masks,
            first.repository,
            first.address,
            first.fragment,
            payload,
        ).after_all(again) matches Some(state) ==> state.stage == PutStage::Finished
            && !state.written && state.failure is None,
{
    storing_is_idempotent(
        first.bucket,
        first.masks,
        first.repository,
        first.address,
        first.fragment,
        payload,
        again,
        StoreQueryResult {
            match_made: StoreMatch::MatchFull,
            fragment: fragment_kept(first.fragment, events),
        },
    );
}

/// A collision is said only of two contents: where the catalog found a fragment with the same hash whose
/// content has another size.
pub proof fn a_collision_is_of_two_contents(state: PutState, event: StoreEvent)
    requires
        state.valid(),
        state.stage == PutStage::Query,
        event is Queried,
        state.after(event).failure == Some(StoreFailure::Internal("Hash collision"@)),
    ensures
        event matches StoreEvent::Queried(Ok(found)) && found.match_made != StoreMatch::MatchNone
            && found.fragment.size_content != state.fragment.size_content,
{
    reveal_strlit("Hash collision");
    reveal_strlit("Failed to obliterate immutable ");
    reveal_strlit("Failed to store in immutable store for put ");
    reveal_strlit("Payload buffer required");
    let said = "Hash collision"@;
    assert(said[0] == 'H');
    assert(("Failed to obliterate immutable "@ + state.address.text())[0] == 'F');
    assert(("Failed to store in immutable store for put "@ + state.address.hash.text())[0] == 'F');
    assert("Payload buffer required"@[0] == 'P');
}

/// A put starts with what it is given, and has done nothing.
pub proof fn a_put_starts_with_what_it_is_given(
    bucket: Seq<char>,
    force_write: bool,
    masks: FlagMasks,
    repository: Context,
    address: Address,
    fragment: Fragment,
    payload: Option<Seq<u8>>,
)
    ensures
        ({
            let start = PutState::start(
                bucket,
                force_write,
                masks,
                repository,
                address,
                fragment,
                payload,
            );
            &&& start.bucket == bucket && start.force_write == force_write && start.masks == masks
            &&& start.repository == repository && start.address == address
            &&& start.fragment == fragment && start.payload == payload
            &&& start.stage == PutStage::Sanitise && !start.written && start.failure is None
            &&& start.step() == StoreStep::Sanitise { fragment }
        }),
{
}

} // verus!
