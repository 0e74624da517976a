//! Obliterating a payload: dropping its association with a repository and a context and, once nothing
//! refers to it, deleting it for good.
//!
//! A payload may be a list of other fragments. Those are obliterated first.

use bytes::Bytes;
use vstd::prelude::*;

use super::action::{
    answers_store, BeginObliteration, ChildOutcome, ReleaseAssociation, StoreAction, StoreEvent,
    StoreStep,
};
use super::delete::{optional_failure, Deletion, DeletionStage, DeletionState};
use super::payload::{payload_in, shared, ObjectContents};
use super::settings::{AwsImmutableStore, S3ObjectVersioning};
use super::types::{FlagMasks, Fragment, StoreError, StoreFailure};
use crate::types::{Address, ContentHash, Context};

verus! {

/// What the operation waits for.
#[derive(Clone, Copy, Debug, PartialEq, Eq, Structural)]
pub enum ObliterateStage {
    Begin,
    ValidateSize,
    GetObject,
    References,
    Children,
    Release,
    Delete,
    Finalize,
    Finished,
    Failed,
}

/// Whether each of the fragments that a payload lists was obliterated.
pub open spec fn all_obliterated(outcomes: Seq<ChildOutcome>) -> bool {
    forall|i: int| 0 <= i < outcomes.len() ==> (#[trigger] outcomes[i]).obliterated
}

/// How many associations were dropped for fragments in all.
pub open spec fn fragments_in(outcomes: Seq<ChildOutcome>) -> int
    decreases outcomes.len(),
{
    if outcomes.len() == 0 {
        0
    } else {
        fragments_in(outcomes.drop_last()) + outcomes.last().num_fragments
    }
}

/// How many payloads were deleted for fragments in all.
pub open spec fn payloads_in(outcomes: Seq<ChildOutcome>) -> int
    decreases outcomes.len(),
{
    if outcomes.len() == 0 {
        0
    } else {
        payloads_in(outcomes.drop_last()) + outcomes.last().num_payloads
    }
}

/// A count as it is kept: past the largest number of 64 bits it starts again.
pub open spec fn wrapped(count: int) -> int {
    count % 0x1_0000_0000_0000_0000
}

/// One if something was done.
pub open spec fn once(done: bool) -> int {
    if done {
        1
    } else {
        0
    }
}

/// The state of the operation.
pub struct ObliterateState {
    pub bucket: Seq<char>,
    pub versioning: S3ObjectVersioning,
    pub force_write: bool,
    pub masks: FlagMasks,
    pub repository: Context,
    pub address: Address,
    /// The metadata before the payload was marked, once it is.
    pub original: Fragment,
    /// The metadata with the mark, once there is one.
    pub marker: Fragment,
    /// The payload, once it is read.
    pub payload: Option<Seq<u8>>,
    /// The addresses of the fragments that the payload lists, once that is known.
    pub children: Seq<Address>,
    /// What came of those fragments, once that is known.
    pub outcomes: Seq<ChildOutcome>,
    /// Whether those fragments are obliterated.
    pub children_done: bool,
    pub deletion: DeletionState,
    /// How many associations were dropped, those for the fragments that the payload lists included.
    pub num_fragments: int,
    /// How many payloads were deleted, those of the fragments that the payload lists included.
    pub num_payloads: int,
    /// Whether the association of the payload itself was dropped.
    pub released: bool,
    /// Whether nothing refers to the payload any more.
    pub unreferenced: bool,
    /// Whether the payload itself was deleted.
    pub deleted: bool,
    /// What is said of the failure, once there is one.
    pub failure: Option<StoreFailure>,
    pub stage: ObliterateStage,
}

impl ObliterateState {
    /// The state at the start.
    pub open spec fn start(
        bucket: Seq<char>,
        versioning: S3ObjectVersioning,
        force_write: bool,
        masks: FlagMasks,
        repository: Context,
        address: Address,
    ) -> ObliterateState {
        let nothing = Fragment { flags: 0, size_payload: 0, size_content: 0 };
        ObliterateState {
            bucket,
            versioning,
            force_write,
            masks,
            repository,
            address,
            original: nothing,
            marker: nothing,
            payload: None,
            children: Seq::empty(),
            outcomes: Seq::empty(),
            children_done: false,
            deletion: DeletionState::start(bucket, address.hash.text(), versioning),
            num_fragments: 0,
            num_payloads: 0,
            released: false,
            unreferenced: false,
            deleted: false,
            failure: None,
            stage: ObliterateStage::Begin,
        }
    }

    /// Whether the payload is a list of other fragments.
    pub open spec fn fragmented(self) -> bool {
        self.marker.flags & self.masks.fragmented != 0
    }

    /// What to do next.
    pub open spec fn step(self) -> StoreStep {
        match self.stage {
            ObliterateStage::Begin => StoreStep::BeginObliteration { hash: self.address.hash },
            ObliterateStage::ValidateSize => StoreStep::ValidateSize { fragment: self.original },
            ObliterateStage::GetObject => StoreStep::GetObject {
                bucket: self.bucket,
                key: self.address.hash.text(),
            },
            ObliterateStage::References => StoreStep::References,
            ObliterateStage::Children => StoreStep::Obliterate {
                repository: self.repository,
                addresses: self.children,
            },
            ObliterateStage::Release => StoreStep::Release {
                repository: self.repository,
                address: self.address,
            },
            ObliterateStage::Delete => self.deletion.step(),
            ObliterateStage::Finalize => StoreStep::Finalize { hash: self.address.hash },
            ObliterateStage::Finished | ObliterateStage::Failed => StoreStep::Finish,
        }
    }

    /// The state after a failure.
    pub open spec fn fail(self, failure: StoreFailure) -> ObliterateState {
        ObliterateState { failure: Some(failure), stage: ObliterateStage::Failed, ..self }
    }

    /// The state once it is known what came of the fragments that the payload lists. What was done for
    /// them counts, whether or not all of it was.
    pub open spec fn take_children(self, outcomes: Seq<ChildOutcome>) -> ObliterateState {
        let state = ObliterateState {
            outcomes,
            num_fragments: wrapped(self.num_fragments + fragments_in(outcomes)),
            num_payloads: wrapped(self.num_payloads + payloads_in(outcomes)),
            ..self
        };
        if all_obliterated(outcomes) {
            ObliterateState { children_done: true, stage: ObliterateStage::Release, ..state }
        } else {
            state.fail(
                StoreFailure::Internal("Failed to obliterate immutable "@ + self.address.text()),
            )
        }
    }

    /// The state after `event`.
    pub open spec fn after(self, event: StoreEvent) -> ObliterateState {
        match (self.stage, event) {
            (ObliterateStage::Begin, StoreEvent::Begun(Err(error))) => self.fail(error@),
            (ObliterateStage::Begin, StoreEvent::Begun(Ok(begun))) => match begun {
                BeginObliteration::AlreadyObliterated => ObliterateState {
                    stage: ObliterateStage::Finished,
                    ..self
                },
                BeginObliteration::Acquired { original, marker } => ObliterateState {
                    original,
                    marker,
                    stage: ObliterateStage::ValidateSize,
                    ..self
                },
            },
            (ObliterateStage::ValidateSize, StoreEvent::Done(Err(error))) => self.fail(error@),
            (ObliterateStage::ValidateSize, StoreEvent::Done(Ok(()))) => ObliterateState {
                stage: if self.fragmented() {
                    ObliterateStage::GetObject
                } else {
                    ObliterateStage::Release
                },
                ..self
            },
            (ObliterateStage::GetObject, StoreEvent::Contents(Err(error))) => self.fail(error@),
            (ObliterateStage::GetObject, StoreEvent::Contents(Ok(contents))) => match payload_in(
                contents@,
                self.address.hash,
                self.original,
                self.force_write,
            ) {
                Ok(payload) => ObliterateState {
                    payload: Some(payload),
                    stage: ObliterateStage::References,
                    ..self
                },
                Err(failure) => self.fail(failure),
            },
            // A fragment of a payload is associated for the context of the payload.
            (ObliterateStage::References, StoreEvent::References(hashes)) => ObliterateState {
                children: hashes@.map_values(
                    |hash: ContentHash| Address { hash, context: self.address.context },
                ),
                stage: ObliterateStage::Children,
                ..self
            },
            (ObliterateStage::Children, StoreEvent::Obliterated(outcomes)) => self.take_children(
                outcomes@,
            ),
            (ObliterateStage::Release, StoreEvent::Released(Err(error))) => self.fail(error@),
            (ObliterateStage::Release, StoreEvent::Released(Ok(released))) => {
                let state = ObliterateState {
                    num_fragments: wrapped(self.num_fragments + 1),
                    released: true,
                    ..self
                };
                match released {
                    ReleaseAssociation::ReferencesRemain => ObliterateState {
                        stage: ObliterateStage::Finished,
                        ..state
                    },
                    ReleaseAssociation::Unreferenced => ObliterateState {
                        unreferenced: true,
                        stage: ObliterateStage::Delete,
                        ..state
                    },
                }
            },
            (ObliterateStage::Delete, _) => {
                let deletion = self.deletion.after(event);
                let state = ObliterateState { deletion, ..self };
                match deletion.stage {
                    DeletionStage::Finished => ObliterateState {
                        num_payloads: wrapped(self.num_payloads + 1),
                        deleted: true,
                        stage: ObliterateStage::Finalize,
                        ..state
                    },
                    DeletionStage::Failed => ObliterateState {
                        failure: deletion.failure,
                        stage: ObliterateStage::Failed,
                        ..state
                    },
                    _ => state,
                }
            },
            (ObliterateStage::Finalize, StoreEvent::Done(Ok(()))) => ObliterateState {
                stage: ObliterateStage::Finished,
                ..self
            },
            (ObliterateStage::Finalize, StoreEvent::Done(Err(error))) => self.fail(error@),
            _ => self,
        }
    }

    /// The state after each of `events` in turn, if each is what can come of the step before it.
    pub open spec fn after_all(self, events: Seq<StoreEvent>) -> Option<ObliterateState>
        decreases events.len(),
    {
        if events.len() == 0 {
            Some(self)
        } else {
            match self.after_all(events.drop_last()) {
                Some(state) if answers_store(events.last(), state.step()) => Some(
                    state.after(events.last()),
                ),
                _ => None,
            }
        }
    }

    /// Whether the state is one that an operation can be in.
    pub open spec fn valid(self) -> bool {
        &&& self.failure is Some <==> self.stage == ObliterateStage::Failed
        &&& self.deletion.valid()
        &&& self.num_fragments == wrapped(fragments_in(self.outcomes) + once(self.released))
        &&& self.num_payloads == wrapped(payloads_in(self.outcomes) + once(self.deleted))
        &&& self.released ==> self.fragmented() ==> self.children_done
        &&& self.children_done ==> self.outcomes.len() == self.children.len() && all_obliterated(
            self.outcomes,
        )
        &&& self.deleted ==> self.unreferenced
        &&& self.unreferenced ==> self.released
        &&& !all_obliterated(self.outcomes) ==> self.stage == ObliterateStage::Failed
            && !self.released
        &&& match self.stage {
            ObliterateStage::Begin | ObliterateStage::ValidateSize => !self.released
                && self.outcomes.len() == 0 && !self.children_done,
            ObliterateStage::GetObject | ObliterateStage::References
            | ObliterateStage::Children => !self.released && self.outcomes.len() == 0
                && !self.children_done && self.fragmented(),
            ObliterateStage::Release => !self.released && (self.fragmented()
                ==> self.children_done),
            ObliterateStage::Delete => self.released && !self.deleted && self.unreferenced
                && self.deletion.stage != DeletionStage::Finished && self.deletion.stage
                != DeletionStage::Failed,
            ObliterateStage::Finalize => self.deleted,
            ObliterateStage::Finished => self.unreferenced ==> self.deleted,
            ObliterateStage::Failed => true,
        }
        &&& !self.released ==> self.deletion.stage != DeletionStage::Finished
            && self.deletion.stage != DeletionStage::Failed
    }
}

/// Each event leads from a state that an operation can be in to another.
proof fn lemma_obliterate_stays_valid(state: ObliterateState, event: StoreEvent)
    requires
        state.valid(),
        answers_store(event, state.step()),
    ensures
        state.after(event).valid(),
{
}

/// A payload is deleted only once nothing refers to it any more, and marked as obliterated only once
/// it is deleted. An association is dropped only after every one of the fragments that the payload
/// lists is obliterated: where one is not, the association and the payload stay. What is counted is
/// what was done for the payload itself and for those fragments.
pub proof fn a_payload_is_deleted_only_when_unreferenced(
    bucket: Seq<char>,
    versioning: S3ObjectVersioning,
    force_write: bool,
    masks: FlagMasks,
    repository: Context,
    address: Address,
    events: Seq<StoreEvent>,
)
    ensures
        match ObliterateState::start(
            bucket,
            versioning,
            force_write,
            masks,
            repository,
            address,
        ).after_all(events) {
            Some(state) => {
                &&& state.valid()
                &&& state.stage == ObliterateStage::Delete ==> state.unreferenced && state.released
                &&& state.step() is Finalize ==> state.deleted && state.unreferenced
                &&& state.step() is Release && state.fragmented() ==> state.outcomes.len()
                    == state.children.len() && all_obliterated(state.outcomes)
                &&& !all_obliterated(state.outcomes) ==> state.stage == ObliterateStage::Failed
                    && !state.released && !state.deleted
                &&& state.num_fragments == wrapped(
                    fragments_in(state.outcomes) + once(state.released),
                )
                &&& state.num_payloads == wrapped(payloads_in(state.outcomes) + once(state.deleted))
                &&& state.stage == ObliterateStage::Finished ==> (state.unreferenced
                    <==> state.deleted)
            },
            None => true,
        },
    decreases events.len(),
{
    if events.len() > 0 {
        a_payload_is_deleted_only_when_unreferenced(
            bucket,
            versioning,
            force_write,
            masks,
            repository,
            address,
            events.drop_last(),
        );
        let start = ObliterateState::start(
            bucket,
            versioning,
            force_write,
            masks,
            repository,
            address,
        );
        if let Some(state) = start.after_all(events.drop_last()) {
            if answers_store(events.last(), state.step()) {
                lemma_obliterate_stays_valid(state, events.last());
            }
        }
    }
}

/// Where each of the fragments counts one association and one payload, all of them count as many as
/// they are.
proof fn lemma_each_counts_once(outcomes: Seq<ChildOutcome>)
    requires
        forall|i: int|
            0 <= i < outcomes.len() ==> (#[trigger] outcomes[i]).num_fragments == 1
                && outcomes[i].num_payloads == 1,
    ensures
        fragments_in(outcomes) == outcomes.len(),
        payloads_in(outcomes) == outcomes.len(),
    decreases outcomes.len(),
{
    if outcomes.len() > 0 {
        let rest = outcomes.drop_last();
        assert forall|i: int| 0 <= i < rest.len() implies (#[trigger] rest[i]).num_fragments == 1
            && rest[i].num_payloads == 1 by {
            assert(rest[i] == outcomes[i]);
        }
        lemma_each_counts_once(rest);
        assert(outcomes[outcomes.len() - 1] == outcomes.last());
    }
}

/// Obliterating a payload that lists fragments, each of them and the payload itself the last reference
/// there is, counts one association and one payload more than there are fragments.
pub proof fn a_list_counts_itself_and_its_fragments(
    bucket: Seq<char>,
    versioning: S3ObjectVersioning,
    force_write: bool,
    masks: FlagMasks,
    repository: Context,
    address: Address,
    events: Seq<StoreEvent>,
)
    ensures
        match ObliterateState::start(
            bucket,
            versioning,
            force_write,
            masks,
            repository,
            address,
        ).after_all(events) {
            Some(state) => state.stage == ObliterateStage::Finished && state.released
                && state.fragmented() && state.unreferenced && (forall|i: int|
                0 <= i < state.outcomes.len() ==> (#[trigger] state.outcomes[i]).num_fragments == 1
                    && state.outcomes[i].num_payloads == 1) && state.children.len() < u64::MAX ==> {
                &&& state.num_fragments == state.children.len() + 1
                &&& state.num_payloads == state.children.len() + 1
            },
            None => true,
        },
{
    a_payload_is_deleted_only_when_unreferenced(
        bucket,
        versioning,
        force_write,
        masks,
        repository,
        address,
        events,
    );
    let start = ObliterateState::start(
        bucket,
        versioning,
        force_write,
        masks,
        repository,
        address,
    );
    if let Some(state) = start.after_all(events) {
        if forall|i: int|
            0 <= i < state.outcomes.len() ==> (#[trigger] state.outcomes[i]).num_fragments == 1
                && state.outcomes[i].num_payloads == 1 {
            lemma_each_counts_once(state.outcomes);
        }
    }
}

/// An operation in progress.
pub struct Obliterate {
    pub store: AwsImmutableStore,
    pub masks: FlagMasks,
    pub repository: Context,
    pub address: Address,
    pub original: Fragment,
    pub marker: Fragment,
    pub payload: Option<Bytes>,
    pub children: Vec<Address>,
    pub outcomes: Vec<ChildOutcome>,
    pub children_done: bool,
    pub deletion: Deletion,
    pub num_fragments: u64,
    pub num_payloads: u64,
    pub released: bool,
    pub unreferenced: bool,
    pub deleted: bool,
    pub failure: Option<StoreError>,
    pub stage: ObliterateStage,
}

impl View for Obliterate {
    type V = ObliterateState;

    open spec fn view(&self) -> ObliterateState {
        ObliterateState {
            bucket: self.store.bucket@,
            versioning: self.store.object_versioning,
            force_write: self.store.force_write,
            masks: self.masks,
            repository: self.repository,
            address: self.address,
            original: self.original,
            marker: self.marker,
            payload: match self.payload {
                Some(payload) => Some(shared(payload)),
                None => None,
            },
            children: self.children@,
            outcomes: self.outcomes@,
            children_done: self.children_done,
            deletion: self.deletion@,
            num_fragments: self.num_fragments as int,
            num_payloads: self.num_payloads as int,
            released: self.released,
            unreferenced: self.unreferenced,
            deleted: self.deleted,
            failure: optional_failure(self.failure),
            stage: self.stage,
        }
    }
}

impl AwsImmutableStore {
    /// Starts to obliterate what is stored for a repository at an address.
    pub fn obliterate(&self, masks: FlagMasks, repository: Context, address: Address) -> (operation:
        Obliterate)
        ensures
            operation@ == ObliterateState::start(
                self.bucket@,
                self.object_versioning,
                self.force_write,
                masks,
                repository,
                address,
            ),
            operation@.valid(),
    {
        let nothing = Fragment { flags: 0, size_payload: 0, size_content: 0 };
        Obliterate {
            store: AwsImmutableStore {
                bucket: self.bucket.clone(),
                object_versioning: self.object_versioning,
                force_write: self.force_write,
            },
            masks,
            repository,
            address,
            original: nothing,
            marker: nothing,
            payload: None,
            children: Vec::new(),
            outcomes: Vec::new(),
            children_done: false,
            deletion: self.delete_payload(address.hash),
            num_fragments: 0,
            num_payloads: 0,
            released: false,
            unreferenced: false,
            deleted: false,
            failure: None,
            stage: ObliterateStage::Begin,
        }
    }
}

impl Obliterate {
    /// What to do next.
    pub fn action(&self) -> (action: StoreAction)
        requires
            self@.valid(),
        ensures
            action@ == self@.step(),
    {
        match self.stage {
            ObliterateStage::Begin => StoreAction::BeginObliteration { hash: self.address.hash },
            ObliterateStage::ValidateSize => StoreAction::ValidateSize { fragment: self.original },
            ObliterateStage::GetObject => StoreAction::GetObject {
                bucket: self.store.bucket.clone(),
                key: self.address.hash.to_text(),
            },
            ObliterateStage::References => StoreAction::References,
            ObliterateStage::Children => {
                let addresses: Vec<Address> = self.children.clone();
                proof {
                    assert(addresses@ =~= self.children@);
                }
                StoreAction::Obliterate { repository: self.repository, addresses }
            },
            ObliterateStage::Release => StoreAction::Release {
                repository: self.repository,
                address: self.address,
            },
            ObliterateStage::Delete => self.deletion.action(),
            ObliterateStage::Finalize => StoreAction::Finalize { hash: self.address.hash },
            ObliterateStage::Finished | ObliterateStage::Failed => StoreAction::Finish,
        }
    }

    /// Takes a failure.
    fn fail(&mut self, error: StoreError)
        ensures
            final(self)@ == old(self)@.fail(error@),
    {
        self.failure = Some(error);
        self.stage = ObliterateStage::Failed;
    }

    /// The addresses of fragments, for the context of the payload that lists them.
    fn addresses(&self, hashes: &Vec<ContentHash>) -> (addresses: Vec<Address>)
        ensures
            addresses@ == hashes@.map_values(
                |hash: ContentHash| Address { hash, context: self.address.context },
            ),
    {
        let mut addresses: Vec<Address> = Vec::new();
        let mut i: usize = 0;
        while i < hashes.len()
            invariant
                i <= hashes@.len(),
                addresses@.len() == i,
                forall|j: int|
                    0 <= j < i ==> #[trigger] addresses@[j] == (Address {
                        hash: hashes@[j],
                        context: self.address.context,
                    }),
            decreases hashes@.len() - i,
        {
            addresses.push(Address { hash: hashes[i], context: self.address.context });
            i = i + 1;
        }
        proof {
            assert(addresses@ =~= hashes@.map_values(
                |hash: ContentHash| Address { hash, context: self.address.context },
            ));
        }
        addresses
    }

    /// Takes what came of the fragments that the payload lists.
    fn children_obliterated(&mut self, outcomes: Vec<ChildOutcome>)
        ensures
            final(self)@ == old(self)@.take_children(outcomes@),
    {
        let mut num_fragments: u64 = self.num_fragments;
        let mut num_payloads: u64 = self.num_payloads;
        let mut all: bool = true;
        let mut i: usize = 0;
        while i < outcomes.len()
            invariant
                i <= outcomes@.len(),
                num_fragments == wrapped(
                    self.num_fragments + fragments_in(outcomes@.take(i as int)),
                ),
                num_payloads == wrapped(self.num_payloads + payloads_in(outcomes@.take(i as int))),
                all == all_obliterated(outcomes@.take(i as int)),
            decreases outcomes@.len() - i,
        {
            let outcome: ChildOutcome = outcomes[i];
            proof {
                let taken = outcomes@.take(i + 1);
                assert(taken.drop_last() =~= outcomes@.take(i as int));
                assert(taken.last() == outcome);
                if all_obliterated(taken) {
                    assert(taken[i as int].obliterated);
                    assert forall|j: int| 0 <= j < i implies (#[trigger] outcomes@.take(
                        i as int,
                    )[j]).obliterated by {
                        assert(taken[j].obliterated);
                    }
                }
                if all && outcome.obliterated {
                    assert forall|j: int| 0 <= j < i + 1 implies (
                    #[trigger] taken[j]).obliterated by {
                        if j < i {
                            assert(outcomes@.take(i as int)[j].obliterated);
                        }
                    }
                }
            }
            num_fragments = num_fragments.wrapping_add(outcome.num_fragments);
            num_payloads = num_payloads.wrapping_add(outcome.num_payloads);
            all = all && outcome.obliterated;
            i = i + 1;
        }
        proof {
            assert(outcomes@.take(i as int) =~= outcomes@);
        }
        self.outcomes = outcomes;
        self.num_fragments = num_fragments;
        self.num_payloads = num_payloads;
        if all {
            self.children_done = true;
            self.stage = ObliterateStage::Release;
        } else {
            let message = "Failed to obliterate immutable ".to_owned().concat(
                self.address.to_text().as_str(),
            );
            self.fail(StoreError::Internal(message));
        }
    }

    /// Takes what the object holds.
    fn read(&mut self, contents: ObjectContents)
        ensures
            final(self)@ == match payload_in(
                contents@,
                old(self)@.address.hash,
                old(self)@.original,
                old(self)@.force_write,
            ) {
                Ok(payload) => ObliterateState {
                    payload: Some(payload),
                    stage: ObliterateStage::References,
                    ..old(self)@
                },
                Err(failure) => old(self)@.fail(failure),
            },
    {
        match self.store.read_payload(contents, self.address.hash, self.original) {
            Ok(payload) => {
                self.payload = Some(payload);
                self.stage = ObliterateStage::References;
            },
            Err(error) => self.fail(error),
        }
    }

    /// Takes what came of the action.
    pub fn advance(&mut self, event: StoreEvent)
        requires
            old(self)@.valid(),
            answers_store(event, old(self)@.step()),
        ensures
            final(self)@ == old(self)@.after(event),
            final(self)@.valid(),
    {
        proof {
            lemma_obliterate_stays_valid(self@, event);
        }
        match self.stage {
            ObliterateStage::Begin => match event {
                StoreEvent::Begun(Ok(BeginObliteration::Acquired { original, marker })) => {
                    self.original = original;
                    self.marker = marker;
                    self.stage = ObliterateStage::ValidateSize;
                },
                StoreEvent::Begun(Err(error)) => self.fail(error),
                _ => {
                    self.stage = ObliterateStage::Finished;
                },
            },
            ObliterateStage::ValidateSize => match event {
                StoreEvent::Done(Err(error)) => self.fail(error),
                _ => {
                    self.stage = if self.marker.flags & self.masks.fragmented != 0 {
                        ObliterateStage::GetObject
                    } else {
                        ObliterateStage::Release
                    };
                },
            },
            ObliterateStage::GetObject => match event {
                StoreEvent::Contents(Ok(contents)) => self.read(contents),
                StoreEvent::Contents(Err(error)) => self.fail(error),
                _ => {},
            },
            ObliterateStage::References => match event {
                StoreEvent::References(hashes) => {
                    self.children = self.addresses(&hashes);
                    self.stage = ObliterateStage::Children;
                },
                _ => {},
            },
            ObliterateStage::Children => match event {
                StoreEvent::Obliterated(outcomes) => self.children_obliterated(outcomes),
                _ => {},
            },
            ObliterateStage::Release => match event {
                StoreEvent::Released(Ok(released)) => {
                    self.num_fragments = self.num_fragments.wrapping_add(1);
                    self.released = true;
                    match released {
                        ReleaseAssociation::ReferencesRemain => {
                            self.stage = ObliterateStage::Finished;
                        },
                        ReleaseAssociation::Unreferenced => {
                            self.unreferenced = true;
                            self.stage = ObliterateStage::Delete;
                        },
                    }
                },
                StoreEvent::Released(Err(error)) => self.fail(error),
                _ => {},
            },
            ObliterateStage::Delete => {
                self.deletion.advance(event);
                match self.deletion.stage {
                    DeletionStage::Finished => {
                        self.num_payloads = self.num_payloads.wrapping_add(1);
                        self.deleted = true;
                        self.stage = ObliterateStage::Finalize;
                    },
                    DeletionStage::Failed => {
                        let failure: Option<StoreError> = match &self.deletion.failure {
                            Some(error) => Some(error.duplicate()),
                            None => None,
                        };
                        self.failure = failure;
                        self.stage = ObliterateStage::Failed;
                    },
                    _ => {},
                }
            },
            ObliterateStage::Finalize => match event {
                StoreEvent::Done(Err(error)) => self.fail(error),
                _ => {
                    self.stage = ObliterateStage::Finished;
                },
            },
            ObliterateStage::Finished | ObliterateStage::Failed => {},
        }
    }

    /// How the operation ended.
    pub fn outcome(self) -> (outcome: Result<(), StoreError>)
        requires
            self@.valid(),
            self@.step() == StoreStep::Finish,
        ensures
            match outcome {
                Ok(()) => self@.stage == ObliterateStage::Finished,
                Err(error) => self@.stage == ObliterateStage::Failed && self@.failure
                    == Some(error@),
            },
    {
        match self.failure {
            Some(error) => Err(error),
            None => Ok(()),
        }
    }
}

} // verus!
