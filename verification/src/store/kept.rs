//! What the object store and the catalog keep of what is stored, and what a lookup is told of it.

use vstd::prelude::*;

use super::action::{StoreEvent, StoreStep};
use super::get::{GetState, Verdict};
use super::put::{PutStage, PutState};
use super::types::{Fragment, StoreFailure, StoreMatch};
use crate::types::{Address, Context};

verus! {

/// What an object store and a catalog hold.
pub struct Kept {
    /// What each object holds, by bucket and key.
    pub objects: Map<(Seq<char>, Seq<char>), Seq<u8>>,
    /// The metadata of each payload, by the text of its hash.
    pub metadata: Map<Seq<char>, Fragment>,
    /// Which addresses are associated with which repositories.
    pub associations: Set<(Context, Address)>,
}

impl Kept {
    /// What is held after a step that succeeded.
    pub open spec fn after(self, step: StoreStep) -> Kept {
        match step {
            StoreStep::PutObject { bucket, key, body } => Kept {
                objects: self.objects.insert((bucket, key), body),
                ..self
            },
            StoreStep::Register { repository, address, fragment } => Kept {
                metadata: self.metadata.insert(address.hash.text(), fragment),
                associations: self.associations.insert((repository, address)),
                ..self
            },
            StoreStep::Associate { repository, address } => Kept {
                associations: self.associations.insert((repository, address)),
                ..self
            },
            _ => self,
        }
    }

    /// What is held after each of `events` came in turn of the steps of an operation: a step changes
    /// what is held if it succeeded.
    pub open spec fn after_all(self, start: PutState, events: Seq<StoreEvent>) -> Kept
        decreases events.len(),
    {
        if events.len() == 0 {
            self
        } else {
            let before = self.after_all(start, events.drop_last());
            match start.after_all(events.drop_last()) {
                Some(state) => match events.last() {
                    StoreEvent::Requested(Ok(())) | StoreEvent::Done(Ok(())) => before.after(
                        state.step(),
                    ),
                    _ => before,
                },
                None => before,
            }
        }
    }

    /// Whether nothing is held of a payload.
    pub open spec fn lacks(self, address: Address) -> bool {
        forall|repository: Context, other: Address| #[trigger]
            self.associations.contains((repository, other)) ==> other.hash != address.hash
    }

    /// Whether a lookup of what is stored for a repository is told what is held: that its address
    /// matches in full just where it is associated, the metadata if it is there and the payload is not
    /// obliterated, or being so, and the object if it is there.
    pub open spec fn tells(self, get: GetState, bucket: Seq<char>, repository: Context) -> bool {
        let key = get.address.hash.text();
        &&& get.exists matches Some(Ok(made)) && (made == StoreMatch::MatchFull
            <==> self.associations.contains((repository, get.address)))
        &&& self.metadata.contains_key(key) && self.metadata[key].flags & get.masks.obliteration
            == 0 ==> get.metadata == Some(Ok::<Fragment, StoreFailure>(self.metadata[key]))
        &&& self.objects.contains_key((bucket, key)) ==> get.contents == Some(
            Ok::<Seq<u8>, StoreFailure>(self.objects[(bucket, key)]),
        )
    }
}

/// How much of a fragment is held follows from where the operation that stores it is.
proof fn lemma_kept(kept: Kept, start: PutState, events: Seq<StoreEvent>, payload: Seq<u8>)
    requires
        start == PutState::start(
            start.bucket,
            start.force_write,
            start.masks,
            start.repository,
            start.address,
            start.fragment,
            Some(payload),
        ),
        kept.lacks(start.address),
        start.after_all(events) is Some,
    ensures
        ({
            let state = start.after_all(events)->0;
            let held = kept.after_all(start, events);
            let key = start.address.hash.text();
            &&& state.valid()
            &&& state.payload == Some(payload) && state.bucket == start.bucket && state.address
                == start.address && state.repository == start.repository
            &&& state.stage == PutStage::Associate ==> !state.written
            &&& state.written ==> held.objects.contains_pair((start.bucket, key), payload)
            &&& state.written && state.stage == PutStage::Finished
                ==> held.metadata.contains_pair(key, state.fragment) && held.associations.contains(
                (start.repository, start.address),
            )
            &&& state.stage != PutStage::Sanitise && state.stage != PutStage::Failed
                ==> events.len() > 0 && events[0] == StoreEvent::Sanitised(state.fragment.flags)
            &&& state.fragment == (Fragment { flags: state.fragment.flags, ..start.fragment })
            &&& forall|repository: Context, other: Address| #[trigger]
                held.associations.contains((repository, other)) && other.hash
                    == start.address.hash ==> other == start.address
        }),
    decreases events.len(),
{
    if events.len() > 0 {
        let before = events.drop_last();
        lemma_kept(kept, start, before, payload);
        let state = start.after_all(before)->0;
        if before.len() > 0 {
            assert(before[0] == events[0]);
        } else {
            assert(state == start);
            assert(events.last() == events[0]);
        }
        let earlier = kept.after_all(start, before);
        let held = kept.after_all(start, events);
        assert forall|repository: Context, other: Address| #[trigger]
            held.associations.contains((repository, other)) && other.hash
                == start.address.hash implies other == start.address by {
            if other != start.address {
                assert(earlier.associations.contains((repository, other)));
            }
        }
    }
}

/// What is stored is read back. Where nothing was held of a payload, an operation that stores it and
/// ends well, told of no match, leaves what a lookup is told of so that the lookup loads that payload
/// and the fragment, with the flags that are kept of it. Left out are flags that say that the payload
/// is obliterated, or being so. A lookup for another context is told that the address is not there.
pub proof fn what_is_put_is_read_back(
    kept: Kept,
    start: PutState,
    events: Seq<StoreEvent>,
    payload: Seq<u8>,
    get: GetState,
)
    requires
        start == PutState::start(
            start.bucket,
            start.force_write,
            start.masks,
            start.repository,
            start.address,
            start.fragment,
            Some(payload),
        ),
        kept.lacks(start.address),
        start.after_all(events) matches Some(state) && state.stage == PutStage::Finished
            && state.match_made() == StoreMatch::MatchNone,
        get.address.hash == start.address.hash,
        get.required == StoreMatch::MatchFull,
        kept.after_all(start, events).tells(get, start.bucket, start.repository),
        events[0] matches StoreEvent::Sanitised(flags) && flags & get.masks.obliteration == 0,
    ensures
        get.address == start.address ==> (events[0] matches StoreEvent::Sanitised(flags)
            && get.verdict() == Verdict::Load(Fragment { flags, ..start.fragment }, payload)
            && payload.len() == start.fragment.size_payload),
        get.address.context != start.address.context ==> get.verdict() == Verdict::Fail(
            StoreFailure::AddressNotFound(get.address),
        ),
{
    lemma_kept(kept, start, events, payload);
}

} // verus!
