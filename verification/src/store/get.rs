//! Loading a fragment and its payload.
//!
//! Whether the address exists, what its metadata is and what the object holds are asked at once. The
//! answers count in that order, whatever order they come in: a failure of an earlier one is what is
//! said, and is said without waiting for a later one.

use bytes::Bytes;
use vstd::prelude::*;

use super::payload::{payload_in, shared, ObjectContents};
use super::settings::AwsImmutableStore;
use super::types::{
    ensure_exists, is_zero_context, zero_context_hash, FlagMasks, Fragment, StoreError,
    StoreFailure, StoreMatch,
};
use crate::types::{Address, ContentHash};

verus! {

/// What is said of an outcome.
pub open spec fn said<T>(outcome: Result<T, StoreError>) -> Result<T, StoreFailure> {
    match outcome {
        Ok(value) => Ok(value),
        Err(error) => Err(error@),
    }
}

/// What is said of an answer that there may be.
pub open spec fn answered<T>(answer: Option<Result<T, StoreError>>) -> Option<
    Result<T, StoreFailure>,
> {
    match answer {
        Some(outcome) => Some(said(outcome)),
        None => None,
    }
}

/// The metadata of a payload, if it is there and its sizes are valid.
pub open spec fn size_validated(
    metadata: Result<Fragment, StoreFailure>,
    validated: Result<(), StoreFailure>,
) -> Result<Fragment, StoreFailure> {
    match (metadata, validated) {
        (Ok(fragment), Ok(())) => Ok(fragment),
        (Ok(_), Err(failure)) => Err(failure),
        (Err(failure), _) => Err(failure),
    }
}

/// The metadata of a payload, from what the catalog says of it and whether its sizes are valid.
pub fn metadata_with_size_validation(
    metadata: Result<Fragment, StoreError>,
    validated: Result<(), StoreError>,
) -> (checked: Result<Fragment, StoreError>)
    ensures
        said(checked) == size_validated(said(metadata), said(validated)),
{
    match (metadata, validated) {
        (Ok(fragment), Ok(())) => Ok(fragment),
        (Ok(_), Err(error)) => Err(error),
        (Err(error), _) => Err(error),
    }
}

/// Whether an outcome is that of checking the metadata of the payload with a hash before it is loaded:
/// the metadata, unless its sizes are not valid or the payload is obliterated, or being so.
pub open spec fn is_load_validated(
    checked: Result<Fragment, StoreError>,
    metadata: Result<Fragment, StoreFailure>,
    validated: Result<(), StoreFailure>,
    hash: ContentHash,
    masks: FlagMasks,
) -> bool {
    match size_validated(metadata, validated) {
        Ok(fragment) => if fragment.flags & masks.obliteration == 0 {
            checked == Ok::<Fragment, StoreError>(fragment)
        } else {
            checked matches Err(StoreError::AddressNotFound(address)) && is_zero_context(
                address,
                hash,
            )
        },
        Err(failure) => checked matches Err(error) && error@ == failure,
    }
}

/// The metadata of a payload that is to be loaded, from what the catalog says of it and whether its
/// sizes are valid.
pub fn metadata_with_load_validation(
    metadata: Result<Fragment, StoreError>,
    validated: Result<(), StoreError>,
    hash: ContentHash,
    masks: FlagMasks,
) -> (checked: Result<Fragment, StoreError>)
    ensures
        is_load_validated(checked, said(metadata), said(validated), hash, masks),
{
    let metadata: Fragment = match metadata_with_size_validation(metadata, validated) {
        Ok(metadata) => metadata,
        Err(error) => {
            return Err(error);
        },
    };
    if metadata.flags & masks.obliteration != 0 {
        return Err(StoreError::AddressNotFound(zero_context_hash(hash)));
    }
    Ok(metadata)
}

/// The answers that have come so far.
pub struct GetState {
    pub address: Address,
    pub required: StoreMatch,
    pub force_write: bool,
    pub masks: FlagMasks,
    pub exists: Option<Result<StoreMatch, StoreFailure>>,
    pub metadata: Option<Result<Fragment, StoreFailure>>,
    pub contents: Option<Result<Seq<u8>, StoreFailure>>,
}

/// What follows from the answers so far.
pub enum Verdict {
    /// More answers are needed.
    Wait,
    /// This is said, whatever comes.
    Fail(StoreFailure),
    /// The fragment, with its payload.
    Load(Fragment, Seq<u8>),
}

impl GetState {
    /// What follows from the metadata and the object alone.
    pub open spec fn loaded(self) -> Verdict {
        match self.metadata {
            None => Verdict::Wait,
            Some(Err(failure)) => Verdict::Fail(failure),
            Some(Ok(fragment)) => match self.contents {
                None => Verdict::Wait,
                Some(Err(failure)) => Verdict::Fail(failure),
                Some(Ok(contents)) => match payload_in(
                    contents,
                    self.address.hash,
                    fragment,
                    self.force_write,
                ) {
                    Ok(payload) => Verdict::Load(fragment, payload),
                    Err(failure) => Verdict::Fail(failure),
                },
            },
        }
    }

    /// What follows from the answers so far.
    pub open spec fn verdict(self) -> Verdict {
        match self.exists {
            None => Verdict::Wait,
            Some(Err(failure)) => Verdict::Fail(failure),
            Some(Ok(made)) => if made == self.required {
                self.loaded()
            } else {
                Verdict::Fail(StoreFailure::AddressNotFound(self.address))
            },
        }
    }

    /// Whether the metadata, if it is there, is that of a payload that can be loaded.
    pub open spec fn valid(self) -> bool {
        self.metadata matches Some(Ok(fragment)) ==> fragment.flags & self.masks.obliteration == 0
    }
}

/// What is loaded matches as well as required, is neither obliterated nor being so, and is as long as
/// its metadata says.
pub proof fn only_what_is_stored_is_loaded(state: GetState, fragment: Fragment, payload: Seq<u8>)
    requires
        state.valid(),
        state.verdict() == Verdict::Load(fragment, payload),
    ensures
        state.exists == Some(Ok::<StoreMatch, StoreFailure>(state.required)),
        state.metadata == Some(Ok::<Fragment, StoreFailure>(fragment)),
        fragment.flags & state.masks.obliteration == 0,
        payload.len() == fragment.size_payload,
{
}

/// Once something follows from the answers, no later answer changes it: what is loaded, or said,
/// depends on the answers alone and not on the order they come in.
pub proof fn later_answers_change_nothing(
    state: GetState,
    exists: Result<StoreMatch, StoreFailure>,
    metadata: Result<Fragment, StoreFailure>,
    contents: Result<Seq<u8>, StoreFailure>,
)
    requires
        state.verdict() !is Wait,
    ensures
        state.exists is None ==> (GetState { exists: Some(exists), ..state }).verdict()
            == state.verdict(),
        state.metadata is None ==> (GetState { metadata: Some(metadata), ..state }).verdict()
            == state.verdict(),
        state.contents is None ==> (GetState { contents: Some(contents), ..state }).verdict()
            == state.verdict(),
{
}

/// What is handed out of what was loaded, once it is known whether the sizes in its metadata are valid
/// for its payload.
pub fn validated_load(loaded: (Fragment, Bytes), validated: Result<(), StoreError>) -> (handed:
    Result<(Fragment, Bytes), StoreError>)
    ensures
        match validated {
            Ok(()) => handed == Ok::<(Fragment, Bytes), StoreError>(loaded),
            Err(error) => handed == Err::<(Fragment, Bytes), StoreError>(error),
        },
{
    match validated {
        Ok(()) => Ok(loaded),
        Err(error) => Err(error),
    }
}

/// A lookup in progress.
pub struct Get {
    pub address: Address,
    pub required: StoreMatch,
    pub force_write: bool,
    pub masks: FlagMasks,
    pub exists: Option<Result<StoreMatch, StoreError>>,
    pub metadata: Option<Result<Fragment, StoreError>>,
    pub contents: Option<Result<ObjectContents, StoreError>>,
}

impl View for Get {
    type V = GetState;

    open spec fn view(&self) -> GetState {
        GetState {
            address: self.address,
            required: self.required,
            force_write: self.force_write,
            masks: self.masks,
            exists: answered(self.exists),
            metadata: answered(self.metadata),
            contents: match self.contents {
                Some(Ok(contents)) => Some(Ok(contents@)),
                Some(Err(error)) => Some(Err(error@)),
                None => None,
            },
        }
    }
}

impl AwsImmutableStore {
    /// Starts to load what is stored at an address, which must match as well as required.
    pub fn get(&self, masks: FlagMasks, address: Address, required: StoreMatch) -> (get: Get)
        ensures
            get@ == (GetState {
                address,
                required,
                force_write: self.force_write,
                masks,
                exists: None,
                metadata: None,
                contents: None,
            }),
            get@.valid(),
    {
        Get {
            address,
            required,
            force_write: self.force_write,
            masks,
            exists: None,
            metadata: None,
            contents: None,
        }
    }
}

impl Get {
    /// Takes how well the address matches.
    pub fn exists_came(&mut self, exists: Result<StoreMatch, StoreError>)
        ensures
            final(self)@ == (GetState { exists: Some(said(exists)), ..old(self)@ }),
            old(self)@.valid() ==> final(self)@.valid(),
    {
        self.exists = Some(exists);
    }

    /// Takes what the catalog says of the payload, and whether the sizes in that are valid.
    pub fn metadata_came(
        &mut self,
        metadata: Result<Fragment, StoreError>,
        validated: Result<(), StoreError>,
    )
        ensures
            final(self)@ == (GetState { metadata: answered(final(self).metadata), ..old(self)@ }),
            final(self).metadata matches Some(checked) && is_load_validated(
                checked,
                said(metadata),
                said(validated),
                old(self)@.address.hash,
                old(self)@.masks,
            ),
            final(self)@.valid(),
    {
        self.metadata = Some(
            metadata_with_load_validation(metadata, validated, self.address.hash, self.masks),
        );
    }

    /// Takes what the object holds.
    pub fn contents_came(&mut self, contents: Result<ObjectContents, StoreError>)
        ensures
            final(self)@ == (GetState {
                contents: Some(
                    match contents {
                        Ok(contents) => Ok(contents@),
                        Err(error) => Err(error@),
                    },
                ),
                ..old(self)@
            }),
            old(self)@.valid() ==> final(self)@.valid(),
    {
        self.contents = Some(contents);
    }

    /// Whether more answers are needed.
    pub fn waits(&self) -> (answer: bool)
        ensures
            answer == (self@.verdict() is Wait),
    {
        match &self.exists {
            None => true,
            Some(Err(_)) => false,
            Some(Ok(made)) => if *made != self.required {
                false
            } else {
                match &self.metadata {
                    None => true,
                    Some(Err(_)) => false,
                    Some(Ok(_)) => self.contents.is_none(),
                }
            },
        }
    }

    /// The fragment with its payload, or why there is none, once no more answers are needed.
    pub fn load(self, store: &AwsImmutableStore) -> (loaded: Result<(Fragment, Bytes), StoreError>)
        requires
            self@.verdict() !is Wait,
            store.force_write == self@.force_write,
        ensures
            match loaded {
                Ok(loaded) => self@.verdict() == Verdict::Load(loaded.0, shared(loaded.1)),
                Err(error) => self@.verdict() == Verdict::Fail(error@),
            },
    {
        let made: StoreMatch = match self.exists {
            Some(Ok(made)) => made,
            Some(Err(error)) => {
                return Err(error);
            },
            None => StoreMatch::MatchNone,
        };
        if let Err(error) = ensure_exists(made, self.required, self.address) {
            return Err(error);
        }
        let fragment: Fragment = match self.metadata.unwrap() {
            Ok(fragment) => fragment,
            Err(error) => {
                return Err(error);
            },
        };
        let contents: ObjectContents = match self.contents.unwrap() {
            Ok(contents) => contents,
            Err(error) => {
                return Err(error);
            },
        };
        match store.read_payload(contents, self.address.hash, fragment) {
            Ok(payload) => Ok((fragment, payload)),
            Err(error) => Err(error),
        }
    }
}

} // verus!
