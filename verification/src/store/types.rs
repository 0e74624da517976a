//! Fragments, and what the store says of them.

use vstd::prelude::*;

use crate::types::{Address, ContentHash, Context};

verus! {

/// How well something that is stored matches what is asked for.
#[derive(Clone, Copy, Debug, PartialEq, Eq, Structural)]
pub enum StoreMatch {
    /// Nothing matches.
    MatchNone,
    /// The hash matches.
    MatchHash,
    /// The hash and the repository match.
    MatchPartition,
    /// The hash, the repository and the context match.
    MatchFull,
}

/// The metadata of a payload.
#[derive(Clone, Copy, Debug, PartialEq, Eq, Structural)]
pub struct Fragment {
    pub flags: u32,
    pub size_payload: u32,
    pub size_content: u64,
}

/// The size of a [`Fragment`], in bytes.
pub const FRAGMENT_SIZE: usize = 16;

/// Which flags of a fragment mean what.
#[derive(Clone, Copy, Debug, PartialEq, Eq, Structural)]
pub struct FlagMasks {
    /// The payload is a list of other fragments.
    pub fragmented: u32,
    /// The payload is being obliterated.
    pub obliterating: u32,
    /// The payload is obliterated.
    pub obliterated: u32,
    /// The payload is obliterated, or being so.
    pub obliteration: u32,
}

/// What a query found.
#[derive(Clone, Copy, Debug, PartialEq, Eq, Structural)]
pub struct StoreQueryResult {
    pub match_made: StoreMatch,
    pub fragment: Fragment,
}

impl StoreQueryResult {
    /// What a query that found nothing says.
    pub open spec fn nothing() -> StoreQueryResult {
        StoreQueryResult {
            match_made: StoreMatch::MatchNone,
            fragment: Fragment { flags: 0, size_payload: 0, size_content: 0 },
        }
    }
}

impl Default for StoreQueryResult {
    fn default() -> (result: StoreQueryResult)
        ensures
            result == StoreQueryResult::nothing(),
    {
        StoreQueryResult {
            match_made: StoreMatch::MatchNone,
            fragment: Fragment { flags: 0, size_payload: 0, size_content: 0 },
        }
    }
}

/// Why the store does not do what it is asked.
#[derive(Debug)]
pub enum StoreError {
    /// Nothing is stored at the address.
    AddressNotFound(Address),
    /// The service behind the store asks for fewer requests.
    SlowDown,
    /// Something went wrong inside.
    Internal(String),
    /// Something went wrong outside, while something was done.
    Failed { error: String, context: String },
}

/// What a [`StoreError`] says.
pub enum StoreFailure {
    AddressNotFound(Address),
    SlowDown,
    Internal(Seq<char>),
    Failed { error: Seq<char>, context: Seq<char> },
}

impl View for StoreError {
    type V = StoreFailure;

    open spec fn view(&self) -> StoreFailure {
        match *self {
            StoreError::AddressNotFound(address) => StoreFailure::AddressNotFound(address),
            StoreError::SlowDown => StoreFailure::SlowDown,
            StoreError::Internal(message) => StoreFailure::Internal(message@),
            StoreError::Failed { error, context } => StoreFailure::Failed {
                error: error@,
                context: context@,
            },
        }
    }
}

impl StoreError {
    /// Another error that says the same.
    pub fn duplicate(&self) -> (same: StoreError)
        ensures
            same@ == self@,
    {
        match self {
            StoreError::AddressNotFound(address) => StoreError::AddressNotFound(*address),
            StoreError::SlowDown => StoreError::SlowDown,
            StoreError::Internal(message) => StoreError::Internal(message.clone()),
            StoreError::Failed { error, context } => StoreError::Failed {
                error: error.clone(),
                context: context.clone(),
            },
        }
    }

    /// Whether something went wrong inside or outside of the store.
    pub fn is_internal(&self) -> (answer: bool)
        ensures
            answer == (self@ is Internal || self@ is Failed),
    {
        matches!(self, StoreError::Internal(_) | StoreError::Failed { .. })
    }

    /// Whether nothing is stored at the address.
    pub fn is_address_not_found(&self) -> (answer: bool)
        ensures
            answer == (self@ is AddressNotFound),
    {
        matches!(self, StoreError::AddressNotFound(_))
    }

    /// Whether fewer requests are asked for.
    pub fn is_slow_down(&self) -> (answer: bool)
        ensures
            answer == (self@ is SlowDown),
    {
        matches!(self, StoreError::SlowDown)
    }
}

/// Why a request to the service behind the store failed.
#[derive(Debug)]
pub enum AwsFailure {
    /// The service, or the way to it, failed.
    Sdk,
    /// Anything else, with what is said of it.
    Other(String),
}

/// What the store says of a request that failed while something was done: to come back later if the
/// service failed.
pub open spec fn request_failed(failure: AwsFailure, context: Seq<char>) -> StoreFailure {
    match failure {
        AwsFailure::Sdk => StoreFailure::SlowDown,
        AwsFailure::Other(error) => StoreFailure::Failed { error: error@, context },
    }
}

/// What the store says of a request that failed while something was done.
pub fn request_error(failure: AwsFailure, context: &str) -> (error: StoreError)
    ensures
        error@ == request_failed(failure, context@),
{
    match failure {
        AwsFailure::Sdk => StoreError::SlowDown,
        AwsFailure::Other(error) => StoreError::Failed { error, context: context.to_owned() },
    }
}

/// An address with a given hash whose context is zero.
pub open spec fn is_zero_context(address: Address, hash: ContentHash) -> bool {
    address.hash == hash && address.context.is_zero()
}

/// The address with a given hash whose context is zero.
pub fn zero_context_hash(hash: ContentHash) -> (address: Address)
    ensures
        is_zero_context(address, hash),
{
    Address { hash, context: Context::default() }
}

/// Whether something that was found matches as well as it must.
pub fn ensure_exists(made: StoreMatch, required: StoreMatch, address: Address) -> (checked: Result<
    (),
    StoreError,
>)
    ensures
        match checked {
            Ok(()) => made == required,
            Err(error) => made != required && error@ == StoreFailure::AddressNotFound(address),
        },
{
    if made != required {
        return Err(StoreError::AddressNotFound(address));
    }
    Ok(())
}

/// What is said to exist: what is asked for if it is what was found, else nothing.
pub fn exist(made: StoreMatch, requested: StoreMatch) -> (answer: StoreMatch)
    ensures
        answer == if made == requested {
            requested
        } else {
            StoreMatch::MatchNone
        },
{
    if made == requested {
        requested
    } else {
        StoreMatch::MatchNone
    }
}

/// What a query answers: what the catalog found, but nothing where a payload that is obliterated, or
/// being so, is to be hidden.
pub fn do_query(result: StoreQueryResult, hide_obliterates: bool, masks: FlagMasks) -> (answer:
    StoreQueryResult)
    ensures
        answer == if hide_obliterates && result.fragment.flags & masks.obliteration != 0 {
            StoreQueryResult::nothing()
        } else {
            result
        },
{
    if hide_obliterates && result.fragment.flags & masks.obliteration != 0 {
        StoreQueryResult::default()
    } else {
        result
    }
}

} // verus!
