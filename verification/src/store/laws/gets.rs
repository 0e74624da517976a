//! What loading a fragment does.

use vstd::prelude::*;
use vstd::std_specs::convert::FromSpec;

use super::super::get::{is_load_validated, size_validated, GetState, Verdict};
use super::super::payload::{is_get_error, payload_in, GetFailure};
use super::super::settings::{AwsImmutableStoreSettings, ObjectStoreImmutableStoreSettings};
use super::super::types::{
    request_failed, AwsFailure, FlagMasks, Fragment, StoreError, StoreFailure, StoreMatch,
    StoreQueryResult,
};
use crate::text::decimal_digits;
use crate::types::ContentHash;

verus! {

/// The contents of an object are the payload where they are as long as the fragment says. Where payloads
/// are always written, an object may hold a header of sixteen bytes before the payload, and the payload
/// is then what comes behind it. Contents of any other length are no payload.
pub proof fn a_payload_is_as_long_as_its_fragment_says(
    contents: Seq<u8>,
    hash: ContentHash,
    fragment: Fragment,
    force_write: bool,
)
    ensures
        contents.len() == fragment.size_payload ==> payload_in(
            contents,
            hash,
            fragment,
            force_write,
        ) == Ok::<Seq<u8>, StoreFailure>(contents),
        force_write && contents.len() == fragment.size_payload + 16 ==> (payload_in(
            contents,
            hash,
            fragment,
            force_write,
        ) matches Ok(payload) && payload.len() == fragment.size_payload && forall|i: int|
            0 <= i < payload.len() ==> payload[i] == #[trigger] contents[i + 16]),
        contents.len() != fragment.size_payload && !(force_write && contents.len()
            == fragment.size_payload + 16) ==> payload_in(contents, hash, fragment, force_write)
            == Err::<Seq<u8>, StoreFailure>(
            StoreFailure::Internal(
                "Failed to load from immutable store, size mismatch (load "@ + decimal_digits(
                    contents.len(),
                ) + ", expected "@ + decimal_digits(fragment.size_payload as nat) + ") for get "@
                    + hash.text(),
            ),
        ),
        payload_in(contents, hash, fragment, force_write) matches Ok(payload) ==> payload.len()
            == fragment.size_payload,
{
}

/// A fragment is loaded where the catalog knows the address as it is required, its metadata can be had,
/// and its contents can: and then with that metadata and the payload in those contents. An address that
/// is known otherwise is not found, whatever else is told. A failure of the catalog comes first, then
/// one of the metadata, then one of the contents.
pub proof fn what_is_there_is_loaded(
    state: GetState,
    made: StoreMatch,
    fragment: Fragment,
    contents: Seq<u8>,
    failure: StoreFailure,
)
    ensures
        state.exists is None ==> state.verdict() == Verdict::Wait,
        state.exists == Some(Err::<StoreMatch, StoreFailure>(failure)) ==> state.verdict()
            == Verdict::Fail(failure),
        state.exists == Some(Ok::<StoreMatch, StoreFailure>(made)) && made != state.required
            ==> state.verdict() == Verdict::Fail(StoreFailure::AddressNotFound(state.address)),
        state.exists == Some(Ok::<StoreMatch, StoreFailure>(state.required)) ==> {
            &&& state.metadata is None ==> state.verdict() == Verdict::Wait
            &&& state.metadata == Some(Err::<Fragment, StoreFailure>(failure)) ==> state.verdict()
                == Verdict::Fail(failure)
            &&& state.metadata == Some(Ok::<Fragment, StoreFailure>(fragment)) ==> {
                &&& state.contents is None ==> state.verdict() == Verdict::Wait
                &&& state.contents == Some(Err::<Seq<u8>, StoreFailure>(failure))
                    ==> state.verdict() == Verdict::Fail(failure)
                &&& state.contents == Some(Ok::<Seq<u8>, StoreFailure>(contents)) ==> match
                    payload_in(contents, state.address.hash, fragment, state.force_write) {
                    Ok(payload) => state.verdict() == Verdict::Load(fragment, payload),
                    Err(failure) => state.verdict() == Verdict::Fail(failure),
                }
            }
        },
{
}

/// Metadata counts where its sizes do: what could not be had stays a failure, what has wrong sizes is
/// one, and else it is the metadata itself.
pub proof fn metadata_counts_where_its_sizes_do(
    fragment: Fragment,
    failure: StoreFailure,
    validated: Result<(), StoreFailure>,
)
    ensures
        size_validated(Err(failure), validated) == Err::<Fragment, StoreFailure>(failure),
        size_validated(Ok(fragment), Err(failure)) == Err::<Fragment, StoreFailure>(failure),
        size_validated(Ok(fragment), Ok(())) == Ok::<Fragment, StoreFailure>(fragment),
{
}

/// Metadata that is loaded is metadata that is there and not obliterated: what is obliterated, or being
/// so, is not found under its hash, and what could not be had stays a failure.
pub proof fn what_is_obliterated_is_not_found(
    checked: Result<Fragment, StoreError>,
    metadata: Result<Fragment, StoreFailure>,
    validated: Result<(), StoreFailure>,
    hash: ContentHash,
    masks: FlagMasks,
)
    requires
        is_load_validated(checked, metadata, validated, hash, masks),
    ensures
        match (metadata, validated) {
            (Err(failure), _) => checked matches Err(error) && error@ == failure,
            (Ok(_), Err(failure)) => checked matches Err(error) && error@ == failure,
            (Ok(fragment), Ok(())) => if fragment.flags & masks.obliteration == 0 {
                checked == Ok::<Fragment, StoreError>(fragment)
            } else {
                checked matches Err(StoreError::AddressNotFound(address)) && address.hash == hash
                    && address.context.is_zero()
            },
        },
{
}

/// An object that is not there is an address that is not found; a service that fails asks for fewer
/// requests; anything else is told as it was said.
pub proof fn a_missing_object_is_not_found(
    hash: ContentHash,
    error: StoreError,
    text: String,
    failure: AwsFailure,
    context: Seq<char>,
)
    ensures
        is_get_error(GetFailure::NoSuchKey, hash, error) <==> (
        error matches StoreError::AddressNotFound(address) && address.hash == hash
            && address.context.is_zero()),
        is_get_error(GetFailure::Sdk, hash, error) <==> error@ == StoreFailure::SlowDown,
        is_get_error(GetFailure::Other(text), hash, error) <==> error@ == (StoreFailure::Failed {
            error: text@,
            context: "S3 get object failed"@,
        }),
        failure is Sdk ==> request_failed(failure, context) == StoreFailure::SlowDown,
        failure matches AwsFailure::Other(said) ==> request_failed(failure, context)
            == (StoreFailure::Failed { error: said@, context }),
        StoreQueryResult::nothing().match_made == StoreMatch::MatchNone,
        StoreQueryResult::nothing().fragment.flags == 0
            && StoreQueryResult::nothing().fragment.size_payload == 0
            && StoreQueryResult::nothing().fragment.size_content == 0,
{
}

/// The settings of an object store are those of the store that holds them.
pub proof fn an_object_store_has_the_settings_of_its_store(settings: AwsImmutableStoreSettings)
    ensures
        <ObjectStoreImmutableStoreSettings as FromSpec<&AwsImmutableStoreSettings>>::from_spec(
            &settings,
        ).s3 == settings.s3,
        <ObjectStoreImmutableStoreSettings as FromSpec<&AwsImmutableStoreSettings>>::from_spec(
            &settings,
        ).force_write == settings.force_write,
{
}

} // verus!
