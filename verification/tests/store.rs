use lore::store::action::{
    BeginObliteration, ChildOutcome, ReleaseAssociation, StoreAction, StoreEvent,
};
use lore::store::copy::CopyFragment;
use lore::store::get::{
    metadata_with_load_validation, metadata_with_size_validation, validated_load, Get,
};
use lore::store::obliterate::Obliterate;
use lore::store::payload::{
    get_error, stream_error, GetFailure, ObjectContents, ObjectRead, ObjectStage,
};
use lore::store::put::Put;
use lore::store::settings::{
    default_submission_limit, AwsImmutableStore, AwsImmutableStoreSettings,
    DynamoDbImmutableStoreSettings, ObjectStoreImmutableStoreSettings, S3ObjectVersioning,
    S3StoreSettings,
};
use lore::store::types::{
    do_query, ensure_exists, exist, request_error, zero_context_hash, AwsFailure, FlagMasks,
    Fragment, StoreError, StoreMatch, StoreQueryResult,
};
use lore::types::{Address, ContentHash, Context};

const BUCKET: &str = "test-bucket";
const DURABLE: u32 = 1;
const FRAGMENTED: u32 = 2;
const OBLITERATING: u32 = 4;
const OBLITERATED: u32 = 8;
const MASKS: FlagMasks = FlagMasks {
    fragmented: FRAGMENTED,
    obliterating: OBLITERATING,
    obliterated: OBLITERATED,
    obliteration: OBLITERATING | OBLITERATED,
};

fn context(byte: u8) -> Context {
    Context { data: [byte; 16] }
}

fn hash(byte: u8) -> ContentHash {
    ContentHash { data: [byte; 32] }
}

fn address() -> Address {
    Address { hash: hash(0xab), context: context(0xcd) }
}

fn repository() -> Context {
    context(0x11)
}

fn payload() -> Vec<u8> {
    (0..100).collect()
}

fn fragment() -> Fragment {
    Fragment { flags: DURABLE, size_payload: 100, size_content: 300 }
}

fn store_with(object_versioning: S3ObjectVersioning, force_write: bool) -> AwsImmutableStore {
    let settings = AwsImmutableStoreSettings {
        s3: S3StoreSettings::new(BUCKET.to_string(), 1000)
            .with_object_versioning(object_versioning),
        dynamodb: DynamoDbImmutableStoreSettings::new(
            "fragments".to_string(),
            "metadata".to_string(),
            1000,
        ),
        force_write,
        batch_exist_submission_limit: 1000,
    };
    AwsImmutableStore::new(&settings)
}

fn store() -> AwsImmutableStore {
    store_with(S3ObjectVersioning::Versioned, false)
}

fn forced() -> AwsImmutableStore {
    store_with(S3ObjectVersioning::Versioned, true)
}

fn found(match_made: StoreMatch, fragment: Fragment) -> StoreEvent {
    StoreEvent::Queried(Ok(StoreQueryResult { match_made, fragment }))
}

fn done() -> StoreEvent {
    StoreEvent::Done(Ok(()))
}

fn requested() -> StoreEvent {
    StoreEvent::Requested(Ok(()))
}

fn refused() -> StoreEvent {
    StoreEvent::Requested(Err(AwsFailure::Sdk))
}

fn contents(bytes: &[u8]) -> ObjectContents {
    let mut contents = ObjectContents::new(16);
    contents.extend(bytes);
    contents
}

fn internal(error: StoreError) -> String {
    match error {
        StoreError::Internal(message) => message,
        other => panic!("{other:?}"),
    }
}

/// Takes a put to the point where the catalog has answered.
fn queried(
    store: &AwsImmutableStore,
    fragment: Fragment,
    payload: Option<Vec<u8>>,
    answer: StoreEvent,
) -> Put {
    let with_payload = payload.as_ref().map(Vec::len);
    let mut put = store.put(MASKS, repository(), address(), fragment, payload);
    assert!(matches!(put.action(), StoreAction::Sanitise { fragment: given } if given == fragment));
    put.advance(StoreEvent::Sanitised(fragment.flags));
    match (put.action(), with_payload) {
        (StoreAction::ValidatePayload { length, .. }, Some(given)) => assert_eq!(length, given),
        (StoreAction::ValidateSize { .. }, None) => {}
        (other, _) => panic!("{other:?}"),
    }
    put.advance(done());
    match put.action() {
        StoreAction::Query { repository: asked, address: at, match_requested } => {
            assert_eq!((asked, at), (repository(), address()));
            assert_eq!(match_requested, StoreMatch::MatchFull);
        }
        other => panic!("{other:?}"),
    }
    put.advance(answer);
    put
}

fn expect_written(put: &mut Put) {
    match put.action() {
        StoreAction::PutObject { bucket, key, body } => {
            assert_eq!(bucket, BUCKET);
            assert_eq!(key, "ab".repeat(32));
            assert_eq!(body, payload());
        }
        other => panic!("{other:?}"),
    }
    put.advance(requested());
    match put.action() {
        StoreAction::Register { repository: at, address: to, fragment: kept } => {
            assert_eq!((at, to, kept), (repository(), address(), fragment()));
        }
        other => panic!("{other:?}"),
    }
}

#[test]
fn test_delete_payload_unversioned_skips_version_listing() {
    let store = store_with(S3ObjectVersioning::Unversioned, false);
    let mut deletion = store.delete_payload(hash(7));
    match deletion.action() {
        StoreAction::DeleteObject { bucket, key, version } => {
            assert_eq!((bucket.as_str(), key), (BUCKET, "07".repeat(32)));
            assert_eq!(version, None);
        }
        other => panic!("{other:?}"),
    }
    deletion.advance(requested());
    assert!(matches!(deletion.action(), StoreAction::Finish));
    deletion.outcome().expect("unversioned payload delete failed");
}

#[test]
fn every_listed_version_is_deleted() {
    let mut deletion = store().delete_payload(hash(7));
    assert!(matches!(deletion.action(), StoreAction::ListVersions { .. }));
    deletion.advance(StoreEvent::Versions(Ok(Some(vec![
        Some("1".to_string()),
        None,
        Some("3".to_string()),
    ]))));
    for expected in [Some("1"), None, Some("3")] {
        match deletion.action() {
            StoreAction::DeleteObject { version, .. } => {
                assert_eq!(version.as_deref(), expected);
            }
            other => panic!("{other:?}"),
        }
        deletion.advance(requested());
    }
    assert!(deletion.outcome().is_ok());

    let mut deletion = store().delete_payload(hash(7));
    deletion.advance(StoreEvent::Versions(Ok(Some(vec![]))));
    assert!(deletion.outcome().is_ok());

    let mut deletion = store().delete_payload(hash(7));
    deletion.advance(StoreEvent::Versions(Ok(None)));
    assert!(matches!(
        deletion.action(),
        StoreAction::DeleteObject { version: None, .. }
    ));
    deletion.advance(StoreEvent::Requested(Err(AwsFailure::Other("x".to_string()))));
    match deletion.outcome() {
        Err(StoreError::Failed { error, context }) => {
            assert_eq!((error.as_str(), context.as_str()), ("x", "S3 delete object failed"));
        }
        other => panic!("{other:?}"),
    }
}

#[test]
fn failures_of_requests_say_what_was_done() {
    assert!(request_error(AwsFailure::Sdk, "c").is_slow_down());
    match request_error(AwsFailure::Other("e".to_string()), "c") {
        StoreError::Failed { error, context } => {
            assert_eq!((error.as_str(), context.as_str()), ("e", "c"));
        }
        other => panic!("{other:?}"),
    }
    let mut deletion = store().delete_payload(hash(7));
    deletion.advance(StoreEvent::Versions(Err(AwsFailure::Other("x".to_string()))));
    match deletion.outcome() {
        Err(StoreError::Failed { context, .. }) => {
            assert_eq!(context, "S3 list object versions failed");
        }
        other => panic!("{other:?}"),
    }
    let mut deletion = store().delete_payload(hash(7));
    deletion.advance(StoreEvent::Versions(Ok(Some(vec![Some("1".to_string())]))));
    deletion.advance(StoreEvent::Requested(Err(AwsFailure::Other("x".to_string()))));
    match deletion.outcome() {
        Err(StoreError::Failed { context, .. }) => {
            assert_eq!(context, "S3 delete object version failed");
        }
        other => panic!("{other:?}"),
    }
}

#[test]
fn immutable_store_test_query_immutable_not_found() {
    let nothing = StoreQueryResult::default();
    assert_eq!(do_query(nothing, true, MASKS), nothing);
    assert_eq!(nothing.match_made, StoreMatch::MatchNone);
    assert_eq!(
        nothing.fragment,
        Fragment { flags: 0, size_payload: 0, size_content: 0 }
    );
}

#[test]
fn immutable_store_test_query_immutable_found() {
    let result = StoreQueryResult { fragment: fragment(), match_made: StoreMatch::MatchFull };
    assert_eq!(do_query(result, true, MASKS), result);
}

#[test]
fn test_query_immutable_partial_match() {
    let result = StoreQueryResult { fragment: fragment(), match_made: StoreMatch::MatchPartition };
    assert_eq!(do_query(result, true, MASKS), result);
}

#[test]
fn test_query_lower_specificity_match() {
    let result = StoreQueryResult { fragment: fragment(), match_made: StoreMatch::MatchHash };
    assert_eq!(do_query(result, true, MASKS), result);
}

#[test]
fn test_query_immutable_obliterating() {
    let fragment = Fragment { flags: DURABLE | OBLITERATING, ..fragment() };
    let result = StoreQueryResult { fragment, match_made: StoreMatch::MatchFull };
    assert_eq!(do_query(result, true, MASKS), StoreQueryResult::default());
    assert_eq!(do_query(result, false, MASKS), result);
}

#[test]
fn test_put_immutable() {
    let mut put = queried(
        &store(),
        fragment(),
        Some(payload()),
        StoreEvent::Queried(Ok(StoreQueryResult::default())),
    );
    expect_written(&mut put);
    put.advance(done());
    assert!(matches!(put.action(), StoreAction::Finish));
    put.outcome().expect("failed to write to store");
}

#[test]
fn immutable_store_test_put_immutable_partial() {
    for (match_made, payload) in [
        (StoreMatch::MatchPartition, Some(payload())),
        (StoreMatch::MatchPartition, None),
        (StoreMatch::MatchHash, Some(payload())),
    ] {
        let mut put = queried(&store(), fragment(), payload, found(match_made, fragment()));
        match put.action() {
            StoreAction::Associate { repository: at, address: to } => {
                assert_eq!((at, to), (repository(), address()));
            }
            other => panic!("{other:?}"),
        }
        put.advance(done());
        put.outcome().expect("failed to write to store");
    }
}

#[test]
fn a_fragment_that_is_stored_is_not_stored_again() {
    let put = queried(&store(), fragment(), None, found(StoreMatch::MatchFull, fragment()));
    assert!(matches!(put.action(), StoreAction::Finish));
    assert!(put.outcome().is_ok());
}

#[test]
fn test_put_immutable_obliterating() {
    let fragment = Fragment { flags: OBLITERATING, ..fragment() };
    let put = queried(
        &store(),
        fragment,
        Some(payload()),
        found(StoreMatch::MatchFull, fragment),
    );
    let error = put.outcome().expect_err("expected put to fail");
    assert!(error.is_internal());
    assert_eq!(
        internal(error),
        format!(
            "Failed to obliterate immutable {}-{}",
            "ab".repeat(32),
            "cd".repeat(16)
        )
    );
}

#[test]
fn test_put_immutable_obliterated() {
    let obliterated = Fragment { flags: OBLITERATED, size_payload: 0, size_content: 0 };
    let mut put = queried(
        &store(),
        fragment(),
        Some(payload()),
        found(StoreMatch::MatchHash, obliterated),
    );
    match put.action() {
        StoreAction::Associate { repository: at, address: to } => {
            assert_eq!((at, to), (repository(), address()));
        }
        other => panic!("{other:?}"),
    }
    put.advance(done());
    put.outcome().expect("failed to write to store");
}

#[test]
fn test_put_immutable_extra_data() {
    let mut body = payload();
    let real_len = body.len();
    body.extend_from_slice(&[0x5a; 32]);
    let mut put = queried(
        &store(),
        fragment(),
        Some(body[..real_len].to_vec()),
        StoreEvent::Queried(Ok(StoreQueryResult::default())),
    );
    expect_written(&mut put);
    put.advance(done());
    put.outcome().expect("failed to write to store");

    let put = queried(
        &store(),
        fragment(),
        Some(body),
        StoreEvent::Queried(Ok(StoreQueryResult::default())),
    );
    assert!(put.outcome().unwrap_err().is_internal());
}

#[test]
fn test_put_immutable_partial_hash_collision() {
    let different = Fragment { size_content: 600, ..fragment() };
    let put = queried(
        &store(),
        fragment(),
        Some(payload()),
        found(StoreMatch::MatchPartition, different),
    );
    let error = put.outcome().err().unwrap();
    assert!(error.is_internal());
    assert_eq!(internal(error), "Hash collision");
}

#[test]
fn immutable_store_test_put_immutable_payload_required() {
    for match_made in [StoreMatch::MatchHash, StoreMatch::MatchNone] {
        let put = queried(&store(), fragment(), None, found(match_made, fragment()));
        let error = put.outcome().expect_err("should have returned an error");
        assert_eq!(internal(error), "Payload buffer required");
    }
}

#[test]
fn test_put_immutable_not_enough_data() {
    let put = queried(
        &store(),
        fragment(),
        Some(payload()[..99].to_vec()),
        StoreEvent::Queried(Ok(StoreQueryResult::default())),
    );
    let error = put.outcome().expect_err("should have failed");
    assert_eq!(
        internal(error),
        format!("Failed to store in immutable store for put {}", "ab".repeat(32))
    );
}

#[test]
fn a_fragment_that_is_not_valid_is_not_stored() {
    let mut put = store().put(MASKS, repository(), address(), fragment(), None);
    put.advance(StoreEvent::Sanitised(fragment().flags));
    put.advance(StoreEvent::Done(Err(StoreError::Internal("too large".to_string()))));
    assert_eq!(internal(put.outcome().unwrap_err()), "too large");
}

#[test]
fn payloads_are_always_written_where_that_is_forced() {
    let mut put = queried(
        &forced(),
        fragment(),
        Some(payload()),
        found(StoreMatch::MatchFull, Fragment { flags: OBLITERATING, ..fragment() }),
    );
    expect_written(&mut put);
    let mut put = queried(
        &store(),
        fragment(),
        Some(payload()),
        StoreEvent::Queried(Err(StoreError::SlowDown)),
    );
    expect_written(&mut put);
}

#[test]
fn a_payload_whose_registration_fails_is_stored_again() {
    let answer = || StoreEvent::Queried(Ok(StoreQueryResult::default()));
    let mut put = queried(&store(), fragment(), Some(payload()), answer());
    expect_written(&mut put);
    put.advance(StoreEvent::Done(Err(StoreError::SlowDown)));
    assert!(put.outcome().unwrap_err().is_slow_down());
    let mut put = queried(&store(), fragment(), Some(payload()), answer());
    expect_written(&mut put);
    put.advance(done());
    assert!(put.outcome().is_ok());

    let mut put = queried(&store(), fragment(), Some(payload()), answer());
    put.advance(refused());
    assert!(put.outcome().unwrap_err().is_slow_down());
}

#[test]
fn what_is_put_is_read_back_for_its_context_alone() {
    let store = store();
    let mut put = queried(
        &store,
        fragment(),
        Some(payload()),
        StoreEvent::Queried(Ok(StoreQueryResult::default())),
    );
    let object = match put.action() {
        StoreAction::PutObject { body, .. } => body,
        other => panic!("{other:?}"),
    };
    put.advance(requested());
    let (held, metadata) = match put.action() {
        StoreAction::Register { address, fragment, .. } => (address, fragment),
        other => panic!("{other:?}"),
    };
    put.advance(done());
    put.outcome().expect("failed to write to store");

    let sibling = Address { hash: held.hash, context: context(0xee) };
    for asked in [held, sibling] {
        let mut get = store.get(MASKS, asked, StoreMatch::MatchFull);
        get.contents_came(Ok(contents(&object)));
        get.metadata_came(Ok(metadata), Ok(()));
        get.exists_came(Ok(if asked == held {
            StoreMatch::MatchFull
        } else {
            StoreMatch::MatchPartition
        }));
        match get.load(&store) {
            Ok((got_fragment, got_buffer)) => {
                assert_eq!(asked, address());
                assert_eq!(got_fragment, fragment());
                assert_eq!(got_buffer.as_ref(), payload());
            }
            Err(StoreError::AddressNotFound(at)) => assert_eq!((at, asked), (sibling, sibling)),
            other => panic!("{other:?}"),
        }
    }
}

fn get(store: &AwsImmutableStore) -> Get {
    store.get(MASKS, address(), StoreMatch::MatchHash)
}

#[test]
fn immutable_store_test_get_immutable() {
    let store = store();
    let mut get = get(&store);
    assert!(get.waits());
    get.contents_came(Ok(contents(&payload())));
    assert!(get.waits());
    get.metadata_came(Ok(fragment()), Ok(()));
    assert!(get.waits());
    get.exists_came(Ok(StoreMatch::MatchHash));
    assert!(!get.waits());
    let (result_fragment, result_buffer) =
        validated_load(get.load(&store).expect("failed to get from store"), Ok(())).unwrap();
    assert_eq!(fragment(), result_fragment);
    assert_eq!(payload(), result_buffer.as_ref());
}

#[test]
fn immutable_store_test_get_immutable_not_found() {
    let store = store();
    let mut get = get(&store);
    get.exists_came(Ok(StoreMatch::MatchNone));
    assert!(!get.waits());
    match get.load(&store) {
        Err(StoreError::AddressNotFound(at)) => assert_eq!(at, address()),
        other => panic!("{other:?}"),
    }
}

#[test]
fn test_get_immutable_obliterated() {
    let store = store();
    let fragment = Fragment { flags: OBLITERATING, size_payload: 0, size_content: 0 };
    let mut get = get(&store);
    get.contents_came(Ok(contents(&payload())));
    get.exists_came(Ok(StoreMatch::MatchHash));
    get.metadata_came(Ok(fragment), Ok(()));
    match get.load(&store) {
        Err(StoreError::AddressNotFound(at)) => assert_eq!(at, zero_context_hash(hash(0xab))),
        other => panic!("{other:?}"),
    }
}

#[test]
fn test_get_immutable_payload_size_mismatch() {
    let store = store();
    let mut get = get(&store);
    get.contents_came(Ok(contents(&payload()[..16])));
    get.exists_came(Ok(StoreMatch::MatchHash));
    get.metadata_came(Ok(fragment()), Ok(()));
    let error = get.load(&store).expect_err("Request did not fail as expected");
    assert!(error.is_internal());
    assert_eq!(
        internal(error),
        format!(
            "Failed to load from immutable store, size mismatch (load 16, expected 100) for get {}",
            "ab".repeat(32)
        )
    );
}

#[test]
fn failures_of_a_lookup_have_an_order() {
    let slow = || Err(StoreError::SlowDown);
    let store = store();
    let mut failing = get(&store);
    failing.contents_came(slow());
    failing.metadata_came(Err(StoreError::Internal("metadata".to_string())), Ok(()));
    assert!(failing.waits());
    failing.exists_came(Err(StoreError::Internal("exists".to_string())));
    assert_eq!(internal(failing.load(&store).unwrap_err()), "exists");

    let mut failing = get(&store);
    failing.contents_came(slow());
    failing.metadata_came(Err(StoreError::Internal("metadata".to_string())), Ok(()));
    failing.exists_came(Ok(StoreMatch::MatchHash));
    assert_eq!(internal(failing.load(&store).unwrap_err()), "metadata");

    let mut failing = get(&store);
    failing.exists_came(Ok(StoreMatch::MatchHash));
    failing.metadata_came(Ok(fragment()), Ok(()));
    assert!(failing.waits());
    failing.contents_came(Err(StoreError::SlowDown));
    assert!(failing.load(&store).unwrap_err().is_slow_down());
}

#[test]
fn metadata_is_validated() {
    let invalid = || Err(StoreError::Internal("too large".to_string()));
    assert_eq!(metadata_with_size_validation(Ok(fragment()), Ok(())).unwrap(), fragment());
    assert_eq!(
        internal(metadata_with_size_validation(Ok(fragment()), invalid()).unwrap_err()),
        "too large"
    );
    assert!(metadata_with_size_validation(Err(StoreError::SlowDown), invalid())
        .unwrap_err()
        .is_slow_down());
    let obliterated = Fragment { flags: OBLITERATED, ..fragment() };
    let checked = metadata_with_load_validation(Ok(obliterated), Ok(()), hash(3), MASKS);
    assert!(checked.unwrap_err().is_address_not_found());
    assert_eq!(
        internal(
            metadata_with_load_validation(Ok(obliterated), invalid(), hash(3), MASKS).unwrap_err()
        ),
        "too large"
    );
    let loaded = (fragment(), bytes::Bytes::from_static(b"x"));
    assert_eq!(internal(validated_load(loaded, invalid()).unwrap_err()), "too large");
}

#[test]
fn an_object_is_read_as_it_comes() {
    let mut read = ObjectRead::start(hash(1), 0);
    read.opened(Ok(()));
    read.received(Some(Ok(b"ab")));
    read.received(Some(Ok(b"")));
    read.received(Some(Ok(b"cd")));
    read.received(None);
    assert_eq!(read.stage, ObjectStage::Finished);
    let contents = read.outcome().unwrap();
    assert_eq!(contents.len(), 4);
    let fragment = Fragment { flags: 0, size_payload: 4, size_content: 4 };
    assert_eq!(
        store().read_payload(contents, hash(1), fragment).unwrap().as_ref(),
        b"abcd"
    );

    let mut read = ObjectRead::start(hash(1), 0);
    read.opened(Err(GetFailure::NoSuchKey));
    match read.outcome() {
        Err(StoreError::AddressNotFound(at)) => assert_eq!(at, zero_context_hash(hash(1))),
        _ => panic!("the object is not there"),
    }

    let mut read = ObjectRead::start(hash(1), 0);
    read.opened(Ok(()));
    read.received(Some(Err("cut off".to_string())));
    match read.outcome() {
        Err(StoreError::Failed { error, context }) => {
            assert_eq!(error, "cut off");
            assert_eq!(context, "Failed to read bytes from S3 response stream");
        }
        _ => panic!("the content breaks off"),
    }
    assert!(get_error(GetFailure::Sdk, hash(1)).is_slow_down());
    assert!(get_error(GetFailure::Other("x".to_string()), hash(1)).is_internal());
    assert!(stream_error("x".to_string()).is_internal());
}

#[test]
fn an_object_may_start_with_the_metadata_of_its_payload_where_writes_are_forced() {
    let fragment = Fragment { flags: 0, size_payload: 4, size_content: 4 };
    let prefixed = [[7u8; 16].as_slice(), b"abcd"].concat();
    let payload = forced().read_payload(contents(&prefixed), hash(1), fragment);
    assert_eq!(payload.unwrap().as_ref(), b"abcd");
    let payload = forced().read_payload(contents(b"abcd"), hash(1), fragment);
    assert_eq!(payload.unwrap().as_ref(), b"abcd");
    assert!(store().read_payload(contents(&prefixed), hash(1), fragment).is_err());
    assert!(forced().read_payload(contents(&prefixed[1..]), hash(1), fragment).is_err());
    assert!(forced().read_payload(contents(b"abc"), hash(1), fragment).is_err());
}

fn obliterate() -> Obliterate {
    let operation = store().obliterate(MASKS, repository(), address());
    match operation.action() {
        StoreAction::BeginObliteration { hash: at } => assert_eq!(at, hash(0xab)),
        other => panic!("{other:?}"),
    }
    operation
}

fn acquired(fragment: Fragment) -> StoreEvent {
    StoreEvent::Begun(Ok(BeginObliteration::Acquired {
        original: fragment,
        marker: Fragment { flags: fragment.flags | OBLITERATING, ..fragment },
    }))
}

fn released(outcome: ReleaseAssociation) -> StoreEvent {
    StoreEvent::Released(Ok(outcome))
}

fn counts(operation: &Obliterate) -> (u64, u64) {
    (operation.num_fragments, operation.num_payloads)
}

/// Takes an obliteration to the point where the versions of the payload are listed.
fn unreferenced() -> Obliterate {
    let mut operation = obliterate();
    operation.advance(acquired(fragment()));
    match operation.action() {
        StoreAction::ValidateSize { fragment: checked } => assert_eq!(checked, fragment()),
        other => panic!("{other:?}"),
    }
    operation.advance(done());
    match operation.action() {
        StoreAction::Release { repository: at, address: to } => {
            assert_eq!((at, to), (repository(), address()));
        }
        other => panic!("{other:?}"),
    }
    operation.advance(released(ReleaseAssociation::Unreferenced));
    assert!(matches!(operation.action(), StoreAction::ListVersions { .. }));
    operation
}

fn some_version() -> StoreEvent {
    StoreEvent::Versions(Ok(Some(vec![Some("some-version".to_string())])))
}

#[test]
fn test_obliterate_already_obliterating() {
    let marked = Fragment { flags: DURABLE | OBLITERATING, ..fragment() };
    let mut operation = obliterate();
    operation.advance(acquired(marked));
    operation.advance(done());
    operation.advance(released(ReleaseAssociation::Unreferenced));
    operation.advance(some_version());
    operation.advance(requested());
    operation.advance(done());
    assert_eq!(counts(&operation), (1, 1));
    operation.outcome().expect("obliterate failed");
}

#[test]
fn test_obliterate_single_fragment_acquire_lock_fails() {
    let mut operation = obliterate();
    operation.advance(StoreEvent::Begun(Err(StoreError::Internal("held".to_string()))));
    assert_eq!(counts(&operation), (0, 0));
    assert!(operation.outcome().unwrap_err().is_internal());
}

#[test]
fn test_obliterate_single_fragment_count_associations_fails() {
    let mut operation = obliterate();
    operation.advance(acquired(fragment()));
    operation.advance(done());
    operation.advance(StoreEvent::Released(Err(StoreError::SlowDown)));
    assert_eq!(counts(&operation), (0, 0));
    assert!(operation.outcome().unwrap_err().is_slow_down());
}

#[test]
fn test_obliterate_already_obliterated() {
    let mut operation = obliterate();
    operation.advance(StoreEvent::Begun(Ok(BeginObliteration::AlreadyObliterated)));
    assert_eq!(counts(&operation), (0, 0));
    operation.outcome().expect("obliterate failed");
}

#[test]
fn test_obliterate_single_fragment() {
    let mut operation = unreferenced();
    operation.advance(some_version());
    match operation.action() {
        StoreAction::DeleteObject { bucket, key, version } => {
            assert_eq!((bucket.as_str(), key), (BUCKET, "ab".repeat(32)));
            assert_eq!(version.as_deref(), Some("some-version"));
        }
        other => panic!("{other:?}"),
    }
    operation.advance(requested());
    match operation.action() {
        StoreAction::Finalize { hash: at } => assert_eq!(at, hash(0xab)),
        other => panic!("{other:?}"),
    }
    operation.advance(done());
    assert_eq!(counts(&operation), (1, 1));
    operation.outcome().expect("obliterate failed");
}

#[test]
fn test_obliterate_single_fragment_multiple_associations() {
    let mut operation = obliterate();
    operation.advance(acquired(fragment()));
    operation.advance(done());
    operation.advance(released(ReleaseAssociation::ReferencesRemain));
    assert!(matches!(operation.action(), StoreAction::Finish));
    assert_eq!(counts(&operation), (1, 0));
    operation.outcome().expect("obliterate failed");
}

#[test]
fn test_obliterate_single_fragment_metadata_load_fails() {
    let mut operation = obliterate();
    operation.advance(StoreEvent::Begun(Err(StoreError::AddressNotFound(address()))));
    assert_eq!(counts(&operation), (0, 0));
    assert!(operation.outcome().unwrap_err().is_address_not_found());
}

#[test]
fn test_obliterate_single_fragment_remove_fragment_association_fails() {
    let mut operation = obliterate();
    operation.advance(acquired(fragment()));
    operation.advance(done());
    operation.advance(StoreEvent::Released(Err(StoreError::SlowDown)));
    assert_eq!(counts(&operation), (0, 0));
    assert!(operation.outcome().unwrap_err().is_slow_down());
}

#[test]
fn test_obliterate_single_fragment_delete_payload_fails() {
    let mut operation = unreferenced();
    operation.advance(some_version());
    operation.advance(refused());
    assert_eq!(counts(&operation), (1, 0));
    assert!(operation.outcome().unwrap_err().is_slow_down());
}

#[test]
fn test_obliterate_single_fragment_delete_payload_fails_to_list_versions() {
    let mut operation = unreferenced();
    operation.advance(StoreEvent::Versions(Err(AwsFailure::Sdk)));
    assert_eq!(counts(&operation), (1, 0));
    assert!(operation.outcome().unwrap_err().is_slow_down());
}

#[test]
fn test_obliterate_single_fragment_finalize_metadata_fails() {
    let mut operation = unreferenced();
    operation.advance(some_version());
    operation.advance(requested());
    operation.advance(StoreEvent::Done(Err(StoreError::Internal("lost".to_string()))));
    assert_eq!(counts(&operation), (1, 1));
    assert!(operation.outcome().unwrap_err().is_internal());
}

/// Takes the obliteration of a payload that lists fragments to the point where those are obliterated.
fn listing(count: u8) -> Obliterate {
    let list = Fragment { flags: DURABLE | FRAGMENTED, size_payload: 100, size_content: 160 };
    let mut operation = obliterate();
    operation.advance(acquired(list));
    operation.advance(done());
    match operation.action() {
        StoreAction::GetObject { bucket, key } => {
            assert_eq!((bucket.as_str(), key), (BUCKET, "ab".repeat(32)));
        }
        other => panic!("{other:?}"),
    }
    operation.advance(StoreEvent::Contents(Ok(contents(&payload()))));
    assert!(matches!(operation.action(), StoreAction::References));
    assert_eq!(operation.payload.as_ref().unwrap().as_ref(), payload());
    operation.advance(StoreEvent::References((0..count).map(hash).collect()));
    match operation.action() {
        StoreAction::Obliterate { repository: at, addresses } => {
            assert_eq!(at, repository());
            let expected: Vec<Address> = (0..count)
                .map(|i| Address { hash: hash(i), context: address().context })
                .collect();
            assert_eq!(addresses, expected);
        }
        other => panic!("{other:?}"),
    }
    operation
}

fn child(obliterated: bool, num_fragments: u64, num_payloads: u64) -> ChildOutcome {
    ChildOutcome { obliterated, num_fragments, num_payloads }
}

#[test]
fn test_obliterate_fragment_is_fragmented() {
    let mut operation = listing(5);
    operation.advance(StoreEvent::Obliterated(vec![child(true, 1, 1); 5]));
    operation.advance(released(ReleaseAssociation::Unreferenced));
    operation.advance(some_version());
    operation.advance(requested());
    operation.advance(done());
    assert_eq!(counts(&operation), (6, 6));
    operation.outcome().expect("obliterate failed");
}

#[test]
fn test_obliterate_fragment_is_fragmented_obliterate_subfragment_fails() {
    let mut operation = listing(2);
    operation.advance(StoreEvent::Obliterated(vec![child(true, 1, 1), child(false, 1, 0)]));
    assert_eq!(counts(&operation), (2, 1));
    let error = operation.outcome().unwrap_err();
    assert_eq!(
        internal(error),
        format!(
            "Failed to obliterate immutable {}-{}",
            "ab".repeat(32),
            "cd".repeat(16)
        )
    );
}

#[test]
fn a_list_that_cannot_be_read_is_not_obliterated() {
    let list = Fragment { flags: FRAGMENTED, size_payload: 100, size_content: 160 };
    let mut operation = obliterate();
    operation.advance(acquired(list));
    operation.advance(done());
    operation.advance(StoreEvent::Contents(Ok(contents(b"short"))));
    assert!(operation.outcome().unwrap_err().is_internal());

    let mut operation = obliterate();
    operation.advance(acquired(list));
    operation.advance(StoreEvent::Done(Err(StoreError::Internal("size".to_string()))));
    assert_eq!(internal(operation.outcome().unwrap_err()), "size");
}

fn copy() -> CopyFragment {
    let copy = CopyFragment::start(context(1), address(), context(2), context(3));
    match copy.action() {
        StoreAction::Query { repository: asked, address: at, match_requested } => {
            assert_eq!((asked, at), (context(1), address()));
            assert_eq!(match_requested, StoreMatch::MatchFull);
        }
        other => panic!("{other:?}"),
    }
    copy
}

#[test]
fn test_copy_not_found() {
    let mut copy = copy();
    copy.advance(StoreEvent::Queried(Ok(StoreQueryResult::default())));
    let err = copy.outcome().expect_err("copy should have returned NotFound");
    assert!(
        err.is_address_not_found(),
        "Expected AddressNotFound, got {err:?}"
    );
}

#[test]
fn test_copy_partial_match_returns_not_found() {
    let mut copy = copy();
    copy.advance(found(StoreMatch::MatchHash, fragment()));
    let err = copy
        .outcome()
        .expect_err("copy should have returned NotFound for partial match");
    assert!(
        err.is_address_not_found(),
        "Expected AddressNotFound, got {err:?}"
    );
}

#[test]
fn test_copy_success() {
    let mut copy = copy();
    copy.advance(found(StoreMatch::MatchFull, fragment()));
    match copy.action() {
        StoreAction::Associate { repository: at, address: to } => {
            assert_eq!(at, context(2));
            assert_eq!(to, Address { hash: hash(0xab), context: context(3) });
        }
        other => panic!("{other:?}"),
    }
    copy.advance(done());
    copy.outcome().expect("copy should succeed");
}

#[test]
fn what_is_asked_for_exists_only_if_it_is_what_was_found() {
    assert_eq!(
        exist(StoreMatch::MatchHash, StoreMatch::MatchHash),
        StoreMatch::MatchHash
    );
    assert_eq!(
        exist(StoreMatch::MatchFull, StoreMatch::MatchHash),
        StoreMatch::MatchNone
    );
    assert!(ensure_exists(StoreMatch::MatchFull, StoreMatch::MatchFull, address()).is_ok());
    assert!(ensure_exists(StoreMatch::MatchHash, StoreMatch::MatchFull, address())
        .unwrap_err()
        .is_address_not_found());
}

#[test]
fn settings_have_defaults() {
    assert_eq!(S3ObjectVersioning::default(), S3ObjectVersioning::Versioned);
    assert_eq!(default_submission_limit(), 150_000);
    let s3 = S3StoreSettings::new("b".to_string(), 5);
    assert_eq!((s3.bucket.as_str(), s3.timeout_millis), ("b", 5));
    assert_eq!((&s3.endpoint_url, &s3.region), (&None, &None));
    assert_eq!(s3.slow_operation_threshold_millis, u64::MAX);
    assert_eq!(s3.object_versioning, S3ObjectVersioning::Versioned);
    let s3 = s3
        .with_endpoint("e".to_string())
        .with_region("r".to_string())
        .with_object_versioning(S3ObjectVersioning::Unversioned);
    assert_eq!(s3.endpoint_url.as_deref(), Some("e"));
    assert_eq!(s3.region.as_deref(), Some("r"));
    let dynamodb =
        DynamoDbImmutableStoreSettings::new("f".to_string(), "m".to_string(), 6)
            .with_endpoint("d".to_string());
    assert_eq!(dynamodb.endpoint_url.as_deref(), Some("d"));
    assert_eq!((dynamodb.region.clone(), dynamodb.timeout_millis), (None, 6));
    let settings = AwsImmutableStoreSettings::new(s3.clone(), dynamodb, true);
    assert_eq!(settings.batch_exist_submission_limit, 150_000);
    let own = ObjectStoreImmutableStoreSettings::from(&settings);
    assert_eq!((own.s3.bucket.as_str(), own.force_write), ("b", true));
    assert_eq!(format!("{:?}", settings.clone()), format!("{settings:?}"));
    assert_eq!(format!("{:?}", own.clone()), format!("{own:?}"));
    let store =
        AwsImmutableStore::with_catalog(&ObjectStoreImmutableStoreSettings::new(s3, false));
    assert_eq!(store.object_versioning, S3ObjectVersioning::Unversioned);
    assert!(!store.force_write);
}
