//! Reading a payload from the object store.

use bytes::{Bytes, BytesMut};
use vstd::prelude::*;

use super::settings::AwsImmutableStore;
use super::types::{
    is_zero_context, zero_context_hash, Fragment, StoreError, StoreFailure, FRAGMENT_SIZE,
};
use crate::text::{decimal, decimal_digits};
use crate::types::ContentHash;

verus! {

/// A buffer of bytes that can be written.
#[verifier::external_type_specification]
#[verifier::external_body]
pub struct ExBytesMut(BytesMut);

/// Bytes that are shared.
#[verifier::external_type_specification]
#[verifier::external_body]
pub struct ExBytes(Bytes);

/// The bytes that a buffer holds.
pub uninterp spec fn buffered(buffer: BytesMut) -> Seq<u8>;

/// The bytes that are shared.
pub uninterp spec fn shared(bytes: Bytes) -> Seq<u8>;

/// `bytes::BytesMut::with_capacity`: a buffer that holds nothing. It panics on a capacity that does
/// not fit the memory.
pub assume_specification[ BytesMut::with_capacity ](capacity: usize) -> (buffer: BytesMut)
    requires
        capacity <= isize::MAX,
    ensures
        buffered(buffer) == Seq::<u8>::empty(),
;

/// `bytes::BytesMut::len`: how many bytes a buffer holds.
pub assume_specification[ BytesMut::len ](buffer: &BytesMut) -> (length: usize)
    ensures
        length == buffered(*buffer).len(),
;

/// `bytes::BytesMut::extend_from_slice`: appends bytes. It panics if they do not fit the memory.
pub assume_specification[ BytesMut::extend_from_slice ](buffer: &mut BytesMut, extend: &[u8])
    requires
        buffered(*old(buffer)).len() + extend@.len() <= isize::MAX,
    ensures
        buffered(*final(buffer)) == buffered(*old(buffer)) + extend@,
;

/// `bytes::BytesMut::split_off`: leaves the bytes before `at` and hands out those behind.
pub assume_specification[ BytesMut::split_off ](buffer: &mut BytesMut, at: usize) -> (tail: BytesMut)
    requires
        at <= buffered(*old(buffer)).len(),
    ensures
        buffered(*final(buffer)) == buffered(*old(buffer)).take(at as int),
        buffered(tail) == buffered(*old(buffer)).skip(at as int),
;

/// `bytes::BytesMut::freeze`: shares the bytes of a buffer.
pub assume_specification[ BytesMut::freeze ](buffer: BytesMut) -> (bytes: Bytes)
    ensures
        shared(bytes) == buffered(buffer),
;

/// What was read of an object.
pub struct ObjectContents {
    bytes: BytesMut,
}

impl View for ObjectContents {
    type V = Seq<u8>;

    closed spec fn view(&self) -> Seq<u8> {
        buffered(self.bytes)
    }
}

impl ObjectContents {
    /// Nothing is read. `capacity` is how many bytes are expected.
    pub fn new(capacity: usize) -> (contents: ObjectContents)
        requires
            capacity <= isize::MAX,
        ensures
            contents@ == Seq::<u8>::empty(),
    {
        ObjectContents { bytes: BytesMut::with_capacity(capacity) }
    }

    /// How many bytes are read.
    pub fn len(&self) -> (length: usize)
        ensures
            length == self@.len(),
    {
        self.bytes.len()
    }

    /// Takes the next bytes of the object.
    pub fn extend(&mut self, chunk: &[u8])
        requires
            old(self)@.len() + chunk@.len() <= isize::MAX,
        ensures
            final(self)@ == old(self)@ + chunk@,
    {
        self.bytes.extend_from_slice(chunk);
    }
}

/// Why an object is not handed out.
#[derive(Debug)]
pub enum GetFailure {
    /// There is no object under the key.
    NoSuchKey,
    /// The service, or the way to it, failed.
    Sdk,
    /// Anything else, with what is said of it.
    Other(String),
}

/// Whether an error is what the store says when an object is not handed out.
pub open spec fn is_get_error(failure: GetFailure, hash: ContentHash, error: StoreError) -> bool {
    match failure {
        GetFailure::NoSuchKey => error matches StoreError::AddressNotFound(address)
            && is_zero_context(address, hash),
        GetFailure::Sdk => error@ == StoreFailure::SlowDown,
        GetFailure::Other(text) => error@ == (StoreFailure::Failed {
            error: text@,
            context: "S3 get object failed"@,
        }),
    }
}

/// What the store says when an object is not handed out.
pub fn get_error(failure: GetFailure, hash: ContentHash) -> (error: StoreError)
    ensures
        is_get_error(failure, hash, error),
{
    match failure {
        GetFailure::NoSuchKey => StoreError::AddressNotFound(zero_context_hash(hash)),
        GetFailure::Sdk => StoreError::SlowDown,
        GetFailure::Other(error) => StoreError::Failed {
            error,
            context: "S3 get object failed".to_owned(),
        },
    }
}

/// What the store says when the content of an object breaks off.
pub fn stream_error(error: String) -> (failed: StoreError)
    ensures
        failed@ == (StoreFailure::Failed {
            error: error@,
            context: "Failed to read bytes from S3 response stream"@,
        }),
{
    StoreError::Failed {
        error,
        context: "Failed to read bytes from S3 response stream".to_owned(),
    }
}

/// What reading an object waits for.
#[derive(Clone, Copy, Debug, PartialEq, Eq, Structural)]
pub enum ObjectStage {
    /// The object is asked for.
    Open,
    /// The next bytes of its content are.
    Stream,
    Finished,
    Failed,
}

/// An object being read.
pub struct ObjectRead {
    pub hash: ContentHash,
    pub contents: ObjectContents,
    pub failure: Option<StoreError>,
    pub stage: ObjectStage,
}

impl ObjectRead {
    /// Whether the state is one that reading an object can be in.
    pub open spec fn valid(self) -> bool {
        &&& self.failure is Some <==> self.stage == ObjectStage::Failed
        &&& self.stage == ObjectStage::Open ==> self.contents@.len() == 0
    }

    /// Starts to read the object under a hash. `capacity` is how many bytes are expected.
    pub fn start(hash: ContentHash, capacity: usize) -> (read: ObjectRead)
        requires
            capacity <= isize::MAX,
        ensures
            read.hash == hash,
            read.stage == ObjectStage::Open,
            read.valid(),
    {
        ObjectRead {
            hash,
            contents: ObjectContents::new(capacity),
            failure: None,
            stage: ObjectStage::Open,
        }
    }

    /// Takes whether the object is handed out.
    pub fn opened(&mut self, opened: Result<(), GetFailure>)
        requires
            old(self).valid(),
            old(self).stage == ObjectStage::Open,
        ensures
            final(self).valid(),
            final(self).hash == old(self).hash,
            final(self).contents@ == old(self).contents@,
            match opened {
                Ok(()) => final(self).stage == ObjectStage::Stream,
                Err(failure) => final(self).stage == ObjectStage::Failed && (
                final(self).failure matches Some(error) && is_get_error(
                    failure,
                    old(self).hash,
                    error,
                )),
            },
    {
        match opened {
            Ok(()) => {
                self.stage = ObjectStage::Stream;
            },
            Err(failure) => {
                self.failure = Some(get_error(failure, self.hash));
                self.stage = ObjectStage::Failed;
            },
        }
    }

    /// Takes the next bytes of the content: some, none because it is over, or why there are none.
    pub fn received(&mut self, received: Option<Result<&[u8], String>>)
        requires
            old(self).valid(),
            old(self).stage == ObjectStage::Stream,
            received matches Some(Ok(chunk)) ==> old(self).contents@.len() + chunk@.len()
                <= isize::MAX,
        ensures
            final(self).valid(),
            final(self).hash == old(self).hash,
            match received {
                Some(Ok(chunk)) => final(self).stage == ObjectStage::Stream
                    && final(self).contents@ == old(self).contents@ + chunk@,
                None => final(self).stage == ObjectStage::Finished && final(self).contents@
                    == old(self).contents@,
                Some(Err(text)) => final(self).stage == ObjectStage::Failed && final(
                    self).contents@ == old(self).contents@ && (
                final(self).failure matches Some(error) && error@ == (StoreFailure::Failed {
                    error: text@,
                    context: "Failed to read bytes from S3 response stream"@,
                })),
            },
    {
        match received {
            Some(Ok(chunk)) => self.contents.extend(chunk),
            Some(Err(error)) => {
                self.failure = Some(stream_error(error));
                self.stage = ObjectStage::Failed;
            },
            None => {
                self.stage = ObjectStage::Finished;
            },
        }
    }

    /// What was read, or why nothing was.
    pub fn outcome(self) -> (outcome: Result<ObjectContents, StoreError>)
        requires
            self.valid(),
            self.stage == ObjectStage::Finished || self.stage == ObjectStage::Failed,
        ensures
            match outcome {
                Ok(contents) => self.stage == ObjectStage::Finished && contents@ == self.contents@,
                Err(error) => self.stage == ObjectStage::Failed && self.failure == Some(error),
            },
    {
        match self.failure {
            Some(error) => Err(error),
            None => Ok(self.contents),
        }
    }
}

/// The payload in what was read of an object, or what is said if its size is not that of the payload.
///
/// An object may still start with the metadata of its payload, which is kept in the catalog today.
/// Where payloads are written whether or not they are there, an object that is too long by just that
/// much is taken for one, and what comes before the payload is left out.
pub open spec fn payload_in(
    contents: Seq<u8>,
    hash: ContentHash,
    fragment: Fragment,
    force_write: bool,
) -> Result<Seq<u8>, StoreFailure> {
    if contents.len() == fragment.size_payload {
        Ok(contents)
    } else if force_write && contents.len() == fragment.size_payload + FRAGMENT_SIZE {
        Ok(contents.skip(FRAGMENT_SIZE as int))
    } else {
        Err(
            StoreFailure::Internal(
                "Failed to load from immutable store, size mismatch (load "@ + decimal_digits(
                    contents.len(),
                ) + ", expected "@ + decimal_digits(fragment.size_payload as nat) + ") for get "@
                    + hash.text(),
            ),
        )
    }
}

impl AwsImmutableStore {
    /// The payload in what was read of an object.
    pub fn read_payload(&self, contents: ObjectContents, hash: ContentHash, fragment: Fragment) -> (
    payload: Result<Bytes, StoreError>)
        ensures
            match payload {
                Ok(bytes) => payload_in(contents@, hash, fragment, self.force_write) == Ok::<
                    Seq<u8>,
                    StoreFailure,
                >(shared(bytes)),
                Err(error) => payload_in(contents@, hash, fragment, self.force_write) == Err::<
                    Seq<u8>,
                    StoreFailure,
                >(error@),
            },
    {
        let payload_size: usize = fragment.size_payload as usize;
        let buffer_size: usize = contents.bytes.len();
        let mut buffer: BytesMut = contents.bytes;
        if buffer_size == payload_size {
            return Ok(buffer.freeze());
        }
        if self.force_write && buffer_size > payload_size && buffer_size - payload_size
            == FRAGMENT_SIZE {
            return Ok(buffer.split_off(FRAGMENT_SIZE).freeze());
        }
        Err(
            StoreError::Internal(
                "Failed to load from immutable store, size mismatch (load ".to_owned().concat(
                    decimal(buffer_size as u64).as_str(),
                ).concat(", expected ").concat(decimal(payload_size as u64).as_str()).concat(
                    ") for get ",
                ).concat(hash.to_text().as_str()),
            ),
        )
    }
}

} // verus!
