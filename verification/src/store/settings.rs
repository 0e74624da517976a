//! How the store is set up.

use vstd::prelude::*;
use vstd::std_specs::convert::FromSpecImpl;

verus! {

/// Whether the object store keeps what a key held before.
#[derive(Clone, Copy, Debug, PartialEq, Eq, Structural)]
pub enum S3ObjectVersioning {
    /// Older versions of an object may be kept. Obliteration must list and delete every version.
    Versioned,
    /// A key holds one value. Obliteration removes it for good with one request.
    Unversioned,
}

impl Default for S3ObjectVersioning {
    fn default() -> (versioning: S3ObjectVersioning)
        ensures
            versioning == S3ObjectVersioning::Versioned,
    {
        S3ObjectVersioning::Versioned
    }
}

/// How the object store is set up.
#[derive(Debug)]
pub struct S3StoreSettings {
    pub bucket: String,
    pub endpoint_url: Option<String>,
    pub region: Option<String>,
    pub object_versioning: S3ObjectVersioning,
    pub slow_operation_threshold_millis: u64,
    pub timeout_millis: u64,
}

impl S3StoreSettings {
    /// The settings for a bucket, with the timeout that requests have unless they are given another.
    pub fn new(bucket: String, timeout_millis: u64) -> (settings: Self)
        ensures
            settings == (S3StoreSettings {
                bucket,
                endpoint_url: None,
                region: None,
                object_versioning: S3ObjectVersioning::Versioned,
                slow_operation_threshold_millis: u64::MAX,
                timeout_millis,
            }),
    {
        S3StoreSettings {
            bucket,
            endpoint_url: None,
            region: None,
            object_versioning: S3ObjectVersioning::default(),
            slow_operation_threshold_millis: u64::MAX,
            timeout_millis,
        }
    }

    /// The same settings with an endpoint.
    pub fn with_endpoint(self, endpoint_url: String) -> (settings: Self)
        ensures
            settings == (S3StoreSettings { endpoint_url: Some(endpoint_url), ..self }),
    {
        let mut settings = self;
        settings.endpoint_url = Some(endpoint_url);
        settings
    }

    /// The same settings with a region.
    pub fn with_region(self, region: String) -> (settings: Self)
        ensures
            settings == (S3StoreSettings { region: Some(region), ..self }),
    {
        let mut settings = self;
        settings.region = Some(region);
        settings
    }

    /// The same settings with another object versioning.
    pub fn with_object_versioning(self, object_versioning: S3ObjectVersioning) -> (settings: Self)
        ensures
            settings == (S3StoreSettings { object_versioning, ..self }),
    {
        let mut settings = self;
        settings.object_versioning = object_versioning;
        settings
    }
}

impl Clone for S3StoreSettings {
    fn clone(&self) -> (same: Self)
        ensures
            same == *self,
    {
        S3StoreSettings {
            bucket: self.bucket.clone(),
            endpoint_url: match &self.endpoint_url {
                Some(text) => Some(text.clone()),
                None => None,
            },
            region: match &self.region {
                Some(text) => Some(text.clone()),
                None => None,
            },
            object_versioning: self.object_versioning,
            slow_operation_threshold_millis: self.slow_operation_threshold_millis,
            timeout_millis: self.timeout_millis,
        }
    }
}

/// How the catalog in DynamoDB is set up.
#[derive(Debug)]
pub struct DynamoDbImmutableStoreSettings {
    pub fragments_table_name: String,
    pub metadata_table_name: String,
    pub endpoint_url: Option<String>,
    pub region: Option<String>,
    pub slow_operation_threshold_millis: u64,
    pub timeout_millis: u64,
}

impl DynamoDbImmutableStoreSettings {
    /// The settings for two tables, with the timeout that requests have unless they are given
    /// another.
    pub fn new(
        fragments_table_name: String,
        metadata_table_name: String,
        timeout_millis: u64,
    ) -> (settings: Self)
        ensures
            settings == (DynamoDbImmutableStoreSettings {
                fragments_table_name,
                metadata_table_name,
                endpoint_url: None,
                region: None,
                slow_operation_threshold_millis: u64::MAX,
                timeout_millis,
            }),
    {
        DynamoDbImmutableStoreSettings {
            fragments_table_name,
            metadata_table_name,
            endpoint_url: None,
            region: None,
            slow_operation_threshold_millis: u64::MAX,
            timeout_millis,
        }
    }

    /// The same settings with an endpoint.
    pub fn with_endpoint(self, endpoint_url: String) -> (settings: Self)
        ensures
            settings == (DynamoDbImmutableStoreSettings {
                endpoint_url: Some(endpoint_url),
                ..self
            }),
    {
        let mut settings = self;
        settings.endpoint_url = Some(endpoint_url);
        settings
    }
}

impl Clone for DynamoDbImmutableStoreSettings {
    fn clone(&self) -> (same: Self)
        ensures
            same == *self,
    {
        DynamoDbImmutableStoreSettings {
            fragments_table_name: self.fragments_table_name.clone(),
            metadata_table_name: self.metadata_table_name.clone(),
            endpoint_url: match &self.endpoint_url {
                Some(text) => Some(text.clone()),
                None => None,
            },
            region: match &self.region {
                Some(text) => Some(text.clone()),
                None => None,
            },
            slow_operation_threshold_millis: self.slow_operation_threshold_millis,
            timeout_millis: self.timeout_millis,
        }
    }
}

/// How many lookups may be submitted at once, over all requests.
pub const DEFAULT_SUBMISSION_LIMIT: usize = 150000;

/// How many lookups may be submitted at once, over all requests, unless that is set.
pub fn default_submission_limit() -> (limit: usize)
    ensures
        limit == DEFAULT_SUBMISSION_LIMIT,
{
    DEFAULT_SUBMISSION_LIMIT
}

/// How the store is set up.
#[derive(Debug)]
pub struct AwsImmutableStoreSettings {
    pub s3: S3StoreSettings,
    pub dynamodb: DynamoDbImmutableStoreSettings,
    pub force_write: bool,
    pub batch_exist_submission_limit: usize,
}

impl AwsImmutableStoreSettings {
    /// The settings for an object store and a catalog.
    pub fn new(
        s3: S3StoreSettings,
        dynamodb: DynamoDbImmutableStoreSettings,
        force_write: bool,
    ) -> (settings: Self)
        ensures
            settings == (AwsImmutableStoreSettings {
                s3,
                dynamodb,
                force_write,
                batch_exist_submission_limit: DEFAULT_SUBMISSION_LIMIT,
            }),
    {
        AwsImmutableStoreSettings {
            s3,
            dynamodb,
            force_write,
            batch_exist_submission_limit: default_submission_limit(),
        }
    }
}

impl Clone for AwsImmutableStoreSettings {
    fn clone(&self) -> (same: Self)
        ensures
            same == *self,
    {
        AwsImmutableStoreSettings {
            s3: self.s3.clone(),
            dynamodb: self.dynamodb.clone(),
            force_write: self.force_write,
            batch_exist_submission_limit: self.batch_exist_submission_limit,
        }
    }
}

/// How the object store is set up, whatever the catalog.
#[derive(Debug)]
pub struct ObjectStoreImmutableStoreSettings {
    pub s3: S3StoreSettings,
    pub force_write: bool,
}

impl ObjectStoreImmutableStoreSettings {
    /// The settings for an object store.
    pub fn new(s3: S3StoreSettings, force_write: bool) -> (settings: Self)
        ensures
            settings == (ObjectStoreImmutableStoreSettings { s3, force_write }),
    {
        ObjectStoreImmutableStoreSettings { s3, force_write }
    }
}

impl Clone for ObjectStoreImmutableStoreSettings {
    fn clone(&self) -> (same: Self)
        ensures
            same == *self,
    {
        ObjectStoreImmutableStoreSettings { s3: self.s3.clone(), force_write: self.force_write }
    }
}

impl FromSpecImpl<&AwsImmutableStoreSettings> for ObjectStoreImmutableStoreSettings {
    open spec fn obeys_from_spec() -> bool {
        true
    }

    open spec fn from_spec(settings: &AwsImmutableStoreSettings) -> Self {
        ObjectStoreImmutableStoreSettings { s3: settings.s3, force_write: settings.force_write }
    }
}

impl From<&AwsImmutableStoreSettings> for ObjectStoreImmutableStoreSettings {
    fn from(settings: &AwsImmutableStoreSettings) -> (own: Self) {
        ObjectStoreImmutableStoreSettings {
            s3: settings.s3.clone(),
            force_write: settings.force_write,
        }
    }
}

/// What the store keeps of its settings.
#[derive(Debug)]
pub struct AwsImmutableStore {
    pub bucket: String,
    pub object_versioning: S3ObjectVersioning,
    pub force_write: bool,
}

impl AwsImmutableStore {
    /// A store with given settings.
    pub fn new(settings: &AwsImmutableStoreSettings) -> (store: Self)
        ensures
            store == (AwsImmutableStore {
                bucket: settings.s3.bucket,
                object_versioning: settings.s3.object_versioning,
                force_write: settings.force_write,
            }),
    {
        let own = ObjectStoreImmutableStoreSettings::from(settings);
        AwsImmutableStore::with_catalog(&own)
    }

    /// A store of payloads with given settings, whatever the catalog.
    pub fn with_catalog(settings: &ObjectStoreImmutableStoreSettings) -> (store: Self)
        ensures
            store == (AwsImmutableStore {
                bucket: settings.s3.bucket,
                object_versioning: settings.s3.object_versioning,
                force_write: settings.force_write,
            }),
    {
        AwsImmutableStore {
            bucket: settings.s3.bucket.clone(),
            object_versioning: settings.s3.object_versioning,
            force_write: settings.force_write,
        }
    }
}

} // verus!
