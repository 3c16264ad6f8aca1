//! Setting up the object store client, and deciding how each file is sent.

use vstd::prelude::*;

use crate::config::{UploadConfig, UploadItem};
use crate::content_type::{content_type_for, detect, guessed_mime};
use crate::error::{UploadError, UploadErrorView};

verus! {

#[verifier::external_type_specification]
#[verifier::external_body]
pub struct ExBucket(s3::Bucket);

#[verifier::external_type_specification]
#[verifier::external_body]
pub struct ExRegion(s3::Region);

#[verifier::external_type_specification]
#[verifier::external_body]
pub struct ExCredentials(s3::creds::Credentials);

#[verifier::external_type_specification]
#[verifier::external_body]
pub struct ExCredentialsError(s3::creds::error::CredentialsError);

#[verifier::external_type_specification]
#[verifier::external_body]
pub struct ExS3Error(s3::error::S3Error);

/// Files of at least this many bytes (5 MiB) are sent as a multipart
/// upload; smaller ones with a single PUT.
pub const MULTIPART_THRESHOLD: u64 = 5 * 1024 * 1024;

/// How a file is sent.
#[derive(Debug, Clone, Copy, PartialEq, Eq, Structural)]
pub enum UploadMode {
    /// The whole file is read and sent with one PUT request.
    SinglePut,
    /// The file is streamed as an S3 multipart upload.
    Multipart,
}

pub open spec fn mode_for(size: u64) -> UploadMode {
    if size < MULTIPART_THRESHOLD {
        UploadMode::SinglePut
    } else {
        UploadMode::Multipart
    }
}

/// Files under 5 MiB go with a single PUT, the others as multipart uploads.
pub fn upload_mode(size: u64) -> (mode: UploadMode)
    ensures
        mode == mode_for(size),
{
    if size < MULTIPART_THRESHOLD {
        UploadMode::SinglePut
    } else {
        UploadMode::Multipart
    }
}

/// How one item is to be sent: with which content type, and in which mode.
pub struct UploadPlan {
    pub content_type: String,
    pub mode: UploadMode,
}

/// The plan for sending `item`: the content type is detected from its
/// remote key, and the mode follows its size.
pub fn plan_upload(item: &UploadItem) -> (plan: UploadPlan)
    ensures
        plan.content_type@ == content_type_for(guessed_mime(item.remote_key@)),
        plan.mode == mode_for(item.size),
{
    UploadPlan { content_type: detect(item.remote_key.as_str()), mode: upload_mode(item.size) }
}

/// The error for a failed upload of `item`, with the failure's message.
pub fn upload_failed(item: &UploadItem, cause: String) -> (e: UploadError)
    ensures
        e@ == (UploadErrorView::UploadFailed { filename: item.remote_key@, source: cause@ }),
{
    UploadError::UploadFailed { filename: item.remote_key.clone(), source: cause }
}

/// What a bucket handle was set up with, as rust-s3 holds it: the bucket
/// name, the custom region's name and endpoint, the access and secret keys
/// (with no security or session token), whether objects are addressed
/// path-style, and the bucket's request timeout setting in seconds (what
/// `Bucket::request_timeout` reports; none means no timeout). rust-s3's
/// tokio client takes its connect timeout from this setting when the client
/// is built, by `Bucket::new` (60 seconds) or `with_request_timeout`;
/// clearing the setting afterwards does not rebuild the client.
pub struct ClientSettings {
    pub name: Seq<char>,
    pub region: Seq<char>,
    pub endpoint: Seq<char>,
    pub access_key: Seq<char>,
    pub secret_key: Seq<char>,
    pub path_style: bool,
    pub timeout: Option<u64>,
}

/// rust-s3's request timeout of a freshly made bucket, in seconds
/// (`DEFAULT_REQUEST_TIMEOUT` in its `bucket.rs`).
pub const DEFAULT_CLIENT_TIMEOUT: u64 = 60;

/// An `s3::Region`, with the region name and endpoint it was built from.
/// Only [`custom_region`] builds one.
struct RegionHandle {
    region: s3::Region,
    model: Ghost<(Seq<char>, Seq<char>)>,
}

/// `s3::creds::Credentials`, with the access and secret keys they hold.
/// Only [`static_credentials`] builds them.
struct CredentialsHandle {
    credentials: s3::creds::Credentials,
    model: Ghost<(Seq<char>, Seq<char>)>,
}

/// A bucket handle of rust-s3, with the settings it was built with. Only the
/// wrappers of this module build one, each recording in `settings` what the
/// crate's source shows it sets.
pub struct BucketHandle {
    bucket: Box<s3::Bucket>,
    settings: Ghost<ClientSettings>,
}

impl BucketHandle {
    /// The settings this handle was built with.
    pub closed spec fn settings(self) -> ClientSettings {
        self.settings@
    }

    /// The rust-s3 bucket, to send requests through.
    pub fn bucket(&self) -> (b: &s3::Bucket) {
        &self.bucket
    }
}

/// Builds `s3::Region::Custom { region, endpoint }`. Trusted: the recorded
/// name and endpoint are the ones it was built from.
#[verifier::external_body]
fn custom_region(region: String, endpoint: String) -> (r: RegionHandle)
    ensures
        r.model@ == (region@, endpoint@),
{
    RegionHandle {
        region: s3::Region::Custom { region, endpoint },
        model: Ghost(vstd::pervasive::arbitrary()),
    }
}

/// `s3::creds::Credentials::new(Some(access_key), Some(secret_key), None,
/// None, None)`. Trusted: with an access key given, the crate returns the
/// given keys (and no token) without looking anywhere else, so this never
/// fails.
#[verifier::external_body]
fn static_credentials(access_key: &str, secret_key: &str) -> (res: Result<
    CredentialsHandle,
    s3::creds::error::CredentialsError,
>)
    ensures
        res is Ok,
        res matches Ok(c) ==> c.model@ == (access_key@, secret_key@),
{
    match s3::creds::Credentials::new(Some(access_key), Some(secret_key), None, None, None) {
        Ok(credentials) => Ok(
            CredentialsHandle { credentials, model: Ghost(vstd::pervasive::arbitrary()) },
        ),
        Err(e) => Err(e),
    }
}

/// `s3::Bucket::new(name, region, credentials)`. Trusted: when it succeeds,
/// the bucket has that name, region and credentials, virtual-host
/// addressing, and rust-s3's default request timeout of 60 seconds. It
/// builds an HTTPS client through the system's TLS library (rust-s3's
/// `use-tokio-native-tls` backend, which reports a failure as an error);
/// whether that succeeds depends on the machine, so success is not claimed.
#[verifier::external_body]
fn new_bucket(name: &str, region: RegionHandle, credentials: CredentialsHandle) -> (res: Result<
    BucketHandle,
    s3::error::S3Error,
>)
    ensures
        res matches Ok(h) ==> h.settings@ == (ClientSettings {
            name: name@,
            region: region.model@.0,
            endpoint: region.model@.1,
            access_key: credentials.model@.0,
            secret_key: credentials.model@.1,
            path_style: false,
            timeout: Some(DEFAULT_CLIENT_TIMEOUT),
        }),
{
    match s3::Bucket::new(name, region.region, credentials.credentials) {
        Ok(bucket) => Ok(BucketHandle { bucket, settings: Ghost(vstd::pervasive::arbitrary()) }),
        Err(e) => Err(e),
    }
}

/// `bucket.with_path_style()`: the same bucket, addressed path-style.
/// Trusted: every other setting is kept.
#[verifier::external_body]
fn path_style(h: BucketHandle) -> (styled: BucketHandle)
    ensures
        styled.settings@ == (ClientSettings { path_style: true, ..h.settings@ }),
{
    BucketHandle { bucket: h.bucket.with_path_style(), settings: Ghost(vstd::pervasive::arbitrary()) }
}

/// `bucket.with_request_timeout(Duration::from_secs(secs))`. Trusted: when
/// it succeeds, the bucket has that timeout and every other setting kept. It
/// builds a new HTTPS client, as [`new_bucket`] does, so success is not
/// claimed.
#[verifier::external_body]
fn with_timeout(h: BucketHandle, secs: u64) -> (res: Result<BucketHandle, s3::error::S3Error>)
    ensures
        res matches Ok(t) ==> t.settings@ == (ClientSettings { timeout: Some(secs), ..h.settings@ }),
{
    match h.bucket.with_request_timeout(std::time::Duration::from_secs(secs)) {
        Ok(bucket) => Ok(BucketHandle { bucket, settings: Ghost(vstd::pervasive::arbitrary()) }),
        Err(e) => Err(e),
    }
}

/// `bucket.set_request_timeout(None)`: the same bucket, with no request
/// timeout. Trusted: every other setting is kept.
#[verifier::external_body]
fn without_timeout(h: BucketHandle) -> (t: BucketHandle)
    ensures
        t.settings@ == (ClientSettings { timeout: None, ..h.settings@ }),
{
    let mut bucket = h.bucket;
    bucket.set_request_timeout(None);
    BucketHandle { bucket, settings: Ghost(vstd::pervasive::arbitrary()) }
}

/// The message of an object store error (its `Display` text). Nothing is
/// claimed of it.
#[verifier::external_body]
fn s3_error_text(e: &s3::error::S3Error) -> (text: String) {
    e.to_string()
}

/// The message of a credentials error (its `Display` text). Nothing is
/// claimed of it.
#[verifier::external_body]
fn credentials_error_text(e: &s3::creds::error::CredentialsError) -> (text: String) {
    e.to_string()
}

/// The settings a bucket handle made for `config` has: the configured
/// bucket, region, endpoint and keys, path-style addressing, and the
/// configured timeout, or none when none is configured.
pub open spec fn settings_for(config: &UploadConfig) -> ClientSettings {
    ClientSettings {
        name: config.bucket@,
        region: config.region@,
        endpoint: config.endpoint@,
        access_key: config.access_key@,
        secret_key: config.secret_key@,
        path_style: true,
        timeout: config.timeout,
    }
}

/// Create a bucket handle for the configured endpoint, region, bucket and
/// credentials, addressed path-style (as MinIO wants), with the configured
/// per-request timeout when there is one and no timeout otherwise. Any
/// failure of the client setup is reported as `ClientInit` with the
/// failure's message.
pub fn create_bucket(config: &UploadConfig) -> (res: Result<BucketHandle, UploadError>)
    ensures
        match res {
            Ok(h) => h.settings() == settings_for(config),
            Err(e) => e@ is ClientInit,
        },
        res matches Ok(h) ==> {
            &&& h.settings().access_key == config.access_key@
            &&& h.settings().secret_key == config.secret_key@
            &&& h.settings().name == config.bucket@
            &&& h.settings().region == config.region@
            &&& h.settings().endpoint == config.endpoint@
            &&& h.settings().path_style
            &&& h.settings().timeout == config.timeout
        },
{
    let region = custom_region(config.region.clone(), config.endpoint.clone());
    let credentials = match static_credentials(config.access_key.as_str(), config.secret_key.as_str()) {
        Ok(c) => c,
        Err(e) => {
            return Err(UploadError::ClientInit(credentials_error_text(&e)));
        },
    };
    let bucket = match new_bucket(config.bucket.as_str(), region, credentials) {
        Ok(b) => b,
        Err(e) => {
            return Err(UploadError::ClientInit(s3_error_text(&e)));
        },
    };
    let bucket = path_style(bucket);
    match config.timeout {
        Some(secs) => match with_timeout(bucket, secs) {
            Ok(b) => Ok(b),
            Err(e) => Err(UploadError::ClientInit(s3_error_text(&e))),
        },
        None => Ok(without_timeout(bucket)),
    }
}

} // verus!
