//! The command-line arguments, as plain values.

use vstd::prelude::*;

verus! {

/// What the user asked for: the paths to upload and where to send them.
/// Paths are the bytes of local Unix paths.
pub struct Args {
    /// Files or directories to upload (at least one, files and directories
    /// may be mixed).
    pub paths: Vec<Vec<u8>>,
    /// Custom path prefix in the bucket; when absent a timestamped one is
    /// made up.
    pub prefix: Option<String>,
    /// The object store's API endpoint.
    pub endpoint: String,
    /// Target bucket name.
    pub bucket: String,
    /// Access key ID.
    pub access_key: String,
    /// Secret access key.
    pub secret_key: String,
    /// Region name.
    pub region: String,
    /// Per-request timeout in seconds; no timeout when absent.
    pub timeout: Option<u64>,
    /// How many files are uploaded at the same time.
    pub concurrency: usize,
}

} // verus!
