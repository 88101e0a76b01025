//! Limits and defaults.

use vstd::prelude::*;

verus! {

/// How long a session cookie lasts where nothing else is configured: seven days.
pub const SESSION_MAX_AGE_SECS: u32 = 604800;

/// The size of a chunk of a large file: 19.5 MiB.
pub const TELEGRAM_CHUNK_SIZE: usize = 20447232;

/// How many chunks are uploaded at a time where nothing else is configured.
pub const MAX_CONCURRENT_CHUNK_UPLOADS: usize = 3;

/// How often the upload of a document is tried.
pub const TG_UPLOAD_MAX_RETRIES: u32 = 3;

/// How many files may be deleted at a time.
pub const BATCH_DELETE_MAX: usize = 100;

/// A session lasts seven days, and a chunk is 19.5 MiB. Three chunks are uploaded at a time, an upload is
/// tried three times, and a hundred files may be deleted at a time.
pub proof fn law_limits()
    ensures
        SESSION_MAX_AGE_SECS == 7 * 24 * 60 * 60,
        2 * TELEGRAM_CHUNK_SIZE == 39 * 1024 * 1024,
        MAX_CONCURRENT_CHUNK_UPLOADS == 3,
        TG_UPLOAD_MAX_RETRIES == 3,
        BATCH_DELETE_MAX == 100,
{
}

} // verus!
