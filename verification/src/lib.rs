//! Storage service core: HTTP header interpretation, upload and download
//! chunking, file hashing and the replies of the storage and task routes.

pub mod common;
pub mod routes;
pub mod services;

use vstd::prelude::*;

verus! {

/// Size of the buffer that an upload is read through.
pub const BUCKET_CHUNK_SIZE: usize = 512 * 1024;

/// Size of the buffer used to skip the head of a stored file.
pub const SKIP_BUFFER_SIZE: usize = 10 * 1024 * 1024;

/// Largest accepted upload, in gigabytes.
pub const MAX_STREAM_LENGTH: usize = 10;

/// Name of the database that holds the buckets.
pub const MONGO_DB_NAME: &'static str = "storage";

} // verus!
