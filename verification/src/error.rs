use vstd::prelude::*;

verus! {

/// Shared failure vocabulary for the registry.
///
/// Caller-correctable conditions (`InvalidPage`, `InvalidId`, `UploadTooLarge`,
/// `Conflict`) are kept distinct from storage and filesystem faults
/// (`DbAcquireError`, `DbError`, `FsError`) and from a missing lookup target
/// (`NotFound`), so that the transport layer can map them to different
/// response codes.
#[derive(Debug)]
pub enum Error {
    /// The connection pool could not hand out a connection.
    DbAcquireError,
    /// A query failed for a reason other than "no row matched".
    DbError,
    /// The lookup target does not exist.
    NotFound,
    /// `page` was below 1 or `per_page` below 1.
    InvalidPage,
    /// The upload id is not a safe filename component.
    InvalidId,
    /// The upload would exceed the staging size cap.
    UploadTooLarge,
    /// The transport failed while the body was being read.
    UploadError(String),
    /// Writing or finalizing the staging file failed.
    FsError,
    /// Another ingest for the same id is already staging.
    Conflict,
}

} // verus!
