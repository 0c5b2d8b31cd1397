//! The user-facing error kind, wrapping the layer errors.

use vstd::prelude::*;

use crate::encrypted::EncryptionError;
use crate::record::NetworkError;

verus! {

/// Why an operation against the store failed.
#[derive(Debug, Clone)]
pub enum IntersectError {
    EncryptionError(EncryptionError),
    NetworkError(NetworkError),
    /// The caller's shard does not match the record's shard.
    Unauthorized,
    /// The trace is locked or password-protected, so it cannot be opened
    /// directly.
    LockedTrace,
}

} // verus!
