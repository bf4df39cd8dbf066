use vstd::prelude::*;

verus! {

/// What a store, a decode or a verified query can fail with.
#[derive(Clone, Copy, Debug, PartialEq, Eq, Structural)]
pub enum StoreError {
    /// The key that was asked for is absent.
    NotFound,
    /// A record with the same content id is already stored.
    DuplicateRecord,
    /// A payload is not valid base64, UTF-8 or JSON.
    DecodeError,
    /// The id recomputed from the stored content differs from the claimed id.
    IntegrityMismatch,
}

} // verus!
