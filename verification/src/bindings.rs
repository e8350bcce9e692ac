//! The values exchanged with the storage bindings: bucket objects, and the
//! errors that the bucket, the key-value store and the secret store report.

use vstd::prelude::*;
use crate::metadata::Metadata;

verus! {

/// An object read from (or written to) the bucket.
pub struct BucketObject {
    pub key: String,
    pub body: Option<Vec<u8>>,
    pub custom_metadata: Option<Metadata>,
}

impl BucketObject {
    /// The object's key.
    pub fn key(&self) -> (r: &str)
        ensures
            r@ == self.key@,
    {
        self.key.as_str()
    }

    /// The object's body, when it was fetched.
    pub fn body(&self) -> (r: Option<&[u8]>)
        ensures
            r is Some <==> self.body is Some,
            r matches Some(b) ==> b@ == self.body->0@,
    {
        match &self.body {
            Some(b) => Some(b.as_slice()),
            None => None,
        }
    }
}

/// The bytes `start..end` of an object as an offset and a length; an empty
/// or reversed range has length 0.
pub fn byte_range(start: usize, end: usize) -> (r: (u64, u64))
    ensures
        r.0 == start,
        r.1 == (if end >= start { end - start } else { 0 }),
{
    (start as u64, end.saturating_sub(start) as u64)
}

/// A bucket operation failed.
pub struct BucketError {
    pub message: String,
}

/// A key-value store operation failed.
pub struct KvError {
    pub message: String,
}

/// A secret could not be read.
pub struct SecretError {
    pub message: String,
}

} // verus!
