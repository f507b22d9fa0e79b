//! Identifiers of stored documents.

use vstd::prelude::*;

verus! {

/// A twelve-byte document identifier, big-endian: the first four bytes are
/// `timestamp`, the remaining eight are `suffix`.
#[derive(Clone, Copy, Debug, PartialEq, Eq, Hash, Structural)]
pub struct ObjectId {
    /// Seconds since the Unix epoch at which the identifier was generated.
    pub timestamp: u32,
    /// Process-unique value and counter.
    pub suffix: u64,
}

impl ObjectId {
    /// Generates a fresh identifier.
    ///
    /// Trusted: calls `mongodb::bson::oid::ObjectId::new` and splits the
    /// twelve bytes it returns into the two fields. The value depends on the
    /// clock, on a per-process random value and on a counter, so nothing is
    /// claimed of it. The outside function panics when the system clock
    /// stands before 1970 or after 2106.
    #[verifier::external_body]
    pub(crate) fn generate() -> (id: ObjectId) {
        let b = mongodb::bson::oid::ObjectId::new().bytes();
        ObjectId {
            timestamp: u32::from_be_bytes([b[0], b[1], b[2], b[3]]),
            suffix: u64::from_be_bytes([b[4], b[5], b[6], b[7], b[8], b[9], b[10], b[11]]),
        }
    }
}

} // verus!
