//! The typed failures that every encode or decode operation can return.
//!
//! No operation aborts the process and no partial value is ever returned on
//! failure: a caller always receives either a fully decoded value or one of
//! these errors.

use vstd::prelude::*;

verus! {

/// A typed encode/decode failure.
#[derive(Clone, Copy, Debug, PartialEq, Eq, Structural)]
pub enum Error {
    /// Fewer bytes were available than a field declared.
    Truncated,
    /// A variable-length integer ran past its maximum byte count without
    /// terminating, or encoded a value outside its type's range.
    MalformedVarint,
    /// String bytes were not valid UTF-8.
    InvalidUtf8,
    /// Tags in a tagged-field block were not strictly increasing in wire order.
    OutOfOrderTag,
    /// Two entries of a tagged-field block carried the same tag.
    DuplicateTag,
    /// A record batch declared a magic number other than the supported one.
    UnsupportedMagicNumber(i8),
    /// The checksum recomputed over a record batch disagreed with the stored one.
    ChecksumMismatch,
    /// The compression bits of a record batch named no valid compression.
    InvalidCompressionCode(u8),
    /// A numeric API key matched no entry of the API code table.
    InvalidApiKey(i16),
    /// An acknowledgement-requirement code matched no entry of its table.
    InvalidAckRequirement(i16),
    /// An isolation-level code matched no entry of its table.
    InvalidIsolationLevel(i8),
    /// A status code matched no entry of the operation-status table.
    InvalidStatusCode(i32),
    /// The API registry holds no schema for this API identifier.
    UnsupportedApi(i16),
    /// The requested version lies outside the supported range for this API.
    UnsupportedVersion(i16),
    /// A frame length prefix was negative or exceeded the configured maximum.
    InvalidFrameSize(i32),
    /// A value was supplied for a field that is not present at the requested
    /// version.
    FieldVersionMismatch,
}

} // verus!
