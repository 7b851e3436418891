//! The produce API: requests that carry record batches to partitions, and
//! the per-partition results that come back.

use vstd::prelude::*;

use crate::api::Api;
use crate::api_key::ApiKey;

pub mod request;
pub mod response;

verus! {

/// The API for producing data.
pub struct ProduceApi;

impl Api for ProduceApi {
    type Request = request::ProduceRequest;

    type Response = response::ProduceResponse;

    fn key() -> (r: ApiKey)
        ensures
            r == ApiKey::Produce,
    {
        ApiKey::Produce
    }
}

/// The version from which produce messages carry a transactional ID.
pub const PRODUCE_TRANSACTIONAL_ID_FROM: i16 = 3;

/// The version from which produce messages are flexible.
pub const PRODUCE_FLEXIBLE_FROM: i16 = 9;

/// The lowest produce version the registry supports.
pub const PRODUCE_MIN_VERSION: i16 = 0;

/// The highest produce version the registry supports.
pub const PRODUCE_MAX_VERSION: i16 = 11;

} // verus!
