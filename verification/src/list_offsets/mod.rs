//! The list-offsets API: requests for the offsets of partitions at a
//! timestamp, and the offsets that come back.

use vstd::prelude::*;

use crate::api::Api;
use crate::api_key::ApiKey;

pub mod request;
pub mod response;

verus! {

/// The API for listing offsets.
pub struct ListOffsetsApi;

impl Api for ListOffsetsApi {
    type Request = request::ListOffsetsRequest;

    type Response = response::ListOffsetsResponse;

    fn key() -> (r: ApiKey)
        ensures
            r == ApiKey::ListOffsets,
    {
        ApiKey::ListOffsets
    }
}

} // verus!
