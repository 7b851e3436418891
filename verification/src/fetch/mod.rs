//! The fetch API: requests for record data from partitions, and the
//! per-partition data and status that come back.

use vstd::prelude::*;

use crate::api::Api;
use crate::api_key::ApiKey;

pub mod request;
pub mod response;

verus! {

/// The API for fetching data.
pub struct FetchApi;

impl Api for FetchApi {
    type Request = request::FetchRequest;

    type Response = response::FetchResponse;

    fn key() -> (r: ApiKey)
        ensures
            r == ApiKey::Fetch,
    {
        ApiKey::Fetch
    }
}

} // verus!
