//! The metadata API: requests for cluster, broker and topic layout, and the
//! metadata that comes back.

use vstd::prelude::*;

use crate::api::Api;
use crate::api_key::ApiKey;

pub mod request;
pub mod response;

verus! {

/// The API for fetching cluster metadata.
pub struct MetadataApi;

impl Api for MetadataApi {
    type Request = request::MetadataRequest;

    type Response = response::MetadataResponse;

    fn key() -> (r: ApiKey)
        ensures
            r == ApiKey::Metadata,
    {
        ApiKey::Metadata
    }
}

} // verus!
