//! The API registry: which APIs this codec has schemas for, the version
//! range each supports, the version at which each becomes flexible, and the
//! per-field version gate that drives encode and decode decisions.

use vstd::prelude::*;

use crate::api_key::ApiKey;
use crate::error::Error;

verus! {

/// Marks a type as an API: a request/response schema pair under one key.
pub trait Api {
    /// The request message of this API.
    type Request;

    /// The response message of this API.
    type Response;

    /// The key under which the registry lists this API.
    fn key() -> ApiKey;
}

/// The version range over which a field is present in a message's wire form:
/// a field is included at version `v` exactly when `v` is at or above the
/// minimum (when one is set) and at or below the maximum (when one is set).
#[derive(Clone, Copy, Debug, PartialEq, Eq, Structural)]
pub struct VersionedField {
    pub min_version: Option<i16>,
    pub max_version: Option<i16>,
}

pub open spec fn spec_field_present(f: VersionedField, v: i16) -> bool {
    &&& f.min_version matches Some(m) ==> m <= v
    &&& f.max_version matches Some(m) ==> v <= m
}

impl VersionedField {
    /// Whether this field is present in the wire form of version `v`.
    pub fn present(&self, v: i16) -> (r: bool)
        ensures
            r == spec_field_present(*self, v),
    {
        let lo = match self.min_version {
            None => true,
            Some(m) => m <= v,
        };
        let hi = match self.max_version {
            None => true,
            Some(m) => v <= m,
        };
        lo && hi
    }
}

/// A registry entry: the resolved key, its supported version range, and the
/// version from which its headers and bodies are flexible (tagged-field
/// capable).
#[derive(Clone, Copy, Debug, PartialEq, Eq, Structural)]
pub struct ApiInfo {
    pub key: ApiKey,
    pub min_version: i16,
    pub max_version: i16,
    pub flexible_from: i16,
}

/// The static registry table: the message APIs this codec holds schemas for.
pub open spec fn spec_registry_entry(code: i16) -> Option<ApiInfo> {
    if code == 0 {
        Some(ApiInfo { key: ApiKey::Produce, min_version: 0, max_version: 11, flexible_from: 9 })
    } else if code == 1 {
        Some(ApiInfo { key: ApiKey::Fetch, min_version: 0, max_version: 16, flexible_from: 12 })
    } else if code == 2 {
        Some(
            ApiInfo { key: ApiKey::ListOffsets, min_version: 0, max_version: 8, flexible_from: 6 },
        )
    } else if code == 3 {
        Some(ApiInfo { key: ApiKey::Metadata, min_version: 0, max_version: 12, flexible_from: 9 })
    } else {
        None
    }
}

/// What resolving must return: the entry when the code is mapped and the
/// version in range, `UnsupportedApi` for an unmapped code, and
/// `UnsupportedVersion` for a version outside the supported range.
pub open spec fn spec_resolve(code: i16, version: i16) -> Result<ApiInfo, Error> {
    match spec_registry_entry(code) {
        None => Err(Error::UnsupportedApi(code)),
        Some(info) => if info.min_version <= version <= info.max_version {
            Ok(info)
        } else {
            Err(Error::UnsupportedVersion(version))
        },
    }
}

/// Resolves an API code and negotiated version against the registry.
pub fn resolve(code: i16, version: i16) -> (r: Result<ApiInfo, Error>)
    ensures
        r == spec_resolve(code, version),
{
    let info = match code {
        0 => ApiInfo { key: ApiKey::Produce, min_version: 0, max_version: 11, flexible_from: 9 },
        1 => ApiInfo { key: ApiKey::Fetch, min_version: 0, max_version: 16, flexible_from: 12 },
        2 => ApiInfo {
            key: ApiKey::ListOffsets,
            min_version: 0,
            max_version: 8,
            flexible_from: 6,
        },
        3 => ApiInfo { key: ApiKey::Metadata, min_version: 0, max_version: 12, flexible_from: 9 },
        _ => {
            return Err(Error::UnsupportedApi(code));
        },
    };
    if info.min_version <= version && version <= info.max_version {
        Ok(info)
    } else {
        Err(Error::UnsupportedVersion(version))
    }
}

/// Whether the registry marks `version` of the API at `code` flexible.
pub fn is_flexible(code: i16, version: i16) -> (r: Result<bool, Error>)
    ensures
        match r {
            Ok(b) => spec_resolve(code, version) matches Ok(info) && b == (version
                >= info.flexible_from),
            Err(e) => spec_resolve(code, version) == Err::<ApiInfo, _>(e),
        },
{
    match resolve(code, version) {
        Ok(info) => Ok(version >= info.flexible_from),
        Err(e) => Err(e),
    }
}

} // verus!
