//! The closed set of failure kinds of the library.
//!
//! Each resolution step and cache operation reports its failure as one of
//! these kinds; none is recovered internally except inside the automatic
//! resolution chain and the load-or-create cache bootstrap.

use vstd::prelude::*;

verus! {

/// Every way a resolution or a cache operation can fail.
#[derive(Clone, Copy, Debug, PartialEq, Eq, Structural)]
pub enum SunshineError {
    /// The descriptor has an unknown sigil, a missing payload, or
    /// coordinate tokens that do not parse as numbers.
    MalformedLocationString,
    /// No native location service exists on this platform.
    CoreLocationUnavailable,
    /// The geocoding service returned zero candidates for the name.
    UnknownLocationName,
    /// The native location service exists but failed.
    CoreLocationError,
    /// A transport-level failure while calling an HTTP API.
    ApiError,
    /// An HTTP response body does not match the expected shape.
    JsonError,
    /// The in-memory cache could not be encoded for persistence.
    CacheSerializationError,
    /// The cache file content is malformed.
    CacheDeserializationError,
    /// The cache file could not be read.
    CacheLoadError,
    /// The cache file could not be written.
    CacheWriteError,
    /// The platform cache directory cannot be determined or created.
    CacheDirectoryUnavailable,
}

impl SunshineError {
    /// A human-readable description of the failure.
    pub fn message(&self) -> (r: &'static str)
        ensures
            r@.len() > 0,
    {
        let m: &'static str = match self {
            SunshineError::MalformedLocationString => "malformed location string",
            SunshineError::CoreLocationError => "corelocation failure",
            SunshineError::CoreLocationUnavailable => "corelocation unavailable",
            SunshineError::UnknownLocationName => "requested location can not be found",
            SunshineError::ApiError => "api connection error",
            SunshineError::JsonError => "api deserialization error",
            SunshineError::CacheSerializationError => "cache serialization error",
            SunshineError::CacheDeserializationError => "cache deserialization error",
            SunshineError::CacheDirectoryUnavailable => "system cache directory could not be accessed",
            SunshineError::CacheLoadError => "cache could not be loaded",
            SunshineError::CacheWriteError => "could not write to cache",
        };
        proof {
            reveal_strlit("malformed location string");
            reveal_strlit("corelocation failure");
            reveal_strlit("corelocation unavailable");
            reveal_strlit("requested location can not be found");
            reveal_strlit("api connection error");
            reveal_strlit("api deserialization error");
            reveal_strlit("cache serialization error");
            reveal_strlit("cache deserialization error");
            reveal_strlit("system cache directory could not be accessed");
            reveal_strlit("cache could not be loaded");
            reveal_strlit("could not write to cache");
        }
        m
    }
}

} // verus!
