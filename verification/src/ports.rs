//! The collaborators the resolution chain depends on.
//!
//! Each outward-facing capability — the native location service, the two
//! HTTP APIs, and the file system holding the cache — is a trait, so the
//! chain's policy is platform-agnostic and each capability can be swapped
//! for another implementation.  Every trait carries a ghost log of the
//! calls made through it; the contracts of the resolution chain speak of
//! those logs, so that which collaborator was consulted, how often, and in
//! what order is part of what is proved.

use vstd::prelude::*;

use crate::errors::SunshineError;
use crate::locators::Location;
use crate::locators::LocationView;

verus! {

/// The outcome of a string-yielding call, with the string abstracted to
/// its characters.
pub open spec fn view_str_result(r: Result<String, SunshineError>) -> Result<
    Seq<char>,
    SunshineError,
> {
    match r {
        Ok(s) => Ok(s@),
        Err(e) => Err(e),
    }
}

/// The outcome of a location-yielding call, with the location abstracted
/// to its tokens.
pub open spec fn view_loc_result(r: Result<Location, SunshineError>) -> Result<
    LocationView,
    SunshineError,
> {
    match r {
        Ok(loc) => Ok(loc@),
        Err(e) => Err(e),
    }
}

/// One interaction with the store holding the cache file.
pub enum StoreEvent {
    /// The platform cache directory was asked for.
    DirQuery(Result<Seq<char>, SunshineError>),
    /// The file at the path was read in full.
    ReadFile(Seq<char>, Result<Seq<char>, SunshineError>),
    /// The file at the path was overwritten with the contents.
    WriteFile(Seq<char>, Seq<char>, Result<(), SunshineError>),
}

/// Where the cache file lives and how it is read and written.  One
/// implementation backs it with the platform cache directory and the file
/// system; `MemoryStore` keeps it in memory.
pub trait CacheStore {
    /// Every interaction made through this store, oldest first.
    spec fn log(&self) -> Seq<StoreEvent>;

    /// The per-application cache directory, created if absent.  Fails with
    /// `CacheDirectoryUnavailable` when it cannot be determined or created.
    fn cache_dir(&mut self) -> (r: Result<String, SunshineError>)
        ensures
            final(self).log() == old(self).log().push(StoreEvent::DirQuery(view_str_result(r))),
            r matches Err(e) ==> e == SunshineError::CacheDirectoryUnavailable,
    ;

    /// The full contents of the file at `path`.  Fails with
    /// `CacheLoadError` when the file cannot be read.
    fn read_file(&mut self, path: &str) -> (r: Result<String, SunshineError>)
        ensures
            final(self).log() == old(self).log().push(
                StoreEvent::ReadFile(path@, view_str_result(r)),
            ),
            r matches Err(e) ==> e == SunshineError::CacheLoadError,
    ;

    /// Overwrites the file at `path` with `contents`.  Fails with
    /// `CacheWriteError` when the file cannot be written.
    fn write_file(&mut self, path: &str, contents: &str) -> (r: Result<(), SunshineError>)
        ensures
            final(self).log() == old(self).log().push(
                StoreEvent::WriteFile(path@, contents@, r),
            ),
            r matches Err(e) ==> e == SunshineError::CacheWriteError,
    ;
}

/// The location strategies that reach outside the process: the native
/// platform service and the two HTTP APIs.  The chain decides which to
/// consult and what to make of the answers; implementations only carry the
/// calls out.
pub trait LocationProviders {
    /// Outcomes of the native service queries, oldest first.
    spec fn native_log(&self) -> Seq<Result<LocationView, SunshineError>>;

    /// Outcomes of the IP-geolocation requests: each element is the raw
    /// response body, or the transport failure.
    spec fn ip_log(&self) -> Seq<Result<Seq<char>, SunshineError>>;

    /// Outcomes of the geocoding requests: each element pairs the queried
    /// name with the raw response body or the transport failure.
    spec fn geo_log(&self) -> Seq<(Seq<char>, Result<Seq<char>, SunshineError>)>;

    /// Queries the native platform location service.  On a platform
    /// without one it fails immediately with `CoreLocationUnavailable`,
    /// without attempting any I/O; where one exists, a service failure is
    /// `CoreLocationError`.
    fn locate_native(&mut self) -> (r: Result<Location, SunshineError>)
        ensures
            final(self).native_log() == old(self).native_log().push(view_loc_result(r)),
            final(self).ip_log() == old(self).ip_log(),
            final(self).geo_log() == old(self).geo_log(),
            r matches Err(e) ==> (e == SunshineError::CoreLocationUnavailable || e
                == SunshineError::CoreLocationError),
            r matches Ok(loc) ==> loc@.wf(),
    ;

    /// One unauthenticated GET to the fixed IP-geolocation endpoint,
    /// yielding the raw response body.  A transport failure is `ApiError`.
    fn fetch_ip(&mut self) -> (r: Result<String, SunshineError>)
        ensures
            final(self).ip_log() == old(self).ip_log().push(view_str_result(r)),
            final(self).native_log() == old(self).native_log(),
            final(self).geo_log() == old(self).geo_log(),
            r matches Err(e) ==> e == SunshineError::ApiError,
    ;

    /// One GET to the fixed geocoding search endpoint with the name as the
    /// query, yielding the raw response body.  A transport failure is
    /// `ApiError`.
    fn search(&mut self, name: &str) -> (r: Result<String, SunshineError>)
        ensures
            final(self).geo_log() == old(self).geo_log().push((name@, view_str_result(r))),
            final(self).native_log() == old(self).native_log(),
            final(self).ip_log() == old(self).ip_log(),
            r matches Err(e) ==> e == SunshineError::ApiError,
    ;
}

/// What answers a name on a cache miss.  The chain routes geocoding
/// through the name cache's `fetch`, which consults a resolver only when
/// the name is absent.
pub trait Resolver {
    /// The names resolved through this resolver, oldest first, each paired
    /// with its outcome.
    spec fn log(&self) -> Seq<(Seq<char>, Result<LocationView, SunshineError>)>;

    /// The logs of the strategies a resolver leaves alone: resolving a
    /// name never consults the native service or the IP strategy.
    spec fn untouched_logs(&self) -> (
        Seq<Result<LocationView, SunshineError>>,
        Seq<Result<Seq<char>, SunshineError>>,
    );

    /// Resolves `name` to a location.
    fn resolve(&mut self, name: &str) -> (r: Result<Location, SunshineError>)
        ensures
            final(self).log() == old(self).log().push((name@, view_loc_result(r))),
            final(self).untouched_logs() == old(self).untouched_logs(),
    ;
}

} // verus!
