//! Adapters that turn bare collaborators into logged, contract-carrying
//! ones.
//!
//! A bare collaborator — a file system, an HTTP client, a platform
//! service — promises nothing; the raw traits here have no contracts, so
//! ordinary code outside the library can implement them.  The logged
//! adapters wrap a raw implementation, normalize each failure to the kind
//! the interface owes, validate what must be valid, and keep the ghost
//! log the resolution contracts speak of.

use vstd::prelude::*;

use crate::errors::SunshineError;
use crate::locators::Location;
use crate::locators::LocationView;
use crate::numbers::check_float_token;
use crate::ports::CacheStore;
use crate::ports::LocationProviders;
use crate::ports::StoreEvent;
use crate::ports::view_loc_result;
use crate::ports::view_str_result;

verus! {

/// A bare store of the cache file, with no promises attached.
pub trait RawStore {
    /// The platform cache directory, created if absent.
    fn raw_cache_dir(&mut self) -> Result<String, SunshineError>;

    /// The full contents of the file at `path`.
    fn raw_read_file(&mut self, path: &str) -> Result<String, SunshineError>;

    /// Overwrites the file at `path` with `contents`.
    fn raw_write_file(&mut self, path: &str, contents: &str) -> Result<(), SunshineError>;
}

/// Bare location strategies, with no promises attached.
pub trait RawProviders {
    /// Queries the native platform location service.
    fn raw_locate_native(&mut self) -> Result<Location, SunshineError>;

    /// One GET to the IP-geolocation endpoint, yielding the raw body.
    fn raw_fetch_ip(&mut self) -> Result<String, SunshineError>;

    /// One GET to the geocoding search endpoint, yielding the raw body.
    fn raw_search(&mut self, name: &str) -> Result<String, SunshineError>;
}

/// A bare store with the ghost log and the error normalization the
/// `CacheStore` interface owes.
pub struct LoggedStore<S: RawStore> {
    inner: S,
    events: Ghost<Seq<StoreEvent>>,
}

impl<S: RawStore> LoggedStore<S> {
    /// Wraps a bare store.
    pub fn new(inner: S) -> (r: LoggedStore<S>)
        ensures
            r.log() == Seq::<StoreEvent>::empty(),
    {
        LoggedStore { inner, events: Ghost(Seq::empty()) }
    }
}

impl<S: RawStore> CacheStore for LoggedStore<S> {
    closed spec fn log(&self) -> Seq<StoreEvent> {
        self.events@
    }

    fn cache_dir(&mut self) -> (r: Result<String, SunshineError>) {
        let r: Result<String, SunshineError> = match self.inner.raw_cache_dir() {
            Ok(d) => Ok(d),
            Err(_) => Err(SunshineError::CacheDirectoryUnavailable),
        };
        self.events = Ghost(self.events@.push(StoreEvent::DirQuery(view_str_result(r))));
        r
    }

    fn read_file(&mut self, path: &str) -> (r: Result<String, SunshineError>) {
        let r: Result<String, SunshineError> = match self.inner.raw_read_file(path) {
            Ok(t) => Ok(t),
            Err(_) => Err(SunshineError::CacheLoadError),
        };
        self.events = Ghost(self.events@.push(StoreEvent::ReadFile(path@, view_str_result(r))));
        r
    }

    fn write_file(&mut self, path: &str, contents: &str) -> (r: Result<(), SunshineError>) {
        let r: Result<(), SunshineError> = match self.inner.raw_write_file(path, contents) {
            Ok(u) => Ok(u),
            Err(_) => Err(SunshineError::CacheWriteError),
        };
        self.events = Ghost(self.events@.push(StoreEvent::WriteFile(path@, contents@, r)));
        r
    }
}

/// Bare strategies with the ghost logs, the error normalization and the
/// token validation the `LocationProviders` interface owes.
pub struct LoggedProviders<P: RawProviders> {
    inner: P,
    native_events: Ghost<Seq<Result<LocationView, SunshineError>>>,
    ip_events: Ghost<Seq<Result<Seq<char>, SunshineError>>>,
    geo_events: Ghost<Seq<(Seq<char>, Result<Seq<char>, SunshineError>)>>,
}

impl<P: RawProviders> LoggedProviders<P> {
    /// Wraps bare strategies.
    pub fn new(inner: P) -> (r: LoggedProviders<P>)
        ensures
            r.native_log() == Seq::<Result<LocationView, SunshineError>>::empty(),
            r.ip_log() == Seq::<Result<Seq<char>, SunshineError>>::empty(),
            r.geo_log() == Seq::<(Seq<char>, Result<Seq<char>, SunshineError>)>::empty(),
    {
        LoggedProviders {
            inner,
            native_events: Ghost(Seq::empty()),
            ip_events: Ghost(Seq::empty()),
            geo_events: Ghost(Seq::empty()),
        }
    }
}

impl<P: RawProviders> LocationProviders for LoggedProviders<P> {
    closed spec fn native_log(&self) -> Seq<Result<LocationView, SunshineError>> {
        self.native_events@
    }

    closed spec fn ip_log(&self) -> Seq<Result<Seq<char>, SunshineError>> {
        self.ip_events@
    }

    closed spec fn geo_log(&self) -> Seq<(Seq<char>, Result<Seq<char>, SunshineError>)> {
        self.geo_events@
    }

    fn locate_native(&mut self) -> (r: Result<Location, SunshineError>) {
        let r: Result<Location, SunshineError> = match self.inner.raw_locate_native() {
            Ok(loc) => {
                if check_float_token(loc.lat.as_str()) && check_float_token(loc.long.as_str()) {
                    Ok(loc)
                } else {
                    Err(SunshineError::CoreLocationError)
                }
            },
            Err(e) => match e {
                SunshineError::CoreLocationUnavailable => Err(e),
                _ => Err(SunshineError::CoreLocationError),
            },
        };
        self.native_events = Ghost(self.native_events@.push(view_loc_result(r)));
        r
    }

    fn fetch_ip(&mut self) -> (r: Result<String, SunshineError>) {
        let r: Result<String, SunshineError> = match self.inner.raw_fetch_ip() {
            Ok(body) => Ok(body),
            Err(_) => Err(SunshineError::ApiError),
        };
        self.ip_events = Ghost(self.ip_events@.push(view_str_result(r)));
        r
    }

    fn search(&mut self, name: &str) -> (r: Result<String, SunshineError>) {
        let r: Result<String, SunshineError> = match self.inner.raw_search(name) {
            Ok(body) => Ok(body),
            Err(_) => Err(SunshineError::ApiError),
        };
        self.geo_events = Ghost(self.geo_events@.push((name@, view_str_result(r))));
        r
    }
}

} // verus!
