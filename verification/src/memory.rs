//! In-memory implementations of the collaborators.
//!
//! `MemoryStore` keeps the cache file in memory instead of on disk, and
//! `ScriptedProviders` answers locator calls from prepared lists.  Both
//! are verified against the same contracts the real, outward-facing
//! implementations promise, so a resolution runs against them exactly as
//! it runs in production.

use vstd::prelude::*;

use crate::errors::SunshineError;
use crate::json::str_eq_chars;
use crate::locators::Location;
use crate::locators::LocationView;
use crate::numbers::check_float_token;
use crate::ports::CacheStore;
use crate::ports::LocationProviders;
use crate::ports::StoreEvent;
use crate::ports::view_loc_result;
use crate::ports::view_str_result;

verus! {

/// A cache store held in memory: a fixed cache directory answer and a map
/// from path to file contents.
pub struct MemoryStore {
    dir: Option<String>,
    files: Vec<(String, String)>,
    fail_writes: bool,
    events: Ghost<Seq<StoreEvent>>,
}

impl MemoryStore {
    /// An empty store.  With no directory every `cache_dir` query fails;
    /// with `fail_writes` every write fails.
    pub fn new(dir: Option<String>, fail_writes: bool) -> (r: MemoryStore)
        ensures
            r.log() == Seq::<StoreEvent>::empty(),
    {
        MemoryStore { dir, files: Vec::new(), fail_writes, events: Ghost(Seq::empty()) }
    }
}

impl CacheStore for MemoryStore {
    closed spec fn log(&self) -> Seq<StoreEvent> {
        self.events@
    }

    fn cache_dir(&mut self) -> (r: Result<String, SunshineError>) {
        let r: Result<String, SunshineError> = match &self.dir {
            Some(d) => Ok(d.clone()),
            None => Err(SunshineError::CacheDirectoryUnavailable),
        };
        self.events = Ghost(self.events@.push(StoreEvent::DirQuery(view_str_result(r))));
        r
    }

    fn read_file(&mut self, path: &str) -> (r: Result<String, SunshineError>) {
        let n = self.files.len();
        let mut found: Option<String> = None;
        let mut i: usize = 0;
        while i < n
            invariant
                0 <= i <= n,
                n == self.files@.len(),
            decreases n - i,
        {
            let pair = &self.files[i];
            if str_eq_chars(pair.0.as_str(), path) {
                found = Some(pair.1.clone());
                break ;
            }
            i = i + 1;
        }
        let r: Result<String, SunshineError> = match found {
            Some(text) => Ok(text),
            None => Err(SunshineError::CacheLoadError),
        };
        self.events = Ghost(self.events@.push(StoreEvent::ReadFile(path@, view_str_result(r))));
        r
    }

    fn write_file(&mut self, path: &str, contents: &str) -> (r: Result<(), SunshineError>) {
        let r: Result<(), SunshineError> = if self.fail_writes {
            Err(SunshineError::CacheWriteError)
        } else {
            let n = self.files.len();
            let mut at: Option<usize> = None;
            let mut i: usize = 0;
            while i < n
                invariant
                    0 <= i <= n,
                    n == self.files@.len(),
                    at matches Some(j) ==> j < n,
                decreases n - i,
            {
                let pair = &self.files[i];
                if str_eq_chars(pair.0.as_str(), path) {
                    at = Some(i);
                    break ;
                }
                i = i + 1;
            }
            match at {
                Some(j) => {
                    self.files.remove(j);
                    self.files.push((path.to_owned(), contents.to_owned()));
                },
                None => {
                    self.files.push((path.to_owned(), contents.to_owned()));
                },
            }
            Ok(())
        };
        self.events = Ghost(self.events@.push(StoreEvent::WriteFile(path@, contents@, r)));
        r
    }
}

/// Location strategies answering from prepared lists: each call consumes
/// the last element of its list; an exhausted list fails with the
/// strategy's own failure kind.
pub struct ScriptedProviders {
    native_answers: Vec<Result<Location, SunshineError>>,
    ip_answers: Vec<Result<String, SunshineError>>,
    geo_answers: Vec<Result<String, SunshineError>>,
    native_events: Ghost<Seq<Result<LocationView, SunshineError>>>,
    ip_events: Ghost<Seq<Result<Seq<char>, SunshineError>>>,
    geo_events: Ghost<Seq<(Seq<char>, Result<Seq<char>, SunshineError>)>>,
}

impl ScriptedProviders {
    /// Providers that will answer with the given lists, each consumed from
    /// its end.
    pub fn new(
        native_answers: Vec<Result<Location, SunshineError>>,
        ip_answers: Vec<Result<String, SunshineError>>,
        geo_answers: Vec<Result<String, SunshineError>>,
    ) -> (r: ScriptedProviders)
        ensures
            r.native_log() == Seq::<Result<LocationView, SunshineError>>::empty(),
            r.ip_log() == Seq::<Result<Seq<char>, SunshineError>>::empty(),
            r.geo_log() == Seq::<(Seq<char>, Result<Seq<char>, SunshineError>)>::empty(),
            r.native_left() == native_answers@.len(),
            r.ip_left() == ip_answers@.len(),
            r.geo_left() == geo_answers@.len(),
    {
        ScriptedProviders {
            native_answers,
            ip_answers,
            geo_answers,
            native_events: Ghost(Seq::empty()),
            ip_events: Ghost(Seq::empty()),
            geo_events: Ghost(Seq::empty()),
        }
    }

    /// How many native answers are still unconsumed.
    pub closed spec fn native_left(&self) -> nat {
        self.native_answers@.len()
    }

    /// How many IP answers are still unconsumed.
    pub closed spec fn ip_left(&self) -> nat {
        self.ip_answers@.len()
    }

    /// How many geocoding answers are still unconsumed.
    pub closed spec fn geo_left(&self) -> nat {
        self.geo_answers@.len()
    }

    /// How many geocoding answers are still unconsumed.
    pub fn remaining_geo(&self) -> (r: usize)
        ensures
            r == self.geo_left(),
    {
        self.geo_answers.len()
    }

    /// How many native answers are still unconsumed.
    pub fn remaining_native(&self) -> (r: usize)
        ensures
            r == self.native_left(),
    {
        self.native_answers.len()
    }

    /// How many IP answers are still unconsumed.
    pub fn remaining_ip(&self) -> (r: usize)
        ensures
            r == self.ip_left(),
    {
        self.ip_answers.len()
    }
}

impl LocationProviders for ScriptedProviders {
    closed spec fn native_log(&self) -> Seq<Result<LocationView, SunshineError>> {
        self.native_events@
    }

    closed spec fn ip_log(&self) -> Seq<Result<Seq<char>, SunshineError>> {
        self.ip_events@
    }

    closed spec fn geo_log(&self) -> Seq<(Seq<char>, Result<Seq<char>, SunshineError>)> {
        self.geo_events@
    }

    fn locate_native(&mut self) -> (r: Result<Location, SunshineError>) {
        let a = self.native_answers.pop();
        let r: Result<Location, SunshineError> = match a {
            Some(Ok(loc)) => {
                if check_float_token(loc.lat.as_str()) && check_float_token(loc.long.as_str()) {
                    Ok(loc)
                } else {
                    Err(SunshineError::CoreLocationError)
                }
            },
            Some(Err(e)) => match e {
                SunshineError::CoreLocationUnavailable => Err(e),
                _ => Err(SunshineError::CoreLocationError),
            },
            None => Err(SunshineError::CoreLocationUnavailable),
        };
        self.native_events = Ghost(self.native_events@.push(view_loc_result(r)));
        r
    }

    fn fetch_ip(&mut self) -> (r: Result<String, SunshineError>) {
        let a = self.ip_answers.pop();
        let r: Result<String, SunshineError> = match a {
            Some(Ok(body)) => Ok(body),
            Some(Err(_)) => Err(SunshineError::ApiError),
            None => Err(SunshineError::ApiError),
        };
        self.ip_events = Ghost(self.ip_events@.push(view_str_result(r)));
        r
    }

    fn search(&mut self, name: &str) -> (r: Result<String, SunshineError>) {
        let a = self.geo_answers.pop();
        let r: Result<String, SunshineError> = match a {
            Some(Ok(body)) => Ok(body),
            Some(Err(_)) => Err(SunshineError::ApiError),
            None => Err(SunshineError::ApiError),
        };
        self.geo_events = Ghost(self.geo_events@.push((name@, view_str_result(r))));
        r
    }
}

} // verus!
