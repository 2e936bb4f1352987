//! The persisted name-lookup cache.
//!
//! A `LocationCache` maps location names to locations, is bound to the
//! cache file's path at construction, and is written out in full on every
//! successful miss-then-populate.  Names are matched exactly, with no
//! normalization.  The file is shared, unlocked state: two processes that
//! miss on the same name both call the network, and whichever saves last
//! wins — a documented race, not corrected here by locking.

use vstd::prelude::*;

use crate::errors::SunshineError;
use crate::json::entries_serializable;
use crate::json::parse_cache;
use crate::json::render_cache;
use crate::json::spec_parse_cache;
use crate::json::spec_print_cache;
use crate::json::view_entries;
use crate::locators::Location;
use crate::locators::LocationView;
use crate::ports::CacheStore;
use crate::ports::Resolver;
use crate::ports::StoreEvent;

verus! {

/// The map an ordered entry list stands for: a later entry overrides an
/// earlier one with the same name.
pub open spec fn entries_to_map(es: Seq<(Seq<char>, LocationView)>) -> Map<
    Seq<char>,
    LocationView,
>
    decreases es.len(),
{
    if es.len() == 0 {
        Map::empty()
    } else {
        entries_to_map(es.drop_last()).insert(es.last().0, es.last().1)
    }
}

/// No entry holds the name, so the map lacks it.
pub proof fn lemma_entries_to_map_absent(es: Seq<(Seq<char>, LocationView)>, k: Seq<char>)
    requires
        forall|j: int| 0 <= j < es.len() ==> (#[trigger] es[j]).0 != k,
    ensures
        !entries_to_map(es).contains_key(k),
    decreases es.len(),
{
    if es.len() > 0 {
        lemma_entries_to_map_absent(es.drop_last(), k);
        assert(es[es.len() - 1].0 != k);
    }
}

/// The last entry holding a name decides the map's value for it.
pub proof fn lemma_entries_to_map_found(es: Seq<(Seq<char>, LocationView)>, j: int)
    requires
        0 <= j < es.len(),
        forall|q: int| j < q < es.len() ==> (#[trigger] es[q]).0 != es[j].0,
    ensures
        entries_to_map(es).contains_key(es[j].0),
        entries_to_map(es)[es[j].0] == es[j].1,
    decreases es.len(),
{
    if j < es.len() - 1 {
        assert(es.drop_last()[j] == es[j]);
        lemma_entries_to_map_found(es.drop_last(), j);
        assert(es[es.len() - 1].0 != es[j].0);
    }
}

/// Removing the only entry holding a name removes the name from the map.
pub proof fn lemma_entries_to_map_remove(es: Seq<(Seq<char>, LocationView)>, j: int)
    requires
        0 <= j < es.len(),
        forall|q: int| 0 <= q < es.len() && q != j ==> (#[trigger] es[q]).0 != es[j].0,
    ensures
        entries_to_map(es.remove(j)) == entries_to_map(es).remove(es[j].0),
    decreases es.len(),
{
    let k = es[j].0;
    if j == es.len() - 1 {
        assert(es.remove(j) =~= es.drop_last());
        lemma_entries_to_map_absent(es.drop_last(), k);
        assert(entries_to_map(es.drop_last()) =~= entries_to_map(es.drop_last()).insert(
            k,
            es[j].1,
        ).remove(k));
    } else {
        assert(es.remove(j).drop_last() =~= es.drop_last().remove(j));
        assert(forall|q: int|
            0 <= q < es.drop_last().len() && q != j ==> (#[trigger] es.drop_last()[q]).0
                != es.drop_last()[j].0);
        lemma_entries_to_map_remove(es.drop_last(), j);
        assert(es.remove(j).last() == es.last());
        assert(es.last().0 != k);
        assert(entries_to_map(es.drop_last()).remove(k).insert(es.last().0, es.last().1)
            =~= entries_to_map(es.drop_last()).insert(es.last().0, es.last().1).remove(k));
    }
}

/// What a fresh, empty cache bound after `k` earlier events yields: the
/// outcome of one more directory query.
pub open spec fn fresh_after(evs: Seq<StoreEvent>, k: int) -> Option<
    (int, Result<(Seq<char>, Map<Seq<char>, LocationView>), SunshineError>),
> {
    if evs.len() < k + 1 {
        None
    } else {
        match evs[k] {
            StoreEvent::DirQuery(Ok(dir)) => Some(
                (k + 1, Ok((spec_cache_path(dir), Map::empty()))),
            ),
            StoreEvent::DirQuery(Err(e)) => Some(
                (k + 1, Err(SunshineError::CacheDirectoryUnavailable)),
            ),
            _ => None,
        }
    }
}

/// The load-or-create cache bootstrap, as a function of the store events
/// it produced: how many events it consumed, and either the path and map
/// it obtained or `CacheDirectoryUnavailable`.  A load that fails because
/// the directory, the file or its content is unusable falls back to a
/// fresh empty cache.
pub open spec fn opened_cache(evs: Seq<StoreEvent>) -> Option<
    (int, Result<(Seq<char>, Map<Seq<char>, LocationView>), SunshineError>),
> {
    if evs.len() < 1 {
        None
    } else {
        match evs[0] {
            StoreEvent::DirQuery(Ok(dir)) => {
                if evs.len() < 2 {
                    None
                } else {
                    match evs[1] {
                        StoreEvent::ReadFile(p, o) => {
                            if p != spec_cache_path(dir) {
                                None
                            } else {
                                match o {
                                    Ok(text) => match spec_parse_cache(text) {
                                        Some(raw) => Some(
                                            (
                                                2,
                                                Ok(
                                                    (spec_cache_path(dir), entries_to_map(raw)),
                                                ),
                                            ),
                                        ),
                                        None => fresh_after(evs, 2),
                                    },
                                    Err(e) => fresh_after(evs, 2),
                                }
                            }
                        },
                        _ => None,
                    }
                }
            },
            StoreEvent::DirQuery(Err(e)) => fresh_after(evs, 1),
            _ => None,
        }
    }
}

/// The bootstrap reads only the events it consumed: extending the event
/// suffix afterwards does not change what it obtained.
pub proof fn lemma_opened_cache_prefix(evs1: Seq<StoreEvent>, evs2: Seq<StoreEvent>)
    requires
        opened_cache(evs1) is Some,
        evs1.len() <= evs2.len(),
        forall|q: int| 0 <= q < evs1.len() ==> evs1[q] == evs2[q],
    ensures
        opened_cache(evs2) == opened_cache(evs1),
{
    assert(evs2[0] == evs1[0]);
    match evs1[0] {
        StoreEvent::DirQuery(Ok(dir)) => {
            assert(evs1.len() >= 2);
            assert(evs2[1] == evs1[1]);
            match evs1[1] {
                StoreEvent::ReadFile(p, o) => {
                    let needs_fresh = match o {
                        Ok(text) => spec_parse_cache(text) is None,
                        Err(e) => true,
                    };
                    if needs_fresh {
                        assert(evs1.len() >= 3);
                        assert(evs2[2] == evs1[2]);
                    }
                },
                _ => {},
            }
        },
        StoreEvent::DirQuery(Err(e)) => {
            assert(evs1.len() >= 2);
            assert(evs2[1] == evs1[1]);
        },
        _ => {},
    }
}

/// The persisted mapping from location name to location, bound to the
/// path of its cache file.
#[derive(Debug)]
pub struct LocationCache {
    cache_data: Vec<(String, Location)>,
    cache_filename: String,
}

/// Where the cache file lives inside the platform cache directory.
pub open spec fn spec_cache_path(dir: Seq<char>) -> Seq<char> {
    dir + "/location_cache.json"@
}

/// Joins the platform cache directory with the fixed cache file name.
fn join_cache_path(dir: String) -> (r: String)
    ensures
        r@ == spec_cache_path(dir@),
{
    let mut out = dir;
    out.append("/location_cache.json");
    out
}

/// The operations of the name cache.
pub trait LocationCacher: Sized {
    /// The entries held in memory, in insertion order.
    spec fn entries(&self) -> Seq<(Seq<char>, LocationView)>;

    /// The path of the cache file this cache is bound to.
    spec fn path(&self) -> Seq<char>;

    /// No two entries hold the same name.
    open spec fn wf(&self) -> bool {
        forall|p: int, q: int|
            0 <= p < q < self.entries().len() ==> (#[trigger] self.entries()[p]).0 != (
            #[trigger] self.entries()[q]).0
    }

    /// The mapping the cache holds in memory.
    open spec fn map_view(&self) -> Map<Seq<char>, LocationView> {
        entries_to_map(self.entries())
    }

    /// Builds an empty, unsaved cache bound to the standard cache file
    /// path.  Fails with `CacheDirectoryUnavailable` when the platform
    /// cache directory cannot be determined or created.
    fn new<S: CacheStore>(store: &mut S) -> (r: Result<Self, SunshineError>)
        ensures
            final(store).log().len() == old(store).log().len() + 1,
            final(store).log().drop_last() == old(store).log(),
            (match final(store).log().last() {
                StoreEvent::DirQuery(Ok(dir)) => r matches Ok(c) && c.wf() && c.map_view()
                    == Map::<Seq<char>, LocationView>::empty() && c.entries() == Seq::<
                    (Seq<char>, LocationView),
                >::empty() && c.path() == spec_cache_path(dir),
                StoreEvent::DirQuery(Err(e)) => r matches Err(e2) && e2 == e && e
                    == SunshineError::CacheDirectoryUnavailable,
                _ => false,
            }),
    ;

    /// Reads and parses the cache file at the standard path.  Fails with
    /// `CacheDirectoryUnavailable` when the directory cannot be found,
    /// `CacheLoadError` when the file cannot be read, and
    /// `CacheDeserializationError` when its content is malformed.
    fn load<S: CacheStore>(store: &mut S) -> (r: Result<Self, SunshineError>)
        ensures
            final(store).log().len() == old(store).log().len() + 1 || final(store).log().len()
                == old(store).log().len() + 2,
            final(store).log().subrange(0, old(store).log().len() as int) == old(store).log(),
            (match final(store).log()[old(store).log().len() as int] {
                StoreEvent::DirQuery(Ok(dir)) => final(store).log().len() == old(store).log().len()
                    + 2 && (match final(store).log().last() {
                    StoreEvent::ReadFile(p, o) => p == spec_cache_path(dir) && (match o {
                        Ok(text) => (match spec_parse_cache(text) {
                            Some(raw) => r matches Ok(c) && c.wf() && c.map_view()
                                == entries_to_map(raw) && c.path() == spec_cache_path(dir),
                            None => r matches Err(e) && e
                                == SunshineError::CacheDeserializationError,
                        }),
                        Err(e) => r matches Err(e2) && e2 == e && e == SunshineError::CacheLoadError,
                    }),
                    _ => false,
                }),
                StoreEvent::DirQuery(Err(e)) => final(store).log().len() == old(store).log().len()
                    + 1 && (r matches Err(e2) && e2 == e && e
                    == SunshineError::CacheDirectoryUnavailable),
                _ => false,
            }),
    ;

    /// Serializes the full in-memory map and overwrites the cache file.
    /// Fails with `CacheSerializationError` when the map cannot be
    /// encoded, and `CacheWriteError` when the file cannot be written.
    fn save<S: CacheStore>(&self, store: &mut S) -> (r: Result<(), SunshineError>)
        ensures
            !entries_serializable(self.entries(), 0) ==> final(store).log() == old(store).log()
                && (r matches Err(e) && e == SunshineError::CacheSerializationError),
            entries_serializable(self.entries(), 0) ==> final(store).log().len() == old(store).log().len() + 1 && final(store).log().drop_last() == old(store).log() && (
            match final(store).log().last() {
                StoreEvent::WriteFile(p, c, w) => p == self.path() && c == spec_print_cache(
                    self.entries(),
                ) && r == w,
                _ => false,
            }),
    ;

    /// The stored location for the name, purely in memory; no I/O.
    fn get(&self, location_name: &str) -> (r: Option<Location>)
        requires
            self.wf(),
        ensures
            match r {
                Some(loc) => self.map_view().contains_key(location_name@) && loc@
                    == self.map_view()[location_name@],
                None => !self.map_view().contains_key(location_name@),
            },
    ;

    /// Inserts or overwrites the in-memory entry for the name; no I/O.
    fn set(&mut self, location_name: &str, location: &Location)
        requires
            old(self).wf(),
        ensures
            final(self).wf(),
            final(self).path() == old(self).path(),
            final(self).map_view() == old(self).map_view().insert(location_name@, location@),
            !old(self).map_view().contains_key(location_name@) ==> final(self).entries() == old(self).entries().push((location_name@, location@)),
    ;

    /// The composite operation: a hit returns the stored location with no
    /// I/O and without consulting the resolver.  A miss consults the
    /// resolver exactly once; on its success the entry is set in memory
    /// and the whole cache is flushed, a flush failure surfacing as
    /// `CacheWriteError` while the in-memory entry stays set; on its
    /// failure the error propagates unchanged and nothing is cached.
    fn fetch<R: Resolver, S: CacheStore>(
        &mut self,
        location_name: &str,
        on_miss: &mut R,
        store: &mut S,
    ) -> (r: Result<Location, SunshineError>)
        requires
            old(self).wf(),
        ensures
            final(self).wf(),
            final(self).path() == old(self).path(),
            final(on_miss).untouched_logs() == old(on_miss).untouched_logs(),
            old(self).map_view().contains_key(location_name@) ==> final(self).map_view() == old(self).map_view() && final(self).entries() == old(self).entries() && final(on_miss).log()
                == old(on_miss).log() && final(store).log() == old(store).log() && (r matches Ok(loc)
                && loc@ == old(self).map_view()[location_name@]),
            !old(self).map_view().contains_key(location_name@) ==> final(on_miss).log().len()
                == old(on_miss).log().len() + 1 && final(on_miss).log().drop_last() == old(on_miss).log() && final(on_miss).log().last().0 == location_name@ && (
            match final(on_miss).log().last().1 {
                Err(e) => r matches Err(e2) && e2 == e && final(self).map_view() == old(self).map_view() && final(self).entries() == old(self).entries() && final(store).log()
                    == old(store).log(),
                Ok(lv) => final(self).map_view() == old(self).map_view().insert(location_name@, lv)
                    && final(self).entries() == old(self).entries().push((location_name@, lv)) && (
                if entries_serializable(final(self).entries(), 0) {
                    final(store).log().len() == old(store).log().len() + 1 && final(store).log().drop_last() == old(store).log() && (match final(store).log().last() {
                        StoreEvent::WriteFile(p, c, w) => p == old(self).path() && c
                            == spec_print_cache(final(self).entries()) && (match w {
                            Ok(u) => r matches Ok(loc) && loc@ == lv,
                            Err(we) => r matches Err(e2) && e2 == SunshineError::CacheWriteError,
                        }),
                        _ => false,
                    })
                } else {
                    final(store).log() == old(store).log() && (r matches Err(e2) && e2
                        == SunshineError::CacheWriteError)
                }),
            }),
    ;
}

impl LocationCacher for LocationCache {
    closed spec fn entries(&self) -> Seq<(Seq<char>, LocationView)> {
        view_entries(self.cache_data@)
    }

    closed spec fn path(&self) -> Seq<char> {
        self.cache_filename@
    }

    fn new<S: CacheStore>(store: &mut S) -> (r: Result<Self, SunshineError>) {
        let dir = match store.cache_dir() {
            Err(e) => {
                return Err(e);
            },
            Ok(d) => d,
        };
        let cache = LocationCache { cache_data: Vec::new(), cache_filename: join_cache_path(dir) };
        proof {
            assert(cache.entries() =~= Seq::<(Seq<char>, LocationView)>::empty());
            assert(cache.map_view() =~= Map::<Seq<char>, LocationView>::empty());
        }
        Ok(cache)
    }

    fn load<S: CacheStore>(store: &mut S) -> (r: Result<Self, SunshineError>) {
        let dir = match store.cache_dir() {
            Err(e) => {
                return Err(e);
            },
            Ok(d) => d,
        };
        let path = join_cache_path(dir);
        let text = match store.read_file(path.as_str()) {
            Err(e) => {
                return Err(e);
            },
            Ok(t) => t,
        };
        let raw = match parse_cache(text.as_str()) {
            None => {
                return Err(SunshineError::CacheDeserializationError);
            },
            Some(v) => v,
        };
        let mut cache = LocationCache { cache_data: Vec::new(), cache_filename: path };
        proof {
            assert(cache.entries() =~= Seq::<(Seq<char>, LocationView)>::empty());
            assert(cache.map_view() =~= Map::<Seq<char>, LocationView>::empty());
            assert(view_entries(raw@).subrange(0, 0) =~= Seq::<(Seq<char>, LocationView)>::empty());
        }
        let mut i: usize = 0;
        while i < raw.len()
            invariant
                0 <= i <= raw@.len(),
                cache.wf(),
                cache.path() == spec_cache_path(dir@),
                cache.map_view() == entries_to_map(view_entries(raw@).subrange(0, i as int)),
            decreases raw@.len() - i,
        {
            let pair = &raw[i];
            cache.set(pair.0.as_str(), &pair.1);
            proof {
                let pref = view_entries(raw@).subrange(0, i as int);
                let pref1 = view_entries(raw@).subrange(0, i + 1);
                assert(pref1.drop_last() =~= pref);
                assert(pref1.last() == (raw@[i as int].0@, raw@[i as int].1@));
                assert(cache.map_view() == entries_to_map(pref1));
            }
            i = i + 1;
        }
        proof {
            assert(view_entries(raw@).subrange(0, raw@.len() as int) =~= view_entries(raw@));
        }
        Ok(cache)
    }

    fn save<S: CacheStore>(&self, store: &mut S) -> (r: Result<(), SunshineError>) {
        let text = match render_cache(&self.cache_data) {
            Err(e) => {
                return Err(e);
            },
            Ok(t) => t,
        };
        store.write_file(self.cache_filename.as_str(), text.as_str())
    }

    fn get(&self, location_name: &str) -> (r: Option<Location>) {
        let n = self.cache_data.len();
        let mut i: usize = 0;
        while i < n
            invariant
                0 <= i <= n,
                n == self.cache_data@.len(),
                self.wf(),
                forall|j: int| 0 <= j < i ==> (#[trigger] self.entries()[j]).0 != location_name@,
            decreases n - i,
        {
            let pair = &self.cache_data[i];
            if crate::json::str_eq_chars(pair.0.as_str(), location_name) {
                proof {
                    assert(self.entries()[i as int].0 == location_name@);
                    lemma_entries_to_map_found(self.entries(), i as int);
                }
                return Some(
                    Location { lat: pair.1.lat.clone(), long: pair.1.long.clone() },
                );
            }
            i = i + 1;
        }
        proof {
            lemma_entries_to_map_absent(self.entries(), location_name@);
        }
        None
    }

    fn set(&mut self, location_name: &str, location: &Location) {
        let loc = Location { lat: location.lat.clone(), long: location.long.clone() };
        let n = self.cache_data.len();
        let mut i: usize = 0;
        while i < n
            invariant
                0 <= i <= n,
                n == self.cache_data@.len(),
                self == old(self),
                old(self).wf(),
                loc@ == location@,
                forall|j: int| 0 <= j < i ==> (#[trigger] self.entries()[j]).0 != location_name@,
            decreases n - i,
        {
            let pair = &self.cache_data[i];
            if crate::json::str_eq_chars(pair.0.as_str(), location_name) {
                proof {
                    assert(self.entries()[i as int].0 == location_name@);
                }
                let ghost pre = self.entries();
                proof {
                    lemma_entries_to_map_found(pre, i as int);
                }
                let name = pair.0.clone();
                self.cache_data.remove(i);
                self.cache_data.push((name, loc));
                proof {
                    let removed = pre.remove(i as int);
                    assert(view_entries(self.cache_data@) =~= removed.push(
                        (location_name@, location@),
                    ));
                    assert(forall|q: int|
                        0 <= q < pre.len() && q != i ==> (#[trigger] pre[q]).0 != pre[i as int].0);
                    lemma_entries_to_map_remove(pre, i as int);
                    assert(self.entries().drop_last() =~= removed);
                    assert(entries_to_map(self.entries()) == entries_to_map(removed).insert(
                        location_name@,
                        location@,
                    ));
                    assert(entries_to_map(pre).remove(location_name@).insert(
                        location_name@,
                        location@,
                    ) =~= entries_to_map(pre).insert(location_name@, location@));
                    assert(self.map_view() == old(self).map_view().insert(
                        location_name@,
                        location@,
                    ));
                    lemma_entries_to_map_absent(removed, location_name@);
                    assert forall|p: int, q: int|
                        0 <= p < q < self.entries().len() implies (#[trigger] self.entries()[p]).0
                        != (#[trigger] self.entries()[q]).0 by {
                        if q == self.entries().len() - 1 {
                            if removed[p].0 == location_name@ {
                                assert(false);
                            }
                        }
                    }
                }
                return ;
            }
            i = i + 1;
        }
        let owned = location_name.to_owned();
        let ghost pre = self.entries();
        self.cache_data.push((owned, loc));
        proof {
            assert(view_entries(self.cache_data@) =~= pre.push((location_name@, location@)));
            assert(self.entries().drop_last() =~= pre);
            assert(self.map_view() == old(self).map_view().insert(location_name@, location@));
            lemma_entries_to_map_absent(pre, location_name@);
            assert forall|p: int, q: int|
                0 <= p < q < self.entries().len() implies (#[trigger] self.entries()[p]).0 != (
            #[trigger] self.entries()[q]).0 by {
                if q == self.entries().len() - 1 {
                    assert(pre[p].0 != location_name@);
                }
            }
        }
    }

    fn fetch<R: Resolver, S: CacheStore>(
        &mut self,
        location_name: &str,
        on_miss: &mut R,
        store: &mut S,
    ) -> (r: Result<Location, SunshineError>) {
        match self.get(location_name) {
            Some(location) => Ok(location),
            None => {
                let location = match on_miss.resolve(location_name) {
                    Err(e) => {
                        return Err(e);
                    },
                    Ok(l) => l,
                };
                self.set(location_name, &location);
                match self.save(store) {
                    Err(_) => Err(SunshineError::CacheWriteError),
                    Ok(u) => Ok(location),
                }
            },
        }
    }
}

} // verus!
