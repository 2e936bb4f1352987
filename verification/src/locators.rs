//! Locations and the coordinate parser.
//!
//! A `Location` carries its latitude and longitude as the exact decimal
//! tokens they were parsed from.  Equality of locations is equality of
//! those tokens; callers must not rely on a reconstructed location being
//! identical to an externally supplied one unless it was parsed directly.

use vstd::prelude::*;

use crate::errors::SunshineError;
use crate::numbers::is_float_token;
use crate::numbers::check_float_token;
use crate::json::parse_ip_body;
use crate::json::parse_search_body;
use crate::json::spec_ip_result;
use crate::json::spec_search_outcome;
use crate::name_cache::LocationCache;
use crate::name_cache::LocationCacher;
use crate::name_cache::opened_cache;
use crate::ports::CacheStore;
use crate::ports::LocationProviders;
use crate::ports::Resolver;
use crate::ports::StoreEvent;
use crate::ports::view_loc_result;

verus! {

/// The mathematical content of a `Location`: its two coordinate tokens.
#[verifier::ext_equal]
pub struct LocationView {
    pub lat: Seq<char>,
    pub long: Seq<char>,
}

impl LocationView {
    /// Both tokens parse as floating-point numbers.
    pub open spec fn wf(self) -> bool {
        is_float_token(self.lat) && is_float_token(self.long)
    }
}

/// A geographic position: a latitude and a longitude, each held as the
/// decimal token it was resolved from.  No range validation is performed;
/// out-of-range values pass through.
#[derive(Clone, Debug, PartialEq)]
pub struct Location {
    pub lat: String,
    pub long: String,
}

impl View for Location {
    type V = LocationView;

    open spec fn view(&self) -> LocationView {
        LocationView { lat: self.lat@, long: self.long@ }
    }
}

/// The first index at or after `i` that holds a space (none if the rest of
/// `s` is space-free).
pub open spec fn first_space(s: Seq<char>, i: int) -> Option<int>
    recommends
        0 <= i <= s.len(),
    decreases s.len() - i,
{
    if i < 0 || i >= s.len() {
        None
    } else if s[i] == ' ' {
        Some(i)
    } else {
        first_space(s, i + 1)
    }
}

/// What parsing a coordinate payload yields: the payload must split on the
/// single space character into exactly two tokens, each accepted by the
/// floating-point parser.  Anything else is rejected.
pub open spec fn spec_parse_coords(s: Seq<char>) -> Option<LocationView> {
    match first_space(s, 0) {
        None => None,
        Some(i) => {
            let lat = s.subrange(0, i);
            let long = s.subrange(i + 1, s.len() as int);
            if first_space(s, i + 1) is None && is_float_token(lat) && is_float_token(long) {
                Some(LocationView { lat, long })
            } else {
                None
            }
        },
    }
}

/// Finds the first space at or after `i`.
fn find_space(s: &str, i: usize) -> (r: Option<usize>)
    requires
        i <= s@.len(),
    ensures
        match r {
            Some(j) => first_space(s@, i as int) == Some(j as int) && i <= j < s@.len(),
            None => first_space(s@, i as int) is None,
        },
{
    let n = s.unicode_len();
    let mut j = i;
    loop
        invariant
            i <= j <= n,
            n == s@.len(),
            first_space(s@, j as int) == first_space(s@, i as int),
        decreases n - j,
    {
        if j == n {
            return None;
        }
        if s.get_char(j) == ' ' {
            return Some(j);
        }
        j = j + 1;
    }
}

/// Parses the payload of an `@` descriptor: two space-separated
/// floating-point tokens.  Fails with `MalformedLocationString` on any
/// other token count and on any token the floating-point parser rejects.
pub fn location_from_coords(coords: &str) -> (r: Result<Location, SunshineError>)
    ensures
        match r {
            Ok(loc) => spec_parse_coords(coords@) == Some(loc@),
            Err(e) => e == SunshineError::MalformedLocationString && spec_parse_coords(coords@)
                is None,
        },
{
    let n = coords.unicode_len();
    let i = match find_space(coords, 0) {
        Some(i) => i,
        None => {
            return Err(SunshineError::MalformedLocationString);
        },
    };
    if let Some(_) = find_space(coords, i + 1) {
        return Err(SunshineError::MalformedLocationString);
    }
    let lat = coords.substring_char(0, i);
    let long = coords.substring_char(i + 1, n);
    if !check_float_token(lat) || !check_float_token(long) {
        return Err(SunshineError::MalformedLocationString);
    }
    Ok(Location { lat: lat.to_owned(), long: long.to_owned() })
}

/// One candidate of a geocoding response: its coordinates, as the string
/// fields the service returned.
#[derive(Clone, Debug)]
pub struct NominatimLocation {
    pub lat: String,
    pub lon: String,
}

impl Location {
    /// Converts a geocoding candidate by joining its two fields and
    /// running them through the coordinate parser; a candidate whose
    /// fields do not form two parseable tokens is a malformed location.
    pub fn try_from(loc: NominatimLocation) -> (r: Result<Location, SunshineError>)
        ensures
            match r {
                Ok(l) => spec_parse_coords(loc.lat@ + seq![' '] + loc.lon@) == Some(l@),
                Err(e) => e == SunshineError::MalformedLocationString && spec_parse_coords(
                    loc.lat@ + seq![' '] + loc.lon@,
                ) is None,
            },
    {
        let mut joined = loc.lat;
        joined.append(" ");
        joined.append(loc.lon.as_str());
        proof {
            reveal_strlit(" ");
            assert(joined@ =~= loc.lat@ + seq![' '] + loc.lon@);
        }
        location_from_coords(joined.as_str())
    }
}

/// What geocoding a name yields, given the transport outcome: the
/// transport failure unchanged; `UnknownLocationName` on an empty
/// candidate list; `JsonError` on any other shape failure; otherwise the
/// first candidate's coordinates through the coordinate parser.
pub open spec fn spec_geo_result(o: Result<Seq<char>, SunshineError>) -> Result<
    LocationView,
    SunshineError,
> {
    match o {
        Err(e) => Err(e),
        Ok(body) => match spec_search_outcome(body) {
            Err(e) => Err(e),
            Ok((lat, lon)) => match spec_parse_coords(lat + seq![' '] + lon) {
                Some(lv) => Ok(lv),
                None => Err(SunshineError::MalformedLocationString),
            },
        },
    }
}

/// The geocoding log with each body outcome taken through
/// `spec_geo_result`: what each request came to mean for resolution.
pub open spec fn geo_results(g: Seq<(Seq<char>, Result<Seq<char>, SunshineError>)>) -> Seq<
    (Seq<char>, Result<LocationView, SunshineError>),
> {
    g.map_values(|pr: (Seq<char>, Result<Seq<char>, SunshineError>)| (pr.0, spec_geo_result(pr.1)))
}

/// Every set of location providers resolves names: a resolution is one
/// geocoding request, its body read as a candidate list whose first
/// candidate is converted through the coordinate parser.
impl<P: LocationProviders> Resolver for P {
    open spec fn log(&self) -> Seq<(Seq<char>, Result<LocationView, SunshineError>)> {
        geo_results(self.geo_log())
    }

    open spec fn untouched_logs(&self) -> (
        Seq<Result<LocationView, SunshineError>>,
        Seq<Result<Seq<char>, SunshineError>>,
    ) {
        (self.native_log(), self.ip_log())
    }

    fn resolve(&mut self, name: &str) -> (r: Result<Location, SunshineError>) {
        let body = match self.search(name) {
            Err(e) => {
                proof {
                    assert(Resolver::log(self) =~= Resolver::log(&*old(self)).push(
                        (name@, spec_geo_result(Err(e))),
                    ));
                }
                return Err(e);
            },
            Ok(b) => b,
        };
        proof {
            assert(Resolver::log(self) =~= Resolver::log(&*old(self)).push(
                (name@, spec_geo_result(Ok(body@))),
            ));
        }
        let candidate = match parse_search_body(body.as_str()) {
            Err(e) => {
                return Err(e);
            },
            Ok((lat, lon)) => NominatimLocation { lat, lon },
        };
        Location::try_from(candidate)
    }
}

/// Resolves through the IP-geolocation API: one GET to the fixed
/// endpoint, its body read for the numeric `latitude` and `longitude`
/// fields.
pub fn location_from_network<P: LocationProviders>(providers: &mut P) -> (r: Result<
    Location,
    SunshineError,
>)
    ensures
        final(providers).ip_log().len() == old(providers).ip_log().len() + 1,
        final(providers).ip_log().drop_last() == old(providers).ip_log(),
        final(providers).native_log() == old(providers).native_log(),
        final(providers).geo_log() == old(providers).geo_log(),
        view_loc_result(r) == spec_ip_result(final(providers).ip_log().last()),
{
    match providers.fetch_ip() {
        Err(e) => Err(e),
        Ok(body) => parse_ip_body(body.as_str()),
    }
}

/// Everything a resolution may have touched: the three locator logs and
/// the store log, taken together before and after a call.
#[verifier::ext_equal]
pub struct PortsView {
    pub native: Seq<Result<LocationView, SunshineError>>,
    pub ip: Seq<Result<Seq<char>, SunshineError>>,
    pub geo: Seq<(Seq<char>, Result<Seq<char>, SunshineError>)>,
    pub store: Seq<StoreEvent>,
}

/// The logs of a provider and a store, bundled.
pub open spec fn ports_of<P: LocationProviders, S: CacheStore>(p: P, s: S) -> PortsView {
    PortsView { native: p.native_log(), ip: p.ip_log(), geo: p.geo_log(), store: s.log() }
}

/// How resolving a name through the cache relates the logs to the result:
/// the cache is opened (load, falling back to create), a hit answers from
/// memory with no geocoding call, a miss geocodes the name exactly once
/// and, on success, flushes the cache; native and IP strategies are never
/// consulted.
pub open spec fn name_resolves(
    name: Seq<char>,
    pre: PortsView,
    post: PortsView,
    r: Result<LocationView, SunshineError>,
) -> bool {
    &&& post.native == pre.native
    &&& post.ip == pre.ip
    &&& post.store.len() > pre.store.len()
    &&& post.store.subrange(0, pre.store.len() as int) == pre.store
    &&& (match opened_cache(post.store.skip(pre.store.len() as int)) {
        None => false,
        Some((k, outcome)) => match outcome {
            Err(e) => post.store.len() == pre.store.len() + k && post.geo.len() == pre.geo.len()
                && geo_results(post.geo) == geo_results(pre.geo) && r == Err::<
                LocationView,
                _,
            >(e),
            Ok((path, map)) => {
                if map.contains_key(name) {
                    &&& post.store.len() == pre.store.len() + k
                    &&& post.geo.len() == pre.geo.len()
                    &&& geo_results(post.geo) == geo_results(pre.geo)
                    &&& r == Ok::<_, SunshineError>(map[name])
                } else {
                    &&& post.geo.len() == pre.geo.len() + 1
                    &&& geo_results(post.geo).drop_last() == geo_results(pre.geo)
                    &&& post.geo.last().0 == name
                    &&& (match spec_geo_result(post.geo.last().1) {
                        Err(e) => post.store.len() == pre.store.len() + k && r == Err::<
                            LocationView,
                            _,
                        >(e),
                        Ok(lv) => {
                            ||| (post.store.len() == pre.store.len() + k && r == Err::<
                                LocationView,
                                _,
                            >(SunshineError::CacheWriteError))
                            ||| (post.store.len() == pre.store.len() + k + 1 && (
                            match post.store.last() {
                                StoreEvent::WriteFile(p2, c2, w) => p2 == path && (match w {
                                    Ok(u) => r == Ok::<_, SunshineError>(lv),
                                    Err(we) => r == Err::<LocationView, _>(
                                        SunshineError::CacheWriteError,
                                    ),
                                }),
                                _ => false,
                            }))
                        },
                    })
                }
            },
        },
    })
}

/// How resolving a descriptor relates the logs to the result, sigil by
/// sigil: explicit coordinates and malformed descriptors touch nothing,
/// `.` consults the IP strategy once, `#` goes through the cache, and `!`
/// tries native, then IP, then the embedded fallback descriptor, the first
/// success winning.
pub open spec fn chain_resolves(
    s: Seq<char>,
    pre: PortsView,
    post: PortsView,
    r: Result<LocationView, SunshineError>,
) -> bool
    decreases s.len(), 0int,
{
    if s.len() == 0 {
        post == pre && r == Err::<LocationView, _>(SunshineError::MalformedLocationString)
    } else if s[0] == '@' {
        post == pre && r == (match spec_parse_coords(s.drop_first()) {
            Some(lv) => Ok::<_, SunshineError>(lv),
            None => Err(SunshineError::MalformedLocationString),
        })
    } else if s[0] == '#' {
        name_resolves(s.drop_first(), pre, post, r)
    } else if s[0] == '.' {
        &&& post.native == pre.native
        &&& post.geo == pre.geo
        &&& post.store == pre.store
        &&& post.ip.len() == pre.ip.len() + 1
        &&& post.ip.drop_last() == pre.ip
        &&& r == spec_ip_result(post.ip.last())
    } else if s[0] == '!' {
        auto_resolves(s.drop_first(), pre, post, r)
    } else {
        post == pre && r == Err::<LocationView, _>(SunshineError::MalformedLocationString)
    }
}

/// The automatic strategy: one native attempt; on its failure one IP
/// attempt; on a failure there too, the embedded fallback descriptor.
/// Later strategies are never attempted once one succeeds.
pub open spec fn auto_resolves(
    f: Seq<char>,
    pre: PortsView,
    post: PortsView,
    r: Result<LocationView, SunshineError>,
) -> bool
    decreases f.len(), 1int,
{
    &&& post.native.len() >= pre.native.len() + 1
    &&& post.native.subrange(0, pre.native.len() as int) == pre.native
    &&& (match post.native[pre.native.len() as int] {
        Ok(lv) => {
            &&& post == (PortsView {
                native: pre.native.push(Ok(lv)),
                ip: pre.ip,
                geo: pre.geo,
                store: pre.store,
            })
            &&& r == Ok::<_, SunshineError>(lv)
        },
        Err(e0) => {
            &&& post.ip.len() >= pre.ip.len() + 1
            &&& post.ip.subrange(0, pre.ip.len() as int) == pre.ip
            &&& {
                let o_ip = post.ip[pre.ip.len() as int];
                let mid = PortsView {
                    native: pre.native.push(Err(e0)),
                    ip: pre.ip.push(o_ip),
                    geo: pre.geo,
                    store: pre.store,
                };
                match spec_ip_result(o_ip) {
                    Ok(lv) => post == mid && r == Ok::<_, SunshineError>(lv),
                    Err(e1) => chain_resolves(f, mid, post, r),
                }
            }
        },
    })
}

/// A resolution only ever appends to the native log and the IP log: what
/// stood in them before the call still stands, unchanged, as a prefix.
pub proof fn lemma_chain_extends(
    s: Seq<char>,
    pre: PortsView,
    post: PortsView,
    r: Result<LocationView, SunshineError>,
)
    requires
        chain_resolves(s, pre, post, r),
    ensures
        post.native.len() >= pre.native.len(),
        post.native.subrange(0, pre.native.len() as int) == pre.native,
        post.ip.len() >= pre.ip.len(),
        post.ip.subrange(0, pre.ip.len() as int) == pre.ip,
    decreases s.len(), 0int,
{
    if s.len() == 0 || (s[0] != '@' && s[0] != '#' && s[0] != '.' && s[0] != '!') {
        assert(post.native.subrange(0, pre.native.len() as int) =~= pre.native);
        assert(post.ip.subrange(0, pre.ip.len() as int) =~= pre.ip);
    } else if s[0] == '@' {
        assert(post.native.subrange(0, pre.native.len() as int) =~= pre.native);
        assert(post.ip.subrange(0, pre.ip.len() as int) =~= pre.ip);
    } else if s[0] == '#' {
        assert(post.native.subrange(0, pre.native.len() as int) =~= pre.native);
        assert(post.ip.subrange(0, pre.ip.len() as int) =~= pre.ip);
    } else if s[0] == '.' {
        assert(post.native.subrange(0, pre.native.len() as int) =~= pre.native);
        assert(post.ip.drop_last() == pre.ip);
        assert(post.ip.subrange(0, pre.ip.len() as int) =~= pre.ip);
    } else {
        lemma_auto_extends(s.drop_first(), pre, post, r);
    }
}

/// The automatic strategy likewise only appends to the two logs.
pub proof fn lemma_auto_extends(
    f: Seq<char>,
    pre: PortsView,
    post: PortsView,
    r: Result<LocationView, SunshineError>,
)
    requires
        auto_resolves(f, pre, post, r),
    ensures
        post.native.len() >= pre.native.len(),
        post.native.subrange(0, pre.native.len() as int) == pre.native,
        post.ip.len() >= pre.ip.len(),
        post.ip.subrange(0, pre.ip.len() as int) == pre.ip,
    decreases f.len(), 1int,
{
    match post.native[pre.native.len() as int] {
        Ok(lv) => {
            assert(post.ip.subrange(0, pre.ip.len() as int) =~= pre.ip);
        },
        Err(e0) => {
            let o_ip = post.ip[pre.ip.len() as int];
            let mid = PortsView {
                native: pre.native.push(Err(e0)),
                ip: pre.ip.push(o_ip),
                geo: pre.geo,
                store: pre.store,
            };
            match spec_ip_result(o_ip) {
                Ok(lv) => {
                    assert(post.ip.subrange(0, pre.ip.len() as int) =~= pre.ip);
                },
                Err(e1) => {
                    lemma_chain_extends(f, mid, post, r);
                    assert(post.native.subrange(0, mid.native.len() as int) == mid.native);
                    assert forall|q: int| 0 <= q < pre.native.len() implies post.native[q]
                        == pre.native[q] by {
                        assert(post.native.subrange(0, mid.native.len() as int)[q] == mid.native[q]);
                    }
                    assert(post.native.subrange(0, pre.native.len() as int) =~= pre.native);
                    assert(post.ip.subrange(0, mid.ip.len() as int) == mid.ip);
                    assert forall|q: int| 0 <= q < pre.ip.len() implies post.ip[q] == pre.ip[q] by {
                        assert(post.ip.subrange(0, mid.ip.len() as int)[q] == mid.ip[q]);
                    }
                    assert(post.ip.subrange(0, pre.ip.len() as int) =~= pre.ip);
                },
            }
        },
    }
}

/// Opens the name cache: loads it from the cache file, falling back to a
/// fresh empty cache when the file is unreadable or malformed.
fn open_cache<S: CacheStore>(store: &mut S) -> (r: Result<LocationCache, SunshineError>)
    ensures
        final(store).log().len() > old(store).log().len(),
        final(store).log().subrange(0, old(store).log().len() as int) == old(store).log(),
        (match opened_cache(final(store).log().skip(old(store).log().len() as int)) {
            None => false,
            Some((k, outcome)) => final(store).log().len() == old(store).log().len() + k && (
            match outcome {
                Ok((path, map)) => r matches Ok(c) && c.wf() && c.path() == path && c.map_view()
                    == map,
                Err(e) => r matches Err(e2) && e2 == e,
            }),
        }),
{
    let ghost pre = store.log();
    let first = LocationCache::load(store);
    match first {
        Ok(c) => {
            proof {
                let evs = final(store).log().skip(pre.len() as int);
                assert(evs[0] == final(store).log()[pre.len() as int]);
                assert(evs[1] == final(store).log()[pre.len() as int + 1]);
                assert(evs.len() == final(store).log().len() - pre.len());
            }
            Ok(c)
        },
        Err(_) => {
            let ghost mid = store.log();
            let second = LocationCache::new(store);
            proof {
                let evs = final(store).log().skip(pre.len() as int);
                assert(final(store).log().drop_last() == mid);
                assert(mid.subrange(0, pre.len() as int) == pre);
                assert(final(store).log().subrange(0, pre.len() as int) =~= pre);
                assert(evs.len() == final(store).log().len() - pre.len());
                assert(evs[0] == mid[pre.len() as int]);
                if mid.len() == pre.len() + 2 {
                    assert(evs[1] == mid[pre.len() as int + 1]);
                    assert(evs[2] == final(store).log().last());
                } else {
                    assert(evs[1] == final(store).log().last());
                }
            }
            second
        },
    }
}

/// Resolves a named place through the cache: a hit answers from memory; a
/// miss geocodes the name once and populates the cache.
pub fn location_from_name<P: LocationProviders, S: CacheStore>(
    name: &str,
    providers: &mut P,
    store: &mut S,
) -> (r: Result<Location, SunshineError>)
    ensures
        name_resolves(
            name@,
            ports_of(*old(providers), *old(store)),
            ports_of(*final(providers), *final(store)),
            view_loc_result(r),
        ),
{
    let ghost pre = ports_of(*providers, *store);
    let mut cache = match open_cache(store) {
        Err(e) => {
            return Err(e);
        },
        Ok(c) => c,
    };
    let ghost opened_store = store.log();
    let out = cache.fetch(name, providers, store);
    proof {
        let post = ports_of(*providers, *store);
        assert(post.store.subrange(0, pre.store.len() as int) =~= pre.store);
        let evs_open = opened_store.skip(pre.store.len() as int);
        let evs = post.store.skip(pre.store.len() as int);
        if post.store.len() == opened_store.len() {
            assert(evs =~= evs_open);
        } else {
            assert(post.store.drop_last() == opened_store);
            assert(evs.len() == evs_open.len() + 1);
            assert forall|q: int| 0 <= q < evs_open.len() implies evs[q] == evs_open[q] by {
                assert(evs[q] == post.store[pre.store.len() + q]);
                assert(evs_open[q] == opened_store[pre.store.len() + q]);
                assert(post.store[pre.store.len() + q] == post.store.drop_last()[pre.store.len()
                    + q]);
            }
            crate::name_cache::lemma_opened_cache_prefix(evs_open, evs);
        }
        if post.geo.len() == pre.geo.len() + 1 {
            let g = geo_results(post.geo);
            assert(g.last() == (post.geo.last().0, spec_geo_result(post.geo.last().1)));
        }
        assert(Resolver::untouched_logs(&*providers).0 == post.native);
        assert(post.native == pre.native);
        assert(post.ip == pre.ip);
    }
    out
}

/// Resolves automatically: the native service, then the IP strategy, then
/// the embedded fallback descriptor; the first success wins.
pub fn location_from_auto<P: LocationProviders, S: CacheStore>(
    fallback: &str,
    providers: &mut P,
    store: &mut S,
) -> (r: Result<Location, SunshineError>)
    ensures
        auto_resolves(
            fallback@,
            ports_of(*old(providers), *old(store)),
            ports_of(*final(providers), *final(store)),
            view_loc_result(r),
        ),
    decreases fallback@.len(), 1int,
{
    let ghost pre = ports_of(*providers, *store);
    match providers.locate_native() {
        Ok(loc) => {
            proof {
                let post = ports_of(*providers, *store);
                assert(post.native.subrange(0, pre.native.len() as int) =~= pre.native);
                assert(post.native[pre.native.len() as int] == Ok::<_, SunshineError>(loc@));
                assert(post =~= (PortsView {
                    native: pre.native.push(Ok(loc@)),
                    ip: pre.ip,
                    geo: pre.geo,
                    store: pre.store,
                }));
            }
            Ok(loc)
        },
        Err(_) => {
            let ghost mid1 = ports_of(*providers, *store);
            let second = location_from_network(providers);
            proof {
                let post = ports_of(*providers, *store);
                assert(mid1.native == pre.native.push(mid1.native.last()));
                assert(post.native == mid1.native);
                assert(post.native.subrange(0, pre.native.len() as int) =~= pre.native);
                assert(post.native[pre.native.len() as int] == mid1.native.last());
                assert(post.ip.drop_last() == pre.ip);
                assert(post.ip.subrange(0, pre.ip.len() as int) =~= pre.ip);
                assert(post.ip[pre.ip.len() as int] == post.ip.last());
                if second is Ok {
                    assert(post =~= (PortsView {
                        native: pre.native.push(post.native[pre.native.len() as int]),
                        ip: pre.ip.push(post.ip[pre.ip.len() as int]),
                        geo: pre.geo,
                        store: pre.store,
                    }));
                }
            }
            match second {
                Ok(loc) => Ok(loc),
                Err(_) => {
                    let ghost mid2 = ports_of(*providers, *store);
                    let third = location_from_string(fallback, providers, store);
                    proof {
                        let post = ports_of(*providers, *store);
                        assert(mid2.native == pre.native.push(mid2.native.last()));
                        assert(mid2.ip == pre.ip.push(mid2.ip.last()));
                        assert(chain_resolves(fallback@, mid2, post, view_loc_result(third)));
                        lemma_chain_extends(fallback@, mid2, post, view_loc_result(third));
                        assert forall|q: int| 0 <= q < mid2.native.len() implies post.native[q]
                            == mid2.native[q] by {
                            assert(post.native.subrange(0, mid2.native.len() as int)[q]
                                == mid2.native[q]);
                        }
                        assert forall|q: int| 0 <= q < mid2.ip.len() implies post.ip[q]
                            == mid2.ip[q] by {
                            assert(post.ip.subrange(0, mid2.ip.len() as int)[q] == mid2.ip[q]);
                        }
                        assert(post.native.subrange(0, pre.native.len() as int) =~= pre.native);
                        assert(post.ip.subrange(0, pre.ip.len() as int) =~= pre.ip);
                        assert(post.native[pre.native.len() as int] == mid2.native[pre.native.len() as int]);
                        assert(post.ip[pre.ip.len() as int] == mid2.ip[pre.ip.len() as int]);
                        assert(mid2 =~= (PortsView {
                            native: pre.native.push(post.native[pre.native.len() as int]),
                            ip: pre.ip.push(post.ip[pre.ip.len() as int]),
                            geo: pre.geo,
                            store: pre.store,
                        }));
                    }
                    third
                },
            }
        },
    }
}

/// Resolves a location descriptor: the sigil selects the strategy —
/// `@lat long` parses explicit coordinates with no I/O, `#name` goes
/// through the cache and the geocoding API, `.` asks the IP-geolocation
/// API, `!fallback` tries native, then IP, then the embedded fallback
/// descriptor.  An empty descriptor or an unknown sigil is a malformed
/// location, never a runtime fault.
pub fn location_from_string<P: LocationProviders, S: CacheStore>(
    location: &str,
    providers: &mut P,
    store: &mut S,
) -> (r: Result<Location, SunshineError>)
    ensures
        chain_resolves(
            location@,
            ports_of(*old(providers), *old(store)),
            ports_of(*final(providers), *final(store)),
            view_loc_result(r),
        ),
        (location@.len() == 0 || (location@[0] != '@' && location@[0] != '#' && location@[0] != '.'
            && location@[0] != '!')) ==> *final(providers) == *old(providers) && *final(store)
            == *old(store) && (r matches Err(e) && e == SunshineError::MalformedLocationString),
        location@.len() > 0 && location@[0] == '@' ==> *final(providers) == *old(providers)
            && *final(store) == *old(store) && (match r {
            Ok(loc) => spec_parse_coords(location@.drop_first()) == Some(loc@),
            Err(e) => e == SunshineError::MalformedLocationString && spec_parse_coords(
                location@.drop_first(),
            ) is None,
        }),
    decreases location@.len(), 0int,
{
    let n = location.unicode_len();
    if n == 0 {
        return Err(SunshineError::MalformedLocationString);
    }
    let c = location.get_char(0);
    if c == '@' {
        let rest = location.substring_char(1, n);
        proof {
            assert(rest@ =~= location@.drop_first());
        }
        location_from_coords(rest)
    } else if c == '#' {
        let rest = location.substring_char(1, n);
        proof {
            assert(rest@ =~= location@.drop_first());
        }
        location_from_name(rest, providers, store)
    } else if c == '.' {
        location_from_network(providers)
    } else if c == '!' {
        let rest = location.substring_char(1, n);
        proof {
            assert(rest@ =~= location@.drop_first());
        }
        location_from_auto(rest, providers, store)
    } else {
        Err(SunshineError::MalformedLocationString)
    }
}

} // verus!
