use sunshine::CacheStore;
use sunshine::Location;
use sunshine::LocationCache;
use sunshine::LocationCacher;
use sunshine::MemoryStore;
use sunshine::ScriptedProviders;
use sunshine::SunshineError;

/// A resolver whose one answer poisons the test when consumed: resolving
/// through it yields a malformed-location failure, so any fetch that
/// consults it by mistake fails its assertion.
fn poisoned_resolver() -> ScriptedProviders {
    ScriptedProviders::new(
        vec![],
        vec![],
        vec![Ok(String::from(r#"[{"lat":"poison","lon":"poison"}]"#))],
    )
}

fn resolver_answering(lat: &str, lon: &str) -> ScriptedProviders {
    let body = format!(r#"[{{"lat":"{}","lon":"{}"}}]"#, lat, lon);
    ScriptedProviders::new(vec![], vec![], vec![Ok(body)])
}

fn resolver_finding_nothing() -> ScriptedProviders {
    ScriptedProviders::new(vec![], vec![], vec![Ok(String::from("[]"))])
}

fn test_location() -> Location {
    Location { lat: String::from("48.2082"), long: String::from("16.3738") }
}

fn setup_test_cache() -> (LocationCache, MemoryStore) {
    let mut store = MemoryStore::new(Some(String::from("cache")), false);
    let mut cache = LocationCache::new(&mut store).unwrap();
    cache.set("Vienna", &test_location());
    (cache, store)
}

#[test]
fn cache_get_set() {
    let (cache, _store) = setup_test_cache();

    assert_eq!(cache.get("Vienna").unwrap(), test_location());
}

#[test]
fn cache_fetch_when_exists() {
    let (mut cache, mut store) = setup_test_cache();
    let mut resolver = poisoned_resolver();
    assert_eq!(
        cache.fetch("Vienna", &mut resolver, &mut store).unwrap(),
        test_location()
    );
    assert_eq!(resolver.remaining_geo(), 1);
}

#[test]
fn cache_fetch_when_does_not_exist() {
    let (mut cache, mut store) = setup_test_cache();
    let alexandria = Location { lat: String::from("31.2001"), long: String::from("29.9187") };
    assert_eq!(
        cache
            .fetch("Alexandria", &mut resolver_answering("31.2001", "29.9187"), &mut store)
            .unwrap(),
        alexandria
    );
}

#[test]
fn cache_fetch_when_errors_out() {
    let (mut cache, mut store) = setup_test_cache();
    assert!(cache
        .fetch("Basiltown", &mut poisoned_resolver(), &mut store)
        .is_err())
}

#[test]
fn cache_round_trip_through_the_file() {
    let (cache, mut store) = setup_test_cache();
    cache.save(&mut store).unwrap();
    let reloaded = LocationCache::load(&mut store).unwrap();
    assert_eq!(reloaded.get("Vienna").unwrap(), test_location());
    assert!(reloaded.get("Graz").is_none());
}

#[test]
fn cache_round_trip_with_names_that_need_escaping() {
    let mut store = MemoryStore::new(Some(String::from("cache")), false);
    let mut cache = LocationCache::new(&mut store).unwrap();
    let name = "we \"said\"\n\\hi\tthere\u{1}";
    cache.set(name, &test_location());
    cache.save(&mut store).unwrap();
    let reloaded = LocationCache::load(&mut store).unwrap();
    assert_eq!(reloaded.get(name).unwrap(), test_location());
}

#[test]
fn fetch_miss_populates_and_later_hits() {
    let (mut cache, mut store) = setup_test_cache();
    let alexandria = Location { lat: String::from("31.2001"), long: String::from("29.9187") };
    let mut resolver = resolver_answering("31.2001", "29.9187");
    cache.fetch("Alexandria", &mut resolver, &mut store).unwrap();
    assert_eq!(resolver.remaining_geo(), 0);
    assert_eq!(cache.get("Alexandria").unwrap(), alexandria);
    let mut poison = poisoned_resolver();
    assert_eq!(
        cache.fetch("Alexandria", &mut poison, &mut store).unwrap(),
        alexandria
    );
    assert_eq!(poison.remaining_geo(), 1);
    let reloaded = LocationCache::load(&mut store).unwrap();
    assert_eq!(reloaded.get("Alexandria").unwrap(), alexandria);
}

#[test]
fn fetch_failure_caches_nothing() {
    let (mut cache, mut store) = setup_test_cache();
    let mut resolver = resolver_finding_nothing();
    let r = cache.fetch("Basiltown", &mut resolver, &mut store);
    assert!(matches!(r, Err(SunshineError::UnknownLocationName)));
    assert_eq!(resolver.remaining_geo(), 0);
    assert!(cache.get("Basiltown").is_none());
}

#[test]
fn failed_flush_surfaces_but_memory_entry_stays() {
    let mut store = MemoryStore::new(Some(String::from("cache")), true);
    let mut cache = LocationCache::new(&mut store).unwrap();
    let r = cache.fetch("Vienna", &mut resolver_answering("48.2082", "16.3738"), &mut store);
    assert!(matches!(r, Err(SunshineError::CacheWriteError)));
    assert_eq!(cache.get("Vienna").unwrap(), test_location());
}

#[test]
fn cache_directory_unavailable() {
    let mut store = MemoryStore::new(None, false);
    assert!(matches!(
        LocationCache::new(&mut store),
        Err(SunshineError::CacheDirectoryUnavailable)
    ));
    assert!(matches!(
        LocationCache::load(&mut store),
        Err(SunshineError::CacheDirectoryUnavailable)
    ));
}

#[test]
fn cache_load_failures_are_told_apart() {
    let mut store = MemoryStore::new(Some(String::from("cache")), false);
    assert!(matches!(
        LocationCache::load(&mut store),
        Err(SunshineError::CacheLoadError)
    ));
    store.write_file("cache/location_cache.json", "not json at all").unwrap();
    assert!(matches!(
        LocationCache::load(&mut store),
        Err(SunshineError::CacheDeserializationError)
    ));
}

#[test]
fn unwritable_tokens_fail_serialization() {
    let mut store = MemoryStore::new(Some(String::from("cache")), false);
    let mut cache = LocationCache::new(&mut store).unwrap();
    cache.set("North", &Location { lat: String::from("inf"), long: String::from("1") });
    assert!(matches!(
        cache.save(&mut store),
        Err(SunshineError::CacheSerializationError)
    ));
}

#[test]
fn cache_file_uses_the_documented_shape() {
    let mut store = MemoryStore::new(Some(String::from("cache")), false);
    let mut cache = LocationCache::new(&mut store).unwrap();
    cache.set("Vienna", &test_location());
    cache.save(&mut store).unwrap();
    let text = store.read_file("cache/location_cache.json").unwrap();
    assert_eq!(
        text,
        "{\"data\":{\"Vienna\":{\"lat\":48.2082,\"long\":16.3738}}}"
    );
}
