use sunshine::MemoryStore;
use sunshine::ScriptedProviders;
use sunshine::SunshineError;
use sunshine::location_from_name;
use sunshine::location_from_network;
use sunshine::location_from_string;

fn freegeoip_body() -> String {
    String::from(
        r#"{
                "ip":"0.0.0.0",
                "country_code":"HR", "country_name":"Croatia",
                "region_code":"21", "region_name":"City of Zagreb", "city":"Zagreb",
                "zip_code":"10000", "time_zone":"Europe/Zagreb",
                "latitude":45.8293, "longitude":15.9793, "metro_code":0}"#,
    )
}

fn nominatim_body() -> String {
    String::from(
        r#"[{
                "lat":"52.37454030000001", "lon":"4.897975505617977",
                "display_name":"Amsterdam, North Holland, Netherlands, The Netherlands"},
                {"lat":"52.3727598", "lon":"4.8936041",
                "display_name":"Amsterdam, North Holland, Netherlands, The Netherlands"}]"#,
    )
}

#[test]
fn test_from_network() {
    let mut providers = ScriptedProviders::new(vec![], vec![Ok(freegeoip_body())], vec![]);
    let location = location_from_network(&mut providers).unwrap();

    assert_eq!(providers.remaining_ip(), 0);

    assert_eq!(location.lat.parse::<f64>().unwrap(), 45.8293);
    assert_eq!(location.long.parse::<f64>().unwrap(), 15.9793);
}

#[test]
fn test_from_name() {
    let mut providers = ScriptedProviders::new(vec![], vec![], vec![Ok(nominatim_body())]);
    let mut store = MemoryStore::new(Some(String::from("cache")), false);

    let location = location_from_name(&"Amsterdam", &mut providers, &mut store).unwrap();

    assert_eq!(providers.remaining_geo(), 0);

    assert_eq!(location.lat.parse::<f64>().unwrap(), 52.37454030000001);
    assert_eq!(location.long.parse::<f64>().unwrap(), 4.897975505617977);
}

#[test]
fn ip_body_parses_to_exact_coordinates() {
    let body = String::from(r#"{"latitude":45.8293,"longitude":15.9793}"#);
    let mut providers = ScriptedProviders::new(vec![], vec![Ok(body)], vec![]);
    let location = location_from_network(&mut providers).unwrap();
    assert_eq!(location.lat, "45.8293");
    assert_eq!(location.long, "15.9793");
}

#[test]
fn ip_body_extra_fields_of_any_shape_are_ignored() {
    let body = String::from(
        r#"{"nested":{"deep":[1,2,{"x":null}]},"longitude":15.9793,"ok":true,"latitude":45.8293}"#,
    );
    let mut providers = ScriptedProviders::new(vec![], vec![Ok(body)], vec![]);
    let location = location_from_network(&mut providers).unwrap();
    assert_eq!(location.lat, "45.8293");
    assert_eq!(location.long, "15.9793");
}

#[test]
fn ip_body_of_the_wrong_shape_is_a_json_error() {
    for body in [
        "not json",
        r#"{"latitude":45.8293}"#,
        r#"{"latitude":"45.8","longitude":15.9}"#,
        r#"[45.8, 15.9]"#,
    ] {
        let mut providers = ScriptedProviders::new(vec![], vec![Ok(String::from(body))], vec![]);
        let r = location_from_network(&mut providers);
        assert!(matches!(r, Err(SunshineError::JsonError)));
    }
}

#[test]
fn transport_failure_is_an_api_error() {
    let mut providers = ScriptedProviders::new(vec![], vec![], vec![]);
    let r = location_from_network(&mut providers);
    assert!(matches!(r, Err(SunshineError::ApiError)));
}

#[test]
fn only_the_first_candidate_counts() {
    let body = String::from(
        r#"[{"lat":"52.37454030000001","lon":"4.897975505617977"},{"unrelated":[true,null]}]"#,
    );
    let mut providers = ScriptedProviders::new(vec![], vec![], vec![Ok(body)]);
    let mut store = MemoryStore::new(Some(String::from("cache")), false);
    let location = location_from_name("Amsterdam", &mut providers, &mut store).unwrap();
    assert_eq!(location.lat, "52.37454030000001");
    assert_eq!(location.long, "4.897975505617977");
}

#[test]
fn empty_candidate_array_is_unknown_location_name() {
    let mut providers = ScriptedProviders::new(vec![], vec![], vec![Ok(String::from("[]"))]);
    let mut store = MemoryStore::new(Some(String::from("cache")), false);
    let r = location_from_name("Nowhere", &mut providers, &mut store);
    assert!(matches!(r, Err(SunshineError::UnknownLocationName)));
}

#[test]
fn candidate_with_unparsable_tokens_is_malformed() {
    let body = String::from(r#"[{"lat":"abc","lon":"4.89"}]"#);
    let mut providers = ScriptedProviders::new(vec![], vec![], vec![Ok(body)]);
    let mut store = MemoryStore::new(Some(String::from("cache")), false);
    let r = location_from_name("Amsterdam", &mut providers, &mut store);
    assert!(matches!(r, Err(SunshineError::MalformedLocationString)));
}

#[test]
fn auto_falls_back_to_the_embedded_descriptor() {
    // native and network both fail; the embedded `#Amsterdam` goes through
    // the cache, which misses, so the geocoding answer decides.
    let mut providers = ScriptedProviders::new(vec![], vec![], vec![Ok(nominatim_body())]);
    let mut store = MemoryStore::new(Some(String::from("cache")), false);
    let location = location_from_string("!#Amsterdam", &mut providers, &mut store).unwrap();
    assert_eq!(location.lat, "52.37454030000001");
    assert_eq!(providers.remaining_geo(), 0);
}

#[test]
fn auto_consults_the_cache_before_geocoding() {
    // the first resolution populates the cache; the second must answer
    // from it without spending the remaining geocoding answer.
    let mut providers = ScriptedProviders::new(
        vec![],
        vec![],
        vec![Ok(String::from("unused")), Ok(nominatim_body())],
    );
    let mut store = MemoryStore::new(Some(String::from("cache")), false);
    let first = location_from_string("!#Amsterdam", &mut providers, &mut store).unwrap();
    assert_eq!(providers.remaining_geo(), 1);
    let second = location_from_string("!#Amsterdam", &mut providers, &mut store).unwrap();
    assert_eq!(providers.remaining_geo(), 1);
    assert_eq!(first, second);
}

#[test]
fn auto_prefers_native_and_never_goes_further() {
    let native = sunshine::Location { lat: String::from("1.5"), long: String::from("2.5") };
    let mut providers = ScriptedProviders::new(
        vec![Ok(native.clone())],
        vec![Ok(freegeoip_body())],
        vec![],
    );
    let mut store = MemoryStore::new(Some(String::from("cache")), false);
    let location = location_from_string("!@9 9", &mut providers, &mut store).unwrap();
    assert_eq!(location, native);
    assert_eq!(providers.remaining_ip(), 1);
}

#[test]
fn auto_prefers_network_over_the_fallback() {
    let mut providers = ScriptedProviders::new(vec![], vec![Ok(freegeoip_body())], vec![]);
    let mut store = MemoryStore::new(Some(String::from("cache")), false);
    let location = location_from_string("!@9 9", &mut providers, &mut store).unwrap();
    assert_eq!(location.lat, "45.8293");
}

#[test]
fn nested_auto_descriptors_resolve() {
    let mut providers = ScriptedProviders::new(vec![], vec![], vec![]);
    let mut store = MemoryStore::new(Some(String::from("cache")), false);
    let location = location_from_string("!!@0 0", &mut providers, &mut store).unwrap();
    assert_eq!(location.lat, "0");
    assert_eq!(location.long, "0");
}

#[test]
fn dot_descriptor_asks_the_network_once() {
    let mut providers = ScriptedProviders::new(vec![], vec![Ok(freegeoip_body())], vec![]);
    let mut store = MemoryStore::new(Some(String::from("cache")), false);
    let location = location_from_string(".", &mut providers, &mut store).unwrap();
    assert_eq!(location.lat, "45.8293");
    assert_eq!(providers.remaining_ip(), 0);
}
