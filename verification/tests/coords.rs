use sunshine::Location;
use sunshine::MemoryStore;
use sunshine::ScriptedProviders;
use sunshine::SunshineError;
use sunshine::location_from_coords;
use sunshine::location_from_string;

fn empty_world() -> (ScriptedProviders, MemoryStore) {
    (
        ScriptedProviders::new(vec![], vec![], vec![]),
        MemoryStore::new(Some(String::from("cache")), false),
    )
}

#[test]
fn test_known_good_location_from_coords() {
    assert_eq!(
        location_from_coords("49.9 11.5").unwrap().lat.parse::<f64>().unwrap(),
        49.9
    );
    assert_eq!(
        location_from_coords("49.9 11.5").unwrap().long.parse::<f64>().unwrap(),
        11.5
    );
}

#[test]
fn test_malformed_location_from_coords() {
    assert!(location_from_coords("foobar").is_err())
}

#[test]
fn coords_descriptor_resolves_without_io() {
    let (mut providers, mut store) = empty_world();
    let location = location_from_string("@49.9 11.5", &mut providers, &mut store).unwrap();
    assert_eq!(location, Location { lat: String::from("49.9"), long: String::from("11.5") });
    assert_eq!(providers.remaining_native(), 0);
    assert_eq!(providers.remaining_ip(), 0);
    assert_eq!(providers.remaining_geo(), 0);
}

#[test]
fn coords_descriptor_rejects_bad_payload() {
    let (mut providers, mut store) = empty_world();
    let r = location_from_string("@foobar", &mut providers, &mut store);
    assert!(matches!(r, Err(SunshineError::MalformedLocationString)));
}

#[test]
fn unknown_sigils_and_empty_descriptor_are_malformed() {
    for descriptor in ["", "x", "%49.9 11.5", "49.9 11.5", "?"] {
        let (mut providers, mut store) = empty_world();
        let r = location_from_string(descriptor, &mut providers, &mut store);
        assert!(matches!(r, Err(SunshineError::MalformedLocationString)));
    }
}

#[test]
fn coords_payload_must_hold_exactly_two_tokens() {
    assert!(location_from_coords("1 2 3").is_err());
    assert!(location_from_coords("1").is_err());
    assert!(location_from_coords("1 ").is_err());
    assert!(location_from_coords(" 1").is_err());
    assert!(location_from_coords("").is_err());
    assert!(location_from_coords("1  2").is_err());
}

#[test]
fn coords_accept_every_float_token_form() {
    let loc = location_from_coords("inf -2.5e3").unwrap();
    assert!(loc.lat.parse::<f64>().unwrap().is_infinite());
    assert_eq!(loc.long.parse::<f64>().unwrap(), -2500.0);
    assert!(location_from_coords("NaN +.5").is_ok());
    assert!(location_from_coords("5. 1E2").is_ok());
    assert!(location_from_coords("1e 2").is_err());
    assert!(location_from_coords("infx 2").is_err());
}
