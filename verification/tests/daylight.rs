use chrono::Datelike;
use chrono::TimeZone;
use sunshine::MemoryStore;
use sunshine::ScriptedProviders;
use sunshine::SunshineError;
use sunshine::TimeOfDay;
use sunshine::location_from_string;
use sunshine::time_of_day;

#[test]
#[allow(deprecated)]
fn test_from_location_string() {
    let location = String::from("@45.81 15.98");
    let time = chrono::DateTime::parse_from_rfc3339("2020-06-11T16:20:00+02:00").unwrap();

    let mut providers = ScriptedProviders::new(vec![], vec![], vec![]);
    let mut store = MemoryStore::new(Some(String::from("cache")), false);
    let resolved = location_from_string(&location[..], &mut providers, &mut store).unwrap();
    let lat: f64 = resolved.lat.parse().unwrap();
    let long: f64 = resolved.long.parse().unwrap();

    let (sunrise_ts, sunset_ts) = sunrise::sunrise_sunset(
        lat,
        long,
        time.date().year(),
        time.date().month(),
        time.date().day(),
    );
    let offset = *time.offset();
    let calculated_sunrise =
        offset.from_utc_datetime(&chrono::NaiveDateTime::from_timestamp(sunrise_ts, 0));
    let calculated_sunset =
        offset.from_utc_datetime(&chrono::NaiveDateTime::from_timestamp(sunset_ts, 0));

    assert_eq!(format!("{}", calculated_sunrise.format("%H:%M")), "05:05");
    assert_eq!(format!("{}", calculated_sunset.format("%H:%M")), "20:45");
    assert_eq!(time_of_day(time.timestamp(), sunrise_ts, sunset_ts), TimeOfDay::Day);
}

#[test]
fn between_sunrise_and_sunset_is_day() {
    assert_eq!(time_of_day(1000, 500, 1500), TimeOfDay::Day);
}

#[test]
fn outside_the_interval_is_night() {
    assert_eq!(time_of_day(400, 500, 1500), TimeOfDay::Night);
    assert_eq!(time_of_day(1600, 500, 1500), TimeOfDay::Night);
}

#[test]
fn the_boundaries_count_as_night() {
    assert_eq!(time_of_day(500, 500, 1500), TimeOfDay::Night);
    assert_eq!(time_of_day(1500, 500, 1500), TimeOfDay::Night);
}

#[test]
fn every_error_has_a_message() {
    let all = [
        SunshineError::MalformedLocationString,
        SunshineError::CoreLocationUnavailable,
        SunshineError::UnknownLocationName,
        SunshineError::CoreLocationError,
        SunshineError::ApiError,
        SunshineError::JsonError,
        SunshineError::CacheSerializationError,
        SunshineError::CacheDeserializationError,
        SunshineError::CacheLoadError,
        SunshineError::CacheWriteError,
        SunshineError::CacheDirectoryUnavailable,
    ];
    for e in all {
        assert!(!e.message().is_empty());
    }
    assert_eq!(
        SunshineError::MalformedLocationString.message(),
        "malformed location string"
    );
}
