//! Resolution of human-supplied location descriptors into geographic
//! coordinates, through interchangeable strategies, with a persistent
//! name-lookup cache.

mod adapters;
mod daylight;
mod errors;
mod json;
mod locators;
mod memory;
mod name_cache;
mod numbers;
mod ports;

pub use adapters::LoggedProviders;
pub use adapters::LoggedStore;
pub use adapters::RawProviders;
pub use adapters::RawStore;
pub use daylight::TimeOfDay;
pub use daylight::spec_time_of_day;
pub use daylight::time_of_day;
pub use errors::SunshineError;
pub use json::lemma_escape_round_trip;
pub use json::parse_cache;
pub use json::parse_ip_body;
pub use json::parse_search_body;
pub use json::render_cache;
pub use json::spec_ip_result;
pub use json::spec_parse_cache;
pub use json::spec_print_cache;
pub use json::spec_search_outcome;
pub use locators::Location;
pub use locators::LocationView;
pub use locators::NominatimLocation;
pub use locators::PortsView;
pub use locators::auto_resolves;
pub use locators::chain_resolves;
pub use locators::geo_results;
pub use locators::lemma_auto_extends;
pub use locators::lemma_chain_extends;
pub use locators::location_from_auto;
pub use locators::location_from_coords;
pub use locators::location_from_name;
pub use locators::location_from_network;
pub use locators::location_from_string;
pub use locators::name_resolves;
pub use locators::ports_of;
pub use locators::spec_geo_result;
pub use locators::spec_parse_coords;
pub use memory::MemoryStore;
pub use memory::ScriptedProviders;
pub use name_cache::LocationCache;
pub use name_cache::LocationCacher;
pub use name_cache::entries_to_map;
pub use name_cache::spec_cache_path;
pub use numbers::is_float_token;
pub use numbers::is_json_number;
pub use numbers::lemma_json_number_is_float_token;
pub use ports::CacheStore;
pub use ports::LocationProviders;
pub use ports::Resolver;
pub use ports::StoreEvent;
pub use ports::view_loc_result;
pub use ports::view_str_result;
