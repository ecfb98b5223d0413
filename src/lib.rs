//! Station-listing reconciliation: extraction of timestamped station records
//! from an HTML listing, and the diff that decides which records to create
//! and which to update in local storage.
pub mod config;
pub mod database;
pub mod error;
pub mod extract;
pub mod notice;
pub mod reconcile;
pub mod station_time;
pub mod sync;
pub mod text;
pub mod timestamp;

pub use config::{load_configuration, ConfigError, Parameters, Settings};
pub use database::{create_stations, get_stations, update_stations};
pub use error::StationError;
pub use extract::{
    extract_stations, is_allowed, row_in_network, station_from_parts, stations_from_rows,
};
pub use notice::create_email_message;
pub use reconcile::{find_stations_to_create, find_stations_to_update, station_matches};
pub use station_time::StationTime;
pub use sync::{allowlist_for, collect_network, listing_url, reconcile};
pub use text::contains_str;
pub use timestamp::parse_timestamp;
