//! Matter bridge for the Toshiba air conditioners: conversions between the
//! units' MQTT state and the Matter Thermostat cluster, bridge configuration,
//! and the per-zone cache of the bridge.
pub mod bridge;
pub mod config;
pub mod mapping;
