//! Remootio gate controllers bridged to MQTT: the encrypted frame protocol,
//! the session state machine, the MQTT topic and command vocabulary, and the
//! bridge configuration.
pub mod config;
pub mod device;
pub mod protocol;
pub mod topics;
