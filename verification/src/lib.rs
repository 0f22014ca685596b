//! Decision rules, protocol helpers and bounded in-memory stores of a home
//! energy-storage installation (BMS supervision server, energy manager, and
//! the MQTT bridges for the Toshiba air conditioners and the Remootio gates).
pub mod bms;
pub mod energy;
pub mod json;
pub mod matter;
pub mod remootio;
pub mod text;
