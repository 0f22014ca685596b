//! One module per automation: each holds the stateless decision (and, where the
//! decision needs memory, the small state machine that feeds it).
pub mod charge_current;
pub mod deye_command;
pub mod inverter;
pub mod smartshunt;
pub mod solar_power;
pub mod toshiba_ac;
pub mod water_heater;
