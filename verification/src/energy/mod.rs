//! Energy manager: configuration defaults, shared message types and the pure
//! decision rules of each automation module.
pub mod config;
pub mod lg_thinq;
pub mod logic;
pub mod monitoring;
pub mod topics;
pub mod types;
