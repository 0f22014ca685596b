//! BMS supervision server: panel catalogue, request validation helpers,
//! text parsers of the HTTP API, and the small in-memory stores.
pub mod alerts;
pub mod args;
pub mod chart;
pub mod clock;
pub mod dashboards;
pub mod freshness;
pub mod grafana;
pub mod monitor;
pub mod params;
pub mod prometheus_import;
pub mod promql;
pub mod redb_writes;
pub mod rs485;
pub mod state;
pub mod tabs;
pub mod tsink;
