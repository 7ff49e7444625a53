//! Host telemetry agent: payload building, the persisted ledger, configuration
//! and the decisions of the collection loop.
pub mod agent;
pub mod config;
pub mod ledger;
pub mod lines;
pub mod payload;
