//! Offline-first synchronization core: a versioned local entity store,
//! per-entity-type sync providers, and an orchestrating engine that runs
//! providers in dependency order with partial-failure tolerance.

pub mod config;
pub mod engine;
pub mod errors;
pub mod laws;
pub mod model;
pub mod providers;
pub mod remote;
pub mod status;
pub mod store;
pub mod store_accounts;
pub mod store_contents;
pub mod store_projects;
pub mod store_publications;
pub mod store_topics;
pub mod trusted;
