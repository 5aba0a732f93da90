//! Decision logic of the Temper server state, stated and proved.

pub mod adapter;
pub mod bootstrap;
pub mod catalog;
pub mod composite;
pub mod composite_helpers;
pub mod composite_run;
pub mod creation;
pub mod digest;
pub mod dispatch_actions;
pub mod dispatch_run;
pub mod file_initial_writes;
pub mod file_run;
pub mod file_writes;
pub mod governed;
pub mod governed_gate;
pub mod governed_inventory;
pub mod governed_job;
pub mod governed_run;
pub mod governed_types;
pub mod json;
pub mod local_tdata;
pub mod observe;
pub mod ordered;
pub mod parity;
pub mod projection_backfill;
pub mod provenance;
pub mod query_projection;
pub mod rate_limit;
pub mod reference_contract;
pub mod reference_evidence;
pub mod retry;
pub mod schema_pin;
pub mod server_config;
pub mod server_state;
pub mod sessions;
pub mod state_timeouts;
pub mod status_cache;
pub mod stream;
pub mod stream_descriptors;
pub mod stream_migration;
pub mod supervisor;
pub mod text;
pub mod time;
