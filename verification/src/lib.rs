//! Verified core of the Fixer media organizer: persistent job and ingestion
//! models, configuration rules, authentication helpers and output-path safety.

pub mod api_auth;
pub mod api_error;
pub mod api_ingestion;
pub mod api_jobs;
pub mod api_runs;
pub mod auth;
pub mod auth_policy;
pub mod config;
pub mod discovery;
pub mod env;
pub mod events;
pub mod fs_policy;
pub mod ingestion_model;
pub mod ingestion_runtime;
pub mod job_model;
pub mod legacy_config;
pub mod network_policy;
pub mod numbers;
pub mod observability;
pub mod output;
pub mod paths;
pub mod server_config;
pub mod store;
pub mod random;
pub mod search;
pub mod text;
pub mod validation;
pub mod watcher;
pub mod worker;
pub mod workspace_errors;
