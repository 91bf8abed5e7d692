//! The verified core of a rate-pacing proxy for a pool of upstream API keys.
pub mod time;
pub mod text;
pub mod pool;
pub mod pool_laws;
pub mod backoff;
pub mod labels;
pub mod json;
pub mod affinity;
pub mod scan;
pub mod shape;
pub mod answers;
pub mod retry;
pub mod streaming;
pub mod buffered;
pub mod waiting;
pub mod secrets;
pub mod request;
pub mod relay;
pub mod store;
pub mod settings;
pub mod accounts;
pub mod rulebook;
pub mod live;
pub mod setup;
pub mod config_view;
pub mod fuzz;
pub mod dashboard;
pub mod boot;
