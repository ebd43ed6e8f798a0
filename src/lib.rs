//! Request-processing core of a small HTTP service: cached Basic-Auth
//! credentials, per-request correlation identifiers, access and error
//! logging, and a log filter that can be reloaded at run time.

pub mod auth;
pub mod config;
pub mod cred_cache;
pub mod error_handle;
pub mod level;
pub mod log_api;
pub mod log_filter;
pub mod logging;
pub mod request_id;
pub mod server;
pub mod test_logs;
pub mod text;
