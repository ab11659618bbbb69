//! Runtime hardening layer for a long-running background service: validated
//! configuration, identity and resource preconditions, a tamper-resistant log
//! sink and the control loop that ties them together.
//!
//! Every decision is made by verified functions over plain values; reading the
//! operating system's state and performing I/O is left to the caller.

pub mod action;
pub mod config;
pub mod error;
pub mod logger;
pub mod monitor;
pub mod path;
pub mod runner;
pub mod text;
pub mod validation;

pub use config::{validate_all_config_fields, validate_config, Config};
pub use error::{ConfigError, ConfigField, MonitorError, SecurityError, ServiceError};
pub use logger::{FileLogger, RateLimiter, Severity};
pub use monitor::check_resources;
pub use path::resolve_path_no_symlinks;
pub use runner::{Action, ActionOutcome, ServiceConfig, ServiceRunner};
pub use validation::{
    sanitize_message, validate_config_field, validate_identity, validate_resources,
    validate_runtime_security, validate_service_user,
};
