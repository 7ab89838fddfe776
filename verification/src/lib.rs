//! Verified core of a dynamic plugin host: an error taxonomy with a
//! transience classification, a registry of loaded capability modules,
//! a manager that reconciles registry state with persisted
//! configuration, and the sample capabilities shipped with the host.

pub mod api;
pub mod config;
pub mod error;
pub mod json;
pub mod manager;
pub mod plugin;
pub mod plugins;
pub mod registry;
pub mod strutil;

pub use config::Config;
pub use config::PluginConfig;
pub use config::ServerConfig;
pub use error::PluginError;
pub use error::PluginResult;
pub use manager::ExecutionOptions;
pub use manager::ExecutionResult;
pub use manager::PluginManager;
pub use manager::PluginStatus;
pub use plugin::Plugin;
pub use registry::PluginInfo;
pub use registry::PluginRegistry;
pub use strutil::truncate_string;
