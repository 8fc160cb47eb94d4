//! Local development orchestrator for PHP web projects: runtime discovery,
//! version selection, port allocation, configuration templating and the
//! supervision decisions for the PHP backend and the HTTP proxy.
pub mod text;
pub mod numeric;
pub mod php;
pub mod discovery;
pub mod registry;
pub mod selector;
pub mod ports;
pub mod pool_config;
pub mod templates;
pub mod paths;
pub mod session;
pub mod supervisor;
pub mod info;
