pub mod clock;
pub mod config_manager;
pub mod connection_logger;
pub mod core_control;
pub mod core_manager;
pub mod event_bus;
pub mod history;
pub mod json;
pub mod log_cleanup;
pub mod logger;
pub mod node_history;
pub mod pattern;
pub mod settings;
pub mod subscription;
pub mod system_proxy;
pub mod text;
pub mod traceroute;
pub mod traffic;
