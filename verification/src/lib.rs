pub mod text;
pub mod paths;
pub mod session;
pub mod env_map;
pub mod exec;
pub mod colors;
pub mod legacy_ini;
pub mod overrides;
pub mod config;
pub mod theme;
pub mod users;
pub mod launch_state;
pub mod logging;
pub mod auth;
pub mod signal_handler;
pub mod login;
pub mod ui;
