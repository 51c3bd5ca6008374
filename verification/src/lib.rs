//! Copper: a manifest-first automation host. This crate holds the verified core
//! of the daemon: manifest data, permission and capability brokering, the
//! local HTTP wire format, scheduling, state-file merging and the small
//! text formats the host writes.

pub mod descriptor;
pub mod json;
pub mod text;
pub mod state_store;
pub mod chars;
pub mod keyboard;
pub mod http;
pub mod control_plane;
pub mod config_ui;
pub mod capability;
pub mod api_call;
pub mod windows_display;
pub mod schema;
pub mod core_config;
pub mod extension;
pub mod numbers;
pub mod host_extensions;
pub mod scheduler;
pub mod platform;
pub mod daemon;
pub mod cli;
pub mod runtime;
pub mod display_tray;
pub mod tray;
pub mod tray_assets;
pub mod hotkey;
pub mod autostart;
pub mod bones;
pub mod jobs;
pub mod api;
pub mod config_ui_window;
pub mod settings;
