pub mod text;
pub mod config;
pub mod config_laws;
pub mod known_hosts;
pub mod known_hosts_laws;
pub mod order;
pub mod stdlib;
pub mod keys;
pub mod export;
pub mod app;
pub mod app_laws;
pub mod display;
pub mod commands;
pub mod keymap;
