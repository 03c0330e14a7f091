//! Known-hosts manager: the verified core of an SSH host-key synchronisation tool.
pub mod activity;
pub mod admin;
pub mod api;
pub mod args;
pub mod clock;
pub mod connection;
pub mod db;
pub mod keys;
pub mod server;
pub mod settings;
pub mod text;
pub mod tray;
pub mod web;
pub mod web_admin;
