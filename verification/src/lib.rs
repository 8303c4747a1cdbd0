//! Verified core of `tfs`, an SSH file browser with a built-in terminal.

pub mod app;
pub mod auth;
pub mod config;
pub mod editor;
pub mod geometry;
pub mod input;
pub mod paths;
pub mod picker;
pub mod session;
pub mod ssh;
pub mod terminal;
pub mod text;
pub mod ui;
