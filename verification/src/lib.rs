//! Scribe: the verified core of a terminal AsciiDoc notes manager.
pub mod text;
pub mod notes;
pub mod render;
pub mod templates;
pub mod paths;
pub mod cli;
pub mod app;
pub mod keys;
pub mod ui;
pub mod laws;
