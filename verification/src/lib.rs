//! A policy-driven desktop portal backend: resolves "choose application"
//! and "read settings" requests from static configuration instead of a GUI.
//!
//! The crate holds the request-resolution logic: wildcard key lookup,
//! desktop-entry parsing, command building, and the chooser and settings
//! engines. Transport, file discovery, and process spawning live outside,
//! in the surrounding binary.

pub mod chooser;
pub mod command;
pub mod desktop;
pub mod picker;
pub mod secret;
pub mod settings;
pub mod terminal;
pub mod text;
pub mod wildcard;
