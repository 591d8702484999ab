//! Configuration broker for the Prismatic dock: the typed configuration and its
//! validation rules, the revision-checked configuration store, the service logic
//! that guards favorites and adapter registrations, desktop session detection, and
//! the computing parts of the settings application.

pub mod text;
pub mod config;
pub mod store;
pub mod session;
pub mod catalog;
pub mod service;
pub mod dbus;
pub mod settings;
pub mod properties;
