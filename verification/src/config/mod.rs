//! The configuration of the package manager, and the credentials it uses.
pub mod auth;
pub mod auth_file;
pub mod auth_laws;
pub mod build_laws;
pub mod effect_laws;
pub mod laws;
pub mod settings;
