//! The `config` command: reading, listing, writing and unsetting settings.
pub mod action;
pub mod document_laws;
pub mod documents;
pub mod key_laws;
pub mod keys;
pub mod laws;
pub mod listing_laws;
pub mod read;
pub mod repositories;
pub mod value_laws;
pub mod values;
pub mod write;
pub mod write_laws;
