//! The logic of a package manager for PHP, stated in contracts and proved.

pub mod autoload;
pub mod cache;
pub mod commands;
pub mod composer;
pub mod config;
pub mod downloader;
pub mod downloader_laws;
pub mod error;
pub mod holding;
pub mod http;
pub mod http_laws;
pub mod installer;
pub mod json;
pub mod json_file;
pub mod json_laws;
pub mod json_text;
pub mod links;
pub mod loader;
pub mod lock;
pub mod lock_document;
pub mod lock_document_laws;
pub mod lock_laws;
pub mod manifest_laws;
pub mod named_values;
pub mod names;
pub mod output;
pub mod package;
pub mod path_laws;
pub mod paths;
pub mod platform;
pub mod platform_laws;
pub mod repositories;
pub mod schema;
pub mod settings;
pub mod sort;
pub mod sorted;
pub mod text;
pub mod text_laws;
