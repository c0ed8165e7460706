//! The files from which PHP loads the classes of the installed packages.
pub mod class_laws;
pub mod classes;
pub mod code;
pub mod collect;
pub mod collect_laws;
pub mod file_laws;
pub mod files;
pub mod generate;
pub mod installed;
pub mod installed_json;
pub mod installed_json_laws;
pub mod installed_laws;
pub mod laws;
pub mod order;
pub mod static_file;
pub mod types;
