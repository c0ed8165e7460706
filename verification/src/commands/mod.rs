//! The commands of the program: what each decides and says.
pub mod add;
pub mod add_laws;
pub mod answer_laws;
pub mod audit;
pub mod audit_report_laws;
pub mod check_platform_reqs;
pub mod command;
pub mod install;
pub mod laws;
pub mod outdated;
pub mod platform_report_laws;
pub mod status;
pub mod status_laws;
pub mod validate;
pub mod validate_laws;
pub mod why;
pub mod why_laws;
