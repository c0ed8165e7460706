//! Installing and updating packages: which of them, in what order, and what the
//! lock file then says.
pub mod autoloads;
pub mod binary;
pub mod closure;
pub mod flow;
pub mod flow_laws;
pub mod handover_laws;
pub mod loading;
pub mod loading_laws;
pub mod operation_laws;
pub mod operations;
pub mod pool;
pub mod project_laws;
pub mod report;
pub mod root;
pub mod selection;
pub mod selection_laws;
pub mod settle;
