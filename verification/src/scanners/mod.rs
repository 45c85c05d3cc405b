//! Scanners that read the project tree for slices and domain components.

pub mod slice_scanner;
pub mod projection_scanner;
pub mod event_scanner;
pub mod file_walk;
pub mod command_scanner;
pub mod query_scanner;
pub mod aggregate_scanner;
pub mod domain_scanner;
