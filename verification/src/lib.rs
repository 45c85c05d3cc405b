//! Vertical Slice Architecture (VSA) core library: the domain model of a
//! VSA project, its configuration, import parsing, and the validation rules
//! that check a project tree against the architecture.

use vstd::prelude::*;

pub mod text;
pub mod path;
pub mod domain;
pub mod error;
pub mod config;
pub mod assoc;
pub mod tree;
pub mod scanner;
pub mod scanners;
pub mod manifest;
pub mod integration_events;
pub mod re;
pub mod debug_fmt;
pub mod case;
pub mod patterns;
pub mod framework;
pub mod bounded_contexts;
pub mod validation;
pub mod validator;

verus! {

/// Library version string.
pub const VERSION: &'static str = "0.1.0";

} // verus!
