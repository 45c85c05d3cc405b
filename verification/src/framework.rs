//! Framework integration support: where a project's base types come from.

use vstd::prelude::*;

use crate::assoc::{find_key, lookup};
use crate::config::{BaseTypeConfig, FrameworkConfig};

verus! {

/// Framework integration manager.
#[derive(Debug)]
pub struct FrameworkIntegration {
    config: Option<FrameworkConfig>,
}

impl FrameworkIntegration {
    /// The framework configuration this integration was made with.
    pub closed spec fn spec_config(&self) -> Option<FrameworkConfig> {
        self.config
    }

    /// The base type configured under `kind_name`, if any.
    pub open spec fn base_type(&self, kind_name: Seq<char>) -> Option<BaseTypeConfig> {
        match self.spec_config() {
            Some(c) => lookup(c.base_types@, kind_name),
            None => None,
        }
    }

    /// Create new framework integration.
    pub fn new(config: Option<FrameworkConfig>) -> (r: Self)
        ensures
            r.spec_config() == config,
    {
        FrameworkIntegration { config }
    }

    /// Check if framework integration is enabled.
    pub fn is_enabled(&self) -> (r: bool)
        ensures
            r == self.spec_config() is Some,
    {
        self.config.is_some()
    }

    fn find_base_type(&self, kind_name: &str) -> (r: Option<&BaseTypeConfig>)
        ensures
            match r {
                Some(b) => self.base_type(kind_name@) == Some(*b),
                None => self.base_type(kind_name@) is None,
            },
    {
        match &self.config {
            Some(c) => match find_key(&c.base_types, kind_name) {
                Some(i) => Some(&c.base_types[i].1),
                None => None,
            },
            None => None,
        }
    }

    /// Get base type import for a given type.
    pub fn get_base_type_import(&self, kind_name: &str) -> (r: Option<String>)
        ensures
            match self.base_type(kind_name@) {
                Some(b) => r == Some(b.import),
                None => r is None,
            },
    {
        match self.find_base_type(kind_name) {
            Some(b) => Some(b.import.clone()),
            None => None,
        }
    }

    /// Get base type class name for a given type.
    pub fn get_base_type_class(&self, kind_name: &str) -> (r: Option<String>)
        ensures
            match self.base_type(kind_name@) {
                Some(b) => r == Some(b.class),
                None => r is None,
            },
    {
        match self.find_base_type(kind_name) {
            Some(b) => Some(b.class.clone()),
            None => None,
        }
    }
}

} // verus!
