//! Aggregate metadata.

use vstd::prelude::*;
use crate::text::str_eq;

verus! {

/// Metadata for a domain aggregate.
#[derive(Debug, Clone, PartialEq)]
pub struct Aggregate {
    /// Name of the aggregate (e.g. "TaskAggregate").
    pub name: String,
    /// Bounded context this aggregate belongs to (none in monolithic projects).
    pub context: Option<String>,
    /// File path relative to the project root.
    pub file_path: String,
    /// Total line count.
    pub line_count: usize,
    /// Command handlers defined in this aggregate.
    pub command_handlers: Vec<CommandHandler>,
    /// Event sourcing handlers defined in this aggregate.
    pub event_handlers: Vec<EventHandler>,
    /// Entities within this aggregate (objects with identity).
    pub entities: Vec<AggregateEntity>,
    /// Value objects within this aggregate (immutable, no identity).
    pub value_objects: Vec<AggregateValueObject>,
    /// The `aggregate_*` folder the aggregate was found in, if any.
    pub folder_name: Option<String>,
}

/// An entity within an aggregate (has identity).
#[derive(Debug, Clone, PartialEq)]
pub struct AggregateEntity {
    /// Name of the entity class.
    pub name: String,
    /// The field that gives this entity its identity.
    pub identity_field: Option<String>,
    /// File path relative to the aggregate folder.
    pub file_path: String,
    /// Line count.
    pub line_count: usize,
}

/// A value object within an aggregate (no identity, immutable).
#[derive(Debug, Clone, PartialEq)]
pub struct AggregateValueObject {
    /// Name of the value object class.
    pub name: String,
    /// File path relative to the aggregate folder.
    pub file_path: String,
    /// Whether the value object is immutable (frozen, readonly, ...).
    pub is_immutable: bool,
    /// Line count.
    pub line_count: usize,
}

/// Metadata for a command handler method.
#[derive(Debug, Clone, PartialEq)]
pub struct CommandHandler {
    /// Command type this handler processes (e.g. "CreateTaskCommand").
    pub command_type: String,
    /// Method name.
    pub method_name: String,
    /// Line number in the file.
    pub line_number: usize,
    /// Events emitted by this command handler.
    pub emits_events: Vec<String>,
}

/// Metadata for an event sourcing handler method.
#[derive(Debug, Clone, PartialEq)]
pub struct EventHandler {
    /// Event type this handler processes (e.g. "TaskCreatedEvent").
    pub event_type: String,
    /// Method name.
    pub method_name: String,
    /// Line number in the file.
    pub line_number: usize,
}

impl Aggregate {
    /// Some command handler of this aggregate processes `command_type`.
    pub open spec fn spec_handles_command(&self, command_type: Seq<char>) -> bool {
        exists|i: int|
            0 <= i < self.command_handlers@.len() && #[trigger] self.command_handlers@[i].command_type@
                == command_type
    }

    /// Some event handler of this aggregate processes `event_type`.
    pub open spec fn spec_handles_event(&self, event_type: Seq<char>) -> bool {
        exists|i: int|
            0 <= i < self.event_handlers@.len() && #[trigger] self.event_handlers@[i].event_type@
                == event_type
    }

    /// Check if this aggregate handles a specific command.
    pub fn handles_command(&self, command_type: &str) -> (r: bool)
        ensures
            r == self.spec_handles_command(command_type@),
    {
        let mut i: usize = 0;
        while i < self.command_handlers.len()
            invariant
                i <= self.command_handlers@.len(),
                forall|k: int|
                    0 <= k < i ==> self.command_handlers@[k].command_type@ != command_type@,
            decreases self.command_handlers.len() - i,
        {
            if str_eq(self.command_handlers[i].command_type.as_str(), command_type) {
                return true;
            }
            i = i + 1;
        }
        false
    }

    /// Check if this aggregate handles a specific event.
    pub fn handles_event(&self, event_type: &str) -> (r: bool)
        ensures
            r == self.spec_handles_event(event_type@),
    {
        let mut i: usize = 0;
        while i < self.event_handlers.len()
            invariant
                i <= self.event_handlers@.len(),
                forall|k: int| 0 <= k < i ==> self.event_handlers@[k].event_type@ != event_type@,
            decreases self.event_handlers.len() - i,
        {
            if str_eq(self.event_handlers[i].event_type.as_str(), event_type) {
                return true;
            }
            i = i + 1;
        }
        false
    }

    /// Total number of handlers.
    pub fn handler_count(&self) -> (r: usize)
        requires
            self.command_handlers@.len() + self.event_handlers@.len() <= usize::MAX,
        ensures
            r == self.command_handlers@.len() + self.event_handlers@.len(),
    {
        self.command_handlers.len() + self.event_handlers.len()
    }
}

} // verus!
