//! Command metadata.

use vstd::prelude::*;
use crate::text::str_eq;

verus! {

/// Metadata for a domain command.
#[derive(Debug, Clone, PartialEq)]
pub struct Command {
    /// Name of the command (e.g. "CreateTaskCommand").
    pub name: String,
    /// Bounded context this command belongs to.
    pub context: Option<String>,
    /// File path relative to the project root.
    pub file_path: String,
    /// Whether the command has an aggregateId field.
    pub has_aggregate_id: bool,
    /// Command fields.
    pub fields: Vec<CommandField>,
}

/// Metadata for a command field.
#[derive(Debug, Clone, PartialEq)]
pub struct CommandField {
    /// Field name.
    pub name: String,
    /// Field type (e.g. "string").
    pub field_type: String,
    /// Whether the field is required.
    pub required: bool,
    /// Line number in the file.
    pub line_number: usize,
}

impl Command {
    /// Check if this command has a field with the given name.
    pub fn has_field(&self, field_name: &str) -> (r: bool)
        ensures
            r == exists|i: int|
                0 <= i < self.fields@.len() && #[trigger] self.fields@[i].name@ == field_name@,
    {
        let mut i: usize = 0;
        while i < self.fields.len()
            invariant
                i <= self.fields@.len(),
                forall|k: int| 0 <= k < i ==> self.fields@[k].name@ != field_name@,
            decreases self.fields.len() - i,
        {
            if str_eq(self.fields[i].name.as_str(), field_name) {
                return true;
            }
            i = i + 1;
        }
        false
    }

    /// The required fields, in order.
    pub fn required_fields(&self) -> (r: Vec<&CommandField>)
        ensures
            r@.map_values(|f: &CommandField| *f) == self.fields@.filter(|f: CommandField| f.required),
    {
        let mut out: Vec<&CommandField> = Vec::new();
        let mut i: usize = 0;
        while i < self.fields.len()
            invariant
                i <= self.fields@.len(),
                out@.map_values(|f: &CommandField| *f) == self.fields@.subrange(0, i as int).filter(
                    |f: CommandField| f.required,
                ),
            decreases self.fields.len() - i,
        {
            let ghost before = out@.map_values(|f: &CommandField| *f);
            proof {
                reveal_with_fuel(Seq::<_>::filter, 1);
                assert(self.fields@.subrange(0, i + 1).drop_last() =~= self.fields@.subrange(0, i as int));
            }
            if self.fields[i].required {
                out.push(&self.fields[i]);
                assert(out@.map_values(|f: &CommandField| *f) =~= before.push(self.fields@[i as int]));
            }
            i = i + 1;
        }
        assert(self.fields@.subrange(0, self.fields@.len() as int) =~= self.fields@);
        out
    }

    /// The optional fields, in order.
    pub fn optional_fields(&self) -> (r: Vec<&CommandField>)
        ensures
            r@.map_values(|f: &CommandField| *f) == self.fields@.filter(|f: CommandField| !f.required),
    {
        let mut out: Vec<&CommandField> = Vec::new();
        let mut i: usize = 0;
        while i < self.fields.len()
            invariant
                i <= self.fields@.len(),
                out@.map_values(|f: &CommandField| *f) == self.fields@.subrange(0, i as int).filter(
                    |f: CommandField| !f.required,
                ),
            decreases self.fields.len() - i,
        {
            let ghost before = out@.map_values(|f: &CommandField| *f);
            proof {
                reveal_with_fuel(Seq::<_>::filter, 1);
                assert(self.fields@.subrange(0, i + 1).drop_last() =~= self.fields@.subrange(0, i as int));
            }
            if !self.fields[i].required {
                out.push(&self.fields[i]);
                assert(out@.map_values(|f: &CommandField| *f) =~= before.push(self.fields@[i as int]));
            }
            i = i + 1;
        }
        assert(self.fields@.subrange(0, self.fields@.len() as int) =~= self.fields@);
        out
    }
}

} // verus!
