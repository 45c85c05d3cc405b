//! Query metadata.

use vstd::prelude::*;
use crate::text::{contains, str_contains, str_eq};

verus! {

/// Metadata for a domain query.
#[derive(Debug, Clone, PartialEq)]
pub struct Query {
    /// Name of the query (e.g. "GetTaskByIdQuery").
    pub name: String,
    /// File path relative to the project root.
    pub file_path: String,
    /// Query fields.
    pub fields: Vec<QueryField>,
}

/// Metadata for a query field.
#[derive(Debug, Clone, PartialEq)]
pub struct QueryField {
    /// Field name.
    pub name: String,
    /// Field type.
    pub field_type: String,
    /// Whether the field is required.
    pub required: bool,
    /// Line number in the file.
    pub line_number: usize,
}

impl Query {
    /// Check if this query has a field with the given name.
    pub fn has_field(&self, field_name: &str) -> (r: bool)
        ensures
            r == exists|i: int|
                0 <= i < self.fields@.len() && #[trigger] self.fields@[i].name@ == field_name@,
    {
        let mut i: usize = 0;
        while i < self.fields.len()
            invariant
                i <= self.fields@.len(),
                forall|k: int| 0 <= k < i ==> self.fields@[k].name@ != field_name@,
            decreases self.fields.len() - i,
        {
            if str_eq(self.fields[i].name.as_str(), field_name) {
                return true;
            }
            i = i + 1;
        }
        false
    }

    /// The required fields, in order.
    pub fn required_fields(&self) -> (r: Vec<&QueryField>)
        ensures
            r@.map_values(|f: &QueryField| *f) == self.fields@.filter(|f: QueryField| f.required),
    {
        let mut out: Vec<&QueryField> = Vec::new();
        let mut i: usize = 0;
        while i < self.fields.len()
            invariant
                i <= self.fields@.len(),
                out@.map_values(|f: &QueryField| *f) == self.fields@.subrange(0, i as int).filter(
                    |f: QueryField| f.required,
                ),
            decreases self.fields.len() - i,
        {
            let ghost before = out@.map_values(|f: &QueryField| *f);
            proof {
                reveal_with_fuel(Seq::<_>::filter, 1);
                assert(self.fields@.subrange(0, i + 1).drop_last() =~= self.fields@.subrange(0, i as int));
            }
            if self.fields[i].required {
                out.push(&self.fields[i]);
                assert(out@.map_values(|f: &QueryField| *f) =~= before.push(self.fields@[i as int]));
            }
            i = i + 1;
        }
        assert(self.fields@.subrange(0, self.fields@.len() as int) =~= self.fields@);
        out
    }

    /// The optional fields, in order.
    pub fn optional_fields(&self) -> (r: Vec<&QueryField>)
        ensures
            r@.map_values(|f: &QueryField| *f) == self.fields@.filter(|f: QueryField| !f.required),
    {
        let mut out: Vec<&QueryField> = Vec::new();
        let mut i: usize = 0;
        while i < self.fields.len()
            invariant
                i <= self.fields@.len(),
                out@.map_values(|f: &QueryField| *f) == self.fields@.subrange(0, i as int).filter(
                    |f: QueryField| !f.required,
                ),
            decreases self.fields.len() - i,
        {
            let ghost before = out@.map_values(|f: &QueryField| *f);
            proof {
                reveal_with_fuel(Seq::<_>::filter, 1);
                assert(self.fields@.subrange(0, i + 1).drop_last() =~= self.fields@.subrange(0, i as int));
            }
            if !self.fields[i].required {
                out.push(&self.fields[i]);
                assert(out@.map_values(|f: &QueryField| *f) =~= before.push(self.fields@[i as int]));
            }
            i = i + 1;
        }
        assert(self.fields@.subrange(0, self.fields@.len() as int) =~= self.fields@);
        out
    }

    /// Whether this is a list query (its name mentions `List` or `GetAll`).
    pub fn is_list_query(&self) -> (r: bool)
        ensures
            r == (contains(self.name@, "List"@) || contains(self.name@, "GetAll"@)),
    {
        str_contains(self.name.as_str(), "List") || str_contains(self.name.as_str(), "GetAll")
    }

    /// Whether this is a get-by-id query.
    pub fn is_get_by_id_query(&self) -> (r: bool)
        ensures
            r == (contains(self.name@, "GetById"@) || contains(self.name@, "GetByAggregateId"@)
                || contains(self.name@, "GetBy"@) || contains(self.name@, "ById"@)),
    {
        str_contains(self.name.as_str(), "GetById") || str_contains(
            self.name.as_str(),
            "GetByAggregateId",
        ) || str_contains(self.name.as_str(), "GetBy") || str_contains(self.name.as_str(), "ById")
    }
}

} // verus!
