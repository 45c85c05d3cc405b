//! Value object metadata.

use vstd::prelude::*;
use crate::text::str_eq;

verus! {

/// Metadata for a value object.
#[derive(Debug, Clone, PartialEq)]
pub struct ValueObject {
    /// Name of the value object.
    pub name: String,
    /// File path.
    pub file_path: String,
    /// Fields of the value object (where they could be parsed).
    pub fields: Vec<ValueObjectField>,
    /// Whether this value object is immutable (frozen, readonly, ...).
    pub is_immutable: bool,
    /// Line count.
    pub line_count: usize,
}

/// A field within a value object.
#[derive(Debug, Clone, PartialEq)]
pub struct ValueObjectField {
    /// Field name.
    pub name: String,
    /// Field type (where it could be parsed).
    pub field_type: Option<String>,
    /// Whether the field is optional.
    pub is_optional: bool,
}

impl ValueObject {
    /// Check if the value object has a field with the given name.
    pub fn has_field(&self, name: &str) -> (r: bool)
        ensures
            r == exists|i: int|
                0 <= i < self.fields@.len() && #[trigger] self.fields@[i].name@ == name@,
    {
        self.get_field(name).is_some()
    }

    /// The first field with the given name.
    pub fn get_field(&self, name: &str) -> (r: Option<&ValueObjectField>)
        ensures
            r matches Some(f) ==> exists|i: int|
                0 <= i < self.fields@.len() && self.fields@[i] == *f && f.name@ == name@
                    && forall|k: int| 0 <= k < i ==> #[trigger] self.fields@[k].name@ != name@,
            r is None ==> forall|i: int|
                0 <= i < self.fields@.len() ==> #[trigger] self.fields@[i].name@ != name@,
    {
        let mut i: usize = 0;
        while i < self.fields.len()
            invariant
                i <= self.fields@.len(),
                forall|k: int| 0 <= k < i ==> self.fields@[k].name@ != name@,
            decreases self.fields.len() - i,
        {
            if str_eq(self.fields[i].name.as_str(), name) {
                return Some(&self.fields[i]);
            }
            i = i + 1;
        }
        None
    }

    /// The required (non-optional) fields, in order.
    pub fn required_fields(&self) -> (r: Vec<&ValueObjectField>)
        ensures
            r@.map_values(|f: &ValueObjectField| *f) == self.fields@.filter(
                |f: ValueObjectField| !f.is_optional,
            ),
    {
        let mut out: Vec<&ValueObjectField> = Vec::new();
        let mut i: usize = 0;
        while i < self.fields.len()
            invariant
                i <= self.fields@.len(),
                out@.map_values(|f: &ValueObjectField| *f) == self.fields@.subrange(
                    0,
                    i as int,
                ).filter(|f: ValueObjectField| !f.is_optional),
            decreases self.fields.len() - i,
        {
            let ghost before = out@.map_values(|f: &ValueObjectField| *f);
            proof {
                reveal_with_fuel(Seq::<_>::filter, 1);
                assert(self.fields@.subrange(0, i + 1).drop_last() =~= self.fields@.subrange(0, i as int));
            }
            if !self.fields[i].is_optional {
                out.push(&self.fields[i]);
                assert(out@.map_values(|f: &ValueObjectField| *f) =~= before.push(
                    self.fields@[i as int],
                ));
            }
            i = i + 1;
        }
        assert(self.fields@.subrange(0, self.fields@.len() as int) =~= self.fields@);
        out
    }

    /// The optional fields, in order.
    pub fn optional_fields(&self) -> (r: Vec<&ValueObjectField>)
        ensures
            r@.map_values(|f: &ValueObjectField| *f) == self.fields@.filter(
                |f: ValueObjectField| f.is_optional,
            ),
    {
        let mut out: Vec<&ValueObjectField> = Vec::new();
        let mut i: usize = 0;
        while i < self.fields.len()
            invariant
                i <= self.fields@.len(),
                out@.map_values(|f: &ValueObjectField| *f) == self.fields@.subrange(
                    0,
                    i as int,
                ).filter(|f: ValueObjectField| f.is_optional),
            decreases self.fields.len() - i,
        {
            let ghost before = out@.map_values(|f: &ValueObjectField| *f);
            proof {
                reveal_with_fuel(Seq::<_>::filter, 1);
                assert(self.fields@.subrange(0, i + 1).drop_last() =~= self.fields@.subrange(0, i as int));
            }
            if self.fields[i].is_optional {
                out.push(&self.fields[i]);
                assert(out@.map_values(|f: &ValueObjectField| *f) =~= before.push(
                    self.fields@[i as int],
                ));
            }
            i = i + 1;
        }
        assert(self.fields@.subrange(0, self.fields@.len() as int) =~= self.fields@);
        out
    }
}

} // verus!
