//! Projection metadata: read-side components that build read models from
//! events, living within query slices.

use vstd::prelude::*;
use crate::path::{file_name_of, file_name_str, parent_of, parent_str};
use crate::text::{contains, str_contains, str_eq};

verus! {

/// Metadata for a projection (read model builder).
#[derive(Debug, Clone, PartialEq)]
pub struct Projection {
    /// Name of the projection (e.g. "WorkflowListProjection").
    pub name: String,
    /// File path relative to the project root.
    pub file_path: String,
    /// Events this projection subscribes to.
    pub subscribed_events: Vec<String>,
    /// Read model type this projection builds.
    pub read_model: Option<String>,
    /// Line count.
    pub line_count: usize,
}

/// The slice a projection at path `p` lives in: the name of its parent directory.
pub open spec fn slice_of_path(p: Seq<char>) -> Option<Seq<char>> {
    match parent_of(p) {
        Some(par) => file_name_of(par),
        None => None,
    }
}

impl Projection {
    /// Whether this projection subscribes to `event_name`: some subscribed
    /// event equals it or contains it.
    pub fn subscribes_to(&self, event_name: &str) -> (r: bool)
        ensures
            r == exists|i: int|
                0 <= i < self.subscribed_events@.len() && (#[trigger] self.subscribed_events@[i]@
                    == event_name@ || contains(self.subscribed_events@[i]@, event_name@)),
    {
        let mut i: usize = 0;
        while i < self.subscribed_events.len()
            invariant
                i <= self.subscribed_events@.len(),
                forall|k: int|
                    0 <= k < i ==> !(self.subscribed_events@[k]@ == event_name@ || contains(
                        self.subscribed_events@[k]@,
                        event_name@,
                    )),
            decreases self.subscribed_events.len() - i,
        {
            let e = self.subscribed_events[i].as_str();
            if str_eq(e, event_name) || str_contains(e, event_name) {
                return true;
            }
            i = i + 1;
        }
        false
    }

    /// Whether this projection has any event subscription.
    pub fn has_subscriptions(&self) -> (r: bool)
        ensures
            r == (self.subscribed_events@.len() > 0),
    {
        self.subscribed_events.len() > 0
    }

    /// The slice name inferred from the file path (the parent directory's name).
    pub fn infer_slice_name(&self) -> (r: Option<String>)
        ensures
            r matches Some(s) ==> slice_of_path(self.file_path@) == Some(s@),
            r is None ==> slice_of_path(self.file_path@) is None,
    {
        match parent_str(self.file_path.as_str()) {
            Some(p) => file_name_str(p.as_str()),
            None => None,
        }
    }

    /// Whether this projection builds a list read model.
    pub fn is_list_projection(&self) -> (r: bool)
        ensures
            r == (contains(self.name@, "List"@) || contains(self.name@, "All"@)),
    {
        str_contains(self.name.as_str(), "List") || str_contains(self.name.as_str(), "All")
    }

    /// Whether this projection builds a single-item read model.
    pub fn is_detail_projection(&self) -> (r: bool)
        ensures
            r == (contains(self.name@, "Detail"@) || contains(self.name@, "ById"@) || contains(
                self.name@,
                "Single"@,
            )),
    {
        str_contains(self.name.as_str(), "Detail") || str_contains(self.name.as_str(), "ById")
            || str_contains(self.name.as_str(), "Single")
    }
}

} // verus!
