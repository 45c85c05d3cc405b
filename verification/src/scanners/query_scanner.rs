//! The query scanner: finds query files (`*Query.*`) below the root.

use vstd::prelude::*;

use crate::config::QueryConfig;
use crate::domain::Query;
use crate::error::VsaError;
use crate::path::file_name_str;
use crate::text::{ends_with, owned, str_ends_with};
use crate::tree::{FsEntry, ProjectTree};
use crate::validation::file_name_or_empty;
use super::event_scanner::{strip_event_ext, strip_event_ext_str};
use super::file_walk::{suffixed_files, suffixed_files_exec};

verus! {

/// Scanner for finding queries.
pub struct QueryScanner<'a> {
    config: &'a QueryConfig,
    root: &'a str,
}

/// Whether `q` is the query the file at `p` describes.
pub open spec fn is_query_of(q: Query, p: Seq<char>) -> bool {
    &&& q.name@ == strip_event_ext(file_name_or_empty(p))
    &&& q.file_path@ == p
    &&& q.fields@.len() == 0
}

impl<'a> QueryScanner<'a> {
    /// A scanner of the queries below `root`.
    pub fn new(config: &'a QueryConfig, root: &'a str) -> (r: Self)
        ensures
            r.spec_root() == root@,
    {
        QueryScanner { config, root }
    }

    /// The root the scanner searches.
    pub closed spec fn spec_root(&self) -> Seq<char> {
        self.root@
    }

    /// Whether a file name is a query's.
    pub fn matches_pattern(&self, file_name: &str) -> (r: bool)
        ensures
            r == ends_with(strip_event_ext(file_name@), "Query"@),
    {
        let n = strip_event_ext_str(file_name);
        str_ends_with(n.as_str(), "Query")
    }

    /// The name of a query: its file name without the extension.
    pub fn extract_query_name(&self, file_name: &str) -> (r: Result<String, VsaError>)
        ensures
            r matches Ok(n) && n@ == strip_event_ext(file_name@),
    {
        Ok(strip_event_ext_str(file_name))
    }

    /// The query the file at `path`, named `file_name`, describes.
    pub fn parse_query(&self, path: &str, file_name: &str) -> (r: Result<Option<Query>, VsaError>)
        requires
            file_name@ == file_name_or_empty(path@),
        ensures
            r matches Ok(Some(q)) && is_query_of(q, path@),
    {
        let name = match self.extract_query_name(file_name) {
            Ok(n) => n,
            Err(e) => return Err(e),
        };
        Ok(Some(Query { name, file_path: owned(path), fields: Vec::new() }))
    }

    /// Scan for queries: each query file below the root, through
    /// directories that are not hidden, in tree order.
    pub fn scan(&self, tree: &ProjectTree) -> (r: Result<Vec<Query>, VsaError>)
        ensures
            r matches Ok(v) && v@.len() == suffixed_files(tree.entries@, self.spec_root(), "Query"@).len()
                && forall|k: int|
                0 <= k < v@.len() ==> is_query_of(
                    #[trigger] v@[k],
                    tree.entries@[suffixed_files(tree.entries@, self.spec_root(), "Query"@)[k]].path@,
                ),
    {
        let ghost es = tree.entries@;
        let idx = suffixed_files_exec(tree, self.root, "Query");
        let ghost iv = idx@.map_values(|i: usize| i as int);
        let mut out: Vec<Query> = Vec::new();
        let mut k: usize = 0;
        while k < idx.len()
            invariant
                k <= idx@.len(),
                es == tree.entries@,
                iv == idx@.map_values(|i: usize| i as int),
                iv == suffixed_files(es, self.root@, "Query"@),
                forall|m: int| 0 <= m < idx@.len() ==> #[trigger] idx@[m] < es.len(),
                out@.len() == k,
                forall|m: int| 0 <= m < k ==> is_query_of(#[trigger] out@[m], es[iv[m]].path@),
            decreases idx.len() - k,
        {
            let i = idx[k];
            assert(iv[k as int] == i as int);
            let e = &tree.entries[i];
            let name = match file_name_str(e.path.as_str()) {
                Some(n) => n,
                None => String::new(),
            };
            match self.parse_query(e.path.as_str(), name.as_str()) {
                Ok(Some(q)) => out.push(q),
                _ => {},
            }
            k = k + 1;
        }
        Ok(out)
    }
}

} // verus!
