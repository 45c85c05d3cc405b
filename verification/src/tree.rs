//! A snapshot of a project's files and directories: what the scanners and
//! the validation rules read in place of the file system.
//!
//! Paths are `/`-separated strings; an entry's directory is its
//! `path_parent`. The order of the entries is the order in which a walk of
//! the project met them, and every listing below keeps that order.

use vstd::prelude::*;

use crate::path::{components_of, path_parent, path_parent_str, push_path};
use crate::text::{chars_of, starts_with, starts_with_chars, str_eq};
use crate::scanners::slice_scanner::SliceManifest;
use crate::error::VsaError;
use crate::assoc::strs;

verus! {

/// One file or directory of a project.
#[derive(Debug)]
pub struct FsEntry {
    /// The entry's path.
    pub path: String,
    /// Whether the entry is a directory.
    pub is_dir: bool,
    /// A file's text, when it could be read as UTF-8.
    pub content: Option<String>,
}

/// The files and directories of a project, with its slice manifests
/// (`slice.yaml`) as read and parsed, by path.
#[derive(Debug)]
pub struct ProjectTree {
    pub entries: Vec<FsEntry>,
    pub slice_manifests: Vec<(String, Result<SliceManifest, VsaError>)>,
}

/// Position of the first entry whose path is `p`.
pub open spec fn entry_index(es: Seq<FsEntry>, p: Seq<char>) -> Option<int> {
    es.map_values(|e: FsEntry| e.path@).index_of_first(p)
}

/// Whether some entry has path `p`.
pub open spec fn path_exists(es: Seq<FsEntry>, p: Seq<char>) -> bool {
    entry_index(es, p) is Some
}

/// Whether the entry at `p` is a directory.
pub open spec fn path_is_dir(es: Seq<FsEntry>, p: Seq<char>) -> bool {
    match entry_index(es, p) {
        Some(i) => es[i].is_dir,
        None => false,
    }
}

/// Whether the entry at `p` is a file.
pub open spec fn path_is_file(es: Seq<FsEntry>, p: Seq<char>) -> bool {
    match entry_index(es, p) {
        Some(i) => !es[i].is_dir,
        None => false,
    }
}

/// The text of the file at `p`, when there is one and it was read.
pub open spec fn file_text(es: Seq<FsEntry>, p: Seq<char>) -> Option<Seq<char>> {
    match entry_index(es, p) {
        Some(i) => if es[i].is_dir {
            None
        } else {
            match es[i].content {
                Some(c) => Some(c@),
                None => None,
            }
        },
        None => None,
    }
}

/// Whether `p` lies directly in directory `dir`.
pub open spec fn is_child_path(p: Seq<char>, dir: Seq<char>) -> bool {
    path_parent(p) == Some(dir)
}

/// `dir` with one `/` at its end, the prefix of everything below it.
pub open spec fn dir_prefix(dir: Seq<char>) -> Seq<char> {
    if dir.len() > 0 && dir.last() == '/' {
        dir
    } else {
        dir + seq!['/']
    }
}

/// How many levels below `dir` the path `p` lies (1 for a child), if it
/// lies below `dir`.
pub open spec fn depth_below(p: Seq<char>, dir: Seq<char>) -> Option<nat> {
    let pre = dir_prefix(dir);
    if starts_with(p, pre) && components_of(p.subrange(pre.len() as int, p.len() as int)).len()
        > 0 {
        Some(components_of(p.subrange(pre.len() as int, p.len() as int)).len())
    } else {
        None
    }
}

/// Positions of the entries among the first `n` that satisfy `pred`, in
/// order.
pub open spec fn indices_where(n: int, pred: spec_fn(int) -> bool) -> Seq<int>
    decreases n,
{
    if n <= 0 {
        Seq::empty()
    } else if pred(n - 1) {
        indices_where(n - 1, pred).push(n - 1)
    } else {
        indices_where(n - 1, pred)
    }
}

/// Positions of the entries directly in `dir`.
pub open spec fn child_indices(es: Seq<FsEntry>, dir: Seq<char>) -> Seq<int> {
    indices_where(es.len() as int, |i: int| is_child_path(es[i].path@, dir))
}

/// Positions of the entries from 1 to `max_depth` levels below `dir`.
pub open spec fn walk_indices(es: Seq<FsEntry>, dir: Seq<char>, max_depth: nat) -> Seq<int> {
    indices_where(
        es.len() as int,
        |i: int|
            match depth_below(es[i].path@, dir) {
                Some(d) => d <= max_depth,
                None => false,
            },
    )
}

/// Every position in `indices_where(n, pred)` is below `n` and satisfies
/// `pred`, and they increase.
pub proof fn lemma_indices_where(n: int, pred: spec_fn(int) -> bool)
    ensures
        forall|k: int|
            0 <= k < indices_where(n, pred).len() ==> 0 <= #[trigger] indices_where(n, pred)[k]
                < n && pred(indices_where(n, pred)[k]),
        forall|k: int, l: int|
            0 <= k < l < indices_where(n, pred).len() ==> indices_where(n, pred)[k]
                < indices_where(n, pred)[l],
        forall|j: int| 0 <= j < n && pred(j) ==> indices_where(n, pred).contains(j),
    decreases n,
{
    if n > 0 {
        lemma_indices_where(n - 1, pred);
        let prev = indices_where(n - 1, pred);
        let cur = indices_where(n, pred);
        if pred(n - 1) {
            assert(cur == prev.push(n - 1));
            assert forall|k: int| 0 <= k < cur.len() implies 0 <= #[trigger] cur[k] < n && pred(
                cur[k],
            ) by {
                if k < prev.len() {
                    assert(cur[k] == prev[k]);
                }
            }
            assert forall|k: int, l: int| 0 <= k < l < cur.len() implies cur[k] < cur[l] by {
                assert(cur[k] == prev[k]);
                if l < prev.len() {
                    assert(cur[l] == prev[l]);
                }
            }
            assert forall|j: int| 0 <= j < n && pred(j) implies cur.contains(j) by {
                if j < n - 1 {
                    assert(prev.contains(j));
                    let k = choose|k: int| 0 <= k < prev.len() && prev[k] == j;
                    assert(cur[k] == j);
                } else {
                    assert(cur[prev.len() as int] == j);
                }
            }
        } else {
            assert(cur == prev);
        }
    }
}

impl ProjectTree {
    /// A tree holding `entries`, with no slice manifest read.
    pub fn new(entries: Vec<FsEntry>) -> (r: Self)
        ensures
            r.entries@ == entries@,
            r.slice_manifests@.len() == 0,
    {
        ProjectTree { entries, slice_manifests: Vec::new() }
    }

    /// A tree holding `entries` and the slice manifests read from it: for
    /// each path, the manifest or why it could not be read or parsed.
    pub fn with_slice_manifests(
        entries: Vec<FsEntry>,
        slice_manifests: Vec<(String, Result<SliceManifest, VsaError>)>,
    ) -> (r: Self)
        ensures
            r.entries@ == entries@,
            r.slice_manifests@ == slice_manifests@,
    {
        ProjectTree { entries, slice_manifests }
    }

    /// Position of the entry at `p`.
    pub fn find(&self, p: &str) -> (r: Option<usize>)
        ensures
            match r {
                Some(i) => i < self.entries@.len() && entry_index(self.entries@, p@) == Some(
                    i as int,
                ),
                None => entry_index(self.entries@, p@) is None,
            },
    {
        let ghost paths = self.entries@.map_values(|e: FsEntry| e.path@);
        let mut i: usize = 0;
        while i < self.entries.len()
            invariant
                i <= self.entries.len(),
                paths == self.entries@.map_values(|e: FsEntry| e.path@),
                forall|j: int| 0 <= j < i ==> paths[j] != p@,
            decreases self.entries.len() - i,
        {
            if str_eq(self.entries[i].path.as_str(), p) {
                proof {
                    paths.index_of_first_ensures(p@);
                    assert(paths[i as int] == p@);
                }
                return Some(i);
            }
            i = i + 1;
        }
        proof {
            paths.index_of_first_ensures(p@);
            if paths.contains(p@) {
                let k = choose|k: int| 0 <= k < paths.len() && paths[k] == p@;
                assert(paths[k] != p@);
            }
        }
        None
    }

    /// Whether something exists at `p`.
    pub fn has_path(&self, p: &str) -> (r: bool)
        ensures
            r == path_exists(self.entries@, p@),
    {
        self.find(p).is_some()
    }

    /// Whether a directory exists at `p`.
    pub fn is_dir(&self, p: &str) -> (r: bool)
        ensures
            r == path_is_dir(self.entries@, p@),
    {
        match self.find(p) {
            Some(i) => self.entries[i].is_dir,
            None => false,
        }
    }

    /// Whether a file exists at `p`.
    pub fn is_file(&self, p: &str) -> (r: bool)
        ensures
            r == path_is_file(self.entries@, p@),
    {
        match self.find(p) {
            Some(i) => !self.entries[i].is_dir,
            None => false,
        }
    }

    /// The text of the file at `p`, when it was read.
    pub fn read(&self, p: &str) -> (r: Option<String>)
        ensures
            match r {
                Some(s) => file_text(self.entries@, p@) == Some(s@),
                None => file_text(self.entries@, p@) is None,
            },
    {
        match self.find(p) {
            Some(i) => {
                if self.entries[i].is_dir {
                    None
                } else {
                    match &self.entries[i].content {
                        Some(c) => Some(c.clone()),
                        None => None,
                    }
                }
            },
            None => None,
        }
    }

    /// Positions of the entries directly in `dir`, in tree order.
    pub fn children(&self, dir: &str) -> (r: Vec<usize>)
        ensures
            r@.map_values(|i: usize| i as int) == child_indices(self.entries@, dir@),
            forall|k: int| 0 <= k < r@.len() ==> #[trigger] r@[k] < self.entries@.len(),
    {
        let ghost es = self.entries@;
        let ghost pred = |i: int| is_child_path(es[i].path@, dir@);
        let mut out: Vec<usize> = Vec::new();
        let mut i: usize = 0;
        while i < self.entries.len()
            invariant
                i <= self.entries.len(),
                es == self.entries@,
                pred == (|i: int| is_child_path(es[i].path@, dir@)),
                out@.map_values(|i: usize| i as int) == indices_where(i as int, pred),
                forall|k: int| 0 <= k < out@.len() ==> #[trigger] out@[k] < i,
            decreases self.entries.len() - i,
        {
            let is_child = match path_parent_str(self.entries[i].path.as_str()) {
                Some(d) => str_eq(d.as_str(), dir),
                None => false,
            };
            if is_child {
                out.push(i);
                assert(out@.map_values(|i: usize| i as int) =~= indices_where(i as int, pred).push(
                    i as int,
                ));
            }
            i = i + 1;
        }
        out
    }
}

/// Whether entry `i` is a file somewhere below `dir`.
pub open spec fn is_file_below(es: Seq<FsEntry>, dir: Seq<char>, i: int) -> bool {
    depth_below(es[i].path@, dir) is Some && !es[i].is_dir
}

/// The files a recursive walk of `dir` meets (`WalkDir::new(dir)` keeping
/// files): `dir` itself when it is a file, then every file below it, in
/// tree order.
pub open spec fn walk_file_paths(es: Seq<FsEntry>, dir: Seq<char>) -> Seq<Seq<char>> {
    (if path_is_file(es, dir) {
        seq![dir]
    } else {
        Seq::empty()
    }) + indices_where(es.len() as int, |i: int| is_file_below(es, dir, i)).map_values(
        |i: int| es[i].path@,
    )
}

/// How deep below `dir` the path `p` lies, if it does.
pub fn depth_below_exec(p: &str, dir: &str) -> (r: Option<usize>)
    ensures
        match r {
            Some(d) => depth_below(p@, dir@) == Some(d as nat),
            None => depth_below(p@, dir@) is None,
        },
{
    let pc = chars_of(p);
    let mut pre = chars_of(dir);
    if !(pre.len() > 0 && pre[pre.len() - 1] == '/') {
        pre.push('/');
    }
    assert(pre@ == dir_prefix(dir@));
    if !starts_with_chars(pc.as_slice(), pre.as_slice()) {
        return None;
    }
    let rest = crate::text::slice_chars(pc.as_slice(), pre.len(), pc.len());
    let rs = crate::text::string_of(rest.as_slice());
    let comps = crate::path::components_str(rs.as_str());
    if comps.len() > 0 {
        Some(comps.len())
    } else {
        None
    }
}

impl ProjectTree {
    /// The paths of the files a recursive walk of `dir` meets.
    pub fn walk_files(&self, dir: &str) -> (r: Vec<String>)
        ensures
            r@.map_values(|s: String| s@) == walk_file_paths(self.entries@, dir@),
    {
        let ghost es = self.entries@;
        let ghost pred = |i: int| is_file_below(es, dir@, i);
        let mut out: Vec<String> = Vec::new();
        if self.is_file(dir) {
            out.push(crate::text::owned(dir));
        }
        let ghost own = out@.map_values(|s: String| s@);
        assert(own =~= (if path_is_file(es, dir@) {
            seq![dir@]
        } else {
            Seq::empty()
        }));
        let mut i: usize = 0;
        while i < self.entries.len()
            invariant
                i <= es.len(),
                es == self.entries@,
                pred == (|i: int| is_file_below(es, dir@, i)),
                out@.map_values(|s: String| s@) == own + indices_where(i as int, pred).map_values(
                    |i: int| es[i].path@,
                ),
            decreases self.entries.len() - i,
        {
            let e = &self.entries[i];
            let ghost before = out@.map_values(|s: String| s@);
            let below = match depth_below_exec(e.path.as_str(), dir) {
                Some(_) => !e.is_dir,
                None => false,
            };
            if below {
                out.push(e.path.clone());
                assert(indices_where(i + 1, pred) == indices_where(i as int, pred).push(i as int));
                assert(indices_where(i + 1, pred).map_values(|i: int| es[i].path@) =~= indices_where(
                    i as int,
                    pred,
                ).map_values(|i: int| es[i].path@).push(es[i as int].path@));
                assert(out@.map_values(|s: String| s@) =~= before.push(e.path@));
            }
            i = i + 1;
        }
        out
    }
}


/// The directories from `base` down to `q`, each the parent of the next,
/// when `q` is `base` or lies below it through directories of the tree;
/// `fuel` bounds the steps (a tree of `n` entries holds no such chain of
/// more than `n` directories).
pub open spec fn dir_chain(es: Seq<FsEntry>, base: Seq<char>, q: Seq<char>, fuel: nat) -> Option<
    Seq<Seq<char>>,
>
    decreases fuel,
{
    if fuel == 0 || !path_is_dir(es, q) {
        None
    } else if q == base {
        Some(seq![q])
    } else {
        match path_parent(q) {
            Some(p) => match dir_chain(es, base, p, (fuel - 1) as nat) {
                Some(c) => Some(c.push(q)),
                None => None,
            },
            None => None,
        }
    }
}

/// The directories from `base` down to the one that holds the entry at
/// `p`: the directories a recursive walk from `base` passes through to
/// meet `p`.
pub open spec fn holder_chain(es: Seq<FsEntry>, base: Seq<char>, p: Seq<char>) -> Option<
    Seq<Seq<char>>,
> {
    match path_parent(p) {
        Some(q) => dir_chain(es, base, q, es.len()),
        None => None,
    }
}

impl ProjectTree {
    fn dir_chain_exec(&self, base: &str, q: &str, fuel: usize) -> (r: Option<Vec<String>>)
        ensures
            match r {
                Some(v) => dir_chain(self.entries@, base@, q@, fuel as nat) == Some(strs(v@)),
                None => dir_chain(self.entries@, base@, q@, fuel as nat) is None,
            },
        decreases fuel,
    {
        if fuel == 0 || !self.is_dir(q) {
            return None;
        }
        if str_eq(q, base) {
            let mut v: Vec<String> = Vec::new();
            v.push(crate::text::owned(q));
            assert(strs(v@) =~= seq![q@]);
            return Some(v);
        }
        match path_parent_str(q) {
            Some(p) => match self.dir_chain_exec(base, p.as_str(), fuel - 1) {
                Some(c) => {
                    let mut c = c;
                    let ghost before = strs(c@);
                    c.push(crate::text::owned(q));
                    assert(strs(c@) =~= before.push(q@));
                    Some(c)
                },
                None => None,
            },
            None => None,
        }
    }

    /// The directories from `base` down to the one that holds `p`.
    pub fn holder_chain_exec(&self, base: &str, p: &str) -> (r: Option<Vec<String>>)
        ensures
            match r {
                Some(v) => holder_chain(self.entries@, base@, p@) == Some(strs(v@)),
                None => holder_chain(self.entries@, base@, p@) is None,
            },
    {
        match path_parent_str(p) {
            Some(q) => self.dir_chain_exec(base, q.as_str(), self.entries.len()),
            None => None,
        }
    }
}

} // verus!
