//! The recursive search the command and query scanners share: every file
//! below a directory, through directories that are not hidden, whose name
//! without its source extension ends in a given suffix.

use vstd::prelude::*;

use crate::assoc::strs;
use crate::path::{file_name_of, file_name_str};
use crate::text::{ends_with, starts_with, str_ends_with, str_starts_with};
use crate::tree::{FsEntry, ProjectTree, holder_chain, indices_where};
use super::event_scanner::strip_event_ext;

verus! {

/// Whether a recursive search enters directory `x`: it has a name that
/// starts with no `.`.
pub open spec fn visible_dir(x: Seq<char>) -> bool {
    match file_name_of(x) {
        Some(n) => !starts_with(n, "."@),
        None => false,
    }
}

/// Whether the search enters every directory of `c` after the first.
pub open spec fn visible_below(c: Seq<Seq<char>>) -> bool {
    forall|j: int| 1 <= j < c.len() ==> visible_dir(#[trigger] c[j])
}

/// Whether entry `i` is a file the search from `base` meets whose name,
/// without `.ts`, `.py` or `.rs`, ends in `suffix`.
pub open spec fn is_suffixed_file(es: Seq<FsEntry>, base: Seq<char>, suffix: Seq<char>, i: int) -> bool {
    let p = es[i].path@;
    &&& !es[i].is_dir
    &&& file_name_of(p) matches Some(n) && ends_with(strip_event_ext(n), suffix)
    &&& holder_chain(es, base, p) matches Some(c) && visible_below(c)
}

/// Positions of those files, in tree order.
pub open spec fn suffixed_files(es: Seq<FsEntry>, base: Seq<char>, suffix: Seq<char>) -> Seq<int> {
    indices_where(es.len() as int, |i: int| is_suffixed_file(es, base, suffix, i))
}

fn is_suffixed_file_exec(tree: &ProjectTree, base: &str, suffix: &str, i: usize) -> (r: bool)
    requires
        i < tree.entries@.len(),
    ensures
        r == is_suffixed_file(tree.entries@, base@, suffix@, i as int),
{
    let e = &tree.entries[i];
    if e.is_dir {
        return false;
    }
    let named = match file_name_str(e.path.as_str()) {
        Some(n) => {
            let stem = super::event_scanner::strip_event_ext_str(n.as_str());
            str_ends_with(stem.as_str(), suffix)
        },
        None => false,
    };
    if !named {
        return false;
    }
    match tree.holder_chain_exec(base, e.path.as_str()) {
        Some(c) => {
            let ghost cs = strs(c@);
            let mut j: usize = 1;
            while j < c.len()
                invariant
                    1 <= j,
                    cs == strs(c@),
                    i < tree.entries@.len(),
                    holder_chain(tree.entries@, base@, tree.entries@[i as int].path@) == Some(cs),
                    forall|m: int| 1 <= m < j && m < cs.len() ==> visible_dir(#[trigger] cs[m]),
                decreases c.len() - j,
            {
                assert(cs[j as int] == c@[j as int]@);
                let visible = match file_name_str(c[j].as_str()) {
                    Some(n) => !str_starts_with(n.as_str(), "."),
                    None => false,
                };
                if !visible {
                    assert(!visible_dir(cs[j as int]));
                    return false;
                }
                j = j + 1;
            }
            true
        },
        None => false,
    }
}

/// The positions of the files below `base` whose names end in `suffix`.
pub fn suffixed_files_exec(tree: &ProjectTree, base: &str, suffix: &str) -> (r: Vec<usize>)
    ensures
        r@.map_values(|i: usize| i as int) == suffixed_files(tree.entries@, base@, suffix@),
        forall|k: int| 0 <= k < r@.len() ==> #[trigger] r@[k] < tree.entries@.len(),
{
    let ghost es = tree.entries@;
    let ghost pred = |i: int| is_suffixed_file(es, base@, suffix@, i);
    let mut out: Vec<usize> = Vec::new();
    let mut i: usize = 0;
    while i < tree.entries.len()
        invariant
            i <= es.len(),
            es == tree.entries@,
            pred == (|i: int| is_suffixed_file(es, base@, suffix@, i)),
            out@.map_values(|i: usize| i as int) == indices_where(i as int, pred),
            forall|k: int| 0 <= k < out@.len() ==> #[trigger] out@[k] < i,
        decreases tree.entries.len() - i,
    {
        if is_suffixed_file_exec(tree, base, suffix, i) {
            out.push(i);
            assert(out@.map_values(|i: usize| i as int) =~= indices_where(i as int, pred).push(
                i as int,
            ));
        }
        i = i + 1;
    }
    out
}

} // verus!
