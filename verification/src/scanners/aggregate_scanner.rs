//! The aggregate scanner: finds aggregates in `aggregate_*` folders, with
//! the entities and value objects beside their root, and loose
//! `*Aggregate.*` files elsewhere.

use vstd::prelude::*;

use crate::assoc::strs;
use crate::config::AggregateConfig;
use crate::domain::{Aggregate, AggregateEntity, AggregateValueObject};
use crate::error::VsaError;
use crate::path::{file_name_of, file_name_str, path_parent_str};
use crate::text::{
    before_first, before_first_str, chars_of, contains, ends_with, lines, lines_of, owned,
    slice_chars, starts_with, str_contains, str_ends_with, str_eq, str_starts_with, string_of,
    trim, trim_chars,
};
use crate::tree::{FsEntry, ProjectTree, holder_chain, indices_where, is_child_path};
use crate::validation::file_name_or_empty;
use super::projection_scanner::invalid_utf8_message;

verus! {

/// Scanner for finding aggregates.
pub struct AggregateScanner<'a> {
    config: &'a AggregateConfig,
    root: &'a str,
}

// ============================================================================
// File names and contents
// ============================================================================

/// A file name without `.ts`, `.tsx`, `.py`, `.rs`, `.js` or `.jsx`.
pub open spec fn strip_aggregate_ext(f: Seq<char>) -> Seq<char> {
    if ends_with(f, ".ts"@) {
        f.subrange(0, f.len() - 3)
    } else if ends_with(f, ".tsx"@) {
        f.subrange(0, f.len() - 4)
    } else if ends_with(f, ".py"@) {
        f.subrange(0, f.len() - 3)
    } else if ends_with(f, ".rs"@) {
        f.subrange(0, f.len() - 3)
    } else if ends_with(f, ".js"@) {
        f.subrange(0, f.len() - 3)
    } else if ends_with(f, ".jsx"@) {
        f.subrange(0, f.len() - 4)
    } else {
        f
    }
}

/// Whether a file name is an aggregate root's: without its extension it
/// ends in `Aggregate`.
pub open spec fn is_aggregate_file_name(f: Seq<char>) -> bool {
    ends_with(strip_aggregate_ext(f), "Aggregate"@)
}

/// Code files: `.ts`, `.py`, `.rs`, `.tsx`, `.js`.
pub open spec fn is_code_file_name(f: Seq<char>) -> bool {
    ends_with(f, ".ts"@) || ends_with(f, ".py"@) || ends_with(f, ".rs"@) || ends_with(f, ".tsx"@)
        || ends_with(f, ".js"@)
}

/// Test files, by name.
pub open spec fn is_test_file_name(f: Seq<char>) -> bool {
    contains(f, ".test."@) || contains(f, "_test."@) || starts_with(f, "test_"@) || contains(
        f,
        ".spec."@,
    )
}

/// Whether a text describes an entity: an identity field, or an entity
/// class that is no value object.
pub open spec fn is_entity_text(c: Seq<char>) -> bool {
    ||| contains(c, "_id:"@)
    ||| contains(c, "_id ="@)
    ||| contains(c, "id: "@)
    ||| contains(c, "id ="@)
    ||| (contains(c, "Entity"@) && !contains(c, "ValueObject"@))
}

/// Whether a text describes a value object: frozen, readonly, a typical
/// value object name, or a dataclass without identity.
pub open spec fn is_value_object_text(c: Seq<char>) -> bool {
    ||| contains(c, "frozen=True"@)
    ||| contains(c, "@frozen"@)
    ||| contains(c, "readonly "@)
    ||| contains(c, "Policy"@)
    ||| contains(c, "Status"@)
    ||| contains(c, "Result"@)
    ||| contains(c, "Specification"@)
    ||| contains(c, "Money"@)
    ||| contains(c, "Address"@)
    ||| (contains(c, "@dataclass"@) && !contains(c, "_id:"@) && !contains(c, "_id ="@))
}

/// Whether a value object's text makes it immutable.
pub open spec fn is_immutable_text(c: Seq<char>) -> bool {
    ||| contains(c, "frozen=True"@)
    ||| contains(c, "@frozen"@)
    ||| contains(c, "readonly "@)
    ||| contains(c, "const "@)
    ||| contains(c, "immutable"@)
    ||| contains(c, "Immutable"@)
}

/// `s` without every `prefix` at its start (`str::trim_start_matches`).
pub open spec fn trim_start_all(s: Seq<char>, prefix: Seq<char>) -> Seq<char>
    decreases s.len(),
{
    if prefix.len() > 0 && starts_with(s, prefix) {
        trim_start_all(s.subrange(prefix.len() as int, s.len() as int), prefix)
    } else {
        s
    }
}

/// The identity field a trimmed line declares, if any: a Python
/// `x_id: type`, or a TypeScript `[readonly ]xId: type` or `x_id: type`.
pub open spec fn identity_in_line(line: Seq<char>) -> Option<Seq<char>> {
    let head = trim(before_first(line, ':'));
    let ts_head = trim_start_all(head, "readonly "@);
    if contains(line, "_id:"@) && ends_with(head, "_id"@) && !starts_with(head, "#"@) {
        Some(head)
    } else if (contains(line, "Id:"@) || contains(line, "_id:"@)) && (ends_with(ts_head, "Id"@)
        || ends_with(ts_head, "_id"@)) && !starts_with(ts_head, "//"@) {
        Some(ts_head)
    } else {
        None
    }
}

/// The first identity field among the lines `ls[i..]`.
pub open spec fn first_identity(ls: Seq<Seq<char>>, i: int) -> Option<Seq<char>>
    decreases ls.len() - i,
{
    if i < 0 || i >= ls.len() {
        None
    } else {
        match identity_in_line(trim(ls[i])) {
            Some(f) => Some(f),
            None => first_identity(ls, i + 1),
        }
    }
}

/// The identity field a text declares: the first line that declares one.
pub open spec fn identity_field_of(c: Seq<char>) -> Option<Seq<char>> {
    first_identity(lines(c), 0)
}

fn strip_aggregate_ext_str(f: &str) -> (r: String)
    ensures
        r@ == strip_aggregate_ext(f@),
{
    let fc = chars_of(f);
    let n = fc.len();
    proof {
        reveal_strlit(".ts");
        reveal_strlit(".tsx");
        reveal_strlit(".py");
        reveal_strlit(".rs");
        reveal_strlit(".js");
        reveal_strlit(".jsx");
    }
    let cut: usize = if str_ends_with(f, ".ts") {
        3
    } else if str_ends_with(f, ".tsx") {
        4
    } else if str_ends_with(f, ".py") {
        3
    } else if str_ends_with(f, ".rs") {
        3
    } else if str_ends_with(f, ".js") {
        3
    } else if str_ends_with(f, ".jsx") {
        4
    } else {
        0
    };
    let v = slice_chars(fc.as_slice(), 0, n - cut);
    assert(fc@.subrange(0, fc@.len() as int) =~= fc@);
    string_of(v.as_slice())
}

fn trim_start_all_str(s: &str, prefix: &str) -> (r: String)
    ensures
        r@ == trim_start_all(s@, prefix@),
{
    let mut cs = chars_of(s);
    let pc = chars_of(prefix);
    while pc.len() > 0 && crate::text::starts_with_chars(cs.as_slice(), pc.as_slice())
        invariant
            pc@ == prefix@,
            trim_start_all(cs@, prefix@) == trim_start_all(s@, prefix@),
        decreases cs.len(),
    {
        cs = slice_chars(cs.as_slice(), pc.len(), cs.len());
    }
    string_of(cs.as_slice())
}

fn identity_in_line_exec(line: &str) -> (r: Option<String>)
    ensures
        match r {
            Some(f) => identity_in_line(line@) == Some(f@),
            None => identity_in_line(line@) is None,
        },
{
    let first = before_first_str(line, ':');
    let fc = chars_of(first.as_str());
    let head = string_of(trim_chars(fc.as_slice()).as_slice());
    let ts_head = trim_start_all_str(head.as_str(), "readonly ");
    if str_contains(line, "_id:") && str_ends_with(head.as_str(), "_id") && !str_starts_with(
        head.as_str(),
        "#",
    ) {
        return Some(head);
    }
    if (str_contains(line, "Id:") || str_contains(line, "_id:")) && (str_ends_with(
        ts_head.as_str(),
        "Id",
    ) || str_ends_with(ts_head.as_str(), "_id")) && !str_starts_with(ts_head.as_str(), "//") {
        return Some(ts_head);
    }
    None
}

// ============================================================================
// What the scan finds
// ============================================================================

/// Whether the scan goes on through directory `x`: it has a name that
/// starts with neither `.` nor `aggregate_`.
pub open spec fn aggregate_scan_enters(x: Seq<char>) -> bool {
    match file_name_of(x) {
        Some(n) => !starts_with(n, "."@) && !starts_with(n, "aggregate_"@),
        None => false,
    }
}

/// Whether the scan goes on through every directory of `c` after the
/// first.
pub open spec fn aggregate_scan_enters_below(c: Seq<Seq<char>>) -> bool {
    forall|j: int| 1 <= j < c.len() ==> aggregate_scan_enters(#[trigger] c[j])
}

/// Whether the scan from `root` meets the entry at `p`.
pub open spec fn aggregate_scan_meets(es: Seq<FsEntry>, root: Seq<char>, p: Seq<char>) -> bool {
    holder_chain(es, root, p) matches Some(c) && aggregate_scan_enters_below(c)
}

/// Whether entry `i` is an `aggregate_*` folder the scan meets.
pub open spec fn is_aggregate_folder_entry(es: Seq<FsEntry>, root: Seq<char>, i: int) -> bool {
    &&& es[i].is_dir
    &&& file_name_of(es[i].path@) matches Some(n) && starts_with(n, "aggregate_"@)
    &&& aggregate_scan_meets(es, root, es[i].path@)
}

/// Whether entry `i` is a loose aggregate file the scan meets.
pub open spec fn is_loose_aggregate_entry(es: Seq<FsEntry>, root: Seq<char>, i: int) -> bool {
    &&& !es[i].is_dir
    &&& file_name_of(es[i].path@) matches Some(n) && is_aggregate_file_name(n)
    &&& aggregate_scan_meets(es, root, es[i].path@)
}

/// Whether entry `i` is a file of folder `d` that the folder scan reads:
/// a code file that is no test.
pub open spec fn is_folder_member(es: Seq<FsEntry>, d: Seq<char>, i: int) -> bool {
    &&& is_child_path(es[i].path@, d)
    &&& !es[i].is_dir
    &&& file_name_of(es[i].path@) matches Some(n) && is_code_file_name(n) && !is_test_file_name(n)
}

/// The files of folder `d` that the folder scan reads, in tree order.
pub open spec fn folder_members(es: Seq<FsEntry>, d: Seq<char>) -> Seq<int> {
    indices_where(es.len() as int, |i: int| is_folder_member(es, d, i))
}

/// The text of entry `i`, empty when it could not be read.
pub open spec fn entry_text(es: Seq<FsEntry>, i: int) -> Seq<char> {
    match es[i].content {
        Some(c) => c@,
        None => Seq::empty(),
    }
}

/// Whether entry `i` is an aggregate root file.
pub open spec fn is_root_entry(es: Seq<FsEntry>, i: int) -> bool {
    is_aggregate_file_name(file_name_or_empty(es[i].path@))
}

/// The last root among the entries `ms`.
pub open spec fn last_root(es: Seq<FsEntry>, ms: Seq<int>) -> Option<int>
    decreases ms.len(),
{
    if ms.len() == 0 {
        None
    } else if is_root_entry(es, ms.last()) {
        Some(ms.last())
    } else {
        last_root(es, ms.drop_last())
    }
}

/// The root of folder `d`: the last root file among its members.
pub open spec fn folder_root(es: Seq<FsEntry>, d: Seq<char>) -> Option<int> {
    last_root(es, folder_members(es, d))
}

/// Whether member `i` is an entity.
pub open spec fn is_entity_member(es: Seq<FsEntry>, i: int) -> bool {
    !is_root_entry(es, i) && is_entity_text(entry_text(es, i))
}

/// Whether member `i` is a value object.
pub open spec fn is_value_object_member(es: Seq<FsEntry>, i: int) -> bool {
    !is_root_entry(es, i) && !is_entity_text(entry_text(es, i)) && is_value_object_text(
        entry_text(es, i),
    )
}

/// Whether `e` is the entity entry `i` describes.
pub open spec fn is_entity_of(e: AggregateEntity, es: Seq<FsEntry>, i: int) -> bool {
    &&& e.name@ == strip_aggregate_ext(file_name_or_empty(es[i].path@))
    &&& match e.identity_field {
        Some(f) => identity_field_of(entry_text(es, i)) == Some(f@),
        None => identity_field_of(entry_text(es, i)) is None,
    }
    &&& e.file_path@ == es[i].path@
    &&& e.line_count == lines(entry_text(es, i)).len()
}

/// Whether `v` is the value object entry `i` describes.
pub open spec fn is_value_object_of(v: AggregateValueObject, es: Seq<FsEntry>, i: int) -> bool {
    &&& v.name@ == strip_aggregate_ext(file_name_or_empty(es[i].path@))
    &&& v.file_path@ == es[i].path@
    &&& v.is_immutable == is_immutable_text(entry_text(es, i))
    &&& v.line_count == lines(entry_text(es, i)).len()
}

/// Whether every member of folder `d` could be read.
pub open spec fn folder_readable(es: Seq<FsEntry>, d: Seq<char>) -> bool {
    forall|k: int|
        0 <= k < folder_members(es, d).len() ==> (#[trigger] es[folder_members(es, d)[k]]).content is Some
}

/// Whether `a` is the aggregate of folder `d`, whose root is entry `r`.
pub open spec fn is_folder_aggregate(a: Aggregate, es: Seq<FsEntry>, d: Seq<char>, r: int) -> bool {
    let ms = folder_members(es, d);
    let ents = ms.filter(|i: int| is_entity_member(es, i));
    let vos = ms.filter(|i: int| is_value_object_member(es, i));
    &&& a.name@ == strip_aggregate_ext(file_name_or_empty(es[r].path@))
    &&& a.context is None
    &&& a.file_path@ == es[r].path@
    &&& a.line_count == lines(entry_text(es, r)).len()
    &&& a.command_handlers@.len() == 0
    &&& a.event_handlers@.len() == 0
    &&& a.entities@.len() == ents.len()
    &&& (forall|k: int| 0 <= k < ents.len() ==> is_entity_of(#[trigger] a.entities@[k], es, ents[k]))
    &&& a.value_objects@.len() == vos.len()
    &&& (forall|k: int|
        0 <= k < vos.len() ==> is_value_object_of(#[trigger] a.value_objects@[k], es, vos[k]))
    &&& match a.folder_name {
        Some(n) => n@ == file_name_or_empty(d),
        None => false,
    }
}

/// Whether `a` is the loose aggregate of file entry `i`.
pub open spec fn is_loose_aggregate(a: Aggregate, es: Seq<FsEntry>, i: int) -> bool {
    &&& a.name@ == strip_aggregate_ext(file_name_or_empty(es[i].path@))
    &&& a.context is None
    &&& a.file_path@ == es[i].path@
    &&& a.line_count == lines(entry_text(es, i)).len()
    &&& a.command_handlers@.len() == 0
    &&& a.event_handlers@.len() == 0
    &&& a.entities@.len() == 0
    &&& a.value_objects@.len() == 0
    &&& a.folder_name is None
}

/// Whether entry `i` gives an aggregate: a loose aggregate file, or an
/// `aggregate_*` folder with a root.
pub open spec fn is_aggregate_source(es: Seq<FsEntry>, root: Seq<char>, i: int) -> bool {
    ||| is_loose_aggregate_entry(es, root, i)
    ||| (is_aggregate_folder_entry(es, root, i) && folder_root(es, es[i].path@) is Some)
}

/// The entries that give the aggregates, in tree order.
pub open spec fn aggregate_sources(es: Seq<FsEntry>, root: Seq<char>) -> Seq<int> {
    indices_where(es.len() as int, |i: int| is_aggregate_source(es, root, i))
}

/// Whether `a` is the aggregate entry `i` gives.
pub open spec fn aggregate_from(a: Aggregate, es: Seq<FsEntry>, i: int) -> bool {
    if es[i].is_dir {
        match folder_root(es, es[i].path@) {
            Some(r) => is_folder_aggregate(a, es, es[i].path@, r),
            None => false,
        }
    } else {
        is_loose_aggregate(a, es, i)
    }
}

/// Whether every file the scan reads could be read: each loose aggregate
/// file met, and each member of each `aggregate_*` folder met.
pub open spec fn aggregates_readable(es: Seq<FsEntry>, root: Seq<char>) -> bool {
    forall|i: int|
        0 <= i < es.len() ==> (is_loose_aggregate_entry(es, root, i) ==> es[i].content is Some) && (
        is_aggregate_folder_entry(es, root, i) ==> folder_readable(es, es[i].path@))
}

/// What scanning from `root` gives.
pub open spec fn aggregate_scan_outcome(
    r: Result<Vec<Aggregate>, VsaError>,
    es: Seq<FsEntry>,
    root: Seq<char>,
) -> bool {
    let src = aggregate_sources(es, root);
    match r {
        Ok(v) => aggregates_readable(es, root) && v@.len() == src.len() && forall|k: int|
            0 <= k < src.len() ==> aggregate_from(#[trigger] v@[k], es, src[k]),
        Err(e) => (e matches VsaError::IoError(m) && m@ == invalid_utf8_message())
            && !aggregates_readable(es, root),
    }
}


// ============================================================================
// Scanning
// ============================================================================

fn lines_count(text: &str) -> (r: usize)
    ensures
        r == lines(text@).len(),
{
    let cs = chars_of(text);
    let ls = lines_of(cs.as_slice());
    ls.len()
}

fn scan_meets_exec(tree: &ProjectTree, root: &str, p: &str) -> (r: bool)
    ensures
        r == aggregate_scan_meets(tree.entries@, root@, p@),
{
    match tree.holder_chain_exec(root, p) {
        Some(c) => {
            let ghost cs = strs(c@);
            let mut j: usize = 1;
            while j < c.len()
                invariant
                    1 <= j,
                    cs == strs(c@),
                    holder_chain(tree.entries@, root@, p@) == Some(cs),
                    forall|m: int| 1 <= m < j && m < cs.len() ==> aggregate_scan_enters(#[trigger] cs[m]),
                decreases c.len() - j,
            {
                assert(cs[j as int] == c@[j as int]@);
                let enters = match file_name_str(c[j].as_str()) {
                    Some(n) => !str_starts_with(n.as_str(), ".") && !str_starts_with(
                        n.as_str(),
                        "aggregate_",
                    ),
                    None => false,
                };
                if !enters {
                    assert(!aggregate_scan_enters(cs[j as int]));
                    return false;
                }
                j = j + 1;
            }
            true
        },
        None => false,
    }
}

impl<'a> AggregateScanner<'a> {
    /// A scanner of the aggregates below `root`.
    pub fn new(config: &'a AggregateConfig, root: &'a str) -> (r: Self)
        ensures
            r.spec_root() == root@,
    {
        AggregateScanner { config, root }
    }

    /// The root the scanner searches.
    pub closed spec fn spec_root(&self) -> Seq<char> {
        self.root@
    }

    /// Whether a file name is an aggregate root's.
    pub fn matches_pattern(&self, file_name: &str) -> (r: bool)
        ensures
            r == is_aggregate_file_name(file_name@),
    {
        let n = strip_aggregate_ext_str(file_name);
        str_ends_with(n.as_str(), "Aggregate")
    }

    /// Whether a file name is a code file's.
    pub fn is_code_file(&self, file_name: &str) -> (r: bool)
        ensures
            r == is_code_file_name(file_name@),
    {
        str_ends_with(file_name, ".ts") || str_ends_with(file_name, ".py") || str_ends_with(
            file_name,
            ".rs",
        ) || str_ends_with(file_name, ".tsx") || str_ends_with(file_name, ".js")
    }

    /// Whether a file name is a test file's.
    pub fn is_test_file(&self, file_name: &str) -> (r: bool)
        ensures
            r == is_test_file_name(file_name@),
    {
        str_contains(file_name, ".test.") || str_contains(file_name, "_test.") || str_starts_with(
            file_name,
            "test_",
        ) || str_contains(file_name, ".spec.")
    }

    /// The name of an aggregate: its file name without the extension.
    pub fn extract_aggregate_name(&self, file_name: &str) -> (r: Result<String, VsaError>)
        ensures
            r matches Ok(n) && n@ == strip_aggregate_ext(file_name@),
    {
        Ok(strip_aggregate_ext_str(file_name))
    }

    /// The name of a class: its file name without the extension.
    pub fn extract_class_name(&self, file_name: &str) -> (r: String)
        ensures
            r@ == strip_aggregate_ext(file_name@),
    {
        strip_aggregate_ext_str(file_name)
    }

    /// Whether a text describes an entity.
    pub fn is_entity(&self, content: &str) -> (r: bool)
        ensures
            r == is_entity_text(content@),
    {
        str_contains(content, "_id:") || str_contains(content, "_id =") || str_contains(
            content,
            "id: ",
        ) || str_contains(content, "id =") || (str_contains(content, "Entity") && !str_contains(
            content,
            "ValueObject",
        ))
    }

    /// Whether a text describes a value object.
    pub fn is_value_object(&self, content: &str) -> (r: bool)
        ensures
            r == is_value_object_text(content@),
    {
        str_contains(content, "frozen=True") || str_contains(content, "@frozen") || str_contains(
            content,
            "readonly ",
        ) || str_contains(content, "Policy") || str_contains(content, "Status") || str_contains(
            content,
            "Result",
        ) || str_contains(content, "Specification") || str_contains(content, "Money")
            || str_contains(content, "Address") || (str_contains(content, "@dataclass")
            && !str_contains(content, "_id:") && !str_contains(content, "_id ="))
    }

    /// Whether a value object's text makes it immutable.
    pub fn is_immutable(&self, content: &str) -> (r: bool)
        ensures
            r == is_immutable_text(content@),
    {
        str_contains(content, "frozen=True") || str_contains(content, "@frozen") || str_contains(
            content,
            "readonly ",
        ) || str_contains(content, "const ") || str_contains(content, "immutable") || str_contains(
            content,
            "Immutable",
        )
    }

    /// The identity field a text declares.
    pub fn detect_identity_field(&self, content: &str) -> (r: Option<String>)
        ensures
            match r {
                Some(f) => identity_field_of(content@) == Some(f@),
                None => identity_field_of(content@) is None,
            },
    {
        let cs = chars_of(content);
        let ls = lines_of(cs.as_slice());
        let ghost lv = ls@.map_values(|l: Vec<char>| l@);
        let mut i: usize = 0;
        while i < ls.len()
            invariant
                i <= ls@.len(),
                lv == ls@.map_values(|l: Vec<char>| l@),
                lv == lines(content@),
                first_identity(lv, 0) == first_identity(lv, i as int),
            decreases ls.len() - i,
        {
            assert(lv[i as int] == ls@[i as int]@);
            let line = string_of(trim_chars(ls[i].as_slice()).as_slice());
            match identity_in_line_exec(line.as_str()) {
                Some(f) => {
                    return Some(f);
                },
                None => {},
            }
            i = i + 1;
        }
        None
    }

    /// The aggregate of the `aggregate_*` folder at `folder`: its last root
    /// file, with the entities and value objects beside it; none without a
    /// root. A file of the folder that cannot be read makes it fail.
    pub fn scan_aggregate_folder(&self, tree: &ProjectTree, folder: &str) -> (r: Result<
        Option<Aggregate>,
        VsaError,
    >)
        ensures
            match r {
                Ok(Some(a)) => folder_readable(tree.entries@, folder@) && (folder_root(
                    tree.entries@,
                    folder@,
                ) matches Some(rt) && is_folder_aggregate(a, tree.entries@, folder@, rt)),
                Ok(None) => folder_readable(tree.entries@, folder@) && folder_root(
                    tree.entries@,
                    folder@,
                ) is None,
                Err(e) => (e matches VsaError::IoError(m) && m@ == invalid_utf8_message())
                    && !folder_readable(tree.entries@, folder@),
            },
    {
        let ghost es = tree.entries@;
        let ghost d = folder@;
        let ghost mp = |i: int| is_folder_member(es, d, i);
        let ghost ef = |i: int| is_entity_member(es, i);
        let ghost vf = |i: int| is_value_object_member(es, i);
        let mut root: Option<usize> = None;
        let mut entities: Vec<AggregateEntity> = Vec::new();
        let mut value_objects: Vec<AggregateValueObject> = Vec::new();
        let mut i: usize = 0;
        proof {
            reveal_with_fuel(Seq::<_>::filter, 1);
            assert(indices_where(0, mp).filter(ef) =~= Seq::<int>::empty());
            assert(indices_where(0, mp).filter(vf) =~= Seq::<int>::empty());
        }
        while i < tree.entries.len()
            invariant
                i <= es.len(),
                es == tree.entries@,
                d == folder@,
                mp == (|i: int| is_folder_member(es, d, i)),
                ef == (|i: int| is_entity_member(es, i)),
                vf == (|i: int| is_value_object_member(es, i)),
                forall|k: int|
                    0 <= k < indices_where(i as int, mp).len() ==> (#[trigger] es[indices_where(
                        i as int,
                        mp,
                    )[k]]).content is Some,
                match root {
                    Some(r) => last_root(es, indices_where(i as int, mp)) == Some(r as int),
                    None => last_root(es, indices_where(i as int, mp)) is None,
                },
                entities@.len() == indices_where(i as int, mp).filter(ef).len(),
                forall|k: int|
                    0 <= k < entities@.len() ==> is_entity_of(
                        #[trigger] entities@[k],
                        es,
                        indices_where(i as int, mp).filter(ef)[k],
                    ),
                value_objects@.len() == indices_where(i as int, mp).filter(vf).len(),
                forall|k: int|
                    0 <= k < value_objects@.len() ==> is_value_object_of(
                        #[trigger] value_objects@[k],
                        es,
                        indices_where(i as int, mp).filter(vf)[k],
                    ),
            decreases tree.entries.len() - i,
        {
            let ghost prev = indices_where(i as int, mp);
            let e = &tree.entries[i];
            let in_folder = match path_parent_str(e.path.as_str()) {
                Some(q) => str_eq(q.as_str(), folder),
                None => false,
            };
            let name = match file_name_str(e.path.as_str()) {
                Some(n) => n,
                None => String::new(),
            };
            let named = file_name_str(e.path.as_str()).is_some();
            let member = in_folder && !e.is_dir && named && self.is_code_file(name.as_str())
                && !self.is_test_file(name.as_str());
            if member {
                assert(mp(i as int));
                assert(indices_where(i + 1, mp) == prev.push(i as int));
                let c = match &e.content {
                    Some(c) => c,
                    None => {
                        proof {
                            assert(indices_where(i + 1, mp)[prev.len() as int] == i as int);
                            crate::scanners::projection_scanner::lemma_indices_prefix(
                                es.len() as int,
                                i + 1,
                                mp,
                            );
                            assert(folder_members(es, d)[prev.len() as int] == i as int);
                            assert(es[folder_members(es, d)[prev.len() as int]].content is None);
                        }
                        return Err(VsaError::IoError(owned("stream did not contain valid UTF-8")));
                    },
                };
                let ghost text = c@;
                assert(entry_text(es, i as int) == text);
                assert(name@ == file_name_or_empty(es[i as int].path@));
                proof {
                    reveal_with_fuel(Seq::<_>::filter, 1);
                    assert(prev.push(i as int).drop_last() =~= prev);
                    assert(prev.push(i as int).last() == i as int);
                }
                if self.matches_pattern(name.as_str()) {
                    root = Some(i);
                    assert(ef(i as int) == false);
                    assert(vf(i as int) == false);
                } else if self.is_entity(c.as_str()) {
                    let ent = AggregateEntity {
                        name: self.extract_class_name(name.as_str()),
                        identity_field: self.detect_identity_field(c.as_str()),
                        file_path: e.path.clone(),
                        line_count: lines_count(c.as_str()),
                    };
                    entities.push(ent);
                    assert(ef(i as int));
                    assert(!vf(i as int));
                    assert(prev.push(i as int).filter(ef) == prev.filter(ef).push(i as int));
                } else if self.is_value_object(c.as_str()) {
                    let vo = AggregateValueObject {
                        name: self.extract_class_name(name.as_str()),
                        file_path: e.path.clone(),
                        is_immutable: self.is_immutable(c.as_str()),
                        line_count: lines_count(c.as_str()),
                    };
                    value_objects.push(vo);
                    assert(!ef(i as int));
                    assert(vf(i as int));
                    assert(prev.push(i as int).filter(vf) == prev.filter(vf).push(i as int));
                } else {
                    assert(!ef(i as int));
                    assert(!vf(i as int));
                }
                assert forall|k: int|
                    0 <= k < indices_where(i + 1, mp).len() implies (#[trigger] es[indices_where(
                        i + 1,
                        mp,
                    )[k]]).content is Some by {
                    if k < prev.len() {
                        assert(indices_where(i + 1, mp)[k] == prev[k]);
                    }
                }
            } else {
                assert(!mp(i as int));
                assert(indices_where(i + 1, mp) == prev);
            }
            i = i + 1;
        }
        let ghost ms = folder_members(es, d);
        assert(indices_where(es.len() as int, mp) == ms);
        match root {
            Some(r) => {
                proof {
                    crate::tree::lemma_indices_where(es.len() as int, mp);
                    lemma_last_root_member(es, ms);
                    let k = choose|k: int| 0 <= k < ms.len() && ms[k] == r as int;
                    assert(0 <= ms[k] < es.len());
                }
                let re = &tree.entries[r];
                let rc = match &re.content {
                    Some(c) => c,
                    None => {
                        proof {
                            let k = choose|k: int| 0 <= k < ms.len() && ms[k] == r as int;
                            assert(es[ms[k]].content is Some);
                        }
                        return Err(VsaError::IoError(owned("stream did not contain valid UTF-8")));
                    },
                };
                let rname = match file_name_str(re.path.as_str()) {
                    Some(n) => n,
                    None => String::new(),
                };
                assert(entry_text(es, r as int) == rc@);
                let a = Aggregate {
                    name: strip_aggregate_ext_str(rname.as_str()),
                    context: None,
                    file_path: re.path.clone(),
                    line_count: lines_count(rc.as_str()),
                    command_handlers: Vec::new(),
                    event_handlers: Vec::new(),
                    entities,
                    value_objects,
                    folder_name: Some(match file_name_str(folder) {
                        Some(n) => n,
                        None => String::new(),
                    }),
                };
                Ok(Some(a))
            },
            None => Ok(None),
        }
    }
}

/// The last root among `ms` is one of them.
proof fn lemma_last_root_member(es: Seq<FsEntry>, ms: Seq<int>)
    ensures
        last_root(es, ms) matches Some(r) ==> exists|k: int| 0 <= k < ms.len() && ms[k] == r,
    decreases ms.len(),
{
    if ms.len() > 0 && !is_root_entry(es, ms.last()) {
        lemma_last_root_member(es, ms.drop_last());
        if let Some(r) = last_root(es, ms.drop_last()) {
            let k = choose|k: int| 0 <= k < ms.drop_last().len() && ms.drop_last()[k] == r;
            assert(ms[k] == r);
        }
    } else if ms.len() > 0 {
        assert(ms[ms.len() - 1] == ms.last());
    }
}


impl<'a> AggregateScanner<'a> {
    /// The loose aggregate of the file of entry `i`, whose text is `text`.
    fn parse_loose_aggregate(&self, tree: &ProjectTree, i: usize, text: &str) -> (r: Aggregate)
        requires
            i < tree.entries@.len(),
            entry_text(tree.entries@, i as int) == text@,
        ensures
            is_loose_aggregate(r, tree.entries@, i as int),
    {
        let e = &tree.entries[i];
        let name = match file_name_str(e.path.as_str()) {
            Some(n) => n,
            None => String::new(),
        };
        Aggregate {
            name: strip_aggregate_ext_str(name.as_str()),
            context: None,
            file_path: e.path.clone(),
            line_count: lines_count(text),
            command_handlers: Vec::new(),
            event_handlers: Vec::new(),
            entities: Vec::new(),
            value_objects: Vec::new(),
            folder_name: None,
        }
    }

    /// Scan for aggregates: each `aggregate_*` folder with a root, and
    /// each loose aggregate file, met by a walk from the root through
    /// directories that are neither hidden nor `aggregate_*` folders, in
    /// tree order. A file the scan must read that cannot be read as UTF-8
    /// makes it fail.
    pub fn scan(&self, tree: &ProjectTree) -> (r: Result<Vec<Aggregate>, VsaError>)
        ensures
            aggregate_scan_outcome(r, tree.entries@, self.spec_root()),
    {
        let ghost es = tree.entries@;
        let ghost root = self.root@;
        let ghost sp = |i: int| is_aggregate_source(es, root, i);
        let mut out: Vec<Aggregate> = Vec::new();
        let mut i: usize = 0;
        while i < tree.entries.len()
            invariant
                i <= es.len(),
                es == tree.entries@,
                root == self.root@,
                sp == (|i: int| is_aggregate_source(es, root, i)),
                out@.len() == indices_where(i as int, sp).len(),
                forall|k: int|
                    0 <= k < out@.len() ==> aggregate_from(#[trigger] out@[k], es, indices_where(i as int, sp)[k]),
                forall|j: int|
                    0 <= j < i ==> (is_loose_aggregate_entry(es, root, j) ==> #[trigger] es[j].content is Some) && (
                    is_aggregate_folder_entry(es, root, j) ==> folder_readable(es, es[j].path@)),
            decreases tree.entries.len() - i,
        {
            let ghost prev = indices_where(i as int, sp);
            let e = &tree.entries[i];
            let name = match file_name_str(e.path.as_str()) {
                Some(n) => n,
                None => String::new(),
            };
            let named = file_name_str(e.path.as_str()).is_some();
            let meets = scan_meets_exec(tree, self.root, e.path.as_str());
            if e.is_dir && named && str_starts_with(name.as_str(), "aggregate_") && meets {
                assert(is_aggregate_folder_entry(es, root, i as int));
                assert(!is_loose_aggregate_entry(es, root, i as int));
                match self.scan_aggregate_folder(tree, e.path.as_str()) {
                    Ok(Some(a)) => {
                        assert(sp(i as int));
                        assert(indices_where(i + 1, sp) == prev.push(i as int));
                        out.push(a);
                        assert forall|k: int| 0 <= k < out@.len() implies aggregate_from(
                            #[trigger] out@[k],
                            es,
                            indices_where(i + 1, sp)[k],
                        ) by {
                            if k < prev.len() {
                                assert(indices_where(i + 1, sp)[k] == prev[k]);
                            }
                        }
                    },
                    Ok(None) => {
                        assert(!sp(i as int));
                        assert(indices_where(i + 1, sp) == prev);
                    },
                    Err(err) => {
                        assert(!(is_aggregate_folder_entry(es, root, i as int) ==> folder_readable(
                            es,
                            es[i as int].path@,
                        )));
                        return Err(err);
                    },
                }
            } else if !e.is_dir && named && self.matches_pattern(name.as_str()) && meets {
                assert(is_loose_aggregate_entry(es, root, i as int));
                assert(!is_aggregate_folder_entry(es, root, i as int));
                assert(sp(i as int));
                assert(indices_where(i + 1, sp) == prev.push(i as int));
                let text = match &e.content {
                    Some(c) => c,
                    None => {
                        assert(!(is_loose_aggregate_entry(es, root, i as int) ==> es[i as int].content is Some));
                        return Err(VsaError::IoError(owned("stream did not contain valid UTF-8")));
                    },
                };
                let a = self.parse_loose_aggregate(tree, i, text.as_str());
                out.push(a);
                assert forall|k: int| 0 <= k < out@.len() implies aggregate_from(
                    #[trigger] out@[k],
                    es,
                    indices_where(i + 1, sp)[k],
                ) by {
                    if k < prev.len() {
                        assert(indices_where(i + 1, sp)[k] == prev[k]);
                    }
                }
            } else {
                assert(!is_aggregate_folder_entry(es, root, i as int));
                assert(!is_loose_aggregate_entry(es, root, i as int));
                assert(!sp(i as int));
                assert(indices_where(i + 1, sp) == prev);
            }
            i = i + 1;
        }
        Ok(out)
    }
}

} // verus!
