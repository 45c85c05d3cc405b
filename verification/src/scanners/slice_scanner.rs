//! Slices and their types: a slice's type is given by its `slice.yaml`, or
//! found from the names of its files.

use vstd::prelude::*;

use crate::assoc::{find_key, key_index, lookup, strs};
use crate::case::{lowercase, to_lowercase};
use crate::config::{SliceType, SlicesConfig};
use crate::error::VsaError;
use crate::path::{file_name_of, file_name_str, push_path, push_path_str};
use crate::text::{contains, ends_with, starts_with, str_contains, str_ends_with, str_eq, str_starts_with};
use crate::tree::{FsEntry, ProjectTree, indices_where, is_child_path, path_exists, path_is_dir};

verus! {

/// A vertical feature slice.
#[derive(Debug)]
pub struct Slice {
    /// Name of the slice (e.g. "list_workflows").
    pub name: String,
    /// Path to the slice directory.
    pub path: String,
    /// Detected or explicit slice type.
    pub slice_type: SliceType,
    /// Whether the type was given in `slice.yaml`.
    pub type_explicit: bool,
    /// Files directly in the slice.
    pub files: Vec<SliceFile>,
    /// Parsed `slice.yaml`, if present.
    pub metadata: Option<SliceManifest>,
}

/// A file within a slice.
#[derive(Debug)]
pub struct SliceFile {
    pub name: String,
    pub path: String,
    pub file_type: SliceFileType,
}

/// Type of a file within a slice, by its name.
#[derive(Debug, Clone, Copy, PartialEq, Eq, Structural)]
pub enum SliceFileType {
    Command,
    Query,
    Event,
    Handler,
    Projection,
    Controller,
    Test,
    Saga,
    Manifest,
    Other,
}

/// Slice manifest (`slice.yaml`).
#[derive(Debug)]
pub struct SliceManifest {
    pub name: String,
    pub slice_type: String,
    pub projection: Option<String>,
    pub subscribes_to: Vec<String>,
    pub returns: Option<String>,
    pub description: Option<String>,
}

/// What a slice manifest says, as plain values.
pub struct ManifestView {
    pub name: Seq<char>,
    pub slice_type: Seq<char>,
    pub projection: Option<Seq<char>>,
    pub subscribes_to: Seq<Seq<char>>,
    pub returns: Option<Seq<char>>,
    pub description: Option<Seq<char>>,
}

/// The view of an optional string.
pub open spec fn opt_seq(o: Option<String>) -> Option<Seq<char>> {
    match o {
        Some(s) => Some(s@),
        None => None,
    }
}

impl View for SliceManifest {
    type V = ManifestView;

    open spec fn view(&self) -> ManifestView {
        ManifestView {
            name: self.name@,
            slice_type: self.slice_type@,
            projection: opt_seq(self.projection),
            subscribes_to: strs(self.subscribes_to@),
            returns: opt_seq(self.returns),
            description: opt_seq(self.description),
        }
    }
}

/// The view of an optional manifest.
pub open spec fn opt_manifest(o: Option<SliceManifest>) -> Option<ManifestView> {
    match o {
        Some(m) => Some(m@),
        None => None,
    }
}

/// Scanner for slices.
pub struct SliceScanner<'a> {
    config: Option<&'a SlicesConfig>,
    root: &'a str,
}

// ============================================================================
// File classification
// ============================================================================

/// A file name without `.ts`, `.tsx`, `.py` or `.rs`.
pub open spec fn strip_source_ext(f: Seq<char>) -> Seq<char> {
    if ends_with(f, ".ts"@) {
        f.subrange(0, f.len() - 3)
    } else if ends_with(f, ".tsx"@) {
        f.subrange(0, f.len() - 4)
    } else if ends_with(f, ".py"@) {
        f.subrange(0, f.len() - 3)
    } else if ends_with(f, ".rs"@) {
        f.subrange(0, f.len() - 3)
    } else {
        f
    }
}

/// The type of a slice file by its name: tests first, then the manifest,
/// then by the suffix of the name without its extension.
pub open spec fn classify(name: Seq<char>) -> SliceFileType {
    let base = strip_source_ext(name);
    if contains(name, ".test."@) || contains(name, "_test."@) || starts_with(name, "test_"@)
        || ends_with(name, "_test.py"@) || ends_with(name, "_test.ts"@) {
        SliceFileType::Test
    } else if name == "slice.yaml"@ || name == "slice.yml"@ {
        SliceFileType::Manifest
    } else if ends_with(base, "Command"@) {
        SliceFileType::Command
    } else if ends_with(base, "Query"@) {
        SliceFileType::Query
    } else if ends_with(base, "Event"@) {
        SliceFileType::Event
    } else if ends_with(base, "Handler"@) {
        SliceFileType::Handler
    } else if ends_with(base, "Projection"@) {
        SliceFileType::Projection
    } else if ends_with(base, "Controller"@) || ends_with(base, "Adapter"@) {
        SliceFileType::Controller
    } else if ends_with(base, "Saga"@) {
        SliceFileType::Saga
    } else {
        SliceFileType::Other
    }
}

pub(crate) fn strip_source_ext_exec(f: &str) -> (r: String)
    ensures
        r@ == strip_source_ext(f@),
{
    let fc = crate::text::chars_of(f);
    let n = fc.len();
    let cut: usize = if str_ends_with(f, ".ts") {
        3
    } else if str_ends_with(f, ".tsx") {
        4
    } else if str_ends_with(f, ".py") {
        3
    } else if str_ends_with(f, ".rs") {
        3
    } else {
        0
    };
    proof {
        reveal_strlit(".ts");
        reveal_strlit(".tsx");
        reveal_strlit(".py");
        reveal_strlit(".rs");
    }
    let v = crate::text::slice_chars(fc.as_slice(), 0, n - cut);
    assert(fc@.subrange(0, fc@.len() as int) =~= fc@);
    crate::text::string_of(v.as_slice())
}

/// The type of a slice file, by its name.
pub fn classify_file(name: &str) -> (r: SliceFileType)
    ensures
        r == classify(name@),
{
    let base_s = strip_source_ext_exec(name);
    let base = base_s.as_str();
    if str_contains(name, ".test.") || str_contains(name, "_test.") || str_starts_with(name, "test_")
        || str_ends_with(name, "_test.py") || str_ends_with(name, "_test.ts") {
        SliceFileType::Test
    } else if str_eq(name, "slice.yaml") || str_eq(name, "slice.yml") {
        SliceFileType::Manifest
    } else if str_ends_with(base, "Command") {
        SliceFileType::Command
    } else if str_ends_with(base, "Query") {
        SliceFileType::Query
    } else if str_ends_with(base, "Event") {
        SliceFileType::Event
    } else if str_ends_with(base, "Handler") {
        SliceFileType::Handler
    } else if str_ends_with(base, "Projection") {
        SliceFileType::Projection
    } else if str_ends_with(base, "Controller") || str_ends_with(base, "Adapter") {
        SliceFileType::Controller
    } else if str_ends_with(base, "Saga") {
        SliceFileType::Saga
    } else {
        SliceFileType::Other
    }
}

// ============================================================================
// Slice type detection
// ============================================================================

/// Whether some file of `files` has type `t`.
pub open spec fn has_file_type(files: Seq<SliceFile>, t: SliceFileType) -> bool {
    exists|i: int| 0 <= i < files.len() && (#[trigger] files[i]).file_type == t
}

/// The type a manifest declares: command, query or saga in any case,
/// command otherwise.
pub open spec fn declared_type(t: Seq<char>) -> SliceType {
    let l = lowercase(t);
    if l == "command"@ {
        SliceType::Command
    } else if l == "query"@ {
        SliceType::Query
    } else if l == "saga"@ {
        SliceType::Saga
    } else {
        SliceType::Command
    }
}

/// Whether some file, given as (name, path, type), has type `t`.
pub open spec fn views_have_type(files: Seq<(Seq<char>, Seq<char>, SliceFileType)>, t: SliceFileType) -> bool {
    exists|i: int| 0 <= i < files.len() && (#[trigger] files[i]).2 == t
}

/// The type of a slice and whether it was declared: the manifest's when
/// there is one; else saga before query (or projection) before command.
pub open spec fn slice_type_from(
    files: Seq<(Seq<char>, Seq<char>, SliceFileType)>,
    metadata: Option<ManifestView>,
) -> (SliceType, bool) {
    match metadata {
        Some(m) => (declared_type(m.slice_type), true),
        None => if views_have_type(files, SliceFileType::Saga) {
            (SliceType::Saga, false)
        } else if views_have_type(files, SliceFileType::Query) || views_have_type(
            files,
            SliceFileType::Projection,
        ) {
            (SliceType::Query, false)
        } else {
            (SliceType::Command, false)
        },
    }
}

fn has_type(files: &Vec<SliceFile>, t: SliceFileType) -> (r: bool)
    ensures
        r == has_file_type(files@, t),
{
    let mut i: usize = 0;
    while i < files.len()
        invariant
            i <= files@.len(),
            forall|k: int| 0 <= k < i ==> (#[trigger] files@[k]).file_type != t,
        decreases files.len() - i,
    {
        if files[i].file_type == t {
            return true;
        }
        i = i + 1;
    }
    false
}

impl Slice {
    /// Whether this slice has a handler.
    pub fn has_handler(&self) -> (r: bool)
        ensures
            r == has_file_type(self.files@, SliceFileType::Handler),
    {
        has_type(&self.files, SliceFileType::Handler)
    }

    /// Whether this slice has a projection.
    pub fn has_projection(&self) -> (r: bool)
        ensures
            r == has_file_type(self.files@, SliceFileType::Projection),
    {
        has_type(&self.files, SliceFileType::Projection)
    }

    /// Whether this slice has tests.
    pub fn has_tests(&self) -> (r: bool)
        ensures
            r == has_file_type(self.files@, SliceFileType::Test),
    {
        has_type(&self.files, SliceFileType::Test)
    }

    /// Whether this slice has a controller or adapter.
    pub fn has_controller(&self) -> (r: bool)
        ensures
            r == has_file_type(self.files@, SliceFileType::Controller),
    {
        has_type(&self.files, SliceFileType::Controller)
    }

    /// The number of files that are neither tests nor the manifest.
    pub fn source_file_count(&self) -> (r: usize)
        ensures
            r == self.files@.filter(
                |f: SliceFile| f.file_type != SliceFileType::Test && f.file_type
                    != SliceFileType::Manifest,
            ).len(),
    {
        let ghost pred = |f: SliceFile| f.file_type != SliceFileType::Test && f.file_type
            != SliceFileType::Manifest;
        let mut n: usize = 0;
        let mut i: usize = 0;
        while i < self.files.len()
            invariant
                i <= self.files@.len(),
                pred == (|f: SliceFile| f.file_type != SliceFileType::Test && f.file_type
                    != SliceFileType::Manifest),
                n == self.files@.subrange(0, i as int).filter(pred).len(),
                n <= i,
            decreases self.files.len() - i,
        {
            proof {
                reveal_with_fuel(Seq::<_>::filter, 1);
                assert(self.files@.subrange(0, i + 1).drop_last() =~= self.files@.subrange(0, i as int));
            }
            let t = self.files[i].file_type;
            if t != SliceFileType::Test && t != SliceFileType::Manifest {
                n = n + 1;
            }
            i = i + 1;
        }
        assert(self.files@.subrange(0, self.files@.len() as int) =~= self.files@);
        n
    }
}

// ============================================================================
// Scanning
// ============================================================================

/// Whether entry `i` is a slice directory in `sp`: a directory directly in
/// it with a name that starts with neither `.` nor `_`.
pub open spec fn is_slice_entry(es: Seq<FsEntry>, sp: Seq<char>, i: int) -> bool {
    let name = crate::validation::file_name_or_empty(es[i].path@);
    &&& is_child_path(es[i].path@, sp)
    &&& es[i].is_dir
    &&& name.len() > 0
    &&& !starts_with(name, "."@)
    &&& !starts_with(name, "_"@)
}

/// The slice directories in `sp`, in tree order.
pub open spec fn slice_paths(es: Seq<FsEntry>, sp: Seq<char>) -> Seq<Seq<char>> {
    indices_where(es.len() as int, |i: int| is_slice_entry(es, sp, i)).map_values(
        |i: int| es[i].path@,
    )
}

/// Whether entry `i` is a file directly in slice `d`.
pub open spec fn is_slice_file(es: Seq<FsEntry>, d: Seq<char>, i: int) -> bool {
    is_child_path(es[i].path@, d) && !es[i].is_dir && file_name_of(es[i].path@) is Some
}

/// What a slice file says: name, path, type.
pub open spec fn file_view(f: SliceFile) -> (Seq<char>, Seq<char>, SliceFileType) {
    (f.name@, f.path@, f.file_type)
}

/// The files of slice `d`, as plain values.
pub open spec fn slice_file_views(es: Seq<FsEntry>, d: Seq<char>) -> Seq<
    (Seq<char>, Seq<char>, SliceFileType),
> {
    indices_where(es.len() as int, |i: int| is_slice_file(es, d, i)).map_values(
        |i: int|
            (
                crate::validation::file_name_or_empty(es[i].path@),
                es[i].path@,
                classify(crate::validation::file_name_or_empty(es[i].path@)),
            ),
    )
}

/// The manifest file of slice `d`: `slice.yaml`, else `slice.yml`.
pub open spec fn manifest_path(es: Seq<FsEntry>, d: Seq<char>) -> Option<Seq<char>> {
    if path_exists(es, push_path(d, "slice.yaml"@)) {
        Some(push_path(d, "slice.yaml"@))
    } else if path_exists(es, push_path(d, "slice.yml"@)) {
        Some(push_path(d, "slice.yml"@))
    } else {
        None
    }
}

/// The manifest of slice `d` as read: none, the manifest, or an error.
pub open spec fn manifest_of(
    es: Seq<FsEntry>,
    table: Seq<(String, Result<SliceManifest, VsaError>)>,
    d: Seq<char>,
) -> Result<Option<ManifestView>, ()> {
    match manifest_path(es, d) {
        None => Ok(None),
        Some(p) => match lookup(table, p) {
            Some(Ok(m)) => Ok(Some(m@)),
            _ => Err(()),
        },
    }
}

/// The directory that holds the slices.
pub open spec fn slices_dir(config: Option<SlicesConfig>, root: Seq<char>) -> Seq<char> {
    match config {
        Some(c) => push_path(root, c.path@),
        None => push_path(root, "slices"@),
    }
}

/// The slice directories a scan visits.
pub open spec fn scanned_slice_paths(es: Seq<FsEntry>, config: Option<SlicesConfig>, root: Seq<char>) -> Seq<
    Seq<char>,
> {
    let sp = slices_dir(config, root);
    if path_is_dir(es, sp) {
        slice_paths(es, sp)
    } else {
        Seq::empty()
    }
}

/// Whether `s` is what analysing slice directory `d` gives.
pub open spec fn slice_of_dir(
    s: Slice,
    es: Seq<FsEntry>,
    table: Seq<(String, Result<SliceManifest, VsaError>)>,
    d: Seq<char>,
) -> bool {
    &&& s.name@ == crate::validation::file_name_or_empty(d)
    &&& s.path@ == d
    &&& s.files@.map_values(|f: SliceFile| file_view(f)) == slice_file_views(es, d)
    &&& manifest_of(es, table, d) == Ok::<Option<ManifestView>, ()>(opt_manifest(s.metadata))
    &&& (s.slice_type, s.type_explicit) == slice_type_from(
        slice_file_views(es, d),
        opt_manifest(s.metadata),
    )
}

/// What a scan of slice directories `ds` gives: a slice for each, or an
/// error when some manifest could not be read.
pub open spec fn scan_outcome(
    r: Result<Vec<Slice>, VsaError>,
    es: Seq<FsEntry>,
    table: Seq<(String, Result<SliceManifest, VsaError>)>,
    ds: Seq<Seq<char>>,
) -> bool {
    match r {
        Ok(v) => v@.len() == ds.len() && forall|k: int|
            0 <= k < v@.len() ==> slice_of_dir(#[trigger] v@[k], es, table, ds[k]),
        Err(_) => exists|k: int| 0 <= k < ds.len() && (#[trigger] manifest_of(es, table, ds[k])) is Err,
    }
}

/// A copy of a manifest.
pub fn copy_manifest(m: &SliceManifest) -> (r: SliceManifest)
    ensures
        r@ == m@,
{
    SliceManifest {
        name: m.name.clone(),
        slice_type: m.slice_type.clone(),
        projection: match &m.projection {
            Some(p) => Some(p.clone()),
            None => None,
        },
        subscribes_to: crate::assoc::copy_strings(&m.subscribes_to),
        returns: match &m.returns {
            Some(p) => Some(p.clone()),
            None => None,
        },
        description: match &m.description {
            Some(p) => Some(p.clone()),
            None => None,
        },
    }
}

/// A copy of an error.
pub fn copy_error(e: &VsaError) -> (r: VsaError)
    ensures
        match *e {
            VsaError::DuplicateIntegrationEvent { event, contexts } => r matches VsaError::DuplicateIntegrationEvent {
                event: e2,
                contexts: c2,
            } && e2 == event && c2@ == contexts@,
            _ => r == *e,
        },
{
    match e {
        VsaError::ConfigNotFound(s) => VsaError::ConfigNotFound(s.clone()),
        VsaError::InvalidConfig(s) => VsaError::InvalidConfig(s.clone()),
        VsaError::YamlError(s) => VsaError::YamlError(s.clone()),
        VsaError::JsonError(s) => VsaError::JsonError(s.clone()),
        VsaError::IoError(s) => VsaError::IoError(s.clone()),
        VsaError::PatternError(s) => VsaError::PatternError(s.clone()),
        VsaError::ValidationError(s) => VsaError::ValidationError(s.clone()),
        VsaError::InvalidStructure { path, reason } => VsaError::InvalidStructure {
            path: path.clone(),
            reason: reason.clone(),
        },
        VsaError::DuplicateIntegrationEvent { event, contexts } => VsaError::DuplicateIntegrationEvent {
            event: event.clone(),
            contexts: crate::assoc::copy_strings(contexts),
        },
        VsaError::MissingFile(s) => VsaError::MissingFile(s.clone()),
        VsaError::InvalidPattern { pattern, file } => VsaError::InvalidPattern {
            pattern: pattern.clone(),
            file: file.clone(),
        },
        VsaError::FrameworkError(s) => VsaError::FrameworkError(s.clone()),
        VsaError::TemplateError(s) => VsaError::TemplateError(s.clone()),
        VsaError::ContextNotFound(s) => VsaError::ContextNotFound(s.clone()),
        VsaError::InvalidOperationName(s) => VsaError::InvalidOperationName(s.clone()),
        VsaError::UnsupportedLanguage(s) => VsaError::UnsupportedLanguage(s.clone()),
        VsaError::FeatureNotFound { context, feature } => VsaError::FeatureNotFound {
            context: context.clone(),
            feature: feature.clone(),
        },
    }
}

impl<'a> SliceScanner<'a> {
    /// A scanner of the slices of the project at `root`.
    pub fn new(config: Option<&'a SlicesConfig>, root: &'a str) -> (r: Self)
        ensures
            r.spec_config() == config,
            r.spec_root() == root,
    {
        SliceScanner { config, root }
    }

    pub closed spec fn spec_config(&self) -> Option<&'a SlicesConfig> {
        self.config
    }

    pub closed spec fn spec_root(&self) -> &'a str {
        self.root
    }

    /// The files directly in slice `d`.
    fn scan_slice_files(&self, tree: &ProjectTree, d: &str) -> (r: Vec<SliceFile>)
        ensures
            r@.map_values(|f: SliceFile| file_view(f)) == slice_file_views(tree.entries@, d@),
    {
        let ghost es = tree.entries@;
        let ghost pred = |i: int| is_slice_file(es, d@, i);
        let ghost fv = |i: int|
            (
                crate::validation::file_name_or_empty(es[i].path@),
                es[i].path@,
                classify(crate::validation::file_name_or_empty(es[i].path@)),
            );
        let mut out: Vec<SliceFile> = Vec::new();
        let mut i: usize = 0;
        while i < tree.entries.len()
            invariant
                i <= es.len(),
                es == tree.entries@,
                pred == (|i: int| is_slice_file(es, d@, i)),
                fv == (|i: int|
                    (
                        crate::validation::file_name_or_empty(es[i].path@),
                        es[i].path@,
                        classify(crate::validation::file_name_or_empty(es[i].path@)),
                    )),
                out@.map_values(|f: SliceFile| file_view(f)) == indices_where(i as int, pred).map_values(fv),
            decreases tree.entries.len() - i,
        {
            let e = &tree.entries[i];
            let ghost before = out@.map_values(|f: SliceFile| file_view(f));
            if !e.is_dir && crate::scanner::is_child_of(e.path.as_str(), d) {
                match file_name_str(e.path.as_str()) {
                    Some(name) => {
                        let t = classify_file(name.as_str());
                        out.push(SliceFile { name, path: e.path.clone(), file_type: t });
                        assert(indices_where(i + 1, pred) == indices_where(i as int, pred).push(i as int));
                        assert(indices_where(i + 1, pred).map_values(fv) =~= indices_where(i as int, pred).map_values(fv).push(fv(i as int)));
                        assert(out@.map_values(|f: SliceFile| file_view(f)) =~= before.push(fv(i as int)));
                    },
                    None => {},
                }
            }
            i = i + 1;
        }
        out
    }

    /// The manifest of slice `d`, as read.
    fn read_slice_manifest(&self, tree: &ProjectTree, d: &str) -> (r: Result<Option<SliceManifest>, VsaError>)
        ensures
            match r {
                Ok(m) => manifest_of(tree.entries@, tree.slice_manifests@, d@) == Ok::<Option<ManifestView>, ()>(opt_manifest(m)),
                Err(_) => manifest_of(tree.entries@, tree.slice_manifests@, d@) is Err,
            },
    {
        let yaml = push_path_str(d, "slice.yaml");
        let yml = push_path_str(d, "slice.yml");
        let p = if tree.has_path(yaml.as_str()) {
            yaml
        } else if tree.has_path(yml.as_str()) {
            yml
        } else {
            return Ok(None);
        };
        match find_key(&tree.slice_manifests, p.as_str()) {
            Some(i) => match &tree.slice_manifests[i].1 {
                Ok(m) => Ok(Some(copy_manifest(m))),
                Err(e) => Err(copy_error(e)),
            },
            None => {
                let mut msg = String::new();
                msg.append("slice manifest was not read: ");
                msg.append(p.as_str());
                Err(VsaError::IoError(msg))
            },
        }
    }

    /// The type of a slice, and whether its manifest declared it.
    pub fn detect_slice_type(&self, files: &Vec<SliceFile>, metadata: &Option<SliceManifest>) -> (r: (
        SliceType,
        bool,
    ))
        ensures
            r == slice_type_from(files@.map_values(|f: SliceFile| file_view(f)), opt_manifest(*metadata)),
    {
        proof {
            let fv = files@.map_values(|f: SliceFile| file_view(f));
            assert forall|t: SliceFileType| #[trigger] views_have_type(fv, t) == has_file_type(files@, t) by {
                if views_have_type(fv, t) {
                    let i = choose|i: int| 0 <= i < fv.len() && (#[trigger] fv[i]).2 == t;
                    assert(files@[i].file_type == t);
                }
                if has_file_type(files@, t) {
                    let i = choose|i: int| 0 <= i < files@.len() && (#[trigger] files@[i]).file_type == t;
                    assert(fv[i].2 == t);
                }
            }
        }
        match metadata {
            Some(m) => {
                let l = to_lowercase(m.slice_type.as_str());
                let t = if str_eq(l.as_str(), "command") {
                    SliceType::Command
                } else if str_eq(l.as_str(), "query") {
                    SliceType::Query
                } else if str_eq(l.as_str(), "saga") {
                    SliceType::Saga
                } else {
                    SliceType::Command
                };
                (t, true)
            },
            None => {
                if has_type(files, SliceFileType::Saga) {
                    (SliceType::Saga, false)
                } else if has_type(files, SliceFileType::Query) || has_type(
                    files,
                    SliceFileType::Projection,
                ) {
                    (SliceType::Query, false)
                } else {
                    (SliceType::Command, false)
                }
            },
        }
    }

    /// Scan for all slices: each directory of the slices directory whose
    /// name starts with neither `.` nor `_`, with its files, manifest and
    /// type. A manifest that could not be read or parsed makes the scan
    /// fail.
    pub fn scan(&self, tree: &ProjectTree) -> (r: Result<Vec<Slice>, VsaError>)
        ensures
            scan_outcome(
                r,
                tree.entries@,
                tree.slice_manifests@,
                scanned_slice_paths(
                    tree.entries@,
                    match self.spec_config() {
                        Some(c) => Some(*c),
                        None => None,
                    },
                    self.spec_root()@,
                ),
            ),
    {
        let ghost es = tree.entries@;
        let ghost cfg = match self.config {
            Some(c) => Some(*c),
            None => None,
        };
        let sp = match self.config {
            Some(c) => push_path_str(self.root, c.path.as_str()),
            None => push_path_str(self.root, "slices"),
        };
        let mut slices: Vec<Slice> = Vec::new();
        if !tree.is_dir(sp.as_str()) {
            return Ok(slices);
        }
        let ghost pred = |i: int| is_slice_entry(es, sp@, i);
        let ghost ds = scanned_slice_paths(es, cfg, self.root@);
        assert(ds == indices_where(es.len() as int, pred).map_values(|i: int| es[i].path@));
        let mut i: usize = 0;
        while i < tree.entries.len()
            invariant
                i <= es.len(),
                es == tree.entries@,
                pred == (|i: int| is_slice_entry(es, sp@, i)),
                ds == indices_where(es.len() as int, pred).map_values(|i: int| es[i].path@),
                ds == scanned_slice_paths(es, cfg, self.root@),
                cfg == match self.config {
                    Some(c) => Some(*c),
                    None => None,
                },
                slices@.len() == indices_where(i as int, pred).len(),
                forall|k: int|
                    0 <= k < slices@.len() ==> slice_of_dir(
                        #[trigger] slices@[k],
                        es,
                        tree.slice_manifests@,
                        es[indices_where(i as int, pred)[k]].path@,
                    ),
                forall|k: int|
                    0 <= k < indices_where(i as int, pred).len() ==> manifest_of(
                        es,
                        tree.slice_manifests@,
                        es[#[trigger] indices_where(i as int, pred)[k]].path@,
                    ) is Ok,
            decreases tree.entries.len() - i,
        {
            let e = &tree.entries[i];
            let name = match file_name_str(e.path.as_str()) {
                Some(n) => n,
                None => String::new(),
            };
            assert(name@ == crate::validation::file_name_or_empty(e.path@));
            let nc = crate::text::chars_of(name.as_str());
            proof {
                crate::text::lemma_starts_with_char(name@, '.');
                crate::text::lemma_starts_with_char(name@, '_');
                assert("."@ == seq!['.']) by {
                    reveal_strlit(".");
                }
                assert("_"@ == seq!['_']) by {
                    reveal_strlit("_");
                }
                crate::tree::lemma_indices_where(i + 1, pred);
                crate::tree::lemma_indices_where(es.len() as int, pred);
            }
            if e.is_dir && crate::scanner::is_child_of(e.path.as_str(), sp.as_str()) && nc.len() > 0
                && nc[0] != '.' && nc[0] != '_' {
                assert(indices_where(i + 1, pred) == indices_where(i as int, pred).push(i as int));
                let files = self.scan_slice_files(tree, e.path.as_str());
                let metadata = match self.read_slice_manifest(tree, e.path.as_str()) {
                    Ok(m) => m,
                    Err(err) => {
                        proof {
                            let all = indices_where(es.len() as int, pred);
                            assert(name@ == crate::validation::file_name_or_empty(e.path@));
                            assert(manifest_of(es, tree.slice_manifests@, e.path@) is Err);
                            assert(is_slice_entry(es, sp@, i as int));
                            assert(pred(i as int));
                            assert(all.contains(i as int));
                            let k = choose|k: int| 0 <= k < all.len() && all[k] == i as int;
                            assert(ds[k] == es[i as int].path@);
                            assert(manifest_of(es, tree.slice_manifests@, ds[k]) is Err);
                            let ds2 = scanned_slice_paths(
                                tree.entries@,
                                match self.spec_config() {
                                    Some(c) => Some(*c),
                                    None => None,
                                },
                                self.spec_root()@,
                            );
                            assert(ds2 == ds);
                            assert(0 <= k < ds2.len() && manifest_of(tree.entries@, tree.slice_manifests@, ds2[k]) is Err);
                            assert(scan_outcome(Err(err), es, tree.slice_manifests@, ds2));
                        }
                        return Err(err);
                    },
                };
                let (t, explicit) = self.detect_slice_type(&files, &metadata);
                slices.push(
                    Slice {
                        name,
                        path: e.path.clone(),
                        slice_type: t,
                        type_explicit: explicit,
                        files,
                        metadata,
                    },
                );
            } else {
                assert(indices_where(i + 1, pred) == indices_where(i as int, pred));
            }
            i = i + 1;
        }
        proof {
            let all = indices_where(es.len() as int, pred);
            assert forall|k: int| 0 <= k < slices@.len() implies slice_of_dir(
                #[trigger] slices@[k],
                es,
                tree.slice_manifests@,
                ds[k],
            ) by {
                assert(ds[k] == es[all[k]].path@);
            }
        }
        Ok(slices)
    }
}

} // verus!
