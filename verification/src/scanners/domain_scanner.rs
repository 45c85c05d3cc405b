//! The domain scanner: reads the domain folder's aggregates, commands,
//! queries, events and upcasters into a domain model.

use vstd::prelude::*;

use crate::config::{DomainConfig, EventVersioningConfig};
use crate::domain::{DomainModel, Upcaster};
use crate::error::VsaError;
use crate::path::{file_name_str, path_parent_str, push_path, push_path_str};
use crate::text::{
    chars_of, contains, find, lemma_find_bounds, lemma_rfind_from_bounds, owned, rfind,
    slice_chars, split_chars, split_on, str_contains, string_of,
};
use crate::tree::{FsEntry, ProjectTree, indices_where, is_child_path, path_exists, path_is_dir};
use crate::validation::file_name_or_empty;
use super::aggregate_scanner::{AggregateScanner, aggregate_scan_outcome, aggregates_readable};
use super::command_scanner::{CommandScanner, command_scan_outcome};
use super::event_scanner::{EventScanner, events_scanned, strip_event_ext, strip_event_ext_str};
use super::file_walk::suffixed_files;
use super::projection_scanner::invalid_utf8_message;
use super::query_scanner::{QueryScanner, is_query_of};

verus! {

/// Scanner for the domain layer.
pub struct DomainScanner {
    config: DomainConfig,
    root: String,
}

/// `s` split at the last `pat` (`str::rsplit_once`).
pub open spec fn rsplit_once(s: Seq<char>, pat: Seq<char>) -> Option<(Seq<char>, Seq<char>)> {
    match rfind(s, pat) {
        Some(k) => Some((s.subrange(0, k), s.subrange(k + pat.len(), s.len() as int))),
        None => None,
    }
}

/// `s` split at the first `pat` (`str::split_once`).
pub open spec fn split_once(s: Seq<char>, pat: Seq<char>) -> Option<(Seq<char>, Seq<char>)> {
    match find(s, pat) {
        Some(k) => Some((s.subrange(0, k), s.subrange(k + pat.len(), s.len() as int))),
        None => None,
    }
}

/// Whether a file name looks like an upcaster's.
pub open spec fn is_upcaster_name(f: Seq<char>) -> bool {
    contains(f, "_to_"@) || contains(f, "Upcaster"@) || contains(f, "upcaster"@)
}

/// The event type and versions an upcaster file name gives:
/// `Type_from_to_to`, or else `Type_Upcaster_from_to`.
pub open spec fn upcaster_parts(file_name: Seq<char>) -> Option<(Seq<char>, Seq<char>, Seq<char>)> {
    let n = strip_event_ext(file_name);
    match rsplit_once(n, "_to_"@) {
        Some((head, to)) => match rsplit_once(head, "_"@) {
            Some((t, from)) => Some((t, from, to)),
            None => upcaster_class_parts(n),
        },
        None => upcaster_class_parts(n),
    }
}

/// The parts of a `Type_Upcaster_from_to` name.
pub open spec fn upcaster_class_parts(n: Seq<char>) -> Option<(Seq<char>, Seq<char>, Seq<char>)> {
    match split_once(n, "_Upcaster_"@) {
        Some((prefix, versions)) => {
            let parts = split_on(versions, '_');
            if parts.len() == 2 {
                Some((prefix, parts[0], parts[1]))
            } else {
                None
            }
        },
        None => None,
    }
}

/// Whether `u` is the upcaster the file at `p` describes.
pub open spec fn is_upcaster_of(u: Upcaster, p: Seq<char>) -> bool {
    upcaster_parts(file_name_or_empty(p)) matches Some(t) && u.event_type@ == t.0
        && u.from_version@ == t.1 && u.to_version@ == t.2 && u.file_path@ == p
        && !u.decorator_present
}

/// Whether entry `i` is an upcaster file directly in directory `d`.
pub open spec fn is_upcaster_entry(es: Seq<FsEntry>, d: Seq<char>, i: int) -> bool {
    let n = file_name_or_empty(es[i].path@);
    &&& path_is_dir(es, d)
    &&& is_child_path(es[i].path@, d)
    &&& !es[i].is_dir
    &&& is_upcaster_name(n)
    &&& upcaster_parts(n) is Some
}

/// The upcaster files of directory `d`, in tree order.
pub open spec fn upcaster_indices(es: Seq<FsEntry>, d: Seq<char>) -> Seq<int> {
    indices_where(es.len() as int, |i: int| is_upcaster_entry(es, d, i))
}

/// Whether `v` is the upcasters of directory `d`.
pub open spec fn upcasters_scanned(v: Seq<Upcaster>, es: Seq<FsEntry>, d: Seq<char>) -> bool {
    v.len() == upcaster_indices(es, d).len() && forall|k: int|
        0 <= k < v.len() ==> is_upcaster_of(#[trigger] v[k], es[upcaster_indices(es, d)[k]].path@)
}

/// The domain folder.
pub open spec fn domain_dir(config: DomainConfig, root: Seq<char>) -> Seq<char> {
    push_path(root, config.path@)
}

/// Whether every command file the scan reads could be read.
pub open spec fn commands_readable(es: Seq<FsEntry>, cp: Seq<char>) -> bool {
    forall|k: int|
        0 <= k < suffixed_files(es, cp, "Command"@).len() ==> (#[trigger] es[suffixed_files(
            es,
            cp,
            "Command"@,
        )[k]]).content is Some
}

/// Whether every file the domain scan reads could be read.
pub open spec fn domain_readable(es: Seq<FsEntry>, config: DomainConfig, root: Seq<char>) -> bool {
    let d = domain_dir(config, root);
    let cp = push_path(d, config.commands.path@);
    aggregates_readable(es, d) && (path_exists(es, cp) ==> commands_readable(es, cp))
}

/// Whether `m` is the model of a readable domain folder `d`.
pub open spec fn domain_model_of(m: DomainModel, es: Seq<FsEntry>, config: DomainConfig, d: Seq<char>) -> bool {
    let cp = push_path(d, config.commands.path@);
    let qp = push_path(d, config.queries.path@);
    let ep = push_path(d, config.events.path@);
    let up = push_path(ep, config.events.versioning.upcasters_path@);
    &&& m.root_path@ == d
    &&& aggregate_scan_outcome(Ok::<Vec<crate::domain::Aggregate>, VsaError>(m.aggregates), es, d)
    &&& if path_exists(es, cp) {
        command_scan_outcome(Ok::<Vec<crate::domain::Command>, VsaError>(m.commands), es, cp)
    } else {
        m.commands@.len() == 0
    }
    &&& if path_exists(es, qp) {
        m.queries@.len() == suffixed_files(es, qp, "Query"@).len() && forall|k: int|
            0 <= k < m.queries@.len() ==> is_query_of(
                #[trigger] m.queries@[k],
                es[suffixed_files(es, qp, "Query"@)[k]].path@,
            )
    } else {
        m.queries@.len() == 0
    }
    &&& if path_exists(es, ep) {
        events_scanned(m.events@, es, config.events, ep)
    } else {
        m.events@.len() == 0
    }
    &&& if config.events.versioning.enabled && path_exists(es, up) {
        upcasters_scanned(m.upcasters@, es, up)
    } else {
        m.upcasters@.len() == 0
    }
    &&& m.projections@.len() == 0
    &&& m.value_objects@.len() == 0
}

/// What scanning the domain of the project at `root` gives.
pub open spec fn domain_scan_outcome(
    r: Result<DomainModel, VsaError>,
    es: Seq<FsEntry>,
    config: DomainConfig,
    root: Seq<char>,
) -> bool {
    let d = domain_dir(config, root);
    if !path_exists(es, d) {
        r matches Ok(m) && m.root_path@ == d && m.spec_component_count() == 0
    } else if !path_is_dir(es, d) {
        r matches Err(VsaError::IoError(msg)) && msg@ == "Domain path is not a directory: "@ + d
    } else {
        match r {
            Ok(m) => domain_readable(es, config, root) && domain_model_of(m, es, config, d),
            Err(e) => (e matches VsaError::IoError(m) && m@ == invalid_utf8_message())
                && !domain_readable(es, config, root),
        }
    }
}

fn rsplit_once_exec(s: &str, pat: &str) -> (r: Option<(String, String)>)
    ensures
        match r {
            Some(p) => rsplit_once(s@, pat@) == Some((p.0@, p.1@)),
            None => rsplit_once(s@, pat@) is None,
        },
{
    let sc = chars_of(s);
    let pc = chars_of(pat);
    match crate::text::rfind_chars(sc.as_slice(), pc.as_slice()) {
        Some(k) => {
            proof {
                if sc@.len() >= pc@.len() {
                    lemma_rfind_from_bounds(sc@, pc@, sc@.len() - pc@.len());
                }
            }
            let total = sc.len();
            let plen = pc.len();
            assert(k + plen <= total);
            let after: usize = k + plen;
            let a = slice_chars(sc.as_slice(), 0, k);
            let b = slice_chars(sc.as_slice(), after, sc.len());
            Some((string_of(a.as_slice()), string_of(b.as_slice())))
        },
        None => None,
    }
}

fn split_once_exec(s: &str, pat: &str) -> (r: Option<(String, String)>)
    ensures
        match r {
            Some(p) => split_once(s@, pat@) == Some((p.0@, p.1@)),
            None => split_once(s@, pat@) is None,
        },
{
    let sc = chars_of(s);
    let pc = chars_of(pat);
    match crate::text::find_chars(sc.as_slice(), pc.as_slice()) {
        Some(k) => {
            proof {
                lemma_find_bounds(sc@, pc@);
            }
            let total = sc.len();
            let plen = pc.len();
            assert(k + plen <= total);
            let after: usize = k + plen;
            let a = slice_chars(sc.as_slice(), 0, k);
            let b = slice_chars(sc.as_slice(), after, sc.len());
            Some((string_of(a.as_slice()), string_of(b.as_slice())))
        },
        None => None,
    }
}

fn upcaster_class_parts_exec(n: &str) -> (r: Option<(String, String, String)>)
    ensures
        match r {
            Some(t) => upcaster_class_parts(n@) == Some((t.0@, t.1@, t.2@)),
            None => upcaster_class_parts(n@) is None,
        },
{
    match split_once_exec(n, "_Upcaster_") {
        Some((prefix, versions)) => {
            let vc = chars_of(versions.as_str());
            let parts = split_chars(vc.as_slice(), '_');
            let ghost pv = parts@.map_values(|p: Vec<char>| p@);
            assert(pv == split_on(versions@, '_'));
            if parts.len() == 2 {
                assert(pv[0] == parts@[0]@ && pv[1] == parts@[1]@);
                Some((prefix, string_of(parts[0].as_slice()), string_of(parts[1].as_slice())))
            } else {
                None
            }
        },
        None => None,
    }
}

impl DomainScanner {
    /// A scanner of the domain of the project at `root`.
    pub fn new(config: DomainConfig, root: String) -> (r: Self)
        ensures
            r.spec_config() == config,
            r.spec_root() == root@,
    {
        DomainScanner { config, root }
    }

    /// The configuration.
    pub closed spec fn spec_config(&self) -> DomainConfig {
        self.config
    }

    /// The project root.
    pub closed spec fn spec_root(&self) -> Seq<char> {
        self.root@
    }

    /// Whether a file name looks like an upcaster's (the pattern is not
    /// consulted).
    pub fn matches_upcaster_pattern(&self, file_name: &str, pattern: &str) -> (r: bool)
        ensures
            r == is_upcaster_name(file_name@),
    {
        is_upcaster_file_name(file_name)
    }

    /// The upcaster the file at `path`, named `file_name`, describes, if
    /// its name has one of the two forms.
    pub fn parse_upcaster(&self, path: &str, file_name: &str) -> (r: Result<Option<Upcaster>, VsaError>)
        requires
            file_name@ == file_name_or_empty(path@),
        ensures
            r matches Ok(o) && match o {
                Some(u) => is_upcaster_of(u, path@),
                None => upcaster_parts(file_name@) is None,
            },
    {
        parse_upcaster_file(path, file_name)
    }

    /// The upcasters directly in the directory at `dir`, in tree order.
    pub fn scan_upcasters(&self, tree: &ProjectTree, dir: &str, config: &EventVersioningConfig) -> (r:
        Result<Vec<Upcaster>, VsaError>)
        ensures
            r matches Ok(v) && upcasters_scanned(v@, tree.entries@, dir@),
    {
        upcasters_in(tree, dir)
    }

    /// Scan the domain folder: an empty model when it does not exist, an
    /// error when it is no directory; else its aggregates, and its
    /// commands, queries, events and (when versioning is on) upcasters,
    /// from their folders where they exist.
    pub fn scan(&self, tree: &ProjectTree) -> (r: Result<DomainModel, VsaError>)
        ensures
            domain_scan_outcome(r, tree.entries@, self.spec_config(), self.spec_root()),
    {
        scan_domain(&self.config, tree, self.root.as_str())
    }
}

/// Whether a file name looks like an upcaster's (the pattern is not
/// consulted).
pub fn is_upcaster_file_name(file_name: &str) -> (r: bool)
    ensures
        r == is_upcaster_name(file_name@),
{
    str_contains(file_name, "_to_") || str_contains(file_name, "Upcaster") || str_contains(
        file_name,
        "upcaster",
    )
}

/// The upcaster the file at `path`, named `file_name`, describes, if
/// its name has one of the two forms.
pub fn parse_upcaster_file(path: &str, file_name: &str) -> (r: Result<Option<Upcaster>, VsaError>)
    requires
        file_name@ == file_name_or_empty(path@),
    ensures
        r matches Ok(o) && match o {
            Some(u) => is_upcaster_of(u, path@),
            None => upcaster_parts(file_name@) is None,
        },
{
    let n = strip_event_ext_str(file_name);
    let parts = match rsplit_once_exec(n.as_str(), "_to_") {
        Some((head, to)) => match rsplit_once_exec(head.as_str(), "_") {
            Some((t, from)) => Some((t, from, to)),
            None => upcaster_class_parts_exec(n.as_str()),
        },
        None => upcaster_class_parts_exec(n.as_str()),
    };
    match parts {
        Some((event_type, from_version, to_version)) => Ok(
            Some(
                Upcaster {
                    event_type,
                    from_version,
                    to_version,
                    file_path: owned(path),
                    decorator_present: false,
                },
            ),
        ),
        None => Ok(None),
    }
}

/// The upcasters directly in the directory at `dir`, in tree order.
pub fn upcasters_in(tree: &ProjectTree, dir: &str) -> (r:
    Result<Vec<Upcaster>, VsaError>)
    ensures
        r matches Ok(v) && upcasters_scanned(v@, tree.entries@, dir@),
{
    let ghost es = tree.entries@;
    let ghost pred = |i: int| is_upcaster_entry(es, dir@, i);
    let mut out: Vec<Upcaster> = Vec::new();
    let is_dir = tree.is_dir(dir);
    let mut i: usize = 0;
    while i < tree.entries.len()
        invariant
            i <= es.len(),
            es == tree.entries@,
            is_dir == path_is_dir(es, dir@),
            pred == (|i: int| is_upcaster_entry(es, dir@, i)),
            out@.len() == indices_where(i as int, pred).len(),
            forall|k: int|
                0 <= k < out@.len() ==> is_upcaster_of(
                    #[trigger] out@[k],
                    es[indices_where(i as int, pred)[k]].path@,
                ),
        decreases tree.entries.len() - i,
    {
        let ghost prev = indices_where(i as int, pred);
        let e = &tree.entries[i];
        let in_dir = match path_parent_str(e.path.as_str()) {
            Some(q) => crate::text::str_eq(q.as_str(), dir),
            None => false,
        };
        let name = match file_name_str(e.path.as_str()) {
            Some(n) => n,
            None => String::new(),
        };
        assert(name@ == file_name_or_empty(es[i as int].path@));
        let mut found = false;
        if is_dir && in_dir && !e.is_dir && is_upcaster_file_name(name.as_str()) {
            match parse_upcaster_file(e.path.as_str(), name.as_str()) {
                Ok(Some(u)) => {
                    out.push(u);
                    found = true;
                },
                _ => {},
            }
        }
        if found {
            assert(pred(i as int));
            assert(indices_where(i + 1, pred) == prev.push(i as int));
            assert forall|k: int| 0 <= k < out@.len() implies is_upcaster_of(
                #[trigger] out@[k],
                es[indices_where(i + 1, pred)[k]].path@,
            ) by {
                if k < prev.len() {
                    assert(indices_where(i + 1, pred)[k] == prev[k]);
                }
            }
        } else {
            assert(!pred(i as int));
            assert(indices_where(i + 1, pred) == prev);
        }
        i = i + 1;
    }
    Ok(out)
}

/// Scan the domain folder under `root`, as `config` describes it (see
/// `DomainScanner::scan`).
pub fn scan_domain(config: &DomainConfig, tree: &ProjectTree, root: &str) -> (r: Result<DomainModel, VsaError>)
    ensures
        domain_scan_outcome(r, tree.entries@, *config, root@),
{
    let domain_path = push_path_str(root, config.path.as_str());
    if !tree.has_path(domain_path.as_str()) {
        return Ok(DomainModel::new(domain_path));
    }
    if !tree.is_dir(domain_path.as_str()) {
        let mut msg = owned("Domain path is not a directory: ");
        msg.append(domain_path.as_str());
        return Err(VsaError::IoError(msg));
    }
    let ghost es = tree.entries@;
    let ghost d = domain_path@;
    let mut model = DomainModel::new(domain_path.clone());
    let aggregates = AggregateScanner::new(&config.aggregates, domain_path.as_str());
    model.aggregates = match aggregates.scan(tree) {
        Ok(v) => v,
        Err(e) => return Err(e),
    };
    assert(aggregates_readable(es, d));
    let commands_path = push_path_str(domain_path.as_str(), config.commands.path.as_str());
    let ghost cp = commands_path@;
    if tree.has_path(commands_path.as_str()) {
        let commands = CommandScanner::new(&config.commands, commands_path.as_str());
        model.commands = match commands.scan(tree) {
            Ok(v) => v,
            Err(e) => return Err(e),
        };
        proof {
            let idx = suffixed_files(es, cp, "Command"@);
            assert forall|k: int| 0 <= k < idx.len() implies (#[trigger] es[idx[k]]).content is Some by {
                assert(super::command_scanner::command_at(model.commands@[k], es[idx[k]]));
            }
            assert(commands_readable(es, cp));
        }
    }
    let queries_path = push_path_str(domain_path.as_str(), config.queries.path.as_str());
    if tree.has_path(queries_path.as_str()) {
        let queries = QueryScanner::new(&config.queries, queries_path.as_str());
        model.queries = match queries.scan(tree) {
            Ok(v) => v,
            Err(e) => return Err(e),
        };
    }
    let events_path = push_path_str(domain_path.as_str(), config.events.path.as_str());
    if tree.has_path(events_path.as_str()) {
        let events = EventScanner::new(&config.events, events_path.as_str());
        model.events = match events.scan(tree) {
            Ok(v) => v,
            Err(e) => return Err(e),
        };
    }
    if config.events.versioning.enabled {
        let upcasters_path = push_path_str(
            events_path.as_str(),
            config.events.versioning.upcasters_path.as_str(),
        );
        if tree.has_path(upcasters_path.as_str()) {
            model.upcasters = match upcasters_in(tree, upcasters_path.as_str()) {
                Ok(v) => v,
                Err(e) => return Err(e),
            };
        }
    }
    Ok(model)
}



/// Whether scanning the domain folder under `root` succeeds: it does not
/// exist, or it is a directory whose files could all be read.
pub open spec fn domain_scan_ok(es: Seq<FsEntry>, config: DomainConfig, root: Seq<char>) -> bool {
    let d = domain_dir(config, root);
    !path_exists(es, d) || (path_is_dir(es, d) && domain_readable(es, config, root))
}

/// The number of aggregates a successful scan of the domain folder under
/// `root` finds.
pub open spec fn domain_aggregate_count(es: Seq<FsEntry>, config: DomainConfig, root: Seq<char>) -> nat {
    let d = domain_dir(config, root);
    if path_exists(es, d) && path_is_dir(es, d) {
        super::aggregate_scanner::aggregate_sources(es, d).len()
    } else {
        0
    }
}

/// Whether `a` is `b` marked as belonging to context `name`.
pub open spec fn tagged(opt: Option<String>, name: Seq<char>) -> bool {
    opt matches Some(c) && c@ == name
}

/// Whether `r` is `m` with every aggregate, command and event marked as
/// belonging to context `name`.
pub open spec fn model_tagged(r: DomainModel, m: DomainModel, name: Seq<char>) -> bool {
    &&& r.aggregates@.len() == m.aggregates@.len()
    &&& forall|k: int|
        0 <= k < r.aggregates@.len() ==> tagged((#[trigger] r.aggregates@[k]).context, name)
            && r.aggregates@[k].name == m.aggregates@[k].name && r.aggregates@[k].file_path
            == m.aggregates@[k].file_path && r.aggregates@[k].line_count
            == m.aggregates@[k].line_count && r.aggregates@[k].command_handlers
            == m.aggregates@[k].command_handlers && r.aggregates@[k].event_handlers
            == m.aggregates@[k].event_handlers && r.aggregates@[k].entities
            == m.aggregates@[k].entities && r.aggregates@[k].value_objects
            == m.aggregates@[k].value_objects && r.aggregates@[k].folder_name
            == m.aggregates@[k].folder_name
    &&& r.commands@.len() == m.commands@.len()
    &&& forall|k: int|
        0 <= k < r.commands@.len() ==> tagged((#[trigger] r.commands@[k]).context, name)
            && r.commands@[k].name == m.commands@[k].name && r.commands@[k].file_path
            == m.commands@[k].file_path && r.commands@[k].has_aggregate_id
            == m.commands@[k].has_aggregate_id && r.commands@[k].fields == m.commands@[k].fields
    &&& r.events@.len() == m.events@.len()
    &&& forall|k: int|
        0 <= k < r.events@.len() ==> tagged((#[trigger] r.events@[k]).context, name)
            && r.events@[k].name == m.events@[k].name && r.events@[k].event_type
            == m.events@[k].event_type && r.events@[k].version == m.events@[k].version
            && r.events@[k].file_path == m.events@[k].file_path && r.events@[k].fields
            == m.events@[k].fields && r.events@[k].decorator_present
            == m.events@[k].decorator_present
    &&& r.queries == m.queries
    &&& r.projections == m.projections
    &&& r.upcasters == m.upcasters
    &&& r.value_objects == m.value_objects
    &&& r.root_path == m.root_path
}

/// `m` with every aggregate, command and event marked as belonging to
/// context `name`.
fn tag_model(m: DomainModel, name: &str) -> (r: DomainModel)
    ensures
        model_tagged(r, m, name@),
{
    let ghost m0 = m;
    let DomainModel { aggregates, commands, queries, events, projections, upcasters, value_objects, root_path } = m;
    let mut aggs: Vec<crate::domain::Aggregate> = Vec::new();
    let mut aggregates = aggregates;
    let ghost av = aggregates@;
    let mut i: usize = 0;
    let n = aggregates.len();
    while i < n
        invariant
            n == av.len(),
            aggregates@.len() == av.len() - i,
            i <= n,
            forall|k: int| 0 <= k < aggregates@.len() ==> aggregates@[k] == av[k + i],
            aggs@.len() == i,
            forall|k: int|
                0 <= k < i ==> tagged((#[trigger] aggs@[k]).context, name@) && aggs@[k].name
                    == av[k].name && aggs@[k].file_path == av[k].file_path && aggs@[k].line_count
                    == av[k].line_count && aggs@[k].command_handlers == av[k].command_handlers
                    && aggs@[k].event_handlers == av[k].event_handlers && aggs@[k].entities
                    == av[k].entities && aggs@[k].value_objects == av[k].value_objects
                    && aggs@[k].folder_name == av[k].folder_name,
        decreases n - i,
    {
        let a = aggregates.remove(0);
        aggs.push(crate::domain::Aggregate { context: Some(owned(name)), ..a });
        i = i + 1;
    }
    let mut cmds: Vec<crate::domain::Command> = Vec::new();
    let mut commands = commands;
    let ghost cv = commands@;
    let mut i: usize = 0;
    let n = commands.len();
    while i < n
        invariant
            n == cv.len(),
            commands@.len() == cv.len() - i,
            i <= n,
            forall|k: int| 0 <= k < commands@.len() ==> commands@[k] == cv[k + i],
            cmds@.len() == i,
            forall|k: int|
                0 <= k < i ==> tagged((#[trigger] cmds@[k]).context, name@) && cmds@[k].name
                    == cv[k].name && cmds@[k].file_path == cv[k].file_path
                    && cmds@[k].has_aggregate_id == cv[k].has_aggregate_id && cmds@[k].fields
                    == cv[k].fields,
        decreases n - i,
    {
        let c = commands.remove(0);
        cmds.push(crate::domain::Command { context: Some(owned(name)), ..c });
        i = i + 1;
    }
    let mut evs: Vec<crate::domain::Event> = Vec::new();
    let mut events = events;
    let ghost ev = events@;
    let mut i: usize = 0;
    let n = events.len();
    while i < n
        invariant
            n == ev.len(),
            events@.len() == ev.len() - i,
            i <= n,
            forall|k: int| 0 <= k < events@.len() ==> events@[k] == ev[k + i],
            evs@.len() == i,
            forall|k: int|
                0 <= k < i ==> tagged((#[trigger] evs@[k]).context, name@) && evs@[k].name
                    == ev[k].name && evs@[k].event_type == ev[k].event_type && evs@[k].version
                    == ev[k].version && evs@[k].file_path == ev[k].file_path && evs@[k].fields
                    == ev[k].fields && evs@[k].decorator_present == ev[k].decorator_present,
        decreases n - i,
    {
        let e = events.remove(0);
        evs.push(crate::domain::Event { context: Some(owned(name)), ..e });
        i = i + 1;
    }
    DomainModel {
        aggregates: aggs,
        commands: cmds,
        queries,
        events: evs,
        projections,
        upcasters,
        value_objects,
        root_path,
    }
}

/// Scan the domain folder of the context at `context_path`, named
/// `context_name`, marking its aggregates, commands and events as the
/// context's.
pub fn scan_context_domain(
    config: &DomainConfig,
    tree: &ProjectTree,
    context_path: &str,
    context_name: &str,
) -> (r:
    Result<DomainModel, VsaError>)
    ensures
        r is Ok <==> domain_scan_ok(tree.entries@, *config, context_path@),
        r matches Ok(m) ==> m.aggregates@.len() == domain_aggregate_count(
            tree.entries@,
            *config,
            context_path@,
        ) && exists|m0: DomainModel|
            domain_scan_outcome(Ok(m0), tree.entries@, *config, context_path@)
                && #[trigger] model_tagged(m, m0, context_name@),
{
    match scan_domain(config, tree, context_path) {
        Ok(m) => {
            let ghost m0 = m;
            let t = tag_model(m, context_name);
            proof {
                let d = domain_dir(*config, context_path@);
                if path_exists(tree.entries@, d) && path_is_dir(tree.entries@, d) {
                    assert(aggregate_scan_outcome(
                        Ok::<Vec<crate::domain::Aggregate>, VsaError>(m0.aggregates),
                        tree.entries@,
                        d,
                    ));
                }
                assert(model_tagged(t, m0, context_name@));
            }
            Ok(t)
        },
        Err(e) => Err(e),
    }
}

impl DomainScanner {
    /// Scan the domain folder of the context at `context_path`, named
    /// `context_name`, marking its aggregates, commands and events as the
    /// context's.
    pub fn scan_context(&self, tree: &ProjectTree, context_path: &str, context_name: &str) -> (r:
        Result<DomainModel, VsaError>)
        ensures
            r is Ok <==> domain_scan_ok(tree.entries@, self.spec_config(), context_path@),
            r matches Ok(m) ==> m.aggregates@.len() == domain_aggregate_count(
                tree.entries@,
                self.spec_config(),
                context_path@,
            ) && exists|m0: DomainModel|
                domain_scan_outcome(Ok(m0), tree.entries@, self.spec_config(), context_path@)
                    && #[trigger] model_tagged(m, m0, context_name@),
    {
        scan_context_domain(&self.config, tree, context_path, context_name)
    }
}

} // verus!
