//! The event scanner: finds event files (`*Event.*`, optionally with a
//! version such as `.v2` or `.2.1.0` before the extension) and reads their
//! name, type and version from the file name.

use vstd::prelude::*;

use crate::assoc::strs;
use crate::config::EventConfig;
use crate::domain::event::{Event, EventVersion, VersionValue, parse_version};
use crate::error::VsaError;
use crate::path::{file_name_of, file_name_str, push_path, push_path_str};
use crate::text::{
    chars_of, ends_with, owned, parse_u32, parse_u32_chars,
    slice_chars, split_chars, split_on, starts_with, str_ends_with, str_eq,
    str_starts_with, string_of,
};
use crate::tree::{FsEntry, ProjectTree, holder_chain, indices_where, path_exists};

verus! {

/// Scanner for finding events.
pub struct EventScanner<'a> {
    config: &'a EventConfig,
    root: &'a str,
}

/// A file name without `.ts`, `.py` or `.rs`.
pub open spec fn strip_event_ext(f: Seq<char>) -> Seq<char> {
    if ends_with(f, ".ts"@) {
        f.subrange(0, f.len() - 3)
    } else if ends_with(f, ".py"@) {
        f.subrange(0, f.len() - 3)
    } else if ends_with(f, ".rs"@) {
        f.subrange(0, f.len() - 3)
    } else {
        f
    }
}

/// Whether a file name is an event's: without its extension and without
/// its version suffix (`.v2`, `.2.1.0`; see `name_and_version`), it ends in
/// `Event`.
pub open spec fn matches_event_pattern(file_name: Seq<char>) -> bool {
    ends_with(name_and_version(strip_event_ext(file_name)).0, "Event"@)
}

/// The name of an event and its version, from a file name without its
/// extension: `name.major.minor.patch`, `name.version`, or `name` at `v1`.
pub open spec fn name_and_version(name: Seq<char>) -> (Seq<char>, VersionValue) {
    let parts = split_on(name, '.');
    if parts.len() == 4 && parse_u32(parts[1]) is Some && parse_u32(parts[2]) is Some && parse_u32(
        parts[3],
    ) is Some {
        (
            parts[0],
            VersionValue::Semver(
                parse_u32(parts[1])->0,
                parse_u32(parts[2])->0,
                parse_u32(parts[3])->0,
            ),
        )
    } else if parts.len() == 2 && parse_version(parts[1]) is Some {
        (parts[0], parse_version(parts[1])->0)
    } else {
        (name, VersionValue::Simple("v1"@))
    }
}

/// The type of an event named `name`: the name without one `Event` at its
/// end.
pub open spec fn event_type_of(name: Seq<char>) -> Seq<char> {
    if ends_with(name, "Event"@) {
        name.subrange(0, name.len() - 5)
    } else {
        name
    }
}

/// The name, type and version an event file name gives.
pub open spec fn event_info(file_name: Seq<char>) -> (Seq<char>, Seq<char>, VersionValue) {
    let (name, version) = name_and_version(strip_event_ext(file_name));
    (name, event_type_of(name), version)
}

/// Whether the scan enters directory `x`: it has a name that starts with
/// no `.` and is neither `_upcasters` nor the versioned path `vp`.
pub open spec fn event_scan_enters(x: Seq<char>, vp: Seq<char>) -> bool {
    match file_name_of(x) {
        Some(n) => !starts_with(n, "."@) && n != "_upcasters"@ && n != vp,
        None => false,
    }
}

/// Whether the scan enters every directory of `c` after the first.
pub open spec fn event_scan_enters_below(c: Seq<Seq<char>>, vp: Seq<char>) -> bool {
    forall|j: int| 1 <= j < c.len() ==> event_scan_enters(#[trigger] c[j], vp)
}

/// Whether entry `i` is an event file a scan from `base` meets.
pub open spec fn is_event_entry(es: Seq<FsEntry>, base: Seq<char>, vp: Seq<char>, i: int) -> bool {
    let p = es[i].path@;
    &&& !es[i].is_dir
    &&& file_name_of(p) matches Some(n) && matches_event_pattern(n)
    &&& holder_chain(es, base, p) matches Some(c) && event_scan_enters_below(c, vp)
}

/// Positions of the event files a scan from `base` meets, in tree order.
pub open spec fn event_indices(es: Seq<FsEntry>, base: Seq<char>, vp: Seq<char>) -> Seq<int> {
    indices_where(es.len() as int, |i: int| is_event_entry(es, base, vp, i))
}

/// Whether `e` is the event the file at `p` describes.
pub open spec fn is_event_of(e: Event, p: Seq<char>, versioned: bool) -> bool {
    let info = event_info(crate::validation::file_name_or_empty(p));
    &&& e.name@ == info.0
    &&& e.context is None
    &&& e.event_type@ == info.1
    &&& e.version@ == info.2
    &&& e.file_path@ == p
    &&& e.fields@.len() == 0
    &&& !e.decorator_present
}

/// The paths of the event files a scan meets: those below the root, then,
/// when versioning is on and the versioned directory exists, those below it.
pub open spec fn scanned_event_paths(es: Seq<FsEntry>, config: EventConfig, root: Seq<char>) -> Seq<
    Seq<char>,
> {
    let vp = config.versioning.versioned_path@;
    let vdir = push_path(root, vp);
    event_indices(es, root, vp).map_values(|i: int| es[i].path@) + if config.versioning.enabled
        && path_exists(es, vdir) {
        event_indices(es, vdir, vp).map_values(|i: int| es[i].path@)
    } else {
        Seq::empty()
    }
}

/// How many of the scanned events come from the root.
pub open spec fn unversioned_count(es: Seq<FsEntry>, config: EventConfig, root: Seq<char>) -> int {
    event_indices(es, root, config.versioning.versioned_path@).len() as int
}

/// Whether `v` is what scanning for events from `root` gives: an event for
/// each scanned event file, in order.
pub open spec fn events_scanned(v: Seq<Event>, es: Seq<FsEntry>, config: EventConfig, root: Seq<char>) -> bool {
    &&& v.len() == scanned_event_paths(es, config, root).len()
    &&& forall|k: int|
        0 <= k < v.len() ==> is_event_of(
            #[trigger] v[k],
            scanned_event_paths(es, config, root)[k],
            k >= unversioned_count(es, config, root),
        )
}

pub(crate) fn strip_event_ext_str(f: &str) -> (r: String)
    ensures
        r@ == strip_event_ext(f@),
{
    let fc = chars_of(f);
    let n = fc.len();
    let cut: usize = if str_ends_with(f, ".ts") || str_ends_with(f, ".py") || str_ends_with(
        f,
        ".rs",
    ) {
        3
    } else {
        0
    };
    proof {
        reveal_strlit(".ts");
        reveal_strlit(".py");
        reveal_strlit(".rs");
    }
    let v = slice_chars(fc.as_slice(), 0, n - cut);
    assert(fc@.subrange(0, fc@.len() as int) =~= fc@);
    string_of(v.as_slice())
}

/// The name and version of an event, from its file name without extension.
fn name_and_version_exec(name: &str) -> (r: (String, EventVersion))
    ensures
        (r.0@, r.1@) == name_and_version(name@),
{
    let nc = chars_of(name);
    let parts = split_chars(nc.as_slice(), '.');
    let ghost pv = parts@.map_values(|p: Vec<char>| p@);
    assert(pv == split_on(name@, '.'));
    if parts.len() == 4 {
        assert(pv[1] == parts@[1]@ && pv[2] == parts@[2]@ && pv[3] == parts@[3]@);
        let a = parse_u32_chars(parts[1].as_slice());
        let b = parse_u32_chars(parts[2].as_slice());
        let c = parse_u32_chars(parts[3].as_slice());
        match (a, b, c) {
            (Some(a), Some(b), Some(c)) => {
                assert(pv[0] == parts@[0]@);
                return (string_of(parts[0].as_slice()), EventVersion::Semver(a, b, c));
            },
            _ => {},
        }
    }
    if parts.len() == 2 {
        assert(pv[0] == parts@[0]@ && pv[1] == parts@[1]@);
        let second = string_of(parts[1].as_slice());
        match EventVersion::parse(second.as_str()) {
            Some(v) => {
                return (string_of(parts[0].as_slice()), v);
            },
            None => {},
        }
    }
    proof {
        reveal_strlit("v1");
    }
    (owned(name), EventVersion::Simple(owned("v1")))
}

impl<'a> EventScanner<'a> {
    /// A scanner of the events below `root`.
    pub fn new(config: &'a EventConfig, root: &'a str) -> (r: Self)
        ensures
            r.spec_config() == *config,
            r.spec_root() == root@,
    {
        EventScanner { config, root }
    }

    /// The configuration.
    pub closed spec fn spec_config(&self) -> EventConfig {
        *self.config
    }

    /// The root the scanner searches.
    pub closed spec fn spec_root(&self) -> Seq<char> {
        self.root@
    }

    /// Whether a file name is an event's.
    pub fn matches_pattern(&self, file_name: &str) -> (r: bool)
        ensures
            r == matches_event_pattern(file_name@),
    {
        let n = strip_event_ext_str(file_name);
        let (base, _version) = name_and_version_exec(n.as_str());
        str_ends_with(base.as_str(), "Event")
    }

    /// The name, type and version an event file name gives.
    pub fn extract_event_info(&self, file_name: &str, is_versioned: bool) -> (r: Result<
        (String, String, EventVersion),
        VsaError,
    >)
        ensures
            r matches Ok(t) && (t.0@, t.1@, t.2@) == event_info(file_name@),
    {
        let n = strip_event_ext_str(file_name);
        let (base, version) = name_and_version_exec(n.as_str());
        let event_type = if str_ends_with(base.as_str(), "Event") {
            proof {
                reveal_strlit("Event");
            }
            let bc = chars_of(base.as_str());
            let v = slice_chars(bc.as_slice(), 0, bc.len() - 5);
            string_of(v.as_slice())
        } else {
            owned(base.as_str())
        };
        Ok((base, event_type, version))
    }

    /// The event the file at `path`, named `file_name`, describes.
    pub fn parse_event(&self, path: &str, file_name: &str, is_versioned: bool) -> (r: Result<
        Option<Event>,
        VsaError,
    >)
        requires
            file_name@ == crate::validation::file_name_or_empty(path@),
        ensures
            r matches Ok(Some(e)) && is_event_of(e, path@, is_versioned),
    {
        let (name, event_type, version) = match self.extract_event_info(file_name, is_versioned) {
            Ok(t) => t,
            Err(e) => return Err(e),
        };
        Ok(
            Some(
                Event {
                    name,
                    context: None,
                    event_type,
                    version,
                    file_path: owned(path),
                    fields: Vec::new(),
                    decorator_present: false,
                },
            ),
        )
    }

    fn is_event_entry_exec(&self, tree: &ProjectTree, base: &str, i: usize) -> (r: bool)
        requires
            i < tree.entries@.len(),
        ensures
            r == is_event_entry(tree.entries@, base@, self.spec_config().versioning.versioned_path@, i as int),
    {
        let e = &tree.entries[i];
        if e.is_dir {
            return false;
        }
        let named = match file_name_str(e.path.as_str()) {
            Some(n) => self.matches_pattern(n.as_str()),
            None => false,
        };
        if !named {
            return false;
        }
        let vp = self.config.versioning.versioned_path.as_str();
        match tree.holder_chain_exec(base, e.path.as_str()) {
            Some(c) => {
                let ghost cs = strs(c@);
                let mut j: usize = 1;
                while j < c.len()
                    invariant
                        1 <= j,
                        cs == strs(c@),
                        i < tree.entries@.len(),
                        vp@ == self.spec_config().versioning.versioned_path@,
                        holder_chain(tree.entries@, base@, tree.entries@[i as int].path@) == Some(cs),
                        forall|m: int| 1 <= m < j && m < cs.len() ==> event_scan_enters(#[trigger] cs[m], vp@),
                    decreases c.len() - j,
                {
                    assert(cs[j as int] == c@[j as int]@);
                    let enters = match file_name_str(c[j].as_str()) {
                        Some(n) => !str_starts_with(n.as_str(), ".") && !str_eq(n.as_str(), "_upcasters")
                            && !str_eq(n.as_str(), vp),
                        None => false,
                    };
                    if !enters {
                        assert(!event_scan_enters(cs[j as int], vp@));
                        return false;
                    }
                    j = j + 1;
                }
                true
            },
            None => false,
        }
    }

    /// Appends the events a scan from `base` meets.
    fn scan_directory(&self, tree: &ProjectTree, base: &str, is_versioned: bool, events: &mut Vec<Event>)
        ensures
            final(events)@.len() == old(events)@.len() + event_indices(
                tree.entries@,
                base@,
                self.spec_config().versioning.versioned_path@,
            ).len(),
            forall|k: int|
                0 <= k < old(events)@.len() ==> #[trigger] final(events)@[k] == old(events)@[k],
            forall|k: int|
                0 <= k < event_indices(tree.entries@, base@, self.spec_config().versioning.versioned_path@).len()
                    ==> is_event_of(
                    #[trigger] final(events)@[old(events)@.len() + k],
                    tree.entries@[event_indices(tree.entries@, base@, self.spec_config().versioning.versioned_path@)[k]].path@,
                    is_versioned,
                ),
    {
        let ghost es = tree.entries@;
        let ghost vp = self.config.versioning.versioned_path@;
        let ghost pred = |i: int| is_event_entry(es, base@, vp, i);
        let ghost n0 = events@.len();
        let ghost old_events = events@;
        let mut i: usize = 0;
        while i < tree.entries.len()
            invariant
                i <= es.len(),
                es == tree.entries@,
                vp == self.spec_config().versioning.versioned_path@,
                pred == (|i: int| is_event_entry(es, base@, vp, i)),
                n0 == old_events.len(),
                events@.len() == n0 + indices_where(i as int, pred).len(),
                forall|k: int| 0 <= k < n0 ==> #[trigger] events@[k] == old_events[k],
                forall|k: int|
                    0 <= k < indices_where(i as int, pred).len() ==> is_event_of(
                        #[trigger] events@[n0 + k],
                        es[indices_where(i as int, pred)[k]].path@,
                        is_versioned,
                    ),
            decreases tree.entries.len() - i,
        {
            let ghost prev = indices_where(i as int, pred);
            if self.is_event_entry_exec(tree, base, i) {
                assert(indices_where(i + 1, pred) == prev.push(i as int));
                let e = &tree.entries[i];
                let name = match file_name_str(e.path.as_str()) {
                    Some(n) => n,
                    None => String::new(),
                };
                match self.parse_event(e.path.as_str(), name.as_str(), is_versioned) {
                    Ok(Some(ev)) => {
                        events.push(ev);
                    },
                    _ => {},
                }
                assert forall|k: int| 0 <= k < indices_where(i + 1, pred).len() implies is_event_of(
                    #[trigger] events@[n0 + k],
                    es[indices_where(i + 1, pred)[k]].path@,
                    is_versioned,
                ) by {
                    if k < prev.len() {
                        assert(indices_where(i + 1, pred)[k] == prev[k]);
                    }
                }
            } else {
                assert(indices_where(i + 1, pred) == prev);
            }
            i = i + 1;
        }
    }

    /// Scan for events: those below the root, then, when versioning is on
    /// and the versioned directory exists, those below it (marked as
    /// versioned). Directories that are hidden, `_upcasters` or named like
    /// the versioned path are not entered.
    pub fn scan(&self, tree: &ProjectTree) -> (r: Result<Vec<Event>, VsaError>)
        ensures
            r matches Ok(v) && events_scanned(v@, tree.entries@, self.spec_config(), self.spec_root()),
    {
        let ghost es = tree.entries@;
        let ghost vp = self.config.versioning.versioned_path@;
        let ghost root = self.root@;
        let mut events: Vec<Event> = Vec::new();
        self.scan_directory(tree, self.root, false, &mut events);
        let ghost n1 = events@.len();
        let ghost ev1 = events@;
        let ghost first = event_indices(es, root, vp).map_values(|i: int| es[i].path@);
        let vdir = push_path_str(self.root, self.config.versioning.versioned_path.as_str());
        let ghost vdir_s = vdir@;
        let cond = self.config.versioning.enabled && tree.has_path(vdir.as_str());
        if cond {
            self.scan_directory(tree, vdir.as_str(), true, &mut events);
        }
        proof {
            let all = scanned_event_paths(es, *self.config, root);
            let second = event_indices(es, vdir_s, vp).map_values(|i: int| es[i].path@);
            assert(vdir_s == push_path(root, vp));
            if cond {
                assert(all =~= first + second);
            } else {
                assert(all =~= first);
            }
            assert(n1 == unversioned_count(es, *self.config, root));
            assert forall|k: int| 0 <= k < events@.len() implies is_event_of(
                #[trigger] events@[k],
                all[k],
                k >= unversioned_count(es, *self.config, root),
            ) by {
                if k < n1 {
                    assert(all[k] == first[k]);
                    assert(events@[k] == ev1[k]);
                    assert(ev1[0 + k] == ev1[k]);
                } else {
                    assert(all[k] == second[k - n1]);
                    assert(events@[n1 + (k - n1)] == events@[k]);
                }
            }
        }
        Ok(events)
    }
}

} // verus!
