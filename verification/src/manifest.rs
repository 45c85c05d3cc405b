//! The project manifest: contexts, their features and slice types, and the
//! relationships of the domain model.

use vstd::prelude::*;

use crate::assoc::{
    as_list_map, as_map, assoc_append, assoc_insert, keys_unique, strs,
};
use crate::config::{ContextType, SliceType};
use crate::domain::{
    Aggregate, Command, CommandHandler, DomainModel, Event, EventHandler, Projection, Query,
    Upcaster, ValueObject,
};
use crate::text::{contains, ends_with, owned, starts_with, str_contains, str_ends_with, str_eq, str_starts_with};
use crate::config::{DomainConfig, VsaConfig};
use crate::error::VsaError;
use crate::path::{push_path, push_path_str};
use crate::scanner::{
    ContextInfo, context_indices, contexts_in, contexts_match, entry_name, feature_file_paths,
    feature_paths_of, features_in, features_named, file_paths_of, files_in, files_named,
    relative_to,
};
use crate::scanners::domain_scanner::{
    domain_aggregate_count, domain_dir, domain_scan_ok, domain_scan_outcome, model_tagged,
    scan_context_domain, scan_domain,
};
use crate::tree::{FsEntry, ProjectTree, depth_below, depth_below_exec, indices_where, is_child_path, path_exists, path_is_dir, path_is_file};
use crate::validation::bounded_context_rules::{context_count, context_path};
use crate::validation::file_name_or_empty;
use crate::validation::slice_location_rules::context_features;

verus! {

/// Manifest schema version.
pub const MANIFEST_SCHEMA_VERSION: &'static str = "2.3.0";

/// VSA manifest.
#[derive(Debug)]
pub struct Manifest {
    pub version: String,
    pub schema_version: String,
    pub generated_at: String,
    pub bounded_contexts: Vec<ContextManifest>,
    pub domain: Option<DomainManifest>,
}

/// Context manifest entry.
#[derive(Debug)]
pub struct ContextManifest {
    pub name: String,
    pub path: String,
    pub features: Vec<FeatureManifest>,
    /// A bounded context has aggregates; a directory without is an invalid
    /// module.
    pub context_type: ContextType,
    /// Number of aggregates in this context.
    pub aggregate_count: usize,
    /// Infrastructure folders (repositories, buses, ...).
    pub infrastructure_folders: Vec<String>,
}

/// Feature manifest entry.
#[derive(Debug)]
pub struct FeatureManifest {
    pub name: String,
    pub path: String,
    pub files: Vec<String>,
    /// The kind of slice, detected from the file names.
    pub slice_type: SliceType,
}

/// Domain manifest: all domain model components and their relationships.
#[derive(Debug)]
pub struct DomainManifest {
    pub aggregates: Vec<Aggregate>,
    pub commands: Vec<Command>,
    pub events: Vec<Event>,
    pub queries: Vec<Query>,
    pub projections: Vec<Projection>,
    pub upcasters: Vec<Upcaster>,
    pub value_objects: Vec<ValueObject>,
    pub relationships: Relationships,
}

/// Relationships between domain components, each a table keyed by name.
#[derive(Debug)]
pub struct Relationships {
    /// Command name to the aggregate that handles it.
    pub command_to_aggregate: Vec<(String, String)>,
    /// Aggregate name to the events it emits.
    pub aggregate_to_events: Vec<(String, Vec<String>)>,
    /// Event type to the aggregates that apply it.
    pub event_to_handlers: Vec<(String, Vec<String>)>,
    /// Event type to the projections that subscribe to it.
    pub event_to_projections: Vec<(String, Vec<String>)>,
    /// Projection name to the read model it builds.
    pub projection_to_read_model: Vec<(String, String)>,
}

// ============================================================================
// Slice type detection
// ============================================================================

/// A file name without its code extension (`.ts`, `.tsx`, `.py`, `.rs`,
/// `.js`, `.jsx`, tried in that order).
pub open spec fn strip_code_ext(f: Seq<char>) -> Seq<char> {
    if ends_with(f, ".ts"@) {
        f.subrange(0, f.len() - 3)
    } else if ends_with(f, ".tsx"@) {
        f.subrange(0, f.len() - 4)
    } else if ends_with(f, ".py"@) {
        f.subrange(0, f.len() - 3)
    } else if ends_with(f, ".rs"@) {
        f.subrange(0, f.len() - 3)
    } else if ends_with(f, ".js"@) {
        f.subrange(0, f.len() - 3)
    } else if ends_with(f, ".jsx"@) {
        f.subrange(0, f.len() - 4)
    } else {
        f
    }
}

/// A test file name: `.test.` or `_test.` in it, or `test_` at its start.
pub open spec fn is_test_name(f: Seq<char>) -> bool {
    contains(f, ".test."@) || contains(f, "_test."@) || starts_with(f, "test_"@)
}

/// A non-test file that names a command.
pub open spec fn names_command(f: Seq<char>) -> bool {
    !is_test_name(f) && ends_with(strip_code_ext(f), "Command"@)
}

/// A non-test file that names a query or a projection.
pub open spec fn names_query(f: Seq<char>) -> bool {
    let b = strip_code_ext(f);
    !is_test_name(f) && (ends_with(b, "Query"@) || ends_with(b, "Projection"@) || b
        == "projection"@)
}

/// A non-test file that names a saga.
pub open spec fn names_saga(f: Seq<char>) -> bool {
    !is_test_name(f) && ends_with(strip_code_ext(f), "Saga"@)
}

/// The slice type of a feature with files `names`: saga before mixed
/// before query before command.
pub open spec fn slice_type_of(names: Seq<Seq<char>>) -> SliceType {
    let cmd = exists|i: int| 0 <= i < names.len() && names_command(#[trigger] names[i]);
    let query = exists|i: int| 0 <= i < names.len() && names_query(#[trigger] names[i]);
    let saga = exists|i: int| 0 <= i < names.len() && names_saga(#[trigger] names[i]);
    if saga {
        SliceType::Saga
    } else if cmd && query {
        SliceType::Mixed
    } else if query {
        SliceType::Query
    } else if cmd {
        SliceType::Command
    } else {
        SliceType::Unknown
    }
}

fn strip_code_ext_exec(f: &str) -> (r: String)
    ensures
        r@ == strip_code_ext(f@),
{
    let fc = crate::text::chars_of(f);
    let n = fc.len();
    let cut: usize = if str_ends_with(f, ".ts") {
        3
    } else if str_ends_with(f, ".tsx") {
        4
    } else if str_ends_with(f, ".py") {
        3
    } else if str_ends_with(f, ".rs") {
        3
    } else if str_ends_with(f, ".js") {
        3
    } else if str_ends_with(f, ".jsx") {
        4
    } else {
        0
    };
    proof {
        reveal_strlit(".ts");
        reveal_strlit(".tsx");
        reveal_strlit(".py");
        reveal_strlit(".rs");
        reveal_strlit(".js");
        reveal_strlit(".jsx");
    }
    let v = crate::text::slice_chars(fc.as_slice(), 0, n - cut);
    assert(fc@.subrange(0, fc@.len() as int) =~= fc@);
    crate::text::string_of(v.as_slice())
}

fn is_test_name_exec(f: &str) -> (r: bool)
    ensures
        r == is_test_name(f@),
{
    str_contains(f, ".test.") || str_contains(f, "_test.") || str_starts_with(f, "test_")
}

impl Manifest {
    /// Detect the slice type from the file names of a feature: a saga file
    /// makes a saga slice; command and query files together a mixed one;
    /// test files are ignored.
    pub fn detect_slice_type(file_names: &[String]) -> (r: SliceType)
        ensures
            r == slice_type_of(strs(file_names@)),
    {
        let ghost names = strs(file_names@);
        let mut has_command = false;
        let mut has_query = false;
        let mut has_saga = false;
        let mut i: usize = 0;
        while i < file_names.len()
            invariant
                i <= file_names.len(),
                names == strs(file_names@),
                has_command == exists|k: int| 0 <= k < i && names_command(#[trigger] names[k]),
                has_query == exists|k: int| 0 <= k < i && names_query(#[trigger] names[k]),
                has_saga == exists|k: int| 0 <= k < i && names_saga(#[trigger] names[k]),
            decreases file_names.len() - i,
        {
            let f = file_names[i].as_str();
            assert(names[i as int] == f@);
            if !is_test_name_exec(f) {
                let base = strip_code_ext_exec(f);
                let b = base.as_str();
                if str_ends_with(b, "Command") {
                    has_command = true;
                }
                if str_ends_with(b, "Query") || str_ends_with(b, "Projection") || str_eq(
                    b,
                    "projection",
                ) {
                    has_query = true;
                }
                if str_ends_with(b, "Saga") {
                    has_saga = true;
                }
            }
            i = i + 1;
        }
        if has_saga {
            SliceType::Saga
        } else if has_command && has_query {
            SliceType::Mixed
        } else if has_query {
            SliceType::Query
        } else if has_command {
            SliceType::Command
        } else {
            SliceType::Unknown
        }
    }
}

// ============================================================================
// Relationships
// ============================================================================

/// `item` appended to the list under `k` (a new list when `k` is new).
pub open spec fn list_push(
    m: Map<Seq<char>, Seq<Seq<char>>>,
    k: Seq<char>,
    item: Seq<char>,
) -> Map<Seq<char>, Seq<Seq<char>>> {
    m.insert(
        k,
        (if m.dom().contains(k) {
            m[k]
        } else {
            Seq::empty()
        }).push(item),
    )
}

/// `item` appended under each key of `keys`, in order.
pub open spec fn push_under_each(
    m: Map<Seq<char>, Seq<Seq<char>>>,
    keys: Seq<Seq<char>>,
    item: Seq<char>,
) -> Map<Seq<char>, Seq<Seq<char>>>
    decreases keys.len(),
{
    if keys.len() == 0 {
        m
    } else {
        list_push(push_under_each(m, keys.drop_last(), item), keys.last(), item)
    }
}

/// `command ↦ aggregate` inserted for each handler of `hs`, in order.
pub open spec fn insert_commands(
    m: Map<Seq<char>, String>,
    hs: Seq<CommandHandler>,
    aggregate: String,
) -> Map<Seq<char>, String>
    decreases hs.len(),
{
    if hs.len() == 0 {
        m
    } else {
        insert_commands(m, hs.drop_last(), aggregate).insert(hs.last().command_type@, aggregate)
    }
}

/// Which aggregate handles each command: the last one, in model order,
/// with a handler for it.
pub open spec fn command_map(aggs: Seq<Aggregate>) -> Map<Seq<char>, String>
    decreases aggs.len(),
{
    if aggs.len() == 0 {
        Map::empty()
    } else {
        insert_commands(
            command_map(aggs.drop_last()),
            aggs.last().command_handlers@,
            aggs.last().name,
        )
    }
}

/// `acc` followed by each element of `xs` not seen before.
pub open spec fn push_new(acc: Seq<Seq<char>>, xs: Seq<Seq<char>>) -> Seq<Seq<char>>
    decreases xs.len(),
{
    if xs.len() == 0 {
        acc
    } else {
        let prev = push_new(acc, xs.drop_last());
        if prev.contains(xs.last()) {
            prev
        } else {
            prev.push(xs.last())
        }
    }
}

/// The events that command handlers `hs` emit, each once, in order of
/// first mention.
pub open spec fn emitted_events(hs: Seq<CommandHandler>) -> Seq<Seq<char>>
    decreases hs.len(),
{
    if hs.len() == 0 {
        Seq::empty()
    } else {
        push_new(emitted_events(hs.drop_last()), strs(hs.last().emits_events@))
    }
}

/// The events each aggregate emits, for the aggregates that emit any (a
/// later aggregate of the same name replacing an earlier one).
pub open spec fn events_map(aggs: Seq<Aggregate>) -> Map<Seq<char>, Seq<Seq<char>>>
    decreases aggs.len(),
{
    if aggs.len() == 0 {
        Map::empty()
    } else {
        let prev = events_map(aggs.drop_last());
        let ev = emitted_events(aggs.last().command_handlers@);
        if ev.len() > 0 {
            prev.insert(aggs.last().name@, ev)
        } else {
            prev
        }
    }
}

/// The event types of event handlers.
pub open spec fn event_types(hs: Seq<EventHandler>) -> Seq<Seq<char>> {
    hs.map_values(|h: EventHandler| h.event_type@)
}

/// For each event, the aggregates that apply it, one entry per handler.
pub open spec fn handlers_map(aggs: Seq<Aggregate>) -> Map<Seq<char>, Seq<Seq<char>>>
    decreases aggs.len(),
{
    if aggs.len() == 0 {
        Map::empty()
    } else {
        push_under_each(
            handlers_map(aggs.drop_last()),
            event_types(aggs.last().event_handlers@),
            aggs.last().name@,
        )
    }
}

/// For each event, the projections subscribing to it, one entry per
/// subscription.
pub open spec fn projections_map(ps: Seq<Projection>) -> Map<Seq<char>, Seq<Seq<char>>>
    decreases ps.len(),
{
    if ps.len() == 0 {
        Map::empty()
    } else {
        push_under_each(
            projections_map(ps.drop_last()),
            strs(ps.last().subscribed_events@),
            ps.last().name@,
        )
    }
}

/// The read model of each projection that names one (the last projection
/// of a name winning).
pub open spec fn read_model_map(ps: Seq<Projection>) -> Map<Seq<char>, String>
    decreases ps.len(),
{
    if ps.len() == 0 {
        Map::empty()
    } else {
        let prev = read_model_map(ps.drop_last());
        match ps.last().read_model {
            Some(rm) => prev.insert(ps.last().name@, rm),
            None => prev,
        }
    }
}

/// Whether `p` is listed under `e` in `m`.
pub open spec fn listed(m: Map<Seq<char>, Seq<Seq<char>>>, e: Seq<char>, p: Seq<char>) -> bool {
    m.dom().contains(e) && m[e].contains(p)
}

proof fn lemma_push_under_each(m: Map<Seq<char>, Seq<Seq<char>>>, keys: Seq<Seq<char>>, item: Seq<char>, e: Seq<char>, p: Seq<char>)
    ensures
        listed(push_under_each(m, keys, item), e, p) <==> listed(m, e, p) || (keys.contains(e) && p == item),
        m.dom().contains(e) ==> push_under_each(m, keys, item).dom().contains(e),
    decreases keys.len(),
{
    if keys.len() > 0 {
        let k0 = keys.drop_last();
        lemma_push_under_each(m, k0, item, e, p);
        let prev = push_under_each(m, k0, item);
        let l = if prev.dom().contains(keys.last()) { prev[keys.last()] } else { Seq::empty() };
        if e == keys.last() {
            assert(l.push(item).contains(p) <==> l.contains(p) || p == item) by {
                if l.push(item).contains(p) {
                    let i = choose|i: int| 0 <= i < l.push(item).len() && l.push(item)[i] == p;
                    if i < l.len() {
                        assert(l[i] == p);
                    }
                }
                if l.contains(p) {
                    let i = choose|i: int| 0 <= i < l.len() && l[i] == p;
                    assert(l.push(item)[i] == p);
                }
                if p == item {
                    assert(l.push(item)[l.len() as int] == p);
                }
            }
            assert(keys.contains(e)) by {
                assert(keys[keys.len() - 1] == e);
            }
        }
        assert(keys.contains(e) <==> k0.contains(e) || e == keys.last()) by {
            if keys.contains(e) {
                let i = choose|i: int| 0 <= i < keys.len() && keys[i] == e;
                if i < k0.len() {
                    assert(k0[i] == e);
                }
            }
            if k0.contains(e) {
                let i = choose|i: int| 0 <= i < k0.len() && k0[i] == e;
                assert(keys[i] == e);
            }
        }
    }
}

/// The projections listed under an event are exactly those subscribing to
/// it: `p` is under `e` in the event-to-projections map iff a projection
/// named `p` subscribes to `e`.
pub proof fn lemma_event_projections(ps: Seq<Projection>, e: Seq<char>, p: Seq<char>)
    ensures
        listed(projections_map(ps), e, p) <==> exists|i: int|
            0 <= i < ps.len() && (#[trigger] ps[i]).name@ == p && strs(ps[i].subscribed_events@).contains(e),
    decreases ps.len(),
{
    if ps.len() > 0 {
        let q = ps.drop_last();
        lemma_event_projections(q, e, p);
        lemma_push_under_each(projections_map(q), strs(ps.last().subscribed_events@), ps.last().name@, e, p);
        if exists|i: int| 0 <= i < ps.len() && (#[trigger] ps[i]).name@ == p && strs(ps[i].subscribed_events@).contains(e) {
            let i = choose|i: int| 0 <= i < ps.len() && (#[trigger] ps[i]).name@ == p && strs(ps[i].subscribed_events@).contains(e);
            if i < q.len() {
                assert(q[i] == ps[i]);
            }
        }
        if exists|i: int| 0 <= i < q.len() && (#[trigger] q[i]).name@ == p && strs(q[i].subscribed_events@).contains(e) {
            let i = choose|i: int| 0 <= i < q.len() && (#[trigger] q[i]).name@ == p && strs(q[i].subscribed_events@).contains(e);
            assert(ps[i] == q[i]);
        }
    }
}

/// The aggregates listed under an event are exactly those with a handler
/// applying it: `a` is under `e` in the event-to-handlers map iff an
/// aggregate named `a` has an event handler for `e`.
pub proof fn lemma_event_handlers(aggs: Seq<Aggregate>, e: Seq<char>, a: Seq<char>)
    ensures
        listed(handlers_map(aggs), e, a) <==> exists|i: int|
            0 <= i < aggs.len() && (#[trigger] aggs[i]).name@ == a && event_types(aggs[i].event_handlers@).contains(e),
    decreases aggs.len(),
{
    if aggs.len() > 0 {
        let q = aggs.drop_last();
        lemma_event_handlers(q, e, a);
        lemma_push_under_each(handlers_map(q), event_types(aggs.last().event_handlers@), aggs.last().name@, e, a);
        if exists|i: int| 0 <= i < aggs.len() && (#[trigger] aggs[i]).name@ == a && event_types(aggs[i].event_handlers@).contains(e) {
            let i = choose|i: int| 0 <= i < aggs.len() && (#[trigger] aggs[i]).name@ == a && event_types(aggs[i].event_handlers@).contains(e);
            if i < q.len() {
                assert(q[i] == aggs[i]);
            }
        }
        if exists|i: int| 0 <= i < q.len() && (#[trigger] q[i]).name@ == a && event_types(q[i].event_handlers@).contains(e) {
            let i = choose|i: int| 0 <= i < q.len() && (#[trigger] q[i]).name@ == a && event_types(q[i].event_handlers@).contains(e);
            assert(aggs[i] == q[i]);
        }
    }
}

/// Whether aggregate `agg` has a command handler for `c`.
pub open spec fn handles_command(agg: Aggregate, c: Seq<char>) -> bool {
    exists|j: int| 0 <= j < agg.command_handlers@.len() && (#[trigger] agg.command_handlers@[j]).command_type@ == c
}

proof fn lemma_insert_commands(m: Map<Seq<char>, String>, hs: Seq<CommandHandler>, aggregate: String, c: Seq<char>)
    ensures
        ({
            let r = insert_commands(m, hs, aggregate);
            let handled = exists|j: int| 0 <= j < hs.len() && (#[trigger] hs[j]).command_type@ == c;
            &&& r.dom().contains(c) <==> m.dom().contains(c) || handled
            &&& handled ==> r[c] == aggregate
            &&& !handled && m.dom().contains(c) ==> r[c] == m[c]
        }),
    decreases hs.len(),
{
    if hs.len() > 0 {
        let h0 = hs.drop_last();
        lemma_insert_commands(m, h0, aggregate, c);
        if exists|j: int| 0 <= j < hs.len() && (#[trigger] hs[j]).command_type@ == c {
            let j = choose|j: int| 0 <= j < hs.len() && (#[trigger] hs[j]).command_type@ == c;
            if j < h0.len() {
                assert(h0[j] == hs[j]);
            }
        }
        if exists|j: int| 0 <= j < h0.len() && (#[trigger] h0[j]).command_type@ == c {
            let j = choose|j: int| 0 <= j < h0.len() && (#[trigger] h0[j]).command_type@ == c;
            assert(hs[j] == h0[j]);
        }
    }
}

/// Each command maps to the aggregate that handles it: a command is in the
/// command-to-aggregate map iff some aggregate has a handler for it, and it
/// maps to the name of the last such aggregate.
pub proof fn lemma_command_aggregates(aggs: Seq<Aggregate>, c: Seq<char>)
    ensures
        command_map(aggs).dom().contains(c) <==> exists|i: int| 0 <= i < aggs.len() && handles_command(#[trigger] aggs[i], c),
        command_map(aggs).dom().contains(c) ==> exists|i: int|
            0 <= i < aggs.len() && handles_command(#[trigger] aggs[i], c) && command_map(aggs)[c] == aggs[i].name
                && forall|k: int| i < k < aggs.len() ==> !handles_command(#[trigger] aggs[k], c),
    decreases aggs.len(),
{
    if aggs.len() > 0 {
        let q = aggs.drop_last();
        let last = aggs.len() - 1;
        lemma_command_aggregates(q, c);
        lemma_insert_commands(command_map(q), aggs.last().command_handlers@, aggs.last().name, c);
        if handles_command(aggs[last], c) {
            assert(handles_command(aggs[last], c) && command_map(aggs)[c] == aggs[last].name);
        } else {
            if command_map(q).dom().contains(c) {
                let i = choose|i: int|
                    0 <= i < q.len() && handles_command(#[trigger] q[i], c) && command_map(q)[c] == q[i].name
                        && forall|k: int| i < k < q.len() ==> !handles_command(#[trigger] q[k], c);
                assert(aggs[i] == q[i]);
                assert forall|k: int| i < k < aggs.len() implies !handles_command(#[trigger] aggs[k], c) by {
                    if k < q.len() {
                        assert(aggs[k] == q[k]);
                    }
                }
            }
        }
        if exists|i: int| 0 <= i < aggs.len() && handles_command(#[trigger] aggs[i], c) {
            let i = choose|i: int| 0 <= i < aggs.len() && handles_command(#[trigger] aggs[i], c);
            if i < q.len() {
                assert(q[i] == aggs[i]);
            }
        }
        if exists|i: int| 0 <= i < q.len() && handles_command(#[trigger] q[i], c) {
            let i = choose|i: int| 0 <= i < q.len() && handles_command(#[trigger] q[i], c);
            assert(aggs[i] == q[i]);
        }
    }
}

proof fn lemma_push_new(acc: Seq<Seq<char>>, xs: Seq<Seq<char>>, e: Seq<char>)
    ensures
        push_new(acc, xs).contains(e) <==> acc.contains(e) || xs.contains(e),
        acc.no_duplicates() ==> push_new(acc, xs).no_duplicates(),
    decreases xs.len(),
{
    if xs.len() > 0 {
        let x0 = xs.drop_last();
        lemma_push_new(acc, x0, e);
        lemma_push_new(acc, x0, xs.last());
        let prev = push_new(acc, x0);
        assert(xs.contains(e) <==> x0.contains(e) || e == xs.last()) by {
            if xs.contains(e) {
                let i = choose|i: int| 0 <= i < xs.len() && xs[i] == e;
                if i < x0.len() {
                    assert(x0[i] == e);
                }
            }
            if x0.contains(e) {
                let i = choose|i: int| 0 <= i < x0.len() && x0[i] == e;
                assert(xs[i] == e);
            }
            if e == xs.last() {
                assert(xs[xs.len() - 1] == e);
            }
        }
        if !prev.contains(xs.last()) {
            let n = prev.push(xs.last());
            assert(n.contains(e) <==> prev.contains(e) || e == xs.last()) by {
                if n.contains(e) {
                    let i = choose|i: int| 0 <= i < n.len() && n[i] == e;
                    if i < prev.len() {
                        assert(prev[i] == e);
                    }
                }
                if prev.contains(e) {
                    let i = choose|i: int| 0 <= i < prev.len() && prev[i] == e;
                    assert(n[i] == e);
                }
                if e == xs.last() {
                    assert(n[prev.len() as int] == e);
                }
            }
            if prev.no_duplicates() {
                assert forall|i: int, j: int| 0 <= i < n.len() && 0 <= j < n.len() && i != j implies n[i] != n[j] by {
                    if i == prev.len() {
                        assert(n[j] == prev[j]);
                    } else if j == prev.len() {
                        assert(n[i] == prev[i]);
                    }
                }
            }
        }
    }
}

/// The events that command handlers emit, as `emitted_events` gathers
/// them: each event any handler emits, once.
pub proof fn lemma_emitted_events(hs: Seq<CommandHandler>, e: Seq<char>)
    ensures
        emitted_events(hs).contains(e) <==> exists|j: int|
            0 <= j < hs.len() && strs((#[trigger] hs[j]).emits_events@).contains(e),
        emitted_events(hs).no_duplicates(),
    decreases hs.len(),
{
    if hs.len() > 0 {
        let h0 = hs.drop_last();
        lemma_emitted_events(h0, e);
        lemma_push_new(emitted_events(h0), strs(hs.last().emits_events@), e);
        if exists|j: int| 0 <= j < hs.len() && strs((#[trigger] hs[j]).emits_events@).contains(e) {
            let j = choose|j: int| 0 <= j < hs.len() && strs((#[trigger] hs[j]).emits_events@).contains(e);
            if j < h0.len() {
                assert(h0[j] == hs[j]);
            }
        }
        if exists|j: int| 0 <= j < h0.len() && strs((#[trigger] h0[j]).emits_events@).contains(e) {
            let j = choose|j: int| 0 <= j < h0.len() && strs((#[trigger] h0[j]).emits_events@).contains(e);
            assert(hs[j] == h0[j]);
        }
    } else {
        assert(emitted_events(hs) =~= Seq::<Seq<char>>::empty());
    }
}

/// Each aggregate that emits events maps to the events its command
/// handlers emit (the last aggregate of a name that emits any winning);
/// an aggregate is in the map exactly when one of that name emits events.
pub proof fn lemma_aggregate_events(aggs: Seq<Aggregate>, a: Seq<char>)
    ensures
        events_map(aggs).dom().contains(a) <==> exists|i: int|
            0 <= i < aggs.len() && (#[trigger] aggs[i]).name@ == a && emitted_events(aggs[i].command_handlers@).len() > 0,
        events_map(aggs).dom().contains(a) ==> exists|i: int|
            0 <= i < aggs.len() && (#[trigger] aggs[i]).name@ == a && events_map(aggs)[a] == emitted_events(
                aggs[i].command_handlers@,
            ) && forall|k: int|
                i < k < aggs.len() && (#[trigger] aggs[k]).name@ == a ==> emitted_events(aggs[k].command_handlers@).len() == 0,
    decreases aggs.len(),
{
    if aggs.len() > 0 {
        let q = aggs.drop_last();
        let last = aggs.len() - 1;
        lemma_aggregate_events(q, a);
        let ev = emitted_events(aggs[last].command_handlers@);
        if ev.len() > 0 && aggs[last].name@ == a {
            assert(aggs[last].name@ == a && events_map(aggs)[a] == ev);
        } else if events_map(q).dom().contains(a) {
            let i = choose|i: int|
                0 <= i < q.len() && (#[trigger] q[i]).name@ == a && events_map(q)[a] == emitted_events(q[i].command_handlers@)
                    && forall|k: int| i < k < q.len() && (#[trigger] q[k]).name@ == a ==> emitted_events(q[k].command_handlers@).len() == 0;
            assert(aggs[i] == q[i]);
            assert forall|k: int| i < k < aggs.len() && (#[trigger] aggs[k]).name@ == a implies emitted_events(aggs[k].command_handlers@).len() == 0 by {
                if k < q.len() {
                    assert(aggs[k] == q[k]);
                }
            }
        }
        if exists|i: int| 0 <= i < aggs.len() && (#[trigger] aggs[i]).name@ == a && emitted_events(aggs[i].command_handlers@).len() > 0 {
            let i = choose|i: int| 0 <= i < aggs.len() && (#[trigger] aggs[i]).name@ == a && emitted_events(aggs[i].command_handlers@).len() > 0;
            if i < q.len() {
                assert(q[i] == aggs[i]);
            }
        }
        if exists|i: int| 0 <= i < q.len() && (#[trigger] q[i]).name@ == a && emitted_events(q[i].command_handlers@).len() > 0 {
            let i = choose|i: int| 0 <= i < q.len() && (#[trigger] q[i]).name@ == a && emitted_events(q[i].command_handlers@).len() > 0;
            assert(aggs[i] == q[i]);
        }
    }
}

/// Each projection's read model, as `read_model_map` collects it: a
/// projection with a read model, and no later projection of its name with
/// one, maps its name to that read model; every name it maps is that of a
/// projection whose read model is the value.
pub proof fn lemma_read_model_map(ps: Seq<Projection>)
    ensures
        forall|i: int|
            0 <= i < ps.len() && (#[trigger] ps[i]).read_model is Some && (forall|j: int|
                i < j < ps.len() && ps[j].name@ == ps[i].name@ ==> ps[j].read_model is None)
                ==> read_model_map(ps).dom().contains(ps[i].name@) && read_model_map(ps)[ps[i].name@]
                == ps[i].read_model->0,
        forall|k: Seq<char>|
            #[trigger] read_model_map(ps).dom().contains(k) ==> exists|i: int|
                0 <= i < ps.len() && ps[i].name@ == k && ps[i].read_model == Some(read_model_map(ps)[k]),
    decreases ps.len(),
{
    if ps.len() > 0 {
        let q = ps.drop_last();
        lemma_read_model_map(q);
        let last = ps.len() - 1;
        assert forall|i: int|
            0 <= i < ps.len() && (#[trigger] ps[i]).read_model is Some && (forall|j: int|
                i < j < ps.len() && ps[j].name@ == ps[i].name@ ==> ps[j].read_model is None)
            implies read_model_map(ps).dom().contains(ps[i].name@) && read_model_map(ps)[ps[i].name@]
                == ps[i].read_model->0 by {
            if i < last {
                assert(ps[i] == q[i]);
                assert forall|j: int| i < j < q.len() && q[j].name@ == q[i].name@ implies q[j].read_model is None by {
                    assert(q[j] == ps[j]);
                }
                if ps[last].read_model is Some {
                    assert(ps[last].name@ != ps[i].name@);
                }
            }
        }
        assert forall|k: Seq<char>| #[trigger] read_model_map(ps).dom().contains(k) implies exists|i: int|
            0 <= i < ps.len() && ps[i].name@ == k && ps[i].read_model == Some(read_model_map(ps)[k]) by {
            if ps[last].read_model is Some && ps[last].name@ == k {
                assert(ps[last].name@ == k && ps[last].read_model == Some(read_model_map(ps)[k]));
            } else {
                assert(read_model_map(q).dom().contains(k));
                let i = choose|i: int| 0 <= i < q.len() && q[i].name@ == k && q[i].read_model == Some(read_model_map(q)[k]);
                assert(ps[i] == q[i]);
            }
        }
    }
}

/// In the relationships `build_relationships` gives, each projection with
/// a read model (the last of its name) maps to that read model, and each
/// entry maps a projection's name to its read model.
pub proof fn lemma_projection_read_models(model: DomainModel, r: Relationships)
    requires
        relationships_of(r, model),
    ensures
        forall|i: int|
            0 <= i < model.projections@.len() && (#[trigger] model.projections@[i]).read_model is Some
                && (forall|j: int|
                i < j < model.projections@.len() && model.projections@[j].name@
                    == model.projections@[i].name@ ==> model.projections@[j].read_model is None)
                ==> as_map(r.projection_to_read_model@).dom().contains(model.projections@[i].name@)
                && as_map(r.projection_to_read_model@)[model.projections@[i].name@]
                == model.projections@[i].read_model->0,
        forall|k: Seq<char>|
            #[trigger] as_map(r.projection_to_read_model@).dom().contains(k) ==> exists|i: int|
                0 <= i < model.projections@.len() && model.projections@[i].name@ == k
                    && model.projections@[i].read_model == Some(as_map(r.projection_to_read_model@)[k]),
{
    lemma_read_model_map(model.projections@);
}

/// In the relationships `build_relationships` gives: a projection is under
/// an event exactly when it subscribes to it; an aggregate is under an
/// event exactly when one of its event handlers applies it; a command is
/// mapped exactly when some aggregate handles it, and then to the last
/// such aggregate.
pub proof fn lemma_relationship_members(model: DomainModel, r: Relationships)
    requires
        relationships_of(r, model),
    ensures
        forall|e: Seq<char>, p: Seq<char>|
            #[trigger] listed(as_list_map(r.event_to_projections@), e, p) <==> exists|i: int|
                0 <= i < model.projections@.len() && (#[trigger] model.projections@[i]).name@ == p
                    && strs(model.projections@[i].subscribed_events@).contains(e),
        forall|e: Seq<char>, a: Seq<char>|
            #[trigger] listed(as_list_map(r.event_to_handlers@), e, a) <==> exists|i: int|
                0 <= i < model.aggregates@.len() && (#[trigger] model.aggregates@[i]).name@ == a
                    && event_types(model.aggregates@[i].event_handlers@).contains(e),
        forall|c: Seq<char>|
            #[trigger] as_map(r.command_to_aggregate@).dom().contains(c) <==> exists|i: int|
                0 <= i < model.aggregates@.len() && handles_command(#[trigger] model.aggregates@[i], c),
        forall|c: Seq<char>|
            #[trigger] as_map(r.command_to_aggregate@).dom().contains(c) ==> exists|i: int|
                0 <= i < model.aggregates@.len() && handles_command(#[trigger] model.aggregates@[i], c)
                    && as_map(r.command_to_aggregate@)[c] == model.aggregates@[i].name && forall|k: int|
                    i < k < model.aggregates@.len() ==> !handles_command(#[trigger] model.aggregates@[k], c),
{
    assert forall|e: Seq<char>, p: Seq<char>|
        #[trigger] listed(as_list_map(r.event_to_projections@), e, p) <==> exists|i: int|
            0 <= i < model.projections@.len() && (#[trigger] model.projections@[i]).name@ == p
                && strs(model.projections@[i].subscribed_events@).contains(e) by {
        lemma_event_projections(model.projections@, e, p);
    }
    assert forall|e: Seq<char>, a: Seq<char>|
        #[trigger] listed(as_list_map(r.event_to_handlers@), e, a) <==> exists|i: int|
            0 <= i < model.aggregates@.len() && (#[trigger] model.aggregates@[i]).name@ == a
                && event_types(model.aggregates@[i].event_handlers@).contains(e) by {
        lemma_event_handlers(model.aggregates@, e, a);
    }
    assert forall|c: Seq<char>| #[trigger] as_map(r.command_to_aggregate@).dom().contains(c) <==> exists|i: int|
        0 <= i < model.aggregates@.len() && handles_command(#[trigger] model.aggregates@[i], c) by {
        lemma_command_aggregates(model.aggregates@, c);
    }
    assert forall|c: Seq<char>| #[trigger] as_map(r.command_to_aggregate@).dom().contains(c) implies exists|i: int|
        0 <= i < model.aggregates@.len() && handles_command(#[trigger] model.aggregates@[i], c)
            && as_map(r.command_to_aggregate@)[c] == model.aggregates@[i].name && forall|k: int|
            i < k < model.aggregates@.len() ==> !handles_command(#[trigger] model.aggregates@[k], c) by {
        lemma_command_aggregates(model.aggregates@, c);
    }
}

/// What `build_relationships` gives for a model.
pub open spec fn relationships_of(r: Relationships, model: DomainModel) -> bool {
    &&& keys_unique(r.command_to_aggregate@)
    &&& keys_unique(r.aggregate_to_events@)
    &&& keys_unique(r.event_to_handlers@)
    &&& keys_unique(r.event_to_projections@)
    &&& keys_unique(r.projection_to_read_model@)
    &&& as_map(r.command_to_aggregate@) == command_map(model.aggregates@)
    &&& as_list_map(r.aggregate_to_events@) == events_map(model.aggregates@)
    &&& as_list_map(r.event_to_handlers@) == handlers_map(model.aggregates@)
    &&& as_list_map(r.event_to_projections@) == projections_map(model.projections@)
    &&& as_map(r.projection_to_read_model@) == read_model_map(model.projections@)
}

/// Whether `x` is one of `v`.
pub fn contains_string(v: &Vec<String>, x: &String) -> (r: bool)
    ensures
        r == strs(v@).contains(x@),
{
    let mut i: usize = 0;
    while i < v.len()
        invariant
            i <= v.len(),
            forall|k: int| 0 <= k < i ==> v@[k]@ != x@,
        decreases v.len() - i,
    {
        if v[i] == *x {
            assert(strs(v@)[i as int] == x@);
            return true;
        }
        i = i + 1;
    }
    proof {
        if strs(v@).contains(x@) {
            let k = choose|k: int| 0 <= k < strs(v@).len() && strs(v@)[k] == x@;
            assert(v@[k]@ == x@);
        }
    }
    false
}

impl Manifest {
    /// Build the relationships between the components of a domain model.
    pub fn build_relationships(model: &DomainModel) -> (r: Relationships)
        ensures
            relationships_of(r, *model),
    {
        let mut command_to_aggregate: Vec<(String, String)> = Vec::new();
        let mut aggregate_to_events: Vec<(String, Vec<String>)> = Vec::new();
        let mut event_to_handlers: Vec<(String, Vec<String>)> = Vec::new();
        let mut event_to_projections: Vec<(String, Vec<String>)> = Vec::new();
        let mut projection_to_read_model: Vec<(String, String)> = Vec::new();
        let ghost aggs = model.aggregates@;
        let mut i: usize = 0;
        assert(as_map(command_to_aggregate@) =~= Map::empty());
        assert(as_list_map(aggregate_to_events@) =~= Map::empty());
        assert(as_list_map(event_to_handlers@) =~= Map::empty());
        while i < model.aggregates.len()
            invariant
                i <= aggs.len(),
                aggs == model.aggregates@,
                keys_unique(command_to_aggregate@),
                keys_unique(aggregate_to_events@),
                keys_unique(event_to_handlers@),
                as_map(command_to_aggregate@) == command_map(aggs.subrange(0, i as int)),
                as_list_map(aggregate_to_events@) == events_map(aggs.subrange(0, i as int)),
                as_list_map(event_to_handlers@) == handlers_map(aggs.subrange(0, i as int)),
            decreases aggs.len() - i,
        {
            let aggregate = &model.aggregates[i];
            let ghost hs = aggregate.command_handlers@;
            let ghost m0 = as_map(command_to_aggregate@);
            let mut events_emitted: Vec<String> = Vec::new();
            let mut j: usize = 0;
            while j < aggregate.command_handlers.len()
                invariant
                    j <= hs.len(),
                    hs == aggregate.command_handlers@,
                    keys_unique(command_to_aggregate@),
                    as_map(command_to_aggregate@) == insert_commands(
                        m0,
                        hs.subrange(0, j as int),
                        aggregate.name,
                    ),
                    strs(events_emitted@) == emitted_events(hs.subrange(0, j as int)),
                decreases hs.len() - j,
            {
                let handler = &aggregate.command_handlers[j];
                assoc_insert(
                    &mut command_to_aggregate,
                    handler.command_type.clone(),
                    aggregate.name.clone(),
                );
                let ghost ev0 = strs(events_emitted@);
                let ghost xs = strs(handler.emits_events@);
                let mut k: usize = 0;
                while k < handler.emits_events.len()
                    invariant
                        k <= xs.len(),
                        xs == strs(handler.emits_events@),
                        strs(events_emitted@) == push_new(ev0, xs.subrange(0, k as int)),
                    decreases xs.len() - k,
                {
                    let ev = &handler.emits_events[k];
                    assert(xs.subrange(0, k + 1).drop_last() =~= xs.subrange(0, k as int));
                    if !contains_string(&events_emitted, ev) {
                        events_emitted.push(ev.clone());
                        assert(strs(events_emitted@) =~= push_new(ev0, xs.subrange(0, k as int)).push(
                            ev@,
                        ));
                    }
                    k = k + 1;
                }
                assert(xs.subrange(0, xs.len() as int) =~= xs);
                assert(hs.subrange(0, j + 1).drop_last() =~= hs.subrange(0, j as int));
                j = j + 1;
            }
            assert(hs.subrange(0, hs.len() as int) =~= hs);
            assert(aggs.subrange(0, i + 1).drop_last() =~= aggs.subrange(0, i as int));
            if events_emitted.len() > 0 {
                let ghost ev_vec = events_emitted;
                let ghost s_before = aggregate_to_events@;
                assoc_insert(&mut aggregate_to_events, aggregate.name.clone(), events_emitted);
                proof {
                    crate::assoc::lemma_list_map_insert(s_before, aggregate_to_events@, aggregate.name@, ev_vec);
                }
            }
            let ghost ehs = aggregate.event_handlers@;
            let ghost h0 = as_list_map(event_to_handlers@);
            let mut j: usize = 0;
            while j < aggregate.event_handlers.len()
                invariant
                    j <= ehs.len(),
                    ehs == aggregate.event_handlers@,
                    keys_unique(event_to_handlers@),
                    as_list_map(event_to_handlers@) == push_under_each(
                        h0,
                        event_types(ehs.subrange(0, j as int)),
                        aggregate.name@,
                    ),
                decreases ehs.len() - j,
            {
                assoc_append(
                    &mut event_to_handlers,
                    &aggregate.event_handlers[j].event_type,
                    aggregate.name.clone(),
                );
                assert(event_types(ehs.subrange(0, j + 1)).drop_last() =~= event_types(
                    ehs.subrange(0, j as int),
                ));
                j = j + 1;
            }
            assert(ehs.subrange(0, ehs.len() as int) =~= ehs);
            i = i + 1;
        }
        assert(aggs.subrange(0, aggs.len() as int) =~= aggs);
        let ghost ps = model.projections@;
        let mut i: usize = 0;
        assert(as_list_map(event_to_projections@) =~= Map::empty());
        assert(as_map(projection_to_read_model@) =~= Map::empty());
        while i < model.projections.len()
            invariant
                i <= ps.len(),
                ps == model.projections@,
                keys_unique(event_to_projections@),
                keys_unique(projection_to_read_model@),
                as_list_map(event_to_projections@) == projections_map(ps.subrange(0, i as int)),
                as_map(projection_to_read_model@) == read_model_map(ps.subrange(0, i as int)),
            decreases ps.len() - i,
        {
            let projection = &model.projections[i];
            let ghost xs = strs(projection.subscribed_events@);
            let ghost p0 = as_list_map(event_to_projections@);
            let mut j: usize = 0;
            while j < projection.subscribed_events.len()
                invariant
                    j <= xs.len(),
                    xs == strs(projection.subscribed_events@),
                    keys_unique(event_to_projections@),
                    as_list_map(event_to_projections@) == push_under_each(
                        p0,
                        xs.subrange(0, j as int),
                        projection.name@,
                    ),
                decreases xs.len() - j,
            {
                assoc_append(
                    &mut event_to_projections,
                    &projection.subscribed_events[j],
                    projection.name.clone(),
                );
                assert(xs.subrange(0, j + 1).drop_last() =~= xs.subrange(0, j as int));
                j = j + 1;
            }
            assert(xs.subrange(0, xs.len() as int) =~= xs);
            match &projection.read_model {
                Some(rm) => {
                    assoc_insert(&mut projection_to_read_model, projection.name.clone(), rm.clone());
                },
                None => {},
            }
            assert(ps.subrange(0, i + 1).drop_last() =~= ps.subrange(0, i as int));
            i = i + 1;
        }
        assert(ps.subrange(0, ps.len() as int) =~= ps);
        Relationships {
            command_to_aggregate,
            aggregate_to_events,
            event_to_handlers,
            event_to_projections,
            projection_to_read_model,
        }
    }

    /// Build the domain manifest of a model: its components, and the
    /// relationships between them.
    pub fn build_domain_manifest(model: DomainModel) -> (r: DomainManifest)
        ensures
            r.aggregates == model.aggregates,
            r.commands == model.commands,
            r.events == model.events,
            r.queries == model.queries,
            r.projections == model.projections,
            r.upcasters == model.upcasters,
            r.value_objects == model.value_objects,
            relationships_of(r.relationships, model),
    {
        let relationships = Self::build_relationships(&model);
        DomainManifest {
            aggregates: model.aggregates,
            commands: model.commands,
            events: model.events,
            queries: model.queries,
            projections: model.projections,
            upcasters: model.upcasters,
            value_objects: model.value_objects,
            relationships,
        }
    }
}


// ============================================================================
// Generating the manifest
// ============================================================================

/// The time now, in RFC 3339: the system clock (`SystemTime::now`) as a
/// `chrono::DateTime<Utc>` (chrono's `From<SystemTime>`, which also takes
/// times before 1970), written by `DateTime::to_rfc3339`. The text depends
/// on the clock; what holds of every outcome is that it is a UTC timestamp,
/// written with the offset `+00:00` at its end (`to_rfc3339` writes the
/// offset with colons and without `Z`). The conversion panics only for a
/// clock reading outside chrono's range of dates (beyond about 262,000
/// years from year 0), which no argument of this function can exclude.
#[verifier::external_body]
fn now_rfc3339() -> (r: String)
    ensures
        ends_with(r@, "+00:00"@),
{
    chrono::DateTime::<chrono::Utc>::from(std::time::SystemTime::now()).to_rfc3339()
}

/// The infrastructure folders of the context at `cp`: those of
/// `infrastructure`, `repositories`, `adapters`, `services`, `buses` that
/// are directories, then `infrastructure/<name>` for each directory in
/// `infrastructure`, in tree order.
pub open spec fn infra_folders(es: Seq<FsEntry>, cp: Seq<char>) -> Seq<Seq<char>> {
    let ip = push_path(cp, "infrastructure"@);
    (if path_is_dir(es, ip) { seq!["infrastructure"@] } else { Seq::empty() })
        + (if path_is_dir(es, push_path(cp, "repositories"@)) { seq!["repositories"@] } else { Seq::empty() })
        + (if path_is_dir(es, push_path(cp, "adapters"@)) { seq!["adapters"@] } else { Seq::empty() })
        + (if path_is_dir(es, push_path(cp, "services"@)) { seq!["services"@] } else { Seq::empty() })
        + (if path_is_dir(es, push_path(cp, "buses"@)) { seq!["buses"@] } else { Seq::empty() })
        + (if path_is_dir(es, ip) {
        indices_where(es.len() as int, |i: int| is_child_path(es[i].path@, ip) && es[i].is_dir).map_values(
            |i: int| "infrastructure/"@ + file_name_or_empty(es[i].path@),
        )
    } else {
        Seq::empty()
    })
}

/// Names that count as aggregate files when no domain is configured.
pub open spec fn counts_as_aggregate_file(n: Seq<char>) -> bool {
    contains(n, "Aggregate."@) && (ends_with(n, ".py"@) || ends_with(n, ".ts"@) || ends_with(
        n,
        ".rs"@,
    ))
}

/// Whether entry `i` is a file one to three levels below `d` that counts
/// as an aggregate file.
pub open spec fn is_counted_aggregate_file(es: Seq<FsEntry>, d: Seq<char>, i: int) -> bool {
    &&& depth_below(es[i].path@, d) matches Some(k) && k <= 3
    &&& !es[i].is_dir
    &&& counts_as_aggregate_file(file_name_or_empty(es[i].path@))
}

/// The number of aggregate files of the context at `cp`, by name: in its
/// `domain` folder, at most three levels down (when `domain` is itself a
/// file, it alone is looked at).
pub open spec fn aggregate_file_count(es: Seq<FsEntry>, cp: Seq<char>) -> nat {
    let d = push_path(cp, "domain"@);
    if !path_exists(es, d) {
        0
    } else if path_is_file(es, d) {
        if counts_as_aggregate_file(file_name_or_empty(d)) {
            1
        } else {
            0
        }
    } else {
        indices_where(es.len() as int, |i: int| is_counted_aggregate_file(es, d, i)).len()
    }
}

/// The number of aggregates of the context at `cp`: what scanning its
/// domain folder finds (none when the scan fails), or, with no domain
/// configured, its aggregate files by name.
pub open spec fn context_aggregate_count(es: Seq<FsEntry>, config: VsaConfig, cp: Seq<char>) -> nat {
    match config.domain {
        Some(dc) => if domain_scan_ok(es, dc, cp) {
            domain_aggregate_count(es, dc, cp)
        } else {
            0
        },
        None => aggregate_file_count(es, cp),
    }
}

/// Whether `f` is the manifest of feature `fp` of the context at `cp`.
pub open spec fn feature_manifest_ok(f: FeatureManifest, es: Seq<FsEntry>, cp: Seq<char>, fp: Seq<char>) -> bool {
    let names = feature_file_paths(es, fp).map_values(|p: Seq<char>| entry_name(p));
    &&& f.name@ == entry_name(fp)
    &&& f.path@ == relative_to(fp, cp)
    &&& strs(f.files@) == names
    &&& f.slice_type == slice_type_of(names)
}

/// Whether `c` is the manifest of the context at `cp`.
pub open spec fn context_manifest_ok(c: ContextManifest, es: Seq<FsEntry>, config: VsaConfig, cp: Seq<char>) -> bool {
    let fs = context_features(es, cp, config);
    let n = context_aggregate_count(es, config, cp);
    &&& c.name@ == entry_name(cp)
    &&& c.path@ == cp
    &&& c.features@.len() == fs.len()
    &&& (forall|j: int| 0 <= j < fs.len() ==> feature_manifest_ok(#[trigger] c.features@[j], es, cp, fs[j]))
    &&& c.aggregate_count == n
    &&& c.context_type == (if n > 0 {
        ContextType::BoundedContext
    } else {
        ContextType::InvalidModule
    })
    &&& strs(c.infrastructure_folders@) == infra_folders(es, cp)
}

/// Whether scanning the domain of every context succeeds, along with the
/// domain folder at the root: each that exists is a readable directory.
pub open spec fn multi_context_domain_ok(es: Seq<FsEntry>, dc: DomainConfig, root: Seq<char>) -> bool {
    &&& domain_scan_ok(es, dc, root)
    &&& forall|k: int|
        0 <= k < context_count(es, root) ==> #[trigger] domain_scan_ok(es, dc, context_path(es, root, k))
}

/// The seven component lists of a domain model.
#[verifier::ext_equal]
pub struct ModelLists {
    pub aggregates: Seq<Aggregate>,
    pub commands: Seq<Command>,
    pub queries: Seq<Query>,
    pub events: Seq<Event>,
    pub projections: Seq<Projection>,
    pub upcasters: Seq<Upcaster>,
    pub value_objects: Seq<ValueObject>,
}

/// The component lists of `m`.
pub open spec fn lists_of(m: DomainModel) -> ModelLists {
    ModelLists {
        aggregates: m.aggregates@,
        commands: m.commands@,
        queries: m.queries@,
        events: m.events@,
        projections: m.projections@,
        upcasters: m.upcasters@,
        value_objects: m.value_objects@,
    }
}

/// No component at all.
pub open spec fn no_lists() -> ModelLists {
    ModelLists {
        aggregates: Seq::empty(),
        commands: Seq::empty(),
        queries: Seq::empty(),
        events: Seq::empty(),
        projections: Seq::empty(),
        upcasters: Seq::empty(),
        value_objects: Seq::empty(),
    }
}

/// The lists of `a` followed by those of `b`.
pub open spec fn lists_concat(a: ModelLists, b: ModelLists) -> ModelLists {
    ModelLists {
        aggregates: a.aggregates + b.aggregates,
        commands: a.commands + b.commands,
        queries: a.queries + b.queries,
        events: a.events + b.events,
        projections: a.projections + b.projections,
        upcasters: a.upcasters + b.upcasters,
        value_objects: a.value_objects + b.value_objects,
    }
}

/// The components of the parts that are present, in order.
pub open spec fn parts_lists(parts: Seq<Option<DomainModel>>) -> ModelLists
    decreases parts.len(),
{
    if parts.len() == 0 {
        no_lists()
    } else {
        let prev = parts_lists(parts.drop_last());
        match parts.last() {
            Some(p) => lists_concat(prev, lists_of(p)),
            None => prev,
        }
    }
}

/// What the domain folder of the `k`-th context under `root` adds: nothing
/// when the context has none, else its scan with every aggregate, command
/// and event marked as the context's.
pub open spec fn context_domain_part(
    o: Option<DomainModel>,
    es: Seq<FsEntry>,
    dc: DomainConfig,
    root: Seq<char>,
    k: int,
) -> bool {
    let cp = context_path(es, root, k);
    match o {
        None => !path_exists(es, domain_dir(dc, cp)),
        Some(p) => path_exists(es, domain_dir(dc, cp)) && exists|m0: DomainModel|
            domain_scan_outcome(Ok::<DomainModel, VsaError>(m0), es, dc, cp) && #[trigger] model_tagged(
                p,
                m0,
                entry_name(cp),
            ),
    }
}

/// Whether `m` is `base` followed by the parts.
pub open spec fn merged_model(m: DomainModel, base: DomainModel, parts: Seq<Option<DomainModel>>) -> bool {
    &&& m.root_path == base.root_path
    &&& lists_of(m) == lists_concat(lists_of(base), parts_lists(parts))
}

/// Whether `m` is the domain model of a project with contexts: the scan
/// of the root's domain folder followed by what each context's domain
/// folder adds, in the order of the contexts.
pub open spec fn multi_context_model(m: DomainModel, es: Seq<FsEntry>, dc: DomainConfig, root: Seq<char>) -> bool {
    exists|base: DomainModel, parts: Seq<Option<DomainModel>>|
        #[trigger] merged_model(m, base, parts) && domain_scan_outcome(
            Ok::<DomainModel, VsaError>(base),
            es,
            dc,
            root,
        ) && parts.len() == context_count(es, root) && forall|k: int|
            0 <= k < parts.len() ==> context_domain_part(#[trigger] parts[k], es, dc, root, k)
}

/// Whether `d` is the domain manifest of `model`: its components, and the
/// relationships between them.
pub open spec fn domain_manifest_of(d: DomainManifest, model: DomainModel) -> bool {
    &&& d.aggregates == model.aggregates
    &&& d.commands == model.commands
    &&& d.events == model.events
    &&& d.queries == model.queries
    &&& d.projections == model.projections
    &&& d.upcasters == model.upcasters
    &&& d.value_objects == model.value_objects
    &&& relationships_of(d.relationships, model)
}

/// Whether `d` is the domain part of the manifest of the project at `root`:
/// the manifest of the multi-context domain model when there are contexts,
/// of the root's domain folder otherwise.
pub open spec fn domain_section(d: DomainManifest, es: Seq<FsEntry>, dc: DomainConfig, root: Seq<char>) -> bool {
    exists|model: DomainModel|
        #[trigger] domain_manifest_of(d, model) && if context_count(es, root) > 0 {
            multi_context_model(model, es, dc, root)
        } else {
            domain_scan_outcome(Ok::<DomainModel, VsaError>(model), es, dc, root)
        }
}

/// Whether the domain part of a manifest can be built: the multi-context
/// scan when there are contexts, the root's domain folder otherwise.
pub open spec fn domain_part_ok(es: Seq<FsEntry>, dc: DomainConfig, root: Seq<char>) -> bool {
    if context_count(es, root) > 0 {
        multi_context_domain_ok(es, dc, root)
    } else {
        domain_scan_ok(es, dc, root)
    }
}

fn infra_candidate(tree: &ProjectTree, cp: &str, name: &str, out: &mut Vec<String>)
    ensures
        strs(final(out)@) == strs(old(out)@) + (if path_is_dir(tree.entries@, push_path(cp@, name@)) {
            seq![name@]
        } else {
            Seq::empty()
        }),
{
    let p = push_path_str(cp, name);
    let ghost before = strs(out@);
    if tree.is_dir(p.as_str()) {
        out.push(owned(name));
        assert(strs(out@) =~= before + seq![name@]);
    } else {
        assert(strs(out@) =~= before + Seq::<Seq<char>>::empty());
    }
}

impl Manifest {
    /// The infrastructure folders of the context at `context_path`.
    pub fn detect_infrastructure_folders(tree: &ProjectTree, context_path: &str) -> (r: Vec<String>)
        ensures
            strs(r@) == infra_folders(tree.entries@, context_path@),
    {
        let ghost es = tree.entries@;
        let mut out: Vec<String> = Vec::new();
        infra_candidate(tree, context_path, "infrastructure", &mut out);
        infra_candidate(tree, context_path, "repositories", &mut out);
        infra_candidate(tree, context_path, "adapters", &mut out);
        infra_candidate(tree, context_path, "services", &mut out);
        infra_candidate(tree, context_path, "buses", &mut out);
        let ip = push_path_str(context_path, "infrastructure");
        let ghost head = strs(out@);
        let ghost pred = |i: int| is_child_path(es[i].path@, ip@) && es[i].is_dir;
        let ghost f = |i: int| "infrastructure/"@ + file_name_or_empty(es[i].path@);
        if tree.is_dir(ip.as_str()) {
            let mut i: usize = 0;
            while i < tree.entries.len()
                invariant
                    i <= es.len(),
                    es == tree.entries@,
                    pred == (|i: int| is_child_path(es[i].path@, ip@) && es[i].is_dir),
                    f == (|i: int| "infrastructure/"@ + file_name_or_empty(es[i].path@)),
                    strs(out@) == head + indices_where(i as int, pred).map_values(f),
                decreases tree.entries.len() - i,
            {
                let e = &tree.entries[i];
                let child = match crate::path::path_parent_str(e.path.as_str()) {
                    Some(q) => str_eq(q.as_str(), ip.as_str()),
                    None => false,
                };
                let ghost before = strs(out@);
                if child && e.is_dir {
                    let n = match crate::path::file_name_str(e.path.as_str()) {
                        Some(n) => n,
                        None => String::new(),
                    };
                    let mut item = owned("infrastructure/");
                    item.append(n.as_str());
                    out.push(item);
                    assert(indices_where(i + 1, pred) == indices_where(i as int, pred).push(i as int));
                    assert(indices_where(i + 1, pred).map_values(f) =~= indices_where(i as int, pred).map_values(f).push(f(i as int)));
                    assert(strs(out@) =~= before.push(f(i as int)));
                } else {
                    assert(indices_where(i + 1, pred) == indices_where(i as int, pred));
                }
                i = i + 1;
            }
        } else {
            assert(strs(out@) =~= head + Seq::<Seq<char>>::empty());
        }
        out
    }

    /// The number of aggregate files of the context at `context_path`, by
    /// name.
    pub fn count_aggregates_by_filename(tree: &ProjectTree, context_path: &str) -> (r: usize)
        ensures
            r == aggregate_file_count(tree.entries@, context_path@),
    {
        let ghost es = tree.entries@;
        let d = push_path_str(context_path, "domain");
        if !tree.has_path(d.as_str()) {
            return 0;
        }
        let ghost pred = |i: int| is_counted_aggregate_file(es, d@, i);
        if tree.is_file(d.as_str()) {
            let self_name = match crate::path::file_name_str(d.as_str()) {
                Some(n) => n,
                None => String::new(),
            };
            if str_contains(self_name.as_str(), "Aggregate.") && (str_ends_with(
                self_name.as_str(),
                ".py",
            ) || str_ends_with(self_name.as_str(), ".ts") || str_ends_with(
                self_name.as_str(),
                ".rs",
            )) {
                return 1;
            }
            return 0;
        }
        let mut count: usize = 0;
        let mut i: usize = 0;
        while i < tree.entries.len()
            invariant
                i <= es.len(),
                es == tree.entries@,
                pred == (|i: int| is_counted_aggregate_file(es, d@, i)),
                count == indices_where(i as int, pred).len(),
                indices_where(i as int, pred).len() <= i,
            decreases tree.entries.len() - i,
        {
            let e = &tree.entries[i];
            let deep = match depth_below_exec(e.path.as_str(), d.as_str()) {
                Some(k) => k <= 3,
                None => false,
            };
            let n = match crate::path::file_name_str(e.path.as_str()) {
                Some(n) => n,
                None => String::new(),
            };
            if deep && !e.is_dir && str_contains(n.as_str(), "Aggregate.") && (str_ends_with(
                n.as_str(),
                ".py",
            ) || str_ends_with(n.as_str(), ".ts") || str_ends_with(n.as_str(), ".rs")) {
                assert(pred(i as int));
                assert(indices_where(i + 1, pred) == indices_where(i as int, pred).push(i as int));
                count = count + 1;
            } else {
                assert(indices_where(i + 1, pred) == indices_where(i as int, pred));
            }
            i = i + 1;
        }
        count
    }

    /// The number of aggregates of the context at `context_path`.
    pub fn count_context_aggregates(
        config: &VsaConfig,
        tree: &ProjectTree,
        context_path: &str,
        context_name: &str,
    ) -> (r: usize)
        ensures
            r == context_aggregate_count(tree.entries@, *config, context_path@),
    {
        match &config.domain {
            Some(dc) => match scan_context_domain(dc, tree, context_path, context_name) {
                Ok(m) => m.aggregates.len(),
                Err(_) => 0,
            },
            None => Self::count_aggregates_by_filename(tree, context_path),
        }
    }

    /// The domain model of a project with contexts: the root's domain
    /// folder when it exists, merged with the domain folder of each context
    /// that has one and holds some component.
    pub fn scan_multi_context_domain(
        dc: &DomainConfig,
        tree: &ProjectTree,
        root: &str,
        contexts: &Vec<ContextInfo>,
    ) -> (r: Result<DomainModel, VsaError>)
        requires
            contexts_match(contexts@, tree.entries@, context_indices(tree.entries@, root@)),
        ensures
            r is Ok <==> multi_context_domain_ok(tree.entries@, *dc, root@),
            r matches Ok(m) ==> m.root_path@ == domain_dir(*dc, root@) && multi_context_model(
                m,
                tree.entries@,
                *dc,
                root@,
            ),
    {
        let ghost es = tree.entries@;
        let root_domain = push_path_str(root, dc.path.as_str());
        let mut merged = if tree.has_path(root_domain.as_str()) {
            match scan_domain(dc, tree, root) {
                Ok(m) => m,
                Err(e) => return Err(e),
            }
        } else {
            DomainModel::new(root_domain)
        };
        assert(domain_scan_ok(es, *dc, root@));
        let ghost base = merged;
        let ghost mut parts: Seq<Option<DomainModel>> = Seq::empty();
        proof {
            assert(domain_scan_outcome(Ok::<DomainModel, VsaError>(base), es, *dc, root@));
            assert(lists_of(merged) =~= lists_concat(lists_of(base), parts_lists(parts)));
        }
        let mut k: usize = 0;
        while k < contexts.len()
            invariant
                k <= contexts@.len(),
                es == tree.entries@,
                contexts_match(contexts@, es, context_indices(es, root@)),
                domain_scan_ok(es, *dc, root@),
                forall|j: int| 0 <= j < k ==> #[trigger] domain_scan_ok(es, *dc, context_path(es, root@, j)),
                merged.root_path@ == domain_dir(*dc, root@),
                domain_scan_outcome(Ok::<DomainModel, VsaError>(base), es, *dc, root@),
                parts.len() == k,
                forall|j: int| 0 <= j < k ==> context_domain_part(#[trigger] parts[j], es, *dc, root@, j),
                merged_model(merged, base, parts),
            decreases contexts.len() - k,
        {
            let c = &contexts[k];
            assert(c.path@ == context_path(es, root@, k as int));
            let ghost p0 = parts;
            let cd = push_path_str(c.path.as_str(), dc.path.as_str());
            if tree.has_path(cd.as_str()) {
                let cm = match scan_context_domain(dc, tree, c.path.as_str(), c.name.as_str()) {
                    Ok(m) => m,
                    Err(e) => {
                        assert(!domain_scan_ok(es, *dc, context_path(es, root@, k as int)));
                        return Err(e);
                    },
                };
                let ghost cmv = cm;
                let ghost before = merged;
                if cm.aggregates.len() > 0 || cm.commands.len() > 0 || cm.queries.len() > 0
                    || cm.events.len() > 0 || cm.projections.len() > 0 || cm.upcasters.len() > 0
                    || cm.value_objects.len() > 0 {
                    merged.merge(cm);
                    proof {
                        assert(lists_of(merged) =~= lists_concat(lists_of(before), lists_of(cmv)));
                    }
                } else {
                    proof {
                        assert(lists_of(cmv) =~= no_lists());
                        assert(lists_of(merged) =~= lists_concat(lists_of(before), lists_of(cmv)));
                    }
                }
                proof {
                    parts = p0.push(Some(cmv));
                    assert(parts.drop_last() =~= p0);
                    assert(parts_lists(parts) == lists_concat(parts_lists(p0), lists_of(cmv)));
                    assert(lists_of(merged) =~= lists_concat(lists_of(base), parts_lists(parts)));
                    assert(context_domain_part(parts[k as int], es, *dc, root@, k as int));
                    assert forall|j: int| 0 <= j < k + 1 implies context_domain_part(#[trigger] parts[j], es, *dc, root@, j) by {
                        if j < k {
                            assert(parts[j] == p0[j]);
                        }
                    }
                }
            } else {
                proof {
                    parts = p0.push(None);
                    assert(parts.drop_last() =~= p0);
                    assert(parts_lists(parts) == parts_lists(p0));
                    assert forall|j: int| 0 <= j < k + 1 implies context_domain_part(#[trigger] parts[j], es, *dc, root@, j) by {
                        if j < k {
                            assert(parts[j] == p0[j]);
                        }
                    }
                }
            }
            k = k + 1;
        }
        proof {
            assert(parts.len() == context_count(es, root@));
            assert(merged_model(merged, base, parts));
        }
        Ok(merged)
    }

    /// Generate the manifest at the time `generated_at`: the contexts
    /// with their features, slice types, aggregate counts and
    /// infrastructure folders, and, when asked for and a domain is
    /// configured, the domain model.
    pub fn generate_at(
        config: &VsaConfig,
        tree: &ProjectTree,
        root: &str,
        include_domain: bool,
        generated_at: String,
    ) -> (r: Result<Self, VsaError>)
        ensures
            !(include_domain && config.domain is Some) ==> r is Ok,
            (include_domain && config.domain is Some) ==> (r is Ok <==> domain_part_ok(
                tree.entries@,
                config.domain->0,
                root@,
            )),
            r matches Ok(m) ==> {
                &&& m.version@ == crate::VERSION@
                &&& m.schema_version@ == MANIFEST_SCHEMA_VERSION@
                &&& m.generated_at@ == generated_at@
                &&& m.bounded_contexts@.len() == context_count(tree.entries@, root@)
                &&& forall|k: int|
                    0 <= k < m.bounded_contexts@.len() ==> context_manifest_ok(
                        #[trigger] m.bounded_contexts@[k],
                        tree.entries@,
                        *config,
                        context_path(tree.entries@, root@, k),
                    )
                &&& (m.domain is Some <==> include_domain && config.domain is Some)
                &&& (m.domain matches Some(d) ==> domain_section(d, tree.entries@, config.domain->0, root@))
            },
    {
        let ghost es = tree.entries@;
        let contexts = contexts_in(tree, root);
        let mut context_manifests: Vec<ContextManifest> = Vec::new();
        let mut k: usize = 0;
        while k < contexts.len()
            invariant
                k <= contexts@.len(),
                es == tree.entries@,
                contexts_match(contexts@, es, context_indices(es, root@)),
                context_manifests@.len() == k,
                forall|m: int|
                    0 <= m < k ==> context_manifest_ok(
                        #[trigger] context_manifests@[m],
                        es,
                        *config,
                        context_path(es, root@, m),
                    ),
            decreases contexts.len() - k,
        {
            let c = &contexts[k];
            let ghost cp = context_path(es, root@, k as int);
            assert(c.path@ == cp);
            let features = features_in(config, tree, c.path.as_str());
            let ghost fs = feature_paths_of(features@);
            assert(fs == context_features(es, cp, *config));
            let mut fms: Vec<FeatureManifest> = Vec::new();
            let mut j: usize = 0;
            while j < features.len()
                invariant
                    j <= features@.len(),
                    es == tree.entries@,
                    c.path@ == cp,
                    fs == feature_paths_of(features@),
                    features_named(features@, c.path@),
                    fms@.len() == j,
                    forall|m: int| 0 <= m < j ==> feature_manifest_ok(#[trigger] fms@[m], es, cp, fs[m]),
                decreases features.len() - j,
            {
                let ft = &features[j];
                assert(ft.path@ == fs[j as int]);
                let files = files_in(tree, ft.path.as_str());
                let ghost ps = file_paths_of(files@);
                let mut names: Vec<String> = Vec::new();
                let mut m: usize = 0;
                while m < files.len()
                    invariant
                        m <= files@.len(),
                        ps == file_paths_of(files@),
                        files_named(files@),
                        strs(names@) == ps.subrange(0, m as int).map_values(|p: Seq<char>| entry_name(p)),
                    decreases files.len() - m,
                {
                    let ghost before = strs(names@);
                    let ghost f = files@[m as int];
                    names.push(owned(files[m].name.as_str()));
                    proof {
                        assert(ps[m as int] == f.path@);
                        assert(f.name@ == entry_name(f.path@));
                        assert(strs(names@) =~= before.push(f.name@));
                        assert(ps.subrange(0, m + 1) =~= ps.subrange(0, m as int).push(ps[m as int]));
                        assert(strs(names@) =~= ps.subrange(0, m + 1).map_values(|p: Seq<char>| entry_name(p)));
                    }
                    m = m + 1;
                }
                assert(ps.subrange(0, files@.len() as int) =~= ps);
                let slice_type = Self::detect_slice_type(names.as_slice());
                fms.push(FeatureManifest {
                    name: ft.name.clone(),
                    path: ft.relative_path.clone(),
                    files: names,
                    slice_type,
                });
                j = j + 1;
            }
            let infrastructure_folders = Self::detect_infrastructure_folders(tree, c.path.as_str());
            let aggregate_count = Self::count_context_aggregates(config, tree, c.path.as_str(), c.name.as_str());
            let context_type = if aggregate_count > 0 {
                ContextType::BoundedContext
            } else {
                ContextType::InvalidModule
            };
            context_manifests.push(ContextManifest {
                name: c.name.clone(),
                path: c.path.clone(),
                features: fms,
                context_type,
                aggregate_count,
                infrastructure_folders,
            });
            k = k + 1;
        }
        let domain = if include_domain {
            match &config.domain {
                Some(dc) => {
                    let model = if contexts.len() > 0 {
                        match Self::scan_multi_context_domain(dc, tree, root, &contexts) {
                            Ok(m) => m,
                            Err(e) => return Err(e),
                        }
                    } else {
                        match scan_domain(dc, tree, root) {
                            Ok(m) => m,
                            Err(e) => return Err(e),
                        }
                    };
                    let ghost mv = model;
                    let d = Self::build_domain_manifest(model);
                    proof {
                        assert(domain_manifest_of(d, mv));
                    }
                    Some(d)
                },
                None => None,
            }
        } else {
            None
        };
        Ok(Manifest {
            version: owned(crate::VERSION),
            schema_version: owned(MANIFEST_SCHEMA_VERSION),
            generated_at,
            bounded_contexts: context_manifests,
            domain,
        })
    }

    /// Generate the manifest now, with the domain model when
    /// `include_domain` asks for it (see `generate_at`).
    pub fn generate_with_options(
        config: &VsaConfig,
        tree: &ProjectTree,
        root: &str,
        include_domain: bool,
    ) -> (r: Result<Self, VsaError>)
        ensures
            !(include_domain && config.domain is Some) ==> r is Ok,
            (include_domain && config.domain is Some) ==> (r is Ok <==> domain_part_ok(
                tree.entries@,
                config.domain->0,
                root@,
            )),
            r matches Ok(m) ==> {
                &&& m.version@ == crate::VERSION@
                &&& m.schema_version@ == MANIFEST_SCHEMA_VERSION@
                &&& m.bounded_contexts@.len() == context_count(tree.entries@, root@)
                &&& forall|k: int|
                    0 <= k < m.bounded_contexts@.len() ==> context_manifest_ok(
                        #[trigger] m.bounded_contexts@[k],
                        tree.entries@,
                        *config,
                        context_path(tree.entries@, root@, k),
                    )
                &&& (m.domain is Some <==> include_domain && config.domain is Some)
                &&& (m.domain matches Some(d) ==> domain_section(d, tree.entries@, config.domain->0, root@))
                &&& ends_with(m.generated_at@, "+00:00"@)
            },
    {
        Self::generate_at(config, tree, root, include_domain, now_rfc3339())
    }

    /// Generate the manifest now, without the domain model.
    pub fn generate(config: &VsaConfig, tree: &ProjectTree, root: &str) -> (r: Result<Self, VsaError>)
        ensures
            r matches Ok(m) && m.version@ == crate::VERSION@ && m.schema_version@
                == MANIFEST_SCHEMA_VERSION@ && m.bounded_contexts@.len() == context_count(
                tree.entries@,
                root@,
            ) && (forall|k: int|
                0 <= k < m.bounded_contexts@.len() ==> context_manifest_ok(
                    #[trigger] m.bounded_contexts@[k],
                    tree.entries@,
                    *config,
                    context_path(tree.entries@, root@, k),
                )) && m.domain is None && ends_with(m.generated_at@, "+00:00"@),
    {
        Self::generate_with_options(config, tree, root, false)
    }
}

} // verus!
