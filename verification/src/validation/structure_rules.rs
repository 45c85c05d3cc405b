//! Structure rules: where commands (VSA020), events (VSA021), aggregates
//! (VSA022, VSA027), ports (VSA023, VSA025), buses (VSA024) and value
//! object files (VSA026) belong in a context.
//!
//! The rules that search a context recursively meet its files in tree
//! order, the order of a depth-first walk. A search meets a file when
//! every directory from where it starts down to the file's own directory
//! is a directory it enters; `holder_chain` lists those directories.

use vstd::prelude::*;

use crate::assoc::strs;
use crate::case::{lowercase, to_lowercase};
use crate::config::{language_extension, supported_language};
use crate::error::VsaError;
use crate::path::{file_name_of, file_name_str, file_stem_of, file_stem_str, path_parent, path_parent_str, push_path, push_path_str};
use crate::scanner::{context_indices, contexts_in, contexts_match, entry_name, relative_to, relative_to_str};
use crate::text::{
    before_first, before_first_str, contains, decimal, decimal_usize, ends_with, join, join_strings,
    owned, starts_with, str_contains, str_ends_with, str_eq, str_starts_with, trim_end_all,
    trim_end_all_str,
};
use crate::tree::{FsEntry, ProjectTree, holder_chain, indices_where, is_child_path, path_is_dir};
use super::bounded_context_rules::{context_count, context_path};
use super::suggestions::{Suggestion, manual_view};
use super::{
    EnhancedValidationReport, IssueView, Severity, ValidationContext, ValidationIssue, ValidationRule,
    concat_map, file_name_or_empty, issue, issues_view, lemma_concat_map_empty,
    lemma_concat_map_step, lemma_grew_extends, push_issue, report_grew,
};

verus! {

/// VSA020: commands belong in `domain/commands/`.
pub struct RequireCommandsInDomainRule;

/// VSA021: events belong in `domain/events/`.
pub struct RequireEventsInDomainRule;

/// VSA022: aggregates belong in `domain/aggregate_*/` folders.
pub struct RequireAggregatesInDomainRootRule;

/// VSA023: port interfaces belong in `ports/`.
pub struct RequirePortsInPortsFolderRule;

/// VSA024: buses belong in `infrastructure/buses/`, not `application/`.
pub struct RequireBusesInInfrastructureRule;

/// VSA026: value object files are named `*ValueObjects.*`.
pub struct RequireValueObjectsNamingRule;

/// VSA025: files in `ports/` are named `*Port.*`.
pub struct RequirePortSuffixRule;

/// VSA027: each `aggregate_*` folder holds exactly one aggregate.
pub struct RequireAggregateFolderConventionRule;

/// What a structure rule looks for among a context's files.
#[derive(Clone, Copy)]
pub enum Misplacement {
    /// A command outside `domain/commands/` (VSA020).
    Command,
    /// An event outside `domain/events/` (VSA021).
    Event,
    /// A port interface outside `ports/` (VSA023).
    Port,
    /// A bus under `application/` (VSA024).
    Bus,
    /// An aggregate directly in `_shared/` (VSA022).
    SharedAggregate,
    /// An aggregate directly in `domain/` (VSA022).
    DomainRootAggregate,
    /// An aggregate in a subfolder of `domain/` that is no layer or
    /// aggregate folder (VSA022).
    NestedAggregate,
    /// A file in `ports/` without the `Port` suffix (VSA025).
    UnsuffixedPort,
    /// A value object file in `domain/` without the `ValueObjects` suffix
    /// (VSA026).
    LooseValueObjects,
}

/// Which directories a recursive search enters.
#[derive(Clone, Copy)]
pub enum DirTest {
    /// VSA020: every directory not named `domain`.
    Commands,
    /// VSA021: every directory but `domain/events` and those named
    /// `versioned` or `upcasters`.
    Events,
    /// VSA023: every directory but the context's `ports`.
    Ports,
}

// ============================================================================
// Which files a rule reports
// ============================================================================

/// Whether the entry at `p` has a name ending in `suffix`.
pub open spec fn name_ends_with(p: Seq<char>, suffix: Seq<char>) -> bool {
    match file_name_of(p) {
        Some(n) => ends_with(n, suffix),
        None => false,
    }
}

/// `base/a/b`.
pub open spec fn join2(base: Seq<char>, a: Seq<char>, b: Seq<char>) -> Seq<char> {
    push_path(push_path(base, a), b)
}

/// Whether the search of context `ctx` enters directory `x`: it has a
/// name, and the test does not exclude it.
pub open spec fn dir_enters(test: DirTest, ctx: Seq<char>, x: Seq<char>) -> bool {
    match file_name_of(x) {
        Some(n) => match test {
            DirTest::Commands => n != "domain"@,
            DirTest::Events => x != join2(ctx, "domain"@, "events"@) && n != "versioned"@ && n
                != "upcasters"@,
            DirTest::Ports => !(n == "ports"@ && x == push_path(ctx, "ports"@)),
        },
        None => false,
    }
}

/// Whether the search enters each directory of `c` from position `from` on.
pub open spec fn all_enter(c: Seq<Seq<char>>, from: int, test: DirTest, ctx: Seq<char>) -> bool {
    forall|j: int| from <= j < c.len() ==> dir_enters(test, ctx, #[trigger] c[j])
}

/// Whether VSA022's search of the context goes on through directory `x`:
/// it has a name, neither `domain` nor `_shared`.
pub open spec fn aggregate_search_enters(x: Seq<char>) -> bool {
    match file_name_of(x) {
        Some(n) => n != "domain"@ && n != "_shared"@,
        None => false,
    }
}

/// The first position of `c`, from `i` on, where VSA022's search stops.
pub open spec fn aggregate_search_stop(c: Seq<Seq<char>>, i: int) -> int
    decreases c.len() - i,
{
    if i < 0 || i >= c.len() {
        c.len() as int
    } else if aggregate_search_enters(c[i]) {
        aggregate_search_stop(c, i + 1)
    } else {
        i
    }
}

/// Whether a subfolder `x` of `domain/` is searched for aggregates: it is
/// no layer folder and no `aggregate_*` folder.
pub open spec fn subfolder_searched(x: Seq<char>) -> bool {
    let n = file_name_or_empty(x);
    &&& n != "commands"@
    &&& n != "queries"@
    &&& n != "events"@
    &&& n != "read_models"@
    &&& n != "_shared"@
    &&& !starts_with(n, "aggregate_"@)
}

/// Whether a file whose directories from the context down are `c` lies in
/// a searched subfolder of a `domain` directory that VSA022 reaches.
pub open spec fn in_searched_subfolder(c: Seq<Seq<char>>) -> bool {
    let j = aggregate_search_stop(c, 0);
    &&& 0 <= j
    &&& j + 1 < c.len()
    &&& file_name_of(c[j]) == Some("domain"@)
    &&& subfolder_searched(c[j + 1])
}

/// A port interface: its stem ends in `Port`, its name in `.ext`.
pub open spec fn is_port_file(p: Seq<char>, ext: Seq<char>) -> bool {
    name_ends_with(p, "."@ + ext) && ends_with(file_stem_of(p), "Port"@)
}

/// A bus: its stem holds `Bus` and does not end in `Port`, its name ends
/// in `.ext`.
pub open spec fn is_bus_file(p: Seq<char>, ext: Seq<char>) -> bool {
    &&& name_ends_with(p, "."@ + ext)
    &&& contains(file_stem_of(p), "Bus"@)
    &&& !ends_with(file_stem_of(p), "Port"@)
}

/// A file of `ports/` that VSA025 reports.
pub open spec fn is_unsuffixed_port(p: Seq<char>, ext: Seq<char>) -> bool {
    let stem = file_stem_of(p);
    &&& name_ends_with(p, "."@ + ext)
    &&& !starts_with(stem, "__"@)
    &&& stem != "mod"@
    &&& !ends_with(stem, "Port"@)
}

/// A file of `domain/` that VSA026 reports.
pub open spec fn is_loose_value_objects(p: Seq<char>, ext: Seq<char>) -> bool {
    let stem = file_stem_of(p);
    &&& name_ends_with(p, "."@ + ext)
    &&& !ends_with(stem, "Aggregate"@)
    &&& !ends_with(stem, "Command"@)
    &&& !ends_with(stem, "Event"@)
    &&& !ends_with(stem, "Query"@)
    &&& !ends_with(stem, "Port"@)
    &&& !starts_with(stem, "__"@)
    &&& stem != "mod"@
    &&& (contains(stem, "Value"@) || contains(stem, "VO"@))
    &&& !ends_with(stem, "ValueObjects"@)
}

/// Whether the entry at `p` lies directly in `dir`, a directory of the tree.
pub open spec fn directly_in(es: Seq<FsEntry>, p: Seq<char>, dir: Seq<char>) -> bool {
    path_parent(p) == Some(dir) && path_is_dir(es, dir)
}

/// Whether the rule for `kind` reports entry `i` of context `ctx`.
pub open spec fn is_misplaced(
    es: Seq<FsEntry>,
    ctx: Seq<char>,
    ext: Seq<char>,
    kind: Misplacement,
    i: int,
) -> bool {
    let p = es[i].path@;
    let rel = relative_to(p, ctx);
    !es[i].is_dir && match kind {
        Misplacement::Command => {
            &&& name_ends_with(p, "Command."@ + ext)
            &&& holder_chain(es, ctx, p) matches Some(c) && c.len() >= 2 && all_enter(
                c,
                1,
                DirTest::Commands,
                ctx,
            )
            &&& !starts_with(rel, "domain/commands/"@)
            &&& !starts_with(rel, "domain\\commands\\"@)
        },
        Misplacement::Event => {
            &&& name_ends_with(p, "Event."@ + ext)
            &&& holder_chain(es, ctx, p) matches Some(c) && all_enter(c, 0, DirTest::Events, ctx)
            &&& !starts_with(rel, "domain/events/"@)
            &&& !starts_with(rel, "domain\\events\\"@)
            &&& !starts_with(rel, "domain/events\\"@)
            &&& !starts_with(rel, "domain\\events/"@)
        },
        Misplacement::Port => {
            &&& is_port_file(p, ext)
            &&& holder_chain(es, ctx, p) matches Some(c) && all_enter(c, 0, DirTest::Ports, ctx)
        },
        Misplacement::Bus => {
            &&& is_bus_file(p, ext)
            &&& holder_chain(es, push_path(ctx, "application"@), p) is Some
        },
        Misplacement::SharedAggregate => {
            &&& name_ends_with(p, "Aggregate."@ + ext)
            &&& directly_in(es, p, push_path(ctx, "_shared"@))
        },
        Misplacement::DomainRootAggregate => {
            &&& name_ends_with(p, "Aggregate."@ + ext)
            &&& directly_in(es, p, push_path(ctx, "domain"@))
        },
        Misplacement::NestedAggregate => {
            &&& name_ends_with(p, "Aggregate."@ + ext)
            &&& holder_chain(es, ctx, p) matches Some(c) && in_searched_subfolder(c)
        },
        Misplacement::UnsuffixedPort => {
            &&& directly_in(es, p, push_path(ctx, "ports"@))
            &&& is_unsuffixed_port(p, ext)
        },
        Misplacement::LooseValueObjects => {
            &&& directly_in(es, p, push_path(ctx, "domain"@))
            &&& is_loose_value_objects(p, ext)
        },
    }
}

// ============================================================================
// What a rule reports
// ============================================================================

/// The name of the directory that holds `p`.
pub open spec fn holder_name(p: Seq<char>) -> Seq<char> {
    match path_parent(p) {
        Some(q) => file_name_or_empty(q),
        None => Seq::empty(),
    }
}

/// The aggregate a file name names: what precedes its first `.`, without
/// the `Aggregate` suffix.
pub open spec fn aggregate_base(name: Seq<char>) -> Seq<char> {
    trim_end_all(before_first(name, '.'), "Aggregate"@)
}

/// The `aggregate_*` folder that VSA022 suggests for an aggregate file.
pub open spec fn aggregate_folder_for(ctx: Seq<char>, name: Seq<char>) -> Seq<char> {
    push_path(push_path(ctx, "domain"@), "aggregate_"@ + lowercase(aggregate_base(name)))
}

/// The name VSA025 suggests for a port file.
pub open spec fn port_name_for(p: Seq<char>, ext: Seq<char>) -> Seq<char> {
    file_stem_of(p) + "Port."@ + ext
}

/// The name VSA026 suggests for a value object file.
pub open spec fn value_objects_name_for(p: Seq<char>, ext: Seq<char>) -> Seq<char> {
    let stem = file_stem_of(p);
    if ends_with(stem, "s"@) {
        stem + "Objects."@ + ext
    } else {
        stem + "ValueObjects."@ + ext
    }
}

/// The message of the issue for file `p` of context `ctx`, named `cname`.
pub open spec fn misplaced_message(
    ctx: Seq<char>,
    cname: Seq<char>,
    ext: Seq<char>,
    kind: Misplacement,
    p: Seq<char>,
) -> Seq<char> {
    let name = file_name_or_empty(p);
    let rel = relative_to(p, ctx);
    match kind {
        Misplacement::Command => "Command file '"@ + name + "' in context '"@ + cname
            + "' is not in domain/commands/ directory. All commands should be centralized in domain/commands/ as per ADR-019 (found at: "@
            + rel + ")"@,
        Misplacement::Event => "Event file '"@ + name + "' in context '"@ + cname
            + "' is not in domain/events/. Per ADR-019, events should be in domain/events/ directory for domain cohesion, not in "@
            + holder_name(p) + " (found at: "@ + rel + ")"@,
        Misplacement::Port => "Port interface '"@ + name + "' in context '"@ + cname
            + "' is not in ports/ directory. As per ADR-019, all port interfaces should be in ports/ folder for discoverability and hexagonal boundary enforcement (found at: "@
            + rel + ")"@,
        Misplacement::Bus => "Bus implementation '"@ + name + "' in context '"@ + cname
            + "' is in application/ directory. As per ADR-019, buses are infrastructure concerns (message routing) and should be in infrastructure/buses/, not application/. Application layer is for business orchestration, not technical plumbing."@,
        Misplacement::SharedAggregate => "Aggregate '"@ + name + "' in context '"@ + cname
            + "' is in _shared/ directory. As per ADR-020, aggregates must be in domain/aggregate_*/ folders."@,
        Misplacement::DomainRootAggregate => "Aggregate '"@ + name + "' in context '"@ + cname
            + "' is at domain/ root. As per ADR-020, aggregates must be in domain/aggregate_*/ folders to define clear consistency boundaries."@,
        Misplacement::NestedAggregate => "Aggregate '"@ + name + "' in context '"@ + cname
            + "' is in a subdirectory ("@ + rel
            + "). Aggregates should be directly in domain/ root, not in subfolders."@,
        Misplacement::UnsuffixedPort => "Port file '"@ + name + "' in context '"@ + cname
            + "' does not end with 'Port' suffix. As per ADR-019, all port interfaces must use *Port naming for discoverability and consistency."@,
        Misplacement::LooseValueObjects => "File '"@ + name
            + "' in domain/ appears to contain value objects but doesn't follow *ValueObjects naming convention. As per ADR-019, value object files should use *ValueObjects suffix for discoverability."@,
    }
}

/// The instructions of the manual suggestion for file `p`.
pub open spec fn misplaced_advice(
    ctx: Seq<char>,
    ext: Seq<char>,
    kind: Misplacement,
    p: Seq<char>,
) -> Seq<char> {
    let name = file_name_or_empty(p);
    match kind {
        Misplacement::Command => "Move this command to domain/commands/\nCommand: git mv "@ + p
            + " "@ + push_path(push_path(ctx, "domain/commands"@), name),
        Misplacement::Event => "Move this event to domain/events/\nCommand: git mv "@ + p + " "@
            + push_path(join2(ctx, "domain"@, "events"@), name),
        Misplacement::Port => "Move this port to ports/ folder\nCommands:\nmkdir -p "@ + push_path(
            ctx,
            "ports"@,
        ) + "\ngit mv "@ + p + " "@ + push_path(push_path(ctx, "ports"@), name),
        Misplacement::Bus => "Move bus to infrastructure/buses/\nCommands:\nmkdir -p "@
            + push_path(ctx, "infrastructure/buses"@) + "\ngit mv "@ + p + " "@ + push_path(
            push_path(ctx, "infrastructure/buses"@),
            name,
        ),
        Misplacement::SharedAggregate => "Move aggregate to domain/aggregate_*/ folder\nCommands:\nmkdir -p "@
            + aggregate_folder_for(ctx, name) + "\ngit mv "@ + p + " "@ + push_path(
            aggregate_folder_for(ctx, name),
            name,
        ),
        Misplacement::DomainRootAggregate => "Move aggregate to domain/aggregate_*/ folder\nCommands:\nmkdir -p "@
            + aggregate_folder_for(ctx, name) + "\ngit mv "@ + p + " "@ + push_path(
            aggregate_folder_for(ctx, name),
            name,
        ),
        Misplacement::NestedAggregate => "Move aggregate to domain/ root\nCommand: git mv "@ + p
            + " "@ + push_path(push_path(ctx, "domain"@), name),
        Misplacement::UnsuffixedPort => "Rename to "@ + port_name_for(p, ext) + "\nCommand: git mv "@
            + p + " "@ + push_path(push_path(ctx, "ports"@), port_name_for(p, ext)),
        Misplacement::LooseValueObjects => "Consider renaming to "@ + value_objects_name_for(p, ext)
            + "\nCommand: git mv "@ + p + " "@ + push_path(
            push_path(ctx, "domain"@),
            value_objects_name_for(p, ext),
        ),
    }
}

/// The code of the rule for `kind`.
pub open spec fn misplaced_code(kind: Misplacement) -> Seq<char> {
    match kind {
        Misplacement::Command => "VSA020"@,
        Misplacement::Event => "VSA021"@,
        Misplacement::Port => "VSA023"@,
        Misplacement::Bus => "VSA024"@,
        Misplacement::SharedAggregate => "VSA022"@,
        Misplacement::DomainRootAggregate => "VSA022"@,
        Misplacement::NestedAggregate => "VSA022"@,
        Misplacement::UnsuffixedPort => "VSA025"@,
        Misplacement::LooseValueObjects => "VSA026"@,
    }
}

/// The severity of the issues for `kind`: warnings for value object
/// names, errors otherwise.
pub open spec fn misplaced_severity(kind: Misplacement) -> Severity {
    match kind {
        Misplacement::LooseValueObjects => Severity::Warning,
        _ => Severity::Error,
    }
}

/// The issue for file `p` of context `ctx`.
pub open spec fn misplaced_issue(
    ctx: Seq<char>,
    cname: Seq<char>,
    ext: Seq<char>,
    kind: Misplacement,
    p: Seq<char>,
) -> IssueView {
    issue(
        p,
        misplaced_message(ctx, cname, ext, kind, p),
        misplaced_code(kind),
        misplaced_severity(kind),
        manual_view(misplaced_advice(ctx, ext, kind, p)),
    )
}

/// The issues for `kind` in context `ctx`, in tree order.
pub open spec fn misplaced_issues(
    es: Seq<FsEntry>,
    ctx: Seq<char>,
    ext: Seq<char>,
    kind: Misplacement,
) -> Seq<IssueView> {
    indices_where(es.len() as int, |i: int| is_misplaced(es, ctx, ext, kind, i)).map_values(
        |i: int| misplaced_issue(ctx, entry_name(ctx), ext, kind, es[i].path@),
    )
}

/// The issues for `kind` over all contexts under `root`, context by
/// context.
pub open spec fn structure_issues(
    es: Seq<FsEntry>,
    root: Seq<char>,
    ext: Seq<char>,
    kind: Misplacement,
) -> Seq<IssueView> {
    concat_map(
        context_count(es, root),
        |k: int| misplaced_issues(es, context_path(es, root, k), ext, kind),
    )
}

/// The extension of the validated language.
pub open spec fn ctx_ext(ctx: ValidationContext) -> Seq<char> {
    language_extension(ctx.config.language@)
}


// ============================================================================
// Executable checks
// ============================================================================

fn name_ends_with_exec(p: &str, suffix: &str) -> (r: bool)
    ensures
        r == name_ends_with(p@, suffix@),
{
    match file_name_str(p) {
        Some(n) => str_ends_with(n.as_str(), suffix),
        None => false,
    }
}

fn dot_ext(ext: &str) -> (r: String)
    ensures
        r@ == "."@ + ext@,
{
    let mut r = owned(".");
    r.append(ext);
    r
}

fn dir_enters_exec(test: DirTest, ctx: &str, x: &str) -> (r: bool)
    ensures
        r == dir_enters(test, ctx@, x@),
{
    match file_name_str(x) {
        Some(n) => match test {
            DirTest::Commands => !str_eq(n.as_str(), "domain"),
            DirTest::Events => {
                let d = push_path_str(ctx, "domain");
                let ev = push_path_str(d.as_str(), "events");
                !str_eq(x, ev.as_str()) && !str_eq(n.as_str(), "versioned") && !str_eq(
                    n.as_str(),
                    "upcasters",
                )
            },
            DirTest::Ports => {
                let ports = push_path_str(ctx, "ports");
                !(str_eq(n.as_str(), "ports") && str_eq(x, ports.as_str()))
            },
        },
        None => false,
    }
}

fn all_enter_exec(c: &Vec<String>, from: usize, test: DirTest, ctx: &str) -> (r: bool)
    ensures
        r == all_enter(strs(c@), from as int, test, ctx@),
{
    let ghost cs = strs(c@);
    let mut j: usize = from;
    while j < c.len()
        invariant
            from <= j || j >= c@.len(),
            cs == strs(c@),
            forall|m: int| from <= m < j && m < cs.len() ==> dir_enters(test, ctx@, #[trigger] cs[m]),
        decreases c.len() - j,
    {
        if !dir_enters_exec(test, ctx, c[j].as_str()) {
            assert(cs[j as int] == c@[j as int]@);
            return false;
        }
        assert(cs[j as int] == c@[j as int]@);
        j = j + 1;
    }
    true
}

fn aggregate_search_enters_exec(x: &str) -> (r: bool)
    ensures
        r == aggregate_search_enters(x@),
{
    match file_name_str(x) {
        Some(n) => !str_eq(n.as_str(), "domain") && !str_eq(n.as_str(), "_shared"),
        None => false,
    }
}

fn subfolder_searched_exec(x: &str) -> (r: bool)
    ensures
        r == subfolder_searched(x@),
{
    let n = match file_name_str(x) {
        Some(n) => n,
        None => String::new(),
    };
    assert(n@ == file_name_or_empty(x@));
    let s = n.as_str();
    !str_eq(s, "commands") && !str_eq(s, "queries") && !str_eq(s, "events") && !str_eq(
        s,
        "read_models",
    ) && !str_eq(s, "_shared") && !str_starts_with(s, "aggregate_")
}

fn in_searched_subfolder_exec(c: &Vec<String>) -> (r: bool)
    ensures
        r == in_searched_subfolder(strs(c@)),
{
    let ghost cs = strs(c@);
    let mut j: usize = 0;
    while j < c.len() && aggregate_search_enters_exec(c[j].as_str())
        invariant
            j <= c@.len(),
            cs == strs(c@),
            aggregate_search_stop(cs, 0) == aggregate_search_stop(cs, j as int),
        decreases c.len() - j,
    {
        assert(cs[j as int] == c@[j as int]@);
        j = j + 1;
    }
    proof {
        if j < c@.len() {
            assert(cs[j as int] == c@[j as int]@);
        }
    }
    assert(aggregate_search_stop(cs, 0) == j as int);
    if j >= c.len() || j + 1 >= c.len() {
        return false;
    }
    assert(cs[j as int] == c@[j as int]@);
    assert(cs[j + 1] == c@[j + 1]@);
    let named_domain = match file_name_str(c[j].as_str()) {
        Some(n) => str_eq(n.as_str(), "domain"),
        None => false,
    };
    named_domain && subfolder_searched_exec(c[j + 1].as_str())
}

fn directly_in_exec(tree: &ProjectTree, p: &str, dir: &str) -> (r: bool)
    ensures
        r == directly_in(tree.entries@, p@, dir@),
{
    let at_dir = match path_parent_str(p) {
        Some(q) => str_eq(q.as_str(), dir),
        None => false,
    };
    at_dir && tree.is_dir(dir)
}

fn is_unsuffixed_port_exec(p: &str, ext: &str) -> (r: bool)
    ensures
        r == is_unsuffixed_port(p@, ext@),
{
    let de = dot_ext(ext);
    let stem = file_stem_str(p);
    let s = stem.as_str();
    name_ends_with_exec(p, de.as_str()) && !str_starts_with(s, "__") && !str_eq(s, "mod")
        && !str_ends_with(s, "Port")
}

fn is_loose_value_objects_exec(p: &str, ext: &str) -> (r: bool)
    ensures
        r == is_loose_value_objects(p@, ext@),
{
    let de = dot_ext(ext);
    let stem = file_stem_str(p);
    let s = stem.as_str();
    name_ends_with_exec(p, de.as_str()) && !str_ends_with(s, "Aggregate") && !str_ends_with(
        s,
        "Command",
    ) && !str_ends_with(s, "Event") && !str_ends_with(s, "Query") && !str_ends_with(s, "Port")
        && !str_starts_with(s, "__") && !str_eq(s, "mod") && (str_contains(s, "Value")
        || str_contains(s, "VO")) && !str_ends_with(s, "ValueObjects")
}

fn name_with_ext(prefix: &str, ext: &str) -> (r: String)
    ensures
        r@ == prefix@ + ext@,
{
    let mut r = owned(prefix);
    r.append(ext);
    r
}

fn is_misplaced_exec(
    tree: &ProjectTree,
    ctx: &str,
    ext: &str,
    kind: Misplacement,
    i: usize,
) -> (r: bool)
    requires
        i < tree.entries@.len(),
    ensures
        r == is_misplaced(tree.entries@, ctx@, ext@, kind, i as int),
{
    let e = &tree.entries[i];
    if e.is_dir {
        return false;
    }
    let p = e.path.as_str();
    match kind {
        Misplacement::Command => {
            let suffix = name_with_ext("Command.", ext);
            if !name_ends_with_exec(p, suffix.as_str()) {
                return false;
            }
            let meets = match tree.holder_chain_exec(ctx, p) {
                Some(c) => c.len() >= 2 && all_enter_exec(&c, 1, DirTest::Commands, ctx),
                None => false,
            };
            let rel = relative_to_str(p, ctx);
            meets && !str_starts_with(rel.as_str(), "domain/commands/") && !str_starts_with(
                rel.as_str(),
                "domain\\commands\\",
            )
        },
        Misplacement::Event => {
            let suffix = name_with_ext("Event.", ext);
            if !name_ends_with_exec(p, suffix.as_str()) {
                return false;
            }
            let meets = match tree.holder_chain_exec(ctx, p) {
                Some(c) => all_enter_exec(&c, 0, DirTest::Events, ctx),
                None => false,
            };
            let rel = relative_to_str(p, ctx);
            let r = rel.as_str();
            meets && !str_starts_with(r, "domain/events/") && !str_starts_with(r, "domain\\events\\")
                && !str_starts_with(r, "domain/events\\") && !str_starts_with(r, "domain\\events/")
        },
        Misplacement::Port => {
            let de = dot_ext(ext);
            let stem = file_stem_str(p);
            if !(name_ends_with_exec(p, de.as_str()) && str_ends_with(stem.as_str(), "Port")) {
                return false;
            }
            match tree.holder_chain_exec(ctx, p) {
                Some(c) => all_enter_exec(&c, 0, DirTest::Ports, ctx),
                None => false,
            }
        },
        Misplacement::Bus => {
            let de = dot_ext(ext);
            let stem = file_stem_str(p);
            let s = stem.as_str();
            if !(name_ends_with_exec(p, de.as_str()) && str_contains(s, "Bus") && !str_ends_with(
                s,
                "Port",
            )) {
                return false;
            }
            let app = push_path_str(ctx, "application");
            tree.holder_chain_exec(app.as_str(), p).is_some()
        },
        Misplacement::SharedAggregate => {
            let suffix = name_with_ext("Aggregate.", ext);
            let shared = push_path_str(ctx, "_shared");
            name_ends_with_exec(p, suffix.as_str()) && directly_in_exec(tree, p, shared.as_str())
        },
        Misplacement::DomainRootAggregate => {
            let suffix = name_with_ext("Aggregate.", ext);
            let domain = push_path_str(ctx, "domain");
            name_ends_with_exec(p, suffix.as_str()) && directly_in_exec(tree, p, domain.as_str())
        },
        Misplacement::NestedAggregate => {
            let suffix = name_with_ext("Aggregate.", ext);
            if !name_ends_with_exec(p, suffix.as_str()) {
                return false;
            }
            match tree.holder_chain_exec(ctx, p) {
                Some(c) => in_searched_subfolder_exec(&c),
                None => false,
            }
        },
        Misplacement::UnsuffixedPort => {
            let ports = push_path_str(ctx, "ports");
            directly_in_exec(tree, p, ports.as_str()) && is_unsuffixed_port_exec(p, ext)
        },
        Misplacement::LooseValueObjects => {
            let domain = push_path_str(ctx, "domain");
            directly_in_exec(tree, p, domain.as_str()) && is_loose_value_objects_exec(p, ext)
        },
    }
}


fn name_or_empty(p: &str) -> (r: String)
    ensures
        r@ == file_name_or_empty(p@),
{
    match file_name_str(p) {
        Some(n) => n,
        None => String::new(),
    }
}

fn holder_name_exec(p: &str) -> (r: String)
    ensures
        r@ == holder_name(p@),
{
    match path_parent_str(p) {
        Some(q) => name_or_empty(q.as_str()),
        None => String::new(),
    }
}

fn aggregate_folder_exec(ctx: &str, name: &str) -> (r: String)
    ensures
        r@ == aggregate_folder_for(ctx@, name@),
{
    let first = before_first_str(name, '.');
    let base = trim_end_all_str(first.as_str(), "Aggregate");
    let low = to_lowercase(base.as_str());
    let folder = name_with_ext("aggregate_", low.as_str());
    let domain = push_path_str(ctx, "domain");
    push_path_str(domain.as_str(), folder.as_str())
}

fn port_name_exec(p: &str, ext: &str) -> (r: String)
    ensures
        r@ == port_name_for(p@, ext@),
{
    let mut r = file_stem_str(p);
    r.append("Port.");
    r.append(ext);
    r
}

fn value_objects_name_exec(p: &str, ext: &str) -> (r: String)
    ensures
        r@ == value_objects_name_for(p@, ext@),
{
    let mut r = file_stem_str(p);
    if str_ends_with(r.as_str(), "s") {
        r.append("Objects.");
    } else {
        r.append("ValueObjects.");
    }
    r.append(ext);
    r
}

fn misplaced_message_exec(
    ctx: &str,
    cname: &str,
    ext: &str,
    kind: Misplacement,
    p: &str,
) -> (r: String)
    ensures
        r@ == misplaced_message(ctx@, cname@, ext@, kind, p@),
{
    let name = name_or_empty(p);
    let rel = relative_to_str(p, ctx);
    let mut m = String::new();
    match kind {
        Misplacement::LooseValueObjects => {
            m.append("File '");
            m.append(name.as_str());
            m.append(
                "' in domain/ appears to contain value objects but doesn't follow *ValueObjects naming convention. As per ADR-019, value object files should use *ValueObjects suffix for discoverability.",
            );
            return m;
        },
        Misplacement::Command => m.append("Command file '"),
        Misplacement::Event => m.append("Event file '"),
        Misplacement::Port => m.append("Port interface '"),
        Misplacement::Bus => m.append("Bus implementation '"),
        Misplacement::UnsuffixedPort => m.append("Port file '"),
        _ => m.append("Aggregate '"),
    }
    m.append(name.as_str());
    m.append("' in context '");
    m.append(cname);
    match kind {
        Misplacement::Command => {
            m.append(
                "' is not in domain/commands/ directory. All commands should be centralized in domain/commands/ as per ADR-019 (found at: ",
            );
            m.append(rel.as_str());
            m.append(")");
        },
        Misplacement::Event => {
            m.append(
                "' is not in domain/events/. Per ADR-019, events should be in domain/events/ directory for domain cohesion, not in ",
            );
            let dir = holder_name_exec(p);
            m.append(dir.as_str());
            m.append(" (found at: ");
            m.append(rel.as_str());
            m.append(")");
        },
        Misplacement::Port => {
            m.append(
                "' is not in ports/ directory. As per ADR-019, all port interfaces should be in ports/ folder for discoverability and hexagonal boundary enforcement (found at: ",
            );
            m.append(rel.as_str());
            m.append(")");
        },
        Misplacement::Bus => {
            m.append(
                "' is in application/ directory. As per ADR-019, buses are infrastructure concerns (message routing) and should be in infrastructure/buses/, not application/. Application layer is for business orchestration, not technical plumbing.",
            );
        },
        Misplacement::SharedAggregate => {
            m.append(
                "' is in _shared/ directory. As per ADR-020, aggregates must be in domain/aggregate_*/ folders.",
            );
        },
        Misplacement::DomainRootAggregate => {
            m.append(
                "' is at domain/ root. As per ADR-020, aggregates must be in domain/aggregate_*/ folders to define clear consistency boundaries.",
            );
        },
        Misplacement::NestedAggregate => {
            m.append("' is in a subdirectory (");
            m.append(rel.as_str());
            m.append("). Aggregates should be directly in domain/ root, not in subfolders.");
        },
        Misplacement::UnsuffixedPort => {
            m.append(
                "' does not end with 'Port' suffix. As per ADR-019, all port interfaces must use *Port naming for discoverability and consistency.",
            );
        },
        Misplacement::LooseValueObjects => {},
    }
    m
}

fn git_mv_tail(m: &mut String, p: &str, target: &str)
    ensures
        final(m)@ == old(m)@ + p@ + " "@ + target@,
{
    m.append(p);
    m.append(" ");
    m.append(target);
}

fn misplaced_advice_exec(ctx: &str, ext: &str, kind: Misplacement, p: &str) -> (r: String)
    ensures
        r@ == misplaced_advice(ctx@, ext@, kind, p@),
{
    let name = name_or_empty(p);
    let mut m = String::new();
    match kind {
        Misplacement::Command => {
            m.append("Move this command to domain/commands/\nCommand: git mv ");
            let d = push_path_str(ctx, "domain/commands");
            let t = push_path_str(d.as_str(), name.as_str());
            git_mv_tail(&mut m, p, t.as_str());
        },
        Misplacement::Event => {
            m.append("Move this event to domain/events/\nCommand: git mv ");
            let d = push_path_str(ctx, "domain");
            let ev = push_path_str(d.as_str(), "events");
            let t = push_path_str(ev.as_str(), name.as_str());
            git_mv_tail(&mut m, p, t.as_str());
        },
        Misplacement::Port => {
            m.append("Move this port to ports/ folder\nCommands:\nmkdir -p ");
            let d = push_path_str(ctx, "ports");
            m.append(d.as_str());
            m.append("\ngit mv ");
            let t = push_path_str(d.as_str(), name.as_str());
            git_mv_tail(&mut m, p, t.as_str());
        },
        Misplacement::Bus => {
            m.append("Move bus to infrastructure/buses/\nCommands:\nmkdir -p ");
            let d = push_path_str(ctx, "infrastructure/buses");
            m.append(d.as_str());
            m.append("\ngit mv ");
            let t = push_path_str(d.as_str(), name.as_str());
            git_mv_tail(&mut m, p, t.as_str());
        },
        Misplacement::SharedAggregate | Misplacement::DomainRootAggregate => {
            m.append("Move aggregate to domain/aggregate_*/ folder\nCommands:\nmkdir -p ");
            let d = aggregate_folder_exec(ctx, name.as_str());
            m.append(d.as_str());
            m.append("\ngit mv ");
            let t = push_path_str(d.as_str(), name.as_str());
            git_mv_tail(&mut m, p, t.as_str());
        },
        Misplacement::NestedAggregate => {
            m.append("Move aggregate to domain/ root\nCommand: git mv ");
            let d = push_path_str(ctx, "domain");
            let t = push_path_str(d.as_str(), name.as_str());
            git_mv_tail(&mut m, p, t.as_str());
        },
        Misplacement::UnsuffixedPort => {
            m.append("Rename to ");
            let n = port_name_exec(p, ext);
            m.append(n.as_str());
            m.append("\nCommand: git mv ");
            let d = push_path_str(ctx, "ports");
            let t = push_path_str(d.as_str(), n.as_str());
            git_mv_tail(&mut m, p, t.as_str());
        },
        Misplacement::LooseValueObjects => {
            m.append("Consider renaming to ");
            let n = value_objects_name_exec(p, ext);
            m.append(n.as_str());
            m.append("\nCommand: git mv ");
            let d = push_path_str(ctx, "domain");
            let t = push_path_str(d.as_str(), n.as_str());
            git_mv_tail(&mut m, p, t.as_str());
        },
    }
    m
}

fn misplaced_code_exec(kind: Misplacement) -> (r: &'static str)
    ensures
        r@ == misplaced_code(kind),
{
    match kind {
        Misplacement::Command => "VSA020",
        Misplacement::Event => "VSA021",
        Misplacement::Port => "VSA023",
        Misplacement::Bus => "VSA024",
        Misplacement::SharedAggregate => "VSA022",
        Misplacement::DomainRootAggregate => "VSA022",
        Misplacement::NestedAggregate => "VSA022",
        Misplacement::UnsuffixedPort => "VSA025",
        Misplacement::LooseValueObjects => "VSA026",
    }
}

/// Appends the issue for file `p` of context `ctx`, named `cname`.
fn push_misplaced_issue(
    ctx: &str,
    cname: &str,
    ext: &str,
    kind: Misplacement,
    p: &str,
    out: &mut Vec<ValidationIssue>,
)
    ensures
        issues_view(final(out)@) == issues_view(old(out)@).push(
            misplaced_issue(ctx@, cname@, ext@, kind, p@),
        ),
{
    let msg = misplaced_message_exec(ctx, cname, ext, kind, p);
    let advice = misplaced_advice_exec(ctx, ext, kind, p);
    let sev = match kind {
        Misplacement::LooseValueObjects => Severity::Warning,
        _ => Severity::Error,
    };
    push_issue(out, owned(p), msg, misplaced_code_exec(kind), sev, Suggestion::manual(advice.as_str()));
}

/// Appends the issues for `kind` in context `ctx`, in tree order.
fn push_misplaced(
    tree: &ProjectTree,
    ctx: &str,
    cname: &str,
    ext: &str,
    kind: Misplacement,
    out: &mut Vec<ValidationIssue>,
)
    requires
        cname@ == entry_name(ctx@),
    ensures
        issues_view(final(out)@) == issues_view(old(out)@) + misplaced_issues(
            tree.entries@,
            ctx@,
            ext@,
            kind,
        ),
{
    let ghost es = tree.entries@;
    let ghost pred = |i: int| is_misplaced(es, ctx@, ext@, kind, i);
    let ghost f = |i: int| misplaced_issue(ctx@, entry_name(ctx@), ext@, kind, es[i].path@);
    let ghost start = issues_view(out@);
    let mut i: usize = 0;
    while i < tree.entries.len()
        invariant
            i <= es.len(),
            es == tree.entries@,
            cname@ == entry_name(ctx@),
            pred == (|i: int| is_misplaced(es, ctx@, ext@, kind, i)),
            f == (|i: int| misplaced_issue(ctx@, entry_name(ctx@), ext@, kind, es[i].path@)),
            issues_view(out@) == start + indices_where(i as int, pred).map_values(f),
        decreases tree.entries.len() - i,
    {
        let ghost before = issues_view(out@);
        if is_misplaced_exec(tree, ctx, ext, kind, i) {
            push_misplaced_issue(ctx, cname, ext, kind, tree.entries[i].path.as_str(), out);
            assert(indices_where(i + 1, pred) == indices_where(i as int, pred).push(i as int));
            assert(indices_where(i + 1, pred).map_values(f) =~= indices_where(i as int, pred).map_values(f).push(f(i as int)));
            assert(issues_view(out@) =~= before.push(f(i as int)));
        } else {
            assert(indices_where(i + 1, pred) == indices_where(i as int, pred));
        }
        i = i + 1;
    }
}

/// Appends the issues for `kind` over all contexts under `root`.
fn push_structure_issues(
    tree: &ProjectTree,
    root: &str,
    ext: &str,
    kind: Misplacement,
    out: &mut Vec<ValidationIssue>,
)
    ensures
        issues_view(final(out)@) == issues_view(old(out)@) + structure_issues(
            tree.entries@,
            root@,
            ext@,
            kind,
        ),
{
    let ghost es = tree.entries@;
    let ghost f = |k: int| misplaced_issues(es, context_path(es, root@, k), ext@, kind);
    let ghost start = issues_view(out@);
    let contexts = contexts_in(tree, root);
    proof {
        lemma_concat_map_empty(f);
    }
    let mut k: usize = 0;
    while k < contexts.len()
        invariant
            k <= contexts@.len(),
            es == tree.entries@,
            f == (|k: int| misplaced_issues(es, context_path(es, root@, k), ext@, kind)),
            contexts_match(contexts@, es, context_indices(es, root@)),
            issues_view(out@) == start + concat_map(k as int, f),
        decreases contexts.len() - k,
    {
        let c = &contexts[k];
        let ghost before = issues_view(out@);
        push_misplaced(tree, c.path.as_str(), c.name.as_str(), ext, kind, out);
        proof {
            lemma_concat_map_step(k as int, f);
            assert(issues_view(out@) =~= before + f(k as int));
        }
        k = k + 1;
    }
}


impl ValidationRule for RequireCommandsInDomainRule {
    open spec fn validate_outcome(
        &self,
        ctx: ValidationContext,
        before: EnhancedValidationReport,
        r: Result<(), VsaError>,
        after: EnhancedValidationReport,
    ) -> bool {
        &&& (r is Ok <==> crate::config::supported_language(ctx.config.language@))
        &&& (r matches Err(e) ==> crate::config::is_unsupported_language(e, ctx.config.language@)
                && after == before)
        &&& (r is Ok ==> report_grew(
                before,
                after,
                structure_issues(ctx.tree.entries@, ctx.root@, ctx_ext(ctx), Misplacement::Command),
                Seq::empty(),
            ))
    }

    fn name(&self) -> (r: &str)
        ensures
            r@ == "require-commands-in-domain"@,
    {
        "require-commands-in-domain"
    }

    fn code(&self) -> (r: &str)
        ensures
            r@ == "VSA020"@,
    {
        "VSA020"
    }

    fn validate(&self, ctx: &ValidationContext, report: &mut EnhancedValidationReport) -> (r:
        Result<(), VsaError>)
        ensures
            r is Ok <==> crate::config::supported_language(ctx.config.language@),
            r matches Err(e) ==> crate::config::is_unsupported_language(e, ctx.config.language@)
                && *final(report) == *old(report),
            r is Ok ==> report_grew(
                *old(report),
                *final(report),
                structure_issues(ctx.tree.entries@, ctx.root@, ctx_ext(*ctx), Misplacement::Command),
                Seq::empty(),
            ),
    {
        match ctx.config.check_language() {
            Ok(()) => {},
            Err(e) => {
                proof {
                    crate::validation::lemma_extends_refl(*report);
                }
                return Err(e);
            },
        }
        let ext = ctx.config.file_extension();
        push_structure_issues(&ctx.tree, ctx.root.as_str(), ext, Misplacement::Command, &mut report.errors);
        proof {
            assert(issues_view(report.warnings@) =~= issues_view(old(report).warnings@) + Seq::<IssueView>::empty());
            lemma_grew_extends(*old(report), *report, structure_issues(ctx.tree.entries@, ctx.root@, ctx_ext(*ctx), Misplacement::Command), Seq::empty());
        }
        Ok(())
    }
}

impl ValidationRule for RequireEventsInDomainRule {
    open spec fn validate_outcome(
        &self,
        ctx: ValidationContext,
        before: EnhancedValidationReport,
        r: Result<(), VsaError>,
        after: EnhancedValidationReport,
    ) -> bool {
        &&& (r is Ok <==> crate::config::supported_language(ctx.config.language@))
        &&& (r matches Err(e) ==> crate::config::is_unsupported_language(e, ctx.config.language@)
                && after == before)
        &&& (r is Ok ==> report_grew(
                before,
                after,
                structure_issues(ctx.tree.entries@, ctx.root@, ctx_ext(ctx), Misplacement::Event),
                Seq::empty(),
            ))
    }

    fn name(&self) -> (r: &str)
        ensures
            r@ == "require-events-in-domain"@,
    {
        "require-events-in-domain"
    }

    fn code(&self) -> (r: &str)
        ensures
            r@ == "VSA021"@,
    {
        "VSA021"
    }

    fn validate(&self, ctx: &ValidationContext, report: &mut EnhancedValidationReport) -> (r:
        Result<(), VsaError>)
        ensures
            r is Ok <==> crate::config::supported_language(ctx.config.language@),
            r matches Err(e) ==> crate::config::is_unsupported_language(e, ctx.config.language@)
                && *final(report) == *old(report),
            r is Ok ==> report_grew(
                *old(report),
                *final(report),
                structure_issues(ctx.tree.entries@, ctx.root@, ctx_ext(*ctx), Misplacement::Event),
                Seq::empty(),
            ),
    {
        match ctx.config.check_language() {
            Ok(()) => {},
            Err(e) => {
                proof {
                    crate::validation::lemma_extends_refl(*report);
                }
                return Err(e);
            },
        }
        let ext = ctx.config.file_extension();
        push_structure_issues(&ctx.tree, ctx.root.as_str(), ext, Misplacement::Event, &mut report.errors);
        proof {
            assert(issues_view(report.warnings@) =~= issues_view(old(report).warnings@) + Seq::<IssueView>::empty());
            lemma_grew_extends(*old(report), *report, structure_issues(ctx.tree.entries@, ctx.root@, ctx_ext(*ctx), Misplacement::Event), Seq::empty());
        }
        Ok(())
    }
}

impl ValidationRule for RequirePortsInPortsFolderRule {
    open spec fn validate_outcome(
        &self,
        ctx: ValidationContext,
        before: EnhancedValidationReport,
        r: Result<(), VsaError>,
        after: EnhancedValidationReport,
    ) -> bool {
        &&& (r is Ok <==> crate::config::supported_language(ctx.config.language@))
        &&& (r matches Err(e) ==> crate::config::is_unsupported_language(e, ctx.config.language@)
                && after == before)
        &&& (r is Ok ==> report_grew(
                before,
                after,
                structure_issues(ctx.tree.entries@, ctx.root@, ctx_ext(ctx), Misplacement::Port),
                Seq::empty(),
            ))
    }

    fn name(&self) -> (r: &str)
        ensures
            r@ == "require-ports-in-ports-folder"@,
    {
        "require-ports-in-ports-folder"
    }

    fn code(&self) -> (r: &str)
        ensures
            r@ == "VSA023"@,
    {
        "VSA023"
    }

    fn validate(&self, ctx: &ValidationContext, report: &mut EnhancedValidationReport) -> (r:
        Result<(), VsaError>)
        ensures
            r is Ok <==> crate::config::supported_language(ctx.config.language@),
            r matches Err(e) ==> crate::config::is_unsupported_language(e, ctx.config.language@)
                && *final(report) == *old(report),
            r is Ok ==> report_grew(
                *old(report),
                *final(report),
                structure_issues(ctx.tree.entries@, ctx.root@, ctx_ext(*ctx), Misplacement::Port),
                Seq::empty(),
            ),
    {
        match ctx.config.check_language() {
            Ok(()) => {},
            Err(e) => {
                proof {
                    crate::validation::lemma_extends_refl(*report);
                }
                return Err(e);
            },
        }
        let ext = ctx.config.file_extension();
        push_structure_issues(&ctx.tree, ctx.root.as_str(), ext, Misplacement::Port, &mut report.errors);
        proof {
            assert(issues_view(report.warnings@) =~= issues_view(old(report).warnings@) + Seq::<IssueView>::empty());
            lemma_grew_extends(*old(report), *report, structure_issues(ctx.tree.entries@, ctx.root@, ctx_ext(*ctx), Misplacement::Port), Seq::empty());
        }
        Ok(())
    }
}

impl ValidationRule for RequireBusesInInfrastructureRule {
    open spec fn validate_outcome(
        &self,
        ctx: ValidationContext,
        before: EnhancedValidationReport,
        r: Result<(), VsaError>,
        after: EnhancedValidationReport,
    ) -> bool {
        &&& (r is Ok <==> crate::config::supported_language(ctx.config.language@))
        &&& (r matches Err(e) ==> crate::config::is_unsupported_language(e, ctx.config.language@)
                && after == before)
        &&& (r is Ok ==> report_grew(
                before,
                after,
                structure_issues(ctx.tree.entries@, ctx.root@, ctx_ext(ctx), Misplacement::Bus),
                Seq::empty(),
            ))
    }

    fn name(&self) -> (r: &str)
        ensures
            r@ == "require-buses-in-infrastructure"@,
    {
        "require-buses-in-infrastructure"
    }

    fn code(&self) -> (r: &str)
        ensures
            r@ == "VSA024"@,
    {
        "VSA024"
    }

    fn validate(&self, ctx: &ValidationContext, report: &mut EnhancedValidationReport) -> (r:
        Result<(), VsaError>)
        ensures
            r is Ok <==> crate::config::supported_language(ctx.config.language@),
            r matches Err(e) ==> crate::config::is_unsupported_language(e, ctx.config.language@)
                && *final(report) == *old(report),
            r is Ok ==> report_grew(
                *old(report),
                *final(report),
                structure_issues(ctx.tree.entries@, ctx.root@, ctx_ext(*ctx), Misplacement::Bus),
                Seq::empty(),
            ),
    {
        match ctx.config.check_language() {
            Ok(()) => {},
            Err(e) => {
                proof {
                    crate::validation::lemma_extends_refl(*report);
                }
                return Err(e);
            },
        }
        let ext = ctx.config.file_extension();
        push_structure_issues(&ctx.tree, ctx.root.as_str(), ext, Misplacement::Bus, &mut report.errors);
        proof {
            assert(issues_view(report.warnings@) =~= issues_view(old(report).warnings@) + Seq::<IssueView>::empty());
            lemma_grew_extends(*old(report), *report, structure_issues(ctx.tree.entries@, ctx.root@, ctx_ext(*ctx), Misplacement::Bus), Seq::empty());
        }
        Ok(())
    }
}

impl ValidationRule for RequirePortSuffixRule {
    open spec fn validate_outcome(
        &self,
        ctx: ValidationContext,
        before: EnhancedValidationReport,
        r: Result<(), VsaError>,
        after: EnhancedValidationReport,
    ) -> bool {
        &&& (r is Ok <==> crate::config::supported_language(ctx.config.language@))
        &&& (r matches Err(e) ==> crate::config::is_unsupported_language(e, ctx.config.language@)
                && after == before)
        &&& (r is Ok ==> report_grew(
                before,
                after,
                structure_issues(ctx.tree.entries@, ctx.root@, ctx_ext(ctx), Misplacement::UnsuffixedPort),
                Seq::empty(),
            ))
    }

    fn name(&self) -> (r: &str)
        ensures
            r@ == "require-port-suffix"@,
    {
        "require-port-suffix"
    }

    fn code(&self) -> (r: &str)
        ensures
            r@ == "VSA025"@,
    {
        "VSA025"
    }

    fn validate(&self, ctx: &ValidationContext, report: &mut EnhancedValidationReport) -> (r:
        Result<(), VsaError>)
        ensures
            r is Ok <==> crate::config::supported_language(ctx.config.language@),
            r matches Err(e) ==> crate::config::is_unsupported_language(e, ctx.config.language@)
                && *final(report) == *old(report),
            r is Ok ==> report_grew(
                *old(report),
                *final(report),
                structure_issues(ctx.tree.entries@, ctx.root@, ctx_ext(*ctx), Misplacement::UnsuffixedPort),
                Seq::empty(),
            ),
    {
        match ctx.config.check_language() {
            Ok(()) => {},
            Err(e) => {
                proof {
                    crate::validation::lemma_extends_refl(*report);
                }
                return Err(e);
            },
        }
        let ext = ctx.config.file_extension();
        push_structure_issues(&ctx.tree, ctx.root.as_str(), ext, Misplacement::UnsuffixedPort, &mut report.errors);
        proof {
            assert(issues_view(report.warnings@) =~= issues_view(old(report).warnings@) + Seq::<IssueView>::empty());
            lemma_grew_extends(*old(report), *report, structure_issues(ctx.tree.entries@, ctx.root@, ctx_ext(*ctx), Misplacement::UnsuffixedPort), Seq::empty());
        }
        Ok(())
    }
}

impl ValidationRule for RequireValueObjectsNamingRule {
    open spec fn validate_outcome(
        &self,
        ctx: ValidationContext,
        before: EnhancedValidationReport,
        r: Result<(), VsaError>,
        after: EnhancedValidationReport,
    ) -> bool {
        &&& (r is Ok <==> crate::config::supported_language(ctx.config.language@))
        &&& (r matches Err(e) ==> crate::config::is_unsupported_language(e, ctx.config.language@)
                && after == before)
        &&& (r is Ok ==> report_grew(
                before,
                after,
                Seq::empty(),
                structure_issues(ctx.tree.entries@, ctx.root@, ctx_ext(ctx), Misplacement::LooseValueObjects),
            ))
    }

    fn name(&self) -> (r: &str)
        ensures
            r@ == "require-value-objects-naming"@,
    {
        "require-value-objects-naming"
    }

    fn code(&self) -> (r: &str)
        ensures
            r@ == "VSA026"@,
    {
        "VSA026"
    }

    fn validate(&self, ctx: &ValidationContext, report: &mut EnhancedValidationReport) -> (r:
        Result<(), VsaError>)
        ensures
            r is Ok <==> crate::config::supported_language(ctx.config.language@),
            r matches Err(e) ==> crate::config::is_unsupported_language(e, ctx.config.language@)
                && *final(report) == *old(report),
            r is Ok ==> report_grew(
                *old(report),
                *final(report),
                Seq::empty(),
                structure_issues(ctx.tree.entries@, ctx.root@, ctx_ext(*ctx), Misplacement::LooseValueObjects),
            ),
    {
        match ctx.config.check_language() {
            Ok(()) => {},
            Err(e) => {
                proof {
                    crate::validation::lemma_extends_refl(*report);
                }
                return Err(e);
            },
        }
        let ext = ctx.config.file_extension();
        push_structure_issues(&ctx.tree, ctx.root.as_str(), ext, Misplacement::LooseValueObjects, &mut report.warnings);
        proof {
            assert(issues_view(report.errors@) =~= issues_view(old(report).errors@) + Seq::<IssueView>::empty());
            lemma_grew_extends(*old(report), *report, Seq::empty(), structure_issues(ctx.tree.entries@, ctx.root@, ctx_ext(*ctx), Misplacement::LooseValueObjects));
        }
        Ok(())
    }
}

// ============================================================================
// VSA022: aggregates in domain/aggregate_*/ folders
// ============================================================================

/// VSA022's errors for one context: aggregates directly in `_shared/`,
/// then those directly in `domain/`, then those in searched subfolders of
/// a `domain` directory.
pub open spec fn aggregate_location_issues(es: Seq<FsEntry>, ctx: Seq<char>, ext: Seq<char>) -> Seq<
    IssueView,
> {
    misplaced_issues(es, ctx, ext, Misplacement::SharedAggregate) + misplaced_issues(
        es,
        ctx,
        ext,
        Misplacement::DomainRootAggregate,
    ) + misplaced_issues(es, ctx, ext, Misplacement::NestedAggregate)
}

/// VSA022's errors over all contexts under `root`.
pub open spec fn aggregate_location_errors(es: Seq<FsEntry>, root: Seq<char>, ext: Seq<char>) -> Seq<
    IssueView,
> {
    concat_map(
        context_count(es, root),
        |k: int| aggregate_location_issues(es, context_path(es, root, k), ext),
    )
}

impl ValidationRule for RequireAggregatesInDomainRootRule {
    open spec fn validate_outcome(
        &self,
        ctx: ValidationContext,
        before: EnhancedValidationReport,
        r: Result<(), VsaError>,
        after: EnhancedValidationReport,
    ) -> bool {
        &&& (r is Ok <==> crate::config::supported_language(ctx.config.language@))
        &&& (r matches Err(e) ==> crate::config::is_unsupported_language(e, ctx.config.language@)
                && after == before)
        &&& (r is Ok ==> report_grew(
                before,
                after,
                aggregate_location_errors(ctx.tree.entries@, ctx.root@, ctx_ext(ctx)),
                Seq::empty(),
            ))
    }

    fn name(&self) -> (r: &str)
        ensures
            r@ == "require-aggregates-in-aggregate-folders"@,
    {
        "require-aggregates-in-aggregate-folders"
    }

    fn code(&self) -> (r: &str)
        ensures
            r@ == "VSA022"@,
    {
        "VSA022"
    }

    fn validate(&self, ctx: &ValidationContext, report: &mut EnhancedValidationReport) -> (r:
        Result<(), VsaError>)
        ensures
            r is Ok <==> crate::config::supported_language(ctx.config.language@),
            r matches Err(e) ==> crate::config::is_unsupported_language(e, ctx.config.language@)
                && *final(report) == *old(report),
            r is Ok ==> report_grew(
                *old(report),
                *final(report),
                aggregate_location_errors(ctx.tree.entries@, ctx.root@, ctx_ext(*ctx)),
                Seq::empty(),
            ),
    {
        match ctx.config.check_language() {
            Ok(()) => {},
            Err(e) => {
                proof {
                    crate::validation::lemma_extends_refl(*report);
                }
                return Err(e);
            },
        }
        let ext = ctx.config.file_extension();
        let ghost es = ctx.tree.entries@;
        let ghost root = ctx.root@;
        let ghost f = |k: int| aggregate_location_issues(es, context_path(es, root, k), ext@);
        let ghost e0 = issues_view(report.errors@);
        let contexts = contexts_in(&ctx.tree, ctx.root.as_str());
        proof {
            lemma_concat_map_empty(f);
        }
        let mut k: usize = 0;
        while k < contexts.len()
            invariant
                k <= contexts@.len(),
                es == ctx.tree.entries@,
                root == ctx.root@,
                f == (|k: int| aggregate_location_issues(es, context_path(es, root, k), ext@)),
                contexts_match(contexts@, es, context_indices(es, root)),
                e0 == issues_view(old(report).errors@),
                issues_view(report.errors@) == e0 + concat_map(k as int, f),
                report.warnings@ == old(report).warnings@,
                report.suggestions@ == old(report).suggestions@,
            decreases contexts.len() - k,
        {
            let c = &contexts[k];
            let ghost before = issues_view(report.errors@);
            push_misplaced(&ctx.tree, c.path.as_str(), c.name.as_str(), ext, Misplacement::SharedAggregate, &mut report.errors);
            push_misplaced(&ctx.tree, c.path.as_str(), c.name.as_str(), ext, Misplacement::DomainRootAggregate, &mut report.errors);
            push_misplaced(&ctx.tree, c.path.as_str(), c.name.as_str(), ext, Misplacement::NestedAggregate, &mut report.errors);
            proof {
                lemma_concat_map_step(k as int, f);
                assert(issues_view(report.errors@) =~= before + f(k as int));
            }
            k = k + 1;
        }
        proof {
            assert(issues_view(report.warnings@) =~= issues_view(old(report).warnings@) + Seq::<IssueView>::empty());
            lemma_grew_extends(*old(report), *report, aggregate_location_errors(es, root, ext@), Seq::empty());
        }
        Ok(())
    }
}

// ============================================================================
// VSA027: one aggregate per aggregate_* folder
// ============================================================================

/// Whether entry `i` is an `aggregate_*` folder directly in the `domain`
/// directory of context `ctx`.
pub open spec fn is_aggregate_folder(es: Seq<FsEntry>, ctx: Seq<char>, i: int) -> bool {
    let domain = push_path(ctx, "domain"@);
    &&& path_is_dir(es, domain)
    &&& is_child_path(es[i].path@, domain)
    &&& es[i].is_dir
    &&& file_name_of(es[i].path@) matches Some(n) && starts_with(n, "aggregate_"@)
}

/// Positions of the `aggregate_*` folders of context `ctx`.
pub open spec fn aggregate_folders(es: Seq<FsEntry>, ctx: Seq<char>) -> Seq<int> {
    indices_where(es.len() as int, |i: int| is_aggregate_folder(es, ctx, i))
}

/// Whether entry `i` is an aggregate file directly in `dir`.
pub open spec fn is_aggregate_file_in(es: Seq<FsEntry>, dir: Seq<char>, ext: Seq<char>, i: int) -> bool {
    is_child_path(es[i].path@, dir) && !es[i].is_dir && name_ends_with(
        es[i].path@,
        "Aggregate."@ + ext,
    )
}

/// The names of the aggregate files directly in `dir`, in tree order.
pub open spec fn aggregate_file_names(es: Seq<FsEntry>, dir: Seq<char>, ext: Seq<char>) -> Seq<
    Seq<char>,
> {
    indices_where(es.len() as int, |i: int| is_aggregate_file_in(es, dir, ext, i)).map_values(
        |i: int| file_name_or_empty(es[i].path@),
    )
}

/// Whether some file lies directly in `dir`.
pub open spec fn has_file_in(es: Seq<FsEntry>, dir: Seq<char>) -> bool {
    exists|i: int| 0 <= i < es.len() && is_child_path(es[i].path@, dir) && !es[i].is_dir
}

/// The error for folder `d` of context `cname` when it holds several
/// aggregates.
pub open spec fn folder_errors(es: Seq<FsEntry>, cname: Seq<char>, ext: Seq<char>, d: Seq<char>) -> Seq<
    IssueView,
> {
    let names = aggregate_file_names(es, d, ext);
    if names.len() > 1 {
        seq![
            issue(
                d,
                "Folder '"@ + file_name_or_empty(d) + "' in context '"@ + cname + "' contains "@
                    + decimal(names.len())
                    + " aggregate files. Per ADR-020, each aggregate_* folder should have exactly ONE *Aggregate file. Files found: "@
                    + join(names, ", "@),
                "VSA027"@,
                Severity::Error,
                manual_view(
                    "Each aggregate should have its own aggregate_* folder. Move extra aggregates to their own folders."@,
                ),
            ),
        ]
    } else {
        Seq::empty()
    }
}

/// The warning for folder `d` of context `cname` when it holds files but
/// no aggregate.
pub open spec fn folder_warnings(es: Seq<FsEntry>, cname: Seq<char>, ext: Seq<char>, d: Seq<char>) -> Seq<
    IssueView,
> {
    if aggregate_file_names(es, d, ext).len() == 0 && has_file_in(es, d) {
        seq![
            issue(
                d,
                "Folder '"@ + file_name_or_empty(d) + "' in context '"@ + cname
                    + "' is named like an aggregate folder but contains no *Aggregate file. Per ADR-020, each aggregate_* folder should contain its aggregate root."@,
                "VSA027"@,
                Severity::Warning,
                manual_view("Add the aggregate root file to this folder or rename the folder."@),
            ),
        ]
    } else {
        Seq::empty()
    }
}

/// VSA027's errors for context `ctx`, folder by folder.
pub open spec fn context_folder_errors(es: Seq<FsEntry>, ctx: Seq<char>, ext: Seq<char>) -> Seq<
    IssueView,
> {
    aggregate_folders(es, ctx).map_values(
        |i: int| folder_errors(es, entry_name(ctx), ext, es[i].path@),
    ).flatten()
}

/// VSA027's warnings for context `ctx`, folder by folder.
pub open spec fn context_folder_warnings(es: Seq<FsEntry>, ctx: Seq<char>, ext: Seq<char>) -> Seq<
    IssueView,
> {
    aggregate_folders(es, ctx).map_values(
        |i: int| folder_warnings(es, entry_name(ctx), ext, es[i].path@),
    ).flatten()
}

/// VSA027's errors over all contexts under `root`.
pub open spec fn aggregate_folder_errors(es: Seq<FsEntry>, root: Seq<char>, ext: Seq<char>) -> Seq<
    IssueView,
> {
    concat_map(context_count(es, root), |k: int| context_folder_errors(es, context_path(es, root, k), ext))
}

/// VSA027's warnings over all contexts under `root`.
pub open spec fn aggregate_folder_warnings(es: Seq<FsEntry>, root: Seq<char>, ext: Seq<char>) -> Seq<
    IssueView,
> {
    concat_map(
        context_count(es, root),
        |k: int| context_folder_warnings(es, context_path(es, root, k), ext),
    )
}

fn is_aggregate_folder_exec(tree: &ProjectTree, ctx: &str, i: usize) -> (r: bool)
    requires
        i < tree.entries@.len(),
    ensures
        r == is_aggregate_folder(tree.entries@, ctx@, i as int),
{
    let domain = push_path_str(ctx, "domain");
    let e = &tree.entries[i];
    if !tree.is_dir(domain.as_str()) || !e.is_dir {
        return false;
    }
    let in_domain = match path_parent_str(e.path.as_str()) {
        Some(q) => str_eq(q.as_str(), domain.as_str()),
        None => false,
    };
    in_domain && match file_name_str(e.path.as_str()) {
        Some(n) => str_starts_with(n.as_str(), "aggregate_"),
        None => false,
    }
}

/// Appends VSA027's issues for folder `d` of context `cname`.
fn check_aggregate_folder(
    tree: &ProjectTree,
    cname: &str,
    ext: &str,
    d: &str,
    errors: &mut Vec<ValidationIssue>,
    warnings: &mut Vec<ValidationIssue>,
)
    ensures
        issues_view(final(errors)@) == issues_view(old(errors)@) + folder_errors(
            tree.entries@,
            cname@,
            ext@,
            d@,
        ),
        issues_view(final(warnings)@) == issues_view(old(warnings)@) + folder_warnings(
            tree.entries@,
            cname@,
            ext@,
            d@,
        ),
{
    let ghost es = tree.entries@;
    let ghost pred = |i: int| is_aggregate_file_in(es, d@, ext@, i);
    let ghost nm = |i: int| file_name_or_empty(es[i].path@);
    let suffix = name_with_ext("Aggregate.", ext);
    let mut names: Vec<String> = Vec::new();
    let mut has_file = false;
    let mut i: usize = 0;
    while i < tree.entries.len()
        invariant
            i <= es.len(),
            es == tree.entries@,
            suffix@ == "Aggregate."@ + ext@,
            pred == (|i: int| is_aggregate_file_in(es, d@, ext@, i)),
            nm == (|i: int| file_name_or_empty(es[i].path@)),
            strs(names@) == indices_where(i as int, pred).map_values(nm),
            has_file == exists|j: int| 0 <= j < i && is_child_path(es[j].path@, d@) && !es[j].is_dir,
        decreases tree.entries.len() - i,
    {
        let e = &tree.entries[i];
        let in_d = match path_parent_str(e.path.as_str()) {
            Some(q) => str_eq(q.as_str(), d),
            None => false,
        };
        let ghost before = strs(names@);
        if in_d && !e.is_dir && name_ends_with_exec(e.path.as_str(), suffix.as_str()) {
            names.push(name_or_empty(e.path.as_str()));
            assert(indices_where(i + 1, pred) == indices_where(i as int, pred).push(i as int));
            assert(indices_where(i + 1, pred).map_values(nm) =~= indices_where(i as int, pred).map_values(nm).push(nm(i as int)));
            assert(strs(names@) =~= before.push(nm(i as int)));
        } else {
            assert(indices_where(i + 1, pred) == indices_where(i as int, pred));
        }
        if in_d && !e.is_dir {
            has_file = true;
        }
        i = i + 1;
    }
    assert(strs(names@) == aggregate_file_names(es, d@, ext@));
    let folder = name_or_empty(d);
    if names.len() > 1 {
        let mut m = owned("Folder '");
        m.append(folder.as_str());
        m.append("' in context '");
        m.append(cname);
        m.append("' contains ");
        let n = decimal_usize(names.len());
        m.append(n.as_str());
        m.append(
            " aggregate files. Per ADR-020, each aggregate_* folder should have exactly ONE *Aggregate file. Files found: ",
        );
        let joined = join_strings(&names, ", ");
        m.append(joined.as_str());
        let ghost e0 = issues_view(errors@);
        push_issue(
            errors,
            owned(d),
            m,
            "VSA027",
            Severity::Error,
            Suggestion::manual(
                "Each aggregate should have its own aggregate_* folder. Move extra aggregates to their own folders.",
            ),
        );
        assert(issues_view(errors@) =~= e0 + folder_errors(es, cname@, ext@, d@));
    } else {
        assert(issues_view(errors@) =~= issues_view(errors@) + Seq::<IssueView>::empty());
    }
    if names.len() == 0 && has_file {
        let mut m = owned("Folder '");
        m.append(folder.as_str());
        m.append("' in context '");
        m.append(cname);
        m.append(
            "' is named like an aggregate folder but contains no *Aggregate file. Per ADR-020, each aggregate_* folder should contain its aggregate root.",
        );
        let ghost w0 = issues_view(warnings@);
        push_issue(
            warnings,
            owned(d),
            m,
            "VSA027",
            Severity::Warning,
            Suggestion::manual("Add the aggregate root file to this folder or rename the folder."),
        );
        assert(issues_view(warnings@) =~= w0 + folder_warnings(es, cname@, ext@, d@));
    } else {
        assert(issues_view(warnings@) =~= issues_view(warnings@) + Seq::<IssueView>::empty());
    }
}

/// Appends VSA027's issues for context `ctx`, named `cname`.
fn check_aggregate_folders(
    tree: &ProjectTree,
    ctx: &str,
    cname: &str,
    ext: &str,
    errors: &mut Vec<ValidationIssue>,
    warnings: &mut Vec<ValidationIssue>,
)
    requires
        cname@ == entry_name(ctx@),
    ensures
        issues_view(final(errors)@) == issues_view(old(errors)@) + context_folder_errors(
            tree.entries@,
            ctx@,
            ext@,
        ),
        issues_view(final(warnings)@) == issues_view(old(warnings)@) + context_folder_warnings(
            tree.entries@,
            ctx@,
            ext@,
        ),
{
    let ghost es = tree.entries@;
    let ghost pred = |i: int| is_aggregate_folder(es, ctx@, i);
    let ghost fe = |i: int| folder_errors(es, entry_name(ctx@), ext@, es[i].path@);
    let ghost fw = |i: int| folder_warnings(es, entry_name(ctx@), ext@, es[i].path@);
    let ghost e0 = issues_view(errors@);
    let ghost w0 = issues_view(warnings@);
    let mut i: usize = 0;
    assert(indices_where(0, pred).map_values(fe) =~= Seq::<Seq<IssueView>>::empty());
    assert(indices_where(0, pred).map_values(fw) =~= Seq::<Seq<IssueView>>::empty());
    assert(Seq::<Seq<IssueView>>::empty().flatten() =~= Seq::<IssueView>::empty());
    while i < tree.entries.len()
        invariant
            i <= es.len(),
            es == tree.entries@,
            cname@ == entry_name(ctx@),
            pred == (|i: int| is_aggregate_folder(es, ctx@, i)),
            fe == (|i: int| folder_errors(es, entry_name(ctx@), ext@, es[i].path@)),
            fw == (|i: int| folder_warnings(es, entry_name(ctx@), ext@, es[i].path@)),
            issues_view(errors@) == e0 + indices_where(i as int, pred).map_values(fe).flatten(),
            issues_view(warnings@) == w0 + indices_where(i as int, pred).map_values(fw).flatten(),
        decreases tree.entries.len() - i,
    {
        if is_aggregate_folder_exec(tree, ctx, i) {
            let ghost eb = issues_view(errors@);
            let ghost wb = issues_view(warnings@);
            check_aggregate_folder(tree, cname, ext, tree.entries[i].path.as_str(), errors, warnings);
            proof {
                let s = indices_where(i as int, pred);
                assert(indices_where(i + 1, pred) == s.push(i as int));
                assert(s.push(i as int).map_values(fe) =~= s.map_values(fe).push(fe(i as int)));
                assert(s.push(i as int).map_values(fw) =~= s.map_values(fw).push(fw(i as int)));
                s.map_values(fe).lemma_flatten_push(fe(i as int));
                s.map_values(fw).lemma_flatten_push(fw(i as int));
                assert(issues_view(errors@) =~= e0 + indices_where(i + 1, pred).map_values(fe).flatten());
                assert(issues_view(warnings@) =~= w0 + indices_where(i + 1, pred).map_values(fw).flatten());
            }
        } else {
            assert(indices_where(i + 1, pred) == indices_where(i as int, pred));
        }
        i = i + 1;
    }
}

impl ValidationRule for RequireAggregateFolderConventionRule {
    open spec fn validate_outcome(
        &self,
        ctx: ValidationContext,
        before: EnhancedValidationReport,
        r: Result<(), VsaError>,
        after: EnhancedValidationReport,
    ) -> bool {
        &&& (r is Ok <==> crate::config::supported_language(ctx.config.language@))
        &&& (r matches Err(e) ==> crate::config::is_unsupported_language(e, ctx.config.language@)
                && after == before)
        &&& (r is Ok ==> report_grew(
                before,
                after,
                aggregate_folder_errors(ctx.tree.entries@, ctx.root@, ctx_ext(ctx)),
                aggregate_folder_warnings(ctx.tree.entries@, ctx.root@, ctx_ext(ctx)),
            ))
    }

    fn name(&self) -> (r: &str)
        ensures
            r@ == "require-aggregate-folder-convention"@,
    {
        "require-aggregate-folder-convention"
    }

    fn code(&self) -> (r: &str)
        ensures
            r@ == "VSA027"@,
    {
        "VSA027"
    }

    fn validate(&self, ctx: &ValidationContext, report: &mut EnhancedValidationReport) -> (r:
        Result<(), VsaError>)
        ensures
            r is Ok <==> crate::config::supported_language(ctx.config.language@),
            r matches Err(e) ==> crate::config::is_unsupported_language(e, ctx.config.language@)
                && *final(report) == *old(report),
            r is Ok ==> report_grew(
                *old(report),
                *final(report),
                aggregate_folder_errors(ctx.tree.entries@, ctx.root@, ctx_ext(*ctx)),
                aggregate_folder_warnings(ctx.tree.entries@, ctx.root@, ctx_ext(*ctx)),
            ),
    {
        match ctx.config.check_language() {
            Ok(()) => {},
            Err(e) => {
                proof {
                    crate::validation::lemma_extends_refl(*report);
                }
                return Err(e);
            },
        }
        let ext = ctx.config.file_extension();
        let ghost es = ctx.tree.entries@;
        let ghost root = ctx.root@;
        let ghost fe = |k: int| context_folder_errors(es, context_path(es, root, k), ext@);
        let ghost fw = |k: int| context_folder_warnings(es, context_path(es, root, k), ext@);
        let ghost e0 = issues_view(report.errors@);
        let ghost w0 = issues_view(report.warnings@);
        let contexts = contexts_in(&ctx.tree, ctx.root.as_str());
        proof {
            lemma_concat_map_empty(fe);
            lemma_concat_map_empty(fw);
        }
        let mut k: usize = 0;
        while k < contexts.len()
            invariant
                k <= contexts@.len(),
                es == ctx.tree.entries@,
                root == ctx.root@,
                fe == (|k: int| context_folder_errors(es, context_path(es, root, k), ext@)),
                fw == (|k: int| context_folder_warnings(es, context_path(es, root, k), ext@)),
                contexts_match(contexts@, es, context_indices(es, root)),
                e0 == issues_view(old(report).errors@),
                w0 == issues_view(old(report).warnings@),
                issues_view(report.errors@) == e0 + concat_map(k as int, fe),
                issues_view(report.warnings@) == w0 + concat_map(k as int, fw),
                report.suggestions@ == old(report).suggestions@,
            decreases contexts.len() - k,
        {
            let c = &contexts[k];
            let ghost eb = issues_view(report.errors@);
            let ghost wb = issues_view(report.warnings@);
            check_aggregate_folders(&ctx.tree, c.path.as_str(), c.name.as_str(), ext, &mut report.errors, &mut report.warnings);
            proof {
                lemma_concat_map_step(k as int, fe);
                lemma_concat_map_step(k as int, fw);
                assert(issues_view(report.errors@) =~= eb + fe(k as int));
                assert(issues_view(report.warnings@) =~= wb + fw(k as int));
            }
            k = k + 1;
        }
        proof {
            lemma_grew_extends(
                *old(report),
                *report,
                aggregate_folder_errors(es, root, ext@),
                aggregate_folder_warnings(es, root, ext@),
            );
        }
        Ok(())
    }
}

} // verus!
