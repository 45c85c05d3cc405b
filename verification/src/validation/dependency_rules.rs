//! Dependency rules of the hexagonal architecture: the domain is pure
//! (VSA027), events import nothing of the project (VSA028), ports import
//! only domain and events (VSA029), the application imports neither slices
//! nor infrastructure (VSA030), and slices do not import each other
//! (VSA031).

use vstd::prelude::*;

use crate::assoc::strs;
use crate::config::VsaConfig;
use crate::error::VsaError;
use crate::path::{file_name_of, file_name_str, push_path, push_path_str};
use crate::scanner::{
    context_indices, contexts_in, contexts_match, entry_name, relative_to, relative_to_str,
};
use crate::text::{
    contains, decimal, decimal_usize, find, lemma_find_bounds, starts_with, str_contains, str_eq,
    str_starts_with,
};
use crate::tree::{FsEntry, ProjectTree, file_text, path_exists, walk_file_paths};
use super::bounded_context_rules::{context_count, context_path};
use super::import_parser::{
    ImportSpec, ImportStatement, imports_view, language_of, parse_imports, replace_char,
    replace_char_exec, replace_double_colon, replace_double_colon_exec, source_imports,
};
use super::suggestions::{Suggestion, SuggestionView, manual_view};
use super::{
    lemma_concat_map_contains,
    EnhancedValidationReport, IssueView, Severity, ValidationContext, ValidationIssue, ValidationRule,
    concat_map, is_test_or_conftest, is_test_or_conftest_spec, issue_with, issues_view, lemma_concat_map_empty,
    lemma_concat_map_step, lemma_grew_extends, push_issue_with, report_grew,
};

verus! {

/// Rule: the domain layer must not import from ports, application,
/// infrastructure or slices.
pub struct DomainPurityRule;

/// Rule: the events layer must not import project code.
pub struct EventsIsolationRule;

/// Rule: the ports layer may only import from domain and events.
pub struct PortIsolationRule;

/// Rule: the application layer must not import from slices or
/// infrastructure.
pub struct ApplicationIsolationRule;

/// Rule: slices must not import from other slices.
pub struct SliceIsolationRule;

// ============================================================================
// Imports of a file
// ============================================================================

/// The imports of the file at `p` in the tree: none when it cannot be read
/// or no parser reads its kind.
pub open spec fn file_imports(es: Seq<FsEntry>, p: Seq<char>) -> Seq<ImportSpec> {
    match file_text(es, p) {
        Some(t) => match language_of(p) {
            Some(l) => source_imports(l, t),
            None => Seq::empty(),
        },
        None => Seq::empty(),
    }
}

/// The imports of the file at `p`.
pub fn read_imports(tree: &ProjectTree, p: &str) -> (r: Vec<ImportStatement>)
    ensures
        imports_view(r@) == file_imports(tree.entries@, p@),
{
    match tree.read(p) {
        Some(t) => parse_imports(p, t.as_str()),
        None => Vec::new(),
    }
}

/// A module path with `::` and `.` turned into `/`.
pub open spec fn normalize_module(m: Seq<char>) -> Seq<char> {
    replace_char(replace_double_colon(m), '.', '/')
}

/// A module path with `::` and `.` turned into `/`.
pub fn normalize_module_exec(m: &str) -> (r: String)
    ensures
        r@ == normalize_module(m@),
{
    let mc = crate::text::chars_of(m);
    let a = replace_double_colon_exec(mc.as_slice());
    let b = replace_char_exec(a.as_slice(), '.', '/');
    crate::text::string_of(b.as_slice())
}

// ============================================================================
// Import classifications
// ============================================================================

/// Imports the domain may not have: context-root events, ports,
/// application, infrastructure and slices.
pub open spec fn domain_forbids(module: Seq<char>) -> bool {
    let n = normalize_module(module);
    let forbidden_events = (contains(n, "/events/"@) && !contains(n, "/domain/events/"@)) || (
    starts_with(n, "events/"@) && !starts_with(n, "domain/events/"@)) || (starts_with(
        n,
        "events"@,
    ) && !starts_with(n, "domain/events"@) && !contains(n, "/"@));
    ||| forbidden_events
    ||| contains(n, "/ports/"@)
    ||| contains(n, "/application/"@)
    ||| contains(n, "/infrastructure/"@)
    ||| contains(n, "/slices/"@)
    ||| starts_with(n, "ports/"@)
    ||| starts_with(n, "application/"@)
    ||| starts_with(n, "infrastructure/"@)
    ||| starts_with(n, "slices/"@)
    ||| starts_with(n, "ports"@)
    ||| starts_with(n, "application"@)
    ||| starts_with(n, "infrastructure"@)
    ||| starts_with(n, "slices"@)
}

/// The domain layer may depend on no outer layer: an import whose module,
/// with `::` and `.` read as `/`, starts with `application`, `ports`,
/// `infrastructure` or `slices`, or holds one of them as a whole path
/// component (`/application/`, ...), is forbidden in the domain.
pub proof fn lemma_domain_forbids_outer_layers(module: Seq<char>)
    ensures
        starts_with(normalize_module(module), "application"@) ==> domain_forbids(module),
        contains(normalize_module(module), "/application/"@) ==> domain_forbids(module),
        starts_with(normalize_module(module), "ports"@) ==> domain_forbids(module),
        contains(normalize_module(module), "/ports/"@) ==> domain_forbids(module),
        starts_with(normalize_module(module), "infrastructure"@) ==> domain_forbids(module),
        contains(normalize_module(module), "/infrastructure/"@) ==> domain_forbids(module),
        starts_with(normalize_module(module), "slices"@) ==> domain_forbids(module),
        contains(normalize_module(module), "/slices/"@) ==> domain_forbids(module),
{
}

proof fn lemma_contains_part(s: Seq<char>, a: Seq<char>, off: int, b: Seq<char>)
    requires
        0 <= off,
        off + b.len() <= a.len(),
        a.subrange(off, off + b.len()) == b,
        contains(s, a) || starts_with(s, a),
    ensures
        contains(s, b),
{
    lemma_find_bounds(s, a);
    lemma_find_bounds(s, b);
    let i = if contains(s, a) { find(s, a)->0 } else { 0 };
    if !contains(s, a) {
        assert(s.subrange(0, a.len() as int) == a);
    }
    assert(s.subrange(i + off, i + off + b.len()) =~= a.subrange(off, off + b.len()));
    assert(crate::text::occurs_at(s, b, i + off));
}

/// Conversely, the domain may import a module that names none of the other
/// layers: one whose path, with `::` and `.` read as `/`, holds none of
/// `events`, `ports`, `application`, `infrastructure` and `slices`.
pub proof fn lemma_domain_allows_other_modules(module: Seq<char>)
    ensures
        ({
            let n = normalize_module(module);
            !contains(n, "events"@) && !contains(n, "ports"@) && !contains(n, "application"@)
                && !contains(n, "infrastructure"@) && !contains(n, "slices"@) ==> !domain_forbids(module)
        }),
{
    let n = normalize_module(module);
    reveal_strlit("events");
    reveal_strlit("ports");
    reveal_strlit("application");
    reveal_strlit("infrastructure");
    reveal_strlit("slices");
    reveal_strlit("/events/");
    reveal_strlit("events/");
    reveal_strlit("/ports/");
    reveal_strlit("/application/");
    reveal_strlit("/infrastructure/");
    reveal_strlit("/slices/");
    reveal_strlit("ports/");
    reveal_strlit("application/");
    reveal_strlit("infrastructure/");
    reveal_strlit("slices/");
    if contains(n, "/events/"@) {
        assert("/events/"@.subrange(1, 1 + "events"@.len() as int) =~= "events"@);
        lemma_contains_part(n, "/events/"@, 1, "events"@);
    }
    if starts_with(n, "events/"@) {
        assert("events/"@.subrange(0, 0 + "events/"@.len() as int) =~= "events/"@);
        lemma_contains_part(n, "events/"@, 0, "events/"@);
        assert("events/"@.subrange(0, 0 + "events"@.len() as int) =~= "events"@);
        lemma_contains_part(n, "events/"@, 0, "events"@);
    }
    if starts_with(n, "events"@) {
        assert("events"@.subrange(0, 0 + "events"@.len() as int) =~= "events"@);
        lemma_contains_part(n, "events"@, 0, "events"@);
    }
    if contains(n, "/ports/"@) {
        assert("/ports/"@.subrange(1, 1 + "ports"@.len() as int) =~= "ports"@);
        lemma_contains_part(n, "/ports/"@, 1, "ports"@);
    }
    if contains(n, "/application/"@) {
        assert("/application/"@.subrange(1, 1 + "application"@.len() as int) =~= "application"@);
        lemma_contains_part(n, "/application/"@, 1, "application"@);
    }
    if contains(n, "/infrastructure/"@) {
        assert("/infrastructure/"@.subrange(1, 1 + "infrastructure"@.len() as int) =~= "infrastructure"@);
        lemma_contains_part(n, "/infrastructure/"@, 1, "infrastructure"@);
    }
    if contains(n, "/slices/"@) {
        assert("/slices/"@.subrange(1, 1 + "slices"@.len() as int) =~= "slices"@);
        lemma_contains_part(n, "/slices/"@, 1, "slices"@);
    }
    if starts_with(n, "ports"@) {
        assert("ports"@.subrange(0, 0 + "ports"@.len() as int) =~= "ports"@);
        lemma_contains_part(n, "ports"@, 0, "ports"@);
    }
    if starts_with(n, "application"@) {
        assert("application"@.subrange(0, 0 + "application"@.len() as int) =~= "application"@);
        lemma_contains_part(n, "application"@, 0, "application"@);
    }
    if starts_with(n, "infrastructure"@) {
        assert("infrastructure"@.subrange(0, 0 + "infrastructure"@.len() as int) =~= "infrastructure"@);
        lemma_contains_part(n, "infrastructure"@, 0, "infrastructure"@);
    }
    if starts_with(n, "slices"@) {
        assert("slices"@.subrange(0, 0 + "slices"@.len() as int) =~= "slices"@);
        lemma_contains_part(n, "slices"@, 0, "slices"@);
    }
    if starts_with(n, "ports/"@) {
        assert("ports/"@.subrange(0, 0 + "ports/"@.len() as int) =~= "ports/"@);
        lemma_contains_part(n, "ports/"@, 0, "ports/"@);
        assert("ports/"@.subrange(0, 0 + "ports"@.len() as int) =~= "ports"@);
        lemma_contains_part(n, "ports/"@, 0, "ports"@);
    }
    if starts_with(n, "application/"@) {
        assert("application/"@.subrange(0, 0 + "application/"@.len() as int) =~= "application/"@);
        lemma_contains_part(n, "application/"@, 0, "application/"@);
        assert("application/"@.subrange(0, 0 + "application"@.len() as int) =~= "application"@);
        lemma_contains_part(n, "application/"@, 0, "application"@);
    }
    if starts_with(n, "infrastructure/"@) {
        assert("infrastructure/"@.subrange(0, 0 + "infrastructure/"@.len() as int) =~= "infrastructure/"@);
        lemma_contains_part(n, "infrastructure/"@, 0, "infrastructure/"@);
        assert("infrastructure/"@.subrange(0, 0 + "infrastructure"@.len() as int) =~= "infrastructure"@);
        lemma_contains_part(n, "infrastructure/"@, 0, "infrastructure"@);
    }
    if starts_with(n, "slices/"@) {
        assert("slices/"@.subrange(0, 0 + "slices/"@.len() as int) =~= "slices/"@);
        lemma_contains_part(n, "slices/"@, 0, "slices/"@);
        assert("slices/"@.subrange(0, 0 + "slices"@.len() as int) =~= "slices"@);
        lemma_contains_part(n, "slices/"@, 0, "slices"@);
    }
}

/// Standard library and allowed framework imports.
pub open spec fn is_stdlib_module(m: Seq<char>) -> bool {
    ||| starts_with(m, "typing"@)
    ||| starts_with(m, "dataclasses"@)
    ||| starts_with(m, "datetime"@)
    ||| starts_with(m, "uuid"@)
    ||| starts_with(m, "enum"@)
    ||| starts_with(m, "decimal"@)
    ||| starts_with(m, "__future__"@)
    ||| starts_with(m, "event_sourcing"@)
    ||| contains(m, ".value_objects"@)
    ||| contains(m, "ValueObjects"@)
    ||| starts_with(m, "pydantic"@)
    ||| starts_with(m, "std::"@)
}

/// Imports a port may have: domain and events, the standard library, and
/// anything outside application, infrastructure and slices.
pub open spec fn port_allows(module: Seq<char>) -> bool {
    let n = normalize_module(module);
    if contains(n, "/domain/"@) || contains(n, "/events/"@) || starts_with(n, "domain/"@)
        || starts_with(n, "events/"@) || starts_with(n, "domain"@) || starts_with(n, "events"@) {
        true
    } else if is_stdlib_module(module) {
        true
    } else {
        !contains(n, "/application/"@) && !contains(n, "/infrastructure/"@) && !contains(
            n,
            "/slices/"@,
        ) && !starts_with(n, "application"@) && !starts_with(n, "infrastructure"@)
            && !starts_with(n, "slices"@)
    }
}

/// Imports the application layer may not have: infrastructure and slices.
pub open spec fn application_forbids(module: Seq<char>) -> bool {
    let n = normalize_module(module);
    ||| contains(n, "/infrastructure/"@)
    ||| contains(n, "/slices/"@)
    ||| starts_with(n, "infrastructure/"@)
    ||| starts_with(n, "slices/"@)
    ||| starts_with(n, "infrastructure"@)
    ||| starts_with(n, "slices"@)
}

/// The application layer may not depend on infrastructure or slices: an
/// import whose module, with `::` and `.` read as `/`, starts with either
/// or holds either as a whole path component is forbidden; one that names
/// neither is allowed.
pub proof fn lemma_application_forbids(module: Seq<char>)
    ensures
        starts_with(normalize_module(module), "infrastructure"@) ==> application_forbids(module),
        contains(normalize_module(module), "/infrastructure/"@) ==> application_forbids(module),
        starts_with(normalize_module(module), "slices"@) ==> application_forbids(module),
        contains(normalize_module(module), "/slices/"@) ==> application_forbids(module),
        !contains(normalize_module(module), "infrastructure"@) && !contains(normalize_module(module), "slices"@)
            ==> !application_forbids(module),
{
    let n = normalize_module(module);
    reveal_strlit("infrastructure");
    reveal_strlit("slices");
    reveal_strlit("/infrastructure/");
    reveal_strlit("/slices/");
    reveal_strlit("infrastructure/");
    reveal_strlit("slices/");
    if contains(n, "/infrastructure/"@) {
        assert("/infrastructure/"@.subrange(1, 1 + "infrastructure"@.len() as int) =~= "infrastructure"@);
        lemma_contains_part(n, "/infrastructure/"@, 1, "infrastructure"@);
    }
    if contains(n, "/slices/"@) {
        assert("/slices/"@.subrange(1, 1 + "slices"@.len() as int) =~= "slices"@);
        lemma_contains_part(n, "/slices/"@, 1, "slices"@);
    }
    if starts_with(n, "infrastructure"@) {
        assert("infrastructure"@.subrange(0, "infrastructure"@.len() as int) =~= "infrastructure"@);
        lemma_contains_part(n, "infrastructure"@, 0, "infrastructure"@);
    }
    if starts_with(n, "slices"@) {
        assert("slices"@.subrange(0, "slices"@.len() as int) =~= "slices"@);
        lemma_contains_part(n, "slices"@, 0, "slices"@);
    }
    if starts_with(n, "infrastructure/"@) {
        assert("infrastructure/"@.subrange(0, "infrastructure"@.len() as int) =~= "infrastructure"@);
        lemma_contains_part(n, "infrastructure/"@, 0, "infrastructure"@);
    }
    if starts_with(n, "slices/"@) {
        assert("slices/"@.subrange(0, "slices"@.len() as int) =~= "slices"@);
        lemma_contains_part(n, "slices/"@, 0, "slices"@);
    }
}

/// A port may import the domain and events: a module whose path, with `::`
/// and `.` read as `/`, starts with `domain` or `events` is allowed; one
/// that starts with `application`, `infrastructure` or `slices` is not,
/// unless it is of the standard library.
pub proof fn lemma_port_allows(module: Seq<char>)
    ensures
        starts_with(normalize_module(module), "domain"@) ==> port_allows(module),
        starts_with(normalize_module(module), "events"@) ==> port_allows(module),
        !is_stdlib_module(module) && !contains(normalize_module(module), "/domain/"@) && !contains(
            normalize_module(module),
            "/events/"@,
        ) && !starts_with(normalize_module(module), "domain"@) && !starts_with(normalize_module(module), "events"@)
            && (starts_with(normalize_module(module), "application"@) || starts_with(
            normalize_module(module),
            "infrastructure"@,
        ) || starts_with(normalize_module(module), "slices"@)) ==> !port_allows(module),
{
    let n = normalize_module(module);
    reveal_strlit("domain/");
    reveal_strlit("events/");
    reveal_strlit("domain");
    reveal_strlit("events");
    if starts_with(n, "domain/"@) {
        assert(n.subrange(0, 6) =~= "domain/"@.subrange(0, 6));
        assert("domain/"@.subrange(0, 6) =~= "domain"@);
    }
    if starts_with(n, "events/"@) {
        assert(n.subrange(0, 6) =~= "events/"@.subrange(0, 6));
        assert("events/"@.subrange(0, 6) =~= "events"@);
    }
}

impl DomainPurityRule {
    /// Whether an import targets a layer the domain may not depend on.
    pub fn is_forbidden_import(module: &str) -> (r: bool)
        ensures
            r == domain_forbids(module@),
    {
        let ns = normalize_module_exec(module);
        let n = ns.as_str();
        let forbidden_events = (str_contains(n, "/events/") && !str_contains(n, "/domain/events/"))
            || (str_starts_with(n, "events/") && !str_starts_with(n, "domain/events/")) || (
        str_starts_with(n, "events") && !str_starts_with(n, "domain/events") && !str_contains(
            n,
            "/",
        ));
        forbidden_events || str_contains(n, "/ports/") || str_contains(n, "/application/")
            || str_contains(n, "/infrastructure/") || str_contains(n, "/slices/")
            || str_starts_with(n, "ports/") || str_starts_with(n, "application/")
            || str_starts_with(n, "infrastructure/") || str_starts_with(n, "slices/")
            || str_starts_with(n, "ports") || str_starts_with(n, "application")
            || str_starts_with(n, "infrastructure") || str_starts_with(n, "slices")
    }
}

impl EventsIsolationRule {
    /// Whether an import is of the standard library or an allowed framework.
    pub fn is_stdlib_import(module: &str) -> (r: bool)
        ensures
            r == is_stdlib_module(module@),
    {
        str_starts_with(module, "typing") || str_starts_with(module, "dataclasses")
            || str_starts_with(module, "datetime") || str_starts_with(module, "uuid")
            || str_starts_with(module, "enum") || str_starts_with(module, "decimal")
            || str_starts_with(module, "__future__") || str_starts_with(module, "event_sourcing")
            || str_contains(module, ".value_objects") || str_contains(module, "ValueObjects")
            || str_starts_with(module, "pydantic") || str_starts_with(module, "std::")
    }
}

impl PortIsolationRule {
    /// Whether an import is allowed in the ports layer.
    pub fn is_allowed_import(module: &str) -> (r: bool)
        ensures
            r == port_allows(module@),
    {
        let ns = normalize_module_exec(module);
        let n = ns.as_str();
        if str_contains(n, "/domain/") || str_contains(n, "/events/") || str_starts_with(
            n,
            "domain/",
        ) || str_starts_with(n, "events/") || str_starts_with(n, "domain") || str_starts_with(
            n,
            "events",
        ) {
            return true;
        }
        if EventsIsolationRule::is_stdlib_import(module) {
            return true;
        }
        !str_contains(n, "/application/") && !str_contains(n, "/infrastructure/")
            && !str_contains(n, "/slices/") && !str_starts_with(n, "application")
            && !str_starts_with(n, "infrastructure") && !str_starts_with(n, "slices")
    }
}

impl ApplicationIsolationRule {
    /// Whether an import is forbidden in the application layer.
    pub fn is_forbidden_import(module: &str) -> (r: bool)
        ensures
            r == application_forbids(module@),
    {
        let ns = normalize_module_exec(module);
        let n = ns.as_str();
        str_contains(n, "/infrastructure/") || str_contains(n, "/slices/") || str_starts_with(
            n,
            "infrastructure/",
        ) || str_starts_with(n, "slices/") || str_starts_with(n, "infrastructure")
            || str_starts_with(n, "slices")
    }
}

// ============================================================================
// The four layer rules
// ============================================================================

/// The layer a rule checks.
#[derive(Clone, Copy, PartialEq, Eq, Structural)]
pub enum LayerCheck {
    Domain,
    Events,
    Ports,
    Application,
}

/// The directory of context `c` that a layer rule checks.
pub open spec fn layer_dir(kind: LayerCheck, config: VsaConfig, c: Seq<char>) -> Option<Seq<char>> {
    match kind {
        LayerCheck::Domain => Some(push_path(c, "domain"@)),
        LayerCheck::Events => match config.domain {
            Some(d) => Some(push_path(push_path(c, d.path@), d.events.path@)),
            None => None,
        },
        LayerCheck::Ports => Some(push_path(c, "ports"@)),
        LayerCheck::Application => Some(push_path(c, "application"@)),
    }
}

/// Whether a layer rule flags an import of `module`.
pub open spec fn layer_flags(kind: LayerCheck, module: Seq<char>) -> bool {
    match kind {
        LayerCheck::Domain => domain_forbids(module),
        LayerCheck::Events => !is_stdlib_module(module),
        LayerCheck::Ports => !port_allows(module),
        LayerCheck::Application => application_forbids(module),
    }
}

/// Whether a layer rule passes over the file at `p`.
pub open spec fn layer_skips(kind: LayerCheck, p: Seq<char>) -> bool {
    kind == LayerCheck::Events && file_name_of(p) == Some("__init__.py"@)
}

/// A layer rule's code.
pub open spec fn layer_code(kind: LayerCheck) -> Seq<char> {
    match kind {
        LayerCheck::Domain => "VSA027"@,
        LayerCheck::Events => "VSA028"@,
        LayerCheck::Ports => "VSA029"@,
        LayerCheck::Application => "VSA030"@,
    }
}

/// The message of a layer rule for an import of `module` on line `n` of the
/// file shown as `rel`.
pub open spec fn layer_message(kind: LayerCheck, rel: Seq<char>, module: Seq<char>, n: int) -> Seq<
    char,
> {
    let line = " (line "@ + decimal(n as nat) + ")\n"@;
    match kind {
        LayerCheck::Domain => "Domain file '"@ + rel + "' imports from forbidden layer: '"@ + module
            + "'"@ + line
            + "Domain must be pure - no dependencies on ports/, application/, infrastructure/, or slices/\n(domain/events/ is allowed - events are part of domain language)"@,
        LayerCheck::Events => "Event file '"@ + rel + "' imports from '"@ + module + "'"@ + line
            + "Events must be pure data structures with no dependencies"@,
        LayerCheck::Ports => "Port file '"@ + rel + "' imports from forbidden layer: '"@ + module
            + "'"@ + line + "Ports may only import from domain/ and events/"@,
        LayerCheck::Application => "Application file '"@ + rel
            + "' imports from forbidden layer: '"@ + module + "'"@ + line
            + "Application layer must not depend on slices/ or infrastructure/"@,
    }
}

/// The suggestions of a layer rule.
pub open spec fn layer_suggestions(kind: LayerCheck) -> Seq<SuggestionView> {
    match kind {
        LayerCheck::Domain => seq![
            manual_view(
                "Remove this import. Domain should only contain pure business logic with no external dependencies"@,
            ),
            manual_view("If you need external functionality, define an interface in ports/ and inject it"@),
        ],
        LayerCheck::Events => seq![
            manual_view("Remove this import. Events should only be data classes/structures"@),
            manual_view("Use primitive types or standard library types only"@),
        ],
        LayerCheck::Ports => seq![
            manual_view("Ports are interfaces - they should only reference domain types and events"@),
        ],
        LayerCheck::Application => seq![
            manual_view("Application layer coordinates use cases via ports - use dependency injection"@),
            manual_view("Define interfaces in ports/ and inject implementations"@),
        ],
    }
}

/// The error of a layer rule for import `imp` of the file at `p`.
pub open spec fn layer_issue(kind: LayerCheck, root: Seq<char>, p: Seq<char>, imp: ImportSpec) -> IssueView {
    issue_with(
        p,
        layer_message(kind, relative_to(p, root), imp.module, imp.line_number),
        layer_code(kind),
        Severity::Error,
        layer_suggestions(kind),
    )
}

/// The errors of a layer rule for the file at `p`.
pub open spec fn layer_file_errors(
    kind: LayerCheck,
    es: Seq<FsEntry>,
    root: Seq<char>,
    p: Seq<char>,
) -> Seq<IssueView> {
    if layer_skips(kind, p) {
        Seq::empty()
    } else {
        let imps = file_imports(es, p);
        concat_map(
            imps.len() as int,
            |j: int|
                if layer_flags(kind, imps[j].module) {
                    seq![layer_issue(kind, root, p, imps[j])]
                } else {
                    Seq::empty()
                },
        )
    }
}

/// A layer rule reports, for a file it checks, one error for each import
/// it flags and no other: every flagged import's error is among the file's
/// errors, and every error of the file is that of a flagged import.
pub proof fn lemma_layer_file_errors(kind: LayerCheck, es: Seq<FsEntry>, root: Seq<char>, p: Seq<char>)
    requires
        !layer_skips(kind, p),
    ensures
        forall|j: int|
            0 <= j < file_imports(es, p).len() && layer_flags(kind, (#[trigger] file_imports(es, p)[j]).module)
                ==> layer_file_errors(kind, es, root, p).contains(layer_issue(kind, root, p, file_imports(es, p)[j])),
        forall|x: IssueView|
            #[trigger] layer_file_errors(kind, es, root, p).contains(x) ==> exists|j: int|
                0 <= j < file_imports(es, p).len() && layer_flags(kind, (#[trigger] file_imports(es, p)[j]).module)
                    && x == layer_issue(kind, root, p, file_imports(es, p)[j]),
{
    let imps = file_imports(es, p);
    let f = |j: int|
        if layer_flags(kind, imps[j].module) {
            seq![layer_issue(kind, root, p, imps[j])]
        } else {
            Seq::<IssueView>::empty()
        };
    assert forall|j: int|
        0 <= j < imps.len() && layer_flags(kind, (#[trigger] imps[j]).module) implies layer_file_errors(
        kind,
        es,
        root,
        p,
    ).contains(layer_issue(kind, root, p, imps[j])) by {
        assert(f(j)[0] == layer_issue(kind, root, p, imps[j]));
        assert(f(j).contains(layer_issue(kind, root, p, imps[j])));
        lemma_concat_map_contains(imps.len() as int, f, layer_issue(kind, root, p, imps[j]));
    }
    assert forall|x: IssueView| #[trigger] layer_file_errors(kind, es, root, p).contains(x) implies exists|j: int|
        0 <= j < imps.len() && layer_flags(kind, (#[trigger] imps[j]).module) && x == layer_issue(kind, root, p, imps[j]) by {
        lemma_concat_map_contains(imps.len() as int, f, x);
        let k = choose|k: int| 0 <= k < imps.len() && #[trigger] f(k).contains(x);
        assert(layer_flags(kind, imps[k].module) && x == layer_issue(kind, root, p, imps[k]));
    }
}

/// The errors of a layer rule for the context at `c`.
pub open spec fn layer_context_errors(
    kind: LayerCheck,
    es: Seq<FsEntry>,
    root: Seq<char>,
    config: VsaConfig,
    c: Seq<char>,
) -> Seq<IssueView> {
    match layer_dir(kind, config, c) {
        Some(d) => if path_exists(es, d) {
            let fs = walk_file_paths(es, d);
            concat_map(fs.len() as int, |i: int| layer_file_errors(kind, es, root, fs[i]))
        } else {
            Seq::empty()
        },
        None => Seq::empty(),
    }
}

/// The errors of a layer rule.
pub open spec fn layer_errors(
    kind: LayerCheck,
    es: Seq<FsEntry>,
    root: Seq<char>,
    config: VsaConfig,
) -> Seq<IssueView> {
    concat_map(
        context_count(es, root),
        |k: int| layer_context_errors(kind, es, root, config, context_path(es, root, k)),
    )
}

fn layer_flags_exec(kind: LayerCheck, module: &str) -> (r: bool)
    ensures
        r == layer_flags(kind, module@),
{
    match kind {
        LayerCheck::Domain => DomainPurityRule::is_forbidden_import(module),
        LayerCheck::Events => !EventsIsolationRule::is_stdlib_import(module),
        LayerCheck::Ports => !PortIsolationRule::is_allowed_import(module),
        LayerCheck::Application => ApplicationIsolationRule::is_forbidden_import(module),
    }
}

fn layer_dir_exec(kind: LayerCheck, config: &VsaConfig, c: &str) -> (r: Option<String>)
    ensures
        match r {
            Some(d) => layer_dir(kind, *config, c@) == Some(d@),
            None => layer_dir(kind, *config, c@) is None,
        },
{
    match kind {
        LayerCheck::Domain => Some(push_path_str(c, "domain")),
        LayerCheck::Events => match &config.domain {
            Some(d) => {
                let a = push_path_str(c, d.path.as_str());
                Some(push_path_str(a.as_str(), d.events.path.as_str()))
            },
            None => None,
        },
        LayerCheck::Ports => Some(push_path_str(c, "ports")),
        LayerCheck::Application => Some(push_path_str(c, "application")),
    }
}

fn layer_message_exec(kind: LayerCheck, rel: &str, module: &str, n: usize) -> (r: String)
    ensures
        r@ == layer_message(kind, rel@, module@, n as int),
{
    let num = decimal_usize(n);
    let mut m = String::new();
    match kind {
        LayerCheck::Domain => {
            m.append("Domain file '");
            m.append(rel);
            m.append("' imports from forbidden layer: '");
        },
        LayerCheck::Events => {
            m.append("Event file '");
            m.append(rel);
            m.append("' imports from '");
        },
        LayerCheck::Ports => {
            m.append("Port file '");
            m.append(rel);
            m.append("' imports from forbidden layer: '");
        },
        LayerCheck::Application => {
            m.append("Application file '");
            m.append(rel);
            m.append("' imports from forbidden layer: '");
        },
    }
    m.append(module);
    m.append("'");
    m.append(" (line ");
    m.append(num.as_str());
    m.append(")\n");
    match kind {
        LayerCheck::Domain => m.append(
            "Domain must be pure - no dependencies on ports/, application/, infrastructure/, or slices/\n(domain/events/ is allowed - events are part of domain language)",
        ),
        LayerCheck::Events => m.append("Events must be pure data structures with no dependencies"),
        LayerCheck::Ports => m.append("Ports may only import from domain/ and events/"),
        LayerCheck::Application => m.append(
            "Application layer must not depend on slices/ or infrastructure/",
        ),
    }
    m
}

fn layer_suggestions_exec(kind: LayerCheck) -> (r: Vec<Suggestion>)
    ensures
        r@.map_values(|s: Suggestion| s@) == layer_suggestions(kind),
{
    let mut v: Vec<Suggestion> = Vec::new();
    match kind {
        LayerCheck::Domain => {
            v.push(
                Suggestion::manual(
                    "Remove this import. Domain should only contain pure business logic with no external dependencies",
                ),
            );
            v.push(
                Suggestion::manual(
                    "If you need external functionality, define an interface in ports/ and inject it",
                ),
            );
        },
        LayerCheck::Events => {
            v.push(Suggestion::manual("Remove this import. Events should only be data classes/structures"));
            v.push(Suggestion::manual("Use primitive types or standard library types only"));
        },
        LayerCheck::Ports => {
            v.push(
                Suggestion::manual(
                    "Ports are interfaces - they should only reference domain types and events",
                ),
            );
        },
        LayerCheck::Application => {
            v.push(
                Suggestion::manual(
                    "Application layer coordinates use cases via ports - use dependency injection",
                ),
            );
            v.push(Suggestion::manual("Define interfaces in ports/ and inject implementations"));
        },
    }
    assert(v@.map_values(|s: Suggestion| s@) =~= layer_suggestions(kind));
    v
}

/// Appends the errors of a layer rule for the file at `p`.
fn check_layer_file(
    kind: LayerCheck,
    tree: &ProjectTree,
    root: &str,
    p: &str,
    errors: &mut Vec<ValidationIssue>,
)
    ensures
        issues_view(final(errors)@) == issues_view(old(errors)@) + layer_file_errors(
            kind,
            tree.entries@,
            root@,
            p@,
        ),
{
    let ghost start = issues_view(errors@);
    let skip = match kind {
        LayerCheck::Events => match file_name_str(p) {
            Some(n) => str_eq(n.as_str(), "__init__.py"),
            None => false,
        },
        _ => false,
    };
    if skip {
        assert(issues_view(errors@) =~= start + Seq::<IssueView>::empty());
        return;
    }
    let imports = read_imports(tree, p);
    let ghost imps = imports_view(imports@);
    let ghost g = |j: int|
        if layer_flags(kind, imps[j].module) {
            seq![layer_issue(kind, root@, p@, imps[j])]
        } else {
            Seq::empty()
        };
    let rel = relative_to_str(p, root);
    let mut j: usize = 0;
    proof {
        lemma_concat_map_empty(g);
    }
    while j < imports.len()
        invariant
            j <= imports@.len(),
            imps == imports_view(imports@),
            rel@ == relative_to(p@, root@),
            g == (|j: int|
                if layer_flags(kind, imps[j].module) {
                    seq![layer_issue(kind, root@, p@, imps[j])]
                } else {
                    Seq::empty()
                }),
            start == issues_view(old(errors)@),
            issues_view(errors@) == start + concat_map(j as int, g),
        decreases imports.len() - j,
    {
        let imp = &imports[j];
        let ghost before = issues_view(errors@);
        assert(imps[j as int] == imp@);
        if layer_flags_exec(kind, imp.module.as_str()) {
            let msg = layer_message_exec(kind, rel.as_str(), imp.module.as_str(), imp.line_number);
            let sugs = layer_suggestions_exec(kind);
            let code = match kind {
                LayerCheck::Domain => "VSA027",
                LayerCheck::Events => "VSA028",
                LayerCheck::Ports => "VSA029",
                LayerCheck::Application => "VSA030",
            };
            push_issue_with(errors, crate::text::owned(p), msg, code, Severity::Error, sugs);
        }
        proof {
            lemma_concat_map_step(j as int, g);
            assert(issues_view(errors@) =~= before + g(j as int));
        }
        j = j + 1;
    }
}

/// Appends the errors of a layer rule over all contexts.
fn check_layer(kind: LayerCheck, ctx: &ValidationContext, report: &mut EnhancedValidationReport)
    ensures
        report_grew(
            *old(report),
            *final(report),
            layer_errors(kind, ctx.tree.entries@, ctx.root@, ctx.config),
            Seq::empty(),
        ),
{
    let ghost es = ctx.tree.entries@;
    let ghost root = ctx.root@;
    let ghost f = |k: int| layer_context_errors(kind, es, root, ctx.config, context_path(es, root, k));
    let ghost e0 = issues_view(report.errors@);
    let contexts = contexts_in(&ctx.tree, ctx.root.as_str());
    let mut k: usize = 0;
    proof {
        lemma_concat_map_empty(f);
    }
    while k < contexts.len()
        invariant
            k <= contexts@.len(),
            es == ctx.tree.entries@,
            root == ctx.root@,
            f == (|k: int| layer_context_errors(kind, es, root, ctx.config, context_path(es, root, k))),
            contexts_match(contexts@, es, context_indices(es, root)),
            e0 == issues_view(old(report).errors@),
            issues_view(report.errors@) == e0 + concat_map(k as int, f),
            report.warnings@ == old(report).warnings@,
            report.suggestions@ == old(report).suggestions@,
        decreases contexts.len() - k,
    {
        let c = &contexts[k];
        let ghost before = issues_view(report.errors@);
        match layer_dir_exec(kind, &ctx.config, c.path.as_str()) {
            Some(d) => {
                if ctx.tree.has_path(d.as_str()) {
                    let files = ctx.tree.walk_files(d.as_str());
                    let ghost fs = files@.map_values(|s: String| s@);
                    let ghost g = |i: int| layer_file_errors(kind, es, root, fs[i]);
                    let mut i: usize = 0;
                    proof {
                        lemma_concat_map_empty(g);
                    }
                    while i < files.len()
                        invariant
                            i <= files@.len(),
                            es == ctx.tree.entries@,
                            root == ctx.root@,
                            fs == files@.map_values(|s: String| s@),
                            g == (|i: int| layer_file_errors(kind, es, root, fs[i])),
                            issues_view(report.errors@) == before + concat_map(i as int, g),
                            report.warnings@ == old(report).warnings@,
                            report.suggestions@ == old(report).suggestions@,
                        decreases files.len() - i,
                    {
                        let ghost mid = issues_view(report.errors@);
                        assert(fs[i as int] == files@[i as int]@);
                        check_layer_file(kind, &ctx.tree, ctx.root.as_str(), files[i].as_str(), &mut report.errors);
                        proof {
                            lemma_concat_map_step(i as int, g);
                            assert(issues_view(report.errors@) =~= mid + g(i as int));
                        }
                        i = i + 1;
                    }
                    assert(issues_view(report.errors@) =~= before + f(k as int));
                } else {
                    assert(issues_view(report.errors@) =~= before + f(k as int));
                }
            },
            None => {
                assert(issues_view(report.errors@) =~= before + f(k as int));
            },
        }
        proof {
            lemma_concat_map_step(k as int, f);
        }
        k = k + 1;
    }
    proof {
        assert(issues_view(report.warnings@) =~= issues_view(old(report).warnings@) + Seq::<IssueView>::empty());
        lemma_grew_extends(*old(report), *report, layer_errors(kind, es, root, ctx.config), Seq::empty());
    }
}

impl ValidationRule for DomainPurityRule {
    open spec fn validate_outcome(
        &self,
        ctx: ValidationContext,
        before: EnhancedValidationReport,
        r: Result<(), VsaError>,
        after: EnhancedValidationReport,
    ) -> bool {
        &&& (r is Ok)
        &&& (report_grew(
                before,
                after,
                layer_errors(LayerCheck::Domain, ctx.tree.entries@, ctx.root@, ctx.config),
                Seq::empty(),
            ))
    }

    fn name(&self) -> (r: &str)
        ensures
            r@ == "domain-purity"@,
    {
        "domain-purity"
    }

    fn code(&self) -> (r: &str)
        ensures
            r@ == "VSA027"@,
    {
        "VSA027"
    }

    fn validate(&self, ctx: &ValidationContext, report: &mut EnhancedValidationReport) -> (r:
        Result<(), VsaError>)
        ensures
            r is Ok,
            report_grew(
                *old(report),
                *final(report),
                layer_errors(LayerCheck::Domain, ctx.tree.entries@, ctx.root@, ctx.config),
                Seq::empty(),
            ),
    {
        check_layer(LayerCheck::Domain, ctx, report);
        proof {
            lemma_grew_extends(
                *old(report),
                *report,
                layer_errors(LayerCheck::Domain, ctx.tree.entries@, ctx.root@, ctx.config),
                Seq::empty(),
            );
        }
        Ok(())
    }
}

impl ValidationRule for EventsIsolationRule {
    open spec fn validate_outcome(
        &self,
        ctx: ValidationContext,
        before: EnhancedValidationReport,
        r: Result<(), VsaError>,
        after: EnhancedValidationReport,
    ) -> bool {
        &&& (r is Ok)
        &&& (report_grew(
                before,
                after,
                layer_errors(LayerCheck::Events, ctx.tree.entries@, ctx.root@, ctx.config),
                Seq::empty(),
            ))
    }

    fn name(&self) -> (r: &str)
        ensures
            r@ == "events-isolation"@,
    {
        "events-isolation"
    }

    fn code(&self) -> (r: &str)
        ensures
            r@ == "VSA028"@,
    {
        "VSA028"
    }

    fn validate(&self, ctx: &ValidationContext, report: &mut EnhancedValidationReport) -> (r:
        Result<(), VsaError>)
        ensures
            r is Ok,
            report_grew(
                *old(report),
                *final(report),
                layer_errors(LayerCheck::Events, ctx.tree.entries@, ctx.root@, ctx.config),
                Seq::empty(),
            ),
    {
        check_layer(LayerCheck::Events, ctx, report);
        proof {
            lemma_grew_extends(
                *old(report),
                *report,
                layer_errors(LayerCheck::Events, ctx.tree.entries@, ctx.root@, ctx.config),
                Seq::empty(),
            );
        }
        Ok(())
    }
}

impl ValidationRule for PortIsolationRule {
    open spec fn validate_outcome(
        &self,
        ctx: ValidationContext,
        before: EnhancedValidationReport,
        r: Result<(), VsaError>,
        after: EnhancedValidationReport,
    ) -> bool {
        &&& (r is Ok)
        &&& (report_grew(
                before,
                after,
                layer_errors(LayerCheck::Ports, ctx.tree.entries@, ctx.root@, ctx.config),
                Seq::empty(),
            ))
    }

    fn name(&self) -> (r: &str)
        ensures
            r@ == "port-isolation"@,
    {
        "port-isolation"
    }

    fn code(&self) -> (r: &str)
        ensures
            r@ == "VSA029"@,
    {
        "VSA029"
    }

    fn validate(&self, ctx: &ValidationContext, report: &mut EnhancedValidationReport) -> (r:
        Result<(), VsaError>)
        ensures
            r is Ok,
            report_grew(
                *old(report),
                *final(report),
                layer_errors(LayerCheck::Ports, ctx.tree.entries@, ctx.root@, ctx.config),
                Seq::empty(),
            ),
    {
        check_layer(LayerCheck::Ports, ctx, report);
        proof {
            lemma_grew_extends(
                *old(report),
                *report,
                layer_errors(LayerCheck::Ports, ctx.tree.entries@, ctx.root@, ctx.config),
                Seq::empty(),
            );
        }
        Ok(())
    }
}

impl ValidationRule for ApplicationIsolationRule {
    open spec fn validate_outcome(
        &self,
        ctx: ValidationContext,
        before: EnhancedValidationReport,
        r: Result<(), VsaError>,
        after: EnhancedValidationReport,
    ) -> bool {
        &&& (r is Ok)
        &&& (report_grew(
                before,
                after,
                layer_errors(LayerCheck::Application, ctx.tree.entries@, ctx.root@, ctx.config),
                Seq::empty(),
            ))
    }

    fn name(&self) -> (r: &str)
        ensures
            r@ == "application-isolation"@,
    {
        "application-isolation"
    }

    fn code(&self) -> (r: &str)
        ensures
            r@ == "VSA030"@,
    {
        "VSA030"
    }

    fn validate(&self, ctx: &ValidationContext, report: &mut EnhancedValidationReport) -> (r:
        Result<(), VsaError>)
        ensures
            r is Ok,
            report_grew(
                *old(report),
                *final(report),
                layer_errors(LayerCheck::Application, ctx.tree.entries@, ctx.root@, ctx.config),
                Seq::empty(),
            ),
    {
        check_layer(LayerCheck::Application, ctx, report);
        proof {
            lemma_grew_extends(
                *old(report),
                *report,
                layer_errors(LayerCheck::Application, ctx.tree.entries@, ctx.root@, ctx.config),
                Seq::empty(),
            );
        }
        Ok(())
    }
}

// ============================================================================
// VSA031: slice isolation
// ============================================================================

/// The first component of `s` up to a `/`.
pub open spec fn up_to_slash(s: Seq<char>) -> Seq<char> {
    match find(s, "/"@) {
        Some(k) => s.subrange(0, k),
        None => s,
    }
}

/// The slice an import of `module` targets: what follows `/slices/`, or a
/// leading `slices/`, up to the next `/`.
pub open spec fn slice_target(module: Seq<char>) -> Option<Seq<char>> {
    let n = normalize_module(module);
    match find(n, "/slices/"@) {
        Some(pos) => Some(up_to_slash(n.subrange(pos + "/slices/"@.len(), n.len() as int))),
        None => if starts_with(n, "slices/"@) {
            Some(up_to_slash(n.subrange("slices/"@.len() as int, n.len() as int)))
        } else {
            None
        },
    }
}

fn up_to_slash_exec(s: &[char]) -> (r: Vec<char>)
    ensures
        r@ == up_to_slash(s@),
{
    let slash = crate::text::chars_of("/");
    match crate::text::find_chars(s, slash.as_slice()) {
        Some(k) => {
            proof {
                crate::text::lemma_find_bounds(s@, slash@);
            }
            crate::text::slice_chars(s, 0, k)
        },
        None => {
            let v = crate::text::slice_chars(s, 0, s.len());
            assert(s@.subrange(0, s@.len() as int) =~= s@);
            v
        },
    }
}

impl SliceIsolationRule {
    /// The slice an import targets, if any.
    pub fn extract_slice_name(module: &str) -> (r: Option<String>)
        ensures
            match r {
                Some(s) => slice_target(module@) == Some(s@),
                None => slice_target(module@) is None,
            },
    {
        let ns = normalize_module_exec(module);
        let n = crate::text::chars_of(ns.as_str());
        let kw = crate::text::chars_of("/slices/");
        match crate::text::find_chars(n.as_slice(), kw.as_slice()) {
            Some(pos) => {
                proof {
                    crate::text::lemma_find_bounds(n@, kw@);
                }
                let after = super::import_parser::after_keyword(n.as_slice(), pos, kw.len());
                let t = up_to_slash_exec(after.as_slice());
                Some(crate::text::string_of(t.as_slice()))
            },
            None => {
                let pre = crate::text::chars_of("slices/");
                if crate::text::starts_with_chars(n.as_slice(), pre.as_slice()) {
                    let after = crate::text::slice_chars(n.as_slice(), pre.len(), n.len());
                    let t = up_to_slash_exec(after.as_slice());
                    Some(crate::text::string_of(t.as_slice()))
                } else {
                    None
                }
            },
        }
    }
}

/// The error for a file of slice `name` importing slice `target`.
pub open spec fn slice_issue(p: Seq<char>, name: Seq<char>, target: Seq<char>, line: int) -> IssueView {
    issue_with(
        p,
        "Slice '"@ + name + "' imports from slice '"@ + target + "' (line "@ + decimal(line as nat)
            + ")\nCross-slice imports are forbidden - slices must be isolated"@,
        "VSA031"@,
        Severity::Error,
        seq![
            manual_view("Slices communicate via events through EventBus - use publish/subscribe"@),
            manual_view("If code is shared, move it to domain/ or infrastructure/"@),
        ],
    )
}

/// The names of the slice directories directly in `slices`.
pub open spec fn slice_dir_paths(es: Seq<FsEntry>, slices: Seq<char>) -> Seq<Seq<char>> {
    crate::tree::indices_where(
        es.len() as int,
        |i: int| crate::tree::is_child_path(es[i].path@, slices) && es[i].is_dir,
    ).map_values(|i: int| es[i].path@)
}

/// The errors for one import of a file of slice `name`.
pub open spec fn slice_import_errors(
    p: Seq<char>,
    name: Seq<char>,
    real_set: Seq<Seq<char>>,
    excluded: Seq<Seq<char>>,
    imp: ImportSpec,
) -> Seq<IssueView> {
    match slice_target(imp.module) {
        Some(t) => if t != name && real_set.contains(t) && !excluded.contains(t) {
            seq![slice_issue(p, name, t, imp.line_number)]
        } else {
            Seq::empty()
        },
        None => Seq::empty(),
    }
}

/// The errors for the file at `p` of slice `name`.
pub open spec fn slice_file_errors(
    es: Seq<FsEntry>,
    p: Seq<char>,
    name: Seq<char>,
    real_set: Seq<Seq<char>>,
    excluded: Seq<Seq<char>>,
) -> Seq<IssueView> {
    if is_test_or_conftest_spec(p) {
        Seq::empty()
    } else {
        let imps = file_imports(es, p);
        concat_map(imps.len() as int, |j: int| slice_import_errors(p, name, real_set, excluded, imps[j]))
    }
}

/// Whether slice `name`'s import of `module` crosses into another real
/// slice that isolation covers.
pub open spec fn crosses_slice(module: Seq<char>, name: Seq<char>, real_set: Seq<Seq<char>>, excluded: Seq<Seq<char>>) -> bool {
    &&& slice_target(module) is Some
    &&& slice_target(module)->0 != name
    &&& real_set.contains(slice_target(module)->0)
    &&& !excluded.contains(slice_target(module)->0)
}

/// A file of slice `name` that is no test gets, for each of its imports
/// that targets another real slice `t` not excluded from isolation, the
/// VSA031 error naming `t`, and no other error; a test or conftest file
/// gets none.
pub proof fn lemma_slice_file_errors(
    es: Seq<FsEntry>,
    p: Seq<char>,
    name: Seq<char>,
    real_set: Seq<Seq<char>>,
    excluded: Seq<Seq<char>>,
)
    ensures
        is_test_or_conftest_spec(p) ==> slice_file_errors(es, p, name, real_set, excluded).len() == 0,
        !is_test_or_conftest_spec(p) ==> forall|j: int|
            0 <= j < file_imports(es, p).len() && crosses_slice(
                (#[trigger] file_imports(es, p)[j]).module,
                name,
                real_set,
                excluded,
            ) ==> slice_file_errors(es, p, name, real_set, excluded).contains(
                slice_issue(p, name, slice_target(file_imports(es, p)[j].module)->0, file_imports(es, p)[j].line_number),
            ),
        forall|x: IssueView|
            #[trigger] slice_file_errors(es, p, name, real_set, excluded).contains(x) ==> exists|j: int|
                0 <= j < file_imports(es, p).len() && crosses_slice(
                    (#[trigger] file_imports(es, p)[j]).module,
                    name,
                    real_set,
                    excluded,
                ) && x == slice_issue(
                    p,
                    name,
                    slice_target(file_imports(es, p)[j].module)->0,
                    file_imports(es, p)[j].line_number,
                ),
{
    let imps = file_imports(es, p);
    let f = |j: int| slice_import_errors(p, name, real_set, excluded, imps[j]);
    if !is_test_or_conftest_spec(p) {
        assert forall|j: int|
            0 <= j < imps.len() && crosses_slice((#[trigger] imps[j]).module, name, real_set, excluded) implies slice_file_errors(
            es,
            p,
            name,
            real_set,
            excluded,
        ).contains(slice_issue(p, name, slice_target(imps[j].module)->0, imps[j].line_number)) by {
            let x = slice_issue(p, name, slice_target(imps[j].module)->0, imps[j].line_number);
            assert(f(j)[0] == x);
            assert(f(j).contains(x));
            lemma_concat_map_contains(imps.len() as int, f, x);
        }
        assert forall|x: IssueView| #[trigger] slice_file_errors(es, p, name, real_set, excluded).contains(x) implies exists|j: int|
            0 <= j < imps.len() && crosses_slice((#[trigger] imps[j]).module, name, real_set, excluded) && x == slice_issue(
                p,
                name,
                slice_target(imps[j].module)->0,
                imps[j].line_number,
            ) by {
            lemma_concat_map_contains(imps.len() as int, f, x);
            let k = choose|k: int| 0 <= k < imps.len() && #[trigger] f(k).contains(x);
            assert(crosses_slice(imps[k].module, name, real_set, excluded) && x == slice_issue(
                p,
                name,
                slice_target(imps[k].module)->0,
                imps[k].line_number,
            ));
        }
    }
}

/// The slice an import targets is the path component after `slices`: a
/// module whose path (with `::` and `.` read as `/`) is `slices/t`, or
/// `slices/t/...`, with no `/slices/` in it, targets slice `t`.
pub proof fn lemma_slice_target(module: Seq<char>, t: Seq<char>, tail: Seq<char>)
    requires
        normalize_module(module) == "slices/"@ + t + tail,
        !t.contains('/'),
        tail.len() == 0 || tail[0] == '/',
        !contains(normalize_module(module), "/slices/"@),
    ensures
        slice_target(module) == Some(t),
{
    reveal_strlit("slices/");
    reveal_strlit("/");
    let n = normalize_module(module);
    assert(n.subrange(0, 7) =~= "slices/"@);
    let after = n.subrange(7, n.len() as int);
    assert(after =~= t + tail);
    lemma_find_bounds(after, "/"@);
    if tail.len() > 0 {
        assert(after.subrange(t.len() as int, t.len() as int + 1) =~= "/"@);
        assert(crate::text::occurs_at(after, "/"@, t.len() as int));
        let k = find(after, "/"@)->0;
        assert(k == t.len()) by {
            if k < t.len() {
                assert(after.subrange(k, k + 1)[0] == after[k]);
                assert(after[k] == t[k]);
                assert(t.contains('/'));
            }
        }
        assert(after.subrange(0, k) =~= t);
    } else {
        assert(after =~= t);
        assert forall|j: int| !crate::text::occurs_at(after, "/"@, j) by {
            if crate::text::occurs_at(after, "/"@, j) {
                assert(after.subrange(j, j + 1)[0] == after[j]);
                assert(t[j] == '/');
                assert(t.contains('/'));
            }
        }
    }
}

/// The errors for the slice at `sd`.
pub open spec fn slice_dir_errors(
    es: Seq<FsEntry>,
    sd: Seq<char>,
    real_set: Seq<Seq<char>>,
    excluded: Seq<Seq<char>>,
) -> Seq<IssueView> {
    let fs = walk_file_paths(es, sd);
    let name = crate::validation::file_name_or_empty(sd);
    concat_map(fs.len() as int, |i: int| slice_file_errors(es, fs[i], name, real_set, excluded))
}

/// The errors of VSA031 for the context at `c`.
pub open spec fn slice_context_errors(es: Seq<FsEntry>, c: Seq<char>, excluded: Seq<Seq<char>>) -> Seq<
    IssueView,
> {
    let slices = push_path(c, "slices"@);
    if path_exists(es, slices) {
        let dirs = slice_dir_paths(es, slices);
        let real_set = dirs.map_values(|d: Seq<char>| crate::validation::file_name_or_empty(d));
        concat_map(dirs.len() as int, |i: int| slice_dir_errors(es, dirs[i], real_set, excluded))
    } else {
        Seq::empty()
    }
}

/// The errors of VSA031.
pub open spec fn slice_errors(es: Seq<FsEntry>, root: Seq<char>, excluded: Seq<Seq<char>>) -> Seq<
    IssueView,
> {
    concat_map(
        context_count(es, root),
        |k: int| slice_context_errors(es, context_path(es, root, k), excluded),
    )
}

fn slice_dirs(tree: &ProjectTree, slices: &str) -> (r: Vec<String>)
    ensures
        strs(r@) == slice_dir_paths(tree.entries@, slices@),
{
    let ghost es = tree.entries@;
    let ghost pred = |i: int| crate::tree::is_child_path(es[i].path@, slices@) && es[i].is_dir;
    let mut out: Vec<String> = Vec::new();
    let mut i: usize = 0;
    while i < tree.entries.len()
        invariant
            i <= es.len(),
            es == tree.entries@,
            pred == (|i: int| crate::tree::is_child_path(es[i].path@, slices@) && es[i].is_dir),
            strs(out@) == crate::tree::indices_where(i as int, pred).map_values(|i: int| es[i].path@),
        decreases tree.entries.len() - i,
    {
        let e = &tree.entries[i];
        let ghost before = strs(out@);
        if e.is_dir && crate::scanner::is_child_of(e.path.as_str(), slices) {
            out.push(e.path.clone());
            assert(crate::tree::indices_where(i + 1, pred) == crate::tree::indices_where(i as int, pred).push(i as int));
            assert(crate::tree::indices_where(i + 1, pred).map_values(|i: int| es[i].path@) =~= crate::tree::indices_where(
                i as int,
                pred,
            ).map_values(|i: int| es[i].path@).push(es[i as int].path@));
            assert(strs(out@) =~= before.push(e.path@));
        }
        i = i + 1;
    }
    out
}

fn name_or_empty(p: &str) -> (r: String)
    ensures
        r@ == crate::validation::file_name_or_empty(p@),
{
    match file_name_str(p) {
        Some(n) => n,
        None => String::new(),
    }
}

fn slice_file_check(
    tree: &ProjectTree,
    p: &str,
    name: &String,
    real_names: &Vec<String>,
    excluded: &Vec<String>,
    errors: &mut Vec<ValidationIssue>,
)
    ensures
        issues_view(final(errors)@) == issues_view(old(errors)@) + slice_file_errors(
            tree.entries@,
            p@,
            name@,
            strs(real_names@),
            strs(excluded@),
        ),
{
    let ghost start = issues_view(errors@);
    if is_test_or_conftest(p) {
        assert(issues_view(errors@) =~= start + Seq::<IssueView>::empty());
        return;
    }
    let imports = read_imports(tree, p);
    let ghost imps = imports_view(imports@);
    let ghost g = |j: int| slice_import_errors(p@, name@, strs(real_names@), strs(excluded@), imps[j]);
    let mut j: usize = 0;
    proof {
        lemma_concat_map_empty(g);
    }
    while j < imports.len()
        invariant
            j <= imports@.len(),
            imps == imports_view(imports@),
            g == (|j: int| slice_import_errors(p@, name@, strs(real_names@), strs(excluded@), imps[j])),
            start == issues_view(old(errors)@),
            issues_view(errors@) == start + concat_map(j as int, g),
        decreases imports.len() - j,
    {
        let imp = &imports[j];
        let ghost before = issues_view(errors@);
        assert(imps[j as int] == imp@);
        match extract_target(imp.module.as_str()) {
            Some(t) => {
                if !(t == *name) && crate::manifest::contains_string(real_names, &t)
                    && !crate::manifest::contains_string(excluded, &t) {
                    let num = decimal_usize(imp.line_number);
                    let mut msg = String::new();
                    msg.append("Slice '");
                    msg.append(name.as_str());
                    msg.append("' imports from slice '");
                    msg.append(t.as_str());
                    msg.append("' (line ");
                    msg.append(num.as_str());
                    msg.append(")\nCross-slice imports are forbidden - slices must be isolated");
                    let mut sugs: Vec<Suggestion> = Vec::new();
                    sugs.push(Suggestion::manual("Slices communicate via events through EventBus - use publish/subscribe"));
                    sugs.push(Suggestion::manual("If code is shared, move it to domain/ or infrastructure/"));
                    assert(sugs@.map_values(|s: Suggestion| s@) =~= seq![
                        manual_view("Slices communicate via events through EventBus - use publish/subscribe"@),
                        manual_view("If code is shared, move it to domain/ or infrastructure/"@),
                    ]);
                    push_issue_with(errors, crate::text::owned(p), msg, "VSA031", Severity::Error, sugs);
                }
            },
            None => {},
        }
        proof {
            lemma_concat_map_step(j as int, g);
            assert(issues_view(errors@) =~= before + g(j as int));
        }
        j = j + 1;
    }
}

fn extract_target(m: &str) -> (r: Option<String>)
    ensures
        match r {
            Some(s) => slice_target(m@) == Some(s@),
            None => slice_target(m@) is None,
        },
{
    SliceIsolationRule::extract_slice_name(m)
}

impl ValidationRule for SliceIsolationRule {
    open spec fn validate_outcome(
        &self,
        ctx: ValidationContext,
        before: EnhancedValidationReport,
        r: Result<(), VsaError>,
        after: EnhancedValidationReport,
    ) -> bool {
        &&& (r is Ok)
        &&& (report_grew(
                before,
                after,
                slice_errors(
                    ctx.tree.entries@,
                    ctx.root@,
                    strs(ctx.config.validation.exclude_from_isolation@),
                ),
                Seq::empty(),
            ))
    }

    fn name(&self) -> (r: &str)
        ensures
            r@ == "slice-isolation"@,
    {
        "slice-isolation"
    }

    fn code(&self) -> (r: &str)
        ensures
            r@ == "VSA031"@,
    {
        "VSA031"
    }

    fn validate(&self, ctx: &ValidationContext, report: &mut EnhancedValidationReport) -> (r:
        Result<(), VsaError>)
        ensures
            r is Ok,
            report_grew(
                *old(report),
                *final(report),
                slice_errors(
                    ctx.tree.entries@,
                    ctx.root@,
                    strs(ctx.config.validation.exclude_from_isolation@),
                ),
                Seq::empty(),
            ),
    {
        let ghost es = ctx.tree.entries@;
        let ghost root = ctx.root@;
        let excluded = &ctx.config.validation.exclude_from_isolation;
        let ghost ex = strs(excluded@);
        let ghost f = |k: int| slice_context_errors(es, context_path(es, root, k), ex);
        let ghost e0 = issues_view(report.errors@);
        let contexts = contexts_in(&ctx.tree, ctx.root.as_str());
        let mut k: usize = 0;
        proof {
            lemma_concat_map_empty(f);
        }
        while k < contexts.len()
            invariant
                k <= contexts@.len(),
                es == ctx.tree.entries@,
                root == ctx.root@,
                ex == strs(excluded@),
                f == (|k: int| slice_context_errors(es, context_path(es, root, k), ex)),
                contexts_match(contexts@, es, context_indices(es, root)),
                e0 == issues_view(old(report).errors@),
                issues_view(report.errors@) == e0 + concat_map(k as int, f),
                report.warnings@ == old(report).warnings@,
                report.suggestions@ == old(report).suggestions@,
            decreases contexts.len() - k,
        {
            let c = &contexts[k];
            let ghost before = issues_view(report.errors@);
            let slices = push_path_str(c.path.as_str(), "slices");
            if ctx.tree.has_path(slices.as_str()) {
                let dirs = slice_dirs(&ctx.tree, slices.as_str());
                let ghost dv = strs(dirs@);
                let mut real_names: Vec<String> = Vec::new();
                let mut m: usize = 0;
                while m < dirs.len()
                    invariant
                        m <= dirs@.len(),
                        dv == strs(dirs@),
                        strs(real_names@) == dv.subrange(0, m as int).map_values(
                            |d: Seq<char>| crate::validation::file_name_or_empty(d),
                        ),
                    decreases dirs.len() - m,
                {
                    let ghost rb0 = strs(real_names@);
                    
                    let nm = name_or_empty(dirs[m].as_str());
                    assert(nm@ == crate::validation::file_name_or_empty(dv[m as int]));
                    real_names.push(nm);
                    assert(strs(real_names@) =~= rb0.push(crate::validation::file_name_or_empty(dv[m as int])));
                    assert(dv.subrange(0, m + 1) =~= dv.subrange(0, m as int).push(dv[m as int]));
                    assert(strs(real_names@) =~= dv.subrange(0, m + 1).map_values(
                        |d: Seq<char>| crate::validation::file_name_or_empty(d),
                    ));
                    m = m + 1;
                }
                assert(dv.subrange(0, dv.len() as int) =~= dv);
                let ghost rv = strs(real_names@);
                let ghost g = |i: int| slice_dir_errors(es, dv[i], rv, ex);
                let mut i: usize = 0;
                proof {
                    lemma_concat_map_empty(g);
                }
                while i < dirs.len()
                    invariant
                        i <= dirs@.len(),
                        es == ctx.tree.entries@,
                        dv == strs(dirs@),
                        rv == strs(real_names@),
                        ex == strs(excluded@),
                        g == (|i: int| slice_dir_errors(es, dv[i], rv, ex)),
                        issues_view(report.errors@) == before + concat_map(i as int, g),
                        report.warnings@ == old(report).warnings@,
                        report.suggestions@ == old(report).suggestions@,
                    decreases dirs.len() - i,
                {
                    let ghost mid = issues_view(report.errors@);
                    let sd = dirs[i].as_str();
                    let name = name_or_empty(sd);
                    let files = ctx.tree.walk_files(sd);
                    let ghost fs = strs(files@);
                    let ghost h = |t: int| slice_file_errors(es, fs[t], name@, rv, ex);
                    let mut t: usize = 0;
                    proof {
                        lemma_concat_map_empty(h);
                    }
                    while t < files.len()
                        invariant
                            t <= files@.len(),
                            es == ctx.tree.entries@,
                            fs == strs(files@),
                            rv == strs(real_names@),
                            ex == strs(excluded@),
                            h == (|t: int| slice_file_errors(es, fs[t], name@, rv, ex)),
                            issues_view(report.errors@) == mid + concat_map(t as int, h),
                            report.warnings@ == old(report).warnings@,
                            report.suggestions@ == old(report).suggestions@,
                        decreases files.len() - t,
                    {
                        let ghost m2 = issues_view(report.errors@);
                        assert(fs[t as int] == files@[t as int]@);
                        slice_file_check(&ctx.tree, files[t].as_str(), &name, &real_names, excluded, &mut report.errors);
                        proof {
                            lemma_concat_map_step(t as int, h);
                            assert(issues_view(report.errors@) =~= m2 + h(t as int));
                        }
                        t = t + 1;
                    }
                    proof {
                        assert(dv[i as int] == dirs@[i as int]@);
                        lemma_concat_map_step(i as int, g);
                        assert(issues_view(report.errors@) =~= mid + g(i as int));
                    }
                    i = i + 1;
                }
                assert(issues_view(report.errors@) =~= before + f(k as int));
            } else {
                assert(issues_view(report.errors@) =~= before + f(k as int));
            }
            proof {
                lemma_concat_map_step(k as int, f);
            }
            k = k + 1;
        }
        proof {
            assert(issues_view(report.warnings@) =~= issues_view(old(report).warnings@) + Seq::<IssueView>::empty());
            lemma_grew_extends(*old(report), *report, slice_errors(es, root, ex), Seq::empty());
        }
        Ok(())
    }
}

} // verus!
