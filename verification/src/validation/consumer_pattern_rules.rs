//! Event consumer rules: projections import only whitelisted modules
//! (VSA032), and process managers implement their required methods
//! (VSA033).

use vstd::prelude::*;

use crate::assoc::strs;
use crate::case::{lowercase, to_lowercase};
use crate::config::VsaConfig;
use crate::error::VsaError;
use crate::path::{extension_of, extension_str, file_name_of, file_name_str, path_parent, path_parent_str, push_path, push_path_str};
use crate::scanner::{context_indices, contexts_in, contexts_match, relative_to, relative_to_str};
use crate::text::{
    contains, decimal, decimal_usize, lines, starts_with, str_contains, str_eq, str_starts_with,
    trim,
};
use crate::tree::{FsEntry, ProjectTree, file_text, path_exists, walk_file_paths};
use super::bounded_context_rules::{context_count, context_path};
use super::dependency_rules::{file_imports, read_imports};
use super::import_parser::{ImportSpec, imports_view};
use super::suggestions::{Suggestion, SuggestionView, manual_view};
use super::{
    EnhancedValidationReport, IssueView, Severity, ValidationContext, ValidationIssue,
    ValidationRule, concat_map, file_name_or_empty, is_test_or_conftest, is_test_or_conftest_spec,
    issue, issue_with, issues_view, lemma_concat_map_empty, lemma_concat_map_step,
    lemma_grew_extends, push_issue, push_issue_with, report_grew,
};

verus! {

/// Rule: projection files must only import whitelisted modules.
pub struct ProjectionPurityRule;

/// Rule: process managers must implement their required methods.
pub struct ProcessManagerStructureRule;

/// The module prefixes projections may import by default: pure parts of
/// the Python standard library, and the event sourcing framework.
pub open spec fn default_prefixes() -> Seq<Seq<char>> {
    seq![
        "__future__"@,
        "abc"@,
        "collections"@,
        "dataclasses"@,
        "datetime"@,
        "decimal"@,
        "enum"@,
        "functools"@,
        "logging"@,
        "math"@,
        "operator"@,
        "re"@,
        "typing"@,
        "typing_extensions"@,
        "uuid"@,
        "event_sourcing"@,
    ]
}

/// The module prefixes projections may import by default.
pub fn default_projection_allowed_prefixes() -> (r: Vec<String>)
    ensures
        strs(r@) == default_prefixes(),
{
    let names = [
        "__future__",
        "abc",
        "collections",
        "dataclasses",
        "datetime",
        "decimal",
        "enum",
        "functools",
        "logging",
        "math",
        "operator",
        "re",
        "typing",
        "typing_extensions",
        "uuid",
        "event_sourcing",
    ];
    let mut out: Vec<String> = Vec::new();
    let mut i: usize = 0;
    while i < names.len()
        invariant
            i <= names@.len(),
            names@.len() == 16,
            forall|k: int| 0 <= k < i ==> out@[k]@ == (#[trigger] names@[k])@,
            out@.len() == i,
        decreases names.len() - i,
    {
        out.push(crate::text::owned(names[i]));
        i = i + 1;
    }
    assert(strs(out@) =~= default_prefixes());
    out
}

/// Whether `module` is one of `prefixes` or lies below one of them, or is
/// relative.
pub open spec fn allowed_by(module: Seq<char>, prefixes: Seq<Seq<char>>) -> bool {
    (exists|k: int|
        0 <= k < prefixes.len() && (module == #[trigger] prefixes[k] || starts_with(
            module,
            prefixes[k] + "."@,
        ))) || starts_with(module, "."@)
}

/// Check if a module matches one of the allowed prefixes; relative imports
/// are always allowed.
pub fn is_allowed_import(module: &str, allowed: &Vec<String>) -> (r: bool)
    ensures
        r == allowed_by(module@, strs(allowed@)),
{
    let ghost pv = strs(allowed@);
    let mut i: usize = 0;
    while i < allowed.len()
        invariant
            i <= allowed@.len(),
            pv == strs(allowed@),
            forall|k: int|
                0 <= k < i ==> !(module@ == #[trigger] pv[k] || starts_with(module@, pv[k] + "."@)),
        decreases allowed.len() - i,
    {
        let p = allowed[i].as_str();
        let mut dotted = crate::text::owned(p);
        dotted.append(".");
        assert(pv[i as int] == p@);
        if str_eq(module, p) || str_starts_with(module, dotted.as_str()) {
            return true;
        }
        i = i + 1;
    }
    str_starts_with(module, ".")
}

impl ProjectionPurityRule {
    /// Whether a file is a projection by naming: `projection` in its name or
    /// in its directory's name, in any case.
    pub fn is_projection_file(path: &str) -> (r: bool)
        ensures
            r == is_projection_path(path@),
    {
        let name = match file_name_str(path) {
            Some(n) => n,
            None => String::new(),
        };
        let lower = to_lowercase(name.as_str());
        if str_contains(lower.as_str(), "projection") {
            return true;
        }
        match path_parent_str(path) {
            Some(parent) => {
                let pname = match file_name_str(parent.as_str()) {
                    Some(n) => n,
                    None => String::new(),
                };
                let plower = to_lowercase(pname.as_str());
                str_contains(plower.as_str(), "projection")
            },
            None => false,
        }
    }
}

/// Whether a file is a projection by naming.
pub open spec fn is_projection_path(p: Seq<char>) -> bool {
    contains(lowercase(file_name_or_empty(p)), "projection"@) || match path_parent(p) {
        Some(d) => contains(lowercase(file_name_or_empty(d)), "projection"@),
        None => false,
    }
}

/// Whether a line defines a class that extends `ProcessManager`.
pub open spec fn pm_class_line(l: Seq<char>) -> bool {
    let t = trim(l);
    starts_with(t, "class "@) && contains(t, "ProcessManager"@) && contains(t, "("@)
}

/// Whether source code defines a class that extends `ProcessManager`.
pub open spec fn defines_process_manager(source: Seq<char>) -> bool {
    exists|i: int| 0 <= i < lines(source).len() && pm_class_line(#[trigger] lines(source)[i])
}

impl ProcessManagerStructureRule {
    /// Whether source code defines a class that extends `ProcessManager`.
    pub fn is_process_manager_file(source: &str) -> (r: bool)
        ensures
            r == defines_process_manager(source@),
    {
        let cc = crate::text::chars_of(source);
        let ls = crate::text::lines_of(cc.as_slice());
        let ghost lv = ls@.map_values(|l: Vec<char>| l@);
        let mut i: usize = 0;
        while i < ls.len()
            invariant
                i <= ls@.len(),
                lv == ls@.map_values(|l: Vec<char>| l@),
                lv == lines(source@),
                forall|k: int| 0 <= k < i ==> !pm_class_line(#[trigger] lv[k]),
            decreases ls.len() - i,
        {
            let t = crate::text::trim_chars(ls[i].as_slice());
            let ts = crate::text::string_of(t.as_slice());
            assert(lv[i as int] == ls@[i as int]@);
            if str_starts_with(ts.as_str(), "class ") && str_contains(ts.as_str(), "ProcessManager")
                && str_contains(ts.as_str(), "(") {
                assert(pm_class_line(lv[i as int]));
                return true;
            }
            i = i + 1;
        }
        false
    }
}

/// Whether the file at `p` is a non-test Python file.
pub open spec fn is_checked_py(p: Seq<char>) -> bool {
    extension_of(p) == Some("py"@) && !is_test_or_conftest_spec(p)
}

fn is_checked_py_exec(p: &str) -> (r: bool)
    ensures
        r == is_checked_py(p@),
{
    let is_py = match extension_str(p) {
        Some(e) => str_eq(e.as_str(), "py"),
        None => false,
    };
    is_py && !is_test_or_conftest(p)
}

/// The suggestions of VSA032.
pub open spec fn purity_suggestions() -> Seq<SuggestionView> {
    seq![
        manual_view("Remove this import. Projections should only use pure stdlib modules and event_sourcing."@),
        manual_view("If this import is needed, move the side-effecting logic to a ProcessManager instead."@),
        manual_view("If this module is safe (no side effects), add it to projection_allowed_prefixes in vsa.yaml."@),
    ]
}

/// The error of VSA032 for import `imp` of the file at `p`.
pub open spec fn purity_issue(root: Seq<char>, p: Seq<char>, imp: ImportSpec) -> IssueView {
    issue_with(
        p,
        "Projection file '"@ + relative_to(p, root) + "' imports non-whitelisted module: '"@
            + imp.module + "' (line "@ + decimal(imp.line_number as nat)
            + ")\nProjections must be pure - replaying events must produce zero side effects.\nSee CONSUMER-PATTERNS.md for allowed imports."@,
        "VSA032"@,
        Severity::Error,
        purity_suggestions(),
    )
}

/// The errors of VSA032 for the file at `p`.
pub open spec fn purity_file_errors(
    es: Seq<FsEntry>,
    root: Seq<char>,
    p: Seq<char>,
    allowed: Seq<Seq<char>>,
) -> Seq<IssueView> {
    if is_checked_py(p) && is_projection_path(p) {
        let imps = file_imports(es, p);
        concat_map(
            imps.len() as int,
            |j: int|
                if !imps[j].is_relative && !allowed_by(imps[j].module, allowed) {
                    seq![purity_issue(root, p, imps[j])]
                } else {
                    Seq::empty()
                },
        )
    } else {
        Seq::empty()
    }
}

/// The files of the `slices` directory of the context at `c`, if it exists.
pub open spec fn slice_files(es: Seq<FsEntry>, c: Seq<char>) -> Seq<Seq<char>> {
    let slices = push_path(c, "slices"@);
    if path_exists(es, slices) {
        walk_file_paths(es, slices)
    } else {
        Seq::empty()
    }
}

/// The module prefixes projections may import under `config`.
pub open spec fn allowed_prefixes(config: VsaConfig) -> Seq<Seq<char>> {
    match config.projection_allowed_prefixes {
        Some(extra) => default_prefixes() + strs(extra@),
        None => default_prefixes(),
    }
}

/// The errors of VSA032.
pub open spec fn purity_errors(es: Seq<FsEntry>, root: Seq<char>, config: VsaConfig) -> Seq<IssueView> {
    concat_map(
        context_count(es, root),
        |k: int|
            {
                let fs = slice_files(es, context_path(es, root, k));
                concat_map(
                    fs.len() as int,
                    |i: int| purity_file_errors(es, root, fs[i], allowed_prefixes(config)),
                )
            },
    )
}

/// The files of the `slices` directory of a context.
fn slice_files_exec(tree: &ProjectTree, c: &str) -> (r: Vec<String>)
    ensures
        strs(r@) == slice_files(tree.entries@, c@),
{
    let slices = push_path_str(c, "slices");
    if tree.has_path(slices.as_str()) {
        tree.walk_files(slices.as_str())
    } else {
        Vec::new()
    }
}

fn purity_file_check(
    tree: &ProjectTree,
    root: &str,
    p: &str,
    allowed: &Vec<String>,
    errors: &mut Vec<ValidationIssue>,
)
    ensures
        issues_view(final(errors)@) == issues_view(old(errors)@) + purity_file_errors(
            tree.entries@,
            root@,
            p@,
            strs(allowed@),
        ),
{
    let ghost start = issues_view(errors@);
    if !(is_checked_py_exec(p) && ProjectionPurityRule::is_projection_file(p)) {
        assert(issues_view(errors@) =~= start + Seq::<IssueView>::empty());
        return;
    }
    let imports = read_imports(tree, p);
    let ghost imps = imports_view(imports@);
    let ghost av = strs(allowed@);
    let ghost g = |j: int|
        if !imps[j].is_relative && !allowed_by(imps[j].module, av) {
            seq![purity_issue(root@, p@, imps[j])]
        } else {
            Seq::empty()
        };
    let rel = relative_to_str(p, root);
    let mut j: usize = 0;
    proof {
        lemma_concat_map_empty(g);
    }
    while j < imports.len()
        invariant
            j <= imports@.len(),
            imps == imports_view(imports@),
            av == strs(allowed@),
            rel@ == relative_to(p@, root@),
            g == (|j: int|
                if !imps[j].is_relative && !allowed_by(imps[j].module, av) {
                    seq![purity_issue(root@, p@, imps[j])]
                } else {
                    Seq::empty()
                }),
            start == issues_view(old(errors)@),
            issues_view(errors@) == start + concat_map(j as int, g),
        decreases imports.len() - j,
    {
        let imp = &imports[j];
        let ghost before = issues_view(errors@);
        assert(imps[j as int] == imp@);
        if !imp.is_relative && !is_allowed_import(imp.module.as_str(), allowed) {
            let num = decimal_usize(imp.line_number);
            let mut msg = String::new();
            msg.append("Projection file '");
            msg.append(rel.as_str());
            msg.append("' imports non-whitelisted module: '");
            msg.append(imp.module.as_str());
            msg.append("' (line ");
            msg.append(num.as_str());
            msg.append(
                ")\nProjections must be pure - replaying events must produce zero side effects.\nSee CONSUMER-PATTERNS.md for allowed imports.",
            );
            let mut sugs: Vec<Suggestion> = Vec::new();
            sugs.push(
                Suggestion::manual(
                    "Remove this import. Projections should only use pure stdlib modules and event_sourcing.",
                ),
            );
            sugs.push(
                Suggestion::manual(
                    "If this import is needed, move the side-effecting logic to a ProcessManager instead.",
                ),
            );
            sugs.push(
                Suggestion::manual(
                    "If this module is safe (no side effects), add it to projection_allowed_prefixes in vsa.yaml.",
                ),
            );
            assert(sugs@.map_values(|s: Suggestion| s@) =~= purity_suggestions());
            push_issue_with(errors, crate::text::owned(p), msg, "VSA032", Severity::Error, sugs);
        }
        proof {
            lemma_concat_map_step(j as int, g);
            assert(issues_view(errors@) =~= before + g(j as int));
        }
        j = j + 1;
    }
}

impl ValidationRule for ProjectionPurityRule {
    open spec fn validate_outcome(
        &self,
        ctx: ValidationContext,
        before: EnhancedValidationReport,
        r: Result<(), VsaError>,
        after: EnhancedValidationReport,
    ) -> bool {
        &&& (r is Ok)
        &&& (report_grew(
                before,
                after,
                purity_errors(ctx.tree.entries@, ctx.root@, ctx.config),
                Seq::empty(),
            ))
    }

    fn name(&self) -> (r: &str)
        ensures
            r@ == "projection-purity"@,
    {
        "projection-purity"
    }

    fn code(&self) -> (r: &str)
        ensures
            r@ == "VSA032"@,
    {
        "VSA032"
    }

    fn validate(&self, ctx: &ValidationContext, report: &mut EnhancedValidationReport) -> (r:
        Result<(), VsaError>)
        ensures
            r is Ok,
            report_grew(
                *old(report),
                *final(report),
                purity_errors(ctx.tree.entries@, ctx.root@, ctx.config),
                Seq::empty(),
            ),
    {
        let ghost es = ctx.tree.entries@;
        let ghost root = ctx.root@;
        let mut allowed = default_projection_allowed_prefixes();
        match &ctx.config.projection_allowed_prefixes {
            Some(extra) => {
                let ghost base = strs(allowed@);
                let mut i: usize = 0;
                while i < extra.len()
                    invariant
                        i <= extra@.len(),
                        strs(allowed@) == base + strs(extra@).subrange(0, i as int),
                    decreases extra.len() - i,
                {
                    let ghost b = strs(allowed@);
                    allowed.push(extra[i].clone());
                    assert(strs(allowed@) =~= b.push(extra@[i as int]@));
                    assert(strs(extra@).subrange(0, i + 1) =~= strs(extra@).subrange(0, i as int).push(extra@[i as int]@));
                    i = i + 1;
                }
                assert(strs(extra@).subrange(0, extra@.len() as int) =~= strs(extra@));
            },
            None => {},
        }
        let ghost av = strs(allowed@);
        assert(av == allowed_prefixes(ctx.config));
        let ghost f = |k: int|
            {
                let fs = slice_files(es, context_path(es, root, k));
                concat_map(fs.len() as int, |i: int| purity_file_errors(es, root, fs[i], allowed_prefixes(ctx.config)))
            };
        let ghost e0 = issues_view(report.errors@);
        let contexts = contexts_in(&ctx.tree, ctx.root.as_str());
        let mut k: usize = 0;
        proof {
            lemma_concat_map_empty(f);
        }
        while k < contexts.len()
            invariant
                k <= contexts@.len(),
                es == ctx.tree.entries@,
                root == ctx.root@,
                av == strs(allowed@),
                av == allowed_prefixes(ctx.config),
                f == (|k: int|
                    {
                        let fs = slice_files(es, context_path(es, root, k));
                        concat_map(fs.len() as int, |i: int| purity_file_errors(es, root, fs[i], allowed_prefixes(ctx.config)))
                    }),
                contexts_match(contexts@, es, context_indices(es, root)),
                e0 == issues_view(old(report).errors@),
                issues_view(report.errors@) == e0 + concat_map(k as int, f),
                report.warnings@ == old(report).warnings@,
                report.suggestions@ == old(report).suggestions@,
            decreases contexts.len() - k,
        {
            let c = &contexts[k];
            let ghost before = issues_view(report.errors@);
            let files = slice_files_exec(&ctx.tree, c.path.as_str());
            let ghost fs = strs(files@);
            let ghost g = |i: int| purity_file_errors(es, root, fs[i], av);
            let mut i: usize = 0;
            proof {
                lemma_concat_map_empty(g);
            }
            while i < files.len()
                invariant
                    i <= files@.len(),
                    es == ctx.tree.entries@,
                    root == ctx.root@,
                    av == strs(allowed@),
                    fs == strs(files@),
                    g == (|i: int| purity_file_errors(es, root, fs[i], av)),
                    issues_view(report.errors@) == before + concat_map(i as int, g),
                    report.warnings@ == old(report).warnings@,
                    report.suggestions@ == old(report).suggestions@,
                decreases files.len() - i,
            {
                let ghost mid = issues_view(report.errors@);
                assert(fs[i as int] == files@[i as int]@);
                purity_file_check(&ctx.tree, ctx.root.as_str(), files[i].as_str(), &allowed, &mut report.errors);
                proof {
                    lemma_concat_map_step(i as int, g);
                    assert(issues_view(report.errors@) =~= mid + g(i as int));
                }
                i = i + 1;
            }
            proof {
                lemma_concat_map_step(k as int, f);
                assert(issues_view(report.errors@) =~= before + f(k as int));
            }
            k = k + 1;
        }
        proof {
            assert(issues_view(report.warnings@) =~= issues_view(old(report).warnings@) + Seq::<IssueView>::empty());
            lemma_grew_extends(*old(report), *report, purity_errors(es, root, ctx.config), Seq::empty());
        }
        Ok(())
    }
}

/// The errors of VSA033 for the file at `p`.
pub open spec fn pm_file_errors(es: Seq<FsEntry>, root: Seq<char>, p: Seq<char>) -> Seq<IssueView> {
    if is_checked_py(p) {
        match file_text(es, p) {
            Some(src) => if defines_process_manager(src) {
                let rel = relative_to(p, root);
                (if !contains(src, "def process_pending(self"@) {
                    seq![
                        issue(
                            p,
                            "ProcessManager in '"@ + rel
                                + "' is missing required method 'process_pending()'\nProcessManagers must implement process_pending() for the processor side.\nSee CONSUMER-PATTERNS.md for the To-Do List pattern."@,
                            "VSA033"@,
                            Severity::Error,
                            manual_view("Add: async def process_pending(self) -> int: ..."@),
                        ),
                    ]
                } else {
                    Seq::empty()
                }) + (if !contains(src, "def get_idempotency_key(self"@) {
                    seq![
                        issue(
                            p,
                            "ProcessManager in '"@ + rel
                                + "' is missing required method 'get_idempotency_key()'\nProcessManagers must provide a stable dedup key for each to-do item.\nSee CONSUMER-PATTERNS.md."@,
                            "VSA033"@,
                            Severity::Error,
                            manual_view(
                                "Add: def get_idempotency_key(self, todo_item: dict[str, object]) -> str: ..."@,
                            ),
                        ),
                    ]
                } else {
                    Seq::empty()
                })
            } else {
                Seq::empty()
            },
            None => Seq::empty(),
        }
    } else {
        Seq::empty()
    }
}

/// The errors of VSA033.
pub open spec fn pm_errors(es: Seq<FsEntry>, root: Seq<char>) -> Seq<IssueView> {
    concat_map(
        context_count(es, root),
        |k: int|
            {
                let fs = slice_files(es, context_path(es, root, k));
                concat_map(fs.len() as int, |i: int| pm_file_errors(es, root, fs[i]))
            },
    )
}

fn pm_file_check(tree: &ProjectTree, root: &str, p: &str, errors: &mut Vec<ValidationIssue>)
    ensures
        issues_view(final(errors)@) == issues_view(old(errors)@) + pm_file_errors(
            tree.entries@,
            root@,
            p@,
        ),
{
    let ghost start = issues_view(errors@);
    if !is_checked_py_exec(p) {
        assert(issues_view(errors@) =~= start + Seq::<IssueView>::empty());
        return;
    }
    let source = match tree.read(p) {
        Some(s) => s,
        None => {
            assert(issues_view(errors@) =~= start + Seq::<IssueView>::empty());
            return;
        },
    };
    if !ProcessManagerStructureRule::is_process_manager_file(source.as_str()) {
        assert(issues_view(errors@) =~= start + Seq::<IssueView>::empty());
        return;
    }
    let rel = relative_to_str(p, root);
    let ghost src = source@;
    let ghost a = if !contains(src, "def process_pending(self"@) {
        seq![
            issue(
                p@,
                "ProcessManager in '"@ + rel@
                    + "' is missing required method 'process_pending()'\nProcessManagers must implement process_pending() for the processor side.\nSee CONSUMER-PATTERNS.md for the To-Do List pattern."@,
                "VSA033"@,
                Severity::Error,
                manual_view("Add: async def process_pending(self) -> int: ..."@),
            ),
        ]
    } else {
        Seq::<IssueView>::empty()
    };
    if !str_contains(source.as_str(), "def process_pending(self") {
        let mut msg = String::new();
        msg.append("ProcessManager in '");
        msg.append(rel.as_str());
        msg.append(
            "' is missing required method 'process_pending()'\nProcessManagers must implement process_pending() for the processor side.\nSee CONSUMER-PATTERNS.md for the To-Do List pattern.",
        );
        let sug = Suggestion::manual("Add: async def process_pending(self) -> int: ...");
        push_issue(errors, crate::text::owned(p), msg, "VSA033", Severity::Error, sug);
    }
    assert(issues_view(errors@) =~= start + a);
    let ghost mid = issues_view(errors@);
    if !str_contains(source.as_str(), "def get_idempotency_key(self") {
        let mut msg = String::new();
        msg.append("ProcessManager in '");
        msg.append(rel.as_str());
        msg.append(
            "' is missing required method 'get_idempotency_key()'\nProcessManagers must provide a stable dedup key for each to-do item.\nSee CONSUMER-PATTERNS.md.",
        );
        let sug = Suggestion::manual(
            "Add: def get_idempotency_key(self, todo_item: dict[str, object]) -> str: ...",
        );
        push_issue(errors, crate::text::owned(p), msg, "VSA033", Severity::Error, sug);
    }
    assert(issues_view(errors@) =~= start + pm_file_errors(tree.entries@, root@, p@));
}

impl ValidationRule for ProcessManagerStructureRule {
    open spec fn validate_outcome(
        &self,
        ctx: ValidationContext,
        before: EnhancedValidationReport,
        r: Result<(), VsaError>,
        after: EnhancedValidationReport,
    ) -> bool {
        &&& (r is Ok)
        &&& (report_grew(before, after, pm_errors(ctx.tree.entries@, ctx.root@), Seq::empty()))
    }

    fn name(&self) -> (r: &str)
        ensures
            r@ == "process-manager-structure"@,
    {
        "process-manager-structure"
    }

    fn code(&self) -> (r: &str)
        ensures
            r@ == "VSA033"@,
    {
        "VSA033"
    }

    fn validate(&self, ctx: &ValidationContext, report: &mut EnhancedValidationReport) -> (r:
        Result<(), VsaError>)
        ensures
            r is Ok,
            report_grew(*old(report), *final(report), pm_errors(ctx.tree.entries@, ctx.root@), Seq::empty()),
    {
        let ghost es = ctx.tree.entries@;
        let ghost root = ctx.root@;
        let ghost f = |k: int|
            {
                let fs = slice_files(es, context_path(es, root, k));
                concat_map(fs.len() as int, |i: int| pm_file_errors(es, root, fs[i]))
            };
        let ghost e0 = issues_view(report.errors@);
        let contexts = contexts_in(&ctx.tree, ctx.root.as_str());
        let mut k: usize = 0;
        proof {
            lemma_concat_map_empty(f);
        }
        while k < contexts.len()
            invariant
                k <= contexts@.len(),
                es == ctx.tree.entries@,
                root == ctx.root@,
                f == (|k: int|
                    {
                        let fs = slice_files(es, context_path(es, root, k));
                        concat_map(fs.len() as int, |i: int| pm_file_errors(es, root, fs[i]))
                    }),
                contexts_match(contexts@, es, context_indices(es, root)),
                e0 == issues_view(old(report).errors@),
                issues_view(report.errors@) == e0 + concat_map(k as int, f),
                report.warnings@ == old(report).warnings@,
                report.suggestions@ == old(report).suggestions@,
            decreases contexts.len() - k,
        {
            let c = &contexts[k];
            let ghost before = issues_view(report.errors@);
            let files = slice_files_exec(&ctx.tree, c.path.as_str());
            let ghost fs = strs(files@);
            let ghost g = |i: int| pm_file_errors(es, root, fs[i]);
            let mut i: usize = 0;
            proof {
                lemma_concat_map_empty(g);
            }
            while i < files.len()
                invariant
                    i <= files@.len(),
                    es == ctx.tree.entries@,
                    root == ctx.root@,
                    fs == strs(files@),
                    g == (|i: int| pm_file_errors(es, root, fs[i])),
                    issues_view(report.errors@) == before + concat_map(i as int, g),
                    report.warnings@ == old(report).warnings@,
                    report.suggestions@ == old(report).suggestions@,
                decreases files.len() - i,
            {
                let ghost mid = issues_view(report.errors@);
                assert(fs[i as int] == files@[i as int]@);
                pm_file_check(&ctx.tree, ctx.root.as_str(), files[i].as_str(), &mut report.errors);
                proof {
                    lemma_concat_map_step(i as int, g);
                    assert(issues_view(report.errors@) =~= mid + g(i as int));
                }
                i = i + 1;
            }
            proof {
                lemma_concat_map_step(k as int, f);
                assert(issues_view(report.errors@) =~= before + f(k as int));
            }
            k = k + 1;
        }
        proof {
            assert(issues_view(report.warnings@) =~= issues_view(old(report).warnings@) + Seq::<IssueView>::empty());
            lemma_grew_extends(*old(report), *report, pm_errors(es, root), Seq::empty());
        }
        Ok(())
    }
}

} // verus!
