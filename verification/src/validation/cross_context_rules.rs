//! Cross-context boundary rules: imports of another context go through its
//! public API (VSA204), and each context has a public API (VSA205).

use vstd::prelude::*;

use crate::assoc::strs;
use crate::config::{ExceptionBudget, VsaConfig};
use crate::error::VsaError;
use crate::path::{components_of, components_str, extension_of, extension_str, file_name_of, file_name_str, push_path, push_path_str};
use crate::scanner::{context_indices, contexts_in, contexts_match, entry_name};
use crate::text::{
    contains, decimal, decimal_usize, ends_with, join, join_strings, lines, split_chars, split_on,
    starts_with, str_contains, str_ends_with, str_eq, str_starts_with, trim, trim_chars,
};
use crate::tree::{FsEntry, ProjectTree, file_text, path_exists, walk_file_paths};
use super::bounded_context_rules::{context_count, context_names, context_path};
use super::import_parser::{ImportSpec, ImportStatement, SourceLanguage, imports_view, parse_in, source_imports};
use super::suggestions::{Suggestion, create_file_view, manual_view};
use super::{
    EnhancedValidationReport, IssueView, Severity, ValidationContext, ValidationIssue,
    ValidationRule, concat_map, is_test_or_conftest, is_test_or_conftest_spec, issue, issues_view,
    lemma_concat_map_empty, lemma_concat_map_step, lemma_grew_extends, push_issue, report_grew,
};

verus! {

/// Rule: each bounded context must have a public API (`__init__.py` with
/// exports).
pub struct ContextPublicApiExistsRule;

/// Rule: imports of another context must go through its public API (its
/// root or its ports).
pub struct CrossContextPublicApiRule;

// ============================================================================
// Deep imports
// ============================================================================

/// Whether `parts[i..]` holds a deep import: the first `contexts.<name>`
/// naming a known context other than `own` is followed by something other
/// than `ports`.
pub open spec fn deep_from(
    parts: Seq<Seq<char>>,
    own: Option<Seq<char>>,
    names: Seq<Seq<char>>,
    i: int,
) -> bool
    decreases parts.len() - i,
{
    if i < 0 || i >= parts.len() {
        false
    } else if parts[i] == "contexts"@ && i + 1 < parts.len() && names.contains(parts[i + 1]) && own
        != Some(parts[i + 1]) {
        !(i + 2 >= parts.len() || parts[i + 2] == "ports"@)
    } else {
        deep_from(parts, own, names, i + 1)
    }
}

/// Whether an import reaches into a foreign context's internals; a line
/// that mentions `Projection` is exempt.
pub open spec fn is_deep_import(
    module: Seq<char>,
    line: Seq<char>,
    own: Option<Seq<char>>,
    names: Seq<Seq<char>>,
) -> bool {
    !contains(line, "Projection"@) && deep_from(split_on(module, '.'), own, names, 0)
}

fn opt_view_str(o: Option<&str>) -> (r: Option<String>)
    ensures
        match o {
            Some(s) => r matches Some(t) && t@ == s@,
            None => r is None,
        },
{
    match o {
        Some(s) => Some(crate::text::owned(s)),
        None => None,
    }
}

/// The view of an optional string slice.
pub open spec fn opt_str_view(o: Option<&str>) -> Option<Seq<char>> {
    match o {
        Some(s) => Some(s@),
        None => None,
    }
}

/// Check if an import is a deep cross-context import that violates the
/// boundaries: `contexts.<foreign>.<internal>`; `contexts.<foreign>` and
/// `contexts.<foreign>.ports` are allowed, and so is any line mentioning
/// `Projection`.
pub fn is_deep_cross_context_import(
    module: &str,
    line: &str,
    own_context: Option<&str>,
    context_names: &Vec<String>,
) -> (r: bool)
    ensures
        r == is_deep_import(module@, line@, opt_str_view(own_context), strs(context_names@)),
{
    if str_contains(line, "Projection") {
        return false;
    }
    let mc = crate::text::chars_of(module);
    let parts = split_chars(mc.as_slice(), '.');
    let ghost pv = parts@.map_values(|p: Vec<char>| p@);
    let ghost own = opt_str_view(own_context);
    let ghost names = strs(context_names@);
    let mut i: usize = 0;
    while i < parts.len()
        invariant
            i <= parts@.len(),
            pv == parts@.map_values(|p: Vec<char>| p@),
            pv == split_on(mc@, '.'),
            mc@ == module@,
            own == opt_str_view(own_context),
            names == strs(context_names@),
            !contains(line@, "Projection"@),
            deep_from(pv, own, names, 0) == deep_from(pv, own, names, i as int),
        decreases parts.len() - i,
    {
        let p = crate::text::string_of(parts[i].as_slice());
        if str_eq(p.as_str(), "contexts") && i + 1 < parts.len() {
            let foreign = crate::text::string_of(parts[i + 1].as_slice());
            let known = crate::manifest::contains_string(context_names, &foreign);
            let is_own = match own_context {
                Some(o) => str_eq(foreign.as_str(), o),
                None => false,
            };
            if known && !is_own {
                if i + 2 >= parts.len() {
                    return false;
                }
                let next = crate::text::string_of(parts[i + 2].as_slice());
                assert(next@ == pv[i + 2]);
                assert(p@ == pv[i as int] && foreign@ == pv[i + 1]);
                return !str_eq(next.as_str(), "ports");
            }
        }
        i = i + 1;
    }
    false
}

// ============================================================================
// Files and budgets
// ============================================================================

/// Whether the file at `p` is passed over by the cross-context check: test
/// files, `__init__.py`, `conftest.py`, and anything under a `_shared`
/// directory.
pub open spec fn skips_file(p: Seq<char>) -> bool {
    ||| is_test_or_conftest_spec(p)
    ||| file_name_of(p) == Some("__init__.py"@)
    ||| file_name_of(p) == Some("conftest.py"@)
    ||| components_of(p).contains("_shared"@)
}

/// Whether the file at `p` is `__init__.py` or `conftest.py`.
pub open spec fn is_init_or_conftest(p: Seq<char>) -> bool {
    file_name_of(p) == Some("__init__.py"@) || file_name_of(p) == Some("conftest.py"@)
}

/// Whether the file at `path` is `__init__.py` or `conftest.py`.
pub fn is_conftest_or_init(path: &str) -> (r: bool)
    ensures
        r == is_init_or_conftest(path@),
{
    match file_name_str(path) {
        Some(n) => str_eq(n.as_str(), "__init__.py") || str_eq(n.as_str(), "conftest.py"),
        None => false,
    }
}

fn has_component(p: &str, name: &str) -> (r: bool)
    ensures
        r == components_of(p@).contains(name@),
{
    let comps = components_str(p);
    let ghost cv = comps@.map_values(|s: String| s@);
    let mut i: usize = 0;
    while i < comps.len()
        invariant
            i <= comps@.len(),
            cv == comps@.map_values(|s: String| s@),
            cv == components_of(p@),
            forall|k: int| 0 <= k < i ==> cv[k] != name@,
        decreases comps.len() - i,
    {
        if str_eq(comps[i].as_str(), name) {
            assert(cv[i as int] == name@);
            return true;
        }
        i = i + 1;
    }
    proof {
        if cv.contains(name@) {
            let k = choose|k: int| 0 <= k < cv.len() && cv[k] == name@;
            assert(cv[k] != name@);
        }
    }
    false
}

/// Whether the file at `path` is passed over by the cross-context check.
pub fn should_skip_file(path: &str, context_root: &str) -> (r: bool)
    ensures
        r == skips_file(path@),
{
    is_test_or_conftest(path) || is_conftest_or_init(path) || has_component(path, "_shared")
}

/// The Python files a recursive walk of `dir` meets.
pub open spec fn py_files(es: Seq<FsEntry>, dir: Seq<char>) -> Seq<Seq<char>> {
    walk_file_paths(es, dir).filter(|p: Seq<char>| extension_of(p) == Some("py"@))
}

/// The Python files below `root`.
pub fn collect_py_files(tree: &ProjectTree, root: &str) -> (r: Vec<String>)
    ensures
        strs(r@) == py_files(tree.entries@, root@),
{
    let all = tree.walk_files(root);
    let ghost av = strs(all@);
    let ghost pred = |p: Seq<char>| extension_of(p) == Some("py"@);
    let mut out: Vec<String> = Vec::new();
    let mut i: usize = 0;
    while i < all.len()
        invariant
            i <= all@.len(),
            av == strs(all@),
            av == walk_file_paths(tree.entries@, root@),
            pred == (|p: Seq<char>| extension_of(p) == Some("py"@)),
            strs(out@) == av.subrange(0, i as int).filter(pred),
        decreases all.len() - i,
    {
        proof {
            reveal_with_fuel(Seq::<_>::filter, 1);
            assert(av.subrange(0, i + 1).drop_last() =~= av.subrange(0, i as int));
        }
        let is_py = match extension_str(all[i].as_str()) {
            Some(e) => str_eq(e.as_str(), "py"),
            None => false,
        };
        let ghost before = strs(out@);
        if is_py {
            out.push(all[i].clone());
            assert(strs(out@) =~= before.push(av[i as int]));
        }
        i = i + 1;
    }
    assert(av.subrange(0, av.len() as int) =~= av);
    out
}

/// The budget granted to `file` for rule `code`: the sum of the budgets
/// of the exceptions for that rule whose file is a suffix of `file`.
pub open spec fn budget_for(ex: Seq<ExceptionBudget>, code: Seq<char>, file: Seq<char>) -> nat
    decreases ex.len(),
{
    if ex.len() == 0 {
        0
    } else {
        budget_for(ex.drop_last(), code, file) + (if ex.last().rule@ == code && ends_with(
            file,
            ex.last().file@,
        ) {
            ex.last().budget as nat
        } else {
            0nat
        })
    }
}

/// A budget as it is counted: sums beyond `usize::MAX` stay there.
pub open spec fn capped(n: nat) -> nat {
    if n <= usize::MAX {
        n
    } else {
        usize::MAX as nat
    }
}

/// The error for the violations of one file beyond its budget, if any.
pub open spec fn violation_errors(
    file: Seq<char>,
    violations: Seq<Seq<char>>,
    code: Seq<char>,
    budget: nat,
) -> Seq<IssueView> {
    if violations.len() > budget {
        let excess = (violations.len() - budget) as nat;
        seq![
            issue(
                file,
                decimal(excess) + " cross-context deep import violation(s) ("@ + decimal(
                    violations.len(),
                ) + " total, "@ + decimal(budget) + " budgeted):\n  "@ + join(
                    violations.subrange(budget as int, violations.len() as int),
                    "\n  "@,
                ),
                code,
                Severity::Error,
                manual_view(
                    "Import from the context's public API (contexts.<ctx> or contexts.<ctx>.ports) instead of reaching into internals"@,
                ),
            ),
        ]
    } else {
        Seq::empty()
    }
}

/// Appends the error for the violations of one file beyond its budget.
/// Budgets are added up to at most `usize::MAX`.
fn report_violations(
    ctx: &ValidationContext,
    errors: &mut Vec<ValidationIssue>,
    file_path: &str,
    violations: &Vec<String>,
    rule_code: &str,
)
    ensures
        issues_view(final(errors)@) == issues_view(old(errors)@) + violation_errors(
            file_path@,
            strs(violations@),
            rule_code@,
            capped(budget_for(ctx.config.exceptions@, rule_code@, file_path@)),
        ),
{
    let ghost start = issues_view(errors@);
    if violations.len() == 0 {
        assert(issues_view(errors@) =~= start + Seq::<IssueView>::empty());
        return;
    }
    let ex = &ctx.config.exceptions;
    let mut budget: usize = 0;
    let mut i: usize = 0;
    while i < ex.len()
        invariant
            i <= ex@.len(),
            budget == capped(budget_for(ex@.subrange(0, i as int), rule_code@, file_path@)),
        decreases ex.len() - i,
    {
        assert(ex@.subrange(0, i + 1).drop_last() =~= ex@.subrange(0, i as int));
        if str_eq(ex[i].rule.as_str(), rule_code) && str_ends_with(file_path, ex[i].file.as_str()) {
            let b = ex[i].budget;
            if budget > usize::MAX - b {
                budget = usize::MAX;
            } else {
                budget = budget + b;
            }
        }
        i = i + 1;
    }
    assert(ex@.subrange(0, ex@.len() as int) =~= ex@);
    if violations.len() > budget {
        let excess = violations.len() - budget;
        let mut rest: Vec<String> = Vec::new();
        let mut k: usize = budget;
        while k < violations.len()
            invariant
                budget <= k <= violations@.len(),
                strs(rest@) == strs(violations@).subrange(budget as int, k as int),
            decreases violations.len() - k,
        {
            let ghost before = strs(rest@);
            rest.push(violations[k].clone());
            assert(strs(rest@) =~= before.push(violations@[k as int]@));
            assert(strs(violations@).subrange(budget as int, k + 1) =~= strs(violations@).subrange(budget as int, k as int).push(violations@[k as int]@));
            k = k + 1;
        }
        let joined = join_strings(&rest, "\n  ");
        let mut msg = decimal_usize(excess);
        msg.append(" cross-context deep import violation(s) (");
        let total = decimal_usize(violations.len());
        msg.append(total.as_str());
        msg.append(" total, ");
        let b = decimal_usize(budget);
        msg.append(b.as_str());
        msg.append(" budgeted):\n  ");
        msg.append(joined.as_str());
        let sug = Suggestion::manual(
            "Import from the context's public API (contexts.<ctx> or contexts.<ctx>.ports) instead of reaching into internals",
        );
        push_issue(errors, crate::text::owned(file_path), msg, rule_code, Severity::Error, sug);
        assert(issues_view(errors@) =~= start + violation_errors(
            file_path@,
            strs(violations@),
            rule_code@,
            budget as nat,
        ));
    } else {
        assert(issues_view(errors@) =~= start + Seq::<IssueView>::empty());
    }
}

/// Budgets of a prefix add up to no more than those of the whole list.
proof fn lemma_budget_prefix(ex: Seq<ExceptionBudget>, code: Seq<char>, file: Seq<char>, n: int)
    requires
        0 <= n <= ex.len(),
    ensures
        budget_for(ex.subrange(0, n), code, file) <= budget_for(ex, code, file),
    decreases ex.len() - n,
{
    if n < ex.len() {
        lemma_budget_prefix(ex, code, file, n + 1);
        assert(ex.subrange(0, n + 1).drop_last() =~= ex.subrange(0, n));
    } else {
        assert(ex.subrange(0, n) =~= ex);
    }
}

// ============================================================================
// VSA204
// ============================================================================

/// The Python imports of the file at `p`, none when it cannot be read.
pub open spec fn py_file_imports(es: Seq<FsEntry>, p: Seq<char>) -> Seq<ImportSpec> {
    match file_text(es, p) {
        Some(t) => source_imports(SourceLanguage::Python, t),
        None => Seq::empty(),
    }
}

/// The trimmed lines of the deep imports of the file at `p`.
pub open spec fn file_violations(
    es: Seq<FsEntry>,
    p: Seq<char>,
    own: Option<Seq<char>>,
    names: Seq<Seq<char>>,
) -> Seq<Seq<char>> {
    let imps = py_file_imports(es, p);
    concat_map(
        imps.len() as int,
        |j: int|
            if is_deep_import(imps[j].module, imps[j].line, own, names) {
                seq![trim(imps[j].line)]
            } else {
                Seq::empty()
            },
    )
}

/// The errors of VSA204 for the file at `p`.
pub open spec fn file_deep_errors(
    es: Seq<FsEntry>,
    config: VsaConfig,
    p: Seq<char>,
    own: Option<Seq<char>>,
    names: Seq<Seq<char>>,
) -> Seq<IssueView> {
    violation_errors(
        p,
        file_violations(es, p, own, names),
        "VSA204"@,
        capped(budget_for(config.exceptions@, "VSA204"@, p)),
    )
}

/// A file with more deep cross-context imports than its VSA204 budget (the
/// budgets of the exceptions for VSA204 whose file its path ends with,
/// added up) gets exactly one VSA204 error, at its path, whose message
/// begins with the number of imports beyond the budget and
/// ` cross-context`; a file within its budget gets none.
pub proof fn lemma_vsa204_budget(
    es: Seq<FsEntry>,
    config: VsaConfig,
    p: Seq<char>,
    own: Option<Seq<char>>,
    names: Seq<Seq<char>>,
)
    requires
        budget_for(config.exceptions@, "VSA204"@, p) <= usize::MAX,
    ensures
        ({
            let v = file_violations(es, p, own, names);
            let b = budget_for(config.exceptions@, "VSA204"@, p);
            let e = file_deep_errors(es, config, p, own, names);
            &&& e.len() == if v.len() > b { 1int } else { 0int }
            &&& v.len() > b ==> {
                &&& starts_with(e[0].message, decimal((v.len() - b) as nat) + " cross-context"@)
                &&& e[0].code == "VSA204"@
                &&& e[0].path == p
                &&& e[0].severity == Severity::Error
            }
        }),
{
    let v = file_violations(es, p, own, names);
    let b = budget_for(config.exceptions@, "VSA204"@, p);
    let e = file_deep_errors(es, config, p, own, names);
    assert(capped(b) == b);
    if v.len() > b {
        reveal_strlit(" cross-context");
        reveal_strlit(" cross-context deep import violation(s) (");
        let d = decimal((v.len() - b) as nat);
        let pre = d + " cross-context"@;
        let l = " cross-context deep import violation(s) ("@;
        let m = e[0].message;
        assert(l.subrange(0, 14) =~= " cross-context"@);
        let rest = decimal(v.len()) + " total, "@ + decimal(b) + " budgeted):\n  "@ + join(
            v.subrange(b as int, v.len() as int),
            "\n  "@,
        );
        assert(m =~= d + l + rest);
        assert(m.subrange(0, pre.len() as int) =~= pre);
    }
}

/// The errors of VSA204 for the files of context `c`.
pub open spec fn context_deep_errors(
    es: Seq<FsEntry>,
    config: VsaConfig,
    c: Seq<char>,
    names: Seq<Seq<char>>,
) -> Seq<IssueView> {
    let fs = py_files(es, c);
    concat_map(
        fs.len() as int,
        |i: int|
            if skips_file(fs[i]) {
                Seq::empty()
            } else {
                file_deep_errors(es, config, fs[i], Some(entry_name(c)), names)
            },
    )
}

/// The errors of VSA204 for the files under an extra scan path `sp`.
pub open spec fn scan_path_deep_errors(
    es: Seq<FsEntry>,
    config: VsaConfig,
    root: Seq<char>,
    sp: Seq<char>,
    names: Seq<Seq<char>>,
) -> Seq<IssueView> {
    let dir = push_path(root, sp);
    if path_exists(es, dir) {
        let fs = py_files(es, dir);
        concat_map(
            fs.len() as int,
            |i: int|
                if is_test_or_conftest_spec(fs[i]) || is_init_or_conftest(fs[i]) {
                    Seq::empty()
                } else {
                    file_deep_errors(es, config, fs[i], None, names)
                },
        )
    } else {
        Seq::empty()
    }
}

/// The errors of VSA204.
pub open spec fn deep_import_errors(es: Seq<FsEntry>, root: Seq<char>, config: VsaConfig) -> Seq<
    IssueView,
> {
    let names = context_names(es, root);
    concat_map(
        context_count(es, root),
        |k: int| context_deep_errors(es, config, context_path(es, root, k), names),
    ) + concat_map(
        config.cross_context_scan_paths@.len() as int,
        |k: int| scan_path_deep_errors(es, config, root, config.cross_context_scan_paths@[k]@, names),
    )
}

/// Appends the errors of VSA204 for the file at `p`.
fn check_file_deep(
    ctx: &ValidationContext,
    p: &str,
    own: Option<&str>,
    names: &Vec<String>,
    errors: &mut Vec<ValidationIssue>,
)
    ensures
        issues_view(final(errors)@) == issues_view(old(errors)@) + file_deep_errors(
            ctx.tree.entries@,
            ctx.config,
            p@,
            opt_str_view(own),
            strs(names@),
        ),
{
    let imports = match ctx.tree.read(p) {
        Some(t) => parse_in(SourceLanguage::Python, t.as_str()),
        None => Vec::new(),
    };
    let ghost imps = imports_view(imports@);
    assert(imps == py_file_imports(ctx.tree.entries@, p@));
    let ghost ov = opt_str_view(own);
    let ghost nv = strs(names@);
    let ghost g = |j: int|
        if is_deep_import(imps[j].module, imps[j].line, ov, nv) {
            seq![trim(imps[j].line)]
        } else {
            Seq::empty()
        };
    let mut violations: Vec<String> = Vec::new();
    let mut j: usize = 0;
    proof {
        lemma_concat_map_empty(g);
    }
    while j < imports.len()
        invariant
            j <= imports@.len(),
            imps == imports_view(imports@),
            ov == opt_str_view(own),
            nv == strs(names@),
            g == (|j: int|
                if is_deep_import(imps[j].module, imps[j].line, ov, nv) {
                    seq![trim(imps[j].line)]
                } else {
                    Seq::empty()
                }),
            strs(violations@) == concat_map(j as int, g),
        decreases imports.len() - j,
    {
        let imp = &imports[j];
        let ghost before = strs(violations@);
        assert(imps[j as int] == imp@);
        if is_deep_cross_context_import(imp.module.as_str(), imp.line.as_str(), own, names) {
            let lc = crate::text::chars_of(imp.line.as_str());
            let t = trim_chars(lc.as_slice());
            violations.push(crate::text::string_of(t.as_slice()));
            assert(strs(violations@) =~= before.push(trim(imp.line@)));
        }
        proof {
            lemma_concat_map_step(j as int, g);
            assert(strs(violations@) =~= before + g(j as int));
        }
        j = j + 1;
    }
    report_violations(ctx, errors, p, &violations, "VSA204");
}

impl ValidationRule for CrossContextPublicApiRule {
    open spec fn validate_outcome(
        &self,
        ctx: ValidationContext,
        before: EnhancedValidationReport,
        r: Result<(), VsaError>,
        after: EnhancedValidationReport,
    ) -> bool {
        &&& (r is Ok)
        &&& (report_grew(
                before,
                after,
                deep_import_errors(ctx.tree.entries@, ctx.root@, ctx.config),
                Seq::empty(),
            ))
    }

    fn name(&self) -> (r: &str)
        ensures
            r@ == "cross-context-public-api"@,
    {
        "cross-context-public-api"
    }

    fn code(&self) -> (r: &str)
        ensures
            r@ == "VSA204"@,
    {
        "VSA204"
    }

    fn validate(&self, ctx: &ValidationContext, report: &mut EnhancedValidationReport) -> (r:
        Result<(), VsaError>)
        ensures
            r is Ok,
            report_grew(
                *old(report),
                *final(report),
                deep_import_errors(ctx.tree.entries@, ctx.root@, ctx.config),
                Seq::empty(),
            ),
    {
        let ghost es = ctx.tree.entries@;
        let ghost root = ctx.root@;
        let contexts = contexts_in(&ctx.tree, ctx.root.as_str());
        let mut names: Vec<String> = Vec::new();
        let mut k: usize = 0;
        while k < contexts.len()
            invariant
                k <= contexts@.len(),
                es == ctx.tree.entries@,
                root == ctx.root@,
                contexts_match(contexts@, es, context_indices(es, root)),
                strs(names@) == context_names(es, root).subrange(0, k as int),
            decreases contexts.len() - k,
        {
            let ghost before = strs(names@);
            names.push(contexts[k].name.clone());
            assert(context_names(es, root)[k as int] == contexts@[k as int].name@);
            assert(context_names(es, root).subrange(0, k + 1) =~= before.push(contexts@[k as int].name@));
            assert(strs(names@) =~= context_names(es, root).subrange(0, k + 1));
            k = k + 1;
        }
        assert(context_names(es, root).subrange(0, contexts@.len() as int) =~= context_names(es, root));
        let ghost nv = strs(names@);
        let ghost f = |k: int| context_deep_errors(es, ctx.config, context_path(es, root, k), nv);
        let ghost e0 = issues_view(report.errors@);
        let mut k: usize = 0;
        proof {
            lemma_concat_map_empty(f);
        }
        while k < contexts.len()
            invariant
                k <= contexts@.len(),
                es == ctx.tree.entries@,
                root == ctx.root@,
                nv == strs(names@),
                f == (|k: int| context_deep_errors(es, ctx.config, context_path(es, root, k), nv)),
                contexts_match(contexts@, es, context_indices(es, root)),
                e0 == issues_view(old(report).errors@),
                issues_view(report.errors@) == e0 + concat_map(k as int, f),
                report.warnings@ == old(report).warnings@,
                report.suggestions@ == old(report).suggestions@,
            decreases contexts.len() - k,
        {
            let c = &contexts[k];
            let ghost before = issues_view(report.errors@);
            let files = collect_py_files(&ctx.tree, c.path.as_str());
            let ghost fs = strs(files@);
            let ghost g = |i: int|
                if skips_file(fs[i]) {
                    Seq::empty()
                } else {
                    file_deep_errors(es, ctx.config, fs[i], Some(entry_name(c.path@)), nv)
                };
            let mut i: usize = 0;
            proof {
                lemma_concat_map_empty(g);
            }
            while i < files.len()
                invariant
                    i <= files@.len(),
                    es == ctx.tree.entries@,
                    nv == strs(names@),
                    fs == strs(files@),
                    c.name@ == entry_name(c.path@),
                    g == (|i: int|
                        if skips_file(fs[i]) {
                            Seq::empty()
                        } else {
                            file_deep_errors(es, ctx.config, fs[i], Some(entry_name(c.path@)), nv)
                        }),
                    issues_view(report.errors@) == before + concat_map(i as int, g),
                    report.warnings@ == old(report).warnings@,
                    report.suggestions@ == old(report).suggestions@,
                decreases files.len() - i,
            {
                let ghost mid = issues_view(report.errors@);
                assert(fs[i as int] == files@[i as int]@);
                if !should_skip_file(files[i].as_str(), c.path.as_str()) {
                    check_file_deep(ctx, files[i].as_str(), Some(c.name.as_str()), &names, &mut report.errors);
                } else {
                    assert(issues_view(report.errors@) =~= mid + Seq::<IssueView>::empty());
                }
                proof {
                    lemma_concat_map_step(i as int, g);
                    assert(issues_view(report.errors@) =~= mid + g(i as int));
                }
                i = i + 1;
            }
            proof {
                lemma_concat_map_step(k as int, f);
                assert(issues_view(report.errors@) =~= before + f(k as int));
            }
            k = k + 1;
        }
        let ghost part1 = concat_map(contexts@.len() as int, f);
        let scan_paths = &ctx.config.cross_context_scan_paths;
        let ghost h = |k: int| scan_path_deep_errors(es, ctx.config, root, scan_paths@[k]@, nv);
        let ghost mid0 = issues_view(report.errors@);
        let mut k: usize = 0;
        proof {
            lemma_concat_map_empty(h);
        }
        while k < scan_paths.len()
            invariant
                k <= scan_paths@.len(),
                es == ctx.tree.entries@,
                root == ctx.root@,
                nv == strs(names@),
                h == (|k: int| scan_path_deep_errors(es, ctx.config, root, scan_paths@[k]@, nv)),
                issues_view(report.errors@) == mid0 + concat_map(k as int, h),
                report.warnings@ == old(report).warnings@,
                report.suggestions@ == old(report).suggestions@,
            decreases scan_paths.len() - k,
        {
            let ghost before = issues_view(report.errors@);
            let dir = push_path_str(ctx.root.as_str(), scan_paths[k].as_str());
            if ctx.tree.has_path(dir.as_str()) {
                let files = collect_py_files(&ctx.tree, dir.as_str());
                let ghost fs = strs(files@);
                let ghost g = |i: int|
                    if is_test_or_conftest_spec(fs[i]) || is_init_or_conftest(fs[i]) {
                        Seq::empty()
                    } else {
                        file_deep_errors(es, ctx.config, fs[i], None, nv)
                    };
                let mut i: usize = 0;
                proof {
                    lemma_concat_map_empty(g);
                }
                while i < files.len()
                    invariant
                        i <= files@.len(),
                        es == ctx.tree.entries@,
                        nv == strs(names@),
                        fs == strs(files@),
                        g == (|i: int|
                            if is_test_or_conftest_spec(fs[i]) || is_init_or_conftest(fs[i]) {
                                Seq::empty()
                            } else {
                                file_deep_errors(es, ctx.config, fs[i], None, nv)
                            }),
                        issues_view(report.errors@) == before + concat_map(i as int, g),
                        report.warnings@ == old(report).warnings@,
                        report.suggestions@ == old(report).suggestions@,
                    decreases files.len() - i,
                {
                    let ghost m2 = issues_view(report.errors@);
                    assert(fs[i as int] == files@[i as int]@);
                    if !is_test_or_conftest(files[i].as_str()) && !is_conftest_or_init(files[i].as_str()) {
                        check_file_deep(ctx, files[i].as_str(), None, &names, &mut report.errors);
                    } else {
                        assert(issues_view(report.errors@) =~= m2 + Seq::<IssueView>::empty());
                    }
                    proof {
                        lemma_concat_map_step(i as int, g);
                        assert(issues_view(report.errors@) =~= m2 + g(i as int));
                    }
                    i = i + 1;
                }
                assert(issues_view(report.errors@) =~= before + h(k as int));
            } else {
                assert(issues_view(report.errors@) =~= before + h(k as int));
            }
            proof {
                lemma_concat_map_step(k as int, h);
            }
            k = k + 1;
        }
        proof {
            assert(nv == context_names(es, root));
            assert(issues_view(report.errors@) =~= issues_view(old(report).errors@) + deep_import_errors(es, root, ctx.config));
            assert(issues_view(report.warnings@) =~= issues_view(old(report).warnings@) + Seq::<IssueView>::empty());
            lemma_grew_extends(*old(report), *report, deep_import_errors(es, root, ctx.config), Seq::empty());
        }
        Ok(())
    }
}

// ============================================================================
// VSA205
// ============================================================================

/// Whether a line of an `__init__.py` exports something.
pub open spec fn exports_line(l: Seq<char>) -> bool {
    let t = trim(l);
    (starts_with(t, "from "@) && contains(t, " import "@)) || starts_with(t, "__all__"@)
}

/// Whether some line of `content` exports something.
pub open spec fn has_export_line(content: Seq<char>) -> bool {
    exists|i: int| 0 <= i < lines(content).len() && exports_line(#[trigger] lines(content)[i])
}

/// The errors of VSA205 for the context at `c`.
pub open spec fn public_api_errors(es: Seq<FsEntry>, c: Seq<char>) -> Seq<IssueView> {
    let init = push_path(c, "__init__.py"@);
    let name = entry_name(c);
    if !path_exists(es, init) {
        seq![
            issue(
                c,
                "Context '"@ + name + "' is missing __init__.py public API"@,
                "VSA205"@,
                Severity::Error,
                create_file_view(init, "Create __init__.py with public exports for context '"@ + name + "'"@),
            ),
        ]
    } else {
        let content = match file_text(es, init) {
            Some(t) => t,
            None => Seq::empty(),
        };
        if has_export_line(content) {
            Seq::empty()
        } else {
            seq![
                issue(
                    init,
                    "Context '"@ + name
                        + "' __init__.py has no exports (needs 'from ... import' or '__all__')"@,
                    "VSA205"@,
                    Severity::Error,
                    manual_view(
                        "Add public API exports to __init__.py (e.g., 'from .domain import ...' or '__all__ = [...]')"@,
                    ),
                ),
            ]
        }
    }
}

fn has_exports(content: &str) -> (r: bool)
    ensures
        r == has_export_line(content@),
{
    let cc = crate::text::chars_of(content);
    let ls = crate::text::lines_of(cc.as_slice());
    let ghost lv = ls@.map_values(|l: Vec<char>| l@);
    let mut i: usize = 0;
    while i < ls.len()
        invariant
            i <= ls@.len(),
            lv == ls@.map_values(|l: Vec<char>| l@),
            lv == lines(content@),
            forall|k: int| 0 <= k < i ==> !exports_line(#[trigger] lv[k]),
        decreases ls.len() - i,
    {
        let t = trim_chars(ls[i].as_slice());
        let ts = crate::text::string_of(t.as_slice());
        assert(lv[i as int] == ls@[i as int]@);
        if (str_starts_with(ts.as_str(), "from ") && str_contains(ts.as_str(), " import "))
            || str_starts_with(ts.as_str(), "__all__") {
            assert(exports_line(lv[i as int]));
            return true;
        }
        i = i + 1;
    }
    false
}

impl ValidationRule for ContextPublicApiExistsRule {
    open spec fn validate_outcome(
        &self,
        ctx: ValidationContext,
        before: EnhancedValidationReport,
        r: Result<(), VsaError>,
        after: EnhancedValidationReport,
    ) -> bool {
        &&& (r is Ok)
        &&& (report_grew(
                before,
                after,
                concat_map(
                    context_count(ctx.tree.entries@, ctx.root@),
                    |k: int| public_api_errors(ctx.tree.entries@, context_path(ctx.tree.entries@, ctx.root@, k)),
                ),
                Seq::empty(),
            ))
    }

    fn name(&self) -> (r: &str)
        ensures
            r@ == "context-public-api-exists"@,
    {
        "context-public-api-exists"
    }

    fn code(&self) -> (r: &str)
        ensures
            r@ == "VSA205"@,
    {
        "VSA205"
    }

    fn validate(&self, ctx: &ValidationContext, report: &mut EnhancedValidationReport) -> (r:
        Result<(), VsaError>)
        ensures
            r is Ok,
            report_grew(
                *old(report),
                *final(report),
                concat_map(
                    context_count(ctx.tree.entries@, ctx.root@),
                    |k: int| public_api_errors(ctx.tree.entries@, context_path(ctx.tree.entries@, ctx.root@, k)),
                ),
                Seq::empty(),
            ),
    {
        let ghost es = ctx.tree.entries@;
        let ghost root = ctx.root@;
        let ghost f = |k: int| public_api_errors(es, context_path(es, root, k));
        let ghost e0 = issues_view(report.errors@);
        let contexts = contexts_in(&ctx.tree, ctx.root.as_str());
        let mut k: usize = 0;
        proof {
            lemma_concat_map_empty(f);
        }
        while k < contexts.len()
            invariant
                k <= contexts@.len(),
                es == ctx.tree.entries@,
                root == ctx.root@,
                f == (|k: int| public_api_errors(es, context_path(es, root, k))),
                contexts_match(contexts@, es, context_indices(es, root)),
                e0 == issues_view(old(report).errors@),
                issues_view(report.errors@) == e0 + concat_map(k as int, f),
                report.warnings@ == old(report).warnings@,
                report.suggestions@ == old(report).suggestions@,
            decreases contexts.len() - k,
        {
            let c = &contexts[k];
            let ghost before = issues_view(report.errors@);
            assert(c.path@ == context_path(es, root, k as int));
            assert(c.name@ == entry_name(c.path@));
            let init = push_path_str(c.path.as_str(), "__init__.py");
            if !ctx.tree.has_path(init.as_str()) {
                let mut msg = String::new();
                msg.append("Context '");
                msg.append(c.name.as_str());
                msg.append("' is missing __init__.py public API");
                let mut smsg = String::new();
                smsg.append("Create __init__.py with public exports for context '");
                smsg.append(c.name.as_str());
                smsg.append("'");
                let sug = Suggestion::create_file(init, smsg.as_str());
                push_issue(&mut report.errors, c.path.clone(), msg, "VSA205", Severity::Error, sug);
            } else {
                let content = match ctx.tree.read(init.as_str()) {
                    Some(t) => t,
                    None => String::new(),
                };
                if !has_exports(content.as_str()) {
                    let mut msg = String::new();
                    msg.append("Context '");
                    msg.append(c.name.as_str());
                    msg.append("' __init__.py has no exports (needs 'from ... import' or '__all__')");
                    let sug = Suggestion::manual(
                        "Add public API exports to __init__.py (e.g., 'from .domain import ...' or '__all__ = [...]')",
                    );
                    push_issue(&mut report.errors, init, msg, "VSA205", Severity::Error, sug);
                    assert(issues_view(report.errors@) =~= before + public_api_errors(es, c.path@));
                } else {
                    assert(issues_view(report.errors@) =~= before + public_api_errors(es, c.path@));
                }
            }
            proof {
                lemma_concat_map_step(k as int, f);
                assert(issues_view(report.errors@) =~= before + f(k as int));
            }
            k = k + 1;
        }
        proof {
            assert(issues_view(report.warnings@) =~= issues_view(old(report).warnings@) + Seq::<IssueView>::empty());
            lemma_grew_extends(*old(report), *report, concat_map(context_count(es, root), f), Seq::empty());
        }
        Ok(())
    }
}

} // verus!
