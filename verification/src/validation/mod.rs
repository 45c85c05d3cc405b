//! The validation system: issues, reports, and the rules that produce them.

use vstd::prelude::*;

pub mod suggestions;
pub mod import_parser;
pub mod bounded_context_rules;
pub mod integration_event_rules;
pub mod dependency_rules;
pub mod cross_context_rules;
pub mod consumer_pattern_rules;
pub mod isolation_rules;
pub mod structure_rules;
pub mod query_slice_rules;
pub mod slice_location_rules;
pub mod rules;

use crate::config::VsaConfig;
use crate::error::VsaError;
use crate::tree::ProjectTree;
use suggestions::{Suggestion, SuggestionView};

verus! {

/// Validation report with suggestions.
#[derive(Debug)]
pub struct EnhancedValidationReport {
    pub errors: Vec<ValidationIssue>,
    pub warnings: Vec<ValidationIssue>,
    pub suggestions: Vec<Suggestion>,
}

/// Validation issue with detailed information.
#[derive(Debug, Clone)]
pub struct ValidationIssue {
    pub path: String,
    pub message: String,
    pub code: String,
    pub severity: Severity,
    pub suggestions: Vec<Suggestion>,
}

/// Issue severity level.
#[derive(Debug, Clone, Copy, PartialEq, Eq, Structural)]
pub enum Severity {
    Error,
    Warning,
    Info,
}

/// Whether some issue of `issues` carries a suggestion.
pub open spec fn any_issue_suggests(issues: Seq<ValidationIssue>) -> bool {
    exists|i: int| 0 <= i < issues.len() && (#[trigger] issues[i]).suggestions@.len() > 0
}

impl Default for EnhancedValidationReport {
    fn default() -> (r: Self)
        ensures
            r.errors@.len() == 0,
            r.warnings@.len() == 0,
            r.suggestions@.len() == 0,
    {
        EnhancedValidationReport { errors: Vec::new(), warnings: Vec::new(), suggestions: Vec::new() }
    }
}

fn some_issue_suggests(issues: &Vec<ValidationIssue>) -> (r: bool)
    ensures
        r == any_issue_suggests(issues@),
{
    let mut i: usize = 0;
    while i < issues.len()
        invariant
            i <= issues.len(),
            forall|k: int| 0 <= k < i ==> (#[trigger] issues@[k]).suggestions@.len() == 0,
        decreases issues.len() - i,
    {
        if issues[i].suggestions.len() > 0 {
            return true;
        }
        i = i + 1;
    }
    false
}

impl EnhancedValidationReport {
    /// Check if validation passed (no errors).
    pub fn is_valid(&self) -> (r: bool)
        ensures
            r == (self.errors@.len() == 0),
    {
        self.errors.len() == 0
    }

    /// Total issue count: errors and warnings.
    pub fn total_issues(&self) -> (r: usize)
        requires
            self.errors@.len() + self.warnings@.len() <= usize::MAX,
        ensures
            r == self.errors@.len() + self.warnings@.len(),
    {
        self.errors.len() + self.warnings.len()
    }

    /// Whether the report, or any of its issues, carries a suggestion.
    pub fn has_suggestions(&self) -> (r: bool)
        ensures
            r == (self.suggestions@.len() > 0 || any_issue_suggests(self.errors@)
                || any_issue_suggests(self.warnings@)),
    {
        self.suggestions.len() > 0 || some_issue_suggests(&self.errors) || some_issue_suggests(
            &self.warnings,
        )
    }
}

/// Validation context: the configuration, the project root, and the
/// project's files.
#[derive(Debug)]
pub struct ValidationContext {
    pub config: VsaConfig,
    pub root: String,
    pub tree: ProjectTree,
}

impl ValidationContext {
    /// A context for validating the project at `root`, whose files are
    /// `tree`, under `config`.
    pub fn new(config: VsaConfig, root: String, tree: ProjectTree) -> (r: Self)
        ensures
            r.config == config,
            r.root == root,
            r.tree == tree,
    {
        ValidationContext { config, root, tree }
    }
}

/// What a validation issue says, as plain values.
pub struct IssueView {
    pub path: Seq<char>,
    pub message: Seq<char>,
    pub code: Seq<char>,
    pub severity: Severity,
    pub suggestions: Seq<SuggestionView>,
}

impl View for ValidationIssue {
    type V = IssueView;

    open spec fn view(&self) -> IssueView {
        IssueView {
            path: self.path@,
            message: self.message@,
            code: self.code@,
            severity: self.severity,
            suggestions: self.suggestions@.map_values(|s: Suggestion| s@),
        }
    }
}

/// The views of a list of issues.
pub open spec fn issues_view(v: Seq<ValidationIssue>) -> Seq<IssueView> {
    v.map_values(|i: ValidationIssue| i@)
}

/// An issue with one suggestion.
pub open spec fn issue(
    path: Seq<char>,
    message: Seq<char>,
    code: Seq<char>,
    severity: Severity,
    suggestion: SuggestionView,
) -> IssueView {
    IssueView { path, message, code, severity, suggestions: seq![suggestion] }
}

/// Appends an issue with one suggestion.
pub fn push_issue(
    list: &mut Vec<ValidationIssue>,
    path: String,
    message: String,
    code: &str,
    severity: Severity,
    suggestion: Suggestion,
)
    ensures
        issues_view(final(list)@) == issues_view(old(list)@).push(
            issue(path@, message@, code@, severity, suggestion@),
        ),
{
    let ghost sv = suggestion@;
    let mut suggestions: Vec<Suggestion> = Vec::new();
    suggestions.push(suggestion);
    let it = ValidationIssue {
        path,
        message,
        code: crate::text::owned(code),
        severity,
        suggestions,
    };
    assert(it@.suggestions =~= seq![sv]);
    let ghost before = issues_view(list@);
    list.push(it);
    assert(issues_view(list@) =~= before.push(it@));
}

/// An issue with several suggestions.
pub open spec fn issue_with(
    path: Seq<char>,
    message: Seq<char>,
    code: Seq<char>,
    severity: Severity,
    suggestions: Seq<SuggestionView>,
) -> IssueView {
    IssueView { path, message, code, severity, suggestions }
}

/// Appends an issue with several suggestions.
pub fn push_issue_with(
    list: &mut Vec<ValidationIssue>,
    path: String,
    message: String,
    code: &str,
    severity: Severity,
    suggestions: Vec<Suggestion>,
)
    ensures
        issues_view(final(list)@) == issues_view(old(list)@).push(
            issue_with(
                path@,
                message@,
                code@,
                severity,
                suggestions@.map_values(|s: Suggestion| s@),
            ),
        ),
{
    let it = ValidationIssue {
        path,
        message,
        code: crate::text::owned(code),
        severity,
        suggestions,
    };
    let ghost before = issues_view(list@);
    list.push(it);
    assert(issues_view(list@) =~= before.push(it@));
}

/// Test files and `conftest.py`, by name.
pub open spec fn is_test_or_conftest_name_spec(name: Seq<char>) -> bool {
    ||| crate::text::starts_with(name, "test_"@)
    ||| crate::text::ends_with(name, "_test.py"@)
    ||| crate::text::ends_with(name, "_test.rs"@)
    ||| crate::text::ends_with(name, ".test.ts"@)
    ||| crate::text::ends_with(name, ".test.tsx"@)
    ||| crate::text::ends_with(name, ".spec.ts"@)
    ||| crate::text::ends_with(name, ".spec.tsx"@)
    ||| name == "conftest.py"@
}

/// Whether `name` is a test file or `conftest.py`.
pub fn is_test_or_conftest_name(name: &str) -> (r: bool)
    ensures
        r == is_test_or_conftest_name_spec(name@),
{
    crate::text::str_starts_with(name, "test_") || crate::text::str_ends_with(name, "_test.py")
        || crate::text::str_ends_with(name, "_test.rs") || crate::text::str_ends_with(
        name,
        ".test.ts",
    ) || crate::text::str_ends_with(name, ".test.tsx") || crate::text::str_ends_with(
        name,
        ".spec.ts",
    ) || crate::text::str_ends_with(name, ".spec.tsx") || crate::text::str_eq(name, "conftest.py")
}

/// The name of the file at `p`, `""` when it names none.
pub open spec fn file_name_or_empty(p: Seq<char>) -> Seq<char> {
    match crate::path::file_name_of(p) {
        Some(n) => n,
        None => Seq::empty(),
    }
}

/// Test files and `conftest.py`, by path.
pub open spec fn is_test_or_conftest_spec(p: Seq<char>) -> bool {
    is_test_or_conftest_name_spec(file_name_or_empty(p))
}

/// Whether the file at `path` is a test file or `conftest.py`.
pub fn is_test_or_conftest(path: &str) -> (r: bool)
    ensures
        r == is_test_or_conftest_spec(path@),
{
    let n = match crate::path::file_name_str(path) {
        Some(n) => n,
        None => String::new(),
    };
    assert(n@ == file_name_or_empty(path@));
    is_test_or_conftest_name(n.as_str())
}

/// A report's existing errors, warnings and suggestions stay as they were.
pub open spec fn report_extends(
    old_report: EnhancedValidationReport,
    new_report: EnhancedValidationReport,
) -> bool {
    &&& issues_view(old_report.errors@).is_prefix_of(issues_view(new_report.errors@))
    &&& issues_view(old_report.warnings@).is_prefix_of(issues_view(new_report.warnings@))
    &&& new_report.suggestions@ == old_report.suggestions@
}

/// A report that gained `errors` and `warnings` after what it had.
pub open spec fn report_grew(
    old_report: EnhancedValidationReport,
    new_report: EnhancedValidationReport,
    errors: Seq<IssueView>,
    warnings: Seq<IssueView>,
) -> bool {
    &&& issues_view(new_report.errors@) == issues_view(old_report.errors@) + errors
    &&& issues_view(new_report.warnings@) == issues_view(old_report.warnings@) + warnings
    &&& new_report.suggestions@ == old_report.suggestions@
}

/// A report that grew extends what it was.
pub proof fn lemma_grew_extends(
    old_report: EnhancedValidationReport,
    new_report: EnhancedValidationReport,
    errors: Seq<IssueView>,
    warnings: Seq<IssueView>,
)
    requires
        report_grew(old_report, new_report, errors, warnings),
    ensures
        report_extends(old_report, new_report),
{
    let a = issues_view(old_report.errors@);
    let b = issues_view(old_report.warnings@);
    assert((a + errors).subrange(0, a.len() as int) =~= a);
    assert((b + warnings).subrange(0, b.len() as int) =~= b);
}

/// Extending is transitive: a report that extends one that extends a
/// third extends the third.
/// A report extends itself.
pub proof fn lemma_extends_refl(a: EnhancedValidationReport)
    ensures
        report_extends(a, a),
{
    assert(issues_view(a.errors@) =~= issues_view(a.errors@) + Seq::<IssueView>::empty());
    assert(issues_view(a.warnings@) =~= issues_view(a.warnings@) + Seq::<IssueView>::empty());
    lemma_grew_extends(a, a, Seq::empty(), Seq::empty());
}

pub proof fn lemma_extends_transitive(
    a: EnhancedValidationReport,
    b: EnhancedValidationReport,
    c: EnhancedValidationReport,
)
    requires
        report_extends(a, b),
        report_extends(b, c),
    ensures
        report_extends(a, c),
{
    let (ae, be, ce) = (issues_view(a.errors@), issues_view(b.errors@), issues_view(c.errors@));
    let (aw, bw, cw) = (issues_view(a.warnings@), issues_view(b.warnings@), issues_view(c.warnings@));
    assert(ce.subrange(0, ae.len() as int) =~= be.subrange(0, ae.len() as int));
    assert(cw.subrange(0, aw.len() as int) =~= bw.subrange(0, aw.len() as int));
}

/// The lists `f(0)`, ..., `f(n - 1)` one after another.
pub open spec fn concat_map<A>(n: int, f: spec_fn(int) -> Seq<A>) -> Seq<A> {
    Seq::new(n as nat, f).flatten()
}

/// One more list at the end of a `concat_map`.
pub proof fn lemma_concat_map_step<A>(n: int, f: spec_fn(int) -> Seq<A>)
    requires
        0 <= n,
    ensures
        concat_map(n + 1, f) == concat_map(n, f) + f(n),
{
    let a = Seq::new((n + 1) as nat, f);
    let b = Seq::new(n as nat, f);
    assert(a =~= b.push(f(n)));
    b.lemma_flatten_push(f(n));
}

/// An element of `concat_map(n, f)` is an element of some `f(k)`, `k < n`,
/// and each such element is one of it.
pub proof fn lemma_concat_map_contains<A>(n: int, f: spec_fn(int) -> Seq<A>, x: A)
    requires
        0 <= n,
    ensures
        concat_map(n, f).contains(x) <==> exists|k: int| 0 <= k < n && #[trigger] f(k).contains(x),
    decreases n,
{
    if n == 0 {
        lemma_concat_map_empty(f);
    } else {
        lemma_concat_map_step(n - 1, f);
        lemma_concat_map_contains(n - 1, f, x);
        let a = concat_map(n - 1, f);
        let b = f(n - 1);
        if (a + b).contains(x) {
            let i = choose|i: int| 0 <= i < (a + b).len() && (a + b)[i] == x;
            if i < a.len() {
                assert(a[i] == x);
                assert(a.contains(x));
            } else {
                assert(b[i - a.len()] == x);
                assert(f(n - 1).contains(x));
            }
        }
        if exists|k: int| 0 <= k < n && #[trigger] f(k).contains(x) {
            let k = choose|k: int| 0 <= k < n && #[trigger] f(k).contains(x);
            if k < n - 1 {
                assert(a.contains(x));
                let i = choose|i: int| 0 <= i < a.len() && a[i] == x;
                assert((a + b)[i] == x);
            } else {
                let i = choose|i: int| 0 <= i < b.len() && b[i] == x;
                assert((a + b)[a.len() + i] == x);
            }
        }
    }
}

/// An empty `concat_map`.
pub proof fn lemma_concat_map_empty<A>(f: spec_fn(int) -> Seq<A>)
    ensures
        concat_map(0, f) == Seq::<A>::empty(),
{
    assert(Seq::new(0, f) =~= Seq::<Seq<A>>::empty());
}

/// A validation rule that can be applied to a project.
pub trait ValidationRule {
    /// The rule's name.
    fn name(&self) -> &str;

    /// The rule's code (e.g. "VSA001").
    fn code(&self) -> &str;

    /// What a run of this rule on `ctx` may do: from the report `before`,
    /// return `r` and leave the report `after`. A rule that states nothing
    /// more leaves every outcome open.
    open spec fn validate_outcome(
        &self,
        ctx: ValidationContext,
        before: EnhancedValidationReport,
        r: Result<(), VsaError>,
        after: EnhancedValidationReport,
    ) -> bool {
        true
    }

    /// Validate and add issues to the report.
    fn validate(&self, ctx: &ValidationContext, report: &mut EnhancedValidationReport) -> (r:
        Result<(), VsaError>)
        ensures
            report_extends(*old(report), *final(report)),
            self.validate_outcome(*ctx, *old(report), r, *final(report)),
    ;
}

} // verus!
