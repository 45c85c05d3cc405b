//! Slice isolation rules: no imports of sibling slices (VSA010), and thin
//! adapters (VSA011).

use vstd::prelude::*;

use crate::assoc::strs;
use crate::case::{lowercase, to_lowercase};
use crate::config::{SliceType, VsaConfig};
use crate::error::VsaError;
use crate::re::{group1, group1_exec};
use crate::scanners::slice_scanner::{
    ManifestView, Slice, SliceFile, SliceFileType, SliceManifest, SliceScanner, file_view,
    manifest_of, scan_outcome, scanned_slice_paths, slice_file_views, slice_of_dir,
    slice_type_from, opt_manifest,
};
use crate::text::{
    contains, decimal, decimal_usize, ends_with, lines, starts_with, str_contains, str_ends_with,
    str_eq, str_starts_with, trim,
};
use crate::tree::{FsEntry, ProjectTree, file_text};
use super::suggestions::{Suggestion, manual_view};
use super::{
    EnhancedValidationReport, IssueView, Severity, ValidationContext, ValidationIssue,
    ValidationRule, concat_map, file_name_or_empty, is_test_or_conftest_name,
    is_test_or_conftest_name_spec, issue, issues_view, lemma_concat_map_empty,
    lemma_concat_map_step, lemma_grew_extends, push_issue, report_grew,
};

verus! {

/// Rule: slices must not import from sibling slices.
pub struct NoCrossSliceImportsRule;

/// Rule: controllers and adapters must be thin.
pub struct ThinAdapterRule;

/// An import of a sibling slice.
#[derive(Debug)]
pub struct ImportViolation {
    pub imported_slice: String,
    pub import_path: String,
}

// ============================================================================
// File kinds
// ============================================================================

/// A source file by name: `.ts`, `.tsx`, `.py` or `.rs`.
pub open spec fn is_source_name(name: Seq<char>) -> bool {
    ends_with(name, ".ts"@) || ends_with(name, ".tsx"@) || ends_with(name, ".py"@) || ends_with(
        name,
        ".rs"@,
    )
}

/// Whether `name` is a source file.
pub fn is_source_file(name: &str) -> (r: bool)
    ensures
        r == is_source_name(name@),
{
    str_ends_with(name, ".ts") || str_ends_with(name, ".tsx") || str_ends_with(name, ".py")
        || str_ends_with(name, ".rs")
}

/// An adapter by name: `controller`, `adapter` or `route` in it, in any
/// case.
pub open spec fn is_adapter_name(name: Seq<char>) -> bool {
    let l = lowercase(name);
    contains(l, "controller"@) || contains(l, "adapter"@) || contains(l, "route"@)
}

/// Whether `name` is a controller or adapter.
pub fn is_adapter_file(name: &str) -> (r: bool)
    ensures
        r == is_adapter_name(name@),
{
    let lower = to_lowercase(name);
    str_contains(lower.as_str(), "controller") || str_contains(lower.as_str(), "adapter")
        || str_contains(lower.as_str(), "route")
}

// ============================================================================
// Imports by pattern
// ============================================================================

fn append_strings(a: &mut Vec<String>, b: Vec<String>)
    ensures
        strs(final(a)@) == strs(old(a)@) + strs(b@),
{
    let mut b = b;
    let ghost a0 = strs(a@);
    let ghost bv = strs(b@);
    a.append(&mut b);
    assert(strs(a@) =~= a0 + bv);
}

/// The import pattern of TypeScript: `import ... from '...'`.
pub open spec fn ts_import_re() -> Seq<char> {
    "import\\s+.*?\\s+from\\s+['\"]([^'\"]+)['\"]"@
}

/// The require pattern of TypeScript: `require('...')`.
pub open spec fn ts_require_re() -> Seq<char> {
    "require\\s*\\(\\s*['\"]([^'\"]+)['\"]\\s*\\)"@
}

/// The `from x import` pattern of Python.
pub open spec fn py_from_re() -> Seq<char> {
    "from\\s+([\\w.]+)\\s+import"@
}

/// The `import x` pattern of Python, at the start of a line.
pub open spec fn py_import_re() -> Seq<char> {
    "(?m)^import\\s+([\\w.]+)"@
}

/// The `use crate::` pattern of Rust.
pub open spec fn rust_crate_re() -> Seq<char> {
    "use\\s+(crate::[^;{]+)"@
}

/// The `use super::` pattern of Rust.
pub open spec fn rust_super_re() -> Seq<char> {
    "use\\s+(super::[^;{]+)"@
}

/// The modules a TypeScript text imports: `import ... from`, then
/// `require(...)`.
pub fn extract_typescript_imports(content: &str) -> (r: Vec<String>)
    ensures
        strs(r@) == group1(ts_import_re(), content@) + group1(ts_require_re(), content@),
{
    let mut v = group1_exec("import\\s+.*?\\s+from\\s+['\"]([^'\"]+)['\"]", content);
    let w = group1_exec("require\\s*\\(\\s*['\"]([^'\"]+)['\"]\\s*\\)", content);
    append_strings(&mut v, w);
    v
}

/// The modules a Python text imports: `from x import`, then `import x`.
pub fn extract_python_imports(content: &str) -> (r: Vec<String>)
    ensures
        strs(r@) == group1(py_from_re(), content@) + group1(py_import_re(), content@),
{
    let mut v = group1_exec("from\\s+([\\w.]+)\\s+import", content);
    let w = group1_exec("(?m)^import\\s+([\\w.]+)", content);
    append_strings(&mut v, w);
    v
}

/// The paths a Rust text uses: `use crate::...`, then `use super::...`.
pub fn extract_rust_imports(content: &str) -> (r: Vec<String>)
    ensures
        strs(r@) == group1(rust_crate_re(), content@) + group1(rust_super_re(), content@),
{
    let mut v = group1_exec("use\\s+(crate::[^;{]+)", content);
    let w = group1_exec("use\\s+(super::[^;{]+)", content);
    append_strings(&mut v, w);
    v
}

/// The imports of a text in `language`.
pub open spec fn imports_by_language(content: Seq<char>, language: Seq<char>) -> Seq<Seq<char>> {
    if language == "typescript"@ {
        group1(ts_import_re(), content) + group1(ts_require_re(), content)
    } else if language == "python"@ {
        group1(py_from_re(), content) + group1(py_import_re(), content)
    } else if language == "rust"@ {
        group1(rust_crate_re(), content) + group1(rust_super_re(), content)
    } else {
        Seq::empty()
    }
}

// ============================================================================
// Cross-slice imports
// ============================================================================

/// Whether import path `ip` refers to slice `s`.
pub open spec fn refers_to_slice(ip: Seq<char>, s: Seq<char>) -> bool {
    ||| contains(ip, "/"@ + s + "/"@)
    ||| contains(ip, "/"@ + s)
    ||| contains(ip, "../"@ + s + "/"@)
    ||| contains(ip, "slices/"@ + s + "/"@)
    ||| contains(ip, "slices."@ + s)
    ||| contains(ip, "from "@ + s + " "@)
}

/// The imports of sibling slices in a text, as (slice, import path): for
/// each import in order, each other slice it refers to, in order.
pub open spec fn cross_slice_violations(
    content: Seq<char>,
    current: Seq<char>,
    slices: Seq<Seq<char>>,
    language: Seq<char>,
) -> Seq<(Seq<char>, Seq<char>)> {
    let ips = imports_by_language(content, language);
    concat_map(
        ips.len() as int,
        |i: int|
            concat_map(
                slices.len() as int,
                |j: int|
                    if slices[j] != current && refers_to_slice(ips[i], slices[j]) {
                        seq![(slices[j], ips[i])]
                    } else {
                        Seq::empty()
                    },
            ),
    )
}

/// The views of violations.
pub open spec fn violations_view(v: Seq<ImportViolation>) -> Seq<(Seq<char>, Seq<char>)> {
    v.map_values(|x: ImportViolation| (x.imported_slice@, x.import_path@))
}

fn refers_to_slice_exec(ip: &str, s: &str) -> (r: bool)
    ensures
        r == refers_to_slice(ip@, s@),
{
    let mut a = crate::text::owned("/");
    a.append(s);
    a.append("/");
    let mut b = crate::text::owned("/");
    b.append(s);
    let mut c = crate::text::owned("../");
    c.append(s);
    c.append("/");
    let mut d = crate::text::owned("slices/");
    d.append(s);
    d.append("/");
    let mut e = crate::text::owned("slices.");
    e.append(s);
    let mut f = crate::text::owned("from ");
    f.append(s);
    f.append(" ");
    str_contains(ip, a.as_str()) || str_contains(ip, b.as_str()) || str_contains(ip, c.as_str())
        || str_contains(ip, d.as_str()) || str_contains(ip, e.as_str()) || str_contains(
        ip,
        f.as_str(),
    )
}

/// Detect imports of sibling slices in file content.
pub fn detect_cross_slice_imports(
    content: &str,
    current_slice: &str,
    all_slices: &[&str],
    language: &str,
) -> (r: Vec<ImportViolation>)
    ensures
        violations_view(r@) == cross_slice_violations(
            content@,
            current_slice@,
            crate::text::strs_view(all_slices@),
            language@,
        ),
{
    let imports = if str_eq(language, "typescript") {
        extract_typescript_imports(content)
    } else if str_eq(language, "python") {
        extract_python_imports(content)
    } else if str_eq(language, "rust") {
        extract_rust_imports(content)
    } else {
        Vec::new()
    };
    let ghost ips = strs(imports@);
    let ghost sv = crate::text::strs_view(all_slices@);
    assert(ips == imports_by_language(content@, language@));
    let ghost f = |i: int|
        concat_map(
            sv.len() as int,
            |j: int|
                if sv[j] != current_slice@ && refers_to_slice(ips[i], sv[j]) {
                    seq![(sv[j], ips[i])]
                } else {
                    Seq::empty()
                },
        );
    let mut out: Vec<ImportViolation> = Vec::new();
    let mut i: usize = 0;
    proof {
        lemma_concat_map_empty(f);
    }
    while i < imports.len()
        invariant
            i <= imports@.len(),
            ips == strs(imports@),
            sv == crate::text::strs_view(all_slices@),
            f == (|i: int|
                concat_map(
                    sv.len() as int,
                    |j: int|
                        if sv[j] != current_slice@ && refers_to_slice(ips[i], sv[j]) {
                            seq![(sv[j], ips[i])]
                        } else {
                            Seq::empty()
                        },
                )),
            violations_view(out@) == concat_map(i as int, f),
        decreases imports.len() - i,
    {
        let ip = imports[i].as_str();
        let ghost before = violations_view(out@);
        let ghost g = |j: int|
            if sv[j] != current_slice@ && refers_to_slice(ips[i as int], sv[j]) {
                seq![(sv[j], ips[i as int])]
            } else {
                Seq::empty()
            };
        assert(ips[i as int] == ip@);
        let mut j: usize = 0;
        proof {
            lemma_concat_map_empty(g);
        }
        while j < all_slices.len()
            invariant
                j <= all_slices@.len(),
                sv == crate::text::strs_view(all_slices@),
                ips[i as int] == ip@,
                g == (|j: int|
                    if sv[j] != current_slice@ && refers_to_slice(ips[i as int], sv[j]) {
                        seq![(sv[j], ips[i as int])]
                    } else {
                        Seq::empty()
                    }),
                violations_view(out@) == before + concat_map(j as int, g),
            decreases all_slices.len() - j,
        {
            let s = all_slices[j];
            let ghost mid = violations_view(out@);
            assert(sv[j as int] == s@);
            if !str_eq(s, current_slice) && refers_to_slice_exec(ip, s) {
                out.push(ImportViolation {
                    imported_slice: crate::text::owned(s),
                    import_path: crate::text::owned(ip),
                });
            }
            proof {
                lemma_concat_map_step(j as int, g);
                assert(violations_view(out@) =~= mid + g(j as int));
            }
            j = j + 1;
        }
        proof {
            lemma_concat_map_step(i as int, f);
            assert(f(i as int) == concat_map(all_slices@.len() as int, g));
        }
        i = i + 1;
    }
    out
}

// ============================================================================
// Counting code lines
// ============================================================================

/// One line of a file in `language`, trimmed to `t`: the new state (inside
/// a block comment or docstring) and whether the line counts as code.
pub open spec fn code_line_step(language: Seq<char>, in_block: bool, t: Seq<char>) -> (bool, bool) {
    if t.len() == 0 {
        (in_block, false)
    } else if language == "typescript"@ || language == "rust"@ {
        if starts_with(t, "/*"@) {
            (!ends_with(t, "*/"@), false)
        } else if ends_with(t, "*/"@) {
            (false, false)
        } else if in_block {
            (in_block, false)
        } else if starts_with(t, "//"@) {
            (in_block, false)
        } else {
            (in_block, true)
        }
    } else if language == "python"@ {
        if starts_with(t, "\"\"\""@) || starts_with(t, "'''"@) {
            if t.len() > 3 {
                let rest = t.subrange(3, t.len() as int);
                if !contains(rest, "\"\"\""@) && !contains(rest, "'''"@) {
                    (!in_block, false)
                } else {
                    (in_block, false)
                }
            } else {
                (!in_block, false)
            }
        } else if in_block {
            (in_block, false)
        } else if starts_with(t, "#"@) {
            (in_block, false)
        } else {
            (in_block, true)
        }
    } else {
        (in_block, true)
    }
}

/// The code lines among `ls[i..]`, entered in state `in_block`.
pub open spec fn code_lines_from(language: Seq<char>, ls: Seq<Seq<char>>, i: int, in_block: bool) -> nat
    decreases ls.len() - i,
{
    if i < 0 || i >= ls.len() {
        0
    } else {
        let (next, counted) = code_line_step(language, in_block, trim(ls[i]));
        (if counted {
            1nat
        } else {
            0nat
        }) + code_lines_from(language, ls, i + 1, next)
    }
}

/// The number of lines of code of a text: not blank, not comments, not
/// docstrings.
pub open spec fn code_lines(content: Seq<char>, language: Seq<char>) -> nat {
    code_lines_from(language, lines(content), 0, false)
}

proof fn lemma_code_lines_bound(language: Seq<char>, ls: Seq<Seq<char>>, i: int, in_block: bool)
    requires
        0 <= i <= ls.len(),
    ensures
        code_lines_from(language, ls, i, in_block) <= ls.len() - i,
    decreases ls.len() - i,
{
    if i < ls.len() {
        let (next, counted) = code_line_step(language, in_block, trim(ls[i]));
        lemma_code_lines_bound(language, ls, i + 1, next);
    }
}

/// Count the lines of code: not blank, not comments, not docstrings.
pub fn count_code_lines(content: &str, language: &str) -> (r: usize)
    ensures
        r == code_lines(content@, language@),
{
    let cc = crate::text::chars_of(content);
    let ls = crate::text::lines_of(cc.as_slice());
    let ghost lv = ls@.map_values(|l: Vec<char>| l@);
    let is_c_like = str_eq(language, "typescript") || str_eq(language, "rust");
    let is_python = str_eq(language, "python");
    let mut count: usize = 0;
    let mut in_block = false;
    let mut i: usize = 0;
    proof {
        lemma_code_lines_bound(language@, lv, 0, false);
    }
    while i < ls.len()
        invariant
            i <= ls@.len(),
            lv == ls@.map_values(|l: Vec<char>| l@),
            lv == lines(content@),
            is_c_like == (language@ == "typescript"@ || language@ == "rust"@),
            is_python == (language@ == "python"@),
            count + code_lines_from(language@, lv, i as int, in_block) == code_lines(content@, language@),
            count <= i,
        decreases ls.len() - i,
    {
        let tv = crate::text::trim_chars(ls[i].as_slice());
        let ts = crate::text::string_of(tv.as_slice());
        let t = ts.as_str();
        assert(lv[i as int] == ls@[i as int]@);
        let ghost st0 = in_block;
        let mut counted = false;
        if tv.len() == 0 {
        } else if is_c_like {
            if str_starts_with(t, "/*") {
                in_block = !str_ends_with(t, "*/");
            } else if str_ends_with(t, "*/") {
                in_block = false;
            } else if in_block {
            } else if str_starts_with(t, "//") {
            } else {
                counted = true;
            }
        } else if is_python {
            if str_starts_with(t, "\"\"\"") || str_starts_with(t, "'''") {
                if tv.len() > 3 {
                    let rest_v = crate::text::slice_chars(tv.as_slice(), 3, tv.len());
                    let rest = crate::text::string_of(rest_v.as_slice());
                    if !str_contains(rest.as_str(), "\"\"\"") && !str_contains(rest.as_str(), "'''") {
                        in_block = !in_block;
                    }
                } else {
                    in_block = !in_block;
                }
            } else if in_block {
            } else if str_starts_with(t, "#") {
            } else {
                counted = true;
            }
        } else {
            counted = true;
        }
        assert(code_line_step(language@, st0, trim(lv[i as int])) == (in_block, counted));
        proof {
            lemma_code_lines_bound(language@, lv, i + 1, in_block);
        }
        if counted {
            count = count + 1;
        }
        i = i + 1;
    }
    count
}

// ============================================================================
// VSA010
// ============================================================================

/// Whether the slice scan of a validation would fail: some slice manifest
/// could not be read.
pub open spec fn slice_scan_fails(ctx: ValidationContext) -> bool {
    let ds = ctx_slice_paths(ctx);
    exists|k: int| 0 <= k < ds.len() && (#[trigger] manifest_of(ctx.tree.entries@, ctx.tree.slice_manifests@, ds[k])) is Err
}

/// The slice directories of a validation.
pub open spec fn ctx_slice_paths(ctx: ValidationContext) -> Seq<Seq<char>> {
    scanned_slice_paths(ctx.tree.entries@, ctx.config.slices, ctx.root@)
}

/// The errors of VSA010 for one slice file, given as (name, path, type).
pub open spec fn cross_file_errors(
    es: Seq<FsEntry>,
    fv: (Seq<char>, Seq<char>, SliceFileType),
    slice: Seq<char>,
    names: Seq<Seq<char>>,
    language: Seq<char>,
) -> Seq<IssueView> {
    if !is_source_name(fv.0) || is_test_or_conftest_name_spec(fv.0) {
        Seq::empty()
    } else {
        match file_text(es, fv.1) {
            Some(c) => cross_slice_violations(c, slice, names, language).map_values(
                |v: (Seq<char>, Seq<char>)|
                    issue(
                        fv.1,
                        "Cross-slice import detected: '"@ + fv.0 + "' imports from sibling slice '"@
                            + v.0 + "'. Slices must be isolated."@,
                        "VSA010"@,
                        Severity::Error,
                        manual_view(
                            "Move shared code to domain/ or infrastructure/. Import path: "@ + v.1,
                        ),
                    ),
            ),
            None => Seq::empty(),
        }
    }
}

/// The errors of VSA010.
pub open spec fn cross_slice_errors(ctx: ValidationContext) -> Seq<IssueView> {
    let es = ctx.tree.entries@;
    let ds = ctx_slice_paths(ctx);
    let names = ds.map_values(|d: Seq<char>| file_name_or_empty(d));
    concat_map(
        ds.len() as int,
        |k: int|
            {
                let fvs = slice_file_views(es, ds[k]);
                concat_map(
                    fvs.len() as int,
                    |j: int| cross_file_errors(es, fvs[j], names[k], names, ctx.config.language@),
                )
            },
    )
}

/// Whether VSA010 is enforced.
pub open spec fn slices_isolated(config: VsaConfig) -> bool {
    match config.validation.architecture {
        Some(a) => a.slices_isolated,
        None => true,
    }
}

/// The scan of a validation's slices.
fn scan_slices(ctx: &ValidationContext) -> (r: Result<Vec<Slice>, VsaError>)
    ensures
        scan_outcome(r, ctx.tree.entries@, ctx.tree.slice_manifests@, ctx_slice_paths(*ctx)),
{
    let scanner = SliceScanner::new(
        match &ctx.config.slices {
            Some(c) => Some(c),
            None => None,
        },
        ctx.root.as_str(),
    );
    scanner.scan(&ctx.tree)
}

fn cross_file_check(
    ctx: &ValidationContext,
    file: &SliceFile,
    slice: &String,
    names: &Vec<&str>,
    errors: &mut Vec<ValidationIssue>,
)
    ensures
        issues_view(final(errors)@) == issues_view(old(errors)@) + cross_file_errors(
            ctx.tree.entries@,
            file_view(*file),
            slice@,
            crate::text::strs_view(names@),
            ctx.config.language@,
        ),
{
    let ghost start = issues_view(errors@);
    if !is_source_file(file.name.as_str()) || is_test_or_conftest_name(file.name.as_str()) {
        assert(issues_view(errors@) =~= start + Seq::<IssueView>::empty());
        return;
    }
    let content = match ctx.tree.read(file.path.as_str()) {
        Some(c) => c,
        None => {
            assert(issues_view(errors@) =~= start + Seq::<IssueView>::empty());
            return;
        },
    };
    let violations = detect_cross_slice_imports(
        content.as_str(),
        slice.as_str(),
        names.as_slice(),
        ctx.config.language.as_str(),
    );
    let ghost vv = violations_view(violations@);
    let ghost mk = |v: (Seq<char>, Seq<char>)|
        issue(
            file.path@,
            "Cross-slice import detected: '"@ + file.name@ + "' imports from sibling slice '"@ + v.0
                + "'. Slices must be isolated."@,
            "VSA010"@,
            Severity::Error,
            manual_view("Move shared code to domain/ or infrastructure/. Import path: "@ + v.1),
        );
    let mut k: usize = 0;
    while k < violations.len()
        invariant
            k <= violations@.len(),
            vv == violations_view(violations@),
            mk == (|v: (Seq<char>, Seq<char>)|
                issue(
                    file.path@,
                    "Cross-slice import detected: '"@ + file.name@ + "' imports from sibling slice '"@
                        + v.0 + "'. Slices must be isolated."@,
                    "VSA010"@,
                    Severity::Error,
                    manual_view("Move shared code to domain/ or infrastructure/. Import path: "@ + v.1),
                )),
            start == issues_view(old(errors)@),
            issues_view(errors@) == start + vv.subrange(0, k as int).map_values(mk),
        decreases violations.len() - k,
    {
        let v = &violations[k];
        let ghost before = issues_view(errors@);
        let mut msg = String::new();
        msg.append("Cross-slice import detected: '");
        msg.append(file.name.as_str());
        msg.append("' imports from sibling slice '");
        msg.append(v.imported_slice.as_str());
        msg.append("'. Slices must be isolated.");
        let mut smsg = String::new();
        smsg.append("Move shared code to domain/ or infrastructure/. Import path: ");
        smsg.append(v.import_path.as_str());
        let sug = Suggestion::manual(smsg.as_str());
        push_issue(errors, file.path.clone(), msg, "VSA010", Severity::Error, sug);
        assert(vv[k as int] == (v.imported_slice@, v.import_path@));
        assert(vv.subrange(0, k + 1) =~= vv.subrange(0, k as int).push(vv[k as int]));
        assert(issues_view(errors@) =~= start + vv.subrange(0, k + 1).map_values(mk));
        k = k + 1;
    }
    assert(vv.subrange(0, vv.len() as int) =~= vv);
}

impl ValidationRule for NoCrossSliceImportsRule {
    open spec fn validate_outcome(
        &self,
        ctx: ValidationContext,
        before: EnhancedValidationReport,
        r: Result<(), VsaError>,
        after: EnhancedValidationReport,
    ) -> bool {
        &&& (!slices_isolated(ctx.config) ==> r is Ok && report_grew(
                before,
                after,
                Seq::empty(),
                Seq::empty(),
            ))
        &&& (slices_isolated(ctx.config) && slice_scan_fails(ctx) ==> r is Err && report_grew(
                before,
                after,
                Seq::empty(),
                Seq::empty(),
            ))
        &&& (slices_isolated(ctx.config) && !slice_scan_fails(ctx) ==> r is Ok && report_grew(
                before,
                after,
                cross_slice_errors(ctx),
                Seq::empty(),
            ))
    }

    fn name(&self) -> (r: &str)
        ensures
            r@ == "no-cross-slice-imports"@,
    {
        "no-cross-slice-imports"
    }

    fn code(&self) -> (r: &str)
        ensures
            r@ == "VSA010"@,
    {
        "VSA010"
    }

    fn validate(&self, ctx: &ValidationContext, report: &mut EnhancedValidationReport) -> (r:
        Result<(), VsaError>)
        ensures
            !slices_isolated(ctx.config) ==> r is Ok && report_grew(
                *old(report),
                *final(report),
                Seq::empty(),
                Seq::empty(),
            ),
            slices_isolated(ctx.config) && slice_scan_fails(*ctx) ==> r is Err && report_grew(
                *old(report),
                *final(report),
                Seq::empty(),
                Seq::empty(),
            ),
            slices_isolated(ctx.config) && !slice_scan_fails(*ctx) ==> r is Ok && report_grew(
                *old(report),
                *final(report),
                cross_slice_errors(*ctx),
                Seq::empty(),
            ),
    {
        proof {
            assert(issues_view(report.errors@) =~= issues_view(report.errors@) + Seq::<IssueView>::empty());
            assert(issues_view(report.warnings@) =~= issues_view(report.warnings@) + Seq::<IssueView>::empty());
            lemma_grew_extends(*report, *report, Seq::empty(), Seq::empty());
        }
        let enforce = match &ctx.config.validation.architecture {
            Some(a) => a.slices_isolated,
            None => true,
        };
        if !enforce {
            return Ok(());
        }
        let slices = match scan_slices(ctx) {
            Ok(v) => v,
            Err(e) => {
                return Err(e);
            },
        };
        let ghost es = ctx.tree.entries@;
        let ghost ds = ctx_slice_paths(*ctx);
        let ghost names = ds.map_values(|d: Seq<char>| file_name_or_empty(d));
        let mut slice_names: Vec<&str> = Vec::new();
        let mut k: usize = 0;
        while k < slices.len()
            invariant
                k <= slices@.len(),
                slices@.len() == ds.len(),
                names.len() == ds.len(),
                names == ds.map_values(|d: Seq<char>| file_name_or_empty(d)),
                forall|m: int| 0 <= m < slices@.len() ==> slice_of_dir(#[trigger] slices@[m], es, ctx.tree.slice_manifests@, ds[m]),
                crate::text::strs_view(slice_names@) == names.subrange(0, k as int),
            decreases slices.len() - k,
        {
            let ghost before = crate::text::strs_view(slice_names@);
            slice_names.push(slices[k].name.as_str());
            assert(slice_of_dir(slices@[k as int], es, ctx.tree.slice_manifests@, ds[k as int]));
            assert(names[k as int] == slices@[k as int].name@);
            assert(crate::text::strs_view(slice_names@) =~= before.push(slices@[k as int].name@));
            assert(names.subrange(0, k + 1) =~= names.subrange(0, k as int).push(names[k as int]));
            assert(crate::text::strs_view(slice_names@) =~= names.subrange(0, k + 1));
            k = k + 1;
        }
        assert(names.subrange(0, names.len() as int) =~= names);
        let ghost nv = crate::text::strs_view(slice_names@);
        let ghost f = |k: int|
            {
                let fvs = slice_file_views(es, ds[k]);
                concat_map(
                    fvs.len() as int,
                    |j: int| cross_file_errors(es, fvs[j], names[k], names, ctx.config.language@),
                )
            };
        let ghost e0 = issues_view(report.errors@);
        let mut k: usize = 0;
        proof {
            lemma_concat_map_empty(f);
        }
        while k < slices.len()
            invariant
                k <= slices@.len(),
                es == ctx.tree.entries@,
                slices@.len() == ds.len(),
                ds == ctx_slice_paths(*ctx),
                names == ds.map_values(|d: Seq<char>| file_name_or_empty(d)),
                nv == crate::text::strs_view(slice_names@),
                nv == names,
                forall|m: int| 0 <= m < slices@.len() ==> slice_of_dir(#[trigger] slices@[m], es, ctx.tree.slice_manifests@, ds[m]),
                f == (|k: int|
                    {
                        let fvs = slice_file_views(es, ds[k]);
                        concat_map(
                            fvs.len() as int,
                            |j: int| cross_file_errors(es, fvs[j], names[k], names, ctx.config.language@),
                        )
                    }),
                e0 == issues_view(old(report).errors@),
                issues_view(report.errors@) == e0 + concat_map(k as int, f),
                report.warnings@ == old(report).warnings@,
                report.suggestions@ == old(report).suggestions@,
            decreases slices.len() - k,
        {
            let sl = &slices[k];
            assert(slice_of_dir(slices@[k as int], es, ctx.tree.slice_manifests@, ds[k as int]));
            let ghost fvs = slice_file_views(es, ds[k as int]);
            let ghost g = |j: int| cross_file_errors(es, fvs[j], names[k as int], names, ctx.config.language@);
            let ghost before = issues_view(report.errors@);
            assert(sl.name@ == names[k as int]);
            let mut j: usize = 0;
            proof {
                lemma_concat_map_empty(g);
            }
            while j < sl.files.len()
                invariant
                    j <= sl.files@.len(),
                    sl.files@.map_values(|f: SliceFile| file_view(f)) == fvs,
                    sl.name@ == names[k as int],
                    nv == crate::text::strs_view(slice_names@),
                    nv == names,
                    g == (|j: int| cross_file_errors(es, fvs[j], names[k as int], names, ctx.config.language@)),
                    es == ctx.tree.entries@,
                    issues_view(report.errors@) == before + concat_map(j as int, g),
                    report.warnings@ == old(report).warnings@,
                    report.suggestions@ == old(report).suggestions@,
                decreases sl.files.len() - j,
            {
                let ghost mid = issues_view(report.errors@);
                assert(fvs[j as int] == file_view(sl.files@[j as int]));
                cross_file_check(ctx, &sl.files[j], &sl.name, &slice_names, &mut report.errors);
                proof {
                    lemma_concat_map_step(j as int, g);
                    assert(issues_view(report.errors@) =~= mid + g(j as int));
                }
                j = j + 1;
            }
            proof {
                lemma_concat_map_step(k as int, f);
                assert(issues_view(report.errors@) =~= before + f(k as int));
            }
            k = k + 1;
        }
        proof {
            assert(issues_view(report.warnings@) =~= issues_view(old(report).warnings@) + Seq::<IssueView>::empty());
            lemma_grew_extends(*old(report), *report, cross_slice_errors(*ctx), Seq::empty());
            if slice_scan_fails(*ctx) {
                let k = choose|k: int| 0 <= k < ds.len() && (#[trigger] manifest_of(es, ctx.tree.slice_manifests@, ds[k])) is Err;
                assert(slice_of_dir(slices@[k], es, ctx.tree.slice_manifests@, ds[k]));
            }
        }
        Ok(())
    }
}

// ============================================================================
// VSA011
// ============================================================================

/// Whether VSA011 is enforced.
pub open spec fn thin_adapters_enforced(config: VsaConfig) -> bool {
    match config.validation.slices {
        Some(s) => s.enforce_thin_adapters,
        None => true,
    }
}

/// The line limit of command adapters: configured, else 50.
pub open spec fn command_max_lines(config: VsaConfig) -> nat {
    match config.slices {
        Some(s) => match s.command {
            Some(c) => match c.max_lines {
                Some(m) => m as nat,
                None => 50,
            },
            None => 50,
        },
        None => 50,
    }
}

/// The line limit of query adapters: configured, else 100.
pub open spec fn query_max_lines(config: VsaConfig) -> nat {
    match config.slices {
        Some(s) => match s.query {
            Some(q) => match q.max_lines {
                Some(m) => m as nat,
                None => 100,
            },
            None => 100,
        },
        None => 100,
    }
}

/// The warnings of VSA011 for one slice file under line limit `max`.
pub open spec fn adapter_warnings(
    es: Seq<FsEntry>,
    fv: (Seq<char>, Seq<char>, SliceFileType),
    max: nat,
    language: Seq<char>,
) -> Seq<IssueView> {
    if !is_adapter_name(fv.0) {
        Seq::empty()
    } else {
        match file_text(es, fv.1) {
            Some(c) => if code_lines(c, language) > max {
                seq![
                    issue(
                        fv.1,
                        "Adapter '"@ + fv.0 + "' has "@ + decimal(code_lines(c, language))
                            + " lines, exceeding the "@ + decimal(max)
                            + " line limit. Adapters should be thin translation layers."@,
                        "VSA011"@,
                        Severity::Warning,
                        manual_view("Move business logic to the handler or domain layer"@),
                    ),
                ]
            } else {
                Seq::empty()
            },
            None => Seq::empty(),
        }
    }
}

/// The warnings of VSA011.
pub open spec fn thin_adapter_warnings(ctx: ValidationContext) -> Seq<IssueView> {
    let es = ctx.tree.entries@;
    let ds = ctx_slice_paths(ctx);
    concat_map(
        ds.len() as int,
        |k: int|
            {
                let fvs = slice_file_views(es, ds[k]);
                let ty = slice_type_from(
                    fvs,
                    match manifest_of(es, ctx.tree.slice_manifests@, ds[k]) {
                        Ok(m) => m,
                        Err(_) => None,
                    },
                ).0;
                let max = if ty == SliceType::Query {
                    query_max_lines(ctx.config)
                } else {
                    command_max_lines(ctx.config)
                };
                concat_map(
                    fvs.len() as int,
                    |j: int| adapter_warnings(es, fvs[j], max, ctx.config.language@),
                )
            },
    )
}

fn adapter_check(
    ctx: &ValidationContext,
    file: &SliceFile,
    max: usize,
    warnings: &mut Vec<ValidationIssue>,
)
    ensures
        issues_view(final(warnings)@) == issues_view(old(warnings)@) + adapter_warnings(
            ctx.tree.entries@,
            file_view(*file),
            max as nat,
            ctx.config.language@,
        ),
{
    let ghost start = issues_view(warnings@);
    if !is_adapter_file(file.name.as_str()) {
        assert(issues_view(warnings@) =~= start + Seq::<IssueView>::empty());
        return;
    }
    match ctx.tree.read(file.path.as_str()) {
        Some(c) => {
            let count = count_code_lines(c.as_str(), ctx.config.language.as_str());
            if count > max {
                let mut msg = String::new();
                msg.append("Adapter '");
                msg.append(file.name.as_str());
                msg.append("' has ");
                let cs = decimal_usize(count);
                msg.append(cs.as_str());
                msg.append(" lines, exceeding the ");
                let ms = decimal_usize(max);
                msg.append(ms.as_str());
                msg.append(" line limit. Adapters should be thin translation layers.");
                let sug = Suggestion::manual("Move business logic to the handler or domain layer");
                push_issue(warnings, file.path.clone(), msg, "VSA011", Severity::Warning, sug);
            } else {
                assert(issues_view(warnings@) =~= start + Seq::<IssueView>::empty());
            }
        },
        None => {
            assert(issues_view(warnings@) =~= start + Seq::<IssueView>::empty());
        },
    }
}

impl ValidationRule for ThinAdapterRule {
    open spec fn validate_outcome(
        &self,
        ctx: ValidationContext,
        before: EnhancedValidationReport,
        r: Result<(), VsaError>,
        after: EnhancedValidationReport,
    ) -> bool {
        &&& (!thin_adapters_enforced(ctx.config) ==> r is Ok && report_grew(
                before,
                after,
                Seq::empty(),
                Seq::empty(),
            ))
        &&& (thin_adapters_enforced(ctx.config) && slice_scan_fails(ctx) ==> r is Err && report_grew(
                before,
                after,
                Seq::empty(),
                Seq::empty(),
            ))
        &&& (thin_adapters_enforced(ctx.config) && !slice_scan_fails(ctx) ==> r is Ok && report_grew(
                before,
                after,
                Seq::empty(),
                thin_adapter_warnings(ctx),
            ))
    }

    fn name(&self) -> (r: &str)
        ensures
            r@ == "thin-adapter"@,
    {
        "thin-adapter"
    }

    fn code(&self) -> (r: &str)
        ensures
            r@ == "VSA011"@,
    {
        "VSA011"
    }

    fn validate(&self, ctx: &ValidationContext, report: &mut EnhancedValidationReport) -> (r:
        Result<(), VsaError>)
        ensures
            !thin_adapters_enforced(ctx.config) ==> r is Ok && report_grew(
                *old(report),
                *final(report),
                Seq::empty(),
                Seq::empty(),
            ),
            thin_adapters_enforced(ctx.config) && slice_scan_fails(*ctx) ==> r is Err && report_grew(
                *old(report),
                *final(report),
                Seq::empty(),
                Seq::empty(),
            ),
            thin_adapters_enforced(ctx.config) && !slice_scan_fails(*ctx) ==> r is Ok && report_grew(
                *old(report),
                *final(report),
                Seq::empty(),
                thin_adapter_warnings(*ctx),
            ),
    {
        proof {
            assert(issues_view(report.errors@) =~= issues_view(report.errors@) + Seq::<IssueView>::empty());
            assert(issues_view(report.warnings@) =~= issues_view(report.warnings@) + Seq::<IssueView>::empty());
            lemma_grew_extends(*report, *report, Seq::empty(), Seq::empty());
        }
        let enforce = match &ctx.config.validation.slices {
            Some(s) => s.enforce_thin_adapters,
            None => true,
        };
        if !enforce {
            return Ok(());
        }
        let command_max: usize = match &ctx.config.slices {
            Some(s) => match &s.command {
                Some(c) => match c.max_lines {
                    Some(m) => m,
                    None => 50,
                },
                None => 50,
            },
            None => 50,
        };
        let query_max: usize = match &ctx.config.slices {
            Some(s) => match &s.query {
                Some(q) => match q.max_lines {
                    Some(m) => m,
                    None => 100,
                },
                None => 100,
            },
            None => 100,
        };
        let slices = match scan_slices(ctx) {
            Ok(v) => v,
            Err(e) => {
                return Err(e);
            },
        };
        let ghost es = ctx.tree.entries@;
        let ghost ds = ctx_slice_paths(*ctx);
        let ghost f = |k: int|
            {
                let fvs = slice_file_views(es, ds[k]);
                let ty = slice_type_from(
                    fvs,
                    match manifest_of(es, ctx.tree.slice_manifests@, ds[k]) {
                        Ok(m) => m,
                        Err(_) => None,
                    },
                ).0;
                let max = if ty == SliceType::Query {
                    query_max_lines(ctx.config)
                } else {
                    command_max_lines(ctx.config)
                };
                concat_map(
                    fvs.len() as int,
                    |j: int| adapter_warnings(es, fvs[j], max, ctx.config.language@),
                )
            };
        let ghost w0 = issues_view(report.warnings@);
        let mut k: usize = 0;
        proof {
            lemma_concat_map_empty(f);
        }
        while k < slices.len()
            invariant
                k <= slices@.len(),
                es == ctx.tree.entries@,
                slices@.len() == ds.len(),
                ds == ctx_slice_paths(*ctx),
                command_max == command_max_lines(ctx.config),
                query_max == query_max_lines(ctx.config),
                forall|m: int| 0 <= m < slices@.len() ==> slice_of_dir(#[trigger] slices@[m], es, ctx.tree.slice_manifests@, ds[m]),
                f == (|k: int|
                    {
                        let fvs = slice_file_views(es, ds[k]);
                        let ty = slice_type_from(
                            fvs,
                            match manifest_of(es, ctx.tree.slice_manifests@, ds[k]) {
                                Ok(m) => m,
                                Err(_) => None,
                            },
                        ).0;
                        let max = if ty == SliceType::Query {
                            query_max_lines(ctx.config)
                        } else {
                            command_max_lines(ctx.config)
                        };
                        concat_map(
                            fvs.len() as int,
                            |j: int| adapter_warnings(es, fvs[j], max, ctx.config.language@),
                        )
                    }),
                w0 == issues_view(old(report).warnings@),
                issues_view(report.warnings@) == w0 + concat_map(k as int, f),
                report.errors@ == old(report).errors@,
                report.suggestions@ == old(report).suggestions@,
            decreases slices.len() - k,
        {
            let sl = &slices[k];
            assert(slice_of_dir(slices@[k as int], es, ctx.tree.slice_manifests@, ds[k as int]));
            let ghost fvs = slice_file_views(es, ds[k as int]);
            let max = if sl.slice_type == SliceType::Query {
                query_max
            } else {
                command_max
            };
            let ghost g = |j: int| adapter_warnings(es, fvs[j], max as nat, ctx.config.language@);
            let ghost before = issues_view(report.warnings@);
            let mut j: usize = 0;
            proof {
                lemma_concat_map_empty(g);
            }
            while j < sl.files.len()
                invariant
                    j <= sl.files@.len(),
                    sl.files@.map_values(|f: SliceFile| file_view(f)) == fvs,
                    g == (|j: int| adapter_warnings(es, fvs[j], max as nat, ctx.config.language@)),
                    es == ctx.tree.entries@,
                    issues_view(report.warnings@) == before + concat_map(j as int, g),
                    report.errors@ == old(report).errors@,
                    report.suggestions@ == old(report).suggestions@,
                decreases sl.files.len() - j,
            {
                let ghost mid = issues_view(report.warnings@);
                assert(fvs[j as int] == file_view(sl.files@[j as int]));
                adapter_check(ctx, &sl.files[j], max, &mut report.warnings);
                proof {
                    lemma_concat_map_step(j as int, g);
                    assert(issues_view(report.warnings@) =~= mid + g(j as int));
                }
                j = j + 1;
            }
            proof {
                lemma_concat_map_step(k as int, f);
                assert(issues_view(report.warnings@) =~= before + f(k as int));
            }
            k = k + 1;
        }
        proof {
            assert(issues_view(report.errors@) =~= issues_view(old(report).errors@) + Seq::<IssueView>::empty());
            lemma_grew_extends(*old(report), *report, Seq::empty(), thin_adapter_warnings(*ctx));
            if slice_scan_fails(*ctx) {
                let k = choose|k: int| 0 <= k < ds.len() && (#[trigger] manifest_of(es, ctx.tree.slice_manifests@, ds[k])) is Err;
                assert(slice_of_dir(slices@[k], es, ctx.tree.slice_manifests@, ds[k]));
            }
        }
        Ok(())
    }
}

} // verus!
