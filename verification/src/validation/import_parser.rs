//! Import statement parsing for dependency validation: Python, TypeScript
//! and Rust source is read line by line and each import gives the module it
//! names, whether that module is relative, the line and its number.

use vstd::prelude::*;

use crate::path::{
    components_of, components_str, extension_of, extension_str, is_absolute_path, path_parent,
    path_parent_str, push_path, push_path_str,
};
use crate::text::{
    byte_len, byte_len_prefix, chars_equal, chars_of, contains, contains_chars, find, find_any,
    find_any_chars, find_chars, is_ws, lemma_find_bounds, lemma_rfind_from_bounds, lemma_skip_ws_bounds,
    lines, lines_of, rfind, rfind_chars, skip_ws, slice_chars, starts_with, starts_with_chars,
    str_eq, string_of, trim, trim_chars, is_whitespace,
};

verus! {

/// An import statement found in a source file.
#[derive(Debug, Clone, PartialEq, Eq, Hash)]
pub struct ImportStatement {
    /// The module or package being imported.
    pub module: String,
    /// Whether this is a relative import.
    pub is_relative: bool,
    /// The whole line, as written.
    pub line: String,
    /// Line number (1-indexed).
    pub line_number: usize,
}

/// What an import statement says, as plain values.
pub struct ImportSpec {
    pub module: Seq<char>,
    pub is_relative: bool,
    pub line: Seq<char>,
    pub line_number: int,
}

impl View for ImportStatement {
    type V = ImportSpec;

    open spec fn view(&self) -> ImportSpec {
        ImportSpec {
            module: self.module@,
            is_relative: self.is_relative,
            line: self.line@,
            line_number: self.line_number as int,
        }
    }
}

/// The views of a list of import statements.
pub open spec fn imports_view(v: Seq<ImportStatement>) -> Seq<ImportSpec> {
    v.map_values(|s: ImportStatement| s@)
}

/// The import found on line `i` (0-based) of a file in `lang`, if `module`
/// is `Some`.
pub open spec fn import_here(
    module: Option<Seq<char>>,
    lang: SourceLanguage,
    line: Seq<char>,
    i: int,
) -> Seq<ImportSpec> {
    match module {
        Some(m) => seq![
            ImportSpec {
                module: m,
                is_relative: module_is_relative(lang, m),
                line,
                line_number: i + 1,
            },
        ],
        None => Seq::empty(),
    }
}

// ============================================================================
// Python
// ============================================================================

/// The module a Python import line names: `X` of `from X import Y`, else
/// the first name after `import `.
pub open spec fn py_extract_module(line: Seq<char>) -> Option<Seq<char>> {
    let t = trim(line);
    let from_kw = "from "@;
    let via_from = match find(t, from_kw) {
        Some(fp) => {
            let after = t.subrange(fp + from_kw.len(), t.len() as int);
            match find(after, " import "@) {
                Some(ip) => Some(trim(after.subrange(0, ip))),
                None => None,
            }
        },
        None => None,
    };
    match via_from {
        Some(m) => Some(m),
        None => match find(t, "import "@) {
            Some(ip) => {
                let after = t.subrange(ip + "import "@.len(), t.len() as int);
                let first = match find_any(after, ", \t"@) {
                    Some(e) => after.subrange(0, e),
                    None => after,
                };
                let m = trim(first);
                if m.len() > 0 {
                    Some(m)
                } else {
                    None
                }
            },
            None => None,
        },
    }
}

proof fn lemma_find_at(s: Seq<char>, needle: Seq<char>, target: int, i: int)
    requires
        0 <= i <= target,
        crate::text::occurs_at(s, needle, target),
        forall|j: int| i <= j < target ==> !crate::text::occurs_at(s, needle, j),
    ensures
        crate::text::find_from(s, needle, i) == Some(target),
    decreases target - i,
{
    if i < target {
        lemma_find_at(s, needle, target, i + 1);
    }
}

/// The module of a Python line `from m import r` is `m`, when `m` has no
/// surrounding whitespace and ` import ` first follows it; outside an
/// `if TYPE_CHECKING:` block the line imports it.
pub proof fn lemma_py_from_import(m: Seq<char>, r: Seq<char>)
    requires
        trim("from "@ + m + " import "@ + r) == "from "@ + m + " import "@ + r,
        trim(m) == m,
        forall|j: int| 0 <= j < m.len() ==> !crate::text::occurs_at(m + " import "@ + r, " import "@, j),
    ensures
        py_extract_module("from "@ + m + " import "@ + r) == Some(m),
        py_step(None, "from "@ + m + " import "@ + r).1 == Some(m),
{
    reveal_strlit("from ");
    reveal_strlit(" import ");
    let line = "from "@ + m + " import "@ + r;
    let after = m + " import "@ + r;
    assert(line.subrange(0, 5) =~= "from "@);
    lemma_find_at(line, "from "@, 0, 0);
    assert(line.subrange(5, line.len() as int) =~= after);
    let k = m.len() as int;
    assert(after.subrange(k, k + 8) =~= " import "@);
    lemma_find_at(after, " import "@, k, 0);
    assert(after.subrange(0, k) =~= m);
    assert(starts_with(line, "from "@));
    reveal_strlit("#");
    reveal_strlit("if TYPE_CHECKING:");
    reveal_strlit("if typing.TYPE_CHECKING:");
    assert(line[0] == 'f');
    assert(!starts_with(line, "#"@)) by {
        assert(line.subrange(0, 1)[0] == 'f');
    }
    assert(line != "if TYPE_CHECKING:"@) by {
        assert(line[0] != "if TYPE_CHECKING:"@[0]);
    }
    assert(line != "if typing.TYPE_CHECKING:"@) by {
        assert(line[0] != "if typing.TYPE_CHECKING:"@[0]);
    }
}

/// The module of a Python line `import m` (or `import m, ...`, `import m as
/// x`) is `m`, for a non-empty name `m` without separators or surrounding
/// whitespace, when the line has no `from `.
pub proof fn lemma_py_plain_import(m: Seq<char>, tail: Seq<char>)
    requires
        m.len() > 0,
        trim(m) == m,
        forall|j: int| 0 <= j < m.len() ==> !", \t"@.contains(#[trigger] m[j]),
        tail.len() == 0 || ", \t"@.contains(tail[0]),
        trim("import "@ + m + tail) == "import "@ + m + tail,
        forall|j: int| !crate::text::occurs_at("import "@ + m + tail, "from "@, j),
    ensures
        py_extract_module("import "@ + m + tail) == Some(m),
{
    reveal_strlit("import ");
    let line = "import "@ + m + tail;
    lemma_find_bounds(line, "from "@);
    assert(line.subrange(0, 7) =~= "import "@);
    lemma_find_at(line, "import "@, 0, 0);
    let after = line.subrange(7, line.len() as int);
    assert(after =~= m + tail);
    crate::text::lemma_find_any_from_bounds(after, ", \t"@, 0);
    if tail.len() > 0 {
        assert(after[m.len() as int] == tail[0]);
        assert(find_any(after, ", \t"@) == Some(m.len() as int)) by {
            let k = find_any(after, ", \t"@);
            if k is Some && k->0 < m.len() {
                assert(after[k->0] == m[k->0]);
            }
        }
        assert(after.subrange(0, m.len() as int) =~= m);
    } else {
        assert(find_any(after, ", \t"@) is None) by {
            if find_any(after, ", \t"@) is Some {
                let k = find_any(after, ", \t"@)->0;
                assert(after[k] == m[k]);
            }
        }
        assert(after =~= m);
    }
}

/// A Python module is relative when it starts with a dot.
pub open spec fn py_is_relative(module: Seq<char>) -> bool {
    module.len() > 0 && module[0] == '.'
}

/// Width of the indentation of `line`, in bytes.
pub open spec fn indent_of(line: Seq<char>) -> nat {
    byte_len(line.subrange(0, skip_ws(line, 0)))
}

/// One line of a Python file: the next state (the indentation of the
/// `if TYPE_CHECKING:` block the line is in, if any) and the module the
/// line imports. Imports inside such a block are not counted.
pub open spec fn py_step(state: Option<nat>, line: Seq<char>) -> (Option<nat>, Option<Seq<char>>) {
    let t = trim(line);
    if starts_with(t, "#"@) || t.len() == 0 {
        (state, None)
    } else if t == "if TYPE_CHECKING:"@ || t == "if typing.TYPE_CHECKING:"@ {
        (Some(indent_of(line)), None)
    } else {
        match state {
            Some(base) if indent_of(line) > base => (state, None),
            _ => (
                None,
                if starts_with(t, "from "@) || starts_with(t, "import "@) {
                    py_extract_module(line)
                } else {
                    None
                },
            ),
        }
    }
}

/// The imports of lines `ls[i..]`, entered in state `state`.
pub open spec fn py_scan(ls: Seq<Seq<char>>, i: int, state: Option<nat>) -> Seq<ImportSpec>
    decreases ls.len() - i,
{
    if i < 0 || i >= ls.len() {
        Seq::empty()
    } else {
        let (next, module) = py_step(state, ls[i]);
        import_here(module, SourceLanguage::Python, ls[i], i) + py_scan(ls, i + 1, next)
    }
}

/// The imports of a Python source text.
pub open spec fn python_imports(source: Seq<char>) -> Seq<ImportSpec> {
    py_scan(lines(source), 0, None)
}

// ============================================================================
// TypeScript
// ============================================================================

/// The quoted module at the first quote of `after`. The quote character is
/// taken at the quote's byte offset counted as a character position (the
/// lookup indexes the characters by a byte offset); `None` when that position is past the end (the
/// whole line then gives no module), `Some(None)` when there is no module.
pub open spec fn ts_quoted(after: Seq<char>) -> Option<Option<Seq<char>>> {
    match find_any(after, "'\""@) {
        Some(st) => {
            let b = byte_len(after.subrange(0, st));
            if b >= after.len() {
                None
            } else {
                let q = after[b as int];
                let rest = after.subrange(st + 1, after.len() as int);
                match find(rest, seq![q]) {
                    Some(e) => Some(Some(rest.subrange(0, e))),
                    None => Some(None),
                }
            }
        },
        None => Some(None),
    }
}

proof fn lemma_first_quote_at_start(q: char, after: Seq<char>)
    requires
        q == '\'' || q == '"',
        after.len() > 0,
        after[0] == q,
    ensures
        find_any(after, "'\""@) == Some(0int),
{
    reveal_strlit("'\"");
    let qs = "'\""@;
    if q == '\'' {
        assert(qs[0] == q);
    } else {
        assert(qs[1] == q);
    }
    assert(qs.contains(q));
}

proof fn lemma_find_char_from(s: Seq<char>, q: char, e: int, j: int)
    requires
        0 <= j <= e < s.len(),
        s[e] == q,
        forall|k: int| j <= k < e ==> s[k] != q,
    ensures
        crate::text::find_from(s, seq![q], j) == Some(e),
    decreases e - j,
{
    assert(s.subrange(j, j + 1) =~= seq![s[j]]);
    if j < e {
        assert(s.subrange(j, j + 1) != seq![q]) by {
            assert(s.subrange(j, j + 1)[0] != q);
        }
        lemma_find_char_from(s, q, e, j + 1);
    }
}

proof fn lemma_find_closing_quote(q: char, m: Seq<char>, rest: Seq<char>)
    requires
        !m.contains(q),
        rest == m + seq![q] + rest.subrange(m.len() as int + 1, rest.len() as int),
    ensures
        find(rest, seq![q]) == Some(m.len() as int),
{
    let e = m.len() as int;
    assert(rest[e] == q);
    assert forall|k: int| 0 <= k < e implies rest[k] != q by {
        assert(rest[k] == m[k]);
    }
    lemma_find_char_from(rest, q, e, 0);
}

/// A quoted module at the start of `after`, in single or double quotes,
/// is read whole: for a quote `q` and a module `m` without `q`, the text
/// `q m q` followed by anything gives `m`.
pub proof fn lemma_ts_quoted_module(q: char, m: Seq<char>, tail: Seq<char>)
    requires
        q == '\'' || q == '"',
        !m.contains(q),
    ensures
        ts_quoted(seq![q] + m + seq![q] + tail) == Some(Some(m)),
{
    let after = seq![q] + m + seq![q] + tail;
    assert(after[0] == q);
    lemma_first_quote_at_start(q, after);
    assert(after.subrange(0, 0) =~= Seq::<char>::empty());
    assert(byte_len(after.subrange(0, 0)) == 0);
    let rest = after.subrange(1, after.len() as int);
    assert(rest =~= m + seq![q] + tail);
    assert(rest.subrange(m.len() as int + 1, rest.len() as int) =~= tail);
    lemma_find_closing_quote(q, m, rest);
    assert(rest.subrange(0, m.len() as int) =~= m);
}

/// The module a TypeScript import line names: the quoted text after the
/// last ` from `, else the quoted argument of `require(`.
pub open spec fn ts_extract_module(line: Seq<char>) -> Option<Seq<char>> {
    let t = trim(line);
    let first = match rfind(t, " from "@) {
        Some(fp) => ts_quoted(trim(t.subrange(fp + " from "@.len(), t.len() as int))),
        None => Some(None),
    };
    match first {
        None => None,
        Some(Some(m)) => Some(m),
        Some(None) => if contains(t, "require("@) {
            match find(t, "require("@) {
                Some(sp) => match ts_quoted(t.subrange(sp + "require("@.len(), t.len() as int)) {
                    Some(x) => x,
                    None => None,
                },
                None => None,
            }
        } else {
            None
        },
    }
}

proof fn lemma_rfind_from_at(s: Seq<char>, needle: Seq<char>, target: int, i: int)
    requires
        0 <= target <= i,
        crate::text::occurs_at(s, needle, target),
        forall|j: int| target < j <= i ==> !crate::text::occurs_at(s, needle, j),
    ensures
        crate::text::rfind_from(s, needle, i) == Some(target),
    decreases i - target,
{
    if i > target {
        lemma_rfind_from_at(s, needle, target, i - 1);
    }
}

/// The module of a TypeScript import line `P from Q m Q S` is `m`, for a
/// quote `Q` (single or double) and a module `m` without `Q`, when this
/// ` from ` is the line's last and the line and the text after ` from ` have
/// no surrounding whitespace; and the line, not being a comment, imports
/// it.
pub proof fn lemma_ts_from_import(p: Seq<char>, q: char, m: Seq<char>, s: Seq<char>)
    requires
        q == '\'' || q == '"',
        !m.contains(q),
        ({
            let line = p + " from "@ + seq![q] + m + seq![q] + s;
            &&& trim(line) == line
            &&& trim(seq![q] + m + seq![q] + s) == seq![q] + m + seq![q] + s
            &&& forall|j: int| p.len() < j ==> !crate::text::occurs_at(line, " from "@, j)
        }),
    ensures
        ts_extract_module(p + " from "@ + seq![q] + m + seq![q] + s) == Some(m),
        !starts_with(p + " from "@ + seq![q] + m + seq![q] + s, "//"@) && !starts_with(
            p + " from "@ + seq![q] + m + seq![q] + s,
            "/*"@,
        ) ==> ts_line_module(p + " from "@ + seq![q] + m + seq![q] + s) == Some(m),
{
    reveal_strlit(" from ");
    let fr = " from "@;
    let quoted = seq![q] + m + seq![q] + s;
    let line = p + " from "@ + seq![q] + m + seq![q] + s;
    assert(line =~= p + fr + quoted);
    let k = p.len() as int;
    assert(line.subrange(k, k + 6) =~= fr);
    assert(crate::text::occurs_at(line, fr, k));
    assert(line.len() - fr.len() >= k);
    lemma_rfind_from_at(line, fr, k, line.len() - fr.len());
    assert(rfind(line, fr) == Some(k));
    assert(line.subrange(k + 6, line.len() as int) =~= quoted);
    lemma_ts_quoted_module(q, m, s);
    assert(seq![q] + m + seq![q] + s =~= quoted);
    lemma_find_bounds(line, fr);
    assert(contains(line, fr));
}

proof fn lemma_rfind_from_none(s: Seq<char>, needle: Seq<char>, i: int)
    requires
        forall|j: int| 0 <= j <= i ==> !crate::text::occurs_at(s, needle, j),
    ensures
        crate::text::rfind_from(s, needle, i) is None,
    decreases i + 1,
{
    if i >= 0 {
        lemma_rfind_from_none(s, needle, i - 1);
    }
}

/// The module of a TypeScript line `P require(Q m Q S` with no ` from ` is
/// `m`, for a quote `Q` (single or double) and a module `m` without `Q`,
/// when this `require(` is the line's first and the line has no
/// surrounding whitespace.
pub proof fn lemma_ts_require(p: Seq<char>, q: char, m: Seq<char>, s: Seq<char>)
    requires
        q == '\'' || q == '"',
        !m.contains(q),
        ({
            let line = p + "require("@ + seq![q] + m + seq![q] + s;
            &&& trim(line) == line
            &&& forall|j: int| !crate::text::occurs_at(line, " from "@, j)
            &&& forall|j: int| 0 <= j < p.len() ==> !crate::text::occurs_at(line, "require("@, j)
        }),
    ensures
        ts_extract_module(p + "require("@ + seq![q] + m + seq![q] + s) == Some(m),
{
    reveal_strlit("require(");
    let rq = "require("@;
    let quoted = seq![q] + m + seq![q] + s;
    let line = p + "require("@ + seq![q] + m + seq![q] + s;
    assert(line =~= p + rq + quoted);
    let k = p.len() as int;
    lemma_rfind_from_none(line, " from "@, line.len() - " from "@.len());
    assert(line.subrange(k, k + 8) =~= rq);
    lemma_find_at(line, rq, k, 0);
    assert(contains(line, rq));
    assert(line.subrange(k + 8, line.len() as int) =~= quoted);
    lemma_ts_quoted_module(q, m, s);
}

/// A TypeScript module is relative when it starts with `./` or `../`.
pub open spec fn ts_is_relative(module: Seq<char>) -> bool {
    starts_with(module, "./"@) || starts_with(module, "../"@)
}

/// The module imported on one TypeScript line, comments and blank lines
/// giving none.
pub open spec fn ts_line_module(line: Seq<char>) -> Option<Seq<char>> {
    let t = trim(line);
    if starts_with(t, "//"@) || starts_with(t, "/*"@) || t.len() == 0 {
        None
    } else if starts_with(t, "import "@) || contains(t, " from "@) || contains(t, "require("@) {
        ts_extract_module(line)
    } else {
        None
    }
}

// ============================================================================
// Rust
// ============================================================================

/// The path a Rust `use` line names: up to `;` or `{`, and before ` as `.
pub open spec fn rust_extract_module(line: Seq<char>) -> Option<Seq<char>> {
    let t = trim(line);
    match find(t, "use "@) {
        Some(up) => {
            let after = t.subrange(up + "use "@.len(), t.len() as int);
            let end = match find_any(after, ";{"@) {
                Some(e) => e,
                None => after.len() as int,
            };
            let as_pos = match find(after.subrange(0, end), " as "@) {
                Some(a) => a,
                None => end,
            };
            let cut = if as_pos < end {
                as_pos
            } else {
                end
            };
            let m = trim(after.subrange(0, cut));
            if m.len() > 0 {
                Some(m)
            } else {
                None
            }
        },
        None => None,
    }
}

/// A Rust path is relative when it starts with `self::`, `super::` or
/// `crate::`.
pub open spec fn rust_is_relative(module: Seq<char>) -> bool {
    starts_with(module, "self::"@) || starts_with(module, "super::"@) || starts_with(
        module,
        "crate::"@,
    )
}

/// The module imported on one Rust line.
pub open spec fn rust_line_module(line: Seq<char>) -> Option<Seq<char>> {
    let t = trim(line);
    if starts_with(t, "//"@) || starts_with(t, "/*"@) || t.len() == 0 {
        None
    } else if starts_with(t, "use "@) {
        rust_extract_module(line)
    } else {
        None
    }
}

// ============================================================================
// Languages
// ============================================================================

/// The languages whose imports can be read.
#[derive(Debug, Clone, Copy, PartialEq, Eq, Structural)]
pub enum SourceLanguage {
    Python,
    TypeScript,
    Rust,
}

/// The module imported on one line, for a stateless language.
pub open spec fn line_module(lang: SourceLanguage, line: Seq<char>) -> Option<Seq<char>> {
    match lang {
        SourceLanguage::Rust => rust_line_module(line),
        _ => ts_line_module(line),
    }
}

/// Whether `module` is relative, in `lang`.
pub open spec fn module_is_relative(lang: SourceLanguage, module: Seq<char>) -> bool {
    match lang {
        SourceLanguage::Python => py_is_relative(module),
        SourceLanguage::TypeScript => ts_is_relative(module),
        SourceLanguage::Rust => rust_is_relative(module),
    }
}

/// The imports of lines `ls[i..]`, for a stateless language.
pub open spec fn line_scan(lang: SourceLanguage, ls: Seq<Seq<char>>, i: int) -> Seq<ImportSpec>
    decreases ls.len() - i,
{
    if i < 0 || i >= ls.len() {
        Seq::empty()
    } else {
        import_here(line_module(lang, ls[i]), lang, ls[i], i) + line_scan(lang, ls, i + 1)
    }
}

/// The imports of a source text in `lang`.
pub open spec fn source_imports(lang: SourceLanguage, source: Seq<char>) -> Seq<ImportSpec> {
    match lang {
        SourceLanguage::Python => python_imports(source),
        _ => line_scan(lang, lines(source), 0),
    }
}

/// The language of a file, by its extension.
pub open spec fn language_of(path: Seq<char>) -> Option<SourceLanguage> {
    match extension_of(path) {
        Some(e) => if e == "py"@ {
            Some(SourceLanguage::Python)
        } else if e == "ts"@ || e == "tsx"@ || e == "js"@ || e == "jsx"@ {
            Some(SourceLanguage::TypeScript)
        } else if e == "rs"@ {
            Some(SourceLanguage::Rust)
        } else {
            None
        },
        None => None,
    }
}

// ============================================================================
// Executable parsing
// ============================================================================

/// The view of an optional character vector.
pub open spec fn opt_view(o: Option<Vec<char>>) -> Option<Seq<char>> {
    match o {
        Some(v) => Some(v@),
        None => None,
    }
}

/// The view of a `ts_quoted` outcome.
pub open spec fn opt_opt_view(o: Option<Option<Vec<char>>>) -> Option<Option<Seq<char>>> {
    match o {
        Some(x) => Some(opt_view(x)),
        None => None,
    }
}

/// `s[from..]` as a new vector, where `from` ends an occurrence of a
/// keyword found in `s`.
pub fn after_keyword(s: &[char], at: usize, kw_len: usize) -> (r: Vec<char>)
    requires
        at + kw_len <= s.len(),
    ensures
        r@ == s@.subrange(at + kw_len, s@.len() as int),
{
    slice_chars(s, at + kw_len, s.len())
}

fn py_extract(line: &[char]) -> (r: Option<Vec<char>>)
    ensures
        opt_view(r) == py_extract_module(line@),
{
    let t = trim_chars(line);
    let from_kw = chars_of("from ");
    let imp_kw = chars_of(" import ");
    match find_chars(t.as_slice(), from_kw.as_slice()) {
        Some(fp) => {
            proof {
                lemma_find_bounds(t@, from_kw@);
            }
            let after = after_keyword(t.as_slice(), fp, from_kw.len());
            match find_chars(after.as_slice(), imp_kw.as_slice()) {
                Some(ip) => {
                    proof {
                        lemma_find_bounds(after@, imp_kw@);
                    }
                    let m = slice_chars(after.as_slice(), 0, ip);
                    return Some(trim_chars(m.as_slice()));
                },
                None => {},
            }
        },
        None => {},
    }
    let import_kw = chars_of("import ");
    match find_chars(t.as_slice(), import_kw.as_slice()) {
        Some(ip) => {
            proof {
                lemma_find_bounds(t@, import_kw@);
            }
            let after = after_keyword(t.as_slice(), ip, import_kw.len());
            let seps = chars_of(", \t");
            let first = match find_any_chars(after.as_slice(), seps.as_slice()) {
                Some(e) => slice_chars(after.as_slice(), 0, e),
                None => after,
            };
            let m = trim_chars(first.as_slice());
            if m.len() > 0 {
                Some(m)
            } else {
                None
            }
        },
        None => None,
    }
}

fn ts_quoted_exec(after: &[char]) -> (r: Option<Option<Vec<char>>>)
    ensures
        opt_opt_view(r) == ts_quoted(after@),
{
    let quotes = chars_of("'\"");
    match find_any_chars(after, quotes.as_slice()) {
        Some(st) => {
            let b = byte_len_prefix(after, st);
            if b >= after.len() as u128 {
                return None;
            }
            let q = after[b as usize];
            let rest = slice_chars(after, st + 1, after.len());
            let qv = [q];
            assert(qv@ =~= seq![q]);
            match find_chars(rest.as_slice(), &qv) {
                Some(e) => {
                    proof {
                        lemma_find_bounds(rest@, seq![q]);
                    }
                    Some(Some(slice_chars(rest.as_slice(), 0, e)))
                },
                None => Some(None),
            }
        },
        None => Some(None),
    }
}

fn ts_extract(line: &[char]) -> (r: Option<Vec<char>>)
    ensures
        opt_view(r) == ts_extract_module(line@),
{
    let t = trim_chars(line);
    let from_kw = chars_of(" from ");
    let first = match rfind_chars(t.as_slice(), from_kw.as_slice()) {
        Some(fp) => {
            proof {
                lemma_rfind_from_bounds(t@, from_kw@, t@.len() - from_kw@.len());
            }
            let a = after_keyword(t.as_slice(), fp, from_kw.len());
            let a2 = trim_chars(a.as_slice());
            ts_quoted_exec(a2.as_slice())
        },
        None => Some(None),
    };
    match first {
        None => None,
        Some(Some(m)) => Some(m),
        Some(None) => {
            let req = chars_of("require(");
            if contains_chars(t.as_slice(), req.as_slice()) {
                match find_chars(t.as_slice(), req.as_slice()) {
                    Some(sp) => {
                        proof {
                            lemma_find_bounds(t@, req@);
                        }
                        let a = after_keyword(t.as_slice(), sp, req.len());
                        match ts_quoted_exec(a.as_slice()) {
                            Some(x) => x,
                            None => None,
                        }
                    },
                    None => None,
                }
            } else {
                None
            }
        },
    }
}

fn rust_extract(line: &[char]) -> (r: Option<Vec<char>>)
    ensures
        opt_view(r) == rust_extract_module(line@),
{
    let t = trim_chars(line);
    let use_kw = chars_of("use ");
    match find_chars(t.as_slice(), use_kw.as_slice()) {
        Some(up) => {
            proof {
                lemma_find_bounds(t@, use_kw@);
            }
            let after = after_keyword(t.as_slice(), up, use_kw.len());
            let ends = chars_of(";{");
            let end = match find_any_chars(after.as_slice(), ends.as_slice()) {
                Some(e) => e,
                None => after.len(),
            };
            let head = slice_chars(after.as_slice(), 0, end);
            let as_kw = chars_of(" as ");
            let as_pos = match find_chars(head.as_slice(), as_kw.as_slice()) {
                Some(a) => {
                    proof {
                        lemma_find_bounds(head@, as_kw@);
                    }
                    a
                },
                None => end,
            };
            let cut = if as_pos < end {
                as_pos
            } else {
                end
            };
            let m0 = slice_chars(after.as_slice(), 0, cut);
            let m = trim_chars(m0.as_slice());
            if m.len() > 0 {
                Some(m)
            } else {
                None
            }
        },
        None => None,
    }
}

fn is_relative_exec(lang: SourceLanguage, m: &[char]) -> (r: bool)
    ensures
        r == module_is_relative(lang, m@),
{
    match lang {
        SourceLanguage::Python => m.len() > 0 && m[0] == '.',
        SourceLanguage::TypeScript => {
            let a = chars_of("./");
            let b = chars_of("../");
            starts_with_chars(m, a.as_slice()) || starts_with_chars(m, b.as_slice())
        },
        SourceLanguage::Rust => {
            let a = chars_of("self::");
            let b = chars_of("super::");
            let c = chars_of("crate::");
            starts_with_chars(m, a.as_slice()) || starts_with_chars(m, b.as_slice())
                || starts_with_chars(m, c.as_slice())
        },
    }
}

/// Whether a trimmed line is blank or a `//` or `/*` comment.
fn is_comment_or_blank(t: &[char]) -> (r: bool)
    ensures
        r == (starts_with(t@, "//"@) || starts_with(t@, "/*"@) || t@.len() == 0),
{
    let a = chars_of("//");
    let b = chars_of("/*");
    starts_with_chars(t, a.as_slice()) || starts_with_chars(t, b.as_slice()) || t.len() == 0
}

fn line_module_exec(lang: SourceLanguage, line: &[char]) -> (r: Option<Vec<char>>)
    ensures
        opt_view(r) == line_module(lang, line@),
{
    let t = trim_chars(line);
    if is_comment_or_blank(t.as_slice()) {
        return None;
    }
    match lang {
        SourceLanguage::Rust => {
            let use_kw = chars_of("use ");
            if starts_with_chars(t.as_slice(), use_kw.as_slice()) {
                rust_extract(line)
            } else {
                None
            }
        },
        _ => {
            let imp = chars_of("import ");
            let from_kw = chars_of(" from ");
            let req = chars_of("require(");
            if starts_with_chars(t.as_slice(), imp.as_slice()) || contains_chars(
                t.as_slice(),
                from_kw.as_slice(),
            ) || contains_chars(t.as_slice(), req.as_slice()) {
                ts_extract(line)
            } else {
                None
            }
        },
    }
}

/// Appends the import found on line `i`, if any.
fn push_import(
    out: &mut Vec<ImportStatement>,
    module: Option<Vec<char>>,
    lang: SourceLanguage,
    line: &Vec<char>,
    i: usize,
)
    requires
        i < usize::MAX,
    ensures
        imports_view(final(out)@) == imports_view(old(out)@) + import_here(
            opt_view(module),
            lang,
            line@,
            i as int,
        ),
{
    let ghost before = imports_view(out@);
    match module {
        Some(m) => {
            let rel = is_relative_exec(lang, m.as_slice());
            let st = ImportStatement {
                module: string_of(m.as_slice()),
                is_relative: rel,
                line: string_of(line.as_slice()),
                line_number: i + 1,
            };
            out.push(st);
            assert(imports_view(out@) =~= before + import_here(opt_view(Some(m)), lang, line@, i as int));
        },
        None => {
            assert(imports_view(out@) =~= before + Seq::<ImportSpec>::empty());
        },
    }
}

/// The byte width of the indentation of `line`.
fn indent_width(line: &[char]) -> (r: u128)
    ensures
        r == indent_of(line@),
{
    let mut a: usize = 0;
    while a < line.len() && is_whitespace(line[a])
        invariant
            a <= line.len(),
            skip_ws(line@, 0) == skip_ws(line@, a as int),
        decreases line.len() - a,
    {
        a = a + 1;
    }
    byte_len_prefix(line, a)
}

/// The view of the Python parsing state.
pub open spec fn state_view(o: Option<u128>) -> Option<nat> {
    match o {
        Some(b) => Some(b as nat),
        None => None,
    }
}

fn parse_python(source: &str) -> (r: Vec<ImportStatement>)
    ensures
        imports_view(r@) == python_imports(source@),
{
    let sc = chars_of(source);
    let ls = lines_of(sc.as_slice());
    let ghost lv = ls@.map_values(|l: Vec<char>| l@);
    let mut out: Vec<ImportStatement> = Vec::new();
    let mut state: Option<u128> = None;
    let mut i: usize = 0;
    assert(imports_view(out@) + py_scan(lv, 0, None) =~= py_scan(lv, 0, None));
    while i < ls.len()
        invariant
            i <= ls.len(),
            lv == ls@.map_values(|l: Vec<char>| l@),
            lv == lines(source@),
            imports_view(out@) + py_scan(lv, i as int, state_view(state)) == py_scan(lv, 0, None),
        decreases ls.len() - i,
    {
        let line = &ls[i];
        let t = trim_chars(line.as_slice());
        let ghost st0 = state_view(state);
        let mut module: Option<Vec<char>> = None;
        let hash = chars_of("#");
        let tc1 = chars_of("if TYPE_CHECKING:");
        let tc2 = chars_of("if typing.TYPE_CHECKING:");
        if starts_with_chars(t.as_slice(), hash.as_slice()) || t.len() == 0 {
        } else if chars_equal(t.as_slice(), tc1.as_slice()) || chars_equal(
            t.as_slice(),
            tc2.as_slice(),
        ) {
            state = Some(indent_width(line.as_slice()));
        } else {
            let skip = match state {
                Some(b) => indent_width(line.as_slice()) > b,
                None => false,
            };
            if !skip {
                state = None;
                let from_kw = chars_of("from ");
                let imp = chars_of("import ");
                if starts_with_chars(t.as_slice(), from_kw.as_slice()) || starts_with_chars(
                    t.as_slice(),
                    imp.as_slice(),
                ) {
                    module = py_extract(line.as_slice());
                }
            }
        }
        let ghost here = import_here(opt_view(module), SourceLanguage::Python, lv[i as int], i as int);
        assert(py_step(st0, lv[i as int]) == (state_view(state), opt_view(module)));
        assert(py_scan(lv, i as int, st0) == here + py_scan(lv, i + 1, state_view(state)));
        let ghost before = imports_view(out@);
        push_import(&mut out, module, SourceLanguage::Python, line, i);
        assert(imports_view(out@) + py_scan(lv, i + 1, state_view(state)) =~= before + (here
            + py_scan(lv, i + 1, state_view(state))));
        i = i + 1;
    }
    out
}

fn parse_lines(lang: SourceLanguage, source: &str) -> (r: Vec<ImportStatement>)
    ensures
        imports_view(r@) == line_scan(lang, lines(source@), 0),
{
    let sc = chars_of(source);
    let ls = lines_of(sc.as_slice());
    let ghost lv = ls@.map_values(|l: Vec<char>| l@);
    let mut out: Vec<ImportStatement> = Vec::new();
    let mut i: usize = 0;
    assert(imports_view(out@) + line_scan(lang, lv, 0) =~= line_scan(lang, lv, 0));
    while i < ls.len()
        invariant
            i <= ls.len(),
            lv == ls@.map_values(|l: Vec<char>| l@),
            lv == lines(source@),
            imports_view(out@) + line_scan(lang, lv, i as int) == line_scan(lang, lv, 0),
        decreases ls.len() - i,
    {
        let line = &ls[i];
        let module = line_module_exec(lang, line.as_slice());
        let ghost here = import_here(opt_view(module), lang, lv[i as int], i as int);
        assert(line_scan(lang, lv, i as int) == here + line_scan(lang, lv, i + 1));
        let ghost before = imports_view(out@);
        push_import(&mut out, module, lang, line, i);
        assert(imports_view(out@) + line_scan(lang, lv, i + 1) =~= before + (here + line_scan(
            lang,
            lv,
            i + 1,
        )));
        i = i + 1;
    }
    out
}

/// Parses the imports of source text in `lang`.
pub fn parse_in(lang: SourceLanguage, source: &str) -> (r: Vec<ImportStatement>)
    ensures
        imports_view(r@) == source_imports(lang, source@),
{
    match lang {
        SourceLanguage::Python => parse_python(source),
        _ => parse_lines(lang, source),
    }
}

// ============================================================================
// Parsers
// ============================================================================

/// An import parser for one language.
pub trait ImportParser {
    /// The language this parser reads.
    spec fn language(&self) -> SourceLanguage;

    /// Parse imports from source code.
    fn parse_source(&self, source: &str) -> (r: Vec<ImportStatement>)
        ensures
            imports_view(r@) == source_imports(self.language(), source@),
    ;
}

/// Python import parser.
pub struct PythonImportParser;

/// TypeScript (and JavaScript) import parser.
pub struct TypeScriptImportParser;

/// Rust import parser.
pub struct RustImportParser;

impl PythonImportParser {
    /// The parser (it holds no state).
    pub fn new() -> (r: Self)
        ensures
            r == PythonImportParser,
    {
        PythonImportParser
    }
}

impl TypeScriptImportParser {
    /// The parser (it holds no state).
    pub fn new() -> (r: Self)
        ensures
            r == TypeScriptImportParser,
    {
        TypeScriptImportParser
    }
}

impl RustImportParser {
    /// The parser (it holds no state).
    pub fn new() -> (r: Self)
        ensures
            r == RustImportParser,
    {
        RustImportParser
    }
}

impl ImportParser for PythonImportParser {
    open spec fn language(&self) -> SourceLanguage {
        SourceLanguage::Python
    }

    fn parse_source(&self, source: &str) -> (r: Vec<ImportStatement>) {
        parse_in(SourceLanguage::Python, source)
    }
}

impl ImportParser for TypeScriptImportParser {
    open spec fn language(&self) -> SourceLanguage {
        SourceLanguage::TypeScript
    }

    fn parse_source(&self, source: &str) -> (r: Vec<ImportStatement>) {
        parse_in(SourceLanguage::TypeScript, source)
    }
}

impl ImportParser for RustImportParser {
    open spec fn language(&self) -> SourceLanguage {
        SourceLanguage::Rust
    }

    fn parse_source(&self, source: &str) -> (r: Vec<ImportStatement>) {
        parse_in(SourceLanguage::Rust, source)
    }
}

/// The parser chosen for a file.
pub enum LanguageParser {
    Python(PythonImportParser),
    TypeScript(TypeScriptImportParser),
    Rust(RustImportParser),
}

impl ImportParser for LanguageParser {
    open spec fn language(&self) -> SourceLanguage {
        match self {
            LanguageParser::Python(_) => SourceLanguage::Python,
            LanguageParser::TypeScript(_) => SourceLanguage::TypeScript,
            LanguageParser::Rust(_) => SourceLanguage::Rust,
        }
    }

    fn parse_source(&self, source: &str) -> (r: Vec<ImportStatement>) {
        match self {
            LanguageParser::Python(p) => p.parse_source(source),
            LanguageParser::TypeScript(p) => p.parse_source(source),
            LanguageParser::Rust(p) => p.parse_source(source),
        }
    }
}

/// The language of a file, by its extension.
pub fn language_of_path(path: &str) -> (r: Option<SourceLanguage>)
    ensures
        r == language_of(path@),
{
    match extension_str(path) {
        Some(e) => {
            let es = e.as_str();
            if str_eq(es, "py") {
                Some(SourceLanguage::Python)
            } else if str_eq(es, "ts") || str_eq(es, "tsx") || str_eq(es, "js") || str_eq(
                es,
                "jsx",
            ) {
                Some(SourceLanguage::TypeScript)
            } else if str_eq(es, "rs") {
                Some(SourceLanguage::Rust)
            } else {
                None
            }
        },
        None => None,
    }
}

/// Get the parser for a file, by its extension: `.py`; `.ts`, `.tsx`, `.js`
/// and `.jsx`; `.rs`.
pub fn get_parser(path: &str) -> (r: Option<LanguageParser>)
    ensures
        match language_of(path@) {
            Some(l) => r matches Some(p) && p.language() == l,
            None => r is None,
        },
{
    match language_of_path(path) {
        Some(SourceLanguage::Python) => Some(LanguageParser::Python(PythonImportParser::new())),
        Some(SourceLanguage::TypeScript) => Some(
            LanguageParser::TypeScript(TypeScriptImportParser::new()),
        ),
        Some(SourceLanguage::Rust) => Some(LanguageParser::Rust(RustImportParser::new())),
        None => None,
    }
}

/// All imports of the file at `path` whose text is `source`; none when no
/// parser reads that kind of file.
pub fn parse_imports(path: &str, source: &str) -> (r: Vec<ImportStatement>)
    ensures
        match language_of(path@) {
            Some(l) => imports_view(r@) == source_imports(l, source@),
            None => r@.len() == 0,
        },
{
    match get_parser(path) {
        Some(p) => p.parse_source(source),
        None => Vec::new(),
    }
}

// ============================================================================
// Resolving imports and layers
// ============================================================================

/// Number of copies of `c` that `s` starts with.
pub open spec fn leading_count(s: Seq<char>, c: char) -> nat
    decreases s.len(),
{
    if s.len() > 0 && s[0] == c {
        1 + leading_count(s.subrange(1, s.len() as int), c)
    } else {
        0
    }
}

/// `p` after `k` steps up to its parent, if each step has one.
pub open spec fn ascend(p: Seq<char>, k: nat) -> Option<Seq<char>>
    decreases k,
{
    if k == 0 {
        Some(p)
    } else {
        match path_parent(p) {
            Some(q) => ascend(q, (k - 1) as nat),
            None => None,
        }
    }
}

/// `s` with every `a` replaced by `b`.
pub open spec fn replace_char(s: Seq<char>, a: char, b: char) -> Seq<char> {
    s.map_values(|x: char| if x == a { b } else { x })
}

/// `s` with every `::` replaced by `/`, left to right.
pub open spec fn replace_double_colon(s: Seq<char>) -> Seq<char>
    decreases s.len(),
{
    if s.len() == 0 {
        s
    } else if s.len() >= 2 && s[0] == ':' && s[1] == ':' {
        seq!['/'] + replace_double_colon(s.subrange(2, s.len() as int))
    } else {
        seq![s[0]] + replace_double_colon(s.subrange(1, s.len() as int))
    }
}

/// `d` after the leading `./` and `../` steps of the relative path `m`,
/// with the rest of `m` appended: `./` stays, `../` goes up one directory.
pub open spec fn walk_steps(d: Seq<char>, m: Seq<char>) -> Option<Seq<char>>
    decreases m.len(),
{
    if m.len() >= 2 && m[0] == '.' && m[1] == '/' {
        walk_steps(d, m.subrange(2, m.len() as int))
    } else if m.len() >= 3 && m[0] == '.' && m[1] == '.' && m[2] == '/' {
        match path_parent(d) {
            Some(q) => walk_steps(q, m.subrange(3, m.len() as int)),
            None => None,
        }
    } else if m.len() == 0 {
        Some(d)
    } else {
        Some(push_path(d, m))
    }
}

/// A relative module written as a path (`./x`, `../x`): its leading dots
/// are followed by a `/`.
pub open spec fn is_path_module(module: Seq<char>) -> bool {
    let n = leading_count(module, '.');
    n < module.len() && module[n as int] == '/'
}

/// Where an import of `module` from `file` leads. A relative import starts
/// from the file's directory: a path-style module (`./x`, `../x`) walks its
/// `./` and `../` steps and appends the rest; a Python-style module goes up
/// one directory for each leading dot past the first, its other dots
/// becoming separators. An absolute one starts from `root`, dots and `::`
/// becoming separators.
pub open spec fn resolved_import(
    file: Seq<char>,
    module: Seq<char>,
    is_relative: bool,
    root: Seq<char>,
) -> Option<Seq<char>> {
    if is_relative {
        match path_parent(file) {
            None => None,
            Some(dir) => if module.len() > 0 && module[0] == '.' && is_path_module(module) {
                walk_steps(dir, module)
            } else if module.len() > 0 && module[0] == '.' {
                let n = leading_count(module, '.');
                match ascend(dir, (n - 1) as nat) {
                    None => None,
                    Some(d) => {
                        let rest = module.subrange(n as int, module.len() as int);
                        if rest.len() > 0 {
                            Some(push_path(d, replace_char(rest, '.', '/')))
                        } else {
                            Some(d)
                        }
                    },
                }
            } else {
                Some(push_path(dir, module))
            },
        }
    } else {
        Some(push_path(root, replace_double_colon(replace_char(module, '.', '/'))))
    }
}

proof fn lemma_leading_count_bound(s: Seq<char>, c: char)
    ensures
        leading_count(s, c) <= s.len(),
        forall|j: int| 0 <= j < leading_count(s, c) ==> s[j] == c,
        leading_count(s, c) < s.len() ==> s[leading_count(s, c) as int] != c,
    decreases s.len(),
{
    if s.len() > 0 && s[0] == c {
        let t = s.subrange(1, s.len() as int);
        lemma_leading_count_bound(t, c);
        assert forall|j: int| 0 <= j < leading_count(s, c) implies s[j] == c by {
            if j > 0 {
                assert(s[j] == t[j - 1]);
            }
        }
    }
}

proof fn lemma_leading_count_exact(s: Seq<char>, c: char, n: int)
    requires
        0 <= n <= s.len(),
        forall|j: int| 0 <= j < n ==> s[j] == c,
        n < s.len() ==> s[n] != c,
    ensures
        leading_count(s, c) == n,
    decreases n,
{
    if n > 0 {
        let t = s.subrange(1, s.len() as int);
        assert forall|j: int| 0 <= j < n - 1 implies t[j] == c by {
            assert(t[j] == s[j + 1]);
        }
        if n - 1 < t.len() {
            assert(t[n - 1] == s[n]);
        }
        lemma_leading_count_exact(t, c, n - 1);
    }
}

pub fn replace_char_exec(s: &[char], a: char, b: char) -> (r: Vec<char>)
    ensures
        r@ == replace_char(s@, a, b),
{
    let mut out: Vec<char> = Vec::new();
    let mut i: usize = 0;
    while i < s.len()
        invariant
            i <= s.len(),
            out@ == replace_char(s@.subrange(0, i as int), a, b),
        decreases s.len() - i,
    {
        let c = if s[i] == a {
            b
        } else {
            s[i]
        };
        out.push(c);
        assert(replace_char(s@.subrange(0, i + 1), a, b) =~= replace_char(
            s@.subrange(0, i as int),
            a,
            b,
        ).push(c));
        i = i + 1;
    }
    assert(s@.subrange(0, s@.len() as int) =~= s@);
    out
}

pub fn replace_double_colon_exec(s: &[char]) -> (r: Vec<char>)
    ensures
        r@ == replace_double_colon(s@),
{
    let mut out: Vec<char> = Vec::new();
    let mut i: usize = 0;
    assert(s@.subrange(0, s@.len() as int) =~= s@);
    while i < s.len()
        invariant
            i <= s.len(),
            out@ + replace_double_colon(s@.subrange(i as int, s@.len() as int))
                == replace_double_colon(s@),
        decreases s.len() - i,
    {
        let ghost t = s@.subrange(i as int, s@.len() as int);
        let ghost before = out@;
        if i + 1 < s.len() && s[i] == ':' && s[i + 1] == ':' {
            out.push('/');
            assert(t.subrange(2, t.len() as int) =~= s@.subrange(i + 2, s@.len() as int));
            assert(out@ + replace_double_colon(s@.subrange(i + 2, s@.len() as int)) =~= before + (
            seq!['/'] + replace_double_colon(t.subrange(2, t.len() as int))));
            i = i + 2;
        } else {
            out.push(s[i]);
            assert(t.subrange(1, t.len() as int) =~= s@.subrange(i + 1, s@.len() as int));
            assert(out@ + replace_double_colon(s@.subrange(i + 1, s@.len() as int)) =~= before + (
            seq![t[0]] + replace_double_colon(t.subrange(1, t.len() as int))));
            i = i + 1;
        }
    }
    assert(out@ + replace_double_colon(s@.subrange(i as int, s@.len() as int)) =~= out@);
    out
}

/// `walk_steps(d, m[i..])`.
fn walk_steps_exec(d: String, m: &[char], i: usize) -> (r: Option<String>)
    requires
        i <= m.len(),
    ensures
        r matches Some(p) ==> walk_steps(d@, m@.subrange(i as int, m@.len() as int)) == Some(p@),
        r is None ==> walk_steps(d@, m@.subrange(i as int, m@.len() as int)) is None,
    decreases m.len() - i,
{
    let ghost t = m@.subrange(i as int, m@.len() as int);
    if m.len() - i >= 2 && m[i] == '.' && m[i + 1] == '/' {
        assert(t.subrange(2, t.len() as int) =~= m@.subrange(i + 2, m@.len() as int));
        walk_steps_exec(d, m, i + 2)
    } else if m.len() - i >= 3 && m[i] == '.' && m[i + 1] == '.' && m[i + 2] == '/' {
        assert(t.subrange(3, t.len() as int) =~= m@.subrange(i + 3, m@.len() as int));
        match path_parent_str(d.as_str()) {
            Some(q) => walk_steps_exec(q, m, i + 3),
            None => None,
        }
    } else if i == m.len() {
        Some(d)
    } else {
        let rest = slice_chars(m, i, m.len());
        let rs = string_of(rest.as_slice());
        Some(push_path_str(d.as_str(), rs.as_str()))
    }
}

/// Resolve import path relative to file location (see `resolved_import`).
pub fn resolve_import_path(file_path: &str, import: &ImportStatement, context_root: &str) -> (r:
    Option<String>)
    ensures
        r matches Some(p) ==> resolved_import(file_path@, import.module@, import.is_relative, context_root@) == Some(p@),
        r is None ==> resolved_import(file_path@, import.module@, import.is_relative, context_root@) is None,
{
    let mc = chars_of(import.module.as_str());
    if import.is_relative {
        let dir = match path_parent_str(file_path) {
            Some(d) => d,
            None => return None,
        };
        if mc.len() > 0 && mc[0] == '.' {
            let mut n: usize = 0;
            while n < mc.len() && mc[n] == '.'
                invariant
                    n <= mc.len(),
                    forall|j: int| 0 <= j < n ==> mc@[j] == '.',
                decreases mc.len() - n,
            {
                n = n + 1;
            }
            proof {
                lemma_leading_count_exact(mc@, '.', n as int);
            }
            if n < mc.len() && mc[n] == '/' {
                assert(mc@.subrange(0, mc@.len() as int) =~= mc@);
                return walk_steps_exec(dir, mc.as_slice(), 0);
            }
            assert(!is_path_module(mc@));
        }
        if mc.len() > 0 && mc[0] == '.' {
            let mut n: usize = 0;
            while n < mc.len() && mc[n] == '.'
                invariant
                    n <= mc.len(),
                    forall|j: int| 0 <= j < n ==> mc@[j] == '.',
                decreases mc.len() - n,
            {
                n = n + 1;
            }
            proof {
                lemma_leading_count_exact(mc@, '.', n as int);
            }
            let ghost dv = dir@;
            let mut d = dir;
            let mut k: usize = 1;
            while k < n
                invariant
                    1 <= k <= n,
                    ascend(dv, (n - 1) as nat) == ascend(d@, (n - k) as nat),
                    path_parent(file_path@) == Some(dv),
                    import.is_relative,
                    mc@ == import.module@,
                    mc@.len() > 0 && mc@[0] == '.',
                    leading_count(mc@, '.') == n,
                    !is_path_module(mc@),
                decreases n - k,
            {
                match path_parent_str(d.as_str()) {
                    Some(q) => {
                        d = q;
                    },
                    None => {
                        assert(ascend(d@, (n - k) as nat) is None);
                        return None;
                    },
                }
                k = k + 1;
            }
            let rest = slice_chars(mc.as_slice(), n, mc.len());
            if rest.len() > 0 {
                let rep = replace_char_exec(rest.as_slice(), '.', '/');
                let rs = string_of(rep.as_slice());
                Some(push_path_str(d.as_str(), rs.as_str()))
            } else {
                Some(d)
            }
        } else {
            Some(push_path_str(dir.as_str(), import.module.as_str()))
        }
    } else {
        let dots = replace_char_exec(mc.as_slice(), '.', '/');
        let cols = replace_double_colon_exec(dots.as_slice());
        let ms = string_of(cols.as_slice());
        Some(push_path_str(context_root, ms.as_str()))
    }
}

/// The architectural layer a file belongs to.
#[derive(Debug, Clone, Copy, PartialEq, Eq, Structural)]
pub enum ArchitectureLayer {
    Domain,
    Events,
    Ports,
    Application,
    Infrastructure,
    Slices,
    Unknown,
}

/// The components of `path` below `root`, when `path` lies under `root`
/// (`Path::strip_prefix`).
pub open spec fn relative_components(path: Seq<char>, root: Seq<char>) -> Option<Seq<Seq<char>>> {
    let pc = components_of(path);
    let rc = components_of(root);
    if is_absolute_path(path) == is_absolute_path(root) && rc.len() <= pc.len() && pc.subrange(
        0,
        rc.len() as int,
    ) == rc {
        Some(pc.subrange(rc.len() as int, pc.len() as int))
    } else {
        None
    }
}

/// The layer a top-level directory of a context names.
pub open spec fn layer_named(name: Seq<char>) -> ArchitectureLayer {
    if name == "domain"@ {
        ArchitectureLayer::Domain
    } else if name == "events"@ {
        ArchitectureLayer::Events
    } else if name == "ports"@ {
        ArchitectureLayer::Ports
    } else if name == "application"@ {
        ArchitectureLayer::Application
    } else if name == "infrastructure"@ {
        ArchitectureLayer::Infrastructure
    } else if name == "slices"@ {
        ArchitectureLayer::Slices
    } else {
        ArchitectureLayer::Unknown
    }
}

/// The layer of a file: named by its first component below the context
/// root.
pub open spec fn layer_of(path: Seq<char>, root: Seq<char>) -> ArchitectureLayer {
    match relative_components(path, root) {
        Some(rel) => if rel.len() == 0 {
            ArchitectureLayer::Unknown
        } else {
            layer_named(rel[0])
        },
        None => ArchitectureLayer::Unknown,
    }
}

fn layer_named_exec(name: &str) -> (r: ArchitectureLayer)
    ensures
        r == layer_named(name@),
{
    if str_eq(name, "domain") {
        ArchitectureLayer::Domain
    } else if str_eq(name, "events") {
        ArchitectureLayer::Events
    } else if str_eq(name, "ports") {
        ArchitectureLayer::Ports
    } else if str_eq(name, "application") {
        ArchitectureLayer::Application
    } else if str_eq(name, "infrastructure") {
        ArchitectureLayer::Infrastructure
    } else if str_eq(name, "slices") {
        ArchitectureLayer::Slices
    } else {
        ArchitectureLayer::Unknown
    }
}

/// Whether `path` is absolute.
pub fn is_absolute_str(path: &str) -> (r: bool)
    ensures
        r == is_absolute_path(path@),
{
    let pc = chars_of(path);
    pc.len() > 0 && pc[0] == '/'
}

/// Detect the architecture layer of a file from its path.
pub fn detect_layer(path: &str, context_root: &str) -> (r: ArchitectureLayer)
    ensures
        r == layer_of(path@, context_root@),
{
    let pc = components_str(path);
    let rc = components_str(context_root);
    let ghost pv = pc@.map_values(|s: String| s@);
    let ghost rv = rc@.map_values(|s: String| s@);
    if is_absolute_str(path) != is_absolute_str(context_root) || rc.len() > pc.len() {
        return ArchitectureLayer::Unknown;
    }
    let mut i: usize = 0;
    while i < rc.len()
        invariant
            i <= rc.len() <= pc.len(),
            pv == pc@.map_values(|s: String| s@),
            rv == rc@.map_values(|s: String| s@),
            pv == components_of(path@),
            rv == components_of(context_root@),
            forall|j: int| 0 <= j < i ==> pv[j] == rv[j],
        decreases rc.len() - i,
    {
        if !str_eq(pc[i].as_str(), rc[i].as_str()) {
            assert(pv.subrange(0, rv.len() as int)[i as int] != rv[i as int]);
            return ArchitectureLayer::Unknown;
        }
        i = i + 1;
    }
    assert(pv.subrange(0, rv.len() as int) =~= rv);
    if pc.len() == rc.len() {
        return ArchitectureLayer::Unknown;
    }
    assert(pv.subrange(rv.len() as int, pv.len() as int)[0] == pv[rv.len() as int]);
    layer_named_exec(pc[rc.len()].as_str())
}

} // verus!
