//! Paths as `/`-separated character sequences: the last component, the
//! parent, the stem and the extension of a file name, and the components.

use vstd::prelude::*;
use crate::text::{
    chars_equal, chars_of, lemma_rfind_from_bounds, owned, rfind, rfind_chars, slice_chars,
    split_chars, split_on, string_of,
};

verus! {

/// Everything after the last `/` (the whole path when there is none).
pub open spec fn last_component(p: Seq<char>) -> Seq<char> {
    match rfind(p, seq!['/']) {
        Some(k) => p.subrange(k + 1, p.len() as int),
        None => p,
    }
}

/// Everything before the last `/`, or `None` when there is no `/`.
pub open spec fn parent_of(p: Seq<char>) -> Option<Seq<char>> {
    match rfind(p, seq!['/']) {
        Some(k) => Some(p.subrange(0, k)),
        None => None,
    }
}

/// The file name of a path (`Path::file_name`): the last component when it
/// is neither empty nor `..`.
pub open spec fn file_name_of(p: Seq<char>) -> Option<Seq<char>> {
    let n = last_component(p);
    if n.len() == 0 || n == seq!['.', '.'] {
        None
    } else {
        Some(n)
    }
}

/// Position of the dot that starts the extension of a file name, if any:
/// the last `.` when it is not the first character.
pub open spec fn ext_dot(name: Seq<char>) -> Option<int> {
    match rfind(name, seq!['.']) {
        Some(k) => if k > 0 {
            Some(k)
        } else {
            None
        },
        None => None,
    }
}

/// Stem of a file name (`Path::file_stem` on the name).
pub open spec fn stem_of_name(name: Seq<char>) -> Seq<char> {
    match ext_dot(name) {
        Some(k) => name.subrange(0, k),
        None => name,
    }
}

/// Extension of a file name (`Path::extension` on the name).
pub open spec fn extension_of_name(name: Seq<char>) -> Option<Seq<char>> {
    match ext_dot(name) {
        Some(k) => Some(name.subrange(k + 1, name.len() as int)),
        None => None,
    }
}

/// Stem of the file a path names, `""` when it names none.
pub open spec fn file_stem_of(p: Seq<char>) -> Seq<char> {
    match file_name_of(p) {
        Some(n) => stem_of_name(n),
        None => Seq::empty(),
    }
}

/// Extension of the file a path names.
pub open spec fn extension_of(p: Seq<char>) -> Option<Seq<char>> {
    match file_name_of(p) {
        Some(n) => extension_of_name(n),
        None => None,
    }
}

/// Whether a piece of a path names a component: neither empty nor `.`.
pub open spec fn is_component(c: Seq<char>) -> bool {
    c.len() > 0 && c != seq!['.']
}

/// The components of a path: its `/`-separated pieces, without empty ones
/// and `.` (repeated and trailing separators, and `.`, name nothing).
pub open spec fn components_of(p: Seq<char>) -> Seq<Seq<char>> {
    split_on(p, '/').filter(|c: Seq<char>| is_component(c))
}

/// Whether a path is absolute: it starts at the root `/`.
pub open spec fn is_absolute_path(p: Seq<char>) -> bool {
    p.len() > 0 && p[0] == '/'
}

/// `s` without the `/` characters at its end.
pub open spec fn strip_trailing_slashes(s: Seq<char>) -> Seq<char>
    decreases s.len(),
{
    if s.len() > 0 && s.last() == '/' {
        strip_trailing_slashes(s.drop_last())
    } else {
        s
    }
}

/// The directory a path lies in (`Path::parent`): `None` for the empty
/// path and the root, `""` for a single relative component, `/` for a
/// component right under the root.
pub open spec fn path_parent(p: Seq<char>) -> Option<Seq<char>> {
    let q = strip_trailing_slashes(p);
    if q.len() == 0 {
        None
    } else {
        match rfind(q, seq!['/']) {
            Some(k) => {
                let d = strip_trailing_slashes(q.subrange(0, k));
                if d.len() == 0 {
                    Some(seq!['/'])
                } else {
                    Some(d)
                }
            },
            None => Some(Seq::empty()),
        }
    }
}

/// `b` appended to `a` as `PathBuf::push` does: an absolute `b` replaces
/// `a`; otherwise a `/` goes between them unless `a` is empty or ends in
/// one.
pub open spec fn push_path(a: Seq<char>, b: Seq<char>) -> Seq<char> {
    if is_absolute_path(b) || a.len() == 0 {
        b
    } else if a.last() == '/' {
        a + b
    } else {
        a + seq!['/'] + b
    }
}

/// `a/b`, or `b` when `a` is empty.
pub open spec fn join_path(a: Seq<char>, b: Seq<char>) -> Seq<char> {
    if a.len() == 0 {
        b
    } else {
        a + seq!['/'] + b
    }
}

// ============================================================================
// Executable functions
// ============================================================================

fn last_slash(p: &[char]) -> (r: Option<usize>)
    ensures
        r matches Some(k) ==> (rfind(p@, seq!['/']) == Some(k as int) && k < p@.len()),
        r is None ==> rfind(p@, seq!['/']) is None,
{
    let slash = ['/'];
    assert(slash@ =~= seq!['/']);
    let r = rfind_chars(p, &slash);
    proof {
        if let Some(k) = r {
            lemma_rfind_from_bounds(p@, seq!['/'], p@.len() - 1);
        }
    }
    r
}

/// The last component of `p`.
pub fn last_component_str(p: &str) -> (r: String)
    ensures
        r@ == last_component(p@),
{
    let pc = chars_of(p);
    let r = last_slash(pc.as_slice());
    match r {
        Some(k) => {
            let n = pc.len();
            let v = slice_chars(pc.as_slice(), k + 1, n);
            string_of(v.as_slice())
        },
        None => owned(p),
    }
}

/// The parent of `p`, if `p` has a `/`.
pub fn parent_str(p: &str) -> (r: Option<String>)
    ensures
        r matches Some(s) ==> parent_of(p@) == Some(s@),
        r is None ==> parent_of(p@) is None,
{
    let pc = chars_of(p);
    match last_slash(pc.as_slice()) {
        Some(k) => {
            let v = slice_chars(pc.as_slice(), 0, k);
            Some(string_of(v.as_slice()))
        },
        None => None,
    }
}

/// The file name of `p` (`Path::file_name`).
pub fn file_name_str(p: &str) -> (r: Option<String>)
    ensures
        r matches Some(s) ==> file_name_of(p@) == Some(s@),
        r is None ==> file_name_of(p@) is None,
{
    let n = last_component_str(p);
    let nc = chars_of(n.as_str());
    let dd = ['.', '.'];
    assert(dd@ =~= seq!['.', '.']);
    if nc.len() == 0 || chars_equal(nc.as_slice(), &dd) {
        None
    } else {
        Some(n)
    }
}

fn ext_dot_exec(name: &[char]) -> (r: Option<usize>)
    ensures
        r matches Some(k) ==> (ext_dot(name@) == Some(k as int) && 0 < k < name@.len()),
        r is None ==> ext_dot(name@) is None,
{
    let dot = ['.'];
    assert(dot@ =~= seq!['.']);
    let r = rfind_chars(name, &dot);
    proof {
        if let Some(k) = r {
            lemma_rfind_from_bounds(name@, seq!['.'], name@.len() - 1);
        }
    }
    match r {
        Some(k) => if k > 0 {
            Some(k)
        } else {
            None
        },
        None => None,
    }
}

/// The stem of the file `p` names (`Path::file_stem`), `""` when none.
pub fn file_stem_str(p: &str) -> (r: String)
    ensures
        r@ == file_stem_of(p@),
{
    match file_name_str(p) {
        Some(n) => {
            let nc = chars_of(n.as_str());
            match ext_dot_exec(nc.as_slice()) {
                Some(k) => {
                    let v = slice_chars(nc.as_slice(), 0, k);
                    string_of(v.as_slice())
                },
                None => n,
            }
        },
        None => String::new(),
    }
}

/// The extension of the file `p` names (`Path::extension`).
pub fn extension_str(p: &str) -> (r: Option<String>)
    ensures
        r matches Some(s) ==> extension_of(p@) == Some(s@),
        r is None ==> extension_of(p@) is None,
{
    match file_name_str(p) {
        Some(n) => {
            let nc = chars_of(n.as_str());
            match ext_dot_exec(nc.as_slice()) {
                Some(k) => {
                    let n = nc.len();
                    let v = slice_chars(nc.as_slice(), k + 1, n);
                    Some(string_of(v.as_slice()))
                },
                None => None,
            }
        },
        None => None,
    }
}

/// `a/b`, or `b` when `a` is empty.
pub fn join_str(a: &str, b: &str) -> (r: String)
    ensures
        r@ == join_path(a@, b@),
{
    let mut r = String::from_str(a);
    if a.unicode_len() == 0 {
        return String::from_str(b);
    }
    r.append("/");
    proof {
        reveal_strlit("/");
    }
    r.append(b);
    r
}

/// The non-empty components of `p`.
pub fn components_str(p: &str) -> (r: Vec<String>)
    ensures
        r@.map_values(|s: String| s@) == components_of(p@),
{
    let pc = chars_of(p);
    let parts = split_chars(pc.as_slice(), '/');
    let ghost all = parts@.map_values(|x: Vec<char>| x@);
    let mut out: Vec<String> = Vec::new();
    let mut i: usize = 0;
    while i < parts.len()
        invariant
            i <= parts.len(),
            all == parts@.map_values(|x: Vec<char>| x@),
            out@.map_values(|s: String| s@) == all.subrange(0, i as int).filter(
                |c: Seq<char>| is_component(c),
            ),
        decreases parts.len() - i,
    {
        let ghost before = out@.map_values(|s: String| s@);
        proof {
            reveal_with_fuel(Seq::<_>::filter, 1);
            assert(all.subrange(0, i + 1).drop_last() =~= all.subrange(0, i as int));
        }
        let dot = ['.'];
        assert(dot@ =~= seq!['.']);
        if parts[i].len() > 0 && !chars_equal(parts[i].as_slice(), &dot) {
            out.push(string_of(parts[i].as_slice()));
            assert(out@.map_values(|s: String| s@) =~= before.push(all[i as int]));
        }
        i = i + 1;
    }
    assert(all.subrange(0, parts@.len() as int) =~= all);
    out
}

fn strip_trailing_slashes_exec(s: &[char], n: usize) -> (r: usize)
    requires
        n <= s.len(),
    ensures
        r <= n,
        strip_trailing_slashes(s@.subrange(0, n as int)) == s@.subrange(0, r as int),
{
    let mut e = n;
    while e > 0 && s[e - 1] == '/'
        invariant
            e <= n <= s.len(),
            strip_trailing_slashes(s@.subrange(0, n as int)) == strip_trailing_slashes(
                s@.subrange(0, e as int),
            ),
        decreases e,
    {
        assert(s@.subrange(0, e as int).drop_last() =~= s@.subrange(0, e - 1));
        e = e - 1;
    }
    e
}

/// The directory `p` lies in (`Path::parent`).
pub fn path_parent_str(p: &str) -> (r: Option<String>)
    ensures
        r matches Some(d) ==> path_parent(p@) == Some(d@),
        r is None ==> path_parent(p@) is None,
{
    let pc = chars_of(p);
    let n = strip_trailing_slashes_exec(pc.as_slice(), pc.len());
    assert(pc@.subrange(0, pc@.len() as int) =~= pc@);
    if n == 0 {
        return None;
    }
    let q = slice_chars(pc.as_slice(), 0, n);
    match last_slash(q.as_slice()) {
        Some(k) => {
            let d = strip_trailing_slashes_exec(q.as_slice(), k);
            if d == 0 {
                let root = ['/'];
                assert(root@ =~= seq!['/']);
                Some(string_of(&root))
            } else {
                let v = slice_chars(q.as_slice(), 0, d);
                Some(string_of(v.as_slice()))
            }
        },
        None => Some(String::new()),
    }
}

/// `b` appended to `a` as a path (`PathBuf::push`).
pub fn push_path_str(a: &str, b: &str) -> (r: String)
    ensures
        r@ == push_path(a@, b@),
{
    let ac = chars_of(a);
    let bc = chars_of(b);
    if (bc.len() > 0 && bc[0] == '/') || ac.len() == 0 {
        return string_of(bc.as_slice());
    }
    let mut out = ac.clone();
    if ac[ac.len() - 1] != '/' {
        out.push('/');
    }
    let mut i: usize = 0;
    let ghost base = out@;
    while i < bc.len()
        invariant
            i <= bc.len(),
            out@ == base + bc@.subrange(0, i as int),
        decreases bc.len() - i,
    {
        out.push(bc[i]);
        i = i + 1;
    }
    assert(bc@.subrange(0, bc@.len() as int) =~= bc@);
    string_of(out.as_slice())
}

} // verus!
