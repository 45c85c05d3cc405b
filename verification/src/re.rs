//! Regular expressions, matched by the `regex` crate.

use vstd::prelude::*;

verus! {

/// Whether the regular expression `pattern` matches somewhere in `text`;
/// `None` when `pattern` does not compile.
pub uninterp spec fn regex_matches(pattern: Seq<char>, text: Seq<char>) -> Option<bool>;

/// For each successive non-overlapping match of `pattern` in `text`, the
/// text of its capture group 1 and of its capture group 2, each `None` when
/// the group takes no part in the match (or the pattern has no such group);
/// `None` when `pattern` does not compile.
pub uninterp spec fn regex_groups_12(pattern: Seq<char>, text: Seq<char>) -> Option<
    Seq<(Option<Seq<char>>, Option<Seq<char>>)>,
>;

/// Compiles `pattern` with `regex::Regex::new` and tests it against `text`
/// with `Regex::is_match`. The result is named, not stated: it is
/// `regex_matches(pattern, text)`.
#[verifier::external_body]
pub(crate) fn regex_is_match(pattern: &str, text: &str) -> (r: Option<bool>)
    ensures
        r == regex_matches(pattern@, text@),
{
    match regex::Regex::new(pattern) {
        Ok(re) => Some(re.is_match(text)),
        Err(_) => None,
    }
}

/// The view of an optional string.
pub open spec fn opt_view(o: Option<String>) -> Option<Seq<char>> {
    match o {
        Some(s) => Some(s@),
        None => None,
    }
}

/// The views of the group texts of each match.
pub open spec fn groups_view(v: Seq<(Option<String>, Option<String>)>) -> Seq<
    (Option<Seq<char>>, Option<Seq<char>>),
> {
    v.map_values(|g: (Option<String>, Option<String>)| (opt_view(g.0), opt_view(g.1)))
}

/// Compiles `pattern` with `regex::Regex::new` and, over
/// `Regex::captures_iter` on `text`, takes from each match the text of
/// capture groups 1 and 2 (`Captures::get`). The result is named, not
/// stated: it is `regex_groups_12(pattern, text)`.
#[verifier::external_body]
pub(crate) fn regex_captures_groups(pattern: &str, text: &str) -> (r: Option<
    Vec<(Option<String>, Option<String>)>,
>)
    ensures
        match r {
            Some(v) => regex_groups_12(pattern@, text@) == Some(groups_view(v@)),
            None => regex_groups_12(pattern@, text@) is None,
        },
{
    match regex::Regex::new(pattern) {
        Ok(re) => Some(
            re.captures_iter(text).map(
                |c| (c.get(1).map(|m| m.as_str().to_string()), c.get(2).map(|m| m.as_str().to_string())),
            ).collect(),
        ),
        Err(_) => None,
    }
}

/// The first match of `pattern` in `text`: `None` when `pattern` does not
/// compile, `Some(None)` when nothing matches, otherwise `Some(Some(g))`
/// with `g` the text of capture group 1 of that match (`None` when the
/// group takes no part in it).
pub uninterp spec fn regex_first_match_group1(pattern: Seq<char>, text: Seq<char>) -> Option<
    Option<Option<Seq<char>>>,
>;

/// Compiles `pattern` with `regex::Regex::new` and takes, from
/// `Regex::captures` on `text`, the text of capture group 1 of the first
/// match (`Captures::get`). The result is named, not stated: it is
/// `regex_first_match_group1(pattern, text)`.
#[verifier::external_body]
pub(crate) fn regex_captures_first_group1(pattern: &str, text: &str) -> (r: Option<
    Option<Option<String>>,
>)
    ensures
        match r {
            Some(Some(g)) => regex_first_match_group1(pattern@, text@) == Some(Some(opt_view(g))),
            Some(None) => regex_first_match_group1(pattern@, text@) == Some(None::<Option<Seq<char>>>),
            None => regex_first_match_group1(pattern@, text@) is None,
        },
{
    match regex::Regex::new(pattern) {
        Ok(re) => Some(re.captures(text).map(|c| c.get(1).map(|m| m.as_str().to_string()))),
        Err(_) => None,
    }
}

/// The group-1 texts of the matches `g`, leaving out the matches where
/// group 1 takes no part.
pub open spec fn firsts(g: Seq<(Option<Seq<char>>, Option<Seq<char>>)>) -> Seq<Seq<char>>
    decreases g.len(),
{
    if g.len() == 0 {
        Seq::empty()
    } else {
        firsts(g.drop_last()) + match g.last().0 {
            Some(x) => seq![x],
            None => Seq::empty(),
        }
    }
}

/// The group-1 text, or else the group-2 text, of each of the matches `g`,
/// leaving out the matches where neither takes part.
pub open spec fn firsts_or_seconds(g: Seq<(Option<Seq<char>>, Option<Seq<char>>)>) -> Seq<Seq<char>>
    decreases g.len(),
{
    if g.len() == 0 {
        Seq::empty()
    } else {
        firsts_or_seconds(g.drop_last()) + match g.last().0 {
            Some(x) => seq![x],
            None => match g.last().1 {
                Some(y) => seq![y],
                None => Seq::empty(),
            },
        }
    }
}

/// The capture-group-1 texts of the matches of `pattern` in `text`, none
/// when the pattern does not compile.
pub open spec fn group1(pattern: Seq<char>, text: Seq<char>) -> Seq<Seq<char>> {
    match regex_groups_12(pattern, text) {
        Some(g) => firsts(g),
        None => Seq::empty(),
    }
}

/// The capture-group-1 (or else group-2) texts of the matches of `pattern`
/// in `text`, none when the pattern does not compile.
pub open spec fn group1_or_2(pattern: Seq<char>, text: Seq<char>) -> Seq<Seq<char>> {
    match regex_groups_12(pattern, text) {
        Some(g) => firsts_or_seconds(g),
        None => Seq::empty(),
    }
}

/// The group texts chosen from the matches `v`: group 1, or else, when
/// `or_second`, group 2.
fn pick_groups(v: &Vec<(Option<String>, Option<String>)>, or_second: bool) -> (r: Vec<String>)
    ensures
        !or_second ==> r@.map_values(|s: String| s@) == firsts(groups_view(v@)),
        or_second ==> r@.map_values(|s: String| s@) == firsts_or_seconds(groups_view(v@)),
{
    let ghost gv = groups_view(v@);
    let mut out: Vec<String> = Vec::new();
    let mut i: usize = 0;
    while i < v.len()
        invariant
            i <= v.len(),
            gv == groups_view(v@),
            !or_second ==> out@.map_values(|s: String| s@) == firsts(gv.subrange(0, i as int)),
            or_second ==> out@.map_values(|s: String| s@) == firsts_or_seconds(gv.subrange(0, i as int)),
        decreases v.len() - i,
    {
        let ghost sub = gv.subrange(0, i + 1);
        assert(sub.drop_last() =~= gv.subrange(0, i as int));
        assert(sub.last() == (opt_view(v@[i as int].0), opt_view(v@[i as int].1)));
        let ghost before = out@.map_values(|s: String| s@);
        match &v[i].0 {
            Some(x) => {
                out.push(x.clone());
                assert(out@.map_values(|s: String| s@) =~= before + seq![x@]);
            },
            None => {
                if or_second {
                    match &v[i].1 {
                        Some(y) => {
                            out.push(y.clone());
                            assert(out@.map_values(|s: String| s@) =~= before + seq![y@]);
                        },
                        None => {
                            assert(before =~= before + Seq::<Seq<char>>::empty());
                        },
                    }
                } else {
                    assert(before =~= before + Seq::<Seq<char>>::empty());
                }
            },
        }
        i = i + 1;
    }
    assert(gv.subrange(0, v@.len() as int) =~= gv);
    out
}

/// The capture-group-1 texts of the matches of `pattern` in `text`.
pub fn group1_exec(pattern: &str, text: &str) -> (r: Vec<String>)
    ensures
        r@.map_values(|s: String| s@) == group1(pattern@, text@),
{
    match regex_captures_groups(pattern, text) {
        Some(v) => pick_groups(&v, false),
        None => Vec::new(),
    }
}

/// The capture-group-1 (or else group-2) texts of the matches of `pattern`
/// in `text`.
pub fn group1_or_2_exec(pattern: &str, text: &str) -> (r: Vec<String>)
    ensures
        r@.map_values(|s: String| s@) == group1_or_2(pattern@, text@),
{
    match regex_captures_groups(pattern, text) {
        Some(v) => pick_groups(&v, true),
        None => Vec::new(),
    }
}

/// The text of group 1 of the first match of `pattern` in `text`, if any.
pub open spec fn first_group1(pattern: Seq<char>, text: Seq<char>) -> Option<Seq<char>> {
    match regex_first_match_group1(pattern, text) {
        Some(Some(Some(s))) => Some(s),
        _ => None,
    }
}

/// The text of group 1 of the first match of `pattern` in `text`.
pub fn first_group1_exec(pattern: &str, text: &str) -> (r: Option<String>)
    ensures
        match r {
            Some(s) => first_group1(pattern@, text@) == Some(s@),
            None => first_group1(pattern@, text@) is None,
        },
{
    match regex_captures_first_group1(pattern, text) {
        Some(Some(Some(s))) => Some(s),
        _ => None,
    }
}

} // verus!
