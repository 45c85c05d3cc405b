//! The projection scanner: finds projection files (`*Projection.*` or
//! `projection.*`) below the root and reads their name, subscribed events
//! and read model from their text.

use vstd::prelude::*;

use crate::assoc::strs;
use crate::case::{char_is_uppercase, is_uppercase, lowercase, to_lowercase};
use crate::config::QuerySliceConfig;
use crate::domain::Projection;
use crate::error::VsaError;
use crate::path::{file_name_of, file_name_str};
use crate::re::{
    first_group1, first_group1_exec, group1, group1_exec, group1_or_2, group1_or_2_exec,
};
use crate::text::{
    byte_len, byte_len_prefix, chars_of, contains, ends_with, insert_sorted_unique, lines,
    lines_of, owned, split_chars, split_on, starts_with, str_contains, str_ends_with, str_eq,
    str_starts_with, strictly_sorted, strings_view,
};
use crate::tree::{FsEntry, ProjectTree, holder_chain, indices_where};
use crate::validation::file_name_or_empty;
use super::slice_scanner::{strip_source_ext, strip_source_ext_exec};

verus! {

/// Scanner for projections.
pub struct ProjectionScanner<'a> {
    config: Option<&'a QuerySliceConfig>,
    root: &'a str,
}

// ============================================================================
// Subscribed events
// ============================================================================

/// The `on_<Event>` pattern: a method `on_x`, or `on_x` followed by `:` or
/// `(` at a word boundary.
pub open spec fn on_re() -> Seq<char> {
    "(?:async\\s+)?def\\s+on_(\\w+)|\\bon_(\\w+)\\s*[:\\(]"@
}

/// The `handle_<Event>` method pattern.
pub open spec fn handle_re() -> Seq<char> {
    "def\\s+handle_(\\w+)"@
}

/// The `@Handles(XEvent)`, `@Subscribe(XEvent)`, `@EventHandler(XEvent)`
/// decorator pattern.
pub open spec fn decorator_re() -> Seq<char> {
    "@(?:Handles|Subscribe|EventHandler)\\s*\\(\\s*(\\w+Event)\\s*\\)"@
}

/// The `handle(event: XEvent)` pattern.
pub open spec fn typed_handle_re() -> Seq<char> {
    "handle\\s*\\(\\s*\\w+:\\s*(\\w+Event)\\s*\\)"@
}

/// The `subscribed_events = [...]` pattern.
pub open spec fn event_list_re() -> Seq<char> {
    "subscribed_events\\s*=\\s*\\[([^\\]]+)\\]"@
}

/// A quoted word in a list.
pub open spec fn quoted_word_re() -> Seq<char> {
    "[\"'](\\w+)[\"']"@
}

/// The non-empty `_`-separated parts of a name.
pub open spec fn snake_parts(name: Seq<char>) -> Seq<Seq<char>> {
    split_on(name, '_').filter(|p: Seq<char>| p.len() > 0)
}

/// Verbs that start accessor and CRUD methods, not events.
pub open spec fn is_method_verb(w: Seq<char>) -> bool {
    ||| w == "get"@
    ||| w == "set"@
    ||| w == "load"@
    ||| w == "save"@
    ||| w == "create"@
    ||| w == "update"@
    ||| w == "delete"@
}

/// Words that name no event on their own.
pub open spec fn is_non_event_word(w: Seq<char>) -> bool {
    ||| w == "init"@
    ||| w == "error"@
    ||| w == "complete"@
    ||| w == "start"@
    ||| w == "end"@
    ||| w == "id"@
    ||| w == "ms"@
    ||| w == "type"@
    ||| w == "data"@
    ||| w == "time"@
    ||| w == "name"@
    ||| w == "value"@
    ||| w == "projection"@
    ||| w == "event"@
    ||| w == "message"@
    ||| w == "result"@
    ||| w == "status"@
    ||| is_method_verb(w)
}

/// A snake_case event name: two or more parts, each of at least two
/// bytes, the first no method verb.
pub open spec fn is_valid_snake_case_event(name: Seq<char>) -> bool {
    let parts = snake_parts(name);
    &&& parts.len() >= 2
    &&& forall|i: int| 0 <= i < parts.len() ==> byte_len(#[trigger] parts[i]) >= 2
    &&& !is_method_verb(parts[0])
}

/// A PascalCase event name: it starts with an uppercase letter, is longer
/// than three bytes, and is no non-event word in lowercase.
pub open spec fn is_valid_pascal_case_event(name: Seq<char>) -> bool {
    &&& name.len() > 0
    &&& is_uppercase(name[0])
    &&& byte_len(name) > 3
    &&& !is_non_event_word(lowercase(name))
}

/// The event an `on_<name>` method handles, if it names one.
pub open spec fn on_event(name: Seq<char>) -> Seq<Seq<char>> {
    if contains(name, "_"@) && is_valid_snake_case_event(name) {
        seq![name]
    } else if is_valid_pascal_case_event(name) {
        seq![name + "Event"@]
    } else {
        Seq::empty()
    }
}

/// The event a `handle_<name>` method handles, if it names one.
pub open spec fn handle_event(name: Seq<char>) -> Seq<Seq<char>> {
    if ends_with(name, "Event"@) {
        seq![name]
    } else {
        on_event(name)
    }
}

/// The event a quoted name in a `subscribed_events` list names, if any.
pub open spec fn listed_event(name: Seq<char>) -> Seq<Seq<char>> {
    if ends_with(name, "Event"@) || (contains(name, "_"@) && is_valid_snake_case_event(name)) {
        seq![name]
    } else {
        Seq::empty()
    }
}

/// The names that `on_` methods carry.
pub open spec fn on_names(content: Seq<char>) -> Seq<Seq<char>> {
    group1_or_2(on_re(), content)
}

/// The events a `subscribed_events` list names.
pub open spec fn list_events(content: Seq<char>) -> Seq<Seq<char>> {
    match first_group1(event_list_re(), content) {
        Some(body) => group1(quoted_word_re(), body).map_values(|n: Seq<char>| listed_event(n)).flatten(),
        None => Seq::empty(),
    }
}

/// Every event the text of a projection names, by the five patterns in
/// turn, repeats included.
pub open spec fn event_candidates(content: Seq<char>) -> Seq<Seq<char>> {
    on_names(content).map_values(|n: Seq<char>| on_event(n)).flatten() + group1(
        handle_re(),
        content,
    ).map_values(|n: Seq<char>| handle_event(n)).flatten() + group1(decorator_re(), content)
        + group1(typed_handle_re(), content) + list_events(content)
}

/// Every event named by what the five patterns found, repeats included:
/// the names of `on_` methods, of `handle_` methods, the event types of
/// decorators and of typed `handle` parameters, and the words of a
/// `subscribed_events` list.
pub open spec fn candidates_from(
    on: Seq<Seq<char>>,
    handles: Seq<Seq<char>>,
    decorated: Seq<Seq<char>>,
    typed: Seq<Seq<char>>,
    listed: Seq<Seq<char>>,
) -> Seq<Seq<char>> {
    on.map_values(|n: Seq<char>| on_event(n)).flatten() + handles.map_values(|n: Seq<char>| handle_event(n)).flatten()
        + decorated + typed + listed.map_values(|n: Seq<char>| listed_event(n)).flatten()
}

/// The words of the `subscribed_events` list of a projection's text.
pub open spec fn listed_words(content: Seq<char>) -> Seq<Seq<char>> {
    match first_group1(event_list_re(), content) {
        Some(body) => group1(quoted_word_re(), body),
        None => Seq::empty(),
    }
}

/// `r` holds the strings of `s`, each once, in increasing order.
pub open spec fn is_sorted_set_of(r: Seq<Seq<char>>, s: Seq<Seq<char>>) -> bool {
    strictly_sorted(r) && r.to_set() == s.to_set()
}

// ============================================================================
// Names and read models
// ============================================================================

/// A projection class: `class XProjection` or `export class XProjection`.
pub open spec fn projection_class_re() -> Seq<char> {
    "(?:class|export\\s+class)\\s+(\\w+Projection)"@
}

/// A read model class, interface or type.
pub open spec fn read_model_class_re() -> Seq<char> {
    "(?:class|interface|type)\\s+(\\w+(?:ReadModel|Summary|Detail|View))"@
}

/// The generic argument of `Projection<...>`.
pub open spec fn projection_generic_re() -> Seq<char> {
    "Projection\\s*<\\s*(\\w+)\\s*>"@
}

/// A `read_model:` annotation.
pub open spec fn read_model_annotation_re() -> Seq<char> {
    "read_model:\\s*(?:Type\\[)?(\\w+)"@
}

/// Whether a file name is a projection's: without its source extension it
/// ends in `Projection` or is `projection`.
pub open spec fn matches_projection_pattern(file_name: Seq<char>) -> bool {
    let b = strip_source_ext(file_name);
    ends_with(b, "Projection"@) || b == "projection"@
}

/// The name of a projection: its file name without the source extension,
/// or, for a file named `projection`, the first projection class of its
/// text (`Projection` when there is none).
pub open spec fn projection_name(content: Seq<char>, file_name: Seq<char>) -> Seq<char> {
    let b = strip_source_ext(file_name);
    if b == "projection"@ {
        match first_group1(projection_class_re(), content) {
            Some(n) => n,
            None => "Projection"@,
        }
    } else {
        b
    }
}

/// The read model a projection builds, by the three patterns in turn.
pub open spec fn read_model_of(content: Seq<char>) -> Option<Seq<char>> {
    match first_group1(read_model_class_re(), content) {
        Some(m) => Some(m),
        None => match first_group1(projection_generic_re(), content) {
            Some(m) => Some(m),
            None => first_group1(read_model_annotation_re(), content),
        },
    }
}

// ============================================================================
// Scanning
// ============================================================================

/// Whether the scan enters directory `x`: it has a name that starts with
/// no `.` and is none of `node_modules`, `__pycache__`, `target`.
pub open spec fn projection_scan_enters(x: Seq<char>) -> bool {
    match file_name_of(x) {
        Some(n) => !starts_with(n, "."@) && n != "node_modules"@ && n != "__pycache__"@ && n
            != "target"@,
        None => false,
    }
}

/// Whether entry `i` is a projection file the scan from `root` meets.
pub open spec fn is_projection_entry(es: Seq<FsEntry>, root: Seq<char>, i: int) -> bool {
    let p = es[i].path@;
    &&& !es[i].is_dir
    &&& file_name_of(p) matches Some(n) && matches_projection_pattern(n)
    &&& holder_chain(es, root, p) matches Some(c) && scan_enters_below_root(c)
}

/// Whether the scan enters every directory of `c` after the first.
pub open spec fn scan_enters_below_root(c: Seq<Seq<char>>) -> bool {
    forall|j: int| 1 <= j < c.len() ==> projection_scan_enters(#[trigger] c[j])
}

/// Positions of the projection files the scan meets, in tree order.
pub open spec fn projection_indices(es: Seq<FsEntry>, root: Seq<char>) -> Seq<int> {
    indices_where(es.len() as int, |i: int| is_projection_entry(es, root, i))
}

/// Whether `pr` is what parsing the projection file at `p`, with text
/// `content`, gives.
pub open spec fn is_projection_of(pr: Projection, p: Seq<char>, content: Seq<char>) -> bool {
    &&& pr.name@ == projection_name(content, file_name_or_empty(p))
    &&& pr.file_path@ == p
    &&& is_sorted_set_of(strs(pr.subscribed_events@), event_candidates(content))
    &&& match pr.read_model {
        Some(m) => read_model_of(content) == Some(m@),
        None => read_model_of(content) is None,
    }
    &&& pr.line_count == lines(content).len()
}

/// Whether `pr` is what parsing the file of entry `e` gives; false when
/// its text could not be read.
pub open spec fn projection_at(pr: Projection, e: FsEntry) -> bool {
    match e.content {
        Some(c) => is_projection_of(pr, e.path@, c@),
        None => false,
    }
}

/// The message of the error a file that cannot be read as UTF-8 gives.
pub open spec fn invalid_utf8_message() -> Seq<char> {
    "stream did not contain valid UTF-8"@
}

/// What scanning from `root` gives: a projection for each projection file
/// met, in tree order, or an error when one of them could not be read.
pub open spec fn projection_scan_outcome(
    r: Result<Vec<Projection>, VsaError>,
    es: Seq<FsEntry>,
    root: Seq<char>,
) -> bool {
    let idx = projection_indices(es, root);
    match r {
        Ok(v) => v@.len() == idx.len() && forall|k: int|
            0 <= k < idx.len() ==> projection_at(#[trigger] v@[k], es[idx[k]]),
        Err(e) => (e matches VsaError::IoError(m) && m@ == invalid_utf8_message()) && exists|k: int|
            0 <= k < idx.len() && (#[trigger] es[idx[k]]).content is None,
    }
}

// ============================================================================
// Executable functions
// ============================================================================

fn is_method_verb_exec(w: &str) -> (r: bool)
    ensures
        r == is_method_verb(w@),
{
    str_eq(w, "get") || str_eq(w, "set") || str_eq(w, "load") || str_eq(w, "save") || str_eq(
        w,
        "create",
    ) || str_eq(w, "update") || str_eq(w, "delete")
}

fn is_non_event_word_exec(w: &str) -> (r: bool)
    ensures
        r == is_non_event_word(w@),
{
    str_eq(w, "init") || str_eq(w, "error") || str_eq(w, "complete") || str_eq(w, "start")
        || str_eq(w, "end") || str_eq(w, "id") || str_eq(w, "ms") || str_eq(w, "type") || str_eq(
        w,
        "data",
    ) || str_eq(w, "time") || str_eq(w, "name") || str_eq(w, "value") || str_eq(w, "projection")
        || str_eq(w, "event") || str_eq(w, "message") || str_eq(w, "result") || str_eq(
        w,
        "status",
    ) || is_method_verb_exec(w)
}

/// Whether `name` looks like a snake_case event.
pub fn is_valid_snake_case_event_exec(name: &str) -> (r: bool)
    ensures
        r == is_valid_snake_case_event(name@),
{
    let nc = chars_of(name);
    let pieces = split_chars(nc.as_slice(), '_');
    let ghost all = pieces@.map_values(|x: Vec<char>| x@);
    let mut parts: Vec<Vec<char>> = Vec::new();
    let mut i: usize = 0;
    while i < pieces.len()
        invariant
            i <= pieces.len(),
            all == pieces@.map_values(|x: Vec<char>| x@),
            parts@.map_values(|x: Vec<char>| x@) == all.subrange(0, i as int).filter(
                |p: Seq<char>| p.len() > 0,
            ),
        decreases pieces.len() - i,
    {
        let ghost before = parts@.map_values(|x: Vec<char>| x@);
        proof {
            reveal_with_fuel(Seq::<_>::filter, 1);
            assert(all.subrange(0, i + 1).drop_last() =~= all.subrange(0, i as int));
        }
        if pieces[i].len() > 0 {
            parts.push(pieces[i].clone());
            assert(parts@.map_values(|x: Vec<char>| x@) =~= before.push(all[i as int]));
        }
        i = i + 1;
    }
    assert(all.subrange(0, pieces@.len() as int) =~= all);
    let ghost pv = parts@.map_values(|x: Vec<char>| x@);
    assert(pv == snake_parts(name@));
    if parts.len() < 2 {
        return false;
    }
    let mut j: usize = 0;
    while j < parts.len()
        invariant
            j <= parts@.len(),
            parts@.len() >= 2,
            pv == parts@.map_values(|x: Vec<char>| x@),
            pv == snake_parts(name@),
            forall|m: int| 0 <= m < j ==> byte_len(#[trigger] pv[m]) >= 2,
        decreases parts.len() - j,
    {
        let b = byte_len_prefix(parts[j].as_slice(), parts[j].len());
        assert(parts@[j as int]@.subrange(0, parts@[j as int]@.len() as int) =~= parts@[j as int]@);
        assert(pv[j as int] == parts@[j as int]@);
        if b < 2 {
            return false;
        }
        j = j + 1;
    }
    let first = crate::text::string_of(parts[0].as_slice());
    assert(pv[0] == parts@[0]@);
    !is_method_verb_exec(first.as_str())
}

/// Whether `name` looks like a PascalCase event.
pub fn is_valid_pascal_case_event_exec(name: &str) -> (r: bool)
    ensures
        r == is_valid_pascal_case_event(name@),
{
    let nc = chars_of(name);
    if nc.len() == 0 || !char_is_uppercase(nc[0]) {
        return false;
    }
    let b = byte_len_prefix(nc.as_slice(), nc.len());
    assert(nc@.subrange(0, nc@.len() as int) =~= nc@);
    if b <= 3 {
        return false;
    }
    let low = to_lowercase(name);
    !is_non_event_word_exec(low.as_str())
}

fn on_event_exec(name: &str) -> (r: Vec<String>)
    ensures
        strs(r@) == on_event(name@),
{
    let mut r: Vec<String> = Vec::new();
    if str_contains(name, "_") && is_valid_snake_case_event_exec(name) {
        r.push(owned(name));
        assert(strs(r@) =~= seq![name@]);
    } else if is_valid_pascal_case_event_exec(name) {
        let mut e = owned(name);
        e.append("Event");
        r.push(e);
        assert(strs(r@) =~= seq![name@ + "Event"@]);
    } else {
        assert(strs(r@) =~= Seq::<Seq<char>>::empty());
    }
    r
}

fn handle_event_exec(name: &str) -> (r: Vec<String>)
    ensures
        strs(r@) == handle_event(name@),
{
    if str_ends_with(name, "Event") {
        let mut r: Vec<String> = Vec::new();
        r.push(owned(name));
        assert(strs(r@) =~= seq![name@]);
        r
    } else {
        on_event_exec(name)
    }
}

fn listed_event_exec(name: &str) -> (r: Vec<String>)
    ensures
        strs(r@) == listed_event(name@),
{
    let mut r: Vec<String> = Vec::new();
    if str_ends_with(name, "Event") || (str_contains(name, "_") && is_valid_snake_case_event_exec(
        name,
    )) {
        r.push(owned(name));
        assert(strs(r@) =~= seq![name@]);
    } else {
        assert(strs(r@) =~= Seq::<Seq<char>>::empty());
    }
    r
}

/// How a list of captured names turns into events.
#[derive(Clone, Copy)]
enum NameRule {
    On,
    Handle,
    Listed,
}

spec fn name_rule_events(rule: NameRule, n: Seq<char>) -> Seq<Seq<char>> {
    match rule {
        NameRule::On => on_event(n),
        NameRule::Handle => handle_event(n),
        NameRule::Listed => listed_event(n),
    }
}

/// The shape of a subscribed event: a name ending in `Event`, or a valid
/// snake_case event name.
pub open spec fn event_shaped(e: Seq<char>) -> bool {
    ends_with(e, "Event"@) || (contains(e, "_"@) && is_valid_snake_case_event(e))
}

/// Every string of `s` is event-shaped or is one of `a` or `b`.
pub open spec fn all_shaped_or_in(s: Seq<Seq<char>>, a: Seq<Seq<char>>, b: Seq<Seq<char>>) -> bool {
    forall|i: int| 0 <= i < s.len() ==> event_shaped(#[trigger] s[i]) || a.contains(s[i]) || b.contains(s[i])
}

proof fn lemma_suffix_event(n: Seq<char>)
    ensures
        ends_with(n + "Event"@, "Event"@),
{
    reveal_strlit("Event");
    let s = n + "Event"@;
    assert(s.subrange(s.len() - 5, s.len() as int) =~= "Event"@);
}

proof fn lemma_flatten_shaped(s: Seq<Seq<Seq<char>>>, a: Seq<Seq<char>>, b: Seq<Seq<char>>)
    requires
        forall|i: int| 0 <= i < s.len() ==> all_shaped_or_in(#[trigger] s[i], a, b),
    ensures
        all_shaped_or_in(s.flatten(), a, b),
    decreases s.len(),
{
    if s.len() > 0 {
        let t = s.drop_first();
        assert forall|i: int| 0 <= i < t.len() implies all_shaped_or_in(#[trigger] t[i], a, b) by {
            assert(t[i] == s[i + 1]);
        }
        lemma_flatten_shaped(t, a, b);
        lemma_concat_shaped(s.first(), t.flatten(), a, b);
    }
}

proof fn lemma_concat_shaped(x: Seq<Seq<char>>, y: Seq<Seq<char>>, a: Seq<Seq<char>>, b: Seq<Seq<char>>)
    requires
        all_shaped_or_in(x, a, b),
        all_shaped_or_in(y, a, b),
    ensures
        all_shaped_or_in(x + y, a, b),
{
    assert forall|i: int| 0 <= i < (x + y).len() implies event_shaped(#[trigger] (x + y)[i]) || a.contains(
        (x + y)[i],
    ) || b.contains((x + y)[i]) by {
        if i < x.len() {
            assert((x + y)[i] == x[i]);
        } else {
            assert((x + y)[i] == y[i - x.len()]);
        }
    }
}

/// The events each rule gives for the names `ns` are event-shaped.
proof fn lemma_rule_events_shaped(ns: Seq<Seq<char>>, rule: NameRule, a: Seq<Seq<char>>, b: Seq<Seq<char>>)
    ensures
        all_shaped_or_in(ns.map_values(|n: Seq<char>| name_rule_events(rule, n)).flatten(), a, b),
{
    let m = ns.map_values(|n: Seq<char>| name_rule_events(rule, n));
    assert forall|i: int| 0 <= i < m.len() implies all_shaped_or_in(#[trigger] m[i], a, b) by {
        let n = ns[i];
        lemma_suffix_event(n);
        assert(m[i] == name_rule_events(rule, n));
    }
    lemma_flatten_shaped(m, a, b);
}

/// Each event a projection's text subscribes to ends in `Event` or is a
/// valid snake_case event name, unless it is the event type of a
/// decorator or of a typed `handle` parameter, which the decorator and
/// typed-handler patterns capture as written; and the events come in
/// strictly increasing order, each once. `r` is what
/// `ProjectionScanner::extract_subscribed_events` returns for `content`.
pub proof fn lemma_subscribed_events_shape(content: Seq<char>, r: Seq<Seq<char>>)
    requires
        is_sorted_set_of(r, event_candidates(content)),
    ensures
        strictly_sorted(r),
        all_shaped_or_in(r, group1(decorator_re(), content), group1(typed_handle_re(), content)),
{
    let a = group1(decorator_re(), content);
    let b = group1(typed_handle_re(), content);
    let on = on_names(content);
    let hs = group1(handle_re(), content);
    let lw = listed_words(content);
    lemma_rule_events_shaped(on, NameRule::On, a, b);
    lemma_rule_events_shaped(hs, NameRule::Handle, a, b);
    lemma_rule_events_shaped(lw, NameRule::Listed, a, b);
    assert(on.map_values(|n: Seq<char>| name_rule_events(NameRule::On, n)) =~= on.map_values(
        |n: Seq<char>| on_event(n),
    ));
    assert(hs.map_values(|n: Seq<char>| name_rule_events(NameRule::Handle, n)) =~= hs.map_values(
        |n: Seq<char>| handle_event(n),
    ));
    assert(lw.map_values(|n: Seq<char>| name_rule_events(NameRule::Listed, n)) =~= lw.map_values(
        |n: Seq<char>| listed_event(n),
    ));
    assert(lw.map_values(|n: Seq<char>| listed_event(n)).flatten() =~= list_events(content)) by {
        if first_group1(event_list_re(), content) is None {
            assert(lw.map_values(|n: Seq<char>| listed_event(n)) =~= Seq::<Seq<Seq<char>>>::empty());
        }
    }
    assert(all_shaped_or_in(a, a, b)) by {
        assert forall|i: int| 0 <= i < a.len() implies a.contains(#[trigger] a[i]) by {}
    }
    assert(all_shaped_or_in(b, a, b)) by {
        assert forall|i: int| 0 <= i < b.len() implies b.contains(#[trigger] b[i]) by {}
    }
    let p1 = on.map_values(|n: Seq<char>| on_event(n)).flatten();
    let p2 = hs.map_values(|n: Seq<char>| handle_event(n)).flatten();
    lemma_concat_shaped(p1, p2, a, b);
    lemma_concat_shaped(p1 + p2, a, a, b);
    lemma_concat_shaped(p1 + p2 + a, b, a, b);
    lemma_concat_shaped(p1 + p2 + a + b, list_events(content), a, b);
    let c = event_candidates(content);
    assert(c =~= p1 + p2 + a + b + list_events(content));
    assert forall|i: int| 0 <= i < r.len() implies event_shaped(#[trigger] r[i]) || a.contains(r[i])
        || b.contains(r[i]) by {
        assert(r.to_set().contains(r[i]));
        assert(c.to_set().contains(r[i]));
        let j = choose|j: int| 0 <= j < c.len() && c[j] == r[i];
        assert(event_shaped(c[j]) || a.contains(c[j]) || b.contains(c[j]));
    }
}

fn append_events(out: &mut Vec<String>, names: &Vec<String>, rule: NameRule)
    ensures
        strs(final(out)@) == strs(old(out)@) + strs(names@).map_values(
            |n: Seq<char>| name_rule_events(rule, n),
        ).flatten(),
{
    let ghost nv = strs(names@);
    let ghost g = |n: Seq<char>| name_rule_events(rule, n);
    let ghost start = strs(out@);
    let mut i: usize = 0;
    assert(nv.subrange(0, 0).map_values(g) =~= Seq::<Seq<Seq<char>>>::empty());
    assert(Seq::<Seq<Seq<char>>>::empty().flatten() =~= Seq::<Seq<char>>::empty());
    while i < names.len()
        invariant
            i <= names@.len(),
            nv == strs(names@),
            g == (|n: Seq<char>| name_rule_events(rule, n)),
            strs(out@) == start + nv.subrange(0, i as int).map_values(g).flatten(),
        decreases names.len() - i,
    {
        let n = names[i].as_str();
        let evs = match rule {
            NameRule::On => on_event_exec(n),
            NameRule::Handle => handle_event_exec(n),
            NameRule::Listed => listed_event_exec(n),
        };
        let ghost before = strs(out@);
        let ghost ev = strs(evs@);
        let mut evs = evs;
        out.append(&mut evs);
        proof {
            assert(strs(out@) =~= before + ev);
            assert(nv[i as int] == names@[i as int]@);
            assert(nv.subrange(0, i + 1).map_values(g) =~= nv.subrange(0, i as int).map_values(g).push(
                g(nv[i as int]),
            ));
            nv.subrange(0, i as int).map_values(g).lemma_flatten_push(g(nv[i as int]));
            assert(strs(out@) =~= start + nv.subrange(0, i + 1).map_values(g).flatten());
        }
        i = i + 1;
    }
    assert(nv.subrange(0, names@.len() as int) =~= nv);
}

fn append_all(out: &mut Vec<String>, more: Vec<String>)
    ensures
        strs(final(out)@) == strs(old(out)@) + strs(more@),
{
    let mut more = more;
    let ghost a = strs(out@);
    let ghost b = strs(more@);
    out.append(&mut more);
    assert(strs(out@) =~= a + b);
}

fn sorted_unique(v: &Vec<String>) -> (r: Vec<String>)
    ensures
        is_sorted_set_of(strs(r@), strs(v@)),
{
    let ghost vv = strs(v@);
    let mut out: Vec<String> = Vec::new();
    let mut i: usize = 0;
    assert(strings_view(out@) =~= Seq::<Seq<char>>::empty());
    assert(vv.subrange(0, 0).to_set() =~= Set::<Seq<char>>::empty());
    assert(strings_view(out@).to_set() =~= Set::<Seq<char>>::empty());
    while i < v.len()
        invariant
            i <= v@.len(),
            vv == strs(v@),
            strictly_sorted(strings_view(out@)),
            strings_view(out@).to_set() == vv.subrange(0, i as int).to_set(),
        decreases v.len() - i,
    {
        insert_sorted_unique(&mut out, &v[i]);
        proof {
            assert(vv[i as int] == v@[i as int]@);
            assert(vv.subrange(0, i + 1) =~= vv.subrange(0, i as int).push(vv[i as int]));
            vv.subrange(0, i as int).lemma_push_to_set_commute(vv[i as int]);
        }
        i = i + 1;
    }
    assert(vv.subrange(0, v@.len() as int) =~= vv);
    assert(strings_view(out@) =~= strs(out@));
    out
}

fn listed_words_exec(content: &str) -> (r: Vec<String>)
    ensures
        strs(r@) == listed_words(content@),
{
    match first_group1_exec("subscribed_events\\s*=\\s*\\[([^\\]]+)\\]", content) {
        Some(body) => group1_exec("[\"'](\\w+)[\"']", body.as_str()),
        None => Vec::new(),
    }
}

/// The events that what the five patterns found names, each once, in
/// increasing order: `on` and `handles` give the events their method names
/// stand for, `decorated` and `typed` are events already, and `listed`
/// gives the words of a `subscribed_events` list that are event names.
pub fn subscribed_events_from(
    on: Vec<String>,
    handles: Vec<String>,
    decorated: Vec<String>,
    typed: Vec<String>,
    listed: Vec<String>,
) -> (r: Vec<String>)
    ensures
        is_sorted_set_of(
            strs(r@),
            candidates_from(strs(on@), strs(handles@), strs(decorated@), strs(typed@), strs(listed@)),
        ),
{
    let ghost ov = strs(on@);
    let ghost hv = strs(handles@);
    let ghost lv = strs(listed@);
    let mut all: Vec<String> = Vec::new();
    append_events(&mut all, &on, NameRule::On);
    append_events(&mut all, &handles, NameRule::Handle);
    append_all(&mut all, decorated);
    append_all(&mut all, typed);
    append_events(&mut all, &listed, NameRule::Listed);
    proof {
        assert(ov.map_values(|n: Seq<char>| name_rule_events(NameRule::On, n)) =~= ov.map_values(
            |n: Seq<char>| on_event(n),
        ));
        assert(hv.map_values(|n: Seq<char>| name_rule_events(NameRule::Handle, n)) =~= hv.map_values(
            |n: Seq<char>| handle_event(n),
        ));
        assert(lv.map_values(|n: Seq<char>| name_rule_events(NameRule::Listed, n)) =~= lv.map_values(
            |n: Seq<char>| listed_event(n),
        ));
    }
    sorted_unique(&all)
}

impl<'a> ProjectionScanner<'a> {
    /// A scanner of the projections below `root`.
    pub fn new(config: Option<&'a QuerySliceConfig>, root: &'a str) -> (r: Self)
        ensures
            r.spec_root() == root@,
    {
        ProjectionScanner { config, root }
    }

    /// The root the scanner searches.
    pub closed spec fn spec_root(&self) -> Seq<char> {
        self.root@
    }

    /// The events a projection's text subscribes to, each once, in
    /// increasing order.
    pub fn extract_subscribed_events(&self, content: &str) -> (r: Vec<String>)
        ensures
            is_sorted_set_of(strs(r@), event_candidates(content@)),
    {
        let on = group1_or_2_exec("(?:async\\s+)?def\\s+on_(\\w+)|\\bon_(\\w+)\\s*[:\\(]", content);
        assert(strs(on@) == on_names(content@));
        let handles = group1_exec("def\\s+handle_(\\w+)", content);
        let decorated = group1_exec(
            "@(?:Handles|Subscribe|EventHandler)\\s*\\(\\s*(\\w+Event)\\s*\\)",
            content,
        );
        let typed = group1_exec("handle\\s*\\(\\s*\\w+:\\s*(\\w+Event)\\s*\\)", content);
        let listed = listed_words_exec(content);
        proof {
            let lw = listed_words(content@);
            assert(lw.map_values(|n: Seq<char>| listed_event(n)).flatten() =~= list_events(content@)) by {
                if first_group1(event_list_re(), content@) is None {
                    assert(lw.map_values(|n: Seq<char>| listed_event(n)) =~= Seq::<Seq<Seq<char>>>::empty());
                }
            }
            assert(candidates_from(strs(on@), strs(handles@), strs(decorated@), strs(typed@), strs(listed@))
                =~= event_candidates(content@));
        }
        subscribed_events_from(on, handles, decorated, typed, listed)
    }

    /// Whether a file name is a projection's.
    pub fn matches_pattern(&self, file_name: &str) -> (r: bool)
        ensures
            r == matches_projection_pattern(file_name@),
    {
        let b = strip_source_ext_exec(file_name);
        str_ends_with(b.as_str(), "Projection") || str_eq(b.as_str(), "projection")
    }

    /// The name of the projection in `content`, from the file `file_name`.
    pub fn extract_projection_name_from_content(&self, content: &str, file_name: &str) -> (r:
        Result<String, VsaError>)
        ensures
            r matches Ok(n) && n@ == projection_name(content@, file_name@),
    {
        let b = strip_source_ext_exec(file_name);
        if str_eq(b.as_str(), "projection") {
            match first_group1_exec("(?:class|export\\s+class)\\s+(\\w+Projection)", content) {
                Some(n) => Ok(n),
                None => Ok(owned("Projection")),
            }
        } else {
            Ok(b)
        }
    }

    /// The read model a projection's text names.
    pub fn extract_read_model(&self, content: &str) -> (r: Option<String>)
        ensures
            match r {
                Some(m) => read_model_of(content@) == Some(m@),
                None => read_model_of(content@) is None,
            },
    {
        match first_group1_exec(
            "(?:class|interface|type)\\s+(\\w+(?:ReadModel|Summary|Detail|View))",
            content,
        ) {
            Some(m) => Some(m),
            None => match first_group1_exec("Projection\\s*<\\s*(\\w+)\\s*>", content) {
                Some(m) => Some(m),
                None => first_group1_exec("read_model:\\s*(?:Type\\[)?(\\w+)", content),
            },
        }
    }

    fn parse_projection(&self, path: &str, file_name: &str, content: &str) -> (r: Projection)
        requires
            file_name@ == file_name_or_empty(path@),
        ensures
            is_projection_of(r, path@, content@),
    {
        let cc = chars_of(content);
        let ls = lines_of(cc.as_slice());
        let name = match self.extract_projection_name_from_content(content, file_name) {
            Ok(n) => n,
            Err(_) => owned(file_name),
        };
        Projection {
            name,
            file_path: owned(path),
            subscribed_events: self.extract_subscribed_events(content),
            read_model: self.extract_read_model(content),
            line_count: ls.len(),
        }
    }

    fn is_projection_entry_exec(&self, tree: &ProjectTree, i: usize) -> (r: bool)
        requires
            i < tree.entries@.len(),
        ensures
            r == is_projection_entry(tree.entries@, self.root@, i as int),
    {
        let e = &tree.entries[i];
        if e.is_dir {
            return false;
        }
        let named = match file_name_str(e.path.as_str()) {
            Some(n) => self.matches_pattern(n.as_str()),
            None => false,
        };
        if !named {
            return false;
        }
        match tree.holder_chain_exec(self.root, e.path.as_str()) {
            Some(c) => {
                let ghost cs = strs(c@);
                let mut j: usize = 1;
                while j < c.len()
                    invariant
                        1 <= j,
                        cs == strs(c@),
                        i < tree.entries@.len(),
                        holder_chain(tree.entries@, self.root@, tree.entries@[i as int].path@)
                            == Some(cs),
                        forall|m: int| 1 <= m < j && m < cs.len() ==> projection_scan_enters(
                            #[trigger] cs[m],
                        ),
                    decreases c.len() - j,
                {
                    assert(cs[j as int] == c@[j as int]@);
                    let enters = match file_name_str(c[j].as_str()) {
                        Some(n) => !str_starts_with(n.as_str(), ".") && !str_eq(
                            n.as_str(),
                            "node_modules",
                        ) && !str_eq(n.as_str(), "__pycache__") && !str_eq(n.as_str(), "target"),
                        None => false,
                    };
                    if !enters {
                        assert(!projection_scan_enters(cs[j as int]));
                        return false;
                    }
                    j = j + 1;
                }
                true
            },
            None => false,
        }
    }

    /// Scan the tree for projections: each projection file below the root,
    /// through directories that are not hidden, `node_modules`,
    /// `__pycache__` or `target`, in tree order. A projection file that
    /// cannot be read as UTF-8 makes the scan fail.
    pub fn scan(&self, tree: &ProjectTree) -> (r: Result<Vec<Projection>, VsaError>)
        ensures
            projection_scan_outcome(r, tree.entries@, self.spec_root()),
    {
        let ghost es = tree.entries@;
        let ghost root = self.root@;
        let ghost pred = |i: int| is_projection_entry(es, root, i);
        let mut out: Vec<Projection> = Vec::new();
        let mut i: usize = 0;
        while i < tree.entries.len()
            invariant
                i <= es.len(),
                es == tree.entries@,
                root == self.root@,
                pred == (|i: int| is_projection_entry(es, root, i)),
                out@.len() == indices_where(i as int, pred).len(),
                forall|k: int|
                    0 <= k < out@.len() ==> projection_at(#[trigger] out@[k], es[indices_where(i as int, pred)[k]]),
            decreases tree.entries.len() - i,
        {
            let ghost prev = indices_where(i as int, pred);
            if self.is_projection_entry_exec(tree, i) {
                assert(indices_where(i + 1, pred) == prev.push(i as int));
                let e = &tree.entries[i];
                match &e.content {
                    Some(c) => {
                        let name = match file_name_str(e.path.as_str()) {
                            Some(n) => n,
                            None => String::new(),
                        };
                        let pr = self.parse_projection(e.path.as_str(), name.as_str(), c.as_str());
                        out.push(pr);
                        assert forall|k: int| 0 <= k < out@.len() implies projection_at(
                            #[trigger] out@[k],
                            es[indices_where(i + 1, pred)[k]],
                        ) by {
                            if k < prev.len() {
                                assert(indices_where(i + 1, pred)[k] == prev[k]);
                            }
                        }
                    },
                    None => {
                        proof {
                            let idx = projection_indices(es, root);
                            crate::tree::lemma_indices_where(i + 1, pred);
                            crate::tree::lemma_indices_where(es.len() as int, pred);
                            lemma_indices_prefix(es.len() as int, i + 1, pred);
                            assert(indices_where(i + 1, pred)[prev.len() as int] == i as int);
                            assert(idx == indices_where(es.len() as int, pred));
                            assert(idx[prev.len() as int] == i as int);
                            assert(es[idx[prev.len() as int]].content is None);
                        }
                        return Err(VsaError::IoError(owned("stream did not contain valid UTF-8")));
                    },
                }
            } else {
                assert(indices_where(i + 1, pred) == prev);
            }
            i = i + 1;
        }
        Ok(out)
    }
}

/// The positions below `m` of `indices_where(n, pred)` are
/// `indices_where(m, pred)`, a prefix.
pub proof fn lemma_indices_prefix(n: int, m: int, pred: spec_fn(int) -> bool)
    requires
        0 <= m <= n,
    ensures
        indices_where(m, pred).len() <= indices_where(n, pred).len(),
        forall|k: int|
            0 <= k < indices_where(m, pred).len() ==> indices_where(n, pred)[k]
                == #[trigger] indices_where(m, pred)[k],
    decreases n - m,
{
    if m < n {
        lemma_indices_prefix(n - 1, m, pred);
    }
}

} // verus!
