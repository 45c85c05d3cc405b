//! Event metadata and event versions.

use vstd::prelude::*;
use crate::text::{
    chars_of, contains, decimal, decimal_string, lemma_decimal_digits, owned, parse_u32,
    parse_u32_chars, split_chars, split_on, str_contains, str_eq, string_of,
};

verus! {

/// Metadata for a domain event.
#[derive(Debug, Clone, PartialEq)]
pub struct Event {
    /// Name of the event class (e.g. "TaskCreatedEvent").
    pub name: String,
    /// Bounded context this event belongs to.
    pub context: Option<String>,
    /// Event type identifier (e.g. "TaskCreated").
    pub event_type: String,
    /// Event version.
    pub version: EventVersion,
    /// File path relative to the project root.
    pub file_path: String,
    /// Event fields.
    pub fields: Vec<EventField>,
    /// Whether the @Event decorator is present.
    pub decorator_present: bool,
}

/// Event version representation.
#[derive(Debug, Clone, PartialEq)]
pub enum EventVersion {
    /// Simple version format (e.g. "v1", "v2").
    Simple(String),
    /// Semantic version format (e.g. 1.0.0).
    Semver(u32, u32, u32),
}

/// The mathematical value of an event version.
pub enum VersionValue {
    Simple(Seq<char>),
    Semver(u32, u32, u32),
}

impl View for EventVersion {
    type V = VersionValue;

    open spec fn view(&self) -> VersionValue {
        match self {
            EventVersion::Simple(s) => VersionValue::Simple(s@),
            EventVersion::Semver(a, b, c) => VersionValue::Semver(*a, *b, *c),
        }
    }
}

/// The three numbers of a `major.minor.patch` string, each as `str::parse::<u32>` reads it.
pub open spec fn semver_parts(s: Seq<char>) -> Option<(u32, u32, u32)> {
    let parts = split_on(s, '.');
    if parts.len() == 3 {
        match (parse_u32(parts[0]), parse_u32(parts[1]), parse_u32(parts[2])) {
            (Some(a), Some(b), Some(c)) => Some((a, b, c)),
            _ => None,
        }
    } else {
        None
    }
}

/// The version a string denotes: any string starting with `v` is a simple
/// version; otherwise it must be `major.minor.patch`.
pub open spec fn parse_version(s: Seq<char>) -> Option<VersionValue> {
    if s.len() > 0 && s[0] == 'v' {
        Some(VersionValue::Simple(s))
    } else {
        match semver_parts(s) {
            Some((a, b, c)) => Some(VersionValue::Semver(a, b, c)),
            None => None,
        }
    }
}

/// The text of a version (what `version_string` returns).
pub open spec fn version_text(v: VersionValue) -> Seq<char> {
    match v {
        VersionValue::Simple(s) => s,
        VersionValue::Semver(a, b, c) => decimal(a as nat) + seq!['.'] + decimal(b as nat) + seq![
            '.',
        ] + decimal(c as nat),
    }
}

/// The short text `as_str` returns: the simple version, or `"semver"`.
pub open spec fn version_str(v: VersionValue) -> Seq<char> {
    match v {
        VersionValue::Simple(s) => s,
        VersionValue::Semver(_, _, _) => "semver"@,
    }
}

/// Metadata for an event field.
#[derive(Debug, Clone, PartialEq)]
pub struct EventField {
    /// Field name.
    pub name: String,
    /// Field type.
    pub field_type: String,
    /// Whether the field is required.
    pub required: bool,
    /// Line number in the file.
    pub line_number: usize,
}

impl Event {
    /// Check if this event has a field with the given name.
    pub fn has_field(&self, field_name: &str) -> (r: bool)
        ensures
            r == exists|i: int|
                0 <= i < self.fields@.len() && #[trigger] self.fields@[i].name@ == field_name@,
    {
        let mut i: usize = 0;
        while i < self.fields.len()
            invariant
                i <= self.fields@.len(),
                forall|k: int| 0 <= k < i ==> self.fields@[k].name@ != field_name@,
            decreases self.fields.len() - i,
        {
            if str_eq(self.fields[i].name.as_str(), field_name) {
                return true;
            }
            i = i + 1;
        }
        false
    }

    /// Whether this event is a later version (anything but `v1`, or major > 1).
    pub fn is_versioned(&self) -> (r: bool)
        ensures
            r == match self.version@ {
                VersionValue::Simple(v) => v != "v1"@,
                VersionValue::Semver(major, _, _) => major > 1,
            },
    {
        match &self.version {
            EventVersion::Simple(v) => !str_eq(v.as_str(), "v1"),
            EventVersion::Semver(major, _, _) => *major > 1,
        }
    }

    /// Whether this is the latest version: old versions live under `_versioned`.
    pub fn is_latest(&self) -> (r: bool)
        ensures
            r == !contains(self.file_path@, "_versioned"@),
    {
        !str_contains(self.file_path.as_str(), "_versioned")
    }

    /// The version as a string.
    pub fn version_string(&self) -> (r: String)
        ensures
            r@ == version_text(self.version@),
    {
        self.version.to_text()
    }
}

impl EventVersion {
    /// Parse a version string.
    pub fn parse(version_str: &str) -> (r: Option<EventVersion>)
        ensures
            r matches Some(v) ==> parse_version(version_str@) == Some(v@),
            r is None ==> parse_version(version_str@) is None,
    {
        let chars = chars_of(version_str);
        if chars.len() > 0 && chars[0] == 'v' {
            return Some(EventVersion::Simple(owned(version_str)));
        }
        let parts = split_chars(chars.as_slice(), '.');
        let ghost pv = parts@.map_values(|p: Vec<char>| p@);
        assert(pv == split_on(version_str@, '.'));
        if parts.len() == 3 {
            assert(pv[0] == parts@[0]@ && pv[1] == parts@[1]@ && pv[2] == parts@[2]@);
            let a = parse_u32_chars(parts[0].as_slice());
            let b = parse_u32_chars(parts[1].as_slice());
            let c = parse_u32_chars(parts[2].as_slice());
            match (a, b, c) {
                (Some(a), Some(b), Some(c)) => Some(EventVersion::Semver(a, b, c)),
                _ => None,
            }
        } else {
            None
        }
    }

    /// The short form of the version: the simple version itself, or `"semver"`.
    pub fn as_str(&self) -> (r: &str)
        ensures
            r@ == version_str(self@),
    {
        match self {
            EventVersion::Simple(s) => s.as_str(),
            EventVersion::Semver(_, _, _) => "semver",
        }
    }

    /// The full text of the version (`v1`, or `major.minor.patch`).
    pub fn to_text(&self) -> (r: String)
        ensures
            r@ == version_text(self@),
    {
        match self {
            EventVersion::Simple(s) => s.clone(),
            EventVersion::Semver(a, b, c) => {
                let mut r = decimal_string(*a);
                r.append(".");
                r.append(decimal_string(*b).as_str());
                r.append(".");
                r.append(decimal_string(*c).as_str());
                proof {
                    reveal_strlit(".");
                }
                assert(r@ =~= version_text(self@));
                r
            },
        }
    }
}

/// A `.` does not occur in a decimal number.
proof fn lemma_decimal_no_dot(n: nat)
    ensures
        forall|i: int| 0 <= i < decimal(n).len() ==> decimal(n)[i] != '.',
{
    lemma_decimal_digits(n);
}

/// Splitting `x + "." + rest` on `.`, where `x` has no `.`, gives `x` first.
proof fn lemma_split_dot_head(x: Seq<char>, rest: Seq<char>)
    requires
        forall|i: int| 0 <= i < x.len() ==> x[i] != '.',
    ensures
        split_on(x + seq!['.'] + rest, '.') == seq![x] + split_on(rest, '.'),
{
    let s = x + seq!['.'] + rest;
    let d = seq!['.'];
    crate::text::lemma_find_bounds(s, d);
    assert(s.subrange(x.len() as int, x.len() + 1int) =~= d);
    assert forall|j: int| 0 <= j < x.len() implies !crate::text::occurs_at(s, d, j) by {
        assert(s.subrange(j, j + 1)[0] == s[j]);
        assert(s[j] == x[j]);
    }
    assert(crate::text::occurs_at(s, d, x.len() as int));
    assert(crate::text::find(s, d) == Some(x.len() as int));
    assert(s.subrange(0, x.len() as int) =~= x);
    assert(s.subrange(x.len() + 1int, s.len() as int) =~= rest);
}

/// Splitting a string without `.` gives the string itself.
proof fn lemma_split_no_dot(x: Seq<char>)
    requires
        forall|i: int| 0 <= i < x.len() ==> x[i] != '.',
    ensures
        split_on(x, '.') == seq![x],
{
    let d = seq!['.'];
    crate::text::lemma_find_bounds(x, d);
    if crate::text::find(x, d) is Some {
        let j = crate::text::find(x, d).unwrap();
        assert(x.subrange(j, j + 1)[0] == x[j]);
    }
}

/// Parsing the text of a version gives the version back, for every semantic
/// version and for every simple version that starts with `v`.
pub proof fn lemma_version_text_roundtrip(v: VersionValue)
    requires
        v matches VersionValue::Simple(s) ==> s.len() > 0 && s[0] == 'v',
    ensures
        parse_version(version_text(v)) == Some(v),
{
    match v {
        VersionValue::Simple(s) => {},
        VersionValue::Semver(a, b, c) => {
            lemma_decimal_digits(a as nat);
            lemma_decimal_digits(b as nat);
            lemma_decimal_digits(c as nat);
            lemma_decimal_no_dot(a as nat);
            lemma_decimal_no_dot(b as nat);
            lemma_decimal_no_dot(c as nat);
            let da = decimal(a as nat);
            let db = decimal(b as nat);
            let dc = decimal(c as nat);
            let t = version_text(v);
            assert(t =~= da + seq!['.'] + (db + seq!['.'] + dc));
            lemma_split_dot_head(da, db + seq!['.'] + dc);
            lemma_split_dot_head(db, dc);
            lemma_split_no_dot(dc);
            assert(split_on(t, '.') =~= seq![da, db, dc]);
            assert(crate::text::is_digit(da[0]));
            assert(t[0] == da[0]);
            assert(parse_u32(da) == Some(a));
            assert(parse_u32(db) == Some(b));
            assert(parse_u32(dc) == Some(c));
        },
    }
}

} // verus!
