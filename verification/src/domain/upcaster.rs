//! Upcaster metadata.

use vstd::prelude::*;
use crate::text::{chars_of, parse_u32, parse_u32_chars, slice_chars, str_eq};

verus! {

/// Metadata for an event upcaster.
#[derive(Debug, Clone, PartialEq)]
pub struct Upcaster {
    /// Event type this upcaster transforms (e.g. "TaskCreated").
    pub event_type: String,
    /// Source version (e.g. "v1").
    pub from_version: String,
    /// Target version (e.g. "v2").
    pub to_version: String,
    /// File path relative to the project root.
    pub file_path: String,
    /// Whether the @Upcaster decorator is present.
    pub decorator_present: bool,
}

/// `s` with every leading `c` removed (`str::trim_start_matches` with a char).
pub open spec fn trim_leading(s: Seq<char>, c: char) -> Seq<char>
    decreases s.len(),
{
    if s.len() > 0 && s[0] == c {
        trim_leading(s.drop_first(), c)
    } else {
        s
    }
}

/// The version numbers of two simple versions (`vN`), when both parse.
pub open spec fn simple_version_numbers(from: Seq<char>, to: Seq<char>) -> Option<(u32, u32)> {
    if from.len() > 0 && from[0] == 'v' && to.len() > 0 && to[0] == 'v' {
        match (parse_u32(trim_leading(from, 'v')), parse_u32(trim_leading(to, 'v'))) {
            (Some(a), Some(b)) => Some((a, b)),
            _ => None,
        }
    } else {
        None
    }
}

/// The name an upcaster of `event_type` from `from` to `to` has by convention.
pub open spec fn conventional_upcaster_name(
    event_type: Seq<char>,
    from: Seq<char>,
    to: Seq<char>,
) -> Seq<char> {
    event_type + "_"@ + from + "_"@ + "to"@ + "_"@ + to
}

fn trim_leading_chars(s: &[char], c: char) -> (v: Vec<char>)
    ensures
        v@ == trim_leading(s@, c),
{
    let mut a: usize = 0;
    assert(s@.subrange(0, s@.len() as int) =~= s@);
    while a < s.len() && s[a] == c
        invariant
            a <= s.len(),
            trim_leading(s@, c) == trim_leading(s@.subrange(a as int, s@.len() as int), c),
        decreases s.len() - a,
    {
        assert(s@.subrange(a as int, s@.len() as int).drop_first() =~= s@.subrange(
            a + 1,
            s@.len() as int,
        ));
        a = a + 1;
    }
    slice_chars(s, a, s.len())
}

impl Upcaster {
    /// The conventional name, e.g. "TaskCreated_v1_to_v2".
    pub fn conventional_name(&self) -> (r: String)
        ensures
            r@ == conventional_upcaster_name(self.event_type@, self.from_version@, self.to_version@),
    {
        let mut r = self.event_type.clone();
        r.append("_");
        r.append(self.from_version.as_str());
        r.append("_");
        r.append("to");
        r.append("_");
        r.append(self.to_version.as_str());
        r
    }

    /// Whether this upcaster transforms from `version`.
    pub fn transforms_from(&self, version: &str) -> (r: bool)
        ensures
            r == (self.from_version@ == version@),
    {
        str_eq(self.from_version.as_str(), version)
    }

    /// Whether this upcaster transforms to `version`.
    pub fn transforms_to(&self, version: &str) -> (r: bool)
        ensures
            r == (self.to_version@ == version@),
    {
        str_eq(self.to_version.as_str(), version)
    }

    /// Whether this upcaster goes one version up (`vN` to `vN+1`); versions
    /// that are not both simple numbered versions count as incremental. No
    /// `u32` version follows `v4294967295`, so from there it is `false`.
    pub fn is_incremental(&self) -> (r: bool)
        ensures
            r == match simple_version_numbers(self.from_version@, self.to_version@) {
                Some((a, b)) => b == a + 1,
                None => true,
            },
    {
        let from = chars_of(self.from_version.as_str());
        let to = chars_of(self.to_version.as_str());
        if from.len() > 0 && from[0] == 'v' && to.len() > 0 && to[0] == 'v' {
            let fd = trim_leading_chars(from.as_slice(), 'v');
            let td = trim_leading_chars(to.as_slice(), 'v');
            match (parse_u32_chars(fd.as_slice()), parse_u32_chars(td.as_slice())) {
                (Some(a), Some(b)) => {
                    return a < u32::MAX && b == a + 1;
                },
                _ => {},
            }
        }
        true
    }
}

} // verus!
