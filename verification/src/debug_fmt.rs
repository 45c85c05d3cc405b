//! `Debug` renderings that messages quote.

use vstd::prelude::*;

use crate::assoc::strs;

verus! {

/// The `Debug` rendering of a list of strings, as `format!("{:?}", ..)`
/// gives it: each string quoted and escaped, in brackets, separated by
/// `", "`.
pub uninterp spec fn debug_strings(v: Seq<Seq<char>>) -> Seq<char>;

/// Renders `v` with `format!("{:?}", v)` (std's `Debug` for `Vec<String>`).
/// The result is named, not stated: it is `debug_strings` of the strings.
#[verifier::external_body]
pub(crate) fn debug_string_list(v: &Vec<String>) -> (r: String)
    ensures
        r@ == debug_strings(strs(v@)),
{
    format!("{:?}", v)
}

} // verus!
