//! Unicode case mapping, as std's `to_lowercase` and `to_uppercase` give it.

use vstd::prelude::*;

verus! {

/// The lowercase form of `s` (`str::to_lowercase`).
pub uninterp spec fn lowercase(s: Seq<char>) -> Seq<char>;

/// The uppercase form of the character `c` (`char::to_uppercase`, which
/// may give several characters).
pub uninterp spec fn uppercase_char(c: char) -> Seq<char>;

/// `s` in lowercase, by `str::to_lowercase`. The result is named, not
/// stated: it is `lowercase(s)`.
#[verifier::external_body]
pub(crate) fn to_lowercase(s: &str) -> (r: String)
    ensures
        r@ == lowercase(s@),
{
    s.to_lowercase()
}

/// The characters of `c` in uppercase, by `char::to_uppercase`. The result
/// is named, not stated: it is `uppercase_char(c)`.
#[verifier::external_body]
pub(crate) fn char_to_uppercase(c: char) -> (r: Vec<char>)
    ensures
        r@ == uppercase_char(c),
{
    c.to_uppercase().collect()
}


/// Whether `c` is uppercase (`char::is_uppercase`: Unicode's `Uppercase`
/// property).
pub uninterp spec fn is_uppercase(c: char) -> bool;

/// Whether `c` is uppercase, by `char::is_uppercase`. The result is named,
/// not stated: it is `is_uppercase(c)`.
#[verifier::external_body]
pub(crate) fn char_is_uppercase(c: char) -> (r: bool)
    ensures
        r == is_uppercase(c),
{
    c.is_uppercase()
}

} // verus!
