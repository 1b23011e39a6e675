//! Small trusted bridges to std's string functions that vstd gives no
//! specification for, together with the named results the contracts use.

use vstd::prelude::*;

verus! {

/// The character sequence that `str::to_lowercase` returns for a given one.
pub uninterp spec fn lower_of(s: Seq<char>) -> Seq<char>;

/// The character sequence that `str::trim` returns for a given one.
pub uninterp spec fn trim_of(s: Seq<char>) -> Seq<char>;

/// Whether `char::is_uppercase` holds of a character.
pub uninterp spec fn uppercase_char(c: char) -> bool;

/// A name prepared for case-insensitive comparison: trimmed, then lowercased.
pub open spec fn normal_of(s: Seq<char>) -> Seq<char> {
    lower_of(trim_of(s))
}

/// Relies on str::to_lowercase: the result is a function of the characters alone.
#[verifier::external_body]
pub(crate) fn str_lower(s: &str) -> (r: String)
    ensures
        r@ == lower_of(s@),
{
    s.to_lowercase()
}

/// Relies on str::trim: the result is a function of the characters alone.
#[verifier::external_body]
pub(crate) fn str_trim(s: &str) -> (r: &str)
    ensures
        r@ == trim_of(s@),
{
    s.trim()
}

/// Relies on char::is_uppercase: the result is a function of the character alone.
#[verifier::external_body]
pub(crate) fn char_is_uppercase(c: char) -> (r: bool)
    ensures
        r == uppercase_char(c),
{
    c.is_uppercase()
}

/// Whether `p` is a prefix of `s`.
pub open spec fn has_prefix(s: Seq<char>, p: Seq<char>) -> bool {
    s.len() >= p.len() && s.subrange(0, p.len() as int) == p
}

/// Relies on str::starts_with: true exactly when `prefix` is a prefix of `s`.
#[verifier::external_body]
pub(crate) fn str_starts_with(s: &str, prefix: &str) -> (r: bool)
    ensures
        r == has_prefix(s@, prefix@),
{
    s.starts_with(prefix)
}

/// Relies on str's PartialEq: slices are equal exactly when their characters are.
#[verifier::external_body]
pub(crate) fn str_eq(a: &str, b: &str) -> (r: bool)
    ensures
        r == (a@ == b@),
{
    a == b
}

/// Trim whitespace from both ends of a name and lowercase what remains.
pub(crate) fn normalize_name(s: &str) -> (r: String)
    ensures
        r@ == normal_of(s@),
{
    str_lower(str_trim(s))
}

} // verus!
