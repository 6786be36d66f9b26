//! The boundary to `smol_str`: the type, what a value of it holds, and the
//! calls that the library makes on it. Nothing here is proved; every contract
//! below is taken on trust from the source of `smol_str`.

use crate::text::text_lt;
use smol_str::SmolStr;
use vstd::prelude::*;

verus! {

/// `smol_str::SmolStr`, an immutable string. Nothing is known of a value but
/// the text that it holds, `smol_text`.
#[verifier::external_type_specification]
#[verifier::external_body]
pub struct ExSmolStr(SmolStr);

/// The text that a `SmolStr` holds: the characters of what `SmolStr::as_str`
/// gives, in order.
pub uninterp spec fn smol_text(s: SmolStr) -> Seq<char>;

/// Calls `SmolStr`'s `FromIterator<char>`, which builds the string that the
/// characters spell: the result holds exactly `chars`, in that order.
#[verifier::external_body]
pub(crate) fn smol_from_chars(chars: &[char]) -> (s: SmolStr)
    ensures
        smol_text(s) == chars@,
{
    chars.iter().copied().collect()
}

/// Calls `SmolStr`'s `==`, which compares the two strings: the result is true
/// exactly when both hold the same characters.
#[verifier::external_body]
pub(crate) fn smol_eq(a: &SmolStr, b: &SmolStr) -> (same: bool)
    ensures
        same == (smol_text(*a) == smol_text(*b)),
{
    a == b
}

/// Calls `SmolStr`'s `<`, which is the ordering of `str`: lexicographic by
/// byte, and so by code point. The result is true exactly when `a` stands
/// before `b` in that order.
#[verifier::external_body]
pub(crate) fn smol_lt(a: &SmolStr, b: &SmolStr) -> (before: bool)
    ensures
        before == text_lt(smol_text(*a), smol_text(*b)),
{
    a < b
}

} // verus!
