use vstd::prelude::*;

verus! {

/// Whether `c` has the Unicode `Alphabetic` property (the result of `char::is_alphabetic`).
pub uninterp spec fn char_is_alphabetic(c: char) -> bool;

/// Whether `c` is in one of the Unicode numeric general categories (the result of
/// `char::is_numeric`).
pub uninterp spec fn char_is_numeric(c: char) -> bool;

/// Whether `c` has the Unicode `White_Space` property (the result of `char::is_whitespace`).
pub uninterp spec fn char_is_whitespace(c: char) -> bool;

/// `char::is_alphanumeric`, which std documents as `is_alphabetic() || is_numeric()`.
pub open spec fn char_is_alphanumeric(c: char) -> bool {
    char_is_alphabetic(c) || char_is_numeric(c)
}

/// Calls `char::is_alphabetic`; its result is named by `char_is_alphabetic`. Of an
/// ASCII character the contract also states what std documents: exactly the ASCII
/// letters are alphabetic.
#[verifier::external_body]
pub fn is_alphabetic(c: char) -> (r: bool)
    ensures
        r == char_is_alphabetic(c),
        (c as u32) < 0x80 ==> (r <==> ('a' <= c <= 'z' || 'A' <= c <= 'Z')),
{
    c.is_alphabetic()
}

/// Calls `char::is_numeric`; its result is named by `char_is_numeric`. Of an ASCII
/// character the contract also states that exactly the digits `0` to `9` are numeric.
#[verifier::external_body]
pub fn is_numeric(c: char) -> (r: bool)
    ensures
        r == char_is_numeric(c),
        (c as u32) < 0x80 ==> (r <==> '0' <= c <= '9'),
{
    c.is_numeric()
}

/// Calls `char::is_alphanumeric`, which std documents as true exactly when the character
/// is alphabetic or numeric; of an ASCII character, exactly the letters and digits.
#[verifier::external_body]
pub fn is_alphanumeric(c: char) -> (r: bool)
    ensures
        r == char_is_alphanumeric(c),
        (c as u32) < 0x80 ==> (r <==> ('a' <= c <= 'z' || 'A' <= c <= 'Z' || '0' <= c <= '9')),
{
    c.is_alphanumeric()
}

/// Calls `char::is_whitespace`; its result is named by `char_is_whitespace`. Of an
/// ASCII character the contract also states what the `White_Space` property holds:
/// space, and tab through carriage return (tab, line feed, vertical tab, form feed,
/// carriage return).
#[verifier::external_body]
pub fn is_whitespace(c: char) -> (r: bool)
    ensures
        r == char_is_whitespace(c),
        (c as u32) < 0x80 ==> (r <==> (c == ' ' || '\t' <= c <= '\r')),
{
    c.is_whitespace()
}

} // verus!
