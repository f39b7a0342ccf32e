//! Unicode character properties, as std's `char` methods compute them.
//!
//! The properties come from the Unicode character database that std carries.
//! In ASCII they are stated outright; beyond ASCII each is named here, and
//! its wrapper states that the std method returns exactly that property.
use vstd::prelude::*;

verus! {

/// A character of the ASCII range.
pub open spec fn is_ascii_char(c: char) -> bool {
    (c as int) < 128
}

/// An ASCII upper-case letter.
pub open spec fn is_ascii_upper(c: char) -> bool {
    'A' <= c <= 'Z'
}

/// An ASCII lower-case letter.
pub open spec fn is_ascii_lower(c: char) -> bool {
    'a' <= c <= 'z'
}

/// An ASCII digit.
pub open spec fn is_ascii_digit(c: char) -> bool {
    '0' <= c <= '9'
}

/// The Unicode `Alphabetic` property of a character beyond ASCII.
pub uninterp spec fn unicode_alphabetic(c: char) -> bool;

/// The Unicode `Uppercase` property of a character beyond ASCII.
pub uninterp spec fn unicode_uppercase(c: char) -> bool;

/// Whether a character beyond ASCII is alphabetic or numeric.
pub uninterp spec fn unicode_alphanumeric(c: char) -> bool;

/// The characters of the Unicode upper-case mapping of a character beyond
/// ASCII.
pub uninterp spec fn unicode_uppercase_mapping(c: char) -> Seq<char>;

/// The Unicode `Alphabetic` property: in ASCII, exactly the letters.
pub open spec fn char_is_alphabetic(c: char) -> bool {
    if is_ascii_char(c) {
        is_ascii_upper(c) || is_ascii_lower(c)
    } else {
        unicode_alphabetic(c)
    }
}

/// The Unicode `Uppercase` property: in ASCII, exactly `A` to `Z`.
pub open spec fn char_is_uppercase(c: char) -> bool {
    if is_ascii_char(c) {
        is_ascii_upper(c)
    } else {
        unicode_uppercase(c)
    }
}

/// Whether a character is alphabetic or numeric: in ASCII, exactly the
/// letters and digits.
pub open spec fn char_is_alphanumeric(c: char) -> bool {
    if is_ascii_char(c) {
        is_ascii_upper(c) || is_ascii_lower(c) || is_ascii_digit(c)
    } else {
        unicode_alphanumeric(c)
    }
}

/// The characters of the Unicode upper-case mapping of a character: in
/// ASCII, `a` to `z` map to `A` to `Z` and every other character to itself.
pub open spec fn char_uppercase(c: char) -> Seq<char> {
    if is_ascii_lower(c) {
        seq![((c as int) - 32) as char]
    } else if is_ascii_char(c) {
        seq![c]
    } else {
        unicode_uppercase_mapping(c)
    }
}

/// Calls std's `char::is_alphabetic`, which returns the character's Unicode
/// `Alphabetic` property: the letters in ASCII, the named property beyond.
#[verifier::external_body]
pub(crate) fn is_alphabetic(c: char) -> (r: bool)
    ensures
        r == char_is_alphabetic(c),
        !is_ascii_char(c) ==> r == unicode_alphabetic(c),
{
    c.is_alphabetic()
}

/// Calls std's `char::is_uppercase`, which returns the character's Unicode
/// `Uppercase` property: `A` to `Z` in ASCII, the named property beyond.
#[verifier::external_body]
pub(crate) fn is_uppercase(c: char) -> (r: bool)
    ensures
        r == char_is_uppercase(c),
        !is_ascii_char(c) ==> r == unicode_uppercase(c),
{
    c.is_uppercase()
}

/// Calls std's `char::is_alphanumeric`: the letters and digits in ASCII,
/// the named property beyond.
#[verifier::external_body]
pub(crate) fn is_alphanumeric(c: char) -> (r: bool)
    ensures
        r == char_is_alphanumeric(c),
        !is_ascii_char(c) ==> r == unicode_alphanumeric(c),
{
    c.is_alphanumeric()
}

/// Calls std's `char::to_uppercase` and collects the mapping into a
/// `String`; the result holds the upper-case mapping of `c`, which std
/// documents as one to three characters.
#[verifier::external_body]
pub(crate) fn to_uppercase(c: char) -> (r: String)
    ensures
        r@ == char_uppercase(c),
        !is_ascii_char(c) ==> r@ == unicode_uppercase_mapping(c),
        1 <= r@.len() <= 3,
{
    c.to_uppercase().to_string()
}

} // verus!
