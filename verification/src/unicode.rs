//! Unicode character data that the library takes from std, `regex` and
//! `unicode-normalization` rather than spelling out the tables.
//!
//! Each function here makes one outside call; what it returns is named by a
//! spec function without a body, so that contracts elsewhere can speak of
//! it exactly.
use unicode_normalization::UnicodeNormalization;
use vstd::prelude::*;

use crate::pattern::{
    ascii_letter, ascii_word, digit_class, is_match, letter_class, regex_matches, word_class,
};
use crate::text::{is_digit, string_of};

verus! {

/// The NFKD (compatibility decomposition) form of a string.
pub uninterp spec fn nfkd(s: Seq<char>) -> Seq<char>;

/// Whether `c` has the Unicode general category Mark.
pub uninterp spec fn combining_mark(c: char) -> bool;

/// The characters `char::to_lowercase` yields for `c`.
pub uninterp spec fn char_lower(c: char) -> Seq<char>;

/// Whether `c` is alphabetic or numeric in the sense of
/// `char::is_alphanumeric`.
pub uninterp spec fn alphanumeric(c: char) -> bool;

/// The result of `str::to_lowercase`.
pub uninterp spec fn str_lower(s: Seq<char>) -> Seq<char>;

/// A Unicode decimal digit, as the regular expression class `\d` has it.
pub open spec fn unicode_digit(c: char) -> bool {
    regex_matches(digit_class(), seq![c])
}

/// A word character, as the regular expression class `\w` has it.
pub open spec fn word_char(c: char) -> bool {
    regex_matches(word_class(), seq![c])
}

/// Whether the one-character text `c` matches `pattern`.
fn char_matches(pattern: &str, c: char) -> (r: bool)
    ensures
        r == regex_matches(pattern@, seq![c]),
        pattern@ == digit_class() && (c as u32) < 128 ==> (r <==> is_digit(c)),
        pattern@ == word_class() && (c as u32) < 128 ==> (r <==> ascii_word(c)),
        pattern@ == letter_class() ==> (r <==> ascii_letter(c)),
{
    let mut v: Vec<char> = Vec::new();
    v.push(c);
    assert(v@ =~= seq![c]);
    let s = string_of(&v);
    is_match(pattern, s.as_str())
}

/// Whether `c` is a word character (`\w`).
pub(crate) fn is_word_char(c: char) -> (r: bool)
    ensures
        r == word_char(c),
        (c as u32) < 128 ==> (r <==> ascii_word(c)),
{
    char_matches("\\A\\w\\z", c)
}

/// Whether `c` matches the class `[a-zA-Z]`.
pub(crate) fn is_ascii_letter(c: char) -> (r: bool)
    ensures
        r == ascii_letter(c),
{
    char_matches("\\A[a-zA-Z]\\z", c)
}

/// The NFKD form of `s` (`UnicodeNormalization::nfkd`).
#[verifier::external_body]
pub(crate) fn nfkd_of(s: &str) -> (r: String)
    ensures
        r@ == nfkd(s@),
{
    s.nfkd().collect()
}

/// `unicode_normalization::char::is_combining_mark`.
#[verifier::external_body]
pub(crate) fn is_combining_mark(c: char) -> (r: bool)
    ensures
        r == combining_mark(c),
{
    unicode_normalization::char::is_combining_mark(c)
}

/// The lower-case mapping of `c` (`char::to_lowercase`).
#[verifier::external_body]
pub(crate) fn lowercase_of(c: char) -> (r: Vec<char>)
    ensures
        r@ == char_lower(c),
{
    c.to_lowercase().collect()
}

/// `char::is_alphanumeric`.
#[verifier::external_body]
pub(crate) fn is_alphanumeric(c: char) -> (r: bool)
    ensures
        r == alphanumeric(c),
{
    c.is_alphanumeric()
}

/// `str::to_lowercase`.
#[verifier::external_body]
pub(crate) fn to_lowercase(s: &str) -> (r: String)
    ensures
        r@ == str_lower(s@),
{
    s.to_lowercase()
}

} // verus!
