//! Regular expressions, matched by the `regex` crate.
//!
//! The library hands the crate the patterns the queries, records and pages
//! are read with. What a match yields is named by spec functions without a
//! body; for each pattern in use, the trusted items below also state the
//! answer outright, in the terms the rest of the library speaks.
use vstd::prelude::*;

use crate::provider::arxiv::{arxiv_doi_suffix, arxiv_id_of, collapse_ws};
use crate::provider::mdpi::article_path;
use crate::provider::sci_hub::pdf_in_text;
use crate::provider::ssrn::abstract_id;
use crate::search::{author_shape, doi_query, isbn_char, isbn_shape};
use crate::text::{is_digit, ostr};

verus! {

/// Whether `pattern` matches somewhere in `text` (`Regex::is_match`); a
/// pattern that does not compile matches nothing.
pub uninterp spec fn regex_matches(pattern: Seq<char>, text: Seq<char>) -> bool;

/// The text of the first group of the leftmost match of `pattern` in `text`
/// (`Regex::captures`).
pub uninterp spec fn regex_capture(pattern: Seq<char>, text: Seq<char>) -> Option<Seq<char>>;

/// `text` with every match of `pattern` replaced by `with`
/// (`Regex::replace_all`).
pub uninterp spec fn regex_replaced(pattern: Seq<char>, text: Seq<char>, with: Seq<char>) -> Seq<char>;

/// A DOI query, bare or as a `doi.org` link.
pub open spec fn doi_pattern() -> Seq<char> {
    "^(?:https?://doi\\.org/)?10\\.\\d{4,}/\\S+$"@
}

/// An ISBN-10 or ISBN-13, after everything but digits and `X` is dropped.
pub open spec fn isbn_pattern() -> Seq<char> {
    "^(?:\\d{9}[\\dXx]|97[89]\\d{10})$"@
}

/// A query that starts like `Surname, I`.
pub open spec fn author_pattern() -> Seq<char> {
    "^[A-Z][a-z]+,\\s*[A-Z]"@
}

/// One decimal digit, the whole text.
pub open spec fn digit_class() -> Seq<char> {
    "\\A\\d\\z"@
}

/// One word character, the whole text.
pub open spec fn word_class() -> Seq<char> {
    "\\A\\w\\z"@
}

/// One ASCII letter, the whole text.
pub open spec fn letter_class() -> Seq<char> {
    "\\A[a-zA-Z]\\z"@
}

/// A run of white space.
pub open spec fn ws_pattern() -> Seq<char> {
    "\\s+"@
}

/// The identifier at the end of an arXiv `abs/` address.
pub open spec fn abs_pattern() -> Seq<char> {
    "abs/(.+?)(?:v\\d+)?$"@
}

/// What follows `arXiv.` in an arXiv DOI.
pub open spec fn arxiv_doi_pattern() -> Seq<char> {
    "arXiv\\.(.+)"@
}

/// The article path of an MDPI address.
pub open spec fn mdpi_pattern() -> Seq<char> {
    "mdpi\\.com/(\\d+-\\d+/\\d+/\\d+/\\d+)"@
}

/// The abstract id of an SSRN address.
pub open spec fn ssrn_pattern() -> Seq<char> {
    "abstract_id=(\\d+)"@
}

/// A bare PDF address in page text.
pub open spec fn pdf_pattern() -> Seq<char> {
    "(https?://[^\\s\"'<>]+\\.pdf)"@
}

/// An ASCII word character: a digit, a letter or `_`.
pub open spec fn ascii_word(c: char) -> bool {
    ('0' <= c && c <= '9') || ('a' <= c && c <= 'z') || ('A' <= c && c <= 'Z') || c == '_'
}

/// An ASCII letter.
pub open spec fn ascii_letter(c: char) -> bool {
    (97 <= (c as u32) <= 122) || (65 <= (c as u32) <= 90)
}

/// Every character of `t` is an ASCII digit, `X` or `x`.
pub open spec fn isbn_text(t: Seq<char>) -> bool {
    forall|i: int| 0 <= i < t.len() ==> isbn_char(#[trigger] t[i])
}

/// `Regex::new(pattern)`, then `is_match(text)`; `false` when the pattern
/// does not compile. For the patterns the library uses, the crate's syntax
/// (Unicode classes: `\d` decimal digits, `\s` white space, `\w` word
/// characters whose ASCII members are digits, letters and `_`; `.` any
/// character but a line break; `^` and `$` the ends of the text) gives the
/// answer stated below.
#[verifier::external_body]
pub(crate) fn is_match(pattern: &str, text: &str) -> (r: bool)
    ensures
        r == regex_matches(pattern@, text@),
        pattern@ == doi_pattern() ==> (r <==> doi_query(text@)),
        pattern@ == isbn_pattern() && isbn_text(text@) ==> (r <==> isbn_shape(text@)),
        pattern@ == author_pattern() ==> (r <==> author_shape(text@)),
        pattern@ == digit_class() && text@.len() == 1 && (text@[0] as u32) < 128 ==> (r <==> is_digit(
            text@[0],
        )),
        pattern@ == word_class() && text@.len() == 1 && (text@[0] as u32) < 128 ==> (r <==> ascii_word(
            text@[0],
        )),
        pattern@ == letter_class() && text@.len() == 1 ==> (r <==> ascii_letter(text@[0])),
{
    match regex::Regex::new(pattern) {
        Ok(re) => re.is_match(text),
        Err(_) => false,
    }
}

/// `Regex::new(pattern)`, then `captures(text)` and its first group; `None`
/// where nothing matches or the pattern does not compile. Matches are
/// leftmost-first, `+` greedy and `+?` lazy, so for the patterns the
/// library uses the group is the one stated below.
#[verifier::external_body]
pub(crate) fn first_capture(pattern: &str, text: &str) -> (r: Option<String>)
    ensures
        ostr(r) == regex_capture(pattern@, text@),
        pattern@ == abs_pattern() ==> ostr(r) == arxiv_id_of(text@),
        pattern@ == arxiv_doi_pattern() ==> ostr(r) == arxiv_doi_suffix(text@),
        pattern@ == mdpi_pattern() ==> ostr(r) == article_path(text@),
        pattern@ == ssrn_pattern() ==> ostr(r) == abstract_id(text@),
        pattern@ == pdf_pattern() ==> ostr(r) == pdf_in_text(text@),
{
    match regex::Regex::new(pattern) {
        Ok(re) => match re.captures(text) {
            Some(c) => c.get(1).map(|m| m.as_str().to_string()),
            None => None,
        },
        Err(_) => None,
    }
}

/// `Regex::new(pattern)`, then `replace_all(text, with)`; the text as it
/// was when the pattern does not compile. A run of white space replaced by
/// one space is the collapse stated below.
#[verifier::external_body]
pub(crate) fn replace_all(pattern: &str, text: &str, with: &str) -> (r: String)
    ensures
        r@ == regex_replaced(pattern@, text@, with@),
        pattern@ == ws_pattern() && with@ == " "@ ==> r@ == collapse_ws(text@),
{
    match regex::Regex::new(pattern) {
        Ok(re) => re.replace_all(text, with).into_owned(),
        Err(_) => text.to_string(),
    }
}

} // verus!
