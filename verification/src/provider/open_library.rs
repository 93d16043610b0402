//! Open Library: search documents, ISBN records, and the ISBN a book is
//! listed under.
use vstd::prelude::*;

use crate::json::{as_array, first, first_str, get, ji64, jarr, jfirst, jget, jstr, jstr_at, jstr_list, jstr_or, str_at, str_list, str_of, str_or, Json};
use crate::models::{empty_paper, Paper, PaperView, SearchType};
use crate::provider::{extract_year, year_in};
use crate::search::january_first;
use crate::text::{chars_of, extend, int_dec_padded, ostr, owned, replace_char, replace_char_exec, string_of, views};

verus! {

/// The number of bytes of the UTF-8 encoding of `s` (`str::len`).
pub open spec fn byte_len(s: Seq<char>) -> nat
    decreases s.len(),
{
    if s.len() == 0 {
        0
    } else {
        byte_len(s.drop_last()) + crate::text::utf8_len(s.last())
    }
}

/// Whether an ISBN has 13 bytes once its hyphens are removed.
pub open spec fn is_isbn13(s: Seq<char>) -> bool {
    byte_len(replace_char(s, '-', seq![])) == 13
}

proof fn lemma_byte_len_grows(s: Seq<char>, i: int)
    requires
        0 <= i <= s.len(),
    ensures
        byte_len(s.take(i)) <= byte_len(s),
    decreases s.len() - i,
{
    if i < s.len() {
        lemma_byte_len_grows(s, i + 1);
        assert(s.take(i + 1).drop_last() == s.take(i));
    } else {
        assert(s.take(i) == s);
    }
}

/// Whether `s` is 13 bytes long.
fn thirteen_bytes(s: &Vec<char>) -> (r: bool)
    ensures
        r == (byte_len(s@) == 13),
{
    let mut n: usize = 0;
    let mut i: usize = 0;
    while i < s.len()
        invariant
            i <= s.len(),
            n == byte_len(s@.take(i as int)),
            n <= 13,
        decreases s.len() - i,
    {
        assert(s@.take(i + 1).drop_last() == s@.take(i as int));
        assert(s@.take(i + 1).last() == s@[i as int]);
        let k = crate::text::char_utf8_len(s[i]);
        if n + k > 13 {
            proof {
                lemma_byte_len_grows(s@, i + 1);
            }
            return false;
        }
        n = n + k;
        i = i + 1;
    }
    assert(s@.take(s.len() as int) == s@);
    n == 13
}

/// The first string of the list that is an ISBN-13.
pub open spec fn first_isbn13(a: Seq<Json>) -> Option<Seq<char>>
    decreases a.len(),
{
    if a.len() == 0 {
        None
    } else {
        match jstr(Some(a[0])) {
            Some(s) => if is_isbn13(s) {
                Some(s)
            } else {
                first_isbn13(a.drop_first())
            },
            None => first_isbn13(a.drop_first()),
        }
    }
}

/// The ISBN a book is listed under: the first ISBN-13, else the first
/// entry when it is a string.
pub open spec fn book_isbn(a: Seq<Json>) -> Option<Seq<char>> {
    match first_isbn13(a) {
        Some(s) => Some(s),
        None => if a.len() > 0 {
            jstr(Some(a[0]))
        } else {
            None
        },
    }
}

/// Picks the ISBN a book is listed under.
pub fn pick_isbn(isbns: &Vec<Json>) -> (r: Option<String>)
    ensures
        ostr(r) == book_isbn(isbns@),
{
    let mut i: usize = 0;
    assert(isbns@.skip(0) == isbns@);
    while i < isbns.len()
        invariant
            i <= isbns.len(),
            first_isbn13(isbns@) == first_isbn13(isbns@.skip(i as int)),
        decreases isbns.len() - i,
    {
        assert(isbns@.skip(i as int)[0] == isbns@[i as int]);
        assert(isbns@.skip(i as int).drop_first() == isbns@.skip(i + 1));
        match str_of(Some(&isbns[i])) {
            Some(s) => {
                let stripped = replace_char_exec(&chars_of(s.as_str()), '-', &Vec::new());
                if thirteen_bytes(&stripped) {
                    return Some(s);
                }
            },
            None => {},
        }
        i = i + 1;
    }
    assert(isbns@.skip(isbns.len() as int) =~= Seq::<Json>::empty());
    if isbns.len() > 0 {
        str_of(Some(&isbns[0]))
    } else {
        None
    }
}

/// The Open Library address of a key.
pub open spec fn key_url(key: Option<Seq<char>>) -> Option<Seq<char>> {
    match key {
        Some(k) => Some("https://openlibrary.org"@ + k),
        None => None,
    }
}

fn key_url_exec(key: Option<String>) -> (r: Option<String>)
    ensures
        ostr(r) == key_url(ostr(key)),
{
    match key {
        Some(k) => {
            let mut v = chars_of("https://openlibrary.org");
            extend(&mut v, &chars_of(k.as_str()));
            Some(string_of(&v))
        },
        None => None,
    }
}

/// A search document as a paper.
pub open spec fn doc_paper(d: Option<Json>) -> PaperView {
    let year = match ji64(jget(d, "first_publish_year"@)) {
        Some(y) => Some(y as i32),
        None => None,
    };
    PaperView {
        title: jstr_or(jget(d, "title"@), "Unknown"@),
        authors: jstr_list(jget(d, "author_name"@)),
        year: year,
        published_date: match year {
            Some(y) => Some(int_dec_padded(y as int, 4) + "-01-01"@),
            None => None,
        },
        isbn: match jarr(jget(d, "isbn"@)) {
            Some(a) => book_isbn(a),
            None => None,
        },
        publisher: jstr(jfirst(jget(d, "publisher"@))),
        oclc: jstr(jfirst(jget(d, "oclc"@))),
        lccn: jstr(jfirst(jget(d, "lccn"@))),
        url: key_url(jstr_at(d, "key"@)),
        source: "open_library"@,
        ..empty_paper()
    }
}

/// Reads a search document.
pub fn parse_doc(doc: &Json) -> (p: Paper)
    ensures
        p@ == doc_paper(Some(*doc)),
{
    let d = Some(doc);
    let year = match crate::json::as_i64(get(d, "first_publish_year")) {
        Some(y) => Some(y as i32),
        None => None,
    };
    let p = Paper {
        title: str_or(get(d, "title"), "Unknown"),
        authors: str_list(get(d, "author_name")),
        abstract_text: None,
        doi: None,
        year,
        published_date: match year {
            Some(y) => Some(january_first(y)),
            None => None,
        },
        source: owned("open_library"),
        url: key_url_exec(str_at(d, "key")),
        pdf_url: None,
        journal: None,
        volume: None,
        issue: None,
        pages: None,
        citation_count: None,
        publisher: first_str(get(d, "publisher")),
        isbn: match as_array(get(d, "isbn")) {
            Some(a) => pick_isbn(a),
            None => None,
        },
        issn: None,
        arxiv_id: None,
        work_type: None,
        editors: Vec::new(),
        series: None,
        oclc: first_str(get(d, "oclc")),
        lccn: first_str(get(d, "lccn")),
    };
    assert(views(p.editors@) =~= seq![]);
    p
}

/// An ISBN record as a paper.
pub open spec fn isbn_paper(d: Option<Json>) -> PaperView {
    let date = jstr_at(d, "publish_date"@);
    PaperView {
        title: jstr_or(jget(d, "title"@), "Unknown"@),
        year: match date {
            Some(s) => year_in(s),
            None => None,
        },
        published_date: date,
        publisher: jstr(jfirst(jget(d, "publishers"@))),
        isbn: match jstr(jfirst(jget(d, "isbn_13"@))) {
            Some(s) => Some(s),
            None => jstr(jfirst(jget(d, "isbn_10"@))),
        },
        oclc: jstr(jfirst(jget(d, "oclcs"@))),
        lccn: jstr(jfirst(jget(d, "lccn"@))),
        url: key_url(jstr_at(d, "key"@)),
        source: "open_library"@,
        ..empty_paper()
    }
}

/// Reads an ISBN record.
pub fn parse_isbn_result(data: &Json) -> (p: Paper)
    ensures
        p@ == isbn_paper(Some(*data)),
{
    let d = Some(data);
    let date = str_at(d, "publish_date");
    let year = match &date {
        Some(s) => extract_year(s.as_str()),
        None => None,
    };
    let p = Paper {
        title: str_or(get(d, "title"), "Unknown"),
        authors: Vec::new(),
        abstract_text: None,
        doi: None,
        year,
        published_date: date,
        source: owned("open_library"),
        url: key_url_exec(str_at(d, "key")),
        pdf_url: None,
        journal: None,
        volume: None,
        issue: None,
        pages: None,
        citation_count: None,
        publisher: first_str(get(d, "publishers")),
        isbn: match first_str(get(d, "isbn_13")) {
            Some(s) => Some(s),
            None => first_str(get(d, "isbn_10")),
        },
        issn: None,
        arxiv_id: None,
        work_type: None,
        editors: Vec::new(),
        series: None,
        oclc: first_str(get(d, "oclcs")),
        lccn: first_str(get(d, "lccn")),
    };
    assert(views(p.authors@) =~= seq![]);
    assert(views(p.editors@) =~= seq![]);
    p
}

/// The parameter a search is sent in: `title`, `author` or `q`.
pub open spec fn search_param_name(t: SearchType) -> Seq<char> {
    match t {
        SearchType::Title => "title"@,
        SearchType::Author => "author"@,
        _ => "q"@,
    }
}

/// The parameter a search is sent in.
pub fn param_name(search_type: SearchType) -> (r: &'static str)
    ensures
        r@ == search_param_name(search_type),
{
    match search_type {
        SearchType::Title => "title",
        SearchType::Author => "author",
        _ => "q",
    }
}

/// The path of an ISBN lookup.
pub fn isbn_lookup_path(query: &str) -> (r: String)
    ensures
        r@ == crate::provider::hathitrust::isbn_path(query@),
{
    crate::provider::hathitrust::lookup_path(query)
}

} // verus!
