//! Google Books: volume records, the ISBN a volume is listed under, and
//! query syntax.
use vstd::prelude::*;

use crate::bibliography::ascii_lower;
use crate::json::{
    as_array, get, jarr, jget, jstr_at, jstr_list, jstr_or, str_at, str_list, str_or, Json,
};
use crate::models::{empty_paper, Paper, PaperView, SearchType};
use crate::provider::{date_year, date_year_exec};
use crate::text::{chars_of, extend, ostr, owned, replace_char, replace_char_exec, str_eq, string_of, views};

verus! {

/// The `identifier` of the first entry of type `ty`; `None` when there is
/// no such entry or it has no identifier.
pub open spec fn identifier_of_type(ids: Seq<Json>, ty: Seq<char>) -> Option<Seq<char>>
    decreases ids.len(),
{
    if ids.len() == 0 {
        None
    } else if jstr_at(Some(ids[0]), "type"@) == Some(ty) {
        jstr_at(Some(ids[0]), "identifier"@)
    } else {
        identifier_of_type(ids.drop_first(), ty)
    }
}

/// Whether there is an entry of type `ty`.
pub open spec fn has_type(ids: Seq<Json>, ty: Seq<char>) -> bool {
    exists|i: int| 0 <= i < ids.len() && jstr_at(Some(ids[i]), "type"@) == Some(ty)
}

/// The ISBN a volume is listed under: its ISBN-13 entry when it has one,
/// else its ISBN-10 entry.
pub open spec fn volume_isbn(ids: Seq<Json>) -> Option<Seq<char>> {
    if has_type(ids, "ISBN_13"@) {
        identifier_of_type(ids, "ISBN_13"@)
    } else {
        identifier_of_type(ids, "ISBN_10"@)
    }
}

/// The identifier of the first entry of type `ty`, and whether there is one.
fn find_type(ids: &Vec<Json>, ty: &str) -> (r: (bool, Option<String>))
    ensures
        r.0 == has_type(ids@, ty@),
        ostr(r.1) == identifier_of_type(ids@, ty@),
{
    let t = chars_of(ty);
    let mut i: usize = 0;
    assert(ids@.skip(0) == ids@);
    while i < ids.len()
        invariant
            i <= ids.len(),
            t@ == ty@,
            identifier_of_type(ids@, ty@) == identifier_of_type(ids@.skip(i as int), ty@),
            forall|k: int| 0 <= k < i ==> jstr_at(Some(#[trigger] ids@[k]), "type"@) != Some(ty@),
        decreases ids.len() - i,
    {
        assert(ids@.skip(i as int)[0] == ids@[i as int]);
        assert(ids@.skip(i as int).drop_first() == ids@.skip(i + 1));
        let e = Some(&ids[i]);
        let found = match str_at(e, "type") {
            Some(x) => str_eq(x.as_str(), &t),
            None => false,
        };
        if found {
            return (true, str_at(e, "identifier"));
        }
        i = i + 1;
    }
    (false, None)
}

/// Picks the ISBN a volume is listed under.
pub fn pick_isbn(identifiers: &Vec<Json>) -> (r: Option<String>)
    ensures
        ostr(r) == volume_isbn(identifiers@),
{
    let (has13, isbn13) = find_type(identifiers, "ISBN_13");
    if has13 {
        return isbn13;
    }
    find_type(identifiers, "ISBN_10").1
}

/// ASCII letters of `s` in lower case (`str::to_ascii_lowercase`).
pub open spec fn ascii_lowercase(s: Seq<char>) -> Seq<char> {
    s.map_values(|c: char| ascii_lower(c))
}

fn ascii_lowercase_exec(s: &str) -> (r: String)
    ensures
        r@ == ascii_lowercase(s@),
{
    let v = chars_of(s);
    let mut out: Vec<char> = Vec::new();
    let mut i: usize = 0;
    while i < v.len()
        invariant
            i <= v.len(),
            v@ == s@,
            out@ == ascii_lowercase(s@).take(i as int),
        decreases v.len() - i,
    {
        let c = v[i];
        let u = c as u32;
        let l = if 65 <= u && u <= 90 {
            ((u + 32) as u8) as char
        } else {
            c
        };
        assert(l == ascii_lower(c));
        out.push(l);
        assert(out@ =~= ascii_lowercase(s@).take(i + 1));
        i = i + 1;
    }
    assert(ascii_lowercase(s@).take(v.len() as int) == ascii_lowercase(s@));
    string_of(&out)
}

/// A Google Books volume as a paper.
pub open spec fn volume_paper(item: Option<Json>) -> PaperView {
    let info = match jget(item, "volumeInfo"@) {
        Some(i) => Some(i),
        None => Some(Json::Null),
    };
    let date = jstr_at(info, "publishedDate"@);
    PaperView {
        title: jstr_or(jget(info, "title"@), "Unknown"@),
        authors: jstr_list(jget(info, "authors"@)),
        abstract_text: jstr_at(info, "description"@),
        year: date_year(date),
        published_date: date,
        publisher: jstr_at(info, "publisher"@),
        isbn: match jarr(jget(info, "industryIdentifiers"@)) {
            Some(ids) => volume_isbn(ids),
            None => None,
        },
        work_type: match jstr_at(info, "printType"@) {
            Some(t) => Some(ascii_lowercase(t)),
            None => None,
        },
        url: jstr_at(info, "infoLink"@),
        source: "google_books"@,
        ..empty_paper()
    }
}

/// Reads a Google Books volume.
pub fn parse_volume(item: &Json) -> (p: Paper)
    ensures
        p@ == volume_paper(Some(*item)),
{
    let null = Json::Null;
    let info = match get(Some(item), "volumeInfo") {
        Some(i) => Some(i),
        None => Some(&null),
    };
    let date = str_at(info, "publishedDate");
    let p = Paper {
        title: str_or(get(info, "title"), "Unknown"),
        authors: str_list(get(info, "authors")),
        abstract_text: str_at(info, "description"),
        doi: None,
        year: date_year_exec(&date),
        published_date: date,
        source: owned("google_books"),
        url: str_at(info, "infoLink"),
        pdf_url: None,
        journal: None,
        volume: None,
        issue: None,
        pages: None,
        citation_count: None,
        publisher: str_at(info, "publisher"),
        isbn: match as_array(get(info, "industryIdentifiers")) {
            Some(ids) => pick_isbn(ids),
            None => None,
        },
        issn: None,
        arxiv_id: None,
        work_type: match str_at(info, "printType") {
            Some(t) => Some(ascii_lowercase_exec(t.as_str())),
            None => None,
        },
        editors: Vec::new(),
        series: None,
        oclc: None,
        lccn: None,
    };
    assert(views(p.editors@) =~= seq![]);
    p
}

/// The `q` parameter of a search: `intitle:`, `inauthor:` or `isbn:` (the
/// ISBN without hyphens) before the query, or the query itself.
pub open spec fn books_query(q: Seq<char>, t: SearchType) -> Seq<char> {
    match t {
        SearchType::Title => "intitle:"@ + q,
        SearchType::Author => "inauthor:"@ + q,
        SearchType::Isbn => "isbn:"@ + replace_char(q, '-', seq![]),
        _ => q,
    }
}

/// Phrases a query for Google Books.
pub fn build_query(query: &str, search_type: SearchType) -> (r: String)
    ensures
        r@ == books_query(query@, search_type),
{
    let q = chars_of(query);
    match search_type {
        SearchType::Title => {
            let mut v = chars_of("intitle:");
            extend(&mut v, &q);
            string_of(&v)
        },
        SearchType::Author => {
            let mut v = chars_of("inauthor:");
            extend(&mut v, &q);
            string_of(&v)
        },
        SearchType::Isbn => {
            let mut v = chars_of("isbn:");
            extend(&mut v, &replace_char_exec(&q, '-', &Vec::new()));
            string_of(&v)
        },
        _ => owned(query),
    }
}

/// The page size asked for: at most 40 volumes.
pub fn max_results(limit: usize) -> (r: usize)
    ensures
        r == if limit < 40 { limit } else { 40 },
{
    if limit < 40 {
        limit
    } else {
        40
    }
}

} // verus!
