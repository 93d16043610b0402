//! Crossref: work records, contributor names, JATS abstracts and the
//! correction that files a book's container title as its series.
use vstd::prelude::*;

use crate::html::{html_text, text_of_html};
use crate::json::{
    as_array, as_i64, at, dv, first, first_str, get, jarr, jat, jfirst, jget, ji64, jstr, jstr_at,
    jstr_or, str_at, str_of, Json,
};
use crate::models::{doi_url, doi_url_exec, empty_paper, Paper, PaperView, SearchType};
use crate::text::{
    chars_of, extend, extend_str, fmt_int_padded, has_prefix, int_dec_padded, ostr, owned,
    starts_with_str, str_eq, string_of, trim, trim_chars, trim_start_matches,
    trim_start_matches_str, views,
};

verus! {

/// The text of a JATS-tagged abstract; other abstracts as they are.
pub open spec fn jats_stripped(t: Seq<char>) -> Seq<char> {
    if has_prefix(t, "<jats:"@) || has_prefix(t, "<jats"@) {
        html_text(t)
    } else {
        t
    }
}

/// Strips JATS markup from an abstract.
pub fn strip_jats(text: &str) -> (r: String)
    ensures
        r@ == jats_stripped(text@),
{
    let v = chars_of(text);
    if starts_with_str(&v, "<jats:") || starts_with_str(&v, "<jats") {
        text_of_html(text)
    } else {
        owned(text)
    }
}

/// The first link whose content type is `application/pdf`, by its `URL`.
pub open spec fn pdf_link_in(links: Seq<Json>) -> Option<Seq<char>>
    decreases links.len(),
{
    if links.len() == 0 {
        None
    } else if jstr_at(Some(links[0]), "content-type"@) == Some("application/pdf"@) {
        jstr_at(Some(links[0]), "URL"@)
    } else {
        pdf_link_in(links.drop_first())
    }
}

/// The PDF link of a work record.
pub open spec fn pdf_link(item: Option<Json>) -> Option<Seq<char>> {
    match jarr(jget(item, "link"@)) {
        Some(ls) => pdf_link_in(ls),
        None => None,
    }
}

/// Finds the PDF link of a work record.
pub fn find_pdf_link(item: &Json) -> (r: Option<String>)
    ensures
        ostr(r) == pdf_link(Some(*item)),
{
    let links = match as_array(get(Some(item), "link")) {
        Some(a) => a,
        None => {
            return None;
        },
    };
    let want = chars_of("application/pdf");
    let mut i: usize = 0;
    assert(links@.skip(0) == links@);
    while i < links.len()
        invariant
            i <= links.len(),
            want@ == "application/pdf"@,
            pdf_link(Some(*item)) == pdf_link_in(links@.skip(i as int)),
        decreases links.len() - i,
    {
        assert(links@.skip(i as int)[0] == links@[i as int]);
        assert(links@.skip(i as int).drop_first() == links@.skip(i + 1));
        let e = Some(&links[i]);
        let is_pdf = match str_at(e, "content-type") {
            Some(ct) => str_eq(ct.as_str(), &want),
            None => false,
        };
        if is_pdf {
            return str_at(e, "URL");
        }
        i = i + 1;
    }
    None
}

/// The work types whose first container title names a book or series.
pub open spec fn book_like(t: Option<Seq<char>>) -> bool {
    match t {
        Some(t) => t == "book-chapter"@ || t == "book"@ || t == "monograph"@ || t == "book-part"@
            || t == "book-section"@ || t == "edited-book"@,
        None => false,
    }
}

/// Whether a work type is book-like.
pub fn is_book_like_type(work_type: Option<&str>) -> (r: bool)
    ensures
        r == book_like(match work_type {
            Some(t) => Some(t@),
            None => None,
        }),
{
    match work_type {
        Some(t) => {
            let v = chars_of(t);
            str_eq("book-chapter", &v) || str_eq("book", &v) || str_eq("monograph", &v) || str_eq(
                "book-part",
                &v,
            ) || str_eq("book-section", &v) || str_eq("edited-book", &v)
        },
        None => false,
    }
}

/// A contributor's name: given and family name with a space between,
/// trimmed; `None` when nothing is left.
pub open spec fn contributor(p: Option<Json>) -> Option<Seq<char>> {
    let n = trim(jstr_or(jget(p, "given"@), seq![]) + " "@ + jstr_or(jget(p, "family"@), seq![]));
    if n.len() > 0 {
        Some(n)
    } else {
        None
    }
}

/// The name of a contributor record.
pub fn contributor_name(person: &Json) -> (r: Option<String>)
    ensures
        ostr(r) == contributor(Some(*person)),
{
    let p = Some(person);
    let mut n: Vec<char> = match str_at(p, "given") {
        Some(g) => chars_of(g.as_str()),
        None => Vec::new(),
    };
    extend_str(&mut n, " ");
    match str_at(p, "family") {
        Some(f) => extend(&mut n, &chars_of(f.as_str())),
        None => {
            assert(n@ + seq![] == n@);
        },
    }
    let t = trim_chars(&n);
    if t.len() > 0 {
        Some(string_of(&t))
    } else {
        None
    }
}

/// The names of the contributors in a list that have one.
pub open spec fn contributors(a: Seq<Json>) -> Seq<Seq<char>>
    decreases a.len(),
{
    if a.len() == 0 {
        seq![]
    } else {
        contributors(a.drop_last()) + match contributor(Some(a.last())) {
            Some(n) => seq![n],
            None => seq![],
        }
    }
}

/// The contributor names of an array value.
pub open spec fn contributor_list(v: Option<Json>) -> Seq<Seq<char>> {
    match jarr(v) {
        Some(a) => contributors(a),
        None => seq![],
    }
}

pub(crate) fn contributor_names(v: Option<&Json>) -> (r: Vec<String>)
    ensures
        views(r@) == contributor_list(dv(v)),
{
    let mut r: Vec<String> = Vec::new();
    match as_array(v) {
        Some(a) => {
            let mut i: usize = 0;
            while i < a.len()
                invariant
                    i <= a.len(),
                    views(r@) == contributors(a@.take(i as int)),
                decreases a.len() - i,
            {
                assert(a@.take(i + 1).drop_last() == a@.take(i as int));
                assert(a@.take(i + 1).last() == a@[i as int]);
                let ghost before = views(r@);
                match contributor_name(&a[i]) {
                    Some(n) => {
                        r.push(n);
                        assert(views(r@) =~= before.push(n@));
                    },
                    None => {},
                }
                i = i + 1;
            }
            assert(a@.take(a.len() as int) == a@);
        },
        None => {},
    }
    r
}

/// The (year, month, day) a date record gives: its first `date-parts`
/// entry, when that starts with a year; month and day default to 1.
pub open spec fn date_parts(d: Option<Json>) -> Option<(i64, i64, i64)> {
    let parts = jfirst(jget(d, "date-parts"@));
    match jarr(parts) {
        Some(_) => match ji64(jfirst(parts)) {
            Some(y) => Some(
                (
                    y,
                    match ji64(jat(parts, 1)) {
                        Some(m) => m,
                        None => 1,
                    },
                    match ji64(jat(parts, 2)) {
                        Some(d) => d,
                        None => 1,
                    },
                ),
            ),
            None => None,
        },
        None => None,
    }
}

/// The date of a work: from `published-print`, else `published-online`,
/// else `created`.
pub open spec fn work_date(item: Option<Json>) -> Option<(i64, i64, i64)> {
    match date_parts(jget(item, "published-print"@)) {
        Some(d) => Some(d),
        None => match date_parts(jget(item, "published-online"@)) {
            Some(d) => Some(d),
            None => date_parts(jget(item, "created"@)),
        },
    }
}

/// `YYYY-MM-DD`, each part zero-padded.
pub open spec fn ymd(d: (i64, i64, i64)) -> Seq<char> {
    int_dec_padded(d.0 as int, 4) + "-"@ + int_dec_padded(d.1 as int, 2) + "-"@ + int_dec_padded(
        d.2 as int,
        2,
    )
}

fn date_parts_exec(d: Option<&Json>) -> (r: Option<(i64, i64, i64)>)
    ensures
        r == date_parts(dv(d)),
{
    let parts = first(get(d, "date-parts"));
    match as_array(parts) {
        Some(_) => match as_i64(first(parts)) {
            Some(y) => {
                let m = match as_i64(at(parts, 1)) {
                    Some(m) => m,
                    None => 1,
                };
                let dd = match as_i64(at(parts, 2)) {
                    Some(x) => x,
                    None => 1,
                };
                Some((y, m, dd))
            },
            None => None,
        },
        None => None,
    }
}

fn ymd_exec(d: (i64, i64, i64)) -> (r: String)
    ensures
        r@ == ymd(d),
{
    let mut s = fmt_int_padded(d.0, 4);
    extend_str(&mut s, "-");
    extend(&mut s, &fmt_int_padded(d.1, 2));
    extend_str(&mut s, "-");
    extend(&mut s, &fmt_int_padded(d.2, 2));
    string_of(&s)
}

/// The journal and series of a work: the first and second container
/// titles, except that a book-like work with a single container title has
/// it as its series.
pub open spec fn journal_series(item: Option<Json>) -> (Option<Seq<char>>, Option<Seq<char>>) {
    let ct = jget(item, "container-title"@);
    let journal = jstr(jfirst(ct));
    let series = jstr(jat(ct, 1));
    let n = match jarr(ct) {
        Some(a) => a.len(),
        None => 0,
    };
    if book_like(jstr_at(item, "type"@)) && series is None && journal is Some && n == 1 {
        (None, journal)
    } else {
        (journal, series)
    }
}

/// A Crossref work as a paper.
pub open spec fn item_paper(item: Option<Json>) -> PaperView {
    let doi = match jstr_at(item, "DOI"@) {
        Some(d) => if trim_start_matches(d, "https://doi.org/"@).len() > 0 {
            Some(trim_start_matches(d, "https://doi.org/"@))
        } else {
            None
        },
        None => None,
    };
    let date = work_date(item);
    PaperView {
        title: jstr_or(jfirst(jget(item, "title"@)), "Unknown"@),
        authors: contributor_list(jget(item, "author"@)),
        abstract_text: match jstr_at(item, "abstract"@) {
            Some(a) => Some(jats_stripped(a)),
            None => None,
        },
        doi: doi,
        year: match date {
            Some(d) => Some(d.0 as i32),
            None => None,
        },
        published_date: match date {
            Some(d) => Some(ymd(d)),
            None => None,
        },
        source: "crossref"@,
        url: match doi {
            Some(d) => Some(doi_url(d)),
            None => None,
        },
        pdf_url: pdf_link(item),
        journal: journal_series(item).0,
        volume: jstr_at(item, "volume"@),
        issue: jstr_at(item, "issue"@),
        pages: jstr_at(item, "page"@),
        publisher: jstr_at(item, "publisher"@),
        isbn: jstr(jfirst(jget(item, "ISBN"@))),
        issn: jstr(jfirst(jget(item, "ISSN"@))),
        work_type: jstr_at(item, "type"@),
        editors: contributor_list(jget(item, "editor"@)),
        series: journal_series(item).1,
        ..empty_paper()
    }
}

/// Reads a Crossref work record.
pub fn parse_item(item: &Json) -> (p: Paper)
    ensures
        p@ == item_paper(Some(*item)),
{
    let it = Some(item);
    let doi = match str_at(it, "DOI") {
        Some(d) => {
            let t = trim_start_matches_str(&chars_of(d.as_str()), "https://doi.org/");
            if t.len() > 0 {
                Some(string_of(&t))
            } else {
                None
            }
        },
        None => None,
    };
    let date = match date_parts_exec(get(it, "published-print")) {
        Some(d) => Some(d),
        None => match date_parts_exec(get(it, "published-online")) {
            Some(d) => Some(d),
            None => date_parts_exec(get(it, "created")),
        },
    };
    let (year, published_date) = match date {
        Some(d) => (Some(d.0 as i32), Some(ymd_exec(d))),
        None => (None, None),
    };
    let work_type = str_at(it, "type");
    let ct = get(it, "container-title");
    let journal = first_str(ct);
    let series = str_of(at(ct, 1));
    let n = match as_array(ct) {
        Some(a) => a.len(),
        None => 0,
    };
    let book = match &work_type {
        Some(t) => is_book_like_type(Some(t.as_str())),
        None => is_book_like_type(None),
    };
    let (journal, series) = if book && series.is_none() && journal.is_some() && n == 1 {
        (None, journal)
    } else {
        (journal, series)
    };
    let url = match &doi {
        Some(d) => Some(doi_url_exec(&chars_of(d.as_str()))),
        None => None,
    };
    Paper {
        title: match first_str(get(it, "title")) {
            Some(t) => t,
            None => owned("Unknown"),
        },
        authors: contributor_names(get(it, "author")),
        abstract_text: match str_at(it, "abstract") {
            Some(a) => Some(strip_jats(a.as_str())),
            None => None,
        },
        doi,
        year,
        published_date,
        source: owned("crossref"),
        url,
        pdf_url: find_pdf_link(item),
        journal,
        volume: str_at(it, "volume"),
        issue: str_at(it, "issue"),
        pages: str_at(it, "page"),
        citation_count: None,
        publisher: str_at(it, "publisher"),
        isbn: first_str(get(it, "ISBN")),
        issn: first_str(get(it, "ISSN")),
        arxiv_id: None,
        work_type,
        editors: contributor_names(get(it, "editor")),
        series,
        oclc: None,
        lccn: None,
    }
}

/// The query parameter Crossref takes a non-DOI search in, and its value:
/// `query.author`, `query.title`, an `isbn:` filter on the ISBN's digits
/// and `X`s, or `query`.
pub open spec fn search_param(q: Seq<char>, t: SearchType) -> (Seq<char>, Seq<char>) {
    match t {
        SearchType::Author => ("query.author"@, q),
        SearchType::Title => ("query.title"@, q),
        SearchType::Isbn => ("filter"@, "isbn:"@ + crate::search::isbn_chars(q)),
        _ => ("query"@, q),
    }
}

/// The parameter a non-DOI search is sent in.
pub fn search_parameter(query: &str, search_type: SearchType) -> (r: (String, String))
    ensures
        (r.0@, r.1@) == search_param(query@, search_type),
{
    match search_type {
        SearchType::Author => (owned("query.author"), owned(query)),
        SearchType::Title => (owned("query.title"), owned(query)),
        SearchType::Isbn => {
            let mut v = chars_of("isbn:");
            extend(&mut v, &crate::search::isbn_chars_exec(&chars_of(query)));
            (owned("filter"), string_of(&v))
        },
        _ => (owned("query"), owned(query)),
    }
}

/// The DOI a DOI search looks up: the query without leading
/// `https://doi.org/` prefixes.
pub fn lookup_doi(query: &str) -> (r: String)
    ensures
        r@ == trim_start_matches(query@, "https://doi.org/"@),
{
    string_of(&trim_start_matches_str(&chars_of(query), "https://doi.org/"))
}

} // verus!
