//! DOAJ (Directory of Open Access Journals): query syntax, the path
//! encoding of a query, and article records.
use vstd::prelude::*;

use crate::json::{
    as_array, get, jarr, jget, jmember_list, jstr_at, jstr_or, member_list, str_at, str_of, str_or,
    Json,
};
use crate::models::{doi_url, doi_url_exec, empty_paper, Paper, PaperView, SearchType};
use crate::provider::{without_doi_link, without_doi_link_exec};
use crate::text::{
    chars_of, extend, extend_str, fmt_int_padded, int_dec_padded, ostr, owned, parse_i32,
    parse_i32_spec, parse_u32, parse_u32_spec, string_of,
};

verus! {

// ---------------------------------------------------------------------------
// Queries
// ---------------------------------------------------------------------------
/// The DOAJ query for a search: `doi:`, `title:` or `author:` before the
/// query, or the query itself for keywords and ISBNs.
pub open spec fn doaj_query(q: Seq<char>, t: SearchType) -> Seq<char> {
    match t {
        SearchType::Doi => "doi:"@ + without_doi_link(q),
        SearchType::Title => "title:"@ + q,
        SearchType::Author => "author:"@ + q,
        _ => q,
    }
}

/// Phrases a query in DOAJ's search syntax.
pub fn build_query(query: &str, search_type: SearchType) -> (r: String)
    ensures
        r@ == doaj_query(query@, search_type),
{
    let q = chars_of(query);
    match search_type {
        SearchType::Doi => {
            let mut r = chars_of("doi:");
            extend(&mut r, &without_doi_link_exec(&q));
            string_of(&r)
        },
        SearchType::Title => {
            let mut r = chars_of("title:");
            extend(&mut r, &q);
            string_of(&r)
        },
        SearchType::Author => {
            let mut r = chars_of("author:");
            extend(&mut r, &q);
            string_of(&r)
        },
        _ => owned(query),
    }
}

/// The bytes a URL path segment cannot hold as they are: control bytes,
/// non-ASCII bytes, space, `#`, `?`, `%`, `[` and `]`.
pub open spec fn encoded_byte(b: u8) -> bool {
    b < 0x20 || b >= 0x7f || b == 0x20 || b == 0x23 || b == 0x3f || b == 0x25 || b == 0x5b || b
        == 0x5d
}

/// The upper-case hexadecimal digit for `d < 16`.
pub open spec fn hex_digit(d: u8) -> char {
    if d < 10 {
        ((d + 48) as u8) as char
    } else {
        ((d + 55) as u8) as char
    }
}

/// Percent-encoding of UTF-8 bytes for a path segment: each byte that
/// cannot stand as it is becomes `%` and two upper-case hexadecimal digits.
pub open spec fn percent_encoded(bytes: Seq<u8>) -> Seq<char>
    decreases bytes.len(),
{
    if bytes.len() == 0 {
        seq![]
    } else {
        let b = bytes.last();
        percent_encoded(bytes.drop_last()) + if encoded_byte(b) {
            seq!['%', hex_digit(b / 16), hex_digit(b % 16)]
        } else {
            seq![b as char]
        }
    }
}

fn hex(d: u8) -> (c: char)
    requires
        d < 16,
    ensures
        c == hex_digit(d),
{
    if d < 10 {
        (d + 48) as char
    } else {
        (d + 55) as char
    }
}

/// Percent-encodes a query for use as a URL path segment.
pub fn encode_path_segment(q: &str) -> (r: String)
    ensures
        r@ == percent_encoded(vstd::utf8::encode_utf8(q@)),
{
    let bytes = q.as_bytes();
    let mut out: Vec<char> = Vec::new();
    let mut i: usize = 0;
    while i < bytes.len()
        invariant
            i <= bytes.len(),
            bytes@ == vstd::utf8::encode_utf8(q@),
            out@ == percent_encoded(bytes@.take(i as int)),
        decreases bytes.len() - i,
    {
        let b = bytes[i];
        assert(bytes@.take(i + 1).drop_last() == bytes@.take(i as int));
        assert(bytes@.take(i + 1).last() == b);
        if b < 0x20 || b >= 0x7f || b == 0x20 || b == 0x23 || b == 0x3f || b == 0x25 || b == 0x5b
            || b == 0x5d {
            out.push('%');
            out.push(hex(b / 16));
            out.push(hex(b % 16));
        } else {
            out.push(b as char);
        }
        i = i + 1;
    }
    assert(bytes@.take(bytes.len() as int) == bytes@);
    string_of(&out)
}

// ---------------------------------------------------------------------------
// Article records
// ---------------------------------------------------------------------------
/// The first identifier whose type is `t1` or `t2` and that has a string
/// `id`, as that id.
pub open spec fn find_identifier(ids: Seq<Json>, t1: Seq<char>, t2: Seq<char>) -> Option<
    Seq<char>,
>
    decreases ids.len(),
{
    if ids.len() == 0 {
        None
    } else {
        let e = Some(ids[0]);
        let ty = jstr_at(e, "type"@);
        if (ty == Some(t1) || ty == Some(t2)) && jstr_at(e, "id"@) is Some {
            jstr_at(e, "id"@)
        } else {
            find_identifier(ids.drop_first(), t1, t2)
        }
    }
}

/// Finds the first identifier of type `t1` or `t2` that has an id.
fn find_identifier_exec(ids: &Vec<Json>, t1: &str, t2: &str) -> (r: Option<String>)
    ensures
        ostr(r) == find_identifier(ids@, t1@, t2@),
{
    let mut i: usize = 0;
    let a = chars_of(t1);
    let b = chars_of(t2);
    assert(ids@.skip(0) == ids@);
    while i < ids.len()
        invariant
            i <= ids.len(),
            a@ == t1@ && b@ == t2@,
            find_identifier(ids@, t1@, t2@) == find_identifier(ids@.skip(i as int), t1@, t2@),
        decreases ids.len() - i,
    {
        assert(ids@.skip(i as int)[0] == ids@[i as int]);
        assert(ids@.skip(i as int).drop_first() == ids@.skip(i + 1));
        let e = Some(&ids[i]);
        let matches = match str_of(get(e, "type")) {
            Some(ty) => {
                let tv = chars_of(ty.as_str());
                crate::text::eq_chars(&tv, &a) || crate::text::eq_chars(&tv, &b)
            },
            None => false,
        };
        if matches {
            match str_at(e, "id") {
                Some(id) => {
                    return Some(id);
                },
                None => {},
            }
        }
        i = i + 1;
    }
    None
}

/// The DOI of an article record: the first `doi` identifier, without a
/// DOI link prefix; absent when empty.
pub open spec fn article_doi(b: Option<Json>) -> Option<Seq<char>> {
    let ids = match jarr(jget(b, "identifier"@)) {
        Some(a) => a,
        None => seq![],
    };
    match find_identifier(ids, "doi"@, "doi"@) {
        Some(d) => if without_doi_link(d).len() > 0 {
            Some(without_doi_link(d))
        } else {
            None
        },
        None => None,
    }
}

/// The ISSN of an article record: the first `eissn` or `pissn` identifier.
pub open spec fn article_issn(b: Option<Json>) -> Option<Seq<char>> {
    let ids = match jarr(jget(b, "identifier"@)) {
        Some(a) => a,
        None => seq![],
    };
    find_identifier(ids, "eissn"@, "pissn"@)
}

/// The pages of an article: `start-end` when both are given and not empty,
/// else the start page when it is not empty.
pub open spec fn article_pages(s: Option<Seq<char>>, e: Option<Seq<char>>) -> Option<Seq<char>> {
    match (s, e) {
        (Some(s), Some(e)) => if s.len() > 0 && e.len() > 0 {
            Some(s + "-"@ + e)
        } else if s.len() > 0 {
            Some(s)
        } else {
            None
        },
        (Some(s), None) => if s.len() > 0 {
            Some(s)
        } else {
            None
        },
        _ => None,
    }
}

/// The publication date: `YYYY-MM-01` from the year and month, or
/// `YYYY-01-01` from the year alone.
pub open spec fn article_date(year: Option<i32>, month: Option<u32>) -> Option<Seq<char>> {
    match year {
        Some(y) => match month {
            Some(m) => Some(int_dec_padded(y as int, 4) + "-"@ + int_dec_padded(m as int, 2)
                + "-01"@),
            None => Some(int_dec_padded(y as int, 4) + "-01-01"@),
        },
        None => None,
    }
}

/// The bibliographic part of an article: its `bibjson` member, or the
/// article itself.
pub open spec fn bibjson(a: Option<Json>) -> Option<Json> {
    match jget(a, "bibjson"@) {
        Some(b) => Some(b),
        None => a,
    }
}

/// A DOAJ article as a paper.
pub open spec fn article_paper(a: Option<Json>) -> PaperView {
    let b = bibjson(a);
    let j = jget(b, "journal"@);
    let year = match jstr_at(b, "year"@) {
        Some(y) => parse_i32_spec(y),
        None => None,
    };
    let month = match jstr_at(b, "month"@) {
        Some(m) => parse_u32_spec(m),
        None => None,
    };
    let doi = article_doi(b);
    PaperView {
        title: jstr_or(jget(b, "title"@), "Unknown"@),
        authors: jmember_list(jget(b, "author"@), "name"@),
        abstract_text: match jstr_at(b, "abstract"@) {
            Some(s) => if s.len() > 0 {
                Some(s)
            } else {
                None
            },
            None => None,
        },
        doi: doi,
        year: year,
        published_date: article_date(year, month),
        source: "doaj"@,
        url: match jstr_at(crate::json::jfirst(jget(b, "link"@)), "url"@) {
            Some(u) => Some(u),
            None => match doi {
                Some(d) => Some(doi_url(d)),
                None => None,
            },
        },
        journal: jstr_at(j, "title"@),
        volume: jstr_at(j, "volume"@),
        issue: jstr_at(j, "number"@),
        pages: article_pages(jstr_at(b, "start_page"@), jstr_at(b, "end_page"@)),
        publisher: jstr_at(j, "publisher"@),
        issn: article_issn(b),
        work_type: Some("journal-article"@),
        ..empty_paper()
    }
}

fn nonempty(o: Option<String>) -> (r: Option<String>)
    ensures
        ostr(r) == match ostr(o) {
            Some(s) => if s.len() > 0 {
                Some(s)
            } else {
                None
            },
            None => None,
        },
{
    match o {
        Some(s) => {
            if chars_of(s.as_str()).len() > 0 {
                Some(s)
            } else {
                None
            }
        },
        None => None,
    }
}

fn pages_exec(s: Option<String>, e: Option<String>) -> (r: Option<String>)
    ensures
        ostr(r) == article_pages(ostr(s), ostr(e)),
{
    match (s, e) {
        (Some(s), Some(e)) => {
            let sv = chars_of(s.as_str());
            let ev = chars_of(e.as_str());
            if sv.len() > 0 && ev.len() > 0 {
                let mut r = sv;
                extend_str(&mut r, "-");
                extend(&mut r, &ev);
                Some(string_of(&r))
            } else if sv.len() > 0 {
                Some(s)
            } else {
                None
            }
        },
        (Some(s), None) => {
            if chars_of(s.as_str()).len() > 0 {
                Some(s)
            } else {
                None
            }
        },
        _ => None,
    }
}

fn date_exec(year: Option<i32>, month: Option<u32>) -> (r: Option<String>)
    ensures
        ostr(r) == article_date(year, month),
{
    match year {
        Some(y) => {
            let mut d = fmt_int_padded(y as i64, 4);
            match month {
                Some(m) => {
                    extend_str(&mut d, "-");
                    extend(&mut d, &fmt_int_padded(m as i64, 2));
                    extend_str(&mut d, "-01");
                },
                None => {
                    extend_str(&mut d, "-01-01");
                },
            }
            Some(string_of(&d))
        },
        None => None,
    }
}

/// Reads a DOAJ article record.
pub fn parse_article(article: &Json) -> (p: Paper)
    ensures
        p@ == article_paper(Some(*article)),
{
    let b = match get(Some(article), "bibjson") {
        Some(b) => b,
        None => article,
    };
    let bo = Some(b);
    let j = get(bo, "journal");
    let year = match str_at(bo, "year") {
        Some(y) => parse_i32(&chars_of(y.as_str())),
        None => None,
    };
    let month = match str_at(bo, "month") {
        Some(m) => parse_u32(&chars_of(m.as_str())),
        None => None,
    };
    let empty: Vec<Json> = Vec::new();
    let ids = match as_array(get(bo, "identifier")) {
        Some(a) => a,
        None => &empty,
    };
    let doi = match find_identifier_exec(ids, "doi", "doi") {
        Some(d) => {
            let stripped = without_doi_link_exec(&chars_of(d.as_str()));
            if stripped.len() > 0 {
                Some(string_of(&stripped))
            } else {
                None
            }
        },
        None => None,
    };
    let url = match str_at(crate::json::first(get(bo, "link")), "url") {
        Some(u) => Some(u),
        None => match &doi {
            Some(d) => Some(doi_url_exec(&chars_of(d.as_str()))),
            None => None,
        },
    };
    let p = Paper {
        title: str_or(get(bo, "title"), "Unknown"),
        authors: member_list(get(bo, "author"), "name"),
        abstract_text: nonempty(str_at(bo, "abstract")),
        doi,
        year,
        published_date: date_exec(year, month),
        source: owned("doaj"),
        url,
        pdf_url: None,
        journal: str_at(j, "title"),
        volume: str_at(j, "volume"),
        issue: str_at(j, "number"),
        pages: pages_exec(str_at(bo, "start_page"), str_at(bo, "end_page")),
        citation_count: None,
        publisher: str_at(j, "publisher"),
        isbn: None,
        issn: find_identifier_exec(ids, "eissn", "pissn"),
        arxiv_id: None,
        work_type: Some(owned("journal-article")),
        editors: Vec::new(),
        series: None,
        oclc: None,
        lccn: None,
    };
    assert(crate::text::views(p.editors@) =~= seq![]);
    p
}

} // verus!
