//! BASE (Bielefeld Academic Search Engine): query syntax and document
//! records, whose fields may be a string or an array of strings.
use vstd::prelude::*;

use crate::json::{
    as_i64, dv, get, ji64, jget, jstr, jstr_at, jstr_list, str_at, str_list, str_of, Json,
};
use crate::models::{empty_paper, Paper, PaperView, SearchType};
use crate::search::january_first;
use crate::text::{
    chars_of, extend, has_prefix, int_dec_padded, ostr, owned, parse_i64, parse_i64_spec,
    starts_with_str, string_of, strip_prefix, strip_prefix_str, views,
};

verus! {

/// A field that is a string or an array of strings, as a list of strings
/// (non-string elements are skipped; any other value gives none).
pub open spec fn flex_list(v: Option<Json>) -> Seq<Seq<char>> {
    match jstr(v) {
        Some(s) => seq![s],
        None => jstr_list(v),
    }
}

/// The first string of a flexible field.
pub open spec fn flex_first(v: Option<Json>) -> Option<Seq<char>> {
    if flex_list(v).len() > 0 {
        Some(flex_list(v)[0])
    } else {
        None
    }
}

/// Reads a field that is a string or an array of strings.
pub fn flex_string_or_array(value: Option<&Json>) -> (r: Vec<String>)
    ensures
        views(r@) == flex_list(dv(value)),
{
    match str_of(value) {
        Some(s) => {
            let r = vec![s];
            assert(views(r@) =~= seq![s@]);
            r
        },
        None => str_list(value),
    }
}

/// The first string of a field that is a string or an array of strings.
pub fn flex_first_string(value: Option<&Json>) -> (r: Option<String>)
    ensures
        ostr(r) == flex_first(dv(value)),
{
    let mut v = flex_string_or_array(value);
    if v.len() > 0 {
        assert(views(v@)[0] == v@[0]@);
        Some(v.swap_remove(0))
    } else {
        None
    }
}

/// The DOI an identifier holds: the identifier itself when it starts with
/// `10.`, or what follows a `https://doi.org/` (else `http://doi.org/`)
/// prefix when that starts with `10.`.
pub open spec fn doi_in(id: Seq<char>) -> Option<Seq<char>> {
    if has_prefix(id, "10."@) {
        Some(id)
    } else {
        let rest = match strip_prefix(id, "https://doi.org/"@) {
            Some(r) => Some(r),
            None => strip_prefix(id, "http://doi.org/"@),
        };
        match rest {
            Some(r) => if has_prefix(r, "10."@) {
                Some(r)
            } else {
                None
            },
            None => None,
        }
    }
}

/// The DOI of the first identifier that holds one.
pub open spec fn first_doi(ids: Seq<Seq<char>>) -> Option<Seq<char>>
    decreases ids.len(),
{
    if ids.len() == 0 {
        None
    } else if doi_in(ids[0]) is Some {
        doi_in(ids[0])
    } else {
        first_doi(ids.drop_first())
    }
}

fn doi_in_exec(id: &String) -> (r: Option<String>)
    ensures
        ostr(r) == doi_in(id@),
{
    let v = chars_of(id.as_str());
    if starts_with_str(&v, "10.") {
        return Some(id.clone());
    }
    let rest = match strip_prefix_str(&v, "https://doi.org/") {
        Some(r) => Some(r),
        None => strip_prefix_str(&v, "http://doi.org/"),
    };
    match rest {
        Some(r) => {
            if starts_with_str(&r, "10.") {
                Some(string_of(&r))
            } else {
                None
            }
        },
        None => None,
    }
}

/// Finds a DOI among a record's identifiers.
pub fn extract_doi(identifiers: &Vec<String>) -> (r: Option<String>)
    ensures
        ostr(r) == first_doi(views(identifiers@)),
{
    let ghost ids = views(identifiers@);
    let mut i: usize = 0;
    assert(ids.skip(0) == ids);
    while i < identifiers.len()
        invariant
            i <= identifiers.len(),
            ids == views(identifiers@),
            first_doi(ids) == first_doi(ids.skip(i as int)),
        decreases identifiers.len() - i,
    {
        assert(ids.skip(i as int)[0] == identifiers@[i as int]@);
        assert(ids.skip(i as int).drop_first() == ids.skip(i + 1));
        let d = doi_in_exec(&identifiers[i]);
        if d.is_some() {
            return d;
        }
        i = i + 1;
    }
    None
}

/// The year of a record: a number, or a string holding one, narrowed to
/// `i32` as `as` does.
pub open spec fn record_year(v: Option<Json>) -> Option<i32> {
    match ji64(v) {
        Some(y) => Some(y as i32),
        None => match jstr(v) {
            Some(s) => match parse_i64_spec(s) {
                Some(y) => Some(y as i32),
                None => None,
            },
            None => None,
        },
    }
}

/// A BASE document as a paper.
pub open spec fn record_paper(d: Option<Json>) -> PaperView {
    let year = record_year(jget(d, "dcyear"@));
    PaperView {
        title: match flex_first(jget(d, "dctitle"@)) {
            Some(t) => t,
            None => "Unknown"@,
        },
        authors: flex_list(jget(d, "dcauthor"@)),
        year: year,
        published_date: match year {
            Some(y) => Some(int_dec_padded(y as int, 4) + "-01-01"@),
            None => None,
        },
        doi: first_doi(flex_list(jget(d, "dcidentifier"@))),
        abstract_text: match flex_first(jget(d, "dcdescription"@)) {
            Some(s) => if s.len() > 0 {
                Some(s)
            } else {
                None
            },
            None => None,
        },
        publisher: flex_first(jget(d, "dcpublisher"@)),
        work_type: flex_first(jget(d, "dctype"@)),
        url: jstr_at(d, "dclink"@),
        source: "base"@,
        ..empty_paper()
    }
}

fn record_year_exec(v: Option<&Json>) -> (r: Option<i32>)
    ensures
        r == record_year(dv(v)),
{
    match as_i64(v) {
        Some(y) => Some(y as i32),
        None => match str_of(v) {
            Some(s) => match parse_i64(&chars_of(s.as_str())) {
                Some(y) => Some(y as i32),
                None => None,
            },
            None => None,
        },
    }
}

/// Reads a BASE document record.
pub fn parse_record(doc: &Json) -> (p: Paper)
    ensures
        p@ == record_paper(Some(*doc)),
{
    let d = Some(doc);
    let year = record_year_exec(get(d, "dcyear"));
    let ids = flex_string_or_array(get(d, "dcidentifier"));
    let abstract_text = match flex_first_string(get(d, "dcdescription")) {
        Some(s) => if chars_of(s.as_str()).len() > 0 {
            Some(s)
        } else {
            None
        },
        None => None,
    };
    let p = Paper {
        title: match flex_first_string(get(d, "dctitle")) {
            Some(t) => t,
            None => owned("Unknown"),
        },
        authors: flex_string_or_array(get(d, "dcauthor")),
        abstract_text,
        doi: extract_doi(&ids),
        year,
        published_date: match year {
            Some(y) => Some(january_first(y)),
            None => None,
        },
        source: owned("base"),
        url: str_at(d, "dclink"),
        pdf_url: None,
        journal: None,
        volume: None,
        issue: None,
        pages: None,
        citation_count: None,
        publisher: flex_first_string(get(d, "dcpublisher")),
        isbn: None,
        issn: None,
        arxiv_id: None,
        work_type: flex_first_string(get(d, "dctype")),
        editors: Vec::new(),
        series: None,
        oclc: None,
        lccn: None,
    };
    assert(views(p.editors@) =~= seq![]);
    p
}

/// The BASE query for a search: `dctitle:` or `dcauthor:` before the
/// query, or the query itself.
pub open spec fn base_query(q: Seq<char>, t: SearchType) -> Seq<char> {
    match t {
        SearchType::Title => "dctitle:"@ + q,
        SearchType::Author => "dcauthor:"@ + q,
        _ => q,
    }
}

/// Phrases a query in BASE's syntax.
pub fn build_query(query: &str, search_type: SearchType) -> (r: String)
    ensures
        r@ == base_query(query@, search_type),
{
    match search_type {
        SearchType::Title => {
            let mut r = chars_of("dctitle:");
            extend(&mut r, &chars_of(query));
            string_of(&r)
        },
        SearchType::Author => {
            let mut r = chars_of("dcauthor:");
            extend(&mut r, &chars_of(query));
            string_of(&r)
        },
        _ => owned(query),
    }
}

} // verus!
