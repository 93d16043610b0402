//! HathiTrust: catalog records of the Bibliographic API.
use vstd::prelude::*;

use crate::json::{first, first_str, get, jfirst, jget, jstr, jstr_at, jstr_or, str_at, Json};
use crate::models::{empty_paper, Paper, PaperView};
use crate::provider::{extract_year, year_in};
use crate::text::{
    chars_of, extend, extend_str, owned, replace_char, replace_char_exec, string_of, views,
};

verus! {

/// A catalog record, with the item list of the answer, as a paper.
pub open spec fn catalog_paper(record: Option<Json>, items: Seq<Json>) -> PaperView {
    let date = jstr(jfirst(jget(record, "publishDates"@)));
    PaperView {
        title: jstr_or(jfirst(jget(record, "titles"@)), "Unknown"@),
        year: match date {
            Some(d) => year_in(d),
            None => None,
        },
        published_date: date,
        isbn: jstr(jfirst(jget(record, "isbns"@))),
        oclc: jstr(jfirst(jget(record, "oclcs"@))),
        lccn: jstr(jfirst(jget(record, "lccns"@))),
        url: if items.len() > 0 {
            jstr_at(Some(items[0]), "itemURL"@)
        } else {
            None
        },
        source: "hathitrust"@,
        ..empty_paper()
    }
}

/// Reads a catalog record.
pub fn parse_catalog_entry(record: &Json, items: &Vec<Json>) -> (p: Paper)
    ensures
        p@ == catalog_paper(Some(*record), items@),
{
    let r = Some(record);
    let date = first_str(get(r, "publishDates"));
    let year = match &date {
        Some(d) => extract_year(d.as_str()),
        None => None,
    };
    let url = if items.len() > 0 {
        str_at(Some(&items[0]), "itemURL")
    } else {
        None
    };
    let p = Paper {
        title: match first_str(get(r, "titles")) {
            Some(t) => t,
            None => owned("Unknown"),
        },
        authors: Vec::new(),
        abstract_text: None,
        doi: None,
        year,
        published_date: date,
        source: owned("hathitrust"),
        url,
        pdf_url: None,
        journal: None,
        volume: None,
        issue: None,
        pages: None,
        citation_count: None,
        publisher: None,
        isbn: first_str(get(r, "isbns")),
        issn: None,
        arxiv_id: None,
        work_type: None,
        editors: Vec::new(),
        series: None,
        oclc: first_str(get(r, "oclcs")),
        lccn: first_str(get(r, "lccns")),
    };
    assert(views(p.authors@) =~= seq![]);
    assert(views(p.editors@) =~= seq![]);
    p
}

/// The path of an ISBN lookup: `/isbn/` and the ISBN without hyphens, then
/// `.json`.
pub open spec fn isbn_path(q: Seq<char>) -> Seq<char> {
    "/isbn/"@ + replace_char(q, '-', seq![]) + ".json"@
}

/// The path an ISBN is looked up at.
pub fn lookup_path(query: &str) -> (r: String)
    ensures
        r@ == isbn_path(query@),
{
    let mut v = chars_of("/isbn/");
    extend(&mut v, &replace_char_exec(&chars_of(query), '-', &Vec::new()));
    extend_str(&mut v, ".json");
    string_of(&v)
}

/// The record an answer is read from: the first member of its `records`
/// object, when there is one.
pub open spec fn first_record(data: Option<Json>) -> Option<Json> {
    match jget(data, "records"@) {
        Some(Json::Object(m)) => if m@.len() > 0 {
            Some(m@[0].1)
        } else {
            None
        },
        _ => None,
    }
}

/// The papers of a lookup answer: the first record with the answer's
/// items, or none.
pub open spec fn lookup_papers(data: Option<Json>) -> Seq<PaperView> {
    match first_record(data) {
        Some(rec) => seq![
            catalog_paper(
                Some(rec),
                match crate::json::jarr(jget(data, "items"@)) {
                    Some(a) => a,
                    None => seq![],
                },
            ),
        ],
        None => seq![],
    }
}

/// Reads a lookup answer.
pub fn parse_lookup(data: &Json) -> (r: Vec<Paper>)
    ensures
        crate::search::paper_views(r@) == lookup_papers(Some(*data)),
{
    let d = Some(data);
    let rec = match get(d, "records") {
        Some(Json::Object(m)) => if m.len() > 0 {
            &m[0].1
        } else {
            return Vec::new();
        },
        _ => {
            return Vec::new();
        },
    };
    let empty: Vec<Json> = Vec::new();
    let items = match crate::json::as_array(get(d, "items")) {
        Some(a) => a,
        None => &empty,
    };
    let p = parse_catalog_entry(rec, items);
    let r = vec![p];
    assert(crate::search::paper_views(r@) =~= seq![p@]);
    r
}

} // verus!
