//! Unpaywall: the record of a DOI and its best open-access location.
use vstd::prelude::*;

use crate::json::{get, jget, ji64, jstr, jstr_at, jstr_or, str_at, str_of, str_or, Json};
use crate::models::{doi_url, doi_url_exec, empty_paper, Paper, PaperView};
use crate::provider::crossref::contributor_list;
use crate::text::{chars_of, ostr, owned, views};

verus! {

/// The PDF address of the best open-access location: its `url_for_pdf`,
/// or, when that member is missing, its `url`.
pub open spec fn best_pdf(data: Option<Json>) -> Option<Seq<char>> {
    let loc = jget(data, "best_oa_location"@);
    match jget(loc, "url_for_pdf"@) {
        Some(v) => jstr(Some(v)),
        None => jstr_at(loc, "url"@),
    }
}

/// Finds the PDF address of an Unpaywall record.
pub fn best_pdf_url(data: &Json) -> (r: Option<String>)
    ensures
        ostr(r) == best_pdf(Some(*data)),
{
    let loc = get(Some(data), "best_oa_location");
    match get(loc, "url_for_pdf") {
        Some(v) => str_of(Some(v)),
        None => str_at(loc, "url"),
    }
}

/// An Unpaywall record for `doi` as a paper.
pub open spec fn record_paper(doi: Seq<char>, d: Option<Json>) -> PaperView {
    PaperView {
        title: jstr_or(jget(d, "title"@), "Unknown"@),
        authors: contributor_list(jget(d, "z_authors"@)),
        doi: Some(doi),
        year: match ji64(jget(d, "year"@)) {
            Some(y) => Some(y as i32),
            None => None,
        },
        published_date: jstr_at(d, "published_date"@),
        source: "unpaywall"@,
        url: Some(doi_url(doi)),
        pdf_url: best_pdf(d),
        journal: jstr_at(d, "journal_name"@),
        ..empty_paper()
    }
}

/// Reads the Unpaywall record of `doi`.
pub fn parse_record(doi: &str, data: &Json) -> (p: Paper)
    ensures
        p@ == record_paper(doi@, Some(*data)),
{
    let d = Some(data);
    let p = Paper {
        title: str_or(get(d, "title"), "Unknown"),
        authors: crate::provider::crossref::contributor_names(get(d, "z_authors")),
        abstract_text: None,
        doi: Some(owned(doi)),
        year: match crate::json::as_i64(get(d, "year")) {
            Some(y) => Some(y as i32),
            None => None,
        },
        published_date: str_at(d, "published_date"),
        source: owned("unpaywall"),
        url: Some(doi_url_exec(&chars_of(doi))),
        pdf_url: best_pdf_url(data),
        journal: str_at(d, "journal_name"),
        volume: None,
        issue: None,
        pages: None,
        citation_count: None,
        publisher: None,
        isbn: None,
        issn: None,
        arxiv_id: None,
        work_type: None,
        editors: Vec::new(),
        series: None,
        oclc: None,
        lccn: None,
    };
    assert(views(p.editors@) =~= seq![]);
    p
}

} // verus!
