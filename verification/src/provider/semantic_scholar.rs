//! Semantic Scholar: paper records and open-access PDF links.
use vstd::prelude::*;

use crate::json::{get, ji64, jget, jmember_list, jstr_at, jstr_or, member_list, str_at, str_or, Json};
use crate::models::{empty_paper, Paper, PaperView};
use crate::text::{ostr, owned, views};

verus! {

/// A Semantic Scholar paper record as a paper.
pub open spec fn record_paper(d: Option<Json>) -> PaperView {
    let j = jget(d, "journal"@);
    PaperView {
        title: jstr_or(jget(d, "title"@), "Unknown"@),
        authors: jmember_list(jget(d, "authors"@), "name"@),
        abstract_text: jstr_at(d, "abstract"@),
        doi: jstr_at(jget(d, "externalIds"@), "DOI"@),
        year: match ji64(jget(d, "year"@)) {
            Some(y) => Some(y as i32),
            None => None,
        },
        source: "semantic_scholar"@,
        url: jstr_at(d, "url"@),
        pdf_url: jstr_at(jget(d, "openAccessPdf"@), "url"@),
        journal: jstr_at(j, "name"@),
        volume: jstr_at(j, "volume"@),
        pages: jstr_at(j, "pages"@),
        citation_count: ji64(jget(d, "citationCount"@)),
        ..empty_paper()
    }
}

/// Reads a Semantic Scholar paper record.
pub fn parse_paper(data: &Json) -> (p: Paper)
    ensures
        p@ == record_paper(Some(*data)),
{
    let d = Some(data);
    let j = get(d, "journal");
    let p = Paper {
        title: str_or(get(d, "title"), "Unknown"),
        authors: member_list(get(d, "authors"), "name"),
        abstract_text: str_at(d, "abstract"),
        doi: str_at(get(d, "externalIds"), "DOI"),
        year: match crate::json::as_i64(get(d, "year")) {
            Some(y) => Some(y as i32),
            None => None,
        },
        published_date: None,
        source: owned("semantic_scholar"),
        url: str_at(d, "url"),
        pdf_url: open_access_pdf(data),
        journal: str_at(j, "name"),
        volume: str_at(j, "volume"),
        issue: None,
        pages: str_at(j, "pages"),
        citation_count: crate::json::as_i64(get(d, "citationCount")),
        publisher: None,
        isbn: None,
        issn: None,
        arxiv_id: None,
        work_type: None,
        editors: Vec::new(),
        series: None,
        oclc: None,
        lccn: None,
    };
    assert(views(p.editors@) =~= seq![]);
    p
}

/// The open-access PDF link of a paper record.
pub fn open_access_pdf(data: &Json) -> (r: Option<String>)
    ensures
        ostr(r) == jstr_at(jget(Some(*data), "openAccessPdf"@), "url"@),
{
    str_at(get(Some(data), "openAccessPdf"), "url")
}

} // verus!
