//! SSRN: result pages and the abstract id in a paper's address.
use vstd::prelude::*;

use crate::models::{empty_paper, Paper, PaperView};
use crate::provider::scrape::{items_view, page_items, scrape_page, ItemView, ScrapedItem, Selectors};
use crate::search::paper_views;
use crate::text::{chars_of, extend_str, occurs_at, owned, string_of};
use crate::pattern::first_capture;
use crate::unicode::unicode_digit;

verus! {

/// The selectors of an SSRN result page.
pub open spec fn ssrn_selectors() -> Selectors {
    Selectors {
        item: ".result-item, .paper-result",
        title: "a.title, .result-title a",
        author: ".authors-list a, .author",
        abstract_text: ".abstract-text, .description",
    }
}

fn selectors() -> (r: Selectors)
    ensures
        r == ssrn_selectors(),
{
    Selectors {
        item: ".result-item, .paper-result",
        title: "a.title, .result-title a",
        author: ".authors-list a, .author",
        abstract_text: ".abstract-text, .description",
    }
}

/// The number of consecutive decimal digits of `s` from `i` on.
pub open spec fn digit_run(s: Seq<char>, i: int) -> nat
    decreases s.len() - i,
{
    if 0 <= i < s.len() && unicode_digit(s[i]) {
        1 + digit_run(s, i + 1)
    } else {
        0
    }
}

/// The pattern `abstract_id=(\d+)` matches at `i`.
pub open spec fn id_at(s: Seq<char>, i: int) -> bool {
    occurs_at(s, "abstract_id="@, i) && digit_run(s, i + 12) >= 1
}

/// The abstract id in an address: the digits after the first
/// `abstract_id=` that has some.
pub open spec fn abstract_id(s: Seq<char>) -> Option<Seq<char>> {
    if exists|i: int| id_at(s, i) {
        let i = choose|i: int| id_at(s, i) && forall|j: int| 0 <= j < i ==> !id_at(s, j);
        Some(s.subrange(i + 12, i + 12 + digit_run(s, i + 12)))
    } else {
        None
    }
}

/// An SSRN result as a paper.
pub open spec fn ssrn_paper(it: ItemView, base: Seq<char>) -> PaperView {
    PaperView {
        title: it.title,
        authors: it.authors,
        abstract_text: it.abstract_text,
        source: "ssrn"@,
        url: Some(it.href),
        pdf_url: match abstract_id(it.href) {
            Some(id) => Some(base + "/sol3/Delivery.cfm?abstractid="@ + id),
            None => None,
        },
        ..empty_paper()
    }
}

/// The papers of an SSRN result page.
pub open spec fn ssrn_page(doc: Seq<char>, base: Seq<char>, limit: usize) -> Seq<PaperView> {
    page_items(doc, ssrn_selectors(), base, limit).map_values(|it: ItemView| ssrn_paper(it, base))
}

fn to_paper(it: ScrapedItem, base: &str) -> (p: Paper)
    ensures
        p@ == ssrn_paper(it@, base@),
{
    let ghost iv = it@;
    let ScrapedItem { title, href, authors, abstract_text } = it;
    let hv = chars_of(href.as_str());
    let pdf_url = match first_capture("abstract_id=(\\d+)", href.as_str()) {
        Some(id) => {
            let mut v = chars_of(base);
            extend_str(&mut v, "/sol3/Delivery.cfm?abstractid=");
            extend_str(&mut v, id.as_str());
            Some(string_of(&v))
        },
        None => None,
    };
    let p = Paper {
        title,
        authors,
        abstract_text,
        doi: None,
        year: None,
        published_date: None,
        source: owned("ssrn"),
        url: Some(href),
        pdf_url,
        journal: None,
        volume: None,
        issue: None,
        pages: None,
        citation_count: None,
        publisher: None,
        isbn: None,
        issn: None,
        arxiv_id: None,
        work_type: None,
        editors: Vec::new(),
        series: None,
        oclc: None,
        lccn: None,
    };
    assert(crate::text::views(p.editors@) =~= seq![]);
    p
}

/// Reads an SSRN result page; `base` is the site address.
pub fn parse_results(doc: &str, base: &str, limit: usize) -> (r: Vec<Paper>)
    ensures
        paper_views(r@) == ssrn_page(doc@, base@, limit),
{
    let items = scrape_page(doc, selectors(), base, limit);
    let ghost iv = items_view(items@);
    let mut r: Vec<Paper> = Vec::new();
    for it in iter: items
        invariant
            iter.seq() == items@,
            iv == items_view(items@),
            paper_views(r@) == iv.take(iter.index() as int).map_values(|it: ItemView| ssrn_paper(it, base@)),
    {
        let ghost k = iter.index();
        let ghost before = paper_views(r@);
        let p = to_paper(it, base);
        r.push(p);
        assert(paper_views(r@) =~= before.push(p@));
        assert(iv.take(k + 1).map_values(|it: ItemView| ssrn_paper(it, base@)) =~= iv.take(k as int).map_values(|it: ItemView| ssrn_paper(it, base@)).push(ssrn_paper(iv[k as int], base@)));
    }
    assert(iv.take(iv.len() as int) == iv);
    r
}

} // verus!
