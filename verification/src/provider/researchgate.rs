//! ResearchGate: result pages.
use vstd::prelude::*;

use crate::models::{empty_paper, Paper, PaperView};
use crate::provider::scrape::{items_view, page_items, scrape_page, ItemView, ScrapedItem, Selectors};
use crate::search::paper_views;
use crate::text::{chars_of, owned};

verus! {

/// The selectors of a ResearchGate result page.
pub open spec fn rg_selectors() -> Selectors {
    Selectors {
        item: "[data-testid=\"search-result\"], .search-result",
        title: "[data-testid=\"publication-title\"] a, .publication-title a, a[href*=\"/publication/\"]",
        author: "[data-testid=\"author-name\"], .author-name, a[href*=\"/profile/\"]",
        abstract_text: "[data-testid=\"abstract\"], .abstract",
    }
}

fn selectors() -> (r: Selectors)
    ensures
        r == rg_selectors(),
{
    Selectors {
        item: "[data-testid=\"search-result\"], .search-result",
        title: "[data-testid=\"publication-title\"] a, .publication-title a, a[href*=\"/publication/\"]",
        author: "[data-testid=\"author-name\"], .author-name, a[href*=\"/profile/\"]",
        abstract_text: "[data-testid=\"abstract\"], .abstract",
    }
}

/// A ResearchGate result as a paper.
pub open spec fn rg_paper(it: ItemView) -> PaperView {
    PaperView {
        title: it.title,
        authors: it.authors,
        abstract_text: it.abstract_text,
        source: "researchgate"@,
        url: if it.href.len() == 0 {
            None
        } else {
            Some(it.href)
        },
        ..empty_paper()
    }
}

/// The papers of a ResearchGate result page.
pub open spec fn rg_page(doc: Seq<char>, base: Seq<char>, limit: usize) -> Seq<PaperView> {
    page_items(doc, rg_selectors(), base, limit).map_values(|it: ItemView| rg_paper(it))
}

fn to_paper(it: ScrapedItem) -> (p: Paper)
    ensures
        p@ == rg_paper(it@),
{
    let ScrapedItem { title, href, authors, abstract_text } = it;
    let empty = chars_of(href.as_str()).len() == 0;
    let p = Paper {
        title,
        authors,
        abstract_text,
        doi: None,
        year: None,
        published_date: None,
        source: owned("researchgate"),
        url: if empty {
            None
        } else {
            Some(href)
        },
        pdf_url: None,
        journal: None,
        volume: None,
        issue: None,
        pages: None,
        citation_count: None,
        publisher: None,
        isbn: None,
        issn: None,
        arxiv_id: None,
        work_type: None,
        editors: Vec::new(),
        series: None,
        oclc: None,
        lccn: None,
    };
    assert(crate::text::views(p.editors@) =~= seq![]);
    p
}

/// Reads a ResearchGate result page; `base` is the site address.
pub fn parse_results(doc: &str, base: &str, limit: usize) -> (r: Vec<Paper>)
    ensures
        paper_views(r@) == rg_page(doc@, base@, limit),
{
    let items = scrape_page(doc, selectors(), base, limit);
    let ghost iv = items_view(items@);
    let mut r: Vec<Paper> = Vec::new();
    for it in iter: items
        invariant
            iter.seq() == items@,
            iv == items_view(items@),
            paper_views(r@) == iv.take(iter.index() as int).map_values(|it: ItemView| rg_paper(it)),
    {
        let ghost k = iter.index();
        let ghost before = paper_views(r@);
        let p = to_paper(it);
        r.push(p);
        assert(paper_views(r@) =~= before.push(p@));
        assert(iv.take(k + 1).map_values(|it: ItemView| rg_paper(it)) =~= iv.take(k as int).map_values(|it: ItemView| rg_paper(it)).push(rg_paper(iv[k as int])));
    }
    assert(iv.take(iv.len() as int) == iv);
    r
}

} // verus!
