//! MDPI: result pages and the DOI an article address encodes.
use vstd::prelude::*;

use crate::models::{empty_paper, Paper, PaperView};
use crate::provider::scrape::{items_view, page_items, scrape_page, ItemView, ScrapedItem, Selectors};
use crate::search::paper_views;
use crate::text::{
    chars_of, extend, extend_str, occurs_at, owned, replace_char, replace_char_exec, string_of,
};
use crate::pattern::first_capture;
use crate::unicode::unicode_digit;

verus! {

/// The selectors of an MDPI result page.
pub open spec fn mdpi_selectors() -> Selectors {
    Selectors {
        item: ".article-content, .generic-item",
        title: "a.title-is-link, .title a",
        author: ".authors a, .author-name",
        abstract_text: ".abstract-full, .abstract",
    }
}

fn selectors() -> (r: Selectors)
    ensures
        r == mdpi_selectors(),
{
    Selectors {
        item: ".article-content, .generic-item",
        title: "a.title-is-link, .title a",
        author: ".authors a, .author-name",
        abstract_text: ".abstract-full, .abstract",
    }
}

/// Whether `s[p..p + n]` is all decimal digits.
pub open spec fn digits_between(s: Seq<char>, p: int, n: int) -> bool {
    0 <= p && p + n <= s.len() && forall|j: int| p <= j < p + n ==> #[trigger] unicode_digit(s[j])
}

/// The separator after segment `k` (counted down from 5) of `\d+-\d+/\d+/\d+/\d+`.
pub open spec fn separator(k: nat) -> char {
    if k == 5 {
        '-'
    } else {
        '/'
    }
}

/// Where `k` digit segments starting at `p` end, the first segment being
/// tried with `n`, then fewer, digits (the regular expression's
/// backtracking order): the last segment takes every digit, and each other
/// segment must be followed by its separator and the remaining segments.
pub open spec fn segments(s: Seq<char>, p: int, k: nat, n: int) -> Option<int>
    decreases k, n,
{
    if k == 0 || n <= 0 {
        None
    } else if !digits_between(s, p, n) {
        segments(s, p, k, n - 1)
    } else if k == 1 {
        Some(p + n)
    } else if p + n < s.len() && s[p + n] == separator(k) && segments(
        s,
        p + n + 1,
        (k - 1) as nat,
        s.len() - (p + n + 1),
    ) is Some {
        segments(s, p + n + 1, (k - 1) as nat, s.len() - (p + n + 1))
    } else {
        segments(s, p, k, n - 1)
    }
}

/// The pattern `mdpi\.com/(\d+-\d+/\d+/\d+/\d+)` matches at `i`.
pub open spec fn path_at(s: Seq<char>, i: int) -> bool {
    occurs_at(s, "mdpi.com/"@, i) && segments(s, i + 9, 5, s.len() - (i + 9)) is Some
}

/// The article path in an MDPI address, at the first place the pattern
/// matches.
pub open spec fn article_path(s: Seq<char>) -> Option<Seq<char>> {
    if exists|i: int| path_at(s, i) {
        let i = choose|i: int| path_at(s, i) && forall|j: int| 0 <= j < i ==> !path_at(s, j);
        Some(s.subrange(i + 9, segments(s, i + 9, 5, s.len() - (i + 9))->0))
    } else {
        None
    }
}

/// The DOI an MDPI address encodes: `10.3390/` and the article path
/// without its slashes.
pub open spec fn mdpi_doi(href: Seq<char>) -> Option<Seq<char>> {
    match article_path(href) {
        Some(p) => Some("10.3390/"@ + replace_char(p, '/', seq![])),
        None => None,
    }
}

/// An MDPI result as a paper.
pub open spec fn mdpi_paper(it: ItemView) -> PaperView {
    PaperView {
        title: it.title,
        authors: it.authors,
        abstract_text: it.abstract_text,
        doi: mdpi_doi(it.href),
        source: "mdpi"@,
        url: Some(it.href),
        pdf_url: if it.href.len() > 0 {
            Some(it.href + "/pdf"@)
        } else {
            None
        },
        ..empty_paper()
    }
}

/// The papers of an MDPI result page.
pub open spec fn mdpi_page(doc: Seq<char>, base: Seq<char>, limit: usize) -> Seq<PaperView> {
    page_items(doc, mdpi_selectors(), base, limit).map_values(|it: ItemView| mdpi_paper(it))
}

fn to_paper(it: ScrapedItem) -> (p: Paper)
    ensures
        p@ == mdpi_paper(it@),
{
    let ScrapedItem { title, href, authors, abstract_text } = it;
    let hv = chars_of(href.as_str());
    let doi = match first_capture("mdpi\\.com/(\\d+-\\d+/\\d+/\\d+/\\d+)", href.as_str()) {
        Some(path) => {
            let mut v = chars_of("10.3390/");
            extend(&mut v, &replace_char_exec(&chars_of(path.as_str()), '/', &Vec::new()));
            Some(string_of(&v))
        },
        None => None,
    };
    let pdf_url = if hv.len() > 0 {
        let mut v = hv.clone();
        extend_str(&mut v, "/pdf");
        Some(string_of(&v))
    } else {
        None
    };
    let p = Paper {
        title,
        authors,
        abstract_text,
        doi,
        year: None,
        published_date: None,
        source: owned("mdpi"),
        url: Some(href),
        pdf_url,
        journal: None,
        volume: None,
        issue: None,
        pages: None,
        citation_count: None,
        publisher: None,
        isbn: None,
        issn: None,
        arxiv_id: None,
        work_type: None,
        editors: Vec::new(),
        series: None,
        oclc: None,
        lccn: None,
    };
    assert(crate::text::views(p.editors@) =~= seq![]);
    p
}

/// Reads an MDPI result page; `base` is the site address.
pub fn parse_results(doc: &str, base: &str, limit: usize) -> (r: Vec<Paper>)
    ensures
        paper_views(r@) == mdpi_page(doc@, base@, limit),
{
    let items = scrape_page(doc, selectors(), base, limit);
    let ghost iv = items_view(items@);
    let mut r: Vec<Paper> = Vec::new();
    for it in iter: items
        invariant
            iter.seq() == items@,
            iv == items_view(items@),
            paper_views(r@) == iv.take(iter.index() as int).map_values(|it: ItemView| mdpi_paper(it)),
    {
        let ghost k = iter.index();
        let ghost before = paper_views(r@);
        let p = to_paper(it);
        r.push(p);
        assert(paper_views(r@) =~= before.push(p@));
        assert(iv.take(k + 1).map_values(|it: ItemView| mdpi_paper(it)) =~= iv.take(k as int).map_values(|it: ItemView| mdpi_paper(it)).push(mdpi_paper(iv[k as int])));
    }
    assert(iv.take(iv.len() as int) == iv);
    r
}

} // verus!
