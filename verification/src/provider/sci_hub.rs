//! Sci-Hub: mirror choice, and where a page points to the PDF.
use rand::seq::SliceRandom;
use vstd::prelude::*;

use crate::pattern::first_capture;
use crate::html::{attr, attr_of, elements_view, groups_view, html_select_within, select_within, ElementView};
use crate::models::{doi_url, doi_url_exec, empty_paper, Paper, PaperView};
use crate::text::{
    chars_of, contains, contains_str, extend, extend_str, has_prefix, is_ws, occurs_at, ostr,
    owned, starts_with_str, string_of, views,
};

verus! {

/// The Sci-Hub mirrors.
pub open spec fn mirrors() -> Seq<Seq<char>> {
    seq![
        "https://sci-hub.se"@,
        "https://sci-hub.st"@,
        "https://sci-hub.ru"@,
        "https://sci-hub.ren"@,
        "https://sci-hub.mksa.top"@,
        "https://sci-hub.ee"@,
        "https://sci-hub.wf"@,
    ]
}

/// The user agents requests are sent with.
pub open spec fn user_agents() -> Seq<Seq<char>> {
    seq![
        "Mozilla/5.0 (Macintosh; Intel Mac OS X 10_15_7) AppleWebKit/537.36 Chrome/120.0.0.0"@,
        "Mozilla/5.0 (Windows NT 10.0; Win64; x64) AppleWebKit/537.36 Chrome/121.0.0.0"@,
        "Mozilla/5.0 (X11; Linux x86_64) AppleWebKit/537.36 Chrome/119.0.0.0"@,
    ]
}

/// `SliceRandom::choose` with the thread's random number generator: one of
/// the options, picked at random, or `None` when there are none. Which one
/// is left open.
#[verifier::external_body]
fn choose_one(options: &Vec<String>) -> (r: Option<String>)
    ensures
        match r {
            Some(x) => views(options@).contains(x@),
            None => options@.len() == 0,
        },
{
    options.choose(&mut rand::thread_rng()).cloned()
}

fn mirror_list() -> (r: Vec<String>)
    ensures
        views(r@) == mirrors(),
{
    let r = vec![
        owned("https://sci-hub.se"),
        owned("https://sci-hub.st"),
        owned("https://sci-hub.ru"),
        owned("https://sci-hub.ren"),
        owned("https://sci-hub.mksa.top"),
        owned("https://sci-hub.ee"),
        owned("https://sci-hub.wf"),
    ];
    assert(views(r@) =~= mirrors());
    r
}

fn agent_list() -> (r: Vec<String>)
    ensures
        views(r@) == user_agents(),
{
    let r = vec![
        owned("Mozilla/5.0 (Macintosh; Intel Mac OS X 10_15_7) AppleWebKit/537.36 Chrome/120.0.0.0"),
        owned("Mozilla/5.0 (Windows NT 10.0; Win64; x64) AppleWebKit/537.36 Chrome/121.0.0.0"),
        owned("Mozilla/5.0 (X11; Linux x86_64) AppleWebKit/537.36 Chrome/119.0.0.0"),
    ];
    assert(views(r@) =~= user_agents());
    r
}

/// The site a lookup goes to: the configured address, or a mirror picked
/// at random.
pub fn get_mirror(configured: Option<&str>) -> (r: String)
    ensures
        match configured {
            Some(c) => r@ == c@,
            None => mirrors().contains(r@),
        },
{
    match configured {
        Some(c) => owned(c),
        None => {
            let ms = mirror_list();
            match choose_one(&ms) {
                Some(m) => m,
                None => {
                    assert(mirrors().len() == 7);
                    assert(views(ms@).len() == ms@.len());
                    ms[0].clone()
                },
            }
        },
    }
}

/// A user agent picked at random.
pub fn user_agent() -> (r: String)
    ensures
        user_agents().contains(r@),
{
    let us = agent_list();
    match choose_one(&us) {
        Some(u) => u,
        None => {
            assert(user_agents().len() == 3);
            assert(views(us@).len() == us@.len());
            us[0].clone()
        },
    }
}

/// A link made absolute: `https:` before a protocol-relative link, the
/// mirror before a path, other links as they are.
pub open spec fn normalized(url: Seq<char>, mirror: Seq<char>) -> Seq<char> {
    if has_prefix(url, "//"@) {
        "https:"@ + url
    } else if has_prefix(url, "/"@) {
        mirror + url
    } else {
        url
    }
}

/// Makes a link on a mirror's page absolute.
pub fn normalize_url(url: &str, mirror: &str) -> (r: String)
    ensures
        r@ == normalized(url@, mirror@),
{
    let u = chars_of(url);
    if starts_with_str(&u, "//") {
        let mut v = chars_of("https:");
        extend(&mut v, &u);
        string_of(&v)
    } else if starts_with_str(&u, "/") {
        let mut v = chars_of(mirror);
        extend(&mut v, &u);
        string_of(&v)
    } else {
        owned(url)
    }
}

/// A character a bare PDF address in page text may hold.
pub open spec fn url_char(c: char) -> bool {
    !is_ws(c) && c != '"' && c != '\'' && c != '<' && c != '>'
}

/// The number of consecutive address characters from `a` on.
pub open spec fn url_run(s: Seq<char>, a: int) -> nat
    decreases s.len() - a,
{
    if 0 <= a < s.len() && url_char(s[a]) {
        1 + url_run(s, a + 1)
    } else {
        0
    }
}

/// The length of the scheme at `i`: `https://` or `http://`, else 0.
pub open spec fn scheme_len(s: Seq<char>, i: int) -> int {
    if occurs_at(s, "https://"@, i) {
        8
    } else if occurs_at(s, "http://"@, i) {
        7
    } else {
        0
    }
}

/// Whether `n` address characters after `a` are followed by `.pdf`.
pub open spec fn pdf_after(s: Seq<char>, a: int, n: int) -> bool {
    1 <= n && n + 4 <= url_run(s, a) && occurs_at(s, ".pdf"@, a + n)
}

/// A scheme at `i`, then `n` address characters ending before `.pdf`.
pub open spec fn pdf_ends(s: Seq<char>, i: int, n: int) -> bool {
    scheme_len(s, i) > 0 && pdf_after(s, i + scheme_len(s, i), n)
}

/// The pattern `https?://[^\s"'<>]+\.pdf` matches at `i`.
pub open spec fn pdf_match_at(s: Seq<char>, i: int) -> bool {
    exists|n: int| #[trigger] pdf_ends(s, i, n)
}

/// The first PDF address in page text; the longest one where it starts.
pub open spec fn pdf_in_text(s: Seq<char>) -> Option<Seq<char>> {
    if exists|i: int| #[trigger] pdf_match_at(s, i) {
        let i = choose|i: int| #[trigger] pdf_match_at(s, i) && forall|j: int| 0 <= j < i ==> !#[trigger] pdf_match_at(s, j);
        let n = choose|n: int| #[trigger] pdf_ends(s, i, n) && forall|m: int| n < m ==> !#[trigger] pdf_ends(s, i, m);
        Some(s.subrange(i, i + scheme_len(s, i) + n + 4))
    } else {
        None
    }
}

/// The attribute `name` of the first element of the first group.
pub open spec fn first_attr(gs: Seq<Seq<ElementView>>, name: Seq<char>) -> Option<Seq<char>> {
    if gs.len() > 0 && gs[0].len() > 0 {
        attr_of(gs[0][0].attrs, name)
    } else {
        None
    }
}

/// The first link whose `href` holds `.pdf`.
pub open spec fn first_pdf_href(es: Seq<ElementView>) -> Option<Seq<char>>
    decreases es.len(),
{
    if es.len() == 0 {
        None
    } else {
        match attr_of(es[0].attrs, "href"@) {
            Some(h) => if contains(h, ".pdf"@) {
                Some(h)
            } else {
                first_pdf_href(es.drop_first())
            },
            None => first_pdf_href(es.drop_first()),
        }
    }
}

/// Where a mirror's page for a DOI points to the PDF: the first embedded
/// document, else the first frame, else the first link to a `.pdf`, each
/// made absolute; else the first PDF address in the page text.
pub open spec fn pdf_in_page(page: Seq<char>, mirror: Seq<char>) -> Option<Seq<char>> {
    match first_attr(html_select_within(page, "html"@, "embed[src]"@), "src"@) {
        Some(src) => Some(normalized(src, mirror)),
        None => match first_attr(html_select_within(page, "html"@, "iframe[src]"@), "src"@) {
            Some(src) => Some(normalized(src, mirror)),
            None => {
                let links = html_select_within(page, "html"@, "a[href]"@);
                match first_pdf_href(if links.len() > 0 { links[0] } else { seq![] }) {
                    Some(h) => Some(normalized(h, mirror)),
                    None => pdf_in_text(page),
                }
            },
        },
    }
}

fn first_attr_exec(gs: &Vec<Vec<crate::html::HtmlElement>>, name: &str) -> (r: Option<String>)
    ensures
        ostr(r) == first_attr(groups_view(gs@), name@),
{
    if gs.len() > 0 && gs[0].len() > 0 {
        assert(groups_view(gs@)[0][0] == gs@[0]@[0]@);
        attr(&gs[0][0], name)
    } else {
        None
    }
}

fn first_pdf_href_exec(es: &Vec<crate::html::HtmlElement>) -> (r: Option<String>)
    ensures
        ostr(r) == first_pdf_href(elements_view(es@)),
{
    let ghost ev = elements_view(es@);
    let mut i: usize = 0;
    assert(ev.skip(0) == ev);
    while i < es.len()
        invariant
            i <= es.len(),
            ev == elements_view(es@),
            first_pdf_href(ev) == first_pdf_href(ev.skip(i as int)),
        decreases es.len() - i,
    {
        assert(ev.skip(i as int)[0] == es@[i as int]@);
        assert(ev.skip(i as int).drop_first() == ev.skip(i + 1));
        match attr(&es[i], "href") {
            Some(h) => {
                if contains_str(&chars_of(h.as_str()), ".pdf") {
                    return Some(h);
                }
            },
            None => {},
        }
        i = i + 1;
    }
    None
}

/// Finds where a mirror's page points to the PDF.
pub fn find_pdf_in_page(page: &str, mirror: &str) -> (r: Option<String>)
    ensures
        ostr(r) == pdf_in_page(page@, mirror@),
{
    match first_attr_exec(&select_within(page, "html", "embed[src]"), "src") {
        Some(src) => Some(normalize_url(src.as_str(), mirror)),
        None => match first_attr_exec(&select_within(page, "html", "iframe[src]"), "src") {
            Some(src) => Some(normalize_url(src.as_str(), mirror)),
            None => {
                let links = select_within(page, "html", "a[href]");
                let empty: Vec<crate::html::HtmlElement> = Vec::new();
                let first_group = if links.len() > 0 {
                    &links[0]
                } else {
                    &empty
                };
                assert(elements_view(first_group@) == (if groups_view(links@).len() > 0 {
                    groups_view(links@)[0]
                } else {
                    seq![]
                }));
                match first_pdf_href_exec(first_group) {
                    Some(h) => Some(normalize_url(h.as_str(), mirror)),
                    None => first_capture("(https?://[^\\s\"'<>]+\\.pdf)", page),
                }
            },
        },
    }
}

/// The paper a DOI lookup yields once a PDF was found: a stand-in title,
/// the DOI, its `doi.org` address and the PDF address.
pub open spec fn found_paper(doi: Seq<char>, pdf: Seq<char>) -> PaperView {
    PaperView {
        title: "Paper (DOI: "@ + doi + ")"@,
        doi: Some(doi),
        source: "sci_hub"@,
        url: Some(doi_url(doi)),
        pdf_url: Some(pdf),
        ..empty_paper()
    }
}

/// The paper a DOI lookup yields.
pub fn found(doi: &str, pdf: String) -> (p: Paper)
    ensures
        p@ == found_paper(doi@, pdf@),
{
    let mut t = chars_of("Paper (DOI: ");
    extend_str(&mut t, doi);
    extend_str(&mut t, ")");
    let p = Paper {
        title: string_of(&t),
        authors: Vec::new(),
        abstract_text: None,
        doi: Some(owned(doi)),
        year: None,
        published_date: None,
        source: owned("sci_hub"),
        url: Some(doi_url_exec(&chars_of(doi))),
        pdf_url: Some(pdf),
        journal: None,
        volume: None,
        issue: None,
        pages: None,
        citation_count: None,
        publisher: None,
        isbn: None,
        issn: None,
        arxiv_id: None,
        work_type: None,
        editors: Vec::new(),
        series: None,
        oclc: None,
        lccn: None,
    };
    assert(views(p.authors@) =~= seq![]);
    assert(views(p.editors@) =~= seq![]);
    p
}

} // verus!
