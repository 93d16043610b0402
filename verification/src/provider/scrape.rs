//! What the sources read from HTML result pages (SSRN, MDPI, ResearchGate)
//! make of one result: its title, link, authors and abstract.
use vstd::prelude::*;

use crate::html::{attr, attr_of, select_within, ElementView, HtmlElement, html_select_within, elements_view, groups_view};
use crate::text::{
    chars_of, extend, has_prefix, ostr, starts_with_str, string_of, trim, trim_chars, views,
};

verus! {

/// One result of a result page.
pub struct ScrapedItem {
    pub title: String,
    pub href: String,
    pub authors: Vec<String>,
    pub abstract_text: Option<String>,
}

/// The content of a scraped result.
pub struct ItemView {
    pub title: Seq<char>,
    pub href: Seq<char>,
    pub authors: Seq<Seq<char>>,
    pub abstract_text: Option<Seq<char>>,
}

impl View for ScrapedItem {
    type V = ItemView;

    open spec fn view(&self) -> ItemView {
        ItemView {
            title: self.title@,
            href: self.href@,
            authors: views(self.authors@),
            abstract_text: ostr(self.abstract_text),
        }
    }
}

/// The contents of a list of results.
pub open spec fn items_view(v: Seq<ScrapedItem>) -> Seq<ItemView> {
    v.map_values(|i: ScrapedItem| i@)
}

/// A link made absolute: a non-empty link that does not start with `http`
/// gets the site address before it.
pub open spec fn absolute(base: Seq<char>, href: Seq<char>) -> Seq<char> {
    if href.len() > 0 && !has_prefix(href, "http"@) {
        base + href
    } else {
        href
    }
}

/// The trimmed, non-empty texts of elements.
pub open spec fn texts(es: Seq<ElementView>) -> Seq<Seq<char>>
    decreases es.len(),
{
    if es.len() == 0 {
        seq![]
    } else {
        texts(es.drop_last()) + if trim(es.last().text).len() > 0 {
            seq![trim(es.last().text)]
        } else {
            seq![]
        }
    }
}

/// Element `k` of a list of groups, or no elements.
pub open spec fn group(gs: Seq<Seq<ElementView>>, k: int) -> Seq<ElementView> {
    if 0 <= k < gs.len() {
        gs[k]
    } else {
        seq![]
    }
}

/// The result made of the `k`-th result element: its first title element
/// gives the title (trimmed) and the link, its author elements the authors,
/// and its first abstract element the abstract; none without a title
/// element.
pub open spec fn item_at(
    titles: Seq<Seq<ElementView>>,
    authors: Seq<Seq<ElementView>>,
    abstracts: Seq<Seq<ElementView>>,
    k: int,
    base: Seq<char>,
) -> Option<ItemView> {
    let t = group(titles, k);
    if t.len() == 0 {
        None
    } else {
        let a = group(abstracts, k);
        Some(
            ItemView {
                title: trim(t[0].text),
                href: absolute(
                    base,
                    match attr_of(t[0].attrs, "href"@) {
                        Some(h) => h,
                        None => seq![],
                    },
                ),
                authors: texts(group(authors, k)),
                abstract_text: if a.len() > 0 {
                    Some(trim(a[0].text))
                } else {
                    None
                },
            },
        )
    }
}

/// The results of the first `n` result elements that have a title.
pub open spec fn items_upto(
    titles: Seq<Seq<ElementView>>,
    authors: Seq<Seq<ElementView>>,
    abstracts: Seq<Seq<ElementView>>,
    n: int,
    base: Seq<char>,
) -> Seq<ItemView>
    decreases n,
{
    if n <= 0 {
        seq![]
    } else {
        items_upto(titles, authors, abstracts, n - 1, base) + match item_at(
            titles,
            authors,
            abstracts,
            n - 1,
            base,
        ) {
            Some(i) => seq![i],
            None => seq![],
        }
    }
}

/// The selectors a result page is read with.
pub struct Selectors {
    pub item: &'static str,
    pub title: &'static str,
    pub author: &'static str,
    pub abstract_text: &'static str,
}

/// The results of a page: the first `limit` result elements that have a
/// title element.
pub open spec fn page_items(doc: Seq<char>, sel: Selectors, base: Seq<char>, limit: usize) -> Seq<
    ItemView,
> {
    let titles = html_select_within(doc, sel.item@, sel.title@);
    items_upto(
        titles,
        html_select_within(doc, sel.item@, sel.author@),
        html_select_within(doc, sel.item@, sel.abstract_text@),
        if titles.len() < limit {
            titles.len() as int
        } else {
            limit as int
        },
        base,
    )
}

fn texts_exec(es: &Vec<HtmlElement>) -> (r: Vec<String>)
    ensures
        views(r@) == texts(elements_view(es@)),
{
    let ghost ev = elements_view(es@);
    let mut r: Vec<String> = Vec::new();
    let mut i: usize = 0;
    while i < es.len()
        invariant
            i <= es.len(),
            ev == elements_view(es@),
            views(r@) == texts(ev.take(i as int)),
        decreases es.len() - i,
    {
        assert(ev.take(i + 1).drop_last() == ev.take(i as int));
        assert(ev.take(i + 1).last() == es@[i as int]@);
        let t = trim_chars(&chars_of(es[i].text.as_str()));
        let ghost before = views(r@);
        if t.len() > 0 {
            r.push(string_of(&t));
            assert(views(r@) =~= before.push(t@));
        } else {
            assert(before + seq![] == before);
        }
        i = i + 1;
    }
    assert(ev.take(es.len() as int) == ev);
    r
}

fn absolute_exec(base: &str, href: Vec<char>) -> (r: String)
    ensures
        r@ == absolute(base@, href@),
{
    if href.len() > 0 && !starts_with_str(&href, "http") {
        let mut v = chars_of(base);
        extend(&mut v, &href);
        string_of(&v)
    } else {
        string_of(&href)
    }
}

fn item_exec(
    titles: &Vec<Vec<HtmlElement>>,
    authors: &Vec<Vec<HtmlElement>>,
    abstracts: &Vec<Vec<HtmlElement>>,
    k: usize,
    base: &str,
) -> (r: Option<ScrapedItem>)
    ensures
        match r {
            Some(i) => item_at(groups_view(titles@), groups_view(authors@), groups_view(abstracts@), k as int, base@) == Some(i@),
            None => item_at(groups_view(titles@), groups_view(authors@), groups_view(abstracts@), k as int, base@) is None,
        },
{
    if k >= titles.len() || titles[k].len() == 0 {
        return None;
    }
    let t = &titles[k][0];
    assert(groups_view(titles@)[k as int][0] == t@);
    let href = match attr(t, "href") {
        Some(h) => chars_of(h.as_str()),
        None => Vec::new(),
    };
    let empty: Vec<HtmlElement> = Vec::new();
    let au = if k < authors.len() {
        &authors[k]
    } else {
        &empty
    };
    assert(elements_view(au@) == group(groups_view(authors@), k as int));
    let ab = if k < abstracts.len() {
        &abstracts[k]
    } else {
        &empty
    };
    assert(elements_view(ab@) == group(groups_view(abstracts@), k as int));
    let abstract_text = if ab.len() > 0 {
        assert(elements_view(ab@)[0] == ab@[0]@);
        Some(string_of(&trim_chars(&chars_of(ab[0].text.as_str()))))
    } else {
        None
    };
    Some(
        ScrapedItem {
            title: string_of(&trim_chars(&chars_of(t.text.as_str()))),
            href: absolute_exec(base, href),
            authors: texts_exec(au),
            abstract_text,
        },
    )
}

/// Reads the results of a result page.
pub fn scrape_page(doc: &str, sel: Selectors, base: &str, limit: usize) -> (r: Vec<ScrapedItem>)
    ensures
        items_view(r@) == page_items(doc@, sel, base@, limit),
{
    let titles = select_within(doc, sel.item, sel.title);
    let authors = select_within(doc, sel.item, sel.author);
    let abstracts = select_within(doc, sel.item, sel.abstract_text);
    let n = if titles.len() < limit {
        titles.len()
    } else {
        limit
    };
    let mut r: Vec<ScrapedItem> = Vec::new();
    let mut k: usize = 0;
    while k < n
        invariant
            k <= n,
            items_view(r@) == items_upto(groups_view(titles@), groups_view(authors@), groups_view(abstracts@), k as int, base@),
        decreases n - k,
    {
        let ghost before = items_view(r@);
        match item_exec(&titles, &authors, &abstracts, k, base) {
            Some(it) => {
                let ghost iv = it@;
                r.push(it);
                assert(items_view(r@) =~= before.push(iv));
            },
            None => {
                assert(before + seq![] == before);
            },
        }
        k = k + 1;
    }
    r
}

} // verus!
