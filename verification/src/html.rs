//! HTML pages and fragments, read with the `scraper` crate.
//!
//! What `scraper` finds in a page is named by spec functions without a
//! body; the sources that scrape pages work on those results as plain
//! values.
use vstd::prelude::*;

verus! {

/// The text of an HTML fragment: the text nodes below its root, joined.
pub uninterp spec fn html_text(html: Seq<char>) -> Seq<char>;

/// An element found in a page: its text and its attributes, in the order
/// they stand in the page's source.
#[derive(Debug)]
pub struct HtmlElement {
    pub text: String,
    pub attrs: Vec<(String, String)>,
}

/// The content of an element.
pub struct ElementView {
    pub text: Seq<char>,
    pub attrs: Seq<(Seq<char>, Seq<char>)>,
}

/// The content of a list of attributes.
pub open spec fn attrs_view(a: Seq<(String, String)>) -> Seq<(Seq<char>, Seq<char>)> {
    a.map_values(|p: (String, String)| (p.0@, p.1@))
}

impl View for HtmlElement {
    type V = ElementView;

    open spec fn view(&self) -> ElementView {
        ElementView { text: self.text@, attrs: attrs_view(self.attrs@) }
    }
}

/// The contents of a list of elements.
pub open spec fn elements_view(v: Seq<HtmlElement>) -> Seq<ElementView> {
    v.map_values(|e: HtmlElement| e@)
}

/// The contents of a list of lists of elements.
pub open spec fn groups_view(v: Seq<Vec<HtmlElement>>) -> Seq<Seq<ElementView>> {
    v.map_values(|g: Vec<HtmlElement>| elements_view(g@))
}

/// For each element of the page `doc` that the CSS selector `outer`
/// matches, in document order, the elements below it that `inner` matches,
/// in document order, each with its attributes in source order. (`scraper`
/// is built with its `deterministic` feature, which keeps an element's
/// attributes in an insertion-ordered map, so the result depends on the
/// three strings alone.)
pub uninterp spec fn html_select_within(doc: Seq<char>, outer: Seq<char>, inner: Seq<char>) -> Seq<
    Seq<ElementView>,
>;

/// The text of an HTML fragment (`Html::parse_fragment`, then the text of
/// its root element, collected).
#[verifier::external_body]
pub(crate) fn text_of_html(html: &str) -> (r: String)
    ensures
        r@ == html_text(html@),
{
    scraper::Html::parse_fragment(html).root_element().text().collect()
}

/// Parses the page `doc` (`Html::parse_document`), selects the elements
/// `outer` matches and, below each, the elements `inner` matches; each
/// element is given by its collected text and its attributes, walked in
/// source order. A selector that does not parse selects nothing.
#[verifier::external_body]
pub(crate) fn select_within(doc: &str, outer: &str, inner: &str) -> (r: Vec<Vec<HtmlElement>>)
    ensures
        groups_view(r@) == html_select_within(doc@, outer@, inner@),
{
    let page = scraper::Html::parse_document(doc);
    match (scraper::Selector::parse(outer), scraper::Selector::parse(inner)) {
        (Ok(o), Ok(i)) => page.select(&o).map(|a| a.select(&i).map(|e| HtmlElement {
            text: e.text().collect(),
            attrs: e.value().attrs().map(|(k, v)| (k.to_string(), v.to_string())).collect(),
        }).collect()).collect(),
        _ => Vec::new(),
    }
}

/// The value of the first attribute named `name`.
pub open spec fn attr_of(attrs: Seq<(Seq<char>, Seq<char>)>, name: Seq<char>) -> Option<Seq<char>>
    decreases attrs.len(),
{
    if attrs.len() == 0 {
        None
    } else if attrs[0].0 == name {
        Some(attrs[0].1)
    } else {
        attr_of(attrs.drop_first(), name)
    }
}

/// The value of the attribute `name` of an element.
pub fn attr(e: &HtmlElement, name: &str) -> (r: Option<String>)
    ensures
        crate::text::ostr(r) == attr_of(e@.attrs, name@),
{
    let n = crate::text::chars_of(name);
    let mut i: usize = 0;
    assert(e@.attrs.skip(0) == e@.attrs);
    while i < e.attrs.len()
        invariant
            i <= e.attrs.len(),
            n@ == name@,
            attr_of(e@.attrs, name@) == attr_of(e@.attrs.skip(i as int), name@),
        decreases e.attrs.len() - i,
    {
        assert(e@.attrs.skip(i as int)[0] == (e.attrs@[i as int].0@, e.attrs@[i as int].1@));
        assert(e@.attrs.skip(i as int).drop_first() == e@.attrs.skip(i + 1));
        if crate::text::str_eq(e.attrs[i].0.as_str(), &n) {
            return Some(e.attrs[i].1.clone());
        }
        i = i + 1;
    }
    None
}

} // verus!
