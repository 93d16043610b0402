//! arXiv: Atom feed entries, arXiv identifiers, and query syntax.
use vstd::prelude::*;

use crate::models::{empty_paper, Paper, PaperView, SearchType};
use crate::search::paper_views;
use crate::text::{
    byte_prefix, byte_prefix_exec, chars_of, contains, contains_str, extend, extend_str, is_ws,
    occurs_at, ostr, owned, parse_i32, parse_i32_spec, replace_char, replace_char_exec, string_of,
    trim, trim_chars, trim_start_matches, trim_start_matches_str, views,
};
use crate::pattern::{first_capture, replace_all};
use crate::unicode::unicode_digit;
use crate::xml::{
    attr_value, attribute, child_text, children, children_of, find_text, has_tag, is_tag,
    nodes_view, NodeView, XmlNode,
};

verus! {

/// The Atom namespace.
pub open spec fn atom_ns() -> Seq<char> {
    "http://www.w3.org/2005/Atom"@
}

/// The arXiv extension namespace.
pub open spec fn arxiv_ns() -> Seq<char> {
    "http://arxiv.org/schemas/atom"@
}

/// The OpenSearch namespace.
pub open spec fn opensearch_ns() -> Seq<char> {
    "http://a9.com/-/spec/opensearch/1.1/"@
}

// ---------------------------------------------------------------------------
// Text patterns
// ---------------------------------------------------------------------------
/// Every run of white space replaced by one space (the pattern `\s+`
/// replaced by a space).
pub open spec fn collapse_ws(s: Seq<char>) -> Seq<char>
    decreases s.len(),
{
    if s.len() == 0 {
        seq![]
    } else if is_ws(s.last()) {
        let p = collapse_ws(s.drop_last());
        if s.len() >= 2 && is_ws(s[s.len() - 2]) {
            p
        } else {
            p.push(' ')
        }
    } else {
        collapse_ws(s.drop_last()).push(s.last())
    }
}

/// An entry's title: line breaks and runs of white space become single
/// spaces, and the ends are trimmed.
pub open spec fn clean_title(t: Seq<char>) -> Seq<char> {
    trim(collapse_ws(replace_char(t, '\n', seq![' '])))
}

/// Whether `s[from..]` holds no line break.
pub open spec fn no_newline_from(s: Seq<char>, from: int) -> bool {
    forall|k: int| from <= k < s.len() ==> #[trigger] s[k] != '\n'
}

/// The pattern `abs/(.+?)(?:v\d+)?$` matches at `i`: `abs/` there,
/// followed by at least one character and no line break.
pub open spec fn abs_match_at(s: Seq<char>, i: int) -> bool {
    occurs_at(s, "abs/"@, i) && i + 4 < s.len() && no_newline_from(s, i + 4)
}

/// Whether the rest of `r` from `k` on is a version suffix `v` and digits,
/// or nothing.
pub open spec fn version_tail(r: Seq<char>, k: int) -> bool {
    k == r.len() || (r[k] == 'v' && k + 1 < r.len() && forall|j: int|
        k + 1 <= j < r.len() ==> #[trigger] unicode_digit(r[j]))
}

/// The identifier an `abs/` address ends with: the shortest non-empty
/// prefix of the rest after which only a version suffix remains.
pub open spec fn id_part(r: Seq<char>) -> Seq<char> {
    let k = choose|k: int| 1 <= k <= r.len() && version_tail(r, k) && forall|j: int|
        1 <= j < k ==> !version_tail(r, j);
    r.take(k)
}

/// The arXiv identifier in an entry id such as
/// `http://arxiv.org/abs/2301.00001v1`, found at the first place the
/// pattern matches.
pub open spec fn arxiv_id_of(s: Seq<char>) -> Option<Seq<char>> {
    if exists|i: int| abs_match_at(s, i) {
        let i = choose|i: int| abs_match_at(s, i) && forall|j: int| 0 <= j < i ==> !abs_match_at(s, j);
        Some(id_part(s.skip(i + 4)))
    } else {
        None
    }
}

/// The pattern `arXiv\.(.+)` matches at `i`: `arXiv.` there and a
/// character other than a line break after it.
pub open spec fn arxiv_doi_at(s: Seq<char>, i: int) -> bool {
    occurs_at(s, "arXiv."@, i) && i + 6 < s.len() && s[i + 6] != '\n'
}

/// The number of characters before the next line break from `i` on.
pub open spec fn line_run(s: Seq<char>, i: int) -> nat
    decreases s.len() - i,
{
    if 0 <= i < s.len() && s[i] != '\n' {
        1 + line_run(s, i + 1)
    } else {
        0
    }
}

/// What follows `arXiv.` in an arXiv DOI, to the end of the line, at the
/// first place the pattern matches.
pub open spec fn arxiv_doi_suffix(s: Seq<char>) -> Option<Seq<char>> {
    if exists|i: int| arxiv_doi_at(s, i) {
        let i = choose|i: int| arxiv_doi_at(s, i) && forall|j: int| 0 <= j < i ==> !arxiv_doi_at(s, j);
        Some(s.subrange(i + 6, i + 6 + line_run(s, i + 6)))
    } else {
        None
    }
}

/// The arXiv search query: an `id:` lookup for an arXiv DOI, otherwise a
/// quoted `all:`, `au:` or `ti:` query.
pub open spec fn arxiv_query(q: Seq<char>, t: SearchType) -> Seq<char> {
    match t {
        SearchType::Doi => match arxiv_doi_suffix(trim_start_matches(q, "https://doi.org/"@)) {
            Some(id) => "id:"@ + id,
            None => "all:\""@ + q + "\""@,
        },
        SearchType::Author => "au:\""@ + q + "\""@,
        SearchType::Title => "ti:\""@ + q + "\""@,
        _ => "all:\""@ + q + "\""@,
    }
}

fn quoted(pre: &str, q: &Vec<char>) -> (r: String)
    ensures
        r@ == pre@ + q@ + "\""@,
{
    let mut v = chars_of(pre);
    extend(&mut v, q);
    extend_str(&mut v, "\"");
    string_of(&v)
}

/// Phrases a query in arXiv's search syntax.
pub fn build_query(query: &str, search_type: SearchType) -> (r: String)
    ensures
        r@ == arxiv_query(query@, search_type),
{
    let q = chars_of(query);
    match search_type {
        SearchType::Doi => {
            let stripped = string_of(&trim_start_matches_str(&q, "https://doi.org/"));
            match first_capture("arXiv\\.(.+)", stripped.as_str()) {
                Some(id) => {
                    let mut v = chars_of("id:");
                    extend_str(&mut v, id.as_str());
                    string_of(&v)
                },
                None => quoted("all:\"", &q),
            }
        },
        SearchType::Author => quoted("au:\"", &q),
        SearchType::Title => quoted("ti:\"", &q),
        _ => quoted("all:\"", &q),
    }
}

// ---------------------------------------------------------------------------
// Entries
// ---------------------------------------------------------------------------
/// The names of the authors among `cs`.
pub open spec fn author_names(nodes: Seq<NodeView>, cs: Seq<NodeView>) -> Seq<Seq<char>>
    decreases cs.len(),
{
    if cs.len() == 0 {
        seq![]
    } else {
        let c = cs.last();
        author_names(nodes, cs.drop_last()) + if is_tag(c, atom_ns(), "author"@) {
            match child_text(nodes, c.id, atom_ns(), "name"@) {
                Some(n) => seq![n],
                None => seq![],
            }
        } else {
            seq![]
        }
    }
}

/// The page and PDF addresses among the links of `cs`: the last
/// `alternate` link, and the last PDF link (of type `application/pdf`, or
/// `related` with `pdf` in its address).
pub open spec fn links(cs: Seq<NodeView>) -> (Seq<char>, Option<Seq<char>>)
    decreases cs.len(),
{
    if cs.len() == 0 {
        (seq![], None)
    } else {
        let (url, pdf) = links(cs.drop_last());
        let c = cs.last();
        if is_tag(c, atom_ns(), "link"@) {
            let rel = match attr_value(c.attrs, "rel"@) {
                Some(v) => v,
                None => seq![],
            };
            let href = match attr_value(c.attrs, "href"@) {
                Some(v) => v,
                None => seq![],
            };
            let ty = match attr_value(c.attrs, "type"@) {
                Some(v) => v,
                None => seq![],
            };
            if rel == "alternate"@ {
                (href, pdf)
            } else if ty == "application/pdf"@ || (rel == "related"@ && contains(href, "pdf"@)) {
                (url, Some(href))
            } else {
                (url, pdf)
            }
        } else {
            (url, pdf)
        }
    }
}

/// The trimmed text of the last element of `cs` with the given name that
/// has text.
pub open spec fn last_text(cs: Seq<NodeView>, ns: Seq<char>, local: Seq<char>) -> Option<Seq<char>>
    decreases cs.len(),
{
    if cs.len() == 0 {
        None
    } else {
        let c = cs.last();
        if is_tag(c, ns, local) && c.text is Some {
            Some(trim(c.text->0))
        } else {
            last_text(cs.drop_last(), ns, local)
        }
    }
}

/// An Atom entry as a paper.
pub open spec fn entry_paper(nodes: Seq<NodeView>, entry: usize) -> PaperView {
    let cs = children(nodes, entry);
    let title = match child_text(nodes, entry, atom_ns(), "title"@) {
        Some(t) => t,
        None => seq![],
    };
    let id_text = match child_text(nodes, entry, atom_ns(), "id"@) {
        Some(t) => t,
        None => seq![],
    };
    let aid = arxiv_id_of(id_text);
    let doi = match last_text(cs, arxiv_ns(), "doi"@) {
        Some(d) => Some(d),
        None => match aid {
            Some(a) => Some("10.48550/arXiv."@ + a),
            None => None,
        },
    };
    let published = child_text(nodes, entry, atom_ns(), "published"@);
    let journal = last_text(cs, arxiv_ns(), "journal_ref"@);
    let (url, pdf) = links(cs);
    PaperView {
        title: clean_title(title),
        authors: author_names(nodes, cs),
        abstract_text: child_text(nodes, entry, atom_ns(), "summary"@),
        doi: doi,
        year: match published {
            Some(p) => match byte_prefix(p, 4) {
                Some(y) => parse_i32_spec(y),
                None => None,
            },
            None => None,
        },
        published_date: match published {
            Some(p) => byte_prefix(p, 10),
            None => None,
        },
        source: "arxiv"@,
        url: if url.len() == 0 {
            None
        } else {
            Some(url)
        },
        pdf_url: pdf,
        journal: journal,
        arxiv_id: aid,
        work_type: Some(
            if journal is Some {
                "journal-article"@
            } else {
                "preprint"@
            },
        ),
        ..empty_paper()
    }
}

fn attr_or_empty(n: &XmlNode, name: &str) -> (r: Vec<char>)
    ensures
        r@ == match attr_value(n@.attrs, name@) {
            Some(v) => v,
            None => seq![],
        },
{
    match attribute(n, name) {
        Some(v) => chars_of(v.as_str()),
        None => Vec::new(),
    }
}

/// What the children of an entry give: author names, the page address,
/// the PDF address, the DOI and the journal reference.
#[verifier::rlimit(40)]
fn scan_children(nodes: &Vec<XmlNode>, entry: usize) -> (r: (
    Vec<String>,
    Vec<char>,
    Option<String>,
    Option<String>,
    Option<String>,
))
    ensures
        views(r.0@) == author_names(nodes_view(nodes@), children(nodes_view(nodes@), entry)),
        (r.1@, ostr(r.2)) == links(children(nodes_view(nodes@), entry)),
        ostr(r.3) == last_text(children(nodes_view(nodes@), entry), arxiv_ns(), "doi"@),
        ostr(r.4) == last_text(children(nodes_view(nodes@), entry), arxiv_ns(), "journal_ref"@),
{
    let ghost nv = nodes_view(nodes@);
    let atom = "http://www.w3.org/2005/Atom";
    let arx = "http://arxiv.org/schemas/atom";
    let cs = children_of(nodes, entry);
    let ghost cv = cs@.map_values(|k: usize| nv[k as int]);
    let mut authors: Vec<String> = Vec::new();
    let mut url: Vec<char> = Vec::new();
    let mut pdf: Option<String> = None;
    let mut doi: Option<String> = None;
    let mut journal: Option<String> = None;
    let alternate = chars_of("alternate");
    let related = chars_of("related");
    let app_pdf = chars_of("application/pdf");
    let mut i: usize = 0;
    while i < cs.len()
        invariant
            i <= cs.len(),
            nv == nodes_view(nodes@),
            cv == cs@.map_values(|k: usize| nv[k as int]),
            cv == children(nv, entry),
            forall|k: int| 0 <= k < cs@.len() ==> (#[trigger] cs@[k]) < nodes@.len(),
            atom@ == atom_ns() && arx@ == arxiv_ns(),
            alternate@ == "alternate"@ && related@ == "related"@ && app_pdf@ == "application/pdf"@,
            views(authors@) == author_names(nv, cv.take(i as int)),
            (url@, ostr(pdf)) == links(cv.take(i as int)),
            ostr(doi) == last_text(cv.take(i as int), arxiv_ns(), "doi"@),
            ostr(journal) == last_text(cv.take(i as int), arxiv_ns(), "journal_ref"@),
        decreases cs.len() - i,
    {
        let ghost t = cv.take(i + 1);
        assert(t.drop_last() == cv.take(i as int));
        assert(t.last() == nodes@[cs@[i as int] as int]@);
        let c = &nodes[cs[i]];
        let ghost before = views(authors@);
        if has_tag(c, atom, "author") {
            match find_text(nodes, c.id, atom, "name") {
                Some(n) => {
                    authors.push(n);
                    assert(views(authors@) =~= before.push(n@));
                },
                None => {
                    assert(before + seq![] == before);
                },
            }
        } else {
            assert(before + seq![] == before);
        }
        if has_tag(c, atom, "link") {
            let rel = attr_or_empty(c, "rel");
            let href = attr_or_empty(c, "href");
            let ty = attr_or_empty(c, "type");
            if crate::text::eq_chars(&rel, &alternate) {
                url = href;
            } else if crate::text::eq_chars(&ty, &app_pdf) || (crate::text::eq_chars(&rel, &related)
                && contains_str(&href, "pdf")) {
                pdf = Some(string_of(&href));
            }
        }
        if has_tag(c, arx, "doi") {
            match &c.text {
                Some(x) => {
                    doi = Some(crate::text::trim_str(x.as_str()));
                },
                None => {},
            }
        }
        if has_tag(c, arx, "journal_ref") {
            match &c.text {
                Some(x) => {
                    journal = Some(crate::text::trim_str(x.as_str()));
                },
                None => {},
            }
        }
        i = i + 1;
    }
    assert(cv.take(cs.len() as int) == cv);
    (authors, url, pdf, doi, journal)
}

/// Reads an Atom entry: the node at position `entry` of `nodes`.
#[verifier::rlimit(40)]
pub fn parse_entry(nodes: &Vec<XmlNode>, entry: usize) -> (p: Paper)
    ensures
        p@ == entry_paper(nodes_view(nodes@), entry),
{
    let atom = "http://www.w3.org/2005/Atom";
    let title = match find_text(nodes, entry, atom, "title") {
        Some(t) => chars_of(t.as_str()),
        None => Vec::new(),
    };
    let space = vec![' '];
    assert(space@ =~= seq![' ']);
    let one_line = string_of(&replace_char_exec(&title, '\n', &space));
    let title = trim_chars(&chars_of(replace_all("\\s+", one_line.as_str(), " ").as_str()));
    let (authors, url, pdf, doi, journal) = scan_children(nodes, entry);
    let id_text = match find_text(nodes, entry, atom, "id") {
        Some(t) => chars_of(t.as_str()),
        None => Vec::new(),
    };
    let aid = match first_capture("abs/(.+?)(?:v\\d+)?$", string_of(&id_text).as_str()) {
        Some(a) => Some(chars_of(a.as_str())),
        None => None,
    };
    let doi = match doi {
        Some(d) => Some(d),
        None => match &aid {
            Some(a) => {
                let mut v = chars_of("10.48550/arXiv.");
                extend(&mut v, a);
                Some(string_of(&v))
            },
            None => None,
        },
    };
    let published = find_text(nodes, entry, atom, "published");
    let (year, published_date) = match &published {
        Some(p) => {
            let pv = chars_of(p.as_str());
            let y = match byte_prefix_exec(&pv, 4) {
                Some(y) => parse_i32(&y),
                None => None,
            };
            let d = match byte_prefix_exec(&pv, 10) {
                Some(d) => Some(string_of(&d)),
                None => None,
            };
            (y, d)
        },
        None => (None, None),
    };
    let work_type = if journal.is_some() {
        owned("journal-article")
    } else {
        owned("preprint")
    };
    let p = Paper {
        title: string_of(&title),
        authors,
        abstract_text: find_text(nodes, entry, atom, "summary"),
        doi,
        year,
        published_date,
        source: owned("arxiv"),
        url: if url.len() == 0 {
            None
        } else {
            Some(string_of(&url))
        },
        pdf_url: pdf,
        journal,
        volume: None,
        issue: None,
        pages: None,
        citation_count: None,
        publisher: None,
        isbn: None,
        issn: None,
        arxiv_id: match aid {
            Some(a) => Some(string_of(&a)),
            None => None,
        },
        work_type: Some(work_type),
        editors: Vec::new(),
        series: None,
        oclc: None,
        lccn: None,
    };
    assert(views(p.editors@) =~= seq![]);
    let ghost e = entry_paper(nodes_view(nodes@), entry);
    assert(p@.title == e.title);
    assert(p@.authors == e.authors);
    assert(p@.doi == e.doi);
    assert(p@.year == e.year);
    assert(p@.published_date == e.published_date);
    assert(p@.url == e.url);
    assert(p@.pdf_url == e.pdf_url);
    assert(p@.arxiv_id == e.arxiv_id);
    assert(p@.work_type == e.work_type);
    p
}

// ---------------------------------------------------------------------------
// Feeds
// ---------------------------------------------------------------------------
/// The ids of the `entry` elements among `cs`.
pub open spec fn entry_ids(cs: Seq<NodeView>) -> Seq<usize>
    decreases cs.len(),
{
    if cs.len() == 0 {
        seq![]
    } else {
        entry_ids(cs.drop_last()) + if is_tag(cs.last(), atom_ns(), "entry"@) {
            seq![cs.last().id]
        } else {
            seq![]
        }
    }
}

/// `s.parse::<usize>().ok()`.
pub open spec fn parse_usize_spec(s: Seq<char>) -> Option<usize> {
    match crate::text::parse_int_spec(s, false) {
        Some(v) => if 0 <= v <= usize::MAX {
            Some(v as usize)
        } else {
            None
        },
        None => None,
    }
}

/// What an Atom feed answers: the papers of its first `limit` entries, and
/// the total number of results it reports.
pub open spec fn feed_result(nodes: Seq<NodeView>, limit: usize) -> (Seq<PaperView>, Option<usize>) {
    match crate::xml::root_index(nodes) {
        Some(r) => {
            let root = nodes[r].id;
            (
                entry_ids(children(nodes, root)).take(
                    if entry_ids(children(nodes, root)).len() > limit {
                        limit as int
                    } else {
                        entry_ids(children(nodes, root)).len() as int
                    },
                ).map_values(|id: usize| entry_paper(nodes, id)),
                match child_text(nodes, root, opensearch_ns(), "totalResults"@) {
                    Some(t) => parse_usize_spec(t),
                    None => None,
                },
            )
        },
        None => (seq![], None),
    }
}

/// The answer to an arXiv search: `None` when the text is not an XML
/// document, else the papers and total of the feed.
pub open spec fn feed_answer(text: Seq<char>, limit: usize) -> Option<(Seq<PaperView>, Option<usize>)> {
    match crate::xml::xml_nodes(text) {
        Some(nodes) => Some(feed_result(nodes, limit)),
        None => None,
    }
}

fn parse_usize(s: &Vec<char>) -> (r: Option<usize>)
    ensures
        r == parse_usize_spec(s@),
{
    match crate::text::parse_u64(s) {
        Some(v) => if v <= usize::MAX as u64 {
            Some(v as usize)
        } else {
            None
        },
        None => None,
    }
}

fn entry_ids_exec(nodes: &Vec<XmlNode>, root: usize) -> (ids: Vec<usize>)
    ensures
        ids@ == entry_ids(children(nodes_view(nodes@), root)),
{
    let ghost nv = nodes_view(nodes@);
    let cs = children_of(nodes, root);
    let ghost cv = cs@.map_values(|k: usize| nv[k as int]);
    let mut ids: Vec<usize> = Vec::new();
    let mut i: usize = 0;
    while i < cs.len()
        invariant
            i <= cs.len(),
            nv == nodes_view(nodes@),
            cv == cs@.map_values(|k: usize| nv[k as int]),
            forall|k: int| 0 <= k < cs@.len() ==> (#[trigger] cs@[k]) < nodes@.len(),
            ids@ == entry_ids(cv.take(i as int)),
        decreases cs.len() - i,
    {
        assert(cv.take(i + 1).drop_last() == cv.take(i as int));
        assert(cv.take(i + 1).last() == nodes@[cs@[i as int] as int]@);
        let n = &nodes[cs[i]];
        if has_tag(n, "http://www.w3.org/2005/Atom", "entry") {
            ids.push(n.id);
        } else {
            assert(ids@ + seq![] == ids@);
        }
        i = i + 1;
    }
    assert(cv.take(cs.len() as int) == cv);
    ids
}

fn entry_papers(nodes: &Vec<XmlNode>, ids: &Vec<usize>, n: usize) -> (papers: Vec<Paper>)
    requires
        n <= ids.len(),
    ensures
        paper_views(papers@) == ids@.take(n as int).map_values(
            |id: usize| entry_paper(nodes_view(nodes@), id),
        ),
{
    let ghost nv = nodes_view(nodes@);
    let mut papers: Vec<Paper> = Vec::new();
    let mut k: usize = 0;
    while k < n
        invariant
            k <= n <= ids.len(),
            nv == nodes_view(nodes@),
            paper_views(papers@) == ids@.take(k as int).map_values(|id: usize| entry_paper(nv, id)),
        decreases n - k,
    {
        let p = parse_entry(nodes, ids[k]);
        let ghost before = paper_views(papers@);
        papers.push(p);
        assert(paper_views(papers@) =~= before.push(p@));
        assert(ids@.take(k + 1).map_values(|id: usize| entry_paper(nv, id)) =~= ids@.take(
            k as int,
        ).map_values(|id: usize| entry_paper(nv, id)).push(entry_paper(nv, ids@[k as int])));
        k = k + 1;
    }
    papers
}

/// Reads the entries of an arXiv Atom feed.
pub fn parse_feed(text: &str, limit: usize) -> (r: Option<crate::provider::ProviderResult>)
    ensures
        match r {
            Some(res) => feed_answer(text@, limit) == Some((paper_views(res.papers@), res.total_hits)),
            None => feed_answer(text@, limit) is None,
        },
{
    let nodes = match crate::xml::parse_xml(text) {
        Some(n) => n,
        None => {
            return None;
        },
    };
    let root = match crate::xml::root_element(&nodes) {
        Some(r) => nodes[r].id,
        None => {
            let r = crate::provider::ProviderResult { papers: Vec::new(), total_hits: None };
            assert(paper_views(r.papers@) =~= seq![]);
            return Some(r);
        },
    };
    let total_hits = match find_text(&nodes, root, "http://a9.com/-/spec/opensearch/1.1/", "totalResults") {
        Some(t) => parse_usize(&chars_of(t.as_str())),
        None => None,
    };
    let ids = entry_ids_exec(&nodes, root);
    let n = if ids.len() > limit {
        limit
    } else {
        ids.len()
    };
    let papers = entry_papers(&nodes, &ids, n);
    Some(crate::provider::ProviderResult { papers, total_hits })
}

} // verus!
