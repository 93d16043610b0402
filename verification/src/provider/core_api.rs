//! CORE: work records and query syntax.
use vstd::prelude::*;

use crate::json::{
    as_array, dv, first_str, get, ji64, jfirst, jget, jstr, jstr_at, jstr_or, str_at, str_of,
    str_or, Json,
};
use crate::models::{empty_paper, Paper, PaperView, SearchType};
use crate::text::{
    chars_of, extend, extend_str, fmt_int, int_dec, owned, string_of, trim_start_matches,
    trim_start_matches_str, views,
};

verus! {

/// An author entry: the `name` of an object, or a plain string.
pub open spec fn author_of(e: Json) -> Option<Seq<char>> {
    match jstr_at(Some(e), "name"@) {
        Some(n) => Some(n),
        None => jstr(Some(e)),
    }
}

/// The authors of a list of author entries.
pub open spec fn authors_of(a: Seq<Json>) -> Seq<Seq<char>>
    decreases a.len(),
{
    if a.len() == 0 {
        seq![]
    } else {
        authors_of(a.drop_last()) + match author_of(a.last()) {
            Some(n) => seq![n],
            None => seq![],
        }
    }
}

fn authors_exec(v: Option<&Json>) -> (r: Vec<String>)
    ensures
        views(r@) == match crate::json::jarr(dv(v)) {
            Some(a) => authors_of(a),
            None => seq![],
        },
{
    let mut r: Vec<String> = Vec::new();
    match as_array(v) {
        Some(a) => {
            let mut i: usize = 0;
            while i < a.len()
                invariant
                    i <= a.len(),
                    views(r@) == authors_of(a@.take(i as int)),
                decreases a.len() - i,
            {
                assert(a@.take(i + 1).drop_last() == a@.take(i as int));
                assert(a@.take(i + 1).last() == a@[i as int]);
                let e = Some(&a[i]);
                let n = match str_at(e, "name") {
                    Some(n) => Some(n),
                    None => str_of(e),
                };
                let ghost before = views(r@);
                match n {
                    Some(n) => {
                        r.push(n);
                        assert(views(r@) =~= before.push(n@));
                    },
                    None => {},
                }
                i = i + 1;
            }
            assert(a@.take(a.len() as int) == a@);
        },
        None => {},
    }
    r
}

/// The CORE id of a work, as a number or a string.
pub open spec fn work_id(v: Option<Json>) -> Option<Seq<char>> {
    match ji64(v) {
        Some(n) => Some(int_dec(n as int)),
        None => jstr(v),
    }
}

/// A CORE work as a paper.
pub open spec fn work_paper(w: Option<Json>) -> PaperView {
    PaperView {
        title: jstr_or(jget(w, "title"@), "Unknown"@),
        authors: match crate::json::jarr(jget(w, "authors"@)) {
            Some(a) => authors_of(a),
            None => seq![],
        },
        abstract_text: jstr_at(w, "abstract"@),
        doi: match jstr_at(w, "doi"@) {
            Some(d) => if trim_start_matches(d, "https://doi.org/"@).len() > 0 {
                Some(trim_start_matches(d, "https://doi.org/"@))
            } else {
                None
            },
            None => None,
        },
        year: match ji64(jget(w, "yearPublished"@)) {
            Some(y) => Some(y as i32),
            None => None,
        },
        source: "core"@,
        url: match work_id(jget(w, "id"@)) {
            Some(id) => Some("https://core.ac.uk/works/"@ + id),
            None => None,
        },
        pdf_url: match jstr_at(w, "downloadUrl"@) {
            Some(u) => Some(u),
            None => jstr(jfirst(jget(w, "sourceFulltextUrls"@))),
        },
        journal: jstr_at(w, "publisher"@),
        ..empty_paper()
    }
}

/// Reads a CORE work record.
pub fn parse_work(work: &Json) -> (p: Paper)
    ensures
        p@ == work_paper(Some(*work)),
{
    let w = Some(work);
    let idv = get(w, "id");
    let id = match crate::json::as_i64(idv) {
        Some(n) => Some(string_of(&fmt_int(n))),
        None => str_of(idv),
    };
    let url = match id {
        Some(id) => {
            let mut u = chars_of("https://core.ac.uk/works/");
            extend(&mut u, &chars_of(id.as_str()));
            Some(string_of(&u))
        },
        None => None,
    };
    let doi = match str_at(w, "doi") {
        Some(d) => {
            let t = trim_start_matches_str(&chars_of(d.as_str()), "https://doi.org/");
            if t.len() > 0 {
                Some(string_of(&t))
            } else {
                None
            }
        },
        None => None,
    };
    let p = Paper {
        title: str_or(get(w, "title"), "Unknown"),
        authors: authors_exec(get(w, "authors")),
        abstract_text: str_at(w, "abstract"),
        doi,
        year: match crate::json::as_i64(get(w, "yearPublished")) {
            Some(y) => Some(y as i32),
            None => None,
        },
        published_date: None,
        source: owned("core"),
        url,
        pdf_url: match str_at(w, "downloadUrl") {
            Some(u) => Some(u),
            None => first_str(get(w, "sourceFulltextUrls")),
        },
        journal: str_at(w, "publisher"),
        volume: None,
        issue: None,
        pages: None,
        citation_count: None,
        publisher: None,
        isbn: None,
        issn: None,
        arxiv_id: None,
        work_type: None,
        editors: Vec::new(),
        series: None,
        oclc: None,
        lccn: None,
    };
    assert(views(p.editors@) =~= seq![]);
    p
}

/// The CORE query for a search: `doi:` and the DOI without link prefixes,
/// `title:(...)`, or the query itself.
pub open spec fn core_query(q: Seq<char>, t: SearchType) -> Seq<char> {
    match t {
        SearchType::Doi => "doi:"@ + trim_start_matches(q, "https://doi.org/"@),
        SearchType::Title => "title:("@ + q + ")"@,
        _ => q,
    }
}

/// Phrases a query in CORE's syntax.
pub fn build_query(query: &str, search_type: SearchType) -> (r: String)
    ensures
        r@ == core_query(query@, search_type),
{
    match search_type {
        SearchType::Doi => {
            let mut v = chars_of("doi:");
            extend(&mut v, &trim_start_matches_str(&chars_of(query), "https://doi.org/"));
            string_of(&v)
        },
        SearchType::Title => {
            let mut v = chars_of("title:(");
            extend(&mut v, &chars_of(query));
            extend_str(&mut v, ")");
            string_of(&v)
        },
        _ => owned(query),
    }
}

} // verus!
