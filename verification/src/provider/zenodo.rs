//! Zenodo: query syntax and records.
use vstd::prelude::*;

use crate::html::{html_text, text_of_html};
use crate::json::{
    as_array, get, jarr, jget, jmember_list, jstr, jstr_at, member_list, str_at, str_of, Json,
};
use crate::models::{doi_url, doi_url_exec, empty_paper, Paper, PaperView, SearchType};
use crate::provider::{date_year, date_year_exec, without_doi_link, without_doi_link_exec};
use crate::text::{
    chars_of, ends_with_str, extend, extend_str, has_suffix, ostr, owned, string_of, trim,
    trim_chars, views,
};

verus! {

/// The Zenodo query for a search: a quoted `title:`, `creators.name:` or
/// `doi:` query (the DOI without a link prefix), the keywords as they are,
/// and nothing for an ISBN.
pub open spec fn zenodo_query(q: Seq<char>, t: SearchType) -> Seq<char> {
    match t {
        SearchType::Keywords => q,
        SearchType::Title => "title:\""@ + q + "\""@,
        SearchType::Author => "creators.name:\""@ + q + "\""@,
        SearchType::Doi => "doi:\""@ + without_doi_link(q) + "\""@,
        SearchType::Isbn => seq![],
    }
}

/// Phrases a query in Zenodo's search syntax.
pub fn build_query(query: &str, search_type: &SearchType) -> (r: String)
    ensures
        r@ == zenodo_query(query@, *search_type),
{
    let q = chars_of(query);
    match *search_type {
        SearchType::Keywords => owned(query),
        SearchType::Title => {
            let mut r = chars_of("title:\"");
            extend(&mut r, &q);
            extend_str(&mut r, "\"");
            string_of(&r)
        },
        SearchType::Author => {
            let mut r = chars_of("creators.name:\"");
            extend(&mut r, &q);
            extend_str(&mut r, "\"");
            string_of(&r)
        },
        SearchType::Doi => {
            let mut r = chars_of("doi:\"");
            extend(&mut r, &without_doi_link_exec(&q));
            extend_str(&mut r, "\"");
            string_of(&r)
        },
        SearchType::Isbn => String::new(),
    }
}

/// The text of an HTML description, without surrounding white space.
pub open spec fn stripped_html(h: Seq<char>) -> Seq<char> {
    trim(html_text(h))
}

/// The text of an HTML fragment, trimmed.
pub fn strip_html(html: &str) -> (r: String)
    ensures
        r@ == stripped_html(html@),
{
    let t = text_of_html(html);
    string_of(&trim_chars(&chars_of(t.as_str())))
}

/// The first file whose key ends in `.pdf` and that has a `links.self`
/// address, as that address.
pub open spec fn pdf_file(files: Seq<Json>) -> Option<Seq<char>>
    decreases files.len(),
{
    if files.len() == 0 {
        None
    } else {
        let e = Some(files[0]);
        let link = jstr_at(jget(e, "links"@), "self"@);
        match jstr_at(e, "key"@) {
            Some(k) => if has_suffix(k, ".pdf"@) && link is Some {
                link
            } else {
                pdf_file(files.drop_first())
            },
            None => pdf_file(files.drop_first()),
        }
    }
}

fn pdf_file_exec(files: &Vec<Json>) -> (r: Option<String>)
    ensures
        ostr(r) == pdf_file(files@),
{
    let mut i: usize = 0;
    assert(files@.skip(0) == files@);
    while i < files.len()
        invariant
            i <= files.len(),
            pdf_file(files@) == pdf_file(files@.skip(i as int)),
        decreases files.len() - i,
    {
        assert(files@.skip(i as int)[0] == files@[i as int]);
        assert(files@.skip(i as int).drop_first() == files@.skip(i + 1));
        let e = Some(&files[i]);
        match str_at(e, "key") {
            Some(k) => {
                if ends_with_str(&chars_of(k.as_str()), ".pdf") {
                    let link = str_at(get(e, "links"), "self");
                    if link.is_some() {
                        return link;
                    }
                }
            },
            None => {},
        }
        i = i + 1;
    }
    None
}

/// A Zenodo record as a paper; `None` when it has no metadata or no
/// non-empty title.
pub open spec fn record_paper(r: Option<Json>) -> Option<PaperView> {
    let m = jget(r, "metadata"@);
    let j = jget(m, "journal"@);
    let imp = jget(m, "imprint"@);
    let doi = match jstr_at(m, "doi"@) {
        Some(d) => Some(d),
        None => jstr_at(r, "doi"@),
    };
    let links = jget(r, "links"@);
    match jstr_at(m, "title"@) {
        Some(title) => if m is Some && title.len() > 0 {
            Some(
                PaperView {
                    title: title,
                    authors: jmember_list(jget(m, "creators"@), "name"@),
                    doi: doi,
                    year: date_year(jstr_at(m, "publication_date"@)),
                    published_date: jstr_at(m, "publication_date"@),
                    abstract_text: match jstr_at(m, "description"@) {
                        Some(h) => if stripped_html(h).len() > 0 {
                            Some(stripped_html(h))
                        } else {
                            None
                        },
                        None => None,
                    },
                    journal: jstr_at(j, "title"@),
                    volume: jstr_at(j, "volume"@),
                    issue: jstr_at(j, "issue"@),
                    pages: jstr_at(j, "pages"@),
                    url: match doi {
                        Some(d) => Some(doi_url(d)),
                        None => match jget(links, "html"@) {
                            Some(h) => jstr(Some(h)),
                            None => jstr_at(links, "self_html"@),
                        },
                    },
                    pdf_url: match jarr(jget(r, "files"@)) {
                        Some(fs) => pdf_file(fs),
                        None => None,
                    },
                    work_type: jstr_at(jget(m, "resource_type"@), "type"@),
                    isbn: jstr_at(imp, "isbn"@),
                    publisher: jstr_at(imp, "publisher"@),
                    source: "zenodo"@,
                    ..empty_paper()
                },
            )
        } else {
            None
        },
        None => None,
    }
}

/// Reads a Zenodo record.
pub fn parse_record(record: &Json) -> (p: Option<Paper>)
    ensures
        match p {
            Some(p) => record_paper(Some(*record)) == Some(p@),
            None => record_paper(Some(*record)) is None,
        },
{
    let r = Some(record);
    let m = get(r, "metadata");
    if m.is_none() {
        return None;
    }
    let title = match str_at(m, "title") {
        Some(t) => t,
        None => {
            return None;
        },
    };
    if chars_of(title.as_str()).len() == 0 {
        return None;
    }
    let j = get(m, "journal");
    let imp = get(m, "imprint");
    let doi = match str_at(m, "doi") {
        Some(d) => Some(d),
        None => str_at(r, "doi"),
    };
    let pub_date = str_at(m, "publication_date");
    let year = date_year_exec(&pub_date);
    let abstract_text = match str_at(m, "description") {
        Some(h) => {
            let s = strip_html(h.as_str());
            if chars_of(s.as_str()).len() > 0 {
                Some(s)
            } else {
                None
            }
        },
        None => None,
    };
    let links = get(r, "links");
    let url = match &doi {
        Some(d) => Some(doi_url_exec(&chars_of(d.as_str()))),
        None => match get(links, "html") {
            Some(h) => str_of(Some(h)),
            None => str_at(links, "self_html"),
        },
    };
    let pdf_url = match as_array(get(r, "files")) {
        Some(fs) => pdf_file_exec(fs),
        None => None,
    };
    let p = Paper {
        title,
        authors: member_list(get(m, "creators"), "name"),
        abstract_text,
        doi,
        year,
        published_date: pub_date,
        source: owned("zenodo"),
        url,
        pdf_url,
        journal: str_at(j, "title"),
        volume: str_at(j, "volume"),
        issue: str_at(j, "issue"),
        pages: str_at(j, "pages"),
        citation_count: None,
        publisher: str_at(imp, "publisher"),
        isbn: str_at(imp, "isbn"),
        issn: None,
        arxiv_id: None,
        work_type: str_at(get(m, "resource_type"), "type"),
        editors: Vec::new(),
        series: None,
        oclc: None,
        lccn: None,
    };
    assert(views(p.editors@) =~= seq![]);
    Some(p)
}

} // verus!
