//! PubMed (NCBI E-utilities): search terms, the id list of a search, and
//! the papers of a summary.
use vstd::prelude::*;

use crate::json::{
    as_array, dv, get, is_object, jarr, jget, jis_obj, jmember_list, jstr, jstr_at, jstr_list,
    jstr_or, member_list, str_at, str_list, str_of, str_or, Json,
};
use crate::models::{empty_paper, Paper, PaperView, SearchType};
use crate::provider::{date_year, date_year_exec};
use crate::search::paper_views;
use crate::text::{chars_of, extend, extend_str, ostr, owned, str_eq, string_of, views};

verus! {

/// The PubMed search term: the query tagged `[DOI]`, `[Author]` or
/// `[Title]`, or the query itself.
pub open spec fn pubmed_term(q: Seq<char>, t: SearchType) -> Seq<char> {
    match t {
        SearchType::Doi => q + "[DOI]"@,
        SearchType::Author => q + "[Author]"@,
        SearchType::Title => q + "[Title]"@,
        _ => q,
    }
}

/// Phrases a query as a PubMed search term.
pub fn search_term(query: &str, search_type: SearchType) -> (r: String)
    ensures
        r@ == pubmed_term(query@, search_type),
{
    let mut v = chars_of(query);
    match search_type {
        SearchType::Doi => extend_str(&mut v, "[DOI]"),
        SearchType::Author => extend_str(&mut v, "[Author]"),
        SearchType::Title => extend_str(&mut v, "[Title]"),
        _ => {},
    }
    string_of(&v)
}

/// A PubMed term is the query followed by a field tag that depends on the
/// kind of search alone: a title search is restricted to the title field
/// (`[Title]`), an author search to the author field (`[Author]`), a DOI
/// search to the DOI field (`[DOI]`), and the three tags differ; keyword
/// and ISBN searches add no tag.
pub proof fn pubmed_term_tags_the_field(q: Seq<char>, t: SearchType)
    ensures
        pubmed_term(q, t) == q + pubmed_term(seq![], t),
        pubmed_term(seq![], SearchType::Title) == "[Title]"@,
        pubmed_term(seq![], SearchType::Author) == "[Author]"@,
        pubmed_term(seq![], SearchType::Doi) == "[DOI]"@,
        pubmed_term(seq![], SearchType::Keywords).len() == 0,
        pubmed_term(seq![], SearchType::Isbn).len() == 0,
        pubmed_term(q, SearchType::Title) != pubmed_term(q, SearchType::Author),
        pubmed_term(q, SearchType::Title) != pubmed_term(q, SearchType::Doi),
        pubmed_term(q, SearchType::Author) != pubmed_term(q, SearchType::Doi),
{
    assert(seq![] + "[Title]"@ =~= "[Title]"@);
    assert(seq![] + "[Author]"@ =~= "[Author]"@);
    assert(seq![] + "[DOI]"@ =~= "[DOI]"@);
    reveal_strlit("[Title]");
    reveal_strlit("[Author]");
    reveal_strlit("[DOI]");
    let n = q.len() as int;
    assert((q + "[Title]"@)[n + 1] == 'T');
    assert((q + "[Author]"@)[n + 1] == 'A');
    assert((q + "[DOI]"@)[n + 1] == 'D');
    if t is Keywords || t is Isbn {
        assert(q + seq![] =~= q);
    }
}

/// The PubMed ids a search answered with.
pub open spec fn search_ids(data: Option<Json>) -> Seq<Seq<char>> {
    jstr_list(jget(jget(data, "esearchresult"@), "idlist"@))
}

/// Reads the id list of a search answer.
pub fn id_list(data: &Json) -> (r: Vec<String>)
    ensures
        views(r@) == search_ids(Some(*data)),
{
    str_list(get(get(Some(data), "esearchresult"), "idlist"))
}

/// The DOI and PMC id among article ids: the first value given for each.
pub open spec fn article_ids(ids: Seq<Json>) -> (Option<Seq<char>>, Option<Seq<char>>)
    decreases ids.len(),
{
    if ids.len() == 0 {
        (None, None)
    } else {
        let (d, p) = article_ids(ids.drop_last());
        let e = Some(ids.last());
        let ty = jstr_at(e, "idtype"@);
        let v = jstr_at(e, "value"@);
        (
            if ty == Some("doi"@) && d is None {
                v
            } else {
                d
            },
            if ty == Some("pmc"@) && p is None {
                v
            } else {
                p
            },
        )
    }
}

/// A PubMed summary document as a paper.
pub open spec fn summary_paper(pmid: Seq<char>, doc: Option<Json>) -> PaperView {
    let ids = match jarr(jget(doc, "articleids"@)) {
        Some(a) => article_ids(a),
        None => (None, None),
    };
    PaperView {
        title: jstr_or(jget(doc, "title"@), "Unknown"@),
        authors: jmember_list(jget(doc, "authors"@), "name"@),
        doi: ids.0,
        year: date_year(jstr_at(doc, "pubdate"@)),
        source: "pubmed"@,
        url: Some("https://pubmed.ncbi.nlm.nih.gov/"@ + pmid + "/"@),
        pdf_url: match ids.1 {
            Some(id) => Some("https://www.ncbi.nlm.nih.gov/pmc/articles/"@ + id + "/pdf/"@),
            None => None,
        },
        journal: match jget(doc, "fulljournalname"@) {
            Some(v) => jstr(Some(v)),
            None => jstr_at(doc, "source"@),
        },
        volume: jstr_at(doc, "volume"@),
        issue: jstr_at(doc, "issue"@),
        pages: jstr_at(doc, "pages"@),
        ..empty_paper()
    }
}

/// The papers of a summary answer: one for each id, in id order, whose
/// document is an object.
pub open spec fn summary_papers(result: Option<Json>, ids: Seq<Seq<char>>) -> Seq<PaperView>
    decreases ids.len(),
{
    if ids.len() == 0 {
        seq![]
    } else {
        let doc = jget(result, ids.last());
        summary_papers(result, ids.drop_last()) + if jis_obj(doc) {
            seq![summary_paper(ids.last(), doc)]
        } else {
            seq![]
        }
    }
}

fn article_ids_exec(ids: &Vec<Json>) -> (r: (Option<String>, Option<String>))
    ensures
        (ostr(r.0), ostr(r.1)) == article_ids(ids@),
{
    let mut doi: Option<String> = None;
    let mut pmc: Option<String> = None;
    let want_doi = chars_of("doi");
    let want_pmc = chars_of("pmc");
    proof {
        reveal_strlit("doi");
        reveal_strlit("pmc");
    }
    assert("doi"@[0] == 'd' && "pmc"@[0] == 'p');
    assert("doi"@ != "pmc"@);
    let mut i: usize = 0;
    while i < ids.len()
        invariant
            i <= ids.len(),
            want_doi@ == "doi"@ && want_pmc@ == "pmc"@,
            "doi"@ != "pmc"@,
            (ostr(doi), ostr(pmc)) == article_ids(ids@.take(i as int)),
        decreases ids.len() - i,
    {
        assert(ids@.take(i + 1).drop_last() == ids@.take(i as int));
        assert(ids@.take(i + 1).last() == ids@[i as int]);
        let e = Some(&ids[i]);
        let ty = str_at(e, "idtype");
        let (is_doi, is_pmc) = match &ty {
            Some(t) => (str_eq(t.as_str(), &want_doi), str_eq(t.as_str(), &want_pmc)),
            None => (false, false),
        };
        if is_doi && doi.is_none() {
            doi = str_at(e, "value");
        } else if is_pmc && pmc.is_none() {
            pmc = str_at(e, "value");
        }
        i = i + 1;
    }
    assert(ids@.take(ids.len() as int) == ids@);
    (doi, pmc)
}

/// Reads one summary document.
pub fn parse_summary(pmid: &String, doc: &Json) -> (p: Paper)
    ensures
        p@ == summary_paper(pmid@, Some(*doc)),
{
    let d = Some(doc);
    let empty: Vec<Json> = Vec::new();
    let (doi, pmc) = match as_array(get(d, "articleids")) {
        Some(a) => article_ids_exec(a),
        None => {
            assert(article_ids(empty@) == (None::<Seq<char>>, None::<Seq<char>>));
            (None, None)
        },
    };
    let mut url = chars_of("https://pubmed.ncbi.nlm.nih.gov/");
    extend(&mut url, &chars_of(pmid.as_str()));
    extend_str(&mut url, "/");
    let pdf_url = match &pmc {
        Some(id) => {
            let mut u = chars_of("https://www.ncbi.nlm.nih.gov/pmc/articles/");
            extend(&mut u, &chars_of(id.as_str()));
            extend_str(&mut u, "/pdf/");
            Some(string_of(&u))
        },
        None => None,
    };
    let p = Paper {
        title: str_or(get(d, "title"), "Unknown"),
        authors: member_list(get(d, "authors"), "name"),
        abstract_text: None,
        doi,
        year: date_year_exec(&str_at(d, "pubdate")),
        published_date: None,
        source: owned("pubmed"),
        url: Some(string_of(&url)),
        pdf_url,
        journal: match get(d, "fulljournalname") {
            Some(v) => str_of(Some(v)),
            None => str_at(d, "source"),
        },
        volume: str_at(d, "volume"),
        issue: str_at(d, "issue"),
        pages: str_at(d, "pages"),
        citation_count: None,
        publisher: None,
        isbn: None,
        issn: None,
        arxiv_id: None,
        work_type: None,
        editors: Vec::new(),
        series: None,
        oclc: None,
        lccn: None,
    };
    assert(views(p.editors@) =~= seq![]);
    p
}

/// Reads the papers of a summary answer for the ids of a search.
pub fn parse_summaries(data: &Json, ids: &Vec<String>) -> (r: Vec<Paper>)
    ensures
        paper_views(r@) == summary_papers(jget(Some(*data), "result"@), views(ids@)),
{
    let result = get(Some(data), "result");
    let mut papers: Vec<Paper> = Vec::new();
    let mut i: usize = 0;
    while i < ids.len()
        invariant
            i <= ids.len(),
            dv(result) == jget(Some(*data), "result"@),
            paper_views(papers@) == summary_papers(dv(result), views(ids@).take(i as int)),
        decreases ids.len() - i,
    {
        assert(views(ids@).take(i + 1).drop_last() == views(ids@).take(i as int));
        assert(views(ids@).take(i + 1).last() == ids@[i as int]@);
        let doc = get(result, ids[i].as_str());
        let ghost before = paper_views(papers@);
        if is_object(doc) {
            match doc {
                Some(d) => {
                    let p = parse_summary(&ids[i], d);
                    papers.push(p);
                    assert(paper_views(papers@) =~= before.push(p@));
                },
                None => {},
            }
        } else {
            assert(before + seq![] == before);
        }
        i = i + 1;
    }
    assert(views(ids@).take(ids.len() as int) == views(ids@));
    papers
}

/// The `id` parameter of a summary request: the ids joined by commas.
pub fn summary_ids(ids: &Vec<String>) -> (r: String)
    ensures
        r@ == crate::text::join(views(ids@), ","@),
{
    let sep = chars_of(",");
    string_of(&crate::text::join_strings(ids, &sep))
}

} // verus!
