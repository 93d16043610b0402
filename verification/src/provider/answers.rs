//! What the JSON sources answer to a search: the reported number of hits
//! and the papers of the records, as each source lays them out.
use vstd::prelude::*;

use crate::json::{as_array, as_u64, dv, get, jarr, jget, ju64, Json};
use crate::text::ostr;
use crate::models::{Paper, PaperView};
use crate::provider::ProviderResult;
use crate::search::paper_views;

verus! {

/// The sources whose search answers are lists of JSON records.
#[derive(Debug, Clone, Copy, PartialEq, Eq, Structural)]
pub enum RecordKind {
    OpenAlex,
    Crossref,
    SemanticScholar,
    Core,
    Doaj,
    Base,
    GoogleBooks,
    OpenLibrary,
    OpenReview,
}

/// The paper a source's record describes.
pub open spec fn record_view(k: RecordKind, j: Json) -> PaperView {
    match k {
        RecordKind::OpenAlex => crate::provider::openalex::work_paper(Some(j)),
        RecordKind::Crossref => crate::provider::crossref::item_paper(Some(j)),
        RecordKind::SemanticScholar => crate::provider::semantic_scholar::record_paper(Some(j)),
        RecordKind::Core => crate::provider::core_api::work_paper(Some(j)),
        RecordKind::Doaj => crate::provider::doaj::article_paper(Some(j)),
        RecordKind::Base => crate::provider::base_search::record_paper(Some(j)),
        RecordKind::GoogleBooks => crate::provider::google_books::volume_paper(Some(j)),
        RecordKind::OpenLibrary => crate::provider::open_library::doc_paper(Some(j)),
        RecordKind::OpenReview => crate::provider::openreview::note_paper(Some(j)),
    }
}

fn parse_one(k: RecordKind, j: &Json) -> (p: Paper)
    ensures
        p@ == record_view(k, *j),
{
    match k {
        RecordKind::OpenAlex => crate::provider::openalex::parse_work(j),
        RecordKind::Crossref => crate::provider::crossref::parse_item(j),
        RecordKind::SemanticScholar => crate::provider::semantic_scholar::parse_paper(j),
        RecordKind::Core => crate::provider::core_api::parse_work(j),
        RecordKind::Doaj => crate::provider::doaj::parse_article(j),
        RecordKind::Base => crate::provider::base_search::parse_record(j),
        RecordKind::GoogleBooks => crate::provider::google_books::parse_volume(j),
        RecordKind::OpenLibrary => crate::provider::open_library::parse_doc(j),
        RecordKind::OpenReview => crate::provider::openreview::parse_note(j),
    }
}

/// How many records are read: all of them, or at most `limit`.
pub open spec fn kept(n: int, limit: Option<usize>) -> int {
    match limit {
        Some(l) => if l < n {
            l as int
        } else {
            n
        },
        None => n,
    }
}

/// The papers of the records of an array value (none for another value),
/// the first `limit` of them when a limit is given.
pub open spec fn records(k: RecordKind, items: Option<Json>, limit: Option<usize>) -> Seq<PaperView> {
    match jarr(items) {
        Some(a) => a.take(kept(a.len() as int, limit)).map_values(|j: Json| record_view(k, j)),
        None => seq![],
    }
}

/// Reads the records of an array value.
pub fn parse_records(k: RecordKind, items: Option<&Json>, limit: Option<usize>) -> (r: Vec<Paper>)
    ensures
        paper_views(r@) == records(k, dv(items), limit),
{
    let mut r: Vec<Paper> = Vec::new();
    match as_array(items) {
        Some(a) => {
            let n: usize = match limit {
                Some(l) => if l < a.len() {
                    l
                } else {
                    a.len()
                },
                None => a.len(),
            };
            let ghost want = a@.take(n as int).map_values(|j: Json| record_view(k, j));
            let mut i: usize = 0;
            while i < n
                invariant
                    i <= n <= a.len(),
                    want == a@.take(n as int).map_values(|j: Json| record_view(k, j)),
                    paper_views(r@) == want.take(i as int),
                decreases n - i,
            {
                let p = parse_one(k, &a[i]);
                let ghost before = paper_views(r@);
                r.push(p);
                assert(paper_views(r@) =~= before.push(p@));
                assert(want.take(i + 1) =~= want.take(i as int).push(want[i as int]));
                i = i + 1;
            }
            assert(want.take(n as int) == want);
        },
        None => {},
    }
    r
}

/// A reported number of hits: a non-negative integer.
pub open spec fn hits(v: Option<Json>) -> Option<usize> {
    match ju64(v) {
        Some(n) => Some(n as usize),
        None => None,
    }
}

/// Reads a reported number of hits.
pub fn hits_of(v: Option<&Json>) -> (r: Option<usize>)
    ensures
        r == hits(dv(v)),
{
    match as_u64(v) {
        Some(n) => Some(n as usize),
        None => None,
    }
}

/// The papers and number of hits of an answer.
pub open spec fn answer_view(r: ProviderResult) -> (Seq<PaperView>, Option<usize>) {
    (paper_views(r.papers@), r.total_hits)
}

/// An answer whose hits and records sit at the given places.
pub open spec fn page_of(k: RecordKind, total: Option<Json>, items: Option<Json>, limit: Option<usize>) -> (
    Seq<PaperView>,
    Option<usize>,
) {
    (records(k, items, limit), hits(total))
}

fn page(k: RecordKind, total: Option<&Json>, items: Option<&Json>, limit: Option<usize>) -> (r: ProviderResult)
    ensures
        answer_view(r) == page_of(k, dv(total), dv(items), limit),
{
    ProviderResult { papers: parse_records(k, items, limit), total_hits: hits_of(total) }
}

/// OpenAlex: `meta.count` hits, the first `limit` of `results`.
pub fn openalex_answer(data: &Json, limit: usize) -> (r: ProviderResult)
    ensures
        answer_view(r) == page_of(
            RecordKind::OpenAlex,
            jget(jget(Some(*data), "meta"@), "count"@),
            jget(Some(*data), "results"@),
            Some(limit),
        ),
{
    let d = Some(data);
    page(RecordKind::OpenAlex, get(get(d, "meta"), "count"), get(d, "results"), Some(limit))
}

/// Crossref search: `message.total-results` hits, the first `limit` of
/// `message.items`.
pub fn crossref_answer(data: &Json, limit: usize) -> (r: ProviderResult)
    ensures
        answer_view(r) == page_of(
            RecordKind::Crossref,
            jget(jget(Some(*data), "message"@), "total-results"@),
            jget(jget(Some(*data), "message"@), "items"@),
            Some(limit),
        ),
{
    let m = get(Some(data), "message");
    page(RecordKind::Crossref, get(m, "total-results"), get(m, "items"), Some(limit))
}

/// The work of a Crossref DOI lookup: its `message`, or the record of a
/// null value when there is none.
pub open spec fn crossref_work(data: Json) -> PaperView {
    match jget(Some(data), "message"@) {
        Some(item) => record_view(RecordKind::Crossref, item),
        None => record_view(RecordKind::Crossref, Json::Null),
    }
}

/// Crossref DOI lookup: one paper, no hit count.
pub fn crossref_lookup_answer(data: &Json) -> (r: ProviderResult)
    ensures
        answer_view(r) == (seq![crossref_work(*data)], None::<usize>),
{
    let p = match get(Some(data), "message") {
        Some(item) => parse_one(RecordKind::Crossref, item),
        None => parse_one(RecordKind::Crossref, &Json::Null),
    };
    let mut papers: Vec<Paper> = Vec::new();
    papers.push(p);
    assert(paper_views(papers@) =~= seq![p@]);
    ProviderResult { papers, total_hits: None }
}

/// Semantic Scholar search: `total` hits, the first `limit` of `data`.
pub fn semantic_scholar_answer(data: &Json, limit: usize) -> (r: ProviderResult)
    ensures
        answer_view(r) == page_of(
            RecordKind::SemanticScholar,
            jget(Some(*data), "total"@),
            jget(Some(*data), "data"@),
            Some(limit),
        ),
{
    let d = Some(data);
    page(RecordKind::SemanticScholar, get(d, "total"), get(d, "data"), Some(limit))
}

/// Semantic Scholar DOI lookup: the record itself, no hit count.
pub fn semantic_scholar_lookup_answer(data: &Json) -> (r: ProviderResult)
    ensures
        answer_view(r) == (seq![record_view(RecordKind::SemanticScholar, *data)], None::<usize>),
{
    let p = parse_one(RecordKind::SemanticScholar, data);
    let mut papers: Vec<Paper> = Vec::new();
    papers.push(p);
    assert(paper_views(papers@) =~= seq![p@]);
    ProviderResult { papers, total_hits: None }
}

/// CORE: `totalHits` hits, the first `limit` of `results`.
pub fn core_answer(data: &Json, limit: usize) -> (r: ProviderResult)
    ensures
        answer_view(r) == page_of(
            RecordKind::Core,
            jget(Some(*data), "totalHits"@),
            jget(Some(*data), "results"@),
            Some(limit),
        ),
{
    let d = Some(data);
    page(RecordKind::Core, get(d, "totalHits"), get(d, "results"), Some(limit))
}

/// DOAJ: `total` hits, the first `limit` of `results`.
pub fn doaj_answer(data: &Json, limit: usize) -> (r: ProviderResult)
    ensures
        answer_view(r) == page_of(
            RecordKind::Doaj,
            jget(Some(*data), "total"@),
            jget(Some(*data), "results"@),
            Some(limit),
        ),
{
    let d = Some(data);
    page(RecordKind::Doaj, get(d, "total"), get(d, "results"), Some(limit))
}

/// BASE: `response.numFound` hits, the first `limit` of `response.docs`.
pub fn base_answer(data: &Json, limit: usize) -> (r: ProviderResult)
    ensures
        answer_view(r) == page_of(
            RecordKind::Base,
            jget(jget(Some(*data), "response"@), "numFound"@),
            jget(jget(Some(*data), "response"@), "docs"@),
            Some(limit),
        ),
{
    let resp = get(Some(data), "response");
    page(RecordKind::Base, get(resp, "numFound"), get(resp, "docs"), Some(limit))
}

/// Google Books: `totalItems` hits, every volume of `items`.
pub fn google_books_answer(data: &Json) -> (r: ProviderResult)
    ensures
        answer_view(r) == page_of(
            RecordKind::GoogleBooks,
            jget(Some(*data), "totalItems"@),
            jget(Some(*data), "items"@),
            None,
        ),
{
    let d = Some(data);
    page(RecordKind::GoogleBooks, get(d, "totalItems"), get(d, "items"), None)
}

/// Open Library search: `numFound` hits, every record of `docs`.
pub fn open_library_answer(data: &Json) -> (r: ProviderResult)
    ensures
        answer_view(r) == page_of(
            RecordKind::OpenLibrary,
            jget(Some(*data), "numFound"@),
            jget(Some(*data), "docs"@),
            None,
        ),
{
    let d = Some(data);
    page(RecordKind::OpenLibrary, get(d, "numFound"), get(d, "docs"), None)
}

/// Open Library ISBN lookup: the book, and one hit.
pub fn open_library_isbn_answer(data: &Json) -> (r: ProviderResult)
    ensures
        answer_view(r) == (seq![crate::provider::open_library::isbn_paper(Some(*data))], Some(1usize)),
{
    let p = crate::provider::open_library::parse_isbn_result(data);
    let mut papers: Vec<Paper> = Vec::new();
    papers.push(p);
    assert(paper_views(papers@) =~= seq![p@]);
    ProviderResult { papers, total_hits: Some(1) }
}

/// OpenReview: `count` hits, the first `limit` of `notes`.
pub fn openreview_answer(data: &Json, limit: usize) -> (r: ProviderResult)
    ensures
        answer_view(r) == page_of(
            RecordKind::OpenReview,
            jget(Some(*data), "count"@),
            jget(Some(*data), "notes"@),
            Some(limit),
        ),
{
    let d = Some(data);
    page(RecordKind::OpenReview, get(d, "count"), get(d, "notes"), Some(limit))
}

/// Zenodo's hit count: `hits.total`, or `hits.total.value`.
pub open spec fn zenodo_hits(data: Json) -> Option<usize> {
    let t = jget(jget(Some(data), "hits"@), "total"@);
    match hits(t) {
        Some(n) => Some(n),
        None => hits(jget(t, "value"@)),
    }
}

/// The papers of Zenodo records, skipping those that describe none.
pub open spec fn zenodo_papers(a: Seq<Json>) -> Seq<PaperView>
    decreases a.len(),
{
    if a.len() == 0 {
        seq![]
    } else {
        zenodo_papers(a.drop_last()) + match crate::provider::zenodo::record_paper(Some(a.last())) {
            Some(p) => seq![p],
            None => seq![],
        }
    }
}

/// Zenodo: its hit count, and the papers of every record in `hits.hits`.
pub fn zenodo_answer(data: &Json) -> (r: ProviderResult)
    ensures
        answer_view(r) == (
            match jarr(jget(jget(Some(*data), "hits"@), "hits"@)) {
                Some(a) => zenodo_papers(a),
                None => seq![],
            },
            zenodo_hits(*data),
        ),
{
    let h = get(Some(data), "hits");
    let t = get(h, "total");
    let total = match hits_of(t) {
        Some(n) => Some(n),
        None => hits_of(get(t, "value")),
    };
    let mut papers: Vec<Paper> = Vec::new();
    match as_array(get(h, "hits")) {
        Some(a) => {
            let mut i: usize = 0;
            while i < a.len()
                invariant
                    i <= a.len(),
                    paper_views(papers@) == zenodo_papers(a@.take(i as int)),
                decreases a.len() - i,
            {
                assert(a@.take(i + 1).drop_last() == a@.take(i as int));
                assert(a@.take(i + 1).last() == a@[i as int]);
                let ghost before = paper_views(papers@);
                match crate::provider::zenodo::parse_record(&a[i]) {
                    Some(p) => {
                        papers.push(p);
                        assert(paper_views(papers@) =~= before.push(p@));
                    },
                    None => {
                        assert(paper_views(papers@) =~= before + seq![]);
                    },
                }
                i = i + 1;
            }
            assert(a@.take(a.len() as int) == a@);
        },
        None => {},
    }
    ProviderResult { papers, total_hits: total }
}

/// bioRxiv: the paper of the first record of `collection`, if any.
pub open spec fn biorxiv_papers(data: Json) -> Seq<PaperView> {
    match jarr(jget(Some(data), "collection"@)) {
        Some(a) => if a.len() > 0 {
            seq![crate::provider::biorxiv::item_paper(Some(a[0]))]
        } else {
            seq![]
        },
        None => seq![],
    }
}

/// bioRxiv DOI lookup: at most one paper, no hit count.
pub fn biorxiv_answer(data: &Json) -> (r: ProviderResult)
    ensures
        answer_view(r) == (biorxiv_papers(*data), None::<usize>),
{
    let mut papers: Vec<Paper> = Vec::new();
    match as_array(get(Some(data), "collection")) {
        Some(a) => if a.len() > 0 {
            let p = crate::provider::biorxiv::parse_item(&a[0]);
            papers.push(p);
            assert(paper_views(papers@) =~= seq![p@]);
        } else {
            assert(paper_views(papers@) =~= seq![]);
        },
        None => {
            assert(paper_views(papers@) =~= seq![]);
        },
    }
    ProviderResult { papers, total_hits: None }
}

/// The PDF link of a Crossref DOI lookup: that of its `message`, or of a
/// null value when there is none.
pub fn crossref_pdf_answer(data: &Json) -> (r: Option<String>)
    ensures
        ostr(r) == crate::provider::crossref::pdf_link(
            match jget(Some(*data), "message"@) {
                Some(item) => Some(item),
                None => Some(Json::Null),
            },
        ),
{
    match get(Some(data), "message") {
        Some(item) => crate::provider::crossref::find_pdf_link(item),
        None => crate::provider::crossref::find_pdf_link(&Json::Null),
    }
}

/// HathiTrust ISBN lookup: the book of its first record, and one hit when
/// there is one.
pub fn hathitrust_answer(data: &Json) -> (r: ProviderResult)
    ensures
        answer_view(r) == (
            crate::provider::hathitrust::lookup_papers(Some(*data)),
            if crate::provider::hathitrust::lookup_papers(Some(*data)).len() == 0 {
                None::<usize>
            } else {
                Some(1usize)
            },
        ),
{
    let papers = crate::provider::hathitrust::parse_lookup(data);
    let total_hits = if papers.len() == 0 {
        None
    } else {
        Some(1)
    };
    ProviderResult { papers, total_hits }
}

} // verus!
