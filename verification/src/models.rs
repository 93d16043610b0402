//! The records that searches, downloads and bibliographies produce.
use vstd::prelude::*;

use crate::text::{ostr, views};

verus! {

/// The kind of query a search runs.
#[derive(Debug, Clone, Copy, PartialEq, Eq, Structural)]
pub enum SearchType {
    Doi,
    Keywords,
    Author,
    Title,
    Isbn,
}

/// The name a search type is shown by.
pub open spec fn search_type_name(t: SearchType) -> Seq<char> {
    match t {
        SearchType::Doi => "DOI"@,
        SearchType::Keywords => "KEYWORDS"@,
        SearchType::Author => "AUTHOR"@,
        SearchType::Title => "TITLE"@,
        SearchType::Isbn => "ISBN"@,
    }
}

impl SearchType {
    /// The name this search type is shown by (its `Display` form).
    pub fn to_string(&self) -> (s: String)
        ensures
            s@ == search_type_name(*self),
    {
        match self {
            SearchType::Doi => crate::text::owned("DOI"),
            SearchType::Keywords => crate::text::owned("KEYWORDS"),
            SearchType::Author => crate::text::owned("AUTHOR"),
            SearchType::Title => crate::text::owned("TITLE"),
            SearchType::Isbn => crate::text::owned("ISBN"),
        }
    }
}

/// How search results are ordered.
#[derive(Debug, Clone, Copy, PartialEq, Eq, Structural)]
pub enum SortOrder {
    Relevance,
    Date,
    DateAsc,
    Citations,
}

/// The name a sort order is shown by.
pub open spec fn sort_order_name(s: SortOrder) -> Seq<char> {
    match s {
        SortOrder::Relevance => "relevance"@,
        SortOrder::Date => "date"@,
        SortOrder::DateAsc => "date-asc"@,
        SortOrder::Citations => "citations"@,
    }
}

impl SortOrder {
    /// The name this sort order is shown by (its `Display` form).
    pub fn to_string(&self) -> (s: String)
        ensures
            s@ == sort_order_name(*self),
    {
        match self {
            SortOrder::Relevance => crate::text::owned("relevance"),
            SortOrder::Date => crate::text::owned("date"),
            SortOrder::DateAsc => crate::text::owned("date-asc"),
            SortOrder::Citations => crate::text::owned("citations"),
        }
    }
}

/// A bibliographic record as one provider reports it.
#[derive(Debug, Clone)]
pub struct Paper {
    pub title: String,
    pub authors: Vec<String>,
    pub abstract_text: Option<String>,
    pub doi: Option<String>,
    pub year: Option<i32>,
    pub published_date: Option<String>,
    pub source: String,
    pub url: Option<String>,
    pub pdf_url: Option<String>,
    pub journal: Option<String>,
    pub volume: Option<String>,
    pub issue: Option<String>,
    pub pages: Option<String>,
    pub citation_count: Option<i64>,
    pub publisher: Option<String>,
    pub isbn: Option<String>,
    pub issn: Option<String>,
    pub arxiv_id: Option<String>,
    pub work_type: Option<String>,
    pub editors: Vec<String>,
    pub series: Option<String>,
    pub oclc: Option<String>,
    pub lccn: Option<String>,
}

/// The mathematical content of a `Paper`.
pub struct PaperView {
    pub title: Seq<char>,
    pub authors: Seq<Seq<char>>,
    pub abstract_text: Option<Seq<char>>,
    pub doi: Option<Seq<char>>,
    pub year: Option<i32>,
    pub published_date: Option<Seq<char>>,
    pub source: Seq<char>,
    pub url: Option<Seq<char>>,
    pub pdf_url: Option<Seq<char>>,
    pub journal: Option<Seq<char>>,
    pub volume: Option<Seq<char>>,
    pub issue: Option<Seq<char>>,
    pub pages: Option<Seq<char>>,
    pub citation_count: Option<i64>,
    pub publisher: Option<Seq<char>>,
    pub isbn: Option<Seq<char>>,
    pub issn: Option<Seq<char>>,
    pub arxiv_id: Option<Seq<char>>,
    pub work_type: Option<Seq<char>>,
    pub editors: Seq<Seq<char>>,
    pub series: Option<Seq<char>>,
    pub oclc: Option<Seq<char>>,
    pub lccn: Option<Seq<char>>,
}

impl View for Paper {
    type V = PaperView;

    open spec fn view(&self) -> PaperView {
        PaperView {
            title: self.title@,
            authors: views(self.authors@),
            abstract_text: ostr(self.abstract_text),
            doi: ostr(self.doi),
            year: self.year,
            published_date: ostr(self.published_date),
            source: self.source@,
            url: ostr(self.url),
            pdf_url: ostr(self.pdf_url),
            journal: ostr(self.journal),
            volume: ostr(self.volume),
            issue: ostr(self.issue),
            pages: ostr(self.pages),
            citation_count: self.citation_count,
            publisher: ostr(self.publisher),
            isbn: ostr(self.isbn),
            issn: ostr(self.issn),
            arxiv_id: ostr(self.arxiv_id),
            work_type: ostr(self.work_type),
            editors: views(self.editors@),
            series: ostr(self.series),
            oclc: ostr(self.oclc),
            lccn: ostr(self.lccn),
        }
    }
}

/// The view of a paper with every field empty or absent.
pub open spec fn empty_paper() -> PaperView {
    PaperView {
        title: seq![],
        authors: seq![],
        abstract_text: None,
        doi: None,
        year: None,
        published_date: None,
        source: seq![],
        url: None,
        pdf_url: None,
        journal: None,
        volume: None,
        issue: None,
        pages: None,
        citation_count: None,
        publisher: None,
        isbn: None,
        issn: None,
        arxiv_id: None,
        work_type: None,
        editors: seq![],
        series: None,
        oclc: None,
        lccn: None,
    }
}

impl Default for Paper {
    fn default() -> (p: Paper)
        ensures
            p@ == empty_paper(),
    {
        let p = Paper {
            title: String::new(),
            authors: Vec::new(),
            abstract_text: None,
            doi: None,
            year: None,
            published_date: None,
            source: String::new(),
            url: None,
            pdf_url: None,
            journal: None,
            volume: None,
            issue: None,
            pages: None,
            citation_count: None,
            publisher: None,
            isbn: None,
            issn: None,
            arxiv_id: None,
            work_type: None,
            editors: Vec::new(),
            series: None,
            oclc: None,
            lccn: None,
        };
        assert(views(p.authors@) =~= seq![]);
        assert(views(p.editors@) =~= seq![]);
        p
    }
}

/// The total number of hits one provider reported for a query.
#[derive(Debug, Clone)]
pub struct ProviderHits {
    pub provider: String,
    pub total_hits: usize,
}

/// The merged answer to a search.
#[derive(Debug)]
pub struct SearchResult {
    pub query: String,
    pub search_type: String,
    pub papers: Vec<Paper>,
    pub total_results: usize,
    pub offset: usize,
    pub sort: String,
    pub total_hits: Option<usize>,
    pub provider_hits: Vec<ProviderHits>,
    pub providers_searched: Vec<String>,
    pub providers_failed: Vec<String>,
}

/// The outcome of one download.
#[derive(Debug, Clone)]
pub struct DownloadResult {
    pub doi: String,
    pub success: bool,
    pub file_path: Option<String>,
    pub error: Option<String>,
    pub source: Option<String>,
}

/// The metadata a citation is formatted from.
#[derive(Debug, Clone)]
pub struct PaperMetadata {
    pub doi: String,
    pub title: String,
    pub authors: Vec<String>,
    pub year: Option<i32>,
    pub journal: Option<String>,
    pub volume: Option<String>,
    pub issue: Option<String>,
    pub pages: Option<String>,
    pub publisher: Option<String>,
    pub abstract_text: Option<String>,
    pub url: Option<String>,
    pub isbn: Option<String>,
    pub oclc: Option<String>,
    pub lccn: Option<String>,
}

/// The mathematical content of a `PaperMetadata`.
pub struct MetaView {
    pub doi: Seq<char>,
    pub title: Seq<char>,
    pub authors: Seq<Seq<char>>,
    pub year: Option<i32>,
    pub journal: Option<Seq<char>>,
    pub volume: Option<Seq<char>>,
    pub issue: Option<Seq<char>>,
    pub pages: Option<Seq<char>>,
    pub publisher: Option<Seq<char>>,
    pub abstract_text: Option<Seq<char>>,
    pub url: Option<Seq<char>>,
    pub isbn: Option<Seq<char>>,
    pub oclc: Option<Seq<char>>,
    pub lccn: Option<Seq<char>>,
}

impl View for PaperMetadata {
    type V = MetaView;

    open spec fn view(&self) -> MetaView {
        MetaView {
            doi: self.doi@,
            title: self.title@,
            authors: views(self.authors@),
            year: self.year,
            journal: ostr(self.journal),
            volume: ostr(self.volume),
            issue: ostr(self.issue),
            pages: ostr(self.pages),
            publisher: ostr(self.publisher),
            abstract_text: ostr(self.abstract_text),
            url: ostr(self.url),
            isbn: ostr(self.isbn),
            oclc: ostr(self.oclc),
            lccn: ostr(self.lccn),
        }
    }
}

/// The view of metadata with every field empty or absent.
pub open spec fn empty_meta() -> MetaView {
    MetaView {
        doi: seq![],
        title: seq![],
        authors: seq![],
        year: None,
        journal: None,
        volume: None,
        issue: None,
        pages: None,
        publisher: None,
        abstract_text: None,
        url: None,
        isbn: None,
        oclc: None,
        lccn: None,
    }
}

/// The resolver link of a DOI: `https://doi.org/` followed by the DOI.
pub open spec fn doi_url(doi: Seq<char>) -> Seq<char> {
    "https://doi.org/"@ + doi
}

/// The resolver link of a DOI.
pub fn doi_url_exec(doi: &Vec<char>) -> (r: String)
    ensures
        r@ == doi_url(doi@),
{
    let mut v = crate::text::chars_of("https://doi.org/");
    crate::text::extend(&mut v, doi);
    crate::text::string_of(&v)
}

impl Default for PaperMetadata {
    fn default() -> (m: PaperMetadata)
        ensures
            m@ == empty_meta(),
    {
        let m = PaperMetadata {
            doi: String::new(),
            title: String::new(),
            authors: Vec::new(),
            year: None,
            journal: None,
            volume: None,
            issue: None,
            pages: None,
            publisher: None,
            abstract_text: None,
            url: None,
            isbn: None,
            oclc: None,
            lccn: None,
        };
        assert(views(m.authors@) =~= seq![]);
        m
    }
}

impl PaperMetadata {
    /// Metadata that holds only a DOI and its resolver link.
    pub fn new(doi: &str) -> (m: PaperMetadata)
        ensures
            m@ == (MetaView { doi: doi@, url: Some(doi_url(doi@)), ..empty_meta() }),
    {
        let d = crate::text::chars_of(doi);
        let mut m = PaperMetadata::default();
        m.url = Some(doi_url_exec(&d));
        m.doi = crate::text::string_of(&d);
        m
    }

    /// Metadata for a DOI that could not be resolved: the title reads
    /// `Unknown paper (<doi>)`.
    pub fn with_fallback_title(doi: &str) -> (m: PaperMetadata)
        ensures
            m@ == (MetaView {
                doi: doi@,
                title: "Unknown paper ("@ + doi@ + ")"@,
                url: Some(doi_url(doi@)),
                ..empty_meta()
            }),
    {
        let d = crate::text::chars_of(doi);
        let mut t = crate::text::chars_of("Unknown paper (");
        crate::text::extend(&mut t, &d);
        crate::text::extend_str(&mut t, ")");
        let mut m = PaperMetadata::default();
        m.url = Some(doi_url_exec(&d));
        m.title = crate::text::string_of(&t);
        m.doi = crate::text::string_of(&d);
        m
    }

    /// Metadata that holds only an ISBN.
    pub fn from_isbn(isbn: &str) -> (m: PaperMetadata)
        ensures
            m@ == (MetaView { isbn: Some(isbn@), ..empty_meta() }),
    {
        let mut m = PaperMetadata::default();
        m.isbn = Some(crate::text::owned(isbn));
        m
    }

    /// Metadata that holds only an OCLC number.
    pub fn from_oclc(oclc: &str) -> (m: PaperMetadata)
        ensures
            m@ == (MetaView { oclc: Some(oclc@), ..empty_meta() }),
    {
        let mut m = PaperMetadata::default();
        m.oclc = Some(crate::text::owned(oclc));
        m
    }
}

} // verus!
