//! The scholarly sources searched, what each of them offers, and the
//! record parsers and query builders of each.
//!
//! The requests themselves are made by the application; this module decides
//! which source is asked, how a query is phrased for it, how long to back
//! off after a failure, and what a response means.
pub use crate::models::SearchType;
use vstd::prelude::*;

use crate::models::Paper;
use crate::text::{
    byte_prefix, byte_prefix_exec, chars_of, ostr, owned, parse_i32, parse_i32_spec, strip_prefix,
    strip_prefix_str,
};

pub mod answers;
pub mod arxiv;
pub mod base_search;
pub mod biorxiv;
pub mod core_api;
pub mod crossref;
pub mod doaj;
pub mod google_books;
pub mod hathitrust;
pub mod mdpi;
pub mod open_library;
pub mod openalex;
pub mod openreview;
pub mod pubmed;
pub mod researchgate;
pub mod sci_hub;
pub mod scrape;
pub mod semantic_scholar;
pub mod ssrn;
pub mod unpaywall;
pub mod zenodo;

verus! {

/// What one source answered to a search: the papers, and the total number
/// of hits when the source reports it.
#[derive(Debug)]
pub struct ProviderResult {
    pub papers: Vec<Paper>,
    pub total_hits: Option<usize>,
}

/// The sources the library knows.
#[derive(Debug, Clone, Copy, PartialEq, Eq, Structural)]
pub enum ProviderKind {
    OpenAlex,
    Crossref,
    PubMed,
    SemanticScholar,
    Unpaywall,
    Core,
    OpenReview,
    Ssrn,
    Arxiv,
    Biorxiv,
    Mdpi,
    ResearchGate,
    SciHub,
    Base,
    Doaj,
    GoogleBooks,
    HathiTrust,
    OpenLibrary,
    Zenodo,
}

/// The name a source is known by.
pub open spec fn kind_name(k: ProviderKind) -> Seq<char> {
    match k {
        ProviderKind::OpenAlex => "openalex"@,
        ProviderKind::Crossref => "crossref"@,
        ProviderKind::PubMed => "pubmed"@,
        ProviderKind::SemanticScholar => "semantic_scholar"@,
        ProviderKind::Unpaywall => "unpaywall"@,
        ProviderKind::Core => "core"@,
        ProviderKind::OpenReview => "openreview"@,
        ProviderKind::Ssrn => "ssrn"@,
        ProviderKind::Arxiv => "arxiv"@,
        ProviderKind::Biorxiv => "biorxiv"@,
        ProviderKind::Mdpi => "mdpi"@,
        ProviderKind::ResearchGate => "researchgate"@,
        ProviderKind::SciHub => "sci_hub"@,
        ProviderKind::Base => "base"@,
        ProviderKind::Doaj => "doaj"@,
        ProviderKind::GoogleBooks => "google_books"@,
        ProviderKind::HathiTrust => "hathitrust"@,
        ProviderKind::OpenLibrary => "open_library"@,
        ProviderKind::Zenodo => "zenodo"@,
    }
}

/// How early a source comes when sources are tried in turn (higher first).
pub open spec fn kind_priority(k: ProviderKind) -> i32 {
    match k {
        ProviderKind::OpenAlex => 180,
        ProviderKind::Crossref => 90,
        ProviderKind::PubMed => 89,
        ProviderKind::SemanticScholar => 88,
        ProviderKind::Unpaywall => 87,
        ProviderKind::Core => 86,
        ProviderKind::OpenReview => 85,
        ProviderKind::Ssrn => 85,
        ProviderKind::Arxiv => 80,
        ProviderKind::Biorxiv => 75,
        ProviderKind::Mdpi => 75,
        ProviderKind::ResearchGate => 70,
        ProviderKind::SciHub => 10,
        ProviderKind::Base => 50,
        ProviderKind::Doaj => 45,
        ProviderKind::GoogleBooks => 55,
        ProviderKind::HathiTrust => 40,
        ProviderKind::OpenLibrary => 60,
        ProviderKind::Zenodo => 50,
    }
}

/// The least time between two requests to a source, in milliseconds.
pub open spec fn kind_delay_ms(k: ProviderKind) -> u64 {
    match k {
        ProviderKind::OpenAlex => 100,
        ProviderKind::Crossref => 50,
        ProviderKind::PubMed => 350,
        ProviderKind::SemanticScholar => 200,
        ProviderKind::Unpaywall => 100,
        ProviderKind::Core => 200,
        ProviderKind::OpenReview => 200,
        ProviderKind::Ssrn => 1000,
        ProviderKind::Arxiv => 3000,
        ProviderKind::Biorxiv => 500,
        ProviderKind::Mdpi => 1000,
        ProviderKind::ResearchGate => 3000,
        ProviderKind::SciHub => 2000,
        ProviderKind::Base => 1000,
        ProviderKind::Doaj => 500,
        ProviderKind::GoogleBooks => 200,
        ProviderKind::HathiTrust => 500,
        ProviderKind::OpenLibrary => 600,
        ProviderKind::Zenodo => 200,
    }
}

/// The kinds of query a source answers, in the order it lists them.
pub open spec fn kind_search_types(k: ProviderKind) -> Seq<SearchType> {
    match k {
        ProviderKind::OpenAlex => seq![
            SearchType::Keywords,
            SearchType::Doi,
            SearchType::Author,
            SearchType::Title,
        ],
        ProviderKind::Crossref => seq![
            SearchType::Keywords,
            SearchType::Doi,
            SearchType::Author,
            SearchType::Title,
            SearchType::Isbn,
        ],
        ProviderKind::PubMed => seq![
            SearchType::Keywords,
            SearchType::Doi,
            SearchType::Author,
            SearchType::Title,
        ],
        ProviderKind::SemanticScholar => seq![
            SearchType::Keywords,
            SearchType::Doi,
            SearchType::Author,
            SearchType::Title,
        ],
        ProviderKind::Unpaywall => seq![SearchType::Doi],
        ProviderKind::Core => seq![SearchType::Keywords, SearchType::Doi, SearchType::Title],
        ProviderKind::OpenReview => seq![SearchType::Keywords, SearchType::Title],
        ProviderKind::Ssrn => seq![SearchType::Keywords, SearchType::Title],
        ProviderKind::Arxiv => seq![
            SearchType::Keywords,
            SearchType::Doi,
            SearchType::Author,
            SearchType::Title,
        ],
        ProviderKind::Biorxiv => seq![SearchType::Doi],
        ProviderKind::Mdpi => seq![SearchType::Keywords, SearchType::Title],
        ProviderKind::ResearchGate => seq![SearchType::Keywords, SearchType::Title],
        ProviderKind::SciHub => seq![SearchType::Doi],
        ProviderKind::Base => seq![SearchType::Keywords, SearchType::Title, SearchType::Author],
        ProviderKind::Doaj => seq![
            SearchType::Keywords,
            SearchType::Title,
            SearchType::Author,
            SearchType::Doi,
        ],
        ProviderKind::GoogleBooks => seq![
            SearchType::Keywords,
            SearchType::Title,
            SearchType::Author,
            SearchType::Isbn,
        ],
        ProviderKind::HathiTrust => seq![SearchType::Isbn],
        ProviderKind::OpenLibrary => seq![
            SearchType::Keywords,
            SearchType::Title,
            SearchType::Author,
            SearchType::Isbn,
        ],
        ProviderKind::Zenodo => seq![
            SearchType::Keywords,
            SearchType::Title,
            SearchType::Author,
            SearchType::Doi,
        ],
    }
}

/// The address a source is reached at unless another one is configured.
pub open spec fn kind_default_url(k: ProviderKind) -> Seq<char> {
    match k {
        ProviderKind::OpenAlex => "https://api.openalex.org"@,
        ProviderKind::Crossref => "https://api.crossref.org"@,
        ProviderKind::PubMed => "https://eutils.ncbi.nlm.nih.gov/entrez/eutils"@,
        ProviderKind::SemanticScholar => "https://api.semanticscholar.org/graph/v1"@,
        ProviderKind::Unpaywall => "https://api.unpaywall.org/v2"@,
        ProviderKind::Core => "https://api.core.ac.uk/v3"@,
        ProviderKind::OpenReview => "https://api.openreview.net"@,
        ProviderKind::Ssrn => "https://papers.ssrn.com"@,
        ProviderKind::Arxiv => "https://export.arxiv.org/api/query"@,
        ProviderKind::Biorxiv => "https://api.biorxiv.org/details/biorxiv"@,
        ProviderKind::Mdpi => "https://www.mdpi.com"@,
        ProviderKind::ResearchGate => "https://www.researchgate.net"@,
        ProviderKind::SciHub => "https://sci-hub.se"@,
        ProviderKind::Base => "https://api.base-search.net"@,
        ProviderKind::Doaj => "https://doaj.org"@,
        ProviderKind::GoogleBooks => "https://www.googleapis.com"@,
        ProviderKind::HathiTrust => "https://catalog.hathitrust.org/api/volumes/brief"@,
        ProviderKind::OpenLibrary => "https://openlibrary.org"@,
        ProviderKind::Zenodo => "https://zenodo.org"@,
    }
}

/// How many times a failing search is attempted.
pub open spec fn kind_attempts(k: ProviderKind) -> u32 {
    match k {
        ProviderKind::ResearchGate => 2,
        _ => 3,
    }
}

impl ProviderKind {
    /// The name of the source.
    pub fn name(&self) -> (r: &'static str)
        ensures
            r@ == kind_name(*self),
    {
        match self {
            ProviderKind::OpenAlex => "openalex",
            ProviderKind::Crossref => "crossref",
            ProviderKind::PubMed => "pubmed",
            ProviderKind::SemanticScholar => "semantic_scholar",
            ProviderKind::Unpaywall => "unpaywall",
            ProviderKind::Core => "core",
            ProviderKind::OpenReview => "openreview",
            ProviderKind::Ssrn => "ssrn",
            ProviderKind::Arxiv => "arxiv",
            ProviderKind::Biorxiv => "biorxiv",
            ProviderKind::Mdpi => "mdpi",
            ProviderKind::ResearchGate => "researchgate",
            ProviderKind::SciHub => "sci_hub",
            ProviderKind::Base => "base",
            ProviderKind::Doaj => "doaj",
            ProviderKind::GoogleBooks => "google_books",
            ProviderKind::HathiTrust => "hathitrust",
            ProviderKind::OpenLibrary => "open_library",
            ProviderKind::Zenodo => "zenodo",
        }
    }

    /// The priority of the source.
    pub fn priority(&self) -> (r: i32)
        ensures
            r == kind_priority(*self),
    {
        match self {
            ProviderKind::OpenAlex => 180,
            ProviderKind::Crossref => 90,
            ProviderKind::PubMed => 89,
            ProviderKind::SemanticScholar => 88,
            ProviderKind::Unpaywall => 87,
            ProviderKind::Core => 86,
            ProviderKind::OpenReview => 85,
            ProviderKind::Ssrn => 85,
            ProviderKind::Arxiv => 80,
            ProviderKind::Biorxiv => 75,
            ProviderKind::Mdpi => 75,
            ProviderKind::ResearchGate => 70,
            ProviderKind::SciHub => 10,
            ProviderKind::Base => 50,
            ProviderKind::Doaj => 45,
            ProviderKind::GoogleBooks => 55,
            ProviderKind::HathiTrust => 40,
            ProviderKind::OpenLibrary => 60,
            ProviderKind::Zenodo => 50,
        }
    }

    /// The least time between two requests to the source, in milliseconds.
    pub fn base_delay_ms(&self) -> (r: u64)
        ensures
            r == kind_delay_ms(*self),
    {
        match self {
            ProviderKind::OpenAlex => 100,
            ProviderKind::Crossref => 50,
            ProviderKind::PubMed => 350,
            ProviderKind::SemanticScholar => 200,
            ProviderKind::Unpaywall => 100,
            ProviderKind::Core => 200,
            ProviderKind::OpenReview => 200,
            ProviderKind::Ssrn => 1000,
            ProviderKind::Arxiv => 3000,
            ProviderKind::Biorxiv => 500,
            ProviderKind::Mdpi => 1000,
            ProviderKind::ResearchGate => 3000,
            ProviderKind::SciHub => 2000,
            ProviderKind::Base => 1000,
            ProviderKind::Doaj => 500,
            ProviderKind::GoogleBooks => 200,
            ProviderKind::HathiTrust => 500,
            ProviderKind::OpenLibrary => 600,
            ProviderKind::Zenodo => 200,
        }
    }

    /// The kinds of query the source answers.
    pub fn supported_search_types(&self) -> (r: Vec<SearchType>)
        ensures
            r@ == kind_search_types(*self),
    {
        let r = match self {
            ProviderKind::OpenAlex => vec![
                SearchType::Keywords,
                SearchType::Doi,
                SearchType::Author,
                SearchType::Title,
            ],
            ProviderKind::Crossref => vec![
                SearchType::Keywords,
                SearchType::Doi,
                SearchType::Author,
                SearchType::Title,
                SearchType::Isbn,
            ],
            ProviderKind::PubMed => vec![
                SearchType::Keywords,
                SearchType::Doi,
                SearchType::Author,
                SearchType::Title,
            ],
            ProviderKind::SemanticScholar => vec![
                SearchType::Keywords,
                SearchType::Doi,
                SearchType::Author,
                SearchType::Title,
            ],
            ProviderKind::Unpaywall => vec![SearchType::Doi],
            ProviderKind::Core => vec![SearchType::Keywords, SearchType::Doi, SearchType::Title],
            ProviderKind::OpenReview => vec![SearchType::Keywords, SearchType::Title],
            ProviderKind::Ssrn => vec![SearchType::Keywords, SearchType::Title],
            ProviderKind::Arxiv => vec![
                SearchType::Keywords,
                SearchType::Doi,
                SearchType::Author,
                SearchType::Title,
            ],
            ProviderKind::Biorxiv => vec![SearchType::Doi],
            ProviderKind::Mdpi => vec![SearchType::Keywords, SearchType::Title],
            ProviderKind::ResearchGate => vec![SearchType::Keywords, SearchType::Title],
            ProviderKind::SciHub => vec![SearchType::Doi],
            ProviderKind::Base => vec![SearchType::Keywords, SearchType::Title, SearchType::Author],
            ProviderKind::Doaj => vec![
                SearchType::Keywords,
                SearchType::Title,
                SearchType::Author,
                SearchType::Doi,
            ],
            ProviderKind::GoogleBooks => vec![
                SearchType::Keywords,
                SearchType::Title,
                SearchType::Author,
                SearchType::Isbn,
            ],
            ProviderKind::HathiTrust => vec![SearchType::Isbn],
            ProviderKind::OpenLibrary => vec![
                SearchType::Keywords,
                SearchType::Title,
                SearchType::Author,
                SearchType::Isbn,
            ],
            ProviderKind::Zenodo => vec![
                SearchType::Keywords,
                SearchType::Title,
                SearchType::Author,
                SearchType::Doi,
            ],
        };
        r
    }

    /// Whether the source answers queries of kind `t`.
    pub fn supports(&self, t: SearchType) -> (r: bool)
        ensures
            r == kind_search_types(*self).contains(t),
    {
        let types = self.supported_search_types();
        let mut i: usize = 0;
        while i < types.len()
            invariant
                i <= types.len(),
                types@ == kind_search_types(*self),
                forall|k: int| 0 <= k < i ==> types@[k] != t,
            decreases types.len() - i,
        {
            if types[i] == t {
                return true;
            }
            i = i + 1;
        }
        false
    }

    /// The address of the source: `configured` when given, otherwise the
    /// source's own.
    pub fn base_url(&self, configured: Option<&str>) -> (r: String)
        ensures
            r@ == match configured {
                Some(u) => u@,
                None => kind_default_url(*self),
            },
    {
        match configured {
            Some(u) => owned(u),
            None => owned(
                match self {
                    ProviderKind::OpenAlex => "https://api.openalex.org",
                    ProviderKind::Crossref => "https://api.crossref.org",
                    ProviderKind::PubMed => "https://eutils.ncbi.nlm.nih.gov/entrez/eutils",
                    ProviderKind::SemanticScholar => "https://api.semanticscholar.org/graph/v1",
                    ProviderKind::Unpaywall => "https://api.unpaywall.org/v2",
                    ProviderKind::Core => "https://api.core.ac.uk/v3",
                    ProviderKind::OpenReview => "https://api.openreview.net",
                    ProviderKind::Ssrn => "https://papers.ssrn.com",
                    ProviderKind::Arxiv => "https://export.arxiv.org/api/query",
                    ProviderKind::Biorxiv => "https://api.biorxiv.org/details/biorxiv",
                    ProviderKind::Mdpi => "https://www.mdpi.com",
                    ProviderKind::ResearchGate => "https://www.researchgate.net",
                    ProviderKind::SciHub => "https://sci-hub.se",
                    ProviderKind::Base => "https://api.base-search.net",
                    ProviderKind::Doaj => "https://doaj.org",
                    ProviderKind::GoogleBooks => "https://www.googleapis.com",
                    ProviderKind::HathiTrust => "https://catalog.hathitrust.org/api/volumes/brief",
                    ProviderKind::OpenLibrary => "https://openlibrary.org",
                    ProviderKind::Zenodo => "https://zenodo.org",
                },
            ),
        }
    }

    /// How many times a failing search is attempted.
    pub fn attempts(&self) -> (r: u32)
        ensures
            r == kind_attempts(*self),
    {
        match self {
            ProviderKind::ResearchGate => 2,
            _ => 3,
        }
    }
}

/// The sources searched by default, in the order they are set up.
pub open spec fn registered() -> Seq<ProviderKind> {
    seq![
        ProviderKind::OpenAlex,
        ProviderKind::Crossref,
        ProviderKind::PubMed,
        ProviderKind::SemanticScholar,
        ProviderKind::Unpaywall,
        ProviderKind::Core,
        ProviderKind::OpenReview,
        ProviderKind::Ssrn,
        ProviderKind::Arxiv,
        ProviderKind::Biorxiv,
        ProviderKind::Mdpi,
        ProviderKind::ResearchGate,
        ProviderKind::SciHub,
    ]
}

/// `s` with `k` inserted after every element of at least its priority.
pub open spec fn insert_by_priority(s: Seq<ProviderKind>, k: ProviderKind) -> Seq<ProviderKind>
    decreases s.len(),
{
    if s.len() > 0 && kind_priority(s.last()) < kind_priority(k) {
        insert_by_priority(s.drop_last(), k).push(s.last())
    } else {
        s.push(k)
    }
}

/// `s` ordered by descending priority; sources of equal priority keep their
/// order.
pub open spec fn by_priority(s: Seq<ProviderKind>) -> Seq<ProviderKind>
    decreases s.len(),
{
    if s.len() == 0 {
        seq![]
    } else {
        insert_by_priority(by_priority(s.drop_last()), s.last())
    }
}

proof fn lemma_priority_split(s: Seq<ProviderKind>, k: ProviderKind, pos: int)
    requires
        0 <= pos <= s.len(),
        forall|j: int| pos <= j < s.len() ==> kind_priority(#[trigger] s[j]) < kind_priority(k),
    ensures
        insert_by_priority(s, k) == insert_by_priority(s.take(pos), k) + s.skip(pos),
    decreases s.len() - pos,
{
    if pos < s.len() {
        lemma_priority_split(s, k, pos + 1);
        let t = s.take(pos + 1);
        assert(t.drop_last() == s.take(pos));
        assert(t.last() == s[pos]);
        assert(insert_by_priority(s.take(pos), k).push(s[pos]) + s.skip(pos + 1)
            =~= insert_by_priority(s.take(pos), k) + s.skip(pos));
    } else {
        assert(s.take(pos) == s);
        assert(s.skip(pos) =~= Seq::<ProviderKind>::empty());
    }
}

/// Orders sources by descending priority, keeping the order of sources of
/// equal priority (`sort_by_key` with `Reverse(priority)`).
pub fn sort_by_priority(kinds: &Vec<ProviderKind>) -> (r: Vec<ProviderKind>)
    ensures
        r@ == by_priority(kinds@),
{
    let mut out: Vec<ProviderKind> = Vec::new();
    let mut i: usize = 0;
    while i < kinds.len()
        invariant
            i <= kinds.len(),
            out@ == by_priority(kinds@.take(i as int)),
        decreases kinds.len() - i,
    {
        let k = kinds[i];
        assert(kinds@.take(i + 1).drop_last() == kinds@.take(i as int));
        assert(kinds@.take(i + 1).last() == k);
        let ghost o = out@;
        let mut pos = out.len();
        while pos > 0 && out[pos - 1].priority() < k.priority()
            invariant
                pos <= out.len(),
                o == out@,
                forall|j: int| pos <= j < out.len() ==> kind_priority(#[trigger] o[j])
                    < kind_priority(k),
            decreases pos,
        {
            pos = pos - 1;
        }
        proof {
            lemma_priority_split(o, k, pos as int);
            if pos > 0 {
                assert(o.take(pos as int).last() == o[pos - 1]);
            }
        }
        out.insert(pos, k);
        assert(out@ =~= o.take(pos as int).push(k) + o.skip(pos as int));
        i = i + 1;
    }
    assert(kinds@.take(kinds.len() as int) == kinds@);
    out
}

/// The default sources, highest priority first.
pub fn create_all_providers() -> (r: Vec<ProviderKind>)
    ensures
        r@ == by_priority(registered()),
{
    let v = vec![
        ProviderKind::OpenAlex,
        ProviderKind::Crossref,
        ProviderKind::PubMed,
        ProviderKind::SemanticScholar,
        ProviderKind::Unpaywall,
        ProviderKind::Core,
        ProviderKind::OpenReview,
        ProviderKind::Ssrn,
        ProviderKind::Arxiv,
        ProviderKind::Biorxiv,
        ProviderKind::Mdpi,
        ProviderKind::ResearchGate,
        ProviderKind::SciHub,
    ];
    assert(v@ == registered());
    sort_by_priority(&v)
}

/// The pause before attempt `attempt + 1` after attempt `attempt` failed:
/// one second doubled per earlier attempt, at most ten seconds.
pub open spec fn backoff_ms(attempt: nat) -> int {
    let b = (1000 * vstd::arithmetic::power2::pow2(attempt)) as int;
    if b < 10000 {
        b
    } else {
        10000
    }
}

/// The wait after a failed attempt starts at one second, doubles with each
/// further attempt, and never exceeds ten seconds.
pub proof fn backoff_doubles_up_to_cap(attempt: nat)
    ensures
        backoff_ms(0) == 1000,
        1000 <= backoff_ms(attempt) <= 10000,
        backoff_ms(attempt) <= backoff_ms(attempt + 1),
        backoff_ms(attempt + 1) == (if 2 * backoff_ms(attempt) < 10000 {
            2 * backoff_ms(attempt)
        } else {
            10000
        }),
{
    vstd::arithmetic::power2::lemma2_to64();
    vstd::arithmetic::power2::lemma_pow2_pos(attempt);
    vstd::arithmetic::power2::lemma_pow2_unfold(attempt + 1);
    assert(vstd::arithmetic::power2::pow2(attempt + 1) == 2 * vstd::arithmetic::power2::pow2(attempt));
}

/// How long to wait before the next request to a source, in milliseconds,
/// when `elapsed_ms` have passed since the last one and requests must be
/// `delay_ms` apart: the time still missing, or nothing once the delay has
/// passed. Waiting that long always brings the gap to at least the delay,
/// and never waits longer than the delay itself.
pub fn wait_ms(elapsed_ms: u64, delay_ms: u64) -> (r: u64)
    ensures
        r == if elapsed_ms < delay_ms {
            (delay_ms - elapsed_ms) as u64
        } else {
            0
        },
        elapsed_ms + r >= delay_ms,
        r <= delay_ms,
{
    if elapsed_ms < delay_ms {
        delay_ms - elapsed_ms
    } else {
        0
    }
}

/// What to do after attempt `attempt` (counted from 0) of `max_attempts`
/// failed: wait `backoff_ms(attempt)` and try again while attempts remain,
/// otherwise give up (`None`).
pub fn next_retry(attempt: u32, max_attempts: u32) -> (r: Option<u64>)
    requires
        attempt < 55,
    ensures
        r == (if attempt + 1 < max_attempts {
            Some(backoff_ms(attempt as nat) as u64)
        } else {
            None
        }),
{
    if attempt + 1 < max_attempts {
        let mut b: u64 = 1000;
        let mut i: u32 = 0;
        proof {
            vstd::arithmetic::power2::lemma2_to64();
        }
        while i < attempt
            invariant
                i <= attempt < 55,
                b == 1000 * vstd::arithmetic::power2::pow2(i as nat),
            decreases attempt - i,
        {
            proof {
                vstd::arithmetic::power2::lemma_pow2_unfold((i + 1) as nat);
                if i + 1 < 54 {
                    vstd::arithmetic::power2::lemma_pow2_strictly_increases((i + 1) as nat, 54);
                }
                vstd::arithmetic::power2::lemma2_to64_rest();
            }
            b = b * 2;
            i = i + 1;
        }
        Some(if b < 10000 { b } else { 10000 })
    } else {
        None
    }
}

/// Priorities do not increase along `s`.
pub open spec fn descending(s: Seq<ProviderKind>) -> bool {
    forall|i: int, j: int|
        0 <= i < j < s.len() ==> kind_priority(#[trigger] s[i]) >= kind_priority(#[trigger] s[j])
}

proof fn lemma_insert_priority(s: Seq<ProviderKind>, k: ProviderKind)
    requires
        descending(s),
    ensures
        descending(insert_by_priority(s, k)),
        insert_by_priority(s, k).to_multiset() == s.to_multiset().insert(k),
    decreases s.len(),
{
    broadcast use vstd::seq_lib::group_to_multiset_ensures, vstd::multiset::group_multiset_axioms;

    let r = insert_by_priority(s, k);
    if s.len() > 0 && kind_priority(s.last()) < kind_priority(k) {
        let pre = s.drop_last();
        assert forall|i: int, j: int| 0 <= i < j < pre.len() implies kind_priority(
            #[trigger] pre[i],
        ) >= kind_priority(#[trigger] pre[j]) by {
            assert(pre[i] == s[i] && pre[j] == s[j]);
        }
        lemma_insert_priority(pre, k);
        let t = insert_by_priority(pre, k);
        assert forall|i: int, j: int| 0 <= i < j < r.len() implies kind_priority(#[trigger] r[i])
            >= kind_priority(#[trigger] r[j]) by {
            if j == r.len() - 1 {
                let ti = t[i];
                assert(r[i] == ti);
                assert(t.to_multiset().count(ti) > 0);
                if ti != k {
                    assert(pre.to_multiset().count(ti) > 0);
                    assert(pre.contains(ti));
                    let m = choose|m: int| 0 <= m < pre.len() && pre[m] == ti;
                    assert(s[m] == ti);
                    assert(kind_priority(s[m]) >= kind_priority(s[s.len() - 1]));
                }
            } else {
                assert(r[i] == t[i] && r[j] == t[j]);
            }
        }
        assert(s =~= pre.push(s.last()));
    } else {
        assert forall|i: int, j: int| 0 <= i < j < r.len() implies kind_priority(#[trigger] r[i])
            >= kind_priority(#[trigger] r[j]) by {
            if j == s.len() {
                if i < s.len() - 1 {
                    assert(kind_priority(s[i]) >= kind_priority(s[s.len() - 1]));
                }
            } else {
                assert(r[i] == s[i] && r[j] == s[j]);
            }
        }
    }
}

/// Ordering by priority yields the same sources, highest priority first.
pub proof fn priority_order_sorted(s: Seq<ProviderKind>)
    ensures
        descending(by_priority(s)),
        by_priority(s).to_multiset() == s.to_multiset(),
    decreases s.len(),
{
    broadcast use vstd::seq_lib::group_to_multiset_ensures;

    if s.len() > 0 {
        priority_order_sorted(s.drop_last());
        lemma_insert_priority(by_priority(s.drop_last()), s.last());
        assert(s =~= s.drop_last().push(s.last()));
    } else {
        assert(s.to_multiset() =~= vstd::multiset::Multiset::<ProviderKind>::empty());
    }
}

// ---------------------------------------------------------------------------
// Pieces shared by several sources
// ---------------------------------------------------------------------------
/// `q` without a leading `https://doi.org/` or, failing that,
/// `http://doi.org/`.
pub open spec fn without_doi_link(q: Seq<char>) -> Seq<char> {
    match strip_prefix(q, "https://doi.org/"@) {
        Some(r) => r,
        None => match strip_prefix(q, "http://doi.org/"@) {
            Some(r) => r,
            None => q,
        },
    }
}

/// `q` without a leading DOI link prefix.
pub fn without_doi_link_exec(q: &Vec<char>) -> (r: Vec<char>)
    ensures
        r@ == without_doi_link(q@),
{
    match strip_prefix_str(q, "https://doi.org/") {
        Some(r) => r,
        None => match strip_prefix_str(q, "http://doi.org/") {
            Some(r) => r,
            None => q.clone(),
        },
    }
}

/// The page a paged source is asked for: pages of `limit` (at least one) results,
/// counted from one.
pub open spec fn page_number(limit: usize, offset: usize) -> int {
    (offset as int) / (if limit > 1 { limit as int } else { 1int }) + 1
}

/// The page holding `offset`.
pub fn page_of(limit: usize, offset: usize) -> (r: usize)
    requires
        page_number(limit, offset) <= usize::MAX,
    ensures
        r == page_number(limit, offset),
{
    let size = if limit > 1 {
        limit
    } else {
        1
    };
    offset / size + 1
}

/// The year of a publication date: its first four bytes, read as a number.
pub open spec fn date_year(d: Option<Seq<char>>) -> Option<i32> {
    match d {
        Some(d) => match byte_prefix(d, 4) {
            Some(y) => parse_i32_spec(y),
            None => None,
        },
        None => None,
    }
}

/// The year of a publication date.
pub fn date_year_exec(d: &Option<String>) -> (r: Option<i32>)
    ensures
        r == date_year(ostr(*d)),
{
    match d {
        Some(d) => match byte_prefix_exec(&chars_of(d.as_str()), 4) {
            Some(y) => parse_i32(&y),
            None => None,
        },
        None => None,
    }
}

/// Whether four ASCII digits start at `i`.
pub open spec fn four_digits_at(s: Seq<char>, i: int) -> bool {
    0 <= i && i + 4 <= s.len() && crate::text::all_digits(s.subrange(i, i + 4))
}

/// The year in a free-form date such as `c2005.` or `March 2020`: the
/// first four consecutive ASCII digits.
pub open spec fn year_in(s: Seq<char>) -> Option<i32> {
    if exists|i: int| four_digits_at(s, i) {
        let i = choose|i: int| four_digits_at(s, i) && forall|j: int| 0 <= j < i ==> !four_digits_at(s, j);
        Some(crate::text::digits_val(s.subrange(i, i + 4)) as i32)
    } else {
        None
    }
}

/// Finds the year in a free-form date.
pub fn extract_year(s: &str) -> (r: Option<i32>)
    ensures
        r == year_in(s@),
{
    let v = chars_of(s);
    let mut i: usize = 0;
    while i < v.len() && v.len() - i >= 4
        invariant
            v@ == s@,
            i <= v.len(),
            forall|j: int| 0 <= j < i ==> !four_digits_at(s@, j),
        decreases v.len() - i,
    {
        let d = crate::text::slice(&v, i, i + 4);
        let mut k: usize = 0;
        let mut ok = true;
        while k < 4
            invariant
                k <= 4,
                d@.len() == 4,
                ok == forall|m: int| 0 <= m < k ==> crate::text::is_digit(#[trigger] d@[m]),
            decreases 4 - k,
        {
            ok = ok && crate::text::is_ascii_digit(d[k]);
            k = k + 1;
        }
        if ok {
            assert(four_digits_at(s@, i as int));
            proof {
                let w = choose|w: int| four_digits_at(s@, w) && forall|j: int|
                    0 <= j < w ==> !four_digits_at(s@, j);
                assert(four_digits_at(s@, i as int) && forall|j: int|
                    0 <= j < i ==> !four_digits_at(s@, j));
                if w < i {
                } else if w > i {
                    assert(!four_digits_at(s@, i as int));
                }
            }
            match parse_i32(&d) {
                Some(y) => {
                    return Some(y);
                },
                None => {
                    proof {
                        lemma_four_digits_fit(d@);
                    }
                    return None;
                },
            }
        }
        i = i + 1;
    }
    assert forall|j: int| !four_digits_at(s@, j) by {
        if 0 <= j && j + 4 <= s@.len() {
            assert(j < i);
        }
    }
    None
}

proof fn lemma_four_digits_fit(d: Seq<char>)
    requires
        crate::text::all_digits(d),
        d.len() == 4,
    ensures
        parse_i32_spec(d) == Some(crate::text::digits_val(d) as i32),
{
    lemma_digits_val_bound(d);
}

proof fn lemma_digits_val_bound(d: Seq<char>)
    requires
        forall|i: int| 0 <= i < d.len() ==> crate::text::is_digit(#[trigger] d[i]),
        d.len() <= 4,
    ensures
        crate::text::digits_val(d) < 10000,
        d.len() <= 3 ==> crate::text::digits_val(d) < 1000,
        d.len() <= 2 ==> crate::text::digits_val(d) < 100,
        d.len() <= 1 ==> crate::text::digits_val(d) < 10,
    decreases d.len(),
{
    if d.len() > 0 {
        lemma_digits_val_bound(d.drop_last());
    }
}

} // verus!
