use research_hub::json::{Json, JsonNumber};
use research_hub::provider::answers::{
    base_answer, biorxiv_answer, core_answer, crossref_answer, crossref_lookup_answer, doaj_answer,
    google_books_answer, open_library_answer, open_library_isbn_answer, openalex_answer,
    openreview_answer, semantic_scholar_answer, semantic_scholar_lookup_answer, zenodo_answer,
};
use research_hub::provider::{
    arxiv, biorxiv, core_api, crossref, google_books, hathitrust, mdpi, open_library, openalex,
    openreview, pubmed, researchgate, sci_hub, semantic_scholar, ssrn, unpaywall,
};
use research_hub::provider::{
    extract_year, next_retry, page_of, sort_by_priority, wait_ms, ProviderKind, SearchType,
};

fn to_json(v: &serde_json::Value) -> Json {
    match v {
        serde_json::Value::Null => Json::Null,
        serde_json::Value::Bool(b) => Json::Bool(*b),
        serde_json::Value::Number(n) => {
            if let Some(u) = n.as_u64() {
                Json::Number(JsonNumber::PosInt(u))
            } else if let Some(i) = n.as_i64() {
                Json::Number(JsonNumber::NegInt(i))
            } else {
                Json::Number(JsonNumber::Float)
            }
        }
        serde_json::Value::String(s) => Json::Str(s.clone()),
        serde_json::Value::Array(a) => Json::Array(a.iter().map(to_json).collect()),
        serde_json::Value::Object(m) => {
            Json::Object(m.iter().map(|(k, v)| (k.clone(), to_json(v))).collect())
        }
    }
}

fn json(text: &str) -> Json {
    to_json(&serde_json::from_str::<serde_json::Value>(text).unwrap())
}

// ---- answers ----

#[test]
fn openalex_answer_takes_limit_and_count() {
    let data = json(
        r#"{"meta": {"count": 42}, "results": [
            {"display_name": "One"}, {"display_name": "Two"}, {"display_name": "Three"}]}"#,
    );
    let r = openalex_answer(&data, 2);
    assert_eq!(r.total_hits, Some(42));
    assert_eq!(r.papers.len(), 2);
    assert_eq!(r.papers[0].source, "openalex");
}

#[test]
fn crossref_answers() {
    let data = json(
        r#"{"message": {"total-results": 7, "items": [{"title": ["A"]}, {"title": ["B"]}]}}"#,
    );
    let r = crossref_answer(&data, 10);
    assert_eq!(r.total_hits, Some(7));
    assert_eq!(r.papers.len(), 2);
    assert_eq!(r.papers[1].title, "B");
    let lookup = crossref_lookup_answer(&json(r#"{"message": {"title": ["Found"]}}"#));
    assert_eq!(lookup.papers.len(), 1);
    assert_eq!(lookup.papers[0].title, "Found");
    assert_eq!(lookup.total_hits, None);
    let empty = crossref_lookup_answer(&json(r#"{}"#));
    assert_eq!(empty.papers[0].title, "Unknown");
}

#[test]
fn semantic_scholar_answers() {
    let data = json(r#"{"total": 3, "data": [{"title": "S1"}, {"title": "S2"}, {"title": "S3"}]}"#);
    let r = semantic_scholar_answer(&data, 1);
    assert_eq!(r.total_hits, Some(3));
    assert_eq!(r.papers.len(), 1);
    assert_eq!(r.papers[0].title, "S1");
    let one = semantic_scholar_lookup_answer(&json(r#"{"title": "L"}"#));
    assert_eq!(one.papers[0].title, "L");
}

#[test]
fn core_doaj_base_openreview_answers() {
    let c = core_answer(&json(r#"{"totalHits": 5, "results": [{"title": "C"}]}"#), 10);
    assert_eq!((c.papers.len(), c.total_hits), (1, Some(5)));
    let d = doaj_answer(&json(r#"{"total": 9, "results": [{"bibjson": {"title": "D"}}]}"#), 10);
    assert_eq!(d.papers[0].title, "D");
    assert_eq!(d.total_hits, Some(9));
    let b = base_answer(&json(r#"{"response": {"numFound": 2, "docs": [{"dctitle": "B1"}, {"dctitle": "B2"}]}}"#), 1);
    assert_eq!((b.papers.len(), b.total_hits), (1, Some(2)));
    let o = openreview_answer(&json(r#"{"count": 1, "notes": [{"id": "n1", "content": {"title": "O"}}]}"#), 5);
    assert_eq!(o.papers[0].title, "O");
}

#[test]
fn answers_without_counts_or_records() {
    let r = openalex_answer(&json(r#"{"meta": {"count": -1}}"#), 5);
    assert_eq!(r.total_hits, None);
    assert!(r.papers.is_empty());
}

#[test]
fn book_answers_take_every_record() {
    let g = google_books_answer(&json(
        r#"{"totalItems": 100, "items": [{"volumeInfo": {"title": "G1"}}, {"volumeInfo": {"title": "G2"}}]}"#,
    ));
    assert_eq!((g.papers.len(), g.total_hits), (2, Some(100)));
    let o = open_library_answer(&json(r#"{"numFound": 1, "docs": [{"title": "OL"}]}"#));
    assert_eq!(o.papers[0].title, "OL");
    let i = open_library_isbn_answer(&json(r#"{"title": "ISBN Book"}"#));
    assert_eq!(i.total_hits, Some(1));
    assert_eq!(i.papers[0].title, "ISBN Book");
}

#[test]
fn zenodo_answer_counts_both_layouts() {
    let a = zenodo_answer(&json(
        r#"{"hits": {"total": 4, "hits": [{"metadata": {"title": "Z"}}, {"metadata": {}}]}}"#,
    ));
    assert_eq!(a.total_hits, Some(4));
    assert_eq!(a.papers.len(), 1);
    let b = zenodo_answer(&json(r#"{"hits": {"total": {"value": 11}, "hits": []}}"#));
    assert_eq!(b.total_hits, Some(11));
}

#[test]
fn biorxiv_answer_first_record_only() {
    let a = biorxiv_answer(&json(r#"{"collection": [{"title": "First"}, {"title": "Second"}]}"#));
    assert_eq!(a.papers.len(), 1);
    assert_eq!(a.papers[0].title, "First");
    assert!(biorxiv_answer(&json(r#"{"collection": []}"#)).papers.is_empty());
}

// ---- query phrasing ----

#[test]
fn crossref_isbn_search_strips_spaces_for_filter() {
    assert_eq!(
        crossref::search_parameter("978 023117924 9", SearchType::Isbn),
        ("filter".to_string(), "isbn:9780231179249".to_string())
    );
    assert_eq!(
        crossref::search_parameter("Evola", SearchType::Author),
        ("query.author".to_string(), "Evola".to_string())
    );
    assert_eq!(crossref::lookup_doi("https://doi.org/10.7312/evol92241"), "10.7312/evol92241");
}

#[test]
fn openalex_search_parameters() {
    assert_eq!(
        openalex::search_parameter("https://doi.org/10.1/x", SearchType::Doi),
        ("filter".to_string(), "doi:10.1/x".to_string())
    );
    assert_eq!(
        openalex::search_parameter("Hinton", SearchType::Author),
        ("filter".to_string(), "authorships.author.display_name.search:Hinton".to_string())
    );
    assert_eq!(
        openalex::search_parameter("graphs", SearchType::Isbn),
        ("search".to_string(), "graphs".to_string())
    );
}

#[test]
fn other_query_builders() {
    assert_eq!(core_api::build_query("https://doi.org/10.1/x", SearchType::Doi), "doi:10.1/x");
    assert_eq!(core_api::build_query("Deep Nets", SearchType::Title), "title:(Deep Nets)");
    assert_eq!(google_books::build_query("978-0-262-03384-8", SearchType::Isbn), "isbn:9780262033848");
    assert_eq!(google_books::build_query("Knuth", SearchType::Author), "inauthor:Knuth");
    assert_eq!(arxiv::build_query("Vaswani", SearchType::Author), "au:\"Vaswani\"");
    assert_eq!(arxiv::build_query("10.48550/arXiv.1706.03762", SearchType::Doi), "id:1706.03762");
    assert_eq!(pubmed::search_term("Smith J", SearchType::Author), "Smith J[Author]");
    assert_eq!(pubmed::search_term("crispr", SearchType::Keywords), "crispr");
    assert_eq!(open_library::param_name(SearchType::Title), "title");
    assert_eq!(open_library::param_name(SearchType::Keywords), "q");
    assert_eq!(open_library::isbn_lookup_path("978-0-262-03384-8"), "/isbn/9780262033848.json");
    assert_eq!(hathitrust::lookup_path("978-0-262-03384-8"), "/isbn/9780262033848.json");
}

#[test]
fn google_books_max_results_clamped_to_40() {
    assert_eq!(google_books::max_results(100), 40);
    assert_eq!(google_books::max_results(10), 10);
}

// ---- record readers ----

#[test]
fn pubmed_ids_and_summaries() {
    let search = json(r#"{"esearchresult": {"idlist": ["111", 5, "222"]}}"#);
    let ids = pubmed::id_list(&search);
    assert_eq!(ids, vec!["111".to_string(), "222".to_string()]);
    assert_eq!(pubmed::summary_ids(&ids), "111,222");
    let summary = json(
        r#"{"result": {"uids": ["111", "222"],
            "111": {"title": "PM", "authors": [{"name": "Doe J"}], "pubdate": "2019 Mar",
                    "articleids": [{"idtype": "doi", "value": "10.1/pm"}, {"idtype": "pmc", "value": "PMC9"}],
                    "source": "J Test", "volume": "3"},
            "222": "not an object"}}"#,
    );
    let papers = pubmed::parse_summaries(&summary, &ids);
    assert_eq!(papers.len(), 1);
    let p = &papers[0];
    assert_eq!(p.title, "PM");
    assert_eq!(p.authors, vec!["Doe J".to_string()]);
    assert_eq!(p.doi, Some("10.1/pm".into()));
    assert_eq!(p.year, Some(2019));
    assert_eq!(p.url, Some("https://pubmed.ncbi.nlm.nih.gov/111/".into()));
    assert_eq!(p.pdf_url, Some("https://www.ncbi.nlm.nih.gov/pmc/articles/PMC9/pdf/".into()));
    assert_eq!(p.journal, Some("J Test".into()));
}

#[test]
fn openalex_abstract_is_rebuilt_in_position_order() {
    let inv = json(r#"{"world": [1], "hello": [0], "again": [3], "hello ": [2]}"#);
    assert_eq!(openalex::reconstruct_abstract(Some(&inv)), Some("hello world hello  again".to_string()));
    assert_eq!(openalex::reconstruct_abstract(Some(&json(r#"{}"#))), None);
    assert_eq!(openalex::reconstruct_abstract(None), None);
}

#[test]
fn openreview_year_from_timestamp() {
    assert_eq!(openreview::chrono_lite_year(1_700_000_000), 2023);
    assert_eq!(openreview::chrono_lite_year(1_705_000_000), 2024);
    assert_eq!(openreview::chrono_lite_year(0), 1970);
    assert_eq!(openreview::chrono_lite_year(1_673_740_800), 2023);
    assert_eq!(openreview::chrono_lite_year(1_686_787_200), 2023);
    assert_eq!(openreview::chrono_lite_year(1_704_067_199), 2023);
    assert_eq!(openreview::chrono_lite_year(1_704_067_200), 2024);
    assert_eq!(openreview::chrono_lite_year(951_782_400), 2000);
    let note = json(r#"{"id": "abc", "cdate": 1700000000000, "content": {"title": {"value": "T"}}}"#);
    let p = openreview::parse_note(&note);
    assert_eq!(p.year, Some(2023));
    assert_eq!(p.title, "T");
}

#[test]
fn unpaywall_and_semantic_scholar_pdf_links() {
    let null_pdf = json(r#"{"best_oa_location": {"url": "https://x/landing", "url_for_pdf": null}}"#);
    assert_eq!(unpaywall::best_pdf_url(&null_pdf), None);
    let landing = json(r#"{"best_oa_location": {"url": "https://x/landing"}}"#);
    assert_eq!(unpaywall::best_pdf_url(&landing), Some("https://x/landing".into()));
    let with_pdf = json(r#"{"best_oa_location": {"url_for_pdf": "https://x/p.pdf", "url": "https://x"}}"#);
    assert_eq!(unpaywall::best_pdf_url(&with_pdf), Some("https://x/p.pdf".into()));
    let record = json(r#"{"title": "U", "year": 2020, "z_authors": [{"given": "A", "family": "B"}], "journal_name": "J"}"#);
    let p = unpaywall::parse_record("10.1/u", &record);
    assert_eq!(p.title, "U");
    assert_eq!(p.authors, vec!["A B".to_string()]);
    assert_eq!(p.url, Some("https://doi.org/10.1/u".into()));
    assert_eq!(p.source, "unpaywall");
    let s2 = json(r#"{"openAccessPdf": {"url": "https://s2/p.pdf"}}"#);
    assert_eq!(semantic_scholar::open_access_pdf(&s2), Some("https://s2/p.pdf".into()));
}

#[test]
fn biorxiv_authors_and_pdf_link() {
    assert_eq!(
        biorxiv::parse_authors("Smith, J.; Doe, A."),
        vec!["Smith, J.".to_string(), "Doe, A.".to_string()]
    );
    let data = json(r#"{"collection": [{"version": 3}]}"#);
    assert_eq!(
        biorxiv::pdf_url_for("10.1101/2020.01.01.000001", &data),
        Some("https://www.biorxiv.org/content/10.1101/2020.01.01.000001v3.full.pdf".into())
    );
    let no_version = json(r#"{"collection": [{}]}"#);
    assert_eq!(
        biorxiv::pdf_url_for("10.1101/x", &no_version),
        Some("https://www.biorxiv.org/content/10.1101/xv1.full.pdf".into())
    );
    assert_eq!(biorxiv::pdf_url_for("10.1101/x", &json(r#"{"collection": []}"#)), None);
}

#[test]
fn crossref_pdf_link_and_jats() {
    let item = json(
        r#"{"link": [{"content-type": "text/html", "URL": "https://h"},
                     {"content-type": "application/pdf", "URL": "https://p.pdf"}]}"#,
    );
    assert_eq!(crossref::find_pdf_link(&item), Some("https://p.pdf".into()));
    assert_eq!(crossref::strip_jats("<jats:p>Plain <jats:italic>words</jats:italic></jats:p>"), "Plain words");
    assert_eq!(crossref::strip_jats("No markup"), "No markup");
    assert!(crossref::is_book_like_type(Some("book-chapter")));
    assert!(!crossref::is_book_like_type(Some("journal-article")));
    assert!(!crossref::is_book_like_type(None));
}

#[test]
fn hathitrust_lookup_reads_first_record() {
    let data = json(
        r#"{"records": {"rec001": {"titles": ["Algorithms"], "publishDates": ["2009"]}},
            "items": [{"itemURL": "https://hdl.handle.net/x"}]}"#,
    );
    let papers = hathitrust::parse_lookup(&data);
    assert_eq!(papers.len(), 1);
    assert_eq!(papers[0].title, "Algorithms");
    assert_eq!(papers[0].url, Some("https://hdl.handle.net/x".into()));
    assert!(hathitrust::parse_lookup(&json(r#"{"records": {}, "items": []}"#)).is_empty());
}

#[test]
fn arxiv_feed_reports_total_and_limit() {
    let xml = r#"<feed xmlns="http://www.w3.org/2005/Atom" xmlns:opensearch="http://a9.com/-/spec/opensearch/1.1/">
      <opensearch:totalResults>25</opensearch:totalResults>
      <entry><title>One</title><id>http://arxiv.org/abs/1111.1111v1</id></entry>
      <entry><title>Two</title><id>http://arxiv.org/abs/2222.2222v1</id></entry>
    </feed>"#;
    let r = arxiv::parse_feed(xml, 1).unwrap();
    assert_eq!(r.papers.len(), 1);
    assert_eq!(r.papers[0].title, "One");
    assert_eq!(r.total_hits, Some(25));
    assert!(arxiv::parse_feed("<feed", 5).is_none());
}

// ---- sci-hub ----

#[test]
fn sci_hub_links_made_absolute() {
    assert_eq!(sci_hub::normalize_url("//cdn.site/a.pdf", "https://sci-hub.se"), "https://cdn.site/a.pdf");
    assert_eq!(sci_hub::normalize_url("/d/a.pdf", "https://sci-hub.se"), "https://sci-hub.se/d/a.pdf");
    assert_eq!(sci_hub::normalize_url("https://x/a.pdf", "https://sci-hub.se"), "https://x/a.pdf");
}

#[test]
fn sci_hub_page_lookup_order() {
    let embed = r#"<html><body><iframe src="/frame.pdf"></iframe><embed src="//cdn.site/e.pdf"></body></html>"#;
    assert_eq!(sci_hub::find_pdf_in_page(embed, "https://m"), Some("https://cdn.site/e.pdf".into()));
    let frame = r#"<html><body><iframe src="/frame.pdf"></iframe></body></html>"#;
    assert_eq!(sci_hub::find_pdf_in_page(frame, "https://m"), Some("https://m/frame.pdf".into()));
    let link = r#"<html><body><a href="/about">x</a><a href="/files/p.pdf">pdf</a></body></html>"#;
    assert_eq!(sci_hub::find_pdf_in_page(link, "https://m"), Some("https://m/files/p.pdf".into()));
    let text = "<html><body>see https://host/a.pdf.pdf?x=1 now</body></html>";
    assert_eq!(sci_hub::find_pdf_in_page(text, "https://m"), Some("https://host/a.pdf.pdf".into()));
    assert_eq!(sci_hub::find_pdf_in_page("<html><body>nothing</body></html>", "https://m"), None);
}

#[test]
fn sci_hub_mirror_and_paper() {
    assert_eq!(sci_hub::get_mirror(Some("http://localhost:9")), "http://localhost:9");
    let m = sci_hub::get_mirror(None);
    assert!(m.starts_with("https://sci-hub."));
    assert!(sci_hub::user_agent().starts_with("Mozilla/5.0"));
    let p = sci_hub::found("10.1/x", "https://m/x.pdf".into());
    assert_eq!(p.title, "Paper (DOI: 10.1/x)");
    assert_eq!(p.url, Some("https://doi.org/10.1/x".into()));
    assert_eq!(p.pdf_url, Some("https://m/x.pdf".into()));
    assert_eq!(p.source, "sci_hub");
}

// ---- sources, retries, paging ----

#[test]
fn retry_waits_double_up_to_ten_seconds() {
    assert_eq!(next_retry(0, 3), Some(1000));
    assert_eq!(next_retry(1, 3), Some(2000));
    assert_eq!(next_retry(2, 3), None);
    assert_eq!(next_retry(3, 10), Some(8000));
    assert_eq!(next_retry(4, 10), Some(10000));
}

#[test]
fn page_of_offset() {
    assert_eq!(page_of(10, 0), 1);
    assert_eq!(page_of(10, 25), 3);
    assert_eq!(page_of(0, 4), 5);
}

#[test]
fn year_in_free_form_dates() {
    assert_eq!(extract_year("c2005."), Some(2005));
    assert_eq!(extract_year("March 2020"), Some(2020));
    assert_eq!(extract_year("n.d."), None);
}

#[test]
fn sources_by_priority_and_capabilities() {
    let sorted = sort_by_priority(&vec![ProviderKind::SciHub, ProviderKind::Arxiv, ProviderKind::OpenAlex]);
    assert_eq!(sorted, vec![ProviderKind::OpenAlex, ProviderKind::Arxiv, ProviderKind::SciHub]);
    assert!(ProviderKind::Unpaywall.supports(SearchType::Doi));
    assert!(!ProviderKind::Unpaywall.supports(SearchType::Keywords));
    assert_eq!(ProviderKind::ResearchGate.attempts(), 2);
    assert_eq!(ProviderKind::Crossref.attempts(), 3);
}

// ---- scraped result pages ----

#[test]
fn mdpi_results_page() {
    let doc = r#"<html><body>
      <div class="article-content">
        <a class="title-is-link" href="/2073-4409/12/3/456"> Cell Biology Paper </a>
        <div class="authors"><a>Ann Lee</a><a> </a><a>Bo Chen</a></div>
        <div class="abstract-full"> An abstract. </div>
      </div>
      <div class="generic-item"><span>no title here</span></div>
    </body></html>"#;
    let papers = mdpi::parse_results(doc, "https://www.mdpi.com", 10);
    assert_eq!(papers.len(), 1);
    let p = &papers[0];
    assert_eq!(p.title, "Cell Biology Paper");
    assert_eq!(p.authors, vec!["Ann Lee".to_string(), "Bo Chen".to_string()]);
    assert_eq!(p.abstract_text, Some("An abstract.".into()));
    assert_eq!(p.url, Some("https://www.mdpi.com/2073-4409/12/3/456".into()));
    assert_eq!(p.doi, Some("10.3390/2073-4409123456".into()));
    assert_eq!(p.pdf_url, Some("https://www.mdpi.com/2073-4409/12/3/456/pdf".into()));
    assert_eq!(p.source, "mdpi");
}

#[test]
fn ssrn_results_page() {
    let doc = r#"<html><body>
      <div class="result-item">
        <a class="title" href="/sol3/papers.cfm?abstract_id=1234567">SSRN Paper</a>
        <div class="authors-list"><a>Jo Doe</a></div>
        <div class="abstract-text">Abs</div>
      </div>
    </body></html>"#;
    let papers = ssrn::parse_results(doc, "https://papers.ssrn.com", 10);
    assert_eq!(papers.len(), 1);
    assert_eq!(papers[0].url, Some("https://papers.ssrn.com/sol3/papers.cfm?abstract_id=1234567".into()));
    assert_eq!(
        papers[0].pdf_url,
        Some("https://papers.ssrn.com/sol3/Delivery.cfm?abstractid=1234567".into())
    );
    assert_eq!(papers[0].authors, vec!["Jo Doe".to_string()]);
}

#[test]
fn researchgate_results_page_respects_limit() {
    let doc = r#"<html><body>
      <div class="search-result"><div class="publication-title"><a href="/publication/1_First">First</a></div>
        <span class="author-name">Al B</span><div class="abstract">RG abs</div></div>
      <div class="search-result"><div class="publication-title"><a href="/publication/2_Second">Second</a></div></div>
    </body></html>"#;
    let papers = researchgate::parse_results(doc, "https://www.researchgate.net", 1);
    assert_eq!(papers.len(), 1);
    assert_eq!(papers[0].title, "First");
    assert_eq!(papers[0].url, Some("https://www.researchgate.net/publication/1_First".into()));
    assert_eq!(papers[0].abstract_text, Some("RG abs".into()));
    assert_eq!(papers[0].source, "researchgate");
}

#[test]
fn rate_limit_waits_for_the_rest_of_the_delay() {
    assert_eq!(wait_ms(0, 3000), 3000);
    assert_eq!(wait_ms(1200, 3000), 1800);
    assert_eq!(wait_ms(3000, 3000), 0);
    assert_eq!(wait_ms(5000, 350), 0);
    let delay = ProviderKind::Arxiv.base_delay_ms();
    assert_eq!(wait_ms(1000, delay), 2000);
}
