use research_hub::models::{Paper, PaperMetadata, SearchType, SortOrder};
use research_hub::provider::create_all_providers;

#[test]
fn test_paper_default() {
    let p = Paper::default();
    assert!(p.title.is_empty());
    assert!(p.authors.is_empty());
    assert!(p.doi.is_none());
    assert!(p.year.is_none());
    assert!(p.pdf_url.is_none());
    assert!(p.publisher.is_none());
    assert!(p.isbn.is_none());
    assert!(p.issn.is_none());
    assert!(p.arxiv_id.is_none());
    assert!(p.work_type.is_none());
    assert!(p.editors.is_empty());
    assert!(p.series.is_none());
    assert!(p.oclc.is_none());
    assert!(p.lccn.is_none());
}

#[test]
fn test_paper_metadata_new() {
    let meta = PaperMetadata::new("10.1234/test");
    assert_eq!(meta.doi, "10.1234/test");
    assert_eq!(meta.url, Some("https://doi.org/10.1234/test".into()));
    assert!(meta.title.is_empty());
    assert!(meta.authors.is_empty());
    assert!(meta.year.is_none());
}

#[test]
fn test_paper_metadata_with_fallback_title() {
    let meta = PaperMetadata::with_fallback_title("10.1234/test");
    assert_eq!(meta.doi, "10.1234/test");
    assert_eq!(meta.title, "Unknown paper (10.1234/test)");
    assert_eq!(meta.url, Some("https://doi.org/10.1234/test".into()));
}

#[test]
fn test_paper_metadata_default() {
    let meta = PaperMetadata::default();
    assert!(meta.doi.is_empty());
    assert!(meta.title.is_empty());
    assert!(meta.url.is_none());
    assert!(meta.isbn.is_none());
    assert!(meta.oclc.is_none());
    assert!(meta.lccn.is_none());
}

#[test]
fn test_paper_metadata_from_isbn() {
    let meta = PaperMetadata::from_isbn("978-3-030-12345-6");
    assert_eq!(meta.isbn, Some("978-3-030-12345-6".into()));
    assert!(meta.doi.is_empty());
    assert!(meta.url.is_none());
    assert!(meta.title.is_empty());
    assert!(meta.oclc.is_none());
    assert!(meta.lccn.is_none());
}

#[test]
fn test_paper_metadata_from_oclc() {
    let meta = PaperMetadata::from_oclc("123456789");
    assert_eq!(meta.oclc, Some("123456789".into()));
    assert!(meta.doi.is_empty());
    assert!(meta.url.is_none());
    assert!(meta.title.is_empty());
    assert!(meta.isbn.is_none());
    assert!(meta.lccn.is_none());
}

#[test]
fn test_search_type_display() {
    assert_eq!(SearchType::Doi.to_string(), "DOI");
    assert_eq!(SearchType::Keywords.to_string(), "KEYWORDS");
    assert_eq!(SearchType::Author.to_string(), "AUTHOR");
    assert_eq!(SearchType::Title.to_string(), "TITLE");
}

#[test]
fn test_search_type_equality() {
    assert_eq!(SearchType::Doi, SearchType::Doi);
    assert_ne!(SearchType::Doi, SearchType::Keywords);
}

#[test]
fn isbn_search_type_display() {
    assert_eq!(SearchType::Isbn.to_string(), "ISBN");
}

#[test]
fn sort_order_names() {
    assert_eq!(SortOrder::Relevance.to_string(), "relevance");
    assert_eq!(SortOrder::Date.to_string(), "date");
    assert_eq!(SortOrder::DateAsc.to_string(), "date-asc");
    assert_eq!(SortOrder::Citations.to_string(), "citations");
}

#[test]
fn test_create_all_providers_count() {
    let providers = create_all_providers();
    assert_eq!(providers.len(), 13);
}

#[test]
fn test_create_all_providers_sorted_descending() {
    let providers = create_all_providers();
    for i in 1..providers.len() {
        assert!(
            providers[i - 1].priority() >= providers[i].priority(),
            "{} (pri {}) should come before {} (pri {})",
            providers[i - 1].name(),
            providers[i - 1].priority(),
            providers[i].name(),
            providers[i].priority(),
        );
    }
}

#[test]
fn test_create_all_providers_highest_is_openalex() {
    let providers = create_all_providers();
    assert_eq!(providers[0].name(), "openalex");
}

#[test]
fn test_create_all_providers_lowest_is_scihub() {
    let providers = create_all_providers();
    assert_eq!(providers.last().unwrap().name(), "sci_hub");
}
