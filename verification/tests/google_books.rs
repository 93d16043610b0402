use research_hub::json::{Json, JsonNumber};
use research_hub::provider::google_books::{parse_volume, pick_isbn};
use research_hub::provider::{ProviderKind, SearchType};

fn to_json(v: &serde_json::Value) -> Json {
    match v {
        serde_json::Value::Null => Json::Null,
        serde_json::Value::Bool(b) => Json::Bool(*b),
        serde_json::Value::Number(n) => {
            if let Some(u) = n.as_u64() {
                Json::Number(JsonNumber::PosInt(u))
            } else if let Some(i) = n.as_i64() {
                Json::Number(JsonNumber::NegInt(i))
            } else {
                Json::Number(JsonNumber::Float)
            }
        }
        serde_json::Value::String(s) => Json::Str(s.clone()),
        serde_json::Value::Array(a) => Json::Array(a.iter().map(to_json).collect()),
        serde_json::Value::Object(m) => {
            Json::Object(m.iter().map(|(k, v)| (k.clone(), to_json(v))).collect())
        }
    }
}

fn json(text: &str) -> Json {
    to_json(&serde_json::from_str::<serde_json::Value>(text).unwrap())
}

#[test]
fn google_books_test_pick_isbn_empty() {
    let ids: Vec<Json> = vec![];
    assert_eq!(pick_isbn(&ids), None);
}

#[test]
fn test_pick_isbn_isbn13_preferred() {
    let ids = vec![
        json(r#"{"type": "ISBN_10", "identifier": "0262033844"}"#),
        json(r#"{"type": "ISBN_13", "identifier": "9780262033848"}"#),
    ];
    assert_eq!(pick_isbn(&ids), Some("9780262033848".to_string()));
}

#[test]
fn test_pick_isbn_isbn10_fallback() {
    let ids = vec![
        json(r#"{"type": "ISBN_10", "identifier": "0262033844"}"#),
    ];
    assert_eq!(pick_isbn(&ids), Some("0262033844".to_string()));
}

#[test]
fn test_pick_isbn_other_type_ignored() {
    let ids = vec![
        json(r#"{"type": "OTHER", "identifier": "ABCD1234"}"#),
    ];
    assert_eq!(pick_isbn(&ids), None);
}

// ---- parse_volume tests ----

#[test]
fn test_parse_volume_full() {
    let item = json(r#"{
        "volumeInfo": {
            "title": "Introduction to Algorithms",
            "authors": ["Thomas H. Cormen", "Charles E. Leiserson"],
            "publisher": "MIT Press",
            "publishedDate": "2009-07-31",
            "description": "A comprehensive textbook on algorithms.",
            "industryIdentifiers": [
                {"type": "ISBN_10", "identifier": "0262033844"},
                {"type": "ISBN_13", "identifier": "9780262033848"}
            ],
            "printType": "BOOK",
            "infoLink": "https://books.google.com/books?id=aefUBQAAQBAJ"
        }
    }"#);
    let paper = parse_volume(&item);
    assert_eq!(paper.title, "Introduction to Algorithms");
    assert_eq!(paper.authors, vec!["Thomas H. Cormen", "Charles E. Leiserson"]);
    assert_eq!(paper.publisher, Some("MIT Press".to_string()));
    assert_eq!(paper.year, Some(2009));
    assert_eq!(paper.published_date, Some("2009-07-31".to_string()));
    assert_eq!(paper.abstract_text, Some("A comprehensive textbook on algorithms.".to_string()));
    assert_eq!(paper.isbn, Some("9780262033848".to_string()));
    assert_eq!(paper.work_type, Some("book".to_string()));
    assert_eq!(paper.url, Some("https://books.google.com/books?id=aefUBQAAQBAJ".to_string()));
    assert_eq!(paper.source, "google_books");
    // Fields that should be None/default
    assert_eq!(paper.doi, None);
    assert_eq!(paper.pdf_url, None);
    assert_eq!(paper.journal, None);
    assert_eq!(paper.volume, None);
    assert_eq!(paper.issue, None);
    assert_eq!(paper.pages, None);
    assert_eq!(paper.citation_count, None);
    assert_eq!(paper.issn, None);
    assert_eq!(paper.arxiv_id, None);
    assert!(paper.editors.is_empty());
    assert_eq!(paper.series, None);
    assert_eq!(paper.oclc, None);
    assert_eq!(paper.lccn, None);
}

#[test]
fn test_parse_volume_minimal() {
    let item = json(r#"{
        "volumeInfo": {}
    }"#);
    let paper = parse_volume(&item);
    assert_eq!(paper.title, "Unknown");
    assert!(paper.authors.is_empty());
    assert_eq!(paper.publisher, None);
    assert_eq!(paper.year, None);
    assert_eq!(paper.published_date, None);
    assert_eq!(paper.abstract_text, None);
    assert_eq!(paper.isbn, None);
    assert_eq!(paper.work_type, None);
    assert_eq!(paper.url, None);
    assert_eq!(paper.source, "google_books");
}

#[test]
fn test_parse_volume_no_volume_info() {
    let item = json(r#"{}"#);
    let paper = parse_volume(&item);
    assert_eq!(paper.title, "Unknown");
    assert!(paper.authors.is_empty());
    assert_eq!(paper.source, "google_books");
}

#[test]
fn test_parse_volume_isbn_prefers_isbn13() {
    let item = json(r#"{
        "volumeInfo": {
            "title": "Test",
            "industryIdentifiers": [
                {"type": "ISBN_10", "identifier": "0262033844"},
                {"type": "ISBN_13", "identifier": "9780262033848"}
            ]
        }
    }"#);
    let paper = parse_volume(&item);
    assert_eq!(paper.isbn, Some("9780262033848".to_string()));
}

#[test]
fn test_parse_volume_isbn_fallback_isbn10() {
    let item = json(r#"{
        "volumeInfo": {
            "title": "Test",
            "industryIdentifiers": [
                {"type": "ISBN_10", "identifier": "0262033844"}
            ]
        }
    }"#);
    let paper = parse_volume(&item);
    assert_eq!(paper.isbn, Some("0262033844".to_string()));
}

#[test]
fn test_parse_volume_no_identifiers() {
    let item = json(r#"{
        "volumeInfo": {
            "title": "No ISBN"
        }
    }"#);
    let paper = parse_volume(&item);
    assert_eq!(paper.isbn, None);
}

#[test]
fn test_parse_volume_published_date_full() {
    let item = json(r#"{
        "volumeInfo": {
            "title": "Test",
            "publishedDate": "2023-06-15"
        }
    }"#);
    let paper = parse_volume(&item);
    assert_eq!(paper.year, Some(2023));
    assert_eq!(paper.published_date, Some("2023-06-15".to_string()));
}

#[test]
fn test_parse_volume_published_date_year_only() {
    let item = json(r#"{
        "volumeInfo": {
            "title": "Test",
            "publishedDate": "2023"
        }
    }"#);
    let paper = parse_volume(&item);
    assert_eq!(paper.year, Some(2023));
    assert_eq!(paper.published_date, Some("2023".to_string()));
}

#[test]
fn test_parse_volume_published_date_year_month() {
    let item = json(r#"{
        "volumeInfo": {
            "title": "Test",
            "publishedDate": "2023-06"
        }
    }"#);
    let paper = parse_volume(&item);
    assert_eq!(paper.year, Some(2023));
    assert_eq!(paper.published_date, Some("2023-06".to_string()));
}

#[test]
fn test_parse_volume_no_date() {
    let item = json(r#"{
        "volumeInfo": {
            "title": "Test"
        }
    }"#);
    let paper = parse_volume(&item);
    assert_eq!(paper.year, None);
    assert_eq!(paper.published_date, None);
}

#[test]
fn test_parse_volume_work_type_lowercased() {
    let item = json(r#"{
        "volumeInfo": {
            "title": "Test",
            "printType": "BOOK"
        }
    }"#);
    let paper = parse_volume(&item);
    assert_eq!(paper.work_type, Some("book".to_string()));
}

#[test]
fn test_parse_volume_work_type_magazine() {
    let item = json(r#"{
        "volumeInfo": {
            "title": "Test",
            "printType": "MAGAZINE"
        }
    }"#);
    let paper = parse_volume(&item);
    assert_eq!(paper.work_type, Some("magazine".to_string()));
}

#[test]
fn test_parse_volume_description_as_abstract() {
    let item = json(r#"{
        "volumeInfo": {
            "title": "Test",
            "description": "This is a description."
        }
    }"#);
    let paper = parse_volume(&item);
    assert_eq!(paper.abstract_text, Some("This is a description.".to_string()));
}

#[test]
fn test_parse_volume_source_is_google_books() {
    let item = json(r#"{
        "volumeInfo": {"title": "Test"}
    }"#);
    let paper = parse_volume(&item);
    assert_eq!(paper.source, "google_books");
}

#[test]
fn test_parse_volume_url_from_infolink() {
    let item = json(r#"{
        "volumeInfo": {
            "title": "Test",
            "infoLink": "https://books.google.com/books?id=abc123"
        }
    }"#);
    let paper = parse_volume(&item);
    assert_eq!(paper.url, Some("https://books.google.com/books?id=abc123".to_string()));
}

// ---- provider metadata tests ----

#[test]
fn google_books_test_provider_metadata() {
    let provider = ProviderKind::GoogleBooks;
    assert_eq!(provider.name(), "google_books");
    assert_eq!(provider.priority(), 55);
    assert_eq!(provider.base_delay_ms(), 200);
}

#[test]
fn google_books_test_supported_search_types() {
    let provider = ProviderKind::GoogleBooks;
    let types = provider.supported_search_types();
    assert!(types.contains(&SearchType::Keywords));
    assert!(types.contains(&SearchType::Title));
    assert!(types.contains(&SearchType::Author));
    assert!(types.contains(&SearchType::Isbn));
    assert!(!types.contains(&SearchType::Doi));
}

#[test]
fn google_books_test_base_url_default() {
    let provider = ProviderKind::GoogleBooks;
    assert_eq!(provider.base_url(None), "https://www.googleapis.com");
}

#[test]
fn google_books_test_base_url_override() {
    let provider = ProviderKind::GoogleBooks;
    assert_eq!(provider.base_url(Some("http://localhost:8080")), "http://localhost:8080");
}

// ---- limit clamping test (wiremock) ----
