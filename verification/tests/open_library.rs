use research_hub::json::{Json, JsonNumber};
use research_hub::provider::open_library::{parse_doc, parse_isbn_result, pick_isbn};
use research_hub::provider::{ProviderKind, SearchType};

fn to_json(v: &serde_json::Value) -> Json {
    match v {
        serde_json::Value::Null => Json::Null,
        serde_json::Value::Bool(b) => Json::Bool(*b),
        serde_json::Value::Number(n) => {
            if let Some(u) = n.as_u64() {
                Json::Number(JsonNumber::PosInt(u))
            } else if let Some(i) = n.as_i64() {
                Json::Number(JsonNumber::NegInt(i))
            } else {
                Json::Number(JsonNumber::Float)
            }
        }
        serde_json::Value::String(s) => Json::Str(s.clone()),
        serde_json::Value::Array(a) => Json::Array(a.iter().map(to_json).collect()),
        serde_json::Value::Object(m) => {
            Json::Object(m.iter().map(|(k, v)| (k.clone(), to_json(v))).collect())
        }
    }
}

fn json(text: &str) -> Json {
    to_json(&serde_json::from_str::<serde_json::Value>(text).unwrap())
}

#[test]
fn test_parse_doc_full() {
    let doc = json(r#"{
        "title": "Introduction to Algorithms",
        "author_name": ["Thomas H. Cormen", "Charles E. Leiserson"],
        "first_publish_year": 1990,
        "isbn": ["0262031418", "9780262033848"],
        "publisher": ["MIT Press", "McGraw-Hill"],
        "oclc": ["21442839"],
        "lccn": ["89013027"],
        "key": "/works/OL3295713W"
    }"#);
    let paper = parse_doc(&doc);
    assert_eq!(paper.title, "Introduction to Algorithms");
    assert_eq!(
        paper.authors,
        vec!["Thomas H. Cormen", "Charles E. Leiserson"]
    );
    assert_eq!(paper.year, Some(1990));
    assert_eq!(paper.published_date, Some("1990-01-01".to_string()));
    // ISBN-13 should be preferred
    assert_eq!(paper.isbn, Some("9780262033848".to_string()));
    assert_eq!(paper.publisher, Some("MIT Press".to_string()));
    assert_eq!(paper.oclc, Some("21442839".to_string()));
    assert_eq!(paper.lccn, Some("89013027".to_string()));
    assert_eq!(
        paper.url,
        Some("https://openlibrary.org/works/OL3295713W".to_string())
    );
    assert_eq!(paper.source, "open_library");
    assert_eq!(paper.doi, None);
    assert_eq!(paper.pdf_url, None);
    assert_eq!(paper.journal, None);
    assert_eq!(paper.volume, None);
    assert_eq!(paper.issue, None);
    assert_eq!(paper.pages, None);
    assert_eq!(paper.citation_count, None);
    assert_eq!(paper.abstract_text, None);
}

#[test]
fn test_parse_doc_minimal() {
    let doc = json(r#"{
        "title": "Minimal Book"
    }"#);
    let paper = parse_doc(&doc);
    assert_eq!(paper.title, "Minimal Book");
    assert!(paper.authors.is_empty());
    assert_eq!(paper.doi, None);
    assert_eq!(paper.year, None);
    assert_eq!(paper.published_date, None);
    assert_eq!(paper.isbn, None);
    assert_eq!(paper.publisher, None);
    assert_eq!(paper.oclc, None);
    assert_eq!(paper.lccn, None);
    assert_eq!(paper.url, None);
    assert_eq!(paper.source, "open_library");
}

#[test]
fn test_parse_doc_isbn_prefers_isbn13() {
    let doc = json(r#"{
        "title": "Test Book",
        "isbn": ["1234567890", "9781234567890"]
    }"#);
    let paper = parse_doc(&doc);
    assert_eq!(paper.isbn, Some("9781234567890".to_string()));
}

#[test]
fn test_parse_doc_isbn_fallback_to_first() {
    let doc = json(r#"{
        "title": "Test Book",
        "isbn": ["1234567890", "0987654321"]
    }"#);
    let paper = parse_doc(&doc);
    assert_eq!(paper.isbn, Some("1234567890".to_string()));
}

#[test]
fn test_parse_doc_url_from_key() {
    let doc = json(r#"{
        "title": "URL Test",
        "key": "/works/OL12345W"
    }"#);
    let paper = parse_doc(&doc);
    assert_eq!(
        paper.url,
        Some("https://openlibrary.org/works/OL12345W".to_string())
    );
}

#[test]
fn test_parse_doc_oclc_and_lccn() {
    let doc = json(r#"{
        "title": "Identifiers Test",
        "oclc": ["12345"],
        "lccn": ["2023456789"]
    }"#);
    let paper = parse_doc(&doc);
    assert_eq!(paper.oclc, Some("12345".to_string()));
    assert_eq!(paper.lccn, Some("2023456789".to_string()));
}

#[test]
fn test_parse_doc_year_zero_padded() {
    let doc = json(r#"{
        "title": "Ancient Text",
        "first_publish_year": 85
    }"#);
    let paper = parse_doc(&doc);
    assert_eq!(paper.year, Some(85));
    assert_eq!(
        paper.published_date,
        Some("0085-01-01".to_string()),
        "Years below 1000 must be zero-padded to 4 digits"
    );
}

#[test]
fn test_parse_isbn_result_full() {
    let data = json(r#"{
        "title": "The Art of Computer Programming",
        "publishers": ["Addison-Wesley"],
        "publish_date": "January 1, 1997",
        "isbn_13": ["9780201896831"],
        "isbn_10": ["0201896834"],
        "oclcs": ["34669828"],
        "lccn": ["97002147"],
        "key": "/books/OL1234M"
    }"#);
    let paper = parse_isbn_result(&data);
    assert_eq!(paper.title, "The Art of Computer Programming");
    assert_eq!(paper.publisher, Some("Addison-Wesley".to_string()));
    assert_eq!(paper.isbn, Some("9780201896831".to_string()));
    assert_eq!(paper.oclc, Some("34669828".to_string()));
    assert_eq!(paper.lccn, Some("97002147".to_string()));
    assert_eq!(paper.year, Some(1997));
    assert_eq!(
        paper.url,
        Some("https://openlibrary.org/books/OL1234M".to_string())
    );
    assert_eq!(paper.source, "open_library");
}

#[test]
fn test_parse_isbn_result_minimal() {
    let data = json(r#"{
        "title": "Bare Minimum"
    }"#);
    let paper = parse_isbn_result(&data);
    assert_eq!(paper.title, "Bare Minimum");
    assert!(paper.authors.is_empty());
    assert_eq!(paper.publisher, None);
    assert_eq!(paper.isbn, None);
    assert_eq!(paper.year, None);
    assert_eq!(paper.source, "open_library");
}

#[test]
fn test_parse_isbn_result_authors_empty() {
    let data = json(r#"{
        "title": "No Authors",
        "publishers": ["Test Publisher"]
    }"#);
    let paper = parse_isbn_result(&data);
    assert!(
        paper.authors.is_empty(),
        "ISBN endpoint does not return authors"
    );
}

#[test]
fn test_parse_isbn_result_isbn13_preferred() {
    let data = json(r#"{
        "title": "ISBN Preference",
        "isbn_13": ["9781234567890"],
        "isbn_10": ["1234567890"]
    }"#);
    let paper = parse_isbn_result(&data);
    assert_eq!(paper.isbn, Some("9781234567890".to_string()));
}

#[test]
fn test_parse_isbn_result_isbn10_fallback() {
    let data = json(r#"{
        "title": "ISBN-10 Only",
        "isbn_10": ["1234567890"]
    }"#);
    let paper = parse_isbn_result(&data);
    assert_eq!(paper.isbn, Some("1234567890".to_string()));
}

#[test]
fn open_library_test_pick_isbn_empty() {
    let isbns: Vec<Json> = vec![];
    assert_eq!(pick_isbn(&isbns), None);
}

#[test]
fn test_pick_isbn_prefers_isbn13() {
    let isbns = vec![
        json(r#""1234567890""#),
        json(r#""9781234567890""#),
    ];
    assert_eq!(pick_isbn(&isbns), Some("9781234567890".to_string()));
}

#[test]
fn test_pick_isbn_fallback_to_first() {
    let isbns = vec![
        json(r#""1234567890""#),
        json(r#""0987654321""#),
    ];
    assert_eq!(pick_isbn(&isbns), Some("1234567890".to_string()));
}

#[test]
fn open_library_test_provider_metadata() {
    let provider = ProviderKind::OpenLibrary;
    assert_eq!(provider.name(), "open_library");
    assert_eq!(provider.priority(), 60);
    assert_eq!(provider.base_delay_ms(), 600);
}

#[test]
fn open_library_test_supported_search_types() {
    let provider = ProviderKind::OpenLibrary;
    let types = provider.supported_search_types();
    assert!(types.contains(&SearchType::Keywords));
    assert!(types.contains(&SearchType::Title));
    assert!(types.contains(&SearchType::Author));
    assert!(types.contains(&SearchType::Isbn));
    assert!(!types.contains(&SearchType::Doi));
}

#[test]
fn test_parse_doc_missing_title_defaults_to_unknown() {
    let doc = json(r#"{}"#);
    let paper = parse_doc(&doc);
    assert_eq!(paper.title, "Unknown");
}

#[test]
fn test_parse_isbn_result_missing_title_defaults_to_unknown() {
    let data = json(r#"{}"#);
    let paper = parse_isbn_result(&data);
    assert_eq!(paper.title, "Unknown");
}

#[test]
fn test_parse_isbn_result_publish_date_stored() {
    let data = json(r#"{
        "title": "Date Test",
        "publish_date": "March 2020"
    }"#);
    let paper = parse_isbn_result(&data);
    assert_eq!(paper.published_date, Some("March 2020".to_string()));
    assert_eq!(paper.year, Some(2020));
}
