use research_hub::json::{Json, JsonNumber};
use research_hub::provider::base_search::{extract_doi, flex_first_string, flex_string_or_array, parse_record};
use research_hub::provider::{ProviderKind, SearchType};

fn to_json(v: &serde_json::Value) -> Json {
    match v {
        serde_json::Value::Null => Json::Null,
        serde_json::Value::Bool(b) => Json::Bool(*b),
        serde_json::Value::Number(n) => {
            if let Some(u) = n.as_u64() {
                Json::Number(JsonNumber::PosInt(u))
            } else if let Some(i) = n.as_i64() {
                Json::Number(JsonNumber::NegInt(i))
            } else {
                Json::Number(JsonNumber::Float)
            }
        }
        serde_json::Value::String(s) => Json::Str(s.clone()),
        serde_json::Value::Array(a) => Json::Array(a.iter().map(to_json).collect()),
        serde_json::Value::Object(m) => {
            Json::Object(m.iter().map(|(k, v)| (k.clone(), to_json(v))).collect())
        }
    }
}

fn json(text: &str) -> Json {
    to_json(&serde_json::from_str::<serde_json::Value>(text).unwrap())
}

#[test]
fn test_flex_string_or_array_none() {
    assert_eq!(flex_string_or_array(None), Vec::<String>::new());
}

#[test]
fn test_flex_string_or_array_string() {
    let v = json(r#""hello""#);
    assert_eq!(flex_string_or_array(Some(&v)), vec!["hello"]);
}

#[test]
fn test_flex_string_or_array_array() {
    let v = json(r#"["a", "b"]"#);
    assert_eq!(flex_string_or_array(Some(&v)), vec!["a", "b"]);
}

#[test]
fn test_flex_string_or_array_empty_array() {
    let v = json(r#"[]"#);
    assert_eq!(flex_string_or_array(Some(&v)), Vec::<String>::new());
}

#[test]
fn test_flex_string_or_array_number_ignored() {
    let v = json(r#"42"#);
    assert_eq!(flex_string_or_array(Some(&v)), Vec::<String>::new());
}

#[test]
fn test_flex_string_or_array_mixed_array() {
    let v = json(r#"["a", 42, "b"]"#);
    assert_eq!(flex_string_or_array(Some(&v)), vec!["a", "b"]);
}

// ---- flex_first_string tests ----

#[test]
fn test_flex_first_string_none() {
    assert_eq!(flex_first_string(None), None);
}

#[test]
fn test_flex_first_string_string() {
    let v = json(r#""hello""#);
    assert_eq!(flex_first_string(Some(&v)), Some("hello".to_string()));
}

#[test]
fn test_flex_first_string_array() {
    let v = json(r#"["first", "second"]"#);
    assert_eq!(flex_first_string(Some(&v)), Some("first".to_string()));
}

#[test]
fn test_flex_first_string_empty_array() {
    let v = json(r#"[]"#);
    assert_eq!(flex_first_string(Some(&v)), None);
}

// ---- extract_doi tests ----

#[test]
fn test_extract_doi_bare() {
    let ids = vec!["10.1234/test.5678".to_string()];
    assert_eq!(extract_doi(&ids), Some("10.1234/test.5678".to_string()));
}

#[test]
fn test_extract_doi_with_url_prefix() {
    let ids = vec!["https://doi.org/10.1234/test".to_string()];
    assert_eq!(extract_doi(&ids), Some("10.1234/test".to_string()));
}

#[test]
fn test_extract_doi_http_prefix() {
    let ids = vec!["http://doi.org/10.1234/test".to_string()];
    assert_eq!(extract_doi(&ids), Some("10.1234/test".to_string()));
}

#[test]
fn test_extract_doi_not_found() {
    let ids = vec![
        "https://example.com/paper".to_string(),
        "urn:nbn:de:123".to_string(),
    ];
    assert_eq!(extract_doi(&ids), None);
}

#[test]
fn test_extract_doi_multiple_picks_first() {
    let ids = vec![
        "https://example.com".to_string(),
        "10.1234/first".to_string(),
        "10.5678/second".to_string(),
    ];
    assert_eq!(extract_doi(&ids), Some("10.1234/first".to_string()));
}

#[test]
fn test_extract_doi_empty() {
    let ids: Vec<String> = vec![];
    assert_eq!(extract_doi(&ids), None);
}

// ---- parse_record tests ----

#[test]
fn test_parse_record_full() {
    let doc = json(r#"{
        "dctitle": ["Machine Learning for NLP"],
        "dcauthor": ["Smith, John", "Doe, Jane"],
        "dcyear": 2023,
        "dcidentifier": ["https://doi.org/10.1234/ml.nlp", "oai:repo:12345"],
        "dcdescription": ["This paper explores ML for NLP tasks."],
        "dcpublisher": ["Springer"],
        "dctype": ["article"],
        "dclink": "https://example.com/paper/12345"
    }"#);
    let paper = parse_record(&doc);
    assert_eq!(paper.title, "Machine Learning for NLP");
    assert_eq!(paper.authors, vec!["Smith, John", "Doe, Jane"]);
    assert_eq!(paper.year, Some(2023));
    assert_eq!(paper.doi, Some("10.1234/ml.nlp".to_string()));
    assert_eq!(
        paper.abstract_text,
        Some("This paper explores ML for NLP tasks.".to_string())
    );
    assert_eq!(paper.publisher, Some("Springer".to_string()));
    assert_eq!(paper.work_type, Some("article".to_string()));
    assert_eq!(
        paper.url,
        Some("https://example.com/paper/12345".to_string())
    );
    assert_eq!(paper.source, "base");
    assert_eq!(paper.published_date, Some("2023-01-01".to_string()));
    // Fields that should be None/default
    assert_eq!(paper.pdf_url, None);
    assert_eq!(paper.journal, None);
    assert_eq!(paper.volume, None);
    assert_eq!(paper.issue, None);
    assert_eq!(paper.pages, None);
    assert_eq!(paper.citation_count, None);
    assert_eq!(paper.isbn, None);
    assert_eq!(paper.issn, None);
    assert_eq!(paper.arxiv_id, None);
    assert!(paper.editors.is_empty());
    assert_eq!(paper.series, None);
    assert_eq!(paper.oclc, None);
    assert_eq!(paper.lccn, None);
}

#[test]
fn test_parse_record_string_fields() {
    let doc = json(r#"{
        "dctitle": "A Single Title",
        "dcauthor": "Solo Author",
        "dcyear": "2020"
    }"#);
    let paper = parse_record(&doc);
    assert_eq!(paper.title, "A Single Title");
    assert_eq!(paper.authors, vec!["Solo Author"]);
    assert_eq!(paper.year, Some(2020));
}

#[test]
fn test_parse_record_minimal() {
    let doc = json(r#"{
        "dctitle": "Just a Title"
    }"#);
    let paper = parse_record(&doc);
    assert_eq!(paper.title, "Just a Title");
    assert!(paper.authors.is_empty());
    assert_eq!(paper.year, None);
    assert_eq!(paper.published_date, None);
    assert_eq!(paper.doi, None);
    assert_eq!(paper.abstract_text, None);
    assert_eq!(paper.publisher, None);
    assert_eq!(paper.work_type, None);
    assert_eq!(paper.url, None);
    assert_eq!(paper.source, "base");
}

#[test]
fn test_parse_record_no_title() {
    let doc = json(r#"{}"#);
    let paper = parse_record(&doc);
    assert_eq!(paper.title, "Unknown");
}

#[test]
fn test_parse_record_no_doi_in_identifiers() {
    let doc = json(r#"{
        "dctitle": "Test",
        "dcidentifier": ["oai:repo:12345", "urn:nbn:de:999"]
    }"#);
    let paper = parse_record(&doc);
    assert_eq!(paper.doi, None);
}

#[test]
fn test_parse_record_year_as_string() {
    let doc = json(r#"{
        "dctitle": "Test",
        "dcyear": "2019"
    }"#);
    let paper = parse_record(&doc);
    assert_eq!(paper.year, Some(2019));
    assert_eq!(paper.published_date, Some("2019-01-01".to_string()));
}

#[test]
fn test_parse_record_year_as_number() {
    let doc = json(r#"{
        "dctitle": "Test",
        "dcyear": 2019
    }"#);
    let paper = parse_record(&doc);
    assert_eq!(paper.year, Some(2019));
    assert_eq!(paper.published_date, Some("2019-01-01".to_string()));
}

#[test]
fn test_parse_record_empty_description_filtered() {
    let doc = json(r#"{
        "dctitle": "Test",
        "dcdescription": [""]
    }"#);
    let paper = parse_record(&doc);
    assert_eq!(paper.abstract_text, None);
}

// ---- provider metadata tests ----

#[test]
fn base_search_test_provider_metadata() {
    let provider = ProviderKind::Base;
    assert_eq!(provider.name(), "base");
    assert_eq!(provider.priority(), 50);
    assert_eq!(provider.base_delay_ms(), 1000);
}

#[test]
fn base_search_test_supported_search_types() {
    let provider = ProviderKind::Base;
    let types = provider.supported_search_types();
    assert!(types.contains(&SearchType::Keywords));
    assert!(types.contains(&SearchType::Title));
    assert!(types.contains(&SearchType::Author));
    assert!(!types.contains(&SearchType::Doi));
    assert!(!types.contains(&SearchType::Isbn));
}

#[test]
fn base_search_test_base_url_default() {
    let provider = ProviderKind::Base;
    assert_eq!(provider.base_url(None), "https://api.base-search.net");
}

#[test]
fn base_search_test_base_url_override() {
    let provider = ProviderKind::Base;
    assert_eq!(provider.base_url(Some("http://localhost:8080")), "http://localhost:8080");
}

// ---- search early-return tests ----
