use research_hub::json::{Json, JsonNumber};
use research_hub::provider::hathitrust::parse_catalog_entry;
use research_hub::provider::{ProviderKind, SearchType};

fn to_json(v: &serde_json::Value) -> Json {
    match v {
        serde_json::Value::Null => Json::Null,
        serde_json::Value::Bool(b) => Json::Bool(*b),
        serde_json::Value::Number(n) => {
            if let Some(u) = n.as_u64() {
                Json::Number(JsonNumber::PosInt(u))
            } else if let Some(i) = n.as_i64() {
                Json::Number(JsonNumber::NegInt(i))
            } else {
                Json::Number(JsonNumber::Float)
            }
        }
        serde_json::Value::String(s) => Json::Str(s.clone()),
        serde_json::Value::Array(a) => Json::Array(a.iter().map(to_json).collect()),
        serde_json::Value::Object(m) => {
            Json::Object(m.iter().map(|(k, v)| (k.clone(), to_json(v))).collect())
        }
    }
}

fn json(text: &str) -> Json {
    to_json(&serde_json::from_str::<serde_json::Value>(text).unwrap())
}

#[test]
fn test_parse_catalog_entry_full() {
    let record = json(r#"{
        "titles": ["Introduction to Algorithms"],
        "publishDates": ["2005"],
        "isbns": ["9780262033848"],
        "oclcs": ["12345678"],
        "lccns": ["2004056789"]
    }"#);
    let items = vec![json(r#"{
        "itemURL": "https://hdl.handle.net/2027/mdp.39015062301944"
    }"#)];
    let paper = parse_catalog_entry(&record, &items);
    assert_eq!(paper.title, "Introduction to Algorithms");
    assert_eq!(paper.year, Some(2005));
    assert_eq!(paper.published_date, Some("2005".to_string()));
    assert_eq!(paper.isbn, Some("9780262033848".to_string()));
    assert_eq!(paper.oclc, Some("12345678".to_string()));
    assert_eq!(paper.lccn, Some("2004056789".to_string()));
    assert_eq!(
        paper.url,
        Some("https://hdl.handle.net/2027/mdp.39015062301944".to_string())
    );
    assert_eq!(paper.source, "hathitrust");
    // Verify unset fields
    assert_eq!(paper.doi, None);
    assert_eq!(paper.pdf_url, None);
    assert_eq!(paper.journal, None);
    assert_eq!(paper.volume, None);
    assert_eq!(paper.issue, None);
    assert_eq!(paper.pages, None);
    assert_eq!(paper.citation_count, None);
    assert_eq!(paper.abstract_text, None);
    assert!(paper.authors.is_empty());
}

#[test]
fn test_parse_catalog_entry_minimal() {
    let record = json(r#"{}"#);
    let items: Vec<Json> = vec![];
    let paper = parse_catalog_entry(&record, &items);
    assert_eq!(paper.title, "Unknown");
    assert_eq!(paper.year, None);
    assert_eq!(paper.published_date, None);
    assert_eq!(paper.isbn, None);
    assert_eq!(paper.oclc, None);
    assert_eq!(paper.lccn, None);
    assert_eq!(paper.url, None);
    assert_eq!(paper.source, "hathitrust");
}

#[test]
fn test_parse_catalog_entry_no_items() {
    let record = json(r#"{
        "titles": ["A Book With No Items"]
    }"#);
    let items: Vec<Json> = vec![];
    let paper = parse_catalog_entry(&record, &items);
    assert_eq!(paper.title, "A Book With No Items");
    assert_eq!(paper.url, None);
}

#[test]
fn test_parse_catalog_entry_multiple_titles() {
    let record = json(r#"{
        "titles": ["First Title", "Second Title"]
    }"#);
    let items: Vec<Json> = vec![];
    let paper = parse_catalog_entry(&record, &items);
    assert_eq!(paper.title, "First Title");
}

#[test]
fn test_parse_catalog_entry_complex_publish_date() {
    let record = json(r#"{
        "titles": ["Date Test"],
        "publishDates": ["c2005."]
    }"#);
    let items: Vec<Json> = vec![];
    let paper = parse_catalog_entry(&record, &items);
    assert_eq!(paper.year, Some(2005));
    assert_eq!(paper.published_date, Some("c2005.".to_string()));
}

#[test]
fn hathitrust_test_provider_metadata() {
    let provider = ProviderKind::HathiTrust;
    assert_eq!(provider.name(), "hathitrust");
    assert_eq!(provider.priority(), 40);
    assert_eq!(provider.base_delay_ms(), 500);
}

#[test]
fn hathitrust_test_supported_search_types() {
    let provider = ProviderKind::HathiTrust;
    let types = provider.supported_search_types();
    assert!(types.contains(&SearchType::Isbn));
    assert!(!types.contains(&SearchType::Doi));
    assert!(!types.contains(&SearchType::Keywords));
    assert!(!types.contains(&SearchType::Author));
    assert!(!types.contains(&SearchType::Title));
}

#[test]
fn hathitrust_test_base_url_default() {
    let provider = ProviderKind::HathiTrust;
    assert_eq!(
        provider.base_url(None),
        "https://catalog.hathitrust.org/api/volumes/brief"
    );
}

#[test]
fn hathitrust_test_base_url_override() {
    let provider = ProviderKind::HathiTrust;
    assert_eq!(provider.base_url(Some("http://localhost:8080")), "http://localhost:8080");
}
