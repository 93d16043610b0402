use research_hub::json::{Json, JsonNumber};
use research_hub::provider::zenodo::{build_query, parse_record};
use research_hub::provider::{ProviderKind, SearchType};

fn to_json(v: &serde_json::Value) -> Json {
    match v {
        serde_json::Value::Null => Json::Null,
        serde_json::Value::Bool(b) => Json::Bool(*b),
        serde_json::Value::Number(n) => {
            if let Some(u) = n.as_u64() {
                Json::Number(JsonNumber::PosInt(u))
            } else if let Some(i) = n.as_i64() {
                Json::Number(JsonNumber::NegInt(i))
            } else {
                Json::Number(JsonNumber::Float)
            }
        }
        serde_json::Value::String(s) => Json::Str(s.clone()),
        serde_json::Value::Array(a) => Json::Array(a.iter().map(to_json).collect()),
        serde_json::Value::Object(m) => {
            Json::Object(m.iter().map(|(k, v)| (k.clone(), to_json(v))).collect())
        }
    }
}

fn json(text: &str) -> Json {
    to_json(&serde_json::from_str::<serde_json::Value>(text).unwrap())
}

#[test]
fn test_parse_record_full_data() {
    let record = json(r#"{
        "metadata": {
            "title": "Machine Learning for Climate Science",
            "creators": [
                {"name": "Smith, John"},
                {"name": "Doe, Jane"}
            ],
            "doi": "10.5281/zenodo.1234567",
            "publication_date": "2024-03-15",
            "description": "<p>This paper explores <b>ML</b> techniques.</p>",
            "journal": {
                "title": "Nature Climate Change",
                "volume": "14",
                "issue": "3",
                "pages": "201-215"
            },
            "resource_type": {
                "type": "publication"
            },
            "imprint": {
                "isbn": "978-3-16-148410-0",
                "publisher": "Zenodo Press"
            }
        },
        "doi": "10.5281/zenodo.1234567",
        "files": [
            {
                "key": "paper.pdf",
                "links": {
                    "self": "https://zenodo.org/api/files/bucket-id/paper.pdf"
                }
            }
        ],
        "links": {
            "html": "https://zenodo.org/records/1234567"
        }
    }"#);

    let paper = parse_record(&record).expect("should parse full record");
    assert_eq!(paper.title, "Machine Learning for Climate Science");
    assert_eq!(paper.authors, vec!["Smith, John", "Doe, Jane"]);
    assert_eq!(paper.doi, Some("10.5281/zenodo.1234567".to_string()));
    assert_eq!(paper.year, Some(2024));
    assert_eq!(paper.published_date, Some("2024-03-15".to_string()));
    assert!(paper.abstract_text.as_ref().unwrap().contains("ML techniques"));
    assert!(!paper.abstract_text.as_ref().unwrap().contains("<p>")); // HTML stripped
    assert_eq!(paper.journal, Some("Nature Climate Change".to_string()));
    assert_eq!(paper.volume, Some("14".to_string()));
    assert_eq!(paper.issue, Some("3".to_string()));
    assert_eq!(paper.pages, Some("201-215".to_string()));
    assert_eq!(paper.work_type, Some("publication".to_string()));
    assert_eq!(paper.isbn, Some("978-3-16-148410-0".to_string()));
    assert_eq!(paper.publisher, Some("Zenodo Press".to_string()));
    assert_eq!(
        paper.pdf_url,
        Some("https://zenodo.org/api/files/bucket-id/paper.pdf".to_string())
    );
    assert_eq!(paper.source, "zenodo");
}

#[test]
fn test_parse_record_minimal_data() {
    let record = json(r#"{
        "metadata": {
            "title": "A Brief Note",
            "creators": [{"name": "Anonymous"}]
        }
    }"#);

    let paper = parse_record(&record).expect("should parse minimal record");
    assert_eq!(paper.title, "A Brief Note");
    assert_eq!(paper.authors, vec!["Anonymous"]);
    assert_eq!(paper.doi, None);
    assert_eq!(paper.year, None);
    assert_eq!(paper.pdf_url, None);
    assert_eq!(paper.source, "zenodo");
}

#[test]
fn test_parse_record_missing_title() {
    let record = json(r#"{
        "metadata": {
            "creators": [{"name": "Smith, John"}]
        }
    }"#);
    assert!(parse_record(&record).is_none());
}

#[test]
fn test_parse_record_year_only_date() {
    let record = json(r#"{
        "metadata": {
            "title": "Year Only",
            "creators": [],
            "publication_date": "2023"
        }
    }"#);
    let paper = parse_record(&record).unwrap();
    assert_eq!(paper.year, Some(2023));
    assert_eq!(paper.published_date, Some("2023".to_string()));
}

#[test]
fn test_query_construction_keywords() {
    let q = build_query("machine learning", &SearchType::Keywords);
    assert_eq!(q, "machine learning");
}

#[test]
fn test_query_construction_title() {
    let q = build_query("attention is all you need", &SearchType::Title);
    assert_eq!(q, "title:\"attention is all you need\"");
}

#[test]
fn test_query_construction_author() {
    let q = build_query("Einstein", &SearchType::Author);
    assert_eq!(q, "creators.name:\"Einstein\"");
}

#[test]
fn test_query_construction_doi() {
    // With URL prefix
    let q = build_query("https://doi.org/10.5281/zenodo.123", &SearchType::Doi);
    assert_eq!(q, "doi:\"10.5281/zenodo.123\"");

    // Without prefix
    let q = build_query("10.5281/zenodo.123", &SearchType::Doi);
    assert_eq!(q, "doi:\"10.5281/zenodo.123\"");
}

#[test]
fn zenodo_test_supported_search_types() {
    let provider = ProviderKind::Zenodo;
    let types = provider.supported_search_types();
    assert!(types.contains(&SearchType::Keywords));
    assert!(types.contains(&SearchType::Title));
    assert!(types.contains(&SearchType::Author));
    assert!(types.contains(&SearchType::Doi));
    assert!(!types.contains(&SearchType::Isbn));
}

#[test]
fn zenodo_test_provider_metadata() {
    let provider = ProviderKind::Zenodo;
    assert_eq!(provider.name(), "zenodo");
    assert_eq!(provider.priority(), 50);
    assert_eq!(provider.base_delay_ms(), 200);
}

#[test]
fn test_parse_record_pdf_from_files() {
    let record = json(r#"{
        "metadata": {
            "title": "Multi-file Record",
            "creators": [{"name": "Test Author"}]
        },
        "files": [
            {
                "key": "data.csv",
                "links": {"self": "https://zenodo.org/api/files/bucket/data.csv"}
            },
            {
                "key": "manuscript.pdf",
                "links": {"self": "https://zenodo.org/api/files/bucket/manuscript.pdf"}
            }
        ]
    }"#);
    let paper = parse_record(&record).unwrap();
    assert_eq!(
        paper.pdf_url,
        Some("https://zenodo.org/api/files/bucket/manuscript.pdf".to_string())
    );
}

#[test]
fn test_parse_record_html_description() {
    let record = json(r#"{
        "metadata": {
            "title": "HTML Test",
            "creators": [],
            "description": "<p>First paragraph.</p><p>Second <em>emphasized</em> paragraph.</p>"
        }
    }"#);
    let paper = parse_record(&record).unwrap();
    let abs = paper.abstract_text.unwrap();
    assert!(abs.contains("First paragraph."));
    assert!(abs.contains("Second emphasized paragraph."));
    assert!(!abs.contains("<p>"));
    assert!(!abs.contains("<em>"));
}
