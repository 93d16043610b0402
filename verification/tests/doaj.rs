use research_hub::json::{Json, JsonNumber};
use research_hub::provider::doaj::{build_query, encode_path_segment, parse_article};
use research_hub::provider::{ProviderKind, SearchType};

fn to_json(v: &serde_json::Value) -> Json {
    match v {
        serde_json::Value::Null => Json::Null,
        serde_json::Value::Bool(b) => Json::Bool(*b),
        serde_json::Value::Number(n) => {
            if let Some(u) = n.as_u64() {
                Json::Number(JsonNumber::PosInt(u))
            } else if let Some(i) = n.as_i64() {
                Json::Number(JsonNumber::NegInt(i))
            } else {
                Json::Number(JsonNumber::Float)
            }
        }
        serde_json::Value::String(s) => Json::Str(s.clone()),
        serde_json::Value::Array(a) => Json::Array(a.iter().map(to_json).collect()),
        serde_json::Value::Object(m) => {
            Json::Object(m.iter().map(|(k, v)| (k.clone(), to_json(v))).collect())
        }
    }
}

fn json(text: &str) -> Json {
    to_json(&serde_json::from_str::<serde_json::Value>(text).unwrap())
}

#[test]
fn test_parse_article_full() {
    let article = json(r#"{
        "bibjson": {
            "title": "Open Access and Machine Learning",
            "author": [
                {"name": "Alice Smith"},
                {"name": "Bob Jones"}
            ],
            "abstract": "This paper explores open access publishing.",
            "identifier": [
                {"type": "doi", "id": "10.1234/doaj.5678"},
                {"type": "eissn", "id": "1234-5678"}
            ],
            "journal": {
                "title": "Journal of Open Science",
                "volume": "12",
                "number": "3",
                "publisher": "Open Access Publishers"
            },
            "start_page": "100",
            "end_page": "115",
            "year": "2023",
            "month": "6",
            "link": [
                {"url": "https://example.com/article/123"}
            ]
        }
    }"#);

    let paper = parse_article(&article);
    assert_eq!(paper.title, "Open Access and Machine Learning");
    assert_eq!(paper.authors, vec!["Alice Smith", "Bob Jones"]);
    assert_eq!(
        paper.abstract_text,
        Some("This paper explores open access publishing.".to_string())
    );
    assert_eq!(paper.doi, Some("10.1234/doaj.5678".to_string()));
    assert_eq!(paper.issn, Some("1234-5678".to_string()));
    assert_eq!(paper.journal, Some("Journal of Open Science".to_string()));
    assert_eq!(paper.volume, Some("12".to_string()));
    assert_eq!(paper.issue, Some("3".to_string()));
    assert_eq!(paper.publisher, Some("Open Access Publishers".to_string()));
    assert_eq!(paper.pages, Some("100-115".to_string()));
    assert_eq!(paper.year, Some(2023));
    assert_eq!(paper.published_date, Some("2023-06-01".to_string()));
    assert_eq!(paper.url, Some("https://example.com/article/123".to_string()));
    assert_eq!(paper.source, "doaj");
    assert_eq!(paper.work_type, Some("journal-article".to_string()));
    assert!(paper.pdf_url.is_none());
}

#[test]
fn test_parse_article_minimal() {
    let article = json(r#"{
        "bibjson": {
            "title": "A Minimal Article"
        }
    }"#);

    let paper = parse_article(&article);
    assert_eq!(paper.title, "A Minimal Article");
    assert!(paper.authors.is_empty());
    assert!(paper.doi.is_none());
    assert!(paper.abstract_text.is_none());
    assert_eq!(paper.source, "doaj");
    assert_eq!(paper.work_type, Some("journal-article".to_string()));
}

#[test]
fn test_parse_article_doi_extraction() {
    let article = json(r#"{
        "bibjson": {
            "title": "DOI Test",
            "identifier": [
                {"type": "eissn", "id": "9999-0000"},
                {"type": "doi", "id": "10.5555/test.doi"}
            ]
        }
    }"#);

    let paper = parse_article(&article);
    assert_eq!(paper.doi, Some("10.5555/test.doi".to_string()));
    assert_eq!(paper.issn, Some("9999-0000".to_string()));
}

#[test]
fn test_parse_article_doi_strip_url_prefix() {
    let article = json(r#"{
        "bibjson": {
            "title": "DOI URL Prefix Test",
            "identifier": [
                {"type": "doi", "id": "https://doi.org/10.1234/test"}
            ]
        }
    }"#);

    let paper = parse_article(&article);
    assert_eq!(paper.doi, Some("10.1234/test".to_string()));
}

#[test]
fn test_parse_article_pages_both() {
    let article = json(r#"{
        "bibjson": {
            "title": "Pages Test",
            "start_page": "42",
            "end_page": "55"
        }
    }"#);

    let paper = parse_article(&article);
    assert_eq!(paper.pages, Some("42-55".to_string()));
}

#[test]
fn test_parse_article_pages_start_only() {
    let article = json(r#"{
        "bibjson": {
            "title": "Start Page Only",
            "start_page": "42"
        }
    }"#);

    let paper = parse_article(&article);
    assert_eq!(paper.pages, Some("42".to_string()));
}

#[test]
fn test_parse_article_no_pages() {
    let article = json(r#"{
        "bibjson": {
            "title": "No Pages"
        }
    }"#);

    let paper = parse_article(&article);
    assert!(paper.pages.is_none());
}

#[test]
fn test_parse_article_published_date_year_and_month() {
    let article = json(r#"{
        "bibjson": {
            "title": "Date Test",
            "year": "2023",
            "month": "6"
        }
    }"#);

    let paper = parse_article(&article);
    assert_eq!(paper.year, Some(2023));
    assert_eq!(paper.published_date, Some("2023-06-01".to_string()));
}

#[test]
fn test_parse_article_published_date_year_only() {
    let article = json(r#"{
        "bibjson": {
            "title": "Year Only Test",
            "year": "2023"
        }
    }"#);

    let paper = parse_article(&article);
    assert_eq!(paper.year, Some(2023));
    assert_eq!(paper.published_date, Some("2023-01-01".to_string()));
}

#[test]
fn test_parse_article_url_fallback_to_doi() {
    let article = json(r#"{
        "bibjson": {
            "title": "URL Fallback",
            "identifier": [
                {"type": "doi", "id": "10.1234/fallback"}
            ]
        }
    }"#);

    let paper = parse_article(&article);
    assert_eq!(paper.url, Some("https://doi.org/10.1234/fallback".to_string()));
}

// --- build_query tests ---

#[test]
fn test_build_query_keywords() {
    let q = build_query("machine learning", SearchType::Keywords);
    assert_eq!(q, "machine learning");
}

#[test]
fn test_build_query_title() {
    let q = build_query("attention is all you need", SearchType::Title);
    assert_eq!(q, "title:attention is all you need");
}

#[test]
fn test_build_query_author() {
    let q = build_query("Einstein", SearchType::Author);
    assert_eq!(q, "author:Einstein");
}

#[test]
fn test_build_query_doi() {
    let q = build_query("https://doi.org/10.1234/test", SearchType::Doi);
    assert_eq!(q, "doi:10.1234/test");
}

#[test]
fn test_build_query_doi_without_prefix() {
    let q = build_query("10.1234/test", SearchType::Doi);
    assert_eq!(q, "doi:10.1234/test");
}

#[test]
fn test_build_query_doi_http_prefix() {
    let q = build_query("http://doi.org/10.1234/test", SearchType::Doi);
    assert_eq!(q, "doi:10.1234/test");
}

#[test]
fn test_parse_article_doi_strip_http_url_prefix() {
    let article = json(r#"{
        "bibjson": {
            "title": "DOI HTTP Prefix Test",
            "identifier": [
                {"type": "doi", "id": "http://doi.org/10.1234/http-test"}
            ]
        }
    }"#);

    let paper = parse_article(&article);
    assert_eq!(paper.doi, Some("10.1234/http-test".to_string()));
}

// --- provider metadata tests ---

#[test]
fn doaj_test_provider_metadata() {
    let provider = ProviderKind::Doaj;
    assert_eq!(provider.name(), "doaj");
    assert_eq!(provider.priority(), 45);
    assert_eq!(provider.base_delay_ms(), 500);
}

#[test]
fn doaj_test_supported_search_types() {
    let provider = ProviderKind::Doaj;
    let types = provider.supported_search_types();
    assert!(types.contains(&SearchType::Keywords));
    assert!(types.contains(&SearchType::Title));
    assert!(types.contains(&SearchType::Author));
    assert!(types.contains(&SearchType::Doi));
    assert!(!types.contains(&SearchType::Isbn));
}

// --- URL encoding tests ---

#[test]
fn test_url_encoding_special_chars() {
    let query = "machine learning? or #deep";
    let encoded = encode_path_segment(query);
    assert!(!encoded.contains(' '));
    assert!(!encoded.contains('?'));
    assert!(!encoded.contains('#'));
    assert!(encoded.contains("%20")); // space
    assert!(encoded.contains("%3F")); // ?
    assert!(encoded.contains("%23")); // #
}

#[test]
fn test_url_encoding_preserves_alphanumeric() {
    let query = "transformers2024";
    let encoded = encode_path_segment(query);
    assert_eq!(encoded, "transformers2024");
}

#[test]
fn test_url_encoding_preserves_colons_and_slashes() {
    // Colons and slashes are valid in path segments and used in DOAJ query syntax
    let query = "doi:10.1234/test";
    let encoded = encode_path_segment(query);
    assert_eq!(encoded, "doi:10.1234/test");
}
