use research_hub::json::{Json, JsonNumber};
use research_hub::provider::crossref::{contributor_name, parse_item};

fn to_json(v: &serde_json::Value) -> Json {
    match v {
        serde_json::Value::Null => Json::Null,
        serde_json::Value::Bool(b) => Json::Bool(*b),
        serde_json::Value::Number(n) => {
            if let Some(u) = n.as_u64() {
                Json::Number(JsonNumber::PosInt(u))
            } else if let Some(i) = n.as_i64() {
                Json::Number(JsonNumber::NegInt(i))
            } else {
                Json::Number(JsonNumber::Float)
            }
        }
        serde_json::Value::String(s) => Json::Str(s.clone()),
        serde_json::Value::Array(a) => Json::Array(a.iter().map(to_json).collect()),
        serde_json::Value::Object(m) => {
            Json::Object(m.iter().map(|(k, v)| (k.clone(), to_json(v))).collect())
        }
    }
}

fn json(text: &str) -> Json {
    to_json(&serde_json::from_str::<serde_json::Value>(text).unwrap())
}

#[test]
fn test_parse_item_book_chapter_single_container_title() {
    let item = json(r#"{
        "type": "book-chapter",
        "title": ["A Chapter on Transformers"],
        "author": [{"given": "Jane", "family": "Doe"}],
        "DOI": "10.1007/978-3-030-12345-6_1",
        "container-title": ["Lecture Notes in Computer Science"],
        "publisher": "Springer",
        "ISBN": ["978-3-030-12345-6"],
        "published-print": {"date-parts": [[2023, 6, 15]]}
    }"#);
    let paper = parse_item(&item);
    assert_eq!(paper.work_type.as_deref(), Some("book-chapter"));
    // Single container-title for a book-chapter should go to series, not journal
    assert_eq!(paper.series.as_deref(), Some("Lecture Notes in Computer Science"));
    assert!(paper.journal.is_none(), "journal should be None for book-chapter with single container-title");
}

#[test]
fn test_parse_item_book_chapter_two_container_titles() {
    let item = json(r#"{
        "type": "book-chapter",
        "title": ["A Chapter"],
        "author": [{"given": "John", "family": "Smith"}],
        "DOI": "10.1007/978-3-030-99999-9_2",
        "container-title": ["Advances in Neural Information Processing", "LNCS"],
        "publisher": "Springer",
        "published-print": {"date-parts": [[2022]]}
    }"#);
    let paper = parse_item(&item);
    assert_eq!(paper.journal.as_deref(), Some("Advances in Neural Information Processing"));
    assert_eq!(paper.series.as_deref(), Some("LNCS"));
}

#[test]
fn test_parse_item_monograph_single_container_title() {
    let item = json(r#"{
        "type": "monograph",
        "title": ["Some Monograph"],
        "author": [],
        "DOI": "10.1234/mono.001",
        "container-title": ["Series of Important Monographs"]
    }"#);
    let paper = parse_item(&item);
    assert_eq!(paper.series.as_deref(), Some("Series of Important Monographs"));
    assert!(paper.journal.is_none());
}

#[test]
fn test_parse_item_journal_article_no_swap() {
    let item = json(r#"{
        "type": "journal-article",
        "title": ["Attention Is All You Need"],
        "author": [{"given": "Ashish", "family": "Vaswani"}],
        "DOI": "10.5555/3295222.3295349",
        "container-title": ["Advances in Neural Information Processing Systems"],
        "published-print": {"date-parts": [[2017]]}
    }"#);
    let paper = parse_item(&item);
    assert_eq!(paper.journal.as_deref(), Some("Advances in Neural Information Processing Systems"));
    assert!(paper.series.is_none());
}

#[test]
fn test_parse_item_no_work_type_no_swap() {
    let item = json(r#"{
        "title": ["Some Paper"],
        "author": [],
        "DOI": "10.1234/notype",
        "container-title": ["Some Journal"]
    }"#);
    let paper = parse_item(&item);
    assert_eq!(paper.journal.as_deref(), Some("Some Journal"));
    assert!(paper.series.is_none());
}

#[test]
fn test_parse_item_book_single_container_title() {
    let item = json(r#"{
        "type": "book",
        "title": ["My Book"],
        "author": [{"given": "Alice", "family": "Writer"}],
        "DOI": "10.1234/book.001",
        "container-title": ["Oxford Studies in Philosophy"]
    }"#);
    let paper = parse_item(&item);
    assert_eq!(paper.series.as_deref(), Some("Oxford Studies in Philosophy"));
    assert!(paper.journal.is_none());
}

#[test]
fn test_parse_item_book_chapter_no_container_title() {
    let item = json(r#"{
        "type": "book-chapter",
        "title": ["Standalone Chapter"],
        "author": [],
        "DOI": "10.1234/standalone"
    }"#);
    let paper = parse_item(&item);
    assert!(paper.journal.is_none());
    assert!(paper.series.is_none());
}

#[test]
fn test_contributor_name_given_and_family() {
    let person = json(r#"{"given": "Jane", "family": "Doe"}"#);
    assert_eq!(contributor_name(&person), Some("Jane Doe".into()));
}

#[test]
fn test_contributor_name_family_only() {
    let person = json(r#"{"family": "Doe"}"#);
    assert_eq!(contributor_name(&person), Some("Doe".into()));
}

#[test]
fn test_contributor_name_given_only() {
    let person = json(r#"{"given": "Jane"}"#);
    assert_eq!(contributor_name(&person), Some("Jane".into()));
}

#[test]
fn test_contributor_name_both_empty() {
    let person = json(r#"{"given": "", "family": ""}"#);
    assert_eq!(contributor_name(&person), None);
}

#[test]
fn test_contributor_name_missing_fields() {
    let person = json(r#"{}"#);
    assert_eq!(contributor_name(&person), None);
}

#[test]
fn test_contributor_name_whitespace_only() {
    let person = json(r#"{"given": "  ", "family": "  "}"#);
    assert_eq!(contributor_name(&person), None);
}
