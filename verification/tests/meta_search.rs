use research_hub::models::{Paper, SearchType, SortOrder};
use research_hub::provider::{create_all_providers, ProviderKind, ProviderResult};
use research_hub::search::{
    assemble_search, empty_search, january_first, normalize_dates, plan_search, sort_names,
    sort_papers, ProviderOutcome,
};

fn paper(title: &str, doi: Option<&str>, date: Option<&str>, cites: Option<i64>) -> Paper {
    Paper {
        title: title.into(),
        doi: doi.map(String::from),
        published_date: date.map(String::from),
        citation_count: cites,
        ..Default::default()
    }
}

#[test]
fn plan_for_doi_query_asks_doi_sources() {
    let kinds = create_all_providers();
    let plan = plan_search("10.1038/nature14539", &kinds, None, 10, 20);
    assert_eq!(plan.search_type, SearchType::Doi);
    assert!(plan.applicable.len() > 1);
    for &i in &plan.applicable {
        assert!(kinds[i].supports(SearchType::Doi));
    }
    assert_eq!(plan.provider_limit, 30);
    assert_eq!(plan.provider_offset, 0);
}

#[test]
fn plan_for_single_source_passes_window_through() {
    let kinds = vec![ProviderKind::HathiTrust, ProviderKind::SciHub];
    let plan = plan_search("9780262033848", &kinds, None, 5, 15);
    assert_eq!(plan.search_type, SearchType::Isbn);
    assert_eq!(plan.applicable, vec![0]);
    assert_eq!(plan.provider_limit, 5);
    assert_eq!(plan.provider_offset, 15);
}

#[test]
fn merged_search_dedups_dates_and_reports_sources() {
    let outcomes = vec![
        ProviderOutcome {
            name: "openalex".into(),
            result: Some(ProviderResult {
                papers: vec![
                    Paper { year: Some(2020), ..paper("Alpha", Some("10.1/A"), None, Some(5)) },
                    paper("Same Title", None, Some("2019-05-01"), Some(50)),
                ],
                total_hits: Some(100),
            }),
        },
        ProviderOutcome { name: "crossref".into(), result: None },
        ProviderOutcome {
            name: "arxiv".into(),
            result: Some(ProviderResult {
                papers: vec![
                    paper("Alpha again", Some("10.1/a"), None, None),
                    paper("  same   TITLE ", None, None, None),
                    paper("Gamma", Some("10.1/g"), Some("2021-01-01"), Some(7)),
                ],
                total_hits: Some(3),
            }),
        },
    ];
    let r = assemble_search("q", SearchType::Keywords, outcomes, false, 10, 0, SortOrder::Citations);
    let titles: Vec<&str> = r.papers.iter().map(|p| p.title.as_str()).collect();
    assert_eq!(titles, vec!["Same Title", "Gamma", "Alpha"]);
    assert_eq!(r.papers[2].published_date, Some("2020-01-01".into()));
    assert_eq!(r.total_results, 3);
    assert_eq!(r.total_hits, Some(103));
    assert_eq!(r.provider_hits.len(), 2);
    assert_eq!(r.providers_searched, vec!["arxiv".to_string(), "openalex".to_string()]);
    assert_eq!(r.providers_failed, vec!["crossref".to_string()]);
    assert_eq!(r.search_type, "KEYWORDS");
    assert_eq!(r.sort, "citations");
}

#[test]
fn merged_search_cuts_window() {
    let papers: Vec<Paper> = (0..6).map(|i| paper(&format!("Paper {i}"), None, None, None)).collect();
    let outcomes = vec![ProviderOutcome {
        name: "core".into(),
        result: Some(ProviderResult { papers, total_hits: None }),
    }];
    let r = assemble_search("q", SearchType::Title, outcomes, false, 2, 3, SortOrder::Relevance);
    let titles: Vec<&str> = r.papers.iter().map(|p| p.title.as_str()).collect();
    assert_eq!(titles, vec!["Paper 3", "Paper 4"]);
    assert_eq!(r.offset, 3);
    assert_eq!(r.total_hits, None);
}

#[test]
fn merged_search_results_never_share_a_doi() {
    let outcomes = vec![
        ProviderOutcome {
            name: "a".into(),
            result: Some(ProviderResult {
                papers: vec![paper("X", Some("10.9/DUP"), None, None), paper("Y", Some("10.9/dup"), None, None)],
                total_hits: None,
            }),
        },
        ProviderOutcome {
            name: "b".into(),
            result: Some(ProviderResult { papers: vec![paper("Z", Some("10.9/Dup"), None, None)], total_hits: None }),
        },
    ];
    let r = assemble_search("q", SearchType::Keywords, outcomes, false, 10, 0, SortOrder::Date);
    assert_eq!(r.papers.len(), 1);
    assert_eq!(r.papers[0].title, "X");
}

#[test]
fn search_nobody_could_take() {
    let r = empty_search("9780262033848", SearchType::Isbn, 0, SortOrder::Relevance);
    assert!(r.papers.is_empty());
    assert_eq!(r.total_results, 0);
    assert!(r.providers_searched.is_empty());
}

#[test]
fn sorting_orders() {
    let mut ps = vec![
        paper("old", None, Some("2001-01-01"), Some(3)),
        paper("none", None, None, None),
        paper("new", None, Some("2022-02-02"), Some(1)),
    ];
    sort_papers(&mut ps, SortOrder::Date);
    let t: Vec<&str> = ps.iter().map(|p| p.title.as_str()).collect();
    assert_eq!(t, vec!["new", "old", "none"]);
    sort_papers(&mut ps, SortOrder::DateAsc);
    let t: Vec<&str> = ps.iter().map(|p| p.title.as_str()).collect();
    assert_eq!(t, vec!["none", "old", "new"]);
    sort_papers(&mut ps, SortOrder::Citations);
    let t: Vec<&str> = ps.iter().map(|p| p.title.as_str()).collect();
    assert_eq!(t, vec!["old", "new", "none"]);
}

#[test]
fn dates_filled_from_years() {
    let mut ps = vec![
        Paper { year: Some(987), ..Default::default() },
        Paper { year: Some(2001), published_date: Some("2001-07".into()), ..Default::default() },
    ];
    normalize_dates(&mut ps);
    assert_eq!(ps[0].published_date, Some("0987-01-01".into()));
    assert_eq!(ps[1].published_date, Some("2001-07".into()));
    assert_eq!(january_first(2024), "2024-01-01");
}

#[test]
fn names_sorted() {
    let names = vec!["pubmed".to_string(), "arxiv".to_string(), "crossref".to_string()];
    assert_eq!(sort_names(names), vec!["arxiv".to_string(), "crossref".to_string(), "pubmed".to_string()]);
}
