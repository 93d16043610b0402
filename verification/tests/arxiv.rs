use research_hub::models::Paper;
use research_hub::provider::arxiv::parse_feed;

/// Parses a feed and returns the paper of its first entry.
fn parse_entry_from_xml(xml: &str) -> Paper {
    let result = parse_feed(xml, 10).expect("valid XML");
    result.papers.into_iter().next().expect("expected <entry> element")
}

#[test]
fn test_parse_entry_preprint_without_journal_ref() {
    let xml = r#"
    <feed xmlns="http://www.w3.org/2005/Atom"
          xmlns:arxiv="http://arxiv.org/schemas/atom">
      <entry>
        <title>Some Preprint Title</title>
        <id>http://arxiv.org/abs/2301.00001v1</id>
        <published>2023-01-01T00:00:00Z</published>
        <summary>Abstract text</summary>
        <author><name>Alice Author</name></author>
        <link rel="alternate" href="http://arxiv.org/abs/2301.00001v1"/>
        <link type="application/pdf" href="http://arxiv.org/pdf/2301.00001v1"/>
      </entry>
    </feed>
    "#;
    let paper = parse_entry_from_xml(xml);
    assert_eq!(paper.title, "Some Preprint Title");
    assert_eq!(paper.work_type, Some("preprint".into()));
    assert!(paper.journal.is_none());
}

#[test]
fn test_parse_entry_journal_article_with_journal_ref() {
    let xml = r#"
    <feed xmlns="http://www.w3.org/2005/Atom"
          xmlns:arxiv="http://arxiv.org/schemas/atom">
      <entry>
        <title>Published Paper Title</title>
        <id>http://arxiv.org/abs/1706.03762v5</id>
        <published>2017-06-12T00:00:00Z</published>
        <summary>This paper introduces the Transformer.</summary>
        <author><name>Ashish Vaswani</name></author>
        <link rel="alternate" href="http://arxiv.org/abs/1706.03762v5"/>
        <link type="application/pdf" href="http://arxiv.org/pdf/1706.03762v5"/>
        <arxiv:journal_ref>Advances in Neural Information Processing Systems 30, 2017</arxiv:journal_ref>
      </entry>
    </feed>
    "#;
    let paper = parse_entry_from_xml(xml);
    assert_eq!(paper.title, "Published Paper Title");
    assert_eq!(
        paper.journal,
        Some("Advances in Neural Information Processing Systems 30, 2017".into())
    );
    assert_eq!(paper.work_type, Some("journal-article".into()));
}

#[test]
fn test_parse_entry_journal_ref_with_doi() {
    let xml = r#"
    <feed xmlns="http://www.w3.org/2005/Atom"
          xmlns:arxiv="http://arxiv.org/schemas/atom">
      <entry>
        <title>Paper With DOI and Journal</title>
        <id>http://arxiv.org/abs/2001.12345v2</id>
        <published>2020-01-15T00:00:00Z</published>
        <summary>Abstract</summary>
        <author><name>Bob Researcher</name></author>
        <link rel="alternate" href="http://arxiv.org/abs/2001.12345v2"/>
        <arxiv:doi>10.1234/example.2020</arxiv:doi>
        <arxiv:journal_ref>Nature 580, 123-128 (2020)</arxiv:journal_ref>
      </entry>
    </feed>
    "#;
    let paper = parse_entry_from_xml(xml);
    assert_eq!(paper.doi, Some("10.1234/example.2020".into()));
    assert_eq!(paper.journal, Some("Nature 580, 123-128 (2020)".into()));
    assert_eq!(paper.work_type, Some("journal-article".into()));
}

#[test]
fn test_parse_entry_no_journal_ref_element_is_preprint() {
    let xml = r#"
    <feed xmlns="http://www.w3.org/2005/Atom"
          xmlns:arxiv="http://arxiv.org/schemas/atom">
      <entry>
        <title>Edge Case Paper</title>
        <id>http://arxiv.org/abs/2301.99999v1</id>
        <published>2023-01-01T00:00:00Z</published>
        <summary>Abstract</summary>
        <author><name>Test Author</name></author>
        <link rel="alternate" href="http://arxiv.org/abs/2301.99999v1"/>
      </entry>
    </feed>
    "#;
    let paper = parse_entry_from_xml(xml);
    // No journal_ref element at all -> journal is None -> work_type is "preprint"
    assert!(paper.journal.is_none());
    assert_eq!(paper.work_type, Some("preprint".into()));
}

#[test]
fn test_parse_entry_fields_complete() {
    // Verify other fields are correctly parsed alongside the work_type fix
    let xml = r#"
    <feed xmlns="http://www.w3.org/2005/Atom"
          xmlns:arxiv="http://arxiv.org/schemas/atom">
      <entry>
        <title>  Multi  Word   Title  </title>
        <id>http://arxiv.org/abs/2301.00001v1</id>
        <published>2023-01-15T12:00:00Z</published>
        <summary>The abstract text.</summary>
        <author><name>First Author</name></author>
        <author><name>Second Author</name></author>
        <link rel="alternate" href="http://arxiv.org/abs/2301.00001v1"/>
        <link type="application/pdf" href="http://arxiv.org/pdf/2301.00001v1"/>
      </entry>
    </feed>
    "#;
    let paper = parse_entry_from_xml(xml);
    assert_eq!(paper.title, "Multi Word Title");
    assert_eq!(paper.authors, vec!["First Author", "Second Author"]);
    assert_eq!(paper.abstract_text, Some("The abstract text.".into()));
    assert_eq!(paper.published_date, Some("2023-01-15".into()));
    assert_eq!(paper.year, Some(2023));
    assert_eq!(paper.source, "arxiv");
    assert_eq!(paper.arxiv_id, Some("2301.00001".into()));
    assert_eq!(paper.doi, Some("10.48550/arXiv.2301.00001".into()));
    assert_eq!(paper.url, Some("http://arxiv.org/abs/2301.00001v1".into()));
    assert_eq!(paper.pdf_url, Some("http://arxiv.org/pdf/2301.00001v1".into()));
    assert_eq!(paper.work_type, Some("preprint".into()));
}
