//! bioRxiv: preprint records, author lists separated by semicolons, and the
//! address of a version's PDF.
use vstd::prelude::*;

use crate::json::{as_i64, dv, first, get, jfirst, jget, ji64, jstr, jstr_at, jstr_or, str_at, str_of, str_or, Json};
use crate::models::{empty_paper, Paper, PaperView};
use crate::provider::{date_year, date_year_exec};
use crate::text::{chars_of, extend, extend_str, fmt_int, int_dec, ostr, owned, string_of, trim, trim_chars, views};

verus! {

/// `s` split at every `c` (`str::split` with a character): the pieces
/// between the separators, empty ones included.
pub open spec fn split_at_char(s: Seq<char>, c: char) -> Seq<Seq<char>>
    decreases s.len(),
{
    if s.len() == 0 {
        seq![seq![]]
    } else {
        let p = split_at_char(s.drop_last(), c);
        if s.last() == c {
            p.push(seq![])
        } else {
            p.update(p.len() - 1, p.last().push(s.last()))
        }
    }
}

proof fn lemma_split_nonempty(s: Seq<char>, c: char)
    ensures
        split_at_char(s, c).len() >= 1,
    decreases s.len(),
{
    if s.len() > 0 {
        lemma_split_nonempty(s.drop_last(), c);
    }
}

/// The trimmed, non-empty pieces of a list.
pub open spec fn trimmed_nonempty(ps: Seq<Seq<char>>) -> Seq<Seq<char>>
    decreases ps.len(),
{
    if ps.len() == 0 {
        seq![]
    } else {
        trimmed_nonempty(ps.drop_last()) + if trim(ps.last()).len() > 0 {
            seq![trim(ps.last())]
        } else {
            seq![]
        }
    }
}

/// The authors of a semicolon-separated list.
pub open spec fn author_list(s: Seq<char>) -> Seq<Seq<char>> {
    if s.len() == 0 {
        seq![]
    } else {
        trimmed_nonempty(split_at_char(s, ';'))
    }
}

fn split_exec(s: &Vec<char>, c: char) -> (r: Vec<Vec<char>>)
    ensures
        crate::text::cviews(r@) == split_at_char(s@, c),
{
    let mut r: Vec<Vec<char>> = vec![Vec::new()];
    assert(crate::text::cviews(r@) =~= seq![seq![]]);
    assert(s@.take(0) =~= Seq::<char>::empty());
    let mut i: usize = 0;
    while i < s.len()
        invariant
            i <= s.len(),
            r.len() >= 1,
            crate::text::cviews(r@) == split_at_char(s@.take(i as int), c),
        decreases s.len() - i,
    {
        assert(s@.take(i + 1).drop_last() == s@.take(i as int));
        assert(s@.take(i + 1).last() == s@[i as int]);
        let ghost before = crate::text::cviews(r@);
        if s[i] == c {
            r.push(Vec::new());
            assert(crate::text::cviews(r@) =~= before.push(seq![]));
        } else {
            let k = r.len() - 1;
            let mut last = r.pop().unwrap();
            last.push(s[i]);
            r.push(last);
            assert(crate::text::cviews(r@) =~= before.update(k as int, before[k as int].push(s@[i as int])));
        }
        i = i + 1;
    }
    assert(s@.take(s.len() as int) == s@);
    r
}

/// Splits a semicolon-separated author list.
pub fn parse_authors(s: &str) -> (r: Vec<String>)
    ensures
        views(r@) == author_list(s@),
{
    let v = chars_of(s);
    if v.len() == 0 {
        return Vec::new();
    }
    let pieces = split_exec(&v, ';');
    let mut r: Vec<String> = Vec::new();
    let mut i: usize = 0;
    while i < pieces.len()
        invariant
            i <= pieces.len(),
            crate::text::cviews(pieces@) == split_at_char(s@, ';'),
            views(r@) == trimmed_nonempty(crate::text::cviews(pieces@).take(i as int)),
        decreases pieces.len() - i,
    {
        let ghost ps = crate::text::cviews(pieces@);
        assert(ps.take(i + 1).drop_last() == ps.take(i as int));
        assert(ps.take(i + 1).last() == pieces@[i as int]@);
        let t = trim_chars(&pieces[i]);
        let ghost before = views(r@);
        if t.len() > 0 {
            r.push(string_of(&t));
            assert(views(r@) =~= before.push(t@));
        } else {
            assert(before + seq![] == before);
        }
        i = i + 1;
    }
    assert(crate::text::cviews(pieces@).take(pieces.len() as int) == crate::text::cviews(pieces@));
    r
}

/// The version of a record: a string, a number in decimal, or `1`.
pub open spec fn version_of(v: Option<Json>) -> Seq<char> {
    match v {
        Some(x) => match jstr(Some(x)) {
            Some(s) => s,
            None => match ji64(Some(x)) {
                Some(n) => int_dec(n as int),
                None => "1"@,
            },
        },
        None => "1"@,
    }
}

fn version_exec(v: Option<&Json>) -> (r: String)
    ensures
        r@ == version_of(dv(v)),
{
    match v {
        Some(x) => match str_of(Some(x)) {
            Some(s) => s,
            None => match as_i64(Some(x)) {
                Some(n) => string_of(&fmt_int(n)),
                None => owned("1"),
            },
        },
        None => owned("1"),
    }
}

/// The PDF of version `version` of the preprint `doi`.
pub open spec fn version_pdf(doi: Seq<char>, version: Seq<char>) -> Seq<char> {
    "https://www.biorxiv.org/content/"@ + doi + "v"@ + version + ".full.pdf"@
}

fn version_pdf_exec(doi: &str, version: &str) -> (r: String)
    ensures
        r@ == version_pdf(doi@, version@),
{
    let mut u = chars_of("https://www.biorxiv.org/content/");
    extend_str(&mut u, doi);
    extend_str(&mut u, "v");
    extend_str(&mut u, version);
    extend_str(&mut u, ".full.pdf");
    string_of(&u)
}

/// A bioRxiv record as a paper.
pub open spec fn item_paper(item: Option<Json>) -> PaperView {
    let doi = jstr_at(item, "doi"@);
    let date = jstr_at(item, "date"@);
    PaperView {
        title: jstr_or(jget(item, "title"@), "Unknown"@),
        authors: author_list(jstr_or(jget(item, "authors"@), seq![])),
        abstract_text: jstr_at(item, "abstract"@),
        doi: doi,
        year: date_year(date),
        published_date: date,
        source: "biorxiv"@,
        url: match doi {
            Some(d) => Some("https://www.biorxiv.org/content/"@ + d),
            None => None,
        },
        pdf_url: match doi {
            Some(d) => Some(version_pdf(d, version_of(jget(item, "version"@)))),
            None => None,
        },
        journal: Some("bioRxiv"@),
        ..empty_paper()
    }
}

/// Reads a bioRxiv record.
pub fn parse_item(item: &Json) -> (p: Paper)
    ensures
        p@ == item_paper(Some(*item)),
{
    let it = Some(item);
    let doi = str_at(it, "doi");
    let date = str_at(it, "date");
    let authors = match str_at(it, "authors") {
        Some(a) => parse_authors(a.as_str()),
        None => parse_authors(""),
    };
    proof {
        reveal_strlit("");
    }
    let version = version_exec(get(it, "version"));
    let (url, pdf_url) = match &doi {
        Some(d) => {
            let mut u = chars_of("https://www.biorxiv.org/content/");
            extend(&mut u, &chars_of(d.as_str()));
            (Some(string_of(&u)), Some(version_pdf_exec(d.as_str(), version.as_str())))
        },
        None => (None, None),
    };
    let p = Paper {
        title: str_or(get(it, "title"), "Unknown"),
        authors,
        abstract_text: str_at(it, "abstract"),
        doi,
        year: date_year_exec(&date),
        published_date: date,
        source: owned("biorxiv"),
        url,
        pdf_url,
        journal: Some(owned("bioRxiv")),
        volume: None,
        issue: None,
        pages: None,
        citation_count: None,
        publisher: None,
        isbn: None,
        issn: None,
        arxiv_id: None,
        work_type: None,
        editors: Vec::new(),
        series: None,
        oclc: None,
        lccn: None,
    };
    assert(views(p.editors@) =~= seq![]);
    p
}

/// The PDF of the first record of a details answer for `doi`.
pub open spec fn details_pdf(doi: Seq<char>, data: Option<Json>) -> Option<Seq<char>> {
    let first = jfirst(jget(data, "collection"@));
    match first {
        Some(f) => Some(version_pdf(doi, version_of(jget(Some(f), "version"@)))),
        None => None,
    }
}

/// The PDF address a details answer gives for `doi`.
pub fn pdf_url_for(doi: &str, data: &Json) -> (r: Option<String>)
    ensures
        ostr(r) == details_pdf(doi@, Some(*data)),
{
    match first(get(Some(data), "collection")) {
        Some(f) => {
            let v = version_exec(get(Some(f), "version"));
            Some(version_pdf_exec(doi, v.as_str()))
        },
        None => None,
    }
}

/// The PDF link of a details answer is that of the version its first
/// record states, given as a string or as an integer, and of version 1
/// when the record states none; an answer without records gives no link.
/// The link is `https://www.biorxiv.org/content/{doi}v{version}.full.pdf`.
pub proof fn details_pdf_uses_stated_version(doi: Seq<char>, data: Json)
    ensures
        jfirst(jget(Some(data), "collection"@)) is None ==> details_pdf(doi, Some(data)) is None,
        jfirst(jget(Some(data), "collection"@)) matches Some(f) ==> {
            let v = jget(Some(f), "version"@);
            &&& jstr(v) matches Some(s) ==> details_pdf(doi, Some(data)) == Some(
                "https://www.biorxiv.org/content/"@ + doi + "v"@ + s + ".full.pdf"@,
            )
            &&& jstr(v) is None ==> (ji64(v) matches Some(n) ==> details_pdf(doi, Some(data))
                == Some(
                "https://www.biorxiv.org/content/"@ + doi + "v"@ + int_dec(n as int) + ".full.pdf"@,
            ))
            &&& (jstr(v) is None && ji64(v) is None) ==> details_pdf(doi, Some(data)) == Some(
                "https://www.biorxiv.org/content/"@ + doi + "v1.full.pdf"@,
            )
        },
{
    reveal_strlit("v");
    reveal_strlit("1");
    reveal_strlit("v1.full.pdf");
    reveal_strlit(".full.pdf");
    let pre = "https://www.biorxiv.org/content/"@ + doi;
    assert(pre + "v"@ + "1"@ + ".full.pdf"@ =~= pre + "v1.full.pdf"@);
}

/// The PDF link of a bioRxiv record is that of the version the record
/// states, given as a string or as an integer, and of version 1 when it
/// states none; a record without a DOI has no link.
pub proof fn record_pdf_uses_stated_version(item: Json)
    ensures
        jstr_at(Some(item), "doi"@) is None ==> item_paper(Some(item)).pdf_url is None,
        jstr_at(Some(item), "doi"@) matches Some(d) ==> {
            let v = jget(Some(item), "version"@);
            &&& jstr(v) matches Some(s) ==> item_paper(Some(item)).pdf_url == Some(
                "https://www.biorxiv.org/content/"@ + d + "v"@ + s + ".full.pdf"@,
            )
            &&& jstr(v) is None ==> (ji64(v) matches Some(n) ==> item_paper(Some(item)).pdf_url
                == Some(
                "https://www.biorxiv.org/content/"@ + d + "v"@ + int_dec(n as int) + ".full.pdf"@,
            ))
            &&& (jstr(v) is None && ji64(v) is None) ==> item_paper(Some(item)).pdf_url == Some(
                "https://www.biorxiv.org/content/"@ + d + "v1.full.pdf"@,
            )
        },
{
    reveal_strlit("v");
    reveal_strlit("1");
    reveal_strlit("v1.full.pdf");
    reveal_strlit(".full.pdf");
    if let Some(d) = jstr_at(Some(item), "doi"@) {
        let pre = "https://www.biorxiv.org/content/"@ + d;
        assert(pre + "v"@ + "1"@ + ".full.pdf"@ =~= pre + "v1.full.pdf"@);
    }
}

} // verus!
