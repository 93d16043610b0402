//! OpenAlex: work records, abstracts rebuilt from an inverted index, and
//! query parameters.
use vstd::prelude::*;

use crate::json::{as_array, as_i64, dv, get, ji64, jget, jstr_at, jstr_or, str_at, Json};
use crate::models::{empty_paper, Paper, PaperView, SearchType};
use crate::text::{
    chars_of, extend, join, join_strings, ostr, owned, string_of, trim_start_matches,
    trim_start_matches_str, views,
};

verus! {

/// The (position, word) pairs of an inverted index: for each word in
/// member order, each of its integer positions in order.
pub open spec fn index_pairs(m: Seq<(String, Json)>) -> Seq<(i64, Seq<char>)>
    decreases m.len(),
{
    if m.len() == 0 {
        seq![]
    } else {
        index_pairs(m.drop_last()) + word_pairs(m.last().0@, m.last().1)
    }
}

/// The pairs of one word: its integer positions, in order.
pub open spec fn word_pairs(w: Seq<char>, positions: Json) -> Seq<(i64, Seq<char>)> {
    match positions {
        Json::Array(a) => position_pairs(w, a@),
        _ => seq![],
    }
}

/// The pairs of a word and the integer elements of a list of positions.
pub open spec fn position_pairs(w: Seq<char>, a: Seq<Json>) -> Seq<(i64, Seq<char>)>
    decreases a.len(),
{
    if a.len() == 0 {
        seq![]
    } else {
        position_pairs(w, a.drop_last()) + match ji64(Some(a.last())) {
            Some(p) => seq![(p, w)],
            None => seq![],
        }
    }
}

/// `s` with `x` inserted after every pair whose position is at most its own.
pub open spec fn insert_pair(s: Seq<(i64, Seq<char>)>, x: (i64, Seq<char>)) -> Seq<(i64, Seq<char>)>
    decreases s.len(),
{
    if s.len() > 0 && x.0 < s.last().0 {
        insert_pair(s.drop_last(), x).push(s.last())
    } else {
        s.push(x)
    }
}

/// The pairs ordered by position; pairs of equal position keep their order.
pub open spec fn by_position(s: Seq<(i64, Seq<char>)>) -> Seq<(i64, Seq<char>)>
    decreases s.len(),
{
    if s.len() == 0 {
        seq![]
    } else {
        insert_pair(by_position(s.drop_last()), s.last())
    }
}

/// The words of the pairs.
pub open spec fn pair_words(s: Seq<(i64, Seq<char>)>) -> Seq<Seq<char>> {
    s.map_values(|p: (i64, Seq<char>)| p.1)
}

/// The abstract an inverted index stands for: its words in position order,
/// joined by spaces; `None` when the index is not an object or holds no
/// position.
pub open spec fn rebuilt_abstract(v: Option<Json>) -> Option<Seq<char>> {
    match v {
        Some(Json::Object(m)) => {
            let ps = index_pairs(m@);
            if ps.len() == 0 {
                None
            } else {
                Some(join(pair_words(by_position(ps)), " "@))
            }
        },
        _ => None,
    }
}

proof fn lemma_insert_pair_split(s: Seq<(i64, Seq<char>)>, x: (i64, Seq<char>), pos: int)
    requires
        0 <= pos <= s.len(),
        forall|j: int| pos <= j < s.len() ==> x.0 < (#[trigger] s[j]).0,
    ensures
        insert_pair(s, x) == insert_pair(s.take(pos), x) + s.skip(pos),
    decreases s.len() - pos,
{
    if pos < s.len() {
        lemma_insert_pair_split(s, x, pos + 1);
        let t = s.take(pos + 1);
        assert(t.drop_last() == s.take(pos));
        assert(t.last() == s[pos]);
        assert(insert_pair(s.take(pos), x).push(s[pos]) + s.skip(pos + 1) =~= insert_pair(
            s.take(pos),
            x,
        ) + s.skip(pos));
    } else {
        assert(s.take(pos) == s);
        assert(s.skip(pos) =~= Seq::<(i64, Seq<char>)>::empty());
    }
}

/// The content of a list of (position, word) pairs.
pub open spec fn pairs_view(v: Seq<(i64, String)>) -> Seq<(i64, Seq<char>)> {
    v.map_values(|p: (i64, String)| (p.0, p.1@))
}

fn push_pair(out: &mut Vec<(i64, String)>, x: (i64, String))
    ensures
        pairs_view(final(out)@) == insert_pair(pairs_view(old(out)@), (x.0, x.1@)),
{
    let ghost o = pairs_view(out@);
    let mut pos = out.len();
    while pos > 0 && x.0 < out[pos - 1].0
        invariant
            pos <= out.len(),
            o == pairs_view(out@),
            forall|j: int| pos <= j < out.len() ==> x.0 < (#[trigger] o[j]).0,
        decreases pos,
    {
        pos = pos - 1;
    }
    proof {
        lemma_insert_pair_split(o, (x.0, x.1@), pos as int);
        if pos > 0 {
            assert(o.take(pos as int).last() == o[pos - 1]);
        }
    }
    let ghost xv = (x.0, x.1@);
    out.insert(pos, x);
    assert(pairs_view(out@) =~= o.take(pos as int).push(xv) + o.skip(pos as int));
}

/// Rebuilds an abstract from an inverted index.
pub fn reconstruct_abstract(inv_index: Option<&Json>) -> (r: Option<String>)
    ensures
        ostr(r) == rebuilt_abstract(dv(inv_index)),
{
    let m = match inv_index {
        Some(Json::Object(m)) => m,
        _ => {
            return None;
        },
    };
    let mut sorted: Vec<(i64, String)> = Vec::new();
    let mut count: usize = 0;
    let mut i: usize = 0;
    while i < m.len()
        invariant
            i <= m.len(),
            pairs_view(sorted@) == by_position(index_pairs(m@.take(i as int))),
            count == 0 <==> index_pairs(m@.take(i as int)).len() == 0,
        decreases m.len() - i,
    {
        assert(m@.take(i + 1).drop_last() == m@.take(i as int));
        assert(m@.take(i + 1).last() == m@[i as int]);
        let ghost pre = index_pairs(m@.take(i as int));
        match &m[i].1 {
            Json::Array(a) => {
                let ghost w = m@[i as int].0@;
                let mut k: usize = 0;
                while k < a.len()
                    invariant
                        k <= a.len(),
                        i < m.len(),
                        w == m@[i as int].0@,
                        pairs_view(sorted@) == by_position(pre + position_pairs(w, a@.take(k as int))),
                        count == 0 <==> (pre + position_pairs(w, a@.take(k as int))).len() == 0,
                    decreases a.len() - k,
                {
                    assert(a@.take(k + 1).drop_last() == a@.take(k as int));
                    assert(a@.take(k + 1).last() == a@[k as int]);
                    match as_i64(Some(&a[k])) {
                        Some(p) => {
                            let ghost before = pre + position_pairs(w, a@.take(k as int));
                            push_pair(&mut sorted, (p, m[i].0.clone()));
                            assert(before + seq![(p, w)] == before.push((p, w)));
                            assert((before.push((p, w))).drop_last() == before);
                            assert(pre + position_pairs(w, a@.take(k + 1)) == before.push((p, w)));
                            count = 1;
                        },
                        None => {
                            assert(position_pairs(w, a@.take(k + 1)) == position_pairs(
                                w,
                                a@.take(k as int),
                            ) + seq![]);
                            assert(position_pairs(w, a@.take(k as int)) + seq![] == position_pairs(
                                w,
                                a@.take(k as int),
                            ));
                        },
                    }
                    k = k + 1;
                }
                assert(a@.take(a.len() as int) == a@);
            },
            _ => {
                assert(pre + seq![] == pre);
            },
        }
        i = i + 1;
    }
    assert(m@.take(m.len() as int) == m@);
    if count == 0 {
        return None;
    }
    let mut words: Vec<String> = Vec::new();
    let mut j: usize = 0;
    while j < sorted.len()
        invariant
            j <= sorted.len(),
            views(words@) == pair_words(pairs_view(sorted@)).take(j as int),
        decreases sorted.len() - j,
    {
        let wj = sorted[j].1.clone();
        assert(pair_words(pairs_view(sorted@))[j as int] == wj@);
        let ghost before = views(words@);
        words.push(wj);
        assert(views(words@) =~= before.push(wj@));
        assert(views(words@) =~= pair_words(pairs_view(sorted@)).take(j + 1));
        j = j + 1;
    }
    assert(pair_words(pairs_view(sorted@)).take(sorted.len() as int) == pair_words(
        pairs_view(sorted@),
    ));
    let sep = chars_of(" ");
    Some(string_of(&join_strings(&words, &sep)))
}

/// The display names of the authors of a list of authorships.
pub open spec fn author_names(a: Seq<Json>) -> Seq<Seq<char>>
    decreases a.len(),
{
    if a.len() == 0 {
        seq![]
    } else {
        author_names(a.drop_last()) + match jstr_at(jget(Some(a.last()), "author"@), "display_name"@) {
            Some(n) => seq![n],
            None => seq![],
        }
    }
}

fn author_names_exec(v: Option<&Json>) -> (r: Vec<String>)
    ensures
        views(r@) == match crate::json::jarr(dv(v)) {
            Some(a) => author_names(a),
            None => seq![],
        },
{
    let mut r: Vec<String> = Vec::new();
    match as_array(v) {
        Some(a) => {
            let mut i: usize = 0;
            while i < a.len()
                invariant
                    i <= a.len(),
                    views(r@) == author_names(a@.take(i as int)),
                decreases a.len() - i,
            {
                assert(a@.take(i + 1).drop_last() == a@.take(i as int));
                assert(a@.take(i + 1).last() == a@[i as int]);
                let ghost before = views(r@);
                match str_at(get(Some(&a[i]), "author"), "display_name") {
                    Some(n) => {
                        r.push(n);
                        assert(views(r@) =~= before.push(n@));
                    },
                    None => {},
                }
                i = i + 1;
            }
            assert(a@.take(a.len() as int) == a@);
        },
        None => {},
    }
    r
}

/// An OpenAlex work as a paper.
pub open spec fn work_paper(w: Option<Json>) -> PaperView {
    let src = jget(jget(w, "primary_location"@), "source"@);
    PaperView {
        title: jstr_or(
            match jget(w, "display_name"@) {
                Some(v) => Some(v),
                None => jget(w, "title"@),
            },
            "Unknown"@,
        ),
        authors: match crate::json::jarr(jget(w, "authorships"@)) {
            Some(a) => author_names(a),
            None => seq![],
        },
        abstract_text: rebuilt_abstract(jget(w, "abstract_inverted_index"@)),
        doi: match jstr_at(w, "doi"@) {
            Some(d) => if trim_start_matches(d, "https://doi.org/"@).len() > 0 {
                Some(trim_start_matches(d, "https://doi.org/"@))
            } else {
                None
            },
            None => None,
        },
        year: match ji64(jget(w, "publication_year"@)) {
            Some(y) => Some(y as i32),
            None => None,
        },
        published_date: jstr_at(w, "publication_date"@),
        source: "openalex"@,
        url: jstr_at(w, "id"@),
        pdf_url: jstr_at(jget(w, "open_access"@), "oa_url"@),
        journal: jstr_at(src, "display_name"@),
        citation_count: ji64(jget(w, "cited_by_count"@)),
        publisher: jstr_at(src, "host_organization_name"@),
        issn: jstr_at(src, "issn_l"@),
        work_type: jstr_at(w, "type"@),
        ..empty_paper()
    }
}

/// Reads an OpenAlex work record.
pub fn parse_work(work: &Json) -> (p: Paper)
    ensures
        p@ == work_paper(Some(*work)),
{
    let w = Some(work);
    let src = get(get(w, "primary_location"), "source");
    let title_v = match get(w, "display_name") {
        Some(v) => Some(v),
        None => get(w, "title"),
    };
    let doi = match str_at(w, "doi") {
        Some(d) => {
            let t = trim_start_matches_str(&chars_of(d.as_str()), "https://doi.org/");
            if t.len() > 0 {
                Some(string_of(&t))
            } else {
                None
            }
        },
        None => None,
    };
    let p = Paper {
        title: crate::json::str_or(title_v, "Unknown"),
        authors: author_names_exec(get(w, "authorships")),
        abstract_text: reconstruct_abstract(get(w, "abstract_inverted_index")),
        doi,
        year: match as_i64(get(w, "publication_year")) {
            Some(y) => Some(y as i32),
            None => None,
        },
        published_date: str_at(w, "publication_date"),
        source: owned("openalex"),
        url: str_at(w, "id"),
        pdf_url: str_at(get(w, "open_access"), "oa_url"),
        journal: str_at(src, "display_name"),
        volume: None,
        issue: None,
        pages: None,
        citation_count: as_i64(get(w, "cited_by_count")),
        publisher: str_at(src, "host_organization_name"),
        isbn: None,
        issn: str_at(src, "issn_l"),
        arxiv_id: None,
        work_type: str_at(w, "type"),
        editors: Vec::new(),
        series: None,
        oclc: None,
        lccn: None,
    };
    assert(views(p.editors@) =~= seq![]);
    p
}

/// The parameter OpenAlex takes a search in, and its value.
pub open spec fn openalex_param(q: Seq<char>, t: SearchType) -> (Seq<char>, Seq<char>) {
    match t {
        SearchType::Doi => ("filter"@, "doi:"@ + trim_start_matches(q, "https://doi.org/"@)),
        SearchType::Author => ("filter"@, "authorships.author.display_name.search:"@ + q),
        SearchType::Title => ("filter"@, "display_name.search:"@ + q),
        _ => ("search"@, q),
    }
}

/// The parameter a search is sent in.
pub fn search_parameter(query: &str, search_type: SearchType) -> (r: (String, String))
    ensures
        (r.0@, r.1@) == openalex_param(query@, search_type),
{
    match search_type {
        SearchType::Doi => {
            let mut v = chars_of("doi:");
            extend(&mut v, &trim_start_matches_str(&chars_of(query), "https://doi.org/"));
            (owned("filter"), string_of(&v))
        },
        SearchType::Author => {
            let mut v = chars_of("authorships.author.display_name.search:");
            extend(&mut v, &chars_of(query));
            (owned("filter"), string_of(&v))
        },
        SearchType::Title => {
            let mut v = chars_of("display_name.search:");
            extend(&mut v, &chars_of(query));
            (owned("filter"), string_of(&v))
        },
        _ => (owned("search"), owned(query)),
    }
}

/// The display name of the author of one authorship.
pub open spec fn authorship_name(x: Json) -> Option<Seq<char>> {
    jstr_at(jget(Some(x), "author"@), "display_name"@)
}

proof fn author_names_keep_order(a: Seq<Json>, f: spec_fn(Json) -> Option<Seq<char>>)
    requires
        forall|x: Json| #[trigger] f(x) == authorship_name(x),
    ensures
        author_names(a) == a.filter_map(f),
        (forall|i: int| 0 <= i < a.len() ==> (#[trigger] authorship_name(a[i])) is Some) ==> {
            &&& author_names(a).len() == a.len()
            &&& forall|i: int|
                0 <= i < a.len() ==> author_names(a)[i] == authorship_name(a[i])->Some_0
        },
    decreases a.len(),
{
    if a.len() > 0 {
        let rest = a.drop_last();
        author_names_keep_order(rest, f);
        assert(f(a.last()) == authorship_name(a.last()));
        if forall|i: int| 0 <= i < a.len() ==> (#[trigger] authorship_name(a[i])) is Some {
            assert forall|i: int| 0 <= i < rest.len() implies (#[trigger] authorship_name(
                rest[i],
            )) is Some by {
                assert(rest[i] == a[i]);
            }
            assert(authorship_name(a[a.len() - 1]) is Some);
            assert forall|i: int| 0 <= i < a.len() implies author_names(a)[i]
                == authorship_name(a[i])->Some_0 by {
                if i < a.len() - 1 {
                    assert(rest[i] == a[i]);
                }
            }
        }
    }
}

/// The authors of an OpenAlex work are the display names of its
/// authorships in the order of the `authorships` array, an authorship
/// without a name being skipped; when every authorship is named, the
/// `i`-th author is the name of the `i`-th authorship (the first author
/// comes first).
pub proof fn openalex_authors_in_authorship_order(w: Json, a: Seq<Json>)
    requires
        crate::json::jarr(jget(Some(w), "authorships"@)) == Some(a),
    ensures
        work_paper(Some(w)).authors == a.filter_map(|x: Json| authorship_name(x)),
        (forall|i: int| 0 <= i < a.len() ==> (#[trigger] authorship_name(a[i])) is Some) ==> {
            &&& work_paper(Some(w)).authors.len() == a.len()
            &&& forall|i: int|
                0 <= i < a.len() ==> work_paper(Some(w)).authors[i] == authorship_name(a[i])->Some_0
        },
{
    author_names_keep_order(a, |x: Json| authorship_name(x));
}

} // verus!
