//! Query classification, title normalisation, de-duplication, date filling
//! and ordering of merged search results.
use vstd::prelude::*;

use crate::models::{Paper, PaperView, ProviderHits, SearchResult, SearchType, SortOrder};
use crate::provider::{kind_search_types, ProviderKind, ProviderResult};
use crate::text::{
    trim_end, trim_start,
    chars_of, extend_str, owned, fmt_int_padded, int_dec_padded, is_digit, is_ws, join, join_chars,
    replace_char, replace_char_exec, split_words, str_eq, string_of, strip_prefix, trim,
    trim_chars, trim_str, views, words,
};
use crate::pattern::{is_match, isbn_text};
use crate::unicode::{
    alphanumeric, char_lower, combining_mark, is_alphanumeric, is_combining_mark, lowercase_of,
    nfkd, nfkd_of, str_lower, to_lowercase, unicode_digit,
};

verus! {

// ---------------------------------------------------------------------------
// Query classification
// ---------------------------------------------------------------------------
/// `r` is `10.`, then `n >= 4` decimal digits, then `/`, then at least one
/// character, none of them white space.
pub open spec fn doi_body_at(r: Seq<char>, n: int) -> bool {
    &&& 4 <= n
    &&& 3 + n + 1 < r.len()
    &&& forall|i: int| 3 <= i < 3 + n ==> #[trigger] unicode_digit(r[i])
    &&& r[3 + n] == '/'
    &&& forall|i: int| 3 + n + 1 <= i < r.len() ==> !is_ws(#[trigger] r[i])
}

/// The pattern `10\.\d{4,}/\S+` over the whole of `r`.
pub open spec fn doi_body(r: Seq<char>) -> bool {
    &&& r.len() >= 3
    &&& r[0] == '1'
    &&& r[1] == '0'
    &&& r[2] == '.'
    &&& exists|n: int| doi_body_at(r, n)
}

/// A DOI, bare or as a `http(s)://doi.org/` link: the pattern
/// `^(?:https?://doi\.org/)?10\.\d{4,}/\S+$`.
pub open spec fn doi_query(q: Seq<char>) -> bool {
    ||| doi_body(q)
    ||| (match strip_prefix(q, "https://doi.org/"@) {
        Some(r) => doi_body(r),
        None => false,
    })
    ||| (match strip_prefix(q, "http://doi.org/"@) {
        Some(r) => doi_body(r),
        None => false,
    })
}

/// The characters an ISBN check looks at: ASCII digits, `X` and `x`.
pub open spec fn isbn_char(c: char) -> bool {
    is_digit(c) || c == 'X' || c == 'x'
}

/// `s` reduced to its ISBN characters.
pub open spec fn isbn_chars(s: Seq<char>) -> Seq<char>
    decreases s.len(),
{
    if s.len() == 0 {
        seq![]
    } else {
        isbn_chars(s.drop_last()) + if isbn_char(s.last()) {
            seq![s.last()]
        } else {
            seq![]
        }
    }
}

/// An ISBN-10 (nine digits and a digit or `X`) or an ISBN-13 starting with
/// `978` or `979`: the pattern `^(?:\d{9}[\dXx]|97[89]\d{10})$`.
pub open spec fn isbn_shape(t: Seq<char>) -> bool {
    ||| (t.len() == 10 && (forall|i: int| 0 <= i < 9 ==> #[trigger] is_digit(t[i])) && isbn_char(
        t[9],
    ))
    ||| (t.len() == 13 && t[0] == '9' && t[1] == '7' && (t[2] == '8' || t[2] == '9') && (forall|
        i: int,
    |
        3 <= i < 13 ==> #[trigger] is_digit(t[i])))
}

/// An ASCII upper-case letter.
pub open spec fn is_upper(c: char) -> bool {
    65 <= (c as u32) <= 90
}

/// An ASCII lower-case letter.
pub open spec fn is_lower(c: char) -> bool {
    97 <= (c as u32) <= 122
}

/// The number of consecutive ASCII lower-case letters of `s` from `i` on.
pub open spec fn lower_run(s: Seq<char>, i: int) -> nat
    decreases s.len() - i,
{
    if 0 <= i < s.len() && is_lower(s[i]) {
        1 + lower_run(s, i + 1)
    } else {
        0
    }
}

/// The number of consecutive white-space characters of `s` from `i` on.
pub open spec fn ws_run(s: Seq<char>, i: int) -> nat
    decreases s.len() - i,
{
    if 0 <= i < s.len() && is_ws(s[i]) {
        1 + ws_run(s, i + 1)
    } else {
        0
    }
}

/// `Surname, I...`: the pattern `^[A-Z][a-z]+,\s*[A-Z]`.
pub open spec fn author_shape(q: Seq<char>) -> bool {
    let k = lower_run(q, 1) as int;
    let m = ws_run(q, 2 + k) as int;
    &&& q.len() >= 1
    &&& is_upper(q[0])
    &&& k >= 1
    &&& 1 + k < q.len()
    &&& q[1 + k] == ','
    &&& 2 + k + m < q.len()
    &&& is_upper(q[2 + k + m])
}

/// The kind of a query, judged on the query without surrounding white
/// space: a DOI, else an ISBN, else an author name, else keywords.
pub open spec fn search_type_of(query: Seq<char>) -> SearchType {
    let q = trim(query);
    if doi_query(q) {
        SearchType::Doi
    } else if isbn_shape(isbn_chars(q)) {
        SearchType::Isbn
    } else if author_shape(q) {
        SearchType::Author
    } else {
        SearchType::Keywords
    }
}

/// Every character of `s` is white space.
pub open spec fn all_ws(s: Seq<char>) -> bool {
    forall|i: int| 0 <= i < s.len() ==> is_ws(#[trigger] s[i])
}

proof fn lemma_trim_start_ws_prefix(u: Seq<char>, q: Seq<char>)
    requires
        all_ws(u),
    ensures
        trim_start(u + q) == trim_start(q),
    decreases u.len(),
{
    if u.len() > 0 {
        assert((u + q)[0] == u[0]);
        assert((u + q).drop_first() =~= u.drop_first() + q);
        lemma_trim_start_ws_prefix(u.drop_first(), q);
    } else {
        assert(u + q =~= q);
    }
}

proof fn lemma_trim_end_ws_suffix(q: Seq<char>, v: Seq<char>)
    requires
        all_ws(v),
    ensures
        trim_end(q + v) == trim_end(q),
    decreases v.len(),
{
    if v.len() > 0 {
        assert((q + v).last() == v.last());
        assert((q + v).drop_last() =~= q + v.drop_last());
        lemma_trim_end_ws_suffix(q, v.drop_last());
    } else {
        assert(q + v =~= q);
    }
}

proof fn lemma_trim_start_all_ws(v: Seq<char>)
    requires
        all_ws(v),
    ensures
        trim_start(v).len() == 0,
    decreases v.len(),
{
    if v.len() > 0 {
        lemma_trim_start_all_ws(v.drop_first());
    }
}

proof fn lemma_trim_ws_suffix(q: Seq<char>, v: Seq<char>)
    requires
        all_ws(v),
    ensures
        trim(q + v) == trim(q),
    decreases q.len(),
{
    if q.len() == 0 {
        assert(q + v =~= v);
        lemma_trim_start_all_ws(v);
    } else if is_ws(q[0]) {
        assert((q + v)[0] == q[0]);
        assert((q + v).drop_first() =~= q.drop_first() + v);
        lemma_trim_ws_suffix(q.drop_first(), v);
    } else {
        assert((q + v)[0] == q[0]);
        lemma_trim_end_ws_suffix(q, v);
    }
}

proof fn lemma_trim_end_shape(s: Seq<char>)
    ensures
        trim_end(s).len() <= s.len(),
        trim_end(s) =~= s.take(trim_end(s).len() as int),
        trim_end(s).len() > 0 ==> !is_ws(trim_end(s).last()),
    decreases s.len(),
{
    if s.len() > 0 && is_ws(s.last()) {
        lemma_trim_end_shape(s.drop_last());
    }
}

proof fn lemma_trim_start_shape(s: Seq<char>)
    ensures
        trim_start(s).len() > 0 ==> !is_ws(trim_start(s)[0]),
        trim_start(s).len() == 0 ==> all_ws(s),
    decreases s.len(),
{
    if s.len() > 0 && is_ws(s[0]) {
        lemma_trim_start_shape(s.drop_first());
        if trim_start(s).len() == 0 {
            assert forall|i: int| 0 <= i < s.len() implies is_ws(#[trigger] s[i]) by {
                if i > 0 {
                    assert(s[i] == s.drop_first()[i - 1]);
                }
            }
        }
    }
}

proof fn lemma_trim_idempotent(q: Seq<char>)
    ensures
        trim(trim(q)) == trim(q),
{
    let t = trim_start(q);
    let e = trim_end(t);
    lemma_trim_start_shape(q);
    lemma_trim_end_shape(t);
    lemma_trim_end_shape(e);
    if e.len() > 0 {
        assert(e[0] == t[0]);
        assert(trim_start(e) == e);
    }
    assert(trim_end(e) == e);
}

/// Surrounding white space does not change how a query is classified: the
/// query, the query trimmed, and the query with white space added at
/// either end are all of one kind.
pub proof fn search_type_ignores_surrounding_space(q: Seq<char>, u: Seq<char>, v: Seq<char>)
    requires
        all_ws(u),
        all_ws(v),
    ensures
        search_type_of(trim(q)) == search_type_of(q),
        search_type_of(u + q + v) == search_type_of(q),
{
    lemma_trim_idempotent(q);
    assert(u + q + v =~= u + (q + v));
    lemma_trim_start_ws_prefix(u, q + v);
    lemma_trim_ws_suffix(q, v);
}

/// The ISBN characters of `s`.
pub fn isbn_chars_exec(s: &Vec<char>) -> (r: Vec<char>)
    ensures
        r@ == isbn_chars(s@),
{
    let mut r: Vec<char> = Vec::new();
    let mut i: usize = 0;
    while i < s.len()
        invariant
            i <= s.len(),
            r@ == isbn_chars(s@.take(i as int)),
        decreases s.len() - i,
    {
        assert(s@.take(i + 1).drop_last() == s@.take(i as int));
        let c = s[i];
        assert(s@.take(i + 1).last() == c);
        if (48 <= c as u32 && c as u32 <= 57) || c == 'X' || c == 'x' {
            assert(isbn_char(c));
            r.push(c);
        } else {
            assert(!isbn_char(c));
        }
        i = i + 1;
    }
    assert(s@.take(s.len() as int) == s@);
    r
}

proof fn lemma_isbn_chars_text(s: Seq<char>)
    ensures
        isbn_text(isbn_chars(s)),
    decreases s.len(),
{
    if s.len() > 0 {
        lemma_isbn_chars_text(s.drop_last());
        let p = isbn_chars(s.drop_last());
        let t = isbn_chars(s);
        assert forall|i: int| 0 <= i < t.len() implies isbn_char(#[trigger] t[i]) by {
            if i < p.len() {
                assert(t[i] == p[i]);
            }
        }
    }
}

/// Classifies a query as a DOI, an ISBN, an author name or keywords.
pub fn detect_search_type(query: &str) -> (t: SearchType)
    ensures
        t == search_type_of(query@),
{
    let q = trim_chars(&chars_of(query));
    let text = string_of(&q);
    if is_match("^(?:https?://doi\\.org/)?10\\.\\d{4,}/\\S+$", text.as_str()) {
        return SearchType::Doi;
    }
    let stripped = isbn_chars_exec(&q);
    proof {
        lemma_isbn_chars_text(q@);
    }
    if is_match("^(?:\\d{9}[\\dXx]|97[89]\\d{10})$", string_of(&stripped).as_str()) {
        return SearchType::Isbn;
    }
    if is_match("^[A-Z][a-z]+,\\s*[A-Z]", text.as_str()) {
        return SearchType::Author;
    }
    SearchType::Keywords
}

// ---------------------------------------------------------------------------
// Title normalisation
// ---------------------------------------------------------------------------
/// A lower-cased character as it enters a title key: itself when it is
/// alphanumeric, otherwise a space.
pub open spec fn key_char(c: char) -> char {
    if alphanumeric(c) {
        c
    } else {
        ' '
    }
}

/// Each character of `s` that is not a combining mark, lower-cased, with
/// everything that is not alphanumeric turned into a space.
pub open spec fn fold_chars(s: Seq<char>) -> Seq<char>
    decreases s.len(),
{
    if s.len() == 0 {
        seq![]
    } else {
        fold_chars(s.drop_last()) + if combining_mark(s.last()) {
            seq![]
        } else {
            char_lower(s.last()).map_values(|c: char| key_char(c))
        }
    }
}

/// The key two titles are compared by: the NFKD form without combining
/// marks, lower-cased, punctuation turned into spaces, and the words joined
/// by single spaces.
pub open spec fn title_key(t: Seq<char>) -> Seq<char> {
    join(words(fold_chars(nfkd(t))), " "@)
}

/// The de-duplication key of a title.
pub fn normalize_title(title: &str) -> (r: String)
    ensures
        r@ == title_key(title@),
{
    let n = nfkd_of(title);
    let s = chars_of(n.as_str());
    let mut out: Vec<char> = Vec::new();
    let mut i: usize = 0;
    while i < s.len()
        invariant
            i <= s.len(),
            out@ == fold_chars(s@.take(i as int)),
        decreases s.len() - i,
    {
        assert(s@.take(i + 1).drop_last() == s@.take(i as int));
        let c = s[i];
        assert(s@.take(i + 1).last() == c);
        if !is_combining_mark(c) {
            let low = lowercase_of(c);
            let ghost before = out@;
            let mut j: usize = 0;
            while j < low.len()
                invariant
                    j <= low.len(),
                    out@ == before + low@.take(j as int).map_values(|c: char| key_char(c)),
                decreases low.len() - j,
            {
                let d = low[j];
                let k = if is_alphanumeric(d) {
                    d
                } else {
                    ' '
                };
                out.push(k);
                assert(low@.take(j + 1).map_values(|c: char| key_char(c)) =~= low@.take(
                    j as int,
                ).map_values(|c: char| key_char(c)).push(key_char(d)));
                j = j + 1;
            }
            assert(low@.take(low.len() as int) == low@);
        } else {
            assert(out@ + seq![] == out@);
        }
        i = i + 1;
    }
    assert(s@.take(s.len() as int) == s@);
    let ws = split_words(&out);
    let sep = chars_of(" ");
    let joined = join_chars(&ws, &sep);
    string_of(&joined)
}

// ---------------------------------------------------------------------------
// De-duplication
// ---------------------------------------------------------------------------
/// The key of an ISBN: without hyphens, lower-cased.
pub open spec fn isbn_key(i: Seq<char>) -> Seq<char> {
    str_lower(replace_char(i, '-', seq![]))
}

/// The key of an OCLC number: trimmed, lower-cased.
pub open spec fn oclc_key(o: Seq<char>) -> Seq<char> {
    str_lower(trim(o))
}

/// The keys claimed so far by the papers kept.
pub struct DedupState {
    pub dois: Seq<Seq<char>>,
    pub isbns: Seq<Seq<char>>,
    pub oclcs: Seq<Seq<char>>,
    pub titles: Seq<Seq<char>>,
}

/// No keys claimed.
pub open spec fn no_keys() -> DedupState {
    DedupState { dois: seq![], isbns: seq![], oclcs: seq![], titles: seq![] }
}

/// A paper is kept when none of its keys is claimed: its lower-cased DOI;
/// when it has no DOI, its ISBN and OCLC keys; and its title key, when that
/// is not empty.
pub open spec fn admits(st: DedupState, p: PaperView) -> bool {
    &&& (p.doi matches Some(d) ==> !st.dois.contains(str_lower(d)))
    &&& (p.doi is None && p.isbn is Some ==> !st.isbns.contains(isbn_key(p.isbn->0)))
    &&& (p.doi is None && p.oclc is Some ==> !st.oclcs.contains(oclc_key(p.oclc->0)))
    &&& (title_key(p.title).len() > 0 ==> !st.titles.contains(title_key(p.title)))
}

/// The keys claimed once `p` is kept.
pub open spec fn claim(st: DedupState, p: PaperView) -> DedupState {
    DedupState {
        dois: match p.doi {
            Some(d) => st.dois.push(str_lower(d)),
            None => st.dois,
        },
        isbns: if p.doi is None && p.isbn is Some {
            st.isbns.push(isbn_key(p.isbn->0))
        } else {
            st.isbns
        },
        oclcs: if p.doi is None && p.oclc is Some {
            st.oclcs.push(oclc_key(p.oclc->0))
        } else {
            st.oclcs
        },
        titles: if title_key(p.title).len() > 0 {
            st.titles.push(title_key(p.title))
        } else {
            st.titles
        },
    }
}

/// The papers kept, in input order, and the keys they claimed.
pub open spec fn dedup_run(ps: Seq<PaperView>) -> (Seq<PaperView>, DedupState)
    decreases ps.len(),
{
    if ps.len() == 0 {
        (seq![], no_keys())
    } else {
        let (out, st) = dedup_run(ps.drop_last());
        if admits(st, ps.last()) {
            (out.push(ps.last()), claim(st, ps.last()))
        } else {
            (out, st)
        }
    }
}

/// The de-duplicated list: each paper in turn is kept unless an earlier kept
/// paper claimed one of its keys.
pub open spec fn dedup_spec(ps: Seq<PaperView>) -> Seq<PaperView> {
    dedup_run(ps).0
}

/// The views of a list of papers.
pub open spec fn paper_views(v: Seq<Paper>) -> Seq<PaperView> {
    v.map_values(|p: Paper| p@)
}

/// Whether `v` holds `s`.
fn holds(v: &Vec<String>, s: &String) -> (r: bool)
    ensures
        r == views(v@).contains(s@),
{
    let sv = chars_of(s.as_str());
    let mut i: usize = 0;
    while i < v.len()
        invariant
            i <= v.len(),
            sv@ == s@,
            forall|k: int| 0 <= k < i ==> views(v@)[k] != s@,
        decreases v.len() - i,
    {
        if str_eq(v[i].as_str(), &sv) {
            assert(views(v@)[i as int] == s@);
            return true;
        }
        i = i + 1;
    }
    false
}

fn push_key(v: &mut Vec<String>, k: String)
    ensures
        views(final(v)@) == views(old(v)@).push(k@),
{
    v.push(k);
    assert(views(v@) =~= views(old(v)@).push(k@));
}

/// Drops every paper that repeats a key of an earlier kept paper (see
/// `admits`); the kept papers stay in input order.
pub fn deduplicate(papers: Vec<Paper>) -> (r: Vec<Paper>)
    ensures
        paper_views(r@) == dedup_spec(paper_views(papers@)),
{
    let ghost ps = paper_views(papers@);
    // The keys seen so far are kept in plain lists, searched one by one,
    // rather than in hash sets: Verus states nothing of what a
    // `HashSet<String>` holds, while a list's contents are its view, and
    // only membership is ever asked of these lists, never their order.
    let mut seen_dois: Vec<String> = Vec::new();
    let mut seen_isbns: Vec<String> = Vec::new();
    let mut seen_oclcs: Vec<String> = Vec::new();
    let mut seen_titles: Vec<String> = Vec::new();
    let mut result: Vec<Paper> = Vec::new();
    for paper in it: papers
        invariant
            it.seq() == papers@,
            ps == paper_views(papers@),
            paper_views(result@) == dedup_run(ps.take(it.index() as int)).0,
            views(seen_dois@) == dedup_run(ps.take(it.index() as int)).1.dois,
            views(seen_isbns@) == dedup_run(ps.take(it.index() as int)).1.isbns,
            views(seen_oclcs@) == dedup_run(ps.take(it.index() as int)).1.oclcs,
            views(seen_titles@) == dedup_run(ps.take(it.index() as int)).1.titles,
    {
        let ghost i = it.index();
        let ghost pre = ps.take(i as int);
        let ghost st = dedup_run(pre).1;
        assert(ps.take(i + 1).drop_last() == pre);
        assert(ps.take(i + 1).last() == paper@);
        let p = paper;
        let doi_key: Option<String> = match &p.doi {
            Some(d) => Some(to_lowercase(d.as_str())),
            None => None,
        };
        let mut ok = match &doi_key {
            Some(k) => !holds(&seen_dois, k),
            None => true,
        };
        let mut isbn_k: Option<String> = None;
        let mut oclc_k: Option<String> = None;
        if p.doi.is_none() {
            match &p.isbn {
                Some(isbn) => {
                    let raw = chars_of(isbn.as_str());
                    let nohyph = replace_char_exec(&raw, '-', &Vec::new());
                    let k = to_lowercase(string_of(&nohyph).as_str());
                    if holds(&seen_isbns, &k) {
                        ok = false;
                    }
                    isbn_k = Some(k);
                },
                None => {},
            }
            match &p.oclc {
                Some(oclc) => {
                    let k = to_lowercase(trim_str(oclc.as_str()).as_str());
                    if holds(&seen_oclcs, &k) {
                        ok = false;
                    }
                    oclc_k = Some(k);
                },
                None => {},
            }
        }
        let norm = normalize_title(p.title.as_str());
        let has_title_key = chars_of(norm.as_str()).len() > 0;
        if has_title_key && holds(&seen_titles, &norm) {
            ok = false;
        }
        assert(ok == admits(st, p@));
        if ok {
            match doi_key {
                Some(k) => push_key(&mut seen_dois, k),
                None => {},
            }
            match isbn_k {
                Some(k) => push_key(&mut seen_isbns, k),
                None => {},
            }
            match oclc_k {
                Some(k) => push_key(&mut seen_oclcs, k),
                None => {},
            }
            if has_title_key {
                push_key(&mut seen_titles, norm);
            }
            let ghost before = paper_views(result@);
            result.push(p);
            assert(paper_views(result@) =~= before.push(paper@));
        }
    }
    assert(ps.take(papers@.len() as int) == ps);
    result
}

// ---------------------------------------------------------------------------
// What de-duplication guarantees
// ---------------------------------------------------------------------------
/// The DOI key of a paper.
pub open spec fn key_doi(p: PaperView) -> Option<Seq<char>> {
    match p.doi {
        Some(d) => Some(str_lower(d)),
        None => None,
    }
}

/// The ISBN key of a paper without a DOI.
pub open spec fn key_isbn(p: PaperView) -> Option<Seq<char>> {
    if p.doi is None && p.isbn is Some {
        Some(isbn_key(p.isbn->0))
    } else {
        None
    }
}

/// The OCLC key of a paper without a DOI.
pub open spec fn key_oclc(p: PaperView) -> Option<Seq<char>> {
    if p.doi is None && p.oclc is Some {
        Some(oclc_key(p.oclc->0))
    } else {
        None
    }
}

/// The title key of a paper, when it is not empty.
pub open spec fn key_title(p: PaperView) -> Option<Seq<char>> {
    if title_key(p.title).len() > 0 {
        Some(title_key(p.title))
    } else {
        None
    }
}

/// The keys `f` gives the papers of `ps`, in order, skipping papers without
/// one.
pub open spec fn keys_of(ps: Seq<PaperView>, f: spec_fn(PaperView) -> Option<Seq<char>>) -> Seq<
    Seq<char>,
>
    decreases ps.len(),
{
    if ps.len() == 0 {
        seq![]
    } else {
        keys_of(ps.drop_last(), f) + match f(ps.last()) {
            Some(k) => seq![k],
            None => seq![],
        }
    }
}

/// No two papers of `ps` share a key under `f`.
pub open spec fn unique_keys(ps: Seq<PaperView>, f: spec_fn(PaperView) -> Option<Seq<char>>) -> bool {
    forall|i: int, j: int|
        0 <= i < j < ps.len() && (#[trigger] f(ps[i])) is Some && (#[trigger] f(ps[j])) is Some
            ==> f(ps[i]) != f(ps[j])
}

proof fn lemma_keys_of_has(ps: Seq<PaperView>, f: spec_fn(PaperView) -> Option<Seq<char>>, i: int)
    requires
        0 <= i < ps.len(),
        f(ps[i]) is Some,
    ensures
        keys_of(ps, f).contains(f(ps[i])->0),
    decreases ps.len(),
{
    let ks = keys_of(ps, f);
    if i == ps.len() - 1 {
        assert(ks[ks.len() - 1] == f(ps[i])->0);
    } else {
        lemma_keys_of_has(ps.drop_last(), f, i);
        let j = choose|j: int| 0 <= j < keys_of(ps.drop_last(), f).len() && keys_of(
            ps.drop_last(),
            f,
        )[j] == f(ps[i])->0;
        assert(ks[j] == f(ps[i])->0);
    }
}

proof fn lemma_keys_of_from(ps: Seq<PaperView>, f: spec_fn(PaperView) -> Option<Seq<char>>, k: Seq<char>)
    requires
        keys_of(ps, f).contains(k),
    ensures
        exists|i: int| 0 <= i < ps.len() && f(ps[i]) == Some(k),
    decreases ps.len(),
{
    let pre = keys_of(ps.drop_last(), f);
    if pre.contains(k) {
        lemma_keys_of_from(ps.drop_last(), f, k);
        let i = choose|i: int| 0 <= i < ps.drop_last().len() && f(ps.drop_last()[i]) == Some(k);
        assert(f(ps[i]) == Some(k));
    } else {
        let j = choose|j: int| 0 <= j < keys_of(ps, f).len() && keys_of(ps, f)[j] == k;
        assert(j >= pre.len());
        assert(f(ps[ps.len() - 1]) == Some(k));
    }
}

proof fn lemma_keys_of_push(ps: Seq<PaperView>, f: spec_fn(PaperView) -> Option<Seq<char>>, p: PaperView)
    ensures
        keys_of(ps.push(p), f) == keys_of(ps, f) + match f(p) {
            Some(k) => seq![k],
            None => seq![],
        },
{
    assert(ps.push(p).drop_last() == ps);
}

/// The keys a run has claimed are those of the papers it kept.
proof fn lemma_run_claims(ps: Seq<PaperView>)
    ensures
        dedup_run(ps).1.dois == keys_of(dedup_run(ps).0, |p: PaperView| key_doi(p)),
        dedup_run(ps).1.isbns == keys_of(dedup_run(ps).0, |p: PaperView| key_isbn(p)),
        dedup_run(ps).1.oclcs == keys_of(dedup_run(ps).0, |p: PaperView| key_oclc(p)),
        dedup_run(ps).1.titles == keys_of(dedup_run(ps).0, |p: PaperView| key_title(p)),
    decreases ps.len(),
{
    if ps.len() > 0 {
        lemma_run_claims(ps.drop_last());
        let (out, st) = dedup_run(ps.drop_last());
        let p = ps.last();
        if admits(st, p) {
            lemma_keys_of_push(out, |p: PaperView| key_doi(p), p);
            lemma_keys_of_push(out, |p: PaperView| key_isbn(p), p);
            lemma_keys_of_push(out, |p: PaperView| key_oclc(p), p);
            lemma_keys_of_push(out, |p: PaperView| key_title(p), p);
            assert(claim(st, p).dois =~= keys_of(out.push(p), |p: PaperView| key_doi(p)));
            assert(claim(st, p).isbns =~= keys_of(out.push(p), |p: PaperView| key_isbn(p)));
            assert(claim(st, p).oclcs =~= keys_of(out.push(p), |p: PaperView| key_oclc(p)));
            assert(claim(st, p).titles =~= keys_of(out.push(p), |p: PaperView| key_title(p)));
        }
    }
}

proof fn lemma_unique_push(
    out: Seq<PaperView>,
    f: spec_fn(PaperView) -> Option<Seq<char>>,
    p: PaperView,
)
    requires
        unique_keys(out, f),
        f(p) is Some ==> !keys_of(out, f).contains(f(p)->0),
    ensures
        unique_keys(out.push(p), f),
{
    let o2 = out.push(p);
    assert forall|i: int, j: int|
        0 <= i < j < o2.len() && (#[trigger] f(o2[i])) is Some && (#[trigger] f(o2[j])) is Some
            implies f(o2[i]) != f(o2[j]) by {
        if j == out.len() {
            lemma_keys_of_has(out, f, i);
            assert(o2[i] == out[i]);
        } else {
            assert(o2[i] == out[i] && o2[j] == out[j]);
        }
    }
}

/// No two papers that de-duplication keeps share a DOI (ignoring case), no
/// two kept papers without a DOI share an ISBN (ignoring hyphens and case)
/// or an OCLC number (ignoring surrounding white space and case), and no
/// two kept papers share a non-empty title key.
pub proof fn dedup_keys_unique(ps: Seq<PaperView>)
    ensures
        unique_keys(dedup_spec(ps), |p: PaperView| key_doi(p)),
        unique_keys(dedup_spec(ps), |p: PaperView| key_isbn(p)),
        unique_keys(dedup_spec(ps), |p: PaperView| key_oclc(p)),
        unique_keys(dedup_spec(ps), |p: PaperView| key_title(p)),
    decreases ps.len(),
{
    if ps.len() > 0 {
        dedup_keys_unique(ps.drop_last());
        lemma_run_claims(ps.drop_last());
        let (out, st) = dedup_run(ps.drop_last());
        let p = ps.last();
        if admits(st, p) {
            lemma_unique_push(out, |q: PaperView| key_doi(q), p);
            lemma_unique_push(out, |q: PaperView| key_isbn(q), p);
            lemma_unique_push(out, |q: PaperView| key_oclc(q), p);
            lemma_unique_push(out, |q: PaperView| key_title(q), p);
        }
    }
}

/// De-duplication keeps papers in their input order: the `k`-th kept paper
/// is the input paper at `idx[k]`, and the indices increase.
pub proof fn dedup_keeps_order(ps: Seq<PaperView>) -> (idx: Seq<int>)
    ensures
        idx.len() == dedup_spec(ps).len(),
        forall|k: int| 0 <= k < idx.len() ==> 0 <= #[trigger] idx[k] < ps.len(),
        forall|k: int| 0 <= k < idx.len() ==> dedup_spec(ps)[k] == ps[#[trigger] idx[k]],
        forall|k: int, l: int| 0 <= k < l < idx.len() ==> #[trigger] idx[k] < #[trigger] idx[l],
    decreases ps.len(),
{
    if ps.len() == 0 {
        seq![]
    } else {
        let prev = dedup_keeps_order(ps.drop_last());
        let (out, st) = dedup_run(ps.drop_last());
        if admits(st, ps.last()) {
            let idx = prev.push(ps.len() - 1);
            assert forall|k: int| 0 <= k < idx.len() implies dedup_spec(ps)[k] == ps[
                #[trigger] idx[k]
            ] by {
                if k < prev.len() {
                    assert(idx[k] == prev[k]);
                    assert(ps.drop_last()[prev[k]] == ps[prev[k]]);
                }
            }
            assert forall|k: int, l: int| 0 <= k < l < idx.len() implies #[trigger] idx[k]
                < #[trigger] idx[l] by {
                if l == prev.len() {
                    assert(idx[k] == prev[k]);
                } else {
                    assert(idx[k] == prev[k] && idx[l] == prev[l]);
                }
            }
            idx
        } else {
            assert forall|k: int| 0 <= k < prev.len() implies dedup_spec(ps)[k] == ps[
                #[trigger] prev[k]
            ] by {
                assert(ps.drop_last()[prev[k]] == ps[prev[k]]);
            }
            prev
        }
    }
}

/// De-duplicating an already de-duplicated list changes nothing.
pub proof fn dedup_idempotent(ps: Seq<PaperView>)
    ensures
        dedup_spec(dedup_spec(ps)) == dedup_spec(ps),
{
    let out = dedup_spec(ps);
    dedup_keys_unique(ps);
    lemma_dedup_of_unique(out);
}

proof fn lemma_unique_take(ps: Seq<PaperView>, f: spec_fn(PaperView) -> Option<Seq<char>>, k: int)
    requires
        unique_keys(ps, f),
        0 <= k < ps.len(),
        f(ps[k]) is Some,
    ensures
        !keys_of(ps.take(k), f).contains(f(ps[k])->0),
{
    if keys_of(ps.take(k), f).contains(f(ps[k])->0) {
        lemma_keys_of_from(ps.take(k), f, f(ps[k])->0);
        let i = choose|i: int| 0 <= i < ps.take(k).len() && f(ps.take(k)[i]) == Some(f(ps[k])->0);
        assert(ps.take(k)[i] == ps[i]);
        assert(f(ps[i]) is Some && f(ps[k]) is Some);
    }
}

/// A list whose four keys are each unique passes de-duplication unchanged.
proof fn lemma_dedup_of_unique(ps: Seq<PaperView>)
    requires
        unique_keys(ps, |p: PaperView| key_doi(p)),
        unique_keys(ps, |p: PaperView| key_isbn(p)),
        unique_keys(ps, |p: PaperView| key_oclc(p)),
        unique_keys(ps, |p: PaperView| key_title(p)),
    ensures
        dedup_spec(ps) == ps,
    decreases ps.len(),
{
    if ps.len() > 0 {
        let pre = ps.drop_last();
        let k = ps.len() - 1;
        assert forall|f: spec_fn(PaperView) -> Option<Seq<char>>| unique_keys(ps, f) implies
            unique_keys(pre, f) by {
            assert forall|i: int, j: int|
                0 <= i < j < pre.len() && (#[trigger] f(pre[i])) is Some && (#[trigger] f(
                    pre[j],
                )) is Some implies f(pre[i]) != f(pre[j]) by {
                assert(pre[i] == ps[i] && pre[j] == ps[j]);
            }
        }
        lemma_dedup_of_unique(pre);
        lemma_run_claims(pre);
        assert(ps.take(k) == pre);
        let p = ps[k];
        if key_doi(p) is Some {
            lemma_unique_take(ps, |q: PaperView| key_doi(q), k);
        }
        if key_isbn(p) is Some {
            lemma_unique_take(ps, |q: PaperView| key_isbn(q), k);
        }
        if key_oclc(p) is Some {
            lemma_unique_take(ps, |q: PaperView| key_oclc(q), k);
        }
        if key_title(p) is Some {
            lemma_unique_take(ps, |q: PaperView| key_title(q), k);
        }
        assert(admits(dedup_run(pre).1, p));
        assert(pre.push(p) == ps);
    }
}

// ---------------------------------------------------------------------------
// Dates
// ---------------------------------------------------------------------------
/// A paper with a year but no publication date gets `YYYY-01-01`, the year
/// zero-padded to four digits.
pub open spec fn with_date(p: PaperView) -> PaperView {
    match (p.published_date, p.year) {
        (None, Some(y)) => PaperView {
            published_date: Some(int_dec_padded(y as int, 4) + "-01-01"@),
            ..p
        },
        _ => p,
    }
}

/// `YYYY-01-01` for a year.
pub fn january_first(y: i32) -> (r: String)
    ensures
        r@ == int_dec_padded(y as int, 4) + "-01-01"@,
{
    let mut d = fmt_int_padded(y as i64, 4);
    extend_str(&mut d, "-01-01");
    string_of(&d)
}

/// Gives every paper that has a year but no publication date the date
/// `YYYY-01-01`.
pub fn normalize_dates(papers: &mut Vec<Paper>)
    ensures
        paper_views(final(papers)@) == paper_views(old(papers)@).map_values(
            |p: PaperView| with_date(p),
        ),
{
    let mut i: usize = 0;
    while i < papers.len()
        invariant
            i <= papers.len() == old(papers).len(),
            forall|k: int| 0 <= k < i ==> #[trigger] papers@[k]@ == with_date(old(papers)@[k]@),
            forall|k: int| i <= k < papers.len() ==> #[trigger] papers@[k] == old(papers)@[k],
        decreases papers.len() - i,
    {
        if papers[i].published_date.is_none() {
            match papers[i].year {
                Some(y) => {
                    let d = january_first(y);
                    papers[i].published_date = Some(d);
                },
                None => {},
            }
        }
        i = i + 1;
    }
    assert(paper_views(papers@) =~= paper_views(old(papers)@).map_values(
        |p: PaperView| with_date(p),
    ));
}

// ---------------------------------------------------------------------------
// Ordering
// ---------------------------------------------------------------------------
/// Lexicographic order of strings by code point (`Ord` for `String`).
pub open spec fn str_lt(a: Seq<char>, b: Seq<char>) -> bool
    decreases a.len(),
{
    if a.len() == 0 {
        b.len() > 0
    } else if b.len() == 0 {
        false
    } else if a[0] != b[0] {
        (a[0] as u32) < (b[0] as u32)
    } else {
        str_lt(a.drop_first(), b.drop_first())
    }
}

/// `Ord` for `Option<String>`: `None` first.
pub open spec fn opt_str_lt(a: Option<Seq<char>>, b: Option<Seq<char>>) -> bool {
    match (a, b) {
        (None, Some(_)) => true,
        (Some(x), Some(y)) => str_lt(x, y),
        _ => false,
    }
}

/// `Ord` for `Option<i64>`: `None` first.
pub open spec fn opt_int_lt(a: Option<i64>, b: Option<i64>) -> bool {
    match (a, b) {
        (None, Some(_)) => true,
        (Some(x), Some(y)) => x < y,
        _ => false,
    }
}

/// Whether `a` goes strictly before `b` in the given order: newest date
/// first, oldest date first, or most citations first (a missing value
/// counts as the smallest). Under `Relevance` nothing moves.
pub open spec fn goes_before(sort: SortOrder, a: PaperView, b: PaperView) -> bool {
    match sort {
        SortOrder::Relevance => false,
        SortOrder::Date => opt_str_lt(b.published_date, a.published_date),
        SortOrder::DateAsc => opt_str_lt(a.published_date, b.published_date),
        SortOrder::Citations => opt_int_lt(b.citation_count, a.citation_count),
    }
}

/// `s` with `x` inserted before the trailing elements that `x` goes
/// before (after every element it does not go before).
pub open spec fn insert_by(sort: SortOrder, s: Seq<PaperView>, x: PaperView) -> Seq<PaperView>
    decreases s.len(),
{
    if s.len() > 0 && goes_before(sort, x, s.last()) {
        insert_by(sort, s.drop_last(), x).push(s.last())
    } else {
        s.push(x)
    }
}

/// The stable sort of `s`: insertion of each element in turn.
pub open spec fn sorted_by(sort: SortOrder, s: Seq<PaperView>) -> Seq<PaperView>
    decreases s.len(),
{
    if s.len() == 0 {
        seq![]
    } else {
        insert_by(sort, sorted_by(sort, s.drop_last()), s.last())
    }
}

/// Whether `a < b` for two strings.
fn string_lt(a: &String, b: &String) -> (r: bool)
    ensures
        r == str_lt(a@, b@),
{
    let x = chars_of(a.as_str());
    let y = chars_of(b.as_str());
    let mut i: usize = 0;
    assert(a@.skip(0) == a@ && b@.skip(0) == b@);
    while i < x.len() && i < y.len() && x[i] == y[i]
        invariant
            i <= x.len() && i <= y.len(),
            x@ == a@ && y@ == b@,
            str_lt(a@, b@) == str_lt(a@.skip(i as int), b@.skip(i as int)),
        decreases x.len() - i,
    {
        assert(a@.skip(i as int).drop_first() == a@.skip(i + 1));
        assert(b@.skip(i as int).drop_first() == b@.skip(i + 1));
        i = i + 1;
    }
    if i == x.len() {
        i < y.len()
    } else if i == y.len() {
        false
    } else {
        assert(a@.skip(i as int)[0] == x@[i as int]);
        assert(b@.skip(i as int)[0] == y@[i as int]);
        (x[i] as u32) < (y[i] as u32)
    }
}

fn opt_string_lt(a: &Option<String>, b: &Option<String>) -> (r: bool)
    ensures
        r == opt_str_lt(crate::text::ostr(*a), crate::text::ostr(*b)),
{
    match (a, b) {
        (None, Some(_)) => true,
        (Some(x), Some(y)) => string_lt(x, y),
        _ => false,
    }
}

fn opt_i64_lt(a: Option<i64>, b: Option<i64>) -> (r: bool)
    ensures
        r == opt_int_lt(a, b),
{
    match (a, b) {
        (None, Some(_)) => true,
        (Some(x), Some(y)) => x < y,
        _ => false,
    }
}

/// Whether `a` goes strictly before `b` under `sort`.
fn precedes(sort: SortOrder, a: &Paper, b: &Paper) -> (r: bool)
    ensures
        r == goes_before(sort, a@, b@),
{
    match sort {
        SortOrder::Relevance => false,
        SortOrder::Date => opt_string_lt(&b.published_date, &a.published_date),
        SortOrder::DateAsc => opt_string_lt(&a.published_date, &b.published_date),
        SortOrder::Citations => opt_i64_lt(b.citation_count, a.citation_count),
    }
}

proof fn lemma_insert_split(sort: SortOrder, s: Seq<PaperView>, x: PaperView, pos: int)
    requires
        0 <= pos <= s.len(),
        forall|j: int| pos <= j < s.len() ==> goes_before(sort, x, #[trigger] s[j]),
    ensures
        insert_by(sort, s, x) == insert_by(sort, s.take(pos), x) + s.skip(pos),
    decreases s.len() - pos,
{
    if pos < s.len() {
        lemma_insert_split(sort, s, x, pos + 1);
        let t = s.take(pos + 1);
        assert(t.drop_last() == s.take(pos));
        assert(t.last() == s[pos]);
        assert(insert_by(sort, t, x) == insert_by(sort, s.take(pos), x).push(s[pos]));
        assert(insert_by(sort, s.take(pos), x).push(s[pos]) + s.skip(pos + 1) =~= insert_by(
            sort,
            s.take(pos),
            x,
        ) + s.skip(pos));
    } else {
        assert(s.take(pos) == s);
        assert(s.skip(pos) =~= Seq::<PaperView>::empty());
    }
}

/// Orders the papers: newest first (`Date`), oldest first (`DateAsc`), most
/// cited first (`Citations`), or not at all (`Relevance`). Papers that
/// compare equal keep their order.
pub fn sort_papers(papers: &mut Vec<Paper>, sort: SortOrder)
    ensures
        paper_views(final(papers)@) == sorted_by(sort, paper_views(old(papers)@)),
{
    let ghost ps = paper_views(papers@);
    let mut input: Vec<Paper> = Vec::new();
    std::mem::swap(&mut input, papers);
    let mut out: Vec<Paper> = Vec::new();
    for x in it: input
        invariant
            it.seq() == input@,
            ps == paper_views(input@),
            paper_views(out@) == sorted_by(sort, ps.take(it.index() as int)),
    {
        let ghost i = it.index();
        assert(ps.take(i + 1).drop_last() == ps.take(i as int));
        assert(ps.take(i + 1).last() == x@);
        let ghost o = paper_views(out@);
        let mut pos = out.len();
        while pos > 0 && precedes(sort, &x, &out[pos - 1])
            invariant
                pos <= out.len(),
                o == paper_views(out@),
                forall|j: int| pos <= j < out.len() ==> goes_before(sort, x@, #[trigger] o[j]),
            decreases pos,
        {
            pos = pos - 1;
        }
        proof {
            lemma_insert_split(sort, o, x@, pos as int);
            if pos > 0 {
                assert(o.take(pos as int).last() == o[pos - 1]);
            }
        }
        out.insert(pos, x);
        assert(paper_views(out@) =~= o.take(pos as int).push(x@) + o.skip(pos as int));
    }
    assert(ps.take(ps.len() as int) == ps);
    *papers = out;
}

// ---------------------------------------------------------------------------
// What sorting guarantees
// ---------------------------------------------------------------------------
proof fn lemma_str_lt_irrefl(a: Seq<char>)
    ensures
        !str_lt(a, a),
    decreases a.len(),
{
    if a.len() > 0 {
        lemma_str_lt_irrefl(a.drop_first());
    }
}

proof fn lemma_str_lt_total(a: Seq<char>, b: Seq<char>)
    ensures
        a != b ==> str_lt(a, b) || str_lt(b, a),
    decreases a.len(),
{
    if a.len() > 0 && b.len() > 0 && a[0] == b[0] {
        lemma_str_lt_total(a.drop_first(), b.drop_first());
        if a.drop_first() == b.drop_first() {
            assert(a =~= seq![a[0]] + a.drop_first());
            assert(b =~= seq![b[0]] + b.drop_first());
            assert(a =~= b);
        }
    } else if a.len() == 0 && b.len() == 0 {
        assert(a =~= b);
    } else if a.len() > 0 && b.len() > 0 {
        vstd::utf8::char_u32_cast(a[0], a[0] as u32);
        vstd::utf8::char_u32_cast(b[0], b[0] as u32);
    }
}

proof fn lemma_str_lt_trans(a: Seq<char>, b: Seq<char>, c: Seq<char>)
    requires
        str_lt(a, b),
        str_lt(b, c),
    ensures
        str_lt(a, c),
    decreases a.len(),
{
    if a.len() > 0 && b.len() > 0 && c.len() > 0 && a[0] == b[0] && b[0] == c[0] {
        lemma_str_lt_trans(a.drop_first(), b.drop_first(), c.drop_first());
    }
}

proof fn lemma_str_lt_asym(a: Seq<char>, b: Seq<char>)
    ensures
        str_lt(a, b) ==> !str_lt(b, a),
{
    if str_lt(a, b) && str_lt(b, a) {
        lemma_str_lt_trans(a, b, a);
        lemma_str_lt_irrefl(a);
    }
}

/// `goes_before` is a strict weak order: never both ways, and "does not go
/// before" is transitive.
proof fn lemma_goes_before_order(sort: SortOrder, a: PaperView, b: PaperView, c: PaperView)
    ensures
        goes_before(sort, a, b) ==> !goes_before(sort, b, a),
        !goes_before(sort, a, b) && !goes_before(sort, b, c) ==> !goes_before(sort, a, c),
{
    match sort {
        SortOrder::Relevance => {},
        SortOrder::Citations => {},
        _ => {
            let (x, y, z) = if sort is Date {
                (b.published_date, a.published_date, c.published_date)
            } else {
                (a.published_date, b.published_date, c.published_date)
            };
            if let (Some(p), Some(q)) = (x, y) {
                lemma_str_lt_asym(p, q);
            }
            if let (Some(p), Some(q), Some(r)) = (x, y, z) {
                lemma_str_lt_total(p, q);
                lemma_str_lt_total(q, r);
                lemma_str_lt_irrefl(p);
                lemma_str_lt_irrefl(r);
                if str_lt(q, p) && str_lt(r, q) {
                    lemma_str_lt_trans(r, q, p);
                    lemma_str_lt_asym(r, p);
                }
                if str_lt(q, p) && r == q {
                    lemma_str_lt_asym(q, p);
                }
                if q == p && str_lt(r, q) {
                    lemma_str_lt_asym(r, q);
                }
                if sort is Date {
                    lemma_str_lt_total(r, p);
                    if str_lt(p, q) && str_lt(q, r) {
                        lemma_str_lt_trans(p, q, r);
                    }
                }
            }
        },
    }
}

/// Every element of the list goes no earlier than the ones before it.
pub open spec fn in_order(sort: SortOrder, s: Seq<PaperView>) -> bool {
    forall|i: int, j: int| 0 <= i < j < s.len() ==> !goes_before(sort, #[trigger] s[j], #[trigger] s[i])
}

proof fn lemma_insert_in_order(sort: SortOrder, s: Seq<PaperView>, x: PaperView)
    requires
        in_order(sort, s),
    ensures
        in_order(sort, insert_by(sort, s, x)),
        insert_by(sort, s, x).to_multiset() == s.to_multiset().insert(x),
    decreases s.len(),
{
    broadcast use vstd::seq_lib::group_to_multiset_ensures, vstd::multiset::group_multiset_axioms;

    let r = insert_by(sort, s, x);
    if s.len() > 0 && goes_before(sort, x, s.last()) {
        let pre = s.drop_last();
        assert forall|i: int, j: int| 0 <= i < j < pre.len() implies !goes_before(
            sort,
            #[trigger] pre[j],
            #[trigger] pre[i],
        ) by {
            assert(pre[i] == s[i] && pre[j] == s[j]);
        }
        lemma_insert_in_order(sort, pre, x);
        let t = insert_by(sort, pre, x);
        assert forall|i: int, j: int| 0 <= i < j < r.len() implies !goes_before(
            sort,
            #[trigger] r[j],
            #[trigger] r[i],
        ) by {
            if j == r.len() - 1 {
                assert(r[j] == s.last());
                let ti = t[i];
                assert(r[i] == ti);
                assert(t.to_multiset().count(ti) > 0);
                if ti == x {
                    lemma_goes_before_order(sort, x, s.last(), s.last());
                } else {
                    assert(t.to_multiset() == pre.to_multiset().insert(x));
                    assert(pre.to_multiset().count(ti) > 0);
                    assert(pre.contains(ti));
                    let k = choose|k: int| 0 <= k < pre.len() && pre[k] == ti;
                    assert(s[k] == ti);
                    assert(!goes_before(sort, s[s.len() - 1], s[k]));
                }
            } else {
                assert(r[i] == t[i] && r[j] == t[j]);
            }
        }
        assert(s =~= pre.push(s.last()));
    } else {
        assert forall|i: int, j: int| 0 <= i < j < r.len() implies !goes_before(
            sort,
            #[trigger] r[j],
            #[trigger] r[i],
        ) by {
            if j == s.len() {
                assert(r[j] == x);
                if s.len() > 0 {
                    let last = s.last();
                    if i < s.len() - 1 {
                        assert(!goes_before(sort, s[s.len() - 1], s[i]));
                        lemma_goes_before_order(sort, x, last, s[i]);
                    }
                }
            } else {
                assert(r[i] == s[i] && r[j] == s[j]);
            }
        }
    }
}

/// Sorting puts the papers in order (no paper goes before one listed
/// earlier) and keeps exactly the same papers.
pub proof fn sort_orders_and_keeps(sort: SortOrder, s: Seq<PaperView>)
    ensures
        in_order(sort, sorted_by(sort, s)),
        sorted_by(sort, s).to_multiset() == s.to_multiset(),
    decreases s.len(),
{
    broadcast use vstd::seq_lib::group_to_multiset_ensures;

    if s.len() > 0 {
        sort_orders_and_keeps(sort, s.drop_last());
        lemma_insert_in_order(sort, sorted_by(sort, s.drop_last()), s.last());
        assert(s =~= s.drop_last().push(s.last()));
    } else {
        assert(s.to_multiset() =~= vstd::multiset::Multiset::<PaperView>::empty());
    }
}

// ---------------------------------------------------------------------------
// Meta-search: which sources to ask, and how their answers are merged
// ---------------------------------------------------------------------------
/// The positions in `kinds` of the sources that answer queries of kind `t`.
pub open spec fn applicable_of(kinds: Seq<ProviderKind>, t: SearchType) -> Seq<int>
    decreases kinds.len(),
{
    if kinds.len() == 0 {
        seq![]
    } else {
        applicable_of(kinds.drop_last(), t) + if kind_search_types(kinds.last()).contains(t) {
            seq![kinds.len() - 1]
        } else {
            seq![]
        }
    }
}

/// How a meta-search is run: the kind of query, the sources asked (as
/// positions in the list of sources), and the window each source is asked
/// for. A lone source is asked for the caller's window; several sources are
/// each asked for everything up to the end of the window, which is cut out
/// after merging.
pub struct SearchPlan {
    pub search_type: SearchType,
    pub applicable: Vec<usize>,
    pub provider_limit: usize,
    pub provider_offset: usize,
}

/// The kind of query searched: the one asked for, or the detected one.
pub open spec fn effective_type(query: Seq<char>, requested: Option<SearchType>) -> SearchType {
    match requested {
        Some(t) => t,
        None => search_type_of(query),
    }
}

/// Plans a meta-search over the sources `kinds`.
pub fn plan_search(
    query: &str,
    kinds: &Vec<ProviderKind>,
    requested: Option<SearchType>,
    limit: usize,
    offset: usize,
) -> (plan: SearchPlan)
    requires
        applicable_of(kinds@, effective_type(query@, requested)).len() > 1 ==> offset + limit
            <= usize::MAX,
    ensures
        plan.search_type == effective_type(query@, requested),
        plan.applicable@.map_values(|i: usize| i as int) == applicable_of(kinds@, plan.search_type),
        plan.applicable@.len() == 1 ==> plan.provider_limit == limit && plan.provider_offset
            == offset,
        plan.applicable@.len() > 1 ==> plan.provider_limit == offset + limit
            && plan.provider_offset == 0,
{
    let t = match requested {
        Some(t) => t,
        None => detect_search_type(query),
    };
    let mut app: Vec<usize> = Vec::new();
    let mut i: usize = 0;
    while i < kinds.len()
        invariant
            i <= kinds.len(),
            app@.map_values(|i: usize| i as int) == applicable_of(kinds@.take(i as int), t),
        decreases kinds.len() - i,
    {
        assert(kinds@.take(i + 1).drop_last() == kinds@.take(i as int));
        assert(kinds@.take(i + 1).last() == kinds@[i as int]);
        let ghost before = app@.map_values(|i: usize| i as int);
        if kinds[i].supports(t) {
            app.push(i);
            assert(app@.map_values(|i: usize| i as int) =~= before.push(i as int));
        }
        i = i + 1;
    }
    assert(kinds@.take(kinds.len() as int) == kinds@);
    let n = app.len();
    if n > 1 {
        SearchPlan { search_type: t, applicable: app, provider_limit: offset + limit, provider_offset: 0 }
    } else {
        SearchPlan { search_type: t, applicable: app, provider_limit: limit, provider_offset: offset }
    }
}

/// What one source made of the search: its name and its answer, or `None`
/// when it failed or ran out of time.
#[derive(Debug)]
pub struct ProviderOutcome {
    pub name: String,
    pub result: Option<ProviderResult>,
}

/// The content of a source's outcome.
pub struct OutcomeView {
    pub name: Seq<char>,
    pub answered: bool,
    pub papers: Seq<PaperView>,
    pub total_hits: Option<usize>,
}

/// The content of an outcome.
pub open spec fn outcome_view(o: ProviderOutcome) -> OutcomeView {
    match o.result {
        Some(r) => OutcomeView {
            name: o.name@,
            answered: true,
            papers: paper_views(r.papers@),
            total_hits: r.total_hits,
        },
        None => OutcomeView { name: o.name@, answered: false, papers: seq![], total_hits: None },
    }
}

/// The contents of a list of outcomes.
pub open spec fn outcome_views(os: Seq<ProviderOutcome>) -> Seq<OutcomeView> {
    os.map_values(|o: ProviderOutcome| outcome_view(o))
}

/// The papers of all answering sources, in the order the outcomes come.
pub open spec fn merged_papers(os: Seq<OutcomeView>) -> Seq<PaperView>
    decreases os.len(),
{
    if os.len() == 0 {
        seq![]
    } else {
        merged_papers(os.drop_last()) + os.last().papers
    }
}

/// The reported hit counts, as (source, count) pairs in outcome order.
pub open spec fn hit_counts(os: Seq<OutcomeView>) -> Seq<(Seq<char>, usize)>
    decreases os.len(),
{
    if os.len() == 0 {
        seq![]
    } else {
        hit_counts(os.drop_last()) + match os.last().total_hits {
            Some(h) => seq![(os.last().name, h)],
            None => seq![],
        }
    }
}

/// The names of the sources that answered (`ok`) or failed (`!ok`), in
/// outcome order.
pub open spec fn names_where(os: Seq<OutcomeView>, ok: bool) -> Seq<Seq<char>>
    decreases os.len(),
{
    if os.len() == 0 {
        seq![]
    } else {
        names_where(os.drop_last(), ok) + if os.last().answered == ok {
            seq![os.last().name]
        } else {
            seq![]
        }
    }
}

/// The sum of the counts.
pub open spec fn hits_sum(hs: Seq<(Seq<char>, usize)>) -> int
    decreases hs.len(),
{
    if hs.len() == 0 {
        0
    } else {
        hits_sum(hs.drop_last()) + hs.last().1
    }
}

/// `s` with `x` inserted after every string not greater than it.
pub open spec fn insert_str(s: Seq<Seq<char>>, x: Seq<char>) -> Seq<Seq<char>>
    decreases s.len(),
{
    if s.len() > 0 && str_lt(x, s.last()) {
        insert_str(s.drop_last(), x).push(s.last())
    } else {
        s.push(x)
    }
}

/// `s` in ascending order (`sort` for strings).
pub open spec fn sorted_strs(s: Seq<Seq<char>>) -> Seq<Seq<char>>
    decreases s.len(),
{
    if s.len() == 0 {
        seq![]
    } else {
        insert_str(sorted_strs(s.drop_last()), s.last())
    }
}

proof fn lemma_insert_str_split(s: Seq<Seq<char>>, x: Seq<char>, pos: int)
    requires
        0 <= pos <= s.len(),
        forall|j: int| pos <= j < s.len() ==> str_lt(x, #[trigger] s[j]),
    ensures
        insert_str(s, x) == insert_str(s.take(pos), x) + s.skip(pos),
    decreases s.len() - pos,
{
    if pos < s.len() {
        lemma_insert_str_split(s, x, pos + 1);
        let t = s.take(pos + 1);
        assert(t.drop_last() == s.take(pos));
        assert(t.last() == s[pos]);
        assert(insert_str(s.take(pos), x).push(s[pos]) + s.skip(pos + 1) =~= insert_str(
            s.take(pos),
            x,
        ) + s.skip(pos));
    } else {
        assert(s.take(pos) == s);
        assert(s.skip(pos) =~= Seq::<Seq<char>>::empty());
    }
}

/// Sorts names in ascending order.
pub fn sort_names(names: Vec<String>) -> (r: Vec<String>)
    ensures
        views(r@) == sorted_strs(views(names@)),
{
    let ghost ns = views(names@);
    let mut out: Vec<String> = Vec::new();
    for x in it: names
        invariant
            it.seq() == names@,
            ns == views(names@),
            views(out@) == sorted_strs(ns.take(it.index() as int)),
    {
        let ghost i = it.index();
        assert(ns.take(i + 1).drop_last() == ns.take(i as int));
        assert(ns.take(i + 1).last() == x@);
        let ghost o = views(out@);
        let mut pos = out.len();
        while pos > 0 && string_lt(&x, &out[pos - 1])
            invariant
                pos <= out.len(),
                o == views(out@),
                forall|j: int| pos <= j < out.len() ==> str_lt(x@, #[trigger] o[j]),
            decreases pos,
        {
            pos = pos - 1;
        }
        proof {
            lemma_insert_str_split(o, x@, pos as int);
            if pos > 0 {
                assert(o.take(pos as int).last() == o[pos - 1]);
            }
        }
        out.insert(pos, x);
        assert(views(out@) =~= o.take(pos as int).push(x@) + o.skip(pos as int));
    }
    assert(ns.take(ns.len() as int) == ns);
    out
}

/// The window the caller asked for. Several sources were each asked from
/// the start, so the first `offset` merged papers are skipped; a lone
/// source already skipped them. At most `limit` papers remain.
pub open spec fn page(s: Seq<PaperView>, single: bool, limit: usize, offset: usize) -> Seq<PaperView> {
    let t = if !single && offset > 0 {
        if offset >= s.len() {
            seq![]
        } else {
            s.skip(offset as int)
        }
    } else {
        s
    };
    if t.len() > limit {
        t.take(limit as int)
    } else {
        t
    }
}

/// The papers a meta-search reports: the merged papers de-duplicated, given
/// dates, ordered, and cut to the window.
pub open spec fn result_papers(
    os: Seq<OutcomeView>,
    single: bool,
    limit: usize,
    offset: usize,
    sort: SortOrder,
) -> Seq<PaperView> {
    page(
        sorted_by(sort, dedup_spec(merged_papers(os)).map_values(|p: PaperView| with_date(p))),
        single,
        limit,
        offset,
    )
}

/// A key the papers keep through dating: `with_date` changes neither DOI,
/// ISBN, OCLC number nor title.
pub open spec fn dating_keeps(f: spec_fn(PaperView) -> Option<Seq<char>>) -> bool {
    forall|p: PaperView| #[trigger] f(with_date(p)) == f(p)
}

proof fn lemma_unique_dated(u: Seq<PaperView>, f: spec_fn(PaperView) -> Option<Seq<char>>)
    requires
        unique_keys(u, f),
        dating_keeps(f),
    ensures
        unique_keys(u.map_values(|p: PaperView| with_date(p)), f),
{
    let d = u.map_values(|p: PaperView| with_date(p));
    assert forall|i: int, j: int|
        0 <= i < j < d.len() && (#[trigger] f(d[i])) is Some && (#[trigger] f(d[j])) is Some
            implies f(d[i]) != f(d[j]) by {
        assert(f(d[i]) == f(with_date(u[i])));
        assert(f(d[j]) == f(with_date(u[j])));
        assert(f(u[i]) is Some && f(u[j]) is Some);
    }
}

proof fn lemma_insert_unique(
    sort: SortOrder,
    t: Seq<PaperView>,
    x: PaperView,
    f: spec_fn(PaperView) -> Option<Seq<char>>,
)
    requires
        unique_keys(t, f),
        forall|i: int| 0 <= i < t.len() && f(x) is Some ==> f(#[trigger] t[i]) != f(x),
    ensures
        unique_keys(insert_by(sort, t, x), f),
        forall|y: PaperView| #[trigger] insert_by(sort, t, x).contains(y) ==> y == x || t.contains(y),
    decreases t.len(),
{
    if t.len() > 0 && goes_before(sort, x, t.last()) {
        let pre = t.drop_last();
        assert forall|i: int, j: int|
            0 <= i < j < pre.len() && (#[trigger] f(pre[i])) is Some && (#[trigger] f(pre[j])) is Some
                implies f(pre[i]) != f(pre[j]) by {
            assert(pre[i] == t[i] && pre[j] == t[j]);
        }
        assert forall|i: int| 0 <= i < pre.len() && f(x) is Some implies f(#[trigger] pre[i]) != f(x) by {
            assert(pre[i] == t[i]);
        }
        lemma_insert_unique(sort, pre, x, f);
        let r0 = insert_by(sort, pre, x);
        let y = t.last();
        assert forall|k: int| 0 <= k < r0.len() && f(y) is Some implies f(#[trigger] r0[k]) != f(y) by {
            assert(r0.contains(r0[k]));
            if r0[k] == x {
            } else {
                let m = choose|m: int| 0 <= m < pre.len() && pre[m] == r0[k];
                assert(pre[m] == t[m]);
                assert(t[t.len() - 1] == y);
                if f(t[m]) is Some {
                    assert(f(t[m]) != f(t[t.len() - 1]));
                }
            }
        }
        let r = r0.push(y);
        assert forall|i: int, j: int|
            0 <= i < j < r.len() && (#[trigger] f(r[i])) is Some && (#[trigger] f(r[j])) is Some
                implies f(r[i]) != f(r[j]) by {
            if j == r0.len() {
                assert(r[i] == r0[i]);
            } else {
                assert(r[i] == r0[i] && r[j] == r0[j]);
            }
        }
        assert forall|z: PaperView| #[trigger] r.contains(z) implies z == x || t.contains(z) by {
            let k = choose|k: int| 0 <= k < r.len() && r[k] == z;
            if k == r0.len() {
                assert(t[t.len() - 1] == z);
            } else {
                assert(r0[k] == z);
                assert(r0.contains(z));
                if z != x {
                    let m = choose|m: int| 0 <= m < pre.len() && pre[m] == z;
                    assert(t[m] == z);
                }
            }
        }
    } else {
        let r = t.push(x);
        assert forall|i: int, j: int|
            0 <= i < j < r.len() && (#[trigger] f(r[i])) is Some && (#[trigger] f(r[j])) is Some
                implies f(r[i]) != f(r[j]) by {
            if j == t.len() {
                assert(r[i] == t[i]);
            } else {
                assert(r[i] == t[i] && r[j] == t[j]);
            }
        }
        assert forall|z: PaperView| #[trigger] r.contains(z) implies z == x || t.contains(z) by {
            let k = choose|k: int| 0 <= k < r.len() && r[k] == z;
            if k < t.len() {
                assert(t[k] == z);
            }
        }
    }
}

proof fn lemma_sorted_unique(sort: SortOrder, s: Seq<PaperView>, f: spec_fn(PaperView) -> Option<Seq<char>>)
    requires
        unique_keys(s, f),
    ensures
        unique_keys(sorted_by(sort, s), f),
        forall|y: PaperView| #[trigger] sorted_by(sort, s).contains(y) ==> s.contains(y),
    decreases s.len(),
{
    if s.len() > 0 {
        let pre = s.drop_last();
        let x = s.last();
        assert forall|i: int, j: int|
            0 <= i < j < pre.len() && (#[trigger] f(pre[i])) is Some && (#[trigger] f(pre[j])) is Some
                implies f(pre[i]) != f(pre[j]) by {
            assert(pre[i] == s[i] && pre[j] == s[j]);
        }
        lemma_sorted_unique(sort, pre, f);
        let t = sorted_by(sort, pre);
        assert forall|i: int| 0 <= i < t.len() && f(x) is Some implies f(#[trigger] t[i]) != f(x) by {
            assert(t.contains(t[i]));
            let m = choose|m: int| 0 <= m < pre.len() && pre[m] == t[i];
            assert(pre[m] == s[m]);
            assert(s[s.len() - 1] == x);
            if f(s[m]) is Some {
                assert(f(s[m]) != f(s[s.len() - 1]));
            }
        }
        lemma_insert_unique(sort, t, x, f);
        assert forall|y: PaperView| #[trigger] sorted_by(sort, s).contains(y) implies s.contains(y) by {
            assert(insert_by(sort, t, x).contains(y));
            if y == x {
                assert(s[s.len() - 1] == y);
            } else {
                assert(t.contains(y));
                let m = choose|m: int| 0 <= m < pre.len() && pre[m] == y;
                assert(s[m] == y);
            }
        }
    }
}

proof fn lemma_page_unique(
    s: Seq<PaperView>,
    single: bool,
    limit: usize,
    offset: usize,
    f: spec_fn(PaperView) -> Option<Seq<char>>,
)
    requires
        unique_keys(s, f),
    ensures
        unique_keys(page(s, single, limit, offset), f),
        page(s, single, limit, offset).len() <= limit,
{
    let t = if !single && offset > 0 {
        if offset >= s.len() {
            seq![]
        } else {
            s.skip(offset as int)
        }
    } else {
        s
    };
    let d: int = if !single && offset > 0 && offset < s.len() {
        offset as int
    } else {
        0
    };
    assert forall|i: int| 0 <= i < t.len() implies #[trigger] t[i] == s[i + d] by {}
    let r = page(s, single, limit, offset);
    assert forall|i: int| 0 <= i < r.len() implies #[trigger] r[i] == s[i + d] by {
        assert(r[i] == t[i]);
    }
    assert forall|i: int, j: int|
        0 <= i < j < r.len() && (#[trigger] f(r[i])) is Some && (#[trigger] f(r[j])) is Some
            implies f(r[i]) != f(r[j]) by {
        assert(r[i] == s[i + d] && r[j] == s[j + d]);
    }
}

proof fn lemma_result_unique(
    os: Seq<OutcomeView>,
    single: bool,
    limit: usize,
    offset: usize,
    sort: SortOrder,
    f: spec_fn(PaperView) -> Option<Seq<char>>,
)
    requires
        unique_keys(dedup_spec(merged_papers(os)), f),
        dating_keeps(f),
    ensures
        unique_keys(result_papers(os, single, limit, offset, sort), f),
        result_papers(os, single, limit, offset, sort).len() <= limit,
{
    let u = dedup_spec(merged_papers(os));
    lemma_unique_dated(u, f);
    let d = u.map_values(|p: PaperView| with_date(p));
    lemma_sorted_unique(sort, d, f);
    lemma_page_unique(sorted_by(sort, d), single, limit, offset, f);
}

/// The papers a meta-search reports are free of duplicates: no two share
/// a DOI (ignoring case), no two without a DOI share an ISBN or an OCLC
/// number, and no two share a non-empty title key; and there are at most
/// `limit` of them.
pub proof fn search_results_unique(
    os: Seq<OutcomeView>,
    single: bool,
    limit: usize,
    offset: usize,
    sort: SortOrder,
)
    ensures
        unique_keys(result_papers(os, single, limit, offset, sort), |p: PaperView| key_doi(p)),
        unique_keys(result_papers(os, single, limit, offset, sort), |p: PaperView| key_isbn(p)),
        unique_keys(result_papers(os, single, limit, offset, sort), |p: PaperView| key_oclc(p)),
        unique_keys(result_papers(os, single, limit, offset, sort), |p: PaperView| key_title(p)),
        result_papers(os, single, limit, offset, sort).len() <= limit,
{
    let m = merged_papers(os);
    dedup_keys_unique(m);
    let fd = |p: PaperView| key_doi(p);
    let fi = |p: PaperView| key_isbn(p);
    let fo = |p: PaperView| key_oclc(p);
    let ft = |p: PaperView| key_title(p);
    assert(dating_keeps(fd));
    assert(dating_keeps(fi));
    assert(dating_keeps(fo));
    assert(dating_keeps(ft));
    lemma_result_unique(os, single, limit, offset, sort, fd);
    lemma_result_unique(os, single, limit, offset, sort, fi);
    lemma_result_unique(os, single, limit, offset, sort, fo);
    lemma_result_unique(os, single, limit, offset, sort, ft);
}

proof fn lemma_insert_str_multiset(s: Seq<Seq<char>>, x: Seq<char>)
    ensures
        insert_str(s, x).to_multiset() == s.to_multiset().insert(x),
    decreases s.len(),
{
    broadcast use vstd::seq_lib::group_to_multiset_ensures, vstd::multiset::group_multiset_axioms;

    if s.len() > 0 && str_lt(x, s.last()) {
        lemma_insert_str_multiset(s.drop_last(), x);
        assert(s =~= s.drop_last().push(s.last()));
        assert(insert_str(s.drop_last(), x).push(s.last()).to_multiset() =~= s.drop_last().to_multiset().insert(
            x,
        ).insert(s.last()));
        assert(s.to_multiset().insert(x) =~= s.drop_last().to_multiset().insert(s.last()).insert(x));
    }
}

proof fn lemma_sorted_strs_multiset(s: Seq<Seq<char>>)
    ensures
        sorted_strs(s).to_multiset() == s.to_multiset(),
    decreases s.len(),
{
    broadcast use vstd::seq_lib::group_to_multiset_ensures, vstd::multiset::group_multiset_axioms;

    if s.len() > 0 {
        lemma_sorted_strs_multiset(s.drop_last());
        lemma_insert_str_multiset(sorted_strs(s.drop_last()), s.last());
        assert(s =~= s.drop_last().push(s.last()));
    } else {
        assert(s.to_multiset() =~= vstd::multiset::Multiset::<Seq<char>>::empty());
        assert(sorted_strs(s).to_multiset() =~= vstd::multiset::Multiset::<Seq<char>>::empty());
    }
}

/// The names of the sources asked, in order.
pub open spec fn outcome_names(os: Seq<OutcomeView>) -> Seq<Seq<char>> {
    os.map_values(|o: OutcomeView| o.name)
}

proof fn lemma_names_split(os: Seq<OutcomeView>)
    ensures
        names_where(os, true).to_multiset().add(names_where(os, false).to_multiset())
            == outcome_names(os).to_multiset(),
    decreases os.len(),
{
    broadcast use vstd::seq_lib::group_to_multiset_ensures, vstd::multiset::group_multiset_axioms;

    if os.len() == 0 {
        assert(names_where(os, true) =~= seq![]);
        assert(names_where(os, false) =~= seq![]);
        assert(outcome_names(os) =~= seq![]);
        assert(names_where(os, true).to_multiset() =~= vstd::multiset::Multiset::<Seq<char>>::empty());
        assert(names_where(os, false).to_multiset() =~= vstd::multiset::Multiset::<Seq<char>>::empty());
        assert(outcome_names(os).to_multiset() =~= vstd::multiset::Multiset::<Seq<char>>::empty());
    } else {
        let pre = os.drop_last();
        let o = os.last();
        lemma_names_split(pre);
        assert(outcome_names(os) =~= outcome_names(pre).push(o.name));
        if o.answered {
            assert(names_where(os, true) =~= names_where(pre, true).push(o.name));
            assert(names_where(os, false) =~= names_where(pre, false));
            assert(names_where(os, true).to_multiset().add(names_where(os, false).to_multiset())
                =~= names_where(pre, true).to_multiset().add(names_where(pre, false).to_multiset()).insert(o.name));
        } else {
            assert(names_where(os, true) =~= names_where(pre, true));
            assert(names_where(os, false) =~= names_where(pre, false).push(o.name));
            assert(names_where(os, true).to_multiset().add(names_where(os, false).to_multiset())
                =~= names_where(pre, true).to_multiset().add(names_where(pre, false).to_multiset()).insert(o.name));
        }
    }
}

/// Every source asked is reported once: the sources that answered and
/// those that failed, as a search lists them, together hold exactly the
/// names of the sources asked.
pub proof fn every_source_reported_once(os: Seq<OutcomeView>)
    ensures
        sorted_strs(names_where(os, true)).to_multiset().add(sorted_strs(names_where(os, false)).to_multiset())
            == outcome_names(os).to_multiset(),
{
    lemma_sorted_strs_multiset(names_where(os, true));
    lemma_sorted_strs_multiset(names_where(os, false));
    lemma_names_split(os);
}

/// The answer to a search that no source could take.
pub fn empty_search(query: &str, search_type: SearchType, offset: usize, sort: SortOrder) -> (r:
    SearchResult)
    ensures
        r.query@ == query@,
        r.search_type@ == crate::models::search_type_name(search_type),
        r.papers@.len() == 0,
        r.total_results == 0,
        r.offset == offset,
        r.sort@ == crate::models::sort_order_name(sort),
        r.total_hits is None,
        r.provider_hits@.len() == 0,
        r.providers_searched@.len() == 0,
        r.providers_failed@.len() == 0,
{
    SearchResult {
        query: owned(query),
        search_type: search_type.to_string(),
        papers: Vec::new(),
        total_results: 0,
        offset,
        sort: sort.to_string(),
        total_hits: None,
        provider_hits: Vec::new(),
        providers_searched: Vec::new(),
        providers_failed: Vec::new(),
    }
}

/// The (source, count) pairs of a list of hit records.
pub open spec fn hits_view(v: Seq<ProviderHits>) -> Seq<(Seq<char>, usize)> {
    v.map_values(|h: ProviderHits| (h.provider@, h.total_hits))
}

/// Merges the outcomes of the sources asked into the answer to a search:
/// the papers of the sources that answered, in order, de-duplicated, dated,
/// ordered and cut to the window; the hit counts reported, and their sum;
/// and the names of the sources that answered and of those that failed,
/// each in ascending order.
pub fn assemble_search(
    query: &str,
    search_type: SearchType,
    outcomes: Vec<ProviderOutcome>,
    single_provider: bool,
    limit: usize,
    offset: usize,
    sort: SortOrder,
) -> (r: SearchResult)
    requires
        hits_sum(hit_counts(outcome_views(outcomes@))) <= usize::MAX,
    ensures
        r.query@ == query@,
        r.search_type@ == crate::models::search_type_name(search_type),
        paper_views(r.papers@) == result_papers(
            outcome_views(outcomes@),
            single_provider,
            limit,
            offset,
            sort,
        ),
        r.total_results == r.papers@.len(),
        r.papers@.len() <= limit,
        r.offset == offset,
        r.sort@ == crate::models::sort_order_name(sort),
        hits_view(r.provider_hits@) == hit_counts(outcome_views(outcomes@)),
        r.total_hits == (if hit_counts(outcome_views(outcomes@)).len() == 0 {
            None
        } else {
            Some(hits_sum(hit_counts(outcome_views(outcomes@))) as usize)
        }),
        views(r.providers_searched@) == sorted_strs(names_where(outcome_views(outcomes@), true)),
        views(r.providers_failed@) == sorted_strs(names_where(outcome_views(outcomes@), false)),
{
    let ghost os = outcome_views(outcomes@);
    let mut all_papers: Vec<Paper> = Vec::new();
    let mut searched: Vec<String> = Vec::new();
    let mut failed: Vec<String> = Vec::new();
    let mut hits: Vec<ProviderHits> = Vec::new();
    let mut sum: usize = 0;
    proof {
        lemma_hits_sum_prefix_bound(os, 0);
    }
    for o in it: outcomes
        invariant
            it.seq() == outcomes@,
            os == outcome_views(outcomes@),
            hits_sum(hit_counts(os)) <= usize::MAX,
            paper_views(all_papers@) == merged_papers(os.take(it.index() as int)),
            hits_view(hits@) == hit_counts(os.take(it.index() as int)),
            sum == hits_sum(hit_counts(os.take(it.index() as int))),
            views(searched@) == names_where(os.take(it.index() as int), true),
            views(failed@) == names_where(os.take(it.index() as int), false),
    {
        let ghost i = it.index();
        let ghost pre = os.take(i as int);
        assert(os.take(i + 1).drop_last() == pre);
        assert(os.take(i + 1).last() == outcome_view(o));
        proof {
            lemma_hits_sum_prefix_bound(os, i + 1);
        }
        let ProviderOutcome { name, result } = o;
        match result {
            Some(pr) => {
                let ProviderResult { papers, total_hits } = pr;
                let mut ps = papers;
                let ghost before = paper_views(all_papers@);
                let ghost added = paper_views(ps@);
                all_papers.append(&mut ps);
                assert(paper_views(all_papers@) =~= before + added);
                match total_hits {
                    Some(h) => {
                        let ghost hb = hits_view(hits@);
                        hits.push(ProviderHits { provider: name.clone(), total_hits: h });
                        assert(hits_view(hits@) =~= hb.push((name@, h)));
                        assert(hit_counts(os.take(i + 1)) =~= hit_counts(pre).push((name@, h)));
                        assert(hit_counts(pre).push((name@, h)).drop_last() =~= hit_counts(pre));
                        assert(hits_sum(hit_counts(os.take(i + 1))) == sum + h);
                        sum = sum + h;
                    },
                    None => {
                        assert(hit_counts(os.take(i + 1)) =~= hit_counts(pre));
                    },
                }
                let ghost sb = views(searched@);
                searched.push(name);
                assert(views(searched@) =~= sb.push(outcome_view(o).name));
            },
            None => {
                assert(merged_papers(os.take(i + 1)) =~= merged_papers(pre));
                assert(hit_counts(os.take(i + 1)) =~= hit_counts(pre));
                let ghost fb = views(failed@);
                failed.push(name);
                assert(views(failed@) =~= fb.push(outcome_view(o).name));
            },
        }
    }
    assert(os.take(os.len() as int) == os);
    let total_hits = if hits.len() == 0 {
        None
    } else {
        Some(sum)
    };
    let mut papers = deduplicate(all_papers);
    normalize_dates(&mut papers);
    sort_papers(&mut papers, sort);
    let ghost sorted = paper_views(papers@);
    if !single_provider && offset > 0 {
        if offset >= papers.len() {
            papers.clear();
            assert(paper_views(papers@) =~= Seq::<PaperView>::empty());
        } else {
            let tail = papers.split_off(offset);
            papers = tail;
            assert(paper_views(papers@) =~= sorted.skip(offset as int));
        }
    }
    let ghost mid = paper_views(papers@);
    papers.truncate(limit);
    assert(paper_views(papers@) =~= if mid.len() > limit {
        mid.take(limit as int)
    } else {
        mid
    });
    let n = papers.len();
    SearchResult {
        query: owned(query),
        search_type: search_type.to_string(),
        papers,
        total_results: n,
        offset,
        sort: sort.to_string(),
        total_hits,
        provider_hits: hits,
        providers_searched: sort_names(searched),
        providers_failed: sort_names(failed),
    }
}

/// The sum of the counts of a prefix is at most the sum of them all.
proof fn lemma_hits_sum_prefix_bound(os: Seq<OutcomeView>, k: int)
    requires
        0 <= k <= os.len(),
    ensures
        hits_sum(hit_counts(os.take(k))) <= hits_sum(hit_counts(os)),
    decreases os.len() - k,
{
    if k < os.len() {
        lemma_hits_sum_prefix_bound(os, k + 1);
        let t = os.take(k + 1);
        assert(t.drop_last() == os.take(k));
        let hb = hit_counts(t);
        if t.last().total_hits is Some {
            assert(hb.drop_last() =~= hit_counts(os.take(k)));
        } else {
            assert(hb =~= hit_counts(os.take(k)));
        }
    } else {
        assert(os.take(k) == os);
    }
}

} // verus!
