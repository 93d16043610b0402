//! Citation formatting: BibTeX, APA, MLA, Chicago, IEEE and Harvard.
//!
//! Author names are split into white-space separated words; the last word
//! is the family name and the others are given names. An initial is the
//! first character of a given name followed by a period; the initials of a
//! name are separated by spaces (`M. J.`).
use vstd::prelude::*;

use crate::json::{as_i64, dv, first, first_str, get, jfirst, jget, ji64, jmember_list, jstr, jstr_at, jstr_or, member_list, str_at, str_or, Json};
use crate::models::{doi_url, doi_url_exec, empty_meta, MetaView, PaperMetadata};
use crate::provider::crossref::{contributor_list, contributor_names, jats_stripped, strip_jats, work_date};
use crate::text::{
    chars_of, cviews, extend, extend_str, fmt_int, has_prefix, int_dec, join, join_chars,
    join_strings, ochars, ostr, owned, split_words, starts_with_str, str_eq, string_of,
    trim_start_matches, trim_start_matches_str, views, words,
};
use crate::unicode::{str_lower, to_lowercase};

verus! {

// ---------------------------------------------------------------------------
// Names
// ---------------------------------------------------------------------------
/// The family name of an author: the last word, or the whole name when it
/// has no words.
pub open spec fn last_name(name: Seq<char>) -> Seq<char> {
    if words(name).len() > 0 {
        words(name).last()
    } else {
        name
    }
}

/// The initial of a given name: its first character and a period.
pub open spec fn initial(w: Seq<char>) -> Seq<char> {
    seq![w[0], '.']
}

/// The initials of `given`, separated by spaces.
pub open spec fn initials(given: Seq<Seq<char>>) -> Seq<char> {
    join(given.map_values(|w: Seq<char>| initial(w)), " "@)
}

/// `Last, I.` when the name has two or more words, otherwise the name.
pub open spec fn name_last_initials(a: Seq<char>) -> Seq<char> {
    let p = words(a);
    if p.len() >= 2 {
        p.last() + ", "@ + initials(p.drop_last())
    } else {
        a
    }
}

/// `I. Last` when the name has two or more words, otherwise the name.
pub open spec fn name_initials_last(a: Seq<char>) -> Seq<char> {
    let p = words(a);
    if p.len() >= 2 {
        initials(p.drop_last()) + " "@ + p.last()
    } else {
        a
    }
}

/// `Last, Given Names` when the name has two or more words, otherwise the
/// name.
pub open spec fn name_inverted(a: Seq<char>) -> Seq<char> {
    let p = words(a);
    if p.len() >= 2 {
        p.last() + ", "@ + join(p.drop_last(), " "@)
    } else {
        a
    }
}

/// The family name of an author (`split_whitespace().last()`).
pub fn author_last(name: &str) -> (r: String)
    ensures
        r@ == last_name(name@),
{
    let v = chars_of(name);
    let ws = split_words(&v);
    assert(cviews(ws@) == words(name@));
    if ws.len() > 0 {
        assert(cviews(ws@).last() == ws@.last()@);
        string_of(&ws[ws.len() - 1])
    } else {
        string_of(&v)
    }
}

fn initials_exec(ws: &Vec<Vec<char>>, n: usize) -> (r: Vec<char>)
    requires
        n <= ws.len(),
        forall|i: int| 0 <= i < n ==> (#[trigger] cviews(ws@)[i]).len() > 0,
    ensures
        r@ == initials(cviews(ws@).take(n as int)),
{
    let mut parts: Vec<Vec<char>> = Vec::new();
    let mut i: usize = 0;
    while i < n
        invariant
            i <= n <= ws.len(),
            cviews(parts@) == cviews(ws@).take(i as int).map_values(|w: Seq<char>| initial(w)),
            forall|i: int| 0 <= i < n ==> (#[trigger] cviews(ws@)[i]).len() > 0,
        decreases n - i,
    {
        assert(cviews(ws@)[i as int] == ws@[i as int]@);
        let mut p: Vec<char> = Vec::new();
        p.push(ws[i][0]);
        p.push('.');
        assert(p@ =~= initial(ws@[i as int]@));
        let ghost before = cviews(parts@);
        parts.push(p);
        assert(cviews(parts@) =~= before.push(p@));
        assert(cviews(ws@).take(i + 1).map_values(|w: Seq<char>| initial(w)) =~= cviews(
            ws@,
        ).take(i as int).map_values(|w: Seq<char>| initial(w)).push(initial(ws@[i as int]@)));
        i = i + 1;
    }
    let sep = chars_of(" ");
    join_chars(&parts, &sep)
}

/// Which name style `style_name` produces.
pub enum NameStyle {
    LastInitials,
    InitialsLast,
    Inverted,
}

/// A name in the given style.
pub open spec fn styled_name(style: NameStyle, a: Seq<char>) -> Seq<char> {
    match style {
        NameStyle::LastInitials => name_last_initials(a),
        NameStyle::InitialsLast => name_initials_last(a),
        NameStyle::Inverted => name_inverted(a),
    }
}

/// Formats one author name in the given style.
pub fn style_name(style: &NameStyle, a: &String) -> (r: Vec<char>)
    ensures
        r@ == styled_name(*style, a@),
{
    let v = chars_of(a.as_str());
    let ws = split_words(&v);
    assert(cviews(ws@) == words(a@));
    if ws.len() >= 2 {
        let n = ws.len() - 1;
        assert forall|i: int| 0 <= i < n implies (#[trigger] cviews(ws@)[i]).len() > 0 by {
            assert(cviews(ws@)[i] == ws@[i]@);
        }
        let last = &ws[n];
        assert(cviews(ws@).last() == last@);
        assert(cviews(ws@).take(n as int) == cviews(ws@).drop_last());
        match style {
            NameStyle::LastInitials => {
                let ini = initials_exec(&ws, n);
                let mut r = last.clone();
                assert(r@ == last@);
                extend_str(&mut r, ", ");
                extend(&mut r, &ini);
                r
            },
            NameStyle::InitialsLast => {
                let mut r = initials_exec(&ws, n);
                extend_str(&mut r, " ");
                extend(&mut r, last);
                r
            },
            NameStyle::Inverted => {
                let mut given: Vec<Vec<char>> = Vec::new();
                let mut i: usize = 0;
                while i < n
                    invariant
                        i <= n,
                        n == ws.len() - 1,
                        cviews(given@) == cviews(ws@).take(i as int),
                    decreases n - i,
                {
                    let ghost before = cviews(given@);
                    given.push(ws[i].clone());
                    assert(cviews(given@) =~= before.push(ws@[i as int]@));
                    assert(cviews(ws@).take(i + 1) =~= cviews(ws@).take(i as int).push(
                        ws@[i as int]@,
                    ));
                    i = i + 1;
                }
                let sep = chars_of(" ");
                let g = join_chars(&given, &sep);
                let mut r = last.clone();
                assert(r@ == last@);
                extend_str(&mut r, ", ");
                extend(&mut r, &g);
                r
            },
        }
    } else {
        v
    }
}

/// The given names of authors `lo..hi` in a style, as separate buffers.
fn style_names(style: &NameStyle, authors: &Vec<String>, lo: usize, hi: usize) -> (r: Vec<
    Vec<char>,
>)
    requires
        lo <= hi <= authors.len(),
    ensures
        cviews(r@) == views(authors@).subrange(lo as int, hi as int).map_values(
            |a: Seq<char>| styled_name(*style, a),
        ),
{
    let mut r: Vec<Vec<char>> = Vec::new();
    let mut i = lo;
    while i < hi
        invariant
            lo <= i <= hi <= authors.len(),
            cviews(r@) == views(authors@).subrange(lo as int, i as int).map_values(
                |a: Seq<char>| styled_name(*style, a),
            ),
        decreases hi - i,
    {
        assert(views(authors@)[i as int] == authors@[i as int]@);
        let n = style_name(style, &authors[i]);
        let ghost before = cviews(r@);
        r.push(n);
        assert(cviews(r@) =~= before.push(n@));
        assert(views(authors@).subrange(lo as int, i + 1).map_values(
            |a: Seq<char>| styled_name(*style, a),
        ) =~= views(authors@).subrange(lo as int, i as int).map_values(
            |a: Seq<char>| styled_name(*style, a),
        ).push(styled_name(*style, authors@[i as int]@)));
        i = i + 1;
    }
    r
}

// ---------------------------------------------------------------------------
// Pieces shared by the formatters
// ---------------------------------------------------------------------------
/// `pre + v + post` when the value is present, nothing otherwise.
pub open spec fn opt(o: Option<Seq<char>>, pre: Seq<char>, post: Seq<char>) -> Seq<char> {
    match o {
        Some(v) => pre + v + post,
        None => seq![],
    }
}

/// The year in decimal, when present.
pub open spec fn year_dec(y: Option<i32>) -> Option<Seq<char>> {
    match y {
        Some(y) => Some(int_dec(y as int)),
        None => None,
    }
}

/// The year in decimal, or `n.d.` ("no date").
pub open spec fn year_or_nd(y: Option<i32>) -> Seq<char> {
    match y {
        Some(y) => int_dec(y as int),
        None => "n.d."@,
    }
}

/// Appends `pre + v + post` to `r` when `o` holds `v`.
fn push_opt(r: &mut Vec<char>, o: &Option<String>, pre: &str, post: &str)
    ensures
        final(r)@ == old(r)@ + opt(ostr(*o), pre@, post@),
{
    match o {
        Some(v) => {
            extend_str(r, pre);
            extend_str(r, v.as_str());
            extend_str(r, post);
        },
        None => {
            assert(old(r)@ + seq![] == old(r)@);
        },
    }
}

/// The year as an optional decimal buffer.
fn year_dec_exec(y: Option<i32>) -> (r: Option<Vec<char>>)
    ensures
        ochars(r) == year_dec(y),
{
    match y {
        Some(y) => Some(fmt_int(y as i64)),
        None => None,
    }
}

/// Appends `pre + v + post` to `r` when `o` holds `v`.
fn push_opt_chars(r: &mut Vec<char>, o: &Option<Vec<char>>, pre: &str, post: &str)
    ensures
        final(r)@ == old(r)@ + opt(ochars(*o), pre@, post@),
{
    match o {
        Some(v) => {
            extend_str(r, pre);
            extend(r, v);
            extend_str(r, post);
        },
        None => {
            assert(old(r)@ + seq![] == old(r)@);
        },
    }
}

fn year_or_nd_exec(y: Option<i32>) -> (r: Vec<char>)
    ensures
        r@ == year_or_nd(y),
{
    match y {
        Some(y) => fmt_int(y as i64),
        None => chars_of("n.d."),
    }
}

// ---------------------------------------------------------------------------
// BibTeX
// ---------------------------------------------------------------------------
/// Whether `c` is an ASCII letter.
pub open spec fn is_ascii_alpha(c: char) -> bool {
    (65 <= (c as u32) <= 90) || (97 <= (c as u32) <= 122)
}

/// The lower-case form of an ASCII letter.
pub open spec fn ascii_lower(c: char) -> char {
    if 65 <= (c as u32) <= 90 {
        ((c as u32) + 32) as char
    } else {
        c
    }
}

/// The ASCII letters of `s`, lower-cased; everything else is dropped.
pub open spec fn letters_lower(s: Seq<char>) -> Seq<char>
    decreases s.len(),
{
    if s.len() == 0 {
        seq![]
    } else {
        letters_lower(s.drop_last()) + if is_ascii_alpha(s.last()) {
            seq![ascii_lower(s.last())]
        } else {
            seq![]
        }
    }
}

/// The citation key: the first author's family name reduced to lower-case
/// ASCII letters (or `unknown`), then the year (or `n.d.`).
pub open spec fn bibtex_key_spec(m: MetaView) -> Seq<char> {
    let last = if m.authors.len() == 0 {
        "unknown"@
    } else {
        last_name(m.authors[0])
    };
    letters_lower(last) + year_or_nd(m.year)
}

fn letters_lower_exec(s: &Vec<char>) -> (r: Vec<char>)
    ensures
        r@ == letters_lower(s@),
{
    let mut r: Vec<char> = Vec::new();
    let mut i: usize = 0;
    while i < s.len()
        invariant
            i <= s.len(),
            r@ == letters_lower(s@.take(i as int)),
        decreases s.len() - i,
    {
        assert(s@.take(i + 1).drop_last() == s@.take(i as int));
        let c = s[i];
        if crate::unicode::is_ascii_letter(c) {
            let u = c as u32;
            if u <= 90 {
                r.push(((u + 32) as u8) as char);
                assert(((u + 32) as u8) as char == ((c as u32) + 32) as char);
            } else {
                r.push(c);
            }
        }
        i = i + 1;
    }
    assert(s@.take(s.len() as int) == s@);
    r
}

/// The BibTeX citation key of `meta`.
pub fn bibtex_key(meta: &PaperMetadata) -> (r: String)
    ensures
        r@ == bibtex_key_spec(meta@),
{
    let last = if meta.authors.len() == 0 {
        owned("unknown")
    } else {
        author_last(meta.authors[0].as_str())
    };
    let lv = chars_of(last.as_str());
    let mut r = letters_lower_exec(&lv);
    let y = year_or_nd_exec(meta.year);
    extend(&mut r, &y);
    string_of(&r)
}

/// One line per field, as `format_bibtex` writes them.
pub open spec fn bibtex_lines(m: MetaView, include_abstract: bool) -> Seq<Seq<char>> {
    seq!["@article{"@ + bibtex_key_spec(m) + ","@, "  title = {"@ + m.title + "},"@] + (if m.authors.len()
        > 0 {
        seq!["  author = {"@ + join(m.authors, " and "@) + "},"@]
    } else {
        seq![]
    }) + line_opt(year_dec(m.year), "  year = {"@) + line_opt(m.journal, "  journal = {"@)
        + line_opt(m.volume, "  volume = {"@) + line_opt(m.issue, "  number = {"@) + line_opt(
        m.pages,
        "  pages = {"@,
    ) + seq!["  doi = {"@ + m.doi + "},"@] + (if include_abstract {
        line_opt(m.abstract_text, "  abstract = {"@)
    } else {
        seq![]
    }) + seq!["}"@]
}

/// A field line `pre + v + "},"` when the value is present.
pub open spec fn line_opt(o: Option<Seq<char>>, pre: Seq<char>) -> Seq<Seq<char>> {
    match o {
        Some(v) => seq![pre + v + "},"@],
        None => seq![],
    }
}

/// The BibTeX entry: the lines of `bibtex_lines` joined by newlines.
pub open spec fn bibtex_spec(m: MetaView, include_abstract: bool) -> Seq<char> {
    join(bibtex_lines(m, include_abstract), "\n"@)
}

/// Asking for the abstract adds exactly one line, just before the closing
/// brace: both entries consist of the same `body`, then the entry with the
/// abstract has the line `  abstract = {...},` where the other closes.
pub proof fn bibtex_abstract_adds_one_line(m: MetaView) -> (body: Seq<char>)
    ensures
        bibtex_spec(m, false) == body + "\n"@ + "}"@,
        match m.abstract_text {
            Some(a) => bibtex_spec(m, true) == body + "\n"@ + ("  abstract = {"@ + a + "},"@) + "\n"@
                + "}"@,
            None => bibtex_spec(m, true) == bibtex_spec(m, false),
        },
{
    let without = bibtex_lines(m, false);
    let with = bibtex_lines(m, true);
    let pre = without.drop_last();
    assert(without =~= pre.push("}"@));
    assert(pre.len() >= 1);
    assert(without.drop_last() =~= pre);
    assert(join(without, "\n"@) == join(pre, "\n"@) + "\n"@ + "}"@);
    match m.abstract_text {
        Some(a) => {
            let line = "  abstract = {"@ + a + "},"@;
            let mid = pre.push(line);
            assert(with =~= mid.push("}"@));
            assert(mid.drop_last() =~= pre);
            assert(mid.last() == line);
            assert(join(mid, "\n"@) == join(pre, "\n"@) + "\n"@ + line);
            assert(with.drop_last() =~= mid);
            assert(with.last() == "}"@);
            assert(join(with, "\n"@) == join(pre.push(line), "\n"@) + "\n"@ + "}"@);
        },
        None => {
            assert(with =~= without);
        },
    }
    join(pre, "\n"@)
}

fn push_line(lines: &mut Vec<Vec<char>>, pre: &str, body: &Vec<char>, post: &str)
    ensures
        cviews(final(lines)@) == cviews(old(lines)@).push(pre@ + body@ + post@),
{
    let mut l = chars_of(pre);
    extend(&mut l, body);
    extend_str(&mut l, post);
    lines.push(l);
    assert(cviews(lines@) =~= cviews(old(lines)@).push(pre@ + body@ + post@));
}

fn push_line_opt(lines: &mut Vec<Vec<char>>, o: &Option<Vec<char>>, pre: &str)
    ensures
        cviews(final(lines)@) == cviews(old(lines)@) + line_opt(ochars(*o), pre@),
{
    match o {
        Some(v) => {
            push_line(lines, pre, v, "},");
            assert(cviews(old(lines)@).push(pre@ + v@ + "},"@) == cviews(old(lines)@) + seq![
                pre@ + v@ + "},"@,
            ]);
        },
        None => {
            assert(cviews(old(lines)@) + seq![] == cviews(old(lines)@));
        },
    }
}

fn chars_opt(o: &Option<String>) -> (r: Option<Vec<char>>)
    ensures
        ochars(r) == ostr(*o),
{
    match o {
        Some(s) => Some(chars_of(s.as_str())),
        None => None,
    }
}

/// A BibTeX `@article` entry; the abstract is included when asked for and
/// present.
pub fn format_bibtex(meta: &PaperMetadata, include_abstract: bool) -> (r: String)
    ensures
        r@ == bibtex_spec(meta@, include_abstract),
{
    let ghost m = meta@;
    let mut lines: Vec<Vec<char>> = Vec::new();
    let key = bibtex_key(meta);
    let kv = chars_of(key.as_str());
    push_line(&mut lines, "@article{", &kv, ",");
    let tv = chars_of(meta.title.as_str());
    push_line(&mut lines, "  title = {", &tv, "},");
    let ghost s0 = seq!["@article{"@ + bibtex_key_spec(m) + ","@, "  title = {"@ + m.title + "},"@];
    assert(cviews(lines@) =~= s0);
    let ghost a_part = if m.authors.len() > 0 {
        seq!["  author = {"@ + join(m.authors, " and "@) + "},"@]
    } else {
        seq![]
    };
    if meta.authors.len() > 0 {
        let sep = chars_of(" and ");
        let a = join_strings(&meta.authors, &sep);
        push_line(&mut lines, "  author = {", &a, "},");
        assert(cviews(lines@) =~= s0 + a_part);
    } else {
        assert(cviews(lines@) =~= s0 + a_part);
    }
    let ghost s1 = s0 + a_part;
    push_line_opt(&mut lines, &year_dec_exec(meta.year), "  year = {");
    let ghost s2 = s1 + line_opt(year_dec(m.year), "  year = {"@);
    push_line_opt(&mut lines, &chars_opt(&meta.journal), "  journal = {");
    let ghost s3 = s2 + line_opt(m.journal, "  journal = {"@);
    push_line_opt(&mut lines, &chars_opt(&meta.volume), "  volume = {");
    let ghost s4 = s3 + line_opt(m.volume, "  volume = {"@);
    push_line_opt(&mut lines, &chars_opt(&meta.issue), "  number = {");
    let ghost s5 = s4 + line_opt(m.issue, "  number = {"@);
    push_line_opt(&mut lines, &chars_opt(&meta.pages), "  pages = {");
    let ghost s6 = s5 + line_opt(m.pages, "  pages = {"@);
    assert(cviews(lines@) == s6);
    let dv = chars_of(meta.doi.as_str());
    push_line(&mut lines, "  doi = {", &dv, "},");
    let ghost s7 = s6 + seq!["  doi = {"@ + m.doi + "},"@];
    assert(cviews(lines@) =~= s7);
    let ghost ab = if include_abstract {
        line_opt(m.abstract_text, "  abstract = {"@)
    } else {
        seq![]
    };
    if include_abstract {
        push_line_opt(&mut lines, &chars_opt(&meta.abstract_text), "  abstract = {");
        assert(cviews(lines@) =~= s7 + ab);
    } else {
        assert(cviews(lines@) =~= s7 + ab);
    }
    let ghost before_close = cviews(lines@);
    lines.push(chars_of("}"));
    assert(cviews(lines@) =~= before_close.push("}"@));
    assert(cviews(lines@) =~= s7 + ab + seq!["}"@]);
    assert(bibtex_lines(m, include_abstract) == s7 + ab + seq!["}"@]);
    let nl = chars_of("\n");
    let out = join_chars(&lines, &nl);
    string_of(&out)
}

// ---------------------------------------------------------------------------
// APA
// ---------------------------------------------------------------------------
/// The APA author list: `Last, I.` for each author. Up to 20 authors are
/// all listed, the last joined by `&`; beyond 20, the first 19 are listed,
/// then `...` and the last author.
pub open spec fn apa_authors(a: Seq<Seq<char>>) -> Seq<char> {
    if a.len() == 0 {
        seq![]
    } else if a.len() == 1 {
        name_last_initials(a[0])
    } else if a.len() > 20 {
        join(a.take(19).map_values(|x: Seq<char>| name_last_initials(x)), ", "@) + ", ... "@
            + name_last_initials(a.last())
    } else {
        join(a.drop_last().map_values(|x: Seq<char>| name_last_initials(x)), ", "@) + ", & "@
            + name_last_initials(a.last())
    }
}

/// The APA author list of `authors`.
pub fn format_authors_apa(authors: &Vec<String>) -> (r: String)
    ensures
        r@ == apa_authors(views(authors@)),
{
    let ghost a = views(authors@);
    if authors.len() == 0 {
        return String::new();
    }
    let n = authors.len();
    assert(a[n - 1] == authors@[n - 1]@);
    let last = style_name(&NameStyle::LastInitials, &authors[n - 1]);
    if n == 1 {
        return string_of(&last);
    }
    let k: usize = if n > 20 {
        19
    } else {
        n - 1
    };
    let f = style_names(&NameStyle::LastInitials, authors, 0, k);
    assert(a.subrange(0, k as int) == a.take(k as int));
    assert(a.take(n - 1) == a.drop_last());
    assert(cviews(f@) =~= a.take(k as int).map_values(|x: Seq<char>| name_last_initials(x)));
    assert(a.last() == a[n - 1]);
    let sep = chars_of(", ");
    let mut r = join_chars(&f, &sep);
    if n > 20 {
        extend_str(&mut r, ", ... ");
    } else {
        extend_str(&mut r, ", & ");
    }
    extend(&mut r, &last);
    string_of(&r)
}

/// The APA journal part: `*Journal*, *Volume*(Issue), Pages.`
pub open spec fn apa_journal_text(m: MetaView, j: Seq<char>) -> Seq<char> {
    "*"@ + j + "*"@ + opt(m.volume, ", *"@, "*"@) + opt(m.issue, "("@, ")"@) + opt(
        m.pages,
        ", "@,
        ""@,
    ) + "."@
}

/// The APA journal part as a list of at most one element.
pub open spec fn apa_journal(m: MetaView) -> Seq<Seq<char>> {
    match m.journal {
        Some(j) => seq![apa_journal_text(m, j)],
        None => seq![],
    }
}

/// The year in brackets, as APA writes it.
pub open spec fn apa_year(y: Option<i32>) -> Seq<char> {
    "("@ + year_or_nd(y) + ")"@
}

/// The first part of an APA reference: authors, year and title.
pub open spec fn apa_head(m: MetaView) -> Seq<char> {
    apa_authors(m.authors) + " "@ + apa_year(m.year) + ". "@ + m.title + "."@
}

/// An APA reference.
pub open spec fn apa_spec(m: MetaView) -> Seq<char> {
    join(seq![apa_head(m)] + apa_journal(m) + seq![crate::models::doi_url(m.doi)], " "@)
}

fn apa_journal_exec(meta: &PaperMetadata, j: &String) -> (r: Vec<char>)
    ensures
        r@ == apa_journal_text(meta@, j@),
{
    let mut jp = chars_of("*");
    extend_str(&mut jp, j.as_str());
    extend_str(&mut jp, "*");
    push_opt(&mut jp, &meta.volume, ", *", "*");
    push_opt(&mut jp, &meta.issue, "(", ")");
    push_opt(&mut jp, &meta.pages, ", ", "");
    extend_str(&mut jp, ".");
    jp
}

fn apa_head_exec(meta: &PaperMetadata) -> (r: Vec<char>)
    ensures
        r@ == apa_head(meta@),
{
    let authors = format_authors_apa(&meta.authors);
    let mut first = chars_of(authors.as_str());
    extend_str(&mut first, " (");
    extend(&mut first, &year_or_nd_exec(meta.year));
    extend_str(&mut first, ")");
    assert(first@ =~= apa_authors(meta@.authors) + " "@ + apa_year(meta@.year)) by {
        reveal_strlit(" (");
        reveal_strlit(" ");
        reveal_strlit("(");
    }
    extend_str(&mut first, ". ");
    extend_str(&mut first, meta.title.as_str());
    extend_str(&mut first, ".");
    first
}

/// An APA reference for `meta`.
pub fn format_apa(meta: &PaperMetadata) -> (r: String)
    ensures
        r@ == apa_spec(meta@),
{
    let ghost m = meta@;
    let mut parts: Vec<Vec<char>> = Vec::new();
    parts.push(apa_head_exec(meta));
    let ghost p0 = cviews(parts@);
    assert(p0 =~= seq![apa_head(m)]);
    match &meta.journal {
        Some(j) => {
            parts.push(apa_journal_exec(meta, j));
            assert(cviews(parts@) =~= p0 + apa_journal(m));
        },
        None => {
            assert(cviews(parts@) =~= p0 + apa_journal(m));
        },
    }
    let ghost p1 = cviews(parts@);
    let dv = chars_of(meta.doi.as_str());
    let link = crate::models::doi_url_exec(&dv);
    parts.push(chars_of(link.as_str()));
    assert(cviews(parts@) =~= seq![apa_head(m)] + apa_journal(m) + seq![
        crate::models::doi_url(m.doi),
    ]);
    let sp = chars_of(" ");
    let out = join_chars(&parts, &sp);
    string_of(&out)
}

// ---------------------------------------------------------------------------
// MLA
// ---------------------------------------------------------------------------
/// The first author as MLA shows it: `Last, Given`, with `, et al` when
/// there are more authors.
pub open spec fn mla_first(a: Seq<Seq<char>>) -> Seq<char> {
    if a.len() == 0 {
        seq![]
    } else {
        name_inverted(a[0]) + if a.len() > 1 {
            ", et al"@
        } else {
            seq![]
        }
    }
}

/// The MLA journal part: `*Journal*, vol. V, no. I, Year, pp. P.`
pub open spec fn mla_journal_text(m: MetaView, j: Seq<char>) -> Seq<char> {
    "*"@ + j + "*"@ + opt(m.volume, ", vol. "@, ""@) + opt(m.issue, ", no. "@, ""@) + opt(
        year_dec(m.year),
        ", "@,
        ""@,
    ) + opt(m.pages, ", pp. "@, ""@) + "."@
}

/// The MLA journal part as a list of at most one element.
pub open spec fn mla_journal(m: MetaView) -> Seq<Seq<char>> {
    match m.journal {
        Some(j) => seq![mla_journal_text(m, j)],
        None => seq![],
    }
}

/// An MLA reference.
pub open spec fn mla_spec(m: MetaView) -> Seq<char> {
    join(
        seq![mla_first(m.authors) + ". \""@ + m.title + ".\"\n"@] + mla_journal(m) + seq![
            "doi:"@ + m.doi + "."@,
        ],
        " "@,
    )
}

fn mla_first_exec(authors: &Vec<String>) -> (r: Vec<char>)
    ensures
        r@ == mla_first(views(authors@)),
{
    if authors.len() == 0 {
        return Vec::new();
    }
    assert(views(authors@)[0] == authors@[0]@);
    let mut first = style_name(&NameStyle::Inverted, &authors[0]);
    if authors.len() > 1 {
        extend_str(&mut first, ", et al");
    } else {
        assert(first@ + seq![] == first@);
    }
    first
}

fn mla_journal_exec(meta: &PaperMetadata, j: &String) -> (r: Vec<char>)
    ensures
        r@ == mla_journal_text(meta@, j@),
{
    let mut jp = chars_of("*");
    extend_str(&mut jp, j.as_str());
    extend_str(&mut jp, "*");
    push_opt(&mut jp, &meta.volume, ", vol. ", "");
    push_opt(&mut jp, &meta.issue, ", no. ", "");
    push_opt_chars(&mut jp, &year_dec_exec(meta.year), ", ", "");
    push_opt(&mut jp, &meta.pages, ", pp. ", "");
    extend_str(&mut jp, ".");
    jp
}

/// An MLA reference for `meta`.
pub fn format_mla(meta: &PaperMetadata) -> (r: String)
    ensures
        r@ == mla_spec(meta@),
{
    let ghost m = meta@;
    let mut first = mla_first_exec(&meta.authors);
    extend_str(&mut first, ". \"");
    extend_str(&mut first, meta.title.as_str());
    extend_str(&mut first, ".\"\n");
    let mut parts: Vec<Vec<char>> = Vec::new();
    parts.push(first);
    let ghost p0 = cviews(parts@);
    assert(p0 =~= seq![mla_first(m.authors) + ". \""@ + m.title + ".\"\n"@]);
    match &meta.journal {
        Some(j) => {
            parts.push(mla_journal_exec(meta, j));
            assert(cviews(parts@) =~= p0 + mla_journal(m));
        },
        None => {
            assert(cviews(parts@) =~= p0 + mla_journal(m));
        },
    }
    let ghost p1 = cviews(parts@);
    let mut last = chars_of("doi:");
    extend_str(&mut last, meta.doi.as_str());
    extend_str(&mut last, ".");
    parts.push(last);
    assert(cviews(parts@) =~= seq![mla_first(m.authors) + ". \""@ + m.title + ".\"\n"@]
        + mla_journal(m) + seq!["doi:"@ + m.doi + "."@]);
    let sp = chars_of(" ");
    let out = join_chars(&parts, &sp);
    string_of(&out)
}

// ---------------------------------------------------------------------------
// Chicago
// ---------------------------------------------------------------------------
/// The authors as Chicago shows them: the first inverted, the others as
/// given, separated by commas.
pub open spec fn chicago_first(a: Seq<Seq<char>>) -> Seq<char> {
    if a.len() == 0 {
        seq![]
    } else {
        name_inverted(a[0]) + if a.len() > 1 {
            ", "@ + join(a.skip(1), ", "@)
        } else {
            seq![]
        }
    }
}

/// The Chicago journal part: ` *Journal* V, no. I (Year): P`.
pub open spec fn chicago_journal(m: MetaView) -> Seq<char> {
    match m.journal {
        Some(j) => " *"@ + j + "*"@ + opt(m.volume, " "@, ""@) + opt(m.issue, ", no. "@, ""@) + opt(
            year_dec(m.year),
            " ("@,
            ")"@,
        ) + opt(m.pages, ": "@, ""@),
        None => seq![],
    }
}

/// A Chicago reference.
pub open spec fn chicago_spec(m: MetaView) -> Seq<char> {
    chicago_first(m.authors) + ". \""@ + m.title + ".\"\n"@ + chicago_journal(m)
        + ". https://doi.org/"@ + m.doi + "."@
}

fn chicago_first_exec(authors: &Vec<String>) -> (r: Vec<char>)
    ensures
        r@ == chicago_first(views(authors@)),
{
    let ghost a = views(authors@);
    if authors.len() == 0 {
        return Vec::new();
    }
    assert(a[0] == authors@[0]@);
    let mut r = style_name(&NameStyle::Inverted, &authors[0]);
    if authors.len() > 1 {
        let mut others: Vec<String> = Vec::new();
        let mut i: usize = 1;
        while i < authors.len()
            invariant
                1 <= i <= authors.len(),
                a == views(authors@),
                views(others@) == a.subrange(1, i as int),
            decreases authors.len() - i,
        {
            let ghost before = views(others@);
            others.push(authors[i].clone());
            assert(views(others@) =~= before.push(a[i as int]));
            assert(a.subrange(1, i + 1) =~= a.subrange(1, i as int).push(a[i as int]));
            i = i + 1;
        }
        assert(a.subrange(1, a.len() as int) == a.skip(1));
        extend_str(&mut r, ", ");
        let sep = chars_of(", ");
        extend(&mut r, &join_strings(&others, &sep));
    } else {
        assert(r@ + seq![] == r@);
    }
    r
}

fn chicago_journal_exec(meta: &PaperMetadata) -> (r: Vec<char>)
    ensures
        r@ == chicago_journal(meta@),
{
    match &meta.journal {
        Some(j) => {
            let mut r = chars_of(" *");
            extend_str(&mut r, j.as_str());
            extend_str(&mut r, "*");
            push_opt(&mut r, &meta.volume, " ", "");
            push_opt(&mut r, &meta.issue, ", no. ", "");
            push_opt_chars(&mut r, &year_dec_exec(meta.year), " (", ")");
            push_opt(&mut r, &meta.pages, ": ", "");
            r
        },
        None => Vec::new(),
    }
}

/// A Chicago reference for `meta`.
pub fn format_chicago(meta: &PaperMetadata) -> (r: String)
    ensures
        r@ == chicago_spec(meta@),
{
    let mut r = chicago_first_exec(&meta.authors);
    extend_str(&mut r, ". \"");
    extend_str(&mut r, meta.title.as_str());
    extend_str(&mut r, ".\"\n");
    extend(&mut r, &chicago_journal_exec(meta));
    extend_str(&mut r, ". https://doi.org/");
    extend_str(&mut r, meta.doi.as_str());
    extend_str(&mut r, ".");
    string_of(&r)
}

// ---------------------------------------------------------------------------
// IEEE
// ---------------------------------------------------------------------------
/// The IEEE journal part: ` *Journal*, vol. V, no. I, pp. P, Year`.
pub open spec fn ieee_journal(m: MetaView) -> Seq<char> {
    match m.journal {
        Some(j) => " *"@ + j + "*"@ + opt(m.volume, ", vol. "@, ""@) + opt(m.issue, ", no. "@, ""@)
            + opt(m.pages, ", pp. "@, ""@) + opt(year_dec(m.year), ", "@, ""@),
        None => seq![],
    }
}

/// An IEEE reference.
pub open spec fn ieee_spec(m: MetaView) -> Seq<char> {
    join(m.authors.map_values(|a: Seq<char>| name_initials_last(a)), ", "@) + ", \""@ + m.title
        + ",\""@ + ieee_journal(m) + ". doi: "@ + m.doi + "."@
}

fn ieee_journal_exec(meta: &PaperMetadata) -> (r: Vec<char>)
    ensures
        r@ == ieee_journal(meta@),
{
    match &meta.journal {
        Some(j) => {
            let mut r = chars_of(" *");
            extend_str(&mut r, j.as_str());
            extend_str(&mut r, "*");
            push_opt(&mut r, &meta.volume, ", vol. ", "");
            push_opt(&mut r, &meta.issue, ", no. ", "");
            push_opt(&mut r, &meta.pages, ", pp. ", "");
            push_opt_chars(&mut r, &year_dec_exec(meta.year), ", ", "");
            r
        },
        None => Vec::new(),
    }
}

/// An IEEE reference for `meta`.
pub fn format_ieee(meta: &PaperMetadata) -> (r: String)
    ensures
        r@ == ieee_spec(meta@),
{
    let ghost m = meta@;
    assert(views(meta.authors@).subrange(0, meta.authors.len() as int) == m.authors);
    let names = style_names(&NameStyle::InitialsLast, &meta.authors, 0, meta.authors.len());
    assert(cviews(names@) =~= m.authors.map_values(|a: Seq<char>| name_initials_last(a)));
    let sep = chars_of(", ");
    let mut r = join_chars(&names, &sep);
    extend_str(&mut r, ", \"");
    extend_str(&mut r, meta.title.as_str());
    extend_str(&mut r, ",\"");
    extend(&mut r, &ieee_journal_exec(meta));
    extend_str(&mut r, ". doi: ");
    extend_str(&mut r, meta.doi.as_str());
    extend_str(&mut r, ".");
    string_of(&r)
}

// ---------------------------------------------------------------------------
// Harvard
// ---------------------------------------------------------------------------
/// The authors as Harvard shows them: the first as `Last, I.`, the others
/// as `I. Last` joined by `and`.
pub open spec fn harvard_first(a: Seq<Seq<char>>) -> Seq<char> {
    if a.len() == 0 {
        seq![]
    } else {
        name_last_initials(a[0]) + if a.len() > 1 {
            ", "@ + join(a.skip(1).map_values(|x: Seq<char>| name_initials_last(x)), " and "@)
        } else {
            seq![]
        }
    }
}

/// The Harvard journal part: ` *Journal*, V(I), pp. P`.
pub open spec fn harvard_journal(m: MetaView) -> Seq<char> {
    match m.journal {
        Some(j) => " *"@ + j + "*"@ + opt(m.volume, ", "@, ""@) + opt(m.issue, "("@, ")"@) + opt(
            m.pages,
            ", pp. "@,
            ""@,
        ),
        None => seq![],
    }
}

/// A Harvard reference.
pub open spec fn harvard_spec(m: MetaView) -> Seq<char> {
    harvard_first(m.authors) + " ("@ + year_or_nd(m.year) + ") '"@ + m.title + "',"@
        + harvard_journal(m) + ". doi: "@ + m.doi + "."@
}

fn harvard_first_exec(authors: &Vec<String>) -> (r: Vec<char>)
    ensures
        r@ == harvard_first(views(authors@)),
{
    let ghost a = views(authors@);
    if authors.len() == 0 {
        return Vec::new();
    }
    assert(a[0] == authors@[0]@);
    let mut r = style_name(&NameStyle::LastInitials, &authors[0]);
    if authors.len() > 1 {
        let names = style_names(&NameStyle::InitialsLast, authors, 1, authors.len());
        assert(a.subrange(1, authors.len() as int) == a.skip(1));
        assert(cviews(names@) =~= a.skip(1).map_values(|x: Seq<char>| name_initials_last(x)));
        extend_str(&mut r, ", ");
        let sep = chars_of(" and ");
        extend(&mut r, &join_chars(&names, &sep));
    } else {
        assert(r@ + seq![] == r@);
    }
    r
}

fn harvard_journal_exec(meta: &PaperMetadata) -> (r: Vec<char>)
    ensures
        r@ == harvard_journal(meta@),
{
    match &meta.journal {
        Some(j) => {
            let mut r = chars_of(" *");
            extend_str(&mut r, j.as_str());
            extend_str(&mut r, "*");
            push_opt(&mut r, &meta.volume, ", ", "");
            push_opt(&mut r, &meta.issue, "(", ")");
            push_opt(&mut r, &meta.pages, ", pp. ", "");
            r
        },
        None => Vec::new(),
    }
}

/// A Harvard reference for `meta`.
pub fn format_harvard(meta: &PaperMetadata) -> (r: String)
    ensures
        r@ == harvard_spec(meta@),
{
    let mut r = harvard_first_exec(&meta.authors);
    extend_str(&mut r, " (");
    extend(&mut r, &year_or_nd_exec(meta.year));
    extend_str(&mut r, ") '");
    extend_str(&mut r, meta.title.as_str());
    extend_str(&mut r, "',");
    extend(&mut r, &harvard_journal_exec(meta));
    extend_str(&mut r, ". doi: ");
    extend_str(&mut r, meta.doi.as_str());
    extend_str(&mut r, ".");
    string_of(&r)
}


// ---------------------------------------------------------------------------
// Metadata from the registries
// ---------------------------------------------------------------------------
/// The year of a Crossref work: the first date part of `published-print`,
/// else `published-online`, else `created`.
pub open spec fn crossref_year(item: Option<Json>) -> Option<i32> {
    match work_date(item) {
        Some(d) => Some(d.0 as i32),
        None => None,
    }
}

/// The metadata of a Crossref work record (the `message` of a lookup).
pub open spec fn crossref_meta(doi: Seq<char>, item: Option<Json>) -> MetaView {
    MetaView {
        doi: doi,
        title: jstr_or(jfirst(jget(item, "title"@)), seq![]),
        authors: contributor_list(jget(item, "author"@)),
        year: crossref_year(item),
        journal: jstr(jfirst(jget(item, "container-title"@))),
        volume: jstr_at(item, "volume"@),
        issue: jstr_at(item, "issue"@),
        pages: jstr_at(item, "page"@),
        publisher: jstr_at(item, "publisher"@),
        abstract_text: match jstr_at(item, "abstract"@) {
            Some(a) => Some(jats_stripped(a)),
            None => None,
        },
        url: Some(doi_url(doi)),
        isbn: jstr(jfirst(jget(item, "ISBN"@))),
        ..empty_meta()
    }
}

/// The metadata of a Crossref lookup answer: `None` when it has no
/// `message`.
pub open spec fn crossref_answer(doi: Seq<char>, data: Json) -> Option<MetaView> {
    match jget(Some(data), "message"@) {
        Some(item) => Some(crossref_meta(doi, Some(item))),
        None => None,
    }
}

fn crossref_year_exec(item: Option<&Json>) -> (r: Option<i32>)
    ensures
        r == crossref_year(dv(item)),
{
    let keys = ["published-print", "published-online", "created"];
    let mut k: usize = 0;
    while k < 3
        invariant
            k <= 3,
            keys@.len() == 3,
            keys@[0]@ == "published-print"@,
            keys@[1]@ == "published-online"@,
            keys@[2]@ == "created"@,
            forall|j: int| 0 <= j < k ==> crate::provider::crossref::date_parts(#[trigger] jget(dv(item), keys@[j]@)) is None,
        decreases 3 - k,
    {
        let parts = first(get(get(item, keys[k]), "date-parts"));
        match crate::json::as_array(parts) {
            Some(_) => match as_i64(first(parts)) {
                Some(y) => {
                    return Some(y as i32);
                },
                None => {},
            },
            None => {},
        }
        k = k + 1;
    }
    None
}

/// Reads the metadata of a Crossref lookup answer.
pub fn crossref_metadata(doi: &str, data: &Json) -> (r: Option<PaperMetadata>)
    ensures
        match r {
            Some(m) => crossref_answer(doi@, *data) == Some(m@),
            None => crossref_answer(doi@, *data) is None,
        },
{
    let item = match get(Some(data), "message") {
        Some(i) => Some(i),
        None => {
            return None;
        },
    };
    let d = chars_of(doi);
    proof {
        reveal_strlit("");
    }
    let abstract_text = match str_at(item, "abstract") {
        Some(a) => Some(strip_jats(a.as_str())),
        None => None,
    };
    let m = PaperMetadata {
        doi: owned(doi),
        title: str_or(first(get(item, "title")), ""),
        authors: contributor_names(get(item, "author")),
        year: crossref_year_exec(item),
        journal: first_str(get(item, "container-title")),
        volume: str_at(item, "volume"),
        issue: str_at(item, "issue"),
        pages: str_at(item, "page"),
        publisher: str_at(item, "publisher"),
        abstract_text: abstract_text,
        url: Some(doi_url_exec(&d)),
        isbn: first_str(get(item, "ISBN")),
        oclc: None,
        lccn: None,
    };
    let ghost v = crossref_meta(doi@, dv(item));
    assert(m@.doi == v.doi);
    assert(m@.title == v.title);
    assert(m@.authors == v.authors);
    assert(m@.year == v.year);
    assert(m@.journal == v.journal);
    assert(m@.url == v.url);
    assert(m@.abstract_text == v.abstract_text);
    assert(m@.isbn == v.isbn);
    assert(m@ == v);
    Some(m)
}

/// The metadata of a Semantic Scholar paper record.
pub open spec fn scholar_meta(doi: Seq<char>, d: Option<Json>) -> MetaView {
    let j = jget(d, "journal"@);
    MetaView {
        doi: doi,
        title: jstr_or(jget(d, "title"@), seq![]),
        authors: jmember_list(jget(d, "authors"@), "name"@),
        year: match ji64(jget(d, "year"@)) {
            Some(y) => Some(y as i32),
            None => None,
        },
        journal: jstr_at(j, "name"@),
        volume: jstr_at(j, "volume"@),
        pages: jstr_at(j, "pages"@),
        abstract_text: jstr_at(d, "abstract"@),
        url: Some(doi_url(doi)),
        ..empty_meta()
    }
}

/// Reads the metadata of a Semantic Scholar paper record.
pub fn scholar_metadata(doi: &str, data: &Json) -> (m: PaperMetadata)
    ensures
        m@ == scholar_meta(doi@, Some(*data)),
{
    let d = Some(data);
    let j = get(d, "journal");
    proof {
        reveal_strlit("");
    }
    let m = PaperMetadata {
        doi: owned(doi),
        title: str_or(get(d, "title"), ""),
        authors: member_list(get(d, "authors"), "name"),
        year: match as_i64(get(d, "year")) {
            Some(y) => Some(y as i32),
            None => None,
        },
        journal: str_at(j, "name"),
        volume: str_at(j, "volume"),
        issue: None,
        pages: str_at(j, "pages"),
        publisher: None,
        abstract_text: str_at(d, "abstract"),
        url: Some(doi_url_exec(&chars_of(doi))),
        isbn: None,
        oclc: None,
        lccn: None,
    };
    let ghost v = scholar_meta(doi@, Some(*data));
    assert(m@.doi == v.doi);
    assert(m@.title == v.title);
    assert(m@.authors == v.authors);
    assert(m@.year == v.year);
    assert(m@.journal == v.journal);
    assert(m@.url == v.url);
    assert(m@.abstract_text == v.abstract_text);
    m
}

/// Metadata that a lookup found: there is a record and it has a title.
pub open spec fn usable(m: Option<MetaView>) -> bool {
    match m {
        Some(v) => v.title.len() > 0,
        None => false,
    }
}

/// Whether a lookup found usable metadata.
pub fn is_usable(meta: &Option<PaperMetadata>) -> (r: bool)
    ensures
        r == usable(omv(*meta)),
{
    match meta {
        Some(m) => chars_of(m.title.as_str()).len() > 0,
        None => false,
    }
}

/// The view of optional metadata.
pub open spec fn omv(m: Option<PaperMetadata>) -> Option<MetaView> {
    match m {
        Some(x) => Some(x@),
        None => None,
    }
}

/// The metadata of a DOI, from the first usable lookup, else a stand-in
/// whose title reads `Unknown paper (<doi>)`.
pub open spec fn resolved_meta(doi: Seq<char>, first: Option<MetaView>, second: Option<MetaView>) -> MetaView {
    if usable(first) {
        first.unwrap()
    } else if usable(second) {
        second.unwrap()
    } else {
        MetaView {
            doi: doi,
            title: "Unknown paper ("@ + doi + ")"@,
            url: Some(doi_url(doi)),
            ..empty_meta()
        }
    }
}

/// Picks the metadata of a DOI from a Crossref lookup and, should that not
/// be usable, a Semantic Scholar one.
pub fn resolve_metadata(doi: &str, first: Option<PaperMetadata>, second: Option<PaperMetadata>) -> (m: PaperMetadata)
    ensures
        m@ == resolved_meta(doi@, omv(first), omv(second)),
{
    if is_usable(&first) {
        return first.unwrap();
    }
    if is_usable(&second) {
        return second.unwrap();
    }
    PaperMetadata::with_fallback_title(doi)
}

// ---------------------------------------------------------------------------
// Bibliographies
// ---------------------------------------------------------------------------
/// A citation style.
#[derive(Debug, Clone, Copy, PartialEq, Eq, Structural)]
pub enum CitationStyle {
    Bibtex,
    Apa,
    Mla,
    Chicago,
    Ieee,
    Harvard,
}

/// The style a lower-case format name selects.
pub open spec fn style_of(lower: Seq<char>) -> Option<CitationStyle> {
    if lower == "bibtex"@ {
        Some(CitationStyle::Bibtex)
    } else if lower == "apa"@ {
        Some(CitationStyle::Apa)
    } else if lower == "mla"@ {
        Some(CitationStyle::Mla)
    } else if lower == "chicago"@ {
        Some(CitationStyle::Chicago)
    } else if lower == "ieee"@ {
        Some(CitationStyle::Ieee)
    } else if lower == "harvard"@ {
        Some(CitationStyle::Harvard)
    } else {
        None
    }
}

/// The answer to a format name that selects no style.
pub open spec fn unknown_format(fmt: Seq<char>) -> Seq<char> {
    "Unknown format '"@ + fmt + "'. Supported: bibtex, apa, mla, chicago, ieee, harvard"@
}

/// The style a format name selects, in any case.
pub fn citation_style(fmt: &str) -> (r: Result<CitationStyle, String>)
    ensures
        match r {
            Ok(s) => style_of(str_lower(fmt@)) == Some(s),
            Err(e) => style_of(str_lower(fmt@)) is None && e@ == unknown_format(fmt@),
        },
{
    let lower = to_lowercase(fmt);
    let l = chars_of(lower.as_str());
    if str_eq("bibtex", &l) {
        Ok(CitationStyle::Bibtex)
    } else if str_eq("apa", &l) {
        Ok(CitationStyle::Apa)
    } else if str_eq("mla", &l) {
        Ok(CitationStyle::Mla)
    } else if str_eq("chicago", &l) {
        Ok(CitationStyle::Chicago)
    } else if str_eq("ieee", &l) {
        Ok(CitationStyle::Ieee)
    } else if str_eq("harvard", &l) {
        Ok(CitationStyle::Harvard)
    } else {
        let mut e = chars_of("Unknown format '");
        extend_str(&mut e, fmt);
        extend_str(&mut e, "'. Supported: bibtex, apa, mla, chicago, ieee, harvard");
        Err(string_of(&e))
    }
}

/// The citation of metadata in a style.
pub open spec fn citation(style: CitationStyle, m: MetaView, include_abstract: bool) -> Seq<char> {
    match style {
        CitationStyle::Bibtex => bibtex_spec(m, include_abstract),
        CitationStyle::Apa => apa_spec(m),
        CitationStyle::Mla => mla_spec(m),
        CitationStyle::Chicago => chicago_spec(m),
        CitationStyle::Ieee => ieee_spec(m),
        CitationStyle::Harvard => harvard_spec(m),
    }
}

/// Formats metadata in a style; only BibTeX entries carry the abstract.
pub fn format_citation(style: CitationStyle, meta: &PaperMetadata, include_abstract: bool) -> (r: String)
    ensures
        r@ == citation(style, meta@, include_abstract),
{
    match style {
        CitationStyle::Bibtex => format_bibtex(meta, include_abstract),
        CitationStyle::Apa => format_apa(meta),
        CitationStyle::Mla => format_mla(meta),
        CitationStyle::Chicago => format_chicago(meta),
        CitationStyle::Ieee => format_ieee(meta),
        CitationStyle::Harvard => format_harvard(meta),
    }
}

/// The DOI an identifier names: without any leading `https://doi.org/`.
pub fn identifier_doi(id: &str) -> (r: String)
    ensures
        r@ == trim_start_matches(id@, "https://doi.org/"@),
{
    string_of(&trim_start_matches_str(&chars_of(id), "https://doi.org/"))
}

/// Metadata that stands for a DOI no lookup resolved.
pub open spec fn unresolved(m: MetaView) -> bool {
    has_prefix(m.title, "Unknown paper"@)
}

/// The views of looked-up (DOI, metadata) pairs.
pub open spec fn lookups_view(rs: Seq<(String, PaperMetadata)>) -> Seq<(Seq<char>, MetaView)> {
    rs.map_values(|p: (String, PaperMetadata)| (p.0@, p.1@))
}

/// The entries of a bibliography: one citation for each resolved DOI, in
/// order.
pub open spec fn bib_entries(style: CitationStyle, rs: Seq<(Seq<char>, MetaView)>, include_abstract: bool) -> Seq<Seq<char>>
    decreases rs.len(),
{
    if rs.len() == 0 {
        seq![]
    } else {
        let m = rs.last().1;
        bib_entries(style, rs.drop_last(), include_abstract) + if unresolved(m) {
            seq![]
        } else {
            seq![citation(style, m, include_abstract)]
        }
    }
}

/// The errors of a bibliography: one line for each unresolved DOI, in
/// order.
pub open spec fn bib_errors(rs: Seq<(Seq<char>, MetaView)>) -> Seq<Seq<char>>
    decreases rs.len(),
{
    if rs.len() == 0 {
        seq![]
    } else {
        bib_errors(rs.drop_last()) + if unresolved(rs.last().1) {
            seq!["Could not find metadata for "@ + rs.last().0]
        } else {
            seq![]
        }
    }
}

/// Each DOI of a bibliography gives either an entry or an error line:
/// together they number as many as the DOIs asked for.
pub proof fn bibliography_accounts_for_each_doi(
    style: CitationStyle,
    rs: Seq<(Seq<char>, MetaView)>,
    include_abstract: bool,
)
    ensures
        bib_entries(style, rs, include_abstract).len() + bib_errors(rs).len() == rs.len(),
    decreases rs.len(),
{
    if rs.len() > 0 {
        bibliography_accounts_for_each_doi(style, rs.drop_last(), include_abstract);
    }
}

/// A bibliography: its entries, their text and the DOIs it could not cite.
pub struct Bibliography {
    pub entries: Vec<String>,
    pub text: String,
    pub errors: Vec<String>,
}

/// Builds a bibliography from looked-up metadata: the entries are joined by
/// a blank line.
pub fn assemble_bibliography(
    style: CitationStyle,
    results: &Vec<(String, PaperMetadata)>,
    include_abstract: bool,
) -> (b: Bibliography)
    ensures
        views(b.entries@) == bib_entries(style, lookups_view(results@), include_abstract),
        b.text@ == join(bib_entries(style, lookups_view(results@), include_abstract), "\n\n"@),
        views(b.errors@) == bib_errors(lookups_view(results@)),
{
    let ghost rs = lookups_view(results@);
    let mut entries: Vec<String> = Vec::new();
    let mut errors: Vec<String> = Vec::new();
    let mut i: usize = 0;
    while i < results.len()
        invariant
            i <= results.len(),
            rs == lookups_view(results@),
            views(entries@) == bib_entries(style, rs.take(i as int), include_abstract),
            views(errors@) == bib_errors(rs.take(i as int)),
        decreases results.len() - i,
    {
        assert(rs.take(i + 1).drop_last() == rs.take(i as int));
        assert(rs.take(i + 1).last() == rs[i as int]);
        assert(rs[i as int] == (results@[i as int].0@, results@[i as int].1@));
        let doi = &results[i].0;
        let meta = &results[i].1;
        let ghost e0 = views(entries@);
        let ghost r0 = views(errors@);
        if starts_with_str(&chars_of(meta.title.as_str()), "Unknown paper") {
            let mut e = chars_of("Could not find metadata for ");
            extend_str(&mut e, doi.as_str());
            errors.push(string_of(&e));
            assert(views(errors@) =~= r0.push(e@));
            assert(views(entries@) =~= e0 + seq![]);
        } else {
            let c = format_citation(style, meta, include_abstract);
            entries.push(c);
            assert(views(entries@) =~= e0.push(c@));
            assert(views(errors@) =~= r0 + seq![]);
        }
        i = i + 1;
    }
    assert(rs.take(results.len() as int) == rs);
    let text = string_of(&join_strings(&entries, &chars_of("\n\n")));
    Bibliography { entries, text, errors }
}
// ---------------------------------------------------------------------------
// What the formatters and readers keep of their input
// ---------------------------------------------------------------------------
/// A Harvard reference names every author, in order: with two or more
/// authors it opens with the first as `Last, I.`, then `, ` and all the
/// others as `I. Last` joined by ` and `; with one author, with that author
/// as `Last, I.`. What follows the authors is exactly the reference the same
/// work would have without any author.
pub proof fn harvard_names_every_author(m: MetaView)
    requires
        m.authors.len() >= 1,
    ensures
        harvard_spec(m) == name_last_initials(m.authors[0]) + (if m.authors.len() >= 2 {
            ", "@ + join(
                m.authors.skip(1).map_values(|x: Seq<char>| name_initials_last(x)),
                " and "@,
            )
        } else {
            seq![]
        }) + harvard_spec(MetaView { authors: seq![], ..m }),
        m.authors.skip(1).map_values(|x: Seq<char>| name_initials_last(x)).len() == m.authors.len()
            - 1,
        harvard_spec(MetaView { authors: seq![], ..m }) == " ("@ + year_or_nd(m.year) + ") '"@
            + m.title + "',"@ + harvard_journal(m) + ". doi: "@ + m.doi + "."@,
{
    let bare = MetaView { authors: seq![], ..m };
    assert(harvard_first(bare.authors) =~= seq![]);
    assert(harvard_spec(bare) =~= " ("@ + year_or_nd(m.year) + ") '"@ + m.title + "',"@
        + harvard_journal(m) + ". doi: "@ + m.doi + "."@);
    assert(harvard_journal(bare) == harvard_journal(m));
}

/// The metadata of a Crossref answer is read from its `message` record,
/// each field from the member of its own name: `volume` from `volume`,
/// `issue` from `issue`, `page`, `publisher`, the first `title`, the first
/// `container-title` as the journal and the first `ISBN`; the DOI is the
/// one asked for and the link is its resolver address. An answer without
/// a `message` gives no metadata.
pub proof fn crossref_fields_from_record(doi: Seq<char>, data: Json)
    ensures
        (crossref_answer(doi, data) is Some) == (jget(Some(data), "message"@) is Some),
        crossref_answer(doi, data) matches Some(r) ==> {
            let item = jget(Some(data), "message"@);
            &&& r.doi == doi
            &&& r.url == Some("https://doi.org/"@ + doi)
            &&& r.volume == jstr(jget(item, "volume"@))
            &&& r.issue == jstr(jget(item, "issue"@))
            &&& r.pages == jstr(jget(item, "page"@))
            &&& r.publisher == jstr(jget(item, "publisher"@))
            &&& r.title == jstr_or(jfirst(jget(item, "title"@)), seq![])
            &&& r.journal == jstr(jfirst(jget(item, "container-title"@)))
            &&& r.isbn == jstr(jfirst(jget(item, "ISBN"@)))
        },
{
}

proof fn join_first_prefix(x: Seq<char>, y: Seq<char>, r: Seq<Seq<char>>, sep: Seq<char>)
    ensures
        join(seq![x + y] + r, sep) == x + join(seq![y] + r, sep),
    decreases r.len(),
{
    if r.len() == 0 {
        assert(seq![x + y] + r =~= seq![x + y]);
        assert(seq![y] + r =~= seq![y]);
    } else {
        join_first_prefix(x, y, r.drop_last(), sep);
        assert((seq![x + y] + r).drop_last() =~= seq![x + y] + r.drop_last());
        assert((seq![y] + r).drop_last() =~= seq![y] + r.drop_last());
    }
}

/// An APA reference names its authors, in order, before everything else:
/// one author as `Last, I.`; two to twenty as `Last, I.` separated by
/// commas with `, & ` before the last; more than twenty as the first
/// nineteen, `, ... ` and the last. What follows is the reference the same
/// work would have without any author.
pub proof fn apa_names_authors_first(m: MetaView)
    requires
        m.authors.len() >= 1,
    ensures
        apa_spec(m) == (if m.authors.len() == 1 {
            name_last_initials(m.authors[0])
        } else if m.authors.len() <= 20 {
            join(m.authors.drop_last().map_values(|x: Seq<char>| name_last_initials(x)), ", "@)
                + ", & "@ + name_last_initials(m.authors.last())
        } else {
            join(m.authors.take(19).map_values(|x: Seq<char>| name_last_initials(x)), ", "@)
                + ", ... "@ + name_last_initials(m.authors.last())
        }) + apa_spec(MetaView { authors: seq![], ..m }),
{
    let bare = MetaView { authors: seq![], ..m };
    let rest = " "@ + apa_year(m.year) + ". "@ + m.title + "."@;
    assert(apa_head(bare) =~= rest);
    assert(apa_head(m) =~= apa_authors(m.authors) + rest);
    assert(apa_journal(bare) == apa_journal(m));
    let tail = apa_journal(m) + seq![crate::models::doi_url(m.doi)];
    join_first_prefix(apa_authors(m.authors), rest, tail, " "@);
    assert(seq![apa_head(m)] + apa_journal(m) + seq![crate::models::doi_url(m.doi)] =~= seq![
        apa_authors(m.authors) + rest] + tail);
    assert(seq![apa_head(bare)] + apa_journal(bare) + seq![crate::models::doi_url(bare.doi)]
        =~= seq![rest] + tail);
}

/// An MLA reference opens with its first author as `Last, Given`, followed
/// by `, et al` when there are more; what follows is the reference the
/// same work would have without any author.
pub proof fn mla_names_first_author(m: MetaView)
    requires
        m.authors.len() >= 1,
    ensures
        mla_spec(m) == name_inverted(m.authors[0]) + (if m.authors.len() >= 2 {
            ", et al"@
        } else {
            seq![]
        }) + mla_spec(MetaView { authors: seq![], ..m }),
{
    let bare = MetaView { authors: seq![], ..m };
    let rest = ". \""@ + m.title + ".\"\n"@;
    assert(mla_first(bare.authors) =~= seq![]);
    assert(mla_first(bare.authors) + rest =~= rest);
    assert(mla_journal(bare) == mla_journal(m));
    let tail = mla_journal(m) + seq!["doi:"@ + m.doi + "."@];
    join_first_prefix(mla_first(m.authors), rest, tail, " "@);
    assert(mla_first(m.authors) + ". \""@ + m.title + ".\"\n"@ =~= mla_first(m.authors) + rest);
    assert(mla_first(bare.authors) + ". \""@ + bare.title + ".\"\n"@ =~= rest);
    assert(seq![mla_first(m.authors) + ". \""@ + m.title + ".\"\n"@] + mla_journal(m) + seq![
        "doi:"@ + m.doi + "."@] =~= seq![mla_first(m.authors) + rest] + tail);
    assert(seq![mla_first(bare.authors) + ". \""@ + bare.title + ".\"\n"@] + mla_journal(bare)
        + seq!["doi:"@ + bare.doi + "."@] =~= seq![rest] + tail);
    assert(mla_spec(m) == mla_first(m.authors) + mla_spec(bare));
    assert(mla_first(m.authors) =~= name_inverted(m.authors[0]) + (if m.authors.len() >= 2 {
        ", et al"@
    } else {
        seq![]
    }));
}

/// A Chicago reference names every author, in order: the first as
/// `Last, Given`, then `, ` and the others as given, separated by commas;
/// what follows is the reference the same work would have without any
/// author.
pub proof fn chicago_names_every_author(m: MetaView)
    requires
        m.authors.len() >= 1,
    ensures
        chicago_spec(m) == name_inverted(m.authors[0]) + (if m.authors.len() >= 2 {
            ", "@ + join(m.authors.skip(1), ", "@)
        } else {
            seq![]
        }) + chicago_spec(MetaView { authors: seq![], ..m }),
{
    let bare = MetaView { authors: seq![], ..m };
    assert(chicago_first(bare.authors) =~= seq![]);
    assert(chicago_journal(bare) == chicago_journal(m));
    assert(chicago_spec(bare) =~= ". \""@ + m.title + ".\"\n"@ + chicago_journal(m)
        + ". https://doi.org/"@ + m.doi + "."@);
}

/// An IEEE reference names every author, in order, as `I. Last` separated
/// by commas; what follows is the reference the same work would have
/// without any author.
pub proof fn ieee_names_every_author(m: MetaView)
    ensures
        ieee_spec(m) == join(m.authors.map_values(|a: Seq<char>| name_initials_last(a)), ", "@)
            + ieee_spec(MetaView { authors: seq![], ..m }),
{
    let bare = MetaView { authors: seq![], ..m };
    assert(bare.authors.map_values(|a: Seq<char>| name_initials_last(a)) =~= seq![]);
    assert(ieee_journal(bare) == ieee_journal(m));
    assert(ieee_spec(bare) =~= ", \""@ + m.title + ",\""@ + ieee_journal(m) + ". doi: "@ + m.doi
        + "."@);
}

/// A BibTeX entry with authors has, as its third line, all of them joined
/// by ` and `, in order.
pub proof fn bibtex_names_every_author(m: MetaView, include_abstract: bool)
    requires
        m.authors.len() >= 1,
    ensures
        bibtex_lines(m, include_abstract)[2] == "  author = {"@ + join(m.authors, " and "@)
            + "},"@,
{
}

} // verus!
