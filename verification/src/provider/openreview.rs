//! OpenReview: notes, whose content fields may be wrapped in `{"value": ..}`,
//! and the year of a millisecond timestamp.
use vstd::prelude::*;

use crate::json::{as_i64, dv, get, is_object, ji64, jget, jis_obj, jstr, jstr_list, str_list, str_of, Json};
use crate::models::{empty_paper, Paper, PaperView};
use crate::text::{chars_of, extend, ostr, owned, string_of, views};

verus! {

/// A content field: the `value` of an object, or a plain string.
pub open spec fn content_str(content: Option<Json>, field: Seq<char>) -> Option<Seq<char>> {
    let v = jget(content, field);
    if jis_obj(v) {
        jstr(jget(v, "value"@))
    } else {
        jstr(v)
    }
}

/// Reads a content field.
pub fn val_str(content: Option<&Json>, field: &str) -> (r: Option<String>)
    ensures
        ostr(r) == content_str(dv(content), field@),
{
    let v = get(content, field);
    if is_object(v) {
        str_of(get(v, "value"))
    } else {
        str_of(v)
    }
}

/// Division rounding towards zero, as Rust's `/` on signed integers does.
pub open spec fn tdiv(a: int, b: int) -> int {
    if a >= 0 {
        a / b
    } else {
        -((-a) / b)
    }
}

fn tdiv_exec(a: i64, b: i64) -> (r: i64)
    requires
        b > 0,
    ensures
        r == tdiv(a as int, b as int),
{
    let bu = b as u64;
    if a >= 0 {
        let q = (a as u64) / bu;
        assert(q <= a) by (nonlinear_arith)
            requires
                bu >= 1,
                a >= 0,
                q == (a as u64) / bu,
        ;
        q as i64
    } else {
        let m: u64 = if a == i64::MIN {
            0x8000_0000_0000_0000
        } else {
            (-a) as u64
        };
        assert(m == -(a as int));
        let q = m / bu;
        assert(q <= m) by (nonlinear_arith)
            requires
                bu >= 1,
                q == m / bu,
        ;
        if q == 0x8000_0000_0000_0000 {
            i64::MIN
        } else {
            -(q as i64)
        }
    }
}

/// The proleptic Gregorian (civil) year, in UTC, of a Unix time in seconds.
/// Days from the epoch are shifted to start on 1 March of year 0 and split
/// into 400-year eras of 146097 days, then into a year of the era and a day
/// of that March-based year; a day in January or February belongs to the
/// next civil year. The result is narrowed to `i32` as `as` does.
pub open spec fn year_of_unix(secs: i64) -> i32 {
    let days = tdiv(secs as int, 86400) + 719468;
    let era = tdiv(
        if days >= 0 {
            days
        } else {
            days - 146096
        },
        146097,
    );
    let doe = days - era * 146097;
    let yoe = tdiv(doe - tdiv(doe, 1460) + tdiv(doe, 36524) - tdiv(doe, 146096), 365);
    let doy = doe - (365 * yoe + tdiv(yoe, 4) - tdiv(yoe, 100));
    let mp = tdiv(5 * doy + 2, 153);
    let month = if mp < 10 {
        mp + 3
    } else {
        mp - 9
    };
    (yoe + era * 400 + if month <= 2 {
        1int
    } else {
        0int
    }) as i32
}

/// The calendar year of a Unix time in seconds.
pub fn chrono_lite_year(unix_secs: i64) -> (y: i32)
    ensures
        y == year_of_unix(unix_secs),
{
    let d0 = tdiv_exec(unix_secs, 86400);
    assert(-106751991167301 <= d0 <= 106751991167300) by (nonlinear_arith)
        requires
            d0 == tdiv(unix_secs as int, 86400),
            i64::MIN <= unix_secs <= i64::MAX,
    ;
    let days = d0 + 719468;
    let shifted = if days >= 0 {
        days
    } else {
        days - 146096
    };
    let era = tdiv_exec(shifted, 146097);
    assert(-730696850 <= era <= 730696850) by (nonlinear_arith)
        requires
            era == tdiv(shifted as int, 146097),
            -106751991313397 <= shifted <= 106751991886768,
    ;
    let doe = days - era * 146097;
    assert(-200000 <= doe <= 200000) by (nonlinear_arith)
        requires
            era == tdiv(shifted as int, 146097),
            doe == days - era * 146097,
            shifted == (if days >= 0 { days as int } else { days - 146096 }),
    ;
    let t = doe - tdiv_exec(doe, 1460) + tdiv_exec(doe, 36524) - tdiv_exec(doe, 146096);
    let yoe = tdiv_exec(t, 365);
    assert(-600 <= yoe <= 600) by (nonlinear_arith)
        requires
            -200000 <= doe <= 200000,
            t == doe - tdiv(doe as int, 1460) + tdiv(doe as int, 36524) - tdiv(doe as int, 146096),
            yoe == tdiv(t as int, 365),
    ;
    let doy = doe - (365 * yoe + tdiv_exec(yoe, 4) - tdiv_exec(yoe, 100));
    assert(-500000 <= doy <= 500000) by (nonlinear_arith)
        requires
            -200000 <= doe <= 200000,
            -600 <= yoe <= 600,
            doy == doe - (365 * yoe + tdiv(yoe as int, 4) - tdiv(yoe as int, 100)),
    ;
    let mp = tdiv_exec(5 * doy + 2, 153);
    let month = if mp < 10 {
        mp + 3
    } else {
        mp - 9
    };
    let y = yoe + era * 400 + if month <= 2 {
        1
    } else {
        0
    };
    y as i32
}

/// The authors of a note: the `value` list of an object, a list, or a
/// single string.
pub open spec fn note_authors(raw: Option<Json>) -> Seq<Seq<char>> {
    match raw {
        Some(r) => if jis_obj(Some(r)) && jget(Some(r), "value"@) is Some {
            jstr_list(jget(Some(r), "value"@))
        } else {
            match r {
                Json::Array(_) => jstr_list(Some(r)),
                Json::Str(s) => seq![s@],
                _ => seq![],
            }
        },
        None => seq![],
    }
}

fn note_authors_exec(raw: Option<&Json>) -> (r: Vec<String>)
    ensures
        views(r@) == note_authors(dv(raw)),
{
    match raw {
        Some(r) => {
            let v = get(Some(r), "value");
            if is_object(Some(r)) && v.is_some() {
                str_list(v)
            } else {
                match r {
                    Json::Array(_) => str_list(Some(r)),
                    Json::Str(s) => {
                        let out = vec![s.clone()];
                        assert(views(out@) =~= seq![s@]);
                        out
                    },
                    _ => Vec::new(),
                }
            }
        },
        None => Vec::new(),
    }
}

/// The `forum` or `pdf` address of a note id; none for an empty id.
pub open spec fn note_link(id: Seq<char>, kind: Seq<char>) -> Option<Seq<char>> {
    if id.len() > 0 {
        Some("https://openreview.net/"@ + kind + "?id="@ + id)
    } else {
        None
    }
}

fn note_link_exec(id: &Vec<char>, kind: &str) -> (r: Option<String>)
    ensures
        ostr(r) == note_link(id@, kind@),
{
    if id.len() > 0 {
        let mut u = chars_of("https://openreview.net/");
        crate::text::extend_str(&mut u, kind);
        crate::text::extend_str(&mut u, "?id=");
        extend(&mut u, id);
        Some(string_of(&u))
    } else {
        None
    }
}

/// An OpenReview note as a paper.
pub open spec fn note_paper(note: Option<Json>) -> PaperView {
    let content = match jget(note, "content"@) {
        Some(c) => Some(c),
        None => Some(Json::Null),
    };
    let stamp = match jget(note, "cdate"@) {
        Some(v) => Some(v),
        None => jget(note, "pdate"@),
    };
    let id = match jstr(jget(note, "id"@)) {
        Some(i) => i,
        None => seq![],
    };
    PaperView {
        title: match content_str(content, "title"@) {
            Some(t) => t,
            None => "Unknown"@,
        },
        authors: note_authors(jget(content, "authors"@)),
        abstract_text: content_str(content, "abstract"@),
        year: match ji64(stamp) {
            Some(ms) => Some(year_of_unix(tdiv(ms as int, 1000) as i64)),
            None => None,
        },
        source: "openreview"@,
        url: note_link(id, "forum"@),
        pdf_url: note_link(id, "pdf"@),
        journal: match content_str(content, "venue"@) {
            Some(v) => Some(v),
            None => content_str(content, "venueid"@),
        },
        ..empty_paper()
    }
}

/// Reads an OpenReview note.
pub fn parse_note(note: &Json) -> (p: Paper)
    ensures
        p@ == note_paper(Some(*note)),
{
    let n = Some(note);
    let null = Json::Null;
    let content = match get(n, "content") {
        Some(c) => Some(c),
        None => Some(&null),
    };
    let stamp = match get(n, "cdate") {
        Some(v) => Some(v),
        None => get(n, "pdate"),
    };
    let id = match str_of(get(n, "id")) {
        Some(i) => chars_of(i.as_str()),
        None => Vec::new(),
    };
    let year = match as_i64(stamp) {
        Some(ms) => Some(chrono_lite_year(tdiv_exec(ms, 1000))),
        None => None,
    };
    let p = Paper {
        title: match val_str(content, "title") {
            Some(t) => t,
            None => owned("Unknown"),
        },
        authors: note_authors_exec(get(content, "authors")),
        abstract_text: val_str(content, "abstract"),
        doi: None,
        year,
        published_date: None,
        source: owned("openreview"),
        url: note_link_exec(&id, "forum"),
        pdf_url: note_link_exec(&id, "pdf"),
        journal: match val_str(content, "venue") {
            Some(v) => Some(v),
            None => val_str(content, "venueid"),
        },
        volume: None,
        issue: None,
        pages: None,
        citation_count: None,
        publisher: None,
        isbn: None,
        issn: None,
        arxiv_id: None,
        work_type: None,
        editors: Vec::new(),
        series: None,
        oclc: None,
        lccn: None,
    };
    assert(views(p.editors@) =~= seq![]);
    p
}

} // verus!
