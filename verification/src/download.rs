//! Downloading a paper's PDF: the file name a DOI is stored under, what
//! counts as a PDF answer, the order in which sources are tried and the
//! results a download reports.
use vstd::prelude::*;

use crate::json::{get, jget, jstr, str_of, Json};
use crate::models::{DownloadResult, Paper, PaperView};
use crate::text::{chars_of, contains, contains_str, extend_str, ostr, owned, string_of};
use crate::pattern::ascii_word;
use crate::unicode::{is_word_char, word_char};

verus! {

// ---------------------------------------------------------------------------
// File names
// ---------------------------------------------------------------------------
/// A character a file name keeps: a word character, `-` or `.`.
pub open spec fn kept_in_name(c: char) -> bool {
    word_char(c) || c == '-' || c == '.'
}

/// The characters of a DOI with every other character turned into `_`.
pub open spec fn name_chars(s: Seq<char>) -> Seq<char> {
    s.map_values(|c: char| if kept_in_name(c) { c } else { '_' })
}

/// The file a DOI's PDF is stored in: its safe characters and `.pdf`.
pub open spec fn pdf_file_name(doi: Seq<char>) -> Seq<char> {
    name_chars(doi) + ".pdf"@
}

/// An ASCII character that may stand in a stored file name: a letter, a
/// digit, `_`, `-` or `.`.
pub open spec fn safe_ascii(c: char) -> bool {
    ascii_word(c) || c == '-' || c == '.'
}

/// The file name a DOI's PDF is stored under. Among its ASCII characters
/// there is no path separator or other punctuation: only letters, digits,
/// `_`, `-` and `.`.
pub fn sanitize_filename(doi: &str) -> (r: String)
    ensures
        r@ == pdf_file_name(doi@),
        r@.len() == doi@.len() + 4,
        forall|i: int| 0 <= i < r@.len() && (#[trigger] r@[i] as u32) < 128 ==> safe_ascii(r@[i]),
{
    let s = chars_of(doi);
    let mut out: Vec<char> = Vec::new();
    let mut i: usize = 0;
    while i < s.len()
        invariant
            i <= s.len(),
            out@ == name_chars(s@.take(i as int)),
            out@.len() == i,
            forall|j: int| 0 <= j < out@.len() && (#[trigger] out@[j] as u32) < 128 ==> safe_ascii(out@[j]),
        decreases s.len() - i,
    {
        let c = s[i];
        let k = if is_word_char(c) || c == '-' || c == '.' {
            c
        } else {
            '_'
        };
        out.push(k);
        assert(name_chars(s@.take(i + 1)) =~= name_chars(s@.take(i as int)).push(k));
        i = i + 1;
    }
    assert(s@.take(s.len() as int) == s@);
    let ghost before = out@;
    extend_str(&mut out, ".pdf");
    proof {
        reveal_strlit(".pdf");
        assert(out@ == before + ".pdf"@);
        assert forall|j: int| 0 <= j < out@.len() && (#[trigger] out@[j] as u32) < 128 implies safe_ascii(out@[j]) by {
            if j >= before.len() {
                assert(out@[j] == ".pdf"@[j - before.len()]);
            } else {
                assert(out@[j] == before[j]);
            }
        }
    }
    string_of(&out)
}

// ---------------------------------------------------------------------------
// Answers
// ---------------------------------------------------------------------------
/// The bytes every PDF file starts with: `%PDF-`.
pub open spec fn pdf_magic() -> Seq<u8> {
    seq![0x25u8, 0x50u8, 0x44u8, 0x46u8, 0x2du8]
}

/// A download answer is a PDF when its content type mentions `pdf` or its
/// body starts with `%PDF-`.
pub open spec fn pdf_answer(content_type: Seq<char>, body: Seq<u8>) -> bool {
    contains(content_type, "pdf"@) || (body.len() >= 5 && body.take(5) == pdf_magic())
}

/// Whether a download answer is a PDF.
pub fn is_pdf_response(content_type: &str, body: &[u8]) -> (r: bool)
    ensures
        r == pdf_answer(content_type@, body@),
{
    if contains_str(&chars_of(content_type), "pdf") {
        return true;
    }
    if body.len() < 5 {
        return false;
    }
    let r = body[0] == 0x25u8 && body[1] == 0x50u8 && body[2] == 0x44u8 && body[3] == 0x46u8 && body[4]
        == 0x2du8;
    assert(r == (body@.take(5) =~= pdf_magic()));
    r
}

// ---------------------------------------------------------------------------
// Sources
// ---------------------------------------------------------------------------
/// The PDF links among search results, each with the source that gave it,
/// in the order of the results.
pub open spec fn pdf_candidates(ps: Seq<PaperView>) -> Seq<(Seq<char>, Seq<char>)>
    decreases ps.len(),
{
    if ps.len() == 0 {
        seq![]
    } else {
        pdf_candidates(ps.drop_last()) + match ps.last().pdf_url {
            Some(u) => seq![(u, ps.last().source)],
            None => seq![],
        }
    }
}

/// The views of (link, source) pairs.
pub open spec fn pair_views(v: Seq<(String, String)>) -> Seq<(Seq<char>, Seq<char>)> {
    v.map_values(|p: (String, String)| (p.0@, p.1@))
}

/// The PDF links that search results offer, with their sources.
pub fn download_candidates(papers: &Vec<Paper>) -> (r: Vec<(String, String)>)
    ensures
        pair_views(r@) == pdf_candidates(papers@.map_values(|p: Paper| p@)),
{
    let ghost ps = papers@.map_values(|p: Paper| p@);
    let mut r: Vec<(String, String)> = Vec::new();
    let mut i: usize = 0;
    while i < papers.len()
        invariant
            i <= papers.len(),
            ps == papers@.map_values(|p: Paper| p@),
            pair_views(r@) == pdf_candidates(ps.take(i as int)),
        decreases papers.len() - i,
    {
        assert(ps.take(i + 1).drop_last() == ps.take(i as int));
        assert(ps.take(i + 1).last() == papers@[i as int]@);
        let ghost before = pair_views(r@);
        match &papers[i].pdf_url {
            Some(u) => {
                let pair = (owned(u.as_str()), owned(papers[i].source.as_str()));
                r.push(pair);
                assert(pair_views(r@) =~= before.push((pair.0@, pair.1@)));
            },
            None => {
                assert(pair_views(r@) =~= before + seq![]);
            },
        }
        i = i + 1;
    }
    assert(ps.take(papers.len() as int) == ps);
    r
}

/// How many downloads run at once: the request clamped to 1 through 100.
pub fn batch_concurrency(requested: usize) -> (r: usize)
    ensures
        r == (if requested < 1 {
            1
        } else if requested > 100 {
            100
        } else {
            requested
        }),
{
    if requested < 1 {
        1
    } else if requested > 100 {
        100
    } else {
        requested
    }
}

/// The DOI a batch entry names: its `doi` string, when that is not empty.
pub open spec fn entry_doi(spec: Json) -> Option<Seq<char>> {
    match jstr(jget(Some(spec), "doi"@)) {
        Some(d) => if d.len() > 0 {
            Some(d)
        } else {
            None
        },
        None => None,
    }
}

/// The DOI of a batch entry.
pub fn batch_doi(spec: &Json) -> (r: Option<String>)
    ensures
        ostr(r) == entry_doi(*spec),
{
    match str_of(get(Some(spec), "doi")) {
        Some(d) => if chars_of(d.as_str()).len() > 0 {
            Some(d)
        } else {
            None
        },
        None => None,
    }
}

/// The directory a batch entry goes to: the one given for the batch, else
/// the entry's own `directory`.
pub open spec fn entry_directory(batch: Option<Seq<char>>, spec: Json) -> Option<Seq<char>> {
    match batch {
        Some(d) => Some(d),
        None => jstr(jget(Some(spec), "directory"@)),
    }
}

/// The directory of a batch entry.
pub fn batch_directory(batch: Option<&str>, spec: &Json) -> (r: Option<String>)
    ensures
        ostr(r) == entry_directory(
            match batch {
                Some(b) => Some(b@),
                None => None,
            },
            *spec,
        ),
{
    match batch {
        Some(d) => Some(owned(d)),
        None => str_of(get(Some(spec), "directory")),
    }
}

// ---------------------------------------------------------------------------
// Results
// ---------------------------------------------------------------------------
/// The explanation a download gives when no source had the PDF.
pub open spec fn not_found_message() -> Seq<char> {
    "No PDF found across all providers. Try searching for the paper title to find alternative access."@
}

/// The plain content of a download result.
pub open spec fn download_view(r: DownloadResult) -> (Seq<char>, bool, Option<Seq<char>>, Option<Seq<char>>, Option<Seq<char>>) {
    (r.doi@, r.success, ostr(r.file_path), ostr(r.error), ostr(r.source))
}

/// A download that succeeded: the file and where it came from (`cache`
/// when the file was there already).
pub fn downloaded(doi: &str, path: &str, source: &str) -> (r: DownloadResult)
    ensures
        download_view(r) == (doi@, true, Some(path@), None::<Seq<char>>, Some(source@)),
{
    DownloadResult {
        doi: owned(doi),
        success: true,
        file_path: Some(owned(path)),
        error: None,
        source: Some(owned(source)),
    }
}

/// A download that found no PDF.
pub fn not_found(doi: &str) -> (r: DownloadResult)
    ensures
        download_view(r) == (doi@, false, None::<Seq<char>>, Some(not_found_message()), None::<Seq<char>>),
{
    DownloadResult {
        doi: owned(doi),
        success: false,
        file_path: None,
        error: Some(owned(
            "No PDF found across all providers. Try searching for the paper title to find alternative access.",
        )),
        source: None,
    }
}

/// The result for a batch entry without a DOI.
pub fn missing_doi() -> (r: DownloadResult)
    ensures
        download_view(r) == (Seq::<char>::empty(), false, None::<Seq<char>>, Some("Missing DOI"@), None::<Seq<char>>),
{
    DownloadResult { doi: String::new(), success: false, file_path: None, error: Some(owned("Missing DOI")), source: None }
}

} // verus!
