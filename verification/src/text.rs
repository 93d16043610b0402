//! Character-level text operations with their mathematical meaning.
//!
//! Strings are modelled as `Seq<char>` (the view of `String` and `str`).
//! Work is done on `Vec<char>` buffers; `chars_of` and `string_of` move
//! between the two representations.
use vstd::prelude::*;

verus! {

// ---------------------------------------------------------------------------
// Conversions between `str` and character buffers
// ---------------------------------------------------------------------------
/// The characters of `s`, in order.
pub fn chars_of(s: &str) -> (v: Vec<char>)
    ensures
        v@ == s@,
{
    let mut v: Vec<char> = Vec::new();
    for c in it: s.chars()
        invariant
            v@ == it.seq().take(it.index() as int),
            it.seq() == s@,
    {
        v.push(c);
    }
    v
}

/// Appends one character to a `String` (`String::push`).
#[verifier::external_body]
fn push_char(s: &mut String, c: char)
    ensures
        final(s)@ == old(s)@.push(c),
{
    s.push(c);
}

/// A `String` holding exactly the characters of `v`.
pub fn string_of(v: &Vec<char>) -> (s: String)
    ensures
        s@ == v@,
{
    let mut s = String::new();
    let mut i: usize = 0;
    while i < v.len()
        invariant
            i <= v.len(),
            s@ == v@.take(i as int),
        decreases v.len() - i,
    {
        push_char(&mut s, v[i]);
        assert(v@.take(i + 1) == v@.take(i as int).push(v@[i as int]));
        i = i + 1;
    }
    assert(v@.take(v.len() as int) == v@);
    s
}

/// A `String` copy of a string slice.
pub fn owned(s: &str) -> (r: String)
    ensures
        r@ == s@,
{
    let v = chars_of(s);
    string_of(&v)
}

/// Appends all characters of `b` to `a`.
pub fn extend(a: &mut Vec<char>, b: &Vec<char>)
    ensures
        final(a)@ == old(a)@ + b@,
{
    let mut j: usize = 0;
    while j < b.len()
        invariant
            j <= b.len(),
            a@ == old(a)@ + b@.take(j as int),
        decreases b.len() - j,
    {
        a.push(b[j]);
        assert(b@.take(j + 1) == b@.take(j as int).push(b@[j as int]));
        j = j + 1;
    }
    assert(b@.take(b.len() as int) == b@);
}

/// Appends all characters of a string slice to `a`.
pub fn extend_str(a: &mut Vec<char>, b: &str)
    ensures
        final(a)@ == old(a)@ + b@,
{
    let v = chars_of(b);
    extend(a, &v);
}

/// The sub-buffer `v[from..to]`.
pub fn slice(v: &Vec<char>, from: usize, to: usize) -> (r: Vec<char>)
    requires
        from <= to <= v.len(),
    ensures
        r@ == v@.subrange(from as int, to as int),
{
    let mut r: Vec<char> = Vec::new();
    let mut i: usize = from;
    while i < to
        invariant
            from <= i <= to <= v.len(),
            r@ == v@.subrange(from as int, i as int),
        decreases to - i,
    {
        r.push(v[i]);
        assert(v@.subrange(from as int, i + 1) == v@.subrange(from as int, i as int).push(
            v@[i as int],
        ));
        i = i + 1;
    }
    r
}

/// Equality of two character buffers.
pub fn eq_chars(a: &Vec<char>, b: &Vec<char>) -> (r: bool)
    ensures
        r == (a@ == b@),
{
    if a.len() != b.len() {
        return false;
    }
    let mut i: usize = 0;
    while i < a.len()
        invariant
            a.len() == b.len(),
            i <= a.len(),
            forall|k: int| 0 <= k < i ==> a@[k] == b@[k],
        decreases a.len() - i,
    {
        if a[i] != b[i] {
            return false;
        }
        i = i + 1;
    }
    assert(a@ =~= b@);
    true
}

/// Equality of a string slice with a character buffer.
pub fn str_eq(a: &str, b: &Vec<char>) -> (r: bool)
    ensures
        r == (a@ == b@),
{
    let v = chars_of(a);
    eq_chars(&v, b)
}

// ---------------------------------------------------------------------------
// Unicode white space, trimming and splitting into words
// ---------------------------------------------------------------------------
/// The Unicode `White_Space` property, which `char::is_whitespace`,
/// `str::trim` and `str::split_whitespace` go by.
pub open spec fn is_ws(c: char) -> bool {
    let u = c as u32;
    (0x9 <= u <= 0xd) || u == 0x20 || u == 0x85 || u == 0xa0 || u == 0x1680 || (0x2000 <= u
        <= 0x200a) || u == 0x2028 || u == 0x2029 || u == 0x202f || u == 0x205f || u == 0x3000
}

/// Whether `c` is Unicode white space.
pub fn is_whitespace(c: char) -> (b: bool)
    ensures
        b == is_ws(c),
{
    let u = c as u32;
    (0x9 <= u && u <= 0xd) || u == 0x20 || u == 0x85 || u == 0xa0 || u == 0x1680 || (0x2000 <= u
        && u <= 0x200a) || u == 0x2028 || u == 0x2029 || u == 0x202f || u == 0x205f || u == 0x3000
}

/// `s` without its leading white space.
pub open spec fn trim_start(s: Seq<char>) -> Seq<char>
    decreases s.len(),
{
    if s.len() > 0 && is_ws(s[0]) {
        trim_start(s.drop_first())
    } else {
        s
    }
}

/// `s` without its trailing white space.
pub open spec fn trim_end(s: Seq<char>) -> Seq<char>
    decreases s.len(),
{
    if s.len() > 0 && is_ws(s.last()) {
        trim_end(s.drop_last())
    } else {
        s
    }
}

/// `s` without leading and trailing white space (`str::trim`).
pub open spec fn trim(s: Seq<char>) -> Seq<char> {
    trim_end(trim_start(s))
}

/// The index of the first character of `s` that is not white space.
pub fn skip_ws_from(s: &Vec<char>, start: usize) -> (i: usize)
    requires
        start <= s.len(),
    ensures
        start <= i <= s.len(),
        trim_start(s@.skip(start as int)) == s@.skip(i as int),
        forall|k: int| start <= k < i ==> is_ws(#[trigger] s@[k]),
{
    let mut i = start;
    while i < s.len() && is_whitespace(s[i])
        invariant
            start <= i <= s.len(),
            trim_start(s@.skip(start as int)) == trim_start(s@.skip(i as int)),
            forall|k: int| start <= k < i ==> is_ws(#[trigger] s@[k]),
        decreases s.len() - i,
    {
        assert(s@.skip(i as int).drop_first() == s@.skip(i + 1));
        i = i + 1;
    }
    i
}

/// The end of `s[lo..hi]` once trailing white space is removed.
pub fn trailing_ws_start(s: &Vec<char>, lo: usize, hi: usize) -> (j: usize)
    requires
        lo <= hi <= s.len(),
    ensures
        lo <= j <= hi,
        trim_end(s@.subrange(lo as int, hi as int)) == s@.subrange(lo as int, j as int),
{
    let mut j = hi;
    while j > lo && is_whitespace(s[j - 1])
        invariant
            lo <= j <= hi <= s.len(),
            trim_end(s@.subrange(lo as int, hi as int)) == trim_end(
                s@.subrange(lo as int, j as int),
            ),
        decreases j,
    {
        assert(s@.subrange(lo as int, j as int).drop_last() == s@.subrange(lo as int, j - 1));
        j = j - 1;
    }
    j
}

/// `str::trim` on a character buffer.
pub fn trim_chars(s: &Vec<char>) -> (r: Vec<char>)
    ensures
        r@ == trim(s@),
{
    let i = skip_ws_from(s, 0);
    assert(s@.skip(0) == s@);
    assert(s@.skip(i as int) == s@.subrange(i as int, s.len() as int));
    let j = trailing_ws_start(s, i, s.len());
    slice(s, i, j)
}

/// `str::trim` on a string slice, as a new `String`.
pub fn trim_str(s: &str) -> (r: String)
    ensures
        r@ == trim(s@),
{
    let v = chars_of(s);
    let t = trim_chars(&v);
    string_of(&t)
}

/// The length of the run of non-white-space characters at the start of `s`.
pub open spec fn word_len(s: Seq<char>) -> nat
    decreases s.len(),
{
    if s.len() == 0 || is_ws(s[0]) {
        0
    } else {
        1 + word_len(s.drop_first())
    }
}

pub proof fn lemma_word_len_bound(s: Seq<char>)
    ensures
        word_len(s) <= s.len(),
        s.len() > 0 && !is_ws(s[0]) ==> word_len(s) >= 1,
    decreases s.len(),
{
    if s.len() > 0 && !is_ws(s[0]) {
        lemma_word_len_bound(s.drop_first());
    }
}

/// The white-space separated words of `s` (`str::split_whitespace`).
pub open spec fn words(s: Seq<char>) -> Seq<Seq<char>>
    decreases s.len(),
{
    if s.len() == 0 {
        seq![]
    } else if is_ws(s[0]) {
        words(s.drop_first())
    } else {
        let k = word_len(s);
        proof {
            lemma_word_len_bound(s);
        }
        seq![s.take(k as int)] + words(s.skip(k as int))
    }
}

/// A word ends at `j` when `s[i..j]` holds no white space and `j` is the end
/// of `s` or a white-space position.
proof fn lemma_word_len_at(s: Seq<char>, i: int, j: int)
    requires
        0 <= i <= j <= s.len(),
        forall|k: int| i <= k < j ==> !is_ws(#[trigger] s[k]),
        j == s.len() || is_ws(s[j]),
    ensures
        word_len(s.skip(i)) == j - i,
    decreases j - i,
{
    if i < j {
        assert(s.skip(i).drop_first() == s.skip(i + 1));
        lemma_word_len_at(s, i + 1, j);
    }
}

/// `str::split_whitespace` on a character buffer.
pub fn split_words(s: &Vec<char>) -> (r: Vec<Vec<char>>)
    ensures
        r@.map_values(|w: Vec<char>| w@) == words(s@),
        forall|k: int| 0 <= k < r@.len() ==> r@[k]@.len() > 0,
{
    let mut r: Vec<Vec<char>> = Vec::new();
    let mut i: usize = 0;
    assert(s@.skip(0) == s@);
    while i < s.len()
        invariant
            i <= s.len(),
            words(s@) == r@.map_values(|w: Vec<char>| w@) + words(s@.skip(i as int)),
            forall|k: int| 0 <= k < r@.len() ==> r@[k]@.len() > 0,
        decreases s.len() - i,
    {
        let ghost rest = s@.skip(i as int);
        if is_whitespace(s[i]) {
            assert(rest.drop_first() == s@.skip(i + 1));
            i = i + 1;
        } else {
            let mut j = i + 1;
            while j < s.len() && !is_whitespace(s[j])
                invariant
                    i < j <= s.len(),
                    forall|k: int| i <= k < j ==> !is_ws(#[trigger] s@[k]),
                decreases s.len() - j,
            {
                j = j + 1;
            }
            proof {
                lemma_word_len_at(s@, i as int, j as int);
            }
            let w = slice(s, i, j);
            let ghost old_r = r@;
            r.push(w);
            assert(rest.take((j - i) as int) == s@.subrange(i as int, j as int));
            assert(rest.skip((j - i) as int) == s@.skip(j as int));
            assert(r@.map_values(|w: Vec<char>| w@) == old_r.map_values(|w: Vec<char>| w@).push(
                w@,
            ));
            assert(words(rest) == seq![w@] + words(s@.skip(j as int)));
            i = j;
        }
    }
    assert(s@.skip(i as int) =~= Seq::<char>::empty());
    r
}

// ---------------------------------------------------------------------------
// Joining, prefixes, suffixes, substrings, replacement
// ---------------------------------------------------------------------------
/// The views of a sequence of strings.
pub open spec fn views(v: Seq<String>) -> Seq<Seq<char>> {
    v.map_values(|s: String| s@)
}

/// The view of an optional string.
pub open spec fn ostr(o: Option<String>) -> Option<Seq<char>> {
    match o {
        Some(s) => Some(s@),
        None => None,
    }
}

/// The view of an optional character buffer.
pub open spec fn ochars(o: Option<Vec<char>>) -> Option<Seq<char>> {
    match o {
        Some(s) => Some(s@),
        None => None,
    }
}

/// The views of a sequence of character buffers.
pub open spec fn cviews(v: Seq<Vec<char>>) -> Seq<Seq<char>> {
    v.map_values(|s: Vec<char>| s@)
}

/// `parts` joined with `sep` between consecutive elements (`[T]::join`).
pub open spec fn join(parts: Seq<Seq<char>>, sep: Seq<char>) -> Seq<char>
    decreases parts.len(),
{
    if parts.len() == 0 {
        seq![]
    } else if parts.len() == 1 {
        parts[0]
    } else {
        join(parts.drop_last(), sep) + sep + parts.last()
    }
}

/// Joins `parts` with `sep`.
pub fn join_chars(parts: &Vec<Vec<char>>, sep: &Vec<char>) -> (r: Vec<char>)
    ensures
        r@ == join(cviews(parts@), sep@),
{
    let mut r: Vec<char> = Vec::new();
    let mut i: usize = 0;
    while i < parts.len()
        invariant
            i <= parts.len(),
            r@ == join(cviews(parts@).take(i as int), sep@),
        decreases parts.len() - i,
    {
        if i > 0 {
            extend(&mut r, sep);
        }
        extend(&mut r, &parts[i]);
        assert(cviews(parts@).take(i + 1).drop_last() == cviews(parts@).take(i as int));
        i = i + 1;
    }
    assert(cviews(parts@).take(parts.len() as int) == cviews(parts@));
    r
}

/// Joins the strings of `parts` with `sep`.
pub fn join_strings(parts: &Vec<String>, sep: &Vec<char>) -> (r: Vec<char>)
    ensures
        r@ == join(views(parts@), sep@),
{
    let mut r: Vec<char> = Vec::new();
    let mut i: usize = 0;
    while i < parts.len()
        invariant
            i <= parts.len(),
            r@ == join(views(parts@).take(i as int), sep@),
        decreases parts.len() - i,
    {
        if i > 0 {
            extend(&mut r, sep);
        }
        extend_str(&mut r, parts[i].as_str());
        assert(views(parts@).take(i + 1).drop_last() == views(parts@).take(i as int));
        i = i + 1;
    }
    assert(views(parts@).take(parts.len() as int) == views(parts@));
    r
}

/// Whether `p` is a prefix of `s`.
pub open spec fn has_prefix(s: Seq<char>, p: Seq<char>) -> bool {
    p.len() <= s.len() && s.take(p.len() as int) == p
}

/// Whether `p` is a suffix of `s`.
pub open spec fn has_suffix(s: Seq<char>, p: Seq<char>) -> bool {
    p.len() <= s.len() && s.skip(s.len() - p.len()) == p
}

/// Whether `p` occurs in `s` at position `i`.
pub open spec fn occurs_at(s: Seq<char>, p: Seq<char>, i: int) -> bool {
    0 <= i && i + p.len() <= s.len() && s.subrange(i, i + p.len()) == p
}

/// Whether `p` occurs anywhere in `s` (`str::contains`).
pub open spec fn contains(s: Seq<char>, p: Seq<char>) -> bool {
    exists|i: int| occurs_at(s, p, i)
}

/// Whether `p` occurs in `s` at position `i`.
pub fn occurs_at_exec(s: &Vec<char>, p: &Vec<char>, i: usize) -> (r: bool)
    ensures
        r == occurs_at(s@, p@, i as int),
{
    if i > s.len() || p.len() > s.len() - i {
        return false;
    }
    let mut k: usize = 0;
    while k < p.len()
        invariant
            i + p.len() <= s.len(),
            k <= p.len(),
            forall|m: int| 0 <= m < k ==> s@[i + m] == p@[m],
        decreases p.len() - k,
    {
        if s[i + k] != p[k] {
            assert(s@.subrange(i as int, i + p.len())[k as int] != p@[k as int]);
            return false;
        }
        k = k + 1;
    }
    assert(s@.subrange(i as int, i + p.len()) =~= p@);
    true
}

/// `str::starts_with`.
pub fn starts_with(s: &Vec<char>, p: &Vec<char>) -> (r: bool)
    ensures
        r == has_prefix(s@, p@),
{
    let r = occurs_at_exec(s, p, 0);
    assert(s@.subrange(0, p@.len() as int) == s@.take(p@.len() as int));
    r
}

/// `str::starts_with` with a string-slice pattern.
pub fn starts_with_str(s: &Vec<char>, p: &str) -> (r: bool)
    ensures
        r == has_prefix(s@, p@),
{
    let pv = chars_of(p);
    starts_with(s, &pv)
}

/// `str::ends_with` with a string-slice pattern.
pub fn ends_with_str(s: &Vec<char>, p: &str) -> (r: bool)
    ensures
        r == has_suffix(s@, p@),
{
    let pv = chars_of(p);
    if pv.len() > s.len() {
        return false;
    }
    let r = occurs_at_exec(s, &pv, s.len() - pv.len());
    assert(s@.subrange(s.len() - pv.len(), s.len() as int) == s@.skip(s.len() - pv.len()));
    r
}

/// `str::contains` with a string-slice pattern.
pub fn contains_str(s: &Vec<char>, p: &str) -> (r: bool)
    ensures
        r == contains(s@, p@),
{
    let pv = chars_of(p);
    let mut i: usize = 0;
    while i < s.len()
        invariant
            i <= s.len(),
            pv@ == p@,
            forall|k: int| 0 <= k < i ==> !occurs_at(s@, p@, k),
        decreases s.len() - i,
    {
        if occurs_at_exec(s, &pv, i) {
            return true;
        }
        i = i + 1;
    }
    if occurs_at_exec(s, &pv, s.len()) {
        return true;
    }
    assert forall|k: int| !occurs_at(s@, p@, k) by {
        if 0 <= k < s@.len() {
            assert(k < i);
        }
    }
    false
}

/// `str::strip_prefix`: `s` without `p` when it starts with `p`.
pub open spec fn strip_prefix(s: Seq<char>, p: Seq<char>) -> Option<Seq<char>> {
    if has_prefix(s, p) {
        Some(s.skip(p.len() as int))
    } else {
        None
    }
}

/// `str::strip_prefix` with a string-slice pattern.
pub fn strip_prefix_str(s: &Vec<char>, p: &str) -> (r: Option<Vec<char>>)
    ensures
        match r {
            Some(v) => strip_prefix(s@, p@) == Some(v@),
            None => strip_prefix(s@, p@) is None,
        },
{
    if starts_with_str(s, p) {
        let n = chars_of(p).len();
        Some(slice(s, n, s.len()))
    } else {
        None
    }
}

/// `str::trim_start_matches`: `s` with every leading repetition of `p`
/// removed (nothing is removed when `p` is empty).
pub open spec fn trim_start_matches(s: Seq<char>, p: Seq<char>) -> Seq<char>
    decreases s.len(),
{
    if p.len() > 0 && has_prefix(s, p) {
        trim_start_matches(s.skip(p.len() as int), p)
    } else {
        s
    }
}

/// `str::trim_start_matches` with a string-slice pattern.
pub fn trim_start_matches_str(s: &Vec<char>, p: &str) -> (r: Vec<char>)
    ensures
        r@ == trim_start_matches(s@, p@),
{
    let pv = chars_of(p);
    let mut i: usize = 0;
    assert(s@.skip(0) == s@);
    while pv.len() > 0 && i <= s.len() && occurs_at_exec(s, &pv, i)
        invariant
            pv@ == p@,
            i <= s.len(),
            trim_start_matches(s@, p@) == trim_start_matches(s@.skip(i as int), p@),
        decreases s.len() - i,
    {
        assert(s@.skip(i as int).take(p@.len() as int) == s@.subrange(i as int, i + p@.len()));
        assert(s@.skip(i as int).skip(p@.len() as int) == s@.skip(i + p@.len()));
        i = i + pv.len();
    }
    proof {
        if p@.len() > 0 && has_prefix(s@.skip(i as int), p@) {
            assert(s@.skip(i as int).take(p@.len() as int) == s@.subrange(i as int, i + p@.len()));
        }
    }
    slice(s, i, s.len())
}

/// `s` with every occurrence of the character `c` replaced by `r`
/// (`str::replace` with a one-character pattern).
pub open spec fn replace_char(s: Seq<char>, c: char, r: Seq<char>) -> Seq<char>
    decreases s.len(),
{
    if s.len() == 0 {
        seq![]
    } else {
        replace_char(s.drop_last(), c, r) + (if s.last() == c {
            r
        } else {
            seq![s.last()]
        })
    }
}

/// `str::replace` with a one-character pattern.
pub fn replace_char_exec(s: &Vec<char>, c: char, r: &Vec<char>) -> (out: Vec<char>)
    ensures
        out@ == replace_char(s@, c, r@),
{
    let mut out: Vec<char> = Vec::new();
    let mut i: usize = 0;
    while i < s.len()
        invariant
            i <= s.len(),
            out@ == replace_char(s@.take(i as int), c, r@),
        decreases s.len() - i,
    {
        assert(s@.take(i + 1).drop_last() == s@.take(i as int));
        if s[i] == c {
            extend(&mut out, r);
        } else {
            out.push(s[i]);
        }
        i = i + 1;
    }
    assert(s@.take(s.len() as int) == s@);
    out
}

// ---------------------------------------------------------------------------
// Decimal formatting and parsing of integers
// ---------------------------------------------------------------------------
/// The ASCII digit for `d < 10`.
pub open spec fn digit_char(d: nat) -> char {
    ((d + 48) as u8) as char
}

/// The decimal digits of `n` (`Display` for unsigned integers).
pub open spec fn nat_dec(n: nat) -> Seq<char>
    decreases n,
{
    if n < 10 {
        seq![digit_char(n)]
    } else {
        nat_dec(n / 10).push(digit_char(n % 10))
    }
}

/// `Display` for signed integers: a minus sign before the digits of the
/// magnitude when negative.
pub open spec fn int_dec(n: int) -> Seq<char> {
    if n < 0 {
        seq!['-'] + nat_dec((-n) as nat)
    } else {
        nat_dec(n as nat)
    }
}

/// `k` zero characters (none when `k <= 0`).
pub open spec fn zeros(k: int) -> Seq<char> {
    Seq::new(if k > 0 { k as nat } else { 0 }, |i: int| '0')
}

/// `format!("{:0w$}", n)`: the sign, then zeros, then the digits, padded to
/// at least `w` characters in all.
pub open spec fn int_dec_padded(n: int, w: int) -> Seq<char> {
    if n < 0 {
        seq!['-'] + zeros(w - 1 - nat_dec((-n) as nat).len()) + nat_dec((-n) as nat)
    } else {
        zeros(w - nat_dec(n as nat).len()) + nat_dec(n as nat)
    }
}

fn digit(d: u64) -> (c: char)
    requires
        d < 10,
    ensures
        c == digit_char(d as nat),
{
    ((d as u8) + 48u8) as char
}

/// Appends the decimal digits of `n` to `out`.
pub fn push_nat_dec(out: &mut Vec<char>, n: u64)
    ensures
        final(out)@ == old(out)@ + nat_dec(n as nat),
    decreases n,
{
    if n >= 10 {
        push_nat_dec(out, n / 10);
    }
    out.push(digit(n % 10));
    proof {
        if n >= 10 {
            assert(old(out)@ + nat_dec(n as nat) == old(out)@ + nat_dec((n / 10) as nat) + seq![
                digit_char((n % 10) as nat),
            ]);
        }
    }
}

fn magnitude(n: i64) -> (m: u64)
    ensures
        m as int == if n < 0 {
            -n
        } else {
            n as int
        },
{
    if n < 0 {
        ((-(n + 1)) as u64) + 1
    } else {
        n as u64
    }
}

/// `n.to_string()` for signed integers.
pub fn fmt_int(n: i64) -> (r: Vec<char>)
    ensures
        r@ == int_dec(n as int),
{
    let mut r: Vec<char> = Vec::new();
    if n < 0 {
        r.push('-');
    }
    push_nat_dec(&mut r, magnitude(n));
    r
}

/// `format!("{:0width$}", n)`.
pub fn fmt_int_padded(n: i64, width: usize) -> (r: Vec<char>)
    requires
        width <= 64,
    ensures
        r@ == int_dec_padded(n as int, width as int),
{
    let mut digits: Vec<char> = Vec::new();
    let mag = magnitude(n);
    push_nat_dec(&mut digits, mag);
    assert(digits@ =~= nat_dec(mag as nat));
    let mut r: Vec<char> = Vec::new();
    let taken: usize = if n < 0 {
        1
    } else {
        0
    };
    if n < 0 {
        r.push('-');
    }
    let pad: usize = if digits.len() >= width {
        0
    } else if width - digits.len() > taken {
        width - digits.len() - taken
    } else {
        0
    };
    assert(zeros(pad as int) == zeros(width - taken - digits.len()));
    let mut k: usize = 0;
    while k < pad
        invariant
            k <= pad,
            r@ == (if n < 0 {
                seq!['-']
            } else {
                seq![]
            }) + zeros(k as int),
        decreases pad - k,
    {
        r.push('0');
        assert(zeros(k + 1) == zeros(k as int).push('0'));
        k = k + 1;
    }
    extend(&mut r, &digits);
    r
}

/// Whether `c` is an ASCII decimal digit.
pub open spec fn is_digit(c: char) -> bool {
    48 <= (c as u32) <= 57
}

/// Whether `c` is an ASCII decimal digit.
pub fn is_ascii_digit(c: char) -> (b: bool)
    ensures
        b == is_digit(c),
{
    let u = c as u32;
    48 <= u && u <= 57
}

/// Whether `s` is one or more ASCII digits.
pub open spec fn all_digits(s: Seq<char>) -> bool {
    s.len() > 0 && forall|i: int| 0 <= i < s.len() ==> is_digit(#[trigger] s[i])
}

/// The value of a string of ASCII digits.
pub open spec fn digits_val(s: Seq<char>) -> nat
    decreases s.len(),
{
    if s.len() == 0 {
        0
    } else {
        digits_val(s.drop_last()) * 10 + ((s.last() as u32) - 48) as nat
    }
}

/// The value that `FromStr` for Rust's integer types reads from `s` before
/// its range check: an optional `+` (or `-`, for signed types) followed by
/// one or more ASCII digits and nothing else.
pub open spec fn parse_int_spec(s: Seq<char>, signed: bool) -> Option<int> {
    if s.len() > 0 && s[0] == '+' && all_digits(s.drop_first()) {
        Some(digits_val(s.drop_first()) as int)
    } else if signed && s.len() > 0 && s[0] == '-' && all_digits(s.drop_first()) {
        Some(-(digits_val(s.drop_first()) as int))
    } else if all_digits(s) {
        Some(digits_val(s) as int)
    } else {
        None
    }
}

/// `s.parse::<i32>().ok()`.
pub open spec fn parse_i32_spec(s: Seq<char>) -> Option<i32> {
    match parse_int_spec(s, true) {
        Some(v) => if i32::MIN <= v <= i32::MAX {
            Some(v as i32)
        } else {
            None
        },
        None => None,
    }
}

/// `s.parse::<i64>().ok()`.
pub open spec fn parse_i64_spec(s: Seq<char>) -> Option<i64> {
    match parse_int_spec(s, true) {
        Some(v) => if i64::MIN <= v <= i64::MAX {
            Some(v as i64)
        } else {
            None
        },
        None => None,
    }
}

/// `s.parse::<u32>().ok()`.
pub open spec fn parse_u32_spec(s: Seq<char>) -> Option<u32> {
    match parse_int_spec(s, false) {
        Some(v) => if 0 <= v <= u32::MAX {
            Some(v as u32)
        } else {
            None
        },
        None => None,
    }
}

/// `s.parse::<u64>().ok()`.
pub open spec fn parse_u64_spec(s: Seq<char>) -> Option<u64> {
    match parse_int_spec(s, false) {
        Some(v) => if 0 <= v <= u64::MAX {
            Some(v as u64)
        } else {
            None
        },
        None => None,
    }
}

/// The value of the digits `s[from..]`, or `cap + 1` when it exceeds `cap`;
/// `None` unless `s[from..]` is one or more ASCII digits.
fn digits_capped(s: &Vec<char>, from: usize, cap: u128) -> (r: Option<u128>)
    requires
        from <= s.len(),
        cap < 0x1_0000_0000_0000_0000_0000,
    ensures
        match r {
            Some(v) => all_digits(s@.skip(from as int)) && v == if digits_val(s@.skip(from as int))
                <= cap {
                digits_val(s@.skip(from as int)) as int
            } else {
                cap + 1
            },
            None => !all_digits(s@.skip(from as int)),
        },
{
    if from == s.len() {
        return None;
    }
    let mut acc: u128 = 0;
    let mut i: usize = from;
    while i < s.len()
        invariant
            from <= i <= s.len(),
            cap < 0x1_0000_0000_0000_0000_0000,
            forall|k: int| from <= k < i ==> is_digit(#[trigger] s@[k]),
            acc == if digits_val(s@.subrange(from as int, i as int)) <= cap {
                digits_val(s@.subrange(from as int, i as int)) as int
            } else {
                cap + 1
            },
        decreases s.len() - i,
    {
        if !is_ascii_digit(s[i]) {
            assert(s@.skip(from as int)[i - from] == s@[i as int]);
            return None;
        }
        let d = (s[i] as u32 - 48) as u128;
        let ghost prev = s@.subrange(from as int, i as int);
        assert(s@.subrange(from as int, i + 1).drop_last() == prev);
        if acc <= cap {
            let next = acc * 10 + d;
            acc = if next <= cap {
                next
            } else {
                cap + 1
            };
        } else {
            assert(digits_val(prev) > cap);
            assert(digits_val(prev) * 10 + d > cap) by (nonlinear_arith)
                requires
                    digits_val(prev) > cap,
                    d >= 0,
            ;
        }
        i = i + 1;
    }
    assert(s@.subrange(from as int, s.len() as int) == s@.skip(from as int));
    Some(acc)
}

/// The sign and magnitude-with-cap reading of `s` (see `parse_int_spec`).
fn parse_parts(s: &Vec<char>, signed: bool, cap: u128) -> (r: Option<(bool, u128)>)
    requires
        cap < 0x1_0000_0000_0000_0000_0000,
    ensures
        match r {
            Some((neg, m)) => parse_int_spec(s@, signed) is Some && {
                let v = parse_int_spec(s@, signed)->0;
                let mag = if v < 0 {
                    -v
                } else {
                    v
                };
                &&& (neg ==> v <= 0)
                &&& (!neg ==> v >= 0)
                &&& m == if mag <= cap {
                    mag
                } else {
                    cap + 1
                }
            },
            None => parse_int_spec(s@, signed) is None,
        },
{
    if s.len() > 0 && s[0] == '+' {
        assert(s@.skip(1) == s@.drop_first());
        match digits_capped(s, 1, cap) {
            Some(m) => Some((false, m)),
            None => {
                assert(!all_digits(s@)) by {
                    assert(!is_digit(s@[0]));
                }
                None
            },
        }
    } else if s.len() > 0 && s[0] == '-' {
        assert(s@.skip(1) == s@.drop_first());
        if !signed {
            assert(!all_digits(s@)) by {
                assert(!is_digit(s@[0]));
            }
            return None;
        }
        match digits_capped(s, 1, cap) {
            Some(m) => Some((true, m)),
            None => {
                assert(!all_digits(s@)) by {
                    assert(!is_digit(s@[0]));
                }
                None
            },
        }
    } else {
        assert(s@.skip(0) == s@);
        match digits_capped(s, 0, cap) {
            Some(m) => Some((false, m)),
            None => None,
        }
    }
}

/// `s.parse::<i32>().ok()`.
pub fn parse_i32(s: &Vec<char>) -> (r: Option<i32>)
    ensures
        r == parse_i32_spec(s@),
{
    match parse_parts(s, true, 0x8000_0000) {
        Some((neg, m)) => {
            if neg {
                if m <= 0x8000_0000 {
                    Some((-(m as i64)) as i32)
                } else {
                    None
                }
            } else if m <= 0x7fff_ffff {
                Some(m as i32)
            } else {
                None
            }
        },
        None => None,
    }
}

/// `s.parse::<i64>().ok()`.
pub fn parse_i64(s: &Vec<char>) -> (r: Option<i64>)
    ensures
        r == parse_i64_spec(s@),
{
    match parse_parts(s, true, 0x8000_0000_0000_0000) {
        Some((neg, m)) => {
            if neg {
                if m <= 0x8000_0000_0000_0000 {
                    Some((-(m as i128)) as i64)
                } else {
                    None
                }
            } else if m <= 0x7fff_ffff_ffff_ffff {
                Some(m as i64)
            } else {
                None
            }
        },
        None => None,
    }
}

/// `s.parse::<u32>().ok()`.
pub fn parse_u32(s: &Vec<char>) -> (r: Option<u32>)
    ensures
        r == parse_u32_spec(s@),
{
    match parse_parts(s, false, 0xffff_ffff) {
        Some((_, m)) => if m <= 0xffff_ffff {
            Some(m as u32)
        } else {
            None
        },
        None => None,
    }
}

/// `s.parse::<u64>().ok()`.
pub fn parse_u64(s: &Vec<char>) -> (r: Option<u64>)
    ensures
        r == parse_u64_spec(s@),
{
    match parse_parts(s, false, 0xffff_ffff_ffff_ffff) {
        Some((_, m)) => if m <= 0xffff_ffff_ffff_ffff {
            Some(m as u64)
        } else {
            None
        },
        None => None,
    }
}

// ---------------------------------------------------------------------------
// Byte-indexed prefixes (`str::get(..n)`)
// ---------------------------------------------------------------------------
/// The number of bytes of the UTF-8 encoding of `c`.
pub open spec fn utf8_len(c: char) -> nat {
    let u = c as u32;
    if u < 0x80 {
        1
    } else if u < 0x800 {
        2
    } else if u < 0x10000 {
        3
    } else {
        4
    }
}

/// `str::get(..n)`: the leading characters of `s` whose UTF-8 encoding is
/// exactly `n` bytes long, or `None` when `n` is past the end of `s` or not
/// on a character boundary.
pub open spec fn byte_prefix(s: Seq<char>, n: int) -> Option<Seq<char>>
    decreases s.len(),
{
    if n == 0 {
        Some(seq![])
    } else if n < 0 || s.len() == 0 || utf8_len(s[0]) > n {
        None
    } else {
        match byte_prefix(s.drop_first(), n - utf8_len(s[0])) {
            Some(r) => Some(seq![s[0]] + r),
            None => None,
        }
    }
}

pub fn char_utf8_len(c: char) -> (n: usize)
    ensures
        n == utf8_len(c),
{
    let u = c as u32;
    if u < 0x80 {
        1
    } else if u < 0x800 {
        2
    } else if u < 0x10000 {
        3
    } else {
        4
    }
}

proof fn lemma_byte_prefix_step(s: Seq<char>, i: int, n: int, used: int)
    requires
        0 <= i < s.len(),
        0 <= used,
        used + utf8_len(s[i]) <= n,
    ensures
        byte_prefix(s.skip(i), n - used) == match byte_prefix(s.skip(i + 1), n - used - utf8_len(s[i])) {
            Some(r) => Some(seq![s[i]] + r),
            None => None,
        },
{
    assert(s.skip(i).drop_first() == s.skip(i + 1));
    assert(s.skip(i)[0] == s[i]);
}

/// `str::get(..n)` on a character buffer.
pub fn byte_prefix_exec(s: &Vec<char>, n: usize) -> (r: Option<Vec<char>>)
    ensures
        match r {
            Some(v) => byte_prefix(s@, n as int) == Some(v@),
            None => byte_prefix(s@, n as int) is None,
        },
{
    let mut used: usize = 0;
    let mut i: usize = 0;
    assert(s@.skip(0) == s@);
    while i < s.len() && used < n && char_utf8_len(s[i]) <= n - used
        invariant
            i <= s.len(),
            used <= n,
            byte_prefix(s@, n as int) == match byte_prefix(s@.skip(i as int), n - used) {
                Some(r) => Some(s@.take(i as int) + r),
                None => None,
            },
        decreases s.len() - i,
    {
        proof {
            lemma_byte_prefix_step(s@, i as int, n as int, used as int);
            assert(s@.take(i + 1) == s@.take(i as int) + seq![s@[i as int]]);
        }
        used = used + char_utf8_len(s[i]);
        i = i + 1;
    }
    if used == n {
        assert(s@.take(i as int) + seq![] == s@.take(i as int));
        Some(slice(s, 0, i))
    } else {
        proof {
            if i < s.len() {
                assert(s@.skip(i as int)[0] == s@[i as int]);
            }
        }
        None
    }
}

} // verus!
