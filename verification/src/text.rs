//! Character-level text handling shared by the playlist, path and
//! configuration code: a mathematical model of the `str` operations the
//! downloader relies on (trimming, searching, splitting, decimal numbers),
//! and executable versions proved against that model.
use vstd::prelude::*;

verus! {

broadcast use vstd::string::group_string_axioms;

// ---------------------------------------------------------------------------
// Conversions between `str`/`String` and character vectors
// ---------------------------------------------------------------------------

/// The characters of `s`, in order.
pub fn chars_of(s: &str) -> (v: Vec<char>)
    ensures
        v@ == s@,
{
    let mut v: Vec<char> = Vec::new();
    for c in it: s.chars()
        invariant
            v@ == it.seq().take(it.index() as int),
    {
        v.push(c);
    }
    proof {
        assert(v@ == s@);
    }
    v
}

/// Builds a `String` holding exactly the characters of `v`
/// (`FromIterator<&char>` for `String`, which appends each character in turn).
#[verifier::external_body]
pub(crate) fn string_from_chars(v: &[char]) -> (s: String)
    ensures
        s@ == v@,
{
    v.iter().collect()
}

/// Appends the characters of `s` to `out`.
pub fn push_str(out: &mut Vec<char>, s: &str)
    ensures
        final(out)@ == old(out)@ + s@,
{
    let cs = chars_of(s);
    push_chars(out, &cs);
}

/// `a` followed by `b`.
pub fn concat_str(a: &str, b: &str) -> (r: String)
    ensures
        r@ == a@ + b@,
{
    let mut out = chars_of(a);
    push_str(&mut out, b);
    string_from_chars(out.as_slice())
}

/// Appends the characters of `cs` to `out`.
pub fn push_chars(out: &mut Vec<char>, cs: &Vec<char>)
    ensures
        final(out)@ == old(out)@ + cs@,
{
    let ghost start = out@;
    let mut i: usize = 0;
    while i < cs.len()
        invariant
            i <= cs.len(),
            out@ == start + cs@.take(i as int),
        decreases cs.len() - i,
    {
        out.push(cs[i]);
        i = i + 1;
        proof {
            assert(cs@.take(i as int) == cs@.take(i - 1) + seq![cs@[i - 1]]);
        }
    }
    proof {
        assert(cs@.take(cs.len() as int) == cs@);
    }
}

/// A copy of the characters `v[from..to]`.
pub fn sub_chars(v: &Vec<char>, from: usize, to: usize) -> (r: Vec<char>)
    requires
        from <= to <= v.len(),
    ensures
        r@ == v@.subrange(from as int, to as int),
{
    let mut r: Vec<char> = Vec::new();
    let mut i = from;
    while i < to
        invariant
            from <= i <= to <= v.len(),
            r@ == v@.subrange(from as int, i as int),
        decreases to - i,
    {
        r.push(v[i]);
        i = i + 1;
        proof {
            assert(v@.subrange(from as int, i as int) == v@.subrange(from as int, i - 1) + seq![
                v@[i - 1],
            ]);
        }
    }
    r
}

// ---------------------------------------------------------------------------
// Whitespace and trimming
// ---------------------------------------------------------------------------

/// Unicode `White_Space`, the property `char::is_whitespace` and `str::trim` use.
pub open spec fn is_ws(c: char) -> bool {
    ||| c == ' '
    ||| ('\u{9}' <= c && c <= '\u{d}')
    ||| c == '\u{85}'
    ||| c == '\u{a0}'
    ||| c == '\u{1680}'
    ||| ('\u{2000}' <= c && c <= '\u{200a}')
    ||| c == '\u{2028}'
    ||| c == '\u{2029}'
    ||| c == '\u{202f}'
    ||| c == '\u{205f}'
    ||| c == '\u{3000}'
}

pub fn is_ws_exec(c: char) -> (b: bool)
    ensures
        b == is_ws(c),
{
    c == ' ' || ('\u{9}' <= c && c <= '\u{d}') || c == '\u{85}' || c == '\u{a0}' || c
        == '\u{1680}' || ('\u{2000}' <= c && c <= '\u{200a}') || c == '\u{2028}' || c
        == '\u{2029}' || c == '\u{202f}' || c == '\u{205f}' || c == '\u{3000}'
}

/// `s` without its leading whitespace.
pub open spec fn trim_start(s: Seq<char>) -> Seq<char>
    decreases s.len(),
{
    if s.len() > 0 && is_ws(s[0]) {
        trim_start(s.drop_first())
    } else {
        s
    }
}

/// `s` without its trailing whitespace.
pub open spec fn trim_end(s: Seq<char>) -> Seq<char>
    decreases s.len(),
{
    if s.len() > 0 && is_ws(s.last()) {
        trim_end(s.drop_last())
    } else {
        s
    }
}

/// `s` without leading and trailing whitespace (`str::trim`).
pub open spec fn trim(s: Seq<char>) -> Seq<char> {
    trim_end(trim_start(s))
}

/// `str::trim` on a character vector.
pub fn trim_chars(v: &Vec<char>) -> (r: Vec<char>)
    ensures
        r@ == trim(v@),
{
    let mut i: usize = 0;
    proof {
        assert(v@.skip(0) == v@);
    }
    while i < v.len() && is_ws_exec(v[i])
        invariant
            i <= v.len(),
            trim_start(v@) == trim_start(v@.skip(i as int)),
        decreases v.len() - i,
    {
        proof {
            assert(v@.skip(i as int).drop_first() == v@.skip(i + 1));
        }
        i = i + 1;
    }
    proof {
        assert(trim_start(v@) == v@.skip(i as int));
    }
    let mut j: usize = v.len();
    while j > i && is_ws_exec(v[j - 1])
        invariant
            i <= j <= v.len(),
            trim(v@) == trim_end(v@.subrange(i as int, j as int)),
        decreases j,
    {
        proof {
            assert(v@.subrange(i as int, j as int).drop_last() == v@.subrange(i as int, j - 1));
        }
        j = j - 1;
    }
    sub_chars(v, i, j)
}

/// `str::trim`, giving an owned string.
pub fn trim_str(s: &str) -> (r: String)
    ensures
        r@ == trim(s@),
{
    let v = chars_of(s);
    let t = trim_chars(&v);
    string_from_chars(t.as_slice())
}

pub proof fn lemma_trim_start_no_ws(s: Seq<char>)
    requires
        s.len() == 0 || !is_ws(s[0]),
    ensures
        trim_start(s) == s,
{
}

pub proof fn lemma_trim_end_no_ws(s: Seq<char>)
    requires
        s.len() == 0 || !is_ws(s.last()),
    ensures
        trim_end(s) == s,
{
}

/// Trimming whitespace twice changes nothing more.
pub proof fn lemma_trim_idempotent(s: Seq<char>)
    ensures
        trim(trim(s)) == trim(s),
    decreases s.len(),
{
    lemma_trim_start_result(s);
    lemma_trim_end_result(trim_start(s));
    let t = trim(s);
    if t.len() > 0 {
        lemma_trim_end_keeps_first(trim_start(s));
    }
    lemma_trim_start_no_ws(t);
    lemma_trim_end_no_ws(t);
}

pub proof fn lemma_trim_start_result(s: Seq<char>)
    ensures
        trim_start(s).len() == 0 || !is_ws(trim_start(s)[0]),
        trim_start(s).len() <= s.len(),
    decreases s.len(),
{
    if s.len() > 0 && is_ws(s[0]) {
        lemma_trim_start_result(s.drop_first());
    }
}

pub proof fn lemma_trim_end_result(s: Seq<char>)
    ensures
        trim_end(s).len() == 0 || !is_ws(trim_end(s).last()),
        trim_end(s) == s.take(trim_end(s).len() as int),
        trim_end(s).len() <= s.len(),
    decreases s.len(),
{
    if s.len() > 0 && is_ws(s.last()) {
        lemma_trim_end_result(s.drop_last());
        assert(s.drop_last().take(trim_end(s).len() as int) == s.take(trim_end(s).len() as int));
    } else {
        assert(s.take(s.len() as int) == s);
    }
}

proof fn lemma_trim_end_keeps_first(s: Seq<char>)
    requires
        s.len() == 0 || !is_ws(s[0]),
        trim_end(s).len() > 0,
    ensures
        !is_ws(trim_end(s)[0]),
{
    lemma_trim_end_result(s);
}

// ---------------------------------------------------------------------------
// Prefixes, suffixes, searching
// ---------------------------------------------------------------------------

pub open spec fn starts_with(s: Seq<char>, p: Seq<char>) -> bool {
    p.len() <= s.len() && s.take(p.len() as int) == p
}

pub open spec fn ends_with(s: Seq<char>, p: Seq<char>) -> bool {
    p.len() <= s.len() && s.skip(s.len() - p.len()) == p
}

pub fn starts_with_chars(s: &Vec<char>, p: &Vec<char>) -> (b: bool)
    ensures
        b == starts_with(s@, p@),
{
    if p.len() > s.len() {
        return false;
    }
    let mut i: usize = 0;
    while i < p.len()
        invariant
            p.len() <= s.len(),
            i <= p.len(),
            forall|k: int| 0 <= k < i ==> s@[k] == p@[k],
        decreases p.len() - i,
    {
        if s[i] != p[i] {
            proof {
                assert(s@.take(p.len() as int)[i as int] != p@[i as int]);
            }
            return false;
        }
        i = i + 1;
    }
    proof {
        assert(s@.take(p.len() as int) =~= p@);
    }
    true
}

pub fn ends_with_chars(s: &Vec<char>, p: &Vec<char>) -> (b: bool)
    ensures
        b == ends_with(s@, p@),
{
    if p.len() > s.len() {
        return false;
    }
    let off = s.len() - p.len();
    let mut i: usize = 0;
    while i < p.len()
        invariant
            p.len() <= s.len(),
            off == s.len() - p.len(),
            i <= p.len(),
            forall|k: int| 0 <= k < i ==> s@[off + k] == p@[k],
        decreases p.len() - i,
    {
        if s[off + i] != p[i] {
            proof {
                assert(s@.skip(off as int)[i as int] != p@[i as int]);
            }
            return false;
        }
        i = i + 1;
    }
    proof {
        assert(s@.skip(off as int) =~= p@);
    }
    true
}

/// `true` when `i` is the first position of `c` in `s`.
pub open spec fn first_index_of(s: Seq<char>, c: char, i: int) -> bool {
    &&& 0 <= i < s.len()
    &&& s[i] == c
    &&& forall|j: int| 0 <= j < i ==> s[j] != c
}

/// The first position of `c` in `s`, if any (`str::find` with a `char`).
pub open spec fn find_char(s: Seq<char>, c: char) -> Option<int> {
    if exists|i: int| 0 <= i < s.len() && s[i] == c {
        Some(choose|i: int| first_index_of(s, c, i))
    } else {
        None
    }
}

pub proof fn lemma_find_char_first(s: Seq<char>, c: char, i: int)
    requires
        first_index_of(s, c, i),
    ensures
        find_char(s, c) == Some(i),
{
    assert(exists|k: int| 0 <= k < s.len() && s[k] == c) by {
        assert(s[i] == c);
    }
    let k = choose|k: int| first_index_of(s, c, k);
    assert(first_index_of(s, c, k)) by {
        assert(first_index_of(s, c, i));
    }
    if k < i {
        assert(s[k] != c);
    }
    if i < k {
        assert(s[i] != c);
    }
}

pub proof fn lemma_find_char_none(s: Seq<char>, c: char)
    requires
        forall|j: int| 0 <= j < s.len() ==> s[j] != c,
    ensures
        find_char(s, c) is None,
{
}

pub proof fn lemma_find_char_some(s: Seq<char>, c: char)
    requires
        find_char(s, c) is Some,
    ensures
        first_index_of(s, c, find_char(s, c)->0),
{
    let w = choose|i: int| 0 <= i < s.len() && s[i] == c;
    lemma_least_index_exists(s, c, w);
}

proof fn lemma_least_index_exists(s: Seq<char>, c: char, w: int)
    requires
        0 <= w < s.len(),
        s[w] == c,
    ensures
        exists|i: int| first_index_of(s, c, i),
    decreases w,
{
    if forall|j: int| 0 <= j < w ==> s[j] != c {
        assert(first_index_of(s, c, w));
    } else {
        let j = choose|j: int| 0 <= j < w && s[j] == c;
        lemma_least_index_exists(s, c, j);
    }
}

/// The first position of `c` in `v`.
pub fn find_char_exec(v: &Vec<char>, c: char) -> (r: Option<usize>)
    ensures
        r matches Some(i) ==> find_char(v@, c) == Some(i as int),
        r matches Some(i) ==> first_index_of(v@, c, i as int),
        r is None ==> find_char(v@, c) is None,
{
    let mut i: usize = 0;
    while i < v.len()
        invariant
            i <= v.len(),
            forall|j: int| 0 <= j < i ==> v@[j] != c,
        decreases v.len() - i,
    {
        if v[i] == c {
            proof {
                lemma_find_char_first(v@, c, i as int);
            }
            return Some(i);
        }
        i = i + 1;
    }
    None
}

/// `str::split_once` with a `char` separator: the parts before and after
/// the first occurrence of `c`.
pub open spec fn split_once(s: Seq<char>, c: char) -> Option<(Seq<char>, Seq<char>)> {
    match find_char(s, c) {
        Some(i) => Some((s.take(i), s.skip(i + 1))),
        None => None,
    }
}

pub fn split_once_exec(v: &Vec<char>, c: char) -> (r: Option<(Vec<char>, Vec<char>)>)
    ensures
        r matches Some(p) ==> split_once(v@, c) == Some((p.0@, p.1@)),
        r is None ==> split_once(v@, c) is None,
{
    match find_char_exec(v, c) {
        Some(i) => {
            proof {
                assert(first_index_of(v@, c, i as int));
                assert(i < v.len());
            }
            let a = sub_chars(v, 0, i);
            let b = sub_chars(v, i + 1, v.len());
            proof {
                assert(a@ == v@.take(i as int));
                assert(b@ == v@.skip(i + 1));
            }
            Some((a, b))
        },
        None => None,
    }
}

/// The part of `s` before the first `c` (or all of `s`): the first item of
/// `str::split(c)`.
pub open spec fn before_char(s: Seq<char>, c: char) -> Seq<char> {
    match find_char(s, c) {
        Some(i) => s.take(i),
        None => s,
    }
}

pub fn before_char_exec(v: &Vec<char>, c: char) -> (r: Vec<char>)
    ensures
        r@ == before_char(v@, c),
{
    match find_char_exec(v, c) {
        Some(i) => sub_chars(v, 0, i),
        None => {
            proof {
                assert(v@.subrange(0, v.len() as int) == v@);
            }
            sub_chars(v, 0, v.len())
        },
    }
}

/// The last position of `c` in `s`, if any.
pub open spec fn last_index_of(s: Seq<char>, c: char, i: int) -> bool {
    &&& 0 <= i < s.len()
    &&& s[i] == c
    &&& forall|j: int| i < j < s.len() ==> s[j] != c
}

/// The part of `s` after the last `c` (or all of `s`): the last item of
/// `str::split(c)`.
pub open spec fn after_last_char(s: Seq<char>, c: char) -> Seq<char> {
    if exists|i: int| last_index_of(s, c, i) {
        s.skip((choose|i: int| last_index_of(s, c, i)) + 1)
    } else {
        s
    }
}

pub fn after_last_char_exec(v: &Vec<char>, c: char) -> (r: Vec<char>)
    ensures
        r@ == after_last_char(v@, c),
        forall|k: int| 0 <= k < r@.len() ==> r@[k] != c,
{
    let mut j: usize = v.len();
    while j > 0 && v[j - 1] != c
        invariant
            j <= v.len(),
            forall|k: int| j <= k < v.len() ==> v@[k] != c,
        decreases j,
    {
        j = j - 1;
    }
    if j == 0 {
        proof {
            assert(!exists|i: int| last_index_of(v@, c, i));
            assert(v@.subrange(0, v.len() as int) == v@);
        }
        sub_chars(v, 0, v.len())
    } else {
        proof {
            assert(last_index_of(v@, c, j - 1));
            let i = choose|i: int| last_index_of(v@, c, i);
            if i < j - 1 {
                assert(v@[j - 1] != c);
            }
            if i > j - 1 {
                assert(v@[i] != c);
            }
            assert(v@.skip(j as int) == v@.subrange(j as int, v.len() as int));
        }
        sub_chars(v, j, v.len())
    }
}

/// `true` when `n` occurs in `h` as a contiguous run starting at `i`.
pub open spec fn occurs_at(h: Seq<char>, n: Seq<char>, i: int) -> bool {
    0 <= i && i + n.len() <= h.len() && h.subrange(i, i + n.len()) == n
}

/// `str::contains` with a string pattern.
pub open spec fn contains_seq(h: Seq<char>, n: Seq<char>) -> bool {
    exists|i: int| occurs_at(h, n, i)
}

fn occurs_at_exec(h: &Vec<char>, n: &Vec<char>, i: usize) -> (b: bool)
    requires
        i + n.len() <= h.len(),
    ensures
        b == occurs_at(h@, n@, i as int),
{
    let mut k: usize = 0;
    while k < n.len()
        invariant
            i + n.len() <= h.len(),
            k <= n.len(),
            forall|j: int| 0 <= j < k ==> h@[i + j] == n@[j],
        decreases n.len() - k,
    {
        if h[i + k] != n[k] {
            proof {
                assert(h@.subrange(i as int, i + n.len())[k as int] != n@[k as int]);
            }
            return false;
        }
        k = k + 1;
    }
    proof {
        assert(h@.subrange(i as int, i + n.len()) =~= n@);
    }
    true
}

pub fn contains_exec(h: &Vec<char>, n: &Vec<char>) -> (b: bool)
    ensures
        b == contains_seq(h@, n@),
{
    if n.len() > h.len() {
        return false;
    }
    if n.len() == 0 {
        proof {
            assert(h@.subrange(0, 0) =~= n@);
            assert(occurs_at(h@, n@, 0));
        }
        return true;
    }
    let mut i: usize = 0;
    while i <= h.len() - n.len()
        invariant
            0 < n.len() <= h.len(),
            i <= h.len() - n.len() + 1,
            forall|j: int| 0 <= j < i ==> !occurs_at(h@, n@, j),
        decreases h.len() - n.len() + 1 - i,
    {
        if occurs_at_exec(h, n, i) {
            return true;
        }
        i = i + 1;
    }
    false
}

/// `str::replace`: every non-overlapping occurrence of `pat`, scanning from
/// the left, is replaced by `rep`.
pub open spec fn replace_all(s: Seq<char>, pat: Seq<char>, rep: Seq<char>) -> Seq<char>
    recommends
        pat.len() > 0,
    decreases s.len(),
{
    if pat.len() == 0 || s.len() < pat.len() {
        s
    } else if s.take(pat.len() as int) == pat {
        rep + replace_all(s.skip(pat.len() as int), pat, rep)
    } else {
        seq![s[0]] + replace_all(s.drop_first(), pat, rep)
    }
}

pub fn replace_all_exec(s: &Vec<char>, pat: &Vec<char>, rep: &Vec<char>) -> (r: Vec<char>)
    requires
        pat.len() > 0,
    ensures
        r@ == replace_all(s@, pat@, rep@),
{
    let mut out: Vec<char> = Vec::new();
    let mut i: usize = 0;
    proof {
        assert(s@.skip(0) == s@);
    }
    while i < s.len()
        invariant
            pat.len() > 0,
            i <= s.len(),
            out@ + replace_all(s@.skip(i as int), pat@, rep@) == replace_all(s@, pat@, rep@),
        decreases s.len() - i,
    {
        let rest = s.len() - i;
        if rest >= pat.len() && occurs_at_exec(s, pat, i) {
            proof {
                let t = s@.skip(i as int);
                assert(t.take(pat.len() as int) == s@.subrange(i as int, i + pat.len()));
                assert(t.skip(pat.len() as int) == s@.skip(i + pat.len()));
            }
            push_chars(&mut out, rep);
            i = i + pat.len();
        } else {
            proof {
                let t = s@.skip(i as int);
                if t.len() >= pat.len() {
                    assert(t.take(pat.len() as int) == s@.subrange(i as int, i + pat.len()));
                }
                assert(t.drop_first() == s@.skip(i + 1));
                assert(t[0] == s@[i as int]);
            }
            out.push(s[i]);
            i = i + 1;
        }
    }
    proof {
        assert(s@.skip(s.len() as int) == Seq::<char>::empty());
    }
    out
}

/// ASCII lower-casing of one character (`char::to_ascii_lowercase`).
pub open spec fn ascii_lower(c: char) -> char {
    if 'A' <= c && c <= 'Z' {
        ((c as u32) + 32) as char
    } else {
        c
    }
}

/// `str::to_ascii_lowercase`.
pub open spec fn to_ascii_lower(s: Seq<char>) -> Seq<char> {
    s.map_values(|c: char| ascii_lower(c))
}

pub fn ascii_lower_exec(c: char) -> (r: char)
    ensures
        r == ascii_lower(c),
{
    if 'A' <= c && c <= 'Z' {
        let u = (c as u32) + 32;
        // the letters 'a'..='z' are 0x61..=0x7a
        char_from_ascii(u)
    } else {
        c
    }
}

/// The character with the given code, for codes in the ASCII range.
pub fn char_from_ascii(u: u32) -> (c: char)
    requires
        u < 128,
    ensures
        c == u as char,
{
    let b = u as u8;
    b as char
}

pub fn to_ascii_lower_exec(v: &Vec<char>) -> (r: Vec<char>)
    ensures
        r@ == to_ascii_lower(v@),
{
    let mut r: Vec<char> = Vec::new();
    let mut i: usize = 0;
    while i < v.len()
        invariant
            i <= v.len(),
            r@ == to_ascii_lower(v@.take(i as int)),
        decreases v.len() - i,
    {
        let c = ascii_lower_exec(v[i]);
        r.push(c);
        i = i + 1;
        proof {
            assert(to_ascii_lower(v@.take(i as int)) =~= to_ascii_lower(v@.take(i - 1)).push(c));
        }
    }
    proof {
        assert(v@.take(v.len() as int) == v@);
    }
    r
}

// ---------------------------------------------------------------------------
// Decimal numbers
// ---------------------------------------------------------------------------

pub open spec fn digit_char(d: nat) -> char
    recommends
        d < 10,
{
    (('0' as u32) + d) as char
}

/// The decimal representation of `n` without leading zeros
/// (`Display` for unsigned integers).
pub open spec fn dec_digits(n: nat) -> Seq<char>
    decreases n,
{
    if n < 10 {
        seq![digit_char(n)]
    } else {
        dec_digits(n / 10).push(digit_char(n % 10))
    }
}

/// `s` left-padded with `'0'` to at least `width` characters (`{:0>w}`,
/// and `{:0w}` for unsigned numbers).
pub open spec fn pad_zero(s: Seq<char>, width: nat) -> Seq<char> {
    if s.len() >= width {
        s
    } else {
        Seq::new((width - s.len()) as nat, |i: int| '0') + s
    }
}

pub fn digit_exec(d: u64) -> (c: char)
    requires
        d < 10,
    ensures
        c == digit_char(d as nat),
{
    char_from_ascii((48 + d) as u32)
}

/// An integer in decimal, with a leading `-` when it is negative.
pub open spec fn signed_digits(i: int) -> Seq<char> {
    if i < 0 {
        seq!['-'] + dec_digits((-i) as nat)
    } else {
        dec_digits(i as nat)
    }
}

/// Appends `i` in decimal, with a leading `-` when it is negative.
pub fn push_signed(out: &mut Vec<char>, i: i32)
    ensures
        final(out)@ == old(out)@ + signed_digits(i as int),
{
    if i < 0 {
        out.push('-');
        let m: i64 = -(i as i64);
        push_decimal(out, m as u64);
        proof {
            assert(out@ =~= old(out)@ + signed_digits(i as int));
        }
    } else {
        push_decimal(out, i as u64);
    }
}

/// Appends the decimal representation of `n`.
pub fn push_decimal(out: &mut Vec<char>, n: u64)
    ensures
        final(out)@ == old(out)@ + dec_digits(n as nat),
    decreases n,
{
    if n < 10 {
        out.push(digit_exec(n));
    } else {
        push_decimal(out, n / 10);
        out.push(digit_exec(n % 10));
        proof {
            assert(old(out)@ + dec_digits(n as nat) =~= old(out)@ + dec_digits((n / 10) as nat)
                + seq![digit_char((n % 10) as nat)]);
        }
    }
}

pub proof fn lemma_digit_char_value(d: nat)
    requires
        d < 10,
    ensures
        (digit_char(d) as u32) - ('0' as u32) == d,
        '0' <= digit_char(d) <= '9',
{
}

pub proof fn lemma_dec_digits_len(n: nat)
    ensures
        dec_digits(n).len() >= 1,
        forall|k: int| 0 <= k < dec_digits(n).len() ==> '0' <= #[trigger] dec_digits(n)[k] <= '9',
    decreases n,
{
    if n >= 10 {
        lemma_dec_digits_len(n / 10);
    }
}

/// Appends `n` in decimal, left-padded with zeros to `width` digits.
pub fn push_decimal_padded(out: &mut Vec<char>, n: u64, width: usize)
    ensures
        final(out)@ == old(out)@ + pad_zero(dec_digits(n as nat), width as nat),
{
    let mut digits: Vec<char> = Vec::new();
    push_decimal(&mut digits, n);
    proof {
        assert(digits@ == dec_digits(n as nat));
    }
    let mut k: usize = digits.len();
    let ghost start = out@;
    while k < width
        invariant
            digits.len() <= k <= width || (k == digits.len() && k >= width),
            digits@ == dec_digits(n as nat),
            out@ == start + Seq::new((k - digits.len()) as nat, |i: int| '0'),
        decreases width - k,
    {
        out.push('0');
        k = k + 1;
        proof {
            assert(start + Seq::new((k - digits.len()) as nat, |i: int| '0') =~= start + Seq::new(
                (k - 1 - digits.len()) as nat,
                |i: int| '0',
            ).push('0'));
        }
    }
    push_chars(out, &digits);
    proof {
        if digits.len() >= width {
            assert(Seq::new((k - digits.len()) as nat, |i: int| '0') =~= Seq::<char>::empty());
            assert(out@ =~= start + pad_zero(dec_digits(n as nat), width as nat));
        } else {
            assert(out@ =~= start + pad_zero(dec_digits(n as nat), width as nat));
        }
    }
}

/// The value of a sequence of decimal digits.
pub open spec fn digits_value(s: Seq<char>) -> nat
    decreases s.len(),
{
    if s.len() == 0 {
        0
    } else {
        digits_value(s.drop_last()) * 10 + ((s.last() as u32) - ('0' as u32)) as nat
    }
}

pub open spec fn all_digits(s: Seq<char>) -> bool {
    forall|i: int| 0 <= i < s.len() ==> '0' <= #[trigger] s[i] <= '9'
}

/// `str::parse::<usize>()`: an optional `+`, then one or more ASCII digits,
/// whose value must fit in a `usize`.
pub open spec fn unsigned_digits(s: Seq<char>) -> Seq<char> {
    if s.len() > 0 && s[0] == '+' {
        s.drop_first()
    } else {
        s
    }
}

pub open spec fn parse_usize(s: Seq<char>) -> Option<usize> {
    let d = unsigned_digits(s);
    if d.len() > 0 && all_digits(d) && digits_value(d) <= usize::MAX {
        Some(digits_value(d) as usize)
    } else {
        None
    }
}

proof fn lemma_digits_value_monotone(s: Seq<char>, i: int)
    requires
        0 <= i <= s.len(),
        all_digits(s),
    ensures
        digits_value(s.take(i)) <= digits_value(s),
    decreases s.len() - i,
{
    if i < s.len() {
        lemma_digits_value_monotone(s, i + 1);
        assert(s.take(i + 1).drop_last() == s.take(i));
        assert('0' <= s.take(i + 1).last() <= '9');
    } else {
        assert(s.take(i) == s);
    }
}

proof fn lemma_overflow_rejected(v: Seq<char>, d: Seq<char>, start: int, i: int, acc: nat, dv: nat)
    requires
        0 <= start <= i < v.len(),
        start <= 1,
        start == 1 ==> v.len() > 0 && v[0] == '+',
        start == 0 ==> !(v.len() > 0 && v[0] == '+'),
        d == v.skip(start),
        all_digits(v.subrange(start, i)),
        '0' <= v[i] <= '9',
        acc == digits_value(v.subrange(start, i)),
        dv == ((v[i] as u32) - ('0' as u32)) as nat,
        acc * 10 + dv > usize::MAX,
    ensures
        parse_usize(v) is None,
{
    let t = v.subrange(start, i + 1);
    assert(unsigned_digits(v) == d);
    assert(t.drop_last() == v.subrange(start, i));
    assert(all_digits(t));
    assert(digits_value(t) == acc * 10 + dv);
    if all_digits(d) {
        assert(t == d.take(i + 1 - start));
        lemma_digits_value_monotone(d, i + 1 - start);
    }
}

pub fn parse_usize_exec(v: &Vec<char>) -> (r: Option<usize>)
    ensures
        r == parse_usize(v@),
{
    let start: usize = if v.len() > 0 && v[0] == '+' {
        1
    } else {
        0
    };
    let ghost d = if v@.len() > 0 && v@[0] == '+' {
        v@.drop_first()
    } else {
        v@
    };
    proof {
        assert(d == v@.skip(start as int));
        assert(unsigned_digits(v@) == d);
    }
    if start == v.len() {
        return None;
    }
    let mut acc: usize = 0;
    let mut i: usize = start;
    while i < v.len()
        invariant
            start <= i <= v.len(),
            start <= 1,
            start == 1 ==> v@.len() > 0 && v@[0] == '+',
            start == 0 ==> !(v@.len() > 0 && v@[0] == '+'),
            unsigned_digits(v@) == d,
            d == v@.skip(start as int),
            all_digits(v@.subrange(start as int, i as int)),
            acc as nat == digits_value(v@.subrange(start as int, i as int)),
        decreases v.len() - i,
    {
        let c = v[i];
        proof {
            assert(v@.subrange(start as int, i + 1).drop_last() == v@.subrange(
                start as int,
                i as int,
            ));
        }
        if !('0' <= c && c <= '9') {
            proof {
                assert(d[i - start] == c);
                assert(!('0' <= d[i - start] <= '9'));
                assert(!all_digits(d));
                assert(parse_usize(v@) is None);
            }
            return None;
        }
        let dv = (c as u32 - '0' as u32) as usize;
        proof {
            let t = v@.subrange(start as int, i + 1);
            assert(t.last() == c);
            assert(digits_value(t) == acc * 10 + dv);
        }
        match acc.checked_mul(10) {
            Some(m) => match m.checked_add(dv) {
                Some(a) => {
                    acc = a;
                },
                None => {
                    proof {
                        lemma_overflow_rejected(v@, d, start as int, i as int, acc as nat, dv as nat);
                    }
                    return None;
                },
            },
            None => {
                proof {
                    lemma_overflow_rejected(v@, d, start as int, i as int, acc as nat, dv as nat);
                }
                return None;
            },
        }
        i = i + 1;
        proof {
            assert(all_digits(v@.subrange(start as int, i as int)));
        }
    }
    proof {
        assert(v@.subrange(start as int, v.len() as int) == d);
    }
    Some(acc)
}

// ---------------------------------------------------------------------------
// Lines
// ---------------------------------------------------------------------------

/// A line without the `\r` of a `\r\n` ending.
pub open spec fn strip_cr(l: Seq<char>) -> Seq<char> {
    if l.len() > 0 && l.last() == '\r' {
        l.drop_last()
    } else {
        l
    }
}

/// `str::lines`: the pieces between `\n` characters, each without the `\r`
/// of a `\r\n` ending; a final line ending adds no empty line.
pub open spec fn lines(s: Seq<char>) -> Seq<Seq<char>>
    decreases s.len(),
{
    if s.len() == 0 {
        seq![]
    } else {
        match find_char(s, '\n') {
            Some(i) => if 0 <= i < s.len() {
                seq![strip_cr(s.take(i))] + lines(s.skip(i + 1))
            } else {
                seq![s]
            },
            None => seq![s],
        }
    }
}

fn strip_cr_exec(l: Vec<char>) -> (r: Vec<char>)
    ensures
        r@ == strip_cr(l@),
{
    if l.len() > 0 && l[l.len() - 1] == '\r' {
        sub_chars(&l, 0, l.len() - 1)
    } else {
        l
    }
}

/// `str::lines` on a character vector.
pub fn lines_exec(v: &Vec<char>) -> (r: Vec<Vec<char>>)
    ensures
        r@.map_values(|l: Vec<char>| l@) == lines(v@),
{
    let mut out: Vec<Vec<char>> = Vec::new();
    let mut rest = sub_chars(v, 0, v.len());
    proof {
        assert(rest@ == v@);
        assert(out@.map_values(|l: Vec<char>| l@) =~= Seq::<Seq<char>>::empty());
    }
    while rest.len() > 0
        invariant
            out@.map_values(|l: Vec<char>| l@) + lines(rest@) == lines(v@),
        decreases rest.len(),
    {
        let ghost before = out@.map_values(|l: Vec<char>| l@);
        match find_char_exec(&rest, '\n') {
            Some(i) => {
                proof {
                    assert(i < rest.len());
                }
                let line = strip_cr_exec(sub_chars(&rest, 0, i));
                let next = sub_chars(&rest, i + 1, rest.len());
                proof {
                    assert(next@ == rest@.skip(i + 1));
                    assert(lines(rest@) == seq![line@] + lines(next@));
                }
                out.push(line);
                proof {
                    assert(out@.map_values(|l: Vec<char>| l@) =~= before + seq![line@]);
                }
                rest = next;
            },
            None => {
                let line = sub_chars(&rest, 0, rest.len());
                proof {
                    assert(line@ == rest@);
                    assert(lines(rest@) == seq![rest@]);
                }
                out.push(line);
                proof {
                    assert(out@.map_values(|l: Vec<char>| l@) =~= before + seq![line@]);
                }
                rest = Vec::new();
            },
        }
    }
    proof {
        assert(lines(rest@) =~= Seq::<Seq<char>>::empty());
        assert(out@.map_values(|l: Vec<char>| l@) + lines(rest@) =~= out@.map_values(|l: Vec<char>| l@));
    }
    out
}

/// A line ended by `\n` at the front of a text splits off as one line.
pub proof fn lemma_lines_cons(a: Seq<char>, rest: Seq<char>)
    requires
        forall|k: int| 0 <= k < a.len() ==> a[k] != '\n',
    ensures
        lines(a + seq!['\n'] + rest) == seq![strip_cr(a)] + lines(rest),
{
    let s = a + seq!['\n'] + rest;
    assert(first_index_of(s, '\n', a.len() as int));
    lemma_find_char_first(s, '\n', a.len() as int);
    assert(s.take(a.len() as int) == a);
    assert(s.skip(a.len() as int + 1) == rest);
}
/// A line appended after complete lines adds one line to `lines`.
pub proof fn lemma_lines_snoc(x: Seq<char>, a: Seq<char>)
    requires
        x.len() == 0 || x.last() == '\n',
        forall|k: int| 0 <= k < a.len() ==> a[k] != '\n',
    ensures
        lines(x + a + seq!['\n']) == lines(x).push(strip_cr(a)),
    decreases x.len(),
{
    if x.len() == 0 {
        assert(x + a + seq!['\n'] =~= a + seq!['\n'] + Seq::<char>::empty());
        lemma_lines_cons(a, Seq::<char>::empty());
        assert(lines(Seq::<char>::empty()) == Seq::<Seq<char>>::empty());
        assert(lines(x) == Seq::<Seq<char>>::empty());
        assert(seq![strip_cr(a)] + Seq::<Seq<char>>::empty() =~= lines(x).push(strip_cr(a)));
    } else {
        assert(x[x.len() - 1] == '\n');
        lemma_find_char_some(x, '\n');
        let i = find_char(x, '\n')->0;
        let b = x.take(i);
        let rest = x.skip(i + 1);
        assert(forall|k: int| 0 <= k < b.len() ==> b[k] == x[k]);
        assert(x =~= b + seq!['\n'] + rest);
        lemma_lines_cons(b, rest);
        assert(x + a + seq!['\n'] =~= b + seq!['\n'] + (rest + a + seq!['\n']));
        lemma_lines_cons(b, rest + a + seq!['\n']);
        if rest.len() > 0 {
            assert(rest.last() == x.last());
        }
        lemma_lines_snoc(rest, a);
        assert(seq![strip_cr(b)] + lines(rest).push(strip_cr(a)) =~= (seq![strip_cr(b)] + lines(
            rest,
        )).push(strip_cr(a)));
    }
}

/// `a` sorts before `b` character by character: at the first place where
/// they differ, `a` has the smaller character.
pub open spec fn lex_less(a: Seq<char>, b: Seq<char>) -> bool {
    exists|k: int|
        0 <= k < a.len() && k < b.len() && a.take(k) == b.take(k) && (#[trigger] a[k] as u32) < (
        b[k] as u32)
}

/// Two digit strings of one length with the same value are the same.
pub proof fn lemma_digits_injective(s: Seq<char>, t: Seq<char>)
    requires
        s.len() == t.len(),
        all_digits(s),
        all_digits(t),
        digits_value(s) == digits_value(t),
    ensures
        s == t,
    decreases s.len(),
{
    if s.len() > 0 {
        let ps = s.drop_last();
        let pt = t.drop_last();
        assert('0' <= s[s.len() - 1] <= '9');
        assert('0' <= t[t.len() - 1] <= '9');
        let ds = ((s.last() as u32) - ('0' as u32)) as nat;
        let dt = ((t.last() as u32) - ('0' as u32)) as nat;
        assert(ds <= 9 && dt <= 9);
        if digits_value(ps) < digits_value(pt) {
            assert(digits_value(ps) * 10 + 10 <= digits_value(pt) * 10) by (nonlinear_arith)
                requires
                    digits_value(ps) < digits_value(pt),
            ;
        } else if digits_value(pt) < digits_value(ps) {
            assert(digits_value(pt) * 10 + 10 <= digits_value(ps) * 10) by (nonlinear_arith)
                requires
                    digits_value(pt) < digits_value(ps),
            ;
        }
        assert(digits_value(ps) == digits_value(pt));
        lemma_digits_injective(ps, pt);
        assert(s.last() == t.last());
        assert(s =~= ps.push(s.last()));
        assert(t =~= pt.push(t.last()));
    }
}

/// For digit strings of one length, a smaller value sorts first.
pub proof fn lemma_digits_sort_by_value(s: Seq<char>, t: Seq<char>)
    requires
        s.len() == t.len(),
        all_digits(s),
        all_digits(t),
        digits_value(s) < digits_value(t),
    ensures
        lex_less(s, t),
    decreases s.len(),
{
    let n = s.len() as int;
    let ps = s.drop_last();
    let pt = t.drop_last();
    assert('0' <= s[n - 1] <= '9');
    assert('0' <= t[n - 1] <= '9');
    if digits_value(ps) < digits_value(pt) {
        lemma_digits_sort_by_value(ps, pt);
        let k = choose|k: int|
            0 <= k < ps.len() && k < pt.len() && ps.take(k) == pt.take(k) && (#[trigger] ps[k] as u32)
                < (pt[k] as u32);
        assert(s.take(k) =~= ps.take(k));
        assert(t.take(k) =~= pt.take(k));
        assert(s[k] == ps[k] && t[k] == pt[k]);
    } else {
        if digits_value(pt) < digits_value(ps) {
            assert(digits_value(pt) * 10 + 10 <= digits_value(ps) * 10) by (nonlinear_arith)
                requires
                    digits_value(pt) < digits_value(ps),
            ;
        }
        lemma_digits_injective(ps, pt);
        assert(s.take(n - 1) =~= ps);
        assert(t.take(n - 1) =~= pt);
        assert((s[n - 1] as u32) < (t[n - 1] as u32));
    }
}

/// `10` to the power `w`.
pub open spec fn pow10(w: nat) -> nat
    decreases w,
{
    if w == 0 {
        1
    } else {
        10 * pow10((w - 1) as nat)
    }
}

/// A number below `10^w` has at most `w` decimal digits.
pub proof fn lemma_dec_digits_short(n: nat, w: nat)
    requires
        w > 0,
        n < pow10(w),
    ensures
        dec_digits(n).len() <= w,
    decreases w,
{
    if n >= 10 {
        let p = pow10((w - 1) as nat);
        assert(n / 10 < p) by (nonlinear_arith)
            requires
                n < 10 * p,
        ;
        if w == 1 {
            assert(pow10(0) == 1);
        } else {
            lemma_dec_digits_short(n / 10, (w - 1) as nat);
        }
    }
}

/// The decimal digits of `n` padded with zeros to `w`, when `n < 10^w`:
/// exactly `w` digits, of value `n`.
pub proof fn lemma_padded_digits(n: nat, w: nat)
    requires
        w > 0,
        n < pow10(w),
    ensures
        pad_zero(dec_digits(n), w).len() == w,
        all_digits(pad_zero(dec_digits(n), w)),
        digits_value(pad_zero(dec_digits(n), w)) == n,
{
    lemma_dec_digits_short(n, w);
    lemma_dec_digits_value(n);
    let d = dec_digits(n);
    if d.len() < w {
        let z = Seq::new((w - d.len()) as nat, |i: int| '0');
        lemma_leading_zeros_value((w - d.len()) as nat, d);
        assert forall|i: int| 0 <= i < w implies '0' <= #[trigger] pad_zero(d, w)[i] <= '9' by {
            if i >= z.len() {
                assert(pad_zero(d, w)[i] == d[i - z.len()]);
            }
        }
    }
}

pub proof fn lemma_dec_digits_value(n: nat)
    ensures
        digits_value(dec_digits(n)) == n,
        all_digits(dec_digits(n)),
        dec_digits(n).len() >= 1,
    decreases n,
{
    lemma_dec_digits_len(n);
    lemma_digit_char_value((n % 10) as nat);
    if n >= 10 {
        lemma_dec_digits_value(n / 10);
        let d = dec_digits(n);
        assert(d.drop_last() == dec_digits(n / 10));
        assert(d.last() == digit_char((n % 10) as nat));
        assert(digits_value(d) == digits_value(dec_digits(n / 10)) * 10 + (n % 10));
        assert(n == (n / 10) * 10 + n % 10);
    } else {
        let d = seq![digit_char(n)];
        assert(d.drop_last() =~= Seq::<char>::empty());
        assert(digits_value(Seq::<char>::empty()) == 0);
        assert(digits_value(d) == digits_value(d.drop_last()) * 10 + n);
    }
}


proof fn lemma_zeros_value(k: nat)
    ensures
        digits_value(Seq::new(k, |i: int| '0')) == 0,
    decreases k,
{
    if k > 0 {
        lemma_zeros_value((k - 1) as nat);
        assert(Seq::new(k, |i: int| '0').drop_last() =~= Seq::new((k - 1) as nat, |i: int| '0'));
    }
}

/// Leading zeros do not change the value of a digit string.
pub proof fn lemma_leading_zeros_value(k: nat, s: Seq<char>)
    ensures
        digits_value(Seq::new(k, |i: int| '0') + s) == digits_value(s),
    decreases s.len(),
{
    let z = Seq::new(k, |i: int| '0');
    if s.len() == 0 {
        assert(z + s =~= z);
        lemma_zeros_value(k);
    } else {
        lemma_leading_zeros_value(k, s.drop_last());
        assert((z + s).drop_last() =~= z + s.drop_last());
        assert((z + s).last() == s.last());
    }
}

/// Zero-padded decimal numbers are equal only for equal numbers.
pub proof fn lemma_padded_decimal_injective(a: nat, b: nat, width: nat)
    requires
        pad_zero(dec_digits(a), width) == pad_zero(dec_digits(b), width),
    ensures
        a == b,
{
    lemma_dec_digits_value(a);
    lemma_dec_digits_value(b);
    let da = dec_digits(a);
    let db = dec_digits(b);
    if da.len() < width {
        lemma_leading_zeros_value((width - da.len()) as nat, da);
    }
    if db.len() < width {
        lemma_leading_zeros_value((width - db.len()) as nat, db);
    }
}

} // verus!
