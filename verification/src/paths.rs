//! File-system paths as text, with `/` as the separator: joining, the last
//! component and its stem, and the names the downloader gives its files.
use vstd::prelude::*;
use crate::text::{
    chars_of, dec_digits, lex_less, pad_zero, pow10, push_chars, push_decimal_padded,
    string_from_chars, sub_chars,
};

verus! {

broadcast use vstd::string::group_string_axioms;

/// `PathBuf::join` on Unix-like systems, where paths are modelled: `/` is
/// the only separator, and a reference starting with `/` is absolute and
/// replaces the base; otherwise it is appended, with a `/` in between
/// unless the base is empty or already ends with one. (Windows paths, with
/// `\` separators and drive prefixes, are not modelled.)
pub open spec fn join_path_spec(base: Seq<char>, rel: Seq<char>) -> Seq<char> {
    if rel.len() > 0 && rel[0] == '/' {
        rel
    } else if base.len() == 0 || base.last() == '/' {
        base + rel
    } else {
        base + seq!['/'] + rel
    }
}

pub fn join_path(base: &str, rel: &str) -> (r: String)
    ensures
        r@ == join_path_spec(base@, rel@),
{
    let b = chars_of(base);
    let rl = chars_of(rel);
    if rl.len() > 0 && rl[0] == '/' {
        return string_from_chars(rl.as_slice());
    }
    let mut out = sub_chars(&b, 0, b.len());
    proof {
        assert(out@ == b@);
    }
    if !(b.len() == 0 || b[b.len() - 1] == '/') {
        out.push('/');
    }
    push_chars(&mut out, &rl);
    string_from_chars(out.as_slice())
}

/// The last position of `c` in `s`, if any.
pub open spec fn rfind_char(s: Seq<char>, c: char) -> Option<int> {
    if exists|i: int| 0 <= i < s.len() && s[i] == c {
        Some(choose|i: int| 0 <= i < s.len() && s[i] == c && forall|j: int| i < j < s.len() ==> s[j] != c)
    } else {
        None
    }
}

proof fn lemma_rfind_char_last(s: Seq<char>, c: char, i: int)
    requires
        0 <= i < s.len(),
        s[i] == c,
        forall|j: int| i < j < s.len() ==> s[j] != c,
    ensures
        rfind_char(s, c) == Some(i),
{
    assert(exists|k: int| 0 <= k < s.len() && s[k] == c);
    let k = choose|k: int| 0 <= k < s.len() && s[k] == c && forall|j: int| k < j < s.len() ==> s[j] != c;
    assert(0 <= k < s.len() && s[k] == c && forall|j: int| k < j < s.len() ==> s[j] != c) by {
        assert(0 <= i < s.len() && s[i] == c && forall|j: int| i < j < s.len() ==> s[j] != c);
    }
    if k < i {
        assert(s[i] != c);
    }
    if i < k {
        assert(s[k] != c);
    }
}

fn rfind_char_exec(v: &Vec<char>, c: char, end: usize) -> (r: Option<usize>)
    requires
        end <= v.len(),
    ensures
        r matches Some(i) ==> i < end && rfind_char(v@.take(end as int), c) == Some(i as int),
        r is None ==> rfind_char(v@.take(end as int), c) is None,
{
    let ghost s = v@.take(end as int);
    let mut j: usize = end;
    while j > 0 && v[j - 1] != c
        invariant
            j <= end <= v.len(),
            s == v@.take(end as int),
            forall|k: int| j <= k < end ==> s[k] != c,
        decreases j,
    {
        j = j - 1;
    }
    if j == 0 {
        None
    } else {
        proof {
            lemma_rfind_char_last(s, c, j - 1);
        }
        Some(j - 1)
    }
}

pub open spec fn dot() -> Seq<char> {
    seq!['.']
}

pub open spec fn dot_dot() -> Seq<char> {
    seq!['.', '.']
}

/// The last component of a path that is neither empty nor `.`.
pub open spec fn last_component(p: Seq<char>) -> Option<Seq<char>>
    decreases p.len(),
{
    match rfind_char(p, '/') {
        None => if p.len() == 0 || p == dot() {
            None
        } else {
            Some(p)
        },
        Some(j) => {
            let piece = p.skip(j + 1);
            if piece.len() == 0 || piece == dot() {
                if 0 <= j < p.len() {
                    last_component(p.take(j))
                } else {
                    None
                }
            } else {
                Some(piece)
            }
        },
    }
}

/// `Path::file_name`: the last component, unless the path ends in `..` or
/// has no normal component.
pub open spec fn file_name_spec(p: Seq<char>) -> Option<Seq<char>> {
    match last_component(p) {
        Some(c) => if c == dot_dot() {
            None
        } else {
            Some(c)
        },
        None => None,
    }
}

/// The stem of a file name: the part before its last `.`, unless that
/// part would be empty.
pub open spec fn stem_of(name: Seq<char>) -> Seq<char> {
    match rfind_char(name, '.') {
        Some(j) => if j == 0 {
            name
        } else {
            name.take(j)
        },
        None => name,
    }
}

/// `Path::file_stem`.
pub open spec fn file_stem_spec(p: Seq<char>) -> Option<Seq<char>> {
    match file_name_spec(p) {
        Some(n) => Some(stem_of(n)),
        None => None,
    }
}

fn is_dot(v: &Vec<char>) -> (b: bool)
    ensures
        b == (v@ == dot()),
{
    let b = v.len() == 1 && v[0] == '.';
    proof {
        if b {
            assert(v@ =~= dot());
        }
    }
    b
}

fn is_dot_dot(v: &Vec<char>) -> (b: bool)
    ensures
        b == (v@ == dot_dot()),
{
    let b = v.len() == 2 && v[0] == '.' && v[1] == '.';
    proof {
        if b {
            assert(v@ =~= dot_dot());
        }
    }
    b
}

fn last_component_exec(v: &Vec<char>) -> (r: Option<Vec<char>>)
    ensures
        r matches Some(c) ==> last_component(v@) == Some(c@),
        r is None ==> last_component(v@) is None,
{
    let mut end: usize = v.len();
    proof {
        assert(v@.take(end as int) == v@);
    }
    loop
        invariant
            end <= v.len(),
            last_component(v@.take(end as int)) == last_component(v@),
        decreases end,
    {
        let ghost p = v@.take(end as int);
        match rfind_char_exec(v, '/', end) {
            None => {
                let piece = sub_chars(v, 0, end);
                proof {
                    assert(piece@ == p);
                }
                if end == 0 || is_dot(&piece) {
                    return None;
                }
                return Some(piece);
            },
            Some(j) => {
                let piece = sub_chars(v, j + 1, end);
                proof {
                    assert(piece@ == p.skip(j + 1));
                }
                if piece.len() == 0 || is_dot(&piece) {
                    proof {
                        assert(p.take(j as int) == v@.take(j as int));
                    }
                    end = j;
                } else {
                    return Some(piece);
                }
            },
        }
    }
}

fn stem_exec(name: &Vec<char>) -> (r: Vec<char>)
    ensures
        r@ == stem_of(name@),
{
    proof {
        assert(name@.take(name.len() as int) == name@);
    }
    match rfind_char_exec(name, '.', name.len()) {
        Some(j) => if j == 0 {
            sub_chars(name, 0, name.len())
        } else {
            sub_chars(name, 0, j)
        },
        None => sub_chars(name, 0, name.len()),
    }
}

/// `Path::file_stem` of a path given as characters.
pub fn file_stem(v: &Vec<char>) -> (r: Option<Vec<char>>)
    ensures
        r matches Some(s) ==> file_stem_spec(v@) == Some(s@),
        r is None ==> file_stem_spec(v@) is None,
{
    match last_component_exec(v) {
        Some(c) => if is_dot_dot(&c) {
            None
        } else {
            Some(stem_exec(&c))
        },
        None => None,
    }
}

/// Name of the temporary file of segment `index`: `seg_` and the index with
/// at least six digits, then `.ts`.
pub open spec fn segment_file_name(index: nat) -> Seq<char> {
    seq!['s', 'e', 'g', '_'] + pad_zero(dec_digits(index), 6) + seq!['.', 't', 's']
}

pub fn segment_file_name_exec(index: usize) -> (r: Vec<char>)
    ensures
        r@ == segment_file_name(index as nat),
{
    let mut r: Vec<char> = vec!['s', 'e', 'g', '_'];
    push_decimal_padded(&mut r, index as u64, 6);
    r.push('.');
    r.push('t');
    r.push('s');
    proof {
        assert(r@ =~= segment_file_name(index as nat));
    }
    r
}

pub open spec fn downloads_dir_name() -> Seq<char> {
    seq!['D', 'o', 'w', 'n', 'l', 'o', 'a', 'd', 's']
}

/// The default download directory: `Downloads` under the user's home
/// directory (`HOME`, or `USERPROFILE` on Windows), or `.` when that is
/// not set.
pub open spec fn default_download_dir_spec(home: Option<Seq<char>>) -> Seq<char> {
    match home {
        Some(h) => join_path_spec(h, downloads_dir_name()),
        None => seq!['.'],
    }
}

pub fn dirs_default_download(home: Option<&str>) -> (r: String)
    ensures
        r@ == default_download_dir_spec(match home {
            Some(h) => Some(h@),
            None => None,
        }),
{
    match home {
        Some(h) => {
            let d: Vec<char> = vec!['D', 'o', 'w', 'n', 'l', 'o', 'a', 'd', 's'];
            let ds = string_from_chars(d.as_slice());
            proof {
                assert(ds@ == downloads_dir_name());
            }
            join_path(h, ds.as_str())
        },
        None => {
            let d: Vec<char> = vec!['.'];
            string_from_chars(d.as_slice())
        },
    }
}

/// A segment file name holds no line break, no quote and no `/`.
pub proof fn lemma_segment_name_plain(index: nat)
    ensures
        forall|j: int|
            0 <= j < segment_file_name(index).len() ==> #[trigger] segment_file_name(index)[j] != '\n'
                && segment_file_name(index)[j] != '\'' && segment_file_name(index)[j] != '/',
{
    let d = dec_digits(index);
    crate::text::lemma_dec_digits_len(index);
    let p = pad_zero(d, 6);
    assert forall|j: int| 0 <= j < p.len() implies '0' <= #[trigger] p[j] <= '9' by {
        if d.len() < 6 {
            let z = (6 - d.len()) as int;
            if j >= z {
                assert(p[j] == d[j - z]);
            }
        }
    }
    let name = segment_file_name(index);
    assert forall|j: int| 0 <= j < name.len() implies #[trigger] name[j] != '\n' && name[j] != '\'' && name[j] != '/' by {
        if 4 <= j < 4 + p.len() {
            assert(name[j] == p[j - 4]);
        }
    }
}

/// Below a million segments, the temporary files sort by name in segment
/// order.
pub proof fn law_segment_files_sort_in_order(a: nat, b: nat)
    requires
        a < b < 1_000_000,
    ensures
        lex_less(segment_file_name(a), segment_file_name(b)),
{
    reveal_with_fuel(pow10, 7);
    assert(pow10(6) == 1_000_000);
    crate::text::lemma_padded_digits(a, 6);
    crate::text::lemma_padded_digits(b, 6);
    let pa = pad_zero(dec_digits(a), 6);
    let pb = pad_zero(dec_digits(b), 6);
    crate::text::lemma_digits_sort_by_value(pa, pb);
    let k = choose|k: int|
        0 <= k < pa.len() && k < pb.len() && pa.take(k) == pb.take(k) && (#[trigger] pa[k] as u32) < (
        pb[k] as u32);
    let na = segment_file_name(a);
    let nb = segment_file_name(b);
    assert(na.take(k + 4) =~= seq!['s', 'e', 'g', '_'] + pa.take(k));
    assert(nb.take(k + 4) =~= seq!['s', 'e', 'g', '_'] + pb.take(k));
    assert(na[k + 4] == pa[k] && nb[k + 4] == pb[k]);
}

/// Different segments get different temporary files.
pub proof fn law_segment_files_distinct(a: nat, b: nat)
    requires
        a != b,
    ensures
        segment_file_name(a) != segment_file_name(b),
{
    if segment_file_name(a) == segment_file_name(b) {
        let pa = pad_zero(dec_digits(a), 6);
        let pb = pad_zero(dec_digits(b), 6);
        assert(segment_file_name(a).subrange(4, 4 + pa.len() as int) == pa);
        assert(segment_file_name(a).len() == pa.len() + 7);
        assert(segment_file_name(b).len() == pb.len() + 7);
        assert(segment_file_name(b).subrange(4, 4 + pb.len() as int) == pb);
        crate::text::lemma_padded_decimal_injective(a, b, 6);
    }
}

} // verus!
