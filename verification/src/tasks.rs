//! Batch tasks as the user enters them: one task per line, `URL`,
//! `URL|file name` or `URL,file name`; the output file names derived from
//! them; matching against files already downloaded; and the small settings
//! file the application keeps.
use vstd::prelude::*;
use crate::config::TempNameStrategy;
use crate::paths::{file_stem, file_stem_spec};
use crate::text::{
    after_last_char, after_last_char_exec, before_char, before_char_exec, chars_of,
    contains_exec, contains_seq, dec_digits, ends_with, ends_with_chars,
    is_ws, lemma_lines_cons, lemma_trim_end_no_ws, lemma_trim_start_no_ws,
    lines, lines_exec, parse_usize, parse_usize_exec, push_chars, push_decimal, push_str,
    lemma_dec_digits_value, replace_all, replace_all_exec, split_once, split_once_exec, string_from_chars, strip_cr,
    to_ascii_lower, to_ascii_lower_exec, trim, trim_chars, trim_start, unsigned_digits,
};
use crate::parser::chars_eq;

verus! {

broadcast use vstd::string::group_string_axioms;

// ---------------------------------------------------------------------------
// Task lines
// ---------------------------------------------------------------------------

/// A trimmed file name, or `None` when nothing is left.
pub open spec fn nonempty_trimmed(f: Seq<char>) -> Option<Seq<char>> {
    if trim(f).len() == 0 {
        None
    } else {
        Some(trim(f))
    }
}

/// A task line split into its URL and optional file name: at the first `|`
/// if there is one, otherwise at the first `,`, otherwise the whole line is
/// the URL; both parts trimmed.
pub open spec fn task_line_spec(line: Seq<char>) -> (Seq<char>, Option<Seq<char>>) {
    match split_once(line, '|') {
        Some((u, f)) => (trim(u), nonempty_trimmed(f)),
        None => match split_once(line, ',') {
            Some((u, f)) => (trim(u), nonempty_trimmed(f)),
            None => (trim(line), None),
        },
    }
}

fn nonempty_trimmed_exec(f: &Vec<char>) -> (r: Option<String>)
    ensures
        r matches Some(s) ==> nonempty_trimmed(f@) == Some(s@),
        r is None ==> nonempty_trimmed(f@) is None,
{
    let t = trim_chars(f);
    if t.len() == 0 {
        None
    } else {
        Some(string_from_chars(t.as_slice()))
    }
}

/// Splits a task line into its URL and optional output file name.
pub fn parse_task_line(line: &str) -> (r: (String, Option<String>))
    ensures
        r.0@ == task_line_spec(line@).0,
        r.1 matches Some(f) ==> task_line_spec(line@).1 == Some(f@),
        r.1 is None ==> task_line_spec(line@).1 is None,
{
    let v = chars_of(line);
    match split_once_exec(&v, '|') {
        Some((u, f)) => {
            let url = trim_chars(&u);
            return (string_from_chars(url.as_slice()), nonempty_trimmed_exec(&f));
        },
        None => {},
    }
    match split_once_exec(&v, ',') {
        Some((u, f)) => {
            let url = trim_chars(&u);
            (string_from_chars(url.as_slice()), nonempty_trimmed_exec(&f))
        },
        None => {
            let url = trim_chars(&v);
            (string_from_chars(url.as_slice()), None)
        },
    }
}

pub open spec fn mp4_ext() -> Seq<char> {
    seq!['.', 'm', 'p', '4']
}

pub open spec fn m3u8_ext() -> Seq<char> {
    seq!['.', 'm', '3', 'u', '8']
}

/// A trimmed file name that ends in `.mp4` (in any letter case), with
/// `.mp4` appended when it does not.
pub open spec fn ensure_mp4_spec(f: Seq<char>) -> Seq<char> {
    if ends_with(to_ascii_lower(trim(f)), mp4_ext()) {
        trim(f)
    } else {
        trim(f) + mp4_ext()
    }
}

pub fn ensure_mp4_filename(filename: &str) -> (r: String)
    ensures
        r@ == ensure_mp4_spec(filename@),
{
    let v = chars_of(filename);
    let t = trim_chars(&v);
    let lower = to_ascii_lower_exec(&t);
    let ext: Vec<char> = vec!['.', 'm', 'p', '4'];
    proof {
        assert(ext@ == mp4_ext());
    }
    if ends_with_chars(&lower, &ext) {
        string_from_chars(t.as_slice())
    } else {
        let mut out = t;
        push_chars(&mut out, &ext);
        string_from_chars(out.as_slice())
    }
}

/// The output file name suggested by a URL: its last path segment (query
/// and fragment removed), with `.m3u8` replaced by `.mp4` when it ends in
/// `.m3u8`; `None` for an empty URL or an empty last segment.
pub open spec fn filename_from_url_spec(url: Seq<char>) -> Option<Seq<char>> {
    let u = trim(url);
    let last = after_last_char(before_char(before_char(u, '?'), '#'), '/');
    if u.len() == 0 || last.len() == 0 {
        None
    } else if ends_with(last, m3u8_ext()) {
        Some(replace_all(last, m3u8_ext(), mp4_ext()))
    } else {
        Some(last)
    }
}

pub fn extract_filename_from_url(url: &str) -> (r: Option<String>)
    ensures
        r matches Some(s) ==> filename_from_url_spec(url@) == Some(s@),
        r is None ==> filename_from_url_spec(url@) is None,
{
    let v = chars_of(url);
    let u = trim_chars(&v);
    if u.len() == 0 {
        return None;
    }
    let a = before_char_exec(&u, '?');
    let b = before_char_exec(&a, '#');
    let last = after_last_char_exec(&b, '/');
    if last.len() == 0 {
        return None;
    }
    let m3u8: Vec<char> = vec!['.', 'm', '3', 'u', '8'];
    let mp4: Vec<char> = vec!['.', 'm', 'p', '4'];
    proof {
        assert(m3u8@ == m3u8_ext());
        assert(mp4@ == mp4_ext());
    }
    if ends_with_chars(&last, &m3u8) {
        let r = replace_all_exec(&last, &m3u8, &mp4);
        Some(string_from_chars(r.as_slice()))
    } else {
        Some(string_from_chars(last.as_slice()))
    }
}

/// The text files are matched by: the stem of a file name (or the whole
/// name when it has none), trimmed and in ASCII lower case.
pub open spec fn match_keyword_spec(filename: Seq<char>) -> Seq<char> {
    to_ascii_lower(
        trim(
            match file_stem_spec(filename) {
                Some(s) => s,
                None => filename,
            },
        ),
    )
}

pub fn filename_match_keyword(filename: &str) -> (r: String)
    ensures
        r@ == match_keyword_spec(filename@),
{
    let v = chars_of(filename);
    let base = match file_stem(&v) {
        Some(s) => s,
        None => v,
    };
    let t = trim_chars(&base);
    let l = to_ascii_lower_exec(&t);
    string_from_chars(l.as_slice())
}

/// A directory entry as listed by the file system.
pub struct DirEntryInfo {
    pub name: String,
    /// Whether the entry is a regular file (`false` also when its metadata
    /// could not be read).
    pub is_file: bool,
}

/// Whether an entry matches a keyword: a regular file whose name, in ASCII
/// lower case, contains the keyword.
pub open spec fn entry_matches(e: DirEntryInfo, keyword: Seq<char>) -> bool {
    e.is_file && contains_seq(to_ascii_lower(e.name@), keyword)
}

/// The first directory entry matching `keyword`, in listing order; none
/// for an empty keyword.
pub fn find_matching_entry(keyword: &str, entries: &Vec<DirEntryInfo>) -> (r: Option<String>)
    ensures
        keyword@.len() == 0 ==> r is None,
        r matches Some(n) ==> exists|i: int|
            0 <= i < entries@.len() && entry_matches(entries@[i], keyword@) && n@ == entries@[i].name@
                && forall|j: int| 0 <= j < i ==> !entry_matches(#[trigger] entries@[j], keyword@),
        r is None && keyword@.len() > 0 ==> forall|i: int| 0 <= i < entries@.len() ==> !entry_matches(#[trigger] entries@[i], keyword@),
{
    let k = chars_of(keyword);
    if k.len() == 0 {
        return None;
    }
    let mut i: usize = 0;
    while i < entries.len()
        invariant
            i <= entries.len(),
            k@ == keyword@,
            keyword@.len() > 0,
            forall|j: int| 0 <= j < i ==> !entry_matches(#[trigger] entries@[j], keyword@),
        decreases entries.len() - i,
    {
        let e = &entries[i];
        if e.is_file {
            let n = chars_of(e.name.as_str());
            let lower = to_ascii_lower_exec(&n);
            if contains_exec(&lower, &k) {
                proof {
                    assert(entry_matches(entries@[i as int], keyword@));
                }
                return Some(e.name.clone());
            }
        }
        i = i + 1;
    }
    None
}

// ---------------------------------------------------------------------------
// The settings file
// ---------------------------------------------------------------------------

/// Settings read from the settings file; absent ones keep their defaults.
#[derive(Debug, Clone)]
pub struct GuiConfig {
    pub save_path: Option<String>,
    pub concurrent_downloads: Option<usize>,
    pub temp_name_strategy: Option<TempNameStrategy>,
}

pub struct GuiConfigView {
    pub save_path: Option<Seq<char>>,
    pub concurrent_downloads: Option<usize>,
    pub temp_name_strategy: Option<TempNameStrategy>,
}

impl View for GuiConfig {
    type V = GuiConfigView;

    open spec fn view(&self) -> GuiConfigView {
        GuiConfigView {
            save_path: match self.save_path {
                Some(p) => Some(p@),
                None => None,
            },
            concurrent_downloads: self.concurrent_downloads,
            temp_name_strategy: self.temp_name_strategy,
        }
    }
}

pub open spec fn key_save_path() -> Seq<char> {
    "save_path"@
}

pub open spec fn key_concurrent() -> Seq<char> {
    "concurrent_downloads"@
}

pub open spec fn key_strategy() -> Seq<char> {
    "temp_name_strategy"@
}

pub open spec fn content_hash_name() -> Seq<char> {
    "ContentHash"@
}

pub open spec fn filename_name() -> Seq<char> {
    "Filename"@
}

pub open spec fn strategy_name(s: TempNameStrategy) -> Seq<char> {
    match s {
        TempNameStrategy::ContentHash => content_hash_name(),
        TempNameStrategy::Filename => filename_name(),
    }
}

/// The effect of one settings line `key=value` (key and value trimmed);
/// unknown keys and lines without `=` change nothing. A strategy other than
/// `ContentHash` reads as `Filename`; a count that does not parse clears
/// the setting.
pub open spec fn apply_setting(c: GuiConfigView, line: Seq<char>) -> GuiConfigView {
    match split_once(line, '=') {
        Some((k, v)) => if trim(k) == key_save_path() {
            GuiConfigView { save_path: Some(trim(v)), ..c }
        } else if trim(k) == key_concurrent() {
            GuiConfigView { concurrent_downloads: parse_usize(trim(v)), ..c }
        } else if trim(k) == key_strategy() {
            GuiConfigView {
                temp_name_strategy: Some(
                    if trim(v) == content_hash_name() {
                        TempNameStrategy::ContentHash
                    } else {
                        TempNameStrategy::Filename
                    },
                ),
                ..c
            }
        } else {
            c
        },
        None => c,
    }
}

/// The settings lines applied in order.
pub open spec fn apply_settings(c: GuiConfigView, ls: Seq<Seq<char>>) -> GuiConfigView
    decreases ls.len(),
{
    if ls.len() == 0 {
        c
    } else {
        apply_settings(apply_setting(c, ls[0]), ls.drop_first())
    }
}

pub open spec fn empty_settings() -> GuiConfigView {
    GuiConfigView { save_path: None, concurrent_downloads: None, temp_name_strategy: None }
}

/// The settings a settings text holds.
pub open spec fn parse_settings_spec(content: Seq<char>) -> GuiConfigView {
    apply_settings(empty_settings(), lines(content))
}

fn str_chars_eq(v: &Vec<char>, s: &str) -> (b: bool)
    ensures
        b == (v@ == s@),
{
    let w = chars_of(s);
    chars_eq(v, &w)
}

impl GuiConfig {
    /// Reads the settings from the text of the settings file.
    pub fn parse(content: &str) -> (r: GuiConfig)
        ensures
            r@ == parse_settings_spec(content@),
    {
        let v = chars_of(content);
        let ls = lines_exec(&v);
        let ghost lv = ls@.map_values(|l: Vec<char>| l@);
        let mut c = GuiConfig { save_path: None, concurrent_downloads: None, temp_name_strategy: None };
        let mut i: usize = 0;
        proof {
            assert(lv.skip(0) == lv);
        }
        while i < ls.len()
            invariant
                i <= ls.len(),
                lv == ls@.map_values(|l: Vec<char>| l@),
                apply_settings(c@, lv.skip(i as int)) == parse_settings_spec(content@),
            decreases ls.len() - i,
        {
            proof {
                assert(lv.skip(i as int)[0] == ls@[i as int]@);
                assert(lv.skip(i as int).drop_first() == lv.skip(i + 1));
            }
            c = Self::apply_line(c, &ls[i]);
            i = i + 1;
        }
        proof {
            assert(lv.skip(i as int) =~= Seq::<Seq<char>>::empty());
        }
        c
    }

    fn apply_line(c: GuiConfig, line: &Vec<char>) -> (r: GuiConfig)
        ensures
            r@ == apply_setting(c@, line@),
    {
        match split_once_exec(line, '=') {
            Some((k, v)) => {
                let key = trim_chars(&k);
                let val = trim_chars(&v);
                if str_chars_eq(&key, "save_path") {
                    GuiConfig { save_path: Some(string_from_chars(val.as_slice())), ..c }
                } else if str_chars_eq(&key, "concurrent_downloads") {
                    GuiConfig { concurrent_downloads: parse_usize_exec(&val), ..c }
                } else if str_chars_eq(&key, "temp_name_strategy") {
                    let s = if str_chars_eq(&val, "ContentHash") {
                        TempNameStrategy::ContentHash
                    } else {
                        TempNameStrategy::Filename
                    };
                    GuiConfig { temp_name_strategy: Some(s), ..c }
                } else {
                    c
                }
            },
            None => c,
        }
    }

    /// The text of the settings file for the given settings.
    pub fn render(save_path: &str, concurrent_downloads: usize, strategy: TempNameStrategy) -> (r: String)
        ensures
            r@ == render_settings_spec(save_path@, concurrent_downloads, strategy),
    {
        let mut out: Vec<char> = Vec::new();
        push_str(&mut out, "save_path=");
        push_str(&mut out, save_path);
        out.push('\n');
        push_str(&mut out, "concurrent_downloads=");
        push_decimal(&mut out, concurrent_downloads as u64);
        out.push('\n');
        push_str(&mut out, "temp_name_strategy=");
        match strategy {
            TempNameStrategy::ContentHash => push_str(&mut out, "ContentHash"),
            TempNameStrategy::Filename => push_str(&mut out, "Filename"),
        }
        out.push('\n');
        proof {
            assert(out@ =~= render_settings_spec(save_path@, concurrent_downloads, strategy));
        }
        string_from_chars(out.as_slice())
    }
}

/// The settings file text: three `key=value` lines.
pub open spec fn render_settings_spec(save_path: Seq<char>, n: usize, s: TempNameStrategy) -> Seq<char> {
    "save_path="@ + save_path + seq!['\n'] + "concurrent_downloads="@ + dec_digits(n as nat)
        + seq!['\n'] + "temp_name_strategy="@ + strategy_name(s) + seq!['\n']
}

/// Trailing whitespace removed from `s` changes nothing of `trim(s)`.
proof fn lemma_trim_drop_trailing_ws(s: Seq<char>)
    requires
        s.len() > 0,
        is_ws(s.last()),
    ensures
        trim(s.drop_last()) == trim(s),
    decreases s.len(),
{
    if is_ws(s[0]) {
        if s.len() == 1 {
            assert(s.drop_last().len() == 0);
            assert(trim_start(s.drop_first()) == s.drop_first());
            assert(s.drop_first().len() == 0);
        } else {
            lemma_trim_drop_trailing_ws(s.drop_first());
            assert(s.drop_first().drop_last() == s.drop_last().drop_first());
        }
    } else {
        lemma_trim_start_no_ws(s);
        lemma_trim_start_no_ws(s.drop_last());
    }
}

/// `strip_cr` changes nothing of a trimmed value.
proof fn lemma_trim_strip_cr(s: Seq<char>)
    ensures
        trim(strip_cr(s)) == trim(s),
{
    if s.len() > 0 && s.last() == '\r' {
        lemma_trim_drop_trailing_ws(s);
    }
}

/// A setting line `key=value` whose key holds no `=` and no surrounding
/// whitespace.
proof fn lemma_setting_split(key: Seq<char>, value: Seq<char>)
    requires
        key.len() > 0,
        forall|k: int| 0 <= k < key.len() ==> key[k] != '=',
        !is_ws(key[0]),
        !is_ws(key.last()),
    ensures
        split_once(key + seq!['='] + value, '=') == Some((key, value)),
        trim(key) == key,
{
    let l = key + seq!['='] + value;
    assert(crate::text::first_index_of(l, '=', key.len() as int));
    crate::text::lemma_find_char_first(l, '=', key.len() as int);
    assert(l.take(key.len() as int) == key);
    assert(l.skip(key.len() as int + 1) == value);
    lemma_trim_start_no_ws(key);
    lemma_trim_end_no_ws(key);
}


spec fn setting_line(key: Seq<char>, value: Seq<char>) -> Seq<char> {
    key + seq!['='] + value
}

proof fn lemma_no_newline_in_line(key: Seq<char>, value: Seq<char>)
    requires
        forall|k: int| 0 <= k < key.len() ==> key[k] != '\n',
        forall|k: int| 0 <= k < value.len() ==> value[k] != '\n',
    ensures
        forall|k: int| 0 <= k < setting_line(key, value).len() ==> setting_line(key, value)[k] != '\n',
{
    assert forall|k: int| 0 <= k < setting_line(key, value).len() implies setting_line(key, value)[k] != '\n' by {
        if k >= key.len() + 1 {
            assert(setting_line(key, value)[k] == value[k - key.len() - 1]);
        } else if k < key.len() {
            assert(setting_line(key, value)[k] == key[k]);
        }
    }
}

proof fn lemma_render_lines(save_path: Seq<char>, n: usize, s: TempNameStrategy)
    requires
        forall|k: int| 0 <= k < save_path.len() ==> save_path[k] != '\n',
    ensures
        lines(render_settings_spec(save_path, n, s)) == seq![
            strip_cr(setting_line(key_save_path(), save_path)),
            setting_line(key_concurrent(), dec_digits(n as nat)),
            setting_line(key_strategy(), strategy_name(s)),
        ],
{
    reveal_strlit("save_path=");
    reveal_strlit("save_path");
    reveal_strlit("concurrent_downloads=");
    reveal_strlit("concurrent_downloads");
    reveal_strlit("temp_name_strategy=");
    reveal_strlit("temp_name_strategy");
    reveal_strlit("ContentHash");
    reveal_strlit("Filename");
    let digits = dec_digits(n as nat);
    lemma_dec_digits_value(n as nat);
    let l1 = setting_line(key_save_path(), save_path);
    let l2 = setting_line(key_concurrent(), digits);
    let l3 = setting_line(key_strategy(), strategy_name(s));
    assert("save_path="@ =~= key_save_path() + seq!['=']);
    assert("concurrent_downloads="@ =~= key_concurrent() + seq!['=']);
    assert("temp_name_strategy="@ =~= key_strategy() + seq!['=']);
    let r3 = l3 + seq!['\n'] + Seq::<char>::empty();
    let r2 = l2 + seq!['\n'] + r3;
    assert(render_settings_spec(save_path, n, s) =~= l1 + seq!['\n'] + r2);
    lemma_no_newline_in_line(key_save_path(), save_path);
    assert forall|k: int| 0 <= k < digits.len() implies digits[k] != '\n' by {
        assert('0' <= digits[k] <= '9');
    }
    lemma_no_newline_in_line(key_concurrent(), digits);
    lemma_no_newline_in_line(key_strategy(), strategy_name(s));
    lemma_lines_cons(l1, r2);
    lemma_lines_cons(l2, r3);
    lemma_lines_cons(l3, Seq::<char>::empty());
    assert(lines(Seq::<char>::empty()) =~= Seq::<Seq<char>>::empty());
    assert(strip_cr(l2) == l2);
    assert(strip_cr(l3) == l3);
}

proof fn lemma_first_setting(c: GuiConfigView, save_path: Seq<char>)
    ensures
        apply_setting(c, strip_cr(setting_line(key_save_path(), save_path)))
            == (GuiConfigView { save_path: Some(trim(save_path)), ..c }),
{
    reveal_strlit("save_path");
    let v1 = strip_cr(save_path);
    if save_path.len() > 0 && save_path.last() == '\r' {
        assert(strip_cr(setting_line(key_save_path(), save_path)) =~= setting_line(
            key_save_path(),
            v1,
        ));
    } else {
        assert(strip_cr(setting_line(key_save_path(), save_path)) == setting_line(
            key_save_path(),
            v1,
        ));
    }
    lemma_setting_split(key_save_path(), v1);
    lemma_trim_strip_cr(save_path);
}

proof fn lemma_second_setting(c: GuiConfigView, n: usize)
    ensures
        apply_setting(c, setting_line(key_concurrent(), dec_digits(n as nat)))
            == (GuiConfigView { concurrent_downloads: Some(n), ..c }),
{
    reveal_strlit("save_path");
    reveal_strlit("concurrent_downloads");
    let digits = dec_digits(n as nat);
    lemma_dec_digits_value(n as nat);
    lemma_setting_split(key_concurrent(), digits);
    assert('0' <= digits[0] <= '9');
    assert(unsigned_digits(digits) == digits);
    lemma_trim_start_no_ws(digits);
    assert('0' <= digits.last() <= '9');
    lemma_trim_end_no_ws(digits);
    assert(parse_usize(trim(digits)) == Some(n));
    assert(key_concurrent() != key_save_path());
}

proof fn lemma_third_setting(c: GuiConfigView, s: TempNameStrategy)
    ensures
        apply_setting(c, setting_line(key_strategy(), strategy_name(s)))
            == (GuiConfigView { temp_name_strategy: Some(s), ..c }),
{
    reveal_strlit("save_path");
    reveal_strlit("concurrent_downloads");
    reveal_strlit("temp_name_strategy");
    reveal_strlit("ContentHash");
    reveal_strlit("Filename");
    let name = strategy_name(s);
    lemma_setting_split(key_strategy(), name);
    lemma_trim_start_no_ws(name);
    lemma_trim_end_no_ws(name);
    assert(key_strategy() != key_save_path());
    assert(key_strategy() != key_concurrent());
    assert(content_hash_name() != filename_name());
}

/// Writing settings and reading them back gives the same settings, the
/// save path trimmed (as every value read is), provided the path holds no
/// line break.
pub proof fn law_settings_roundtrip(save_path: Seq<char>, n: usize, s: TempNameStrategy)
    requires
        forall|k: int| 0 <= k < save_path.len() ==> save_path[k] != '\n',
    ensures
        parse_settings_spec(render_settings_spec(save_path, n, s)) == (GuiConfigView {
            save_path: Some(trim(save_path)),
            concurrent_downloads: Some(n),
            temp_name_strategy: Some(s),
        }),
{
    lemma_render_lines(save_path, n, s);
    let ls = lines(render_settings_spec(save_path, n, s));
    let c1 = apply_setting(empty_settings(), ls[0]);
    lemma_first_setting(empty_settings(), save_path);
    let c2 = apply_setting(c1, ls[1]);
    lemma_second_setting(c1, n);
    let c3 = apply_setting(c2, ls[2]);
    lemma_third_setting(c2, s);
    let t1 = ls.drop_first();
    let t2 = t1.drop_first();
    let t3 = t2.drop_first();
    assert(t1 =~= seq![ls[1], ls[2]]);
    assert(t2 =~= seq![ls[2]]);
    assert(t3 =~= Seq::<Seq<char>>::empty());
    assert(apply_settings(c3, t3) == c3);
    assert(apply_settings(c2, t2) == apply_settings(c3, t3));
    assert(apply_settings(c1, t1) == apply_settings(c2, t2));
    assert(apply_settings(empty_settings(), ls) == apply_settings(c1, t1));
}

/// A name made to end in `.mp4` is trimmed and ends in `.mp4`, in any
/// letter case.
pub proof fn law_ensure_mp4_shape(f: Seq<char>)
    ensures
        trim(ensure_mp4_spec(f)) == ensure_mp4_spec(f),
        ends_with(to_ascii_lower(ensure_mp4_spec(f)), mp4_ext()),
{
    let t = trim(f);
    crate::text::lemma_trim_idempotent(f);
    if ends_with(to_ascii_lower(t), mp4_ext()) {
        assert(ensure_mp4_spec(f) == t);
    } else {
        let g = t + mp4_ext();
        crate::text::lemma_trim_start_result(f);
        crate::text::lemma_trim_end_result(crate::text::trim_start(f));
        // `g` starts like `t` (or with '.') and ends with '4': nothing to trim
        assert(g.last() == '4');
        assert(!is_ws(g[0])) by {
            if t.len() == 0 {
                assert(g[0] == '.');
            } else {
                assert(g[0] == t[0]);
            }
        }
        lemma_trim_start_no_ws(g);
        lemma_trim_end_no_ws(g);
        assert(trim(g) == g);
        let lg = to_ascii_lower(g);
        assert(lg.skip(lg.len() - 4) =~= mp4_ext()) by {
            assert forall|k: int| 0 <= k < 4 implies lg.skip(lg.len() - 4)[k] == mp4_ext()[k] by {
                assert(lg[lg.len() - 4 + k] == crate::text::ascii_lower(g[g.len() - 4 + k]));
                assert(g[g.len() - 4 + k] == mp4_ext()[k]);
            }
        }
    }
}

/// Making a file name end in `.mp4` twice is the same as doing it once.
pub proof fn law_ensure_mp4_idempotent(f: Seq<char>)
    ensures
        ensure_mp4_spec(ensure_mp4_spec(f)) == ensure_mp4_spec(f),
{
    law_ensure_mp4_shape(f);
}

} // verus!
