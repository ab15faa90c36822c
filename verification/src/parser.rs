//! M3U8 playlists: what a fetched playlist body means for the download.
//!
//! The text is parsed by `m3u8_rs`; this module turns the parsed playlist
//! into the list of segments to fetch (absolute URLs, sequence numbers,
//! AES-128 key and IV of each segment), or, for a master playlist, into the
//! URL of the variant stream with the highest bandwidth.
use vstd::prelude::*;
use m3u8_rs::parse_playlist_res;
use m3u8_rs::Playlist::{MasterPlaylist, MediaPlaylist};
use crate::text::{concat_str, chars_of, push_chars, string_from_chars, sub_chars, starts_with, starts_with_chars, pad_zero};
use crate::hexcode::{hex_decode, decode_hex, be_bytes, be_bytes_exec, zero_bytes, copy_bytes};

verus! {

broadcast use vstd::string::group_string_axioms;

#[verifier::external_type_specification]
#[verifier::external_body]
pub struct ExReqwestError(reqwest::Error);

/// Errors while fetching or interpreting a playlist.
#[derive(Debug)]
pub enum ParseError {
    /// The HTTP request failed.
    Network(reqwest::Error),
    /// The body is not a usable playlist.
    Parse(String),
    /// A URL could not be parsed or resolved.
    InvalidUrl(String),
}

pub enum ParseErrorView {
    Network,
    Parse(Seq<char>),
    InvalidUrl(Seq<char>),
}

impl View for ParseError {
    type V = ParseErrorView;

    open spec fn view(&self) -> ParseErrorView {
        match self {
            ParseError::Network(_) => ParseErrorView::Network,
            ParseError::Parse(m) => ParseErrorView::Parse(m@),
            ParseError::InvalidUrl(m) => ParseErrorView::InvalidUrl(m@),
        }
    }
}

/// `reqwest::Error`'s `Display` text (its `to_string()`). Nothing is stated
/// of it: it names the kind of failure, the URL and the underlying cause.
#[verifier::external_body]
pub(crate) fn reqwest_error_text(e: &reqwest::Error) -> (r: String) {
    e.to_string()
}

pub open spec fn network_failed_prefix() -> Seq<char> {
    "网络请求失败: "@
}

/// `m` is the message of a playlist error `e`: the text of a network error
/// comes from `reqwest` and only its prefix is fixed.
pub open spec fn parse_message_ok(e: ParseErrorView, m: Seq<char>) -> bool {
    match e {
        ParseErrorView::Network => starts_with(m, network_failed_prefix()),
        ParseErrorView::Parse(s) => m == "M3U8 解析失败: "@ + s,
        ParseErrorView::InvalidUrl(s) => m == "无效的 URL: "@ + s,
    }
}

impl ParseError {
    /// The error's message, as shown to the user.
    pub fn message(&self) -> (r: String)
        ensures
            parse_message_ok(self@, r@),
    {
        match self {
            ParseError::Network(e) => {
                let t = reqwest_error_text(e);
                let r = concat_str("网络请求失败: ", t.as_str());
                proof {
                    assert(r@.take(network_failed_prefix().len() as int) =~= network_failed_prefix());
                }
                r
            },
            ParseError::Parse(m) => concat_str("M3U8 解析失败: ", m.as_str()),
            ParseError::InvalidUrl(m) => concat_str("无效的 URL: ", m.as_str()),
        }
    }
}

pub open spec fn opt_bytes(o: Option<Vec<u8>>) -> Option<Seq<u8>> {
    match o {
        Some(v) => Some(v@),
        None => None,
    }
}

pub open spec fn opt_chars(o: Option<String>) -> Option<Seq<char>> {
    match o {
        Some(v) => Some(v@),
        None => None,
    }
}

/// Encryption key information of a segment.
#[derive(Debug, Clone)]
pub struct KeyInfo {
    /// Absolute URL of the key.
    pub uri: String,
    /// The AES-128 key, once fetched.
    pub key: Option<Vec<u8>>,
    /// The initialisation vector.
    pub iv: Option<Vec<u8>>,
}

pub struct KeyInfoView {
    pub uri: Seq<char>,
    pub key: Option<Seq<u8>>,
    pub iv: Option<Seq<u8>>,
}

impl View for KeyInfo {
    type V = KeyInfoView;

    open spec fn view(&self) -> KeyInfoView {
        KeyInfoView { uri: self.uri@, key: opt_bytes(self.key), iv: opt_bytes(self.iv) }
    }
}

pub open spec fn opt_key_view(o: Option<KeyInfo>) -> Option<KeyInfoView> {
    match o {
        Some(k) => Some(k@),
        None => None,
    }
}

impl KeyInfo {
    /// A field-by-field copy.
    pub fn duplicate(&self) -> (r: KeyInfo)
        ensures
            r@ == self@,
    {
        KeyInfo {
            uri: self.uri.clone(),
            key: match &self.key {
                Some(k) => Some(copy_bytes(k)),
                None => None,
            },
            iv: match &self.iv {
                Some(v) => Some(copy_bytes(v)),
                None => None,
            },
        }
    }
}

/// One media segment to download.
#[derive(Debug, Clone)]
pub struct Segment {
    /// Absolute URL of the segment.
    pub url: String,
    /// Media sequence number of the segment.
    pub index: u64,
    /// Duration in seconds, as the bit pattern of the playlist's `f32`
    /// `#EXTINF` value; the library carries it and never computes with it.
    pub duration_bits: u32,
    /// Encryption of the segment, if any.
    pub key_info: Option<KeyInfo>,
}

pub struct SegmentView {
    pub url: Seq<char>,
    pub index: u64,
    pub duration_bits: u32,
    pub key_info: Option<KeyInfoView>,
}

impl View for Segment {
    type V = SegmentView;

    open spec fn view(&self) -> SegmentView {
        SegmentView {
            url: self.url@,
            index: self.index,
            duration_bits: self.duration_bits,
            key_info: opt_key_view(self.key_info),
        }
    }
}

/// A media playlist, ready for download.
#[derive(Debug, Clone)]
pub struct ParsedPlaylist {
    /// All segments, in playlist order.
    pub segments: Vec<Segment>,
    /// Whether the playlist was a master playlist.
    pub is_master: bool,
}

pub struct ParsedPlaylistView {
    pub segments: Seq<SegmentView>,
    pub is_master: bool,
}

impl View for ParsedPlaylist {
    type V = ParsedPlaylistView;

    open spec fn view(&self) -> ParsedPlaylistView {
        ParsedPlaylistView {
            segments: self.segments@.map_values(|s: Segment| s@),
            is_master: self.is_master,
        }
    }
}

// ---------------------------------------------------------------------------
// The parsed playlist, as plain values
// ---------------------------------------------------------------------------

/// An `#EXT-X-KEY` tag attached to a segment.
#[derive(Debug, Clone)]
pub struct RawKey {
    /// The `METHOD` attribute as written (`NONE`, `AES-128`, ...).
    pub method: String,
    /// The `URI` attribute.
    pub uri: Option<String>,
    /// The `IV` attribute, as written.
    pub iv: Option<String>,
}

pub struct RawKeyView {
    pub method: Seq<char>,
    pub uri: Option<Seq<char>>,
    pub iv: Option<Seq<char>>,
}

impl View for RawKey {
    type V = RawKeyView;

    open spec fn view(&self) -> RawKeyView {
        RawKeyView { method: self.method@, uri: opt_chars(self.uri), iv: opt_chars(self.iv) }
    }
}

/// A segment line of a media playlist.
#[derive(Debug, Clone)]
pub struct RawSegment {
    pub uri: String,
    /// Bit pattern of the `#EXTINF` duration.
    pub duration_bits: u32,
    /// The key tag written just before this segment, if any.
    pub key: Option<RawKey>,
}

pub struct RawSegmentView {
    pub uri: Seq<char>,
    pub duration_bits: u32,
    pub key: Option<RawKeyView>,
}

impl View for RawSegment {
    type V = RawSegmentView;

    open spec fn view(&self) -> RawSegmentView {
        RawSegmentView {
            uri: self.uri@,
            duration_bits: self.duration_bits,
            key: match self.key {
                Some(k) => Some(k@),
                None => None,
            },
        }
    }
}

/// A variant stream of a master playlist.
#[derive(Debug, Clone)]
pub struct RawVariant {
    pub uri: String,
    pub bandwidth: u64,
}

pub struct RawVariantView {
    pub uri: Seq<char>,
    pub bandwidth: u64,
}

impl View for RawVariant {
    type V = RawVariantView;

    open spec fn view(&self) -> RawVariantView {
        RawVariantView { uri: self.uri@, bandwidth: self.bandwidth }
    }
}

/// A parsed playlist.
#[derive(Debug, Clone)]
pub enum RawPlaylist {
    Master(Vec<RawVariant>),
    Media { media_sequence: u64, segments: Vec<RawSegment> },
}

pub enum RawPlaylistView {
    Master(Seq<RawVariantView>),
    Media { media_sequence: u64, segments: Seq<RawSegmentView> },
}

impl View for RawPlaylist {
    type V = RawPlaylistView;

    open spec fn view(&self) -> RawPlaylistView {
        match self {
            RawPlaylist::Master(vs) => RawPlaylistView::Master(
                vs@.map_values(|v: RawVariant| v@),
            ),
            RawPlaylist::Media { media_sequence, segments } => RawPlaylistView::Media {
                media_sequence: *media_sequence,
                segments: segments@.map_values(|s: RawSegment| s@),
            },
        }
    }
}

/// What `m3u8_rs::parse_playlist_res` makes of a playlist text: the
/// playlist, or the debug rendering of the parse error.
pub uninterp spec fn m3u8_parse(bytes: Seq<u8>) -> Result<RawPlaylistView, Seq<char>>;

/// `m3u8_rs::parse_playlist_res`, with the parsed playlist carried over
/// field by field into plain values (a key's method as the text its
/// `Display` gives) and the error rendered with `{:?}`.
#[verifier::external_body]
pub(crate) fn parse_m3u8(bytes: &[u8]) -> (r: Result<RawPlaylist, String>)
    ensures
        r matches Ok(p) ==> m3u8_parse(bytes@) is Ok && m3u8_parse(bytes@)->Ok_0 == p@,
        r matches Err(e) ==> m3u8_parse(bytes@) is Err && m3u8_parse(bytes@)->Err_0 == e@,
{
    parse_playlist_res(bytes).map(|p| match p {
        MasterPlaylist(m) => RawPlaylist::Master(m.variants.iter().map(|v| RawVariant { uri: v.uri.clone(), bandwidth: v.bandwidth }).collect()),
        MediaPlaylist(m) => RawPlaylist::Media { media_sequence: m.media_sequence, segments: m.segments.iter().map(|s| RawSegment {
            uri: s.uri.clone(),
            duration_bits: s.duration.to_bits(),
            key: s.key.as_ref().map(|k| RawKey { method: k.method.to_string(), uri: k.uri.clone(), iv: k.iv.clone() }),
        }).collect() },
    }).map_err(|e| format!("{e:?}"))
}

// ---------------------------------------------------------------------------
// URLs
// ---------------------------------------------------------------------------

/// What `url::Url::parse(base)` followed by `Url::join(reference)` gives:
/// the serialized joined URL, or the text of the parse error.
pub uninterp spec fn url_join(base: Seq<char>, reference: Seq<char>) -> Result<Seq<char>, Seq<char>>;

/// Resolves `reference` against `base` with the `url` crate
/// (`Url::parse(base)?.join(reference)`, then `to_string`).
#[verifier::external_body]
pub(crate) fn join_url(base: &str, reference: &str) -> (r: Result<String, String>)
    ensures
        r matches Ok(s) ==> url_join(base@, reference@) is Ok && url_join(base@, reference@)->Ok_0 == s@,
        r matches Err(e) ==> url_join(base@, reference@) is Err && url_join(base@, reference@)->Err_0 == e@,
{
    url::Url::parse(base).and_then(|b| b.join(reference)).map(|u| u.to_string()).map_err(|e| e.to_string())
}

pub open spec fn http_prefix() -> Seq<char> {
    seq!['h', 't', 't', 'p', ':', '/', '/']
}

pub open spec fn https_prefix() -> Seq<char> {
    seq!['h', 't', 't', 'p', 's', ':', '/', '/']
}

/// A reference that is already an absolute `http://` or `https://` URL.
pub open spec fn is_absolute_http(uri: Seq<char>) -> bool {
    starts_with(uri, http_prefix()) || starts_with(uri, https_prefix())
}

/// The absolute form of a playlist reference.
pub open spec fn resolve_url_spec(base: Seq<char>, uri: Seq<char>) -> Result<Seq<char>, ParseErrorView> {
    if is_absolute_http(uri) {
        Ok(uri)
    } else {
        match url_join(base, uri) {
            Ok(u) => Ok(u),
            Err(e) => Err(ParseErrorView::InvalidUrl(e)),
        }
    }
}

fn is_absolute_http_exec(uri: &str) -> (b: bool)
    ensures
        b == is_absolute_http(uri@),
{
    let v = chars_of(uri);
    let p1: Vec<char> = vec!['h', 't', 't', 'p', ':', '/', '/'];
    let p2: Vec<char> = vec!['h', 't', 't', 'p', 's', ':', '/', '/'];
    proof {
        assert(p1@ == http_prefix());
        assert(p2@ == https_prefix());
    }
    starts_with_chars(&v, &p1) || starts_with_chars(&v, &p2)
}

/// Turns a playlist reference into an absolute URL: absolute `http(s)://`
/// references are kept as they are, others are joined onto `base`.
pub fn resolve_url(base: &str, uri: &str) -> (r: Result<String, ParseError>)
    ensures
        r matches Ok(s) ==> resolve_url_spec(base@, uri@) == Ok::<Seq<char>, ParseErrorView>(s@),
        r matches Err(e) ==> resolve_url_spec(base@, uri@) == Err::<Seq<char>, ParseErrorView>(e@),
{
    if is_absolute_http_exec(uri) {
        return Ok(uri.to_owned());
    }
    match join_url(base, uri) {
        Ok(s) => Ok(s),
        Err(e) => Err(ParseError::InvalidUrl(e)),
    }
}

// ---------------------------------------------------------------------------
// Initialisation vectors
// ---------------------------------------------------------------------------

/// `str::trim_start_matches`: every leading copy of `p` removed.
pub open spec fn strip_all_prefix(s: Seq<char>, p: Seq<char>) -> Seq<char>
    decreases s.len(),
{
    if p.len() > 0 && starts_with(s, p) {
        strip_all_prefix(s.skip(p.len() as int), p)
    } else {
        s
    }
}

fn strip_all_prefix_exec(v: &Vec<char>, p: &Vec<char>) -> (r: Vec<char>)
    requires
        p.len() > 0,
    ensures
        r@ == strip_all_prefix(v@, p@),
{
    let mut cur = sub_chars(v, 0, v.len());
    proof {
        assert(cur@ == v@);
    }
    while starts_with_chars(&cur, p)
        invariant
            p.len() > 0,
            strip_all_prefix(cur@, p@) == strip_all_prefix(v@, p@),
        decreases cur.len(),
    {
        cur = sub_chars(&cur, p.len(), cur.len());
    }
    cur
}

/// The IV text with its `0x` / `0X` markers removed (all leading `0x`
/// first, then all leading `0X`).
pub open spec fn iv_digits(iv: Seq<char>) -> Seq<char> {
    strip_all_prefix(strip_all_prefix(iv, seq!['0', 'x']), seq!['0', 'X'])
}

/// An `IV` attribute as bytes: the hex digits left-padded with zeros to 32
/// digits and decoded; sixteen zero bytes when they do not decode.
pub open spec fn parse_iv_spec(iv: Seq<char>) -> Seq<u8> {
    match hex_decode(pad_zero(iv_digits(iv), 32)) {
        Some(b) => b,
        None => Seq::new(16, |i: int| 0u8),
    }
}

/// Parses a hexadecimal IV attribute such as `0x00000000000000000000000000000001`.
pub fn parse_iv(iv_str: &str) -> (r: Vec<u8>)
    ensures
        r@ == parse_iv_spec(iv_str@),
{
    let v = chars_of(iv_str);
    let p1: Vec<char> = vec!['0', 'x'];
    let p2: Vec<char> = vec!['0', 'X'];
    let a = strip_all_prefix_exec(&v, &p1);
    let b = strip_all_prefix_exec(&a, &p2);
    proof {
        assert(p1@ == seq!['0', 'x']);
        assert(p2@ == seq!['0', 'X']);
    }
    let mut padded: Vec<char> = Vec::new();
    let mut k: usize = b.len();
    while k < 32
        invariant
            b.len() <= k <= 32 || k == b.len(),
            padded@ == Seq::new((k - b.len()) as nat, |i: int| '0'),
        decreases 32 - k,
    {
        padded.push('0');
        k = k + 1;
        proof {
            assert(padded@ =~= Seq::new((k - b.len()) as nat, |i: int| '0'));
        }
    }
    push_chars(&mut padded, &b);
    proof {
        if b.len() >= 32 {
            assert(padded@ =~= b@);
        }
        assert(padded@ =~= pad_zero(iv_digits(iv_str@), 32));
    }
    let text = string_from_chars(padded.as_slice());
    match decode_hex(text.as_str()) {
        Some(bytes) => bytes,
        None => zero_bytes(16),
    }
}

/// The IV used when a key tag gives none: the segment's sequence number as
/// a 128-bit big-endian integer.
pub open spec fn iv_from_index_spec(index: u64) -> Seq<u8> {
    Seq::new(8, |i: int| 0u8) + be_bytes(index)
}

pub fn iv_from_index(index: u64) -> (r: Vec<u8>)
    ensures
        r@ == iv_from_index_spec(index),
        r@.len() == 16,
{
    let mut r = zero_bytes(8);
    let tail = be_bytes_exec(index);
    let ghost head = r@;
    let mut i: usize = 0;
    while i < 8
        invariant
            i <= 8,
            tail@ == be_bytes(index),
            head == Seq::new(8, |k: int| 0u8),
            r@ == head + tail@.take(i as int),
        decreases 8 - i,
    {
        r.push(tail[i]);
        i = i + 1;
        proof {
            assert(r@ =~= head + tail@.take(i as int));
        }
    }
    proof {
        assert(tail@.take(8) =~= tail@);
    }
    r
}

// ---------------------------------------------------------------------------
// Master playlists
// ---------------------------------------------------------------------------

/// `i` is the variant `Iterator::max_by_key` picks by bandwidth: one of
/// maximal bandwidth, the last of them when several tie.
pub open spec fn is_best_variant(vs: Seq<RawVariantView>, i: int) -> bool {
    &&& 0 <= i < vs.len()
    &&& forall|j: int| 0 <= j < vs.len() ==> vs[j].bandwidth <= vs[i].bandwidth
    &&& forall|j: int| i < j < vs.len() ==> vs[j].bandwidth < vs[i].bandwidth
}

/// Chooses the variant with the highest bandwidth.
pub fn select_best_variant(variants: &Vec<RawVariant>) -> (r: Option<usize>)
    ensures
        r is None <==> variants@.len() == 0,
        r matches Some(i) ==> is_best_variant(variants@.map_values(|v: RawVariant| v@), i as int),
{
    if variants.len() == 0 {
        return None;
    }
    let ghost vs = variants@.map_values(|v: RawVariant| v@);
    let mut best: usize = 0;
    let mut i: usize = 1;
    while i < variants.len()
        invariant
            vs == variants@.map_values(|v: RawVariant| v@),
            1 <= i <= variants.len(),
            best < i,
            forall|j: int| 0 <= j < i ==> vs[j].bandwidth <= vs[best as int].bandwidth,
            forall|j: int| best < j < i ==> vs[j].bandwidth < vs[best as int].bandwidth,
        decreases variants.len() - i,
    {
        if variants[i].bandwidth >= variants[best].bandwidth {
            best = i;
        }
        i = i + 1;
    }
    Some(best)
}


// ---------------------------------------------------------------------------
// Media playlists
// ---------------------------------------------------------------------------

pub open spec fn aes128_method() -> Seq<char> {
    seq!['A', 'E', 'S', '-', '1', '2', '8']
}

pub open spec fn none_method() -> Seq<char> {
    seq!['N', 'O', 'N', 'E']
}

/// The key in force after a segment's own key tag: an `AES-128` tag with a
/// URI starts a new key (its URI resolved, its IV parsed), a `NONE` tag
/// ends encryption, and other tags leave the key in force unchanged.
pub open spec fn next_key(base: Seq<char>, current: Option<KeyInfoView>, tag: Option<RawKeyView>) -> Result<Option<KeyInfoView>, ParseErrorView> {
    match tag {
        Some(k) => if k.method == aes128_method() {
            match k.uri {
                Some(u) => match resolve_url_spec(base, u) {
                    Ok(key_url) => Ok(
                        Some(
                            KeyInfoView {
                                uri: key_url,
                                key: None,
                                iv: match k.iv {
                                    Some(t) => Some(parse_iv_spec(t)),
                                    None => None,
                                },
                            },
                        ),
                    ),
                    Err(e) => Err(e),
                },
                None => Ok(current),
            }
        } else if k.method == none_method() {
            Ok(None)
        } else {
            Ok(current)
        },
        None => Ok(current),
    }
}

/// The key of one segment: the key in force, with the IV derived from the
/// sequence number when the key tag gave none.
pub open spec fn segment_key(current: Option<KeyInfoView>, index: u64) -> Option<KeyInfoView> {
    match current {
        Some(k) => Some(
            if k.iv is None {
                KeyInfoView { iv: Some(iv_from_index_spec(index)), ..k }
            } else {
                k
            },
        ),
        None => None,
    }
}

/// Sequence number of the `i`-th segment (wrapping at 2^64, as `u64`
/// addition does in a release build).
pub open spec fn segment_index(media_sequence: u64, i: int) -> u64 {
    ((media_sequence + i) % 0x1_0000_0000_0000_0000) as u64
}

/// The first `n` segments of a media playlist as downloadable segments,
/// with the key in force after them; or the first error met.
pub open spec fn build_prefix(base: Seq<char>, media_sequence: u64, raw: Seq<RawSegmentView>, n: nat) -> Result<(Seq<SegmentView>, Option<KeyInfoView>), ParseErrorView>
    decreases n,
{
    if n == 0 {
        Ok((seq![], None))
    } else {
        match build_prefix(base, media_sequence, raw, (n - 1) as nat) {
            Err(e) => Err(e),
            Ok((done, current)) => {
                let s = raw[n - 1];
                match next_key(base, current, s.key) {
                    Err(e) => Err(e),
                    Ok(key) => match resolve_url_spec(base, s.uri) {
                        Err(e) => Err(e),
                        Ok(url) => {
                            let index = segment_index(media_sequence, n - 1);
                            Ok(
                                (
                                    done.push(
                                        SegmentView {
                                            url,
                                            index,
                                            duration_bits: s.duration_bits,
                                            key_info: segment_key(key, index),
                                        },
                                    ),
                                    key,
                                ),
                            )
                        },
                    },
                }
            },
        }
    }
}

/// The downloadable segments of a whole media playlist.
pub open spec fn media_segments_spec(base: Seq<char>, media_sequence: u64, raw: Seq<RawSegmentView>) -> Result<Seq<SegmentView>, ParseErrorView> {
    match build_prefix(base, media_sequence, raw, raw.len()) {
        Ok((segs, _)) => Ok(segs),
        Err(e) => Err(e),
    }
}

pub proof fn lemma_build_prefix_len(base: Seq<char>, media_sequence: u64, raw: Seq<RawSegmentView>, n: nat)
    requires
        build_prefix(base, media_sequence, raw, n) is Ok,
    ensures
        build_prefix(base, media_sequence, raw, n)->Ok_0.0.len() == n,
    decreases n,
{
    if n > 0 {
        lemma_build_prefix_len(base, media_sequence, raw, (n - 1) as nat);
    }
}

fn next_key_exec(base: &str, current: Option<KeyInfo>, tag: &Option<RawKey>) -> (r: Result<Option<KeyInfo>, ParseError>)
    ensures
        r matches Ok(k) ==> next_key(base@, opt_key_view(current), match tag {
            Some(t) => Some(t@),
            None => None,
        }) == Ok::<Option<KeyInfoView>, ParseErrorView>(opt_key_view(k)),
        r matches Err(e) ==> next_key(base@, opt_key_view(current), match tag {
            Some(t) => Some(t@),
            None => None,
        }) == Err::<Option<KeyInfoView>, ParseErrorView>(e@),
{
    match tag {
        None => Ok(current),
        Some(k) => {
            let m = chars_of(k.method.as_str());
            let aes: Vec<char> = vec!['A', 'E', 'S', '-', '1', '2', '8'];
            let none: Vec<char> = vec!['N', 'O', 'N', 'E'];
            proof {
                assert(aes@ == aes128_method());
                assert(none@ == none_method());
            }
            if chars_eq(&m, &aes) {
                match &k.uri {
                    Some(u) => {
                        let key_url = resolve_url(base, u.as_str())?;
                        let iv = match &k.iv {
                            Some(t) => Some(parse_iv(t.as_str())),
                            None => None,
                        };
                        Ok(Some(KeyInfo { uri: key_url, key: None, iv }))
                    },
                    None => Ok(current),
                }
            } else if chars_eq(&m, &none) {
                Ok(None)
            } else {
                Ok(current)
            }
        },
    }
}

/// Equality of two character vectors.
pub fn chars_eq(a: &Vec<char>, b: &Vec<char>) -> (r: bool)
    ensures
        r == (a@ == b@),
{
    if a.len() != b.len() {
        return false;
    }
    let mut i: usize = 0;
    while i < a.len()
        invariant
            a.len() == b.len(),
            i <= a.len(),
            forall|k: int| 0 <= k < i ==> a@[k] == b@[k],
        decreases a.len() - i,
    {
        if a[i] != b[i] {
            return false;
        }
        i = i + 1;
    }
    proof {
        assert(a@ =~= b@);
    }
    true
}

fn segment_key_exec(current: &Option<KeyInfo>, index: u64) -> (r: Option<KeyInfo>)
    ensures
        opt_key_view(r) == segment_key(opt_key_view(*current), index),
{
    match current {
        Some(k) => {
            let mut ki = k.duplicate();
            if ki.iv.is_none() {
                ki.iv = Some(iv_from_index(index));
            }
            Some(ki)
        },
        None => None,
    }
}

/// Turns the segments of a media playlist into downloadable segments:
/// every URI resolved against `base`, sequence numbers counted from
/// `media_sequence`, and the key in force attached to each segment.
pub fn build_media_segments(base: &str, media_sequence: u64, raw: &Vec<RawSegment>) -> (r: Result<Vec<Segment>, ParseError>)
    ensures
        r matches Ok(segs) ==> media_segments_spec(base@, media_sequence, raw@.map_values(|s: RawSegment| s@))
            == Ok::<Seq<SegmentView>, ParseErrorView>(segs@.map_values(|s: Segment| s@)),
        r matches Err(e) ==> media_segments_spec(base@, media_sequence, raw@.map_values(|s: RawSegment| s@))
            == Err::<Seq<SegmentView>, ParseErrorView>(e@),
{
    let ghost rv = raw@.map_values(|s: RawSegment| s@);
    let mut segments: Vec<Segment> = Vec::new();
    let mut current: Option<KeyInfo> = None;
    let mut i: usize = 0;
    proof {
        assert(segments@.map_values(|s: Segment| s@) =~= Seq::<SegmentView>::empty());
    }
    while i < raw.len()
        invariant
            i <= raw.len(),
            rv == raw@.map_values(|s: RawSegment| s@),
            build_prefix(base@, media_sequence, rv, i as nat) == Ok::<(Seq<SegmentView>, Option<KeyInfoView>), ParseErrorView>(
                (segments@.map_values(|s: Segment| s@), opt_key_view(current)),
            ),
        decreases raw.len() - i,
    {
        let seg = &raw[i];
        let ghost before = segments@.map_values(|s: Segment| s@);
        let ghost cur_view = opt_key_view(current);
        proof {
            assert(rv[i as int] == seg@);
        }
        let key = match next_key_exec(base, current, &seg.key) {
            Ok(k) => k,
            Err(e) => {
                proof {
                    assert(build_prefix(base@, media_sequence, rv, (i + 1) as nat) == Err::<
                        (Seq<SegmentView>, Option<KeyInfoView>),
                        ParseErrorView,
                    >(e@));
                    lemma_build_prefix_err_stays(base@, media_sequence, rv, (i + 1) as nat, rv.len());
                }
                return Err(e);
            },
        };
        let url = match resolve_url(base, seg.uri.as_str()) {
            Ok(u) => u,
            Err(e) => {
                proof {
                    assert(build_prefix(base@, media_sequence, rv, (i + 1) as nat) == Err::<
                        (Seq<SegmentView>, Option<KeyInfoView>),
                        ParseErrorView,
                    >(e@));
                    lemma_build_prefix_err_stays(base@, media_sequence, rv, (i + 1) as nat, rv.len());
                }
                return Err(e);
            },
        };
        let index = media_sequence.wrapping_add(i as u64);
        proof {
            assert(index == segment_index(media_sequence, i as int));
        }
        let key_info = segment_key_exec(&key, index);
        segments.push(Segment { url, index, duration_bits: seg.duration_bits, key_info });
        current = key;
        i = i + 1;
        proof {
            assert(segments@.map_values(|s: Segment| s@) =~= before.push(
                SegmentView {
                    url: url@,
                    index,
                    duration_bits: seg.duration_bits,
                    key_info: segment_key(opt_key_view(current), index),
                },
            ));
        }
    }
    proof {
        assert(rv.len() == i);
    }
    Ok(segments)
}

proof fn lemma_build_prefix_err_stays(base: Seq<char>, media_sequence: u64, raw: Seq<RawSegmentView>, n: nat, m: nat)
    requires
        n <= m,
        build_prefix(base, media_sequence, raw, n) is Err,
    ensures
        build_prefix(base, media_sequence, raw, m) == build_prefix(base, media_sequence, raw, n),
    decreases m - n,
{
    if n < m {
        lemma_build_prefix_err_stays(base, media_sequence, raw, n, (m - 1) as nat);
    }
}


/// What `url::Url::parse` reports of a URL: its host and explicit
/// non-default port, or the text of the parse error.
pub uninterp spec fn url_parse(s: Seq<char>) -> Result<UrlAuthorityView, Seq<char>>;

/// The parts of a parsed URL the downloader reads.
pub struct UrlAuthority {
    /// `Url::host_str`.
    pub host: Option<String>,
    /// `Url::port`: the port, when it is not the scheme's default.
    pub port: Option<u16>,
}

pub struct UrlAuthorityView {
    pub host: Option<Seq<char>>,
    pub port: Option<u16>,
}

impl View for UrlAuthority {
    type V = UrlAuthorityView;

    open spec fn view(&self) -> UrlAuthorityView {
        UrlAuthorityView { host: opt_chars(self.host), port: self.port }
    }
}

/// `url::Url::parse`, keeping the host and the port of the result, or the
/// error's text.
#[verifier::external_body]
pub(crate) fn parse_url(s: &str) -> (r: Result<UrlAuthority, String>)
    ensures
        r matches Ok(a) ==> url_parse(s@) is Ok && url_parse(s@)->Ok_0 == a@,
        r matches Err(e) ==> url_parse(s@) is Err && url_parse(s@)->Err_0 == e@,
{
    url::Url::parse(s).map(|u| UrlAuthority { host: u.host_str().map(|h| h.to_string()), port: u.port() }).map_err(|e| e.to_string())
}

/// Checks a playlist URL before it is fetched: it must parse as a URL.
pub fn check_playlist_url(url: &str) -> (r: Result<(), ParseError>)
    ensures
        r is Ok <==> url_parse(url@) is Ok,
        r matches Err(e) ==> url_parse(url@) is Err && e@ == ParseErrorView::InvalidUrl(
            url_parse(url@)->Err_0,
        ),
{
    match parse_url(url) {
        Ok(_) => Ok(()),
        Err(e) => Err(ParseError::InvalidUrl(e)),
    }
}

/// The next step after a playlist body has been fetched.
pub enum PlaylistStep {
    /// A master playlist: fetch the media playlist at this URL next.
    FetchVariant(String),
    /// A media playlist: the segments to download.
    Media(ParsedPlaylist),
}

pub enum PlaylistStepView {
    FetchVariant(Seq<char>),
    Media(ParsedPlaylistView),
}

impl View for PlaylistStep {
    type V = PlaylistStepView;

    open spec fn view(&self) -> PlaylistStepView {
        match self {
            PlaylistStep::FetchVariant(u) => PlaylistStepView::FetchVariant(u@),
            PlaylistStep::Media(p) => PlaylistStepView::Media(p@),
        }
    }
}

/// The variant with the highest bandwidth (the last of several equal ones).
pub open spec fn best_variant(vs: Seq<RawVariantView>) -> int {
    choose|i: int| is_best_variant(vs, i)
}

pub proof fn lemma_best_variant_unique(vs: Seq<RawVariantView>, i: int)
    requires
        is_best_variant(vs, i),
    ensures
        best_variant(vs) == i,
{
    let k = best_variant(vs);
    assert(is_best_variant(vs, k));
    if k < i {
        assert(vs[i].bandwidth < vs[k].bandwidth);
    }
    if i < k {
        assert(vs[k].bandwidth < vs[i].bandwidth);
    }
}

proof fn lemma_best_variant_exists(vs: Seq<RawVariantView>)
    requires
        vs.len() > 0,
    ensures
        is_best_variant(vs, best_variant(vs)),
    decreases vs.len(),
{
    if vs.len() == 1 {
        assert(is_best_variant(vs, 0));
    } else {
        let p = vs.drop_last();
        lemma_best_variant_exists(p);
        let k = best_variant(p);
        let n = vs.len() - 1;
        assert(forall|j: int| 0 <= j < p.len() ==> p[j] == vs[j]);
        if vs[n].bandwidth >= vs[k].bandwidth {
            assert(is_best_variant(vs, n));
        } else {
            assert(is_best_variant(vs, k));
        }
    }
}

pub open spec fn no_variant_message() -> Seq<char> {
    "Master playlist 中无可用流"@
}

/// What a parsed playlist fetched from `url` leads to.
pub open spec fn interpret_spec(url: Seq<char>, parsed: Result<RawPlaylistView, Seq<char>>) -> Result<PlaylistStepView, ParseErrorView> {
    match parsed {
        Err(e) => Err(ParseErrorView::Parse(e)),
        Ok(RawPlaylistView::Master(vs)) => if vs.len() == 0 {
            Err(ParseErrorView::Parse(no_variant_message()))
        } else {
            match resolve_url_spec(url, vs[best_variant(vs)].uri) {
                Ok(u) => Ok(PlaylistStepView::FetchVariant(u)),
                Err(e) => Err(e),
            }
        },
        Ok(RawPlaylistView::Media { media_sequence, segments }) => match media_segments_spec(
            url,
            media_sequence,
            segments,
        ) {
            Ok(s) => Ok(PlaylistStepView::Media(ParsedPlaylistView { segments: s, is_master: false })),
            Err(e) => Err(e),
        },
    }
}

/// A master playlist leads to its variant of highest bandwidth (the last of
/// several equal ones), whose URI is resolved against the playlist's URL;
/// a master playlist without variants is an error.
pub proof fn law_master_follows_highest_bandwidth(url: Seq<char>, vs: Seq<RawVariantView>)
    ensures
        vs.len() == 0 ==> interpret_spec(url, Ok(RawPlaylistView::Master(vs))) == Err::<
            PlaylistStepView,
            ParseErrorView,
        >(ParseErrorView::Parse(no_variant_message())),
        vs.len() > 0 ==> exists|i: int|
            #[trigger] is_best_variant(vs, i) && interpret_spec(url, Ok(RawPlaylistView::Master(vs)))
                == match resolve_url_spec(url, vs[i].uri) {
                Ok(u) => Ok::<PlaylistStepView, ParseErrorView>(PlaylistStepView::FetchVariant(u)),
                Err(e) => Err(e),
            },
{
    if vs.len() > 0 {
        lemma_best_variant_exists(vs);
        assert(is_best_variant(vs, best_variant(vs)));
    }
}

/// Interprets a parsed playlist fetched from `url`: for a master playlist,
/// the absolute URL of its highest-bandwidth variant; for a media playlist,
/// its segments.
pub fn interpret_playlist(url: &str, parsed: Result<RawPlaylist, String>) -> (r: Result<PlaylistStep, ParseError>)
    ensures
        r matches Ok(s) ==> interpret_spec(url@, match parsed {
            Ok(p) => Ok(p@),
            Err(e) => Err(e@),
        }) == Ok::<PlaylistStepView, ParseErrorView>(s@),
        r matches Err(e) ==> interpret_spec(url@, match parsed {
            Ok(p) => Ok(p@),
            Err(e) => Err(e@),
        }) == Err::<PlaylistStepView, ParseErrorView>(e@),
{
    match parsed {
        Err(e) => Err(ParseError::Parse(e)),
        Ok(RawPlaylist::Master(variants)) => {
            match select_best_variant(&variants) {
                None => {
                    proof {
                        reveal_strlit("Master playlist 中无可用流");
                    }
                    Err(ParseError::Parse("Master playlist 中无可用流".to_owned()))
                },
                Some(i) => {
                    proof {
                        lemma_best_variant_unique(variants@.map_values(|v: RawVariant| v@), i as int);
                    }
                    match resolve_url(url, variants[i].uri.as_str()) {
                        Ok(u) => Ok(PlaylistStep::FetchVariant(u)),
                        Err(e) => Err(e),
                    }
                },
            }
        },
        Ok(RawPlaylist::Media { media_sequence, segments }) => {
            match build_media_segments(url, media_sequence, &segments) {
                Ok(segs) => Ok(PlaylistStep::Media(ParsedPlaylist { segments: segs, is_master: false })),
                Err(e) => Err(e),
            }
        },
    }
}

/// What a playlist body fetched from `url` leads to.
pub open spec fn playlist_step_spec(url: Seq<char>, body: Seq<char>) -> Result<PlaylistStepView, ParseErrorView> {
    interpret_spec(url, m3u8_parse(vstd::utf8::encode_utf8(body)))
}

/// The decision `fetch_and_parse` takes once a playlist body has arrived:
/// parse it with `m3u8_rs`, then either follow the best variant of a master
/// playlist or list the segments of a media playlist.
pub fn playlist_step(url: &str, body: &str) -> (r: Result<PlaylistStep, ParseError>)
    ensures
        r matches Ok(s) ==> playlist_step_spec(url@, body@) == Ok::<PlaylistStepView, ParseErrorView>(s@),
        r matches Err(e) ==> playlist_step_spec(url@, body@) == Err::<PlaylistStepView, ParseErrorView>(e@),
{
    let parsed = parse_m3u8(body.as_bytes());
    interpret_playlist(url, parsed)
}


proof fn lemma_build_prefix_shape(base: Seq<char>, media_sequence: u64, raw: Seq<RawSegmentView>, n: nat)
    requires
        n <= raw.len(),
        build_prefix(base, media_sequence, raw, n) is Ok,
    ensures
        ({
            let segs = build_prefix(base, media_sequence, raw, n)->Ok_0.0;
            &&& segs.len() == n
            &&& forall|i: int| 0 <= i < n ==> (#[trigger] segs[i]).index == segment_index(media_sequence, i)
            &&& forall|i: int| 0 <= i < n ==> (#[trigger] segs[i]).duration_bits == raw[i].duration_bits
            &&& forall|i: int| 0 <= i < n ==> ((#[trigger] segs[i]).key_info matches Some(k) ==> k.iv is Some)
        }),
    decreases n,
{
    if n > 0 {
        lemma_build_prefix_shape(base, media_sequence, raw, (n - 1) as nat);
    }
}

/// A media playlist becomes exactly one downloadable segment per segment
/// line, numbered consecutively from the playlist's media sequence number,
/// each keeping its duration; every encrypted segment has an IV (the one
/// written in the playlist, or its sequence number).
pub proof fn law_segments_numbered(base: Seq<char>, media_sequence: u64, raw: Seq<RawSegmentView>)
    requires
        media_segments_spec(base, media_sequence, raw) is Ok,
    ensures
        ({
            let segs = media_segments_spec(base, media_sequence, raw)->Ok_0;
            &&& segs.len() == raw.len()
            &&& forall|i: int| 0 <= i < raw.len() ==> (#[trigger] segs[i]).index == segment_index(media_sequence, i)
            &&& forall|i: int| 0 <= i < raw.len() ==> (#[trigger] segs[i]).duration_bits == raw[i].duration_bits
            &&& forall|i: int| 0 <= i < raw.len() ==> ((#[trigger] segs[i]).key_info matches Some(k) ==> k.iv is Some)
        }),
{
    lemma_build_prefix_shape(base, media_sequence, raw, raw.len());
}

/// A segment that follows an `AES-128` key tag without an IV, with no other
/// key tag in between, is decrypted with its sequence number as the IV: a
/// 128-bit big-endian integer, eight zero bytes and then the eight bytes of
/// the number, most significant first.
pub proof fn law_default_iv(k: KeyInfoView, index: u64)
    requires
        k.iv is None,
    ensures
        segment_key(Some(k), index) == Some(KeyInfoView { iv: Some(iv_from_index_spec(index)), ..k }),
        iv_from_index_spec(index).len() == 16,
        forall|j: int| 0 <= j < 8 ==> #[trigger] iv_from_index_spec(index)[j] == 0,
        forall|j: int|
            0 <= j < 8 ==> #[trigger] iv_from_index_spec(index)[8 + j] == ((index >> ((8 * (7 - j)) as u64))
                & 0xff) as u8,
{
    let iv = iv_from_index_spec(index);
    assert forall|j: int| 0 <= j < 8 implies #[trigger] iv[8 + j] == ((index >> ((8 * (7 - j)) as u64)) & 0xff) as u8 by {
        assert(iv[8 + j] == be_bytes(index)[j]);
        assert(((7 - j) * 8) as u64 == (8 * (7 - j)) as u64);
    }
}

/// Absolute `http://` and `https://` references are used as they are,
/// whatever the playlist's own URL.
pub proof fn law_absolute_urls_kept(base: Seq<char>, uri: Seq<char>)
    requires
        is_absolute_http(uri),
    ensures
        resolve_url_spec(base, uri) == Ok::<Seq<char>, ParseErrorView>(uri),
{
}

} // verus!
