//! Hexadecimal text and big-endian byte encodings, with the `hex` crate
//! through two external calls whose contracts state their whole behaviour.
use vstd::prelude::*;

verus! {

/// The value of one hexadecimal digit, either case.
pub open spec fn hex_val(c: char) -> Option<u8> {
    if '0' <= c && c <= '9' {
        Some(((c as u32) - ('0' as u32)) as u8)
    } else if 'a' <= c && c <= 'f' {
        Some(((c as u32) - ('a' as u32) + 10) as u8)
    } else if 'A' <= c && c <= 'F' {
        Some(((c as u32) - ('A' as u32) + 10) as u8)
    } else {
        None
    }
}

pub open spec fn all_hex(s: Seq<char>) -> bool {
    forall|i: int| 0 <= i < s.len() ==> (#[trigger] hex_val(s[i])) is Some
}

/// Decoding of a hexadecimal text into bytes: an even number of hex digits,
/// two per byte, high digit first.
pub open spec fn hex_decode(s: Seq<char>) -> Option<Seq<u8>> {
    if s.len() % 2 == 0 && all_hex(s) {
        Some(
            Seq::new(
                s.len() / 2,
                |i: int| (hex_val(s[2 * i])->0 * 16 + hex_val(s[2 * i + 1])->0) as u8,
            ),
        )
    } else {
        None
    }
}

/// The lower-case hexadecimal digit for a value below 16.
pub open spec fn hex_digit(v: u8) -> char {
    if v < 10 {
        ((v as u32) + ('0' as u32)) as char
    } else {
        ((v as u32) - 10 + ('a' as u32)) as char
    }
}

/// Lower-case hexadecimal text of `b`, two digits per byte.
pub open spec fn hex_encode(b: Seq<u8>) -> Seq<char>
    decreases b.len(),
{
    if b.len() == 0 {
        seq![]
    } else {
        hex_encode(b.drop_last()) + seq![hex_digit(b.last() / 16), hex_digit(b.last() % 16)]
    }
}

pub proof fn lemma_hex_encode_len(b: Seq<u8>)
    ensures
        hex_encode(b).len() == 2 * b.len(),
    decreases b.len(),
{
    if b.len() > 0 {
        lemma_hex_encode_len(b.drop_last());
    }
}

/// `hex::decode`, giving `None` where the crate reports an error.
///
/// The crate works on the UTF-8 bytes of the text: it rejects an odd byte
/// count and any byte that is not an ASCII hex digit. Non-ASCII characters
/// are encoded with bytes of 0x80 and above, so on characters the result is
/// exactly `hex_decode`.
#[verifier::external_body]
pub(crate) fn decode_hex(s: &str) -> (r: Option<Vec<u8>>)
    ensures
        r matches Some(b) ==> hex_decode(s@) == Some(b@),
        r is None ==> hex_decode(s@) is None,
{
    hex::decode(s).ok()
}

/// `hex::encode`: two lower-case hex digits per byte, high digit first.
#[verifier::external_body]
pub(crate) fn encode_hex(b: &[u8]) -> (s: String)
    ensures
        s@ == hex_encode(b@),
{
    hex::encode(b)
}

/// The eight bytes of `x`, most significant first (`u64::to_be_bytes`).
pub open spec fn be_bytes(x: u64) -> Seq<u8> {
    Seq::new(8, |i: int| ((x >> (((7 - i) * 8) as u64)) & 0xff) as u8)
}

pub fn be_bytes_exec(x: u64) -> (r: Vec<u8>)
    ensures
        r@ == be_bytes(x),
{
    let mut r: Vec<u8> = Vec::new();
    let mut i: u64 = 0;
    while i < 8
        invariant
            i <= 8,
            r@.len() == i,
            forall|k: int| 0 <= k < i ==> r@[k] == ((x >> (((7 - k) * 8) as u64)) & 0xff) as u8,
        decreases 8 - i,
    {
        let shift: u64 = (7 - i) * 8;
        let b = ((x >> shift) & 0xff) as u8;
        r.push(b);
        i = i + 1;
    }
    proof {
        assert(r@ =~= be_bytes(x));
    }
    r
}

/// `n` zero bytes.
pub fn zero_bytes(n: usize) -> (r: Vec<u8>)
    ensures
        r@ == Seq::new(n as nat, |i: int| 0u8),
{
    let mut r: Vec<u8> = Vec::new();
    let mut i: usize = 0;
    while i < n
        invariant
            i <= n,
            r@ == Seq::new(i as nat, |k: int| 0u8),
        decreases n - i,
    {
        r.push(0u8);
        i = i + 1;
        proof {
            assert(r@ =~= Seq::new(i as nat, |k: int| 0u8));
        }
    }
    r
}

/// A copy of a byte vector.
pub fn copy_bytes(v: &Vec<u8>) -> (r: Vec<u8>)
    ensures
        r@ == v@,
{
    let mut r: Vec<u8> = Vec::new();
    let mut i: usize = 0;
    while i < v.len()
        invariant
            i <= v.len(),
            r@ == v@.take(i as int),
        decreases v.len() - i,
    {
        r.push(v[i]);
        i = i + 1;
        proof {
            assert(r@ =~= v@.take(i as int));
        }
    }
    proof {
        assert(v@.take(v.len() as int) == v@);
    }
    r
}

} // verus!
