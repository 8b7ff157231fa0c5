//! Trusted items: the calls this library makes into std functions that vstd
//! leaves unspecified and into outside crates. Verus believes the contracts
//! written here; every other function of the crate is proved against them.

use chacha20poly1305::aead::{Aead, Payload};
use chacha20poly1305::{ChaCha20Poly1305, Key, KeyInit, Nonce};
use hkdf::Hkdf;
use rand::Rng;
use base64::Engine;
use sha2::{Digest, Sha256};
use vstd::prelude::*;
use vstd::string::StringSliceAdditionalSpecFns;

verus! {

/// `String::push`: appends one character to the string.
#[verifier::external_body]
pub(crate) fn push_char(s: &mut String, c: char)
    ensures
        final(s)@ == old(s)@.push(c),
{
    s.push(c)
}

/// The full Unicode lowercase mapping of a string, as `str::to_lowercase`
/// computes it.
pub uninterp spec fn unicode_lowercase(s: Seq<char>) -> Seq<char>;

/// An ASCII character in lower case.
pub open spec fn ascii_lower_char(c: char) -> char {
    if 'A' <= c && c <= 'Z' {
        ((c as u32) + 32) as char
    } else {
        c
    }
}

/// `str::to_lowercase`. Its result is named; as its documentation shows, on an
/// ASCII string it lowers `A`-`Z` and keeps every other character.
#[verifier::external_body]
pub(crate) fn to_lowercase(s: &str) -> (r: String)
    ensures
        r@ == unicode_lowercase(s@),
        vstd::utf8::is_ascii_chars(s@) ==> r@ == s@.map_values(|c: char| ascii_lower_char(c)),
{
    s.to_lowercase()
}

// ---------------------------------------------------------------------------
// rand 0.8 (thread_rng). The values depend on chance: nothing but their range
// is stated.

/// `rand::thread_rng().gen::<u32>()`: any `u32`.
#[verifier::external_body]
pub(crate) fn random_u32() -> (r: u32) {
    rand::thread_rng().gen::<u32>()
}

/// `rand::thread_rng().gen::<u16>()`: any `u16`.
#[verifier::external_body]
pub(crate) fn random_u16() -> (r: u16) {
    rand::thread_rng().gen::<u16>()
}

/// `rand::thread_rng().gen::<u8>()`: any `u8`.
#[verifier::external_body]
pub(crate) fn random_u8() -> (r: u8) {
    rand::thread_rng().gen::<u8>()
}

/// `rand::thread_rng().fill(..)` on a buffer of `n` bytes: `n` random bytes.
#[verifier::external_body]
pub(crate) fn random_bytes(n: usize) -> (r: Vec<u8>)
    ensures
        r@.len() == n,
{
    let mut v = vec![0u8; n];
    rand::thread_rng().fill(&mut v[..]);
    v
}

/// `rand::thread_rng().gen_range(0..n)`: some value below `n`. The call panics
/// on an empty range, so `n` must be positive.
#[verifier::external_body]
pub(crate) fn random_below(n: usize) -> (r: usize)
    requires
        n > 0,
    ensures
        r < n,
{
    rand::thread_rng().gen_range(0..n)
}

// ---------------------------------------------------------------------------
// hkdf 0.12 with sha2 0.10 (HKDF-SHA256, RFC 5869).

/// The output keying material of HKDF-SHA256 for the given salt, input keying
/// material, info and length.
pub uninterp spec fn hkdf_sha256(salt: Seq<u8>, ikm: Seq<u8>, info: Seq<u8>, len: nat) -> Seq<u8>;

/// `Hkdf::<Sha256>::new(Some(salt), ikm)` followed by `expand(info, okm)` into a
/// buffer of `len` bytes. `expand` refuses an output longer than 255 blocks of
/// 32 bytes and otherwise fills the buffer; the bytes it writes are the
/// HKDF-SHA256 output, which is named here and not spelled out.
#[verifier::external_body]
pub(crate) fn hkdf_sha256_expand(salt: &[u8], ikm: &[u8], info: &[u8], len: usize) -> (okm: Option<Vec<u8>>)
    ensures
        okm is Some <==> len <= 255 * 32,
        okm matches Some(k) ==> k@ == hkdf_sha256(salt@, ikm@, info@, len as nat) && k@.len() == len,
{
    let hk = Hkdf::<Sha256>::new(Some(salt), ikm);
    let mut okm = vec![0u8; len];
    hk.expand(info, &mut okm).ok().map(|_| okm)
}

// ---------------------------------------------------------------------------
// chacha20poly1305 0.10 (RFC 8439 AEAD, 32-byte key, 12-byte nonce, 16-byte
// tag appended to the ciphertext).

/// The longest message the cipher accepts is one byte short of this bound:
/// `encrypt` and `decrypt` refuse a buffer of `len / 64 >= u32::MAX` blocks.
pub open spec fn aead_max_len() -> int {
    64 * 0xffff_ffffint
}

/// The ciphertext (with its tag) that ChaCha20-Poly1305 produces.
pub uninterp spec fn chacha20poly1305_seal(key: Seq<u8>, nonce: Seq<u8>, msg: Seq<u8>, aad: Seq<u8>) -> Seq<u8>;

/// What ChaCha20-Poly1305 decryption gives back: the plaintext when the tag
/// authenticates, nothing otherwise.
pub uninterp spec fn chacha20poly1305_open(key: Seq<u8>, nonce: Seq<u8>, ct: Seq<u8>, aad: Seq<u8>) -> Option<Seq<u8>>;

/// The bytes held by an optional vector.
pub open spec fn opt_bytes(o: Option<Vec<u8>>) -> Option<Seq<u8>> {
    match o {
        Some(v) => Some(v@),
        None => None,
    }
}

/// `ChaCha20Poly1305::new(key).encrypt(nonce, Payload { msg, aad })`.
/// It fails only on a message of `aead_max_len()` bytes or more; otherwise the
/// result is the message's length plus the 16-byte tag.
#[verifier::external_body]
pub(crate) fn aead_seal(key: &[u8], nonce: &[u8], msg: &[u8], aad: &[u8]) -> (r: Option<Vec<u8>>)
    requires
        key@.len() == 32,
        nonce@.len() == 12,
    ensures
        r is Some <==> msg@.len() < aead_max_len(),
        r matches Some(c) ==> c@ == chacha20poly1305_seal(key@, nonce@, msg@, aad@)
            && c@.len() == msg@.len() + 16,
{
    ChaCha20Poly1305::new(Key::from_slice(key))
        .encrypt(Nonce::from_slice(nonce), Payload { msg, aad })
        .ok()
}

/// `ChaCha20Poly1305::new(key).decrypt(nonce, Payload { msg: ct, aad })`.
/// A ciphertext shorter than the tag is refused, and a ciphertext that the
/// same key, nonce and associated data sealed from a message opens to that
/// message (the correctness of the AEAD).
#[verifier::external_body]
pub(crate) fn aead_open(key: &[u8], nonce: &[u8], ct: &[u8], aad: &[u8]) -> (r: Option<Vec<u8>>)
    requires
        key@.len() == 32,
        nonce@.len() == 12,
    ensures
        opt_bytes(r) == chacha20poly1305_open(key@, nonce@, ct@, aad@),
        ct@.len() < 16 ==> r is None,
        forall|m: Seq<u8>|
            m.len() < aead_max_len() && ct@ == #[trigger] chacha20poly1305_seal(key@, nonce@, m, aad@)
                ==> opt_bytes(r) == Some(m),
{
    ChaCha20Poly1305::new(Key::from_slice(key))
        .decrypt(Nonce::from_slice(nonce), Payload { msg: ct, aad })
        .ok()
}

// ---------------------------------------------------------------------------
// url 2 (and its form_urlencoded).

/// Bytes that `application/x-www-form-urlencoded` serialisation keeps:
/// `*`, `-`, `.`, `_`, ASCII digits and letters.
pub open spec fn form_unchanged(b: u8) -> bool {
    b == 0x2A || b == 0x2D || b == 0x2E || (0x30 <= b && b <= 0x39) || (0x41 <= b && b <= 0x5A) || b == 0x5F || (
    0x61 <= b && b <= 0x7A)
}

/// An upper-case hexadecimal digit.
pub open spec fn hex_upper_digit(d: u8) -> char {
    if d < 10 {
        ((d + 48) as u8) as char
    } else {
        ((d + 55) as u8) as char
    }
}

/// How one byte is serialised: kept, a space as `+`, any other byte as `%XX`.
pub open spec fn form_byte(b: u8) -> Seq<char> {
    if form_unchanged(b) {
        seq![b as char]
    } else if b == 0x20 {
        seq!['+']
    } else {
        seq!['%', hex_upper_digit(b / 16), hex_upper_digit(b % 16)]
    }
}

/// The `application/x-www-form-urlencoded` serialisation of bytes.
pub open spec fn form_urlencoded(bytes: Seq<u8>) -> Seq<char>
    decreases bytes.len(),
{
    if bytes.len() == 0 {
        Seq::empty()
    } else {
        form_urlencoded(bytes.drop_last()) + form_byte(bytes.last())
    }
}

/// `url::form_urlencoded::byte_serialize(s.as_bytes())`, collected. Its source
/// keeps the bytes of `form_unchanged`, writes a space as `+` and every other
/// byte as `%` and two upper-case hex digits.
#[verifier::external_body]
pub(crate) fn form_urlencode(s: &str) -> (r: String)
    ensures
        r@ == form_urlencoded(s.spec_bytes()),
{
    url::form_urlencoded::byte_serialize(s.as_bytes()).collect()
}

/// The name/value pairs of the query of `uri`, as `url::Url::parse` and
/// `Url::query_pairs` give them, or nothing when `uri` does not parse.
pub uninterp spec fn url_query(uri: Seq<char>) -> Option<Seq<(Seq<char>, Seq<char>)>>;

/// The pairs of a decoded query.
pub open spec fn pairs_view(v: Vec<(String, String)>) -> Seq<(Seq<char>, Seq<char>)> {
    v@.map_values(|p: (String, String)| (p.0@, p.1@))
}

/// `url::Url::parse(uri)` and, when it succeeds, `query_pairs()` with each
/// pair copied out. The parse and the percent-decoding are named, not spelled
/// out.
#[verifier::external_body]
pub(crate) fn url_query_pairs(uri: &str) -> (r: Option<Vec<(String, String)>>)
    ensures
        match url_query(uri@) {
            Some(q) => r matches Some(v) && pairs_view(v) == q,
            None => r is None,
        },
{
    url::Url::parse(uri).ok().map(|u| u.query_pairs().map(|(k, v)| (k.into_owned(), v.into_owned())).collect())
}


// ---------------------------------------------------------------------------
// regex 1.

/// The text of capture group 1 in the leftmost-first match of `pattern` in
/// `text`, as `regex::Regex` finds it; nothing when the pattern does not
/// compile, nothing matches, or the group took no part in the match.
pub uninterp spec fn regex_capture1(pattern: Seq<char>, text: Seq<char>) -> Option<Seq<char>>;

/// `Regex::new(pattern)`, then `captures(text)` and group 1 of it, copied.
/// The matching is named, not spelled out.
#[verifier::external_body]
pub(crate) fn regex_first_capture(pattern: &str, text: &str) -> (r: Option<String>)
    ensures
        match regex_capture1(pattern@, text@) {
            Some(c) => r matches Some(s) && s@ == c,
            None => r is None,
        },
{
    regex::Regex::new(pattern).ok()?.captures(text)?.get(1).map(|m| m.as_str().to_string())
}

// ---------------------------------------------------------------------------
// sha2 0.10 and hex 0.4.

/// The SHA-256 digest of a byte string.
pub uninterp spec fn sha256(data: Seq<u8>) -> Seq<u8>;

/// `Sha256::digest(data)`: the 32-byte digest, named.
#[verifier::external_body]
pub(crate) fn sha256_digest(data: &[u8]) -> (r: Vec<u8>)
    ensures
        r@ == sha256(data@),
        r@.len() == 32,
{
    Sha256::digest(data).to_vec()
}

/// A lower-case hexadecimal digit.
pub open spec fn hex_lower_digit(d: u8) -> char {
    if d < 10 {
        ((d + 48) as u8) as char
    } else {
        ((d + 87) as u8) as char
    }
}

/// Bytes in lower-case hexadecimal, two digits per byte, high digit first.
pub open spec fn hex_lower(data: Seq<u8>) -> Seq<char>
    decreases data.len(),
{
    if data.len() == 0 {
        Seq::empty()
    } else {
        hex_lower(data.drop_last()) + seq![hex_lower_digit(data.last() / 16), hex_lower_digit(data.last() % 16)]
    }
}

/// `hex::encode(data)`: as its documentation and source show, each byte as
/// two lower-case hex digits, high nibble first.
#[verifier::external_body]
pub(crate) fn hex_encode(data: &[u8]) -> (r: String)
    ensures
        r@ == hex_lower(data@),
{
    hex::encode(data)
}

// ---------------------------------------------------------------------------
// base64 0.22 (the STANDARD engine: standard alphabet, `=` padding).

/// The character of a 6-bit value in the standard base64 alphabet.
pub open spec fn b64_char(v: int) -> char {
    if v < 26 {
        (65 + v) as char
    } else if v < 52 {
        (97 + v - 26) as char
    } else if v < 62 {
        (48 + v - 52) as char
    } else if v == 62 {
        '+'
    } else {
        '/'
    }
}

/// Standard base64 with padding: every three bytes become four characters;
/// a last group of one or two bytes is padded with `=` to four.
pub open spec fn base64_standard(b: Seq<u8>) -> Seq<char>
    decreases b.len(),
{
    if b.len() == 0 {
        Seq::empty()
    } else if b.len() == 1 {
        seq![b64_char((b[0] / 4) as int), b64_char((b[0] % 4) as int * 16), '=', '=']
    } else if b.len() == 2 {
        seq![b64_char((b[0] / 4) as int), b64_char((b[0] % 4) * 16 + b[1] / 16), b64_char((b[1] % 16) as int * 4), '=']
    } else {
        seq![
            b64_char((b[0] / 4) as int),
            b64_char((b[0] % 4) * 16 + b[1] / 16),
            b64_char((b[1] % 16) * 4 + b[2] / 64),
            b64_char((b[2] % 64) as int),
        ] + base64_standard(b.skip(3))
    }
}

/// `STANDARD.encode(data)`: standard base64 with padding.
#[verifier::external_body]
pub(crate) fn base64_encode(data: &[u8]) -> (r: String)
    ensures
        r@ == base64_standard(data@),
{
    base64::engine::general_purpose::STANDARD.encode(data)
}

/// What `STANDARD.decode` gives back for a text: the bytes, or nothing when
/// the text is not canonical padded standard base64.
pub uninterp spec fn base64_standard_decode(text: Seq<char>) -> Option<Seq<u8>>;

/// `STANDARD.decode(text)`, its error dropped. The decoding is named.
#[verifier::external_body]
pub(crate) fn base64_decode(text: &str) -> (r: Option<Vec<u8>>)
    ensures
        opt_bytes(r) == base64_standard_decode(text@),
{
    base64::engine::general_purpose::STANDARD.decode(text).ok()
}

// ---------------------------------------------------------------------------
// image 0.25.

/// What `image::load_from_memory(data)` and `to_rgb8()` give: the width,
/// the height and the row-major RGB bytes, or nothing when the data does not
/// decode.
pub uninterp spec fn decoded_rgb8(data: Seq<u8>) -> Option<(u32, u32, Seq<u8>)>;

/// `image::load_from_memory(data)`, converted with `to_rgb8()` and taken
/// apart into its width, height and raw buffer. The decoding is named; an
/// `ImageBuffer` holds at least three bytes for each pixel.
#[verifier::external_body]
pub(crate) fn decode_rgb8(data: &[u8]) -> (r: Option<(u32, u32, Vec<u8>)>)
    ensures
        match decoded_rgb8(data@) {
            Some(d) => r matches Some(t) && t.0 == d.0 && t.1 == d.1 && t.2@ == d.2
                && t.2@.len() >= 3 * (t.0 as int) * (t.1 as int),
            None => r is None,
        },
{
    let img = image::load_from_memory(data).ok()?.to_rgb8();
    let (w, h) = img.dimensions();
    Some((w, h, img.into_raw()))
}

// ---------------------------------------------------------------------------
// uuid 1 (feature v4).

/// `uuid::Uuid::new_v4().to_string()`: a random version-4 UUID in its
/// hyphenated form, 36 characters.
#[verifier::external_body]
pub(crate) fn uuid_v4_string() -> (r: String)
    ensures
        r@.len() == 36,
{
    uuid::Uuid::new_v4().to_string()
}

} // verus!
