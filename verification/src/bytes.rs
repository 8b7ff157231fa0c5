//! Byte-sequence helpers: big-endian encodings and appending.

use vstd::prelude::*;

verus! {

/// Big-endian encoding of a `u16`.
pub open spec fn be16(x: u16) -> Seq<u8> {
    seq![(x / 256) as u8, (x % 256) as u8]
}

/// Big-endian encoding of a `u32`.
pub open spec fn be32(x: u32) -> Seq<u8> {
    seq![(x / 0x100_0000) as u8, ((x / 0x1_0000) % 256) as u8, ((x / 256) % 256) as u8, (x % 256) as u8]
}

/// The `u16` that two big-endian bytes encode.
pub open spec fn from_be16(b0: u8, b1: u8) -> u16 {
    (b0 as int * 256 + b1 as int) as u16
}

/// The `u32` that four big-endian bytes encode.
pub open spec fn from_be32(b0: u8, b1: u8, b2: u8, b3: u8) -> u32 {
    (b0 as int * 0x100_0000 + b1 as int * 0x1_0000 + b2 as int * 256 + b3 as int) as u32
}

/// Decoding the big-endian bytes of a `u16` gives it back.
pub proof fn lemma_be16_roundtrip(x: u16)
    ensures
        from_be16(be16(x)[0], be16(x)[1]) == x,
{
}

/// Decoding the big-endian bytes of a `u32` gives it back.
pub proof fn lemma_be32_roundtrip(x: u32)
    ensures
        from_be32(be32(x)[0], be32(x)[1], be32(x)[2], be32(x)[3]) == x,
{
    let a = x / 0x100_0000;
    let b = (x / 0x1_0000) % 256;
    let c = (x / 256) % 256;
    let d = x % 256;
    assert(a * 0x100_0000 + b * 0x1_0000 + c * 256 + d == x) by (nonlinear_arith)
        requires
            a == x / 0x100_0000,
            b == (x / 0x1_0000) % 256,
            c == (x / 256) % 256,
            d == x % 256,
    ;
}

/// Appends the bytes of `s` to `out`.
pub fn append_bytes(out: &mut Vec<u8>, s: &[u8])
    ensures
        final(out)@ == old(out)@ + s@,
{
    let ghost start = out@;
    let mut i: usize = 0;
    while i < s.len()
        invariant
            i <= s@.len(),
            out@ == start + s@.take(i as int),
        decreases s@.len() - i,
    {
        out.push(s[i]);
        i = i + 1;
        assert(out@ == start + s@.take(i as int));
    }
    assert(s@.take(s@.len() as int) == s@);
}

/// Whether `p` occurs in `s` at position `i`.
pub open spec fn bytes_occur_at(s: Seq<u8>, p: Seq<u8>, i: int) -> bool {
    0 <= i && i + p.len() <= s.len() && s.subrange(i, i + p.len()) == p
}

/// The first position at or after `i` where `p` occurs in `s`.
pub open spec fn bytes_index_from(s: Seq<u8>, p: Seq<u8>, i: int) -> Option<int>
    decreases s.len() + 1 - i,
{
    if i < 0 || i + p.len() > s.len() {
        None
    } else if bytes_occur_at(s, p, i) {
        Some(i)
    } else {
        bytes_index_from(s, p, i + 1)
    }
}

/// Whether `p` occurs in `s` at position `i`.
fn bytes_match_at(s: &[u8], p: &[u8], i: usize) -> (r: bool)
    requires
        i + p@.len() <= s@.len(),
    ensures
        r == bytes_occur_at(s@, p@, i as int),
{
    let mut k: usize = 0;
    while k < p.len()
        invariant
            i + p@.len() <= s@.len(),
            k <= p@.len(),
            forall|t: int| 0 <= t < k ==> s@[i + t] == p@[t],
        decreases p@.len() - k,
    {
        assert(i + k < s.len());
        let at = i + k;
        if s[at] != p[k] {
            assert(s@.subrange(i as int, i + p@.len())[k as int] != p@[k as int]);
            return false;
        }
        k = k + 1;
    }
    assert(s@.subrange(i as int, i + p@.len()) =~= p@);
    true
}

/// `str::find` with a string pattern, on bytes: the first position of `p`
/// in `s`.
pub fn find_bytes(s: &[u8], p: &[u8]) -> (r: Option<usize>)
    ensures
        match r {
            Some(k) => bytes_index_from(s@, p@, 0) == Some(k as int) && k + p@.len() <= s@.len(),
            None => bytes_index_from(s@, p@, 0) is None,
        },
{
    if p.len() > s.len() {
        return None;
    }
    let last = s.len() - p.len();
    let mut i: usize = 0;
    while i <= last
        invariant
            last + p@.len() == s@.len(),
            i <= last + 1,
            bytes_index_from(s@, p@, 0) == bytes_index_from(s@, p@, i as int),
        decreases last + 1 - i,
    {
        if bytes_match_at(s, p, i) {
            return Some(i);
        }
        if i == last {
            return None;
        }
        i = i + 1;
    }
    None
}

} // verus!
