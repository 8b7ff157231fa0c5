use vstd::prelude::*;
use vstd::string::StringSliceAdditionalSpecFns;
use crate::outside::push_char;

verus! {

/// The characters of `s`, in order.
pub fn chars_of(s: &str) -> (v: Vec<char>)
    ensures
        v@ == s@,
{
    let mut v: Vec<char> = Vec::new();
    for c in it: s.chars()
        invariant
            v@ == it.seq().take(it.index() as int),
    {
        v.push(c);
    }
    v
}

/// A `String` holding exactly the characters of `v`.
pub fn string_of(v: &[char]) -> (s: String)
    ensures
        s@ == v@,
{
    let mut s = String::new();
    let mut i: usize = 0;
    while i < v.len()
        invariant
            i <= v.len(),
            s@ == v@.take(i as int),
        decreases v.len() - i,
    {
        push_char(&mut s, v[i]);
        i = i + 1;
        assert(s@ == v@.take(i as int));
    }
    s
}

/// Whether two character sequences are equal.
pub fn chars_eq(a: &[char], b: &[char]) -> (r: bool)
    ensures
        r == (a@ == b@),
{
    if a.len() != b.len() {
        return false;
    }
    let mut i: usize = 0;
    while i < a.len()
        invariant
            a@.len() == b@.len(),
            i <= a@.len(),
            forall|j: int| 0 <= j < i ==> a@[j] == b@[j],
        decreases a@.len() - i,
    {
        if a[i] != b[i] {
            return false;
        }
        i = i + 1;
    }
    assert(a@ =~= b@);
    true
}

/// Whether two strings hold the same characters.
pub fn str_eq(a: &str, b: &str) -> (r: bool)
    ensures
        r == (a@ == b@),
{
    let x = chars_of(a);
    let y = chars_of(b);
    chars_eq(x.as_slice(), y.as_slice())
}

/// Appends the characters of `s` to `out`.
pub fn append_chars(out: &mut Vec<char>, s: &[char])
    ensures
        final(out)@ == old(out)@ + s@,
{
    let ghost start = out@;
    let mut i: usize = 0;
    while i < s.len()
        invariant
            i <= s@.len(),
            out@ == start + s@.take(i as int),
        decreases s@.len() - i,
    {
        out.push(s[i]);
        i = i + 1;
        assert(out@ == start + s@.take(i as int));
    }
    assert(s@.take(s@.len() as int) == s@);
}

/// A copy of `s[lo..hi]`.
pub fn sub_chars(s: &[char], lo: usize, hi: usize) -> (r: Vec<char>)
    requires
        lo <= hi <= s@.len(),
    ensures
        r@ == s@.subrange(lo as int, hi as int),
{
    let mut r: Vec<char> = Vec::new();
    let mut i: usize = lo;
    while i < hi
        invariant
            lo <= i <= hi <= s@.len(),
            r@ == s@.subrange(lo as int, i as int),
        decreases hi - i,
    {
        r.push(s[i]);
        i = i + 1;
        assert(r@ =~= s@.subrange(lo as int, i as int));
    }
    r
}

/// Unicode `White_Space`, the characters that `char::is_whitespace` accepts.
pub open spec fn is_whitespace(c: char) -> bool {
    let u = c as u32;
    (0x09 <= u && u <= 0x0D) || u == 0x20 || u == 0x85 || u == 0xA0 || u == 0x1680 || (0x2000 <= u
        && u <= 0x200A) || u == 0x2028 || u == 0x2029 || u == 0x202F || u == 0x205F || u == 0x3000
}

/// `char::is_whitespace`.
pub fn is_ws(c: char) -> (r: bool)
    ensures
        r == is_whitespace(c),
{
    let u = c as u32;
    (0x09 <= u && u <= 0x0D) || u == 0x20 || u == 0x85 || u == 0xA0 || u == 0x1680 || (0x2000 <= u
        && u <= 0x200A) || u == 0x2028 || u == 0x2029 || u == 0x202F || u == 0x205F || u == 0x3000
}

/// `s` without its leading whitespace.
pub open spec fn trim_start(s: Seq<char>) -> Seq<char>
    decreases s.len(),
{
    if s.len() > 0 && is_whitespace(s[0]) {
        trim_start(s.drop_first())
    } else {
        s
    }
}

/// `s` without its trailing whitespace.
pub open spec fn trim_end(s: Seq<char>) -> Seq<char>
    decreases s.len(),
{
    if s.len() > 0 && is_whitespace(s.last()) {
        trim_end(s.drop_last())
    } else {
        s
    }
}

/// `str::trim`: `s` without leading and trailing whitespace.
pub open spec fn trim(s: Seq<char>) -> Seq<char> {
    trim_end(trim_start(s))
}

/// `str::trim` on a character sequence.
pub fn trim_chars(s: &[char]) -> (r: Vec<char>)
    ensures
        r@ == trim(s@),
{
    let mut i: usize = 0;
    assert(s@.skip(0) =~= s@);
    while i < s.len() && is_ws(s[i])
        invariant
            i <= s@.len(),
            trim_start(s@) == trim_start(s@.skip(i as int)),
        decreases s@.len() - i,
    {
        assert(s@.skip(i as int).drop_first() =~= s@.skip(i + 1));
        i = i + 1;
    }
    let mut j: usize = s.len();
    assert(s@.skip(i as int).take((j - i) as int) =~= s@.skip(i as int));
    while j > i && is_ws(s[j - 1])
        invariant
            i <= j <= s@.len(),
            trim_start(s@) == s@.skip(i as int),
            trim(s@) == trim_end(s@.subrange(i as int, j as int)),
        decreases j,
    {
        assert(s@.subrange(i as int, j as int).drop_last() =~= s@.subrange(i as int, j - 1));
        j = j - 1;
    }
    sub_chars(s, i, j)
}

/// Whether `s` contains `p` at position `i`.
pub open spec fn occurs_at(s: Seq<char>, p: Seq<char>, i: int) -> bool {
    0 <= i && i + p.len() <= s.len() && s.subrange(i, i + p.len()) == p
}

/// `str::contains` with a string pattern.
pub open spec fn contains_seq(s: Seq<char>, p: Seq<char>) -> bool {
    exists|i: int| occurs_at(s, p, i)
}

/// Whether `p` occurs in `s` at position `i`.
pub fn matches_at(s: &[char], p: &[char], i: usize) -> (r: bool)
    ensures
        r == occurs_at(s@, p@, i as int),
{
    if i > s.len() || p.len() > s.len() - i {
        return false;
    }
    let mut k: usize = 0;
    while k < p.len()
        invariant
            i + p@.len() <= s@.len(),
            k <= p@.len(),
            forall|t: int| 0 <= t < k ==> s@[i + t] == p@[t],
        decreases p@.len() - k,
    {
        assert(i + k < s.len());
        let at = i + k;
        if s[at] != p[k] {
            assert(s@.subrange(i as int, i + p@.len())[k as int] != p@[k as int]);
            return false;
        }
        k = k + 1;
    }
    assert(s@.subrange(i as int, i + p@.len()) =~= p@);
    true
}

/// The first position of `p` in `s`, if any (`str::find` counted in
/// characters).
pub fn find_chars(s: &[char], p: &[char]) -> (r: Option<usize>)
    ensures
        r matches Some(i) ==> occurs_at(s@, p@, i as int) && forall|j: int| 0 <= j < i ==> !occurs_at(s@, p@, j),
        r is None ==> !contains_seq(s@, p@),
{
    let mut i: usize = 0;
    while i < s.len()
        invariant
            i <= s@.len(),
            forall|j: int| 0 <= j < i ==> !occurs_at(s@, p@, j),
        decreases s@.len() - i,
    {
        if matches_at(s, p, i) {
            return Some(i);
        }
        i = i + 1;
    }
    if matches_at(s, p, i) {
        return Some(i);
    }
    assert forall|j: int| !occurs_at(s@, p@, j) by {
        if 0 <= j && j + p@.len() <= s@.len() {
            assert(j <= i);
        }
    }
    None
}

/// `str::contains` on character sequences.
pub fn contains_chars(s: &[char], p: &[char]) -> (r: bool)
    ensures
        r == contains_seq(s@, p@),
{
    match find_chars(s, p) {
        Some(_) => true,
        None => false,
    }
}

/// `str::starts_with` on character sequences.
pub fn starts_with_chars(s: &[char], p: &[char]) -> (r: bool)
    ensures
        r == p@.is_prefix_of(s@),
{
    let r = matches_at(s, p, 0);
    assert(r == occurs_at(s@, p@, 0));
    proof {
        if p@.is_prefix_of(s@) {
            assert(s@.subrange(0, p@.len() as int) =~= p@);
        }
        if r {
            assert forall|t: int| 0 <= t < p@.len() implies p@[t] == s@[t] by {
                assert(s@.subrange(0, p@.len() as int)[t] == s@[t]);
            }
        }
    }
    r
}

/// `str::ends_with` on character sequences.
pub fn ends_with_chars(s: &[char], p: &[char]) -> (r: bool)
    ensures
        r == p@.is_suffix_of(s@),
{
    if p.len() > s.len() {
        return false;
    }
    let start = s.len() - p.len();
    let r = matches_at(s, p, start);
    proof {
        if p@.is_suffix_of(s@) {
            assert(s@.subrange(start as int, s@.len() as int) =~= p@);
        }
        if r {
            assert forall|t: int| 0 <= t < p@.len() implies p@[t] == s@[s@.len() - p@.len() + t] by {
                assert(s@.subrange(start as int, start + p@.len())[t] == s@[start + t]);
            }
        }
    }
    r
}

/// The pieces of `s` between occurrences of `sep` (`str::split` with a
/// character): always at least one piece.
pub open spec fn split_char(s: Seq<char>, sep: char) -> Seq<Seq<char>>
    decreases s.len(),
{
    if s.len() == 0 {
        seq![Seq::<char>::empty()]
    } else {
        let rest = split_char(s.drop_last(), sep);
        if s.last() == sep {
            rest.push(Seq::<char>::empty())
        } else {
            rest.update(rest.len() - 1, rest.last().push(s.last()))
        }
    }
}

/// `split_char` always gives at least one piece.
pub proof fn lemma_split_char_nonempty(s: Seq<char>, sep: char)
    ensures
        split_char(s, sep).len() >= 1,
    decreases s.len(),
{
    if s.len() > 0 {
        lemma_split_char_nonempty(s.drop_last(), sep);
    }
}

/// `str::split(sep)` on a character sequence.
pub fn split_chars(s: &[char], sep: char) -> (r: Vec<Vec<char>>)
    ensures
        r@.map_values(|x: Vec<char>| x@) == split_char(s@, sep),
{
    let mut pieces: Vec<Vec<char>> = Vec::new();
    let mut cur: Vec<char> = Vec::new();
    let mut i: usize = 0;
    assert(s@.take(0) =~= Seq::<char>::empty());
    assert(pieces@.map_values(|x: Vec<char>| x@).push(cur@) =~= split_char(s@.take(0), sep));
    while i < s.len()
        invariant
            i <= s@.len(),
            pieces@.map_values(|x: Vec<char>| x@).push(cur@) == split_char(s@.take(i as int), sep),
        decreases s@.len() - i,
    {
        let c = s[i];
        let ghost pre = s@.take(i as int);
        let ghost rest = split_char(pre, sep);
        assert(s@.take(i + 1).drop_last() =~= pre);
        assert(s@.take(i + 1).last() == c);
        assert(s@.take(i + 1).len() > 0);
        assert(rest == pieces@.map_values(|x: Vec<char>| x@).push(cur@));
        if c == sep {
            assert(split_char(s@.take(i + 1), sep) == rest.push(Seq::<char>::empty()));
            let done = cur;
            pieces.push(done);
            cur = Vec::new();
            assert(pieces@.map_values(|x: Vec<char>| x@).push(cur@) =~= rest.push(Seq::<char>::empty()));
        } else {
            assert(split_char(s@.take(i + 1), sep) == rest.update(rest.len() - 1, rest.last().push(c)));
            let ghost before = pieces@.map_values(|x: Vec<char>| x@);
            cur.push(c);
            assert(pieces@.map_values(|x: Vec<char>| x@) == before);
            assert(pieces@.map_values(|x: Vec<char>| x@).push(cur@) =~= rest.update(rest.len() - 1, rest.last().push(c)));
        }
        i = i + 1;
    }
    assert(s@.take(s@.len() as int) =~= s@);
    let ghost before = pieces@.map_values(|x: Vec<char>| x@);
    let ghost last = cur@;
    pieces.push(cur);
    assert(pieces@.map_values(|x: Vec<char>| x@) =~= before.push(last));
    pieces
}

/// A line without the carriage return that ended it.
pub open spec fn strip_cr(l: Seq<char>) -> Seq<char> {
    if l.len() > 0 && l.last() == '\r' {
        l.drop_last()
    } else {
        l
    }
}

/// `str::lines`: pieces between '\n' (each without a trailing '\r'), where
/// text after the last '\n' forms a last line only when it is not empty, and
/// keeps its '\r'.
pub open spec fn lines(s: Seq<char>) -> Seq<Seq<char>> {
    let p = split_char(s, '\n');
    let body = p.drop_last().map_values(|l: Seq<char>| strip_cr(l));
    if p.last().len() == 0 {
        body
    } else {
        body.push(p.last())
    }
}

/// `str::lines` on a character sequence.
pub fn lines_of(s: &[char]) -> (r: Vec<Vec<char>>)
    ensures
        r@.map_values(|x: Vec<char>| x@) == lines(s@),
{
    let p = split_chars(s, '\n');
    proof {
        lemma_split_char_nonempty(s@, '\n');
    }
    let ghost ps = split_char(s@, '\n');
    let mut r: Vec<Vec<char>> = Vec::new();
    let n = p.len();
    let mut i: usize = 0;
    while i + 1 < n
        invariant
            n == p@.map_values(|x: Vec<char>| x@).len(),
            p@.map_values(|x: Vec<char>| x@) == ps,
            ps.len() >= 1,
            i <= n - 1,
            r@.map_values(|x: Vec<char>| x@) == ps.take(i as int).map_values(|l: Seq<char>| strip_cr(l)),
        decreases n - i,
    {
        let line = &p[i];
        assert(line@ == ps[i as int]);
        let mut l: Vec<char> = sub_chars(line.as_slice(), 0, line.len());
        assert(l@ =~= ps[i as int]);
        if l.len() > 0 && l[l.len() - 1] == '\r' {
            l.pop();
        }
        assert(l@ == strip_cr(ps[i as int]));
        let ghost prev = r@.map_values(|x: Vec<char>| x@);
        let ghost l_view = l@;
        r.push(l);
        assert(r@.map_values(|x: Vec<char>| x@) =~= prev.push(l_view));
        assert(ps.take(i + 1) =~= ps.take(i as int).push(ps[i as int]));
        i = i + 1;
        assert(r@.map_values(|x: Vec<char>| x@) =~= ps.take(i as int).map_values(|l: Seq<char>| strip_cr(l)));
    }
    assert(ps.take(i as int) =~= ps.drop_last());
    let ghost body = ps.drop_last().map_values(|l: Seq<char>| strip_cr(l));
    assert(r@.map_values(|x: Vec<char>| x@) == body);
    let last = &p[n - 1];
    assert(last@ == ps.last());
    if last.len() > 0 {
        let l = sub_chars(last.as_slice(), 0, last.len());
        assert(l@ =~= ps.last());
        r.push(l);
        assert(r@.map_values(|x: Vec<char>| x@) =~= body.push(ps.last()));
    }
    r
}

/// `str::trim` as a new string.
pub fn trim_str(s: &str) -> (r: String)
    ensures
        r@ == trim(s@),
{
    let v = chars_of(s);
    let t = trim_chars(v.as_slice());
    string_of(t.as_slice())
}

/// A byte in ASCII lower case.
pub open spec fn ascii_lower_byte(b: u8) -> u8 {
    if 0x41 <= b && b <= 0x5A {
        (b + 32) as u8
    } else {
        b
    }
}

/// `eq_ignore_ascii_case` on byte strings: same length, and equal bytes once
/// ASCII letters are lowered.
pub open spec fn eq_ignore_ascii_case_bytes(a: Seq<u8>, b: Seq<u8>) -> bool {
    a.len() == b.len() && forall|i: int| 0 <= i < a.len() ==> ascii_lower_byte(a[i]) == ascii_lower_byte(b[i])
}

/// `str::eq_ignore_ascii_case`.
pub fn eq_ignore_ascii_case(a: &str, b: &str) -> (r: bool)
    ensures
        r == eq_ignore_ascii_case_bytes(a.spec_bytes(), b.spec_bytes()),
{
    let x = a.as_bytes();
    let y = b.as_bytes();
    if x.len() != y.len() {
        return false;
    }
    let mut i: usize = 0;
    while i < x.len()
        invariant
            x@ == a.spec_bytes(),
            y@ == b.spec_bytes(),
            x@.len() == y@.len(),
            i <= x@.len(),
            forall|j: int| 0 <= j < i ==> ascii_lower_byte(x@[j]) == ascii_lower_byte(y@[j]),
        decreases x@.len() - i,
    {
        let p = x[i];
        let q = y[i];
        let lp = if 0x41 <= p && p <= 0x5A { p + 32 } else { p };
        let lq = if 0x41 <= q && q <= 0x5A { q + 32 } else { q };
        if lp != lq {
            return false;
        }
        i = i + 1;
    }
    true
}

/// The position of the first `c` in `s`.
pub open spec fn index_of_char(s: Seq<char>, c: char) -> Option<int>
    decreases s.len(),
{
    if s.len() == 0 {
        None
    } else if s[0] == c {
        Some(0)
    } else {
        match index_of_char(s.drop_first(), c) {
            Some(i) => Some(i + 1),
            None => None,
        }
    }
}

/// `index_of_char` finds the first occurrence.
pub proof fn lemma_index_of_char(s: Seq<char>, c: char)
    ensures
        match index_of_char(s, c) {
            Some(i) => 0 <= i < s.len() && s[i] == c && forall|j: int| 0 <= j < i ==> s[j] != c,
            None => forall|j: int| 0 <= j < s.len() ==> s[j] != c,
        },
    decreases s.len(),
{
    if s.len() > 0 {
        lemma_index_of_char(s.drop_first(), c);
        if s[0] != c {
            match index_of_char(s.drop_first(), c) {
                Some(i) => {
                    assert forall|j: int| 0 <= j < i + 1 implies s[j] != c by {
                        if j > 0 {
                            assert(s[j] == s.drop_first()[j - 1]);
                        }
                    }
                },
                None => {
                    assert forall|j: int| 0 <= j < s.len() implies s[j] != c by {
                        if j > 0 {
                            assert(s[j] == s.drop_first()[j - 1]);
                        }
                    }
                },
            }
        }
    }
}

/// The position of the first `c` in `s`.
pub fn find_char(s: &[char], c: char) -> (r: Option<usize>)
    ensures
        match index_of_char(s@, c) {
            Some(i) => r == Some(i as usize),
            None => r is None,
        },
{
    proof {
        lemma_index_of_char(s@, c);
    }
    let mut i: usize = 0;
    while i < s.len()
        invariant
            i <= s@.len(),
            forall|j: int| 0 <= j < i ==> s@[j] != c,
            match index_of_char(s@, c) {
                Some(k) => 0 <= k < s@.len() && s@[k] == c && forall|j: int| 0 <= j < k ==> s@[j] != c,
                None => forall|j: int| 0 <= j < s@.len() ==> s@[j] != c,
            },
        decreases s@.len() - i,
    {
        if s[i] == c {
            return Some(i);
        }
        i = i + 1;
    }
    None
}

/// The decimal digit of a number below 10.
pub open spec fn digit_char(d: nat) -> char {
    ((d + 48) as u32) as char
}

/// The decimal digits of a natural number, most significant first.
pub open spec fn digits(n: nat) -> Seq<char>
    decreases n,
{
    if n < 10 {
        seq![digit_char(n)]
    } else {
        digits(n / 10).push(digit_char(n % 10))
    }
}

/// An integer in decimal, as `Display` prints it.
pub open spec fn decimal(n: int) -> Seq<char> {
    if n < 0 {
        seq!['-'] + digits((-n) as nat)
    } else {
        digits(n as nat)
    }
}

/// The decimal digits of `n`.
pub fn digits_of(n: u64) -> (r: Vec<char>)
    ensures
        r@ == digits(n as nat),
    decreases n,
{
    let d = (n % 10) as u32;
    let c = char_from_digit(d);
    if n < 10 {
        let mut v = Vec::new();
        v.push(c);
        assert(v@ =~= digits(n as nat));
        v
    } else {
        let mut v = digits_of(n / 10);
        v.push(c);
        v
    }
}

/// The character of a decimal digit.
fn char_from_digit(d: u32) -> (c: char)
    requires
        d < 10,
    ensures
        c == digit_char(d as nat),
{
    match d {
        0 => '0',
        1 => '1',
        2 => '2',
        3 => '3',
        4 => '4',
        5 => '5',
        6 => '6',
        7 => '7',
        8 => '8',
        _ => '9',
    }
}

/// `u64`'s `Display`.
pub fn u64_to_decimal(n: u64) -> (r: Vec<char>)
    ensures
        r@ == decimal(n as int),
{
    digits_of(n)
}

/// `i64`'s `Display`.
pub fn i64_to_decimal(n: i64) -> (r: Vec<char>)
    ensures
        r@ == decimal(n as int),
{
    if n < 0 {
        let m: u64 = (-(n as i128)) as u64;
        let d = digits_of(m);
        let mut v: Vec<char> = Vec::new();
        v.push('-');
        append_chars(&mut v, d.as_slice());
        v
    } else {
        digits_of(n as u64)
    }
}

/// Whether every character is an ASCII digit.
pub open spec fn all_digits(s: Seq<char>) -> bool {
    forall|i: int| 0 <= i < s.len() ==> '0' <= #[trigger] s[i] && s[i] <= '9'
}

/// The value of a string of decimal digits.
pub open spec fn digits_value(s: Seq<char>) -> nat
    decreases s.len(),
{
    if s.len() == 0 {
        0
    } else {
        digits_value(s.drop_last()) * 10 + ((s.last() as u32) - 48) as nat
    }
}

/// The integer a string denotes the way `str::parse` reads integers: an
/// optional `+` or `-` followed by one or more ASCII digits, nothing else.
pub open spec fn parse_int(s: Seq<char>) -> Option<int> {
    if s.len() > 0 && (s[0] == '+' || s[0] == '-') {
        let d = s.drop_first();
        if d.len() == 0 || !all_digits(d) {
            None
        } else if s[0] == '-' {
            Some(-(digits_value(d) as int))
        } else {
            Some(digits_value(d) as int)
        }
    } else if s.len() == 0 || !all_digits(s) {
        None
    } else {
        Some(digits_value(s) as int)
    }
}

/// `str::parse::<i64>().ok()`.
pub open spec fn parse_i64(s: Seq<char>) -> Option<i64> {
    match parse_int(s) {
        Some(v) => if i64::MIN <= v <= i64::MAX {
            Some(v as i64)
        } else {
            None
        },
        None => None,
    }
}

/// The value of the digits `s[lo..]`, or `None` when a character is not a
/// digit or the value exceeds 2^63.
fn digits_value_capped(s: &[char], lo: usize) -> (r: Option<u64>)
    requires
        lo <= s@.len(),
    ensures
        !all_digits(s@.skip(lo as int)) ==> r is None,
        all_digits(s@.skip(lo as int)) && digits_value(s@.skip(lo as int)) <= 0x8000_0000_0000_0000
            ==> r == Some(digits_value(s@.skip(lo as int)) as u64),
        all_digits(s@.skip(lo as int)) && digits_value(s@.skip(lo as int)) > 0x8000_0000_0000_0000
            ==> r is None,
{
    let ghost d = s@.skip(lo as int);
    let mut acc: u64 = 0;
    let mut big = false;
    let mut i: usize = lo;
    assert(d.take(0) =~= Seq::<char>::empty());
    while i < s.len()
        invariant
            lo <= i <= s@.len(),
            d == s@.skip(lo as int),
            all_digits(d.take(i - lo)),
            !big ==> acc as nat == digits_value(d.take(i - lo)),
            big ==> digits_value(d.take(i - lo)) > 0x8000_0000_0000_0000,
            acc <= 0x8000_0000_0000_0000,
        decreases s@.len() - i,
    {
        let c = s[i];
        let ghost pre = d.take(i - lo);
        let ghost next = d.take(i - lo + 1);
        assert(next.drop_last() =~= pre);
        assert(next.last() == c);
        if !('0' <= c && c <= '9') {
            assert(d[i - lo] == c);
            return None;
        }
        assert(all_digits(next));
        let dv = (c as u32 - 48) as u64;
        assert(digits_value(next) == digits_value(pre) * 10 + dv);
        if !big {
            if acc > 0x0CCC_CCCC_CCCC_CCCC || acc * 10 + dv > 0x8000_0000_0000_0000 {
                big = true;
            } else {
                acc = acc * 10 + dv;
            }
        }
        i = i + 1;
    }
    assert(d.take(d.len() as int) =~= d);
    if big {
        None
    } else {
        Some(acc)
    }
}

/// `str::parse::<i64>().ok()`.
pub fn parse_i64_chars(s: &[char]) -> (r: Option<i64>)
    ensures
        r == parse_i64(s@),
{
    if s.len() > 0 && (s[0] == '+' || s[0] == '-') {
        assert(s@.skip(1) =~= s@.drop_first());
        if s.len() == 1 {
            return None;
        }
        match digits_value_capped(s, 1) {
            None => None,
            Some(v) => {
                if s[0] == '-' {
                    if v == 0x8000_0000_0000_0000 {
                        Some(i64::MIN)
                    } else {
                        Some(-(v as i64))
                    }
                } else if v <= 0x7FFF_FFFF_FFFF_FFFF {
                    Some(v as i64)
                } else {
                    None
                }
            },
        }
    } else if s.len() == 0 {
        None
    } else {
        assert(s@.skip(0) =~= s@);
        match digits_value_capped(s, 0) {
            None => None,
            Some(v) => if v <= 0x7FFF_FFFF_FFFF_FFFF {
                Some(v as i64)
            } else {
                None
            },
        }
    }
}

/// The parts joined with `sep` between consecutive parts.
pub open spec fn join(parts: Seq<Seq<char>>, sep: Seq<char>) -> Seq<char>
    decreases parts.len(),
{
    if parts.len() == 0 {
        Seq::empty()
    } else if parts.len() == 1 {
        parts[0]
    } else {
        join(parts.drop_last(), sep) + sep + parts.last()
    }
}

/// `s` without leading characters of `cs`.
pub open spec fn trim_start_in(s: Seq<char>, cs: Set<char>) -> Seq<char>
    decreases s.len(),
{
    if s.len() > 0 && cs.contains(s[0]) {
        trim_start_in(s.drop_first(), cs)
    } else {
        s
    }
}

/// `s` without trailing characters of `cs`.
pub open spec fn trim_end_in(s: Seq<char>, cs: Set<char>) -> Seq<char>
    decreases s.len(),
{
    if s.len() > 0 && cs.contains(s.last()) {
        trim_end_in(s.drop_last(), cs)
    } else {
        s
    }
}

/// `str::trim_matches` with a set of characters.
pub open spec fn trim_in(s: Seq<char>, cs: Set<char>) -> Seq<char> {
    trim_end_in(trim_start_in(s, cs), cs)
}

/// Whether `c` is one of `cs`.
fn char_in(c: char, cs: &[char]) -> (r: bool)
    ensures
        r == cs@.to_set().contains(c),
{
    let mut i: usize = 0;
    while i < cs.len()
        invariant
            i <= cs@.len(),
            forall|j: int| 0 <= j < i ==> cs@[j] != c,
        decreases cs@.len() - i,
    {
        if cs[i] == c {
            assert(cs@.contains(c));
            return true;
        }
        i = i + 1;
    }
    assert(!cs@.contains(c));
    false
}

/// `str::trim_matches` with the characters of `cs`.
pub fn trim_matches_any(s: &[char], cs: &[char]) -> (r: Vec<char>)
    ensures
        r@ == trim_in(s@, cs@.to_set()),
{
    let ghost set = cs@.to_set();
    let mut i: usize = 0;
    assert(s@.skip(0) =~= s@);
    while i < s.len() && char_in(s[i], cs)
        invariant
            i <= s@.len(),
            set == cs@.to_set(),
            trim_start_in(s@, set) == trim_start_in(s@.skip(i as int), set),
        decreases s@.len() - i,
    {
        assert(s@.skip(i as int).drop_first() =~= s@.skip(i + 1));
        i = i + 1;
    }
    let mut j: usize = s.len();
    assert(s@.skip(i as int).take((j - i) as int) =~= s@.skip(i as int));
    assert(s@.subrange(i as int, j as int) =~= s@.skip(i as int));
    while j > i && char_in(s[j - 1], cs)
        invariant
            i <= j <= s@.len(),
            set == cs@.to_set(),
            trim_start_in(s@, set) == s@.skip(i as int),
            trim_in(s@, set) == trim_end_in(s@.subrange(i as int, j as int), set),
        decreases j,
    {
        assert(s@.subrange(i as int, j as int).drop_last() =~= s@.subrange(i as int, j - 1));
        j = j - 1;
    }
    sub_chars(s, i, j)
}

/// The position of the first character of `s` that is one of `cs`.
pub open spec fn index_of_any(s: Seq<char>, cs: Set<char>) -> Option<int>
    decreases s.len(),
{
    if s.len() == 0 {
        None
    } else if cs.contains(s[0]) {
        Some(0)
    } else {
        match index_of_any(s.drop_first(), cs) {
            Some(i) => Some(i + 1),
            None => None,
        }
    }
}

/// `s` up to its first character of `cs`.
pub open spec fn cut_at_any(s: Seq<char>, cs: Set<char>) -> Seq<char> {
    match index_of_any(s, cs) {
        Some(i) => s.take(i),
        None => s,
    }
}

/// `s` up to its first character of `cs`.
pub fn cut_at_any_chars(s: &[char], cs: &[char]) -> (r: Vec<char>)
    ensures
        r@ == cut_at_any(s@, cs@.to_set()),
{
    let ghost set = cs@.to_set();
    let mut i: usize = 0;
    assert(s@.skip(0) =~= s@);
    while i < s.len()
        invariant
            i <= s@.len(),
            set == cs@.to_set(),
            forall|j: int| 0 <= j < i ==> !set.contains(s@[j]),
            index_of_any(s@, set) == match index_of_any(s@.skip(i as int), set) {
                Some(k) => Some(k + i),
                None => None::<int>,
            },
        decreases s@.len() - i,
    {
        assert(s@.skip(i as int)[0] == s@[i as int]);
        if char_in(s[i], cs) {
            return sub_chars(s, 0, i);
        }
        assert(s@.skip(i as int).drop_first() =~= s@.skip(i + 1));
        i = i + 1;
    }
    sub_chars(s, 0, s.len())
}

/// Appends the characters of `s` to `out`.
pub fn push_str(out: &mut Vec<char>, s: &str)
    ensures
        final(out)@ == old(out)@ + s@,
{
    let c = chars_of(s);
    append_chars(out, c.as_slice());
}

/// The first `n` characters of `s`, followed by "..." when `s` is longer.
pub open spec fn truncated(s: Seq<char>, n: nat) -> Seq<char> {
    if s.len() <= n {
        s
    } else {
        s.take(n as int) + "..."@
    }
}

/// `s` with leading copies of the non-empty `p` removed.
pub open spec fn strip_prefix_repeated(s: Seq<char>, p: Seq<char>) -> Seq<char>
    decreases s.len(),
{
    if p.len() > 0 && p.is_prefix_of(s) {
        strip_prefix_repeated(s.skip(p.len() as int), p)
    } else {
        s
    }
}

/// `str::trim_start_matches` with a non-empty string pattern.
pub fn trim_start_matches_chars(s: &[char], p: &[char]) -> (r: Vec<char>)
    requires
        p@.len() > 0,
    ensures
        r@ == strip_prefix_repeated(s@, p@),
{
    let mut i: usize = 0;
    assert(s@.skip(0) =~= s@);
    while i <= s.len() && matches_at(s, p, i)
        invariant
            i <= s@.len(),
            p@.len() > 0,
            strip_prefix_repeated(s@, p@) == strip_prefix_repeated(s@.skip(i as int), p@),
        decreases s@.len() - i,
    {
        assert(s@.skip(i as int).subrange(0, p@.len() as int) =~= s@.subrange(i as int, i + p@.len()));
        assert(p@.is_prefix_of(s@.skip(i as int)));
        assert(s@.skip(i as int).skip(p@.len() as int) =~= s@.skip(i + p@.len()));
        i = i + p.len();
    }
    proof {
        if p@.is_prefix_of(s@.skip(i as int)) {
            assert(s@.skip(i as int).subrange(0, p@.len() as int) =~= s@.subrange(i as int, i + p@.len()));
        }
    }
    sub_chars(s, i, s.len())
}

} // verus!
