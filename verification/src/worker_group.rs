//! Worker groups: parameters shared by the workers, the VK join hashes they
//! use, and the decisions of the retry loop each worker runs.

use crate::bytes::{bytes_index_from, find_bytes};
use crate::outside::{to_lowercase, unicode_lowercase};
use crate::text::{
    chars_of, chars_eq, contains_chars, contains_seq, cut_at_any, cut_at_any_chars, split_char, split_chars,
    starts_with_chars, string_of, trim, trim_chars, trim_in, trim_matches_any,
};
use vstd::prelude::*;
use vstd::string::StringSliceAdditionalSpecFns;
use vstd::utf8::{decode_utf8, encode_utf8, is_char_boundary};

verus! {

/// Workers started per group.
pub const workersPerGroup: usize = 9;

/// Default lifetime of a worker cycle in seconds.
pub const defaultCycleSecs: u64 = 36000;

/// What every worker of the client needs to reach the TURN relay.
#[derive(Debug)]
pub struct TurnParams {
    pub Host: String,
    pub Port: String,
    pub Hashes: Vec<String>,
    pub WrapKey: Vec<u8>,
    pub ObfsMode: String,
}

/// TURN credentials shared by the workers of a group.
#[derive(Debug)]
pub struct Credentials {
    pub User: String,
    pub Pass: String,
    pub TurnURLs: Vec<String>,
    pub CacheStreamID: i32,
}

/// Characters stripped from around a pasted hash.
pub open spec fn quote_chars() -> Set<char> {
    seq!['<', '>', '"', '\''].to_set()
}

/// Characters that end the hash part of a link.
pub open spec fn hash_end_chars() -> Set<char> {
    seq!['?', '#', '/'].to_set()
}

/// The slash, as a set.
pub open spec fn slash_chars() -> Set<char> {
    seq!['/'].to_set()
}

/// The pasted text, trimmed and without surrounding quotes or angle brackets.
pub open spec fn join_hash_start(input: Seq<char>) -> Seq<char> {
    trim_in(trim(input), quote_chars())
}

/// The hash part of what follows a join link's marker: up to the first '?',
/// '#' or '/', trimmed, and without surrounding slashes.
pub open spec fn join_hash_cut(s: Seq<char>) -> Seq<char> {
    trim_in(trim(cut_at_any(s, hash_end_chars())), slash_chars())
}

/// Where the lower-cased text holds "/call/join/", as a byte offset.
pub open spec fn join_marker_at(s: Seq<char>) -> Option<int> {
    bytes_index_from(encode_utf8(unicode_lowercase(s)), "/call/join/".spec_bytes(), 0)
}

/// Whether the byte offset of the marker in the lower-cased text, moved past
/// the marker, also falls on a character boundary of the text itself (it does
/// unless lower-casing changed the length of some character).
pub open spec fn join_hash_ok(input: Seq<char>) -> bool {
    let s = join_hash_start(input);
    s.len() == 0 || match join_marker_at(s) {
        Some(i) => is_char_boundary(encode_utf8(s), i + 11),
        None => true,
    }
}

/// The VK call hash that a pasted link or hash stands for: the part after
/// "/call/join/" (found case-insensitively), or the whole text when there is
/// no such marker and it is not an http(s) link (then nothing), cut at the
/// first '?', '#' or '/'.
pub open spec fn normalized_join_hash(input: Seq<char>) -> Seq<char> {
    let s = join_hash_start(input);
    if s.len() == 0 {
        s
    } else {
        let l = unicode_lowercase(s);
        match join_marker_at(s) {
            Some(i) => join_hash_cut(decode_utf8(encode_utf8(s).subrange(i + 11, encode_utf8(s).len() as int))),
            None => if "http://"@.is_prefix_of(l) || "https://"@.is_prefix_of(l) {
                Seq::empty()
            } else {
                join_hash_cut(s)
            },
        }
    }
}

/// `normalizeVKJoinHash`, or `None` where the text after the marker would not
/// start on a character boundary.
fn normalize_join_hash(input: &str) -> (r: Option<String>)
    ensures
        r is None <==> !join_hash_ok(input@),
        r matches Some(h) ==> h@ == normalized_join_hash(input@),
{
    let mut quotes: Vec<char> = Vec::new();
    quotes.push('<');
    quotes.push('>');
    quotes.push('"');
    quotes.push('\'');
    let mut ends: Vec<char> = Vec::new();
    ends.push('?');
    ends.push('#');
    ends.push('/');
    let mut slash: Vec<char> = Vec::new();
    slash.push('/');
    assert(quotes@ =~= seq!['<', '>', '"', '\'']);
    assert(ends@ =~= seq!['?', '#', '/']);
    assert(slash@ =~= seq!['/']);
    let raw = chars_of(input);
    let t = trim_chars(raw.as_slice());
    let s = trim_matches_any(t.as_slice(), quotes.as_slice());
    assert(s@ == join_hash_start(input@));
    if s.len() == 0 {
        return Some(string_of(s.as_slice()));
    }
    let s_str = string_of(s.as_slice());
    let l = to_lowercase(s_str.as_str());
    let marker = "/call/join/".as_bytes();
    proof {
        reveal_strlit("/call/join/");
        vstd::string::is_ascii_spec_bytes("/call/join/");
        assert(vstd::utf8::is_ascii_chars("/call/join/"@));
        assert("/call/join/".spec_bytes().len() == 11);
    }
    let lb = l.as_str().as_bytes();
    assert(lb@ == encode_utf8(unicode_lowercase(s@)));
    let body: Vec<char> = match find_bytes(lb, marker) {
        Some(i) => {
            let s_ref = s_str.as_str();
            assert(s_ref.spec_bytes() == encode_utf8(s@));
            assert(join_marker_at(s@) == Some(i as int));
            let lb_len = lb.len();
            assert(i + 11 <= lb_len);
            let mid = i + 11;
            if !s_ref.is_char_boundary(mid) {
                return None;
            }
            assert(join_hash_ok(input@));
            let (_head, rest) = s_ref.split_at(mid);
            let rc = chars_of(rest);
            proof {
                vstd::utf8::encode_utf8_decode_utf8(rest@);
            }
            rc
        },
        None => {
            assert(join_marker_at(s@) is None);
            let lc = chars_of(l.as_str());
            let h1 = chars_of("http://");
            let h2 = chars_of("https://");
            if starts_with_chars(lc.as_slice(), h1.as_slice()) || starts_with_chars(lc.as_slice(), h2.as_slice()) {
                return Some(String::new());
            }
            s
        },
    };
    let cut = cut_at_any_chars(body.as_slice(), ends.as_slice());
    let tr = trim_chars(cut.as_slice());
    let fin = trim_matches_any(tr.as_slice(), slash.as_slice());
    Some(string_of(fin.as_slice()))
}

/// The VK call hash that a pasted link or hash stands for (see
/// `normalized_join_hash`). The text after the marker must start on a
/// character boundary: slicing there would panic otherwise.
pub fn normalizeVKJoinHash(input: &str) -> (r: String)
    requires
        join_hash_ok(input@),
    ensures
        r@ == normalized_join_hash(input@),
{
    match normalize_join_hash(input) {
        Some(h) => h,
        None => String::new(),
    }
}

/// `normalizeVKJoinHash` for any text: `None` exactly where it would slice
/// inside a character.
pub fn normalizeVKJoinHashChecked(input: &str) -> (r: Option<String>)
    ensures
        r is None <==> !join_hash_ok(input@),
        r matches Some(h) ==> h@ == normalized_join_hash(input@),
{
    normalize_join_hash(input)
}

/// Separators between hashes in a list.
pub open spec fn is_hash_separator(c: char) -> bool {
    c == ',' || c == ';' || c == '\n' || c == '\r' || c == '\t' || c == ' '
}

/// Pieces of `s` between separator characters.
pub open spec fn split_hash_list(s: Seq<char>) -> Seq<Seq<char>>
    decreases s.len(),
{
    if s.len() == 0 {
        seq![Seq::<char>::empty()]
    } else {
        let rest = split_hash_list(s.drop_last());
        if is_hash_separator(s.last()) {
            rest.push(Seq::<char>::empty())
        } else {
            rest.update(rest.len() - 1, rest.last().push(s.last()))
        }
    }
}

/// Every piece of a hash list can be normalised without slicing inside a
/// character.
pub open spec fn hash_list_ok(raw: Seq<char>) -> bool {
    forall|k: int| 0 <= k < split_hash_list(raw).len() ==> join_hash_ok(#[trigger] split_hash_list(raw)[k])
}

/// The normalised hashes of the pieces, empty ones dropped, each kept at its
/// first appearance.
pub open spec fn distinct_hashes(pieces: Seq<Seq<char>>) -> Seq<Seq<char>>
    decreases pieces.len(),
{
    if pieces.len() == 0 {
        Seq::empty()
    } else {
        let acc = distinct_hashes(pieces.drop_last());
        let h = normalized_join_hash(pieces.last());
        if h.len() > 0 && !acc.contains(h) {
            acc.push(h)
        } else {
            acc
        }
    }
}

/// The hashes kept from a list of pieces are non-empty and all different, and
/// every non-empty normalised piece is among them.
pub proof fn lemma_distinct_hashes(pieces: Seq<Seq<char>>)
    ensures
        distinct_hashes(pieces).no_duplicates(),
        forall|k: int| 0 <= k < distinct_hashes(pieces).len() ==> #[trigger] distinct_hashes(pieces)[k].len() > 0,
        forall|k: int|
            0 <= k < pieces.len() && normalized_join_hash(#[trigger] pieces[k]).len() > 0 ==> distinct_hashes(
                pieces,
            ).contains(normalized_join_hash(pieces[k])),
    decreases pieces.len(),
{
    if pieces.len() > 0 {
        let rest = pieces.drop_last();
        lemma_distinct_hashes(rest);
        assert forall|k: int|
            0 <= k < pieces.len() && normalized_join_hash(#[trigger] pieces[k]).len() > 0 implies distinct_hashes(
            pieces,
        ).contains(normalized_join_hash(pieces[k])) by {
            if k < pieces.len() - 1 {
                assert(rest[k] == pieces[k]);
                let acc = distinct_hashes(rest);
                let j = choose|j: int| 0 <= j < acc.len() && acc[j] == normalized_join_hash(rest[k]);
                assert(distinct_hashes(pieces)[j] == acc[j]);
            } else {
                let acc = distinct_hashes(rest);
                let h = normalized_join_hash(pieces.last());
                if !acc.contains(h) {
                    assert(distinct_hashes(pieces)[acc.len() as int] == h);
                } else {
                    let j = choose|j: int| 0 <= j < acc.len() && acc[j] == h;
                    assert(distinct_hashes(pieces)[j] == h);
                }
            }
        }
    }
}

/// The hashes of a list separated by commas, semicolons or whitespace.
pub open spec fn parsed_hashes(raw: Seq<char>) -> Seq<Seq<char>> {
    distinct_hashes(split_hash_list(raw))
}

/// `split_hash_list` always gives at least one piece.
proof fn lemma_split_hash_list_nonempty(s: Seq<char>)
    ensures
        split_hash_list(s).len() >= 1,
    decreases s.len(),
{
    if s.len() > 0 {
        lemma_split_hash_list_nonempty(s.drop_last());
    }
}

/// The pieces of a hash list.
fn split_hash_pieces(s: &[char]) -> (r: Vec<Vec<char>>)
    ensures
        r@.map_values(|x: Vec<char>| x@) == split_hash_list(s@),
{
    let mut pieces: Vec<Vec<char>> = Vec::new();
    let mut cur: Vec<char> = Vec::new();
    let mut i: usize = 0;
    assert(s@.take(0) =~= Seq::<char>::empty());
    assert(pieces@.map_values(|x: Vec<char>| x@).push(cur@) =~= split_hash_list(s@.take(0)));
    while i < s.len()
        invariant
            i <= s@.len(),
            pieces@.map_values(|x: Vec<char>| x@).push(cur@) == split_hash_list(s@.take(i as int)),
        decreases s@.len() - i,
    {
        let c = s[i];
        let ghost pre = s@.take(i as int);
        let ghost rest = split_hash_list(pre);
        assert(s@.take(i + 1).drop_last() =~= pre);
        assert(s@.take(i + 1).last() == c);
        if c == ',' || c == ';' || c == '\n' || c == '\r' || c == '\t' || c == ' ' {
            assert(split_hash_list(s@.take(i + 1)) == rest.push(Seq::<char>::empty()));
            let done = cur;
            pieces.push(done);
            cur = Vec::new();
            assert(pieces@.map_values(|x: Vec<char>| x@).push(cur@) =~= rest.push(Seq::<char>::empty()));
        } else {
            assert(split_hash_list(s@.take(i + 1)) == rest.update(rest.len() - 1, rest.last().push(c)));
            let ghost before = pieces@.map_values(|x: Vec<char>| x@);
            cur.push(c);
            assert(pieces@.map_values(|x: Vec<char>| x@).push(cur@) =~= rest.update(rest.len() - 1, rest.last().push(c)));
        }
        i = i + 1;
    }
    assert(s@.take(s@.len() as int) =~= s@);
    let ghost before = pieces@.map_values(|x: Vec<char>| x@);
    let ghost last = cur@;
    pieces.push(cur);
    assert(pieces@.map_values(|x: Vec<char>| x@) =~= before.push(last));
    pieces
}

/// Whether `h` is among the strings of `v`.
fn contains_string(v: &Vec<String>, h: &[char]) -> (r: bool)
    ensures
        r == v@.map_values(|x: String| x@).contains(h@),
{
    let ghost vv = v@.map_values(|x: String| x@);
    let mut i: usize = 0;
    while i < v.len()
        invariant
            vv == v@.map_values(|x: String| x@),
            i <= v@.len(),
            forall|j: int| 0 <= j < i ==> vv[j] != h@,
        decreases v@.len() - i,
    {
        let c = chars_of(v[i].as_str());
        if chars_eq(c.as_slice(), h) {
            assert(vv[i as int] == h@);
            return true;
        }
        i = i + 1;
    }
    false
}

/// The hashes of a list separated by commas, semicolons or whitespace: each
/// piece normalised (see `normalizeVKJoinHash`), empty results dropped,
/// repeats dropped. Every piece must normalise without slicing inside a
/// character.
pub fn ParseHashes(raw: &str) -> (r: Vec<String>)
    requires
        hash_list_ok(raw@),
    ensures
        r@.map_values(|x: String| x@) == parsed_hashes(raw@),
        r@.map_values(|x: String| x@).no_duplicates(),
        forall|k: int| 0 <= k < r@.len() ==> (#[trigger] r@[k])@.len() > 0,
{
    proof {
        lemma_distinct_hashes(split_hash_list(raw@));
    }
    let r = match parse_hashes(raw) {
        Some(v) => v,
        None => Vec::new(),
    };
    proof {
        assert forall|k: int| 0 <= k < r@.len() implies (#[trigger] r@[k])@.len() > 0 by {
            assert(r@.map_values(|x: String| x@)[k] == r@[k]@);
        }
    }
    r
}

/// `ParseHashes` for any text: `None` exactly where some piece would be
/// sliced inside a character.
pub fn ParseHashesChecked(raw: &str) -> (r: Option<Vec<String>>)
    ensures
        r is None <==> !hash_list_ok(raw@),
        r matches Some(v) ==> v@.map_values(|x: String| x@) == parsed_hashes(raw@),
{
    parse_hashes(raw)
}

/// The work of `ParseHashes`, stopping at a piece that cannot be normalised.
fn parse_hashes(raw: &str) -> (r: Option<Vec<String>>)
    ensures
        r is None <==> !hash_list_ok(raw@),
        r matches Some(v) ==> v@.map_values(|x: String| x@) == parsed_hashes(raw@),
{
    let chars = chars_of(raw);
    let pieces = split_hash_pieces(chars.as_slice());
    let ghost pv = pieces@.map_values(|x: Vec<char>| x@);
    let mut out: Vec<String> = Vec::new();
    let mut i: usize = 0;
    assert(pv.take(0) =~= Seq::<Seq<char>>::empty());
    while i < pieces.len()
        invariant
            pv == pieces@.map_values(|x: Vec<char>| x@),
            pv == split_hash_list(raw@),
            i <= pv.len(),
            forall|k: int| 0 <= k < i ==> join_hash_ok(#[trigger] pv[k]),
            out@.map_values(|x: String| x@) == distinct_hashes(pv.take(i as int)),
        decreases pv.len() - i,
    {
        let piece = string_of(pieces[i].as_slice());
        assert(piece@ == pv[i as int]);
        assert(pv.take(i + 1).drop_last() =~= pv.take(i as int));
        assert(pv.take(i + 1).last() == pv[i as int]);
        let h = match normalize_join_hash(piece.as_str()) {
            Some(h) => h,
            None => {
                return None;
            },
        };
        let hc = chars_of(h.as_str());
        if hc.len() > 0 && !contains_string(&out, hc.as_slice()) {
            let ghost prev = out@.map_values(|x: String| x@);
            let ghost hv = h@;
            out.push(h);
            assert(out@.map_values(|x: String| x@) =~= prev.push(hv));
        }
        i = i + 1;
    }
    assert(pv.take(pv.len() as int) =~= pv);
    Some(out)
}

/// The delay before a worker's next attempt: 2 seconds, 3 after more than
/// three failed attempts in a row, 5 after more than five.
pub fn retryDelaySecs(attempt: i32) -> (r: u64)
    ensures
        attempt > 5 ==> r == 5,
        3 < attempt <= 5 ==> r == 3,
        attempt <= 3 ==> r == 2,
{
    if attempt > 5 {
        5
    } else if attempt > 3 {
        3
    } else {
        2
    }
}

/// How a worker reads a session error.
#[derive(Debug, Clone, Copy, PartialEq, Eq)]
pub enum SessionErrorKind {
    FatalAuth,
    TurnAllocate,
    DtlsTimeout,
    Other,
}

/// The kind of a session error message: "FATAL_AUTH" first, then
/// "TURN Allocate", then "DTLS timeout".
pub open spec fn session_error_kind(msg: Seq<char>) -> SessionErrorKind {
    if contains_seq(msg, "FATAL_AUTH"@) {
        SessionErrorKind::FatalAuth
    } else if contains_seq(msg, "TURN Allocate"@) {
        SessionErrorKind::TurnAllocate
    } else if contains_seq(msg, "DTLS timeout"@) {
        SessionErrorKind::DtlsTimeout
    } else {
        SessionErrorKind::Other
    }
}

/// The kind of a session error message.
pub fn classifySessionError(msg: &str) -> (r: SessionErrorKind)
    ensures
        r == session_error_kind(msg@),
{
    let m = chars_of(msg);
    let a = chars_of("FATAL_AUTH");
    let b = chars_of("TURN Allocate");
    let c = chars_of("DTLS timeout");
    if contains_chars(m.as_slice(), a.as_slice()) {
        SessionErrorKind::FatalAuth
    } else if contains_chars(m.as_slice(), b.as_slice()) {
        SessionErrorKind::TurnAllocate
    } else if contains_chars(m.as_slice(), c.as_slice()) {
        SessionErrorKind::DtlsTimeout
    } else {
        SessionErrorKind::Other
    }
}

/// What a worker does after a session ends.
#[derive(Debug, Clone, Copy, PartialEq, Eq)]
pub enum WorkerStep {
    /// A fatal authentication error: cancel every worker and stop.
    CancelAll,
    /// Sleep this many seconds, then start attempt `attempt + 1`.
    Retry { attempt: i32, delay_secs: u64 },
}

/// The decision after attempt `attempt` ended: a session that ran resets the
/// failure count; a fatal authentication error stops everything; any other
/// error keeps the count and waits longer as failures accumulate.
pub fn workerAfterSession(attempt: i32, err: Option<&str>) -> (r: WorkerStep)
    ensures
        match err {
            None => r == (WorkerStep::Retry { attempt: 0, delay_secs: 2 }),
            Some(m) => if session_error_kind(m@) == SessionErrorKind::FatalAuth {
                r == WorkerStep::CancelAll
            } else {
                r == (WorkerStep::Retry {
                    attempt,
                    delay_secs: if attempt > 5 { 5 } else if attempt > 3 { 3 } else { 2 },
                })
            },
        },
{
    match err {
        None => WorkerStep::Retry { attempt: 0, delay_secs: retryDelaySecs(0) },
        Some(m) => {
            match classifySessionError(m) {
                SessionErrorKind::FatalAuth => WorkerStep::CancelAll,
                _ => WorkerStep::Retry { attempt, delay_secs: retryDelaySecs(attempt) },
            }
        },
    }
}

/// The hash a group uses: its index taken modulo the number of hashes.
pub fn groupHash(params: &TurnParams, hash_index: usize) -> (r: String)
    requires
        params.Hashes@.len() > 0,
    ensures
        r@ == params.Hashes@[(hash_index as int) % (params.Hashes@.len() as int)]@,
{
    params.Hashes[hash_index % params.Hashes.len()].clone()
}

/// The stream id under which a group caches its credentials.
pub fn groupStreamId(group_id: i32) -> (r: i32)
    requires
        -21474836 <= group_id <= 21474836,
    ensures
        r as int == group_id as int * 100,
{
    group_id * 100
}

/// How many workers the client starts for a requested count: clamped to
/// 9..=108 and rounded down to whole groups of 9.
pub fn workerCount(n: usize) -> (r: usize)
    ensures
        r as int == (if n < 9 { 9int } else if n > 108 { 108int } else { n as int }) / 9 * 9,
        r % 9 == 0 && 9 <= r <= 108,
{
    let c = if n < 9 {
        9
    } else if n > 108 {
        108
    } else {
        n
    };
    c / workersPerGroup * workersPerGroup
}

/// How many groups start in the first batch: one, when there is any.
pub fn firstBatchGroups(num_groups: usize) -> (r: usize)
    ensures
        r == if num_groups < 1 { num_groups } else { 1usize },
{
    let first_batch: usize = 5;
    let limit = first_batch / workersPerGroup + 1;
    if num_groups < limit {
        num_groups
    } else {
        limit
    }
}

/// The end of the batch of groups that starts at `current`: four at a time.
pub fn nextBatchEnd(current: usize, num_groups: usize) -> (r: usize)
    requires
        current <= usize::MAX - 4,
    ensures
        r as int == if current + 4 < num_groups { current + 4 } else { num_groups as int },
{
    if current + 4 < num_groups {
        current + 4
    } else {
        num_groups
    }
}

} // verus!
