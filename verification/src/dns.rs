//! DNS probing: the query sent to each resolver, the choice of the fastest,
//! and recognising Yandex's resolvers.

use crate::bytes::append_bytes;
use crate::text::{
    chars_of, cut_at_any, cut_at_any_chars, split_char, split_chars, str_eq, string_of, strip_prefix_repeated,
    trim, trim_chars, trim_start_matches_chars,
};
use vstd::prelude::*;

verus! {

/// Yandex's public resolvers.
pub const YANDEX_DNS_SERVERS: [&'static str; 2] = ["77.88.8.8:53", "77.88.8.1:53"];

/// Cloudflare's public resolvers.
pub const CLOUDFLARE_DNS_SERVERS: [&'static str; 2] = ["1.1.1.1:53", "1.0.0.1:53"];

/// Google's public resolvers.
pub const GOOGLE_DNS_SERVERS: [&'static str; 2] = ["8.8.8.8:53", "8.8.4.4:53"];

/// Yandex's public resolvers, under their older name.
pub const YANDEX_DNSSERVERS: [&'static str; 2] = ["77.88.8.8:53", "77.88.8.1:53"];

/// The resolvers probed, in order: Yandex, Cloudflare, Google.
pub open spec fn dns_servers() -> Seq<Seq<char>> {
    seq![
        YANDEX_DNS_SERVERS[0]@,
        YANDEX_DNS_SERVERS[1]@,
        CLOUDFLARE_DNS_SERVERS[0]@,
        CLOUDFLARE_DNS_SERVERS[1]@,
        GOOGLE_DNS_SERVERS[0]@,
        GOOGLE_DNS_SERVERS[1]@,
    ]
}

/// The resolvers probed, in order: Yandex, Cloudflare, Google.
pub fn dnsServerList() -> (r: Vec<String>)
    ensures
        r@.map_values(|s: String| s@) == dns_servers(),
{
    let mut v: Vec<String> = Vec::new();
    v.push(String::from_str(YANDEX_DNS_SERVERS[0]));
    v.push(String::from_str(YANDEX_DNS_SERVERS[1]));
    v.push(String::from_str(CLOUDFLARE_DNS_SERVERS[0]));
    v.push(String::from_str(CLOUDFLARE_DNS_SERVERS[1]));
    v.push(String::from_str(GOOGLE_DNS_SERVERS[0]));
    v.push(String::from_str(GOOGLE_DNS_SERVERS[1]));
    assert(v@.map_values(|s: String| s@) =~= dns_servers());
    v
}

/// The labels of a name: each piece between dots as its byte length (kept
/// to its low eight bits) followed by its UTF-8 bytes.
pub open spec fn dns_labels(parts: Seq<Seq<char>>) -> Seq<u8>
    decreases parts.len(),
{
    if parts.len() == 0 {
        Seq::empty()
    } else {
        let b = vstd::utf8::encode_utf8(parts.last());
        dns_labels(parts.drop_last()) + seq![b.len() as u8] + b
    }
}

/// The query for the A record of `domain`: a header (id 0x1234, recursion
/// desired, one question), the name's labels, the root label, type A and
/// class IN.
pub open spec fn dns_query(domain: Seq<char>) -> Seq<u8> {
    seq![0x12u8, 0x34, 0x01, 0x00, 0x00, 0x01, 0x00, 0x00, 0x00, 0x00, 0x00, 0x00] + dns_labels(
        split_char(domain, '.'),
    ) + seq![0x00u8, 0x00, 0x01, 0x00, 0x01]
}

/// The query for the A record of `domain`.
pub fn build_dns_query(domain: &str) -> (r: Vec<u8>)
    ensures
        r@ == dns_query(domain@),
{
    let mut query: Vec<u8> = Vec::new();
    query.push(0x12);
    query.push(0x34);
    query.push(0x01);
    query.push(0x00);
    query.push(0x00);
    query.push(0x01);
    query.push(0x00);
    query.push(0x00);
    query.push(0x00);
    query.push(0x00);
    query.push(0x00);
    query.push(0x00);
    let ghost header = query@;
    let d = chars_of(domain);
    let parts = split_chars(d.as_slice(), '.');
    let ghost ps = parts@.map_values(|x: Vec<char>| x@);
    let mut i: usize = 0;
    assert(ps.take(0) =~= Seq::<Seq<char>>::empty());
    assert(query@ =~= header + dns_labels(ps.take(0)));
    while i < parts.len()
        invariant
            ps == parts@.map_values(|x: Vec<char>| x@),
            i <= ps.len(),
            query@ == header + dns_labels(ps.take(i as int)),
        decreases ps.len() - i,
    {
        let part = string_of(parts[i].as_slice());
        let bytes = part.as_str().as_bytes();
        assert(ps.take(i + 1).drop_last() =~= ps.take(i as int));
        assert(ps.take(i + 1).last() == ps[i as int]);
        query.push(bytes.len() as u8);
        append_bytes(&mut query, bytes);
        assert(query@ =~= header + dns_labels(ps.take(i + 1)));
        i = i + 1;
    }
    assert(ps.take(ps.len() as int) =~= ps);
    query.push(0);
    query.push(0x00);
    query.push(0x01);
    query.push(0x00);
    query.push(0x01);
    assert(query@ =~= dns_query(domain@));
    query
}

/// The host part of a resolver address: trimmed, without leading '[', up to
/// the first ':' or ']'.
pub open spec fn dns_host(address: Seq<char>) -> Seq<char> {
    cut_at_any(strip_prefix_repeated(trim(address), seq!['[']), set![':', ']'])
}

/// Whether an address names one of Yandex's resolvers, with or without a
/// port or brackets.
pub fn isYandexDNSAddress(address: &str) -> (r: bool)
    ensures
        r == (dns_host(address@) == "77.88.8.8"@ || dns_host(address@) == "77.88.8.1"@),
{
    let a = chars_of(address);
    let t = trim_chars(a.as_slice());
    let mut bracket: Vec<char> = Vec::new();
    bracket.push('[');
    let s = trim_start_matches_chars(t.as_slice(), bracket.as_slice());
    let mut stops: Vec<char> = Vec::new();
    stops.push(':');
    stops.push(']');
    let h = cut_at_any_chars(s.as_slice(), stops.as_slice());
    assert(bracket@ =~= seq!['[']);
    assert(stops@.to_set() =~= set![':', ']']) by {
        assert(stops@ =~= seq![':', ']']);
        assert(forall|c: char| stops@.contains(c) <==> (c == ':' || c == ']')) by {
            assert(stops@[0] == ':' && stops@[1] == ']');
        }
    }
    let hs = string_of(h.as_slice());
    str_eq(hs.as_str(), "77.88.8.8") || str_eq(hs.as_str(), "77.88.8.1")
}

/// The position of the first fastest probe: the smallest time, the earliest
/// on ties.
pub open spec fn fastest_index(times: Seq<u64>) -> int
    decreases times.len(),
{
    if times.len() <= 1 {
        0
    } else {
        let i = fastest_index(times.drop_last());
        if times.last() < times[i] {
            times.len() - 1
        } else {
            i
        }
    }
}

/// The resolver to use given the probes that answered, in probing order:
/// the first with the smallest time; Yandex's first resolver when none
/// answered.
pub open spec fn fastest_dns(results: Seq<(Seq<char>, u64)>) -> Seq<char> {
    if results.len() == 0 {
        YANDEX_DNS_SERVERS[0]@
    } else {
        results[fastest_index(results.map_values(|p: (Seq<char>, u64)| p.1))].0
    }
}

/// The resolver to use given the probes that answered (server, time in
/// milliseconds), in probing order.
pub fn pickFastestDns(results: &[(String, u64)]) -> (r: String)
    ensures
        r@ == fastest_dns(results@.map_values(|p: (String, u64)| (p.0@, p.1))),
{
    let ghost rs = results@.map_values(|p: (String, u64)| (p.0@, p.1));
    let ghost times = rs.map_values(|p: (Seq<char>, u64)| p.1);
    if results.len() == 0 {
        return String::from_str(YANDEX_DNS_SERVERS[0]);
    }
    let mut best: usize = 0;
    let mut i: usize = 1;
    assert(times.take(1).len() == 1);
    while i < results.len()
        invariant
            rs == results@.map_values(|p: (String, u64)| (p.0@, p.1)),
            times == rs.map_values(|p: (Seq<char>, u64)| p.1),
            1 <= i <= results@.len(),
            best < i,
            best as int == fastest_index(times.take(i as int)),
        decreases results@.len() - i,
    {
        assert(times.take(i + 1).drop_last() =~= times.take(i as int));
        assert(times.take(i + 1).last() == results@[i as int].1);
        assert(times.take(i as int)[best as int] == results@[best as int].1);
        if results[i].1 < results[best].1 {
            best = i;
        }
        i = i + 1;
    }
    assert(times.take(i as int) =~= times);
    results[best].0.clone()
}

} // verus!
