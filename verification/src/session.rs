//! A worker's session with the TURN relay: where it connects, how relayed
//! datagrams are wrapped and unwrapped, and the exchange that fetches the
//! WireGuard configuration.

use crate::obfs::{
    is_obfs_packet_for, obfsUnwrapPacket, obfsWrapPacket, padding_limit, unwrap_spec, valid_payload_type,
    NewObfsConfig, NewObfsState, ObfsConfig, ObfsError, ObfsState,
};
use crate::outside::aead_max_len;
use crate::text::{
    chars_of, cut_at_any, cut_at_any_chars, push_str, starts_with_chars, str_eq, string_of, strip_prefix_repeated,
    sub_chars, trim_start_matches_chars,
};
use crate::worker_group::{Credentials, TurnParams};
use crate::wrap::wrapKeyLen;
use vstd::prelude::*;

verus! {

/// How many datagrams wait for a worker at most.
pub const WORKER_SEND_BUF: usize = 128;

/// How long a session waits for relayed data, in seconds.
pub const SESSION_READ_TIMEOUT_SECS: u64 = 1800;

/// The size of the buffer relayed datagrams are read into.
pub const READ_BUF_SIZE: usize = 1600;

/// The size of the relay socket's buffers.
pub const SOCKET_BUF_SIZE: usize = 625 * 1024;

/// The byte a session sends to keep the relay open.
pub const KEEPALIVE_BYTE: u8 = 0xff;

/// How often a session sends a keepalive, in seconds.
pub const KEEPALIVE_INTERVAL_SECS: u64 = 15;

/// How long the DTLS handshake may take, in seconds.
pub const DTLS_HANDSHAKE_TIMEOUT_SECS: u64 = 60;

/// The message of a session that the server refused for its password.
pub const FATAL_AUTH_PASSWORD: &'static str = "FATAL_AUTH: неверный пароль подключения";

/// Why no relay address could be formed.
#[derive(Debug, Clone, Copy, PartialEq, Eq)]
pub enum TurnAddressError {
    /// The credentials carry no TURN URL.
    NoTurnUrl,
}

impl TurnAddressError {
    /// The error's message.
    pub fn to_string(&self) -> (s: String)
        ensures
            s@ == "нет TURN URL в учетных данных"@,
    {
        String::from_str("нет TURN URL в учетных данных")
    }
}

/// The position of the last `c` in `s`.
pub open spec fn last_index_of(s: Seq<char>, c: char) -> Option<int>
    decreases s.len(),
{
    if s.len() == 0 {
        None
    } else if s.last() == c {
        Some(s.len() - 1)
    } else {
        last_index_of(s.drop_last(), c)
    }
}

/// The position of the last `c` in `s`.
fn rfind_char(s: &[char], c: char) -> (r: Option<usize>)
    ensures
        match last_index_of(s@, c) {
            Some(i) => r == Some(i as usize) && 0 <= i < s@.len(),
            None => r is None,
        },
{
    let mut i: usize = s.len();
    assert(s@.take(i as int) =~= s@);
    while i > 0
        invariant
            i <= s@.len(),
            last_index_of(s@, c) == last_index_of(s@.take(i as int), c),
        decreases i,
    {
        assert(s@.take(i as int).drop_last() =~= s@.take(i - 1));
        if s[i - 1] == c {
            return Some(i - 1);
        }
        i = i - 1;
    }
    None
}

/// The TURN URL a session uses: the session id, reinterpreted as a `usize`,
/// modulo the number of URLs.
pub open spec fn turn_url_index(session_id: i32, n: nat) -> int {
    (#[verifier::truncate] (session_id as usize)) as int % (n as int)
}

/// The `host:port` of a TURN URL: without the `turn:`/`turns:` scheme and
/// the query.
pub open spec fn turn_host_port(url: Seq<char>) -> Seq<char> {
    cut_at_any(strip_prefix_repeated(strip_prefix_repeated(url, "turn:"@), "turns:"@), set!['?'])
}

/// The relay address of a session: the URL's `host:port`, where a configured
/// host replaces the host (keeping the URL's port, or 3478 when the URL has
/// none, unless a port is configured), and a configured port alone replaces
/// the port.
pub open spec fn relay_address(host: Seq<char>, port: Seq<char>, url: Seq<char>) -> Seq<char> {
    let addr = turn_host_port(url);
    if host.len() > 0 {
        let p = if port.len() == 0 {
            match last_index_of(addr, ':') {
                Some(i) => addr.skip(i + 1),
                None => "3478"@,
            }
        } else {
            port
        };
        host + ":"@ + p
    } else if port.len() > 0 {
        let h = match last_index_of(addr, ':') {
            Some(i) => addr.take(i),
            None => addr,
        };
        h + ":"@ + port
    } else {
        addr
    }
}

/// The last `c` of `h + c + p`, where `p` holds no `c`, is the one after `h`.
proof fn lemma_last_index_after(h: Seq<char>, p: Seq<char>, c: char)
    requires
        !p.contains(c),
    ensures
        last_index_of(h + seq![c] + p, c) == Some(h.len() as int),
    decreases p.len(),
{
    let s = h + seq![c] + p;
    if p.len() == 0 {
        assert(s.last() == c);
    } else {
        assert(s.last() == p.last());
        assert(s.drop_last() =~= h + seq![c] + p.drop_last());
        assert forall|k: int| 0 <= k < p.drop_last().len() implies p.drop_last()[k] != c by {
            assert(p.drop_last()[k] == p[k]);
        }
        lemma_last_index_after(h, p.drop_last(), c);
    }
}

/// A text without `c` has no last `c`.
proof fn lemma_last_index_none(s: Seq<char>, c: char)
    requires
        !s.contains(c),
    ensures
        last_index_of(s, c) is None,
    decreases s.len(),
{
    if s.len() > 0 {
        assert(s.last() == s[s.len() - 1]);
        assert forall|k: int| 0 <= k < s.drop_last().len() implies s.drop_last()[k] != c by {
            assert(s.drop_last()[k] == s[k]);
        }
        lemma_last_index_none(s.drop_last(), c);
    }
}

/// With a host configured and no port, the relay address is the host and the
/// port of the chosen TURN URL (what follows the last ':' of its host:port
/// part), and port 3478 only when that part names no port. With a port
/// configured too, it is the host and that port.
pub proof fn lemma_relay_address_host(host: Seq<char>, port: Seq<char>, url: Seq<char>, h: Seq<char>, p: Seq<char>)
    requires
        host.len() > 0,
    ensures
        port.len() == 0 && turn_host_port(url) == h + ":"@ + p && !p.contains(':') ==> relay_address(host, port, url)
            == host + ":"@ + p,
        port.len() == 0 && !turn_host_port(url).contains(':') ==> relay_address(host, port, url) == host + ":3478"@,
        port.len() > 0 ==> relay_address(host, port, url) == host + ":"@ + port,
{
    reveal_strlit(":");
    reveal_strlit(":3478");
    reveal_strlit("3478");
    let addr = turn_host_port(url);
    if port.len() == 0 && addr == h + ":"@ + p && !p.contains(':') {
        assert(h + ":"@ + p =~= h + seq![':'] + p);
        lemma_last_index_after(h, p, ':');
        assert(addr.skip(h.len() as int + 1) =~= p);
    }
    if port.len() == 0 && !addr.contains(':') {
        lemma_last_index_none(addr, ':');
        assert(host + ":"@ + "3478"@ =~= host + ":3478"@);
    }
}

/// The relay address of session `session_id`.
pub fn turn_address(params: &TurnParams, creds: &Credentials, session_id: i32) -> (r: Result<String, TurnAddressError>)
    ensures
        creds.TurnURLs@.len() == 0 ==> r == Err::<String, TurnAddressError>(TurnAddressError::NoTurnUrl),
        creds.TurnURLs@.len() > 0 ==> (r matches Ok(a) && a@ == relay_address(
            params.Host@,
            params.Port@,
            creds.TurnURLs@[turn_url_index(session_id, creds.TurnURLs@.len())]@,
        )),
{
    let n = creds.TurnURLs.len();
    if n == 0 {
        return Err(TurnAddressError::NoTurnUrl);
    }
    let url = &creds.TurnURLs[(#[verifier::truncate] (session_id as usize)) % n];
    proof {
        reveal_strlit("turn:");
        reveal_strlit("turns:");
    }
    let u = chars_of(url.as_str());
    let p1 = chars_of("turn:");
    let p2 = chars_of("turns:");
    let a1 = trim_start_matches_chars(u.as_slice(), p1.as_slice());
    let a2 = trim_start_matches_chars(a1.as_slice(), p2.as_slice());
    let mut q: Vec<char> = Vec::new();
    q.push('?');
    let addr = cut_at_any_chars(a2.as_slice(), q.as_slice());
    assert(q@.to_set() =~= set!['?']) by {
        assert(q@ =~= seq!['?']);
        assert(forall|c: char| q@.contains(c) <==> c == '?') by {
            assert(q@[0] == '?');
        }
    }
    let host = chars_of(params.Host.as_str());
    let port = chars_of(params.Port.as_str());
    let alen = addr.len();
    let ghost a = addr@;
    assert(a == turn_host_port(url@));
    proof {
        reveal_strlit(":");
        reveal_strlit("3478");
    }
    let mut out: Vec<char>;
    if host.len() > 0 {
        out = host;
        out.push(':');
        if port.len() == 0 {
            match rfind_char(addr.as_slice(), ':') {
                Some(i) => {
                    let tail = sub_chars(addr.as_slice(), i + 1, alen);
                    assert(tail@ =~= a.skip(i + 1));
                    crate::text::append_chars(&mut out, tail.as_slice());
                },
                None => push_str(&mut out, "3478"),
            }
        } else {
            crate::text::append_chars(&mut out, port.as_slice());
        }
    } else if port.len() > 0 {
        out = match rfind_char(addr.as_slice(), ':') {
            Some(i) => {
                let h = sub_chars(addr.as_slice(), 0, i);
                assert(h@ =~= a.take(i as int));
                h
            },
            None => {
                let h = sub_chars(addr.as_slice(), 0, alen);
                assert(h@ =~= a);
                h
            },
        };
        out.push(':');
        crate::text::append_chars(&mut out, port.as_slice());
    } else {
        out = addr;
    }
    assert(out@ =~= relay_address(params.Host@, params.Port@, url@));
    Ok(string_of(out.as_slice()))
}

/// The obfuscation a relay connection uses: the wrap key with a fresh
/// configuration for the mode and a fresh counter.
pub struct RelayObfs {
    pub key: Vec<u8>,
    pub cfg: ObfsConfig,
    pub state: ObfsState,
}

/// The obfuscation of a relay connection: used exactly when the wrap key
/// has the full length.
pub fn relayObfs(params: &TurnParams) -> (r: Option<RelayObfs>)
    ensures
        params.WrapKey@.len() == wrapKeyLen <==> r is Some,
        r matches Some(o) ==> {
            &&& o.key@ == params.WrapKey@
            &&& o.state.spec_count() == 0
            &&& (params.ObfsMode@ == "video"@ ==> o.cfg.PayloadType == 96 && o.cfg.PaddingMax == 60)
            &&& (params.ObfsMode@ != "video"@ ==> o.cfg.PayloadType == 111 && o.cfg.PaddingMax == 24)
            &&& valid_payload_type(o.cfg.PayloadType) && o.cfg.PaddingMax <= 255
        },
{
    assert(96u8 & 0x7f == 96) by (bit_vector);
    assert(111u8 & 0x7f == 111) by (bit_vector);
    if params.WrapKey.len() == wrapKeyLen {
        Some(RelayObfs {
            key: params.WrapKey.clone(),
            cfg: NewObfsConfig(params.ObfsMode.as_str()),
            state: NewObfsState(),
        })
    } else {
        None
    }
}

/// What a relay connection does with a datagram it received.
#[derive(Debug, Clone, Copy, PartialEq, Eq)]
pub enum RelayRecv {
    /// Hand these many bytes at the front of the buffer to DTLS.
    Deliver(usize),
    /// Drop the datagram and wait for the next.
    Skip,
    /// Fail: the datagram does not fit the buffer.
    TooBig,
}

/// Handles a received datagram: with obfuscation, a datagram that unwraps
/// into the buffer is delivered and any other is dropped; without, the
/// datagram is copied as it is, or refused when it does not fit.
pub fn relayRecvStep(obfs: &Option<RelayObfs>, wire: &[u8], dst: &mut [u8]) -> (r: RelayRecv)
    ensures
        match obfs {
            Some(o) => match unwrap_spec(o.key@, wire@) {
                Ok(p) => if p.len() <= old(dst)@.len() {
                    r == RelayRecv::Deliver(p.len() as usize) && final(dst)@ == p + old(dst)@.skip(p.len() as int)
                } else {
                    r == RelayRecv::Skip && final(dst)@ == old(dst)@
                },
                Err(_) => r == RelayRecv::Skip && final(dst)@ == old(dst)@,
            },
            None => if wire@.len() > old(dst)@.len() {
                r == RelayRecv::TooBig && final(dst)@ == old(dst)@
            } else {
                r == RelayRecv::Deliver(wire@.len() as usize) && final(dst)@ == wire@ + old(dst)@.skip(
                    wire@.len() as int,
                )
            },
        },
        obfs matches Some(o) ==> forall|m: Seq<u8>|
            #[trigger] is_obfs_packet_for(o.key@, wire@, m) && m.len() <= old(dst)@.len() ==> r == RelayRecv::Deliver(
                m.len() as usize,
            ) && final(dst)@.take(m.len() as int) == m,
{
    match obfs {
        Some(o) => match obfsUnwrapPacket(o.key.as_slice(), wire, dst) {
            Ok(n) => RelayRecv::Deliver(n),
            Err(_) => RelayRecv::Skip,
        },
        None => {
            if wire.len() > dst.len() {
                return RelayRecv::TooBig;
            }
            let ghost d0 = dst@;
            let mut i: usize = 0;
            while i < wire.len()
                invariant
                    i <= wire@.len() <= dst@.len(),
                    dst@.len() == d0.len(),
                    forall|j: int| 0 <= j < i ==> dst@[j] == wire@[j],
                    forall|j: int| wire@.len() <= j < dst@.len() ==> dst@[j] == d0[j],
                decreases wire@.len() - i,
            {
                dst[i] = wire[i];
                i = i + 1;
            }
            assert(dst@ =~= wire@ + d0.skip(wire@.len() as int));
            RelayRecv::Deliver(wire.len())
        },
    }
}

/// The datagram a relay connection sends for `data`: wrapped with the
/// connection's obfuscation when it has one, else `data` itself.
pub fn relayWire(obfs: &mut Option<RelayObfs>, data: &[u8]) -> (r: Result<Vec<u8>, ObfsError>)
    requires
        data@.len() > 0 ==> (*old(obfs) matches Some(o) ==> o.state.spec_count() < u64::MAX),
    ensures
        *old(obfs) is None ==> (r matches Ok(w) && w@ == data@) && *final(obfs) is None,
        *old(obfs) matches Some(o) ==> (*final(obfs) matches Some(f) && f.key@ == o.key@ && f.cfg == o.cfg),
        *old(obfs) matches Some(o) ==> (data@.len() == 0 <==> r == Err::<Vec<u8>, ObfsError>(ObfsError::EmptyPayload)),
        *old(obfs) matches Some(o) ==> (data@.len() > 0 ==> (*final(obfs) matches Some(f) && f.state.spec_count()
            == o.state.spec_count() + 1)),
        *old(obfs) matches Some(o) ==> (data@.len() > 0 && o.key@.len() == wrapKeyLen && data@.len() < aead_max_len()
            ==> r is Ok),
        *old(obfs) matches Some(o) ==> (r matches Ok(w) ==> (o.cfg.PaddingMax <= 255 && valid_payload_type(
            o.cfg.PayloadType,
        ) ==> is_obfs_packet_for(o.key@, w@, data@))),
{
    match obfs {
        Some(o) => obfsWrapPacket(o.key.as_slice(), data, &o.cfg, &mut o.state),
        None => {
            let mut v: Vec<u8> = Vec::new();
            crate::bytes::append_bytes(&mut v, data);
            Ok(v)
        },
    }
}

/// The request for the WireGuard configuration: `GETCONF:` followed by the
/// local port, the device id and the password, separated by `|`.
pub open spec fn config_request(local_port: Seq<char>, device_id: Seq<char>, password: Seq<char>) -> Seq<char> {
    "GETCONF:"@ + local_port + "|"@ + device_id + "|"@ + password
}

/// The request for the WireGuard configuration.
pub fn configRequestPayload(local_port: &str, device_id: &str, password: &str) -> (r: String)
    ensures
        r@ == config_request(local_port@, device_id@, password@),
{
    let mut v = chars_of("GETCONF:");
    push_str(&mut v, local_port);
    push_str(&mut v, "|");
    push_str(&mut v, device_id);
    push_str(&mut v, "|");
    push_str(&mut v, password);
    string_of(v.as_slice())
}

/// What the answer to a configuration request means.
#[derive(Debug, Clone)]
pub enum ConfigReply {
    /// The server refused the password: the session fails with this
    /// message, and the credentials are dropped from the cache.
    Denied(String),
    /// The server has no configuration to give.
    NoConfig,
    /// The configuration.
    Config(String),
}

/// The meaning of an answer: one starting with `DENIED:` refuses, `NOCONF`
/// gives nothing, anything else is the configuration.
pub fn configReplyOf(response: &str) -> (r: ConfigReply)
    ensures
        "DENIED:"@.is_prefix_of(response@) ==> (r matches ConfigReply::Denied(m) && m@ == "FATAL_AUTH: "@
            + response@),
        !"DENIED:"@.is_prefix_of(response@) && response@ == "NOCONF"@ ==> r is NoConfig,
        !"DENIED:"@.is_prefix_of(response@) && response@ != "NOCONF"@ ==> (r matches ConfigReply::Config(c)
            && c@ == response@),
{
    let s = chars_of(response);
    let d = chars_of("DENIED:");
    if starts_with_chars(s.as_slice(), d.as_slice()) {
        let mut m = chars_of("FATAL_AUTH: ");
        push_str(&mut m, response);
        return ConfigReply::Denied(string_of(m.as_slice()));
    }
    if str_eq(response, "NOCONF") {
        ConfigReply::NoConfig
    } else {
        ConfigReply::Config(String::from_str(response))
    }
}

} // verus!
