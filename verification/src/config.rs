//! Rewriting of the WireGuard configuration handed out by the server so
//! that traffic goes through the local relay.

use crate::text::{append_chars, chars_eq, chars_of, contains_chars, contains_seq, lines, lines_of, starts_with_chars, string_of, trim, trim_chars};
use vstd::prelude::*;

verus! {

/// The `AllowedIPs` line that routes everything except VK's address ranges
/// through the tunnel.
pub const VK_EXCLUDED_IPS: &'static str = "AllowedIPs = 0.0.0.0/6, 4.0.0.0/8, 5.0.0.0/11, 5.32.0.0/12, 5.48.0.0/13, 5.56.0.0/14, 5.60.0.0/16, 5.61.0.0/20, 5.61.24.0/21, 5.61.32.0/19, 5.61.64.0/18, 5.61.128.0/18, 5.61.192.0/19, 5.61.224.0/21, 5.61.240.0/20, 5.62.0.0/15, 5.64.0.0/11, 5.96.0.0/14, 5.100.0.0/16, 5.101.0.0/19, 5.101.32.0/21, 5.101.44.0/22, 5.101.48.0/20, 5.101.64.0/18, 5.101.128.0/17, 5.102.0.0/15, 5.104.0.0/13, 5.112.0.0/12, 5.128.0.0/11, 5.160.0.0/12, 5.176.0.0/14, 5.180.0.0/16, 5.181.0.0/19, 5.181.32.0/20, 5.181.48.0/21, 5.181.56.0/22, 5.181.64.0/18, 5.181.128.0/17, 5.182.0.0/15, 5.184.0.0/14, 5.188.0.0/17, 5.188.128.0/21, 5.188.136.0/22, 5.188.144.0/20, 5.188.160.0/19, 5.188.192.0/18, 5.189.0.0/16, 5.190.0.0/15, 5.192.0.0/10";

/// The interface MTU line that the rewritten configuration carries.
pub const MTU_LINE: &'static str = "MTU = 1280";

/// The peer endpoint of the local relay.
pub const LOCAL_ENDPOINT_LINE: &'static str = "Endpoint = 127.0.0.1:9000";

/// Header of the interface section.
pub const INTERFACE_HEADER: &'static str = "[Interface]";

/// Header of the peer section.
pub const PEER_HEADER: &'static str = "[Peer]";

/// A line break.
pub open spec fn nl() -> Seq<char> {
    seq!['\n']
}

/// State of the line-by-line rewrite: the text written so far, the section
/// being read, and which settings were met.
pub struct CfgScan {
    pub out: Seq<char>,
    pub in_interface: bool,
    pub in_peer: bool,
    pub has_mtu: bool,
    pub has_allowed_ips: bool,
    pub has_endpoint: bool,
}

/// The state before the first line.
pub open spec fn scan_start() -> CfgScan {
    CfgScan {
        out: Seq::empty(),
        in_interface: false,
        in_peer: false,
        has_mtu: false,
        has_allowed_ips: false,
        has_endpoint: false,
    }
}

/// One line of the rewrite. Section headers switch the section; an interface
/// `MTU` line becomes `MTU = 1280`; a peer `AllowedIPs` line becomes the VK
/// exclusion list; a peer `Endpoint` line is dropped, or, when
/// `rewrite_endpoint` holds, becomes the local endpoint. Other lines are kept.
pub open spec fn scan_step(st: CfgScan, line: Seq<char>, rewrite_endpoint: bool) -> CfgScan {
    let t = trim(line);
    if t == INTERFACE_HEADER@ {
        CfgScan { out: st.out + line + nl(), in_interface: true, in_peer: false, ..st }
    } else if t == PEER_HEADER@ {
        CfgScan { out: st.out + line + nl(), in_interface: false, in_peer: true, ..st }
    } else if st.in_interface && "MTU ="@.is_prefix_of(t) {
        CfgScan { out: st.out + MTU_LINE@ + nl(), has_mtu: true, ..st }
    } else if st.in_peer && "AllowedIPs ="@.is_prefix_of(t) {
        CfgScan { out: st.out + VK_EXCLUDED_IPS@ + nl(), has_allowed_ips: true, ..st }
    } else if st.in_peer && "Endpoint ="@.is_prefix_of(t) {
        if rewrite_endpoint {
            CfgScan { out: st.out + LOCAL_ENDPOINT_LINE@ + nl(), has_endpoint: true, ..st }
        } else {
            st
        }
    } else {
        CfgScan { out: st.out + line + nl(), ..st }
    }
}

/// The rewrite of a sequence of lines.
pub open spec fn scan_lines(ls: Seq<Seq<char>>, rewrite_endpoint: bool) -> CfgScan
    decreases ls.len(),
{
    if ls.len() == 0 {
        scan_start()
    } else {
        scan_step(scan_lines(ls.drop_last(), rewrite_endpoint), ls.last(), rewrite_endpoint)
    }
}

/// The lines joined, each followed by a line break, with `extra` and a line
/// break inserted after every line that trims to `marker`.
pub open spec fn insert_after_all(ls: Seq<Seq<char>>, marker: Seq<char>, extra: Seq<char>) -> Seq<char>
    decreases ls.len(),
{
    if ls.len() == 0 {
        Seq::empty()
    } else {
        insert_after_all(ls.drop_last(), marker, extra) + ls.last() + nl() + if trim(ls.last()) == marker {
            extra + nl()
        } else {
            Seq::empty()
        }
    }
}

/// Whether some line trims to `marker`.
pub open spec fn has_marker(ls: Seq<Seq<char>>, marker: Seq<char>) -> bool {
    exists|k: int| 0 <= k < ls.len() && trim(#[trigger] ls[k]) == marker
}

/// The lines joined, each followed by a line break, with `extra` and a line
/// break inserted after the first line that trims to `marker`.
pub open spec fn insert_after_first(ls: Seq<Seq<char>>, marker: Seq<char>, extra: Seq<char>) -> Seq<char>
    decreases ls.len(),
{
    if ls.len() == 0 {
        Seq::empty()
    } else {
        let prev = ls.drop_last();
        insert_after_first(prev, marker, extra) + ls.last() + nl() + if trim(ls.last()) == marker
            && !has_marker(prev, marker) {
            extra + nl()
        } else {
            Seq::empty()
        }
    }
}

/// What `process_wireguard_config` makes of a configuration: the line rewrite
/// (dropping peer endpoints), then `MTU = 1280` after each interface header
/// when no MTU line was met, the VK exclusion list after each peer header when
/// no `AllowedIPs` line was met, and the local endpoint after each peer header
/// when the text does not hold it yet.
pub open spec fn processed_config(raw: Seq<char>) -> Seq<char> {
    let sc = scan_lines(lines(raw), false);
    let t2 = if !sc.has_mtu {
        insert_after_all(lines(sc.out), INTERFACE_HEADER@, MTU_LINE@)
    } else {
        sc.out
    };
    let t3 = if !sc.has_allowed_ips {
        insert_after_all(lines(t2), PEER_HEADER@, VK_EXCLUDED_IPS@)
    } else {
        t2
    };
    if !contains_seq(t3, LOCAL_ENDPOINT_LINE@) {
        insert_after_all(lines(t3), PEER_HEADER@, LOCAL_ENDPOINT_LINE@)
    } else {
        t3
    }
}

/// What the client writes to its configuration file: the line rewrite
/// (peer endpoints become the local endpoint), then `MTU = 1280` after each
/// interface header when no MTU line was met, and the local endpoint after the
/// first peer header when no peer endpoint was met.
pub open spec fn file_config(raw: Seq<char>) -> Seq<char> {
    let sc = scan_lines(lines(raw), true);
    let t2 = if !sc.has_mtu {
        insert_after_all(lines(sc.out), INTERFACE_HEADER@, MTU_LINE@)
    } else {
        sc.out
    };
    if !sc.has_endpoint {
        insert_after_first(lines(t2), PEER_HEADER@, LOCAL_ENDPOINT_LINE@)
    } else {
        t2
    }
}

/// The constant pieces of text the rewrite works with.
struct CfgWords {
    interface: Vec<char>,
    peer: Vec<char>,
    mtu_prefix: Vec<char>,
    allowed_prefix: Vec<char>,
    endpoint_prefix: Vec<char>,
    mtu_line: Vec<char>,
    allowed_line: Vec<char>,
    endpoint_line: Vec<char>,
}

impl CfgWords {
    spec fn wf(&self) -> bool {
        &&& self.interface@ == INTERFACE_HEADER@
        &&& self.peer@ == PEER_HEADER@
        &&& self.mtu_prefix@ == "MTU ="@
        &&& self.allowed_prefix@ == "AllowedIPs ="@
        &&& self.endpoint_prefix@ == "Endpoint ="@
        &&& self.mtu_line@ == MTU_LINE@
        &&& self.allowed_line@ == VK_EXCLUDED_IPS@
        &&& self.endpoint_line@ == LOCAL_ENDPOINT_LINE@
    }

    fn new() -> (w: CfgWords)
        ensures
            w.wf(),
    {
        CfgWords {
            interface: chars_of(INTERFACE_HEADER),
            peer: chars_of(PEER_HEADER),
            mtu_prefix: chars_of("MTU ="),
            allowed_prefix: chars_of("AllowedIPs ="),
            endpoint_prefix: chars_of("Endpoint ="),
            mtu_line: chars_of(MTU_LINE),
            allowed_line: chars_of(VK_EXCLUDED_IPS),
            endpoint_line: chars_of(LOCAL_ENDPOINT_LINE),
        }
    }
}

/// Appends a line and a line break.
fn push_line(out: &mut Vec<char>, line: &[char])
    ensures
        final(out)@ == old(out)@ + line@ + nl(),
{
    append_chars(out, line);
    out.push('\n');
}

/// The line rewrite of `scan_lines`.
fn scan_config(ls: &Vec<Vec<char>>, rewrite_endpoint: bool, w: &CfgWords) -> (r: (Vec<char>, bool, bool, bool))
    requires
        w.wf(),
    ensures
        ({
            let sc = scan_lines(ls@.map_values(|x: Vec<char>| x@), rewrite_endpoint);
            r.0@ == sc.out && r.1 == sc.has_mtu && r.2 == sc.has_allowed_ips && r.3 == sc.has_endpoint
        }),
{
    let ghost lsv = ls@.map_values(|x: Vec<char>| x@);
    let mut out: Vec<char> = Vec::new();
    let mut in_interface = false;
    let mut in_peer = false;
    let mut has_mtu = false;
    let mut has_aips = false;
    let mut has_endpoint = false;
    let mut i: usize = 0;
    assert(lsv.take(0) =~= Seq::<Seq<char>>::empty());
    while i < ls.len()
        invariant
            w.wf(),
            lsv == ls@.map_values(|x: Vec<char>| x@),
            i <= ls@.len(),
            scan_lines(lsv.take(i as int), rewrite_endpoint) == (CfgScan {
                out: out@,
                in_interface,
                in_peer,
                has_mtu,
                has_allowed_ips: has_aips,
                has_endpoint,
            }),
        decreases ls@.len() - i,
    {
        let line = ls[i].as_slice();
        assert(lsv.take(i + 1).drop_last() =~= lsv.take(i as int));
        assert(lsv.take(i + 1).last() == line@);
        let t = trim_chars(line);
        if chars_eq(t.as_slice(), w.interface.as_slice()) {
            push_line(&mut out, line);
            in_interface = true;
            in_peer = false;
        } else if chars_eq(t.as_slice(), w.peer.as_slice()) {
            push_line(&mut out, line);
            in_interface = false;
            in_peer = true;
        } else if in_interface && starts_with_chars(t.as_slice(), w.mtu_prefix.as_slice()) {
            has_mtu = true;
            push_line(&mut out, w.mtu_line.as_slice());
        } else if in_peer && starts_with_chars(t.as_slice(), w.allowed_prefix.as_slice()) {
            has_aips = true;
            push_line(&mut out, w.allowed_line.as_slice());
        } else if in_peer && starts_with_chars(t.as_slice(), w.endpoint_prefix.as_slice()) {
            if rewrite_endpoint {
                has_endpoint = true;
                push_line(&mut out, w.endpoint_line.as_slice());
            }
        } else {
            push_line(&mut out, line);
        }
        i = i + 1;
    }
    assert(lsv.take(ls@.len() as int) =~= lsv);
    (out, has_mtu, has_aips, has_endpoint)
}

/// `insert_after_all` over the lines of `text`.
fn insert_after_each(text: &[char], marker: &[char], extra: &[char]) -> (r: Vec<char>)
    ensures
        r@ == insert_after_all(lines(text@), marker@, extra@),
{
    let ls = lines_of(text);
    let ghost lsv = ls@.map_values(|x: Vec<char>| x@);
    let mut out: Vec<char> = Vec::new();
    let mut i: usize = 0;
    assert(lsv.take(0) =~= Seq::<Seq<char>>::empty());
    while i < ls.len()
        invariant
            lsv == ls@.map_values(|x: Vec<char>| x@),
            i <= ls@.len(),
            out@ == insert_after_all(lsv.take(i as int), marker@, extra@),
        decreases ls@.len() - i,
    {
        let line = ls[i].as_slice();
        assert(lsv.take(i + 1).drop_last() =~= lsv.take(i as int));
        assert(lsv.take(i + 1).last() == line@);
        push_line(&mut out, line);
        let t = trim_chars(line);
        if chars_eq(t.as_slice(), marker) {
            push_line(&mut out, extra);
        } else {
            assert(out@ =~= out@ + Seq::<char>::empty());
        }
        i = i + 1;
    }
    assert(lsv.take(ls@.len() as int) =~= lsv);
    out
}

/// `insert_after_first` over the lines of `text`.
fn insert_after_first_marker(text: &[char], marker: &[char], extra: &[char]) -> (r: Vec<char>)
    ensures
        r@ == insert_after_first(lines(text@), marker@, extra@),
{
    let ls = lines_of(text);
    let ghost lsv = ls@.map_values(|x: Vec<char>| x@);
    let mut out: Vec<char> = Vec::new();
    let mut found = false;
    let mut i: usize = 0;
    assert(lsv.take(0) =~= Seq::<Seq<char>>::empty());
    while i < ls.len()
        invariant
            lsv == ls@.map_values(|x: Vec<char>| x@),
            i <= ls@.len(),
            out@ == insert_after_first(lsv.take(i as int), marker@, extra@),
            found == has_marker(lsv.take(i as int), marker@),
        decreases ls@.len() - i,
    {
        let line = ls[i].as_slice();
        let ghost prev = lsv.take(i as int);
        assert(lsv.take(i + 1).drop_last() =~= prev);
        assert(lsv.take(i + 1).last() == line@);
        push_line(&mut out, line);
        let t = trim_chars(line);
        let hit = chars_eq(t.as_slice(), marker);
        if hit && !found {
            push_line(&mut out, extra);
        } else {
            assert(out@ =~= out@ + Seq::<char>::empty());
        }
        proof {
            let next = lsv.take(i + 1);
            if hit {
                assert(trim(next[i as int]) == marker@);
                assert(has_marker(next, marker@));
            } else if found {
                let k = choose|k: int| 0 <= k < prev.len() && trim(#[trigger] prev[k]) == marker@;
                assert(next[k] == prev[k]);
                assert(has_marker(next, marker@));
            } else {
                assert forall|k: int| 0 <= k < next.len() implies trim(#[trigger] next[k]) != marker@ by {
                    if k < prev.len() {
                        assert(next[k] == prev[k]);
                    }
                }
            }
        }
        found = found || hit;
        i = i + 1;
    }
    assert(lsv.take(ls@.len() as int) =~= lsv);
    out
}

/// Rewrites a WireGuard configuration for the local relay: `MTU = 1280` in the
/// interface, the VK exclusion list as the peer's `AllowedIPs`, and
/// `Endpoint = 127.0.0.1:9000` as the peer's endpoint (see
/// `processed_config`). The rewrite always succeeds.
pub fn process_wireguard_config(raw_config: &str) -> (r: Result<String, ()>)
    ensures
        r matches Ok(s) && s@ == processed_config(raw_config@),
{
    let w = CfgWords::new();
    let raw = chars_of(raw_config);
    let ls = lines_of(raw.as_slice());
    let (t1, has_mtu, has_aips, _has_endpoint) = scan_config(&ls, false, &w);
    let t2 = if !has_mtu {
        insert_after_each(t1.as_slice(), w.interface.as_slice(), w.mtu_line.as_slice())
    } else {
        t1
    };
    let t3 = if !has_aips {
        insert_after_each(t2.as_slice(), w.peer.as_slice(), w.allowed_line.as_slice())
    } else {
        t2
    };
    let t4 = if !contains_chars(t3.as_slice(), w.endpoint_line.as_slice()) {
        insert_after_each(t3.as_slice(), w.peer.as_slice(), w.endpoint_line.as_slice())
    } else {
        t3
    };
    Ok(string_of(t4.as_slice()))
}

/// The text the client saves as its configuration file (see `file_config`).
pub fn config_file_contents(config: &str) -> (r: String)
    ensures
        r@ == file_config(config@),
{
    let w = CfgWords::new();
    let raw = chars_of(config);
    let ls = lines_of(raw.as_slice());
    let (t1, has_mtu, _has_aips, has_endpoint) = scan_config(&ls, true, &w);
    let t2 = if !has_mtu {
        insert_after_each(t1.as_slice(), w.interface.as_slice(), w.mtu_line.as_slice())
    } else {
        t1
    };
    let t3 = if !has_endpoint {
        insert_after_first_marker(t2.as_slice(), w.peer.as_slice(), w.endpoint_line.as_slice())
    } else {
        t2
    };
    string_of(t3.as_slice())
}

} // verus!
