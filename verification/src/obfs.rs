//! Wrapping of relayed datagrams as RTP packets sealed with ChaCha20-Poly1305.
//!
//! A wrapped packet is a 12-byte RTP header (version 2, the configured payload
//! type, a sequence number and a timestamp that advance with each packet, and
//! the SSRC), the AEAD ciphertext of the payload with the header as associated
//! data, and random padding whose length is carried by the last byte.

use crate::bytes::{append_bytes, be16, be32, from_be16, from_be32, lemma_be16_roundtrip, lemma_be32_roundtrip};
use crate::outside::{aead_max_len, aead_open, aead_seal, chacha20poly1305_open, chacha20poly1305_seal, opt_bytes, random_below, random_u16, random_u32, random_u8};
use crate::text::str_eq;
use crate::wrap::wrapKeyLen;
use vstd::prelude::*;

verus! {

/// How packets of one relay are framed.
pub struct ObfsConfig {
    pub SSRC: u32,
    pub PayloadType: u8,
    pub PaddingMax: usize,
}

/// Per-relay packet counter with the random starting points of the RTP
/// sequence number and timestamp.
pub struct ObfsState {
    initSeq: u16,
    initTs: u32,
    count: u64,
}

impl ObfsState {
    /// The sequence number of the first packet.
    pub closed spec fn spec_init_seq(&self) -> u16 {
        self.initSeq
    }

    /// The timestamp of the first packet.
    pub closed spec fn spec_init_ts(&self) -> u32 {
        self.initTs
    }

    /// How many packets have been wrapped.
    pub closed spec fn spec_count(&self) -> u64 {
        self.count
    }

    /// How many packets have been wrapped.
    pub fn packets(&self) -> (r: u64)
        ensures
            r == self.spec_count(),
    {
        self.count
    }
}

/// Why a packet could not be wrapped or unwrapped.
#[derive(Debug, Clone, Copy, PartialEq, Eq)]
pub enum ObfsError {
    EmptyPayload,
    KeyLength,
    Auth,
    NotRtp,
    InvalidPadding,
    DstTooSmall,
}

impl ObfsError {
    /// The message of the error.
    pub fn to_string(&self) -> (s: String)
        ensures
            *self == ObfsError::EmptyPayload ==> s@ == "obfs: empty payload"@,
            *self == ObfsError::KeyLength ==> s@ == "obfs: key must be 32 bytes"@,
            *self == ObfsError::Auth ==> s@ == "obfs: auth"@,
            *self == ObfsError::NotRtp ==> s@ == "obfs: not RTP v2"@,
            *self == ObfsError::InvalidPadding ==> s@ == "obfs: invalid padding"@,
            *self == ObfsError::DstTooSmall ==> s@ == "obfs: dst buffer too small"@,
    {
        match self {
            ObfsError::EmptyPayload => String::from_str("obfs: empty payload"),
            ObfsError::KeyLength => String::from_str("obfs: key must be 32 bytes"),
            ObfsError::Auth => String::from_str("obfs: auth"),
            ObfsError::NotRtp => String::from_str("obfs: not RTP v2"),
            ObfsError::InvalidPadding => String::from_str("obfs: invalid padding"),
            ObfsError::DstTooSmall => String::from_str("obfs: dst buffer too small"),
        }
    }
}

/// The configuration for a mode: "video" packets use payload type 96 and up to
/// 60 bytes of padding, every other mode payload type 111 and up to 24 bytes.
/// The SSRC is random.
pub fn NewObfsConfig(mode: &str) -> (c: ObfsConfig)
    ensures
        mode@ == "video"@ ==> c.PayloadType == 96 && c.PaddingMax == 60,
        mode@ != "video"@ ==> c.PayloadType == 111 && c.PaddingMax == 24,
{
    let video = str_eq(mode, "video");
    let (pt, pm): (u8, usize) = if video {
        (96, 60)
    } else {
        (111, 24)
    };
    ObfsConfig { SSRC: random_u32(), PayloadType: pt, PaddingMax: pm }
}

/// A fresh counter with random starting sequence number and timestamp.
pub fn NewObfsState() -> (s: ObfsState)
    ensures
        s.spec_count() == 0,
{
    ObfsState { initSeq: random_u16(), initTs: random_u32(), count: 0 }
}

/// RTP sequence number of packet `c` of a relay.
pub open spec fn rtp_seq(init_seq: u16, c: u64) -> u16 {
    init_seq.wrapping_add(#[verifier::truncate] (c as u16))
}

/// RTP timestamp of packet `c` of a relay: 960 ticks per packet, plus one per
/// 65536 packets.
pub open spec fn rtp_ts(init_ts: u32, c: u64) -> u32 {
    init_ts.wrapping_add((#[verifier::truncate] (c as u32)).wrapping_mul(960)).wrapping_add(
        #[verifier::truncate] ((c >> 16u64) as u32),
    )
}

/// The AEAD nonce of a packet: SSRC, sequence number, two zero bytes and
/// timestamp, big-endian.
pub open spec fn obfs_nonce(ssrc: u32, seq: u16, ts: u32) -> Seq<u8> {
    be32(ssrc) + be16(seq) + seq![0u8, 0u8] + be32(ts) 
}

/// The RTP header of a packet: version 2, no padding/extension/CSRC, marker
/// clear.
pub open spec fn rtp_header(ptype: u8, seq: u16, ts: u32, ssrc: u32) -> Seq<u8> {
    seq![0xa0u8, ptype & 0x7f] + be16(seq) + be32(ts) + be32(ssrc)
}

/// A packet on the wire: header, sealed payload, the filler bytes, and the
/// padding length (filler plus the length byte itself) as the last byte.
pub open spec fn obfs_wire(key: Seq<u8>, m: Seq<u8>, ptype: u8, ssrc: u32, seq: u16, ts: u32, fill: Seq<u8>) -> Seq<u8> {
    let h = rtp_header(ptype, seq, ts, ssrc);
    h + chacha20poly1305_seal(key, obfs_nonce(ssrc, seq, ts), m, h) + fill + seq![(fill.len() + 1) as u8]
}

/// Payload types that `obfsIsRTPPacket` recognises.
pub open spec fn valid_payload_type(ptype: u8) -> bool {
    ptype & 0x7f == 96 || ptype & 0x7f == 111
}

/// `wire` is a packet wrapped from `m` under `key` that can be told apart from
/// other traffic and whose padding length fits in its last byte.
pub open spec fn is_obfs_packet_for(key: Seq<u8>, wire: Seq<u8>, m: Seq<u8>) -> bool {
    exists|ptype: u8, ssrc: u32, seq: u16, ts: u32, fill: Seq<u8>|
        #![trigger obfs_wire(key, m, ptype, ssrc, seq, ts, fill)]
        key.len() == wrapKeyLen && valid_payload_type(ptype) && fill.len() < 255 && m.len() < aead_max_len()
            && wire == obfs_wire(key, m, ptype, ssrc, seq, ts, fill)
}

/// The most padding a packet can carry: `PaddingMax`, or one byte when it is 0.
pub open spec fn padding_limit(padding_max: usize) -> int {
    if padding_max == 0 { 1 } else { padding_max as int }
}

/// Whether `wire` looks like one of our RTP packets.
pub open spec fn is_rtp(wire: Seq<u8>) -> bool {
    wire.len() >= 13 && wire[0] >> 6u8 == 2 && (wire[1] & 0x7f == 111 || wire[1] & 0x7f == 96)
}

/// The nonce of a packet.
pub fn obfsBuildNonce(ssrc: u32, seq: u16, ts: u32) -> (n: [u8; 12])
    ensures
        n@ == obfs_nonce(ssrc, seq, ts),
{
    let n: [u8; 12] = [
        (ssrc / 0x100_0000) as u8,
        ((ssrc / 0x1_0000) % 256) as u8,
        ((ssrc / 256) % 256) as u8,
        (ssrc % 256) as u8,
        (seq / 256) as u8,
        (seq % 256) as u8,
        0,
        0,
        (ts / 0x100_0000) as u8,
        ((ts / 0x1_0000) % 256) as u8,
        ((ts / 256) % 256) as u8,
        (ts % 256) as u8,
    ];
    assert(n@ =~= obfs_nonce(ssrc, seq, ts));
    n
}

/// Whether `wire` is at least 13 bytes long, carries RTP version 2, and has
/// one of the payload types 111 or 96.
pub fn obfsIsRTPPacket(wire: &[u8]) -> (r: bool)
    ensures
        r == is_rtp(wire@),
{
    wire.len() >= 13 && wire[0] >> 6 == 2 && (wire[1] & 0x7f == 111 || wire[1] & 0x7f == 96)
}

/// A wire image built with padding that fits in a byte is a packet for its
/// payload.
proof fn lemma_wire_is_packet(key: Seq<u8>, m: Seq<u8>, ptype: u8, ssrc: u32, seq: u16, ts: u32, fill: Seq<u8>, padding_max: usize)
    requires
        key.len() == wrapKeyLen,
        m.len() < aead_max_len(),
        fill.len() < padding_limit(padding_max),
    ensures
        padding_max <= 255 && valid_payload_type(ptype) ==> is_obfs_packet_for(key, obfs_wire(key, m, ptype, ssrc, seq, ts, fill), m),
{
    if padding_max <= 255 && valid_payload_type(ptype) {
        assert(fill.len() < 255);
        let w = obfs_wire(key, m, ptype, ssrc, seq, ts, fill);
        assert(w == obfs_wire(key, m, ptype, ssrc, seq, ts, fill));
    }
}

/// The RTP header of a packet.
fn build_rtp_header(ptype: u8, seq: u16, ts: u32, ssrc: u32) -> (h: [u8; 12])
    ensures
        h@ == rtp_header(ptype, seq, ts, ssrc),
{
    let h: [u8; 12] = [
        0xa0,
        ptype & 0x7f,
        (seq / 256) as u8,
        (seq % 256) as u8,
        (ts / 0x100_0000) as u8,
        ((ts / 0x1_0000) % 256) as u8,
        ((ts / 256) % 256) as u8,
        (ts % 256) as u8,
        (ssrc / 0x100_0000) as u8,
        ((ssrc / 0x1_0000) % 256) as u8,
        ((ssrc / 256) % 256) as u8,
        (ssrc % 256) as u8,
    ];
    assert(h@ =~= rtp_header(ptype, seq, ts, ssrc));
    h
}

/// Wraps one payload: takes the next packet number from `state`, builds the
/// RTP header, seals the payload under `key` with the header as associated
/// data, and appends 1 to `PaddingMax` bytes of random padding (one byte when
/// `PaddingMax` is 0) whose last byte holds the padding length.
pub fn obfsWrapPacket(key: &[u8], payload: &[u8], cfg: &ObfsConfig, state: &mut ObfsState) -> (r: Result<Vec<u8>, ObfsError>)
    requires
        payload@.len() > 0 ==> old(state).spec_count() < u64::MAX,
    ensures
        payload@.len() == 0 ==> r == Err::<Vec<u8>, ObfsError>(ObfsError::EmptyPayload) && *final(state) == *old(state),
        payload@.len() > 0 ==> {
            &&& final(state).spec_init_seq() == old(state).spec_init_seq()
            &&& final(state).spec_init_ts() == old(state).spec_init_ts()
            &&& final(state).spec_count() == old(state).spec_count() + 1
        },
        payload@.len() > 0 && key@.len() != wrapKeyLen ==> r == Err::<Vec<u8>, ObfsError>(ObfsError::KeyLength),
        payload@.len() > 0 && key@.len() == wrapKeyLen && payload@.len() >= aead_max_len()
            ==> r == Err::<Vec<u8>, ObfsError>(ObfsError::Auth),
        payload@.len() > 0 && key@.len() == wrapKeyLen && payload@.len() < aead_max_len() ==> r is Ok,
        r matches Ok(out) ==> exists|fill: Seq<u8>|
            fill.len() < padding_limit(cfg.PaddingMax) && out@ == #[trigger] obfs_wire(
                key@,
                payload@,
                cfg.PayloadType,
                cfg.SSRC,
                rtp_seq(old(state).spec_init_seq(), old(state).spec_count()),
                rtp_ts(old(state).spec_init_ts(), old(state).spec_count()),
                fill,
            ),
        r matches Ok(out) ==> (cfg.PaddingMax <= 255 && valid_payload_type(cfg.PayloadType)
            ==> is_obfs_packet_for(key@, out@, payload@)),
{
    if payload.len() == 0 {
        return Err(ObfsError::EmptyPayload);
    }
    let c = state.count;
    state.count = c + 1;
    let seq = state.initSeq.wrapping_add(#[verifier::truncate] (c as u16));
    let ts = state.initTs.wrapping_add((#[verifier::truncate] (c as u32)).wrapping_mul(960)).wrapping_add(
        #[verifier::truncate] ((c >> 16u64) as u32),
    );
    let ssrc = cfg.SSRC;
    let header = build_rtp_header(cfg.PayloadType, seq, ts, ssrc);
    if key.len() != wrapKeyLen {
        return Err(ObfsError::KeyLength);
    }
    let nonce = obfsBuildNonce(ssrc, seq, ts);
    let sealed = match aead_seal(key, nonce.as_slice(), payload, header.as_slice()) {
        Some(s) => s,
        None => return Err(ObfsError::Auth),
    };
    let pad: usize = if cfg.PaddingMax == 0 {
        1
    } else {
        random_below(cfg.PaddingMax) + 1
    };
    let mut out: Vec<u8> = Vec::new();
    append_bytes(&mut out, header.as_slice());
    append_bytes(&mut out, sealed.as_slice());
    let ghost body = out@;
    let ghost mut fill: Seq<u8> = Seq::empty();
    let mut i: usize = 1;
    while i < pad
        invariant
            1 <= i <= pad,
            fill.len() == i - 1,
            out@ == body + fill,
        decreases pad - i,
    {
        let b = random_u8();
        out.push(b);
        proof {
            fill = fill.push(b);
        }
        i = i + 1;
    }
    out.push(pad as u8);
    proof {
        let w = obfs_wire(key@, payload@, cfg.PayloadType, ssrc, seq, ts, fill);
        assert(out@ =~= w);
        lemma_wire_is_packet(key@, payload@, cfg.PayloadType, ssrc, seq, ts, fill, cfg.PaddingMax);
        assert(fill.len() < padding_limit(cfg.PaddingMax));
        assert(seq == rtp_seq(old(state).spec_init_seq(), old(state).spec_count()));
        assert(ts == rtp_ts(old(state).spec_init_ts(), old(state).spec_count()));
    }
    Ok(out)
}

/// The framing fields of a wrapped packet read back as they were written.
proof fn lemma_wrapped_fields(key: Seq<u8>, wire: Seq<u8>, m: Seq<u8>)
    requires
        is_obfs_packet_for(key, wire, m),
    ensures
        is_rtp(wire),
        key.len() == wrapKeyLen,
        m.len() < aead_max_len(),
        ({
            let pad = wire[wire.len() - 1] as int;
            &&& pad != 0
            &&& pad <= wire.len() - 12
            &&& wire.subrange(12, wire.len() - pad) == chacha20poly1305_seal(
                key,
                obfs_nonce(
                    from_be32(wire[8], wire[9], wire[10], wire[11]),
                    from_be16(wire[2], wire[3]),
                    from_be32(wire[4], wire[5], wire[6], wire[7]),
                ),
                m,
                wire.subrange(0, 12),
            )
        }),
{
    let (ptype, ssrc, seq, ts, fill) = choose|ptype: u8, ssrc: u32, seq: u16, ts: u32, fill: Seq<u8>|
        #![trigger obfs_wire(key, m, ptype, ssrc, seq, ts, fill)]
        key.len() == wrapKeyLen && valid_payload_type(ptype) && fill.len() < 255 && m.len() < aead_max_len()
            && wire == obfs_wire(key, m, ptype, ssrc, seq, ts, fill);
    let h = rtp_header(ptype, seq, ts, ssrc);
    let sealed = chacha20poly1305_seal(key, obfs_nonce(ssrc, seq, ts), m, h);
    assert(h.len() == 12);
    assert(wire[0] == 0xa0u8);
    assert(0xa0u8 >> 6u8 == 2) by (bit_vector);
    assert(wire[1] == ptype & 0x7f);
    assert((ptype & 0x7f) & 0x7f == ptype & 0x7f) by (bit_vector);
    let pad = wire[wire.len() - 1] as int;
    assert(pad == fill.len() + 1);
    assert(wire.subrange(0, 12) =~= h);
    assert(wire.subrange(12, wire.len() - pad) =~= sealed);
    lemma_be16_roundtrip(seq);
    lemma_be32_roundtrip(ts);
    lemma_be32_roundtrip(ssrc);
    assert(wire[2] == be16(seq)[0] && wire[3] == be16(seq)[1]);
    assert(wire[4] == be32(ts)[0] && wire[5] == be32(ts)[1] && wire[6] == be32(ts)[2] && wire[7] == be32(ts)[3]);
    assert(wire[8] == be32(ssrc)[0] && wire[9] == be32(ssrc)[1] && wire[10] == be32(ssrc)[2] && wire[11] == be32(ssrc)[3]);
}

/// What unwrapping `wire` under `key` gives before the plaintext is copied
/// out: the decrypted payload, or why there is none.
pub open spec fn unwrap_spec(key: Seq<u8>, wire: Seq<u8>) -> Result<Seq<u8>, ObfsError> {
    if !is_rtp(wire) {
        Err(ObfsError::NotRtp)
    } else {
        let pad = wire[wire.len() - 1] as int;
        if pad == 0 || pad > wire.len() - 12 {
            Err(ObfsError::InvalidPadding)
        } else if key.len() != wrapKeyLen {
            Err(ObfsError::KeyLength)
        } else {
            let seq = from_be16(wire[2], wire[3]);
            let ts = from_be32(wire[4], wire[5], wire[6], wire[7]);
            let ssrc = from_be32(wire[8], wire[9], wire[10], wire[11]);
            match chacha20poly1305_open(
                key,
                obfs_nonce(ssrc, seq, ts),
                wire.subrange(12, wire.len() - pad),
                wire.subrange(0, 12),
            ) {
                Some(p) => Ok(p),
                None => Err(ObfsError::Auth),
            }
        }
    }
}

/// Unwraps a packet into `dst`: checks the RTP framing and the padding length,
/// opens the sealed payload with the header as associated data, and copies
/// the plaintext to the front of `dst`, returning its length.
pub fn obfsUnwrapPacket(key: &[u8], wire: &[u8], dst: &mut [u8]) -> (r: Result<usize, ObfsError>)
    ensures
        match unwrap_spec(key@, wire@) {
            Err(e) => r == Err::<usize, ObfsError>(e) && final(dst)@ == old(dst)@,
            Ok(p) => if p.len() > old(dst)@.len() {
                r == Err::<usize, ObfsError>(ObfsError::DstTooSmall) && final(dst)@ == old(dst)@
            } else {
                r == Ok::<usize, ObfsError>(p.len() as usize) && final(dst)@ == p + old(dst)@.skip(p.len() as int)
            },
        },
        forall|m: Seq<u8>|
            #[trigger] is_obfs_packet_for(key@, wire@, m) && m.len() <= old(dst)@.len()
                ==> r == Ok::<usize, ObfsError>(m.len() as usize) && final(dst)@.take(m.len() as int) == m,
{
    if !obfsIsRTPPacket(wire) {
        proof {
            assert forall|m: Seq<u8>| #[trigger] is_obfs_packet_for(key@, wire@, m) implies false by {
                lemma_wrapped_fields(key@, wire@, m);
            }
        }
        return Err(ObfsError::NotRtp);
    }
    let pad = wire[wire.len() - 1] as usize;
    if pad == 0 || pad > wire.len() - 12 {
        proof {
            assert forall|m: Seq<u8>| #[trigger] is_obfs_packet_for(key@, wire@, m) implies false by {
                lemma_wrapped_fields(key@, wire@, m);
            }
        }
        return Err(ObfsError::InvalidPadding);
    }
    let end = wire.len() - pad;
    let seq: u16 = (wire[2] as u16) * 256 + wire[3] as u16;
    let ts: u32 = (wire[4] as u32) * 0x100_0000 + (wire[5] as u32) * 0x1_0000 + (wire[6] as u32) * 256 + wire[7] as u32;
    let ssrc: u32 = (wire[8] as u32) * 0x100_0000 + (wire[9] as u32) * 0x1_0000 + (wire[10] as u32) * 256 + wire[11] as u32;
    if key.len() != wrapKeyLen {
        proof {
            assert forall|m: Seq<u8>| #[trigger] is_obfs_packet_for(key@, wire@, m) implies false by {
                lemma_wrapped_fields(key@, wire@, m);
            }
        }
        return Err(ObfsError::KeyLength);
    }
    let nonce = obfsBuildNonce(ssrc, seq, ts);
    let ct = &wire[12..end];
    let aad = &wire[0..12];
    assert(ct@ == wire@.subrange(12, end as int));
    assert(aad@ == wire@.subrange(0, 12));
    let opened = aead_open(key, nonce.as_slice(), ct, aad);
    proof {
        assert forall|m: Seq<u8>| #[trigger] is_obfs_packet_for(key@, wire@, m) implies opt_bytes(opened) == Some(m) by {
            lemma_wrapped_fields(key@, wire@, m);
        }
    }
    let plain = match opened {
        Some(p) => p,
        None => return Err(ObfsError::Auth),
    };
    if plain.len() > dst.len() {
        return Err(ObfsError::DstTooSmall);
    }
    let ghost d0 = dst@;
    let mut i: usize = 0;
    while i < plain.len()
        invariant
            i <= plain@.len() <= dst@.len(),
            dst@.len() == d0.len(),
            forall|j: int| 0 <= j < i ==> dst@[j] == plain@[j],
            forall|j: int| plain@.len() <= j < dst@.len() ==> dst@[j] == d0[j],
        decreases plain@.len() - i,
    {
        dst[i] = plain[i];
        i = i + 1;
    }
    assert(dst@ =~= plain@ + d0.skip(plain@.len() as int));
    Ok(plain.len())
}

} // verus!
