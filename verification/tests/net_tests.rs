use wdtt_rslib::dispatcher::{
    dispatchOrder, getPktBuf, putPktBuf, putPktBufWithCapacity, rrWorkerIndex, PktPool, WorkerRegistry, WorkerSlot,
};
use wdtt_rslib::dns::{build_dns_query, dnsServerList, isYandexDNSAddress, pickFastestDns};
use wdtt_rslib::obfs::NewObfsConfig;
use wdtt_rslib::session::{
    configReplyOf, configRequestPayload, relayObfs, relayRecvStep, relayWire, turn_address, ConfigReply, RelayRecv,
    TurnAddressError,
};
use wdtt_rslib::worker_group::{Credentials, TurnParams};

fn nt_params(host: &str, port: &str, key_len: usize) -> TurnParams {
    TurnParams {
        Host: host.to_string(),
        Port: port.to_string(),
        Hashes: vec!["h".to_string()],
        WrapKey: vec![5u8; key_len],
        ObfsMode: "audio".to_string(),
    }
}

fn nt_creds(urls: &[&str]) -> Credentials {
    Credentials {
        User: "u".to_string(),
        Pass: "p".to_string(),
        TurnURLs: urls.iter().map(|s| s.to_string()).collect(),
        CacheStreamID: 0,
    }
}

#[test]
fn dns_query_bytes() {
    let q = build_dns_query("vk.com");
    let mut expected = vec![0x12, 0x34, 0x01, 0x00, 0x00, 0x01, 0, 0, 0, 0, 0, 0];
    expected.extend_from_slice(&[2, b'v', b'k', 3, b'c', b'o', b'm', 0, 0, 1, 0, 1]);
    assert_eq!(q, expected);
    let e = build_dns_query("");
    assert_eq!(&e[12..], &[0, 0, 0, 1, 0, 1]);
}

#[test]
fn yandex_addresses() {
    assert!(isYandexDNSAddress("77.88.8.8"));
    assert!(isYandexDNSAddress(" 77.88.8.1:53 "));
    assert!(isYandexDNSAddress("[77.88.8.8]:53"));
    assert!(!isYandexDNSAddress("8.8.8.8:53"));
    assert!(!isYandexDNSAddress(""));
}

#[test]
fn fastest_dns_is_first_minimum() {
    let r = vec![("a".to_string(), 30u64), ("b".to_string(), 10), ("c".to_string(), 10)];
    assert_eq!(pickFastestDns(&r), "b");
    assert_eq!(pickFastestDns(&[]), "77.88.8.8:53");
    assert_eq!(dnsServerList().len(), 6);
    assert_eq!(dnsServerList()[2], "1.1.1.1:53");
}

#[test]
fn packet_pool_reuses_buffers() {
    let mut pool = PktPool::new();
    let b = getPktBuf(&mut pool, 16);
    assert_eq!(b, vec![0u8; 16]);
    let mut dirty = b;
    dirty[3] = 9;
    putPktBuf(&mut pool, dirty);
    assert_eq!(pool.len(), 1);
    let c = getPktBuf(&mut pool, 32);
    assert_eq!(c, vec![0u8; 32]);
    assert_eq!(pool.len(), 0);
    let big = getPktBuf(&mut pool, 5000);
    assert_eq!(big.len(), 5000);
}

#[test]
fn packet_pool_is_bounded() {
    let mut pool = PktPool::new();
    for _ in 0..150 {
        putPktBufWithCapacity(&mut pool, Vec::new(), 0);
    }
    assert_eq!(pool.len(), 100);
    putPktBufWithCapacity(&mut pool, Vec::new(), 4096);
    assert_eq!(pool.len(), 100);
}

#[test]
fn registry_unregisters_every_slot_of_an_id() {
    let mut r: WorkerRegistry<&str> = WorkerRegistry::new();
    r.Register(WorkerSlot { ID: 1, SendCh: "a" });
    r.Register(WorkerSlot { ID: 2, SendCh: "b" });
    r.Register(WorkerSlot { ID: 1, SendCh: "c" });
    r.Unregister(1);
    assert_eq!(r.len(), 1);
    assert_eq!(r.workers[0].SendCh, "b");
}

#[test]
fn round_robin_in_chunks() {
    assert_eq!(rrWorkerIndex(0, 3), 0);
    assert_eq!(rrWorkerIndex(11, 3), 0);
    assert_eq!(rrWorkerIndex(12, 3), 1);
    assert_eq!(rrWorkerIndex(36, 3), 0);
    assert_eq!(dispatchOrder(2, 4), vec![2, 3, 0, 1]);
}

#[test]
fn turn_addresses() {
    let c = nt_creds(&["turn:1.2.3.4:3478?transport=udp", "turns:5.6.7.8:443"]);
    assert_eq!(turn_address(&nt_params("", "", 0), &c, 0).unwrap(), "1.2.3.4:3478");
    assert_eq!(turn_address(&nt_params("", "", 0), &c, 1).unwrap(), "5.6.7.8:443");
    assert_eq!(turn_address(&nt_params("h.example", "", 0), &c, 0).unwrap(), "h.example:3478");
    assert_eq!(turn_address(&nt_params("", "9999", 0), &c, 1).unwrap(), "5.6.7.8:9999");
    assert_eq!(turn_address(&nt_params("h", "1", 0), &c, 2).unwrap(), "h:1");
    let nc = nt_creds(&["turn:noport"]);
    assert_eq!(turn_address(&nt_params("h", "", 0), &nc, 0).unwrap(), "h:3478");
    assert_eq!(turn_address(&nt_params("", "7", 0), &nc, 0).unwrap(), "noport:7");
    assert_eq!(turn_address(&nt_params("", "", 0), &nt_creds(&[]), 0), Err(TurnAddressError::NoTurnUrl));
    let neg = turn_address(&nt_params("", "", 0), &c, -1).unwrap();
    assert_eq!(neg, "5.6.7.8:443");
}

#[test]
fn relay_obfuscation_round_trip() {
    let p = nt_params("", "", 32);
    let mut o = relayObfs(&p);
    assert!(o.is_some());
    let wire = relayWire(&mut o, b"dtls record").unwrap();
    assert_ne!(wire, b"dtls record".to_vec());
    let mut dst = vec![0u8; 64];
    assert_eq!(relayRecvStep(&o, &wire, &mut dst), RelayRecv::Deliver(11));
    assert_eq!(&dst[..11], b"dtls record");
    assert_eq!(relayRecvStep(&o, b"garbage", &mut dst), RelayRecv::Skip);
    let _ = NewObfsConfig("audio");
}

#[test]
fn relay_without_obfuscation_copies() {
    let p = nt_params("", "", 16);
    let mut o = relayObfs(&p);
    assert!(o.is_none());
    assert_eq!(relayWire(&mut o, b"abc").unwrap(), b"abc".to_vec());
    let mut dst = vec![0u8; 4];
    assert_eq!(relayRecvStep(&o, b"abc", &mut dst), RelayRecv::Deliver(3));
    assert_eq!(dst, vec![b'a', b'b', b'c', 0]);
    assert_eq!(relayRecvStep(&o, b"abcdef", &mut dst), RelayRecv::TooBig);
}

#[test]
fn config_exchange() {
    assert_eq!(configRequestPayload("51820", "dev", "pw"), "GETCONF:51820|dev|pw");
    assert!(matches!(configReplyOf("DENIED: bad"), ConfigReply::Denied(m) if m == "FATAL_AUTH: DENIED: bad"));
    assert!(matches!(configReplyOf("NOCONF"), ConfigReply::NoConfig));
    assert!(matches!(configReplyOf("[Interface]"), ConfigReply::Config(c) if c == "[Interface]"));
}

#[test]
fn dispatch_order_offers_each_worker_once() {
    for workers in 1..7usize {
        for first in 0..workers {
            let mut order = dispatchOrder(first, workers);
            assert_eq!(order[0], first);
            order.sort();
            assert_eq!(order, (0..workers).collect::<Vec<usize>>());
        }
    }
}

#[test]
fn round_robin_keeps_chunks_together_and_comes_round() {
    let workers = 4usize;
    for c in 0..200usize {
        if c % 12 != 11 {
            assert_eq!(rrWorkerIndex(c + 1, workers), rrWorkerIndex(c, workers));
        }
        assert_eq!(rrWorkerIndex(c + 12 * workers, workers), rrWorkerIndex(c, workers));
    }
}
