use wdtt_rslib::worker_group::{
    classifySessionError, firstBatchGroups, groupHash, groupStreamId, nextBatchEnd, normalizeVKJoinHash,
    normalizeVKJoinHashChecked, retryDelaySecs, workerAfterSession, workerCount, ParseHashes, ParseHashesChecked,
    SessionErrorKind, TurnParams, WorkerStep,
};

#[test]
fn join_hash_from_link() {
    assert_eq!(normalizeVKJoinHash("  <https://vk.com/call/join/AbC123?x=1>  "), "AbC123");
    assert_eq!(normalizeVKJoinHash("https://VK.com/CALL/JOIN/Zz_9/"), "Zz_9");
    assert_eq!(normalizeVKJoinHash("'abc'"), "abc");
    assert_eq!(normalizeVKJoinHash("abc/def"), "abc");
    assert_eq!(normalizeVKJoinHash("https://example.com/x"), "");
    assert_eq!(normalizeVKJoinHash("   "), "");
}

#[test]
fn join_hash_checked_agrees() {
    assert_eq!(normalizeVKJoinHashChecked("https://vk.com/call/join/Q1#frag"), Some("Q1".to_string()));
}

#[test]
fn hashes_are_split_normalised_and_deduplicated() {
    let h = ParseHashes("a, b;a\nhttps://vk.com/call/join/c\tb  ");
    assert_eq!(h, vec!["a".to_string(), "b".to_string(), "c".to_string()]);
    assert!(ParseHashes(" , ;").is_empty());
    assert_eq!(ParseHashesChecked("x y"), Some(vec!["x".to_string(), "y".to_string()]));
}

#[test]
fn retry_delays() {
    assert_eq!(retryDelaySecs(0), 2);
    assert_eq!(retryDelaySecs(3), 2);
    assert_eq!(retryDelaySecs(4), 3);
    assert_eq!(retryDelaySecs(5), 3);
    assert_eq!(retryDelaySecs(6), 5);
}

#[test]
fn session_errors_are_classified() {
    assert_eq!(classifySessionError("FATAL_AUTH: denied"), SessionErrorKind::FatalAuth);
    assert_eq!(classifySessionError("TURN Allocate: boom"), SessionErrorKind::TurnAllocate);
    assert_eq!(classifySessionError("DTLS timeout"), SessionErrorKind::DtlsTimeout);
    assert_eq!(classifySessionError("other"), SessionErrorKind::Other);
}

#[test]
fn worker_steps() {
    assert_eq!(workerAfterSession(4, None), WorkerStep::Retry { attempt: 0, delay_secs: 2 });
    assert_eq!(workerAfterSession(4, Some("FATAL_AUTH: x")), WorkerStep::CancelAll);
    assert_eq!(workerAfterSession(6, Some("DTLS timeout")), WorkerStep::Retry { attempt: 6, delay_secs: 5 });
}

#[test]
fn group_helpers() {
    let p = TurnParams {
        Host: String::new(),
        Port: String::new(),
        Hashes: vec!["h0".to_string(), "h1".to_string()],
        WrapKey: vec![],
        ObfsMode: "audio".to_string(),
    };
    assert_eq!(groupHash(&p, 3), "h1");
    assert_eq!(groupStreamId(7), 700);
    assert_eq!(workerCount(24), 18);
    assert_eq!(workerCount(1), 9);
    assert_eq!(workerCount(500), 108);
    assert_eq!(firstBatchGroups(0), 0);
    assert_eq!(firstBatchGroups(5), 1);
    assert_eq!(nextBatchEnd(1, 12), 5);
    assert_eq!(nextBatchEnd(9, 12), 12);
}
