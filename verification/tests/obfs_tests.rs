use wdtt_rslib::obfs::{
    obfsBuildNonce, obfsIsRTPPacket, obfsUnwrapPacket, obfsWrapPacket, NewObfsConfig, NewObfsState, ObfsError,
};
use wdtt_rslib::wrap::{deriveWrapKey, WrapError};

#[test]
fn wrap_then_unwrap_gives_payload_back() {
    let key = [7u8; 32];
    let cfg = NewObfsConfig("audio");
    let mut state = NewObfsState();
    let payload = b"hello relay".to_vec();
    let wire = obfsWrapPacket(&key, &payload, &cfg, &mut state).unwrap();
    assert!(obfsIsRTPPacket(&wire));
    assert_eq!(wire[0], 0xa0);
    assert_eq!(wire[1], 111);
    let mut dst = vec![0u8; 64];
    let n = obfsUnwrapPacket(&key, &wire, &mut dst).unwrap();
    assert_eq!(n, payload.len());
    assert_eq!(&dst[..n], &payload[..]);
}

#[test]
fn video_mode_packets_use_payload_type_96() {
    let key = [1u8; 32];
    let cfg = NewObfsConfig("video");
    assert_eq!(cfg.PayloadType, 96);
    assert_eq!(cfg.PaddingMax, 60);
    let mut state = NewObfsState();
    let wire = obfsWrapPacket(&key, b"x", &cfg, &mut state).unwrap();
    assert_eq!(wire[1], 96);
    let pad = wire[wire.len() - 1] as usize;
    assert!(pad >= 1 && pad <= 60);
    assert_eq!(wire.len(), 12 + 1 + 16 + pad);
}

#[test]
fn sequence_number_advances_by_one() {
    let key = [9u8; 32];
    let cfg = NewObfsConfig("audio");
    let mut state = NewObfsState();
    let a = obfsWrapPacket(&key, b"one", &cfg, &mut state).unwrap();
    let b = obfsWrapPacket(&key, b"two", &cfg, &mut state).unwrap();
    let sa = u16::from_be_bytes([a[2], a[3]]);
    let sb = u16::from_be_bytes([b[2], b[3]]);
    assert_eq!(sb, sa.wrapping_add(1));
    let ta = u32::from_be_bytes([a[4], a[5], a[6], a[7]]);
    let tb = u32::from_be_bytes([b[4], b[5], b[6], b[7]]);
    assert_eq!(tb, ta.wrapping_add(960));
}

#[test]
fn wrap_refuses_empty_payload() {
    let key = [7u8; 32];
    let cfg = NewObfsConfig("video");
    let mut state = NewObfsState();
    assert_eq!(obfsWrapPacket(&key, &[], &cfg, &mut state), Err(ObfsError::EmptyPayload));
}

#[test]
fn wrap_refuses_short_key() {
    let key = [7u8; 31];
    let cfg = NewObfsConfig("audio");
    let mut state = NewObfsState();
    assert_eq!(obfsWrapPacket(&key, b"p", &cfg, &mut state), Err(ObfsError::KeyLength));
}

#[test]
fn unwrap_refuses_non_rtp() {
    let key = [7u8; 32];
    let mut dst = vec![0u8; 16];
    assert_eq!(obfsUnwrapPacket(&key, &[1, 2, 3], &mut dst), Err(ObfsError::NotRtp));
}

#[test]
fn unwrap_with_wrong_key_fails_auth() {
    let key = [7u8; 32];
    let other = [8u8; 32];
    let cfg = NewObfsConfig("audio");
    let mut state = NewObfsState();
    let wire = obfsWrapPacket(&key, b"secret", &cfg, &mut state).unwrap();
    let mut dst = vec![0u8; 64];
    assert_eq!(obfsUnwrapPacket(&other, &wire, &mut dst), Err(ObfsError::Auth));
}

#[test]
fn unwrap_into_small_buffer_fails() {
    let key = [7u8; 32];
    let cfg = NewObfsConfig("audio");
    let mut state = NewObfsState();
    let wire = obfsWrapPacket(&key, b"0123456789", &cfg, &mut state).unwrap();
    let mut dst = vec![0u8; 4];
    assert_eq!(obfsUnwrapPacket(&key, &wire, &mut dst), Err(ObfsError::DstTooSmall));
    assert_eq!(dst, vec![0u8; 4]);
}

#[test]
fn nonce_layout() {
    let n = obfsBuildNonce(0x01020304, 0x0506, 0x0708090a);
    assert_eq!(n, [1, 2, 3, 4, 5, 6, 0, 0, 7, 8, 9, 10]);
}

#[test]
fn rtp_recognition() {
    assert!(!obfsIsRTPPacket(&[0x80, 96, 0, 0]));
    let mut p = vec![0x80u8, 96];
    p.extend_from_slice(&[0u8; 12]);
    assert!(obfsIsRTPPacket(&p));
    p[1] = 97;
    assert!(!obfsIsRTPPacket(&p));
    p[0] = 0x40;
    p[1] = 111;
    assert!(!obfsIsRTPPacket(&p));
}

#[test]
fn obfs_error_messages() {
    assert_eq!(ObfsError::Auth.to_string(), "obfs: auth");
    assert_eq!(ObfsError::DstTooSmall.to_string(), "obfs: dst buffer too small");
}

#[test]
fn wrap_key_of_password() {
    let k = deriveWrapKey("secret").unwrap();
    let hex: String = k.iter().map(|b| format!("{:02x}", b)).collect();
    assert_eq!(hex, "16db09fb6daecc5e57600d221d4ee59b7c3318b7679cbd9e9d3591245d26bb49");
    assert_eq!(deriveWrapKey("secret").unwrap(), k);
}

#[test]
fn wrap_key_refuses_empty_password() {
    assert_eq!(deriveWrapKey(""), Err(WrapError::EmptyPassword));
    assert_eq!(WrapError::EmptyPassword.to_string(), "empty password");
}
