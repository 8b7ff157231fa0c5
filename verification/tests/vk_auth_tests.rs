use wdtt_rslib::json::{Json, JsonNumber};
use wdtt_rslib::vk_auth::{
    asCallUnavailableError, cachedCreds, cloneStringSlice, deobf, fatalCallError, getCacheID, getTokenChain,
    handleAuthError, isAuthError, loadVKCredentials, parseVKCredentialsEnv, storeCreds, vkErrorCode,
    ActiveCredentials, CredentialsCaches, CredentialsEnvError, GetActiveClientIdsString, SetActiveClientIds,
    VKCredentials, CREDS_LIFETIME_MS,
};

fn va_num(n: i64) -> Json {
    Json::Number(JsonNumber { as_i64: Some(n), f64_trunc: n, f64_text: n.to_string(), text: n.to_string() })
}

fn va_str(s: &str) -> Json {
    Json::String(s.to_string())
}

fn va_obj(items: Vec<(&str, Json)>) -> Json {
    Json::Object(items.into_iter().map(|(k, v)| (k.to_string(), v)).collect())
}

#[test]
fn deobf_shifts_bytes() {
    assert_eq!(deobf(";535939", -3), "8202606");
    assert_eq!(deobf("oPUvWlPF|Sqs8yirogpq", -3), "lMRsTiMCyPnp5vfoldmn");
    assert_eq!(deobf("abc", 1), "bcd");
}

#[test]
fn credentials_env_is_parsed() {
    let v = parseVKCredentialsEnv(" 1:a , 2:b:c ,,").unwrap();
    assert_eq!(v.len(), 2);
    assert_eq!(v[0].ClientID, "1");
    assert_eq!(v[0].ClientSecret, "a");
    assert_eq!(v[1].ClientID, "2");
    assert_eq!(v[1].ClientSecret, "b:c");
}

#[test]
fn credentials_env_errors() {
    assert_eq!(parseVKCredentialsEnv("abc").err(), Some(CredentialsEnvError::InvalidPair));
    assert_eq!(parseVKCredentialsEnv("1:").err(), Some(CredentialsEnvError::EmptyCredential));
    assert_eq!(parseVKCredentialsEnv(" , ").err(), Some(CredentialsEnvError::NoCredentials));
    assert_eq!(CredentialsEnvError::NoCredentials.to_string(), "no credentials found");
}

#[test]
fn load_credentials_falls_back_to_built_in() {
    let v = loadVKCredentials(None);
    assert_eq!(v.len(), 1);
    assert_eq!(v[0].ClientID, "8202606");
    let w = loadVKCredentials(Some("bad"));
    assert_eq!(w[0].ClientID, "8202606");
    let x = loadVKCredentials(Some("7:s"));
    assert_eq!(x[0].ClientID, "7");
}

#[test]
fn active_client_ids() {
    let mut a = ActiveCredentials { list: loadVKCredentials(None) };
    assert_eq!(GetActiveClientIdsString(&a), "8202606");
    SetActiveClientIds(&mut a, "6287487, 8202606 ,999");
    assert_eq!(GetActiveClientIdsString(&a), "6287487, 8202606");
    SetActiveClientIds(&mut a, "1,2");
    assert_eq!(GetActiveClientIdsString(&a), "6287487, 8202606");
}

#[test]
fn fatal_call_errors() {
    let v = va_obj(vec![("error", va_obj(vec![("error_code", va_num(9001)), ("error_msg", va_str("gone"))]))]);
    let e = fatalCallError(&v).unwrap();
    assert_eq!(e.Code, 9001);
    assert_eq!(e.to_string(), "VK call is unavailable: gone (error_code=9001)");
    let w = va_obj(vec![("error", va_obj(vec![("error_code", va_num(5))]))]);
    assert!(fatalCallError(&w).is_none());
    assert!(fatalCallError(&va_str("x")).is_none());
    assert!(asCallUnavailableError(&"any").is_none());
}

#[test]
fn vk_error_codes() {
    assert_eq!(vkErrorCode(&va_num(14)), 14);
    assert_eq!(vkErrorCode(&va_str("17")), 17);
    assert_eq!(vkErrorCode(&va_str("x")), 0);
    assert_eq!(vkErrorCode(&Json::Null), 0);
}

#[test]
fn cache_ids_group_ten_streams() {
    assert_eq!(getCacheID(0), 0);
    assert_eq!(getCacheID(19), 1);
    assert_eq!(getCacheID(-19), -1);
    assert_eq!(getCacheID(100), 10);
}

#[test]
fn auth_errors() {
    assert!(isAuthError("HTTP 401"));
    assert!(isAuthError("stale nonce received"));
    assert!(!isAuthError("timeout"));
}

#[test]
fn credentials_cache_read_after_write_and_expiry() {
    let mut c = CredentialsCaches::new();
    let addrs = vec!["1.2.3.4:3478".to_string()];
    storeCreds(&mut c, "link", 23, "u", "p", &addrs, 1000);
    let got = cachedCreds(&c, "link", 27, 1000 + CREDS_LIFETIME_MS - 1).unwrap();
    assert_eq!(got.0, "u");
    assert_eq!(got.1, "p");
    assert_eq!(got.2, addrs);
    assert!(cachedCreds(&c, "link", 27, 1000 + CREDS_LIFETIME_MS).is_none());
    assert!(cachedCreds(&c, "other", 27, 1000).is_none());
    assert!(cachedCreds(&c, "link", 33, 1000).is_none());
    assert!(handleAuthError(&mut c, 20));
    assert!(cachedCreds(&c, "link", 23, 1000).is_none());
}

#[test]
fn legacy_token_chain_is_unavailable() {
    let cr = VKCredentials { ClientID: "1".into(), ClientSecret: "2".into() };
    assert!(getTokenChain("l", 1, &cr).is_err());
    assert_eq!(cloneStringSlice(&["a".to_string()]), vec!["a".to_string()]);
}
