use wdtt_rslib::creds_vkcalls::{
    describeVKCallsFailure, extractVKCallsStr, extractVKCallsTrunc, newVKCallsFailure, newVkCallsSession,
    parseVKCallsTURNAddresses, truncateVKCallsLog, truncateVKCallsResp, vkCallsAPIError, vkCallsAPIErrorKind,
    vkCallsAdvance, vkCallsOKError, vkCallsStart, VkCallsNext, VkCallsSession, VkCallsState,
};
use wdtt_rslib::json::{Json, JsonNumber};

fn vc_num(n: i64) -> Json {
    Json::Number(JsonNumber { as_i64: Some(n), f64_trunc: n, f64_text: n.to_string(), text: n.to_string() })
}

fn vc_str(s: &str) -> Json {
    Json::String(s.to_string())
}

fn vc_obj(items: Vec<(&str, Json)>) -> Json {
    Json::Object(items.into_iter().map(|(k, v)| (k.to_string(), v)).collect())
}

fn vc_session() -> VkCallsSession {
    VkCallsSession {
        link: "L1".to_string(),
        device_id: "dev".to_string(),
        name: "Анна Попов".to_string(),
        ok_device_id: "okdev".to_string(),
    }
}

#[test]
fn failures_describe_themselves() {
    let f = newVKCallsFailure("step1", "network", "boom");
    assert_eq!(describeVKCallsFailure(&f), "step=step1 kind=network: boom");
    assert_eq!(truncateVKCallsLog("abcdef", 3), "abc...");
    assert_eq!(truncateVKCallsLog("abc", 3), "abc");
    assert_eq!(truncateVKCallsResp("x"), "x");
}

#[test]
fn api_errors_are_classified() {
    let captcha = vc_obj(vec![("error", vc_obj(vec![("error_code", vc_num(14)), ("error_msg", vc_str("need"))]))]);
    let e = vkCallsAPIError(&captcha).unwrap();
    assert_eq!(vkCallsAPIErrorKind(&e), "captcha");
    let fatal = vc_obj(vec![("error", vc_obj(vec![("error_code", vc_num(954)), ("error_msg", vc_str("x"))]))]);
    assert_eq!(vkCallsAPIErrorKind(&vkCallsAPIError(&fatal).unwrap()), "call_unavailable");
    let other = vc_obj(vec![("error", vc_obj(vec![("error_code", vc_num(5)), ("error_msg", vc_str("auth"))]))]);
    let o = vkCallsAPIError(&other).unwrap();
    assert_eq!(vkCallsAPIErrorKind(&o), "vk_api");
    assert_eq!(o.to_string(), "error_code=5 auth");
    let none = vc_obj(vec![("error", vc_obj(vec![]))]);
    assert!(vkCallsAPIError(&none).is_none());
    assert!(vkCallsOKError(&vc_obj(vec![("error_code", vc_num(3)), ("error_msg", vc_str("m"))])).is_some());
    assert!(vkCallsOKError(&vc_obj(vec![])).is_none());
}

#[test]
fn values_are_extracted_by_path() {
    let v = vc_obj(vec![("response", vc_obj(vec![("token", vc_str("t")), ("user_id", vc_num(42))]))]);
    assert_eq!(extractVKCallsStr(&v, &["response", "token"]).unwrap(), "t");
    assert_eq!(extractVKCallsTrunc(&v, &["response", "user_id"]).unwrap(), 42);
    assert_eq!(extractVKCallsStr(&v, &["response", "nope"]).unwrap_err().to_string(), "missing nope");
    assert_eq!(extractVKCallsStr(&v, &["response", "user_id"]).unwrap_err().to_string(), "not string");
}

#[test]
fn turn_addresses_are_read() {
    let v = vc_obj(vec![(
        "turn_server",
        vc_obj(vec![("urls", Json::Array(vec![vc_str("turn:1.1.1.1:3478?transport=udp"), vc_num(1), vc_str("turns:h:443")]))]),
    )]);
    assert_eq!(parseVKCallsTURNAddresses(&v), vec!["1.1.1.1:3478".to_string(), "h:443".to_string()]);
    assert!(parseVKCallsTURNAddresses(&vc_obj(vec![])).is_empty());
}

#[test]
fn the_path_runs_to_credentials() {
    let s = vc_session();
    let (st, req) = vkCallsStart(&s);
    assert_eq!(req.step, "step1 auth.getAnonymToken");
    assert!(req.url.starts_with("https://"));
    assert!(req.url.contains("auth.getAnonymToken?v="));
    assert!(req.url.contains("&link=https%3A%2F%2Fvk.com%2Fcall%2Fjoin%2FL1&device_id=dev&anonymName="));
    let r1 = vc_obj(vec![("response", vc_obj(vec![("token", vc_str("a t"))]))]);
    let (st, req) = match vkCallsAdvance(&s, st, &r1, "{}") {
        VkCallsNext::Request { state, request } => (state, request),
        _ => panic!("step 2 expected"),
    };
    assert!(req.url.contains("messages.getCallPreview?v="));
    assert!(req.url.contains("&anonymous_token=a+t&device_id=dev&extended=1"));
    let r2 = vc_obj(vec![("response", vc_obj(vec![("user_id", vc_num(77)), ("secret", vc_str("s/1"))]))]);
    let (st, req) = match vkCallsAdvance(&s, st, &r2, "{}") {
        VkCallsNext::Request { state, request } => (state, request),
        _ => panic!("step 3 expected"),
    };
    assert!(req.url.contains("&user_id=77&secret=s%2F1&lang=en"));
    let r3 = vc_obj(vec![("response", vc_obj(vec![("token", vc_str("okt"))]))]);
    let (st, req) = match vkCallsAdvance(&s, st, &r3, "{}") {
        VkCallsNext::Request { state, request } => (state, request),
        _ => panic!("step 4 expected"),
    };
    assert_eq!(req.step, "step4 auth.anonymLogin");
    assert!(req.url.starts_with("https://calls.okcdn.ru/fb.do?session_data=%7B%22version%22%3A2%2C%22device_id%22%3A%22okdev%22"));
    let r4 = vc_obj(vec![("session_key", vc_str("sk"))]);
    let (st, req) = match vkCallsAdvance(&s, st, &r4, "{}") {
        VkCallsNext::Request { state, request } => (state, request),
        _ => panic!("step 5 expected"),
    };
    assert_eq!(
        req.url,
        "https://calls.okcdn.ru/fb.do?joinLink=L1&isVideo=false&protocolVersion=5&anonymToken=okt&method=vchat.joinConversationByLink&format=JSON&application_key=CGMMEJLGDIHBABABA&session_key=sk"
    );
    let r5 = vc_obj(vec![(
        "turn_server",
        vc_obj(vec![
            ("username", vc_str("user")),
            ("credential", vc_str("pass")),
            ("urls", Json::Array(vec![vc_str("turn:9.9.9.9:3478")])),
        ]),
    )]);
    match vkCallsAdvance(&s, st, &r5, "{}") {
        VkCallsNext::Done { user, pass, urls } => {
            assert_eq!(user, "user");
            assert_eq!(pass, "pass");
            assert_eq!(urls, vec!["9.9.9.9:3478".to_string()]);
        },
        _ => panic!("credentials expected"),
    }
}

#[test]
fn the_path_reports_failures() {
    let s = vc_session();
    let bad = vc_obj(vec![]);
    match vkCallsAdvance(&s, VkCallsState::AnonymToken, &bad, "{\"x\":1}") {
        VkCallsNext::Failed(f) => {
            assert_eq!(f.Kind, "parse");
            assert_eq!(f.Err, "parse token: missing response (resp: {\"x\":1})");
        },
        _ => panic!("failure expected"),
    }
    let captcha = vc_obj(vec![("error", vc_obj(vec![("error_code", vc_num(14)), ("captcha_sid", vc_str("9"))]))]);
    match vkCallsAdvance(&s, VkCallsState::CallPreview { anon_token: "t".into() }, &captcha, "") {
        VkCallsNext::Failed(f) => {
            assert_eq!(f.Step, "step2 messages.getCallPreview");
            assert_eq!(f.Kind, "captcha");
            assert_eq!(f.Err, "VK captcha sid=9");
        },
        _ => panic!("failure expected"),
    }
    let ok_err = vc_obj(vec![("error_code", vc_num(2)), ("error_msg", vc_str("denied"))]);
    match vkCallsAdvance(&s, VkCallsState::JoinConversation { ok_anonym_token: "a".into(), session_key: "b".into() }, &ok_err, "") {
        VkCallsNext::Failed(f) => {
            assert_eq!(f.Kind, "okcdn_api");
            assert_eq!(f.Err, "error_code=2 denied");
        },
        _ => panic!("failure expected"),
    }
    let no_urls = vc_obj(vec![("turn_server", vc_obj(vec![("username", vc_str("u")), ("credential", vc_str("c"))]))]);
    match vkCallsAdvance(&s, VkCallsState::JoinConversation { ok_anonym_token: "a".into(), session_key: "b".into() }, &no_urls, "") {
        VkCallsNext::Failed(f) => assert_eq!(f.Err, "no TURN addresses"),
        _ => panic!("failure expected"),
    }
    let fresh = newVkCallsSession("abc");
    assert_eq!(fresh.link, "abc");
    assert_eq!(fresh.device_id.len(), 36);
}
