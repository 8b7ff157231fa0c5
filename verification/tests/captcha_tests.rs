use wdtt_rslib::captcha_v2::{
    captchaV2StringifyAny,
    captchaV2AttemptCount, captchaV2Backoff, captchaV2BaseValues, captchaV2BrowserFP, captchaV2CheckValues,
    captchaV2CheckboxDoneValues, captchaV2CheckboxOutcome, captchaV2DebugInfo, captchaV2EncodeForm,
    captchaV2InitFromJson, captchaV2InitJsonText, captchaV2Kind, captchaV2MethodUrl, captchaV2PickBrowserFP,
    captchaV2Prepare, captchaV2QueryEscape, captchaV2RetryAsSlider, captchaV2SliderAttemptLimit,
    captchaV2SliderDoneValues, captchaV2SliderOutcome, captchaV2SliderSettings, parseCaptchaV2Check,
    parseCaptchaV2Page, parseVkCaptchaError, solveCaptchaPoWV2, captchaV2Check, captchaV2ShowTypeError,
    CaptchaCheckError, CaptchaFlowError, CaptchaKind, CaptchaPageError, SliderCheckStep, VkCaptchaError,
};
use wdtt_rslib::json::{Json, JsonNumber};
use wdtt_rslib::profiles::{Profile, SavedProfile};

fn cc_num(n: i64) -> Json {
    Json::Number(JsonNumber { as_i64: Some(n), f64_trunc: n, f64_text: n.to_string(), text: n.to_string() })
}

fn cc_str(s: &str) -> Json {
    Json::String(s.to_string())
}

fn cc_obj(items: Vec<(&str, Json)>) -> Json {
    Json::Object(items.into_iter().map(|(k, v)| (k.to_string(), v)).collect())
}

fn cc_check(status: &str, token: &str, show: &str) -> captchaV2Check {
    captchaV2Check { status: status.to_string(), success_token: token.to_string(), show_type: show.to_string() }
}

#[test]
fn captcha_error_is_read_from_vk_error() {
    let e = cc_obj(vec![
        ("error_code", cc_num(14)),
        ("redirect_uri", cc_str("https://id.vk.com/not_robot_captcha?domain=vk.com&session_token=tok%20en&x=1")),
        ("captcha_sid", cc_num(123)),
        ("captcha_ts", cc_str("1700000000.5")),
        ("captcha_attempt", cc_num(2)),
    ]);
    let c = parseVkCaptchaError(&e).unwrap();
    assert_eq!(c.session_token, "tok en");
    assert_eq!(c.captcha_sid, "123");
    assert_eq!(c.captcha_ts, "1700000000.5");
    assert_eq!(c.captcha_attempt, "2");
    assert_eq!(c.to_string(), "VK captcha sid=123");
    let not_captcha = cc_obj(vec![("error_code", cc_num(5))]);
    assert!(parseVkCaptchaError(&not_captcha).is_none());
    assert!(parseVkCaptchaError(&cc_str("x")).is_none());
}

#[test]
fn captcha_error_without_redirect_has_no_token() {
    let e = cc_obj(vec![("error_code", cc_num(14)), ("captcha_sid", cc_str("s"))]);
    let c = parseVkCaptchaError(&e).unwrap();
    assert_eq!(c.session_token, "");
    assert_eq!(c.redirect_uri, "");
    assert_eq!(c.captcha_sid, "s");
}

#[test]
fn forms_are_encoded() {
    let v = captchaV2BaseValues("t k");
    assert_eq!(captchaV2EncodeForm(&v), "session_token=t+k&domain=vk.com&adFp=&access_token=");
    assert_eq!(captchaV2QueryEscape("a b&c=d/é"), "a+b%26c%3Dd%2F%C3%A9");
    assert_eq!(captchaV2EncodeForm(&[]), "");
}

#[test]
fn check_answers_are_read() {
    let raw = cc_obj(vec![(
        "response",
        cc_obj(vec![("status", cc_str("OK")), ("success_token", cc_str("st")), ("show_captcha_type", cc_str("slider"))]),
    )]);
    let c = parseCaptchaV2Check(&raw).unwrap();
    assert_eq!(c.status, "OK");
    assert_eq!(c.success_token, "st");
    assert_eq!(c.show_type, "slider");
    let missing = cc_obj(vec![("response", cc_obj(vec![]))]);
    assert_eq!(parseCaptchaV2Check(&missing).err(), Some(CaptchaCheckError::StatusMissing));
    assert_eq!(parseCaptchaV2Check(&cc_obj(vec![])).err(), Some(CaptchaCheckError::InvalidResponse));
}

#[test]
fn captcha_page_is_read() {
    let html = r#"<script>window.init = {"data":{"show_captcha_type":"checkbox","captcha_settings":[{"type":"slider","settings":"S1"},{"type":7}]}};</script>
<script src="https://id.vk.com/vkid/1.1.1370/not_robot_captcha.js"></script>
<script>const powInput = "abc"; const difficulty = 2;</script>"#;
    let init_text = captchaV2InitJsonText(html).unwrap();
    assert_eq!(init_text, r#"{"data":{"show_captcha_type":"checkbox","captcha_settings":[{"type":"slider","settings":"S1"},{"type":7}]}}"#);
    let init = cc_obj(vec![(
        "data",
        cc_obj(vec![
            ("show_captcha_type", cc_str("checkbox")),
            (
                "captcha_settings",
                Json::Array(vec![
                    cc_obj(vec![("type", cc_str("slider")), ("settings", cc_str("S1"))]),
                    cc_obj(vec![("type", cc_num(7))]),
                ]),
            ),
        ]),
    )]);
    let page = parseCaptchaV2Page(html, &init).unwrap();
    assert_eq!(page.pow_input, "abc");
    assert_eq!(page.pow_difficulty, 2);
    assert_eq!(page.script_url, "https://id.vk.com/vkid/1.1.1370/not_robot_captcha.js");
    let i = page.init.as_ref().unwrap();
    assert_eq!(i.data.show_captcha_type, "checkbox");
    assert_eq!(i.data.captcha_settings.len(), 1);
    assert_eq!(i.data.captcha_settings[0].kind, "slider");
    assert_eq!(captchaV2SliderSettings(&page), "S1");
    let parsed = captchaV2InitFromJson(&init);
    assert_eq!(parsed.data.captcha_settings[0].settings, "S1");
}

#[test]
fn captcha_page_errors() {
    assert_eq!(captchaV2InitJsonText("<html></html>"), Err(CaptchaPageError::InitNotFound));
    let init = cc_obj(vec![]);
    assert_eq!(parseCaptchaV2Page("window.init = {};", &init).err(), Some(CaptchaPageError::ScriptNotFound));
    assert_eq!(CaptchaPageError::ScriptNotFound.to_string(), "captcha script url not found");
    let html = r#"src="https://a/not_robot_captcha.js" const difficulty = 99999999999"#;
    let page = parseCaptchaV2Page(html, &init).unwrap();
    assert_eq!(page.pow_difficulty, 0);
    assert_eq!(page.pow_input, "");
}

#[test]
fn proof_of_work_finds_first_nonce() {
    assert_eq!(solveCaptchaPoWV2("abc", 1), "0d56d5ce616422904a584cf3735a45ae611817d96c4717b17369ef6778025848");
    assert_eq!(solveCaptchaPoWV2("abc", 2), "00e6fe2fa1d885b56b771f9f9098ddc018d72efb61c0e10367bb5a8b82289f6a");
    assert_eq!(solveCaptchaPoWV2("", 2), "");
    assert_eq!(solveCaptchaPoWV2("abc", 0), "");
}

#[test]
fn prepare_checks_the_page() {
    let init = cc_obj(vec![("data", cc_obj(vec![("show_captcha_type", cc_str("slider"))]))]);
    let page = parseCaptchaV2Page(r#"src="https://x/not_robot_captcha.js" const powInput = "powtest"; const difficulty = 2"#, &init).unwrap();
    let (hash, settings, show) = captchaV2Prepare(&page).unwrap();
    assert_eq!(hash, "00b0cbb5e867c16ff2d4ffae5fc78cce90a7a2df26d826eb2357890aaa202257");
    assert_eq!(settings, "");
    assert_eq!(show, "slider");
    let empty = parseCaptchaV2Page(r#"src="https://x/not_robot_captcha.js""#, &init).unwrap();
    assert!(matches!(captchaV2Prepare(&empty), Err(CaptchaFlowError::PowSettingsMissing)));
}

#[test]
fn debug_info_is_found() {
    let hex = "ab".repeat(32);
    let script = format!("var a={{debug_info:x||\"{}\"}}", hex);
    assert_eq!(captchaV2DebugInfo(&script).unwrap(), hex);
    assert!(matches!(captchaV2DebugInfo("nothing"), Err(CaptchaFlowError::DebugInfoNotFound)));
}

#[test]
fn captcha_kinds() {
    assert_eq!(captchaV2Kind("slider").unwrap(), CaptchaKind::Slider);
    assert_eq!(captchaV2Kind("").unwrap(), CaptchaKind::Checkbox);
    assert_eq!(captchaV2Kind("checkbox").unwrap(), CaptchaKind::Checkbox);
    let e = captchaV2Kind("puzzle").unwrap_err();
    assert_eq!(e.to_string(), "unsupported captcha type: puzzle");
}

#[test]
fn retry_as_slider_only_for_bot_errors() {
    assert!(captchaV2RetryAsSlider("checkbox captcha rejected: status=BOT", "checkbox", "s") == false);
    assert!(captchaV2RetryAsSlider("checkbox captcha rejected: status=bot", "checkbox", "s"));
    assert!(!captchaV2RetryAsSlider("status=bot", "slider", "s"));
    assert!(!captchaV2RetryAsSlider("status=bot", "", ""));
}

#[test]
fn checkbox_outcomes() {
    assert_eq!(captchaV2CheckboxOutcome(&cc_check("OK", "tok", "")).unwrap(), "tok");
    assert_eq!(captchaV2CheckboxOutcome(&cc_check("ok", "tok", "Checkbox")).unwrap(), "tok");
    let e = captchaV2CheckboxOutcome(&cc_check("ok", "tok", "slider")).unwrap_err();
    assert_eq!(e.to_string(), "captcha show type mismatch: slider");
    let e = captchaV2CheckboxOutcome(&cc_check("ERROR_LIMIT", "", "")).unwrap_err();
    assert_eq!(e.to_string(), "captcha session rate limit reached");
    let e = captchaV2CheckboxOutcome(&cc_check("bot", "", "")).unwrap_err();
    assert_eq!(e.to_string(), "checkbox captcha rejected: status=bot");
    let e = captchaV2CheckboxOutcome(&cc_check("ok", "", "")).unwrap_err();
    assert_eq!(e.to_string(), "captcha success token not found");
    let st = captchaV2ShowTypeError { show_type: "x".to_string() };
    assert_eq!(st.to_string(), "captcha show type mismatch: x");
}

#[test]
fn slider_outcomes() {
    assert!(matches!(captchaV2SliderOutcome(&cc_check("OK", "t", "")), SliderCheckStep::Solved(t) if t == "t"));
    assert!(matches!(captchaV2SliderOutcome(&cc_check("ok", "", "")), SliderCheckStep::Failed(CaptchaFlowError::TokenMissing)));
    assert!(matches!(captchaV2SliderOutcome(&cc_check("error_limit", "", "")), SliderCheckStep::Failed(CaptchaFlowError::RateLimited)));
    assert!(matches!(captchaV2SliderOutcome(&cc_check("wrong", "", "")), SliderCheckStep::Next));
    assert_eq!(captchaV2SliderAttemptLimit(4, 3).unwrap(), 3);
    assert!(matches!(captchaV2SliderAttemptLimit(0, 3), Err(CaptchaFlowError::NoAttempts)));
}

#[test]
fn attempts_and_backoff() {
    assert_eq!(captchaV2AttemptCount(0), 1);
    assert_eq!(captchaV2AttemptCount(10), 10);
    assert_eq!(captchaV2Backoff(1), 500);
    assert_eq!(captchaV2Backoff(9), 4500);
    assert_eq!(captchaV2Backoff(10), 5000);
    assert_eq!(captchaV2Backoff(30), 5000);
}

#[test]
fn check_form_carries_base64_answer() {
    let v = captchaV2CheckValues("s", "fp", "h", "{}", "[]", "d");
    assert_eq!(v.len(), 15);
    assert_eq!(v[12], ("answer", "e30=".to_string()));
    assert_eq!(v[6], ("cursor", "[]".to_string()));
    let w = captchaV2CheckValues("s", "fp", "h", r#"{"value":[1,2]}"#, "[]", "d");
    assert_eq!(w[12].1, "eyJ2YWx1ZSI6WzEsMl19");
    let enc = captchaV2EncodeForm(&v);
    assert!(enc.starts_with("session_token=s&domain=vk.com&adFp=&accelerometer=%5B%5D&"));
}

#[test]
fn done_forms_and_urls() {
    let c = captchaV2CheckboxDoneValues("s", "f");
    assert_eq!(c.iter().map(|p| p.0).collect::<Vec<_>>(), vec!["session_token", "domain", "adFp", "browser_fp", "device", "access_token"]);
    let s = captchaV2SliderDoneValues("s", "f");
    assert_eq!(s.iter().map(|p| p.0).collect::<Vec<_>>(), vec!["session_token", "domain", "adFp", "access_token", "browser_fp", "device"]);
    assert_eq!(captchaV2MethodUrl("captchaNotRobot.check"), "https://api.vk.ru/method/captchaNotRobot.check?v=5.131");
}

#[test]
fn browser_fingerprints() {
    let fp = captchaV2BrowserFP();
    assert_eq!(fp.len(), 32);
    assert!(fp.chars().all(|c| c.is_ascii_hexdigit() && !c.is_ascii_uppercase()));
    let p = Profile { user_agent: "u".into(), sec_ch_ua: "c".into(), sec_ch_ua_mobile: "?0".into(), sec_ch_ua_platform: "p".into() };
    let saved = SavedProfile { Profile: p.clone(), device_json: "{}".into(), browser_fp: "keep".into() };
    assert_eq!(captchaV2PickBrowserFP(Some(&saved)), "keep");
    let blank = SavedProfile { Profile: p, device_json: "{}".into(), browser_fp: String::new() };
    assert_eq!(captchaV2PickBrowserFP(Some(&blank)).len(), 32);
    assert_eq!(captchaV2PickBrowserFP(None).len(), 32);
    let _ = VkCaptchaError {
        captcha_sid: String::new(),
        redirect_uri: String::new(),
        session_token: String::new(),
        captcha_ts: String::new(),
        captcha_attempt: String::new(),
    };
}

#[test]
fn cc_stringify_any_flattens_values() {
    let v = Json::Object(vec![
        ("a".to_string(), cc_num(1)),
        ("b".to_string(), Json::Array(vec![Json::Bool(true), Json::Null, Json::String("x".to_string())])),
        ("c".to_string(), Json::Object(vec![])),
    ]);
    assert_eq!(captchaV2StringifyAny(&v), "{a:1,b:[true,,x],c:{}}");
    assert_eq!(captchaV2StringifyAny(&Json::Null), "");
    assert_eq!(captchaV2StringifyAny(&Json::Bool(false)), "false");
    assert_eq!(captchaV2StringifyAny(&Json::Array(vec![])), "[]");
}
