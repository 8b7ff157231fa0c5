//! VK's "not a robot" captcha (version 2): the error that asks for it, the
//! forms sent to the captcha API and the reading of its answers.

use crate::json::{field, field_code, field_str, field_str_or_empty, get_code, get_str, get_str_or_empty, Json};
use crate::outside::{
    base64_encode, base64_standard, form_urlencode, form_urlencoded, hex_encode, hex_lower, pairs_view,
    random_bytes, regex_capture1, regex_first_capture, sha256, sha256_digest, url_query, url_query_pairs,
};
use crate::profiles::SavedProfile;
use crate::text::{
    append_chars, chars_eq, chars_of, contains_chars, contains_seq, decimal, eq_ignore_ascii_case,
    eq_ignore_ascii_case_bytes, join, parse_i64, parse_i64_chars, push_str, str_eq, string_of, u64_to_decimal,
};
use vstd::prelude::*;
use vstd::string::StringSliceAdditionalSpecFns;

verus! {

/// The VK API version the captcha methods are called with.
pub const CAPTCHA_V2_API_VERSION: &'static str = "5.131";

/// The version of VK's captcha script that the client presents itself as.
pub const CAPTCHA_V2_SCRIPT_VERSION: &'static str = "1.1.1370";

/// The device description sent with `componentDone`.
pub const CAPTCHA_V2_DEVICE_INFO: &'static str = r#"{"screenWidth":1920,"screenHeight":1080,"screenAvailWidth":1920,"screenAvailHeight":1040,"innerWidth":1920,"innerHeight":970,"devicePixelRatio":1,"language":"ru-RU","languages":["ru-RU","ru","en-US","en"],"webdriver":false,"hardwareConcurrency":8,"notificationsPermission":"default"}"#;

/// How many times a captcha is attempted before giving up.
pub const CAPTCHA_V2_MAX_ATTEMPTS: usize = 10;

/// Finds the proof-of-work input in the captcha page.
pub const RE_CAPTCHA_V2_POW_INPUT: &'static str = r#"const\s+powInput\s*=\s*"([^"]+)""#;

/// Finds the proof-of-work difficulty in the captcha page.
pub const RE_CAPTCHA_V2_DIFFICULTY: &'static str = r#"const\s+difficulty\s*=\s*(\d+)"#;

/// Finds the `window.init` object literal in the captcha page.
pub const RE_CAPTCHA_V2_WINDOW_INIT: &'static str = r#"(?s)window\.init\s*=\s*(\{.*?})\s*;"#;

/// Finds the URL of the captcha script in the captcha page.
pub const RE_CAPTCHA_V2_SCRIPT_SRC: &'static str = r#"src="(https://[^"]+not_robot_captcha[^"]+)""#;

/// Finds the `debug_info` hash in the captcha script.
pub const RE_CAPTCHA_V2_DEBUG_INFO: &'static str = r#"debug_info:(?:[^"]*\|\|)?"([a-fA-F0-9]{64})""#;

/// Finds the version in the captcha script's URL.
pub const RE_CAPTCHA_V2_VERSION: &'static str = r#"vkid/([0-9.]*)/not_robot_captcha\.js"#;

/// The order in which a browser sends the request headers.
pub const CAPTCHA_V2_HEADER_ORDER: [&'static str; 15] = [
    "host",
    "content-length",
    "sec-ch-ua-platform",
    "accept-language",
    "sec-ch-ua",
    "content-type",
    "sec-ch-ua-mobile",
    "user-agent",
    "accept",
    "origin",
    "sec-fetch-site",
    "sec-fetch-mode",
    "sec-fetch-dest",
    "referer",
    "accept-encoding",
];

/// The order of the HTTP/2 pseudo-headers.
pub const CAPTCHA_V2_PHEADER_ORDER: [&'static str; 4] = [":method", ":path", ":authority", ":scheme"];

/// A VK API error that asks for a captcha (error code 14).
#[derive(Debug, Clone)]
pub struct VkCaptchaError {
    pub captcha_sid: String,
    pub redirect_uri: String,
    pub session_token: String,
    pub captcha_ts: String,
    pub captcha_attempt: String,
}

impl VkCaptchaError {
    /// "VK captcha sid=<sid>".
    pub fn to_string(&self) -> (s: String)
        ensures
            s@ == "VK captcha sid="@ + self.captcha_sid@,
    {
        let mut v = chars_of("VK captcha sid=");
        let sid = chars_of(self.captcha_sid.as_str());
        append_chars(&mut v, sid.as_slice());
        string_of(v.as_slice())
    }
}

/// The value of the first pair named `key`.
pub open spec fn first_value(pairs: Seq<(Seq<char>, Seq<char>)>, key: Seq<char>) -> Option<Seq<char>>
    decreases pairs.len(),
{
    if pairs.len() == 0 {
        None
    } else if pairs[0].0 == key {
        Some(pairs[0].1)
    } else {
        first_value(pairs.drop_first(), key)
    }
}

/// The `session_token` query parameter of a redirect URI, or nothing.
pub open spec fn session_token_of(redirect: Seq<char>) -> Seq<char> {
    if redirect.len() == 0 {
        Seq::empty()
    } else {
        match url_query(redirect) {
            Some(q) => match first_value(q, "session_token"@) {
                Some(v) => v,
                None => Seq::empty(),
            },
            None => Seq::empty(),
        }
    }
}

/// A member read as a string first, else as a number's float text.
pub open spec fn str_or_number_text(v: Option<Json>) -> Seq<char> {
    match v {
        Some(Json::String(s)) => s@,
        Some(Json::Number(n)) => n.f64_text@,
        _ => Seq::empty(),
    }
}

/// A member read as a number's float text first, else as a string.
pub open spec fn number_text_or_str(v: Option<Json>) -> Seq<char> {
    match v {
        Some(Json::Number(n)) => n.f64_text@,
        Some(Json::String(s)) => s@,
        _ => Seq::empty(),
    }
}

/// The captcha request that a VK error object carries: an object whose
/// `error_code` is 14. Fields: sid, redirect URI, session token, timestamp,
/// attempt.
pub open spec fn vk_captcha_error(e: Json) -> Option<(Seq<char>, Seq<char>, Seq<char>, Seq<char>, Seq<char>)> {
    match e {
        Json::Object(_) => if field_code(e, "error_code"@) != 14 {
            None
        } else {
            let redirect = field_str_or_empty(e, "redirect_uri"@);
            Some((
                str_or_number_text(field(e, "captcha_sid"@)),
                redirect,
                session_token_of(redirect),
                number_text_or_str(field(e, "captcha_ts"@)),
                number_text_or_str(field(e, "captcha_attempt"@)),
            ))
        },
        _ => None,
    }
}

/// The fields of a captcha error.
pub open spec fn captcha_error_view(c: VkCaptchaError) -> (Seq<char>, Seq<char>, Seq<char>, Seq<char>, Seq<char>) {
    (c.captcha_sid@, c.redirect_uri@, c.session_token@, c.captcha_ts@, c.captcha_attempt@)
}

/// A member read as a string first, else as a number's float text.
fn get_str_or_number_text(v: &Json, key: &str) -> (r: String)
    ensures
        r@ == str_or_number_text(field(*v, key@)),
{
    match v.get(key) {
        Some(Json::String(s)) => s.clone(),
        Some(Json::Number(n)) => n.f64_text.clone(),
        _ => String::new(),
    }
}

/// A member read as a number's float text first, else as a string.
fn get_number_text_or_str(v: &Json, key: &str) -> (r: String)
    ensures
        r@ == number_text_or_str(field(*v, key@)),
{
    match v.get(key) {
        Some(Json::Number(n)) => n.f64_text.clone(),
        Some(Json::String(s)) => s.clone(),
        _ => String::new(),
    }
}

/// The `session_token` query parameter of a redirect URI.
fn session_token_from(redirect: &str) -> (r: String)
    ensures
        r@ == session_token_of(redirect@),
{
    if redirect.is_empty() {
        return String::new();
    }
    match url_query_pairs(redirect) {
        None => String::new(),
        Some(pairs) => {
            let ghost q = pairs_view(pairs);
            assert(redirect@.len() > 0);
            assert(url_query(redirect@) == Some(q));
            let mut i: usize = 0;
            assert(q.skip(0) =~= q);
            while i < pairs.len()
                invariant
                    q == pairs_view(pairs),
                    redirect@.len() > 0,
                    url_query(redirect@) == Some(q),
                    i <= q.len(),
                    first_value(q, "session_token"@) == first_value(q.skip(i as int), "session_token"@),
                decreases q.len() - i,
            {
                assert(q.skip(i as int)[0] == q[i as int]);
                assert(q[i as int] == (pairs@[i as int].0@, pairs@[i as int].1@));
                assert(q.skip(i as int).drop_first() =~= q.skip(i + 1));
                if str_eq(pairs[i].0.as_str(), "session_token") {
                    assert(q[i as int].0 == "session_token"@);
                    let v = pairs[i].1.clone();
                    assert(v@ == q[i as int].1);
                    assert(first_value(q.skip(i as int), "session_token"@) == Some(q[i as int].1));
                    assert(first_value(q, "session_token"@) == Some(q[i as int].1));

                    return v;
                }
                i = i + 1;
            }
            assert(q.skip(i as int).len() == 0);
            String::new()
        },
    }
}

/// The captcha request a VK error object carries, if it is one.
pub fn parseVkCaptchaError(err_data: &Json) -> (r: Option<VkCaptchaError>)
    ensures
        match vk_captcha_error(*err_data) {
            Some(f) => r matches Some(c) && captcha_error_view(c) == f,
            None => r is None,
        },
{
    match err_data {
        Json::Object(_) => {},
        _ => return None,
    }
    if get_code(err_data, "error_code") != 14 {
        return None;
    }
    let redirect_uri = get_str_or_empty(err_data, "redirect_uri");
    let captcha_sid = get_str_or_number_text(err_data, "captcha_sid");
    let session_token = session_token_from(redirect_uri.as_str());
    let captcha_ts = get_number_text_or_str(err_data, "captcha_ts");
    let captcha_attempt = get_number_text_or_str(err_data, "captcha_attempt");
    Some(VkCaptchaError { captcha_sid, redirect_uri, session_token, captcha_ts, captcha_attempt })
}

/// The form fields every captcha API call starts with.
pub open spec fn base_values(session_token: Seq<char>) -> Seq<(Seq<char>, Seq<char>)> {
    seq![
        ("session_token"@, session_token),
        ("domain"@, "vk.com"@),
        ("adFp"@, Seq::<char>::empty()),
        ("access_token"@, Seq::<char>::empty()),
    ]
}

/// The fields of a form.
pub open spec fn form_view(v: Seq<(&str, String)>) -> Seq<(Seq<char>, Seq<char>)> {
    v.map_values(|p: (&str, String)| (p.0@, p.1@))
}

/// The form fields every captcha API call starts with: the session token,
/// the domain "vk.com", and empty `adFp` and `access_token`.
pub fn captchaV2BaseValues(session_token: &str) -> (r: Vec<(&'static str, String)>)
    ensures
        form_view(r@) == base_values(session_token@),
{
    let mut v: Vec<(&'static str, String)> = Vec::new();
    v.push(("session_token", String::from_str(session_token)));
    v.push(("domain", String::from_str("vk.com")));
    v.push(("adFp", String::new()));
    v.push(("access_token", String::new()));
    assert(form_view(v@) =~= base_values(session_token@));
    v
}

/// A value escaped for a URL query or form body.
pub fn captchaV2QueryEscape(s: &str) -> (r: String)
    ensures
        r@ == form_urlencoded(s.spec_bytes()),
{
    form_urlencode(s)
}

/// One encoded `key=value` field.
pub open spec fn form_field(k: Seq<char>, v: Seq<char>) -> Seq<char> {
    form_urlencoded(vstd::utf8::encode_utf8(k)) + "="@ + form_urlencoded(vstd::utf8::encode_utf8(v))
}

/// A form body: the encoded fields joined with '&'.
pub open spec fn encoded_form(values: Seq<(Seq<char>, Seq<char>)>) -> Seq<char> {
    join(values.map_values(|p: (Seq<char>, Seq<char>)| form_field(p.0, p.1)), "&"@)
}

/// A form body: each field `key=value` with both sides escaped, joined with
/// '&'.
pub fn captchaV2EncodeForm(values: &[(&str, String)]) -> (r: String)
    ensures
        r@ == encoded_form(form_view(values@)),
{
    let ghost fields = form_view(values@).map_values(|p: (Seq<char>, Seq<char>)| form_field(p.0, p.1));
    let mut out: Vec<char> = Vec::new();
    let eq = chars_of("=");
    let amp = chars_of("&");
    let mut i: usize = 0;
    assert(fields.take(0) =~= Seq::<Seq<char>>::empty());
    while i < values.len()
        invariant
            fields == form_view(values@).map_values(|p: (Seq<char>, Seq<char>)| form_field(p.0, p.1)),
            eq@ == "="@,
            amp@ == "&"@,
            i <= values@.len(),
            out@ == join(fields.take(i as int), "&"@),
        decreases values@.len() - i,
    {
        let (k, v) = &values[i];
        let ek = chars_of(form_urlencode(k).as_str());
        let ev = chars_of(form_urlencode(v.as_str()).as_str());
        let mut f: Vec<char> = ek;
        append_chars(&mut f, eq.as_slice());
        append_chars(&mut f, ev.as_slice());
        assert(f@ == fields[i as int]);
        assert(fields.take(i + 1).drop_last() =~= fields.take(i as int));
        if i > 0 {
            append_chars(&mut out, amp.as_slice());
        } else {
            assert(fields.take(1) =~= seq![f@]);
        }
        append_chars(&mut out, f.as_slice());
        i = i + 1;
    }
    assert(fields.take(fields.len() as int) =~= fields);
    string_of(out.as_slice())
}

/// A value flattened to text: nothing for null, `true`/`false`, a number as
/// JSON prints it, a string as it is, an array as `[a,b]` and an object as
/// `{k:v,..}`, members in their order.
pub open spec fn stringify_any(v: Json) -> Seq<char>
    decreases v,
{
    match v {
        Json::Null => Seq::empty(),
        Json::Bool(b) => if b {
            "true"@
        } else {
            "false"@
        },
        Json::Number(n) => n.text@,
        Json::String(s) => s@,
        Json::Array(items) => "["@ + stringify_items(items@) + "]"@,
        Json::Object(entries) => "{"@ + stringify_entries(entries@) + "}"@,
    }
}

/// Array items flattened and joined with ','.
pub open spec fn stringify_items(items: Seq<Json>) -> Seq<char>
    decreases items,
{
    if items.len() == 0 {
        Seq::empty()
    } else if items.len() == 1 {
        stringify_any(items[0])
    } else {
        stringify_items(items.drop_last()) + ","@ + stringify_any(items.last())
    }
}

/// Object members flattened as `key:value` and joined with ','.
pub open spec fn stringify_entries(entries: Seq<(String, Json)>) -> Seq<char>
    decreases entries,
{
    if entries.len() == 0 {
        Seq::empty()
    } else if entries.len() == 1 {
        entries[0].0@ + ":"@ + stringify_any(entries[0].1)
    } else {
        stringify_entries(entries.drop_last()) + ","@ + entries.last().0@ + ":"@ + stringify_any(entries.last().1)
    }
}

/// A value flattened to text.
pub fn captchaV2StringifyAny(value: &Json) -> (r: String)
    ensures
        r@ == stringify_any(*value),
    decreases value,
{
    match value {
        Json::Null => String::new(),
        Json::Bool(b) => if *b {
            String::from_str("true")
        } else {
            String::from_str("false")
        },
        Json::Number(n) => n.text.clone(),
        Json::String(s) => s.clone(),
        Json::Array(items) => {
            let mut out = chars_of("[");
            let mut i: usize = 0;
            while i < items.len()
                invariant
                    i <= items@.len(),
                    out@ == "["@ + stringify_items(items@.take(i as int)),
                    *value == Json::Array(*items),
                decreases items@.len() - i,
            {
                assert(items@.take(i + 1).drop_last() =~= items@.take(i as int));
                proof {
                    assert(decreases_to!(*value => (*value)->Array_0));
                    assert(decreases_to!(*items => items@));
                    assert(decreases_to!(items@ => items@[i as int]));
                }
                let t = captchaV2StringifyAny(&items[i]);
                if i > 0 {
                    push_str(&mut out, ",");
                } else {
                    assert(items@.take(1) =~= seq![items@[0]]);
                }
                push_str(&mut out, t.as_str());
                i = i + 1;
            }
            push_str(&mut out, "]");
            assert(items@.take(items@.len() as int) =~= items@);
            string_of(out.as_slice())
        },
        Json::Object(entries) => {
            let mut out = chars_of("{");
            let mut i: usize = 0;
            while i < entries.len()
                invariant
                    i <= entries@.len(),
                    out@ == "{"@ + stringify_entries(entries@.take(i as int)),
                    *value == Json::Object(*entries),
                decreases entries@.len() - i,
            {
                assert(entries@.take(i + 1).drop_last() =~= entries@.take(i as int));
                proof {
                    assert(decreases_to!(*value => (*value)->Object_0));
                    assert(decreases_to!(*entries => entries@));
                    assert(decreases_to!(entries@ => entries@[i as int]));
                    assert(decreases_to!(entries@[i as int] => entries@[i as int].1));
                }
                let (k, v) = &entries[i];
                let t = captchaV2StringifyAny(v);
                if i > 0 {
                    push_str(&mut out, ",");
                } else {
                    assert(entries@.take(1) =~= seq![entries@[0]]);
                }
                push_str(&mut out, k.as_str());
                push_str(&mut out, ":");
                push_str(&mut out, t.as_str());
                i = i + 1;
            }
            push_str(&mut out, "}");
            assert(entries@.take(entries@.len() as int) =~= entries@);
            string_of(out.as_slice())
        },
    }
}

/// The answer of a captcha check.
#[derive(Debug, Clone)]
pub struct captchaV2Check {
    pub status: String,
    pub success_token: String,
    pub show_type: String,
}

/// Why a captcha answer could not be read.
#[derive(Debug, Clone, Copy, PartialEq, Eq)]
pub enum CaptchaCheckError {
    /// The `response` member is missing or not an object.
    InvalidResponse,
    /// The response has no non-empty `status`.
    StatusMissing,
}

/// A captcha check answer: the `response` object's `status` (which must not
/// be empty), `success_token` and `show_captcha_type` (empty when absent).
pub open spec fn captcha_check(raw: Json) -> Result<(Seq<char>, Seq<char>, Seq<char>), CaptchaCheckError> {
    match field(raw, "response"@) {
        Some(resp) => match resp {
            Json::Object(_) => {
                let status = field_str_or_empty(resp, "status"@);
                if status.len() == 0 {
                    Err(CaptchaCheckError::StatusMissing)
                } else {
                    Ok((
                        status,
                        field_str_or_empty(resp, "success_token"@),
                        field_str_or_empty(resp, "show_captcha_type"@),
                    ))
                }
            },
            _ => Err(CaptchaCheckError::InvalidResponse),
        },
        None => Err(CaptchaCheckError::InvalidResponse),
    }
}

/// Reads the answer of a captcha check.
pub fn parseCaptchaV2Check(raw: &Json) -> (r: Result<captchaV2Check, CaptchaCheckError>)
    ensures
        match captcha_check(*raw) {
            Ok(t) => r matches Ok(c) && (c.status@, c.success_token@, c.show_type@) == t,
            Err(e) => r == Err::<captchaV2Check, CaptchaCheckError>(e),
        },
{
    let resp = match raw.get("response") {
        Some(x) => x,
        None => return Err(CaptchaCheckError::InvalidResponse),
    };
    match resp {
        Json::Object(_) => {},
        _ => return Err(CaptchaCheckError::InvalidResponse),
    }
    let status = get_str_or_empty(resp, "status");
    if status.as_str().is_empty() {
        return Err(CaptchaCheckError::StatusMissing);
    }
    Ok(captchaV2Check {
        success_token: get_str_or_empty(resp, "success_token"),
        show_type: get_str_or_empty(resp, "show_captcha_type"),
        status,
    })
}


/// One entry of `captcha_settings` in the page's init object: the kind of
/// captcha it configures and its settings text.
#[derive(Debug, Clone)]
pub struct captchaV2InitSetting {
    pub kind: String,
    pub settings: String,
}

/// The `data` member of the page's init object.
#[derive(Debug, Clone)]
pub struct captchaV2InitData {
    pub show_captcha_type: String,
    pub captcha_settings: Vec<captchaV2InitSetting>,
}

/// The page's init object.
#[derive(Debug, Clone)]
pub struct captchaV2Init {
    pub data: captchaV2InitData,
}

/// What the client reads from the captcha page.
#[derive(Debug, Clone)]
pub struct captchaV2Page {
    pub pow_input: String,
    pub pow_difficulty: i32,
    pub script_url: String,
    pub init: Option<captchaV2Init>,
}

/// Why the captcha page could not be read.
#[derive(Debug, Clone, Copy, PartialEq, Eq)]
pub enum CaptchaPageError {
    /// The page holds no `window.init = {...};`.
    InitNotFound,
    /// The init object is not valid JSON.
    InitInvalid,
    /// The page names no captcha script.
    ScriptNotFound,
}

impl CaptchaPageError {
    /// The error's message.
    pub fn to_string(&self) -> (s: String)
        ensures
            s@ == page_error_text(*self),
    {
        match self {
            CaptchaPageError::InitNotFound => String::from_str("captcha init json not found"),
            CaptchaPageError::InitInvalid => String::from_str("captcha init json invalid"),
            CaptchaPageError::ScriptNotFound => String::from_str("captcha script url not found"),
        }
    }
}

/// The message of a page error.
pub open spec fn page_error_text(e: CaptchaPageError) -> Seq<char> {
    match e {
        CaptchaPageError::InitNotFound => "captcha init json not found"@,
        CaptchaPageError::InitInvalid => "captcha init json invalid"@,
        CaptchaPageError::ScriptNotFound => "captcha script url not found"@,
    }
}

/// A setting as (kind, settings).
pub open spec fn setting_view(s: captchaV2InitSetting) -> (Seq<char>, Seq<char>) {
    (s.kind@, s.settings@)
}

/// The settings of a `captcha_settings` array: the items whose `type` and
/// `settings` are both strings, in order; other items are skipped.
pub open spec fn init_settings(items: Seq<Json>) -> Seq<(Seq<char>, Seq<char>)>
    decreases items.len(),
{
    if items.len() == 0 {
        Seq::empty()
    } else {
        let rest = init_settings(items.drop_last());
        match (field_str(items.last(), "type"@), field_str(items.last(), "settings"@)) {
            (Some(t), Some(v)) => rest.push((t, v)),
            _ => rest,
        }
    }
}

/// The captcha type the init object shows first: `data.show_captcha_type`,
/// or empty.
pub open spec fn init_show_type(init: Json) -> Seq<char> {
    match field(init, "data"@) {
        Some(d) => field_str_or_empty(d, "show_captcha_type"@),
        None => Seq::empty(),
    }
}

/// The settings of the init object: those of `data.captcha_settings` when it
/// is an array, else none.
pub open spec fn init_setting_list(init: Json) -> Seq<(Seq<char>, Seq<char>)> {
    match field(init, "data"@) {
        Some(d) => match field(d, "captcha_settings"@) {
            Some(Json::Array(a)) => init_settings(a@),
            _ => Seq::empty(),
        },
        None => Seq::empty(),
    }
}

/// The settings of an init object, as read from a decoded `captcha_settings`
/// array.
fn init_settings_of(items: &Vec<Json>) -> (r: Vec<captchaV2InitSetting>)
    ensures
        r@.map_values(|s: captchaV2InitSetting| setting_view(s)) == init_settings(items@),
{
    let mut out: Vec<captchaV2InitSetting> = Vec::new();
    let mut i: usize = 0;
    assert(items@.take(0) =~= Seq::<Json>::empty());
    while i < items.len()
        invariant
            i <= items@.len(),
            out@.map_values(|s: captchaV2InitSetting| setting_view(s)) == init_settings(items@.take(i as int)),
        decreases items@.len() - i,
    {
        let item = &items[i];
        assert(items@.take(i + 1).drop_last() =~= items@.take(i as int));
        assert(items@.take(i + 1).last() == items@[i as int]);
        let t = get_str(item, "type");
        let v = get_str(item, "settings");
        match (t, v) {
            (Some(t), Some(v)) => {
                out.push(captchaV2InitSetting { kind: t, settings: v });
            },
            _ => {},
        }
        assert(out@.map_values(|s: captchaV2InitSetting| setting_view(s)) =~= init_settings(items@.take(i + 1)));
        i = i + 1;
    }
    assert(items@.take(items@.len() as int) =~= items@);
    out
}

/// The init object of a captcha page, read from its decoded JSON: the type
/// shown first and the settings of each captcha type.
pub fn captchaV2InitFromJson(init_data: &Json) -> (r: captchaV2Init)
    ensures
        r.data.show_captcha_type@ == init_show_type(*init_data),
        r.data.captcha_settings@.map_values(|s: captchaV2InitSetting| setting_view(s)) == init_setting_list(*init_data),
{
    let mut init = captchaV2Init {
        data: captchaV2InitData { show_captcha_type: String::new(), captcha_settings: Vec::new() },
    };
    match init_data.get("data") {
        Some(data) => {
            init.data.show_captcha_type = get_str_or_empty(data, "show_captcha_type");
            match data.get("captcha_settings") {
                Some(Json::Array(a)) => {
                    init.data.captcha_settings = init_settings_of(a);
                },
                _ => {
                    assert(init.data.captcha_settings@.map_values(|s: captchaV2InitSetting| setting_view(s))
                        =~= Seq::<(Seq<char>, Seq<char>)>::empty());
                },
            }
        },
        None => {
            assert(init.data.captcha_settings@.map_values(|s: captchaV2InitSetting| setting_view(s))
                =~= Seq::<(Seq<char>, Seq<char>)>::empty());
        },
    }
    init
}

/// The text of the page's init object: the `{...}` assigned to
/// `window.init`.
pub fn captchaV2InitJsonText(html: &str) -> (r: Result<String, CaptchaPageError>)
    ensures
        match regex_capture1(RE_CAPTCHA_V2_WINDOW_INIT@, html@) {
            Some(t) => r matches Ok(s) && s@ == t,
            None => r == Err::<String, CaptchaPageError>(CaptchaPageError::InitNotFound),
        },
{
    match regex_first_capture(RE_CAPTCHA_V2_WINDOW_INIT, html) {
        Some(t) => Ok(t),
        None => Err(CaptchaPageError::InitNotFound),
    }
}

/// `str::parse::<i32>().ok()`.
pub open spec fn parse_i32(s: Seq<char>) -> Option<i32> {
    match parse_i64(s) {
        Some(v) => if i32::MIN <= v <= i32::MAX {
            Some(v as i32)
        } else {
            None
        },
        None => None,
    }
}

/// `str::parse::<i32>().ok()`.
pub fn parse_i32_str(s: &str) -> (r: Option<i32>)
    ensures
        r == parse_i32(s@),
{
    let c = chars_of(s);
    match parse_i64_chars(c.as_slice()) {
        Some(v) => if i32::MIN as i64 <= v && v <= i32::MAX as i64 {
            Some(v as i32)
        } else {
            None
        },
        None => None,
    }
}

/// The difficulty a matched text denotes: its value as an `i32`, or 0.
pub open spec fn difficulty_of(d: Option<Seq<char>>) -> i32 {
    match d {
        Some(t) => match parse_i32(t) {
            Some(v) => v,
            None => 0,
        },
        None => 0,
    }
}

/// A page as (proof-of-work input, difficulty, script URL, type shown first,
/// settings).
pub open spec fn page_view(p: captchaV2Page) -> (Seq<char>, i32, Seq<char>, Seq<char>, Seq<(Seq<char>, Seq<char>)>) {
    match p.init {
        Some(i) => (
            p.pow_input@,
            p.pow_difficulty,
            p.script_url@,
            i.data.show_captcha_type@,
            i.data.captcha_settings@.map_values(|s: captchaV2InitSetting| setting_view(s)),
        ),
        None => (p.pow_input@, p.pow_difficulty, p.script_url@, Seq::empty(), Seq::empty()),
    }
}

/// The page made of the init object and what the page's patterns matched:
/// the script URL is required; a missing proof-of-work input is empty and a
/// missing or unreadable difficulty is 0.
pub open spec fn page_from(
    init: Json,
    script: Option<Seq<char>>,
    pow: Option<Seq<char>>,
    difficulty: Option<Seq<char>>,
) -> Result<(Seq<char>, i32, Seq<char>, Seq<char>, Seq<(Seq<char>, Seq<char>)>), CaptchaPageError> {
    match script {
        None => Err(CaptchaPageError::ScriptNotFound),
        Some(url) => Ok((
            match pow {
                Some(p) => p,
                None => Seq::empty(),
            },
            difficulty_of(difficulty),
            url,
            init_show_type(init),
            init_setting_list(init),
        )),
    }
}

/// The page made of the decoded init object and what the page's patterns
/// matched (the script URL, the proof-of-work input, the difficulty).
pub fn captchaV2PageFrom(
    init_data: &Json,
    script_url: Option<String>,
    pow_input: Option<String>,
    difficulty: Option<String>,
) -> (r: Result<captchaV2Page, CaptchaPageError>)
    ensures
        match page_from(
            *init_data,
            opt_view(script_url),
            opt_view(pow_input),
            opt_view(difficulty),
        ) {
            Ok(v) => r matches Ok(p) && p.init is Some && page_view(p) == v,
            Err(e) => r == Err::<captchaV2Page, CaptchaPageError>(e),
        },
{
    let init = captchaV2InitFromJson(init_data);
    let script_url = match script_url {
        Some(u) => u,
        None => return Err(CaptchaPageError::ScriptNotFound),
    };
    let pow_input = match pow_input {
        Some(p) => p,
        None => String::new(),
    };
    let pow_difficulty = match difficulty {
        Some(d) => match parse_i32_str(d.as_str()) {
            Some(v) => v,
            None => 0,
        },
        None => 0,
    };
    Ok(captchaV2Page { pow_input, pow_difficulty, script_url, init: Some(init) })
}

/// The text an optional string holds.
pub open spec fn opt_view(o: Option<String>) -> Option<Seq<char>> {
    match o {
        Some(s) => Some(s@),
        None => None,
    }
}

/// Reads a captcha page, given the decoded init object: the script URL
/// (required), the proof-of-work input and difficulty, and the init data.
pub fn parseCaptchaV2Page(html: &str, init_data: &Json) -> (r: Result<captchaV2Page, CaptchaPageError>)
    ensures
        match page_from(
            *init_data,
            regex_capture1(RE_CAPTCHA_V2_SCRIPT_SRC@, html@),
            regex_capture1(RE_CAPTCHA_V2_POW_INPUT@, html@),
            regex_capture1(RE_CAPTCHA_V2_DIFFICULTY@, html@),
        ) {
            Ok(v) => r matches Ok(p) && p.init is Some && page_view(p) == v,
            Err(e) => r == Err::<captchaV2Page, CaptchaPageError>(e),
        },
{
    let script_url = regex_first_capture(RE_CAPTCHA_V2_SCRIPT_SRC, html);
    let pow_input = regex_first_capture(RE_CAPTCHA_V2_POW_INPUT, html);
    let difficulty = regex_first_capture(RE_CAPTCHA_V2_DIFFICULTY, html);
    captchaV2PageFrom(init_data, script_url, pow_input, difficulty)
}


// ---------------------------------------------------------------------------
// Proof of work.

/// The hash tried for a nonce: the lower-case hex SHA-256 of the UTF-8 of
/// the input followed by the nonce in decimal.
pub open spec fn pow_hash(input: Seq<char>, nonce: int) -> Seq<char> {
    hex_lower(sha256(vstd::utf8::encode_utf8(input + decimal(nonce))))
}

/// Whether a hash starts with `d` zeros.
pub open spec fn pow_ok(h: Seq<char>, d: int) -> bool {
    d <= h.len() && forall|i: int| 0 <= i < d ==> h[i] == '0'
}

/// The largest nonce tried.
pub open spec fn pow_max_nonce() -> int {
    10_000_000
}

/// The hash of the first nonce from `from` up to the largest tried whose hash
/// starts with `d` zeros, or empty when there is none.
pub open spec fn pow_search(input: Seq<char>, d: int, from: int) -> Seq<char>
    decreases pow_max_nonce() + 1 - from,
{
    if from > pow_max_nonce() || from < 1 {
        Seq::empty()
    } else if pow_ok(pow_hash(input, from), d) {
        pow_hash(input, from)
    } else {
        pow_search(input, d, from + 1)
    }
}

/// The proof of work for an input and difficulty: nothing for an empty input
/// or a difficulty below 1, else the hash of the first nonce from 1 whose
/// hash starts with that many zeros (empty when none up to ten million
/// does).
pub open spec fn pow_solution(input: Seq<char>, difficulty: int) -> Seq<char> {
    if input.len() == 0 || difficulty <= 0 {
        Seq::empty()
    } else {
        pow_search(input, difficulty, 1)
    }
}

/// Whether a hash starts with `d` zeros.
fn has_zero_prefix(h: &str, d: usize) -> (r: bool)
    ensures
        r == pow_ok(h@, d as int),
{
    let c = chars_of(h);
    if c.len() < d {
        return false;
    }
    let mut i: usize = 0;
    while i < d
        invariant
            c@ == h@,
            d <= c@.len(),
            i <= d,
            forall|j: int| 0 <= j < i ==> c@[j] == '0',
        decreases d - i,
    {
        if c[i] != '0' {
            return false;
        }
        i = i + 1;
    }
    true
}

/// The hash of `input` followed by `nonce`.
fn pow_hash_of(input: &str, nonce: u64) -> (r: String)
    ensures
        r@ == pow_hash(input@, nonce as int),
{
    let mut s = chars_of(input);
    let n = u64_to_decimal(nonce);
    append_chars(&mut s, n.as_slice());
    let text = string_of(s.as_slice());
    let digest = sha256_digest(text.as_str().as_bytes());
    hex_encode(digest.as_slice())
}

/// Solves the captcha's proof of work: the first nonce from 1 to ten
/// million whose hash starts with `difficulty` zeros gives the answer, its
/// hash; empty when the input is empty, the difficulty is below 1 or no
/// nonce succeeds.
pub fn solveCaptchaPoWV2(input: &str, difficulty: i32) -> (r: String)
    ensures
        r@ == pow_solution(input@, difficulty as int),
{
    if input.is_empty() || difficulty <= 0 {
        return String::new();
    }
    let d = difficulty as usize;
    let mut nonce: u64 = 1;
    while nonce <= 10_000_000
        invariant
            1 <= nonce <= 10_000_001,
            input@.len() > 0,
            difficulty > 0,
            d as int == difficulty as int,
            pow_search(input@, d as int, 1) == pow_search(input@, d as int, nonce as int),
        decreases 10_000_001 - nonce,
    {
        let h = pow_hash_of(input, nonce);
        if has_zero_prefix(h.as_str(), d) {
            return h;
        }
        nonce = nonce + 1;
    }
    String::new()
}


// ---------------------------------------------------------------------------
// Solving a captcha: the decisions between the calls to the captcha API.

/// Why solving a captcha failed.
#[derive(Debug, Clone)]
pub enum CaptchaFlowError {
    /// The captcha error's redirect URI carries no session token.
    NoSessionToken,
    /// The page holds no proof-of-work input.
    PowSettingsMissing,
    /// No nonce solved the proof of work.
    PowFailed,
    /// The captcha script holds no `debug_info`.
    DebugInfoNotFound,
    /// The page shows a captcha type the client cannot solve.
    UnsupportedType(String),
    /// The check answered for another captcha type.
    ShowTypeMismatch(String),
    /// The captcha session's attempts are used up.
    RateLimited,
    /// The checkbox answer was rejected with this status.
    CheckboxRejected(String),
    /// The check succeeded without a success token.
    TokenMissing,
    /// The slider allows no attempt.
    NoAttempts,
    /// Every slider guess allowed was rejected.
    SliderExhausted,
    /// Every attempt failed without an error to report.
    AttemptsExhausted,
}

/// The message of a flow error.
pub open spec fn flow_error_text(e: CaptchaFlowError) -> Seq<char> {
    match e {
        CaptchaFlowError::NoSessionToken => "no session_token in redirect_uri"@,
        CaptchaFlowError::PowSettingsMissing => "failed to find PoW settings"@,
        CaptchaFlowError::PowFailed => "captcha pow failed"@,
        CaptchaFlowError::DebugInfoNotFound => "debug_info match not found"@,
        CaptchaFlowError::UnsupportedType(t) => "unsupported captcha type: "@ + t@,
        CaptchaFlowError::ShowTypeMismatch(t) => "captcha show type mismatch: "@ + t@,
        CaptchaFlowError::RateLimited => "captcha session rate limit reached"@,
        CaptchaFlowError::CheckboxRejected(st) => "checkbox captcha rejected: status="@ + st@,
        CaptchaFlowError::TokenMissing => "captcha success token not found"@,
        CaptchaFlowError::NoAttempts => "slider has no attempts available"@,
        CaptchaFlowError::SliderExhausted => "slider guesses exhausted"@,
        CaptchaFlowError::AttemptsExhausted => "captcha attempts exhausted"@,
    }
}

/// A fixed message followed by a text.
fn message_with(prefix: &str, t: &String) -> (r: String)
    ensures
        r@ == prefix@ + t@,
{
    let mut v = chars_of(prefix);
    push_str(&mut v, t.as_str());
    string_of(v.as_slice())
}

impl CaptchaFlowError {
    /// The error's message.
    pub fn to_string(&self) -> (s: String)
        ensures
            s@ == flow_error_text(*self),
    {
        match self {
            CaptchaFlowError::NoSessionToken => String::from_str("no session_token in redirect_uri"),
            CaptchaFlowError::PowSettingsMissing => String::from_str("failed to find PoW settings"),
            CaptchaFlowError::PowFailed => String::from_str("captcha pow failed"),
            CaptchaFlowError::DebugInfoNotFound => String::from_str("debug_info match not found"),
            CaptchaFlowError::UnsupportedType(t) => message_with("unsupported captcha type: ", t),
            CaptchaFlowError::ShowTypeMismatch(t) => message_with("captcha show type mismatch: ", t),
            CaptchaFlowError::RateLimited => String::from_str("captcha session rate limit reached"),
            CaptchaFlowError::CheckboxRejected(st) => message_with("checkbox captcha rejected: status=", st),
            CaptchaFlowError::TokenMissing => String::from_str("captcha success token not found"),
            CaptchaFlowError::NoAttempts => String::from_str("slider has no attempts available"),
            CaptchaFlowError::SliderExhausted => String::from_str("slider guesses exhausted"),
            CaptchaFlowError::AttemptsExhausted => String::from_str("captcha attempts exhausted"),
        }
    }
}

/// A check that answered for another captcha type than the one solved.
#[derive(Debug)]
pub struct captchaV2ShowTypeError {
    pub show_type: String,
}

impl captchaV2ShowTypeError {
    /// "captcha show type mismatch: <type>".
    pub fn to_string(&self) -> (s: String)
        ensures
            s@ == "captcha show type mismatch: "@ + self.show_type@,
    {
        message_with("captcha show type mismatch: ", &self.show_type)
    }
}

/// Whether a text equals a literal up to ASCII case.
pub open spec fn ascii_ieq(a: Seq<char>, lit: Seq<char>) -> bool {
    eq_ignore_ascii_case_bytes(vstd::utf8::encode_utf8(a), vstd::utf8::encode_utf8(lit))
}

/// The settings of the first slider entry of a page's init data, or empty.
pub open spec fn slider_settings_in(settings: Seq<(Seq<char>, Seq<char>)>) -> Seq<char>
    decreases settings.len(),
{
    if settings.len() == 0 {
        Seq::empty()
    } else if settings[0].0 == "slider"@ {
        settings[0].1
    } else {
        slider_settings_in(settings.drop_first())
    }
}

/// The slider settings of a page's entries are those of the first entry
/// whose type is "slider", and empty when no entry has that type.
pub proof fn lemma_slider_settings_first_slider(settings: Seq<(Seq<char>, Seq<char>)>)
    ensures
        forall|i: int|
            0 <= i < settings.len() && (#[trigger] settings[i]).0 == "slider"@ && (forall|j: int|
                0 <= j < i ==> (#[trigger] settings[j]).0 != "slider"@) ==> slider_settings_in(settings)
                == settings[i].1,
        (forall|j: int| 0 <= j < settings.len() ==> (#[trigger] settings[j]).0 != "slider"@) ==> slider_settings_in(
            settings,
        ) == Seq::<char>::empty(),
    decreases settings.len(),
{
    if settings.len() > 0 {
        let rest = settings.drop_first();
        lemma_slider_settings_first_slider(rest);
        assert forall|i: int|
            0 <= i < settings.len() && (#[trigger] settings[i]).0 == "slider"@ && (forall|j: int|
                0 <= j < i ==> (#[trigger] settings[j]).0 != "slider"@) implies slider_settings_in(settings)
            == settings[i].1 by {
            if i > 0 {
                assert(settings[0].0 != "slider"@);
                assert(rest[i - 1] == settings[i]);
                assert forall|j: int| 0 <= j < i - 1 implies (#[trigger] rest[j]).0 != "slider"@ by {
                    assert(rest[j] == settings[j + 1]);
                }
            }
        }
        if forall|j: int| 0 <= j < settings.len() ==> (#[trigger] settings[j]).0 != "slider"@ {
            assert(settings[0].0 != "slider"@);
            assert forall|j: int| 0 <= j < rest.len() implies (#[trigger] rest[j]).0 != "slider"@ by {
                assert(rest[j] == settings[j + 1]);
            }
        }
    }
}

/// The settings of the page's first slider entry, or empty.
pub fn captchaV2SliderSettings(page: &captchaV2Page) -> (r: String)
    ensures
        r@ == slider_settings_in(page_view(*page).4),
{
    match &page.init {
        None => String::new(),
        Some(init) => {
            let v = &init.data.captcha_settings;
            let ghost sv = v@.map_values(|s: captchaV2InitSetting| setting_view(s));
            let mut i: usize = 0;
            assert(sv.skip(0) =~= sv);
            while i < v.len()
                invariant
                    sv == v@.map_values(|s: captchaV2InitSetting| setting_view(s)),
                    sv == page_view(*page).4,
                    i <= v@.len(),
                    slider_settings_in(sv) == slider_settings_in(sv.skip(i as int)),
                decreases v@.len() - i,
            {
                assert(sv.skip(i as int)[0] == sv[i as int]);
                assert(sv.skip(i as int).drop_first() =~= sv.skip(i + 1));
                if str_eq(v[i].kind.as_str(), "slider") {
                    return v[i].settings.clone();
                }
                i = i + 1;
            }
            String::new()
        },
    }
}

/// The captcha type the page shows first, or empty.
pub fn captchaV2ShowType(page: &captchaV2Page) -> (r: String)
    ensures
        r@ == page_view(*page).3,
{
    match &page.init {
        Some(init) => init.data.show_captcha_type.clone(),
        None => String::new(),
    }
}

/// What a solve starts from, read from the page: the proof-of-work answer,
/// the slider settings and the captcha type shown first. A page without a
/// proof-of-work input, or whose proof of work has no answer, fails.
pub open spec fn prepared(page: (Seq<char>, i32, Seq<char>, Seq<char>, Seq<(Seq<char>, Seq<char>)>)) -> Result<
    (Seq<char>, Seq<char>, Seq<char>),
    CaptchaFlowError,
> {
    if page.0.len() == 0 {
        Err(CaptchaFlowError::PowSettingsMissing)
    } else if pow_solution(page.0, page.1 as int).len() == 0 {
        Err(CaptchaFlowError::PowFailed)
    } else {
        Ok((pow_solution(page.0, page.1 as int), slider_settings_in(page.4), page.3))
    }
}

/// The first steps of a solve: checks the page's proof-of-work input, solves
/// the proof of work, and reads the slider settings and the type shown
/// first. Returns (hash, slider settings, show type).
pub fn captchaV2Prepare(page: &captchaV2Page) -> (r: Result<(String, String, String), CaptchaFlowError>)
    ensures
        match prepared(page_view(*page)) {
            Ok(t) => r matches Ok(x) && (x.0@, x.1@, x.2@) == t,
            Err(e) => r matches Err(f) && f == e,
        },
{
    if page.pow_input.as_str().is_empty() {
        return Err(CaptchaFlowError::PowSettingsMissing);
    }
    let slider_settings = captchaV2SliderSettings(page);
    let hash = solveCaptchaPoWV2(page.pow_input.as_str(), page.pow_difficulty);
    if hash.as_str().is_empty() {
        return Err(CaptchaFlowError::PowFailed);
    }
    let show_type = captchaV2ShowType(page);
    Ok((hash, slider_settings, show_type))
}

/// The kinds of captcha the client solves.
#[derive(Debug, Clone, Copy, PartialEq, Eq)]
pub enum CaptchaKind {
    Slider,
    Checkbox,
}

/// The solver for a shown captcha type: "slider" is a slider; "checkbox" and
/// no type are a checkbox; anything else is unsupported.
pub open spec fn kind_of(show_type: Seq<char>) -> Result<CaptchaKind, CaptchaFlowError> {
    if show_type == "slider"@ {
        Ok(CaptchaKind::Slider)
    } else if show_type == "checkbox"@ || show_type.len() == 0 {
        Ok(CaptchaKind::Checkbox)
    } else {
        Err(CaptchaFlowError::UnsupportedType(arbitrary()))
    }
}

/// The solver for a shown captcha type.
pub fn captchaV2Kind(show_type: &str) -> (r: Result<CaptchaKind, CaptchaFlowError>)
    ensures
        match kind_of(show_type@) {
            Ok(k) => r == Ok::<CaptchaKind, CaptchaFlowError>(k),
            Err(_) => r matches Err(CaptchaFlowError::UnsupportedType(t)) && t@ == show_type@,
        },
{
    if str_eq(show_type, "slider") {
        Ok(CaptchaKind::Slider)
    } else if str_eq(show_type, "checkbox") || show_type.is_empty() {
        Ok(CaptchaKind::Checkbox)
    } else {
        Err(CaptchaFlowError::UnsupportedType(String::from_str(show_type)))
    }
}

/// Whether a failed solve is retried as a slider: its error mentions "bot",
/// the failed solve was not a slider, and the page configures a slider.
pub open spec fn retry_as_slider(err: Seq<char>, show_type: Seq<char>, slider_settings: Seq<char>) -> bool {
    contains_seq(err, "bot"@) && show_type != "slider"@ && slider_settings.len() > 0
}

/// Whether a failed solve is retried as a slider.
pub fn captchaV2RetryAsSlider(err: &str, show_type: &str, slider_settings: &str) -> (r: bool)
    ensures
        r == retry_as_slider(err@, show_type@, slider_settings@),
{
    let e = chars_of(err);
    let b = chars_of("bot");
    contains_chars(e.as_slice(), b.as_slice()) && !str_eq(show_type, "slider") && !slider_settings.is_empty()
}

/// What a checkbox check answer yields: a check for another type fails
/// first, then a used-up session, then any status but "ok" (ASCII case
/// ignored), then a missing token; otherwise the success token.
pub open spec fn checkbox_outcome(status: Seq<char>, token: Seq<char>, show_type: Seq<char>) -> Result<
    Seq<char>,
    CaptchaFlowError,
> {
    if show_type.len() > 0 && !ascii_ieq(show_type, "checkbox"@) {
        Err(CaptchaFlowError::ShowTypeMismatch(arbitrary()))
    } else if ascii_ieq(status, "error_limit"@) {
        Err(CaptchaFlowError::RateLimited)
    } else if !ascii_ieq(status, "ok"@) {
        Err(CaptchaFlowError::CheckboxRejected(arbitrary()))
    } else if token.len() == 0 {
        Err(CaptchaFlowError::TokenMissing)
    } else {
        Ok(token)
    }
}

/// Whether a flow error is the one an outcome names, with its text.
pub open spec fn flow_error_is(f: CaptchaFlowError, e: CaptchaFlowError, text: Seq<char>) -> bool {
    match e {
        CaptchaFlowError::ShowTypeMismatch(_) => (f matches CaptchaFlowError::ShowTypeMismatch(t) && t@ == text),
        CaptchaFlowError::CheckboxRejected(_) => (f matches CaptchaFlowError::CheckboxRejected(t) && t@ == text),
        CaptchaFlowError::UnsupportedType(_) => (f matches CaptchaFlowError::UnsupportedType(t) && t@ == text),
        _ => f == e,
    }
}

/// The result of a checkbox check answer.
pub fn captchaV2CheckboxOutcome(check: &captchaV2Check) -> (r: Result<String, CaptchaFlowError>)
    ensures
        match checkbox_outcome(check.status@, check.success_token@, check.show_type@) {
            Ok(t) => r matches Ok(s) && s@ == t,
            Err(e) => r matches Err(f) && flow_error_is(
                f,
                e,
                match e {
                    CaptchaFlowError::ShowTypeMismatch(_) => check.show_type@,
                    _ => check.status@,
                },
            ),
        },
{
    if !check.show_type.as_str().is_empty() && !eq_ignore_ascii_case(check.show_type.as_str(), "checkbox") {
        return Err(CaptchaFlowError::ShowTypeMismatch(check.show_type.clone()));
    }
    if eq_ignore_ascii_case(check.status.as_str(), "error_limit") {
        return Err(CaptchaFlowError::RateLimited);
    }
    if !eq_ignore_ascii_case(check.status.as_str(), "ok") {
        return Err(CaptchaFlowError::CheckboxRejected(check.status.clone()));
    }
    if check.success_token.as_str().is_empty() {
        return Err(CaptchaFlowError::TokenMissing);
    }
    Ok(check.success_token.clone())
}

/// What the client does after a slider check answer.
#[derive(Debug, Clone)]
pub enum SliderCheckStep {
    /// The captcha is solved with this token.
    Solved(String),
    /// Solving failed.
    Failed(CaptchaFlowError),
    /// Try the next guess.
    Next,
}

/// The step after a slider check answer: status "ok" solves (with a
/// token, else fails), "error_limit" fails, anything else tries the next
/// guess. Status is compared ignoring ASCII case.
pub fn captchaV2SliderOutcome(check: &captchaV2Check) -> (r: SliderCheckStep)
    ensures
        ascii_ieq(check.status@, "ok"@) && check.success_token@.len() > 0 ==> (r matches SliderCheckStep::Solved(t)
            && t@ == check.success_token@),
        ascii_ieq(check.status@, "ok"@) && check.success_token@.len() == 0 ==> r matches SliderCheckStep::Failed(
            CaptchaFlowError::TokenMissing,
        ),
        !ascii_ieq(check.status@, "ok"@) && ascii_ieq(check.status@, "error_limit"@) ==> r matches SliderCheckStep::Failed(
            CaptchaFlowError::RateLimited,
        ),
        !ascii_ieq(check.status@, "ok"@) && !ascii_ieq(check.status@, "error_limit"@) ==> r is Next,
{
    if eq_ignore_ascii_case(check.status.as_str(), "ok") {
        if check.success_token.as_str().is_empty() {
            return SliderCheckStep::Failed(CaptchaFlowError::TokenMissing);
        }
        return SliderCheckStep::Solved(check.success_token.clone());
    }
    if eq_ignore_ascii_case(check.status.as_str(), "error_limit") {
        return SliderCheckStep::Failed(CaptchaFlowError::RateLimited);
    }
    SliderCheckStep::Next
}

/// How many slider guesses are checked: as many as the puzzle allows and
/// there are guesses; none fails.
pub fn captchaV2SliderAttemptLimit(attempts: usize, guesses: usize) -> (r: Result<usize, CaptchaFlowError>)
    ensures
        (if attempts < guesses { attempts } else { guesses }) == 0 ==> r matches Err(CaptchaFlowError::NoAttempts),
        (if attempts < guesses { attempts } else { guesses }) > 0 ==> (r matches Ok(n) && n == (if attempts < guesses {
            attempts
        } else {
            guesses
        })),
{
    let limit = if attempts < guesses { attempts } else { guesses };
    if limit == 0 {
        Err(CaptchaFlowError::NoAttempts)
    } else {
        Ok(limit)
    }
}

/// How many attempts a solve makes: at least one.
pub fn captchaV2AttemptCount(max_attempts: usize) -> (r: usize)
    ensures
        r == if max_attempts < 1 { 1 } else { max_attempts },
{
    if max_attempts < 1 {
        1
    } else {
        max_attempts
    }
}

/// The pause in milliseconds after failed attempt `attempt` (counted from
/// 1): half a second per attempt, at most five seconds.
pub fn captchaV2Backoff(attempt: usize) -> (r: u64)
    requires
        attempt <= usize::MAX / 500,
    ensures
        r as int == if attempt * 500 < 5000 { attempt * 500 } else { 5000 },
{
    let b = attempt * 500;
    if b < 5000 {
        b as u64
    } else {
        5000
    }
}

/// A solve needs the session token of the captcha error.
pub fn captchaV2CheckSession(captcha_err: &VkCaptchaError) -> (r: Result<(), CaptchaFlowError>)
    ensures
        captcha_err.session_token@.len() == 0 ==> r matches Err(CaptchaFlowError::NoSessionToken),
        captcha_err.session_token@.len() > 0 ==> r is Ok,
{
    if captcha_err.session_token.as_str().is_empty() {
        Err(CaptchaFlowError::NoSessionToken)
    } else {
        Ok(())
    }
}

/// The `debug_info` hash in the captcha script.
pub fn captchaV2DebugInfo(script: &str) -> (r: Result<String, CaptchaFlowError>)
    ensures
        match regex_capture1(RE_CAPTCHA_V2_DEBUG_INFO@, script@) {
            Some(t) => r matches Ok(s) && s@ == t,
            None => r matches Err(CaptchaFlowError::DebugInfoNotFound),
        },
{
    match regex_first_capture(RE_CAPTCHA_V2_DEBUG_INFO, script) {
        Some(t) => Ok(t),
        None => Err(CaptchaFlowError::DebugInfoNotFound),
    }
}

/// A fresh browser fingerprint: 16 random bytes in lower-case hex.
pub fn captchaV2BrowserFP() -> (r: String)
    ensures
        exists|b: Seq<u8>| b.len() == 16 && r@ == hex_lower(b),
{
    let bytes = random_bytes(16);
    hex_encode(bytes.as_slice())
}

/// The browser fingerprint a solve uses: the saved profile's when it has a
/// non-empty one, else a fresh one.
pub fn captchaV2PickBrowserFP(saved_profile: Option<&SavedProfile>) -> (r: String)
    ensures
        match saved_profile {
            Some(sp) => if sp.browser_fp@.len() > 0 {
                r@ == sp.browser_fp@
            } else {
                exists|b: Seq<u8>| b.len() == 16 && r@ == hex_lower(b)
            },
            None => exists|b: Seq<u8>| b.len() == 16 && r@ == hex_lower(b),
        },
{
    match saved_profile {
        Some(sp) => if !sp.browser_fp.as_str().is_empty() {
            sp.browser_fp.clone()
        } else {
            captchaV2BrowserFP()
        },
        None => captchaV2BrowserFP(),
    }
}

/// The URL of a captcha API method.
pub fn captchaV2MethodUrl(method: &str) -> (r: String)
    ensures
        r@ == "https://api.vk.ru/method/"@ + method@ + "?v="@ + CAPTCHA_V2_API_VERSION@,
{
    let mut v = chars_of("https://api.vk.ru/method/");
    push_str(&mut v, method);
    push_str(&mut v, "?v=");
    push_str(&mut v, CAPTCHA_V2_API_VERSION);
    string_of(v.as_slice())
}

/// The form of a captcha check: the session, the empty sensor readings, the
/// cursor track, the fingerprint, the proof-of-work hash, the answer in
/// base64 and the debug info.
pub open spec fn check_values(
    session_token: Seq<char>,
    browser_fp: Seq<char>,
    hash: Seq<char>,
    answer_json: Seq<char>,
    cursor: Seq<char>,
    debug_info: Seq<char>,
) -> Seq<(Seq<char>, Seq<char>)> {
    seq![
        ("session_token"@, session_token),
        ("domain"@, "vk.com"@),
        ("adFp"@, Seq::<char>::empty()),
        ("accelerometer"@, "[]"@),
        ("gyroscope"@, "[]"@),
        ("motion"@, "[]"@),
        ("cursor"@, cursor),
        ("taps"@, "[]"@),
        ("connectionRtt"@, "[]"@),
        ("connectionDownlink"@, "[]"@),
        ("browser_fp"@, browser_fp),
        ("hash"@, hash),
        ("answer"@, base64_standard(vstd::utf8::encode_utf8(answer_json))),
        ("debug_info"@, debug_info),
        ("access_token"@, Seq::<char>::empty()),
    ]
}

/// The form of a captcha check.
pub fn captchaV2CheckValues(
    session_token: &str,
    browser_fp: &str,
    hash: &str,
    answer_json: &str,
    cursor: &str,
    debug_info: &str,
) -> (r: Vec<(&'static str, String)>)
    ensures
        form_view(r@) == check_values(session_token@, browser_fp@, hash@, answer_json@, cursor@, debug_info@),
{
    let mut v: Vec<(&'static str, String)> = Vec::new();
    v.push(("session_token", String::from_str(session_token)));
    v.push(("domain", String::from_str("vk.com")));
    v.push(("adFp", String::new()));
    v.push(("accelerometer", String::from_str("[]")));
    v.push(("gyroscope", String::from_str("[]")));
    v.push(("motion", String::from_str("[]")));
    v.push(("cursor", String::from_str(cursor)));
    v.push(("taps", String::from_str("[]")));
    v.push(("connectionRtt", String::from_str("[]")));
    v.push(("connectionDownlink", String::from_str("[]")));
    v.push(("browser_fp", String::from_str(browser_fp)));
    v.push(("hash", String::from_str(hash)));
    v.push(("answer", base64_encode(answer_json.as_bytes())));
    v.push(("debug_info", String::from_str(debug_info)));
    v.push(("access_token", String::new()));
    assert(form_view(v@) =~= check_values(session_token@, browser_fp@, hash@, answer_json@, cursor@, debug_info@));
    v
}

/// The `componentDone` form sent before a checkbox check.
pub open spec fn checkbox_done_values(session_token: Seq<char>, browser_fp: Seq<char>) -> Seq<(Seq<char>, Seq<char>)> {
    seq![
        ("session_token"@, session_token),
        ("domain"@, "vk.com"@),
        ("adFp"@, Seq::<char>::empty()),
        ("browser_fp"@, browser_fp),
        ("device"@, CAPTCHA_V2_DEVICE_INFO@),
        ("access_token"@, Seq::<char>::empty()),
    ]
}

/// The `componentDone` form sent before a checkbox check.
pub fn captchaV2CheckboxDoneValues(session_token: &str, browser_fp: &str) -> (r: Vec<(&'static str, String)>)
    ensures
        form_view(r@) == checkbox_done_values(session_token@, browser_fp@),
{
    let mut v: Vec<(&'static str, String)> = Vec::new();
    v.push(("session_token", String::from_str(session_token)));
    v.push(("domain", String::from_str("vk.com")));
    v.push(("adFp", String::new()));
    v.push(("browser_fp", String::from_str(browser_fp)));
    v.push(("device", String::from_str(CAPTCHA_V2_DEVICE_INFO)));
    v.push(("access_token", String::new()));
    assert(form_view(v@) =~= checkbox_done_values(session_token@, browser_fp@));
    v
}

/// The `componentDone` form sent before the slider checks.
pub open spec fn slider_done_values(session_token: Seq<char>, browser_fp: Seq<char>) -> Seq<(Seq<char>, Seq<char>)> {
    seq![
        ("session_token"@, session_token),
        ("domain"@, "vk.com"@),
        ("adFp"@, Seq::<char>::empty()),
        ("access_token"@, Seq::<char>::empty()),
        ("browser_fp"@, browser_fp),
        ("device"@, CAPTCHA_V2_DEVICE_INFO@),
    ]
}

/// The `componentDone` form sent before the slider checks.
pub fn captchaV2SliderDoneValues(session_token: &str, browser_fp: &str) -> (r: Vec<(&'static str, String)>)
    ensures
        form_view(r@) == slider_done_values(session_token@, browser_fp@),
{
    let mut v: Vec<(&'static str, String)> = Vec::new();
    v.push(("session_token", String::from_str(session_token)));
    v.push(("domain", String::from_str("vk.com")));
    v.push(("adFp", String::new()));
    v.push(("access_token", String::new()));
    v.push(("browser_fp", String::from_str(browser_fp)));
    v.push(("device", String::from_str(CAPTCHA_V2_DEVICE_INFO)));
    assert(form_view(v@) =~= slider_done_values(session_token@, browser_fp@));
    v
}

} // verus!
