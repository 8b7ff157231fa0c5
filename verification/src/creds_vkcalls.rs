//! TURN credentials through VK's anonymous call API ("vkcalls"): the five
//! requests of the path, how each answer is read, and the failures.
//!
//! The path is a state machine. `vkCallsStart` gives the first request;
//! `vkCallsAdvance` reads the answer to the pending request and gives the
//! next request, the credentials, or the failure. The application performs
//! the requests and decodes the answers.

use crate::captcha_v2::{captcha_error_view, parseVkCaptchaError, vk_captcha_error, VkCaptchaError};
use crate::json::{field, field_code, field_str, field_str_or_empty, get_code, get_str_or_empty, Json};
use crate::outside::{form_urlencode, form_urlencoded};
use crate::text::{
    append_chars, chars_of, decimal, find_char, i64_to_decimal, index_of_char, push_str, str_eq, string_of,
    strip_prefix_repeated, sub_chars, trim_start_matches_chars, truncated,
};
use vstd::prelude::*;
use vstd::string::StringSliceAdditionalSpecFns;

verus! {

/// Application id of VK Connect.
pub const vkConnectClientID: &'static str = "8093730";

/// Host of the anonymous calls API.
pub const vkCallsAPIHost: &'static str = "api.vk.me";

/// API version of the anonymous calls API.
pub const vkCallsAnonAPIVersion: &'static str = "5.276";

pub const VK_CALLS_FAILURE_SKIPPED: &'static str = "skipped";
pub const VK_CALLS_FAILURE_SETUP: &'static str = "setup";
pub const VK_CALLS_FAILURE_NETWORK: &'static str = "network";
pub const VK_CALLS_FAILURE_DECODE: &'static str = "decode";
pub const VK_CALLS_FAILURE_VKAPI: &'static str = "vk_api";
pub const VK_CALLS_FAILURE_CAPTCHA: &'static str = "captcha";
pub const VK_CALLS_FAILURE_CALL: &'static str = "call_unavailable";
pub const VK_CALLS_FAILURE_OKCDN: &'static str = "okcdn_api";
pub const VK_CALLS_FAILURE_PARSE: &'static str = "parse";

/// A failed step of the path: which step, what kind of failure, and the
/// underlying message.
#[derive(Debug, Clone)]
pub struct vkCallsFailure {
    pub Step: String,
    pub Kind: String,
    pub Err: String,
}

/// "step=<step> kind=<kind>: <err>".
pub open spec fn failure_text(step: Seq<char>, kind: Seq<char>, err: Seq<char>) -> Seq<char> {
    "step="@ + step + " kind="@ + kind + ": "@ + err
}

impl vkCallsFailure {
    /// "step=<step> kind=<kind>: <err>".
    pub fn to_string(&self) -> (s: String)
        ensures
            s@ == failure_text(self.Step@, self.Kind@, self.Err@),
    {
        let mut v: Vec<char> = Vec::new();
        push_str(&mut v, "step=");
        push_str(&mut v, self.Step.as_str());
        push_str(&mut v, " kind=");
        push_str(&mut v, self.Kind.as_str());
        push_str(&mut v, ": ");
        push_str(&mut v, self.Err.as_str());
        string_of(v.as_slice())
    }
}

/// A failure of step `step`, of kind `kind`, with message `err`.
pub fn newVKCallsFailure(step: &str, kind: &str, err: &str) -> (r: vkCallsFailure)
    ensures
        r.Step@ == step@ && r.Kind@ == kind@ && r.Err@ == err@,
{
    vkCallsFailure { Step: String::from_str(step), Kind: String::from_str(kind), Err: String::from_str(err) }
}

/// The message of a failure.
pub fn describeVKCallsFailure(err: &vkCallsFailure) -> (r: String)
    ensures
        r@ == failure_text(err.Step@, err.Kind@, err.Err@),
{
    err.to_string()
}

/// "error_code=<code> <message>".
pub open spec fn code_text(code: i64, msg: Seq<char>) -> Seq<char> {
    "error_code="@ + decimal(code as int) + " "@ + msg
}

/// "error_code=<code> <message>".
fn code_message(code: i64, msg: &str) -> (r: String)
    ensures
        r@ == code_text(code, msg@),
{
    let mut v: Vec<char> = Vec::new();
    push_str(&mut v, "error_code=");
    let d = i64_to_decimal(code);
    append_chars(&mut v, d.as_slice());
    push_str(&mut v, " ");
    push_str(&mut v, msg);
    string_of(v.as_slice())
}

/// A VK API error that is neither a captcha nor a call refusal.
#[derive(Debug, Clone)]
pub struct vkCallsVKAPIError {
    pub Code: i64,
    pub Message: String,
}

impl vkCallsVKAPIError {
    /// "error_code=<code> <message>".
    pub fn to_string(&self) -> (s: String)
        ensures
            s@ == code_text(self.Code, self.Message@),
    {
        code_message(self.Code, self.Message.as_str())
    }
}

/// An error of the OK CDN API.
#[derive(Debug, Clone)]
pub struct vkCallsOKAPIError {
    pub Code: i64,
    pub Message: String,
}

impl vkCallsOKAPIError {
    /// "error_code=<code> <message>".
    pub fn to_string(&self) -> (s: String)
        ensures
            s@ == code_text(self.Code, self.Message@),
    {
        code_message(self.Code, self.Message.as_str())
    }
}

/// A VK refusal that makes the call unusable.
#[derive(Debug, Clone)]
pub struct CallUnavailableError {
    pub Code: i64,
    pub Message: String,
}

/// The message of a call refusal.
pub open spec fn call_unavailable_text(code: i64, msg: Seq<char>) -> Seq<char> {
    if msg.len() == 0 {
        "VK call is unavailable (error_code="@ + decimal(code as int) + ")"@
    } else {
        "VK returns error: "@ + msg + " (error_code="@ + decimal(code as int) + ")"@
    }
}

impl CallUnavailableError {
    /// "VK call is unavailable (error_code=<code>)" when the message is
    /// empty, else "VK returns error: <message> (error_code=<code>)".
    pub fn to_string(&self) -> (s: String)
        ensures
            s@ == call_unavailable_text(self.Code, self.Message@),
    {
        let mut v: Vec<char> = Vec::new();
        if self.Message.as_str().is_empty() {
            push_str(&mut v, "VK call is unavailable (error_code=");
        } else {
            push_str(&mut v, "VK returns error: ");
            push_str(&mut v, self.Message.as_str());
            push_str(&mut v, " (error_code=");
        }
        let d = i64_to_decimal(self.Code);
        append_chars(&mut v, d.as_slice());
        push_str(&mut v, ")");
        string_of(v.as_slice())
    }
}

/// The call refusal a VK response carries: its `error` member is an object
/// whose `error_code` is 951, 954 or in 9000-9999.
pub fn fatalCallError(v: &Json) -> (r: Option<CallUnavailableError>)
    ensures
        match crate::vk_auth::fatal_call_error(*v) {
            Some((code, msg)) => r matches Some(e) && e.Code == code && e.Message@ == msg,
            None => r is None,
        },
{
    match crate::vk_auth::fatalCallError(v) {
        Some(e) => Some(CallUnavailableError { Code: e.Code, Message: e.Message }),
        None => None,
    }
}

/// An error a VK API answer carries.
#[derive(Debug, Clone)]
pub enum VkCallsAPIError {
    Captcha(VkCaptchaError),
    CallUnavailable(CallUnavailableError),
    VKAPI(vkCallsVKAPIError),
}

/// What an API error reads as, in spec terms.
pub enum ApiErrorView {
    Captcha(Seq<char>, Seq<char>, Seq<char>, Seq<char>, Seq<char>),
    CallUnavailable(i64, Seq<char>),
    VKAPI(i64, Seq<char>),
}

/// The view of an API error.
pub open spec fn api_error_view(e: VkCallsAPIError) -> ApiErrorView {
    match e {
        VkCallsAPIError::Captcha(c) => {
            let f = captcha_error_view(c);
            ApiErrorView::Captcha(f.0, f.1, f.2, f.3, f.4)
        },
        VkCallsAPIError::CallUnavailable(c) => ApiErrorView::CallUnavailable(c.Code, c.Message@),
        VkCallsAPIError::VKAPI(c) => ApiErrorView::VKAPI(c.Code, c.Message@),
    }
}

/// The error a VK API answer carries: none when its `error` member is not an
/// object or has neither code nor message; else a call refusal, a captcha
/// request (code 14 with a usable captcha object), or a plain API error.
pub open spec fn api_error(v: Json) -> Option<ApiErrorView> {
    match field(v, "error"@) {
        Some(e) => match e {
            Json::Object(_) => {
                let code = field_code(e, "error_code"@);
                let msg = field_str_or_empty(e, "error_msg"@);
                if code == 0 && msg.len() == 0 {
                    None
                } else {
                    match crate::vk_auth::fatal_call_error(v) {
                        Some((c, m)) => Some(ApiErrorView::CallUnavailable(c, m)),
                        None => if code == 14 && vk_captcha_error(e) is Some {
                            let f = vk_captcha_error(e)->Some_0;
                            Some(ApiErrorView::Captcha(f.0, f.1, f.2, f.3, f.4))
                        } else {
                            Some(ApiErrorView::VKAPI(code, msg))
                        },
                    }
                }
            },
            _ => None,
        },
        None => None,
    }
}

/// The failure kind of an API error.
pub open spec fn api_error_kind(e: ApiErrorView) -> Seq<char> {
    match e {
        ApiErrorView::Captcha(..) => VK_CALLS_FAILURE_CAPTCHA@,
        ApiErrorView::CallUnavailable(..) => VK_CALLS_FAILURE_CALL@,
        ApiErrorView::VKAPI(..) => VK_CALLS_FAILURE_VKAPI@,
    }
}

/// The message of an API error.
pub open spec fn api_error_text(e: ApiErrorView) -> Seq<char> {
    match e {
        ApiErrorView::Captcha(sid, _, _, _, _) => "VK captcha sid="@ + sid,
        ApiErrorView::CallUnavailable(code, msg) => call_unavailable_text(code, msg),
        ApiErrorView::VKAPI(code, msg) => code_text(code, msg),
    }
}

impl VkCallsAPIError {
    /// The message of the error.
    pub fn to_string(&self) -> (s: String)
        ensures
            s@ == api_error_text(api_error_view(*self)),
    {
        match self {
            VkCallsAPIError::Captcha(c) => c.to_string(),
            VkCallsAPIError::CallUnavailable(c) => c.to_string(),
            VkCallsAPIError::VKAPI(c) => c.to_string(),
        }
    }
}

/// The failure kind of an API error: "captcha", "call_unavailable" or
/// "vk_api".
pub fn vkCallsAPIErrorKind(err: &VkCallsAPIError) -> (r: &'static str)
    ensures
        r@ == api_error_kind(api_error_view(*err)),
{
    match err {
        VkCallsAPIError::Captcha(_) => VK_CALLS_FAILURE_CAPTCHA,
        VkCallsAPIError::CallUnavailable(_) => VK_CALLS_FAILURE_CALL,
        VkCallsAPIError::VKAPI(_) => VK_CALLS_FAILURE_VKAPI,
    }
}

/// The error a VK API answer carries, if any (see `api_error`).
pub fn vkCallsAPIError(v: &Json) -> (r: Option<VkCallsAPIError>)
    ensures
        match api_error(*v) {
            Some(e) => r matches Some(x) && api_error_view(x) == e,
            None => r is None,
        },
{
    let err_obj = match v.get("error") {
        Some(e) => e,
        None => return None,
    };
    match err_obj {
        Json::Object(_) => {},
        _ => return None,
    }
    let code = get_code(err_obj, "error_code");
    let msg = get_str_or_empty(err_obj, "error_msg");
    if code == 0 && msg.as_str().is_empty() {
        return None;
    }
    if let Some(call_err) = fatalCallError(v) {
        return Some(VkCallsAPIError::CallUnavailable(call_err));
    }
    if code == 14 {
        if let Some(captcha_err) = parseVkCaptchaError(err_obj) {
            return Some(VkCallsAPIError::Captcha(captcha_err));
        }
    }
    Some(VkCallsAPIError::VKAPI(vkCallsVKAPIError { Code: code, Message: msg }))
}

/// The error an OK CDN answer carries: its top-level `error_code`, when not 0.
pub open spec fn ok_error(v: Json) -> Option<(i64, Seq<char>)> {
    let code = field_code(v, "error_code"@);
    if code == 0 {
        None
    } else {
        Some((code, field_str_or_empty(v, "error_msg"@)))
    }
}

/// The error an OK CDN answer carries, if any.
pub fn vkCallsOKError(v: &Json) -> (r: Option<vkCallsOKAPIError>)
    ensures
        match ok_error(*v) {
            Some((code, msg)) => r matches Some(e) && e.Code == code && e.Message@ == msg,
            None => r is None,
        },
{
    let code = get_code(v, "error_code");
    if code == 0 {
        return None;
    }
    Some(vkCallsOKAPIError { Code: code, Message: get_str_or_empty(v, "error_msg") })
}

/// The first `n` characters of `s`, followed by "..." when `s` is longer.
pub fn truncateVKCallsLog(s: &str, n: usize) -> (r: String)
    ensures
        r@ == truncated(s@, n as nat),
{
    let c = chars_of(s);
    if c.len() <= n {
        string_of(c.as_slice())
    } else {
        let mut t = sub_chars(c.as_slice(), 0, n);
        push_str(&mut t, "...");
        string_of(t.as_slice())
    }
}

/// A response's JSON text cut to 200 characters for a log line.
pub fn truncateVKCallsResp(resp_text: &str) -> (r: String)
    ensures
        r@ == truncated(resp_text@, 200),
{
    truncateVKCallsLog(resp_text, 200)
}

/// Why a value could not be read at a path.
#[derive(Debug, Clone)]
pub enum ExtractError {
    /// A member on the path is missing.
    Missing(String),
    NotString,
    NotNumber,
}

/// The message of an extraction error.
pub open spec fn extract_error_text(e: ExtractError) -> Seq<char> {
    match e {
        ExtractError::Missing(k) => "missing "@ + k@,
        ExtractError::NotString => "not string"@,
        ExtractError::NotNumber => "not number"@,
    }
}

impl ExtractError {
    /// "missing <key>", "not string" or "not number".
    pub fn to_string(&self) -> (s: String)
        ensures
            s@ == extract_error_text(*self),
    {
        match self {
            ExtractError::Missing(k) => {
                let mut v: Vec<char> = Vec::new();
                push_str(&mut v, "missing ");
                push_str(&mut v, k.as_str());
                string_of(v.as_slice())
            },
            ExtractError::NotString => String::from_str("not string"),
            ExtractError::NotNumber => String::from_str("not number"),
        }
    }
}

/// The value at a path of member names, or the first name that is missing.
pub open spec fn json_path(v: Json, keys: Seq<Seq<char>>) -> Result<Json, Seq<char>>
    decreases keys.len(),
{
    if keys.len() == 0 {
        Ok(v)
    } else {
        match field(v, keys[0]) {
            Some(x) => json_path(x, keys.drop_first()),
            None => Err(keys[0]),
        }
    }
}

/// The names of a path.
pub open spec fn keys_view(keys: Seq<&str>) -> Seq<Seq<char>> {
    keys.map_values(|k: &str| k@)
}

/// The value at a path of member names.
fn walk_path<'a>(v: &'a Json, keys: &[&str]) -> (r: Result<&'a Json, String>)
    ensures
        match json_path(*v, keys_view(keys@)) {
            Ok(x) => r matches Ok(y) && *y == x,
            Err(k) => r matches Err(m) && m@ == k,
        },
{
    let ghost kv = keys_view(keys@);
    let mut p: &Json = v;
    let mut i: usize = 0;
    assert(kv.skip(0) =~= kv);
    while i < keys.len()
        invariant
            kv == keys_view(keys@),
            i <= keys@.len(),
            json_path(*v, kv) == json_path(*p, kv.skip(i as int)),
        decreases keys@.len() - i,
    {
        let k = keys[i];
        assert(kv.skip(i as int)[0] == k@);
        assert(kv.skip(i as int).drop_first() =~= kv.skip(i + 1));
        match p.get(k) {
            Some(x) => {
                p = x;
            },
            None => {
                return Err(String::from_str(k));
            },
        }
        i = i + 1;
    }
    Ok(p)
}

/// The string at a path, or the message of why there is none.
pub open spec fn path_str(v: Json, keys: Seq<Seq<char>>) -> Result<Seq<char>, Seq<char>> {
    match json_path(v, keys) {
        Ok(Json::String(s)) => Ok(s@),
        Ok(_) => Err("not string"@),
        Err(k) => Err("missing "@ + k),
    }
}

/// The string at a path of member names.
pub fn extractVKCallsStr(v: &Json, keys: &[&str]) -> (r: Result<String, ExtractError>)
    ensures
        match path_str(*v, keys_view(keys@)) {
            Ok(s) => r matches Ok(t) && t@ == s,
            Err(m) => r matches Err(f) && extract_error_text(f) == m,
        },
{
    match walk_path(v, keys) {
        Ok(Json::String(s)) => Ok(s.clone()),
        Ok(_) => Err(ExtractError::NotString),
        Err(k) => Err(ExtractError::Missing(k)),
    }
}

/// The number at a path, as `f64 as i64` converts it, or the message of why
/// there is none.
pub open spec fn path_trunc(v: Json, keys: Seq<Seq<char>>) -> Result<i64, Seq<char>> {
    match json_path(v, keys) {
        Ok(Json::Number(n)) => Ok(n.f64_trunc),
        Ok(_) => Err("not number"@),
        Err(k) => Err("missing "@ + k),
    }
}

/// The number at a path of member names, read as a float and converted to
/// `i64` toward zero.
pub fn extractVKCallsTrunc(v: &Json, keys: &[&str]) -> (r: Result<i64, ExtractError>)
    ensures
        match path_trunc(*v, keys_view(keys@)) {
            Ok(n) => r matches Ok(m) && m == n,
            Err(m) => r matches Err(f) && extract_error_text(f) == m,
        },
{
    match walk_path(v, keys) {
        Ok(Json::Number(n)) => Ok(n.f64_trunc),
        Ok(_) => Err(ExtractError::NotNumber),
        Err(k) => Err(ExtractError::Missing(k)),
    }
}

/// A TURN address as the path gives it: the URL up to its first '?', with
/// leading "turn:" and then "turns:" prefixes removed.
pub open spec fn turn_address_of(url: Seq<char>) -> Seq<char> {
    let head = match index_of_char(url, '?') {
        Some(i) => url.take(i),
        None => url,
    };
    strip_prefix_repeated(strip_prefix_repeated(head, "turn:"@), "turns:"@)
}

/// The TURN addresses of the string items of `items`.
pub open spec fn turn_addresses_of(items: Seq<Json>) -> Seq<Seq<char>>
    decreases items.len(),
{
    if items.len() == 0 {
        Seq::empty()
    } else {
        let acc = turn_addresses_of(items.drop_last());
        match items.last() {
            Json::String(s) => acc.push(turn_address_of(s@)),
            _ => acc,
        }
    }
}

/// The TURN addresses of the `turn_server.urls` array of an answer.
pub open spec fn turn_addresses(v: Json) -> Seq<Seq<char>> {
    match field(v, "turn_server"@) {
        Some(t) => match field(t, "urls"@) {
            Some(Json::Array(items)) => turn_addresses_of(items@),
            _ => Seq::empty(),
        },
        None => Seq::empty(),
    }
}

/// One TURN address.
fn turn_address_from(url: &str) -> (r: String)
    ensures
        r@ == turn_address_of(url@),
{
    let c = chars_of(url);
    proof {
        crate::text::lemma_index_of_char(c@, '?');
    }
    let head = match find_char(c.as_slice(), '?') {
        Some(i) => sub_chars(c.as_slice(), 0, i),
        None => c,
    };
    let p1 = chars_of("turn:");
    let p2 = chars_of("turns:");
    proof {
        reveal_strlit("turn:");
        reveal_strlit("turns:");
    }
    let a = trim_start_matches_chars(head.as_slice(), p1.as_slice());
    let b = trim_start_matches_chars(a.as_slice(), p2.as_slice());
    string_of(b.as_slice())
}

/// The TURN addresses of the `turn_server.urls` array of an answer.
pub fn parseVKCallsTURNAddresses(v: &Json) -> (r: Vec<String>)
    ensures
        r@.map_values(|x: String| x@) == turn_addresses(*v),
{
    let t = match v.get("turn_server") {
        Some(t) => t,
        None => return Vec::new(),
    };
    let items = match t.get("urls") {
        Some(Json::Array(items)) => items,
        _ => return Vec::new(),
    };
    let mut out: Vec<String> = Vec::new();
    let mut i: usize = 0;
    assert(items@.take(0) =~= Seq::<Json>::empty());
    while i < items.len()
        invariant
            i <= items@.len(),
            out@.map_values(|x: String| x@) == turn_addresses_of(items@.take(i as int)),
        decreases items@.len() - i,
    {
        assert(items@.take(i + 1).drop_last() =~= items@.take(i as int));
        assert(items@.take(i + 1).last() == items@[i as int]);
        match &items[i] {
            Json::String(s) => {
                let a = turn_address_from(s.as_str());
                let ghost prev = out@.map_values(|x: String| x@);
                let ghost av = a@;
                out.push(a);
                assert(out@.map_values(|x: String| x@) =~= prev.push(av));
            },
            _ => {},
        }
        i = i + 1;
    }
    assert(items@.take(items@.len() as int) =~= items@);
    out
}

/// The fixed parts of one run of the path: the call link, the two device ids
/// and the display name.
#[derive(Debug)]
pub struct VkCallsSession {
    pub link: String,
    pub device_id: String,
    pub name: String,
    pub ok_device_id: String,
}

/// A fresh run for a call link: random device ids and a random name.
pub fn newVkCallsSession(link: &str) -> (s: VkCallsSession)
    ensures
        s.link@ == link@,
        s.device_id@.len() == 36 && s.ok_device_id@.len() == 36,
        exists|i: int, j: int|
            0 <= i < 7 && 0 <= j < 6 && s.name@ == crate::namegen::FIRST@[i]@ + " "@ + crate::namegen::LAST@[j]@,
{
    let device_id = crate::outside::uuid_v4_string();
    let name = crate::namegen::generateName();
    let ok_device_id = crate::outside::uuid_v4_string();
    VkCallsSession { link: String::from_str(link), device_id, name, ok_device_id }
}

/// Which answer the path waits for.
#[derive(Debug)]
pub enum VkCallsState {
    /// Step 1, auth.getAnonymToken.
    AnonymToken,
    /// Step 2, messages.getCallPreview.
    CallPreview { anon_token: String },
    /// Step 3, messages.getAnonymCallToken.
    CallToken { anon_token: String },
    /// Step 4, auth.anonymLogin on the OK CDN.
    AnonymLogin { ok_anonym_token: String },
    /// Step 5, vchat.joinConversationByLink on the OK CDN.
    JoinConversation { ok_anonym_token: String, session_key: String },
}

/// A request of the path: the step's label and the URL to POST to.
#[derive(Debug)]
pub struct VkCallsRequest {
    pub step: String,
    pub url: String,
}

/// What follows an answer.
#[derive(Debug)]
pub enum VkCallsNext {
    Request { state: VkCallsState, request: VkCallsRequest },
    Done { user: String, pass: String, urls: Vec<String> },
    Failed(vkCallsFailure),
}

/// The fields of a run.
pub struct SessionView {
    pub link: Seq<char>,
    pub device_id: Seq<char>,
    pub name: Seq<char>,
    pub ok_device_id: Seq<char>,
}

/// The view of a run.
pub open spec fn session_view(s: VkCallsSession) -> SessionView {
    SessionView { link: s.link@, device_id: s.device_id@, name: s.name@, ok_device_id: s.ok_device_id@ }
}

/// The view of a state.
pub enum StateView {
    AnonymToken,
    CallPreview(Seq<char>),
    CallToken(Seq<char>),
    AnonymLogin(Seq<char>),
    JoinConversation(Seq<char>, Seq<char>),
}

/// The view of a state.
pub open spec fn state_view(s: VkCallsState) -> StateView {
    match s {
        VkCallsState::AnonymToken => StateView::AnonymToken,
        VkCallsState::CallPreview { anon_token } => StateView::CallPreview(anon_token@),
        VkCallsState::CallToken { anon_token } => StateView::CallToken(anon_token@),
        VkCallsState::AnonymLogin { ok_anonym_token } => StateView::AnonymLogin(ok_anonym_token@),
        VkCallsState::JoinConversation { ok_anonym_token, session_key } => StateView::JoinConversation(
            ok_anonym_token@,
            session_key@,
        ),
    }
}

/// The view of what follows an answer.
pub enum NextView {
    Request(StateView, Seq<char>, Seq<char>),
    Done(Seq<char>, Seq<char>, Seq<Seq<char>>),
    Failed(Seq<char>, Seq<char>, Seq<char>),
}

/// The view of what follows an answer.
pub open spec fn next_view(n: VkCallsNext) -> NextView {
    match n {
        VkCallsNext::Request { state, request } => NextView::Request(state_view(state), request.step@, request.url@),
        VkCallsNext::Done { user, pass, urls } => NextView::Done(user@, pass@, urls@.map_values(|x: String| x@)),
        VkCallsNext::Failed(f) => NextView::Failed(f.Step@, f.Kind@, f.Err@),
    }
}

/// A value escaped for a URL query.
pub open spec fn enc(x: Seq<char>) -> Seq<char> {
    form_urlencoded(vstd::utf8::encode_utf8(x))
}

/// The method URL prefix of the anonymous calls API.
pub open spec fn api_base() -> Seq<char> {
    "https://"@ + vkCallsAPIHost@ + "/method/"@
}

/// The escaped join link of a call.
pub open spec fn link_param(s: SessionView) -> Seq<char> {
    enc("https://vk.com/call/join/"@ + s.link)
}

/// Step 1: auth.getAnonymToken.
pub open spec fn step1_url(s: SessionView) -> Seq<char> {
    api_base() + "auth.getAnonymToken?v="@ + vkCallsAnonAPIVersion@ + "&client_id="@ + vkConnectClientID@ + "&link="@
        + link_param(s) + "&device_id="@ + s.device_id + "&anonymName="@ + enc(s.name) + "&lang=en"@
}

/// Step 2: messages.getCallPreview.
pub open spec fn step2_url(s: SessionView, anon_token: Seq<char>) -> Seq<char> {
    api_base() + "messages.getCallPreview?v="@ + vkCallsAnonAPIVersion@ + "&anonymous_token="@ + enc(anon_token)
        + "&device_id="@ + s.device_id + "&extended=1&fields=first_name,last_name,photo_200&lang=en&link="@
        + link_param(s)
}

/// Step 3: messages.getAnonymCallToken.
pub open spec fn step3_url(s: SessionView, anon_token: Seq<char>, user_id: i64, secret: Seq<char>) -> Seq<char> {
    api_base() + "messages.getAnonymCallToken?v="@ + vkCallsAnonAPIVersion@ + "&anonymous_token="@ + enc(anon_token)
        + "&device_id="@ + s.device_id + "&link="@ + link_param(s) + "&name="@ + enc(s.name) + "&user_id="@
        + decimal(user_id as int) + "&secret="@ + enc(secret) + "&lang=en"@
}

/// The session data of step 4.
pub open spec fn session_data(s: SessionView) -> Seq<char> {
    "{\"version\":2,\"device_id\":\""@ + s.ok_device_id + "\",\"client_version\":\"1.0.1\"}"@
}

/// Step 4: auth.anonymLogin.
pub open spec fn step4_url(s: SessionView) -> Seq<char> {
    "https://calls.okcdn.ru/fb.do?session_data="@ + enc(session_data(s))
        + "&method=auth.anonymLogin&format=JSON&application_key=CGMMEJLGDIHBABABA"@
}

/// Step 5: vchat.joinConversationByLink (the values go in unescaped).
pub open spec fn step5_url(s: SessionView, ok_anonym_token: Seq<char>, session_key: Seq<char>) -> Seq<char> {
    "https://calls.okcdn.ru/fb.do?joinLink="@ + s.link + "&isVideo=false&protocolVersion=5&anonymToken="@
        + ok_anonym_token + "&method=vchat.joinConversationByLink&format=JSON&application_key=CGMMEJLGDIHBABABA&session_key="@
        + session_key
}

/// A parse failure whose message ends with the answer, cut to 200 characters.
pub open spec fn parse_failure_with_resp(step: Seq<char>, what: Seq<char>, e: Seq<char>, resp_text: Seq<char>) -> NextView {
    NextView::Failed(step, VK_CALLS_FAILURE_PARSE@, "parse "@ + what + ": "@ + e + " (resp: "@ + truncated(resp_text, 200) + ")"@)
}

/// What follows the answer `resp` (whose JSON text is `resp_text`) in state
/// `st`.
pub open spec fn advance(s: SessionView, st: StateView, resp: Json, resp_text: Seq<char>) -> NextView {
    match st {
        StateView::AnonymToken => match path_str(resp, seq!["response"@, "token"@]) {
            Err(e) => parse_failure_with_resp("step1 auth.getAnonymToken"@, "token"@, e, resp_text),
            Ok(tok) => NextView::Request(StateView::CallPreview(tok), "step2 messages.getCallPreview"@, step2_url(s, tok)),
        },
        StateView::CallPreview(tok) => match api_error(resp) {
            Some(e) => NextView::Failed("step2 messages.getCallPreview"@, api_error_kind(e), api_error_text(e)),
            None => match path_trunc(resp, seq!["response"@, "user_id"@]) {
                Err(e) => parse_failure_with_resp("step2 messages.getCallPreview"@, "user_id"@, e, resp_text),
                Ok(uid) => match path_str(resp, seq!["response"@, "secret"@]) {
                    Err(e) => NextView::Failed(
                        "step2 messages.getCallPreview"@,
                        VK_CALLS_FAILURE_PARSE@,
                        "parse secret: "@ + e,
                    ),
                    Ok(secret) => NextView::Request(
                        StateView::CallToken(tok),
                        "step3 messages.getAnonymCallToken"@,
                        step3_url(s, tok, uid, secret),
                    ),
                },
            },
        },
        StateView::CallToken(_) => match api_error(resp) {
            Some(e) => NextView::Failed("step3 messages.getAnonymCallToken"@, api_error_kind(e), api_error_text(e)),
            None => match path_str(resp, seq!["response"@, "token"@]) {
                Err(e) => parse_failure_with_resp("step3 messages.getAnonymCallToken"@, "token"@, e, resp_text),
                Ok(ok_tok) => NextView::Request(StateView::AnonymLogin(ok_tok), "step4 auth.anonymLogin"@, step4_url(s)),
            },
        },
        StateView::AnonymLogin(ok_tok) => match path_str(resp, seq!["session_key"@]) {
            Err(e) => parse_failure_with_resp("step4 auth.anonymLogin"@, "session_key"@, e, resp_text),
            Ok(sk) => NextView::Request(
                StateView::JoinConversation(ok_tok, sk),
                "step5 vchat.joinConversationByLink"@,
                step5_url(s, ok_tok, sk),
            ),
        },
        StateView::JoinConversation(_, _) => {
            let step = "step5 vchat.joinConversationByLink"@;
            match ok_error(resp) {
                Some((code, msg)) => NextView::Failed(step, VK_CALLS_FAILURE_OKCDN@, code_text(code, msg)),
                None => match field(resp, "turn_server"@) {
                    None => NextView::Failed(step, VK_CALLS_FAILURE_PARSE@, "missing turn_server"@),
                    Some(ts) => match field_str(ts, "username"@) {
                        None => NextView::Failed(step, VK_CALLS_FAILURE_PARSE@, "missing username"@),
                        Some(user) => match field_str(ts, "credential"@) {
                            None => NextView::Failed(step, VK_CALLS_FAILURE_PARSE@, "missing credential"@),
                            Some(pass) => if turn_addresses(resp).len() == 0 {
                                NextView::Failed(step, VK_CALLS_FAILURE_PARSE@, "no TURN addresses"@)
                            } else {
                                NextView::Done(user, pass, turn_addresses(resp))
                            },
                        },
                    },
                },
            }
        },
    }
}

/// `url` carries the query parameter `link` with the value `v`.
pub open spec fn carries_link(url: Seq<char>, v: Seq<char>) -> bool {
    exists|i: int|
        0 <= i && i + ("&link="@ + v).len() <= url.len() && #[trigger] url.subrange(i, i + ("&link="@ + v).len())
            == "&link="@ + v
}

/// `a + m + b` carries `m` after `a`.
proof fn lemma_carries(a: Seq<char>, v: Seq<char>, b: Seq<char>)
    ensures
        carries_link(a + "&link="@ + v + b, v),
{
    let m = "&link="@ + v;
    let url = a + "&link="@ + v + b;
    assert(url =~= a + m + b);
    assert(url.subrange(a.len() as int, a.len() + m.len() as int) =~= m);
}

/// Every request of the path that names the call (steps 1, 2 and 3) carries
/// as `link` the same value: the form-encoded join link
/// "https://vk.com/call/join/" followed by the call hash.
pub proof fn lemma_requests_carry_join_link(s: SessionView, st: StateView, resp: Json, resp_text: Seq<char>)
    ensures
        carries_link(step1_url(s), form_urlencoded(vstd::utf8::encode_utf8("https://vk.com/call/join/"@ + s.link))),
        (st is AnonymToken || st is CallPreview) ==> (advance(s, st, resp, resp_text) matches NextView::Request(_, _, url)
            ==> carries_link(url, form_urlencoded(vstd::utf8::encode_utf8("https://vk.com/call/join/"@ + s.link)))),
{
    let v = form_urlencoded(vstd::utf8::encode_utf8("https://vk.com/call/join/"@ + s.link));
    lemma_carries(
        api_base() + "auth.getAnonymToken?v="@ + vkCallsAnonAPIVersion@ + "&client_id="@ + vkConnectClientID@,
        v,
        "&device_id="@ + s.device_id + "&anonymName="@ + enc(s.name) + "&lang=en"@,
    );
    assert(step1_url(s) =~= api_base() + "auth.getAnonymToken?v="@ + vkCallsAnonAPIVersion@ + "&client_id="@
        + vkConnectClientID@ + "&link="@ + v + ("&device_id="@ + s.device_id + "&anonymName="@ + enc(s.name)
        + "&lang=en"@));
    match st {
        StateView::AnonymToken => {
            match path_str(resp, seq!["response"@, "token"@]) {
                Ok(tok) => {
                    let a = api_base() + "messages.getCallPreview?v="@ + vkCallsAnonAPIVersion@ + "&anonymous_token="@
                        + enc(tok) + "&device_id="@ + s.device_id
                        + "&extended=1&fields=first_name,last_name,photo_200&lang=en"@;
                    lemma_carries(a, v, Seq::empty());
                    reveal_strlit("&extended=1&fields=first_name,last_name,photo_200&lang=en&link=");
                    reveal_strlit("&extended=1&fields=first_name,last_name,photo_200&lang=en");
                    reveal_strlit("&link=");
                    assert("&extended=1&fields=first_name,last_name,photo_200&lang=en&link="@
                        =~= "&extended=1&fields=first_name,last_name,photo_200&lang=en"@ + "&link="@);
                    assert(step2_url(s, tok) =~= a + "&link="@ + v + Seq::<char>::empty());
                },
                Err(_) => {},
            }
        },
        StateView::CallPreview(tok) => {
            match api_error(resp) {
                Some(_) => {},
                None => match path_trunc(resp, seq!["response"@, "user_id"@]) {
                    Err(_) => {},
                    Ok(uid) => match path_str(resp, seq!["response"@, "secret"@]) {
                        Err(_) => {},
                        Ok(secret) => {
                            let a = api_base() + "messages.getAnonymCallToken?v="@ + vkCallsAnonAPIVersion@
                                + "&anonymous_token="@ + enc(tok) + "&device_id="@ + s.device_id;
                            let b = "&name="@ + enc(s.name) + "&user_id="@ + decimal(uid as int) + "&secret="@
                                + enc(secret) + "&lang=en"@;
                            lemma_carries(a, v, b);
                            assert(step3_url(s, tok, uid, secret) =~= a + "&link="@ + v + b);
                        },
                    },
                },
            }
        },
        _ => {},
    }
}

/// Appends a value escaped for a URL query.
fn push_enc(out: &mut Vec<char>, x: &str)
    ensures
        final(out)@ == old(out)@ + enc(x@),
{
    let e = form_urlencode(x);
    push_str(out, e.as_str());
}

/// The escaped join link of a call.
fn link_param_exec(s: &VkCallsSession) -> (r: String)
    ensures
        r@ == link_param(session_view(*s)),
{
    let mut v: Vec<char> = Vec::new();
    push_str(&mut v, "https://vk.com/call/join/");
    push_str(&mut v, s.link.as_str());
    let full = string_of(v.as_slice());
    form_urlencode(full.as_str())
}

/// The first request of a run.
pub fn vkCallsStart(s: &VkCallsSession) -> (r: (VkCallsState, VkCallsRequest))
    ensures
        state_view(r.0) == StateView::AnonymToken,
        r.1.step@ == "step1 auth.getAnonymToken"@,
        r.1.url@ == step1_url(session_view(*s)),
{
    let link = link_param_exec(s);
    let mut u: Vec<char> = Vec::new();
    push_str(&mut u, "https://");
    push_str(&mut u, vkCallsAPIHost);
    push_str(&mut u, "/method/");
    push_str(&mut u, "auth.getAnonymToken?v=");
    push_str(&mut u, vkCallsAnonAPIVersion);
    push_str(&mut u, "&client_id=");
    push_str(&mut u, vkConnectClientID);
    push_str(&mut u, "&link=");
    push_str(&mut u, link.as_str());
    push_str(&mut u, "&device_id=");
    push_str(&mut u, s.device_id.as_str());
    push_str(&mut u, "&anonymName=");
    push_enc(&mut u, s.name.as_str());
    push_str(&mut u, "&lang=en");
    assert(u@ =~= step1_url(session_view(*s)));
    (
        VkCallsState::AnonymToken,
        VkCallsRequest { step: String::from_str("step1 auth.getAnonymToken"), url: string_of(u.as_slice()) },
    )
}

/// A parse failure whose message ends with the answer, cut to 200 characters.
fn parse_failure_resp(step: &str, what: &str, e: &ExtractError, resp_text: &str) -> (r: VkCallsNext)
    ensures
        next_view(r) == parse_failure_with_resp(step@, what@, extract_error_text(*e), resp_text@),
{
    let mut m: Vec<char> = Vec::new();
    push_str(&mut m, "parse ");
    push_str(&mut m, what);
    push_str(&mut m, ": ");
    let es = e.to_string();
    push_str(&mut m, es.as_str());
    push_str(&mut m, " (resp: ");
    let t = truncateVKCallsResp(resp_text);
    push_str(&mut m, t.as_str());
    push_str(&mut m, ")");
    let msg = string_of(m.as_slice());
    let r = VkCallsNext::Failed(newVKCallsFailure(step, VK_CALLS_FAILURE_PARSE, msg.as_str()));
    assert(m@ =~= "parse "@ + what@ + ": "@ + extract_error_text(*e) + " (resp: "@ + truncated(resp_text@, 200) + ")"@);
    r
}

/// A failure of `step` caused by an API error.
fn api_failure(step: &str, e: &VkCallsAPIError) -> (r: VkCallsNext)
    ensures
        next_view(r) == NextView::Failed(step@, api_error_kind(api_error_view(*e)), api_error_text(api_error_view(*e))),
{
    let msg = e.to_string();
    VkCallsNext::Failed(newVKCallsFailure(step, vkCallsAPIErrorKind(e), msg.as_str()))
}

/// Reads the answer to the pending request and gives what follows (see
/// `advance`). `resp_text` is the answer's JSON text, quoted in parse
/// failures.
pub fn vkCallsAdvance(s: &VkCallsSession, state: VkCallsState, resp: &Json, resp_text: &str) -> (r: VkCallsNext)
    ensures
        next_view(r) == advance(session_view(*s), state_view(state), *resp, resp_text@),
{
    let ghost sv = session_view(*s);
    match state {
        VkCallsState::AnonymToken => {
            let keys: [&str; 2] = ["response", "token"];
            assert(keys_view(keys@) =~= seq!["response"@, "token"@]);
            match extractVKCallsStr(resp, keys.as_slice()) {
                Err(e) => parse_failure_resp("step1 auth.getAnonymToken", "token", &e, resp_text),
                Ok(tok) => {
                    let mut u: Vec<char> = Vec::new();
                    push_str(&mut u, "https://");
                    push_str(&mut u, vkCallsAPIHost);
                    push_str(&mut u, "/method/");
                    push_str(&mut u, "messages.getCallPreview?v=");
                    push_str(&mut u, vkCallsAnonAPIVersion);
                    push_str(&mut u, "&anonymous_token=");
                    push_enc(&mut u, tok.as_str());
                    push_str(&mut u, "&device_id=");
                    push_str(&mut u, s.device_id.as_str());
                    push_str(&mut u, "&extended=1&fields=first_name,last_name,photo_200&lang=en&link=");
                    let link = link_param_exec(s);
                    push_str(&mut u, link.as_str());
                    assert(u@ =~= step2_url(sv, tok@));
                    VkCallsNext::Request {
                        state: VkCallsState::CallPreview { anon_token: tok },
                        request: VkCallsRequest {
                            step: String::from_str("step2 messages.getCallPreview"),
                            url: string_of(u.as_slice()),
                        },
                    }
                },
            }
        },
        VkCallsState::CallPreview { anon_token } => {
            if let Some(api_err) = vkCallsAPIError(resp) {
                return api_failure("step2 messages.getCallPreview", &api_err);
            }
            let k1: [&str; 2] = ["response", "user_id"];
            assert(keys_view(k1@) =~= seq!["response"@, "user_id"@]);
            let uid = match extractVKCallsTrunc(resp, k1.as_slice()) {
                Err(e) => return parse_failure_resp("step2 messages.getCallPreview", "user_id", &e, resp_text),
                Ok(u) => u,
            };
            let k2: [&str; 2] = ["response", "secret"];
            assert(keys_view(k2@) =~= seq!["response"@, "secret"@]);
            let secret = match extractVKCallsStr(resp, k2.as_slice()) {
                Err(e) => {
                    let mut m: Vec<char> = Vec::new();
                    push_str(&mut m, "parse secret: ");
                    let es = e.to_string();
                    push_str(&mut m, es.as_str());
                    let msg = string_of(m.as_slice());
                    return VkCallsNext::Failed(
                        newVKCallsFailure("step2 messages.getCallPreview", VK_CALLS_FAILURE_PARSE, msg.as_str()),
                    );
                },
                Ok(x) => x,
            };
            let mut u: Vec<char> = Vec::new();
            push_str(&mut u, "https://");
            push_str(&mut u, vkCallsAPIHost);
            push_str(&mut u, "/method/");
            push_str(&mut u, "messages.getAnonymCallToken?v=");
            push_str(&mut u, vkCallsAnonAPIVersion);
            push_str(&mut u, "&anonymous_token=");
            push_enc(&mut u, anon_token.as_str());
            push_str(&mut u, "&device_id=");
            push_str(&mut u, s.device_id.as_str());
            push_str(&mut u, "&link=");
            let link = link_param_exec(s);
            push_str(&mut u, link.as_str());
            push_str(&mut u, "&name=");
            push_enc(&mut u, s.name.as_str());
            push_str(&mut u, "&user_id=");
            let d = i64_to_decimal(uid);
            append_chars(&mut u, d.as_slice());
            push_str(&mut u, "&secret=");
            push_enc(&mut u, secret.as_str());
            push_str(&mut u, "&lang=en");
            assert(u@ =~= step3_url(sv, anon_token@, uid, secret@));
            VkCallsNext::Request {
                state: VkCallsState::CallToken { anon_token },
                request: VkCallsRequest {
                    step: String::from_str("step3 messages.getAnonymCallToken"),
                    url: string_of(u.as_slice()),
                },
            }
        },
        VkCallsState::CallToken { anon_token: _ } => {
            if let Some(api_err) = vkCallsAPIError(resp) {
                return api_failure("step3 messages.getAnonymCallToken", &api_err);
            }
            let keys: [&str; 2] = ["response", "token"];
            assert(keys_view(keys@) =~= seq!["response"@, "token"@]);
            match extractVKCallsStr(resp, keys.as_slice()) {
                Err(e) => parse_failure_resp("step3 messages.getAnonymCallToken", "token", &e, resp_text),
                Ok(ok_tok) => {
                    let mut sd: Vec<char> = Vec::new();
                    push_str(&mut sd, "{\"version\":2,\"device_id\":\"");
                    push_str(&mut sd, s.ok_device_id.as_str());
                    push_str(&mut sd, "\",\"client_version\":\"1.0.1\"}");
                    let sds = string_of(sd.as_slice());
                    let mut u: Vec<char> = Vec::new();
                    push_str(&mut u, "https://calls.okcdn.ru/fb.do?session_data=");
                    push_enc(&mut u, sds.as_str());
                    push_str(&mut u, "&method=auth.anonymLogin&format=JSON&application_key=CGMMEJLGDIHBABABA");
                    assert(u@ =~= step4_url(sv));
                    VkCallsNext::Request {
                        state: VkCallsState::AnonymLogin { ok_anonym_token: ok_tok },
                        request: VkCallsRequest {
                            step: String::from_str("step4 auth.anonymLogin"),
                            url: string_of(u.as_slice()),
                        },
                    }
                },
            }
        },
        VkCallsState::AnonymLogin { ok_anonym_token } => {
            let keys: [&str; 1] = ["session_key"];
            assert(keys_view(keys@) =~= seq!["session_key"@]);
            match extractVKCallsStr(resp, keys.as_slice()) {
                Err(e) => parse_failure_resp("step4 auth.anonymLogin", "session_key", &e, resp_text),
                Ok(sk) => {
                    let mut u: Vec<char> = Vec::new();
                    push_str(&mut u, "https://calls.okcdn.ru/fb.do?joinLink=");
                    push_str(&mut u, s.link.as_str());
                    push_str(&mut u, "&isVideo=false&protocolVersion=5&anonymToken=");
                    push_str(&mut u, ok_anonym_token.as_str());
                    push_str(
                        &mut u,
                        "&method=vchat.joinConversationByLink&format=JSON&application_key=CGMMEJLGDIHBABABA&session_key=",
                    );
                    push_str(&mut u, sk.as_str());
                    assert(u@ =~= step5_url(sv, ok_anonym_token@, sk@));
                    VkCallsNext::Request {
                        state: VkCallsState::JoinConversation { ok_anonym_token, session_key: sk },
                        request: VkCallsRequest {
                            step: String::from_str("step5 vchat.joinConversationByLink"),
                            url: string_of(u.as_slice()),
                        },
                    }
                },
            }
        },
        VkCallsState::JoinConversation { ok_anonym_token: _, session_key: _ } => {
            let step = "step5 vchat.joinConversationByLink";
            if let Some(ok_err) = vkCallsOKError(resp) {
                let msg = ok_err.to_string();
                return VkCallsNext::Failed(newVKCallsFailure(step, VK_CALLS_FAILURE_OKCDN, msg.as_str()));
            }
            let ts = match resp.get("turn_server") {
                Some(t) => t,
                None => return VkCallsNext::Failed(newVKCallsFailure(step, VK_CALLS_FAILURE_PARSE, "missing turn_server")),
            };
            let user = match ts.get("username") {
                Some(Json::String(u)) => u.clone(),
                _ => return VkCallsNext::Failed(newVKCallsFailure(step, VK_CALLS_FAILURE_PARSE, "missing username")),
            };
            let pass = match ts.get("credential") {
                Some(Json::String(p)) => p.clone(),
                _ => return VkCallsNext::Failed(newVKCallsFailure(step, VK_CALLS_FAILURE_PARSE, "missing credential")),
            };
            let urls = parseVKCallsTURNAddresses(resp);
            if urls.len() == 0 {
                return VkCallsNext::Failed(newVKCallsFailure(step, VK_CALLS_FAILURE_PARSE, "no TURN addresses"));
            }
            VkCallsNext::Done { user, pass, urls }
        },
    }
}

} // verus!
