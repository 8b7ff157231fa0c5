//! VK application credentials, TURN credential caching and the
//! classification of VK errors.

use crate::json::{field_code, field_str_or_empty, get_code, get_str_or_empty, Json};
use crate::text::{
    append_chars, chars_of, contains_chars, contains_seq, find_char, i64_to_decimal, index_of_char, join,
    parse_i64, parse_i64_chars, split_char, split_chars, string_of, sub_chars, trim, trim_chars,
};
use std::collections::HashMap;
use vstd::prelude::*;
use vstd::string::StringSliceAdditionalSpecFns;

verus! {

broadcast use vstd::std_specs::hash::group_hash_axioms;

/// An application id and secret for VK's OAuth endpoints.
#[derive(Debug, Clone)]
pub struct VKCredentials {
    pub ClientID: String,
    pub ClientSecret: String,
}

/// The character a byte becomes once shifted by `shift` (wrapping).
pub open spec fn shifted_char(b: u8, shift: i8) -> char {
    (#[verifier::truncate] ((b as i16 + shift as i16) as u8)) as char
}

/// Every byte of a string shifted by `shift` and read as a character.
pub open spec fn deobf_spec(bytes: Seq<u8>, shift: i8) -> Seq<char> {
    bytes.map_values(|b: u8| shifted_char(b, shift))
}

/// Undoes the byte shift that hides the built-in credentials.
pub fn deobf(s: &str, shift: i8) -> (r: String)
    ensures
        r@ == deobf_spec(s.spec_bytes(), shift),
{
    let b = s.as_bytes();
    let mut out: Vec<char> = Vec::new();
    let mut i: usize = 0;
    while i < b.len()
        invariant
            b@ == s.spec_bytes(),
            i <= b@.len(),
            out@ == deobf_spec(b@.take(i as int), shift),
        decreases b@.len() - i,
    {
        let c = (#[verifier::truncate] ((b[i] as i16 + shift as i16) as u8)) as char;
        out.push(c);
        i = i + 1;
        assert(out@ =~= deobf_spec(b@.take(i as int), shift));
    }
    assert(b@.take(b@.len() as int) =~= b@);
    string_of(out.as_slice())
}

/// Why a credential list could not be read.
#[derive(Debug, Clone, Copy, PartialEq, Eq)]
pub enum CredentialsEnvError {
    InvalidPair,
    EmptyCredential,
    NoCredentials,
}

impl CredentialsEnvError {
    /// The message of the error.
    pub fn to_string(&self) -> (s: String)
        ensures
            *self == CredentialsEnvError::InvalidPair ==> s@ == "invalid credential pair"@,
            *self == CredentialsEnvError::EmptyCredential ==> s@ == "empty credential"@,
            *self == CredentialsEnvError::NoCredentials ==> s@ == "no credentials found"@,
    {
        match self {
            CredentialsEnvError::InvalidPair => String::from_str("invalid credential pair"),
            CredentialsEnvError::EmptyCredential => String::from_str("empty credential"),
            CredentialsEnvError::NoCredentials => String::from_str("no credentials found"),
        }
    }
}

/// One `id:secret` entry: the trimmed entry split at its first ':', both
/// sides non-empty.
pub open spec fn parse_pair(entry: Seq<char>) -> Result<(Seq<char>, Seq<char>), CredentialsEnvError> {
    let t = trim(entry);
    match index_of_char(t, ':') {
        None => Err(CredentialsEnvError::InvalidPair),
        Some(k) => {
            let a = t.take(k);
            let b = t.skip(k + 1);
            if a.len() == 0 || b.len() == 0 {
                Err(CredentialsEnvError::EmptyCredential)
            } else {
                Ok((a, b))
            }
        },
    }
}

/// The entries read in order, blank ones skipped; the first bad entry decides
/// the error.
pub open spec fn parse_pairs(entries: Seq<Seq<char>>) -> Result<Seq<(Seq<char>, Seq<char>)>, CredentialsEnvError>
    decreases entries.len(),
{
    if entries.len() == 0 {
        Ok(Seq::empty())
    } else {
        match parse_pairs(entries.drop_last()) {
            Err(e) => Err(e),
            Ok(acc) => if trim(entries.last()).len() == 0 {
                Ok(acc)
            } else {
                match parse_pair(entries.last()) {
                    Err(e) => Err(e),
                    Ok(p) => Ok(acc.push(p)),
                }
            },
        }
    }
}

/// What a comma-separated `id:secret` list yields: its pairs, or an error
/// when an entry is malformed or no entry is given.
pub open spec fn credentials_env(env: Seq<char>) -> Result<Seq<(Seq<char>, Seq<char>)>, CredentialsEnvError> {
    match parse_pairs(split_char(env, ',')) {
        Err(e) => Err(e),
        Ok(v) => if v.len() == 0 {
            Err(CredentialsEnvError::NoCredentials)
        } else {
            Ok(v)
        },
    }
}

/// The id and secret of credentials.
pub open spec fn creds_view(c: VKCredentials) -> (Seq<char>, Seq<char>) {
    (c.ClientID@, c.ClientSecret@)
}

/// One entry of a credential list.
fn parse_entry(entry: &[char]) -> (r: Result<VKCredentials, CredentialsEnvError>)
    ensures
        match parse_pair(entry@) {
            Err(e) => r == Err::<VKCredentials, CredentialsEnvError>(e),
            Ok(p) => r matches Ok(c) && creds_view(c) == p,
        },
{
    let t = trim_chars(entry);
    proof {
        crate::text::lemma_index_of_char(t@, ':');
    }
    match find_char(t.as_slice(), ':') {
        None => Err(CredentialsEnvError::InvalidPair),
        Some(k) => {
            let a = sub_chars(t.as_slice(), 0, k);
            let b = sub_chars(t.as_slice(), k + 1, t.len());
            assert(a@ =~= t@.take(k as int));
            assert(b@ =~= t@.skip(k + 1));
            if a.len() == 0 || b.len() == 0 {
                Err(CredentialsEnvError::EmptyCredential)
            } else {
                Ok(VKCredentials { ClientID: string_of(a.as_slice()), ClientSecret: string_of(b.as_slice()) })
            }
        },
    }
}

/// Reads a comma-separated `id:secret` credential list.
pub fn parseVKCredentialsEnv(env: &str) -> (r: Result<Vec<VKCredentials>, CredentialsEnvError>)
    ensures
        match credentials_env(env@) {
            Err(e) => r == Err::<Vec<VKCredentials>, CredentialsEnvError>(e),
            Ok(v) => r matches Ok(cs) && cs@.map_values(|c: VKCredentials| creds_view(c)) == v,
        },
{
    let chars = chars_of(env);
    let entries = split_chars(chars.as_slice(), ',');
    let ghost ev = entries@.map_values(|x: Vec<char>| x@);
    assert(ev =~= split_char(env@, ','));
    let mut out: Vec<VKCredentials> = Vec::new();
    let mut i: usize = 0;
    assert(ev.take(0) =~= Seq::<Seq<char>>::empty());
    while i < entries.len()
        invariant
            ev == entries@.map_values(|x: Vec<char>| x@),
            ev == split_char(env@, ','),
            i <= entries@.len(),
            parse_pairs(ev.take(i as int)) is Ok,
            parse_pairs(ev.take(i as int)) matches Ok(acc) && out@.map_values(|c: VKCredentials| creds_view(c)) == acc,
        decreases entries@.len() - i,
    {
        let e = entries[i].as_slice();
        let ghost pre = ev.take(i as int);
        assert(ev.take(i + 1).drop_last() =~= pre);
        assert(ev.take(i + 1).last() == e@);
        let t = trim_chars(e);
        if t.len() != 0 {
            match parse_entry(e) {
                Err(err) => {
                    proof {
                        assert(trim(e@).len() != 0);
                        assert(parse_pairs(ev.take(i + 1)) == Err::<Seq<(Seq<char>, Seq<char>)>, CredentialsEnvError>(err));
                        lemma_parse_pairs_err_sticks(ev, i as int + 1);
                        assert(ev.take(ev.len() as int) =~= ev);
                        assert(ev == split_char(env@, ','));
                    }
                    return Err(err);
                },
                Ok(c) => {
                    let ghost prev = out@.map_values(|c: VKCredentials| creds_view(c));
                    let ghost cv = creds_view(c);
                    out.push(c);
                    assert(out@.map_values(|c: VKCredentials| creds_view(c)) =~= prev.push(cv));
                },
            }
        }
        i = i + 1;
    }
    assert(ev.take(ev.len() as int) =~= ev);
    assert(ev == split_char(env@, ','));
    if out.len() == 0 {
        return Err(CredentialsEnvError::NoCredentials);
    }
    Ok(out)
}

/// Once a prefix of the entries fails, every longer prefix fails the same way.
proof fn lemma_parse_pairs_err_sticks(ev: Seq<Seq<char>>, i: int)
    requires
        0 <= i <= ev.len(),
        parse_pairs(ev.take(i)) is Err,
    ensures
        parse_pairs(ev) == parse_pairs(ev.take(i)),
    decreases ev.len() - i,
{
    if i < ev.len() {
        assert(ev.take(i + 1).drop_last() =~= ev.take(i));
        lemma_parse_pairs_err_sticks(ev, i + 1);
    } else {
        assert(ev.take(i) =~= ev);
    }
}

/// The credentials built in: the application id and secret hidden with a
/// shift of -3.
pub open spec fn default_credentials() -> Seq<(Seq<char>, Seq<char>)> {
    seq![(deobf_spec(";535939".spec_bytes(), -3i8), deobf_spec("oPUvWlPF|Sqs8yirogpq".spec_bytes(), -3i8))]
}

/// The credentials in force at start: those of the `WDTT_VK_CREDENTIALS`
/// setting when it is given and reads without error, else the built-in ones.
pub fn loadVKCredentials(env: Option<&str>) -> (r: Vec<VKCredentials>)
    ensures
        r@.map_values(|c: VKCredentials| creds_view(c)) == match env {
            Some(e) => match credentials_env(e@) {
                Ok(v) => v,
                Err(_) => default_credentials(),
            },
            None => default_credentials(),
        },
{
    if let Some(e) = env {
        if let Ok(v) = parseVKCredentialsEnv(e) {
            return v;
        }
    }
    let mut v: Vec<VKCredentials> = Vec::new();
    v.push(VKCredentials { ClientID: deobf(";535939", -3), ClientSecret: deobf("oPUvWlPF|Sqs8yirogpq", -3) });
    assert(v@.map_values(|c: VKCredentials| creds_view(c)) =~= default_credentials());
    v
}

/// The applications that `SetActiveClientIds` knows by id.
pub open spec fn known_client(id: Seq<char>) -> Option<(Seq<char>, Seq<char>)> {
    if id == "6287487"@ {
        Some(("6287487"@, "MuAxFaKDYDOICzGnEOhp"@))
    } else if id == "8202606"@ {
        Some(("8202606"@, "lMRsTiMCyPnp5vfoldmn"@))
    } else {
        None
    }
}

/// The known applications named in a comma-separated id list, in order.
pub open spec fn selected_clients(pieces: Seq<Seq<char>>) -> Seq<(Seq<char>, Seq<char>)>
    decreases pieces.len(),
{
    if pieces.len() == 0 {
        Seq::empty()
    } else {
        let acc = selected_clients(pieces.drop_last());
        match known_client(trim(pieces.last())) {
            Some(c) => acc.push(c),
            None => acc,
        }
    }
}

/// The credential list that requests use.
pub struct ActiveCredentials {
    pub list: Vec<VKCredentials>,
}

/// Looks up a known application by id.
fn known_client_exec(id: &[char]) -> (r: Option<VKCredentials>)
    ensures
        match known_client(id@) {
            Some(c) => r matches Some(x) && creds_view(x) == c,
            None => r is None,
        },
{
    let a = chars_of("6287487");
    let b = chars_of("8202606");
    if crate::text::chars_eq(id, a.as_slice()) {
        Some(VKCredentials { ClientID: String::from_str("6287487"), ClientSecret: String::from_str("MuAxFaKDYDOICzGnEOhp") })
    } else if crate::text::chars_eq(id, b.as_slice()) {
        Some(VKCredentials { ClientID: String::from_str("8202606"), ClientSecret: String::from_str("lMRsTiMCyPnp5vfoldmn") })
    } else {
        None
    }
}

/// Switches the credential list to the known applications named in a
/// comma-separated id list; a list naming none of them changes nothing.
pub fn SetActiveClientIds(active: &mut ActiveCredentials, ids: &str)
    ensures
        ({
            let sel = selected_clients(split_char(ids@, ','));
            &&& sel.len() > 0 ==> final(active).list@.map_values(|c: VKCredentials| creds_view(c)) == sel
            &&& sel.len() == 0 ==> final(active).list@ == old(active).list@
        }),
{
    let chars = chars_of(ids);
    let pieces = split_chars(chars.as_slice(), ',');
    let ghost pv = pieces@.map_values(|x: Vec<char>| x@);
    let mut v: Vec<VKCredentials> = Vec::new();
    let mut i: usize = 0;
    assert(pv.take(0) =~= Seq::<Seq<char>>::empty());
    while i < pieces.len()
        invariant
            pv == pieces@.map_values(|x: Vec<char>| x@),
            i <= pieces@.len(),
            v@.map_values(|c: VKCredentials| creds_view(c)) == selected_clients(pv.take(i as int)),
        decreases pieces@.len() - i,
    {
        let p = pieces[i].as_slice();
        assert(pv.take(i + 1).drop_last() =~= pv.take(i as int));
        assert(pv.take(i + 1).last() == p@);
        let t = trim_chars(p);
        match known_client_exec(t.as_slice()) {
            Some(c) => {
                let ghost prev = v@.map_values(|c: VKCredentials| creds_view(c));
                let ghost cv = creds_view(c);
                v.push(c);
                assert(v@.map_values(|c: VKCredentials| creds_view(c)) =~= prev.push(cv));
            },
            None => {},
        }
        i = i + 1;
    }
    assert(pv.take(pv.len() as int) =~= pv);
    if v.len() > 0 {
        active.list = v;
    }
}

/// The client ids of the credential list, joined with ", ".
pub fn GetActiveClientIdsString(active: &ActiveCredentials) -> (r: String)
    ensures
        r@ == join(active.list@.map_values(|c: VKCredentials| c.ClientID@), ", "@),
{
    let ghost ids = active.list@.map_values(|c: VKCredentials| c.ClientID@);
    let sep = chars_of(", ");
    let mut out: Vec<char> = Vec::new();
    let mut i: usize = 0;
    assert(ids.take(0) =~= Seq::<Seq<char>>::empty());
    while i < active.list.len()
        invariant
            ids == active.list@.map_values(|c: VKCredentials| c.ClientID@),
            sep@ == ", "@,
            i <= ids.len(),
            out@ == join(ids.take(i as int), ", "@),
        decreases ids.len() - i,
    {
        let id = chars_of(active.list[i].ClientID.as_str());
        assert(ids.take(i + 1).drop_last() =~= ids.take(i as int));
        assert(ids.take(i + 1).last() == id@);
        if i > 0 {
            append_chars(&mut out, sep.as_slice());
        } else {
            assert(ids.take(1) =~= seq![id@]);
        }
        append_chars(&mut out, id.as_slice());
        i = i + 1;
    }
    assert(ids.take(ids.len() as int) =~= ids);
    string_of(out.as_slice())
}

/// A VK refusal that makes the call unusable.
#[derive(Debug, Clone)]
pub struct CallUnavailableError {
    pub Code: i64,
    pub Message: String,
}

impl CallUnavailableError {
    /// "VK call is unavailable: <message> (error_code=<code>)".
    pub fn to_string(&self) -> (s: String)
        ensures
            s@ == "VK call is unavailable: "@ + self.Message@ + " (error_code="@ + crate::text::decimal(self.Code as int) + ")"@,
    {
        let mut v = chars_of("VK call is unavailable: ");
        let m = chars_of(self.Message.as_str());
        append_chars(&mut v, m.as_slice());
        let a = chars_of(" (error_code=");
        append_chars(&mut v, a.as_slice());
        let c = i64_to_decimal(self.Code);
        append_chars(&mut v, c.as_slice());
        let z = chars_of(")");
        append_chars(&mut v, z.as_slice());
        string_of(v.as_slice())
    }
}

/// Always `None`: no error is recognised as a call refusal by this path.
pub fn asCallUnavailableError<E>(_err: &E) -> (r: Option<&CallUnavailableError>)
    ensures
        r is None,
{
    None
}

/// Error codes that mean the call cannot be joined: 951, 954 and 9000-9999.
pub open spec fn is_fatal_call_code(code: i64) -> bool {
    code == 951 || code == 954 || (9000 <= code && code <= 9999)
}

/// The call refusal a VK response carries: its `error` member is an object
/// whose `error_code` is fatal.
pub open spec fn fatal_call_error(v: Json) -> Option<(i64, Seq<char>)> {
    match crate::json::field(v, "error"@) {
        Some(e) => match e {
            Json::Object(_) => {
                let code = field_code(e, "error_code"@);
                if is_fatal_call_code(code) {
                    Some((code, field_str_or_empty(e, "error_msg"@)))
                } else {
                    None
                }
            },
            _ => None,
        },
        None => None,
    }
}

/// The call refusal a VK response carries, if any.
pub fn fatalCallError(v: &Json) -> (r: Option<CallUnavailableError>)
    ensures
        match fatal_call_error(*v) {
            Some((code, msg)) => r matches Some(e) && e.Code == code && e.Message@ == msg,
            None => r is None,
        },
{
    let err = match v.get("error") {
        Some(e) => e,
        None => return None,
    };
    match err {
        Json::Object(_) => {},
        _ => return None,
    }
    let code = get_code(err, "error_code");
    if !(code == 951 || code == 954 || (9000 <= code && code <= 9999)) {
        return None;
    }
    let msg = get_str_or_empty(err, "error_msg");
    Some(CallUnavailableError { Code: code, Message: msg })
}

/// A VK error code read from an integer or from a string holding one; 0
/// otherwise.
pub open spec fn error_code_of(v: Json) -> i64 {
    match v {
        Json::Number(n) => match n.as_i64 {
            Some(x) => x,
            None => 0,
        },
        Json::String(s) => match parse_i64(s@) {
            Some(x) => x,
            None => 0,
        },
        _ => 0,
    }
}

/// A VK error code read from an integer or from a string holding one.
pub fn vkErrorCode(v: &Json) -> (r: i64)
    ensures
        r == error_code_of(*v),
{
    match v {
        Json::Number(n) => match n.as_i64 {
            Some(x) => x,
            None => 0,
        },
        Json::String(s) => {
            let c = chars_of(s.as_str());
            match parse_i64_chars(c.as_slice()) {
                Some(x) => x,
                None => 0,
            }
        },
        _ => 0,
    }
}

/// TURN credentials with the link they were fetched for and when they expire
/// (milliseconds on the application's clock).
#[derive(Debug)]
pub struct TurnCredentials {
    pub Username: String,
    pub Password: String,
    pub ServerAddrs: Vec<String>,
    pub ExpiresAt: u64,
    pub Link: String,
}

/// What is cached for a group of streams.
#[derive(Debug)]
pub struct StreamCredentialsCache {
    pub creds: Option<TurnCredentials>,
}

/// Streams that share one cache entry.
pub const STREAMS_PER_CACHE: i32 = 10;

/// How long fetched credentials are reused, in milliseconds (9 minutes).
pub const CREDS_LIFETIME_MS: u64 = 540_000;

/// The cache entry of a stream: its id divided by `STREAMS_PER_CACHE`,
/// rounded toward zero.
pub fn getCacheID(streamID: i32) -> (r: i32)
    ensures
        r == getCacheID_spec(streamID),
{
    if streamID >= 0 {
        streamID / STREAMS_PER_CACHE
    } else {
        let m = -(streamID as i64);
        -((m / (STREAMS_PER_CACHE as i64)) as i32)
    }
}

/// Does nothing: streams keep no cache of their own.
pub fn getStreamCache(_streamID: i32) {
}

/// A copy of a list of strings.
pub fn cloneStringSlice(v: &[String]) -> (r: Vec<String>)
    ensures
        r@ == v@,
{
    let mut r: Vec<String> = Vec::new();
    let mut i: usize = 0;
    while i < v.len()
        invariant
            i <= v@.len(),
            r@ == v@.take(i as int),
        decreases v@.len() - i,
    {
        r.push(v[i].clone());
        i = i + 1;
        assert(r@ =~= v@.take(i as int));
    }
    assert(v@.take(v@.len() as int) =~= v@);
    r
}

/// Texts that mark an error as an authentication failure.
pub open spec fn auth_error_marker(msg: Seq<char>) -> bool {
    contains_seq(msg, "401"@) || contains_seq(msg, "Unauthorized"@) || contains_seq(msg, "authentication"@)
        || contains_seq(msg, "invalid credential"@) || contains_seq(msg, "stale nonce"@)
}

/// Whether an error message reports an authentication failure.
pub fn isAuthError(msg: &str) -> (r: bool)
    ensures
        r == auth_error_marker(msg@),
{
    let m = chars_of(msg);
    let a = chars_of("401");
    let b = chars_of("Unauthorized");
    let c = chars_of("authentication");
    let d = chars_of("invalid credential");
    let e = chars_of("stale nonce");
    contains_chars(m.as_slice(), a.as_slice()) || contains_chars(m.as_slice(), b.as_slice()) || contains_chars(
        m.as_slice(),
        c.as_slice(),
    ) || contains_chars(m.as_slice(), d.as_slice()) || contains_chars(m.as_slice(), e.as_slice())
}

/// The TURN credentials cached per group of streams.
pub struct CredentialsCaches {
    pub map: HashMap<i32, StreamCredentialsCache>,
}

impl CredentialsCaches {
    /// No credentials cached.
    pub fn new() -> (c: CredentialsCaches)
        ensures
            c.map@ == Map::<i32, StreamCredentialsCache>::empty(),
    {
        CredentialsCaches { map: HashMap::new() }
    }
}

/// Forgets the cached credentials of a stream's group after an
/// authentication failure; always true.
pub fn handleAuthError(caches: &mut CredentialsCaches, streamID: i32) -> (r: bool)
    ensures
        r,
        final(caches).map@ == old(caches).map@.remove(getCacheID_spec(streamID)),
{
    let key = getCacheID(streamID);
    caches.map.remove(&key);
    true
}

/// The cache entry of a stream: its id divided by 10, rounded toward zero.
pub open spec fn getCacheID_spec(streamID: i32) -> i32 {
    if streamID >= 0 {
        (streamID as int / 10) as i32
    } else {
        (-((-(streamID as int)) / 10)) as i32
    }
}

/// The credentials of an entry that can still be used for `link` at `now`.
pub open spec fn usable_creds(entry: Option<StreamCredentialsCache>, link: Seq<char>, now: u64) -> Option<TurnCredentials> {
    match entry {
        Some(c) => match c.creds {
            Some(t) => if t.Link@ == link && t.ExpiresAt > now {
                Some(t)
            } else {
                None
            },
            None => None,
        },
        None => None,
    }
}

/// Credentials cached for a link at `stored_at` are handed out for that link
/// until `CREDS_LIFETIME_MS` later and not after, and never for another
/// link.
pub proof fn lemma_cached_creds_lifetime(t: TurnCredentials, link: Seq<char>, other: Seq<char>, stored_at: u64, now: u64)
    requires
        t.Link@ == link,
        t.ExpiresAt == stored_at + CREDS_LIFETIME_MS,
        other != link,
    ensures
        usable_creds(Some(StreamCredentialsCache { creds: Some(t) }), link, now) == if now < stored_at
            + CREDS_LIFETIME_MS {
            Some(t)
        } else {
            None
        },
        usable_creds(Some(StreamCredentialsCache { creds: Some(t) }), other, now) is None,
{
}

/// The cached credentials of a stream's group when they were fetched for
/// `link` and have not expired at `now`: user name, password and TURN
/// addresses.
pub fn cachedCreds(caches: &CredentialsCaches, link: &str, streamID: i32, now: u64) -> (r: Option<(String, String, Vec<String>)>)
    ensures
        match usable_creds(
            if caches.map@.contains_key(getCacheID_spec(streamID)) {
                Some(caches.map@[getCacheID_spec(streamID)])
            } else {
                None
            },
            link@,
            now,
        ) {
            Some(t) => r matches Some(x) && x.0@ == t.Username@ && x.1@ == t.Password@ && x.2@ == t.ServerAddrs@,
            None => r is None,
        },
{
    let key = getCacheID(streamID);
    match caches.map.get(&key) {
        Some(entry) => match &entry.creds {
            Some(t) => {
                if crate::text::str_eq(t.Link.as_str(), link) && t.ExpiresAt > now {
                    Some((t.Username.clone(), t.Password.clone(), cloneStringSlice(t.ServerAddrs.as_slice())))
                } else {
                    None
                }
            },
            None => None,
        },
        None => None,
    }
}

/// Caches freshly fetched credentials for a stream's group, valid for
/// `CREDS_LIFETIME_MS` from `now`.
pub fn storeCreds(
    caches: &mut CredentialsCaches,
    link: &str,
    streamID: i32,
    user: &str,
    pass: &str,
    addrs: &[String],
    now: u64,
)
    requires
        now <= u64::MAX - CREDS_LIFETIME_MS,
    ensures
        final(caches).map@.dom() == old(caches).map@.dom().insert(getCacheID_spec(streamID)),
        forall|k: i32| k != getCacheID_spec(streamID) && #[trigger] old(caches).map@.contains_key(k)
            ==> final(caches).map@[k] == old(caches).map@[k],
        usable_creds(Some(final(caches).map@[getCacheID_spec(streamID)]), link@, now) matches Some(t) && t.Username@
            == user@ && t.Password@ == pass@ && t.ServerAddrs@ == addrs@ && t.ExpiresAt == now + CREDS_LIFETIME_MS,
{
    let key = getCacheID(streamID);
    let t = TurnCredentials {
        Username: String::from_str(user),
        Password: String::from_str(pass),
        ServerAddrs: cloneStringSlice(addrs),
        ExpiresAt: now + CREDS_LIFETIME_MS,
        Link: String::from_str(link),
    };
    caches.map.insert(key, StreamCredentialsCache { creds: Some(t) });
    assert(final(caches).map@.dom() =~= old(caches).map@.dom().insert(key));
}

/// Why fetching TURN credentials failed on the legacy path.
#[derive(Debug, Clone, Copy, PartialEq, Eq)]
pub enum LegacyAuthError {
    Unavailable,
}

/// The legacy token chain is not available: always an error telling to use
/// the vkcalls path.
pub fn getTokenChain(_link: &str, _streamID: i32, _creds: &VKCredentials) -> (r: Result<(String, String, Vec<String>), LegacyAuthError>)
    ensures
        r == Err::<(String, String, Vec<String>), LegacyAuthError>(LegacyAuthError::Unavailable),
{
    Err(LegacyAuthError::Unavailable)
}

} // verus!
