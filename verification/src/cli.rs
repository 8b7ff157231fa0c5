//! The client's command line, its checks, and the commands it reads on its
//! standard input.

use crate::text::{all_digits, chars_of, digits_value, push_str, str_eq, string_of, trim, trim_str};
use crate::worker_group::workersPerGroup;
use vstd::prelude::*;

verus! {

/// The client's settings.
#[derive(Debug, Clone)]
pub struct Args {
    pub turn: String,
    pub port: String,
    pub listen: String,
    pub vk: String,
    pub peer: String,
    pub n: usize,
    pub device_id: String,
    pub password: String,
    pub obfs: String,
    pub fingerprint: String,
    pub captcha: String,
    pub vk_auth: String,
    pub client_ids: String,
}

/// Why the command line was refused.
#[derive(Debug, Clone)]
pub enum ArgsError {
    /// A flag with no value after it.
    MissingValue(String),
    /// The value of `-n` is not a count.
    InvalidCount,
    /// A flag the client does not know.
    UnknownArg(String),
}

/// The message of a command-line error.
pub open spec fn args_error_text(e: ArgsError) -> Seq<char> {
    match e {
        ArgsError::MissingValue(k) => "нет значения для "@ + k@,
        ArgsError::InvalidCount => "-n"@,
        ArgsError::UnknownArg(k) => "неизвестный аргумент: "@ + k@,
    }
}

impl ArgsError {
    /// The error's message.
    pub fn to_string(&self) -> (s: String)
        ensures
            s@ == args_error_text(*self),
    {
        match self {
            ArgsError::MissingValue(k) => {
                let mut v = chars_of("нет значения для ");
                push_str(&mut v, k.as_str());
                string_of(v.as_slice())
            },
            ArgsError::InvalidCount => String::from_str("-n"),
            ArgsError::UnknownArg(k) => {
                let mut v = chars_of("неизвестный аргумент: ");
                push_str(&mut v, k.as_str());
                string_of(v.as_slice())
            },
        }
    }
}

/// `str::parse::<usize>().ok()`: an optional `+` followed by one or more
/// ASCII digits, within `usize`.
pub open spec fn parse_usize(s: Seq<char>) -> Option<usize> {
    let d = if s.len() > 0 && s[0] == '+' { s.drop_first() } else { s };
    if d.len() == 0 || !all_digits(d) || digits_value(d) > usize::MAX {
        None
    } else {
        Some(digits_value(d) as usize)
    }
}

/// `str::parse::<usize>().ok()`.
pub fn parse_usize_str(s: &str) -> (r: Option<usize>)
    ensures
        r == parse_usize(s@),
{
    let c = chars_of(s);
    let start: usize = if c.len() > 0 && c[0] == '+' { 1 } else { 0 };
    let ghost d = if s@.len() > 0 && s@[0] == '+' { s@.drop_first() } else { s@ };
    assert(d =~= c@.skip(start as int));
    if start >= c.len() {
        return None;
    }
    let mut acc: u128 = 0;
    let mut i: usize = start;
    assert(d.take(0) =~= Seq::<char>::empty());
    while i < c.len()
        invariant
            start <= i <= c@.len(),
            d == c@.skip(start as int),
            c@ == s@,
            d == (if s@.len() > 0 && s@[0] == '+' { s@.drop_first() } else { s@ }),
            all_digits(d.take(i - start)),
            acc as nat == digits_value(d.take(i - start)),
            acc <= usize::MAX,
        decreases c@.len() - i,
    {
        let ch = c[i];
        let ghost pre = d.take(i - start);
        let ghost next = d.take(i - start + 1);
        assert(next.drop_last() =~= pre);
        assert(next.last() == ch);
        if !('0' <= ch && ch <= '9') {
            assert(d[i - start] == ch);
            assert(!all_digits(d));
            return None;
        }
        let dv = (ch as u32 - 48) as u128;
        acc = acc * 10 + dv;
        assert(all_digits(next));
        if acc > usize::MAX as u128 {
            proof {
                if all_digits(d) {
                    lemma_digits_grow(d, (i - start + 1) as nat);
                }
            }
            return None;
        }
        i = i + 1;
    }
    assert(d.take(d.len() as int) =~= d);
    Some(acc as usize)
}

/// A longer run of digits is worth at least as much as a prefix of it.
proof fn lemma_digits_grow(d: Seq<char>, k: nat)
    requires
        k <= d.len(),
        all_digits(d),
    ensures
        digits_value(d) >= digits_value(d.take(k as int)),
    decreases d.len() - k,
{
    if k < d.len() {
        lemma_digits_grow(d, k + 1);
        let t = d.take(k + 1 as int);
        assert(t.drop_last() =~= d.take(k as int));
    } else {
        assert(d.take(k as int) =~= d);
    }
}

/// The flags the client knows.
pub open spec fn known_flag(k: Seq<char>) -> bool {
    k == "-turn"@ || k == "-port"@ || k == "-listen"@ || k == "-vk"@ || k == "-peer"@ || k == "-n"@ || k
        == "-device-id"@ || k == "-password"@ || k == "-obfs"@ || k == "-fingerprint"@ || k == "-captcha-mode"@
        || k == "-vk-auth-mode"@ || k == "-client-ids"@
}

/// What went wrong first in the command line, from pair `j` on: a flag
/// without a value, an unknown flag, or a value of `-n` that is not a count.
/// 0 names a missing value, 1 an unknown flag, 2 a bad count; the flag is
/// given with it.
pub open spec fn first_error(args: Seq<Seq<char>>, j: nat) -> Option<(int, Seq<char>)>
    decreases args.len() - 2 * j,
{
    let i = 2 * j as int;
    if i >= args.len() {
        None
    } else if i + 1 >= args.len() {
        Some((0, args[i]))
    } else if !known_flag(args[i]) {
        Some((1, args[i]))
    } else if args[i] == "-n"@ && parse_usize(args[i + 1]) is None {
        Some((2, args[i]))
    } else {
        first_error(args, j + 1)
    }
}

/// The value of the last pair among the first `n` whose flag is `flag`.
pub open spec fn last_value(args: Seq<Seq<char>>, flag: Seq<char>, n: nat) -> Option<Seq<char>>
    decreases n,
{
    if n == 0 {
        None
    } else if args[2 * (n - 1)] == flag {
        Some(args[2 * (n - 1) + 1])
    } else {
        last_value(args, flag, (n - 1) as nat)
    }
}

/// The last value given to `flag`, or `default`.
pub open spec fn value_or(args: Seq<Seq<char>>, flag: Seq<char>, default: Seq<char>) -> Seq<char> {
    match last_value(args, flag, args.len() / 2) {
        Some(v) => v,
        None => default,
    }
}

/// The settings a correct command line gives: each flag's last value, the
/// defaults for the flags not given.
pub open spec fn args_match(a: Args, args: Seq<Seq<char>>) -> bool {
    &&& a.turn@ == value_or(args, "-turn"@, Seq::empty())
    &&& a.port@ == value_or(args, "-port"@, Seq::empty())
    &&& a.listen@ == value_or(args, "-listen"@, "127.0.0.1:9000"@)
    &&& a.vk@ == value_or(args, "-vk"@, Seq::empty())
    &&& a.peer@ == value_or(args, "-peer"@, Seq::empty())
    &&& a.n == match last_value(args, "-n"@, args.len() / 2) {
        Some(v) => match parse_usize(v) {
            Some(x) => x,
            None => 0,
        },
        None => 24,
    }
    &&& a.device_id@ == value_or(args, "-device-id"@, "unknown"@)
    &&& a.password@ == value_or(args, "-password"@, Seq::empty())
    &&& a.obfs@ == value_or(args, "-obfs"@, "audio"@)
    &&& a.fingerprint@ == value_or(args, "-fingerprint"@, "chrome"@)
    &&& a.captcha@ == value_or(args, "-captcha-mode"@, "auto"@)
    &&& a.vk_auth@ == value_or(args, "-vk-auth-mode"@, "vkcalls"@)
    &&& a.client_ids@ == value_or(args, "-client-ids"@, Seq::empty())
}

/// The settings of the first `j` pairs.
spec fn args_upto(a: Args, args: Seq<Seq<char>>, j: nat) -> bool {
    &&& a.turn@ == value_default(args, "-turn"@, j, Seq::empty())
    &&& a.port@ == value_default(args, "-port"@, j, Seq::empty())
    &&& a.listen@ == value_default(args, "-listen"@, j, "127.0.0.1:9000"@)
    &&& a.vk@ == value_default(args, "-vk"@, j, Seq::empty())
    &&& a.peer@ == value_default(args, "-peer"@, j, Seq::empty())
    &&& a.n == match last_value(args, "-n"@, j) {
        Some(v) => match parse_usize(v) {
            Some(x) => x,
            None => 0,
        },
        None => 24,
    }
    &&& a.device_id@ == value_default(args, "-device-id"@, j, "unknown"@)
    &&& a.password@ == value_default(args, "-password"@, j, Seq::empty())
    &&& a.obfs@ == value_default(args, "-obfs"@, j, "audio"@)
    &&& a.fingerprint@ == value_default(args, "-fingerprint"@, j, "chrome"@)
    &&& a.captcha@ == value_default(args, "-captcha-mode"@, j, "auto"@)
    &&& a.vk_auth@ == value_default(args, "-vk-auth-mode"@, j, "vkcalls"@)
    &&& a.client_ids@ == value_default(args, "-client-ids"@, j, Seq::empty())
}

/// The last value among the first `j` pairs given to `flag`, or `default`.
spec fn value_default(args: Seq<Seq<char>>, flag: Seq<char>, j: nat, default: Seq<char>) -> Seq<char> {
    match last_value(args, flag, j) {
        Some(v) => v,
        None => default,
    }
}

/// The settings before any flag.
pub fn default_args() -> (a: Args)
    ensures
        a.turn@ == Seq::<char>::empty() && a.port@ == Seq::<char>::empty() && a.vk@ == Seq::<char>::empty() && a.peer@
            == Seq::<char>::empty(),
        a.listen@ == "127.0.0.1:9000"@,
        a.n == 24,
        a.device_id@ == "unknown"@,
        a.password@ == Seq::<char>::empty(),
        a.obfs@ == "audio"@,
        a.fingerprint@ == "chrome"@,
        a.captcha@ == "auto"@,
        a.vk_auth@ == "vkcalls"@,
        a.client_ids@ == Seq::<char>::empty(),
{
    Args {
        turn: String::new(),
        port: String::new(),
        listen: String::from_str("127.0.0.1:9000"),
        vk: String::new(),
        peer: String::new(),
        n: 24,
        device_id: String::from_str("unknown"),
        password: String::new(),
        obfs: String::from_str("audio"),
        fingerprint: String::from_str("chrome"),
        captcha: String::from_str("auto"),
        vk_auth: String::from_str("vkcalls"),
        client_ids: String::new(),
    }
}

/// The command-line arguments as text.
pub open spec fn args_view(args: Seq<String>) -> Seq<Seq<char>> {
    args.map_values(|s: String| s@)
}

/// The flags' lengths and the characters that tell flags of one length
/// apart.
proof fn lemma_flag_facts()
    ensures
        "-turn"@.len() == 5 && "-turn"@[1] == 't',
        "-port"@.len() == 5 && "-port"@[1] == 'p' && "-port"@[2] == 'o',
        "-listen"@.len() == 7,
        "-vk"@.len() == 3,
        "-peer"@.len() == 5 && "-peer"@[1] == 'p' && "-peer"@[2] == 'e',
        "-n"@.len() == 2,
        "-device-id"@.len() == 10,
        "-password"@.len() == 9,
        "-obfs"@.len() == 5 && "-obfs"@[1] == 'o',
        "-fingerprint"@.len() == 12,
        "-captcha-mode"@.len() == 13 && "-captcha-mode"@[1] == 'c',
        "-vk-auth-mode"@.len() == 13 && "-vk-auth-mode"@[1] == 'v',
        "-client-ids"@.len() == 11,
{
    reveal_strlit("-turn");
    reveal_strlit("-port");
    reveal_strlit("-listen");
    reveal_strlit("-vk");
    reveal_strlit("-peer");
    reveal_strlit("-n");
    reveal_strlit("-device-id");
    reveal_strlit("-password");
    reveal_strlit("-obfs");
    reveal_strlit("-fingerprint");
    reveal_strlit("-captcha-mode");
    reveal_strlit("-vk-auth-mode");
    reveal_strlit("-client-ids");
}

/// The flag of pair `q` of the command line.
pub open spec fn flag_at(args: Seq<Seq<char>>, q: int) -> Seq<char> {
    args[2 * q]
}

/// Pair `p` of the command line names `flag`, and no later pair does.
pub open spec fn is_last_pair(args: Seq<Seq<char>>, flag: Seq<char>, p: int) -> bool {
    &&& 0 <= p < args.len() / 2
    &&& args[2 * p] == flag
    &&& forall|q: int| p < q < args.len() / 2 ==> #[trigger] flag_at(args, q) != flag
}

/// A setting read from the command line is `v`: the value of the last pair
/// naming `flag`, or `default` when no pair names it.
pub open spec fn given(args: Seq<Seq<char>>, flag: Seq<char>, v: Seq<char>, default: Seq<char>) -> bool {
    &&& forall|p: int| #[trigger] is_last_pair(args, flag, p) ==> v == args[2 * p + 1]
    &&& (forall|q: int| 0 <= q < args.len() / 2 ==> #[trigger] flag_at(args, q) != flag) ==> v == default
}

/// The last value among the first `n` pairs is that of the last pair naming
/// the flag among them, and there is none when no pair names it.
proof fn lemma_last_value(args: Seq<Seq<char>>, flag: Seq<char>, n: nat)
    requires
        2 * n <= args.len(),
    ensures
        forall|p: int|
            0 <= p < n && #[trigger] flag_at(args, p) == flag && (forall|q: int| p < q < n ==> #[trigger] flag_at(args, q) != flag) ==> last_value(
                args,
                flag,
                n,
            ) == Some(args[2 * p + 1]),
        (forall|q: int| 0 <= q < n ==> #[trigger] flag_at(args, q) != flag) ==> last_value(args, flag, n) is None,
    decreases n,
{
    if n > 0 {
        lemma_last_value(args, flag, (n - 1) as nat);
        assert forall|p: int|
            0 <= p < n && #[trigger] flag_at(args, p) == flag && (forall|q: int| p < q < n ==> #[trigger] flag_at(args, q) != flag) implies last_value(
            args,
            flag,
            n,
        ) == Some(args[2 * p + 1]) by {
            if p < n - 1 {
                assert(flag_at(args, n - 1) != flag);
            }
        }
        if forall|q: int| 0 <= q < n ==> #[trigger] flag_at(args, q) != flag {
            assert(flag_at(args, n - 1) != flag);
        }
    }
}

/// The last value given to a flag, or the default.
proof fn lemma_value_or(args: Seq<Seq<char>>, flag: Seq<char>, default: Seq<char>)
    ensures
        given(args, flag, value_or(args, flag, default), default),
{
    lemma_last_value(args, flag, args.len() / 2);
    assert forall|p: int| #[trigger] is_last_pair(args, flag, p) implies value_or(args, flag, default) == args[2 * p
        + 1] by {
        assert(flag_at(args, p) == flag);
        assert(forall|q: int| p < q < args.len() / 2 ==> #[trigger] flag_at(args, q) != flag);
    }
}

/// On a command line without errors, each setting is the value of the last
/// pair naming its flag, or its default when no pair names it (`-n` read as
/// a count).
pub proof fn lemma_settings_from_last_pairs(a: Args, args: Seq<Seq<char>>)
    requires
        first_error(args, 0) is None,
        args_match(a, args),
    ensures
        given(args, "-turn"@, a.turn@, Seq::empty()),
        given(args, "-port"@, a.port@, Seq::empty()),
        given(args, "-listen"@, a.listen@, "127.0.0.1:9000"@),
        given(args, "-vk"@, a.vk@, Seq::empty()),
        given(args, "-peer"@, a.peer@, Seq::empty()),
        given(args, "-device-id"@, a.device_id@, "unknown"@),
        given(args, "-password"@, a.password@, Seq::empty()),
        given(args, "-obfs"@, a.obfs@, "audio"@),
        given(args, "-fingerprint"@, a.fingerprint@, "chrome"@),
        given(args, "-captcha-mode"@, a.captcha@, "auto"@),
        given(args, "-vk-auth-mode"@, a.vk_auth@, "vkcalls"@),
        given(args, "-client-ids"@, a.client_ids@, Seq::empty()),
        forall|p: int| #[trigger] is_last_pair(args, "-n"@, p) ==> parse_usize(args[2 * p + 1]) == Some(a.n),
        (forall|q: int| 0 <= q < args.len() / 2 ==> #[trigger] flag_at(args, q) != "-n"@) ==> a.n == 24,
{
    lemma_value_or(args, "-turn"@, Seq::empty());
    lemma_value_or(args, "-port"@, Seq::empty());
    lemma_value_or(args, "-listen"@, "127.0.0.1:9000"@);
    lemma_value_or(args, "-vk"@, Seq::empty());
    lemma_value_or(args, "-peer"@, Seq::empty());
    lemma_value_or(args, "-device-id"@, "unknown"@);
    lemma_value_or(args, "-password"@, Seq::empty());
    lemma_value_or(args, "-obfs"@, "audio"@);
    lemma_value_or(args, "-fingerprint"@, "chrome"@);
    lemma_value_or(args, "-captcha-mode"@, "auto"@);
    lemma_value_or(args, "-vk-auth-mode"@, "vkcalls"@);
    lemma_value_or(args, "-client-ids"@, Seq::empty());
    lemma_last_value(args, "-n"@, args.len() / 2);
    assert forall|p: int| #[trigger] is_last_pair(args, "-n"@, p) implies parse_usize(args[2 * p + 1]) == Some(a.n) by {
        assert(flag_at(args, p) == "-n"@);
        assert(forall|q: int| p < q < args.len() / 2 ==> #[trigger] flag_at(args, q) != "-n"@);
        lemma_count_of_error_free(args, 0, p);
    }
}

/// On a command line without errors from pair `j` on, the value of every
/// later `-n` pair is a count.
proof fn lemma_count_of_error_free(args: Seq<Seq<char>>, j: nat, p: int)
    requires
        first_error(args, j) is None,
        j <= p < args.len() / 2,
        args[2 * p] == "-n"@,
    ensures
        parse_usize(args[2 * p + 1]) is Some,
    decreases p - j,
{
    if j < p {
        lemma_count_of_error_free(args, j + 1, p);
    }
}

/// Reads the command line (without the program name): pairs of a flag and
/// its value, each flag setting one setting, a later pair overriding an
/// earlier one.
pub fn parseArgs(args: &[String]) -> (r: Result<Args, ArgsError>)
    ensures
        match first_error(args_view(args@), 0) {
            Some((kind, key)) => r matches Err(e) && match e {
                ArgsError::MissingValue(k) => kind == 0 && k@ == key,
                ArgsError::UnknownArg(k) => kind == 1 && k@ == key,
                ArgsError::InvalidCount => kind == 2,
            },
            None => r matches Ok(a) && args_match(a, args_view(args@)),
        },
{
    let ghost av = args_view(args@);
    let mut a = default_args();
    let mut j: usize = 0;
    while j < args.len() - j
        invariant
            av == args_view(args@),
            av.len() == args@.len(),
            2 * j <= args@.len(),
            first_error(av, 0) == first_error(av, j as nat),
            args_upto(a, av, j as nat),
        decreases args@.len() + 2 - 2 * j,
    {
        proof {
            lemma_flag_facts();
        }
        let k = &args[2 * j];
        assert(av[2 * j as int] == k@);
        if 2 * j + 1 == args.len() {
            return Err(ArgsError::MissingValue(k.clone()));
        }
        let v = &args[2 * j + 1];
        assert(av[2 * j + 1] == v@);
        let ks = k.as_str();
        if str_eq(ks, "-turn") {
            a.turn = v.clone();
        } else if str_eq(ks, "-port") {
            a.port = v.clone();
        } else if str_eq(ks, "-listen") {
            a.listen = v.clone();
        } else if str_eq(ks, "-vk") {
            a.vk = v.clone();
        } else if str_eq(ks, "-peer") {
            a.peer = v.clone();
        } else if str_eq(ks, "-n") {
            match parse_usize_str(v.as_str()) {
                Some(x) => {
                    a.n = x;
                },
                None => {
                    return Err(ArgsError::InvalidCount);
                },
            }
        } else if str_eq(ks, "-device-id") {
            a.device_id = v.clone();
        } else if str_eq(ks, "-password") {
            a.password = v.clone();
        } else if str_eq(ks, "-obfs") {
            a.obfs = v.clone();
        } else if str_eq(ks, "-fingerprint") {
            a.fingerprint = v.clone();
        } else if str_eq(ks, "-captcha-mode") {
            a.captcha = v.clone();
        } else if str_eq(ks, "-vk-auth-mode") {
            a.vk_auth = v.clone();
        } else if str_eq(ks, "-client-ids") {
            a.client_ids = v.clone();
        } else {
            return Err(ArgsError::UnknownArg(k.clone()));
        }
        j = j + 1;
    }
    assert(j as nat == av.len() / 2);
    assert(first_error(av, j as nat) is None);
    Ok(a)
}

/// Why the client cannot start with these settings.
#[derive(Debug, Clone, Copy, PartialEq, Eq)]
pub enum StartError {
    /// No peer or no VK link.
    PeerAndVkRequired,
    /// No password.
    PasswordRequired,
    /// The VK links hold no call hash.
    NoHashes,
}

impl StartError {
    /// The error's message.
    pub fn to_string(&self) -> (s: String)
        ensures
            *self == StartError::PeerAndVkRequired ==> s@ == "Нужны -peer и -vk"@,
            *self == StartError::PasswordRequired ==> s@ == "Нужен -password"@,
            *self == StartError::NoHashes ==> s@ == "Нет хешей VK"@,
    {
        match self {
            StartError::PeerAndVkRequired => String::from_str("Нужны -peer и -vk"),
            StartError::PasswordRequired => String::from_str("Нужен -password"),
            StartError::NoHashes => String::from_str("Нет хешей VK"),
        }
    }
}

/// The settings the client needs before it starts: a peer and a VK link,
/// then a password.
pub fn checkArgs(a: &Args) -> (r: Result<(), StartError>)
    ensures
        a.peer@.len() == 0 || a.vk@.len() == 0 ==> r == Err::<(), StartError>(StartError::PeerAndVkRequired),
        a.peer@.len() > 0 && a.vk@.len() > 0 && a.password@.len() == 0 ==> r == Err::<(), StartError>(
            StartError::PasswordRequired,
        ),
        a.peer@.len() > 0 && a.vk@.len() > 0 && a.password@.len() > 0 ==> r is Ok,
{
    if a.peer.as_str().is_empty() || a.vk.as_str().is_empty() {
        return Err(StartError::PeerAndVkRequired);
    }
    if a.password.as_str().is_empty() {
        return Err(StartError::PasswordRequired);
    }
    Ok(())
}

/// The ids of the workers of group `group`: nine consecutive ids from
/// `group * 9`, each kept to its low 32 bits as an `i32`.
pub fn groupWorkerIds(group: usize) -> (r: Vec<i32>)
    requires
        group * workersPerGroup + workersPerGroup <= usize::MAX,
    ensures
        r@ == Seq::new(workersPerGroup as nat, |n: int| (#[verifier::truncate] ((group * workersPerGroup + n) as i32))),
{
    let mut v: Vec<i32> = Vec::new();
    let mut n: usize = 0;
    while n < workersPerGroup
        invariant
            group * workersPerGroup + workersPerGroup <= usize::MAX,
            n <= workersPerGroup,
            v@ == Seq::new(n as nat, |i: int| (#[verifier::truncate] ((group * workersPerGroup + i) as i32))),
        decreases workersPerGroup - n,
    {
        v.push(#[verifier::truncate] ((group * workersPerGroup + n) as i32));
        assert(v@ =~= Seq::new((n + 1) as nat, |i: int| (#[verifier::truncate] ((group * workersPerGroup + i) as i32))));
        n = n + 1;
    }
    v
}

/// A command read on the standard input.
#[derive(Debug, Clone, Copy, PartialEq, Eq)]
pub enum StdinCommand {
    Pause,
    Resume,
    Stop,
    Ignore,
}

/// The command a line of input gives, surrounding whitespace ignored:
/// "PAUSE", "RESUME", "STOP"; any other line is ignored.
pub fn stdinCommand(line: &str) -> (r: StdinCommand)
    ensures
        trim(line@) == "PAUSE"@ ==> r == StdinCommand::Pause,
        trim(line@) == "RESUME"@ ==> r == StdinCommand::Resume,
        trim(line@) == "STOP"@ ==> r == StdinCommand::Stop,
        trim(line@) != "PAUSE"@ && trim(line@) != "RESUME"@ && trim(line@) != "STOP"@ ==> r == StdinCommand::Ignore,
{
    let t = trim_str(line);
    proof {
        reveal_strlit("PAUSE");
        reveal_strlit("RESUME");
        reveal_strlit("STOP");
        assert("RESUME"@.len() == 6);
        assert("PAUSE"@.len() == 5);
        assert("STOP"@.len() == 4);
        assert("RESUME"@ != "PAUSE"@);
        assert("STOP"@ != "PAUSE"@);
        assert("STOP"@ != "RESUME"@);
    }
    if str_eq(t.as_str(), "PAUSE") {
        StdinCommand::Pause
    } else if str_eq(t.as_str(), "RESUME") {
        StdinCommand::Resume
    } else if str_eq(t.as_str(), "STOP") {
        StdinCommand::Stop
    } else {
        StdinCommand::Ignore
    }
}

} // verus!
