//! The captcha and VK authentication modes selected on the command line.

use crate::outside::{to_lowercase, unicode_lowercase};
use crate::text::{eq_ignore_ascii_case, eq_ignore_ascii_case_bytes, str_eq, trim, trim_str};
use vstd::prelude::*;
use vstd::string::StringSliceAdditionalSpecFns;

verus! {

/// The captcha mode a requested one stands for: the trimmed, lower-cased
/// request when it is "auto", "rjs" or "wv", else "auto".
pub open spec fn captcha_mode_of(mode: Seq<char>) -> Seq<char> {
    let l = unicode_lowercase(trim(mode));
    if l == "auto"@ || l == "rjs"@ || l == "wv"@ {
        l
    } else {
        "auto"@
    }
}

/// Whether a VK authentication mode names the legacy path: the trimmed
/// request equals "legacy" up to ASCII case.
pub open spec fn is_legacy_auth(mode: Seq<char>) -> bool {
    eq_ignore_ascii_case_bytes(vstd::utf8::encode_utf8(trim(mode)), "legacy".spec_bytes())
}

/// The captcha mode a requested one stands for. A mode that is already one
/// of "auto", "rjs", "wv" stands for itself, so normalising twice is
/// normalising once.
pub fn normalizeCaptchaMode(mode: &str) -> (r: String)
    ensures
        r@ == captcha_mode_of(mode@),
        r@ == "auto"@ || r@ == "rjs"@ || r@ == "wv"@,
        mode@ == "auto"@ || mode@ == "rjs"@ || mode@ == "wv"@ ==> r@ == mode@,
{
    let t = trim_str(mode);
    let l = to_lowercase(t.as_str());
    proof {
        reveal_strlit("auto");
        reveal_strlit("rjs");
        reveal_strlit("wv");
        if mode@ == "auto"@ || mode@ == "rjs"@ || mode@ == "wv"@ {
            assert(!crate::text::is_whitespace(mode@[0]));
            assert(!crate::text::is_whitespace(mode@.last()));
            assert(trim(mode@) == mode@);
            assert(vstd::utf8::is_ascii_chars(mode@));
            assert(l@ =~= mode@);
        }
    }
    if str_eq(l.as_str(), "auto") || str_eq(l.as_str(), "rjs") || str_eq(l.as_str(), "wv") {
        l
    } else {
        String::from_str("auto")
    }
}

/// "legacy" when the request names the legacy VK authentication path up to
/// ASCII case and surrounding whitespace, else "vkcalls".
pub fn normalizeVKAuthMode(mode: &str) -> (r: String)
    ensures
        is_legacy_auth(mode@) ==> r@ == "legacy"@,
        !is_legacy_auth(mode@) ==> r@ == "vkcalls"@,
{
    let t = trim_str(mode);
    if eq_ignore_ascii_case(t.as_str(), "legacy") {
        String::from_str("legacy")
    } else {
        String::from_str("vkcalls")
    }
}

/// The modes currently in force.
pub struct RuntimeModes {
    pub captcha: String,
    pub vk_auth: String,
}

impl RuntimeModes {
    /// The defaults: captcha mode "auto", VK authentication "vkcalls".
    pub fn new() -> (m: RuntimeModes)
        ensures
            m.captcha@ == "auto"@,
            m.vk_auth@ == "vkcalls"@,
    {
        RuntimeModes { captcha: String::from_str("auto"), vk_auth: String::from_str("vkcalls") }
    }
}

/// Normalises and stores a captcha mode, returning what was stored.
pub fn setCaptchaMode(modes: &mut RuntimeModes, mode: &str) -> (r: String)
    ensures
        r@ == captcha_mode_of(mode@),
        final(modes).captcha@ == r@,
        final(modes).vk_auth@ == old(modes).vk_auth@,
{
    let x = normalizeCaptchaMode(mode);
    modes.captcha = x.clone();
    x
}

/// The captcha mode in force.
pub fn getCaptchaMode(modes: &RuntimeModes) -> (r: String)
    ensures
        r@ == modes.captcha@,
{
    modes.captcha.clone()
}

/// Normalises and stores a VK authentication mode, returning what was stored.
pub fn setVKAuthMode(modes: &mut RuntimeModes, mode: &str) -> (r: String)
    ensures
        r@ == (if is_legacy_auth(mode@) { "legacy"@ } else { "vkcalls"@ }),
        final(modes).vk_auth@ == r@,
        final(modes).captcha@ == old(modes).captcha@,
{
    let x = normalizeVKAuthMode(mode);
    modes.vk_auth = x.clone();
    x
}

/// The VK authentication mode in force.
pub fn getVKAuthMode(modes: &RuntimeModes) -> (r: String)
    ensures
        r@ == modes.vk_auth@,
{
    modes.vk_auth.clone()
}

} // verus!
