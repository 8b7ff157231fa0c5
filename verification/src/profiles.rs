//! The browser profiles the client presents itself with, and the choice of
//! one for the active fingerprint.

use crate::outside::random_below;
use crate::text::str_eq;
use vstd::prelude::*;

verus! {

/// A browser's identifying headers.
#[derive(Debug, Clone)]
pub struct Profile {
    pub user_agent: String,
    pub sec_ch_ua: String,
    pub sec_ch_ua_mobile: String,
    pub sec_ch_ua_platform: String,
}

/// A profile saved to disk, with the device description and browser
/// fingerprint that were used with it.
#[derive(Debug, Clone)]
pub struct SavedProfile {
    pub Profile: Profile,
    pub device_json: String,
    pub browser_fp: String,
}

/// The file a profile is saved to.
pub const profileFile: &'static str = "vk_profile.json";

/// A profile as (user agent, `sec-ch-ua`, `sec-ch-ua-mobile`,
/// `sec-ch-ua-platform`).
pub open spec fn profile_view(p: Profile) -> (Seq<char>, Seq<char>, Seq<char>, Seq<char>) {
    (p.user_agent@, p.sec_ch_ua@, p.sec_ch_ua_mobile@, p.sec_ch_ua_platform@)
}

/// The profiles of a list.
pub open spec fn profiles_view(v: Seq<Profile>) -> Seq<(Seq<char>, Seq<char>, Seq<char>, Seq<char>)> {
    v.map_values(|p: Profile| profile_view(p))
}

/// A profile of the four header values.
fn p(ua: &str, ch: &str, mob: &str, platform: &str) -> (r: Profile)
    ensures
        profile_view(r) == (ua@, ch@, mob@, platform@),
{
    Profile {
        user_agent: String::from_str(ua),
        sec_ch_ua: String::from_str(ch),
        sec_ch_ua_mobile: String::from_str(mob),
        sec_ch_ua_platform: String::from_str(platform),
    }
}

/// Chrome 146 on Windows.
pub const CHROME_WINDOWS_UA: &'static str = "Mozilla/5.0 (Windows NT 10.0; Win64; x64) AppleWebKit/537.36 (KHTML, like Gecko) Chrome/146.0.0.0 Safari/537.36";

/// Chrome 146 on Linux.
pub const CHROME_LINUX_UA: &'static str = "Mozilla/5.0 (X11; Linux x86_64) AppleWebKit/537.36 (KHTML, like Gecko) Chrome/146.0.0.0 Safari/537.36";

/// Chrome 129 on a Pixel 8 Pro.
pub const ANDROID_UA: &'static str = "Mozilla/5.0 (Linux; Android 14; Pixel 8 Pro) AppleWebKit/537.36 (KHTML, like Gecko) Chrome/129.0.0.0 Mobile Safari/537.36";

/// Safari 17 on an iPhone.
pub const IOS_UA: &'static str = "Mozilla/5.0 (iPhone; CPU iPhone OS 17_6_1 like Mac OS X) AppleWebKit/605.1.15 (KHTML, like Gecko) Version/17.6 Mobile/15E148 Safari/604.1";

/// The desktop profiles.
pub open spec fn desktop_profiles() -> Seq<(Seq<char>, Seq<char>, Seq<char>, Seq<char>)> {
    seq![
        (CHROME_WINDOWS_UA@, "\"Chromium\";v=\"146\", \"Not-A.Brand\";v=\"24\", \"Google Chrome\";v=\"146\""@, "?0"@, "\"Windows\""@),
        (CHROME_LINUX_UA@, "\"Chromium\";v=\"146\""@, "?0"@, "\"Linux\""@),
    ]
}

/// The Android profiles.
pub open spec fn android_profiles() -> Seq<(Seq<char>, Seq<char>, Seq<char>, Seq<char>)> {
    seq![(ANDROID_UA@, "\"Chromium\";v=\"129\""@, "?1"@, "\"Android\""@)]
}

/// The iOS profiles.
pub open spec fn ios_profiles() -> Seq<(Seq<char>, Seq<char>, Seq<char>, Seq<char>)> {
    seq![(IOS_UA@, "\"Safari\";v=\"17\""@, "?1"@, "\"iOS\""@)]
}

/// The desktop profiles: Chrome on Windows and on Linux.
pub fn profileList() -> (r: Vec<Profile>)
    ensures
        profiles_view(r@) == desktop_profiles(),
{
    let mut v: Vec<Profile> = Vec::new();
    v.push(p(
        CHROME_WINDOWS_UA,
        "\"Chromium\";v=\"146\", \"Not-A.Brand\";v=\"24\", \"Google Chrome\";v=\"146\"",
        "?0",
        "\"Windows\"",
    ));
    v.push(p(CHROME_LINUX_UA, "\"Chromium\";v=\"146\"", "?0", "\"Linux\""));
    assert(profiles_view(v@) =~= desktop_profiles());
    v
}

/// The Android profiles.
pub fn androidProfiles() -> (r: Vec<Profile>)
    ensures
        profiles_view(r@) == android_profiles(),
{
    let mut v: Vec<Profile> = Vec::new();
    v.push(p(ANDROID_UA, "\"Chromium\";v=\"129\"", "?1", "\"Android\""));
    assert(profiles_view(v@) =~= android_profiles());
    v
}

/// The iOS profiles.
pub fn iosProfiles() -> (r: Vec<Profile>)
    ensures
        profiles_view(r@) == ios_profiles(),
{
    let mut v: Vec<Profile> = Vec::new();
    v.push(p(IOS_UA, "\"Safari\";v=\"17\"", "?1", "\"iOS\""));
    assert(profiles_view(v@) =~= ios_profiles());
    v
}

/// The list of profiles a fingerprint chooses from: "android" and "ios"
/// have their own, any other fingerprint the desktop ones.
pub open spec fn profiles_for(fp: Seq<char>) -> Seq<(Seq<char>, Seq<char>, Seq<char>, Seq<char>)> {
    if fp == "android"@ {
        android_profiles()
    } else if fp == "ios"@ {
        ios_profiles()
    } else {
        desktop_profiles()
    }
}

/// The fingerprint in force.
pub struct ActiveFingerprint {
    pub fp: String,
}

impl ActiveFingerprint {
    /// The default fingerprint, "chrome".
    pub fn new() -> (a: ActiveFingerprint)
        ensures
            a.fp@ == "chrome"@,
    {
        ActiveFingerprint { fp: String::from_str("chrome") }
    }
}

/// Stores the fingerprint in force.
pub fn SetActiveFingerprint(active: &mut ActiveFingerprint, fp: &str)
    ensures
        final(active).fp@ == fp@,
{
    active.fp = String::from_str(fp);
}

/// The fingerprint in force.
pub fn GetActiveFingerprint(active: &ActiveFingerprint) -> (r: String)
    ensures
        r@ == active.fp@,
{
    active.fp.clone()
}

/// A profile picked at random from the list for the fingerprint in force.
pub fn getRandomProfile(active: &ActiveFingerprint) -> (r: Profile)
    ensures
        profiles_for(active.fp@).contains(profile_view(r)),
{
    let fp = GetActiveFingerprint(active);
    let list = if str_eq(fp.as_str(), "android") {
        androidProfiles()
    } else if str_eq(fp.as_str(), "ios") {
        iosProfiles()
    } else {
        profileList()
    };
    proof {
        reveal_strlit("android");
        reveal_strlit("ios");
    }
    assert(profiles_view(list@) == profiles_for(active.fp@));
    let i = random_below(list.len());
    let chosen = &list[i];
    let r = Profile {
        user_agent: chosen.user_agent.clone(),
        sec_ch_ua: chosen.sec_ch_ua.clone(),
        sec_ch_ua_mobile: chosen.sec_ch_ua_mobile.clone(),
        sec_ch_ua_platform: chosen.sec_ch_ua_platform.clone(),
    };
    assert(profiles_view(list@)[i as int] == profile_view(r));
    r
}

} // verus!
