use wdtt_rslib::events::{eventConfig, eventLine, eventStarted};
use wdtt_rslib::modes::{
    getCaptchaMode, getVKAuthMode, normalizeCaptchaMode, normalizeVKAuthMode, setCaptchaMode, setVKAuthMode,
    RuntimeModes,
};
use wdtt_rslib::namegen::{convertToFemaleSurname, generateName, FIRST, LAST};
use wdtt_rslib::profiles::{
    androidProfiles, getRandomProfile, iosProfiles, profileList, ActiveFingerprint, GetActiveFingerprint,
    SetActiveFingerprint,
};
use std::sync::atomic::Ordering;
use wdtt_rslib::stats::NewStats;

#[test]
fn captcha_mode_normalisation() {
    assert_eq!(normalizeCaptchaMode(" RJS "), "rjs");
    assert_eq!(normalizeCaptchaMode("wv"), "wv");
    assert_eq!(normalizeCaptchaMode("Auto"), "auto");
    assert_eq!(normalizeCaptchaMode("something"), "auto");
    assert_eq!(normalizeCaptchaMode(""), "auto");
}

#[test]
fn captcha_mode_normalisation_is_idempotent() {
    for m in ["  WV", "rjs", "x", "AUTO "] {
        let once = normalizeCaptchaMode(m);
        assert_eq!(normalizeCaptchaMode(&once), once);
    }
}

#[test]
fn vk_auth_mode_normalisation() {
    assert_eq!(normalizeVKAuthMode(" Legacy "), "legacy");
    assert_eq!(normalizeVKAuthMode("LEGACY"), "legacy");
    assert_eq!(normalizeVKAuthMode("vkcalls"), "vkcalls");
    assert_eq!(normalizeVKAuthMode("other"), "vkcalls");
}

#[test]
fn modes_read_back_what_was_set() {
    let mut m = RuntimeModes::new();
    assert_eq!(getCaptchaMode(&m), "auto");
    assert_eq!(getVKAuthMode(&m), "vkcalls");
    assert_eq!(setCaptchaMode(&mut m, "RJS"), "rjs");
    assert_eq!(getCaptchaMode(&m), "rjs");
    assert_eq!(setVKAuthMode(&mut m, "legacy"), "legacy");
    assert_eq!(getVKAuthMode(&m), "legacy");
    assert_eq!(getCaptchaMode(&m), "rjs");
}

#[test]
fn female_surnames() {
    assert_eq!(convertToFemaleSurname("Иванов"), "Иванова");
    assert_eq!(convertToFemaleSurname("Соколова"), "Соколова");
    assert_eq!(convertToFemaleSurname("Пушкин"), "Пушкина");
    assert_eq!(convertToFemaleSurname("Толстой"), "Толстой");
}

#[test]
fn generated_name_uses_known_parts() {
    for _ in 0..20 {
        let n = generateName();
        let mut parts = n.splitn(2, ' ');
        let first = parts.next().unwrap();
        let last = parts.next().unwrap();
        assert!(FIRST.contains(&first));
        let ok = LAST.iter().any(|l| *l == last || convertToFemaleSurname(l) == last);
        assert!(ok, "{}", n);
    }
}

#[test]
fn fingerprint_reads_back() {
    let mut a = ActiveFingerprint::new();
    assert_eq!(GetActiveFingerprint(&a), "chrome");
    SetActiveFingerprint(&mut a, "android");
    assert_eq!(GetActiveFingerprint(&a), "android");
}

#[test]
fn random_profile_follows_fingerprint() {
    let mut a = ActiveFingerprint::new();
    SetActiveFingerprint(&mut a, "ios");
    let p = getRandomProfile(&a);
    assert_eq!(p.sec_ch_ua_platform, "\"iOS\"");
    SetActiveFingerprint(&mut a, "android");
    assert_eq!(getRandomProfile(&a).sec_ch_ua_mobile, "?1");
    SetActiveFingerprint(&mut a, "firefox");
    let d = getRandomProfile(&a);
    assert!(profileList().iter().any(|x| x.user_agent == d.user_agent));
}

#[test]
fn profile_lists() {
    assert_eq!(profileList().len(), 2);
    assert_eq!(profileList()[1].sec_ch_ua_platform, "\"Linux\"");
    assert_eq!(androidProfiles().len(), 1);
    assert_eq!(iosProfiles()[0].sec_ch_ua, "\"Safari\";v=\"17\"");
}

#[test]
fn event_lines() {
    assert_eq!(eventLine(eventStarted, "{\"workers\":9}"), "__WDTT_EVENT__|STARTED|{\"workers\":9}");
    assert_eq!(eventLine(eventConfig, "null"), "__WDTT_EVENT__|CONFIG|null");
}

#[test]
fn stats_start_at_zero() {
    let s = NewStats();
    assert_eq!(s.TotalBytesUp.load(Ordering::Relaxed), 0);
    assert_eq!(s.TotalBytesDown.load(Ordering::Relaxed), 0);
    assert_eq!(s.ActiveConnections.load(Ordering::Relaxed), 0);
}
