use wdtt_rslib::cli::{checkArgs, groupWorkerIds, parseArgs, parse_usize_str, stdinCommand, ArgsError, StartError, StdinCommand};

fn cl_args(v: &[&str]) -> Vec<String> {
    v.iter().map(|s| s.to_string()).collect()
}

#[test]
fn defaults_and_overrides() {
    let a = parseArgs(&cl_args(&[])).unwrap();
    assert_eq!(a.listen, "127.0.0.1:9000");
    assert_eq!(a.n, 24);
    assert_eq!(a.device_id, "unknown");
    assert_eq!(a.obfs, "audio");
    assert_eq!(a.fingerprint, "chrome");
    assert_eq!(a.captcha, "auto");
    assert_eq!(a.vk_auth, "vkcalls");
    let b = parseArgs(&cl_args(&["-peer", "p:1", "-n", "+36", "-vk", "h", "-peer", "q:2", "-password", "pw"])).unwrap();
    assert_eq!(b.peer, "q:2");
    assert_eq!(b.n, 36);
    assert_eq!(b.vk, "h");
    assert!(checkArgs(&b).is_ok());
}

#[test]
fn argument_errors() {
    let e = parseArgs(&cl_args(&["-peer"])).unwrap_err();
    assert_eq!(e.to_string(), "нет значения для -peer");
    let e = parseArgs(&cl_args(&["-x", "1"])).unwrap_err();
    assert!(matches!(e, ArgsError::UnknownArg(ref k) if k == "-x"));
    assert_eq!(e.to_string(), "неизвестный аргумент: -x");
    let e = parseArgs(&cl_args(&["-n", "-3"])).unwrap_err();
    assert!(matches!(e, ArgsError::InvalidCount));
    let e = parseArgs(&cl_args(&["-x", "1", "-n"])).unwrap_err();
    assert!(matches!(e, ArgsError::UnknownArg(_)));
}

#[test]
fn start_checks() {
    let a = parseArgs(&cl_args(&["-vk", "h"])).unwrap();
    assert_eq!(checkArgs(&a), Err(StartError::PeerAndVkRequired));
    let b = parseArgs(&cl_args(&["-vk", "h", "-peer", "p"])).unwrap();
    assert_eq!(checkArgs(&b), Err(StartError::PasswordRequired));
    assert_eq!(StartError::NoHashes.to_string(), "Нет хешей VK");
}

#[test]
fn counts_parse_like_usize() {
    assert_eq!(parse_usize_str("18446744073709551615"), Some(18446744073709551615usize));
    assert_eq!(parse_usize_str("18446744073709551616"), None);
    assert_eq!(parse_usize_str("+"), None);
    assert_eq!(parse_usize_str(""), None);
    assert_eq!(parse_usize_str("12a"), None);
}

#[test]
fn worker_ids_of_groups() {
    assert_eq!(groupWorkerIds(0), (0..9).collect::<Vec<i32>>());
    assert_eq!(groupWorkerIds(2), (18..27).collect::<Vec<i32>>());
}

#[test]
fn stdin_commands() {
    assert_eq!(stdinCommand(" PAUSE\n"), StdinCommand::Pause);
    assert_eq!(stdinCommand("RESUME"), StdinCommand::Resume);
    assert_eq!(stdinCommand("STOP "), StdinCommand::Stop);
    assert_eq!(stdinCommand("stop"), StdinCommand::Ignore);
}
