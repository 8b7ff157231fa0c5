use wdtt_rslib::config::{config_file_contents, process_wireguard_config, VK_EXCLUDED_IPS};

#[test]
fn process_config_rewrites_mtu_allowed_ips_and_endpoint() {
    let raw = "[Interface]\nPrivateKey = abc\nMTU = 1420\n\n[Peer]\nPublicKey = xyz\nAllowedIPs = 0.0.0.0/0\nEndpoint = 1.2.3.4:51820\n";
    let out = process_wireguard_config(raw).unwrap();
    let expected = format!(
        "[Interface]\nPrivateKey = abc\nMTU = 1280\n\n[Peer]\nEndpoint = 127.0.0.1:9000\nPublicKey = xyz\n{}\n",
        VK_EXCLUDED_IPS
    );
    assert_eq!(out, expected);
}

#[test]
fn process_config_adds_missing_lines() {
    let raw = "[Interface]\nPrivateKey = abc\n[Peer]\nPublicKey = xyz";
    let out = process_wireguard_config(raw).unwrap();
    let expected = format!(
        "[Interface]\nMTU = 1280\nPrivateKey = abc\n[Peer]\nEndpoint = 127.0.0.1:9000\n{}\nPublicKey = xyz\n",
        VK_EXCLUDED_IPS
    );
    assert_eq!(out, expected);
}

#[test]
fn process_config_of_empty_text() {
    assert_eq!(process_wireguard_config("").unwrap(), "");
}

#[test]
fn saved_config_keeps_allowed_ips_but_forces_local_endpoint() {
    let raw = "[Interface]\nPrivateKey = abc\n[Peer]\nAllowedIPs = 10.0.0.0/8\nEndpoint = 1.2.3.4:51820\n";
    let out = config_file_contents(raw);
    let expected = format!(
        "[Interface]\nMTU = 1280\nPrivateKey = abc\n[Peer]\n{}\nEndpoint = 127.0.0.1:9000\n",
        VK_EXCLUDED_IPS
    );
    assert_eq!(out, expected);
}

#[test]
fn saved_config_inserts_endpoint_after_first_peer_only() {
    let raw = "[Interface]\nMTU = 1400\n[Peer]\nA = 1\n[Peer]\nB = 2\n";
    let out = config_file_contents(raw);
    assert_eq!(out, "[Interface]\nMTU = 1280\n[Peer]\nEndpoint = 127.0.0.1:9000\nA = 1\n[Peer]\nB = 2\n");
}
