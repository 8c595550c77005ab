//! Listen address rules and backend names.

use thatsmatter_bridge::config::{BackendKind, Config, IpOctets, ListenAddress};

fn config(ip: IpOctets, text: &str, backend: BackendKind, allow_non_loopback: bool) -> Config {
    Config {
        listen: ListenAddress {
            ip,
            port: 18465,
            text: text.into(),
        },
        data_dir: "./data".into(),
        bridge_name: "ThatsMatter".into(),
        matter_backend: backend,
        allow_non_loopback,
    }
}

const LOCALHOST_V6: [u8; 16] = [0, 0, 0, 0, 0, 0, 0, 0, 0, 0, 0, 0, 0, 0, 0, 1];

#[test]
fn accepts_loopback_v4() {
    let cfg = config(IpOctets::V4([127, 0, 0, 1]), "127.0.0.1:18465", BackendKind::Dev, false);
    assert!(cfg.ensure_loopback().is_ok());
}

#[test]
fn accepts_loopback_v6() {
    let cfg = config(IpOctets::V6(LOCALHOST_V6), "[::1]:18465", BackendKind::Dev, false);
    assert!(cfg.ensure_loopback().is_ok());
}

#[test]
fn rejects_non_loopback() {
    let cfg = config(IpOctets::V4([0, 0, 0, 0]), "0.0.0.0:18465", BackendKind::Dev, false);
    assert!(cfg.ensure_loopback().is_err());
    assert_eq!(
        cfg.ensure_loopback().unwrap_err(),
        "--listen must be a loopback address (or pass --allow-non-loopback), got 0.0.0.0:18465"
    );
}

#[test]
fn allows_non_loopback_when_flag_set() {
    let cfg = config(IpOctets::V4([0, 0, 0, 0]), "0.0.0.0:18465", BackendKind::RsMatter, true);
    assert!(cfg.ensure_loopback().is_ok());
}

#[test]
fn loopback_addresses_agree_with_the_standard_library() {
    assert!(IpOctets::V4([127, 255, 3, 9]).is_loopback());
    assert!(!IpOctets::V4([126, 0, 0, 1]).is_loopback());
    assert!(IpOctets::V6(LOCALHOST_V6).is_loopback());
    for i in 0..16 {
        let mut octets = LOCALHOST_V6;
        octets[i] ^= 1;
        assert!(!IpOctets::V6(octets).is_loopback(), "octet {i}");
    }
    // An IPv4 loopback mapped into IPv6 is none.
    assert!(!IpOctets::V6([0, 0, 0, 0, 0, 0, 0, 0, 0, 0, 255, 255, 127, 0, 0, 1]).is_loopback());
}

#[test]
fn backends_are_reported_by_their_wire_names() {
    assert_eq!(BackendKind::Dev.as_wire_str(), "dev");
    assert_eq!(BackendKind::RsMatter.as_wire_str(), "rs_matter");
}
