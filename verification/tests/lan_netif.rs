//! LAN interface selection.

use thatsmatter_bridge::matter::lan_netif::{
    available_iface_names, format_mac, has_matter_ipv6, has_real_mac, is_loopback_name,
    is_virtual_name, matter_ipv6, score_iface, select_from_inventory, usable_ipv4, usable_ipv6,
    Diagnosis, LanNetifs, Netif, Verdict,
};

type V4 = [u8; 4];
type V6 = [u8; 16];

const UNSPECIFIED: V6 = [0; 16];
const LOCALHOST: V6 = [0, 0, 0, 0, 0, 0, 0, 0, 0, 0, 0, 0, 0, 0, 0, 1];

/// An address of the form `first:second::last`.
fn v6(first: u16, second: u16, last: u16) -> V6 {
    let mut out = [0u8; 16];
    out[..2].copy_from_slice(&first.to_be_bytes());
    out[2..4].copy_from_slice(&second.to_be_bytes());
    out[14..].copy_from_slice(&last.to_be_bytes());
    out
}

fn iface(name: &str, operational: bool, mac: [u8; 6], ipv4: &[V4], ipv6: &[V6]) -> Netif {
    let mut hw = [0u8; 8];
    hw[..6].copy_from_slice(&mac);
    Netif {
        name: name.to_string(),
        hw_addr: hw,
        ipv4addrs: ipv4.to_vec(),
        ipv6addrs: ipv6.to_vec(),
        operational,
        netif_index: 1,
    }
}

fn select(ifaces: &[Netif], pin: Option<&str>) -> Option<String> {
    select_from_inventory(ifaces, pin.map(str::to_string))
}

const MAC_A: [u8; 6] = [0xaa, 0xbb, 0xcc, 0xdd, 0xee, 0xff];
const MAC_B: [u8; 6] = [0x11, 0x22, 0x33, 0x44, 0x55, 0x66];

#[test]
fn is_virtual_name_skips_container_and_vpn() {
    assert!(is_virtual_name("lo"));
    assert!(is_virtual_name("lo0"));
    assert!(is_virtual_name("docker0"));
    assert!(is_virtual_name("veth1234"));
    assert!(is_virtual_name("br-abc123"));
    assert!(is_virtual_name("hassio"));
    assert!(is_virtual_name("flannel.1"));
    assert!(is_virtual_name("cni0"));
    assert!(is_virtual_name("cali123"));
    assert!(is_virtual_name("tailscale0"));
    assert!(is_virtual_name("wg0"));
    assert!(is_virtual_name("tun0"));
    assert!(is_virtual_name("podman0"));
    assert!(!is_virtual_name("eth0"));
    assert!(!is_virtual_name("enp1s0"));
    assert!(!is_virtual_name("wlan0"));
    assert!(!is_virtual_name("en0"));
    // Real bridge names without docker-style `br-` prefix.
    assert!(!is_virtual_name("br0"));
}

#[test]
fn every_virtual_prefix_counts() {
    for prefix in [
        "docker", "veth", "br-", "hassio", "flannel", "cni", "cali", "weave", "virbr", "vboxnet",
        "zt", "tailscale", "wg", "tun", "tap", "dummy", "sit", "ip6tnl", "kube", "podman",
    ] {
        assert!(is_virtual_name(prefix), "{prefix}");
        assert!(is_virtual_name(&format!("{prefix}9")), "{prefix}9");
        assert!(!is_virtual_name(&format!("x{prefix}")), "x{prefix}");
    }
}

#[test]
fn loopback_names_are_lo_and_digits() {
    for name in ["lo", "lo0", "lo17"] {
        assert!(is_loopback_name(name), "{name}");
    }
    for name in ["", "l", "lox", "lo1a", "loé", "alo", "LO"] {
        assert!(!is_loopback_name(name), "{name}");
    }
}

#[test]
fn has_real_mac_rejects_zeros() {
    assert!(!has_real_mac(&[0; 8]));
    assert!(has_real_mac(&[0x02, 0x42, 0xac, 0x11, 0x00, 0x02, 0, 0]));
}

#[test]
fn only_six_octets_make_a_mac() {
    assert!(!has_real_mac(&[0, 0, 0, 0, 0, 0, 7, 7]));
    assert!(has_real_mac(&[0, 0, 0, 0, 0, 1, 0, 0]));
    assert_eq!(
        format_mac(&[0x02, 0x42, 0xac, 0x11, 0x00, 0x0f, 9, 9]),
        "02:42:ac:11:00:0f"
    );
}

#[test]
fn usable_ipv4_rejects_loopback_and_link_local() {
    assert!(!usable_ipv4(&[0, 0, 0, 0]));
    assert!(!usable_ipv4(&[127, 0, 0, 1]));
    assert!(!usable_ipv4(&[169, 254, 1, 1]));
    assert!(usable_ipv4(&[192, 168, 1, 10]));
    assert!(usable_ipv4(&[10, 0, 0, 5]));
}

#[test]
fn usable_ipv4_rejects_multicast_and_broadcast() {
    assert!(!usable_ipv4(&[224, 0, 0, 1]));
    assert!(!usable_ipv4(&[239, 255, 255, 255]));
    assert!(!usable_ipv4(&[255, 255, 255, 255]));
    assert!(usable_ipv4(&[240, 0, 0, 1]));
    assert!(usable_ipv4(&[223, 255, 255, 255]));
    assert!(usable_ipv4(&[169, 253, 0, 1]));
    assert!(usable_ipv4(&[0, 0, 0, 1]));
}

#[test]
fn matter_ipv6_accepts_link_local() {
    assert!(matter_ipv6(&v6(0xfe80, 0, 1)));
    assert!(matter_ipv6(&v6(0xfd00, 0, 1)));
    assert!(!matter_ipv6(&UNSPECIFIED));
    assert!(!matter_ipv6(&LOCALHOST));
}

#[test]
fn usable_ipv6_rejects_link_local_and_multicast() {
    assert!(!usable_ipv6(&v6(0xfe80, 0, 1)));
    assert!(!usable_ipv6(&v6(0xfebf, 0, 1)));
    assert!(usable_ipv6(&v6(0xfec0, 0, 1)));
    assert!(usable_ipv6(&v6(0xfd00, 0, 1)));
    assert!(!matter_ipv6(&v6(0xff02, 0, 1)));
    assert!(!usable_ipv6(&v6(0xff02, 0, 1)));
    assert!(!usable_ipv6(&LOCALHOST));
    assert!(usable_ipv6(&v6(0, 0, 2)));
}

#[test]
fn score_prefers_real_lan_over_virtual_ula() {
    let eth = iface(
        "eth0",
        true,
        MAC_A,
        &[[192, 168, 1, 10]],
        &[v6(0xfe80, 0, 1), v6(0xfd00, 0, 1)],
    );
    let docker = iface("docker0", true, [0; 6], &[[172, 17, 0, 1]], &[v6(0xfe80, 0, 2)]);
    assert!(score_iface(&eth) > score_iface(&docker));
    assert_eq!(score_iface(&eth), 1370);
    assert_eq!(score_iface(&docker), 1250);
}

#[test]
fn score_ipv6_beats_ipv4_only_peer() {
    let with_v6 = iface("eth0", true, MAC_A, &[[192, 168, 1, 10]], &[v6(0xfe80, 0, 1)]);
    let v4_only = iface("eth1", true, MAC_B, &[[192, 168, 1, 11]], &[]);
    assert!(score_iface(&with_v6) > score_iface(&v4_only));
    assert!(has_matter_ipv6(&with_v6));
    assert!(!has_matter_ipv6(&v4_only));
}

#[test]
fn select_skips_virtual_and_picks_best_lan() {
    let ifaces = vec![
        iface("lo", true, [0; 6], &[[127, 0, 0, 1]], &[LOCALHOST]),
        iface("docker0", true, [0; 6], &[[172, 17, 0, 1]], &[v6(0xfe80, 0, 0xd)]),
        iface(
            "hassio",
            true,
            [0x02, 0x42, 0x00, 0x00, 0x00, 0x01],
            &[[172, 30, 32, 1]],
            &[v6(0xfe80, 0, 1)],
        ),
        iface(
            "enp1s0",
            true,
            MAC_A,
            &[[192, 168, 1, 50]],
            &[v6(0xfe80, 0, 0xabcd), v6(0xfd12, 0x3456, 1)],
        ),
        iface(
            "veth99",
            true,
            [0x02, 0x42, 0xac, 0x11, 0x00, 0x02],
            &[],
            &[v6(0xfe80, 0, 0x99)],
        ),
    ];
    assert_eq!(select(&ifaces, None).as_deref(), Some("enp1s0"));
}

#[test]
fn select_prefers_link_local_ipv6_over_ipv4_only() {
    let ifaces = vec![
        iface("eth0", true, MAC_A, &[[192, 168, 1, 10]], &[v6(0xfe80, 0, 1)]),
        iface("eth1", true, MAC_B, &[[10, 0, 0, 2]], &[]),
    ];
    assert_eq!(select(&ifaces, None).as_deref(), Some("eth0"));
}

#[test]
fn select_rejects_ipv4_only_auto() {
    let ifaces = vec![iface("eth0", true, MAC_A, &[[192, 168, 1, 10]], &[])];
    assert_eq!(select(&ifaces, None), None);
}

#[test]
fn select_takes_the_first_of_equals() {
    let ifaces = vec![
        iface("eth2", true, MAC_A, &[], &[v6(0xfe80, 0, 1)]),
        iface("eth0", true, MAC_B, &[], &[v6(0xfe80, 0, 2)]),
        iface("eth1", false, MAC_B, &[[10, 0, 0, 2]], &[v6(0xfd00, 0, 2)]),
    ];
    assert_eq!(select(&ifaces, None).as_deref(), Some("eth2"));
    assert_eq!(select(&[], None), None);
}

#[test]
fn pin_selects_exact_name() {
    let ifaces = vec![
        iface("eth0", true, MAC_A, &[[192, 168, 1, 10]], &[v6(0xfd00, 0, 1)]),
        iface("wlan0", true, MAC_B, &[[192, 168, 1, 20]], &[v6(0xfd00, 0, 2)]),
    ];
    assert_eq!(select(&ifaces, Some("wlan0")).as_deref(), Some("wlan0"));
    assert_eq!(select(&ifaces, Some(" wlan0\n")).as_deref(), Some("wlan0"));
}

#[test]
fn pin_missing_does_not_fallback() {
    let ifaces = vec![
        iface("docker0", true, [0; 6], &[[172, 17, 0, 1]], &[v6(0xfe80, 0, 1)]),
        iface("eth0", true, MAC_A, &[[10, 0, 0, 2]], &[v6(0xfd00, 0, 0xa)]),
    ];
    assert_eq!(select(&ifaces, Some("does-not-exist")), None);
}

#[test]
fn pin_down_still_selected_when_has_ipv6() {
    let ifaces = vec![iface("eth0", false, MAC_A, &[[192, 168, 1, 10]], &[v6(0xfe80, 0, 1)])];
    assert_eq!(select(&ifaces, Some("eth0")).as_deref(), Some("eth0"));
}

#[test]
fn pin_no_ipv6_is_rejected() {
    let ifaces = vec![iface("eth0", true, MAC_A, &[[192, 168, 1, 10]], &[])];
    assert_eq!(select(&ifaces, Some("eth0")), None);
}

#[test]
fn fallback_uses_virtual_with_ipv6_when_only_virtual_operational() {
    let ifaces = vec![
        iface("lo", true, [0; 6], &[[127, 0, 0, 1]], &[LOCALHOST]),
        iface(
            "docker0",
            true,
            [0x02, 0x42, 0xac, 0x11, 0x00, 0x02],
            &[[172, 17, 0, 1]],
            &[v6(0xfe80, 0, 1)],
        ),
    ];
    assert_eq!(select(&ifaces, None).as_deref(), Some("docker0"));
}

#[test]
fn empty_pin_is_auto() {
    let lan = LanNetifs::new(Some("  ".into()));
    assert!(lan.pin.is_none());
    let lan = LanNetifs::new(None);
    assert!(lan.pin.is_none());
}

#[test]
fn start_needs_a_usable_interface() {
    let eth = iface("eth0", true, MAC_A, &[], &[v6(0xfe80, 0, 1)]);
    let down = iface("eth1", false, MAC_A, &[], &[v6(0xfe80, 0, 1)]);
    let v4_only = iface("eth2", true, MAC_A, &[[10, 0, 0, 2]], &[]);
    let docker = iface("docker0", true, MAC_A, &[], &[v6(0xfe80, 0, 1)]);
    let ifaces = vec![eth, down, v4_only, docker];
    let start = |pin: Option<&str>, ifaces: &[Netif]| {
        LanNetifs::new(pin.map(str::to_string)).validate_for_start(ifaces)
    };
    assert_eq!(start(None, &ifaces), Ok(()));
    assert_eq!(start(Some("eth0"), &ifaces), Ok(()));
    assert_eq!(
        start(Some("eth9"), &ifaces).unwrap_err(),
        "mdns_interface pin `eth9` not found among host interfaces. Available: [eth0, eth1, eth2, docker0]. Clear the option for auto-select or set a valid name."
    );
    assert_eq!(
        start(Some("eth2"), &ifaces).unwrap_err(),
        "pinned interface `eth2` has no IPv6 address; Matter requires IPv6 on the LAN face (link-local fe80:: is enough). Enable IPv6 or pick another interface."
    );
    assert_eq!(
        start(Some("eth1"), &ifaces).unwrap_err(),
        "pinned interface `eth1` is down (not operational). Bring the link up or clear the LAN interface option for auto-select."
    );
    assert_eq!(
        start(None, &ifaces[1..]).unwrap_err(),
        "no operational IPv6-capable non-virtual LAN interface for Matter (link-local fe80:: is enough). Host interfaces: [eth1, eth2, docker0]. Enable IPv6 on eth0/wlan0 or set mdns_interface to a face that has IPv6."
    );
    assert!(start(None, &[]).unwrap_err().contains("[(none)]"));
    assert_eq!(available_iface_names(&[]), "(none)");
}

#[test]
fn inventory_marks_the_selected_interface() {
    let ifaces = vec![
        iface("docker0", true, [0; 6], &[], &[v6(0xfe80, 0, 1)]),
        iface("eth0", true, MAC_A, &[[10, 0, 0, 2]], &[v6(0xfe80, 0, 1)]),
        iface("eth1", true, MAC_B, &[], &[]),
    ];
    let auto = LanNetifs::new(None).log_inventory(&ifaces);
    assert_eq!(auto.verdict, Verdict::AutoSelected("eth0".into()));
    let flags: Vec<(bool, bool, bool)> =
        auto.rows.iter().map(|r| (r.selected, r.virtual_name, r.has_ipv6)).collect();
    assert_eq!(flags, vec![(false, true, true), (true, false, true), (false, false, false)]);
    assert_eq!(auto.rows[1].mac, "aa:bb:cc:dd:ee:ff");
    assert_eq!(auto.rows[1].score, 1350);

    let inventory = |pin: &str| LanNetifs::new(Some(pin.into())).log_inventory(&ifaces);
    assert_eq!(inventory("docker0").verdict, Verdict::Pinned("docker0".into()));
    assert_eq!(inventory("eth1").verdict, Verdict::PinUnusable("eth1".into()));
    assert_eq!(inventory("eth7").verdict, Verdict::PinUnusable("eth7".into()));
    assert_eq!(LanNetifs::new(None).log_inventory(&ifaces[2..]).verdict, Verdict::NoneUsable);
    assert!(inventory("eth7").rows.iter().all(|r| !r.selected));
}

#[test]
fn a_selection_that_was_not_asked_for_is_told() {
    let lan = || iface("eth0", true, MAC_A, &[[192, 168, 1, 10]], &[v6(0xfe80, 0, 1)]);
    let down = iface("eth1", false, MAC_A, &[], &[v6(0xfe80, 0, 2)]);
    let v4_only = || iface("wlan0", true, MAC_B, &[[192, 168, 1, 11]], &[]);
    let container = || iface("docker0", true, MAC_B, &[[172, 17, 0, 1]], &[v6(0xfe80, 0, 3)]);
    let told = |pin: Option<&str>, ifaces: &[Netif]| {
        LanNetifs::new(pin.map(str::to_string)).diagnose(ifaces)
    };

    assert_eq!(told(None, &[container(), lan(), v4_only()]), Diagnosis::Clear);
    assert_eq!(told(Some("docker0"), &[container(), lan()]), Diagnosis::Clear);
    assert_eq!(
        told(Some("eth9"), &[lan(), v4_only()]),
        Diagnosis::PinMissing {
            available: "eth0, wlan0".into(),
        }
    );
    assert_eq!(told(Some("wlan0"), &[lan(), v4_only()]), Diagnosis::PinWithoutIpv6);
    assert_eq!(told(Some("eth1"), &[lan(), down]), Diagnosis::PinDown);
    assert_eq!(
        told(None, &[v4_only(), container()]),
        Diagnosis::NoLanFace {
            ipv4_only: vec!["wlan0".into()],
            fallback: Some("docker0".into()),
        }
    );
    assert_eq!(
        told(None, &[]),
        Diagnosis::NoLanFace {
            ipv4_only: vec![],
            fallback: None,
        }
    );
}
