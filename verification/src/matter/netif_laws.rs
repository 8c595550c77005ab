//! What holds of interfaces, their addresses and names, and their selection.
use super::lan_netif;
use super::lan_netif::{DiagnosisView, InventoryRow, Netif};
use crate::{ids, text};
use vstd::prelude::*;

verus! {

/// The number that the octets of an IPv4 address spell.
pub open spec fn ipv4_number(a: Seq<u8>) -> int {
    a[0] * 0x100_0000 + a[1] * 0x1_0000 + a[2] * 0x100 + a[3]
}

/// IPv4 suits Matter on a LAN outside of 0.0.0.0, 127.0.0.0/8, 169.254.0.0/16, 224.0.0.0/4 and
/// 255.255.255.255.
pub proof fn law_lan_ipv4(a: Seq<u8>)
    requires
        a.len() == 4,
    ensures
        lan_netif::lan_ipv4(a) <==> {
            let n = ipv4_number(a);
            &&& n != 0
            &&& !(0x7f00_0000 <= n && n <= 0x7fff_ffff)
            &&& !(0xa9fe_0000 <= n && n <= 0xa9fe_ffff)
            &&& !(0xe000_0000 <= n && n <= 0xefff_ffff)
            &&& n != 0xffff_ffff
        },
{
    if a[0] == 0 && a[1] == 0 && a[2] == 0 && a[3] == 0 {
        assert forall|i: int| 0 <= i < 4 implies #[trigger] a[i] == 0 by {
            if i == 0 {
            } else if i == 1 {
            } else if i == 2 {
            }
        }
    }
    if a[0] == 255 && a[1] == 255 && a[2] == 255 && a[3] == 255 {
        assert forall|i: int| 0 <= i < 4 implies #[trigger] a[i] == 255 by {
            if i == 0 {
            } else if i == 1 {
            } else if i == 2 {
            }
        }
    }
}

/// IPv6 suits Matter outside of `::`, `::1` and ff00::/8, and goes beyond the link outside of
/// fe80::/10 too.
pub proof fn law_unicast_ipv6(a: Seq<u8>)
    requires
        a.len() == 16,
    ensures
        lan_netif::unicast_ipv6(a) <==> {
            &&& a != Seq::new(16, |i: int| 0u8)
            &&& a != Seq::new(
                16,
                |i: int|
                    if i == 15 {
                        1u8
                    } else {
                        0u8
                    },
            )
            &&& a[0] != 255
        },
        lan_netif::routed_ipv6(a) <==> lan_netif::unicast_ipv6(a) && !(0xfe80 <= a[0] * 256 + a[1]
            && a[0] * 256 + a[1] < 0xfec0),
{
    let zero = Seq::new(16, |i: int| 0u8);
    let one = Seq::new(
        16,
        |i: int|
            if i == 15 {
                1u8
            } else {
                0u8
            },
    );
    if lan_netif::octets_are(a, 0, 16, 0) {
        assert(a =~= zero);
    }
    if lan_netif::octets_are(a, 0, 15, 0) && a[15] == 1 {
        assert(a =~= one);
    }
    if a == zero {
        assert(forall|i: int| 0 <= i < 16 ==> #[trigger] a[i] == zero[i]);
    }
    if a == one {
        assert(forall|i: int| 0 <= i < 16 ==> #[trigger] a[i] == one[i]);
    }
}

/// A face has an address of a kind exactly where one of its addresses, at whatever place, is of
/// that kind.
pub proof fn law_addresses(face: Netif, i: int)
    ensures
        0 <= i < face.ipv4addrs@.len() && lan_netif::lan_ipv4(face.ipv4addrs@[i]@)
            ==> face.has_lan_ipv4(),
        0 <= i < face.ipv6addrs@.len() && lan_netif::unicast_ipv6(face.ipv6addrs@[i]@)
            ==> face.has_unicast_ipv6(),
        0 <= i < face.ipv6addrs@.len() && lan_netif::routed_ipv6(face.ipv6addrs@[i]@)
            ==> face.has_routed_ipv6(),
        (forall|j: int|
            0 <= j < face.ipv4addrs@.len() ==> !lan_netif::lan_ipv4(
                (#[trigger] face.ipv4addrs@[j])@,
            )) ==> !face.has_lan_ipv4(),
        (forall|j: int|
            0 <= j < face.ipv6addrs@.len() ==> !lan_netif::unicast_ipv6(
                (#[trigger] face.ipv6addrs@[j])@,
            )) ==> !face.has_unicast_ipv6(),
        (forall|j: int|
            0 <= j < face.ipv6addrs@.len() ==> !lan_netif::routed_ipv6(
                (#[trigger] face.ipv6addrs@[j])@,
            )) ==> !face.has_routed_ipv6(),
{
}

/// A hardware address is real where one of its first six octets is not 0.
pub proof fn law_real_mac(hw_addr: Seq<u8>)
    ensures
        lan_netif::real_mac(hw_addr) <==> hw_addr[0] != 0 || hw_addr[1] != 0 || hw_addr[2] != 0
            || hw_addr[3] != 0 || hw_addr[4] != 0 || hw_addr[5] != 0,
{
    if hw_addr[0] == 0 && hw_addr[1] == 0 && hw_addr[2] == 0 && hw_addr[3] == 0 && hw_addr[4] == 0
        && hw_addr[5] == 0 {
        assert forall|i: int| 0 <= i < 6 implies #[trigger] hw_addr[i] == 0 by {
            if i == 0 {
            } else if i == 1 {
            } else if i == 2 {
            } else if i == 3 {
            } else if i == 4 {
            }
        }
    }
}

/// 1 for what holds, and 0 for what does not.
pub open spec fn count_of(holds: bool) -> int {
    if holds {
        1
    } else {
        0
    }
}

/// How far two faces are apart: 1000 for being up, 200 for IPv6, 100 for a real hardware
/// address, 50 for IPv4 on a LAN and 20 for IPv6 beyond the link. A face with none of these
/// scores 0.
pub proof fn law_score(a: Netif, b: Netif)
    ensures
        a.score() - b.score() == 1000 * (count_of(a.operational) - count_of(b.operational)) + 200 * (
        count_of(a.has_unicast_ipv6()) - count_of(b.has_unicast_ipv6())) + 100 * (count_of(
            lan_netif::real_mac(a.hw_addr@),
        ) - count_of(lan_netif::real_mac(b.hw_addr@))) + 50 * (count_of(a.has_lan_ipv4())
            - count_of(b.has_lan_ipv4())) + 20 * (count_of(a.has_routed_ipv6()) - count_of(
            b.has_routed_ipv6(),
        )),
        !a.operational && !a.has_unicast_ipv6() && !lan_netif::real_mac(a.hw_addr@)
            && !a.has_lan_ipv4() && !a.has_routed_ipv6() ==> a.score() == 0,
{
}

/// A name is a loopback's exactly where it is `lo` with nothing but digits behind it.
pub proof fn law_loopback_name(name: Seq<char>, rest: Seq<char>)
    ensures
        lan_netif::loopback_name("lo"@ + rest) <==> forall|i: int|
            0 <= i < rest.len() ==> '0' <= #[trigger] rest[i] && rest[i] <= '9',
        lan_netif::loopback_name(name) ==> name.len() >= 2 && name[0] == 'l' && name[1] == 'o',
{
    reveal_strlit("lo");
    let all = "lo"@ + rest;
    assert(all.subrange(0, 2) =~= "lo"@);
    assert(all.subrange(2, all.len() as int) =~= rest);
    if lan_netif::loopback_name(name) {
        assert(name.subrange(0, 2)[0] == 'l' && name.subrange(0, 2)[1] == 'o');
    }
}

/// Whatever follows one of these beginnings, the name is that of a virtual face: a container,
/// VPN or tunnel one.
pub proof fn law_virtual_names(rest: Seq<char>)
    ensures
        lan_netif::virtual_name("docker"@ + rest),
        lan_netif::virtual_name("veth"@ + rest),
        lan_netif::virtual_name("br-"@ + rest),
        lan_netif::virtual_name("hassio"@ + rest),
        lan_netif::virtual_name("flannel"@ + rest),
        lan_netif::virtual_name("cni"@ + rest),
        lan_netif::virtual_name("cali"@ + rest),
        lan_netif::virtual_name("weave"@ + rest),
        lan_netif::virtual_name("virbr"@ + rest),
        lan_netif::virtual_name("vboxnet"@ + rest),
        lan_netif::virtual_name("zt"@ + rest),
        lan_netif::virtual_name("tailscale"@ + rest),
        lan_netif::virtual_name("wg"@ + rest),
        lan_netif::virtual_name("tun"@ + rest),
        lan_netif::virtual_name("tap"@ + rest),
        lan_netif::virtual_name("dummy"@ + rest),
        lan_netif::virtual_name("sit"@ + rest),
        lan_netif::virtual_name("ip6tnl"@ + rest),
        lan_netif::virtual_name("kube"@ + rest),
        lan_netif::virtual_name("podman"@ + rest),
{
    text::law_prefix("docker"@ + rest, "docker"@);
    text::law_prefix("veth"@ + rest, "veth"@);
    text::law_prefix("br-"@ + rest, "br-"@);
    text::law_prefix("hassio"@ + rest, "hassio"@);
    text::law_prefix("flannel"@ + rest, "flannel"@);
    text::law_prefix("cni"@ + rest, "cni"@);
    text::law_prefix("cali"@ + rest, "cali"@);
    text::law_prefix("weave"@ + rest, "weave"@);
    text::law_prefix("virbr"@ + rest, "virbr"@);
    text::law_prefix("vboxnet"@ + rest, "vboxnet"@);
    text::law_prefix("zt"@ + rest, "zt"@);
    text::law_prefix("tailscale"@ + rest, "tailscale"@);
    text::law_prefix("wg"@ + rest, "wg"@);
    text::law_prefix("tun"@ + rest, "tun"@);
    text::law_prefix("tap"@ + rest, "tap"@);
    text::law_prefix("dummy"@ + rest, "dummy"@);
    text::law_prefix("sit"@ + rest, "sit"@);
    text::law_prefix("ip6tnl"@ + rest, "ip6tnl"@);
    text::law_prefix("kube"@ + rest, "kube"@);
    text::law_prefix("podman"@ + rest, "podman"@);
}

/// A name with none of these beginnings is that of a virtual face only where it is a loopback's,
/// and a loopback is always one.
pub proof fn law_real_names(name: Seq<char>)
    ensures
        lan_netif::loopback_name(name) ==> lan_netif::virtual_name(name),
        ({
            &&& !lan_netif::loopback_name(name)
            &&& !text::has_prefix(name, "docker"@)
            &&& !text::has_prefix(name, "veth"@)
            &&& !text::has_prefix(name, "br-"@)
            &&& !text::has_prefix(name, "hassio"@)
            &&& !text::has_prefix(name, "flannel"@)
            &&& !text::has_prefix(name, "cni"@)
            &&& !text::has_prefix(name, "cali"@)
            &&& !text::has_prefix(name, "weave"@)
            &&& !text::has_prefix(name, "virbr"@)
            &&& !text::has_prefix(name, "vboxnet"@)
            &&& !text::has_prefix(name, "zt"@)
            &&& !text::has_prefix(name, "tailscale"@)
            &&& !text::has_prefix(name, "wg"@)
            &&& !text::has_prefix(name, "tun"@)
            &&& !text::has_prefix(name, "tap"@)
            &&& !text::has_prefix(name, "dummy"@)
            &&& !text::has_prefix(name, "sit"@)
            &&& !text::has_prefix(name, "ip6tnl"@)
            &&& !text::has_prefix(name, "kube"@)
            &&& !text::has_prefix(name, "podman"@)
        }) ==> !lan_netif::virtual_name(name),
{
}

/// A face is usable where it is up, has IPv6 and is no loopback, and usable as a LAN face where
/// it is no virtual one besides.
pub proof fn law_usable(face: Netif)
    ensures
        face.usable() <==> face.operational && face.has_unicast_ipv6() && !lan_netif::loopback_name(
            face.name@,
        ),
        face.usable_lan() <==> face.operational && face.has_unicast_ipv6()
            && !lan_netif::virtual_name(face.name@),
{
}

/// Without a pin, of the LAN faces that share the best score the first is picked, and where
/// there is no LAN face the first of the usable ones.
pub proof fn law_first_of_the_best(ifaces: Seq<Netif>, i: int)
    requires
        0 <= i < ifaces.len(),
    ensures
        ifaces[i].usable_lan() && (forall|j: int|
            0 <= j < ifaces.len() && (#[trigger] ifaces[j]).usable_lan() ==> ifaces[j].score()
                < ifaces[i].score() || (ifaces[j].score() == ifaces[i].score() && i <= j))
            ==> lan_netif::picked(None, ifaces) == Some(i),
        ifaces[i].usable() && (forall|j: int|
            0 <= j < ifaces.len() ==> !(#[trigger] ifaces[j]).usable_lan()) && (forall|j: int|
            0 <= j < ifaces.len() && (#[trigger] ifaces[j]).usable() ==> ifaces[j].score()
                < ifaces[i].score() || (ifaces[j].score() == ifaces[i].score() && i <= j))
            ==> lan_netif::picked(None, ifaces) == Some(i),
{
    lan_netif::law_best_exists(ifaces, true);
    lan_netif::law_best_exists(ifaces, false);
    assert(forall|j: int|
        0 <= j < ifaces.len() ==> lan_netif::candidate(ifaces[j], true) == (
        #[trigger] ifaces[j]).usable_lan());
    assert(forall|j: int|
        0 <= j < ifaces.len() ==> lan_netif::candidate(ifaces[j], false) == (
        #[trigger] ifaces[j]).usable());
    assert(ifaces[i].usable() == lan_netif::candidate(ifaces[i], false));
    if lan_netif::best(ifaces, true) is Some {
        let b = lan_netif::best(ifaces, true)->0;
        assert(ifaces[b].usable_lan());
    }
    if lan_netif::best(ifaces, false) is Some {
        let b = lan_netif::best(ifaces, false)->0;
        assert(ifaces[b].usable());
    }
}

/// Whether face `i` is the first with a name.
pub open spec fn first_named(ifaces: Seq<Netif>, name: Seq<char>, i: int) -> bool {
    &&& 0 <= i < ifaces.len()
    &&& ifaces[i].name@ == name
    &&& forall|j: int| 0 <= j < i ==> (#[trigger] ifaces[j]).name@ != name
}

/// Whether no face has a name.
pub open spec fn none_named(ifaces: Seq<Netif>, name: Seq<char>) -> bool {
    forall|j: int| 0 <= j < ifaces.len() ==> (#[trigger] ifaces[j]).name@ != name
}

proof fn lemma_first_named(ifaces: Seq<Netif>, name: Seq<char>, i: int)
    requires
        first_named(ifaces, name, i),
    ensures
        lan_netif::named(ifaces, name) == Some(i),
{
    assert(ifaces[i].name@ == name);
    assert(lan_netif::is_named(ifaces, name, i));
    let c = choose|c: int| lan_netif::is_named(ifaces, name, c);
    assert(lan_netif::is_named(ifaces, name, c));
    if c < i {
        assert(ifaces[c].name@ != name);
    }
    if i < c {
        assert(ifaces[i].name@ != name);
    }
}

/// With a pin the first face of that name is picked where it has IPv6, up or down, and nothing
/// is picked otherwise. The bridge starts on it only where it is up as well, and the warning
/// says which of these is missing.
pub proof fn law_pinned(ifaces: Seq<Netif>, pin: Seq<char>, i: int)
    ensures
        none_named(ifaces, pin) ==> {
            &&& lan_netif::picked(Some(pin), ifaces) is None
            &&& lan_netif::start_error(Some(pin), ifaces) is Some
            &&& text::has_prefix(
                lan_netif::start_error(Some(pin), ifaces)->0,
                "mdns_interface pin `"@ + pin + "` not found among host interfaces. Available: ["@
                    + lan_netif::available_text(ifaces),
            )
            &&& lan_netif::diagnosis(Some(pin), ifaces) == (DiagnosisView::PinMissing {
                available: lan_netif::available_text(ifaces),
            })
        },
        first_named(ifaces, pin, i) && !ifaces[i].has_unicast_ipv6() ==> {
            &&& lan_netif::picked(Some(pin), ifaces) is None
            &&& lan_netif::start_error(Some(pin), ifaces) == Some(
                "pinned interface `"@ + pin
                    + "` has no IPv6 address; Matter requires IPv6 on the LAN face (link-local fe80:: is enough). Enable IPv6 or pick another interface."@,
            )
            &&& lan_netif::diagnosis(Some(pin), ifaces) == DiagnosisView::PinWithoutIpv6
        },
        first_named(ifaces, pin, i) && ifaces[i].has_unicast_ipv6() ==> {
            &&& lan_netif::picked(Some(pin), ifaces) == Some(i)
            &&& lan_netif::start_error(Some(pin), ifaces) is None <==> ifaces[i].operational
            &&& !ifaces[i].operational ==> lan_netif::start_error(Some(pin), ifaces) == Some(
                "pinned interface `"@ + pin
                    + "` is down (not operational). Bring the link up or clear the LAN interface option for auto-select."@,
            )
            &&& lan_netif::diagnosis(Some(pin), ifaces) == (if ifaces[i].operational {
                DiagnosisView::Clear
            } else {
                DiagnosisView::PinDown
            })
        },
{
    if first_named(ifaces, pin, i) {
        lemma_first_named(ifaces, pin, i);
    }
    if none_named(ifaces, pin) {
        let front = "mdns_interface pin `"@ + pin
            + "` not found among host interfaces. Available: ["@ + lan_netif::available_text(ifaces);
        let back = "]. Clear the option for auto-select or set a valid name."@;
        assert(lan_netif::start_error(Some(pin), ifaces) == Some(front + back));
        text::law_prefix(front + back, front);
    }
}

/// Without a pin the bridge starts exactly where some LAN face is usable, and there is a warning
/// exactly where none is: it names the face that is picked instead, and the LAN faces that are
/// up with IPv4 alone.
pub proof fn law_unpinned(ifaces: Seq<Netif>, i: int)
    ensures
        0 <= i < ifaces.len() && ifaces[i].usable_lan() ==> {
            &&& lan_netif::start_error(None, ifaces) is None
            &&& lan_netif::diagnosis(None, ifaces) == DiagnosisView::Clear
        },
        (forall|j: int| 0 <= j < ifaces.len() ==> !(#[trigger] ifaces[j]).usable_lan()) ==> {
            &&& lan_netif::start_error(None, ifaces) is Some
            &&& lan_netif::diagnosis(None, ifaces) == (DiagnosisView::NoLanFace {
                ipv4_only: lan_netif::ipv4_only_names(ifaces),
                fallback: match lan_netif::picked(None, ifaces) {
                    Some(k) => Some(ifaces[k].name@),
                    None => None,
                },
            })
        },
{
    assert(forall|j: int|
        0 <= j < ifaces.len() ==> lan_netif::candidate(ifaces[j], true) == (
        #[trigger] ifaces[j]).usable_lan());
    if 0 <= i < ifaces.len() && ifaces[i].usable_lan() {
        assert(lan_netif::candidate(ifaces[i], true));
    }
    if forall|j: int| 0 <= j < ifaces.len() ==> !(#[trigger] ifaces[j]).usable_lan() {
        lan_netif::law_best_exists(ifaces, true);
        if lan_netif::best(ifaces, true) is Some {
            let b = lan_netif::best(ifaces, true)->0;
            assert(!ifaces[b].usable_lan());
        }
    }
}

/// The name of the picked face is its name.
pub proof fn law_picked_name(pin: Option<Seq<char>>, ifaces: Seq<Netif>, i: int)
    ensures
        lan_netif::picked(pin, ifaces) == Some(i) ==> lan_netif::picked_name(pin, ifaces) == Some(
            ifaces[i].name@,
        ),
        lan_netif::picked(pin, ifaces) is None ==> lan_netif::picked_name(pin, ifaces) is None,
{
}

/// The LAN faces with IPv4 alone of two runs of faces, one behind the other, are those of the
/// first, then those of the second; a single face is one where it is no virtual face, is up and
/// has IPv4 but not IPv6.
pub proof fn law_ipv4_only(a: Seq<Netif>, b: Seq<Netif>, face: Netif)
    ensures
        lan_netif::ipv4_only_names(a + b) == lan_netif::ipv4_only_names(a)
            + lan_netif::ipv4_only_names(b),
        lan_netif::ipv4_only_names(seq![face]) == (if face.operational && face.has_lan_ipv4()
            && !face.has_unicast_ipv6() && !lan_netif::virtual_name(face.name@) {
            seq![face.name@]
        } else {
            Seq::empty()
        }),
    decreases b.len(),
{
    assert(seq![face].drop_last() =~= Seq::<Netif>::empty());
    assert(lan_netif::ipv4_only_names(seq![face].drop_last()) =~= Seq::empty());
    assert(seq![face].last() == face);
    assert(Seq::<Seq<char>>::empty().push(face.name@) =~= seq![face.name@]);
    if b.len() == 0 {
        assert(a + b =~= a);
        assert(lan_netif::ipv4_only_names(a) + Seq::empty() =~= lan_netif::ipv4_only_names(a));
    } else {
        assert((a + b).drop_last() =~= a + b.drop_last());
        law_ipv4_only(a, b.drop_last(), face);
        assert(lan_netif::ipv4_only_names(a + b) =~= lan_netif::ipv4_only_names(a)
            + lan_netif::ipv4_only_names(b));
    }
}

/// The names of two runs of faces, one behind the other, are those of the first and those of the
/// second with a comma and a space between; a single face is its name, and no face is `(none)`.
pub proof fn law_names(a: Seq<Netif>, b: Seq<Netif>, face: Netif)
    requires
        a.len() > 0,
        b.len() > 0,
    ensures
        lan_netif::available_text(a + b) == lan_netif::available_text(a) + ", "@
            + lan_netif::available_text(b),
        lan_netif::available_text(seq![face]) == face.name@,
        lan_netif::available_text(Seq::empty()) == "(none)"@,
    decreases b.len(),
{
    assert(seq![face][0] == face);
    assert((a + b).drop_last() =~= a + b.drop_last());
    assert((a + b).last() == b.last());
    if b.len() == 1 {
        assert(a + b.drop_last() =~= a);
    } else {
        law_names(a, b.drop_last(), face);
        let front = lan_netif::names_text(b.drop_last());
        assert(lan_netif::names_text(a) + ", "@ + front + ", "@ + b.last().name@
            =~= lan_netif::names_text(a) + ", "@ + (front + ", "@ + b.last().name@));
    }
}

/// A hardware address is written as six pairs of digits with colons between: 17 characters, the
/// two digits of octet `k` from place 3 `k` on.
pub proof fn law_mac_text(hw_addr: Seq<u8>, k: int)
    requires
        0 <= k < 6,
    ensures
        ({
            let s = lan_netif::mac_text(hw_addr, 6);
            &&& s.len() == 17
            &&& s[3 * k] == ids::hex_char((hw_addr[k] / 16) as nat)
            &&& s[3 * k + 1] == ids::hex_char((hw_addr[k] % 16) as nat)
            &&& k < 5 ==> s[3 * k + 2] == ':'
        }),
{
    lemma_mac_text(hw_addr, 6, k);
}

proof fn lemma_mac_text(hw_addr: Seq<u8>, n: nat, k: int)
    requires
        0 <= k < n,
    ensures
        ({
            let s = lan_netif::mac_text(hw_addr, n);
            &&& s.len() == 3 * n - 1
            &&& s[3 * k] == ids::hex_char((hw_addr[k] / 16) as nat)
            &&& s[3 * k + 1] == ids::hex_char((hw_addr[k] % 16) as nat)
            &&& k < n - 1 ==> s[3 * k + 2] == ':'
        }),
    decreases n,
{
    let octet = hw_addr[n - 1];
    let digits = ids::hex_digits(octet as nat, 2);
    reveal_with_fuel(ids::hex_digits, 3);
    assert(digits =~= seq![
        ids::hex_char((octet / 16) as nat),
        ids::hex_char((octet % 16) as nat),
    ]);
    if n > 1 {
        let m = (n - 1) as nat;
        lemma_mac_text(
            hw_addr,
            m,
            if k < m {
                k
            } else {
                0
            },
        );
    }
}

/// A row of the inventory tells of its face, and that it is selected exactly where the face has
/// the name of the picked one.
pub proof fn law_inventory_row(row: InventoryRow, face: Netif, chosen: Option<Seq<char>>)
    requires
        lan_netif::is_row(row, face, chosen),
    ensures
        row.name@ == face.name@,
        row.operational == face.operational,
        row.mac@ == lan_netif::mac_text(face.hw_addr@, 6),
        row.has_ipv6 == face.has_unicast_ipv6(),
        row.score == face.score(),
        row.virtual_name == lan_netif::virtual_name(face.name@),
        chosen is None ==> !row.selected,
        chosen is Some ==> (row.selected <==> chosen->0 == face.name@),
{
}

} // verus!
