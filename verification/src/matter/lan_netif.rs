//! LAN interface selection for hosts with several network interfaces.
//!
//! The Matter stack keeps the last operational interface with any IPv6 address. Under Home
//! Assistant OS that is often a container face with a zero MAC, which breaks commissioning.
//! The selection here leaves one real LAN interface, or an explicitly pinned one.
//!
//! Matter over IP needs IPv6 on the selected face; a link-local `fe80::` address is enough.
//! Interfaces with IPv4 alone are never selected.
use crate::text::{starts_with, str_eq, to_chars, trim};
use vstd::prelude::*;
use vstd::string::*;

verus! {

/// A network interface of the host.
#[derive(Debug, PartialEq, Eq)]
pub struct Netif {
    pub name: String,
    pub hw_addr: [u8; 8],
    /// IPv4 addresses as octets.
    pub ipv4addrs: Vec<[u8; 4]>,
    /// IPv6 addresses as octets.
    pub ipv6addrs: Vec<[u8; 16]>,
    pub operational: bool,
    pub netif_index: u32,
}

/// Whether all octets from `from` on, up to `to`, are `value`.
pub open spec fn octets_are(a: Seq<u8>, from: int, to: int, value: u8) -> bool {
    forall|i: int| from <= i < to ==> #[trigger] a[i] == value
}

/// An IPv4 address suitable for LAN Matter: not unspecified, loopback, link-local,
/// multicast or broadcast.
pub open spec fn lan_ipv4(a: Seq<u8>) -> bool {
    &&& !octets_are(a, 0, 4, 0)
    &&& a[0] != 127
    &&& !(a[0] == 169 && a[1] == 254)
    &&& !(224 <= a[0] <= 239)
    &&& !octets_are(a, 0, 4, 255)
}

/// A unicast IPv6 address that Matter can use, link-local ones among them: not
/// unspecified, loopback or multicast.
pub open spec fn unicast_ipv6(a: Seq<u8>) -> bool {
    &&& !octets_are(a, 0, 16, 0)
    &&& !(octets_are(a, 0, 15, 0) && a[15] == 1)
    &&& a[0] != 0xff
}

/// A unicast IPv6 address beyond the link: unique local or global.
pub open spec fn routed_ipv6(a: Seq<u8>) -> bool {
    unicast_ipv6(a) && !(a[0] == 0xfe && 0x80 <= a[1] <= 0xbf)
}

impl Netif {
    pub open spec fn has_lan_ipv4(self) -> bool {
        exists|i: int| 0 <= i < self.ipv4addrs@.len() && lan_ipv4((#[trigger] self.ipv4addrs@[i])@)
    }

    pub open spec fn has_unicast_ipv6(self) -> bool {
        exists|i: int|
            0 <= i < self.ipv6addrs@.len() && unicast_ipv6((#[trigger] self.ipv6addrs@[i])@)
    }

    pub open spec fn has_routed_ipv6(self) -> bool {
        exists|i: int|
            0 <= i < self.ipv6addrs@.len() && routed_ipv6((#[trigger] self.ipv6addrs@[i])@)
    }

    /// How well the interface suits Matter; more is better.
    pub open spec fn score(self) -> int {
        (if self.operational {
            1000int
        } else {
            0
        }) + (if real_mac(self.hw_addr@) {
            100int
        } else {
            0
        }) + (if self.has_lan_ipv4() {
            50int
        } else {
            0
        }) + (if self.has_unicast_ipv6() {
            200int
        } else {
            0
        }) + (if self.has_routed_ipv6() {
            20int
        } else {
            0
        })
    }

    /// Whether the interface is up, is no loopback, and has IPv6.
    pub open spec fn usable(self) -> bool {
        !loopback_name(self.name@) && self.operational && self.has_unicast_ipv6()
    }

    /// Whether the interface is usable and no container or VPN face.
    pub open spec fn usable_lan(self) -> bool {
        self.usable() && !virtual_name(self.name@)
    }
}

/// A hardware address whose six Ethernet octets are not all zero.
pub open spec fn real_mac(hw_addr: Seq<u8>) -> bool {
    !octets_are(hw_addr, 0, 6, 0)
}

/// Loopback names: `lo`, `lo0`, `lo1` and so on.
pub open spec fn loopback_name(name: Seq<char>) -> bool {
    crate::text::has_prefix(name, "lo"@) && crate::text::all_digits(
        name.subrange(2, name.len() as int),
    )
}

/// Names of container, VPN and tunnel faces, and loopback names.
pub open spec fn virtual_name(name: Seq<char>) -> bool {
    ||| loopback_name(name)
    ||| crate::text::has_prefix(name, "docker"@)
    ||| crate::text::has_prefix(name, "veth"@)
    ||| crate::text::has_prefix(name, "br-"@)
    ||| crate::text::has_prefix(name, "hassio"@)
    ||| crate::text::has_prefix(name, "flannel"@)
    ||| crate::text::has_prefix(name, "cni"@)
    ||| crate::text::has_prefix(name, "cali"@)
    ||| crate::text::has_prefix(name, "weave"@)
    ||| crate::text::has_prefix(name, "virbr"@)
    ||| crate::text::has_prefix(name, "vboxnet"@)
    ||| crate::text::has_prefix(name, "zt"@)
    ||| crate::text::has_prefix(name, "tailscale"@)
    ||| crate::text::has_prefix(name, "wg"@)
    ||| crate::text::has_prefix(name, "tun"@)
    ||| crate::text::has_prefix(name, "tap"@)
    ||| crate::text::has_prefix(name, "dummy"@)
    ||| crate::text::has_prefix(name, "sit"@)
    ||| crate::text::has_prefix(name, "ip6tnl"@)
    ||| crate::text::has_prefix(name, "kube"@)
    ||| crate::text::has_prefix(name, "podman"@)
}

/// Whether a name is a loopback name.
pub fn is_loopback_name(name: &str) -> (r: bool)
    ensures
        r == loopback_name(name@),
{
    proof {
        reveal_strlit("lo");
    }
    if !starts_with(name, "lo") {
        return false;
    }
    let cs: Vec<char> = to_chars(name);
    let n: usize = cs.len();
    let ghost rest = name@.subrange(2, n as int);
    let mut i: usize = 2;
    while i < n
        invariant
            2 <= i <= n,
            n == cs@.len(),
            cs@ == name@,
            rest == name@.subrange(2, n as int),
            forall|k: int| 0 <= k < i - 2 ==> '0' <= #[trigger] rest[k] && rest[k] <= '9',
        decreases n - i,
    {
        let c: char = cs[i];
        assert(rest[i - 2] == c);
        if c < '0' || '9' < c {
            return false;
        }
        i = i + 1;
    }
    true
}

/// Whether a name looks like a container, VPN or tunnel face, or a loopback.
pub fn is_virtual_name(name: &str) -> (r: bool)
    ensures
        r == virtual_name(name@),
{
    is_loopback_name(name) || starts_with(name, "docker") || starts_with(name, "veth")
        || starts_with(name, "br-") || starts_with(name, "hassio") || starts_with(name, "flannel")
        || starts_with(name, "cni") || starts_with(name, "cali") || starts_with(name, "weave")
        || starts_with(name, "virbr") || starts_with(name, "vboxnet") || starts_with(name, "zt")
        || starts_with(name, "tailscale") || starts_with(name, "wg") || starts_with(name, "tun")
        || starts_with(name, "tap") || starts_with(name, "dummy") || starts_with(name, "sit")
        || starts_with(name, "ip6tnl") || starts_with(name, "kube") || starts_with(name, "podman")
}

/// Whether the hardware address is a real Ethernet one.
pub fn has_real_mac(hw_addr: &[u8; 8]) -> (r: bool)
    ensures
        r == real_mac(hw_addr@),
{
    for i in 0..6usize
        invariant
            octets_are(hw_addr@, 0, i as int, 0),
    {
        if hw_addr[i] != 0 {
            assert(hw_addr@[i as int] != 0);
            return true;
        }
    }
    false
}

/// Whether every octet of an IPv4 address is `value`.
fn all_octets4(addr: &[u8; 4], value: u8) -> (r: bool)
    ensures
        r == octets_are(addr@, 0, 4, value),
{
    for i in 0..4usize
        invariant
            octets_are(addr@, 0, i as int, value),
    {
        if addr[i] != value {
            assert(addr@[i as int] != value);
            return false;
        }
    }
    true
}

/// Whether the first `n` octets of an IPv6 address are zero.
fn zero_octets16(addr: &[u8; 16], n: usize) -> (r: bool)
    requires
        n <= 16,
    ensures
        r == octets_are(addr@, 0, n as int, 0),
{
    for i in 0..n
        invariant
            n <= 16,
            octets_are(addr@, 0, i as int, 0),
    {
        if addr[i] != 0 {
            assert(addr@[i as int] != 0);
            return false;
        }
    }
    true
}

/// Whether an IPv4 address suits LAN Matter.
pub fn usable_ipv4(addr: &[u8; 4]) -> (r: bool)
    ensures
        r == lan_ipv4(addr@),
{
    !all_octets4(addr, 0) && addr[0] != 127 && !(addr[0] == 169 && addr[1] == 254) && !(224
        <= addr[0] && addr[0] <= 239) && !all_octets4(addr, 255)
}

/// Whether Matter can use an IPv6 address, link-local ones among them.
pub fn matter_ipv6(addr: &[u8; 16]) -> (r: bool)
    ensures
        r == unicast_ipv6(addr@),
{
    !zero_octets16(addr, 16) && !(zero_octets16(addr, 15) && addr[15] == 1) && addr[0] != 0xff
}

/// Whether an IPv6 address is preferable: unique local or global.
pub fn usable_ipv6(addr: &[u8; 16]) -> (r: bool)
    ensures
        r == routed_ipv6(addr@),
{
    matter_ipv6(addr) && !(addr[0] == 0xfe && 0x80 <= addr[1] && addr[1] <= 0xbf)
}

/// Whether the interface has an IPv4 address that suits LAN Matter.
fn has_usable_ipv4(iface: &Netif) -> (r: bool)
    ensures
        r == iface.has_lan_ipv4(),
{
    for i in 0..iface.ipv4addrs.len()
        invariant
            forall|k: int| 0 <= k < i ==> !lan_ipv4((#[trigger] iface.ipv4addrs@[k])@),
    {
        if usable_ipv4(&iface.ipv4addrs[i]) {
            assert(lan_ipv4(iface.ipv4addrs@[i as int]@));
            return true;
        }
    }
    false
}

/// Whether the interface has an IPv6 address that Matter can use; link-local is enough.
pub fn has_matter_ipv6(iface: &Netif) -> (r: bool)
    ensures
        r == iface.has_unicast_ipv6(),
{
    for i in 0..iface.ipv6addrs.len()
        invariant
            forall|k: int| 0 <= k < i ==> !unicast_ipv6((#[trigger] iface.ipv6addrs@[k])@),
    {
        if matter_ipv6(&iface.ipv6addrs[i]) {
            assert(unicast_ipv6(iface.ipv6addrs@[i as int]@));
            return true;
        }
    }
    false
}

/// Whether the interface has a unique local or global IPv6 address.
fn has_usable_ipv6(iface: &Netif) -> (r: bool)
    ensures
        r == iface.has_routed_ipv6(),
{
    for i in 0..iface.ipv6addrs.len()
        invariant
            forall|k: int| 0 <= k < i ==> !routed_ipv6((#[trigger] iface.ipv6addrs@[k])@),
    {
        if usable_ipv6(&iface.ipv6addrs[i]) {
            assert(routed_ipv6(iface.ipv6addrs@[i as int]@));
            return true;
        }
    }
    false
}

/// How well the interface suits Matter; more is better.
pub fn score_iface(iface: &Netif) -> (r: i32)
    ensures
        r == iface.score(),
        0 <= r <= 1370,
{
    let mut score: i32 = 0;
    if iface.operational {
        score = score + 1000;
    }
    if has_real_mac(&iface.hw_addr) {
        score = score + 100;
    }
    if has_usable_ipv4(iface) {
        score = score + 50;
    }
    if has_matter_ipv6(iface) {
        score = score + 200;
    }
    if has_usable_ipv6(iface) {
        score = score + 20;
    }
    score
}

/// Two lower-case hexadecimal digits for each of the first `n` octets, with colons between.
pub open spec fn mac_text(hw_addr: Seq<u8>, n: nat) -> Seq<char>
    decreases n,
{
    if n == 0 {
        Seq::empty()
    } else {
        let octet = crate::ids::hex_digits(hw_addr[n - 1] as nat, 2);
        if n == 1 {
            octet
        } else {
            mac_text(hw_addr, (n - 1) as nat).push(':') + octet
        }
    }
}

/// The hexadecimal digit for a value below sixteen.
fn hex_digit(n: u8) -> (c: char)
    requires
        n < 16,
    ensures
        c == crate::ids::hex_char(n as nat),
{
    if n < 10 {
        (48 + n) as char
    } else {
        (87 + n) as char
    }
}

/// The six Ethernet octets of a hardware address in the usual notation.
pub fn format_mac(hw_addr: &[u8; 8]) -> (r: String)
    ensures
        r@ == mac_text(hw_addr@, 6),
{
    let mut out: String = String::new();
    for i in 0..6usize
        invariant
            out@ == mac_text(hw_addr@, i as nat),
    {
        let octet: u8 = hw_addr[i];
        if i > 0 {
            out.push(':');
        }
        out.push(hex_digit(octet / 16));
        out.push(hex_digit(octet % 16));
        proof {
            let digits = crate::ids::hex_digits(octet as nat, 2);
            reveal_with_fuel(crate::ids::hex_digits, 3);
            assert(digits =~= seq![
                crate::ids::hex_char((octet / 16) as nat),
                crate::ids::hex_char((octet % 16) as nat),
            ]);
            assert(out@ =~= mac_text(hw_addr@, (i + 1) as nat));
        }
    }
    out
}

/// The names of the interfaces with commas between.
pub open spec fn names_text(ifaces: Seq<Netif>) -> Seq<char>
    decreases ifaces.len(),
{
    if ifaces.len() == 0 {
        Seq::empty()
    } else if ifaces.len() == 1 {
        ifaces[0].name@
    } else {
        names_text(ifaces.drop_last()) + ", "@ + ifaces.last().name@
    }
}

/// The names of the interfaces, for a message.
pub open spec fn available_text(ifaces: Seq<Netif>) -> Seq<char> {
    if ifaces.len() == 0 {
        "(none)"@
    } else {
        names_text(ifaces)
    }
}

/// The names of the interfaces, for a message.
pub fn available_iface_names(ifaces: &[Netif]) -> (r: String)
    ensures
        r@ == available_text(ifaces@),
{
    if ifaces.len() == 0 {
        return "(none)".to_owned();
    }
    let mut out: String = ifaces[0].name.clone();
    for i in 1..ifaces.len()
        invariant
            1 <= i <= ifaces@.len(),
            out@ == names_text(ifaces@.take(i as int)),
    {
        out.append(", ");
        out.append(ifaces[i].name.as_str());
        proof {
            assert(ifaces@.take(i + 1).drop_last() =~= ifaces@.take(i as int));
        }
    }
    assert(ifaces@.take(ifaces@.len() as int) =~= ifaces@);
    out
}

/// Whether an interface may be selected: with `lan_only` only LAN faces, else any usable one.
pub open spec fn candidate(iface: Netif, lan_only: bool) -> bool {
    if lan_only {
        iface.usable_lan()
    } else {
        iface.usable()
    }
}

/// Whether `i` is the candidate with the best score, the first of those that share it.
pub open spec fn is_best(ifaces: Seq<Netif>, lan_only: bool, i: int) -> bool {
    &&& 0 <= i < ifaces.len()
    &&& candidate(ifaces[i], lan_only)
    &&& forall|j: int|
        0 <= j < ifaces.len() && candidate(#[trigger] ifaces[j], lan_only) ==> ifaces[j].score()
            <= ifaces[i].score() && (j < i ==> ifaces[j].score() < ifaces[i].score())
}

/// The best candidate, where there is one.
pub open spec fn best(ifaces: Seq<Netif>, lan_only: bool) -> Option<int> {
    if exists|i: int| 0 <= i < ifaces.len() && candidate(#[trigger] ifaces[i], lan_only) {
        Some(choose|i: int| is_best(ifaces, lan_only, i))
    } else {
        None
    }
}

/// Whether `i` is the first interface with the given name.
pub open spec fn is_named(ifaces: Seq<Netif>, name: Seq<char>, i: int) -> bool {
    &&& 0 <= i < ifaces.len()
    &&& ifaces[i].name@ == name
    &&& forall|j: int| 0 <= j < i ==> (#[trigger] ifaces[j]).name@ != name
}

/// The first interface with the given name, where there is one.
pub open spec fn named(ifaces: Seq<Netif>, name: Seq<char>) -> Option<int> {
    if exists|i: int| 0 <= i < ifaces.len() && (#[trigger] ifaces[i]).name@ == name {
        Some(choose|i: int| is_named(ifaces, name, i))
    } else {
        None
    }
}

/// The interface that the Matter stack is to see. A pinned interface is taken whether it is
/// up or not, but only with IPv6, and nothing stands in for it. Without a pin the best LAN
/// face is taken, and failing that the best usable face of any kind.
pub open spec fn picked(pin: Option<Seq<char>>, ifaces: Seq<Netif>) -> Option<int> {
    match pin {
        Some(name) => match named(ifaces, name) {
            Some(i) => if ifaces[i].has_unicast_ipv6() {
                Some(i)
            } else {
                None
            },
            None => None,
        },
        None => match best(ifaces, true) {
            Some(i) => Some(i),
            None => best(ifaces, false),
        },
    }
}

/// Two best candidates are the same interface.
proof fn lemma_best_unique(ifaces: Seq<Netif>, lan_only: bool, a: int, b: int)
    requires
        is_best(ifaces, lan_only, a),
        is_best(ifaces, lan_only, b),
    ensures
        a == b,
{
    assert(candidate(ifaces[a], lan_only));
    assert(candidate(ifaces[b], lan_only));
}

/// The best candidate among the interfaces.
fn find_best(ifaces: &[Netif], lan_only: bool) -> (r: Option<usize>)
    ensures
        match r {
            Some(i) => best(ifaces@, lan_only) == Some(i as int) && is_best(ifaces@, lan_only, i as int),
            None => best(ifaces@, lan_only) is None,
        },
{
    let mut found: Option<usize> = None;
    let mut top: i32 = 0;
    for i in 0..ifaces.len()
        invariant
            match found {
                Some(b) => {
                    &&& b < i
                    &&& top == ifaces@[b as int].score()
                    &&& is_best(ifaces@.take(i as int), lan_only, b as int)
                },
                None => forall|j: int|
                    0 <= j < i ==> !candidate(#[trigger] ifaces@[j], lan_only),
            },
    {
        let iface: &Netif = &ifaces[i];
        let ghost before = ifaces@.take(i as int);
        let ghost after = ifaces@.take(i + 1);
        assert(forall|j: int| 0 <= j < i ==> #[trigger] after[j] == before[j]);
        assert(after[i as int] == *iface);
        let skipped: bool = is_loopback_name(iface.name.as_str()) || (lan_only && is_virtual_name(
            iface.name.as_str(),
        ));
        if !skipped && iface.operational && has_matter_ipv6(iface) {
            let score: i32 = score_iface(iface);
            let better: bool = match found {
                Some(_) => top < score,
                None => true,
            };
            if better {
                proof {
                    assert forall|j: int| 0 <= j < after.len() && candidate(
                        #[trigger] after[j],
                        lan_only,
                    ) implies after[j].score() <= score && (j < i ==> after[j].score() < score) by {
                        if j < i {
                            assert(before[j] == after[j]);
                        }
                    }
                }
                found = Some(i);
                top = score;
            }
        }
    }
    assert(ifaces@.take(ifaces@.len() as int) =~= ifaces@);
    match found {
        Some(b) => {
            proof {
                lemma_best_unique(ifaces@, lan_only, b as int, best(ifaces@, lan_only)->0);
            }
            Some(b)
        },
        None => None,
    }
}

/// The first interface with the given name.
fn find_named(ifaces: &[Netif], name: &str) -> (r: Option<usize>)
    ensures
        match r {
            Some(i) => named(ifaces@, name@) == Some(i as int) && is_named(
                ifaces@,
                name@,
                i as int,
            ),
            None => named(ifaces@, name@) is None,
        },
{
    for i in 0..ifaces.len()
        invariant
            forall|j: int| 0 <= j < i ==> (#[trigger] ifaces@[j]).name@ != name@,
    {
        if str_eq(ifaces[i].name.as_str(), name) {
            proof {
                assert(is_named(ifaces@, name@, i as int));
                let c = choose|c: int| is_named(ifaces@, name@, c);
                assert(c == i) by {
                    if c < i {
                        assert(ifaces@[c].name@ != name@);
                    }
                    if i < c {
                        assert(ifaces@[i as int].name@ != name@);
                    }
                }
            }
            return Some(i);
        }
    }
    None
}

/// Leaves the one best LAN interface, or a pinned one, for the Matter stack to see.
#[derive(Debug)]
pub struct LanNetifs {
    /// Require the interface of exactly this name.
    pub pin: Option<String>,
}

impl LanNetifs {
    /// The pinned name.
    pub open spec fn pinned(self) -> Option<Seq<char>> {
        crate::catalog::model::opt_text(self.pin)
    }

    /// A selector. A pin that is empty or white space alone means automatic selection.
    pub fn new(pin: Option<String>) -> (r: Self)
        ensures
            r.pinned() == match pin {
                Some(p) => if crate::text::trimmed(p@).len() == 0 {
                    None
                } else {
                    Some(crate::text::trimmed(p@))
                },
                None => None,
            },
    {
        match pin {
            Some(p) => {
                let t: String = trim(p.as_str());
                if t.as_str().is_empty() {
                    LanNetifs { pin: None }
                } else {
                    LanNetifs { pin: Some(t) }
                }
            },
            None => LanNetifs { pin: None },
        }
    }

    /// The single interface that the Matter stack is to see.
    pub fn pick<'a>(&self, ifaces: &'a [Netif]) -> (r: Option<&'a Netif>)
        ensures
            match r {
                Some(n) => picked(self.pinned(), ifaces@) is Some && *n == ifaces@[picked(
                    self.pinned(),
                    ifaces@,
                )->0],
                None => picked(self.pinned(), ifaces@) is None,
            },
    {
        match &self.pin {
            Some(pin) => match find_named(ifaces, pin.as_str()) {
                Some(i) => {
                    if has_matter_ipv6(&ifaces[i]) {
                        Some(&ifaces[i])
                    } else {
                        None
                    }
                },
                None => None,
            },
            None => match find_best(ifaces, true) {
                Some(i) => Some(&ifaces[i]),
                None => match find_best(ifaces, false) {
                    Some(i) => Some(&ifaces[i]),
                    None => None,
                },
            },
        }
    }

    /// Checks the selection before the Matter stack claims to be ready: a pinned interface
    /// has to exist, have IPv6 and be up; without a pin, some usable LAN face has to exist.
    pub fn validate_for_start(&self, ifaces: &[Netif]) -> (r: Result<(), String>)
        ensures
            match r {
                Ok(_) => start_error(self.pinned(), ifaces@) is None,
                Err(m) => start_error(self.pinned(), ifaces@) == Some(m@),
            },
    {
        match &self.pin {
            Some(pin) => match find_named(ifaces, pin.as_str()) {
                None => {
                    let available: String = available_iface_names(ifaces);
                    let mut m: String = "mdns_interface pin `".to_owned();
                    m.append(pin.as_str());
                    m.append("` not found among host interfaces. Available: [");
                    m.append(available.as_str());
                    m.append("]. Clear the option for auto-select or set a valid name.");
                    Err(m)
                },
                Some(i) => {
                    let iface: &Netif = &ifaces[i];
                    if !has_matter_ipv6(iface) {
                        let mut m: String = "pinned interface `".to_owned();
                        m.append(pin.as_str());
                        m.append(
                            "` has no IPv6 address; Matter requires IPv6 on the LAN face (link-local fe80:: is enough). Enable IPv6 or pick another interface.",
                        );
                        Err(m)
                    } else if !iface.operational {
                        let mut m: String = "pinned interface `".to_owned();
                        m.append(pin.as_str());
                        m.append(
                            "` is down (not operational). Bring the link up or clear the LAN interface option for auto-select.",
                        );
                        Err(m)
                    } else {
                        Ok(())
                    }
                },
            },
            None => match find_best(ifaces, true) {
                Some(_) => Ok(()),
                None => {
                    let available: String = available_iface_names(ifaces);
                    let mut m: String =
                        "no operational IPv6-capable non-virtual LAN interface for Matter (link-local fe80:: is enough). Host interfaces: [".to_owned();
                    m.append(available.as_str());
                    m.append(
                        "]. Enable IPv6 on eth0/wlan0 or set mdns_interface to a face that has IPv6.",
                    );
                    Err(m)
                },
            },
        }
    }

    /// What to log at start: every interface with its score and whether it is selected, and
    /// how the selection came out.
    pub fn log_inventory(&self, ifaces: &[Netif]) -> (r: Inventory)
        ensures
            r.rows@.len() == ifaces@.len(),
            forall|i: int|
                0 <= i < ifaces@.len() ==> is_row(
                    #[trigger] r.rows@[i],
                    ifaces@[i],
                    picked_name(self.pinned(), ifaces@),
                ),
            match (self.pinned(), picked_name(self.pinned(), ifaces@)) {
                (Some(pin), Some(name)) => r.verdict matches Verdict::Pinned(n) && n@ == name
                    && name == pin,
                (Some(pin), None) => r.verdict matches Verdict::PinUnusable(n) && n@ == pin,
                (None, Some(name)) => r.verdict matches Verdict::AutoSelected(n) && n@ == name,
                (None, None) => r.verdict is NoneUsable,
            },
    {
        let selected: Option<String> = match self.pick(ifaces) {
            Some(n) => Some(n.name.clone()),
            None => None,
        };
        let ghost chosen = picked_name(self.pinned(), ifaces@);
        let mut rows: Vec<InventoryRow> = Vec::new();
        for i in 0..ifaces.len()
            invariant
                crate::catalog::model::opt_text(selected) == chosen,
                rows@.len() == i,
                forall|k: int| 0 <= k < i ==> is_row(#[trigger] rows@[k], ifaces@[k], chosen),
        {
            let iface: &Netif = &ifaces[i];
            rows.push(
                InventoryRow {
                    name: iface.name.clone(),
                    operational: iface.operational,
                    mac: format_mac(&iface.hw_addr),
                    has_ipv6: has_matter_ipv6(iface),
                    score: score_iface(iface),
                    virtual_name: is_virtual_name(iface.name.as_str()),
                    selected: match &selected {
                        Some(name) => str_eq(name.as_str(), iface.name.as_str()),
                        None => false,
                    },
                },
            );
        }
        let verdict: Verdict = match (&self.pin, selected) {
            (Some(_), Some(name)) => {
                proof {
                    law_pin_never_falls_back(self.pinned()->0, ifaces@);
                }
                Verdict::Pinned(name)
            },
            (Some(pin), None) => Verdict::PinUnusable(pin.clone()),
            (None, Some(name)) => Verdict::AutoSelected(name),
            (None, None) => Verdict::NoneUsable,
        };
        Inventory { rows, verdict }
    }
}

/// The name of the picked interface.
pub open spec fn picked_name(pin: Option<Seq<char>>, ifaces: Seq<Netif>) -> Option<Seq<char>> {
    match picked(pin, ifaces) {
        Some(i) => Some(ifaces[i].name@),
        None => None,
    }
}

/// One interface of the host as the selection sees it.
#[derive(Debug, PartialEq, Eq)]
pub struct InventoryRow {
    pub name: String,
    pub operational: bool,
    pub mac: String,
    pub has_ipv6: bool,
    pub score: i32,
    pub virtual_name: bool,
    pub selected: bool,
}

/// Whether `row` describes `iface`, where `chosen` is the name of the selected interface.
pub open spec fn is_row(row: InventoryRow, iface: Netif, chosen: Option<Seq<char>>) -> bool {
    &&& row.name@ == iface.name@
    &&& row.operational == iface.operational
    &&& row.mac@ == mac_text(iface.hw_addr@, 6)
    &&& row.has_ipv6 == iface.has_unicast_ipv6()
    &&& row.score == iface.score()
    &&& row.virtual_name == virtual_name(iface.name@)
    &&& row.selected == (chosen == Some(iface.name@))
}

/// How the selection came out.
#[derive(Debug, PartialEq, Eq)]
pub enum Verdict {
    /// The pinned interface is selected.
    Pinned(String),
    /// This interface was selected automatically.
    AutoSelected(String),
    /// The pinned interface is missing or has no IPv6.
    PinUnusable(String),
    /// No interface is usable.
    NoneUsable,
}

/// All interfaces of the host and the outcome of the selection.
#[derive(Debug, PartialEq, Eq)]
pub struct Inventory {
    pub rows: Vec<InventoryRow>,
    pub verdict: Verdict,
}

/// What there is to warn of in a selection.
#[derive(Debug, PartialEq, Eq)]
pub enum Diagnosis {
    /// Nothing.
    Clear,
    /// No interface has the pinned name; these are the names of the host.
    PinMissing { available: String },
    /// The pinned interface has no IPv6, so it is not selected.
    PinWithoutIpv6,
    /// The pinned interface is down; it is selected and waited for.
    PinDown,
    /// No LAN face qualifies. Named are the LAN faces that are up with IPv4 alone, which are
    /// not selected, and the container or VPN face that is selected instead, if any.
    NoLanFace { ipv4_only: Vec<String>, fallback: Option<String> },
}

/// What a [`Diagnosis`] says.
#[verifier::ext_equal]
pub enum DiagnosisView {
    Clear,
    PinMissing { available: Seq<char> },
    PinWithoutIpv6,
    PinDown,
    NoLanFace { ipv4_only: Seq<Seq<char>>, fallback: Option<Seq<char>> },
}

impl View for Diagnosis {
    type V = DiagnosisView;

    open spec fn view(&self) -> DiagnosisView {
        match self {
            Diagnosis::Clear => DiagnosisView::Clear,
            Diagnosis::PinMissing { available } => DiagnosisView::PinMissing {
                available: available@,
            },
            Diagnosis::PinWithoutIpv6 => DiagnosisView::PinWithoutIpv6,
            Diagnosis::PinDown => DiagnosisView::PinDown,
            Diagnosis::NoLanFace { ipv4_only, fallback } => DiagnosisView::NoLanFace {
                ipv4_only: ipv4_only@.map_values(|s: String| s@),
                fallback: crate::catalog::model::opt_text(*fallback),
            },
        }
    }
}

/// Whether an interface is a LAN face that is up and has IPv4 but no IPv6.
pub open spec fn ipv4_only_face(iface: Netif) -> bool {
    &&& !virtual_name(iface.name@)
    &&& iface.operational
    &&& !iface.has_unicast_ipv6()
    &&& iface.has_lan_ipv4()
}

/// The names of the LAN faces that are up with IPv4 alone, in the order of the host.
pub open spec fn ipv4_only_names(ifaces: Seq<Netif>) -> Seq<Seq<char>>
    decreases ifaces.len(),
{
    if ifaces.len() == 0 {
        Seq::empty()
    } else if ipv4_only_face(ifaces.last()) {
        ipv4_only_names(ifaces.drop_last()).push(ifaces.last().name@)
    } else {
        ipv4_only_names(ifaces.drop_last())
    }
}

/// What there is to warn of when an interface is picked.
pub open spec fn diagnosis(pin: Option<Seq<char>>, ifaces: Seq<Netif>) -> DiagnosisView {
    match pin {
        Some(name) => match named(ifaces, name) {
            None => DiagnosisView::PinMissing { available: available_text(ifaces) },
            Some(i) => if !ifaces[i].has_unicast_ipv6() {
                DiagnosisView::PinWithoutIpv6
            } else if !ifaces[i].operational {
                DiagnosisView::PinDown
            } else {
                DiagnosisView::Clear
            },
        },
        None => if best(ifaces, true) is Some {
            DiagnosisView::Clear
        } else {
            DiagnosisView::NoLanFace {
                ipv4_only: ipv4_only_names(ifaces),
                fallback: picked_name(pin, ifaces),
            }
        },
    }
}

/// The names of the LAN faces that are up with IPv4 alone.
fn find_ipv4_only(ifaces: &[Netif]) -> (r: Vec<String>)
    ensures
        r@.map_values(|s: String| s@) == ipv4_only_names(ifaces@),
{
    let mut out: Vec<String> = Vec::new();
    assert(out@.map_values(|s: String| s@) =~= ipv4_only_names(ifaces@.take(0)));
    for i in 0..ifaces.len()
        invariant
            out@.map_values(|s: String| s@) == ipv4_only_names(ifaces@.take(i as int)),
    {
        let iface: &Netif = &ifaces[i];
        let ghost was = out@;
        assert(ifaces@.take(i + 1).drop_last() =~= ifaces@.take(i as int));
        if !is_virtual_name(iface.name.as_str()) && iface.operational && !has_matter_ipv6(iface)
            && has_usable_ipv4(iface) {
            out.push(iface.name.clone());
            assert(out@.map_values(|s: String| s@) =~= was.map_values(|s: String| s@).push(
                iface.name@,
            ));
        }
    }
    assert(ifaces@.take(ifaces@.len() as int) =~= ifaces@);
    out
}

impl LanNetifs {
    /// What there is to warn of when an interface is picked: a selection that is not what was
    /// asked for is never silent.
    pub fn diagnose(&self, ifaces: &[Netif]) -> (r: Diagnosis)
        ensures
            r@ == diagnosis(self.pinned(), ifaces@),
    {
        match &self.pin {
            Some(pin) => match find_named(ifaces, pin.as_str()) {
                None => Diagnosis::PinMissing { available: available_iface_names(ifaces) },
                Some(i) => if !has_matter_ipv6(&ifaces[i]) {
                    Diagnosis::PinWithoutIpv6
                } else if !ifaces[i].operational {
                    Diagnosis::PinDown
                } else {
                    Diagnosis::Clear
                },
            },
            None => match find_best(ifaces, true) {
                Some(_) => Diagnosis::Clear,
                None => {
                    let fallback: Option<String> = match self.pick(ifaces) {
                        Some(n) => Some(n.name.clone()),
                        None => None,
                    };
                    Diagnosis::NoLanFace { ipv4_only: find_ipv4_only(ifaces), fallback }
                },
            },
        }
    }
}

/// Why the bridge may not start on these interfaces, if so.
pub open spec fn start_error(pin: Option<Seq<char>>, ifaces: Seq<Netif>) -> Option<Seq<char>> {
    match pin {
        Some(name) => match named(ifaces, name) {
            None => Some(
                "mdns_interface pin `"@ + name
                    + "` not found among host interfaces. Available: ["@ + available_text(ifaces)
                    + "]. Clear the option for auto-select or set a valid name."@,
            ),
            Some(i) => if !ifaces[i].has_unicast_ipv6() {
                Some(
                    "pinned interface `"@ + name
                        + "` has no IPv6 address; Matter requires IPv6 on the LAN face (link-local fe80:: is enough). Enable IPv6 or pick another interface."@,
                )
            } else if !ifaces[i].operational {
                Some(
                    "pinned interface `"@ + name
                        + "` is down (not operational). Bring the link up or clear the LAN interface option for auto-select."@,
                )
            } else {
                None
            },
        },
        None => if best(ifaces, true) is None {
            Some(
                "no operational IPv6-capable non-virtual LAN interface for Matter (link-local fe80:: is enough). Host interfaces: ["@
                    + available_text(ifaces)
                    + "]. Enable IPv6 on eth0/wlan0 or set mdns_interface to a face that has IPv6."@,
            )
        } else {
            None
        },
    }
}

/// The name of the interface that a selector with the given pin takes.
pub fn select_from_inventory(ifaces: &[Netif], pin: Option<String>) -> (r: Option<String>)
    ensures
        crate::catalog::model::opt_text(r) == picked_name(
            match pin {
                Some(p) => if crate::text::trimmed(p@).len() == 0 {
                    None
                } else {
                    Some(crate::text::trimmed(p@))
                },
                None => None,
            },
            ifaces@,
        ),
{
    match LanNetifs::new(pin).pick(ifaces) {
        Some(n) => Some(n.name.clone()),
        None => None,
    }
}

/// Where some interface qualifies, there is a best one.
pub proof fn law_best_exists(ifaces: Seq<Netif>, lan_only: bool)
    ensures
        match best(ifaces, lan_only) {
            Some(i) => is_best(ifaces, lan_only, i),
            None => forall|i: int|
                0 <= i < ifaces.len() ==> !candidate(#[trigger] ifaces[i], lan_only),
        },
{
    if best(ifaces, lan_only) is Some {
        let c = choose|i: int| 0 <= i < ifaces.len() && candidate(#[trigger] ifaces[i], lan_only);
        lemma_best_from(ifaces, lan_only, c);
    }
}

/// From any candidate one reaches the best one.
proof fn lemma_best_from(ifaces: Seq<Netif>, lan_only: bool, c: int)
    requires
        0 <= c < ifaces.len(),
        candidate(ifaces[c], lan_only),
    ensures
        exists|i: int| is_best(ifaces, lan_only, i),
    decreases 2000 - ifaces[c].score(), c,
{
    if !is_best(ifaces, lan_only, c) {
        let j = choose|j: int|
            0 <= j < ifaces.len() && candidate(#[trigger] ifaces[j], lan_only) && !(
            ifaces[j].score() <= ifaces[c].score() && (j < c ==> ifaces[j].score()
                < ifaces[c].score()));
        lemma_best_from(ifaces, lan_only, j);
    }
}

/// The first interface of a name has that name.
proof fn lemma_named(ifaces: Seq<Netif>, name: Seq<char>, i: int)
    requires
        0 <= i < ifaces.len(),
        ifaces[i].name@ == name,
    ensures
        exists|j: int| is_named(ifaces, name, j),
    decreases i,
{
    if !is_named(ifaces, name, i) {
        let j = choose|j: int| 0 <= j < i && (#[trigger] ifaces[j]).name@ == name;
        lemma_named(ifaces, name, j);
    }
}

/// A pin is exact: what is picked has the pinned name and IPv6, and where no interface has
/// that name nothing is picked in its stead.
pub proof fn law_pin_never_falls_back(pin: Seq<char>, ifaces: Seq<Netif>)
    ensures
        match picked(Some(pin), ifaces) {
            Some(i) => 0 <= i < ifaces.len() && ifaces[i].name@ == pin
                && ifaces[i].has_unicast_ipv6(),
            None => forall|i: int|
                0 <= i < ifaces.len() && (forall|j: int|
                    0 <= j < i ==> (#[trigger] ifaces[j]).name@ != pin) && (
                #[trigger] ifaces[i]).name@ == pin ==> !ifaces[i].has_unicast_ipv6(),
        },
{
    if named(ifaces, pin) is Some {
        let w = choose|i: int| 0 <= i < ifaces.len() && (#[trigger] ifaces[i]).name@ == pin;
        lemma_named(ifaces, pin, w);
        let n = named(ifaces, pin)->0;
        assert forall|i: int|
            0 <= i < ifaces.len() && (forall|j: int|
                0 <= j < i ==> (#[trigger] ifaces[j]).name@ != pin) && (#[trigger] ifaces[i]).name@
                == pin implies i == n by {
            if n < i {
                assert(ifaces[n].name@ != pin);
            }
        }
    }
}

/// What is picked without a pin is up, has IPv6 and is no loopback; it is a container or
/// VPN face only where no LAN face qualifies; and no face that qualifies scores better.
pub proof fn law_automatic_choice(ifaces: Seq<Netif>)
    ensures
        match picked(None, ifaces) {
            Some(i) => {
                &&& 0 <= i < ifaces.len()
                &&& ifaces[i].usable()
                &&& virtual_name(ifaces[i].name@) ==> forall|j: int|
                    0 <= j < ifaces.len() ==> !(#[trigger] ifaces[j]).usable_lan()
                &&& forall|j: int|
                    0 <= j < ifaces.len() && (#[trigger] ifaces[j]).usable_lan()
                        ==> ifaces[j].score() <= ifaces[i].score()
                &&& virtual_name(ifaces[i].name@) ==> forall|j: int|
                    0 <= j < ifaces.len() && (#[trigger] ifaces[j]).usable() ==> ifaces[j].score()
                        <= ifaces[i].score()
            },
            None => forall|j: int| 0 <= j < ifaces.len() ==> !(#[trigger] ifaces[j]).usable(),
        },
{
    law_best_exists(ifaces, true);
    law_best_exists(ifaces, false);
    assert(forall|j: int|
        0 <= j < ifaces.len() ==> candidate(ifaces[j], true) == (#[trigger] ifaces[j]).usable_lan());
    assert(forall|j: int|
        0 <= j < ifaces.len() ==> candidate(ifaces[j], false) == (#[trigger] ifaces[j]).usable());
}

/// Of two interfaces that are both up or both down, one with IPv6 outscores one without.
pub proof fn law_ipv6_outscores(with: Netif, without: Netif)
    requires
        with.operational == without.operational,
        with.has_unicast_ipv6(),
        !without.has_unicast_ipv6(),
    ensures
        with.score() > without.score(),
{
    if without.has_routed_ipv6() {
        let i = choose|i: int|
            0 <= i < without.ipv6addrs@.len() && routed_ipv6((#[trigger] without.ipv6addrs@[i])@);
        assert(unicast_ipv6(without.ipv6addrs@[i]@));
    }
}

/// Where the bridge may start, an interface is picked that is up and has IPv6, and without
/// a pin it is a LAN face.
pub proof fn law_start_means_selection(pin: Option<Seq<char>>, ifaces: Seq<Netif>)
    requires
        start_error(pin, ifaces) is None,
    ensures
        picked(pin, ifaces) is Some,
        ({
            let i = picked(pin, ifaces)->0;
            &&& 0 <= i < ifaces.len()
            &&& ifaces[i].operational
            &&& ifaces[i].has_unicast_ipv6()
            &&& match pin {
                Some(name) => ifaces[i].name@ == name,
                None => ifaces[i].usable_lan(),
            }
        }),
{
    match pin {
        Some(name) => {
            law_pin_never_falls_back(name, ifaces);
        },
        None => {
            law_best_exists(ifaces, true);
        },
    }
}

/// A selection without a warning is what was asked for: an interface is picked that is up
/// and has IPv6, the pinned one or a LAN face. A container or VPN face that is picked without
/// a pin is always named in a warning.
pub proof fn law_unasked_selection_is_told(pin: Option<Seq<char>>, ifaces: Seq<Netif>)
    ensures
        diagnosis(pin, ifaces) is Clear <==> start_error(pin, ifaces) is None,
        pin is None && picked(pin, ifaces) is Some && virtual_name(
            ifaces[picked(pin, ifaces)->0].name@,
        ) ==> (diagnosis(pin, ifaces) matches DiagnosisView::NoLanFace { ipv4_only, fallback }
            && fallback == Some(ifaces[picked(pin, ifaces)->0].name@)),
{
    law_best_exists(ifaces, true);
}

} // verus!
