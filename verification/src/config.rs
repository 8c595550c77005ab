//! Process configuration.
use vstd::prelude::*;
use vstd::string::*;

verus! {

/// Matter stack implementation.
#[derive(Debug, Clone, Copy, PartialEq, Eq, Structural)]
pub enum BackendKind {
    /// Offline: catalog and command queue, real pairing codes, no network.
    Dev,
    /// Commissionable stack.
    RsMatter,
}

impl BackendKind {
    /// The value under which the status reports the backend.
    pub open spec fn wire_text(self) -> Seq<char> {
        match self {
            BackendKind::Dev => "dev"@,
            BackendKind::RsMatter => "rs_matter"@,
        }
    }

    /// The value under which the status reports the backend.
    pub fn as_wire_str(self) -> (r: &'static str)
        ensures
            r@ == self.wire_text(),
    {
        match self {
            BackendKind::Dev => "dev",
            BackendKind::RsMatter => "rs_matter",
        }
    }
}

/// An IP address as octets.
#[derive(Debug, Clone, Copy, PartialEq, Eq)]
pub enum IpOctets {
    V4([u8; 4]),
    V6([u8; 16]),
}

impl IpOctets {
    /// Whether the address is a loopback: `127.0.0.0/8` or `::1`.
    pub open spec fn loopback(self) -> bool {
        match self {
            IpOctets::V4(a) => a@[0] == 127,
            IpOctets::V6(a) => (forall|i: int| 0 <= i < 15 ==> #[trigger] a@[i] == 0) && a@[15] == 1,
        }
    }

    /// Whether the address is a loopback.
    pub fn is_loopback(&self) -> (r: bool)
        ensures
            r == self.loopback(),
    {
        match self {
            IpOctets::V4(a) => a[0] == 127,
            IpOctets::V6(a) => {
                for i in 0..15usize
                    invariant
                        *self == IpOctets::V6(*a),
                        forall|k: int| 0 <= k < i ==> #[trigger] a@[k] == 0,
                {
                    if a[i] != 0 {
                        assert(a@[i as int] != 0);
                        return false;
                    }
                }
                a[15] == 1
            },
        }
    }
}

/// Address to listen on.
#[derive(Debug)]
pub struct ListenAddress {
    pub ip: IpOctets,
    pub port: u16,
    /// The address as text, for messages.
    pub text: String,
}

/// Process configuration.
#[derive(Debug)]
pub struct Config {
    /// Address of the control API.
    pub listen: ListenAddress,
    /// Directory for fabric material, exports and runtime state.
    pub data_dir: String,
    /// Bridge name until Home Assistant sets one.
    pub bridge_name: String,
    /// Matter stack implementation.
    pub matter_backend: BackendKind,
    /// Whether the control API may listen on an address that is no loopback.
    pub allow_non_loopback: bool,
}

impl Config {
    /// Refuses to listen on an address that is no loopback, unless that is allowed.
    pub fn ensure_loopback(&self) -> (r: Result<(), String>)
        ensures
            match r {
                Ok(_) => self.allow_non_loopback || self.listen.ip.loopback(),
                Err(m) => !self.allow_non_loopback && !self.listen.ip.loopback() && m@
                    == "--listen must be a loopback address (or pass --allow-non-loopback), got "@
                    + self.listen.text@,
            },
    {
        if self.allow_non_loopback || self.listen.ip.is_loopback() {
            return Ok(());
        }
        Err(
            "--listen must be a loopback address (or pass --allow-non-loopback), got ".to_owned().concat(
                self.listen.text.as_str(),
            ),
        )
    }
}

/// The loopback addresses are those from 127.0.0.0 to 127.255.255.255, and `::1`.
pub proof fn law_loopback(a: [u8; 4], b: [u8; 16])
    ensures
        IpOctets::V4(a).loopback() <==> 0x7f00_0000 <= a@[0] * 0x100_0000 + a@[1] * 0x1_0000 + a@[2]
            * 0x100 + a@[3] <= 0x7fff_ffff,
        IpOctets::V6(b).loopback() <==> b@ == Seq::new(
            16,
            |i: int|
                if i == 15 {
                    1u8
                } else {
                    0u8
                },
        ),
{
    let one = Seq::new(
        16,
        |i: int|
            if i == 15 {
                1u8
            } else {
                0u8
            },
    );
    if IpOctets::V6(b).loopback() {
        assert(b@ =~= one);
    }
    if b@ == one {
        assert(forall|i: int| 0 <= i < 15 ==> #[trigger] b@[i] == one[i]);
        assert(b@[15] == one[15]);
    }
}

/// The two backends are reported under different names.
pub proof fn law_backend_names()
    ensures
        BackendKind::Dev.wire_text() == "dev"@,
        BackendKind::RsMatter.wire_text() == "rs_matter"@,
{
}

} // verus!
