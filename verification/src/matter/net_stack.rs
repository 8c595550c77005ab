//! Socket options of the Matter stack.
//!
//! Hosts of Home Assistant already have something on the mDNS port, so UDP sockets are
//! bound with address and port reuse.
use crate::config::IpOctets;
use vstd::prelude::*;

verus! {

/// Options to set on a UDP socket before it is bound.
#[derive(Debug, Clone, Copy, PartialEq, Eq, Structural)]
pub struct UdpOptions {
    /// Whether the socket is an IPv6 one.
    pub ipv6: bool,
    pub reuse_address: bool,
    pub reuse_port: bool,
    /// Whether an IPv6 socket takes IPv6 alone.
    pub only_v6: Option<bool>,
    pub nonblocking: bool,
    pub broadcast: bool,
}

/// Binds UDP sockets that share their port.
#[derive(Debug, Clone, Copy, PartialEq, Eq, Structural)]
pub struct ReuseUdpBind;

impl ReuseUdpBind {
    /// The options for a socket at a local address. An IPv6 socket serves IPv4 too, since
    /// mDNS joins the groups of both from one socket.
    pub fn options(&self, local: &IpOctets) -> (r: UdpOptions)
        ensures
            r == (UdpOptions {
                ipv6: local is V6,
                reuse_address: true,
                reuse_port: true,
                only_v6: if local is V6 {
                    Some(false)
                } else {
                    None
                },
                nonblocking: true,
                broadcast: true,
            }),
    {
        let ipv6: bool = match local {
            IpOctets::V4(_) => false,
            IpOctets::V6(_) => true,
        };
        UdpOptions {
            ipv6,
            reuse_address: true,
            reuse_port: true,
            only_v6: if ipv6 {
                Some(false)
            } else {
                None
            },
            nonblocking: true,
            broadcast: true,
        }
    }
}

} // verus!
