//! Netlink / nftables message framing, batching and stream reassembly.
use vstd::prelude::*;

pub mod align;
pub mod attr;
pub mod attr_proof;
pub mod batch;
pub mod bytes;
pub mod chain;
pub mod error;
pub mod expr;
pub mod nlmsg;
pub mod query;
pub mod sys;
pub mod table;

verus! {

/// Protocol family of an nftables object (`NFPROTO_*`).
#[derive(Debug, Clone, Copy, PartialEq, Eq, Hash)]
pub enum ProtocolFamily {
    Unspec,
    Inet,
    Ipv4,
    Arp,
    NetDev,
    Bridge,
    Ipv6,
    DecNet,
}

impl ProtocolFamily {
    pub open spec fn spec_code(self) -> u8 {
        match self {
            ProtocolFamily::Unspec => 0,
            ProtocolFamily::Inet => 1,
            ProtocolFamily::Ipv4 => 2,
            ProtocolFamily::Arp => 3,
            ProtocolFamily::NetDev => 5,
            ProtocolFamily::Bridge => 7,
            ProtocolFamily::Ipv6 => 10,
            ProtocolFamily::DecNet => 12,
        }
    }

    /// The family numbered `c`, if any.
    pub open spec fn spec_from_code(c: u8) -> Option<ProtocolFamily> {
        if c == 0 {
            Some(ProtocolFamily::Unspec)
        } else if c == 1 {
            Some(ProtocolFamily::Inet)
        } else if c == 2 {
            Some(ProtocolFamily::Ipv4)
        } else if c == 3 {
            Some(ProtocolFamily::Arp)
        } else if c == 5 {
            Some(ProtocolFamily::NetDev)
        } else if c == 7 {
            Some(ProtocolFamily::Bridge)
        } else if c == 10 {
            Some(ProtocolFamily::Ipv6)
        } else if c == 12 {
            Some(ProtocolFamily::DecNet)
        } else {
            None
        }
    }

    pub fn from_code(c: u8) -> (r: Option<ProtocolFamily>)
        ensures
            r == ProtocolFamily::spec_from_code(c),
            r matches Some(f) ==> f.spec_code() == c,
    {
        match c {
            0 => Some(ProtocolFamily::Unspec),
            1 => Some(ProtocolFamily::Inet),
            2 => Some(ProtocolFamily::Ipv4),
            3 => Some(ProtocolFamily::Arp),
            5 => Some(ProtocolFamily::NetDev),
            7 => Some(ProtocolFamily::Bridge),
            10 => Some(ProtocolFamily::Ipv6),
            12 => Some(ProtocolFamily::DecNet),
            _ => None,
        }
    }

    /// The family's number on the wire.
    pub fn code(&self) -> (r: u8)
        ensures
            r == self.spec_code(),
    {
        match self {
            ProtocolFamily::Unspec => 0,
            ProtocolFamily::Inet => 1,
            ProtocolFamily::Ipv4 => 2,
            ProtocolFamily::Arp => 3,
            ProtocolFamily::NetDev => 5,
            ProtocolFamily::Bridge => 7,
            ProtocolFamily::Ipv6 => 10,
            ProtocolFamily::DecNet => 12,
        }
    }
}

/// Whether a message added to a batch creates or deletes its object.
#[derive(Debug, Clone, Copy, PartialEq, Eq, Hash)]
pub enum MsgType {
    Add,
    Del,
}

} // verus!
