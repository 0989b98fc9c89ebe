//! Errors of decoding and of queries.
use vstd::prelude::*;

verus! {

/// A message or attribute that could not be decoded.
#[derive(Debug, Clone, Copy, PartialEq, Eq, Structural)]
pub enum DecodeError {
    /// The buffer ends before the object it should hold.
    BufTooSmall,
    /// A netlink header declares a length shorter than the header itself.
    NlMsgTooSmall,
    /// A message type outside of the nftables subsystem and of netlink's own.
    UnsupportedType(u16),
    /// An attribute header declares a length shorter than itself, or one that
    /// runs past the end of its buffer.
    InvalidAttributeLength,
    /// An attribute whose value has the wrong size for its known kind.
    InvalidValueLength(u16),
    /// A family header naming no known protocol family.
    UnknownProtocolFamily(u8),
}

/// Why a query failed.
#[derive(Debug, Clone, Copy, PartialEq, Eq, Structural)]
pub enum QueryError {
    /// The kernel answered with this (nonzero) error code.
    NetlinkError(i32),
    /// No maximum sequence number was given and a message lacked the
    /// multi-part flag: the end of the reply cannot be recognised.
    UndecidableMessageTermination,
    /// A reply could not be decoded.
    Decode(DecodeError),
}

} // verus!
