//! Netlink's 4-byte alignment rules.
use vstd::prelude::*;

verus! {

/// Netlink objects are aligned to this many bytes.
pub const NLA_ALIGNTO: usize = 4;

/// Size of the netlink message header (`nlmsghdr`).
pub const NLMSGHDR_SIZE: usize = 16;

/// Size of the nfnetlink family header (`nfgenmsg`).
pub const NFGENMSG_SIZE: usize = 4;

/// Size of an attribute header (`nlattr`).
pub const NLATTR_SIZE: usize = 4;

/// The smallest multiple of four that is at least `n`.
pub open spec fn align4(n: nat) -> nat {
    if n % 4 == 0 {
        n
    } else {
        n + (4 - n % 4) as nat
    }
}

pub proof fn lemma_align4(n: nat)
    ensures
        align4(n) % 4 == 0,
        n <= align4(n) < n + 4,
        n % 4 == 0 ==> align4(n) == n,
{
}

/// Padded size of a run-time byte length.
pub fn pad_netlink_object_with_variable_size(size: usize) -> (r: usize)
    requires
        size <= usize::MAX - 3,
    ensures
        r as nat == align4(size as nat),
{
    let rem = size % NLA_ALIGNTO;
    if rem == 0 {
        size
    } else {
        size + (NLA_ALIGNTO - rem)
    }
}

/// Padded size of a fixed record whose natural size is `natural_size`
/// (one of the header sizes above).
pub fn pad_netlink_object(natural_size: usize) -> (r: usize)
    requires
        natural_size <= usize::MAX - 3,
    ensures
        r as nat == align4(natural_size as nat),
{
    pad_netlink_object_with_variable_size(natural_size)
}

} // verus!
