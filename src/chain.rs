//! Chains: the rule lists of a table.
use vstd::prelude::*;

verus! {

/// Base chain type.
#[derive(Debug, Clone, Copy, PartialEq, Eq, Hash)]
pub enum ChainType {
    /// Filters packets.
    Filter,
    /// Reroutes packets whose IP headers or marks were modified.
    Route,
    /// Performs address translation.
    Nat,
}

pub open spec fn chain_type_name(t: ChainType) -> Seq<u8> {
    match t {
        ChainType::Filter => seq![102u8, 105, 108, 116, 101, 114, 0],
        ChainType::Route => seq![114u8, 111, 117, 116, 101, 0],
        ChainType::Nat => seq![110u8, 97, 116, 0],
    }
}

impl ChainType {
    /// The type's name as the kernel expects it, NUL-terminated.
    pub fn as_c_str(&self) -> (r: Vec<u8>)
        ensures
            r@ == chain_type_name(*self),
    {
        let r = match self {
            ChainType::Filter => vec![102u8, 105, 108, 116, 101, 114, 0],
            ChainType::Route => vec![114u8, 111, 117, 116, 101, 0],
            ChainType::Nat => vec![110u8, 97, 116, 0],
        };
        assert(r@ =~= chain_type_name(*self));
        r
    }
}

} // verus!
