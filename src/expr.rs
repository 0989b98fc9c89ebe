//! Rule expressions.
use vstd::prelude::*;

verus! {

/// Masks the value in a register, then xors it.
#[derive(Debug)]
pub struct Bitwise {
    pub mask: Vec<u8>,
    pub xor: Vec<u8>,
}

impl Bitwise {
    /// First masks the value it is applied to with `mask`, then xors it with
    /// `xor`.
    pub fn new(mask: Vec<u8>, xor: Vec<u8>) -> (r: Bitwise)
        ensures
            r.mask@ == mask@,
            r.xor@ == xor@,
    {
        Bitwise { mask, xor }
    }
}

/// Sets the source address to that of the output interface.
#[derive(Debug, Clone, Copy, PartialEq, Eq)]
pub struct Masquerade;

} // verus!
