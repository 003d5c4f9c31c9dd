use vstd::prelude::*;

verus! {

/// A 256-bit unsigned integer, stored as four 64-bit limbs, least
/// significant first. It carries parsed order amounts, liquidity values
/// and the square-root price through the order book.
#[derive(Clone, Copy, PartialEq, Eq, Structural, Debug)]
pub struct Uint256 {
    pub w0: u64,
    pub w1: u64,
    pub w2: u64,
    pub w3: u64,
}

/// 2^64 as a mathematical integer.
pub open spec fn p64() -> int {
    0x10000000000000000int
}

/// 2^128 as a mathematical integer.
pub open spec fn p128() -> int {
    0x100000000000000000000000000000000int
}

/// 2^192 as a mathematical integer.
pub open spec fn p192() -> int {
    0x1000000000000000000000000000000000000000000000000int
}

/// 2^256 as a mathematical integer.
pub open spec fn p256() -> int {
    0x10000000000000000000000000000000000000000000000000000000000000000int
}

impl Uint256 {
    /// The mathematical value of the four limbs.
    pub open spec fn val(&self) -> int {
        self.w0 + self.w1 * p64() + self.w2 * p128() + self.w3 * p192()
    }

    pub fn from_u64(x: u64) -> (r: Uint256)
        ensures
            r.val() == x,
    {
        Uint256 { w0: x, w1: 0, w2: 0, w3: 0 }
    }

    pub fn zero() -> (r: Uint256)
        ensures
            r.val() == 0,
    {
        Uint256 { w0: 0, w1: 0, w2: 0, w3: 0 }
    }
}

} // verus!
