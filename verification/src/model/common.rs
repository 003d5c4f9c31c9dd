use vstd::prelude::*;

use crate::model::uint256::Uint256;

verus! {

/// Signed integer exponent on the fixed geometric price grid.
pub type Tick = i32;

/// An order amount: a 256-bit unsigned integer.
pub type Amount = Uint256;

/// 256-bit unsigned fixed-point encoding of the square root of price.
pub type SqrtPriceQ64F96 = Uint256;

} // verus!
