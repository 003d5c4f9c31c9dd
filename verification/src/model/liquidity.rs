use vstd::prelude::*;

use crate::model::common::Tick;

verus! {

/// A resting order at one tick; the amount is a hex numeral as it came
/// off the wire.
pub struct LimitOrder {
    pub tick: Tick,
    pub amount: String,
}

pub struct LimitOrders {
    pub asks: Vec<LimitOrder>,
    pub bids: Vec<LimitOrder>,
}

/// A range-order boundary point; the liquidity is a hex numeral as it came
/// off the wire.
pub struct RangeOrder {
    pub tick: Tick,
    pub liquidity: String,
}

/// The payload of a liquidity response.
pub struct Result {
    pub limit_orders: LimitOrders,
    pub range_orders: Vec<RangeOrder>,
}

/// A point-in-time liquidity snapshot for one pair, as the unary endpoint
/// answers it.
pub struct Liquidity {
    pub id: String,
    pub jsonrpc: String,
    pub result: Result,
}

} // verus!
