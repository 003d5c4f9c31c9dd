use vstd::prelude::*;

use crate::model::common::Tick;

verus! {

/// The price fields of a push update.
pub struct Result {
    pub price: String,
    pub sqrt_price: String,
    pub tick: Tick,
}

pub struct Params {
    pub subscription: String,
    pub result: Result,
}

/// A pushed pool-price frame: a subscription id naming the pair it belongs
/// to, and the new price.
pub struct PoolPrice {
    pub jsonrpc: String,
    pub method: String,
    pub params: Params,
}

} // verus!
