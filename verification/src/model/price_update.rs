use vstd::prelude::*;

use crate::model::asset_pair::AssetPair;
use crate::model::common::Tick;

verus! {

/// The latest price for one pair, as the broadcast state carries it.
pub struct PriceUpdate {
    pub asset_pair: AssetPair,
    pub price: String,
    pub sqrt_price: String,
    pub tick: Tick,
}

impl PriceUpdate {
    /// The update as a mathematical value: pair key, price text,
    /// square-root price text and tick.
    pub open spec fn model(&self) -> ((Seq<char>, Seq<char>), Seq<char>, Seq<char>, int) {
        (self.asset_pair.key(), self.price@, self.sqrt_price@, self.tick as int)
    }
}

impl Clone for PriceUpdate {
    fn clone(&self) -> (r: Self)
        ensures
            r.model() == self.model(),
    {
        PriceUpdate {
            asset_pair: self.asset_pair.clone(),
            price: self.price.clone(),
            sqrt_price: self.sqrt_price.clone(),
            tick: self.tick,
        }
    }
}

} // verus!
