use vstd::prelude::*;

use crate::model::asset_pair::AssetPair;
use crate::model::liquidity::Liquidity;
use crate::model::order_book::{
    amounts_parse, brackets_match, liquidity_values_parse, side_matches, OrderBook, Side,
};
use crate::model::price_update::PriceUpdate;
use crate::util::{hex_parses, hex_string_to_u256, hex_value, HexParseError};

verus! {

/// What woke the builder: the periodic timer, or a change on the pair's
/// price broadcast.
pub enum Wake {
    Timer,
    PriceChange(PriceUpdate),
}

/// The work a wake directs, in order.
#[derive(Clone, Copy, PartialEq, Eq, Structural, Debug)]
pub enum BuilderAction {
    /// Fetch a fresh liquidity snapshot; never cached, never retried.
    FetchLiquidity,
    /// Assemble and publish one order book to the output channel.
    PublishBook,
}

/// What one wake decided: the price adopted as latest, whether the timer
/// window restarts, and the actions to perform.
pub struct WakeDirective {
    pub latest: PriceUpdate,
    pub reset_timer: bool,
    pub actions: Vec<BuilderAction>,
}

/// Per-pair builder state: the pair it serves and the price last adopted.
pub struct OrderBookBuilder {
    pub asset_pair: AssetPair,
    pub latest: PriceUpdate,
}

impl OrderBookBuilder {
    /// A builder starts only once a price is available for its pair.
    pub fn new(asset_pair: AssetPair, initial_price: PriceUpdate) -> (r: OrderBookBuilder)
        ensures
            r.asset_pair.key() == asset_pair.key(),
            r.latest.model() == initial_price.model(),
    {
        OrderBookBuilder { asset_pair, latest: initial_price }
    }

    /// Decide one wake, whatever woke the builder first. Every wake directs
    /// exactly one liquidity fetch followed by exactly one publish. A
    /// price-change wake adopts the new price and restarts the timer window,
    /// so no timer-driven wake follows within the same interval; a timer
    /// wake keeps the previously adopted price and leaves the timer running.
    pub fn on_wake(&mut self, wake: Wake) -> (d: WakeDirective)
        ensures
            d.actions@.len() == 2,
            d.actions@[0] == BuilderAction::FetchLiquidity,
            d.actions@[1] == BuilderAction::PublishBook,
            wake is Timer ==> d.latest.model() == old(self).latest.model() && !d.reset_timer,
            (wake matches Wake::PriceChange(u) ==> d.latest.model() == u.model() && d.reset_timer),
            final(self).latest.model() == d.latest.model(),
            final(self).asset_pair.key() == old(self).asset_pair.key(),
    {
        let mut actions: Vec<BuilderAction> = Vec::new();
        actions.push(BuilderAction::FetchLiquidity);
        actions.push(BuilderAction::PublishBook);
        match wake {
            Wake::Timer => WakeDirective { latest: self.latest.clone(), reset_timer: false, actions },
            Wake::PriceChange(update) => {
                self.latest = update.clone();
                WakeDirective { latest: update, reset_timer: true, actions }
            },
        }
    }

    /// Assemble the book for the adopted price from a fetched snapshot:
    /// the pure part of one builder cycle. Fails exactly when the adopted
    /// square-root price or an amount that is read is not a hex numeral
    /// below 2^256.
    pub fn build(&self, liquidity: Liquidity) -> (r: Result<OrderBook, HexParseError>)
        ensures
            r is Ok <==> hex_parses(self.latest.sqrt_price@) && amounts_parse(
                liquidity.result.limit_orders.bids@,
            ) && amounts_parse(liquidity.result.limit_orders.asks@) && liquidity_values_parse(
                liquidity.result.range_orders@,
            ),
            r is Ok ==> {
                let ob = r->Ok_0;
                &&& ob.asset_pair.key() == self.asset_pair.key()
                &&& ob.sqrt_price_x96.val() == hex_value(self.latest.sqrt_price@)
                &&& ob.tick == self.latest.tick
                &&& side_matches(ob.limit_bids@, liquidity.result.limit_orders.bids@, Side::Buy)
                &&& side_matches(ob.limit_asks@, liquidity.result.limit_orders.asks@, Side::Sell)
                &&& brackets_match(ob.range_orders@, liquidity.result.range_orders@)
            },
    {
        let sqrt_price_x96 = match hex_string_to_u256(self.latest.sqrt_price.as_str()) {
            Ok(v) => v,
            Err(e) => {
                return Err(e);
            },
        };
        OrderBook::new(&self.asset_pair, liquidity, sqrt_price_x96, self.latest.tick)
    }
}

} // verus!
