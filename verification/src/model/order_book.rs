use vstd::prelude::*;

use crate::model::asset_pair::AssetPair;
use crate::model::common::{Amount, SqrtPriceQ64F96, Tick};
use crate::model::liquidity::Liquidity;
use crate::util::{hex_parses, hex_string_to_u256, hex_value, HexParseError};

verus! {

/// Which side of the book a limit order rests on.
#[derive(Clone, Copy, PartialEq, Eq, Structural, Debug)]
pub enum Side {
    Buy,
    Sell,
}

/// A limit order of the assembled book: side-tagged, with its parsed amount.
pub struct LimitOrder {
    pub side: Side,
    pub tick: Tick,
    pub amount: Amount,
}

/// Liquidity supplied across the tick interval [start_tick, end_tick).
pub struct RangeOrder {
    pub start_tick: Tick,
    pub end_tick: Tick,
    pub liquidity: Amount,
}

/// A derived, read-only view of one pair's market.
pub struct OrderBook {
    pub asset_pair: AssetPair,
    pub sqrt_price_x96: SqrtPriceQ64F96,
    pub tick: Tick,
    pub limit_bids: Vec<LimitOrder>,
    pub limit_asks: Vec<LimitOrder>,
    pub range_orders: Vec<RangeOrder>,
}

/// Every amount among the raw entries is a parseable hex numeral.
pub open spec fn amounts_parse(entries: Seq<crate::model::liquidity::LimitOrder>) -> bool {
    forall|i: int| 0 <= i < entries.len() ==> hex_parses(#[trigger] entries[i].amount@)
}

/// Every boundary point except the last carries a parseable liquidity
/// numeral; the final point's value is never read.
pub open spec fn liquidity_values_parse(pts: Seq<crate::model::liquidity::RangeOrder>) -> bool {
    forall|i: int| 0 <= i < pts.len() - 1 ==> hex_parses(#[trigger] pts[i].liquidity@)
}

/// The assembled side mirrors the raw entries one to one: same order, same
/// tick, the parsed amount, and the given side tag.
pub open spec fn side_matches(
    made: Seq<LimitOrder>,
    raw: Seq<crate::model::liquidity::LimitOrder>,
    side: Side,
) -> bool {
    &&& made.len() == raw.len()
    &&& forall|i: int|
        0 <= i < made.len() ==> (#[trigger] made[i]).side == side && made[i].tick == raw[i].tick
            && made[i].amount.val() == hex_value(raw[i].amount@)
}

/// Brackets consume boundary points pairwise-adjacent: bracket i spans
/// [point i's tick, point i+1's tick) and carries point i's liquidity.
/// The final point yields no bracket.
pub open spec fn brackets_match(
    made: Seq<RangeOrder>,
    pts: Seq<crate::model::liquidity::RangeOrder>,
) -> bool {
    &&& made.len() == (if pts.len() == 0 {
        0int
    } else {
        pts.len() - 1
    })
    &&& forall|i: int|
        0 <= i < made.len() ==> (#[trigger] made[i]).start_tick == pts[i].tick && made[i].end_tick
            == pts[i + 1].tick && made[i].liquidity.val() == hex_value(pts[i].liquidity@)
}

fn build_side(
    raw: &Vec<crate::model::liquidity::LimitOrder>,
    side: Side,
) -> (r: Result<Vec<LimitOrder>, HexParseError>)
    ensures
        r is Ok <==> amounts_parse(raw@),
        r is Ok ==> side_matches(r->Ok_0@, raw@, side),
{
    let mut made: Vec<LimitOrder> = Vec::new();
    let mut i: usize = 0;
    while i < raw.len()
        invariant
            i <= raw@.len(),
            made@.len() == i,
            forall|j: int| 0 <= j < i ==> hex_parses(#[trigger] raw@[j].amount@),
            forall|j: int|
                0 <= j < i ==> (#[trigger] made@[j]).side == side && made@[j].tick == raw@[j].tick
                    && made@[j].amount.val() == hex_value(raw@[j].amount@),
        decreases raw@.len() - i,
    {
        let entry = &raw[i];
        let amount = match hex_string_to_u256(entry.amount.as_str()) {
            Ok(a) => a,
            Err(e) => {
                return Err(e);
            },
        };
        made.push(LimitOrder { side, tick: entry.tick, amount });
        i = i + 1;
    }
    Ok(made)
}

impl OrderBook {
    /// Assemble the book for one pair from a liquidity snapshot and the
    /// latest price: bids and asks map one to one into side-tagged orders,
    /// and boundary points pairwise-adjacent into liquidity brackets.
    /// Fails exactly when some amount that is read is not a hex numeral
    /// below 2^256.
    pub fn new(
        asset_pair: &AssetPair,
        liquidity: Liquidity,
        sqrt_price_x96: SqrtPriceQ64F96,
        tick: Tick,
    ) -> (r: Result<OrderBook, HexParseError>)
        ensures
            r is Ok <==> amounts_parse(liquidity.result.limit_orders.bids@) && amounts_parse(
                liquidity.result.limit_orders.asks@,
            ) && liquidity_values_parse(liquidity.result.range_orders@),
            r is Ok ==> {
                let ob = r->Ok_0;
                &&& ob.asset_pair.key() == asset_pair.key()
                &&& ob.sqrt_price_x96 == sqrt_price_x96
                &&& ob.tick == tick
                &&& side_matches(ob.limit_bids@, liquidity.result.limit_orders.bids@, Side::Buy)
                &&& side_matches(ob.limit_asks@, liquidity.result.limit_orders.asks@, Side::Sell)
                &&& brackets_match(ob.range_orders@, liquidity.result.range_orders@)
            },
    {
        let limit_bids = match build_side(&liquidity.result.limit_orders.bids, Side::Buy) {
            Ok(v) => v,
            Err(e) => {
                return Err(e);
            },
        };
        let limit_asks = match build_side(&liquidity.result.limit_orders.asks, Side::Sell) {
            Ok(v) => v,
            Err(e) => {
                return Err(e);
            },
        };

        let pts = &liquidity.result.range_orders;
        let stop: usize = if pts.len() == 0 {
            0
        } else {
            pts.len() - 1
        };
        let mut range_orders: Vec<RangeOrder> = Vec::new();
        let mut i: usize = 0;
        while i < stop
            invariant
                i <= stop,
                stop == (if pts@.len() == 0 {
                    0int
                } else {
                    pts@.len() - 1
                }),
                range_orders@.len() == i,
                pts == &liquidity.result.range_orders,
                forall|j: int| 0 <= j < i ==> hex_parses(#[trigger] pts@[j].liquidity@),
                forall|j: int|
                    0 <= j < i ==> (#[trigger] range_orders@[j]).start_tick == pts@[j].tick
                        && range_orders@[j].end_tick == pts@[j + 1].tick
                        && range_orders@[j].liquidity.val() == hex_value(pts@[j].liquidity@),
            decreases pts@.len() - i,
        {
            let start = &pts[i];
            let end = &pts[i + 1];
            let value = match hex_string_to_u256(start.liquidity.as_str()) {
                Ok(a) => a,
                Err(e) => {
                    return Err(e);
                },
            };
            range_orders.push(
                RangeOrder { start_tick: start.tick, end_tick: end.tick, liquidity: value },
            );
            i = i + 1;
        }

        Ok(
            OrderBook {
                asset_pair: asset_pair.clone(),
                sqrt_price_x96,
                tick,
                limit_bids,
                limit_asks,
                range_orders,
            },
        )
    }
}

} // verus!
