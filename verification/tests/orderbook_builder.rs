use pool_orderbook::model::asset_pair::AssetPair;
use pool_orderbook::model::liquidity::{LimitOrder, LimitOrders, Liquidity, RangeOrder, Result};
use pool_orderbook::model::price_update::PriceUpdate;
use pool_orderbook::model::uint256::Uint256;
use pool_orderbook::orderbook_builder::{BuilderAction, OrderBookBuilder, Wake};

fn btc_usdc() -> AssetPair {
    AssetPair::new("BTC".to_string(), "USDC".to_string())
}

fn price(tick: i32, sqrt_price: &str) -> PriceUpdate {
    PriceUpdate {
        asset_pair: btc_usdc(),
        price: "1.0".to_string(),
        sqrt_price: sqrt_price.to_string(),
        tick,
    }
}

fn empty_snapshot() -> Liquidity {
    Liquidity {
        id: "1".to_string(),
        jsonrpc: "2.0".to_string(),
        result: Result {
            limit_orders: LimitOrders { asks: vec![], bids: vec![] },
            range_orders: vec![],
        },
    }
}

#[test]
fn timer_wake_fetches_once_publishes_once_and_keeps_the_price() {
    let mut builder = OrderBookBuilder::new(btc_usdc(), price(5, "0x10"));
    let directive = builder.on_wake(Wake::Timer);
    assert_eq!(
        vec![BuilderAction::FetchLiquidity, BuilderAction::PublishBook],
        directive.actions
    );
    assert!(!directive.reset_timer);
    assert_eq!(5, directive.latest.tick);
    assert_eq!("0x10", directive.latest.sqrt_price.as_str());
}

#[test]
fn price_wake_fetches_once_publishes_once_and_restarts_the_timer() {
    let mut builder = OrderBookBuilder::new(btc_usdc(), price(5, "0x10"));
    let directive = builder.on_wake(Wake::PriceChange(price(6, "0x11")));
    assert_eq!(
        vec![BuilderAction::FetchLiquidity, BuilderAction::PublishBook],
        directive.actions
    );
    assert!(directive.reset_timer);
    assert_eq!(6, directive.latest.tick);

    // A timer wake after the restart still sees the adopted price.
    let after = builder.on_wake(Wake::Timer);
    assert!(!after.reset_timer);
    assert_eq!(6, after.latest.tick);
    assert_eq!("0x11", after.latest.sqrt_price.as_str());
}

#[test]
fn build_parses_the_adopted_sqrt_price() {
    let builder = OrderBookBuilder::new(btc_usdc(), price(1234, "0x539"));
    let ob = builder.build(empty_snapshot()).unwrap();
    assert_eq!(Uint256::from_u64(1337), ob.sqrt_price_x96);
    assert_eq!(1234, ob.tick);
    assert_eq!(0, ob.limit_bids.len());
    assert_eq!(0, ob.limit_asks.len());
    assert_eq!(0, ob.range_orders.len());
}

#[test]
fn build_fails_on_a_malformed_sqrt_price() {
    let builder = OrderBookBuilder::new(btc_usdc(), price(0, "oops"));
    assert!(builder.build(empty_snapshot()).is_err());
}

#[test]
fn build_carries_the_snapshot_into_the_book() {
    let builder = OrderBookBuilder::new(btc_usdc(), price(0, "0x0"));
    let snapshot = Liquidity {
        id: "1".to_string(),
        jsonrpc: "2.0".to_string(),
        result: Result {
            limit_orders: LimitOrders {
                asks: vec![LimitOrder { tick: 2, amount: "0x2".to_string() }],
                bids: vec![LimitOrder { tick: 1, amount: "0x1".to_string() }],
            },
            range_orders: vec![
                RangeOrder { tick: 3, liquidity: "0x3".to_string() },
                RangeOrder { tick: 4, liquidity: "0x4".to_string() },
            ],
        },
    };
    let ob = builder.build(snapshot).unwrap();
    assert_eq!(1, ob.limit_bids.len());
    assert_eq!(1, ob.limit_asks.len());
    assert_eq!(1, ob.range_orders.len());
    assert_eq!(Uint256::from_u64(3), ob.range_orders[0].liquidity);
    assert_eq!(3, ob.range_orders[0].start_tick);
    assert_eq!(4, ob.range_orders[0].end_tick);
}
