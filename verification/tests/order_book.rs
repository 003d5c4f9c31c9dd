use pool_orderbook::model::asset_pair::AssetPair;
use pool_orderbook::model::liquidity::{LimitOrder, LimitOrders, Liquidity, RangeOrder, Result};
use pool_orderbook::model::order_book::{OrderBook, Side};
use pool_orderbook::model::uint256::Uint256;
use pool_orderbook::util::HexParseError;

fn snapshot(asks: Vec<LimitOrder>, bids: Vec<LimitOrder>, range_orders: Vec<RangeOrder>) -> Liquidity {
    Liquidity {
        id: "1".to_string(),
        jsonrpc: "2".to_string(),
        result: Result { limit_orders: LimitOrders { asks, bids }, range_orders },
    }
}

fn btc_usdc() -> AssetPair {
    AssetPair { from: "BTC".to_string(), to: "USDC".to_string() }
}

#[test]
fn test_new_orderbook() {
    let liquidity = snapshot(
        vec![LimitOrder { tick: 1234, amount: "0x01".to_string() }],
        vec![LimitOrder { tick: 1233, amount: "0x01".to_string() }],
        vec![
            RangeOrder { tick: -1, liquidity: "0x01".to_string() },
            RangeOrder { tick: 10, liquidity: "0x01".to_string() },
            RangeOrder { tick: 100, liquidity: "0x0".to_string() },
        ],
    );

    let asset_pair = btc_usdc();
    let sqrt_price_x96 = Uint256::zero();
    let tick: i32 = 1234;

    let ob = OrderBook::new(&asset_pair, liquidity, sqrt_price_x96, tick).unwrap();
    assert_eq!(1, ob.limit_asks.len());
    assert_eq!(1, ob.limit_bids.len());

    assert_eq!(2, ob.range_orders.len());

    let range_order_0 = ob.range_orders.get(0).unwrap();
    assert_eq!(-1, range_order_0.start_tick);
    assert_eq!(10, range_order_0.end_tick);

    let range_order_1 = ob.range_orders.get(1).unwrap();
    assert_eq!(10, range_order_1.start_tick);
    assert_eq!(100, range_order_1.end_tick);
}

#[test]
fn sides_preserve_order_tick_amount_and_tag() {
    let liquidity = snapshot(
        vec![
            LimitOrder { tick: 7, amount: "0x10".to_string() },
            LimitOrder { tick: 9, amount: "ff".to_string() },
            LimitOrder { tick: 11, amount: "0xA".to_string() },
        ],
        vec![
            LimitOrder { tick: -3, amount: "0x2".to_string() },
            LimitOrder { tick: 5, amount: "1337".to_string() },
        ],
    vec![],
    );

    let ob = OrderBook::new(&btc_usdc(), liquidity, Uint256::zero(), 0).unwrap();

    assert_eq!(2, ob.limit_bids.len());
    assert_eq!(3, ob.limit_asks.len());
    assert_eq!(0, ob.range_orders.len());

    assert_eq!(Side::Buy, ob.limit_bids[0].side);
    assert_eq!(-3, ob.limit_bids[0].tick);
    assert_eq!(Uint256::from_u64(2), ob.limit_bids[0].amount);
    assert_eq!(Side::Buy, ob.limit_bids[1].side);
    assert_eq!(5, ob.limit_bids[1].tick);
    assert_eq!(Uint256::from_u64(0x1337), ob.limit_bids[1].amount);

    assert_eq!(Side::Sell, ob.limit_asks[0].side);
    assert_eq!(7, ob.limit_asks[0].tick);
    assert_eq!(Uint256::from_u64(0x10), ob.limit_asks[0].amount);
    assert_eq!(Side::Sell, ob.limit_asks[1].side);
    assert_eq!(9, ob.limit_asks[1].tick);
    assert_eq!(Uint256::from_u64(0xff), ob.limit_asks[1].amount);
    assert_eq!(Side::Sell, ob.limit_asks[2].side);
    assert_eq!(11, ob.limit_asks[2].tick);
    assert_eq!(Uint256::from_u64(0xa), ob.limit_asks[2].amount);
}

#[test]
fn brackets_take_the_left_points_liquidity() {
    let liquidity = snapshot(
        vec![],
        vec![],
        vec![
            RangeOrder { tick: 0, liquidity: "0x5".to_string() },
            RangeOrder { tick: 8, liquidity: "0x6".to_string() },
            RangeOrder { tick: 20, liquidity: "0x7".to_string() },
        ],
    );
    let ob = OrderBook::new(&btc_usdc(), liquidity, Uint256::zero(), 0).unwrap();
    assert_eq!(2, ob.range_orders.len());
    assert_eq!(Uint256::from_u64(5), ob.range_orders[0].liquidity);
    assert_eq!(Uint256::from_u64(6), ob.range_orders[1].liquidity);
}

#[test]
fn one_boundary_point_yields_no_bracket() {
    let liquidity = snapshot(
        vec![],
        vec![],
        vec![RangeOrder { tick: 42, liquidity: "0x5".to_string() }],
    );
    let ob = OrderBook::new(&btc_usdc(), liquidity, Uint256::zero(), 0).unwrap();
    assert_eq!(0, ob.range_orders.len());
}

#[test]
fn final_points_liquidity_is_never_read() {
    let liquidity = snapshot(
        vec![],
        vec![],
        vec![
            RangeOrder { tick: 0, liquidity: "0x5".to_string() },
            RangeOrder { tick: 8, liquidity: "not hex at all".to_string() },
        ],
    );
    let ob = OrderBook::new(&btc_usdc(), liquidity, Uint256::zero(), 0).unwrap();
    assert_eq!(1, ob.range_orders.len());
    assert_eq!(Uint256::from_u64(5), ob.range_orders[0].liquidity);
}

#[test]
fn malformed_amount_is_a_fatal_parse_error() {
    let liquidity = snapshot(
        vec![LimitOrder { tick: 1, amount: "0xgg".to_string() }],
        vec![],
        vec![],
    );
    assert_eq!(
        Err(HexParseError::Malformed),
        OrderBook::new(&btc_usdc(), liquidity, Uint256::zero(), 0).map(|_| ())
    );
}
