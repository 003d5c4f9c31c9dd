use pool_orderbook::model::asset_pair::AssetPair;
use pool_orderbook::model::json_rpc::JsonRpcResponse;
use pool_orderbook::model::pool_price::{Params, PoolPrice, Result};
use pool_orderbook::pool_info_provider::pool_info_provider::{ProtocolError, SubscriptionRegistry};

fn btc_usdc() -> AssetPair {
    AssetPair::new("BTC".to_string(), "USDC".to_string())
}

fn dot_usdc() -> AssetPair {
    AssetPair::new("DOT".to_string(), "USDC".to_string())
}

fn push_frame(subscription: &str, price: &str, sqrt_price: &str, tick: i32) -> PoolPrice {
    PoolPrice {
        jsonrpc: "2.0".to_string(),
        method: "cf_subscribe_pool_price".to_string(),
        params: Params {
            subscription: subscription.to_string(),
            result: Result {
                price: price.to_string(),
                sqrt_price: sqrt_price.to_string(),
                tick,
            },
        },
    }
}

fn ack_frame(id: &str, result: &str) -> JsonRpcResponse {
    JsonRpcResponse { jsonrpc: "2.0".to_string(), id: id.to_string(), result: result.to_string() }
}

#[test]
fn subscribing_twice_emits_one_frame() {
    let mut registry = SubscriptionRegistry::new();
    let pair = btc_usdc();

    let first = registry.subscribe_pool_price_updates(&pair);
    let second = registry.subscribe_pool_price_updates(&pair);

    assert!(first.is_some());
    assert!(second.is_none());

    let frame = first.unwrap();
    assert_eq!("BTC", frame.from_asset.as_str());
    assert_eq!("USDC", frame.to_asset.as_str());
}

#[test]
fn subscribe_frames_carry_distinct_pairs() {
    let mut registry = SubscriptionRegistry::new();
    let first = registry.subscribe_pool_price_updates(&btc_usdc()).unwrap();
    let second = registry.subscribe_pool_price_updates(&dot_usdc()).unwrap();
    assert_eq!("BTC", first.from_asset.as_str());
    assert_eq!("DOT", second.from_asset.as_str());
}

#[test]
fn stream_is_available_only_after_subscribe() {
    let mut registry = SubscriptionRegistry::new();
    assert!(!registry.has_price_stream(&btc_usdc()));
    registry.subscribe_pool_price_updates(&btc_usdc());
    assert!(registry.has_price_stream(&btc_usdc()));
    assert!(!registry.has_price_stream(&dot_usdc()));
}

#[test]
fn latest_price_is_none_before_any_push() {
    let mut registry = SubscriptionRegistry::new();
    assert!(registry.get_latest_pool_price(&btc_usdc()).is_none());
    registry.subscribe_pool_price_updates(&btc_usdc());
    assert!(registry.get_latest_pool_price(&btc_usdc()).is_none());
}

#[test]
fn ack_with_unknown_request_id_is_fatal() {
    let mut registry = SubscriptionRegistry::new();
    let r = registry.handle_ack(&ack_frame("99", "sub-1"));
    assert_eq!(Err(ProtocolError::UnknownRequestId), r);
}

#[test]
fn push_with_unknown_subscription_updates_nothing() {
    let mut registry = SubscriptionRegistry::new();
    let pair = btc_usdc();
    registry.handle_subscribe(&pair, "1".to_string());
    registry.handle_ack(&ack_frame("1", "sub-1")).unwrap();

    let r = registry.handle_push(&push_frame("sub-unknown", "9.9", "0x9", 9));
    assert_eq!(Some(ProtocolError::UnknownSubscription), r.err());
    // No pair's state moved: the subscribed pair still has no value.
    assert!(registry.get_latest_pool_price(&pair).is_none());
}

#[test]
fn ack_then_push_reaches_the_latest_price_query() {
    let mut registry = SubscriptionRegistry::new();
    let pair = btc_usdc();

    let frame = registry.handle_subscribe(&pair, "1".to_string());
    assert!(frame.is_some());

    registry.handle_ack(&ack_frame("1", "sub-42")).unwrap();
    registry.handle_push(&push_frame("sub-42", "1.0", "0x0", 0)).unwrap();

    let latest = registry.get_latest_pool_price(&pair).unwrap();
    assert_eq!(0, latest.tick);
    assert_eq!("0x0", latest.sqrt_price.as_str());
    assert_eq!("1.0", latest.price.as_str());
    assert_eq!("BTC-USDC", latest.asset_pair.label().as_str());
}

#[test]
fn pushes_land_on_their_own_pair() {
    let mut registry = SubscriptionRegistry::new();
    registry.handle_subscribe(&btc_usdc(), "1".to_string());
    registry.handle_subscribe(&dot_usdc(), "2".to_string());
    registry.handle_ack(&ack_frame("1", "sub-btc")).unwrap();
    registry.handle_ack(&ack_frame("2", "sub-dot")).unwrap();

    registry.handle_push(&push_frame("sub-btc", "30000", "0x10", 57040)).unwrap();
    registry.handle_push(&push_frame("sub-dot", "10", "0x20", -69082)).unwrap();

    assert_eq!(57040, registry.get_latest_pool_price(&btc_usdc()).unwrap().tick);
    assert_eq!(-69082, registry.get_latest_pool_price(&dot_usdc()).unwrap().tick);
}

#[test]
fn a_later_push_replaces_the_broadcast_value() {
    let mut registry = SubscriptionRegistry::new();
    let pair = btc_usdc();
    registry.handle_subscribe(&pair, "1".to_string());
    registry.handle_ack(&ack_frame("1", "sub-42")).unwrap();
    registry.handle_push(&push_frame("sub-42", "1.0", "0x0", 0)).unwrap();
    registry.handle_push(&push_frame("sub-42", "2.0", "0x4", 7)).unwrap();
    let latest = registry.get_latest_pool_price(&pair).unwrap();
    assert_eq!(7, latest.tick);
    assert_eq!("0x4", latest.sqrt_price.as_str());
}
