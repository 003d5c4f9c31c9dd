//! Data model: trading pairs, wire-shape records, amounts and the order book.
pub mod asset_pair;
pub mod common;
pub mod json_rpc;
pub mod liquidity;
pub mod order_book;
pub mod pool_price;
pub mod price_update;
pub mod uint256;
