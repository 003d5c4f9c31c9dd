//! A verified core for a live order-book service: hex amount parsing,
//! order-book assembly from liquidity snapshots, a subscription registry
//! correlating protocol frames to trading pairs, and the dual-trigger
//! rebuild policy of the order-book builder.
pub mod model;
pub mod orderbook_builder;
pub mod pool_info_provider;
pub mod price_grid;
pub mod util;
