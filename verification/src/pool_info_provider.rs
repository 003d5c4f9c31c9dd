//! The connection actor's verified core: the subscription registry and the
//! handlers that serve protocol frames and client requests.
pub mod pool_info_provider;
pub mod registry_map;
