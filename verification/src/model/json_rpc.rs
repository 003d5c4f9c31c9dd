use std::collections::HashMap;

use vstd::prelude::*;

verus! {

/// An outgoing request over the socket or the unary endpoint.
pub struct ChainflipJsonRpcRequest {
    jsonrpc: String,
    id: String,
    method: String,
    params: HashMap<String, String>,
}

/// A request acknowledgement: the request id it answers and the
/// subscription id the node assigned.
pub struct JsonRpcResponse {
    pub jsonrpc: String,
    pub id: String,
    pub result: String,
}

} // verus!
