//! Addresses of the node's RPC routes.

use vstd::prelude::*;
use vstd::string::StringExecFns;

verus! {

/// The URL of `route` under the RPC base URL `base`: the base, the route, a slash.
pub fn rpc_endpoint_at(base: &str, route: &str) -> (r: String)
    ensures
        r@ == base@ + route@ + "/"@,
{
    let mut s = String::new();
    s.append(base);
    s.append(route);
    s.append("/");
    assert(s@ =~= base@ + route@ + "/"@);
    s
}

/// The URL of `route` under the local node's RPC address.
pub fn get_rpc_endpoint(route: &str) -> (r: String)
    ensures
        r@ == "http://127.0.0.1:3000/"@ + route@ + "/"@,
{
    rpc_endpoint_at("http://127.0.0.1:3000/", route)
}

} // verus!
