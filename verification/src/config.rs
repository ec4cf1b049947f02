//! Where the node is reached.

use vstd::prelude::*;

verus! {

/// The name of the environment variable that holds the node's endpoint.
pub const L1_RPC_HTTP_VAR: &'static str = "L1_RPC_HTTP";

/// The endpoint of a node on the same machine, used when none is named.
pub const DEFAULT_L1_RPC_HTTP: &'static str = "http://localhost:8545";

/// The settings of the service.
pub struct Config {
    /// The URL of the node's HTTP RPC endpoint.
    pub l1_rpc_http: String,
}

impl Default for Config {
    /// The settings that point at a node on the same machine.
    fn default() -> (config: Self)
        ensures
            config.l1_rpc_http@ == DEFAULT_L1_RPC_HTTP@,
    {
        Config { l1_rpc_http: String::from_str(DEFAULT_L1_RPC_HTTP) }
    }
}

impl Config {
    /// The settings that the environment asks for. `l1_rpc_http` is what
    /// the variable `L1_RPC_HTTP` holds, or `None` where it is not set;
    /// the endpoint is then that of a node on the same machine.
    pub fn from_env(l1_rpc_http: Option<String>) -> (config: Self)
        ensures
            config.l1_rpc_http@ == match l1_rpc_http {
                Some(url) => url@,
                None => DEFAULT_L1_RPC_HTTP@,
            },
    {
        match l1_rpc_http {
            Some(url) => Config { l1_rpc_http: url },
            None => Config::default(),
        }
    }
}

} // verus!
