//! The configuration: the servers to run, each with its bind address.

use crate::address::{is_host_port, is_valid_address};
use vstd::prelude::*;

verus! {

/// One server to run.
///
/// `endpoints` is carried along for the callers' sake: no decision of this
/// crate reads it.
#[derive(Debug, PartialEq, Eq)]
pub struct ServerConfig {
    /// The address to bind, of the form host:port.
    pub address: String,
    /// The endpoints of the server, in the order given.
    pub endpoints: Vec<String>,
}

/// The servers to run, in the order given.
#[derive(Debug, PartialEq, Eq)]
pub struct Config {
    pub servers: Vec<ServerConfig>,
}

/// The mathematical value of a [`ServerConfig`].
pub struct ServerModel {
    pub address: Seq<char>,
    pub endpoints: Seq<Seq<char>>,
}

impl View for ServerConfig {
    type V = ServerModel;

    open spec fn view(&self) -> ServerModel {
        ServerModel {
            address: self.address@,
            endpoints: self.endpoints@.map_values(|endpoint: String| endpoint@),
        }
    }
}

impl View for Config {
    type V = Seq<ServerModel>;

    open spec fn view(&self) -> Seq<ServerModel> {
        self.servers@.map_values(|server: ServerConfig| server@)
    }
}

/// Why a configuration was turned down.
#[derive(Clone, Copy, Debug, PartialEq, Eq, Structural)]
pub enum ConfigError {
    /// The address of the server at this position is not of the form host:port.
    InvalidAddress { server: usize },
}

/// Whether every server of `servers` has an address of the form host:port.
pub open spec fn all_addresses_valid(servers: Seq<ServerModel>) -> bool {
    forall|k: int| 0 <= k < servers.len() ==> is_host_port(#[trigger] servers[k].address)
}

/// Whether `server` is the first of `servers` whose address is not of the form host:port.
pub open spec fn first_invalid_address(servers: Seq<ServerModel>, server: int) -> bool {
    &&& 0 <= server < servers.len()
    &&& !is_host_port(servers[server].address)
    &&& all_addresses_valid(servers.take(server))
}

impl Config {
    /// Checks the address of every server.
    ///
    /// Succeeds exactly when every address is of the form host:port, and
    /// names the first server whose address is not.
    pub fn validate(&self) -> (checked: Result<(), ConfigError>)
        ensures
            checked is Ok <==> all_addresses_valid(self@),
            checked matches Err(ConfigError::InvalidAddress { server }) ==> first_invalid_address(
                self@,
                server as int,
            ),
    {
        let mut at: usize = 0;
        while at < self.servers.len()
            invariant
                at <= self.servers@.len(),
                all_addresses_valid(self@.take(at as int)),
            decreases self.servers@.len() - at,
        {
            if !is_valid_address(self.servers[at].address.as_str()) {
                assert(!is_host_port(self@[at as int].address));
                return Err(ConfigError::InvalidAddress { server: at });
            }
            assert forall|k: int| 0 <= k < at + 1 implies is_host_port(
                #[trigger] self@.take(at + 1)[k].address,
            ) by {
                if k < at {
                    assert(self@.take(at + 1)[k] == self@.take(at as int)[k]);
                }
            }
            at = at + 1;
        }
        assert(self@.take(at as int) == self@);
        Ok(())
    }
}

} // verus!
