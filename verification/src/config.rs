//! The node configuration, as the verifier's collaborator hands it over.
//!
//! Loading the configuration file and decoding its markup are the
//! collaborator's work, outside this crate. What arrives here is a
//! [`RawConfig`]: each field as a plain value, or `None` where the file
//! lacked the key, gave it the wrong type, or named an address that does
//! not parse. [`Config::from_raw`] turns that into a [`Config`] or says
//! exactly which field was unusable, and [`Config::validate`] applies the
//! rule that the node's own address must not be local: a local address
//! cannot be reached by outside peers, so such a configuration is refused.

use vstd::prelude::*;

use crate::addr::SocketAddressV4;
use crate::addr::spec_is_local;

verus! {

/// The configuration's fields as found, before any checking: `None` stands
/// for a value the file did not usably supply.
#[derive(Clone, Debug)]
pub struct RawConfig {
    /// The integer under the listen-port key.
    pub port_listen: Option<i64>,
    /// The node's own address.
    pub self_node_addr: Option<SocketAddressV4>,
    /// The neighbour addresses, each `None` where an entry did not parse.
    pub near_node_addrs: Option<Vec<Option<SocketAddressV4>>>,
}

/// Why a configuration was refused.
#[derive(Clone, Copy, Debug, PartialEq, Eq, Structural)]
pub enum ConfigError {
    /// The listen-port value is missing or not an integer.
    PortMissing,
    /// The node's own address is missing or does not parse.
    SelfAddrMissing,
    /// The neighbour list is missing or not a list.
    NearAddrsMissing,
    /// A neighbour entry does not parse as an address.
    NearAddrInvalid,
    /// The node's own address is local, so no outside peer could reach it.
    SelfAddrLocal,
}

/// A checked node configuration.
#[derive(Clone, Debug, PartialEq, Eq)]
pub struct Config {
    /// The port the node listens on.
    pub port_listen: u16,
    /// The node's own address, as peers should reach it.
    pub self_node_addr: SocketAddressV4,
    /// The addresses of the nearby nodes.
    pub near_node_addrs: Vec<SocketAddressV4>,
}

impl Config {
    /// Builds a configuration from the raw field values, reporting the
    /// first unusable field in the file's order: the listen port, the
    /// node's own address, then the neighbour list and its entries. The
    /// port value is taken modulo the port range, as the file format's
    /// integers are wider than a port.
    pub fn from_raw(raw: &RawConfig) -> (r: Result<Config, ConfigError>)
        ensures
            r == Result::<Config, ConfigError>::Err(ConfigError::PortMissing) <==> raw.port_listen
                is None,
            r == Result::<Config, ConfigError>::Err(ConfigError::SelfAddrMissing) <==> (
            raw.port_listen is Some && raw.self_node_addr is None),
            r == Result::<Config, ConfigError>::Err(ConfigError::NearAddrsMissing) <==> (
            raw.port_listen is Some && raw.self_node_addr is Some && raw.near_node_addrs is None),
            r == Result::<Config, ConfigError>::Err(ConfigError::NearAddrInvalid) <==> (
            raw.port_listen is Some && raw.self_node_addr is Some && raw.near_node_addrs is Some
                && (exists|j: int|
                0 <= j < raw.near_node_addrs->0@.len() && raw.near_node_addrs->0@[j] is None)),
            r is Ok <==> (raw.port_listen is Some && raw.self_node_addr is Some
                && raw.near_node_addrs is Some && (forall|j: int|
                0 <= j < raw.near_node_addrs->0@.len() ==> raw.near_node_addrs->0@[j] is Some)),
            r matches Ok(c) ==> c.port_listen == raw.port_listen->0 as u16 && c.self_node_addr
                == raw.self_node_addr->0 && c.near_node_addrs@.len()
                == raw.near_node_addrs->0@.len() && (forall|j: int|
                0 <= j < c.near_node_addrs@.len() ==> c.near_node_addrs@[j]
                    == raw.near_node_addrs->0@[j]->0),
    {
        let port: i64 = match &raw.port_listen {
            Some(p) => *p,
            None => {
                return Err(ConfigError::PortMissing);
            },
        };
        let self_addr: SocketAddressV4 = match &raw.self_node_addr {
            Some(a) => *a,
            None => {
                return Err(ConfigError::SelfAddrMissing);
            },
        };
        let near_raw: &Vec<Option<SocketAddressV4>> = match &raw.near_node_addrs {
            Some(v) => v,
            None => {
                return Err(ConfigError::NearAddrsMissing);
            },
        };
        let mut near: Vec<SocketAddressV4> = Vec::new();
        let n = near_raw.len();
        let mut i: usize = 0;
        while i < n
            invariant
                raw.port_listen is Some,
                raw.self_node_addr is Some,
                raw.near_node_addrs is Some,
                near_raw@ == raw.near_node_addrs->0@,
                n == near_raw@.len(),
                i <= n,
                near@.len() == i,
                forall|j: int| 0 <= j < i ==> near_raw@[j] is Some,
                forall|j: int| 0 <= j < i ==> near@[j] == near_raw@[j]->0,
            decreases n - i,
        {
            match &near_raw[i] {
                Some(a) => near.push(*a),
                None => {
                    return Err(ConfigError::NearAddrInvalid);
                },
            }
            i = i + 1;
        }
        Ok(
            Config {
                port_listen: #[verifier::truncate] (port as u16),
                self_node_addr: self_addr,
                near_node_addrs: near,
            },
        )
    }

    /// The rule `init` applies before accepting a configuration: the
    /// node's own address must not be local, or no outside peer could
    /// ever reach the node.
    pub fn validate(&self) -> (r: Result<(), ConfigError>)
        ensures
            r is Ok <==> !spec_is_local(self.self_node_addr.ip),
            r is Err ==> r == Result::<(), ConfigError>::Err(ConfigError::SelfAddrLocal),
    {
        if self.self_node_addr.ip.is_local() {
            Err(ConfigError::SelfAddrLocal)
        } else {
            Ok(())
        }
    }
}

} // verus!
