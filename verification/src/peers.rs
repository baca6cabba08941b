//! Peers routines.

use vstd::prelude::*;
use vstd::string::StringExecFns;
use crate::address::{is_host, parse_host};
use crate::block::Block;
use crate::codec::{decode, decoded};
use crate::error::SyncError;
use crate::message::blocks_view;

verus! {

/// What follows the host in a peer's address: a colon and the listening
/// port.
pub open spec fn port_suffix() -> Seq<char> {
    seq![':', '1', '0', '0', '0', '0']
}

/// The address at which the peer named `host` is reached.
pub open spec fn peer_address(host: Seq<char>) -> Seq<char> {
    host + port_suffix()
}

/// The address at which the peer named `host` is reached: the host, a colon
/// and the listening port.
pub fn address_of(host: &str) -> (address: String)
    ensures
        address@ == peer_address(host@),
{
    let mut address = String::from_str(host);
    proof {
        reveal_strlit(":10000");
    }
    address.append(":10000");
    address
}

/// The known peers, by host, in the order in which they were added. A host
/// added twice is held twice. Nothing is ever removed.
#[derive(Debug)]
pub struct PeerRegistry {
    hosts: Vec<String>,
}

impl View for PeerRegistry {
    type V = Seq<Seq<char>>;

    closed spec fn view(&self) -> Seq<Seq<char>> {
        self.hosts@.map_values(|host: String| host@)
    }
}

impl PeerRegistry {
    #[verifier::type_invariant]
    spec fn only_hosts(self) -> bool {
        forall|i: int| 0 <= i < self.hosts@.len() ==> is_host(#[trigger] self.hosts@[i]@)
    }

    /// The registry without peers.
    pub fn new() -> (peers: PeerRegistry)
        ensures
            peers@ == Seq::<Seq<char>>::empty(),
    {
        PeerRegistry { hosts: Vec::new() }
    }

    /// Number of peers.
    pub fn length(&self) -> (length: usize)
        ensures
            length == self@.len(),
    {
        self.hosts.len()
    }

    /// The hosts of all peers, in the order in which they were added. Each is
    /// a host address.
    pub fn hosts(&self) -> (hosts: Vec<String>)
        ensures
            hosts@.len() == self@.len(),
            forall|i: int|
                0 <= i < self@.len() ==> (#[trigger] hosts@[i])@ == self@[i] && is_host(self@[i]),
    {
        proof {
            use_type_invariant(self);
        }
        self.hosts.clone()
    }

    /// Registers the peer named `host` and returns the address at which to
    /// reach it. A `host` that is not a host address is refused, and the
    /// registry stays as it was; nothing else prevents registration.
    pub fn add_peer(&mut self, host: &str) -> (address: Result<String, SyncError>)
        ensures
            is_host(host@) ==> {
                &&& address is Ok
                &&& address->Ok_0@ == peer_address(host@)
                &&& final(self)@ == old(self)@.push(host@)
            },
            !is_host(host@) ==> {
                &&& address == Err::<String, SyncError>(SyncError::InvalidAddressFormat)
                &&& final(self)@ == old(self)@
            },
    {
        proof {
            use_type_invariant(&*self);
        }
        if parse_host(host).is_none() {
            return Err(SyncError::InvalidAddressFormat);
        }
        // The list is taken out while it grows, so that the registry never
        // holds a borrowed field.
        let mut hosts: Vec<String> = Vec::new();
        core::mem::swap(&mut hosts, &mut self.hosts);
        hosts.push(String::from_str(host));
        self.hosts = hosts;
        Ok(address_of(host))
    }
}

/// The addresses of all peers, in the order of the registry, for display.
/// Each is the address of a host.
pub fn list_peers(peers: &PeerRegistry) -> (addresses: Vec<String>)
    ensures
        addresses@.len() == peers@.len(),
        forall|i: int|
            0 <= i < peers@.len() ==> (#[trigger] addresses@[i])@ == peer_address(peers@[i])
                && is_host(peers@[i]),
{
    let hosts = peers.hosts();
    let mut addresses: Vec<String> = Vec::new();
    let mut index: usize = 0;
    while index < hosts.len()
        invariant
            index <= hosts@.len(),
            addresses@.len() == index,
            forall|i: int|
                0 <= i < index ==> (#[trigger] addresses@[i])@ == peer_address(hosts@[i]@),
        decreases hosts.len() - index,
    {
        addresses.push(address_of(hosts[index].as_str()));
        index += 1;
    }
    addresses
}

/// The chain that a peer sent in reply to a request for it, or nothing when
/// the reply does not decode. The label of the reply is not looked at.
pub fn get_chain_from_stream(reply: &[u8]) -> (chain: Option<Vec<Block>>)
    ensures
        match chain {
            Some(blocks) => decoded(reply@) is Some && decoded(reply@)->0.blocks == blocks_view(
                blocks@,
            ),
            None => decoded(reply@) is None,
        },
{
    match decode(reply) {
        Ok(message) => Some(message.get_blocks().clone()),
        Err(_) => None,
    }
}

} // verus!
