//! Network identity: magic bytes, default port and seed hostnames.

use vstd::prelude::*;

verus! {

/// The protocol network a node joins.
#[derive(Clone, Copy, Debug, PartialEq, Eq, Hash, Structural)]
pub enum Network {
    Main,
    Test,
}

/// A resolved peer endpoint.
///
/// `ip` is the 128-bit IPv6 address, most significant byte first; an IPv4
/// address is held in its IPv4-mapped form `::ffff:a.b.c.d`.
#[derive(Clone, Copy, Debug, PartialEq, Eq, Hash, Structural)]
pub struct PeerAddress {
    pub ip: u128,
    pub port: u16,
}

/// Magic bytes of a network, as the little-endian integer that opens each frame.
pub open spec fn magic_of(network: Network) -> u32 {
    match network {
        Network::Main => 0xD9B4BEF9,
        Network::Test => 0x0709110B,
    }
}

/// Default port of a network.
pub open spec fn port_of(network: Network) -> u16 {
    match network {
        Network::Main => 8333,
        Network::Test => 18333,
    }
}

/// Seed hostnames of a network, in lookup order.
pub open spec fn seeds_of(network: Network) -> Seq<Seq<char>> {
    match network {
        Network::Main => seq!["seed.bitcoin.jonasschnelli.ch"@],
        Network::Test => seq![
            "testnet-seed.bitcoin.jonasschnelli.ch"@,
            "seed.tbtc.petertodd.org"@,
            "seed.testnet.bitcoin.sprovoost.nl"@,
        ],
    }
}

/// Asks `bitcoin::Network::magic` for the magic of the matching outside
/// network (`Bitcoin` for `Main`, `Testnet` for `Test`); the contract repeats
/// the two constants that method documents.
#[verifier::external_body]
fn network_magic(network: Network) -> (m: u32)
    ensures
        m == magic_of(network),
{
    match network {
        Network::Main => bitcoin::Network::Bitcoin.magic(),
        Network::Test => bitcoin::Network::Testnet.magic(),
    }
}

impl Network {
    /// The magic bytes that open every frame on this network.
    pub fn magic(self) -> (m: u32)
        ensures
            m == magic_of(self),
    {
        network_magic(self)
    }

    /// The port every peer of this network is contacted on.
    pub fn port(self) -> (p: u16)
        ensures
            p == port_of(self),
    {
        match self {
            Network::Main => 8333,
            Network::Test => 18333,
        }
    }

    /// The hostnames that discovery resolves, in order.
    pub fn seeds(self) -> (hosts: Vec<&'static str>)
        ensures
            hosts@.len() == seeds_of(self).len(),
            forall|i: int| 0 <= i < hosts@.len() ==> (#[trigger] hosts@[i])@ == seeds_of(self)[i],
    {
        let mut hosts: Vec<&'static str> = Vec::new();
        match self {
            Network::Main => {
                hosts.push("seed.bitcoin.jonasschnelli.ch");
            },
            Network::Test => {
                hosts.push("testnet-seed.bitcoin.jonasschnelli.ch");
                hosts.push("seed.tbtc.petertodd.org");
                hosts.push("seed.testnet.bitcoin.sprovoost.nl");
            },
        }
        hosts
    }
}

impl PeerAddress {
    /// The endpoint at `ip` on the port of `network`.
    pub fn on_network(ip: u128, network: Network) -> (a: PeerAddress)
        ensures
            a == (PeerAddress { ip, port: port_of(network) }),
    {
        PeerAddress { ip, port: network.port() }
    }
}

/// Two different networks share nothing: their ports and magic bytes differ,
/// no seed hostname of one is a seed hostname of the other, and no endpoint
/// on the port of one is an endpoint on the port of the other.
pub proof fn lemma_networks_apart(m: Network, n: Network)
    requires
        m != n,
    ensures
        port_of(m) != port_of(n),
        magic_of(m) != magic_of(n),
        forall|i: int, j: int|
            0 <= i < seeds_of(m).len() && 0 <= j < seeds_of(n).len() ==> seeds_of(m)[i] != seeds_of(
                n,
            )[j],
        forall|a: PeerAddress, b: PeerAddress|
            a.port == port_of(m) && b.port == port_of(n) ==> a != b,
{
    reveal_strlit("seed.bitcoin.jonasschnelli.ch");
    reveal_strlit("testnet-seed.bitcoin.jonasschnelli.ch");
    reveal_strlit("seed.tbtc.petertodd.org");
    reveal_strlit("seed.testnet.bitcoin.sprovoost.nl");
    assert("seed.bitcoin.jonasschnelli.ch"@.len() == 29);
    assert("testnet-seed.bitcoin.jonasschnelli.ch"@.len() == 37);
    assert("seed.tbtc.petertodd.org"@.len() == 23);
    assert("seed.testnet.bitcoin.sprovoost.nl"@.len() == 33);
}

} // verus!
