//! Which server to ask: the choice among the DNS servers of the system's
//! network adapters.

use vstd::prelude::*;

verus! {

/// An address of a DNS server as a network adapter lists it.
#[derive(Clone, Copy, Debug, PartialEq, Eq, Structural)]
pub enum ServerAddress {
    /// An IPv4 address, by its four bytes.
    V4(u8, u8, u8, u8),
    /// An IPv6 address. Queries are not sent to these.
    V6,
}

/// What is looked at of a network adapter when a server is chosen.
#[derive(Clone, Debug, PartialEq, Eq)]
pub struct Adapter {
    /// The adapter is operational.
    pub is_up: bool,
    /// The adapter is an Ethernet one.
    pub is_ethernet: bool,
    /// The DNS servers of the adapter, in the order in which it lists them.
    pub dns_servers: Vec<ServerAddress>,
}

/// The server that queries go to where the system names none: 8.8.8.8.
pub open spec fn spec_default_server() -> ServerAddress {
    ServerAddress::V4(8, 8, 8, 8)
}

/// The server that queries go to where the system names none.
pub fn default_server() -> (server: ServerAddress)
    ensures
        server == spec_default_server(),
{
    ServerAddress::V4(8, 8, 8, 8)
}

/// An adapter's servers are looked at: it is up and an Ethernet adapter.
pub open spec fn is_candidate(adapter: Adapter) -> bool {
    adapter.is_up && adapter.is_ethernet
}

/// The server `server` of the adapter `adapter` can be chosen: the adapter is
/// a candidate and the server has an IPv4 address.
pub open spec fn can_choose(adapters: Seq<Adapter>, adapter: int, server: int) -> bool {
    &&& 0 <= adapter < adapters.len()
    &&& is_candidate(adapters[adapter])
    &&& 0 <= server < adapters[adapter].dns_servers@.len()
    &&& adapters[adapter].dns_servers@[server] is V4
}

/// The place `(adapter, server)` comes before the place `(a, s)`.
pub open spec fn comes_before(adapter: int, server: int, a: int, s: int) -> bool {
    adapter < a || (adapter == a && server < s)
}

/// Chooses the system's DNS server: the first IPv4 server of the first
/// adapter that is up, is an Ethernet adapter and has one. Returns the
/// places of the adapter and of the server, or nothing where no adapter has
/// such a server.
pub fn select_server(adapters: &Vec<Adapter>) -> (r: Option<(usize, usize)>)
    ensures
        match r {
            Some((adapter, server)) => can_choose(adapters@, adapter as int, server as int)
                && forall|a: int, s: int|
                comes_before(a, s, adapter as int, server as int) ==> !#[trigger] can_choose(
                    adapters@,
                    a,
                    s,
                ),
            None => forall|a: int, s: int| !#[trigger] can_choose(adapters@, a, s),
        },
{
    let mut i: usize = 0;
    while i < adapters.len()
        invariant
            i <= adapters@.len(),
            forall|a: int, s: int| a < i ==> !#[trigger] can_choose(adapters@, a, s),
        decreases adapters@.len() - i,
    {
        let adapter = &adapters[i];
        if adapter.is_up && adapter.is_ethernet {
            let mut j: usize = 0;
            while j < adapter.dns_servers.len()
                invariant
                    i < adapters@.len(),
                    *adapter == adapters@[i as int],
                    is_candidate(*adapter),
                    j <= adapter.dns_servers@.len(),
                    forall|a: int, s: int| a < i ==> !#[trigger] can_choose(adapters@, a, s),
                    forall|s: int| s < j ==> !#[trigger] can_choose(adapters@, i as int, s),
                decreases adapter.dns_servers@.len() - j,
            {
                match adapter.dns_servers[j] {
                    ServerAddress::V4(_, _, _, _) => {
                        return Some((i, j));
                    },
                    ServerAddress::V6 => {},
                }
                j += 1;
            }
        }
        i += 1;
    }
    None
}

/// The address that queries go to: the system's DNS server as `select_server`
/// chooses it, or the default where it chooses none.
pub fn system_server(adapters: &Vec<Adapter>) -> (server: ServerAddress)
    ensures
        server is V4,
        (forall|a: int, s: int| !#[trigger] can_choose(adapters@, a, s)) ==> server
            == spec_default_server(),
        (exists|a: int, s: int| #[trigger] can_choose(adapters@, a, s)) ==> exists|
            a: int,
            s: int,
        |
            #[trigger] can_choose(adapters@, a, s) && server == adapters@[a].dns_servers@[s]
                && forall|b: int, t: int|
                comes_before(b, t, a, s) ==> !#[trigger] can_choose(adapters@, b, t),
{
    match select_server(adapters) {
        Some((adapter, server)) => adapters[adapter].dns_servers[server],
        None => default_server(),
    }
}

} // verus!
