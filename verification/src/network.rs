//! A simulated datagram network: nodes with IP addresses, bound sockets,
//! clogged nodes and links, packet loss and latency.

use vstd::prelude::*;
use std::collections::{HashMap, HashSet};
use crate::addr::{IpAddr, SocketAddr, spec_is_unspecified, spec_is_loopback};
use crate::mailbox::{Mailbox, Message, RecvOutcome, spec_deliver_from};
use crate::rand::GlobalRng;
use crate::time::{Duration, Instant};

verus! {

broadcast use vstd::std_specs::hash::group_hash_axioms;

/// Network configurations.
#[derive(Clone, Copy, Debug, PartialEq, Eq, Structural)]
pub struct NetConfig {
    /// Possibility of packet loss: `loss_numerator / loss_denominator`.
    pub loss_numerator: u32,
    pub loss_denominator: u32,
    /// The latency range of sending packets: `latency_min..latency_max`.
    pub latency_min: Duration,
    pub latency_max: Duration,
}

impl NetConfig {
    /// A configuration is usable when its loss rate is a probability and its
    /// latency range is not empty.
    pub open spec fn wf(&self) -> bool {
        &&& 0 < self.loss_denominator
        &&& self.loss_numerator <= self.loss_denominator
        &&& self.latency_min.nanos < self.latency_max.nanos
    }

    /// No packet loss, and a latency of 1 ms up to 10 ms.
    pub fn default() -> (c: NetConfig)
        ensures
            c.wf(),
            c.loss_numerator == 0,
            c.latency_min.nanos == 1_000_000,
            c.latency_max.nanos == 10_000_000,
    {
        NetConfig {
            loss_numerator: 0,
            loss_denominator: 1,
            latency_min: Duration { nanos: 1_000_000 },
            latency_max: Duration { nanos: 10_000_000 },
        }
    }
}

/// The default send latency range: 1 ms up to 10 ms.
pub fn default_send_latency() -> (r: (Duration, Duration))
    ensures
        r.0.nanos == 1_000_000,
        r.1.nanos == 10_000_000,
{
    (Duration { nanos: 1_000_000 }, Duration { nanos: 10_000_000 })
}

/// Network statistics.
#[derive(Clone, Copy, Debug, PartialEq, Eq, Structural, Default)]
pub struct Stat {
    /// Total number of messages.
    pub msg_count: u64,
}

/// Why a socket could not be bound.
#[derive(Clone, Copy, Debug, PartialEq, Eq, Structural)]
pub enum BindError {
    /// The address is neither unspecified, loopback, nor the node's own.
    AddrNotAvailable,
    /// The port is taken, or no ephemeral port is left.
    AddrInUse,
}

/// Why none of several addresses could be bound.
#[derive(Clone, Copy, Debug, PartialEq, Eq, Structural)]
pub enum BindAnyError {
    /// No address was given: "could not resolve to any addresses".
    InvalidInput,
    /// The error of the last address tried.
    Bind(BindError),
}

/// A bound socket: its identity and its mailbox.
pub struct Socket {
    pub id: u64,
    pub mailbox: Mailbox,
}

/// The network of one node.
pub struct NetNode {
    /// IP address of the node, at most one.
    pub ip: Option<IpAddr>,
    /// Sockets of the node, by port.
    pub sockets: HashMap<u16, Socket>,
}

/// A message on its way: it reaches socket `socket` of `node` on `port` at `at`.
#[derive(Debug)]
pub struct Delivery {
    pub at: Instant,
    pub node: u64,
    pub port: u16,
    pub socket: u64,
    pub msg: Message,
}

/// The owner of `ip` in the table `t`, if any.
pub open spec fn table_owner(t: Seq<(IpAddr, u64)>, ip: IpAddr) -> Option<u64> {
    if exists|i: int| 0 <= i < t.len() && t[i].0 == ip {
        Some(t[choose|i: int| 0 <= i < t.len() && t[i].0 == ip].1)
    } else {
        None
    }
}

/// No address appears twice in the table.
pub open spec fn table_unique(t: Seq<(IpAddr, u64)>) -> bool {
    forall|i: int, j: int| 0 <= i < j < t.len() ==> t[i].0 != t[j].0
}

/// The position of `ip` in the table, if present.
fn table_find(t: &Vec<(IpAddr, u64)>, ip: IpAddr) -> (r: Option<usize>)
    requires
        table_unique(t@),
    ensures
        match r {
            Some(i) => i < t@.len() && t@[i as int].0 == ip && table_owner(t@, ip) == Some(t@[i as int].1),
            None => table_owner(t@, ip) is None,
        },
{
    let mut i: usize = 0;
    while i < t.len()
        invariant
            i <= t@.len(),
            table_unique(t@),
            forall|j: int| 0 <= j < i ==> t@[j].0 != ip,
        decreases t@.len() - i,
    {
        if t[i].0.same(&ip) {
            proof {
                let k = choose|k: int| 0 <= k < t@.len() && t@[k].0 == ip;
                assert(k == i as int);
            }
            return Some(i);
        }
        i = i + 1;
    }
    None
}

/// Removing the entry at `i` from a table with unique addresses forgets that
/// address and keeps every other owner.
proof fn lemma_table_remove(t: Seq<(IpAddr, u64)>, i: int)
    requires
        table_unique(t),
        0 <= i < t.len(),
    ensures
        table_unique(t.remove(i)),
        table_owner(t.remove(i), t[i].0) is None,
        forall|ip: IpAddr| ip != t[i].0 ==> table_owner(t.remove(i), ip) == table_owner(t, ip),
{
    let r = t.remove(i);
    assert forall|ip: IpAddr| ip != t[i].0 implies table_owner(r, ip) == table_owner(t, ip) by {
        if exists|k: int| 0 <= k < t.len() && t[k].0 == ip {
            let k = choose|k: int| 0 <= k < t.len() && t[k].0 == ip;
            let kr = if k < i { k } else { k - 1 };
            assert(r[kr] == t[k]);
            let k2 = choose|k2: int| 0 <= k2 < r.len() && r[k2].0 == ip;
            assert(r[k2] == t[if k2 < i { k2 } else { k2 + 1 }]);
        } else {
            if exists|k2: int| 0 <= k2 < r.len() && r[k2].0 == ip {
                let k2 = choose|k2: int| 0 <= k2 < r.len() && r[k2].0 == ip;
                assert(r[k2] == t[if k2 < i { k2 } else { k2 + 1 }]);
            }
        }
    }
    if exists|k2: int| 0 <= k2 < r.len() && r[k2].0 == t[i].0 {
        let k2 = choose|k2: int| 0 <= k2 < r.len() && r[k2].0 == t[i].0;
        assert(r[k2] == t[if k2 < i { k2 } else { k2 + 1 }]);
    }
}

/// Adding an address that has no owner makes `id` its owner and keeps every
/// other owner.
proof fn lemma_table_push(t: Seq<(IpAddr, u64)>, ip: IpAddr, id: u64)
    requires
        table_unique(t),
        table_owner(t, ip) is None,
    ensures
        table_unique(t.push((ip, id))),
        table_owner(t.push((ip, id)), ip) == Some(id),
        forall|other: IpAddr| other != ip ==> table_owner(t.push((ip, id)), other) == table_owner(t, other),
{
    let r = t.push((ip, id));
    assert(r[t.len() as int] == (ip, id));
    let k = choose|k: int| 0 <= k < r.len() && r[k].0 == ip;
    if k < t.len() {
        assert(r[k] == t[k]);
    }
    assert forall|other: IpAddr| other != ip implies table_owner(r, other) == table_owner(t, other) by {
        if exists|k: int| 0 <= k < t.len() && t[k].0 == other {
            let k = choose|k: int| 0 <= k < t.len() && t[k].0 == other;
            assert(r[k] == t[k]);
            let k2 = choose|k2: int| 0 <= k2 < r.len() && r[k2].0 == other;
            assert(k2 < t.len());
            assert(r[k2] == t[k2]);
        } else {
            if exists|k2: int| 0 <= k2 < r.len() && r[k2].0 == other {
                let k2 = choose|k2: int| 0 <= k2 < r.len() && r[k2].0 == other;
                assert(r[k2] == t[k2]);
            }
        }
    }
}

/// The position of `link` in `links`, if present.
fn link_find(links: &Vec<(u64, u64)>, link: (u64, u64)) -> (r: Option<usize>)
    ensures
        match r {
            Some(i) => i < links@.len() && links@[i as int] == link,
            None => !links@.contains(link),
        },
{
    let mut i: usize = 0;
    while i < links.len()
        invariant
            i <= links@.len(),
            forall|j: int| 0 <= j < i ==> links@[j] != link,
        decreases links@.len() - i,
    {
        if links[i].0 == link.0 && links[i].1 == link.1 {
            return Some(i);
        }
        i = i + 1;
    }
    None
}

/// The lowest port from 1 up that `ports` does not hold, if any.
pub open spec fn spec_free_port(ports: Set<u16>) -> Option<u16> {
    if exists|p: u16| 1 <= p && !ports.contains(p) && forall|q: u16| 1 <= q < p ==> ports.contains(q) {
        Some(choose|p: u16| 1 <= p && !ports.contains(p) && forall|q: u16| 1 <= q < p ==> ports.contains(q))
    } else {
        None
    }
}

/// Whether a node with address `node_ip` may bind `addr`: an unspecified or
/// loopback address, or the node's own.
pub open spec fn spec_bind_allowed(node_ip: Option<IpAddr>, addr: SocketAddr) -> bool {
    spec_is_unspecified(addr.ip) || spec_is_loopback(addr.ip) || node_ip == Some(addr.ip)
}

/// The outcome of binding `addr` on a node with address `node_ip` and bound `ports`.
pub open spec fn spec_bind(node_ip: Option<IpAddr>, ports: Set<u16>, addr: SocketAddr) -> Result<SocketAddr, BindError> {
    if !spec_bind_allowed(node_ip, addr) {
        Err(BindError::AddrNotAvailable)
    } else if addr.port == 0 {
        match spec_free_port(ports) {
            Some(p) => Ok(SocketAddr { ip: addr.ip, port: p }),
            None => Err(BindError::AddrInUse),
        }
    } else if ports.contains(addr.port) {
        Err(BindError::AddrInUse)
    } else {
        Ok(SocketAddr { ip: addr.ip, port: addr.port })
    }
}

/// A message is blocked exactly when its sending node, its receiving node
/// or the link from one to the other is clogged.
pub proof fn clogs_block_exactly(net: Network, node: u64, dst_node: u64)
    ensures
        net.spec_clogged_nodes().contains(node) ==> net.spec_clogged(node, dst_node),
        net.spec_clogged_nodes().contains(dst_node) ==> net.spec_clogged(node, dst_node),
        net.spec_clogged_links().contains((node, dst_node)) ==> net.spec_clogged(node, dst_node),
        net.spec_clogged(node, dst_node) ==> net.spec_clogged_nodes().contains(node)
            || net.spec_clogged_nodes().contains(dst_node) || net.spec_clogged_links().contains((node, dst_node)),
{
}

/// Clogging a node cuts it off both ways: after it, every message from it
/// and every message to it is blocked, whatever the other node.
pub proof fn clogged_node_is_cut_off(before: Network, after: Network, id: u64, other: u64)
    requires
        after.spec_clogged_nodes() == before.spec_clogged_nodes().insert(id),
    ensures
        after.spec_clogged(id, other),
        after.spec_clogged(other, id),
{
    assert(after.spec_clogged_nodes().contains(id));
}

/// A bind never hands out a port that is taken, nor port zero, and binds
/// the address it was asked for when that names a port.
pub proof fn bound_port_was_free(node_ip: Option<IpAddr>, ports: Set<u16>, addr: SocketAddr)
    ensures
        spec_bind(node_ip, ports, addr) matches Ok(a) ==> {
            &&& !ports.contains(a.port)
            &&& a.port != 0
            &&& addr.port != 0 ==> a.port == addr.port
        },
{
}

/// The lowest port from 1 up that `sockets` does not hold.
fn find_free_port(sockets: &HashMap<u16, Socket>) -> (r: Option<u16>)
    ensures
        r == spec_free_port(sockets@.dom()),
{
    let mut p: u32 = 1;
    while p <= 65535
        invariant
            1 <= p <= 65536,
            forall|q: u16| 1 <= q < p ==> sockets@.dom().contains(q),
        decreases 65536 - p,
    {
        if !sockets.contains_key(&(p as u16)) {
            let port = p as u16;
            proof {
                let c = choose|c: u16| 1 <= c && !sockets@.dom().contains(c) && forall|q: u16| 1 <= q < c ==> sockets@.dom().contains(q);
                if c < port {
                } else if c > port {
                    assert(sockets@.dom().contains(port));
                }
            }
            return Some(port);
        }
        p = p + 1;
    }
    None
}

/// A simulated network.
pub struct Network {
    config: NetConfig,
    stat: Stat,
    nodes: HashMap<u64, NetNode>,
    /// Maps each global IP to its node.
    addr_to_node: Vec<(IpAddr, u64)>,
    clogged_node: HashSet<u64>,
    clogged_link: Vec<(u64, u64)>,
    next_socket: u64,
}

impl Network {
    /// The configuration.
    pub closed spec fn spec_config(&self) -> NetConfig {
        self.config
    }

    /// The statistics.
    pub closed spec fn spec_stat(&self) -> Stat {
        self.stat
    }

    /// The nodes of the network.
    pub closed spec fn spec_nodes(&self) -> Map<u64, NetNode> {
        self.nodes@
    }

    /// The node that owns `ip`, if any.
    pub closed spec fn spec_owner(&self, ip: IpAddr) -> Option<u64> {
        table_owner(self.addr_to_node@, ip)
    }

    /// The clogged nodes.
    pub closed spec fn spec_clogged_nodes(&self) -> Set<u64> {
        self.clogged_node@
    }

    /// The clogged links, from source to destination.
    pub closed spec fn spec_clogged_links(&self) -> Set<(u64, u64)> {
        self.clogged_link@.to_set()
    }

    /// The id the next bound socket gets.
    pub closed spec fn spec_next_socket(&self) -> u64 {
        self.next_socket
    }

    /// The bound ports of node `id`.
    pub open spec fn spec_ports(&self, id: u64) -> Set<u16> {
        self.spec_nodes()[id].sockets@.dom()
    }

    /// The invariant: the configuration is usable, addresses are unique,
    /// and links are not listed twice.
    pub closed spec fn wf(&self) -> bool {
        &&& self.config.wf()
        &&& table_unique(self.addr_to_node@)
        &&& self.clogged_link@.no_duplicates()
    }

    /// Whether a message from `node` to `dst_node` is blocked by a clog.
    pub open spec fn spec_clogged(&self, node: u64, dst_node: u64) -> bool {
        self.spec_clogged_nodes().contains(node) || self.spec_clogged_nodes().contains(dst_node)
            || self.spec_clogged_links().contains((node, dst_node))
    }

    /// An empty network with the given configuration.
    pub fn new(config: NetConfig) -> (n: Network)
        requires
            config.wf(),
        ensures
            n.wf(),
            n.spec_config() == config,
            n.spec_stat().msg_count == 0,
            n.spec_nodes() == Map::<u64, NetNode>::empty(),
            forall|ip: IpAddr| n.spec_owner(ip) is None,
            n.spec_clogged_nodes() == Set::<u64>::empty(),
            n.spec_clogged_links() == Set::<(u64, u64)>::empty(),
    {
        let n = Network {
            config,
            stat: Stat { msg_count: 0 },
            nodes: HashMap::new(),
            addr_to_node: Vec::new(),
            clogged_node: HashSet::new(),
            clogged_link: Vec::new(),
            next_socket: 0,
        };
        assert(n.clogged_link@.to_set() =~= Set::<(u64, u64)>::empty());
        n
    }

    /// Replaces the configuration.
    pub fn update_config(&mut self, config: NetConfig)
        requires
            old(self).wf(),
            config.wf(),
        ensures
            final(self).wf(),
            final(self).spec_config() == config,
            final(self).spec_stat() == old(self).spec_stat(),
            final(self).spec_nodes() == old(self).spec_nodes(),
            forall|ip: IpAddr| final(self).spec_owner(ip) == old(self).spec_owner(ip),
            final(self).spec_clogged_nodes() == old(self).spec_clogged_nodes(),
            final(self).spec_clogged_links() == old(self).spec_clogged_links(),
    {
        self.config = config;
    }

    /// Adds node `id` with no address and no sockets, replacing any node
    /// of that id.
    pub fn insert_node(&mut self, id: u64)
        requires
            old(self).wf(),
        ensures
            final(self).wf(),
            final(self).spec_nodes().dom() == old(self).spec_nodes().dom().insert(id),
            final(self).spec_nodes()[id].ip is None,
            final(self).spec_ports(id) == Set::<u16>::empty(),
            forall|n: u64| n != id && old(self).spec_nodes().contains_key(n) ==> final(self).spec_nodes()[n] == old(self).spec_nodes()[n],
            forall|ip: IpAddr| final(self).spec_owner(ip) == old(self).spec_owner(ip),
            final(self).spec_clogged_nodes() == old(self).spec_clogged_nodes(),
            final(self).spec_clogged_links() == old(self).spec_clogged_links(),
            final(self).spec_config() == old(self).spec_config(),
            final(self).spec_stat() == old(self).spec_stat(),
    {
        self.nodes.insert(id, NetNode { ip: None, sockets: HashMap::new() });
    }

    /// The configuration.
    pub fn config(&self) -> (c: NetConfig)
        ensures
            c == self.spec_config(),
    {
        self.config
    }

    /// Whether a message from `node` to `dst_node` is blocked by a clog.
    pub fn is_clogged(&self, node: u64, dst_node: u64) -> (b: bool)
        requires
            self.wf(),
        ensures
            b == self.spec_clogged(node, dst_node),
    {
        self.clogged_node.contains(&node) || self.clogged_node.contains(&dst_node)
            || link_find(&self.clogged_link, (node, dst_node)).is_some()
    }

    /// The address of node `node`, if the node exists.
    pub fn node_ip(&self, node: u64) -> (r: Option<Option<IpAddr>>)
        ensures
            r == (if self.spec_nodes().contains_key(node) { Some(self.spec_nodes()[node].ip) } else { None }),
    {
        match self.nodes.get(&node) {
            Some(n) => Some(n.ip),
            None => None,
        }
    }

    /// Whether node `node` exists and has a socket on `port`.
    pub fn has_socket(&self, node: u64, port: u16) -> (b: bool)
        ensures
            b == (self.spec_nodes().contains_key(node) && self.spec_ports(node).contains(port)),
    {
        match self.nodes.get(&node) {
            Some(n) => n.sockets.contains_key(&port),
            None => false,
        }
    }

    /// The node that owns `ip`, if any.
    pub fn owner(&self, ip: IpAddr) -> (r: Option<u64>)
        requires
            self.wf(),
        ensures
            r == self.spec_owner(ip),
    {
        match table_find(&self.addr_to_node, ip) {
            Some(i) => Some(self.addr_to_node[i].1),
            None => None,
        }
    }

    /// Closes all sockets of node `id`. The node must exist.
    pub fn reset_node(&mut self, id: u64)
        requires
            old(self).wf(),
            old(self).spec_nodes().contains_key(id),
        ensures
            final(self).wf(),
            final(self).spec_nodes().dom() == old(self).spec_nodes().dom(),
            final(self).spec_nodes()[id].ip == old(self).spec_nodes()[id].ip,
            final(self).spec_ports(id) == Set::<u16>::empty(),
            forall|n: u64| n != id && old(self).spec_nodes().contains_key(n) ==> final(self).spec_nodes()[n] == old(self).spec_nodes()[n],
            forall|ip: IpAddr| final(self).spec_owner(ip) == old(self).spec_owner(ip),
            final(self).spec_clogged_nodes() == old(self).spec_clogged_nodes(),
            final(self).spec_clogged_links() == old(self).spec_clogged_links(),
            final(self).spec_config() == old(self).spec_config(),
            final(self).spec_stat() == old(self).spec_stat(),
    {
        let node = self.nodes.remove(&id);
        let mut node = node.unwrap();
        node.sockets.clear();
        self.nodes.insert(id, node);
        assert(self.nodes@.dom() =~= old(self).nodes@.dom());
    }

    /// Sets the IP address of node `id`, releasing its previous one. The node
    /// must exist and the address must not be held by another node.
    pub fn set_ip(&mut self, id: u64, ip: IpAddr)
        requires
            old(self).wf(),
            old(self).spec_nodes().contains_key(id),
            old(self).spec_owner(ip) is None || old(self).spec_nodes()[id].ip == Some(ip),
        ensures
            final(self).wf(),
            final(self).spec_nodes().dom() == old(self).spec_nodes().dom(),
            final(self).spec_nodes()[id].ip == Some(ip),
            final(self).spec_ports(id) == old(self).spec_ports(id),
            forall|n: u64| n != id && old(self).spec_nodes().contains_key(n) ==> final(self).spec_nodes()[n] == old(self).spec_nodes()[n],
            final(self).spec_owner(ip) == Some(id),
            forall|other: IpAddr| other != ip && Some(other) != old(self).spec_nodes()[id].ip
                ==> final(self).spec_owner(other) == old(self).spec_owner(other),
            forall|other: IpAddr| other != ip && Some(other) == old(self).spec_nodes()[id].ip
                ==> final(self).spec_owner(other) is None,
            final(self).spec_clogged_nodes() == old(self).spec_clogged_nodes(),
            final(self).spec_clogged_links() == old(self).spec_clogged_links(),
            final(self).spec_config() == old(self).spec_config(),
            final(self).spec_stat() == old(self).spec_stat(),
    {
        let node = self.nodes.remove(&id);
        let mut node = node.unwrap();
        let old_ip = node.ip;
        node.ip = Some(ip);
        self.nodes.insert(id, node);
        assert(self.nodes@.dom() =~= old(self).nodes@.dom());
        match old_ip {
            Some(o) => {
                match table_find(&self.addr_to_node, o) {
                    Some(i) => {
                        proof { lemma_table_remove(self.addr_to_node@, i as int); }
                        self.addr_to_node.remove(i);
                    },
                    None => {},
                }
            },
            None => {},
        }
        proof { lemma_table_push(self.addr_to_node@, ip, id); }
        self.addr_to_node.push((ip, id));
    }

    /// Clogs node `id`: nothing leaves or reaches it. The node must exist.
    pub fn clog_node(&mut self, id: u64)
        requires
            old(self).wf(),
            old(self).spec_nodes().contains_key(id),
        ensures
            final(self).wf(),
            final(self).spec_clogged_nodes() == old(self).spec_clogged_nodes().insert(id),
            final(self).spec_clogged_links() == old(self).spec_clogged_links(),
            final(self).spec_nodes() == old(self).spec_nodes(),
            forall|ip: IpAddr| final(self).spec_owner(ip) == old(self).spec_owner(ip),
            final(self).spec_config() == old(self).spec_config(),
            final(self).spec_stat() == old(self).spec_stat(),
    {
        self.clogged_node.insert(id);
    }

    /// Unclogs node `id`. The node must exist.
    pub fn unclog_node(&mut self, id: u64)
        requires
            old(self).wf(),
            old(self).spec_nodes().contains_key(id),
        ensures
            final(self).wf(),
            final(self).spec_clogged_nodes() == old(self).spec_clogged_nodes().remove(id),
            final(self).spec_clogged_links() == old(self).spec_clogged_links(),
            final(self).spec_nodes() == old(self).spec_nodes(),
            forall|ip: IpAddr| final(self).spec_owner(ip) == old(self).spec_owner(ip),
            final(self).spec_config() == old(self).spec_config(),
            final(self).spec_stat() == old(self).spec_stat(),
    {
        self.clogged_node.remove(&id);
    }

    /// Clogs the link from `src` to `dst`. The node must exist.
    pub fn clog_link(&mut self, src: u64, dst: u64)
        requires
            old(self).wf(),
            old(self).spec_nodes().contains_key(src),
            old(self).spec_nodes().contains_key(dst),
        ensures
            final(self).wf(),
            final(self).spec_clogged_links() == old(self).spec_clogged_links().insert((src, dst)),
            final(self).spec_clogged_nodes() == old(self).spec_clogged_nodes(),
            final(self).spec_nodes() == old(self).spec_nodes(),
            forall|ip: IpAddr| final(self).spec_owner(ip) == old(self).spec_owner(ip),
            final(self).spec_config() == old(self).spec_config(),
            final(self).spec_stat() == old(self).spec_stat(),
    {
        match link_find(&self.clogged_link, (src, dst)) {
            Some(_) => {
                assert(self.clogged_link@.to_set() =~= old(self).clogged_link@.to_set().insert((src, dst)));
            },
            None => {
                self.clogged_link.push((src, dst));
                assert(self.clogged_link@.to_set() =~= old(self).clogged_link@.to_set().insert((src, dst))) by {
                    assert forall|l: (u64, u64)| self.clogged_link@.contains(l) == (old(self).clogged_link@.contains(l) || l == (src, dst)) by {
                        if old(self).clogged_link@.contains(l) {
                            let k = choose|k: int| 0 <= k < old(self).clogged_link@.len() && old(self).clogged_link@[k] == l;
                            assert(self.clogged_link@[k] == l);
                        }
                        if l == (src, dst) {
                            assert(self.clogged_link@[old(self).clogged_link@.len() as int] == l);
                        }
                    }
                }
            },
        }
    }

    /// Unclogs the link from `src` to `dst`. The node must exist.
    pub fn unclog_link(&mut self, src: u64, dst: u64)
        requires
            old(self).wf(),
            old(self).spec_nodes().contains_key(src),
            old(self).spec_nodes().contains_key(dst),
        ensures
            final(self).wf(),
            final(self).spec_clogged_links() == old(self).spec_clogged_links().remove((src, dst)),
            final(self).spec_clogged_nodes() == old(self).spec_clogged_nodes(),
            final(self).spec_nodes() == old(self).spec_nodes(),
            forall|ip: IpAddr| final(self).spec_owner(ip) == old(self).spec_owner(ip),
            final(self).spec_config() == old(self).spec_config(),
            final(self).spec_stat() == old(self).spec_stat(),
    {
        match link_find(&self.clogged_link, (src, dst)) {
            Some(i) => {
                let ghost before = self.clogged_link@;
                self.clogged_link.remove(i);
                proof {
                    let after = self.clogged_link@;
                    assert(after.no_duplicates()) by {
                        assert forall|a: int, b: int| 0 <= a < b < after.len() implies after[a] != after[b] by {
                            let a2 = if a < i { a } else { a + 1 };
                            let b2 = if b < i { b } else { b + 1 };
                            assert(after[a] == before[a2]);
                            assert(after[b] == before[b2]);
                        }
                    }
                    assert(after.to_set() =~= before.to_set().remove((src, dst))) by {
                        assert forall|l: (u64, u64)| after.contains(l) == (before.contains(l) && l != (src, dst)) by {
                            if after.contains(l) {
                                let k = choose|k: int| 0 <= k < after.len() && after[k] == l;
                                let k2 = if k < i { k } else { k + 1 };
                                assert(after[k] == before[k2]);
                                assert(k2 != i);
                            }
                            if before.contains(l) && l != (src, dst) {
                                let k = choose|k: int| 0 <= k < before.len() && before[k] == l;
                                assert(k != i);
                                let k2 = if k < i { k } else { k - 1 };
                                assert(after[k2] == before[k]);
                            }
                        }
                    }
                }
            },
            None => {
                assert(self.clogged_link@.to_set() =~= old(self).clogged_link@.to_set().remove((src, dst)));
            },
        }
    }

    /// Binds a socket of `node` to `addr`: an unspecified or loopback address,
    /// or the node's own, with a zero port resolved to the lowest free one. The
    /// bound address keeps the IP it was asked for. The node must exist, and
    /// must have an IP when the address is neither unspecified nor loopback.
    pub fn bind(&mut self, node: u64, addr: SocketAddr) -> (r: Result<SocketAddr, BindError>)
        requires
            old(self).wf(),
            old(self).spec_nodes().contains_key(node),
            !spec_is_unspecified(addr.ip) && !spec_is_loopback(addr.ip) ==> old(self).spec_nodes()[node].ip is Some,
        ensures
            final(self).wf(),
            r == spec_bind(old(self).spec_nodes()[node].ip, old(self).spec_ports(node), addr),
            final(self).spec_nodes().dom() == old(self).spec_nodes().dom(),
            final(self).spec_nodes()[node].ip == old(self).spec_nodes()[node].ip,
            match r {
                Ok(a) => {
                    &&& final(self).spec_ports(node) == old(self).spec_ports(node).insert(a.port)
                    &&& final(self).spec_nodes()[node].sockets@[a.port].id == old(self).spec_next_socket()
                    &&& final(self).spec_nodes()[node].sockets@[a.port].mailbox.spec_msgs().len() == 0
                    &&& final(self).spec_nodes()[node].sockets@[a.port].mailbox.spec_registered().len() == 0
                    &&& forall|p: u16| p != a.port && old(self).spec_ports(node).contains(p)
                        ==> final(self).spec_nodes()[node].sockets@[p] == old(self).spec_nodes()[node].sockets@[p]
                    &&& final(self).spec_next_socket() == old(self).spec_next_socket().wrapping_add(1)
                },
                Err(_) => final(self).spec_nodes()[node] == old(self).spec_nodes()[node]
                    && final(self).spec_next_socket() == old(self).spec_next_socket(),
            },
            forall|n: u64| n != node && old(self).spec_nodes().contains_key(n) ==> final(self).spec_nodes()[n] == old(self).spec_nodes()[n],
            forall|ip: IpAddr| final(self).spec_owner(ip) == old(self).spec_owner(ip),
            final(self).spec_clogged_nodes() == old(self).spec_clogged_nodes(),
            final(self).spec_clogged_links() == old(self).spec_clogged_links(),
            final(self).spec_config() == old(self).spec_config(),
            final(self).spec_stat() == old(self).spec_stat(),
    {
        let n = self.nodes.get(&node).unwrap();
        let node_ip = n.ip;
        let ip = addr.ip;
        if addr.ip.is_unspecified() {
        } else if addr.ip.is_loopback() {
        } else if !addr.ip.same(&node_ip.unwrap()) {
            return Err(BindError::AddrNotAvailable);
        }
        let mut port = addr.port;
        if port == 0 {
            match find_free_port(&n.sockets) {
                Some(p) => port = p,
                None => return Err(BindError::AddrInUse),
            }
        }
        if n.sockets.contains_key(&port) {
            return Err(BindError::AddrInUse);
        }
        let id = self.next_socket;
        let mut entry = self.nodes.remove(&node).unwrap();
        entry.sockets.insert(port, Socket { id, mailbox: Mailbox::new() });
        self.nodes.insert(node, entry);
        self.next_socket = self.next_socket.wrapping_add(1);
        assert(self.nodes@.dom() =~= old(self).nodes@.dom());
        assert(self.nodes@[node].sockets@.dom() =~= old(self).nodes@[node].sockets@.dom().insert(port));
        Ok(SocketAddr { ip, port })
    }

    /// Closes the socket of `node` bound to `addr`'s port, if any. The node
    /// must exist.
    pub fn close(&mut self, node: u64, addr: SocketAddr)
        requires
            old(self).wf(),
            old(self).spec_nodes().contains_key(node),
        ensures
            final(self).wf(),
            final(self).spec_nodes().dom() == old(self).spec_nodes().dom(),
            final(self).spec_nodes()[node].ip == old(self).spec_nodes()[node].ip,
            final(self).spec_ports(node) == old(self).spec_ports(node).remove(addr.port),
            forall|p: u16| p != addr.port && old(self).spec_ports(node).contains(p)
                ==> final(self).spec_nodes()[node].sockets@[p] == old(self).spec_nodes()[node].sockets@[p],
            forall|n: u64| n != node && old(self).spec_nodes().contains_key(n) ==> final(self).spec_nodes()[n] == old(self).spec_nodes()[n],
            forall|ip: IpAddr| final(self).spec_owner(ip) == old(self).spec_owner(ip),
            final(self).spec_clogged_nodes() == old(self).spec_clogged_nodes(),
            final(self).spec_clogged_links() == old(self).spec_clogged_links(),
            final(self).spec_config() == old(self).spec_config(),
            final(self).spec_stat() == old(self).spec_stat(),
            final(self).spec_next_socket() == old(self).spec_next_socket(),
    {
        let mut entry = self.nodes.remove(&node).unwrap();
        entry.sockets.remove(&addr.port);
        self.nodes.insert(node, entry);
        assert(self.nodes@.dom() =~= old(self).nodes@.dom());
    }

    /// Sends `data` with `tag` from `src` on `node` to `dst`, at time `now`.
    /// The message is dropped when no node owns the destination IP, when either
    /// node or the link is clogged, or when the packet is lost; otherwise it is
    /// due at its destination socket after a random latency. A destination node
    /// that is reached must have a socket on the port.
    pub fn send(
        &mut self,
        rng: &mut GlobalRng,
        node: u64,
        src: SocketAddr,
        dst: SocketAddr,
        tag: u64,
        data: Vec<u8>,
        now: Instant,
    ) -> (r: Option<Delivery>)
        requires
            old(self).wf(),
            old(rng).wf(),
            now.nanos + old(self).spec_config().latency_max.nanos <= u64::MAX,
            old(self).spec_stat().msg_count < u64::MAX,
            match old(self).spec_owner(dst.ip) {
                Some(dn) => !old(self).spec_clogged(node, dn) ==> old(self).spec_nodes().contains_key(dn)
                    && old(self).spec_ports(dn).contains(dst.port),
                None => true,
            },
        ensures
            final(self).wf(),
            final(self).spec_nodes() == old(self).spec_nodes(),
            forall|ip: IpAddr| final(self).spec_owner(ip) == old(self).spec_owner(ip),
            final(self).spec_clogged_nodes() == old(self).spec_clogged_nodes(),
            final(self).spec_clogged_links() == old(self).spec_clogged_links(),
            final(self).spec_config() == old(self).spec_config(),
            final(self).spec_next_socket() == old(self).spec_next_socket(),
            final(rng).wf(),
            final(rng).spec_seed() == old(rng).spec_seed(),
            old(self).spec_clogged_nodes().contains(node) ==> r is None && *final(rng) == *old(rng)
                && final(self).spec_stat() == old(self).spec_stat(),
            match old(self).spec_owner(dst.ip) {
                None => r is None && final(self).spec_stat() == old(self).spec_stat() && *final(rng) == *old(rng),
                Some(dn) => if old(self).spec_clogged(node, dn) {
                    r is None && final(self).spec_stat() == old(self).spec_stat() && *final(rng) == *old(rng)
                } else {
                    &&& old(self).spec_config().loss_numerator == 0 ==> r is Some
                    &&& old(self).spec_config().loss_numerator == old(self).spec_config().loss_denominator ==> r is None
                    &&& match r {
                        Some(d) => {
                            &&& old(self).spec_config().latency_min.nanos <= d.at.nanos - now.nanos < old(self).spec_config().latency_max.nanos
                            &&& d.node == dn
                            &&& d.port == dst.port
                            &&& d.socket == old(self).spec_nodes()[dn].sockets@[dst.port].id
                            &&& d.msg.tag == tag && d.msg.data@ == data@ && d.msg.from == src
                            &&& final(self).spec_stat().msg_count == old(self).spec_stat().msg_count + 1
                        },
                        None => final(self).spec_stat() == old(self).spec_stat(),
                    }
                    &&& {
                        let (lost, s1) = crate::rand::xoshiro_gen_ratio_of(old(rng).spec_stream(),
                            old(self).spec_config().loss_numerator, old(self).spec_config().loss_denominator);
                        let (latency, s2) = crate::rand::xoshiro_gen_range_of(s1,
                            old(self).spec_config().latency_min.nanos, old(self).spec_config().latency_max.nanos);
                        &&& lost <==> r is None
                        &&& lost ==> final(rng).spec_stream() == s1
                        &&& !lost ==> final(rng).spec_stream() == s2 && r->0.at.nanos == now.nanos + latency
                    }
                },
            },
    {
        let dst_node = match table_find(&self.addr_to_node, dst.ip) {
            Some(i) => self.addr_to_node[i].1,
            None => return None,
        };
        let link_clogged = match link_find(&self.clogged_link, (node, dst_node)) {
            Some(_) => true,
            None => false,
        };
        if self.clogged_node.contains(&node) || self.clogged_node.contains(&dst_node) || link_clogged {
            return None;
        }
        let at = Some(Duration { nanos: now.nanos });
        if rng.gen_ratio(self.config.loss_numerator, self.config.loss_denominator, at) {
            return None;
        }
        let socket = self.nodes.get(&dst_node).unwrap().sockets.get(&dst.port).unwrap().id;
        let latency = rng.gen_range(self.config.latency_min.nanos, self.config.latency_max.nanos, at);
        self.stat.msg_count = self.stat.msg_count + 1;
        Some(Delivery {
            at: Instant { nanos: now.nanos + latency },
            node: dst_node,
            port: dst.port,
            socket,
            msg: Message { tag, data, from: src },
        })
    }

    /// Delivers a message that has come due: it goes to the mailbox of the
    /// socket it was sent to, if that socket is still bound; otherwise it is
    /// lost. Receives whose receivers are in `closed` are skipped and dropped.
    pub fn deliver(&mut self, d: Delivery, closed: &Vec<u64>) -> (r: Option<(u64, Message)>)
        requires
            old(self).wf(),
        ensures
            final(self).wf(),
            final(self).spec_nodes().dom() == old(self).spec_nodes().dom(),
            forall|n: u64| n != d.node && old(self).spec_nodes().contains_key(n) ==> final(self).spec_nodes()[n] == old(self).spec_nodes()[n],
            if old(self).spec_nodes().contains_key(d.node) && old(self).spec_ports(d.node).contains(d.port)
                && old(self).spec_nodes()[d.node].sockets@[d.port].id == d.socket {
                let before = old(self).spec_nodes()[d.node].sockets@[d.port].mailbox;
                let after = final(self).spec_nodes()[d.node].sockets@[d.port];
                let (reg, taker) = spec_deliver_from(before.spec_registered(), 0, d.msg.tag, closed@);
                &&& final(self).spec_nodes()[d.node].ip == old(self).spec_nodes()[d.node].ip
                &&& final(self).spec_ports(d.node) == old(self).spec_ports(d.node)
                &&& forall|p: u16| p != d.port && old(self).spec_ports(d.node).contains(p)
                    ==> final(self).spec_nodes()[d.node].sockets@[p] == old(self).spec_nodes()[d.node].sockets@[p]
                &&& after.id == d.socket
                &&& after.mailbox.spec_registered() == reg
                &&& after.mailbox.spec_next_id() == before.spec_next_id()
                &&& match taker {
                    Some(id) => r == Some((id, d.msg)) && after.mailbox.spec_msgs() == before.spec_msgs(),
                    None => r is None && after.mailbox.spec_msgs() == before.spec_msgs().push(d.msg),
                }
            } else {
                r is None && final(self).spec_nodes() == old(self).spec_nodes()
            },
            forall|ip: IpAddr| final(self).spec_owner(ip) == old(self).spec_owner(ip),
            final(self).spec_clogged_nodes() == old(self).spec_clogged_nodes(),
            final(self).spec_clogged_links() == old(self).spec_clogged_links(),
            final(self).spec_config() == old(self).spec_config(),
            final(self).spec_stat() == old(self).spec_stat(),
            final(self).spec_next_socket() == old(self).spec_next_socket(),
    {
        let live = match self.nodes.get(&d.node) {
            Some(n) => match n.sockets.get(&d.port) {
                Some(s) => s.id == d.socket,
                None => false,
            },
            None => false,
        };
        if !live {
            return None;
        }
        let mut entry = self.nodes.remove(&d.node).unwrap();
        let mut socket = entry.sockets.remove(&d.port).unwrap();
        let r = socket.mailbox.deliver(d.msg, closed);
        entry.sockets.insert(d.port, socket);
        self.nodes.insert(d.node, entry);
        assert(self.nodes@.dom() =~= old(self).nodes@.dom());
        assert(self.nodes@[d.node].sockets@.dom() =~= old(self).nodes@[d.node].sockets@.dom());
        r
    }

    /// Receives a message with `tag` at the socket of `node` bound to `port`.
    /// The socket must exist.
    pub fn recv(&mut self, node: u64, port: u16, tag: u64) -> (r: RecvOutcome)
        requires
            old(self).wf(),
            old(self).spec_nodes().contains_key(node),
            old(self).spec_ports(node).contains(port),
        ensures
            final(self).wf(),
            final(self).spec_nodes().dom() == old(self).spec_nodes().dom(),
            final(self).spec_nodes()[node].ip == old(self).spec_nodes()[node].ip,
            final(self).spec_ports(node) == old(self).spec_ports(node),
            final(self).spec_nodes()[node].sockets@[port].id == old(self).spec_nodes()[node].sockets@[port].id,
            ({
                let before = old(self).spec_nodes()[node].sockets@[port].mailbox;
                let after = final(self).spec_nodes()[node].sockets@[port].mailbox;
                match crate::mailbox::first_with_tag(before.spec_msgs(), tag) {
                    Some(p) => r == RecvOutcome::Ready(before.spec_msgs()[p])
                        && after.spec_msgs() == crate::mailbox::swap_removed(before.spec_msgs(), p)
                        && after.spec_registered() == before.spec_registered()
                        && after.spec_next_id() == before.spec_next_id(),
                    None => r == RecvOutcome::Pending(before.spec_next_id())
                        && after.spec_msgs() == before.spec_msgs()
                        && after.spec_registered() == before.spec_registered().push((tag, before.spec_next_id()))
                        && after.spec_next_id() == before.spec_next_id().wrapping_add(1),
                }
            }),
            forall|p: u16| p != port && old(self).spec_ports(node).contains(p)
                ==> final(self).spec_nodes()[node].sockets@[p] == old(self).spec_nodes()[node].sockets@[p],
            forall|n: u64| n != node && old(self).spec_nodes().contains_key(n) ==> final(self).spec_nodes()[n] == old(self).spec_nodes()[n],
            forall|ip: IpAddr| final(self).spec_owner(ip) == old(self).spec_owner(ip),
            final(self).spec_clogged_nodes() == old(self).spec_clogged_nodes(),
            final(self).spec_clogged_links() == old(self).spec_clogged_links(),
            final(self).spec_config() == old(self).spec_config(),
            final(self).spec_stat() == old(self).spec_stat(),
            final(self).spec_next_socket() == old(self).spec_next_socket(),
    {
        let mut entry = self.nodes.remove(&node).unwrap();
        let mut socket = entry.sockets.remove(&port).unwrap();
        let r = socket.mailbox.recv(tag);
        entry.sockets.insert(port, socket);
        self.nodes.insert(node, entry);
        assert(self.nodes@.dom() =~= old(self).nodes@.dom());
        assert(self.nodes@[node].sockets@.dom() =~= old(self).nodes@[node].sockets@.dom());
        r
    }

    /// Binds a socket of `node` to the first of `addrs` that can be bound,
    /// trying them in order; if none can, returns the error of the last one,
    /// or `InvalidInput` if there is none.
    pub fn bind_any(&mut self, node: u64, addrs: &Vec<SocketAddr>) -> (r: Result<SocketAddr, BindAnyError>)
        requires
            old(self).wf(),
            old(self).spec_nodes().contains_key(node),
            forall|i: int| 0 <= i < addrs@.len() && !spec_is_unspecified(#[trigger] addrs@[i].ip)
                && !spec_is_loopback(addrs@[i].ip) ==> old(self).spec_nodes()[node].ip is Some,
        ensures
            final(self).wf(),
            final(self).spec_nodes().dom() == old(self).spec_nodes().dom(),
            forall|n: u64| n != node && old(self).spec_nodes().contains_key(n) ==> final(self).spec_nodes()[n] == old(self).spec_nodes()[n],
            forall|ip: IpAddr| final(self).spec_owner(ip) == old(self).spec_owner(ip),
            final(self).spec_clogged_nodes() == old(self).spec_clogged_nodes(),
            final(self).spec_clogged_links() == old(self).spec_clogged_links(),
            final(self).spec_config() == old(self).spec_config(),
            final(self).spec_stat() == old(self).spec_stat(),
            match r {
                Ok(a) => exists|k: int| {
                    &&& 0 <= k < addrs@.len()
                    &&& forall|j: int| 0 <= j < k ==> #[trigger] spec_bind(old(self).spec_nodes()[node].ip, old(self).spec_ports(node), addrs@[j]) is Err
                    &&& spec_bind(old(self).spec_nodes()[node].ip, old(self).spec_ports(node), addrs@[k]) == Ok::<SocketAddr, BindError>(a)
                    &&& final(self).spec_ports(node) == old(self).spec_ports(node).insert(a.port)
                },
                Err(BindAnyError::InvalidInput) => addrs@.len() == 0 && final(self).spec_nodes() == old(self).spec_nodes(),
                Err(BindAnyError::Bind(e)) => {
                    &&& addrs@.len() > 0
                    &&& forall|j: int| 0 <= j < addrs@.len() ==> #[trigger] spec_bind(old(self).spec_nodes()[node].ip, old(self).spec_ports(node), addrs@[j]) is Err
                    &&& spec_bind(old(self).spec_nodes()[node].ip, old(self).spec_ports(node), addrs@.last()) == Err::<SocketAddr, BindError>(e)
                    &&& final(self).spec_nodes() == old(self).spec_nodes()
                },
            },
    {
        let mut last_err: Option<BindError> = None;
        let mut i: usize = 0;
        while i < addrs.len()
            invariant
                self.wf(),
                i <= addrs@.len(),
                self.spec_nodes() == old(self).spec_nodes(),
                self.spec_stat() == old(self).spec_stat(),
                self.spec_config() == old(self).spec_config(),
                self.spec_clogged_nodes() == old(self).spec_clogged_nodes(),
                self.spec_clogged_links() == old(self).spec_clogged_links(),
                forall|ip: IpAddr| self.spec_owner(ip) == old(self).spec_owner(ip),
                old(self).spec_nodes().contains_key(node),
                forall|k: int| 0 <= k < addrs@.len() && !spec_is_unspecified(#[trigger] addrs@[k].ip)
                    && !spec_is_loopback(addrs@[k].ip) ==> old(self).spec_nodes()[node].ip is Some,
                forall|j: int| 0 <= j < i ==> #[trigger] spec_bind(old(self).spec_nodes()[node].ip, old(self).spec_ports(node), addrs@[j]) is Err,
                i == 0 <==> last_err is None,
                i > 0 ==> spec_bind(old(self).spec_nodes()[node].ip, old(self).spec_ports(node), addrs@[i - 1]) == Err::<SocketAddr, BindError>(last_err->0),
            decreases addrs@.len() - i,
        {
            let a = addrs[i];
            match self.bind(node, a) {
                Ok(bound) => {
                    return Ok(bound);
                },
                Err(e) => {
                    last_err = Some(e);
                },
            }
            i = i + 1;
        }
        match last_err {
            Some(e) => Err(BindAnyError::Bind(e)),
            None => Err(BindAnyError::InvalidInput),
        }
    }

    /// The statistics.
    pub fn stat(&self) -> (s: Stat)
        ensures
            s == self.spec_stat(),
    {
        self.stat
    }
}

} // verus!
