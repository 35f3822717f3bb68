//! A simulated TCP network: listeners, connection pairs, and the delayed
//! delivery of the data written to a connection.

use vstd::prelude::*;
use std::collections::HashSet;
use crate::addr::SocketAddr;
use crate::assoc::{assoc_get, assoc_unique, find_u64, lemma_assoc_at, lemma_assoc_push, lemma_assoc_remove, lemma_assoc_update};
use crate::network::NetConfig;
use crate::rand::GlobalRng;
use crate::time::{Duration, Instant};

verus! {

broadcast use vstd::std_specs::hash::group_hash_axioms;

/// TCP configurations: there is nothing to configure yet.
#[derive(Clone, Copy, Debug, PartialEq, Eq, Structural, Default)]
pub struct TcpConfig {}

/// The errors of the TCP network.
#[derive(Clone, Copy, Debug, PartialEq, Eq, Structural)]
pub enum TcpError {
    /// "there is no node to reset"
    NotFound,
    /// "connection not exist or already shutdown"
    NotConnected,
    /// "addr is in used"
    AddrInUse,
    /// "ConnectionRefused, maybe the server not listened at"
    ConnectionRefused,
    /// "connection closed"
    ConnectionReset,
}

/// One direction of a connection: the data that has arrived, whether data is
/// in flight, and the nodes it goes from and to.
#[derive(Clone, Debug)]
pub struct Connection {
    pub data: Vec<Vec<u8>>,
    pub is_block: bool,
    pub src: u64,
    pub dst: u64,
}

/// Data on its way: it arrives on connection `conn` at `at`.
pub struct TcpDelivery {
    pub at: Instant,
    pub conn: u64,
    pub data: Vec<u8>,
}

/// `a + b`, clamped to the largest `u64`.
pub open spec fn spec_saturating_add(a: u64, b: u64) -> u64 {
    if a + b > u64::MAX { u64::MAX } else { (a + b) as u64 }
}

/// `a * b`, clamped to the largest `u64`.
pub open spec fn spec_saturating_mul(a: u64, b: u64) -> u64 {
    if a * b > u64::MAX { u64::MAX } else { (a * b) as u64 }
}

/// Whether connection direction `c` touches `node`.
pub open spec fn touches(c: (u64, Connection), node: u64) -> bool {
    c.1.src == node || c.1.dst == node
}

/// The position of listening address `addr`, if present.
fn accept_find(accept: &Vec<(SocketAddr, u64)>, addr: SocketAddr) -> (r: Option<usize>)
    requires
        assoc_unique(accept@),
    ensures
        match r {
            Some(i) => i < accept@.len() && accept@[i as int].0 == addr && assoc_get(accept@, addr) == Some(accept@[i as int].1),
            None => assoc_get(accept@, addr) is None,
        },
{
    let mut i: usize = 0;
    while i < accept.len()
        invariant
            i <= accept@.len(),
            assoc_unique(accept@),
            forall|j: int| 0 <= j < i ==> accept@[j].0 != addr,
        decreases accept@.len() - i,
    {
        if accept[i].0.same(&addr) {
            proof { lemma_assoc_at(accept@, i as int); }
            return Some(i);
        }
        i = i + 1;
    }
    None
}

/// The position of `link` in `links`, if present.
fn link_find(links: &Vec<(u64, u64)>, link: (u64, u64)) -> (r: Option<usize>)
    ensures
        match r {
            Some(i) => i < links@.len() && links@[i as int] == link,
            None => !links@.contains(link),
        },
{
    let mut i: usize = 0;
    while i < links.len()
        invariant
            i <= links@.len(),
            forall|j: int| 0 <= j < i ==> links@[j] != link,
        decreases links@.len() - i,
    {
        if links[i].0 == link.0 && links[i].1 == link.1 {
            return Some(i);
        }
        i = i + 1;
    }
    None
}

/// Filtering keeps keys distinct.
proof fn lemma_filter_keeps_unique<V>(s: Seq<(u64, V)>, keep: spec_fn((u64, V)) -> bool, a: int, b: int)
    requires
        assoc_unique(s),
        0 <= a < b < s.filter(keep).len(),
    ensures
        s.filter(keep)[a].0 != s.filter(keep)[b].0,
    decreases s.len(),
{
    reveal(Seq::filter);
    if s.len() > 0 {
        let init = s.drop_last();
        assert(assoc_unique(init));
        if keep(s.last()) {
            assert(s.filter(keep) == init.filter(keep).push(s.last()));
            if b == s.filter(keep).len() - 1 {
                broadcast use vstd::seq_lib::group_filter_ensures;
                assert(s.filter(keep)[a] == init.filter(keep)[a]);
                assert(init.filter(keep).contains(init.filter(keep)[a]));
                init.lemma_filter_contains_rev(keep, init.filter(keep)[a]);
                let i = choose|i: int| 0 <= i < init.len() && init[i] == s.filter(keep)[a];
                assert(s[i] == init[i]);
                assert(s.filter(keep)[b] == s.last());
                assert(s.last() == s[s.len() - 1]);
            } else {
                lemma_filter_keeps_unique(init, keep, a, b);
            }
        } else {
            lemma_filter_keeps_unique(init, keep, a, b);
        }
    }
}

/// An inner simulated implementation of TCP, which contains all the TCP
/// network nodes in the simulation system.
pub struct TcpNetwork {
    config: NetConfig,
    /// Listening addresses and the nodes that listen on them.
    accept: Vec<(SocketAddr, u64)>,
    /// Connection directions by id.
    conn: Vec<(u64, Connection)>,
    clogged_node: HashSet<u64>,
    clogged_link: Vec<(u64, u64)>,
    conn_cnt: u64,
}

/// Data is held back exactly when its source node, its destination node or
/// the link from one to the other is clogged.
pub proof fn tcp_clogs_block_exactly(net: TcpNetwork, src: u64, dst: u64)
    ensures
        net.spec_clogged_nodes().contains(src) ==> net.spec_clogged(src, dst),
        net.spec_clogged_nodes().contains(dst) ==> net.spec_clogged(src, dst),
        net.spec_clogged_links().contains((src, dst)) ==> net.spec_clogged(src, dst),
        net.spec_clogged(src, dst) ==> net.spec_clogged_nodes().contains(src)
            || net.spec_clogged_nodes().contains(dst) || net.spec_clogged_links().contains((src, dst)),
{
}

/// Clogging a node holds back all data from it and to it.
pub proof fn tcp_clogged_node_is_cut_off(before: TcpNetwork, after: TcpNetwork, id: u64, other: u64)
    requires
        after.spec_clogged_nodes() == before.spec_clogged_nodes().insert(id),
    ensures
        after.spec_clogged(id, other),
        after.spec_clogged(other, id),
{
    assert(after.spec_clogged_nodes().contains(id));
}

/// The resend count and generator state after drawing losses from state
/// `s` with count `cnt`: each loss drawn adds one, until a packet gets
/// through or the count reaches 0xffff_ffff, where no more is drawn.
pub open spec fn spec_resends(s: rand_xoshiro::Xoshiro256PlusPlus, numerator: u32, denominator: u32, cnt: u64)
    -> (u64, rand_xoshiro::Xoshiro256PlusPlus)
    decreases 0xffff_ffff - cnt,
{
    if cnt >= 0xffff_ffff {
        (cnt, s)
    } else {
        let (lost, s1) = crate::rand::xoshiro_gen_ratio_of(s, numerator, denominator);
        if lost { spec_resends(s1, numerator, denominator, (cnt + 1) as u64) } else { (cnt, s1) }
    }
}

impl TcpNetwork {
    /// The configuration.
    pub closed spec fn spec_config(&self) -> NetConfig {
        self.config
    }

    /// The listening addresses, with their nodes.
    pub closed spec fn spec_accept(&self) -> Seq<(SocketAddr, u64)> {
        self.accept@
    }

    /// The connection directions, by id.
    pub closed spec fn spec_conns(&self) -> Seq<(u64, Connection)> {
        self.conn@
    }

    /// The clogged nodes.
    pub closed spec fn spec_clogged_nodes(&self) -> Set<u64> {
        self.clogged_node@
    }

    /// The clogged links.
    pub closed spec fn spec_clogged_links(&self) -> Set<(u64, u64)> {
        self.clogged_link@.to_set()
    }

    /// The id the next connection gets.
    pub closed spec fn spec_conn_cnt(&self) -> u64 {
        self.conn_cnt
    }

    /// The invariant: a usable configuration, no address listened on twice,
    /// no connection id used twice, and an even connection counter.
    pub closed spec fn wf(&self) -> bool {
        &&& self.config.wf()
        &&& assoc_unique(self.accept@)
        &&& assoc_unique(self.conn@)
        &&& self.conn_cnt % 2 == 0
    }

    /// The invariant, but for the connections.
    closed spec fn wf_but_conns(&self) -> bool {
        &&& self.config.wf()
        &&& assoc_unique(self.accept@)
        &&& self.conn_cnt % 2 == 0
    }

    /// Whether data from `src` to `dst` is blocked by a clog.
    pub open spec fn spec_clogged(&self, src: u64, dst: u64) -> bool {
        self.spec_clogged_nodes().contains(src) || self.spec_clogged_nodes().contains(dst)
            || self.spec_clogged_links().contains((src, dst))
    }

    /// An empty TCP network.
    pub fn new(config: NetConfig) -> (n: TcpNetwork)
        requires
            config.wf(),
        ensures
            n.wf(),
            n.spec_config() == config,
            n.spec_accept().len() == 0,
            n.spec_conns().len() == 0,
            n.spec_clogged_nodes() == Set::<u64>::empty(),
            n.spec_clogged_links() == Set::<(u64, u64)>::empty(),
            n.spec_conn_cnt() == 0,
    {
        let n = TcpNetwork {
            config,
            accept: Vec::new(),
            conn: Vec::new(),
            clogged_node: HashSet::new(),
            clogged_link: Vec::new(),
            conn_cnt: 0,
        };
        assert(n.clogged_link@.to_set() =~= Set::<(u64, u64)>::empty());
        n
    }

    /// Replaces the configuration.
    pub fn update_config(&mut self, config: NetConfig)
        requires
            old(self).wf(),
            config.wf(),
        ensures
            final(self).wf(),
            final(self).spec_config() == config,
            final(self).spec_accept() == old(self).spec_accept(),
            final(self).spec_conns() == old(self).spec_conns(),
            final(self).spec_clogged_nodes() == old(self).spec_clogged_nodes(),
            final(self).spec_clogged_links() == old(self).spec_clogged_links(),
            final(self).spec_conn_cnt() == old(self).spec_conn_cnt(),
    {
        self.config = config;
    }

    /// Closes every connection direction that goes from or to `node`;
    /// `NotFound` when there is none.
    pub fn reset_node(&mut self, node: u64) -> (r: Result<(), TcpError>)
        requires
            old(self).wf(),
        ensures
            final(self).wf(),
            final(self).spec_conns() == old(self).spec_conns().filter(|c: (u64, Connection)| !touches(c, node)),
            r is Err <==> (forall|i: int| 0 <= i < old(self).spec_conns().len() ==> !touches(#[trigger] old(self).spec_conns()[i], node)),
            r is Err ==> r == Err::<(), TcpError>(TcpError::NotFound),
            final(self).spec_accept() == old(self).spec_accept(),
            final(self).spec_config() == old(self).spec_config(),
            final(self).spec_clogged_nodes() == old(self).spec_clogged_nodes(),
            final(self).spec_clogged_links() == old(self).spec_clogged_links(),
            final(self).spec_conn_cnt() == old(self).spec_conn_cnt(),
    {
        let ghost all = self.conn@;
        let ghost keep = |c: (u64, Connection)| !touches(c, node);
        let mut rest: Vec<(u64, Connection)> = Vec::new();
        std::mem::swap(&mut rest, &mut self.conn);
        let mut dropped = false;
        let ghost mut k: int = 0;
        while rest.len() > 0
            invariant
                0 <= k <= all.len(),
                all == old(self).conn@,
                rest@ == all.skip(k),
                self.conn@ == all.take(k).filter(keep),
                dropped <==> exists|i: int| 0 <= i < k && touches(all[i], node),
                assoc_unique(all),
                keep == (|c: (u64, Connection)| !touches(c, node)),
                self.accept@ == old(self).accept@,
                self.config == old(self).config,
                self.clogged_node@ == old(self).clogged_node@,
                self.clogged_link@ == old(self).clogged_link@,
                self.conn_cnt == old(self).conn_cnt,
                self.wf_but_conns(),
            decreases rest@.len(),
        {
            let c = rest.remove(0);
            proof {
                assert(c == all[k]);
                assert(all.take(k + 1) == all.take(k).push(all[k]));
                all.take(k).lemma_filter_push(all[k], keep);
                assert(all.skip(k + 1) == all.skip(k).skip(1));
            }
            if c.1.src == node || c.1.dst == node {
                dropped = true;
            } else {
                self.conn.push(c);
            }
            proof { k = k + 1; }
        }
        proof {
            assert(all.take(all.len() as int) == all);
            assert(self.conn@ == all.filter(keep));
            assert(assoc_unique(self.conn@)) by {
                broadcast use vstd::seq_lib::group_filter_ensures;
                assert forall|a: int, b: int| 0 <= a < b < self.conn@.len() implies self.conn@[a].0 != self.conn@[b].0 by {
                    lemma_filter_keeps_unique(all, keep, a, b);
                }
            }
        }
        proof {
            assert(k == all.len());
            assert(all == old(self).spec_conns());
            if !dropped {
                assert forall|i: int| 0 <= i < old(self).spec_conns().len() implies !touches(#[trigger] old(self).spec_conns()[i], node) by {
                    assert(old(self).spec_conns()[i] == all[i]);
                }
            } else {
                let i = choose|i: int| 0 <= i < k && touches(all[i], node);
                assert(touches(old(self).spec_conns()[i], node));
            }
        }
        if dropped {
            Ok(())
        } else {
            Err(TcpError::NotFound)
        }
    }

    /// Closes connection direction `conn`; `NotConnected` when it does not exist.
    pub fn drop_connection(&mut self, conn: u64) -> (r: Result<(), TcpError>)
        requires
            old(self).wf(),
        ensures
            final(self).wf(),
            r is Ok <==> assoc_get(old(self).spec_conns(), conn) is Some,
            r is Err ==> r == Err::<(), TcpError>(TcpError::NotConnected) && final(self).spec_conns() == old(self).spec_conns(),
            assoc_get(final(self).spec_conns(), conn) is None,
            forall|k: u64| k != conn ==> assoc_get(final(self).spec_conns(), k) == assoc_get(old(self).spec_conns(), k),
            final(self).spec_accept() == old(self).spec_accept(),
            final(self).spec_config() == old(self).spec_config(),
            final(self).spec_clogged_nodes() == old(self).spec_clogged_nodes(),
            final(self).spec_clogged_links() == old(self).spec_clogged_links(),
            final(self).spec_conn_cnt() == old(self).spec_conn_cnt(),
    {
        match find_u64(&self.conn, conn) {
            Some(i) => {
                proof { lemma_assoc_remove(self.conn@, i as int); }
                self.conn.remove(i);
                Ok(())
            },
            None => Err(TcpError::NotConnected),
        }
    }

    /// Clogs node `id`.
    pub fn clog_node(&mut self, id: u64)
        requires
            old(self).wf(),
        ensures
            final(self).wf(),
            final(self).spec_clogged_nodes() == old(self).spec_clogged_nodes().insert(id),
            final(self).spec_clogged_links() == old(self).spec_clogged_links(),
            final(self).spec_conns() == old(self).spec_conns(),
            final(self).spec_accept() == old(self).spec_accept(),
            final(self).spec_config() == old(self).spec_config(),
            final(self).spec_conn_cnt() == old(self).spec_conn_cnt(),
    {
        self.clogged_node.insert(id);
    }

    /// Unclogs node `id`.
    pub fn unclog_node(&mut self, id: u64)
        requires
            old(self).wf(),
        ensures
            final(self).wf(),
            final(self).spec_clogged_nodes() == old(self).spec_clogged_nodes().remove(id),
            final(self).spec_clogged_links() == old(self).spec_clogged_links(),
            final(self).spec_conns() == old(self).spec_conns(),
            final(self).spec_accept() == old(self).spec_accept(),
            final(self).spec_config() == old(self).spec_config(),
            final(self).spec_conn_cnt() == old(self).spec_conn_cnt(),
    {
        self.clogged_node.remove(&id);
    }

    /// Clogs the link from `src` to `dst`.
    pub fn clog_link(&mut self, src: u64, dst: u64)
        requires
            old(self).wf(),
        ensures
            final(self).wf(),
            final(self).spec_clogged_links() == old(self).spec_clogged_links().insert((src, dst)),
            final(self).spec_clogged_nodes() == old(self).spec_clogged_nodes(),
            final(self).spec_conns() == old(self).spec_conns(),
            final(self).spec_accept() == old(self).spec_accept(),
            final(self).spec_config() == old(self).spec_config(),
            final(self).spec_conn_cnt() == old(self).spec_conn_cnt(),
    {
        match link_find(&self.clogged_link, (src, dst)) {
            Some(_) => {
                assert(self.clogged_link@.to_set() =~= old(self).clogged_link@.to_set().insert((src, dst)));
            },
            None => {
                self.clogged_link.push((src, dst));
                assert(self.clogged_link@.to_set() =~= old(self).clogged_link@.to_set().insert((src, dst))) by {
                    assert forall|l: (u64, u64)| self.clogged_link@.contains(l) == (old(self).clogged_link@.contains(l) || l == (src, dst)) by {
                        if old(self).clogged_link@.contains(l) {
                            let k = choose|k: int| 0 <= k < old(self).clogged_link@.len() && old(self).clogged_link@[k] == l;
                            assert(self.clogged_link@[k] == l);
                        }
                        if l == (src, dst) {
                            assert(self.clogged_link@[old(self).clogged_link@.len() as int] == l);
                        }
                    }
                }
            },
        }
    }

    /// Unclogs the link from `src` to `dst`.
    pub fn unclog_link(&mut self, src: u64, dst: u64)
        requires
            old(self).wf(),
        ensures
            final(self).wf(),
            final(self).spec_clogged_links() == old(self).spec_clogged_links().remove((src, dst)),
            final(self).spec_clogged_nodes() == old(self).spec_clogged_nodes(),
            final(self).spec_conns() == old(self).spec_conns(),
            final(self).spec_accept() == old(self).spec_accept(),
            final(self).spec_config() == old(self).spec_config(),
            final(self).spec_conn_cnt() == old(self).spec_conn_cnt(),
    {
        let ghost before = self.clogged_link@;
        let mut i: usize = 0;
        while i < self.clogged_link.len()
            invariant
                i <= self.clogged_link@.len(),
                self.clogged_link@.to_set() == before.to_set().remove((src, dst)) || self.clogged_link@.to_set() == before.to_set(),
                forall|j: int| 0 <= j < i ==> self.clogged_link@[j] != (src, dst),
                self.clogged_link@.to_set().remove((src, dst)) == before.to_set().remove((src, dst)),
                self.wf(),
                self.accept@ == old(self).accept@,
                self.conn@ == old(self).conn@,
                self.config == old(self).config,
                self.clogged_node@ == old(self).clogged_node@,
                self.conn_cnt == old(self).conn_cnt,
            decreases self.clogged_link@.len() - i,
        {
            if self.clogged_link[i].0 == src && self.clogged_link[i].1 == dst {
                let ghost cur = self.clogged_link@;
                self.clogged_link.remove(i);
                proof {
                    assert(self.clogged_link@.to_set().remove((src, dst)) =~= cur.to_set().remove((src, dst))) by {
                        assert forall|l: (u64, u64)| l != (src, dst) implies self.clogged_link@.contains(l) == cur.contains(l) by {
                            if cur.contains(l) {
                                let k = choose|k: int| 0 <= k < cur.len() && cur[k] == l;
                                assert(k != i);
                                let k2 = if k < i { k } else { k - 1 };
                                assert(self.clogged_link@[k2] == cur[k]);
                            }
                            if self.clogged_link@.contains(l) {
                                let k = choose|k: int| 0 <= k < self.clogged_link@.len() && self.clogged_link@[k] == l;
                                let k2 = if k < i { k } else { k + 1 };
                                assert(self.clogged_link@[k] == cur[k2]);
                            }
                        }
                    }
                }
            } else {
                i = i + 1;
            }
        }
        proof {
            assert(!self.clogged_link@.contains((src, dst)));
            assert(self.clogged_link@.to_set() =~= self.clogged_link@.to_set().remove((src, dst)));
        }
    }

    /// Listens on `addr` for node `id`; `AddrInUse` when someone already does.
    pub fn listen(&mut self, id: u64, addr: SocketAddr) -> (r: Result<(), TcpError>)
        requires
            old(self).wf(),
        ensures
            final(self).wf(),
            match assoc_get(old(self).spec_accept(), addr) {
                Some(_) => r == Err::<(), TcpError>(TcpError::AddrInUse) && final(self).spec_accept() == old(self).spec_accept(),
                None => r is Ok && final(self).spec_accept() == old(self).spec_accept().push((addr, id)),
            },
            final(self).spec_conns() == old(self).spec_conns(),
            final(self).spec_config() == old(self).spec_config(),
            final(self).spec_clogged_nodes() == old(self).spec_clogged_nodes(),
            final(self).spec_clogged_links() == old(self).spec_clogged_links(),
            final(self).spec_conn_cnt() == old(self).spec_conn_cnt(),
    {
        match accept_find(&self.accept, addr) {
            Some(_) => Err(TcpError::AddrInUse),
            None => {
                proof { lemma_assoc_push(self.accept@, addr, id); }
                self.accept.push((addr, id));
                Ok(())
            },
        }
    }

    /// Puts connection direction `c` under `id`, replacing any direction of that id.
    fn upsert_conn(&mut self, id: u64, c: Connection)
        requires
            assoc_unique(old(self).conn@),
        ensures
            assoc_unique(final(self).conn@),
            assoc_get(final(self).conn@, id) == Some(c),
            forall|k: u64| k != id ==> assoc_get(final(self).conn@, k) == assoc_get(old(self).conn@, k),
            final(self).accept@ == old(self).accept@,
            final(self).config == old(self).config,
            final(self).clogged_node@ == old(self).clogged_node@,
            final(self).clogged_link@ == old(self).clogged_link@,
            final(self).conn_cnt == old(self).conn_cnt,
    {
        match find_u64(&self.conn, id) {
            Some(i) => {
                proof { lemma_assoc_remove(self.conn@, i as int); }
                self.conn.remove(i);
            },
            None => {},
        }
        proof { lemma_assoc_push(self.conn@, id, c); }
        self.conn.push((id, c));
    }

    /// Writes `data` to connection direction `id` at time `now`. The direction
    /// becomes blocked until the data arrives. When either node or the link is
    /// clogged the data is dropped, though its length is still reported;
    /// otherwise it arrives after a random latency, multiplied by one plus the
    /// number of consecutive simulated losses (resends). `ConnectionReset` when
    /// the direction does not exist. The loss rate must be below one: with
    /// every packet lost the resends never end.
    pub fn send(&mut self, rng: &mut GlobalRng, id: u64, data: Vec<u8>, now: Instant) -> (r: Result<(usize, Option<TcpDelivery>), TcpError>)
        requires
            old(self).wf(),
            old(rng).wf(),
            old(self).spec_config().loss_numerator < old(self).spec_config().loss_denominator,
        ensures
            final(self).wf(),
            final(rng).wf(),
            final(rng).spec_seed() == old(rng).spec_seed(),
            final(self).spec_accept() == old(self).spec_accept(),
            final(self).spec_config() == old(self).spec_config(),
            final(self).spec_clogged_nodes() == old(self).spec_clogged_nodes(),
            final(self).spec_clogged_links() == old(self).spec_clogged_links(),
            final(self).spec_conn_cnt() == old(self).spec_conn_cnt(),
            match assoc_get(old(self).spec_conns(), id) {
                None => r == Err::<(usize, Option<TcpDelivery>), TcpError>(TcpError::ConnectionReset)
                    && final(self).spec_conns() == old(self).spec_conns() && *final(rng) == *old(rng),
                Some(c) => {
                    &&& assoc_get(final(self).spec_conns(), id) matches Some(c2)
                        && c2.is_block && c2.data == c.data && c2.src == c.src && c2.dst == c.dst
                    &&& forall|k: u64| k != id ==> assoc_get(final(self).spec_conns(), k) == assoc_get(old(self).spec_conns(), k)
                    &&& old(self).spec_clogged_nodes().contains(c.src) || old(self).spec_clogged_nodes().contains(c.dst)
                        || old(self).spec_clogged_links().contains((c.src, c.dst))
                        ==> (r matches Ok((n, d)) && n == data@.len() && d is None) && *final(rng) == *old(rng)
                    &&& r matches Ok((n, d)) && n == data@.len() && if old(self).spec_clogged(c.src, c.dst) {
                        d is None && *final(rng) == *old(rng)
                    } else {
                        d matches Some(d) && d.conn == id && d.data@ == data@
                            && exists|base: u64, cnt: u64| {
                                &&& old(self).spec_config().latency_min.nanos <= base < old(self).spec_config().latency_max.nanos
                                &&& 1 <= cnt
                                &&& old(self).spec_config().loss_numerator == 0 ==> cnt == 1
                                &&& d.at.nanos == spec_saturating_add(now.nanos, spec_saturating_mul(base, cnt))
                            }
                            && ({
                                let cfg = old(self).spec_config();
                                let (cnt, s1) = spec_resends(old(rng).spec_stream(), cfg.loss_numerator, cfg.loss_denominator, 1);
                                let (base, s2) = crate::rand::xoshiro_gen_range_of(s1, cfg.latency_min.nanos, cfg.latency_max.nanos);
                                &&& d.at.nanos == spec_saturating_add(now.nanos, spec_saturating_mul(base, cnt))
                                &&& final(rng).spec_stream() == s2
                            })
                    }
                },
            },
    {
        let i = match find_u64(&self.conn, id) {
            Some(i) => i,
            None => return Err(TcpError::ConnectionReset),
        };
        let (cid, mut c) = self.conn.remove(i);
        c.is_block = true;
        let src = c.src;
        let dst = c.dst;
        self.conn.insert(i, (cid, c));
        proof {
            assert(self.conn@ =~= old(self).conn@.update(i as int, (id, self.conn@[i as int].1)));
            lemma_assoc_update(old(self).conn@, i as int, self.conn@[i as int].1);
        }
        let n = data.len();
        let link_clogged = match link_find(&self.clogged_link, (src, dst)) {
            Some(_) => true,
            None => false,
        };
        if self.clogged_node.contains(&src) || self.clogged_node.contains(&dst) || link_clogged {
            return Ok((n, None));
        }
        let at = Some(Duration { nanos: now.nanos });
        let mut cnt: u64 = 1;
        let ghost s0 = rng.spec_stream();
        while cnt < 0xffff_ffff && rng.gen_ratio(self.config.loss_numerator, self.config.loss_denominator, at)
            invariant
                1 <= cnt <= 0xffff_ffff,
                spec_resends(rng.spec_stream(), self.config.loss_numerator, self.config.loss_denominator, cnt)
                    == spec_resends(s0, self.config.loss_numerator, self.config.loss_denominator, 1),
                rng.wf(),
                rng.spec_seed() == old(rng).spec_seed(),
                self.config == old(self).config,
                self.config.loss_numerator < self.config.loss_denominator,
                self.config.loss_numerator == 0 ==> cnt == 1,
            decreases 0xffff_ffff - cnt,
        {
            cnt = cnt + 1;
        }
        let base = rng.gen_range(self.config.latency_min.nanos, self.config.latency_max.nanos, at);
        let latency = match base.checked_mul(cnt) {
            Some(l) => l,
            None => u64::MAX,
        };
        let d = TcpDelivery { at: Instant { nanos: now.nanos.saturating_add(latency) }, conn: id, data };
        proof {
            assert(latency == spec_saturating_mul(base, cnt));
            assert(d.at.nanos == spec_saturating_add(now.nanos, spec_saturating_mul(base, cnt)));
        }
        Ok((n, Some(d)))
    }

    /// Delivers data that has come due on its connection direction, which is no
    /// longer blocked. The direction must still exist.
    pub fn deliver(&mut self, d: TcpDelivery)
        requires
            old(self).wf(),
            assoc_get(old(self).spec_conns(), d.conn) is Some,
        ensures
            final(self).wf(),
            assoc_get(final(self).spec_conns(), d.conn) matches Some(c2) && {
                let c = assoc_get(old(self).spec_conns(), d.conn)->0;
                &&& c2.data@ == c.data@.push(d.data)
                &&& !c2.is_block
                &&& c2.src == c.src && c2.dst == c.dst
            },
            forall|k: u64| k != d.conn ==> assoc_get(final(self).spec_conns(), k) == assoc_get(old(self).spec_conns(), k),
            final(self).spec_accept() == old(self).spec_accept(),
            final(self).spec_config() == old(self).spec_config(),
            final(self).spec_clogged_nodes() == old(self).spec_clogged_nodes(),
            final(self).spec_clogged_links() == old(self).spec_clogged_links(),
            final(self).spec_conn_cnt() == old(self).spec_conn_cnt(),
    {
        let i = find_u64(&self.conn, d.conn).unwrap();
        let (cid, mut c) = self.conn.remove(i);
        c.data.push(d.data);
        c.is_block = false;
        self.conn.insert(i, (cid, c));
        proof {
            assert(self.conn@ =~= old(self).conn@.update(i as int, (d.conn, self.conn@[i as int].1)));
            lemma_assoc_update(old(self).conn@, i as int, self.conn@[i as int].1);
        }
    }

    /// Takes the oldest arrived data of connection direction `id`; `None`
    /// while data is in flight or none has arrived; `ConnectionReset` when
    /// the direction does not exist.
    pub fn recv(&mut self, id: u64) -> (r: Result<Option<Vec<u8>>, TcpError>)
        requires
            old(self).wf(),
        ensures
            final(self).wf(),
            match assoc_get(old(self).spec_conns(), id) {
                None => r == Err::<Option<Vec<u8>>, TcpError>(TcpError::ConnectionReset)
                    && final(self).spec_conns() == old(self).spec_conns(),
                Some(c) => if c.is_block || c.data@.len() == 0 {
                    r matches Ok(None) && final(self).spec_conns() == old(self).spec_conns()
                } else {
                    &&& r matches Ok(Some(v)) && v == c.data@[0]
                    &&& assoc_get(final(self).spec_conns(), id) matches Some(c2)
                        && c2.data@ == c.data@.drop_first() && c2.is_block == c.is_block
                        && c2.src == c.src && c2.dst == c.dst
                    &&& forall|k: u64| k != id ==> assoc_get(final(self).spec_conns(), k) == assoc_get(old(self).spec_conns(), k)
                },
            },
            final(self).spec_accept() == old(self).spec_accept(),
            final(self).spec_config() == old(self).spec_config(),
            final(self).spec_clogged_nodes() == old(self).spec_clogged_nodes(),
            final(self).spec_clogged_links() == old(self).spec_clogged_links(),
            final(self).spec_conn_cnt() == old(self).spec_conn_cnt(),
    {
        let i = match find_u64(&self.conn, id) {
            Some(i) => i,
            None => return Err(TcpError::ConnectionReset),
        };
        if self.conn[i].1.is_block || self.conn[i].1.data.len() == 0 {
            return Ok(None);
        }
        let (cid, mut c) = self.conn.remove(i);
        let v = c.data.remove(0);
        self.conn.insert(i, (cid, c));
        proof {
            assert(self.conn@ =~= old(self).conn@.update(i as int, (id, self.conn@[i as int].1)));
            lemma_assoc_update(old(self).conn@, i as int, self.conn@[i as int].1);
            assert(self.conn@[i as int].1.data@ =~= old(self).conn@[i as int].1.data@.drop_first());
        }
        Ok(Some(v))
    }

    /// Connects node `src` to the listener on `dst`: two connection
    /// directions are made, `(send, recv)` with fresh ids, from `src` to the
    /// listening node and back. Returns their ids and the listening node,
    /// which is to be handed `(recv, send)`; `ConnectionRefused` when nobody
    /// listens on `dst`.
    pub fn connect(&mut self, src: u64, dst: SocketAddr) -> (r: Result<(u64, u64, u64), TcpError>)
        requires
            old(self).wf(),
        ensures
            final(self).wf(),
            match assoc_get(old(self).spec_accept(), dst) {
                None => r == Err::<(u64, u64, u64), TcpError>(TcpError::ConnectionRefused)
                    && final(self).spec_conns() == old(self).spec_conns()
                    && final(self).spec_conn_cnt() == old(self).spec_conn_cnt(),
                Some(dn) => {
                    let send = old(self).spec_conn_cnt();
                    &&& r == Ok::<(u64, u64, u64), TcpError>((send, (send + 1) as u64, dn))
                    &&& final(self).spec_conn_cnt() == send.wrapping_add(2)
                    &&& assoc_get(final(self).spec_conns(), send) matches Some(c)
                        && c.src == src && c.dst == dn && c.data@.len() == 0 && !c.is_block
                    &&& assoc_get(final(self).spec_conns(), (send + 1) as u64) matches Some(c)
                        && c.src == dn && c.dst == src && c.data@.len() == 0 && !c.is_block
                    &&& forall|k: u64| k != send && k != send + 1
                        ==> assoc_get(final(self).spec_conns(), k) == assoc_get(old(self).spec_conns(), k)
                },
            },
            final(self).spec_accept() == old(self).spec_accept(),
            final(self).spec_config() == old(self).spec_config(),
            final(self).spec_clogged_nodes() == old(self).spec_clogged_nodes(),
            final(self).spec_clogged_links() == old(self).spec_clogged_links(),
    {
        let dn = match accept_find(&self.accept, dst) {
            Some(i) => self.accept[i].1,
            None => return Err(TcpError::ConnectionRefused),
        };
        let send = self.conn_cnt;
        let recv = send + 1;
        self.conn_cnt = self.conn_cnt.wrapping_add(2);
        proof {
            assert(send % 2 == 0);
            vstd::arithmetic::div_mod::lemma_mod_add_multiples_vanish(send as int, 2);
        }
        self.upsert_conn(send, Connection { data: Vec::new(), is_block: false, src, dst: dn });
        self.upsert_conn(recv, Connection { data: Vec::new(), is_block: false, src: dn, dst: src });
        assert(self.conn_cnt % 2 == 0) by {
            if send + 2 > u64::MAX {
                assert(self.conn_cnt == send + 2 - 0x1_0000_0000_0000_0000);
            }
        }
        Ok((send, recv, dn))
    }
}

} // verus!
