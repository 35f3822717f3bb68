//! IP Virtual Server: virtual services that hand out their real servers.

use vstd::prelude::*;
use crate::addr::SocketAddr;
use crate::addr_text::{socket_addr_text, socket_addr_to_text};

verus! {

/// The transport protocol of a socket.
#[derive(Clone, Copy, Debug, PartialEq, Eq, Structural)]
pub enum IpProtocol {
    Tcp,
    Udp,
}

/// Virtual service address.
#[derive(Debug)]
#[non_exhaustive]
pub enum ServiceAddr {
    /// TCP
    Tcp(String),
    /// UDP
    Udp(String),
}

impl ServiceAddr {
    /// The abstract address: whether it is TCP, and its text.
    pub open spec fn spec_key(&self) -> (bool, Seq<char>) {
        match self {
            ServiceAddr::Tcp(s) => (true, s@),
            ServiceAddr::Udp(s) => (false, s@),
        }
    }

    /// Whether two service addresses are the same.
    pub fn same(&self, other: &ServiceAddr) -> (b: bool)
        ensures
            b == (self.spec_key() == other.spec_key()),
    {
        match (self, other) {
            (ServiceAddr::Tcp(a), ServiceAddr::Tcp(b)) => *a == *b,
            (ServiceAddr::Udp(a), ServiceAddr::Udp(b)) => *a == *b,
            _ => false,
        }
    }

    /// The service address of `addr` under `proto`: its text, tagged with
    /// the protocol.
    pub fn from_addr_proto(addr: SocketAddr, proto: IpProtocol) -> (s: ServiceAddr)
        ensures
            s.spec_key() == (proto == IpProtocol::Tcp, socket_addr_text(addr)),
    {
        match proto {
            IpProtocol::Tcp => ServiceAddr::Tcp(socket_addr_to_text(addr)),
            IpProtocol::Udp => ServiceAddr::Udp(socket_addr_to_text(addr)),
        }
    }

    /// A copy of the address.
    pub fn copy(&self) -> (c: ServiceAddr)
        ensures
            c.spec_key() == self.spec_key(),
    {
        match self {
            ServiceAddr::Tcp(a) => ServiceAddr::Tcp(a.clone()),
            ServiceAddr::Udp(a) => ServiceAddr::Udp(a.clone()),
        }
    }
}

/// Algorithm for allocating TCP connections and UDP datagrams to real servers.
#[derive(Clone, Copy, Debug, PartialEq, Eq, Structural)]
#[non_exhaustive]
pub enum Scheduler {
    /// distributes jobs equally amongst the available real servers.
    RoundRobin,
}

/// Virtual Service.
pub struct Service {
    pub scheduler: Scheduler,
    pub servers: Vec<String>,
    pub rr_index: usize,
}

/// The abstract state of a service: its scheduler, the text of its real
/// servers, and the round-robin position.
pub struct ServiceView {
    pub scheduler: Scheduler,
    pub servers: Seq<Seq<char>>,
    pub rr_index: nat,
}

/// The abstract state of `s`.
pub open spec fn service_view(s: Service) -> ServiceView {
    ServiceView {
        scheduler: s.scheduler,
        servers: s.servers@.map_values(|v: String| v@),
        rr_index: s.rr_index as nat,
    }
}

/// The service with address `key` among `services`, if any.
pub open spec fn service_of(services: Seq<(ServiceAddr, Service)>, key: (bool, Seq<char>)) -> Option<ServiceView> {
    if exists|i: int| 0 <= i < services.len() && services[i].0.spec_key() == key {
        Some(service_view(services[choose|i: int| 0 <= i < services.len() && services[i].0.spec_key() == key].1))
    } else {
        None
    }
}

/// No address has two services.
pub open spec fn addrs_unique(services: Seq<(ServiceAddr, Service)>) -> bool {
    forall|i: int, j: int| 0 <= i < j < services.len() ==> services[i].0.spec_key() != services[j].0.spec_key()
}

/// The round-robin choice among `n` servers at position `rr`: the server
/// index handed out and the next position.
pub open spec fn spec_rr_pick(rr: nat, n: nat) -> (nat, nat) {
    let i = if rr >= n { 0 } else { rr };
    (i, i + 1)
}

/// The round-robin position after `j` choices among `n` servers, starting
/// from the first.
pub open spec fn rr_pos(n: nat, j: nat) -> nat
    decreases j,
{
    if j == 0 { 0 } else { spec_rr_pick(rr_pos(n, (j - 1) as nat), n).1 }
}

/// Round robin distributes jobs equally amongst the real servers: starting
/// from the first, the `j`-th choice among `n` unchanged servers is server
/// `j mod n`, so any `n` consecutive choices hand out every server once.
pub proof fn round_robin_cycles(n: nat, j: nat)
    requires
        n > 0,
    ensures
        spec_rr_pick(rr_pos(n, j), n).0 == j % n,
        rr_pos(n, j + 1) == j % n + 1,
    decreases j,
{
    if j == 0 {
        vstd::arithmetic::div_mod::lemma_fundamental_div_mod_converse_mod(0, n as int, 0, 0);
    } else {
        round_robin_cycles(n, (j - 1) as nat);
        let r = ((j - 1) as nat) % n;
        let q = ((j - 1) as nat) / n;
        vstd::arithmetic::div_mod::lemma_fundamental_div_mod((j - 1) as int, n as int);
        vstd::arithmetic::div_mod::lemma_mod_bound((j - 1) as int, n as int);
        if r + 1 < n {
            vstd::arithmetic::div_mod::lemma_fundamental_div_mod_converse_mod(j as int, n as int, q as int, (r + 1) as int);
        } else {
            assert(j == (q + 1) * n) by (nonlinear_arith)
                requires
                    j - 1 == n * q + r,
                    r + 1 == n,
            ;
            vstd::arithmetic::div_mod::lemma_fundamental_div_mod_converse_mod(j as int, n as int, (q + 1) as int, 0);
        }
    }
}

/// In a list without repeated addresses, the entry at `i` is the service of its address.
proof fn lemma_service_at(s: Seq<(ServiceAddr, Service)>, i: int)
    requires
        addrs_unique(s),
        0 <= i < s.len(),
    ensures
        service_of(s, s[i].0.spec_key()) == Some(service_view(s[i].1)),
{
    let k = choose|k: int| 0 <= k < s.len() && s[k].0.spec_key() == s[i].0.spec_key();
    if k != i {
        if k < i {} else {}
    }
}

/// Replacing the entry at `i` by one of the same address keeps addresses
/// unique and changes only that address's service.
proof fn lemma_service_update(s: Seq<(ServiceAddr, Service)>, i: int, e: (ServiceAddr, Service))
    requires
        addrs_unique(s),
        0 <= i < s.len(),
        e.0.spec_key() == s[i].0.spec_key(),
    ensures
        addrs_unique(s.update(i, e)),
        service_of(s.update(i, e), e.0.spec_key()) == Some(service_view(e.1)),
        forall|k: (bool, Seq<char>)| k != e.0.spec_key() ==> service_of(s.update(i, e), k) == service_of(s, k),
{
    let r = s.update(i, e);
    assert(addrs_unique(r)) by {
        assert forall|a: int, b: int| 0 <= a < b < r.len() implies r[a].0.spec_key() != r[b].0.spec_key() by {
            assert(r[a].0.spec_key() == s[a].0.spec_key() && r[b].0.spec_key() == s[b].0.spec_key());
        }
    }
    lemma_service_at(r, i);
    assert forall|k: (bool, Seq<char>)| k != e.0.spec_key() implies service_of(r, k) == service_of(s, k) by {
        if exists|a: int| 0 <= a < s.len() && s[a].0.spec_key() == k {
            let a = choose|a: int| 0 <= a < s.len() && s[a].0.spec_key() == k;
            assert(r[a] == s[a]);
            lemma_service_at(r, a);
            lemma_service_at(s, a);
        } else {
            if exists|b: int| 0 <= b < r.len() && r[b].0.spec_key() == k {
                let b = choose|b: int| 0 <= b < r.len() && r[b].0.spec_key() == k;
                assert(r[b].0.spec_key() == s[b].0.spec_key());
            }
        }
    }
}

/// Removing the entry at `i` keeps addresses unique and forgets exactly its address.
proof fn lemma_service_remove(s: Seq<(ServiceAddr, Service)>, i: int)
    requires
        addrs_unique(s),
        0 <= i < s.len(),
    ensures
        addrs_unique(s.remove(i)),
        service_of(s.remove(i), s[i].0.spec_key()) is None,
        forall|k: (bool, Seq<char>)| k != s[i].0.spec_key() ==> service_of(s.remove(i), k) == service_of(s, k),
{
    let r = s.remove(i);
    assert forall|k: (bool, Seq<char>)| k != s[i].0.spec_key() implies service_of(r, k) == service_of(s, k) by {
        if exists|a: int| 0 <= a < s.len() && s[a].0.spec_key() == k {
            let a = choose|a: int| 0 <= a < s.len() && s[a].0.spec_key() == k;
            let ar = if a < i { a } else { a - 1 };
            assert(r[ar] == s[a]);
            let b = choose|b: int| 0 <= b < r.len() && r[b].0.spec_key() == k;
            assert(r[b] == s[if b < i { b } else { b + 1 }]);
            lemma_service_at(s, a);
        } else {
            if exists|b: int| 0 <= b < r.len() && r[b].0.spec_key() == k {
                let b = choose|b: int| 0 <= b < r.len() && r[b].0.spec_key() == k;
                assert(r[b] == s[if b < i { b } else { b + 1 }]);
            }
        }
    }
    if exists|b: int| 0 <= b < r.len() && r[b].0.spec_key() == s[i].0.spec_key() {
        let b = choose|b: int| 0 <= b < r.len() && r[b].0.spec_key() == s[i].0.spec_key();
        assert(r[b] == s[if b < i { b } else { b + 1 }]);
    }
}

/// Appending a service of a new address keeps addresses unique, records it,
/// and keeps every other address.
proof fn lemma_service_push(s: Seq<(ServiceAddr, Service)>, e: (ServiceAddr, Service))
    requires
        addrs_unique(s),
        service_of(s, e.0.spec_key()) is None,
    ensures
        addrs_unique(s.push(e)),
        service_of(s.push(e), e.0.spec_key()) == Some(service_view(e.1)),
        forall|k: (bool, Seq<char>)| k != e.0.spec_key() ==> service_of(s.push(e), k) == service_of(s, k),
{
    let r = s.push(e);
    assert(r[s.len() as int] == e);
    let a = choose|a: int| 0 <= a < r.len() && r[a].0.spec_key() == e.0.spec_key();
    if a < s.len() {
        assert(r[a] == s[a]);
    }
    assert forall|k: (bool, Seq<char>)| k != e.0.spec_key() implies service_of(r, k) == service_of(s, k) by {
        if exists|a: int| 0 <= a < s.len() && s[a].0.spec_key() == k {
            let a = choose|a: int| 0 <= a < s.len() && s[a].0.spec_key() == k;
            assert(r[a] == s[a]);
            let b = choose|b: int| 0 <= b < r.len() && r[b].0.spec_key() == k;
            assert(r[b] == s[b]);
            lemma_service_at(s, a);
        } else {
            if exists|b: int| 0 <= b < r.len() && r[b].0.spec_key() == k {
                let b = choose|b: int| 0 <= b < r.len() && r[b].0.spec_key() == k;
                assert(r[b] == s[b]);
            }
        }
    }
}

/// IP Virtual Server.
pub struct IpVirtualServer {
    services: Vec<(ServiceAddr, Service)>,
}

impl IpVirtualServer {
    /// The service with address `key`, if any.
    pub closed spec fn spec_service(&self, key: (bool, Seq<char>)) -> Option<ServiceView> {
        service_of(self.services@, key)
    }

    /// The invariant: one service per address.
    pub closed spec fn wf(&self) -> bool {
        addrs_unique(self.services@)
    }

    /// A server with no virtual service.
    pub fn new() -> (v: IpVirtualServer)
        ensures
            v.wf(),
            forall|k: (bool, Seq<char>)| v.spec_service(k) is None,
    {
        IpVirtualServer { services: Vec::new() }
    }

    /// The position of the service of `addr`, if any.
    fn find(&self, addr: &ServiceAddr) -> (r: Option<usize>)
        requires
            self.wf(),
        ensures
            match r {
                Some(i) => i < self.services@.len() && self.services@[i as int].0.spec_key() == addr.spec_key()
                    && self.spec_service(addr.spec_key()) == Some(service_view(self.services@[i as int].1)),
                None => self.spec_service(addr.spec_key()) is None,
            },
    {
        let mut i: usize = 0;
        while i < self.services.len()
            invariant
                i <= self.services@.len(),
                addrs_unique(self.services@),
                forall|j: int| 0 <= j < i ==> self.services@[j].0.spec_key() != addr.spec_key(),
            decreases self.services@.len() - i,
        {
            if self.services[i].0.same(addr) {
                proof { lemma_service_at(self.services@, i as int); }
                return Some(i);
            }
            i = i + 1;
        }
        None
    }

    /// Add a virtual service, replacing any service of that address.
    pub fn add_service(&mut self, service_addr: ServiceAddr, scheduler: Scheduler)
        requires
            old(self).wf(),
        ensures
            final(self).wf(),
            final(self).spec_service(service_addr.spec_key()) matches Some(v)
                && v.scheduler == scheduler && v.servers.len() == 0 && v.rr_index == 0,
            forall|k: (bool, Seq<char>)| k != service_addr.spec_key() ==> final(self).spec_service(k) == old(self).spec_service(k),
    {
        let service = Service { scheduler, servers: Vec::new(), rr_index: 0 };
        let ghost key = service_addr.spec_key();
        match self.find(&service_addr) {
            Some(i) => {
                let ghost before = self.services@;
                let e = (service_addr, service);
                proof { lemma_service_update(before, i as int, e); }
                self.services.set(i, e);
            },
            None => {
                let e = (service_addr, service);
                proof { lemma_service_push(self.services@, e); }
                self.services.push(e);
            },
        }
        proof {
            assert(Seq::<String>::empty().map_values(|v: String| v@).len() == 0);
        }
    }

    /// Add a real server to a virtual service. The service must exist.
    pub fn add_server(&mut self, service_addr: ServiceAddr, server_addr: &str)
        requires
            old(self).wf(),
            old(self).spec_service(service_addr.spec_key()) is Some,
        ensures
            final(self).wf(),
            final(self).spec_service(service_addr.spec_key()) matches Some(v) && {
                let o = old(self).spec_service(service_addr.spec_key())->0;
                &&& v.servers == o.servers.push(server_addr@)
                &&& v.rr_index == o.rr_index
                &&& v.scheduler == o.scheduler
            },
            forall|k: (bool, Seq<char>)| k != service_addr.spec_key() ==> final(self).spec_service(k) == old(self).spec_service(k),
    {
        let i = self.find(&service_addr).unwrap();
        let ghost before = self.services@;
        let (a, mut svc) = self.services.remove(i);
        let ghost old_servers = svc.servers@;
        svc.servers.push(server_addr.to_owned());
        proof {
            assert(svc.servers@.map_values(|v: String| v@) =~= old_servers.map_values(|v: String| v@).push(server_addr@));
            lemma_service_update(before, i as int, (a, svc));
        }
        self.services.insert(i, (a, svc));
        assert(self.services@ =~= before.update(i as int, self.services@[i as int]));
    }

    /// Remove a real server from a virtual service: every entry with that text
    /// goes. The service must exist.
    pub fn del_server(&mut self, service_addr: ServiceAddr, server_addr: &str)
        requires
            old(self).wf(),
            old(self).spec_service(service_addr.spec_key()) is Some,
        ensures
            final(self).wf(),
            final(self).spec_service(service_addr.spec_key()) matches Some(v) && {
                let o = old(self).spec_service(service_addr.spec_key())->0;
                &&& v.servers == o.servers.filter(|t: Seq<char>| t != server_addr@)
                &&& v.rr_index == o.rr_index
                &&& v.scheduler == o.scheduler
            },
            forall|k: (bool, Seq<char>)| k != service_addr.spec_key() ==> final(self).spec_service(k) == old(self).spec_service(k),
    {
        let i = self.find(&service_addr).unwrap();
        let ghost before = self.services@;
        let (a, mut svc) = self.services.remove(i);
        let target = server_addr.to_owned();
        let ghost keep = |t: Seq<char>| t != server_addr@;
        let ghost all = svc.servers@.map_values(|v: String| v@);
        let ghost rr0 = svc.rr_index;
        let ghost sched0 = svc.scheduler;
        let mut rest: Vec<String> = Vec::new();
        std::mem::swap(&mut rest, &mut svc.servers);
        let ghost mut k: int = 0;
        while rest.len() > 0
            invariant
                0 <= k <= all.len(),
                rest@.map_values(|v: String| v@) == all.skip(k),
                svc.servers@.map_values(|v: String| v@) == all.take(k).filter(keep),
                target@ == server_addr@,
                keep == (|t: Seq<char>| t != server_addr@),
                svc.rr_index == rr0,
                svc.scheduler == sched0,
            decreases rest@.len(),
        {
            let ghost rest_before = rest@;
            let v = rest.remove(0);
            proof {
                assert(rest_before.map_values(|v: String| v@).len() == rest_before.len());
                assert(k < all.len());
                assert(rest_before.map_values(|v: String| v@)[0] == v@);
                assert(all.skip(k)[0] == all[k]);
                assert(all.take(k + 1) == all.take(k).push(all[k]));
                all.take(k).lemma_filter_push(all[k], keep);
                assert(rest@.map_values(|v: String| v@) =~= rest_before.map_values(|v: String| v@).skip(1));
                assert(all.skip(k + 1) =~= all.skip(k).skip(1));
            }
            if !(v == target) {
                let ghost sv = svc.servers@;
                svc.servers.push(v);
                proof {
                    assert(svc.servers@.map_values(|v: String| v@) =~= sv.map_values(|v: String| v@).push(all[k]));
                }
            }
            proof { k = k + 1; }
        }
        proof {
            assert(all.take(all.len() as int) == all);
            lemma_service_update(before, i as int, (a, svc));
        }
        self.services.insert(i, (a, svc));
        assert(self.services@ =~= before.update(i as int, self.services@[i as int]));
    }

    /// Get a real server from a virtual service: `None` when the service does
    /// not exist or has no server; otherwise, round robin, the server at the
    /// current position (wrapped to the first once past the end).
    pub fn get_server(&mut self, service_addr: ServiceAddr) -> (r: Option<String>)
        requires
            old(self).wf(),
        ensures
            final(self).wf(),
            match old(self).spec_service(service_addr.spec_key()) {
                None => r is None && forall|k: (bool, Seq<char>)| final(self).spec_service(k) == old(self).spec_service(k),
                Some(o) => if o.servers.len() == 0 {
                    r is None && forall|k: (bool, Seq<char>)| final(self).spec_service(k) == old(self).spec_service(k)
                } else {
                    let (idx, next) = spec_rr_pick(o.rr_index, o.servers.len());
                    &&& r matches Some(s) && s@ == o.servers[idx as int]
                    &&& final(self).spec_service(service_addr.spec_key()) matches Some(v)
                        && v.servers == o.servers && v.scheduler == o.scheduler && v.rr_index == next
                    &&& forall|k: (bool, Seq<char>)| k != service_addr.spec_key() ==> final(self).spec_service(k) == old(self).spec_service(k)
                },
            },
    {
        let i = match self.find(&service_addr) {
            Some(i) => i,
            None => return None,
        };
        match self.services[i].1.scheduler {
            Scheduler::RoundRobin => {
                if self.services[i].1.servers.len() == 0 {
                    return None;
                }
                let ghost before = self.services@;
                let (a, mut svc) = self.services.remove(i);
                if svc.rr_index >= svc.servers.len() {
                    svc.rr_index = 0;
                }
                let server = svc.servers[svc.rr_index].clone();
                svc.rr_index = svc.rr_index + 1;
                proof {
                    lemma_service_update(before, i as int, (a, svc));
                    assert(service_view(svc).servers =~= service_view(before[i as int].1).servers);
                }
                self.services.insert(i, (a, svc));
                assert(self.services@ =~= before.update(i as int, self.services@[i as int]));
                Some(server)
            },
        }
    }

    /// Delete a virtual service, along with any associated real servers.
    pub fn del_service(&mut self, service_addr: ServiceAddr)
        requires
            old(self).wf(),
        ensures
            final(self).wf(),
            final(self).spec_service(service_addr.spec_key()) is None,
            forall|k: (bool, Seq<char>)| k != service_addr.spec_key() ==> final(self).spec_service(k) == old(self).spec_service(k),
    {
        match self.find(&service_addr) {
            Some(i) => {
                proof { lemma_service_remove(self.services@, i as int); }
                self.services.remove(i);
            },
            None => {},
        }
    }
}

} // verus!
