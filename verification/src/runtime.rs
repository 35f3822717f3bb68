//! The simulation runtime: the random number generator, the clock, the
//! task registry, the network and the file system, created and driven together.

use vstd::prelude::*;
use vstd::string::StringSliceAdditionalSpecFns;
use crate::addr::{IpAddr, SocketAddr, spec_is_loopback, spec_is_unspecified};
use crate::dns::DnsServer;
use crate::fs::FsSim;
use crate::mpsc::Channel;
use crate::mailbox::{Message, RecvOutcome, spec_deliver_from};
use crate::network::{BindAnyError, BindError, Delivery, NetConfig, Network, spec_bind};
use crate::rand::{GlobalRng, Log, NonDeterminism};
use crate::runtime_time::{SECS_PER_YEAR, TimeRuntime, spec_base_time_nanos};
use crate::task::{CtrlC, Dispatch, Id, NodeId, TaskHandle};
use crate::tcp::TcpConfig;
use crate::time::{Duration, Instant};

verus! {

/// Simulation configurations.
#[derive(Clone, Copy, Debug, PartialEq, Eq, Structural)]
pub struct Config {
    /// Network configurations.
    pub net: NetConfig,
    /// TCP configurations.
    pub tcp: TcpConfig,
}

impl Config {
    /// The default network configuration and no TCP configuration.
    pub fn default() -> (c: Config)
        ensures
            c.net.wf(),
            c.net.loss_numerator == 0,
            c.net.latency_min.nanos == 1_000_000,
            c.net.latency_max.nanos == 10_000_000,
    {
        Config { net: NetConfig::default(), tcp: TcpConfig {} }
    }
}

/// `TryCurrentError` indicates there is no runtime has been started.
#[derive(Clone, Copy, Debug, PartialEq, Eq, Structural)]
pub struct TryCurrentError;

/// Builds a node with custom configurations.
pub struct NodeBuilder {
    pub name: Option<String>,
    pub ip: Option<IpAddr>,
    pub cores: Option<usize>,
    pub has_init: bool,
    pub restart_on_panic: bool,
    pub restart_on_panic_matching: Vec<String>,
}

impl NodeBuilder {
    /// A builder with no name, address, core count or initial task.
    pub fn new() -> (b: NodeBuilder)
        ensures
            b.name is None && b.ip is None && b.cores is None && !b.has_init && !b.restart_on_panic
                && b.restart_on_panic_matching@.len() == 0,
    {
        NodeBuilder { name: None, ip: None, cores: None, has_init: false, restart_on_panic: false, restart_on_panic_matching: Vec::new() }
    }

    /// Names the node.
    pub fn name(self, name: String) -> (b: NodeBuilder)
        ensures
            b.name == Some(name),
            b.ip == self.ip && b.cores == self.cores && b.has_init == self.has_init
                && b.restart_on_panic == self.restart_on_panic && b.restart_on_panic_matching == self.restart_on_panic_matching,
    {
        NodeBuilder { name: Some(name), ..self }
    }

    /// Sets the node to have an initial task, respawned on restart.
    pub fn init(self) -> (b: NodeBuilder)
        ensures
            b.has_init,
            b.name == self.name && b.ip == self.ip && b.cores == self.cores
                && b.restart_on_panic == self.restart_on_panic && b.restart_on_panic_matching == self.restart_on_panic_matching,
    {
        NodeBuilder { has_init: true, ..self }
    }

    /// Automatically restart the node when it panics.
    pub fn restart_on_panic(self) -> (b: NodeBuilder)
        ensures
            b.restart_on_panic,
            b.name == self.name && b.ip == self.ip && b.cores == self.cores && b.has_init == self.has_init
                && b.restart_on_panic_matching == self.restart_on_panic_matching,
    {
        NodeBuilder { restart_on_panic: true, ..self }
    }

    /// Automatically restart the node when it panics with a message
    /// containing `msg`.
    pub fn restart_on_panic_matching(self, msg: String) -> (b: NodeBuilder)
        ensures
            b.restart_on_panic_matching@ == self.restart_on_panic_matching@.push(msg),
            b.name == self.name && b.ip == self.ip && b.cores == self.cores && b.has_init == self.has_init
                && b.restart_on_panic == self.restart_on_panic,
    {
        let mut b = self;
        b.restart_on_panic_matching.push(msg);
        b
    }

    /// Set one IP address of the node.
    pub fn ip(self, ip: IpAddr) -> (b: NodeBuilder)
        ensures
            b.ip == Some(ip),
            b.name == self.name && b.cores == self.cores && b.has_init == self.has_init
                && b.restart_on_panic == self.restart_on_panic && b.restart_on_panic_matching == self.restart_on_panic_matching,
    {
        NodeBuilder { ip: Some(ip), ..self }
    }

    /// Set the number of CPU cores of the node. Zero cores are refused.
    pub fn cores(self, cores: usize) -> (b: NodeBuilder)
        requires
            cores != 0,
        ensures
            b.cores == Some(cores),
            b.name == self.name && b.ip == self.ip && b.has_init == self.has_init
                && b.restart_on_panic == self.restart_on_panic && b.restart_on_panic_matching == self.restart_on_panic_matching,
    {
        NodeBuilder { cores: Some(cores), ..self }
    }
}

/// Handle to a node.
#[derive(Clone, Copy, Debug, PartialEq, Eq, Structural)]
pub struct NodeHandle {
    id: NodeId,
}

impl NodeHandle {
    /// The handle of node `id`.
    pub fn new(id: NodeId) -> (h: NodeHandle)
        ensures
            h.spec_id() == id,
    {
        NodeHandle { id }
    }

    /// The node of this handle.
    pub closed spec fn spec_id(&self) -> NodeId {
        self.id
    }

    /// Returns the node ID.
    pub fn id(&self) -> (id: NodeId)
        ensures
            id == self.spec_id(),
    {
        self.id
    }
}

/// Runtime metrics, taken when asked for.
#[derive(Clone, Copy, Debug, PartialEq, Eq, Structural)]
pub struct RuntimeMetrics {
    num_nodes: usize,
    num_tasks: usize,
}

impl RuntimeMetrics {
    /// The number of nodes, the main node aside.
    pub closed spec fn spec_num_nodes(&self) -> usize {
        self.num_nodes
    }

    /// The number of live tasks.
    pub closed spec fn spec_num_tasks(&self) -> usize {
        self.num_tasks
    }

    /// Returns the number of nodes.
    pub fn num_nodes(&self) -> (n: usize)
        ensures
            n == self.spec_num_nodes(),
    {
        self.num_nodes
    }

    /// Returns the number of tasks.
    pub fn num_tasks(&self) -> (n: usize)
        ensures
            n == self.spec_num_tasks(),
    {
        self.num_tasks
    }
}

/// What a timer event does when it fires.
#[derive(Debug)]
pub enum TimerEvent {
    /// Task `0` is woken: it goes back to the ready queue.
    Wake(u64),
    /// Node `0` is restarted, after one of its tasks panicked.
    Restart(u64),
    /// A message reaches its destination socket.
    Deliver(Delivery),
}

/// Whether task `x` of registry `t` can run: it is known and not cancelled,
/// and its node is alive at the task's incarnation and not paused.
pub open spec fn spec_runnable(t: TaskHandle, x: u64) -> bool {
    t.spec_task(x) matches Some(rec) && !rec.cancelled && !t.spec_info_dead(rec.node, rec.incarnation)
        && !t.spec_node(rec.node)->0.paused
}

/// What taking ready tasks from `q`, with the generator at state `s`, gives
/// when tasks are runnable as in `t`: each time the index is drawn from
/// `0..q.len()` and that task swapped out, until a runnable one comes. The
/// task picked, if any; the queue left; the generator's state after; and the
/// tasks taken out and not run, in order.
pub open spec fn spec_pick(q: Seq<u64>, s: rand_xoshiro::Xoshiro256PlusPlus, t: TaskHandle)
    -> (Option<u64>, Seq<u64>, rand_xoshiro::Xoshiro256PlusPlus, Seq<u64>)
    decreases q.len(),
{
    if q.len() == 0 {
        (None, q, s, Seq::empty())
    } else {
        let (drawn, s1) = crate::rand::xoshiro_gen_range_of(s, 0, q.len() as u64);
        let i: int = if drawn < q.len() { drawn as int } else { 0 };
        let x = q[i];
        let nq = q.update(i, q.last()).drop_last();
        if spec_runnable(t, x) {
            (Some(x), nq, s1, Seq::empty())
        } else {
            let rest = spec_pick(nq, s1, t);
            (rest.0, rest.1, rest.2, seq![x] + rest.3)
        }
    }
}

/// Whether dispatching task `x` of registry `t` parks it on node `k`: the
/// task is live, its node is `k`, and `k` is paused.
pub open spec fn spec_parks_on(t: TaskHandle, x: u64, k: u64) -> bool {
    t.spec_task(x) matches Some(rec) && !rec.cancelled && !t.spec_info_dead(rec.node, rec.incarnation)
        && rec.node == k && t.spec_node(k)->0.paused
}

/// The tasks among `dropped`, in order, that dispatching parks on node `k`.
pub open spec fn parked_of(t: TaskHandle, k: u64, dropped: Seq<u64>) -> Seq<u64>
    decreases dropped.len(),
{
    if dropped.len() == 0 {
        Seq::empty()
    } else {
        let p = parked_of(t, k, dropped.drop_last());
        if spec_parks_on(t, dropped.last(), k) { p.push(dropped.last()) } else { p }
    }
}

/// Taking element `idx` out of `q` by moving the last element into its
/// place leaves the rest of `q`, as a multiset.
proof fn lemma_swap_remove_multiset(q: Seq<u64>, idx: int)
    requires
        0 <= idx < q.len(),
    ensures
        q.update(idx, q.last()).drop_last().to_multiset().insert(q[idx]) =~= q.to_multiset(),
{
    broadcast use vstd::seq_lib::group_to_multiset_ensures, vstd::multiset::group_multiset_axioms;
    let u = q.update(idx, q.last());
    let nq = u.drop_last();
    assert(u == nq.push(u.last()));
    assert(u.last() == q.last());
    vstd::seq_lib::to_multiset_update(q, idx, q.last());
    assert(u.to_multiset() =~= nq.to_multiset().insert(q.last()));
    assert(q.to_multiset().count(q[idx]) > 0) by {
        assert(q.contains(q[idx]));
    }
    assert forall|v: u64| #[trigger] nq.to_multiset().insert(q[idx]).count(v) == q.to_multiset().count(v) by {
        assert(u.to_multiset().count(v) == q.to_multiset().insert(q.last()).remove(q[idx]).count(v));
    }
}

/// Two registries with the same task records and the same liveness,
/// pause state and incarnation of every node agree on which tasks can run.
proof fn lemma_runnable_same(a: TaskHandle, b: TaskHandle, x: u64)
    requires
        forall|k: u64| #[trigger] b.spec_task(k) == a.spec_task(k),
        forall|k: u64| #[trigger] b.spec_node(k) is Some == a.spec_node(k) is Some,
        forall|k: u64| a.spec_node(k) is Some ==> {
            let n = #[trigger] b.spec_node(k)->0;
            let o = a.spec_node(k)->0;
            n.killed == o.killed && n.paused == o.paused && n.incarnation == o.incarnation
        },
    ensures
        spec_runnable(a, x) == spec_runnable(b, x),
        forall|k: u64| #[trigger] spec_parks_on(a, x, k) == spec_parks_on(b, x, k),
{
    if let Some(rec) = a.spec_task(x) {
        assert(b.spec_task(x) == a.spec_task(x));
        assert(b.spec_node(rec.node) is Some == a.spec_node(rec.node) is Some);
    } else {
        assert(b.spec_task(x) == a.spec_task(x));
    }
}

/// What firing timer events hands back: the initial tasks spawned by
/// restarts, with their nodes, and the messages that have arrived.
pub struct Fired {
    pub inits: Vec<(NodeId, Id)>,
    pub deliveries: Vec<Delivery>,
}

/// A restart event names a node of `task` other than the main one.
pub open spec fn restart_names_node(e: TimerEvent, task: TaskHandle) -> bool {
    match e {
        TimerEvent::Restart(n) => n != 0 && task.spec_node(n) is Some,
        _ => true,
    }
}

/// `events` with `e` inserted at position `p`.
pub open spec fn timer_insert(events: Seq<(Instant, TimerEvent)>, p: int, e: (Instant, TimerEvent)) -> Seq<(Instant, TimerEvent)> {
    events.take(p).push(e) + events.skip(p)
}

/// How many of `evs` restart a node of `task` that has an initial task.
pub open spec fn restarts_with_init(evs: Seq<TimerEvent>, task: TaskHandle) -> int
    decreases evs.len(),
{
    if evs.len() == 0 {
        0
    } else {
        restarts_with_init(evs.drop_last(), task) + match evs.last() {
            TimerEvent::Restart(n) => if task.spec_node(n) matches Some(s) && s.has_init { 1int } else { 0int },
            _ => 0int,
        }
    }
}

/// The task ids that firing `evs` in order puts on the ready queue: a woken
/// task, or the initial task of a restarted node, which gets the next task
/// id counted from `next`.
pub open spec fn fired_ready(evs: Seq<TimerEvent>, task: TaskHandle, next: int) -> Seq<u64>
    decreases evs.len(),
{
    if evs.len() == 0 {
        Seq::empty()
    } else {
        fired_ready(evs.drop_last(), task, next) + match evs.last() {
            TimerEvent::Wake(t) => seq![t],
            TimerEvent::Restart(n) => if task.spec_node(n) matches Some(s) && s.has_init {
                seq![(next + restarts_with_init(evs.drop_last(), task)) as u64]
            } else {
                Seq::<u64>::empty()
            },
            TimerEvent::Deliver(_) => Seq::<u64>::empty(),
        }
    }
}

/// The messages among `evs` that arrive, in order.
pub open spec fn fired_deliveries(evs: Seq<TimerEvent>) -> Seq<Delivery>
    decreases evs.len(),
{
    if evs.len() == 0 {
        Seq::empty()
    } else {
        fired_deliveries(evs.drop_last()) + match evs.last() {
            TimerEvent::Deliver(d) => seq![d],
            _ => Seq::<Delivery>::empty(),
        }
    }
}

/// The wait before the next attempt to send on a clogged link: twice the
/// last one, at most 10 s.
pub fn next_backoff(wait: Duration) -> (r: Duration)
    ensures
        r.nanos == if 2 * wait.nanos < 10_000_000_000 { 2 * wait.nanos } else { 10_000_000_000 },
{
    if wait.nanos < 5_000_000_000 {
        Duration { nanos: 2 * wait.nanos }
    } else {
        Duration { nanos: 10_000_000_000 }
    }
}

/// Why the runtime cannot go on.
#[derive(Clone, Copy, Debug, PartialEq, Eq, Structural)]
pub enum RuntimeError {
    /// No task is ready and no timer is pending: every task would block forever.
    NoEvents,
    /// The simulated time reached the time limit.
    TimeLimitExceeded,
    /// The simulated clock would leave the range it can represent.
    ClockOverflow,
}

/// What the executor does after a task ran.
#[derive(Clone, Copy, Debug, PartialEq, Eq, Structural)]
pub enum AfterRun {
    /// Go on with the next ready task.
    Continue,
    /// The task panicked on a node that is not restarted on panic: the
    /// panic goes on up to the caller of `block_on`.
    ResumePanic,
}

/// The madsim runtime: a random number generator, a clock with its timer,
/// the registry of nodes and tasks with the queue of ready tasks, and the
/// simulated network and file system.
pub struct Runtime {
    rand: GlobalRng,
    time: TimeRuntime<TimerEvent>,
    task: TaskHandle,
    queue: Channel<u64>,
    net: Network,
    dns: DnsServer,
    fs: FsSim,
    config: Config,
    time_limit: Option<Duration>,
}

impl Runtime {
    /// The random number generator.
    pub closed spec fn spec_rand(&self) -> GlobalRng {
        self.rand
    }

    /// The simulated time at which the runtime's draws are recorded.
    pub open spec fn spec_draw_time(&self) -> Option<Duration> {
        Some(Duration { nanos: self.spec_time().elapsed_nanos() as u64 })
    }

    /// The clock and its timer.
    pub closed spec fn spec_time(&self) -> TimeRuntime<TimerEvent> {
        self.time
    }

    /// The registry of nodes and tasks.
    pub closed spec fn spec_task(&self) -> TaskHandle {
        self.task
    }

    /// The ids of the tasks ready to run, in queue order.
    pub closed spec fn spec_queue(&self) -> Seq<u64> {
        self.queue.spec_queue()
    }

    /// The simulated network.
    pub closed spec fn spec_net(&self) -> Network {
        self.net
    }

    /// The name server of the network.
    pub closed spec fn spec_dns(&self) -> DnsServer {
        self.dns
    }

    /// The simulated file systems.
    pub closed spec fn spec_fs(&self) -> FsSim {
        self.fs
    }

    /// The configuration.
    pub closed spec fn spec_config(&self) -> Config {
        self.config
    }

    /// The time limit, if any.
    pub closed spec fn spec_time_limit(&self) -> Option<Duration> {
        self.time_limit
    }

    /// The invariant: every part is well-formed, the ready queue can always
    /// be sent to, and every node of the registry has a network node and a
    /// file system.
    pub closed spec fn wf(&self) -> bool {
        &&& self.rand.wf()
        &&& self.time.wf()
        &&& self.task.wf()
        &&& self.net.wf()
        &&& self.dns.wf()
        &&& self.fs.wf()
        &&& self.queue.spec_receiver_alive()
        &&& forall|id: u64| #[trigger] self.task.spec_node(id) is Some
            ==> self.net.spec_nodes().contains_key(id) && self.fs.spec_node(id) is Some
        &&& forall|i: int| 0 <= i < self.time.events().len() ==> restart_names_node((#[trigger] self.time.events()[i]).1, self.task)
    }

    /// Every part of the runtime but the registry, the queue and the parts
    /// named are as in `o`.
    pub open spec fn same_rand_time(&self, o: Runtime) -> bool {
        &&& self.spec_rand() == o.spec_rand()
        &&& self.spec_time() == o.spec_time()
        &&& self.spec_config() == o.spec_config()
        &&& self.spec_time_limit() == o.spec_time_limit()
    }

    /// A runtime with the given seed and configuration: one draw places the
    /// wall clock somewhere in 2022; only the main node (0) exists, with a
    /// network node and an empty file system.
    pub fn with_seed_and_config(seed: u64, config: Config) -> (rt: Runtime)
        requires
            config.net.wf(),
        ensures
            rt.wf(),
            rt.spec_rand().spec_seed() == seed,
            !rt.spec_rand().spec_buggify(),
            rt.spec_rand().spec_record().log is None && rt.spec_rand().spec_record().check is None,
            exists|d: u64| d < SECS_PER_YEAR && rt.spec_time().base_time() == spec_base_time_nanos(d),
            ({
                let (d, next) = crate::rand::xoshiro_gen_range_of(crate::rand::xoshiro_seeded(seed), 0, SECS_PER_YEAR);
                rt.spec_time().base_time() == spec_base_time_nanos(d) && rt.spec_rand().spec_stream() == next
            }),
            rt.spec_time().elapsed_nanos() == 0,
            rt.spec_time().events().len() == 0,
            rt.spec_task().spec_nodes().len() == 0,
            rt.spec_task().spec_tasks().len() == 0,
            rt.spec_task().spec_node(0) matches Some(m) && !m.killed && !m.paused && m.incarnation == 0,
            rt.spec_task().spec_next_task_id() == 0,
            rt.spec_task().spec_next_node_id() == 1,
            rt.spec_queue().len() == 0,
            rt.spec_net().spec_nodes().dom() == set![0u64],
            rt.spec_net().spec_ports(0) == Set::<u16>::empty(),
            rt.spec_fs().spec_node(0) matches Some(n) && forall|p: Seq<char>| n.spec_file(p) is None,
            rt.spec_config() == config,
            rt.spec_time_limit() is None,
    {
        let mut rand = GlobalRng::new_with_seed(seed);
        let draw = rand.gen_range(0, SECS_PER_YEAR, None);
        let time: TimeRuntime<TimerEvent> = TimeRuntime::new(draw);
        let task = TaskHandle::new();
        let mut net = Network::new(config.net);
        net.insert_node(0);
        let mut fs = FsSim::new();
        fs.create_node(0);
        let rt = Runtime {
            rand,
            time,
            task,
            queue: Channel::channel(),
            net,
            dns: DnsServer::new(),
            fs,
            config,
            time_limit: None,
        };
        proof {
            assert(rt.net.spec_nodes().dom() =~= set![0u64]);
            assert forall|id: u64| #[trigger] rt.task.spec_node(id) is Some implies
                rt.net.spec_nodes().contains_key(id) && rt.fs.spec_node(id) is Some by {
                if id != 0 {
                    rt.task.lemma_node_listed(id);
                }
            }
        }
        rt
    }

    /// Whether node `ip` is held by some node.
    pub fn ip_in_use(&self, ip: IpAddr) -> (b: bool)
        requires
            self.wf(),
        ensures
            b == self.spec_net().spec_owner(ip) is Some,
    {
        self.net.owner(ip).is_some()
    }

    /// Creates a node from `b`: it is registered under the next node id and
    /// gets a network node, with address `b.ip` if one is set, and an empty
    /// file system. A node with an initial task has it spawned and queued; its
    /// id comes back. The address must not be held by another node.
    pub fn create_node(&mut self, b: NodeBuilder) -> (r: (NodeHandle, Option<Id>))
        requires
            old(self).wf(),
            old(self).spec_task().spec_next_node_id() < u64::MAX,
            old(self).spec_task().spec_next_task_id() < u64::MAX,
            b.ip matches Some(ip) ==> old(self).spec_net().spec_owner(ip) is None,
        ensures
            final(self).wf(),
            final(self).same_rand_time(*old(self)),
            ({
                let id = old(self).spec_task().spec_next_node_id();
                &&& r.0.spec_id().0 == id
                &&& id != 0
                &&& final(self).spec_task().spec_next_node_id() == id + 1
                &&& old(self).spec_task().spec_node(id) is None
                &&& final(self).spec_task().spec_node(id) matches Some(n) && {
                    &&& n.name == b.name
                    &&& n.cores == (match b.cores { Some(c) => c, None => 1 })
                    &&& n.restart_on_panic == b.restart_on_panic
                    &&& n.restart_on_panic_matching == b.restart_on_panic_matching
                    &&& n.has_init == b.has_init
                    &&& !n.paused && !n.killed && !n.ctrl_c && n.incarnation == 0
                    &&& n.parked@.len() == 0
                    &&& final(self).spec_task().spec_nodes() == old(self).spec_task().spec_nodes().push((id, n))
                }
                &&& final(self).spec_task().spec_next_task_id()
                    == old(self).spec_task().spec_next_task_id() + if b.has_init { 1int } else { 0int }
                &&& forall|k: u64| k != id ==> final(self).spec_task().spec_node(k) == old(self).spec_task().spec_node(k)
                &&& final(self).spec_net().spec_nodes().contains_key(id)
                &&& final(self).spec_net().spec_nodes()[id].ip == b.ip
                &&& final(self).spec_net().spec_ports(id) == Set::<u16>::empty()
                &&& final(self).spec_fs().spec_node(id) matches Some(f) && forall|p: Seq<char>| f.spec_file(p) is None
                &&& b.has_init ==> {
                    let t = old(self).spec_task().spec_next_task_id();
                    &&& r.1 == Some(Id(t))
                    &&& final(self).spec_task().spec_task(t) == Some(crate::task::TaskRecord { node: id, incarnation: 0, cancelled: false })
                    &&& final(self).spec_task().spec_tasks() == old(self).spec_task().spec_tasks().push((t, crate::task::TaskRecord { node: id, incarnation: 0, cancelled: false }))
                    &&& final(self).spec_queue() == old(self).spec_queue().push(t)
                }
                &&& !b.has_init ==> {
                    &&& r.1 is None
                    &&& final(self).spec_task().spec_tasks() == old(self).spec_task().spec_tasks()
                    &&& final(self).spec_queue() == old(self).spec_queue()
                }
            }),
    {
        let has_init = b.has_init;
        let ip = b.ip;
        let id = self.task.create_node(b.name, b.has_init, b.cores, b.restart_on_panic, b.restart_on_panic_matching);
        self.fs.create_node(id.0);
        self.net.insert_node(id.0);
        match ip {
            Some(ip) => self.net.set_ip(id.0, ip),
            None => {},
        }
        let init = if has_init {
            let t = self.task.spawn(id, 0);
            let _ = self.queue.send(t.0);
            Some(t)
        } else {
            None
        };
        proof {
            assert forall|k: u64| #[trigger] self.task.spec_node(k) is Some implies
                self.net.spec_nodes().contains_key(k) && self.fs.spec_node(k) is Some by {
                if k != id.0 {
                    assert(old(self).task.spec_node(k) is Some);
                }
            }
            assert forall|i: int| 0 <= i < self.time.events().len() implies restart_names_node((#[trigger] self.time.events()[i]).1, self.task) by {
                assert(old(self).time.events()[i] == self.time.events()[i]);
            }
        }
        (NodeHandle::new(id), init)
    }

    /// Kills node `id`: its tasks stop and its parked tasks are dropped, its
    /// sockets are closed and its file system loses what was not flushed. The
    /// node must exist.
    pub fn kill(&mut self, id: NodeId)
        requires
            old(self).wf(),
            id.0 != 0,
            old(self).spec_task().spec_node(id.0) is Some,
        ensures
            final(self).spec_task().spec_next_task_id() == old(self).spec_task().spec_next_task_id(),
            final(self).spec_task().spec_next_node_id() == old(self).spec_task().spec_next_node_id(),
            final(self).wf(),
            final(self).same_rand_time(*old(self)),
            final(self).spec_task().spec_node(id.0) matches Some(n) && {
                let o = old(self).spec_task().spec_node(id.0)->0;
                &&& n.killed && n.parked@.len() == 0
                &&& n.incarnation == o.incarnation && n.paused == o.paused && n.ctrl_c == o.ctrl_c
                &&& n.restart_on_panic == o.restart_on_panic && n.has_init == o.has_init
                &&& n.restart_on_panic_matching == o.restart_on_panic_matching
            },
            forall|k: u64| k != id.0 ==> final(self).spec_task().spec_node(k) == old(self).spec_task().spec_node(k),
            final(self).spec_task().spec_tasks() == old(self).spec_task().spec_tasks(),
            final(self).spec_queue() == old(self).spec_queue(),
            final(self).spec_net().spec_ports(id.0) == Set::<u16>::empty(),
            final(self).spec_net().spec_nodes()[id.0].ip == old(self).spec_net().spec_nodes()[id.0].ip,
            forall|k: u64| k != id.0 && old(self).spec_net().spec_nodes().contains_key(k)
                ==> final(self).spec_net().spec_nodes()[k] == old(self).spec_net().spec_nodes()[k],
            forall|k: u64| final(self).spec_fs().spec_node(k) == old(self).spec_fs().spec_node(k),
    {
        self.task.kill(id);
        self.reset_sims(id);
        proof { self.lemma_restart_events_kept(*old(self)); }
    }

    /// Restarts node `id`: its tasks stop and it starts its next incarnation,
    /// not paused and without a "ctrl-c" handler. A node with an initial task
    /// has it spawned and queued again; its id comes back. The node must exist.
    pub fn restart(&mut self, id: NodeId) -> (r: Option<Id>)
        requires
            old(self).wf(),
            id.0 != 0,
            old(self).spec_task().spec_node(id.0) is Some,
            old(self).spec_task().spec_next_task_id() < u64::MAX,
        ensures
            final(self).spec_task().spec_next_node_id() == old(self).spec_task().spec_next_node_id(),
            final(self).wf(),
            final(self).same_rand_time(*old(self)),
            final(self).spec_net() == old(self).spec_net(),
            final(self).spec_fs() == old(self).spec_fs(),
            final(self).spec_task().spec_node(id.0) matches Some(n) && {
                let o = old(self).spec_task().spec_node(id.0)->0;
                &&& !n.killed && !n.paused && !n.ctrl_c && n.parked@.len() == 0
                &&& n.incarnation == o.incarnation.wrapping_add(1)
                &&& n.restart_on_panic == o.restart_on_panic && n.has_init == o.has_init
                &&& n.restart_on_panic_matching == o.restart_on_panic_matching
                &&& o.has_init ==> {
                    let t = old(self).spec_task().spec_next_task_id();
                    &&& r == Some(Id(t))
                    &&& final(self).spec_task().spec_tasks() == old(self).spec_task().spec_tasks().push(
                        (t, crate::task::TaskRecord { node: id.0, incarnation: n.incarnation, cancelled: false }))
                    &&& final(self).spec_queue() == old(self).spec_queue().push(t)
                }
                &&& !o.has_init ==> r is None && final(self).spec_queue() == old(self).spec_queue()
                    && final(self).spec_task().spec_tasks() == old(self).spec_task().spec_tasks()
            },
            forall|k: u64| k != id.0 ==> final(self).spec_task().spec_node(k) == old(self).spec_task().spec_node(k),
    {
        let has_init = self.task.restart(id);
        let r = if has_init {
            let inc = self.task.get_node(id).unwrap();
            let t = self.task.spawn(id, inc);
            let _ = self.queue.send(t.0);
            Some(t)
        } else {
            None
        };
        proof { self.lemma_restart_events_kept(*old(self)); }
        r
    }

    /// Pauses node `id`: its tasks that become ready are parked until it
    /// resumes. The node must exist.
    pub fn pause(&mut self, id: NodeId)
        requires
            old(self).wf(),
            id.0 != 0,
            old(self).spec_task().spec_node(id.0) is Some,
        ensures
            final(self).spec_task().spec_next_task_id() == old(self).spec_task().spec_next_task_id(),
            final(self).spec_task().spec_next_node_id() == old(self).spec_task().spec_next_node_id(),
            final(self).wf(),
            final(self).same_rand_time(*old(self)),
            final(self).spec_net() == old(self).spec_net(),
            final(self).spec_fs() == old(self).spec_fs(),
            final(self).spec_queue() == old(self).spec_queue(),
            final(self).spec_task().spec_tasks() == old(self).spec_task().spec_tasks(),
            final(self).spec_task().spec_node(id.0) matches Some(n) && {
                let o = old(self).spec_task().spec_node(id.0)->0;
                &&& n.paused
                &&& n.killed == o.killed && n.incarnation == o.incarnation && n.parked == o.parked
            },
            forall|k: u64| k != id.0 ==> final(self).spec_task().spec_node(k) == old(self).spec_task().spec_node(k),
    {
        self.task.pause(id);
        proof { self.lemma_restart_events_kept(*old(self)); }
    }

    /// Resumes node `id`: the tasks parked while it was paused go back to the
    /// ready queue, in the order they were parked. The node must exist.
    pub fn resume(&mut self, id: NodeId)
        requires
            old(self).wf(),
            id.0 != 0,
            old(self).spec_task().spec_node(id.0) is Some,
        ensures
            final(self).spec_task().spec_next_task_id() == old(self).spec_task().spec_next_task_id(),
            final(self).spec_task().spec_next_node_id() == old(self).spec_task().spec_next_node_id(),
            final(self).wf(),
            final(self).same_rand_time(*old(self)),
            final(self).spec_net() == old(self).spec_net(),
            final(self).spec_fs() == old(self).spec_fs(),
            final(self).spec_task().spec_tasks() == old(self).spec_task().spec_tasks(),
            final(self).spec_task().spec_node(id.0) matches Some(n) && {
                let o = old(self).spec_task().spec_node(id.0)->0;
                &&& !n.paused && n.parked@.len() == 0
                &&& n.killed == o.killed && n.incarnation == o.incarnation
                &&& final(self).spec_queue() == old(self).spec_queue() + o.parked@
            },
            forall|k: u64| k != id.0 ==> final(self).spec_task().spec_node(k) == old(self).spec_task().spec_node(k),
    {
        let ready = self.task.resume(id);
        let ghost q0 = self.queue.spec_queue();
        let ghost s0 = *self;
        let mut i: usize = 0;
        while i < ready.len()
            invariant
                i <= ready@.len(),
                self.queue.spec_receiver_alive(),
                self.rand == s0.rand && self.time == s0.time && self.task == s0.task,
                self.net == s0.net && self.fs == s0.fs && self.dns == s0.dns,
                self.config == s0.config && self.time_limit == s0.time_limit,
                self.queue.spec_queue() == q0 + ready@.take(i as int),
            decreases ready@.len() - i,
        {
            let _ = self.queue.send(ready[i]);
            proof { assert(ready@.take(i + 1) == ready@.take(i as int).push(ready@[i as int])); }
            i = i + 1;
        }
        proof {
            assert(ready@.take(ready@.len() as int) == ready@);
            self.lemma_restart_events_kept(*old(self));
        }
    }

    /// Sends a "ctrl-c" signal to node `id`: an installed handler is notified;
    /// without one the node is killed as by [`Self::kill`]. The node must
    /// exist.
    pub fn send_ctrl_c(&mut self, id: NodeId) -> (r: CtrlC)
        requires
            old(self).wf(),
            id.0 != 0,
            old(self).spec_task().spec_node(id.0) is Some,
        ensures
            final(self).spec_task().spec_next_task_id() == old(self).spec_task().spec_next_task_id(),
            final(self).spec_task().spec_next_node_id() == old(self).spec_task().spec_next_node_id(),
            final(self).wf(),
            final(self).same_rand_time(*old(self)),
            final(self).spec_queue() == old(self).spec_queue(),
            final(self).spec_task().spec_tasks() == old(self).spec_task().spec_tasks(),
            old(self).spec_task().spec_node(id.0)->0.ctrl_c ==> r == CtrlC::Signalled
                && final(self).spec_task() == old(self).spec_task()
                && final(self).spec_net() == old(self).spec_net(),
            !old(self).spec_task().spec_node(id.0)->0.ctrl_c ==> {
                &&& r == CtrlC::Killed
                &&& final(self).spec_task().spec_node(id.0) matches Some(n) && n.killed && n.parked@.len() == 0
                &&& final(self).spec_net().spec_ports(id.0) == Set::<u16>::empty()
            },
            forall|k: u64| k != id.0 ==> final(self).spec_task().spec_node(k) == old(self).spec_task().spec_node(k),
            forall|k: u64| final(self).spec_fs().spec_node(k) == old(self).spec_fs().spec_node(k),
    {
        if self.ctrl_c_installed(id) {
            return CtrlC::Signalled;
        }
        let r = self.task.send_ctrl_c(id);
        self.reset_sims(id);
        proof { self.lemma_restart_events_kept(*old(self)); }
        r
    }

    /// Whether node `id` has a "ctrl-c" handler installed.
    fn ctrl_c_installed(&self, id: NodeId) -> (b: bool)
        requires
            self.task.wf(),
            id.0 != 0,
            self.task.spec_node(id.0) is Some,
        ensures
            b == self.task.spec_node(id.0)->0.ctrl_c,
    {
        self.task.ctrl_c_installed(id)
    }

    /// Whether node `id` is killed or has exited. The node must exist.
    pub fn is_exit(&self, id: NodeId) -> (b: bool)
        requires
            self.wf(),
            id.0 != 0,
            self.spec_task().spec_node(id.0) is Some,
        ensures
            b == self.spec_task().spec_node(id.0)->0.killed,
    {
        self.task.is_exit(id)
    }

    /// The handle of node `id` and its current incarnation, if the node
    /// exists; node 0 is the main node.
    pub fn get_node(&self, id: NodeId) -> (r: Option<(NodeHandle, u64)>)
        requires
            self.wf(),
        ensures
            match self.spec_task().spec_node(id.0) {
                Some(n) => r matches Some(p) && p.0.spec_id() == id && p.1 == n.incarnation,
                None => r is None,
            },
    {
        match self.task.get_node(id) {
            Some(inc) => Some((NodeHandle::new(id), inc)),
            None => None,
        }
    }

    /// Spawns a task on node `node` at incarnation `inc` and queues it; returns
    /// its id. The node must be alive at that incarnation.
    pub fn spawn(&mut self, node: NodeId, inc: u64) -> (t: Id)
        requires
            old(self).wf(),
            !old(self).spec_task().spec_info_dead(node.0, inc),
            old(self).spec_task().spec_next_task_id() < u64::MAX,
        ensures
            final(self).spec_task().spec_next_node_id() == old(self).spec_task().spec_next_node_id(),
            final(self).spec_task().spec_next_task_id() == old(self).spec_task().spec_next_task_id() + 1,
            final(self).wf(),
            final(self).same_rand_time(*old(self)),
            final(self).spec_net() == old(self).spec_net(),
            final(self).spec_fs() == old(self).spec_fs(),
            t.0 == old(self).spec_task().spec_next_task_id(),
            final(self).spec_task().spec_tasks() == old(self).spec_task().spec_tasks().push(
                (t.0, crate::task::TaskRecord { node: node.0, incarnation: inc, cancelled: false })),
            final(self).spec_task().spec_task(t.0) == Some(crate::task::TaskRecord { node: node.0, incarnation: inc, cancelled: false }),
            forall|k: u64| k != t.0 ==> final(self).spec_task().spec_task(k) == old(self).spec_task().spec_task(k),
            forall|k: u64| final(self).spec_task().spec_node(k) == old(self).spec_task().spec_node(k),
            final(self).spec_queue() == old(self).spec_queue().push(t.0),
    {
        let t = self.task.spawn(node, inc);
        let _ = self.queue.send(t.0);
        proof { self.lemma_restart_events_kept(*old(self)); }
        t
    }

    /// The id the next spawned task gets.
    pub fn next_task_id(&self) -> (t: u64)
        ensures
            t == self.spec_task().spec_next_task_id(),
    {
        self.task.next_task_id()
    }

    /// The id the next created node gets.
    pub fn next_node_id(&self) -> (n: u64)
        ensures
            n == self.spec_task().spec_next_node_id(),
    {
        self.task.next_node_id()
    }

    /// The number of pending timer events.
    pub fn pending_events(&self) -> (n: usize)
        ensures
            n == self.spec_time().events().len(),
    {
        self.time.pending()
    }

    /// The simulated time elapsed since the start.
    pub fn elapsed(&self) -> (d: Duration)
        ensures
            d.nanos == self.spec_time().elapsed_nanos(),
    {
        self.time.elapsed()
    }

    /// The current simulated instant.
    pub fn now(&self) -> (t: Instant)
        ensures
            t.nanos == self.spec_time().elapsed_nanos(),
    {
        self.time.now_instant()
    }

    /// Takes ready tasks off the queue, each chosen at random, until one can
    /// run, and returns it: tasks that have completed, were cancelled or
    /// whose node is dead are dropped, and those whose node is paused are
    /// parked on it. `None` once the queue is empty.
    pub fn next_runnable(&mut self) -> (r: Option<Id>)
        requires
            old(self).wf(),
        ensures
            final(self).spec_task().spec_next_task_id() == old(self).spec_task().spec_next_task_id(),
            final(self).spec_task().spec_next_node_id() == old(self).spec_task().spec_next_node_id(),
            final(self).wf(),
            final(self).spec_time() == old(self).spec_time(),
            final(self).spec_net() == old(self).spec_net(),
            final(self).spec_fs() == old(self).spec_fs(),
            final(self).spec_config() == old(self).spec_config(),
            final(self).spec_time_limit() == old(self).spec_time_limit(),
            final(self).spec_rand().spec_seed() == old(self).spec_rand().spec_seed(),
            final(self).spec_rand().spec_buggify() == old(self).spec_rand().spec_buggify(),
            final(self).spec_task().spec_tasks() == old(self).spec_task().spec_tasks(),
            final(self).spec_queue().len() <= old(self).spec_queue().len(),
            forall|x: u64| #[trigger] final(self).spec_queue().contains(x) ==> old(self).spec_queue().contains(x),
            forall|k: u64| #[trigger] final(self).spec_task().spec_node(k) is Some == old(self).spec_task().spec_node(k) is Some,
            forall|k: u64| old(self).spec_task().spec_node(k) is Some ==> {
                let n = #[trigger] final(self).spec_task().spec_node(k)->0;
                let o = old(self).spec_task().spec_node(k)->0;
                n.killed == o.killed && n.paused == o.paused && n.incarnation == o.incarnation
            },
            r is None ==> final(self).spec_queue().len() == 0
                && forall|x: u64| #[trigger] old(self).spec_queue().contains(x) ==> !spec_runnable(old(self).spec_task(), x),
            ({
                let p = spec_pick(old(self).spec_queue(), old(self).spec_rand().spec_stream(), old(self).spec_task());
                &&& r == (match p.0 { Some(x) => Some(Id(x)), None => None })
                &&& final(self).spec_queue() == p.1
                &&& final(self).spec_rand().spec_stream() == p.2
            }),
            exists|dropped: Seq<u64>| #![trigger dropped.to_multiset()] {
                &&& forall|i: int| 0 <= i < dropped.len() ==> !spec_runnable(old(self).spec_task(), #[trigger] dropped[i])
                &&& old(self).spec_queue().to_multiset() == (match r {
                    Some(t) => final(self).spec_queue().to_multiset().insert(t.0),
                    None => final(self).spec_queue().to_multiset(),
                }).add(dropped.to_multiset())
                &&& forall|k: u64| old(self).spec_task().spec_node(k) is Some ==>
                    (#[trigger] final(self).spec_task().spec_node(k))->0.parked@
                        == old(self).spec_task().spec_node(k)->0.parked@ + parked_of(old(self).spec_task(), k, dropped)
            },
            r matches Some(t) ==> {
                &&& old(self).spec_queue().contains(t.0)
                &&& final(self).spec_queue().len() < old(self).spec_queue().len()
                &&& final(self).spec_task().spec_task(t.0) matches Some(rec) && !rec.cancelled
                    && !final(self).spec_task().spec_info_dead(rec.node, rec.incarnation)
                    && !final(self).spec_task().spec_node(rec.node)->0.paused
            },
    {
        let ghost s0 = *self;
        let ghost mut dropped: Seq<u64> = Seq::empty();
        proof {
            let p = spec_pick(self.queue.spec_queue(), self.rand.spec_stream(), s0.task);
            assert(dropped + p.3 =~= p.3);
            assert(s0.queue.spec_queue().to_multiset() =~= self.queue.spec_queue().to_multiset().add(dropped.to_multiset())) by {
                broadcast use vstd::seq_lib::group_to_multiset_ensures, vstd::multiset::group_multiset_axioms;
                assert(dropped.to_multiset() =~= vstd::multiset::Multiset::empty());
            }
            assert forall|k: u64| s0.task.spec_node(k) is Some implies
                (#[trigger] self.task.spec_node(k))->0.parked@ == s0.task.spec_node(k)->0.parked@ + parked_of(s0.task, k, dropped) by {
                assert(s0.task.spec_node(k)->0.parked@ + Seq::<u64>::empty() =~= s0.task.spec_node(k)->0.parked@);
            }
        }
        loop
            invariant
                s0 == *old(self),
                ({
                    let p0 = spec_pick(s0.queue.spec_queue(), s0.rand.spec_stream(), s0.task);
                    let p = spec_pick(self.queue.spec_queue(), self.rand.spec_stream(), s0.task);
                    p0.0 == p.0 && p0.1 == p.1 && p0.2 == p.2 && p0.3 == dropped + p.3
                }),
                forall|i: int| 0 <= i < dropped.len() ==> !spec_runnable(s0.task, #[trigger] dropped[i]),
                s0.queue.spec_queue().to_multiset() == self.queue.spec_queue().to_multiset().add(dropped.to_multiset()),
                forall|k: u64| s0.task.spec_node(k) is Some ==>
                    (#[trigger] self.task.spec_node(k))->0.parked@ == s0.task.spec_node(k)->0.parked@ + parked_of(s0.task, k, dropped),
                self.wf(),
                self.time == s0.time && self.net == s0.net && self.fs == s0.fs && self.dns == s0.dns,
                self.config == s0.config && self.time_limit == s0.time_limit,
                self.rand.spec_seed() == s0.rand.spec_seed(),
                self.rand.spec_buggify() == s0.rand.spec_buggify(),
                self.task.spec_tasks() == s0.task.spec_tasks(),
                forall|k: u64| #[trigger] self.task.spec_task(k) == s0.task.spec_task(k),
                self.queue.spec_queue().len() <= s0.queue.spec_queue().len(),
                forall|x: u64| #[trigger] self.queue.spec_queue().contains(x) ==> s0.queue.spec_queue().contains(x),
                forall|x: u64| #[trigger] s0.queue.spec_queue().contains(x) ==> self.queue.spec_queue().contains(x)
                    || !spec_runnable(s0.task, x),
                forall|x: u64| spec_runnable(s0.task, x) == #[trigger] spec_runnable(self.task, x),
                self.task.spec_next_task_id() == s0.task.spec_next_task_id(),
                self.task.spec_next_node_id() == s0.task.spec_next_node_id(),
                forall|k: u64| #[trigger] self.task.spec_node(k) is Some == s0.task.spec_node(k) is Some,
                forall|k: u64| s0.task.spec_node(k) is Some ==> {
                    let n = #[trigger] self.task.spec_node(k)->0;
                    let o = s0.task.spec_node(k)->0;
                    n.killed == o.killed && n.paused == o.paused && n.incarnation == o.incarnation
                },
            decreases self.queue.spec_queue().len(),
        {
            let at = Some(self.time.elapsed());
            let ghost q = self.queue.spec_queue();
            let ghost t0 = self.task;
            match self.queue.try_recv_random(&mut self.rand, at) {
                Ok(t) => {
                    let ghost idx: int = choose|idx: int| 0 <= idx < q.len() && t == q[idx]
                        && self.queue.spec_queue() == q.update(idx, q.last()).drop_last();
                    proof {
                        lemma_swap_remove_multiset(q, idx);
                        assert(q.contains(t));
                        assert forall|x: u64| #[trigger] self.queue.spec_queue().contains(x) implies q.contains(x) by {
                            let j = choose|j: int| 0 <= j < self.queue.spec_queue().len() && self.queue.spec_queue()[j] == x;
                            if j == idx {
                                assert(q[q.len() - 1] == x);
                            } else {
                                assert(q[j] == x);
                            }
                        }
                    }
                    let d = self.task.dispatch(Id(t));
                    proof {
                        assert forall|k: u64| #[trigger] self.task.spec_node(k) is Some implies
                            self.net.spec_nodes().contains_key(k) && self.fs.spec_node(k) is Some by {
                            assert(t0.spec_node(k) is Some);
                        }
                        assert forall|i: int| 0 <= i < self.time.events().len() implies
                            restart_names_node((#[trigger] self.time.events()[i]).1, self.task) by {
                            assert(restart_names_node(self.time.events()[i].1, t0));
                        }
                        assert forall|k: u64| s0.task.spec_node(k) is Some implies {
                            let n = #[trigger] self.task.spec_node(k)->0;
                            let o = s0.task.spec_node(k)->0;
                            n.killed == o.killed && n.paused == o.paused && n.incarnation == o.incarnation
                        } by {
                            assert(t0.spec_node(k) is Some);
                        }
                        assert forall|x: u64| spec_runnable(s0.task, x) == #[trigger] spec_runnable(self.task, x) by {
                            lemma_runnable_same(s0.task, self.task, x);
                        }
                    }
                    match d {
                        Dispatch::Run => {
                            proof {
                                broadcast use vstd::multiset::group_multiset_axioms;
                                assert(s0.queue.spec_queue().to_multiset() =~= self.queue.spec_queue().to_multiset().insert(t).add(dropped.to_multiset()));
                                assert forall|k: u64| s0.task.spec_node(k) is Some implies
                                    (#[trigger] self.task.spec_node(k))->0.parked@ == s0.task.spec_node(k)->0.parked@ + parked_of(s0.task, k, dropped) by {
                                    assert(t0.spec_node(k) is Some);
                                }
                            }
                            return Some(Id(t));
                        },
                        _ => {
                            proof {
                                assert(!spec_runnable(t0, t));
                                let nd = dropped.push(t);
                                assert(nd.drop_last() == dropped);
                                assert(nd.last() == t);
                                lemma_runnable_same(s0.task, t0, t);
                                assert forall|i: int| 0 <= i < nd.len() implies !spec_runnable(s0.task, #[trigger] nd[i]) by {
                                    if i < dropped.len() {
                                        assert(nd[i] == dropped[i]);
                                    }
                                }
                                assert(s0.queue.spec_queue().to_multiset() =~= self.queue.spec_queue().to_multiset().add(nd.to_multiset())) by {
                                    broadcast use vstd::seq_lib::group_to_multiset_ensures, vstd::multiset::group_multiset_axioms;
                                }
                                assert forall|k: u64| s0.task.spec_node(k) is Some implies
                                    (#[trigger] self.task.spec_node(k))->0.parked@ == s0.task.spec_node(k)->0.parked@ + parked_of(s0.task, k, nd) by {
                                    assert(t0.spec_node(k) is Some);
                                    let a = s0.task.spec_node(k)->0.parked@;
                                    let p = parked_of(s0.task, k, dropped);
                                    if spec_parks_on(s0.task, t, k) {
                                        assert(a + p.push(t) =~= (a + p).push(t));
                                    }
                                }
                                dropped = nd;
                                assert forall|x: u64| #[trigger] s0.queue.spec_queue().contains(x) implies
                                    self.queue.spec_queue().contains(x) || !spec_runnable(s0.task, x) by {
                                    if x != t && q.contains(x) {
                                        let j = choose|j: int| 0 <= j < q.len() && q[j] == x;
                                        let nq = self.queue.spec_queue();
                                        if j == idx {
                                            assert(false);
                                        } else if j == q.len() - 1 {
                                            assert(nq[idx] == x);
                                        } else {
                                            assert(nq[j] == x);
                                        }
                                    }
                                }
                            }
                        },
                    }
                },
                Err(_) => {
                    proof {
                        broadcast use vstd::multiset::group_multiset_axioms;
                    }
                    return None;
                },
            }
        }
    }

    /// Whether a panic of task `task` with message `msg` restarts its node:
    /// the task is known, its node is not the main one, and the node
    /// restarts on every panic or on a message that holds one of its patterns.
    pub open spec fn panic_restarts(&self, task: u64, msg: Seq<u8>) -> bool {
        match self.spec_task().spec_task(task) {
            Some(t) => t.node != 0 && match self.spec_task().spec_node(t.node) {
                Some(n) => n.restart_on_panic || spec_holds_any(msg, n.restart_on_panic_matching@),
                None => false,
            },
            None => false,
        }
    }

    /// The node that a panic of task `task` with message `msg` restarts, if any.
    fn panic_restart_node(&self, task: Id, msg: &str) -> (r: Option<NodeId>)
        requires
            self.wf(),
        ensures
            r is Some == self.panic_restarts(task.0, msg.spec_bytes()),
            r matches Some(n) ==> self.spec_task().spec_task(task.0) matches Some(t) && n.0 == t.node,
    {
        match self.task.task(task) {
            Some(t) => {
                if t.node == 0 {
                    return None;
                }
                match self.task.node(NodeId(t.node)) {
                    Some(n) => {
                        if n.restart_on_panic || holds_any(msg, &n.restart_on_panic_matching) {
                            Some(NodeId(t.node))
                        } else {
                            None
                        }
                    },
                    None => None,
                }
            },
            None => None,
        }
    }

    /// After task `task` ran; `panic` holds its panic message if it
    /// panicked. A panic that restarts the task's node (see
    /// [`Self::panic_restarts`]) kills the node and schedules its restart
    /// after a delay drawn from 1 s..10 s; any other panic goes on up to the
    /// caller (`ResumePanic`) and nothing changes. Unless the panic goes on
    /// up, time then advances by a draw from 50 ns..100 ns.
    /// `ClockOverflow` only when the clock is within 10 s of the end of its range.
    pub fn after_run(&mut self, task: Id, panic: Option<&str>) -> (r: Result<AfterRun, RuntimeError>)
        requires
            old(self).wf(),
        ensures
            final(self).spec_task().spec_next_task_id() == old(self).spec_task().spec_next_task_id(),
            final(self).spec_task().spec_next_node_id() == old(self).spec_task().spec_next_node_id(),
            final(self).wf(),
            final(self).spec_rand().spec_seed() == old(self).spec_rand().spec_seed(),
            final(self).spec_config() == old(self).spec_config(),
            final(self).spec_time_limit() == old(self).spec_time_limit(),
            final(self).spec_time().base_time() == old(self).spec_time().base_time(),
            r is Err ==> r == Err::<AfterRun, RuntimeError>(RuntimeError::ClockOverflow)
                && old(self).spec_time().elapsed_nanos() + 10_000_000_100 > old(self).spec_time().max_deadline(),
            panic matches Some(m) && !old(self).panic_restarts(task.0, m.spec_bytes())
                ==> r == Ok::<AfterRun, RuntimeError>(AfterRun::ResumePanic) && *final(self) == *old(self),
            r == Ok::<AfterRun, RuntimeError>(AfterRun::ResumePanic)
                ==> (panic matches Some(m) && !old(self).panic_restarts(task.0, m.spec_bytes())),
            panic is None && r is Ok ==> {
                let (step, next) = crate::rand::xoshiro_gen_range_of(old(self).spec_rand().spec_stream(), 50, 100);
                &&& r == Ok::<AfterRun, RuntimeError>(AfterRun::Continue)
                &&& old(self).spec_time().elapsed_nanos() + 50 <= final(self).spec_time().elapsed_nanos() < old(self).spec_time().elapsed_nanos() + 100
                &&& final(self).spec_time().elapsed_nanos() == old(self).spec_time().elapsed_nanos() + step
                &&& final(self).spec_rand().spec_stream() == next
                &&& final(self).spec_time().events() == old(self).spec_time().events()
                &&& final(self).spec_task() == old(self).spec_task()
                &&& final(self).spec_queue() == old(self).spec_queue()
                &&& final(self).spec_net() == old(self).spec_net()
                &&& final(self).spec_fs() == old(self).spec_fs()
            },
            panic matches Some(m) && old(self).panic_restarts(task.0, m.spec_bytes()) && r is Ok ==> {
                let node = old(self).spec_task().spec_task(task.0)->0.node;
                let (delay, s1) = crate::rand::xoshiro_gen_range_of(old(self).spec_rand().spec_stream(), 1_000_000_000, 10_000_000_000);
                let (step, s2) = crate::rand::xoshiro_gen_range_of(s1, 50, 100);
                &&& r == Ok::<AfterRun, RuntimeError>(AfterRun::Continue)
                &&& old(self).spec_time().elapsed_nanos() + 50 <= final(self).spec_time().elapsed_nanos() < old(self).spec_time().elapsed_nanos() + 100
                &&& final(self).spec_time().elapsed_nanos() == old(self).spec_time().elapsed_nanos() + step
                &&& final(self).spec_rand().spec_stream() == s2
                &&& exists|p: int, at: Instant| 0 <= p <= old(self).spec_time().events().len()
                    && old(self).spec_time().elapsed_nanos() + 1_000_000_000 <= at.nanos < old(self).spec_time().elapsed_nanos() + 10_000_000_000
                    && at.nanos == old(self).spec_time().elapsed_nanos() + delay
                    && final(self).spec_time().events() == #[trigger] timer_insert(old(self).spec_time().events(), p, (at, TimerEvent::Restart(node)))
                &&& final(self).spec_task().spec_node(node) matches Some(n) && n.killed && n.parked@.len() == 0
                    && n.incarnation == old(self).spec_task().spec_node(node)->0.incarnation
                &&& forall|k: u64| k != node ==> final(self).spec_task().spec_node(k) == old(self).spec_task().spec_node(k)
                &&& final(self).spec_task().spec_tasks() == old(self).spec_task().spec_tasks()
                &&& final(self).spec_queue() == old(self).spec_queue()
                &&& final(self).spec_net().spec_ports(node) == Set::<u16>::empty()
            },
    {
        match panic {
            Some(msg) => {
                match self.panic_restart_node(task, msg) {
                    None => return Ok(AfterRun::ResumePanic),
                    Some(node) => {
                        let at = Some(self.time.elapsed());
                        let delay = self.rand.gen_range(1_000_000_000, 10_000_000_000, at);
                        let now = self.time.elapsed().nanos;
                        let max = self.time.max_deadline_nanos();
                        if now > max || delay > max - now {
                            return Err(RuntimeError::ClockOverflow);
                        }
                        self.kill(node);
                        let ghost before = *self;
                        self.time.add_timer(Instant { nanos: now + delay }, TimerEvent::Restart(node.0));
                        proof {
                            assert forall|i: int| 0 <= i < self.time.events().len() implies
                                restart_names_node((#[trigger] self.time.events()[i]).1, self.task) by {
                                let p = choose|p: int| {
                                    &&& 0 <= p <= before.time.events().len()
                                    &&& crate::timer::all_due(before.time.events().take(p), Instant { nanos: (now + delay) as u64 })
                                    &&& crate::timer::none_due(before.time.events().skip(p), Instant { nanos: (now + delay) as u64 })
                                    &&& self.time.events() == before.time.events().take(p).push((Instant { nanos: (now + delay) as u64 }, TimerEvent::Restart(node.0)))
                                        + before.time.events().skip(p)
                                };
                                if i < p {
                                    assert(self.time.events()[i] == before.time.events()[i]);
                                } else if i > p {
                                    assert(self.time.events()[i] == before.time.events()[i - 1]);
                                }
                            }
                            let p = choose|p: int| {
                                &&& 0 <= p <= before.time.events().len()
                                &&& crate::timer::all_due(before.time.events().take(p), Instant { nanos: (now + delay) as u64 })
                                &&& crate::timer::none_due(before.time.events().skip(p), Instant { nanos: (now + delay) as u64 })
                                &&& self.time.events() == before.time.events().take(p).push((Instant { nanos: (now + delay) as u64 }, TimerEvent::Restart(node.0)))
                                    + before.time.events().skip(p)
                            };
                            assert(self.time.events() == timer_insert(old(self).spec_time().events(), p, (Instant { nanos: (now + delay) as u64 }, TimerEvent::Restart(node.0))));
                        }
                    },
                }
            },
            None => {},
        }
        let at = Some(self.time.elapsed());
        let step = self.rand.gen_range(50, 100, at);
        let t = self.time.now_time_nanos();
        if t > u64::MAX - step {
            return Err(RuntimeError::ClockOverflow);
        }
        self.time.advance(Duration::from_nanos(step));
        Ok(AfterRun::Continue)
    }

    /// Advances time when no task is ready: the clock jumps to the closest
    /// timer event plus 50 ns and every event due by then fires, in order
    /// (see [`fired_ready`]). Returns the node and id of each initial task
    /// spawned by a restart. `NoEvents` when no timer is pending (nothing
    /// changes), `TimeLimitExceeded` when the new time reaches the time limit.
    pub fn advance_time(&mut self) -> (r: Result<Fired, RuntimeError>)
        requires
            old(self).wf(),
            old(self).spec_task().spec_next_task_id() + old(self).spec_time().events().len() < u64::MAX,
        ensures
            final(self).spec_task().spec_next_node_id() == old(self).spec_task().spec_next_node_id(),
            final(self).wf(),
            final(self).spec_rand() == old(self).spec_rand(),
            final(self).spec_net() == old(self).spec_net(),
            final(self).spec_fs() == old(self).spec_fs(),
            final(self).spec_config() == old(self).spec_config(),
            final(self).spec_time_limit() == old(self).spec_time_limit(),
            final(self).spec_time().base_time() == old(self).spec_time().base_time(),
            old(self).spec_time().events().len() == 0 ==> (r matches Err(e) && e == RuntimeError::NoEvents)
                && *final(self) == *old(self),
            old(self).spec_time().events().len() > 0 ==> {
                let time = old(self).spec_time().events()[0].0.nanos + crate::runtime_time::DEADLINE_EPSILON_NANOS;
                let next = old(self).spec_task().spec_next_task_id();
                &&& final(self).spec_time().elapsed_nanos() == time
                &&& exists|p: int| #![trigger old(self).spec_time().events().take(p)] {
                    let fired = crate::timer::payloads(old(self).spec_time().events().take(p));
                    &&& 1 <= p <= old(self).spec_time().events().len()
                    &&& crate::timer::all_due(old(self).spec_time().events().take(p), Instant { nanos: time as u64 })
                    &&& crate::timer::none_due(old(self).spec_time().events().skip(p), Instant { nanos: time as u64 })
                    &&& final(self).spec_time().events() == old(self).spec_time().events().skip(p)
                    &&& final(self).spec_queue() == old(self).spec_queue() + fired_ready(fired, old(self).spec_task(), next as int)
                    &&& final(self).spec_task().spec_next_task_id() == next + restarts_with_init(fired, old(self).spec_task())
                    &&& r matches Ok(v) ==> v.inits@.len() == restarts_with_init(fired, old(self).spec_task())
                        && v.deliveries@ == fired_deliveries(fired)
                }
                &&& r is Ok == match old(self).spec_time_limit() {
                    Some(l) => time < l.nanos,
                    None => true,
                }
                &&& r matches Err(e) ==> e == RuntimeError::TimeLimitExceeded
                &&& r matches Ok(v) ==> forall|j: int| 0 <= j < v.inits@.len() ==> (#[trigger] v.inits@[j]).1.0 == next + j
                    && (final(self).spec_task().spec_task(v.inits@[j].1.0) matches Some(rec) && rec.node == v.inits@[j].0.0)
            },
    {
        let ghost before = *self;
        match self.time.advance_to_next_event() {
            None => Err(RuntimeError::NoEvents),
            Some(fired) => {
                let ghost evs = before.time.events();
                let ghost t1 = self.time;
                proof {
                    let time = (evs[0].0.nanos + crate::runtime_time::DEADLINE_EPSILON_NANOS) as u64;
                    let p = choose|p: int| {
                        &&& 1 <= p <= evs.len()
                        &&& crate::timer::all_due(evs.take(p), Instant { nanos: time })
                        &&& crate::timer::none_due(evs.skip(p), Instant { nanos: time })
                        &&& fired@ == crate::timer::payloads(evs.take(p))
                        &&& self.time.events() == evs.skip(p)
                    };
                    assert forall|i: int| 0 <= i < fired@.len() implies restart_names_node(#[trigger] fired@[i], self.task) by {
                        assert(fired@[i] == evs.take(p)[i].1);
                        assert(restart_names_node(evs[i].1, before.task));
                    }
                }
                let out = self.fire_events(fired);
                proof {
                    assert forall|k: u64| #[trigger] self.task.spec_node(k) is Some implies
                        self.net.spec_nodes().contains_key(k) && self.fs.spec_node(k) is Some by {
                        assert(before.task.spec_node(k) is Some);
                    }
                    let time = (evs[0].0.nanos + crate::runtime_time::DEADLINE_EPSILON_NANOS) as u64;
                    let p = choose|p: int| {
                        &&& 1 <= p <= evs.len()
                        &&& crate::timer::all_due(evs.take(p), Instant { nanos: time })
                        &&& crate::timer::none_due(evs.skip(p), Instant { nanos: time })
                        &&& fired@ == crate::timer::payloads(evs.take(p))
                        &&& t1.events() == evs.skip(p)
                    };
                    assert forall|i: int| 0 <= i < self.time.events().len() implies
                        restart_names_node((#[trigger] self.time.events()[i]).1, self.task) by {
                        assert(self.time.events()[i] == evs[i + p]);
                        assert(restart_names_node(evs[i + p].1, before.task));
                    }
                }
                if self.time.within_time_limit(self.time_limit) {
                    Ok(out)
                } else {
                    Err(RuntimeError::TimeLimitExceeded)
                }
            },
        }
    }

    /// A random `u64` from the runtime's generator, drawn at the current
    /// simulated time.
    pub fn random(&mut self) -> (r: u64)
        requires
            old(self).wf(),
        ensures
            final(self).wf(),
            final(self).spec_rand().drawn_from(old(self).spec_rand(), old(self).spec_draw_time()),
            (r, final(self).spec_rand().spec_stream()) == crate::rand::xoshiro_next_u64_of(old(self).spec_rand().spec_stream()),
            final(self).spec_time() == old(self).spec_time(),
            final(self).spec_task() == old(self).spec_task(),
            final(self).spec_queue() == old(self).spec_queue(),
            final(self).spec_net() == old(self).spec_net(),
            final(self).spec_fs() == old(self).spec_fs(),
    {
        let at = Some(self.time.elapsed());
        self.rand.next_u64(at)
    }

    /// The hasher state of a new hash map or set of the simulation: four
    /// keys drawn from the runtime's generator at the current simulated time.
    pub fn hasher_state(&mut self) -> (h: crate::collections::SimRandomState)
        requires
            old(self).wf(),
        ensures
            final(self).wf(),
            crate::collections::four_draws_later(final(self).spec_rand(), old(self).spec_rand(), old(self).spec_draw_time(), h.0),
            final(self).spec_time() == old(self).spec_time(),
            final(self).spec_task() == old(self).spec_task(),
            final(self).spec_queue() == old(self).spec_queue(),
            final(self).spec_net() == old(self).spec_net(),
            final(self).spec_fs() == old(self).spec_fs(),
    {
        let at = Some(self.time.elapsed());
        crate::collections::SimRandomState::from_rng(&mut self.rand, at)
    }

    /// Fills `buf` with random bytes from the runtime's generator, drawn at
    /// the current simulated time; its length is kept.
    pub fn fill_bytes(&mut self, buf: &mut Vec<u8>)
        requires
            old(self).wf(),
        ensures
            final(self).wf(),
            final(buf)@.len() == old(buf)@.len(),
            final(self).spec_rand().drawn_from(old(self).spec_rand(), old(self).spec_draw_time()),
            (final(buf)@, final(self).spec_rand().spec_stream())
                == crate::rand::xoshiro_fill_bytes_of(old(self).spec_rand().spec_stream(), old(buf)@.len()),
            final(self).spec_time() == old(self).spec_time(),
            final(self).spec_task() == old(self).spec_task(),
            final(self).spec_queue() == old(self).spec_queue(),
            final(self).spec_net() == old(self).spec_net(),
            final(self).spec_fs() == old(self).spec_fs(),
    {
        let at = Some(self.time.elapsed());
        self.rand.fill_bytes(buf, at);
    }

    /// `true` with probability 1/4 when buggify is enabled; always `false`,
    /// with no draw, when it is disabled.
    pub fn buggify(&mut self) -> (b: bool)
        requires
            old(self).wf(),
        ensures
            final(self).wf(),
            b ==> old(self).spec_rand().spec_buggify(),
            !old(self).spec_rand().spec_buggify() ==> *final(self) == *old(self),
            old(self).spec_rand().spec_buggify() ==> final(self).spec_rand().drawn_from(old(self).spec_rand(), old(self).spec_draw_time())
                && (b, final(self).spec_rand().spec_stream()) == crate::rand::xoshiro_gen_ratio_of(old(self).spec_rand().spec_stream(), 1, 4),
            final(self).spec_rand().spec_buggify() == old(self).spec_rand().spec_buggify(),
            final(self).spec_rand().spec_seed() == old(self).spec_rand().spec_seed(),
            final(self).spec_time() == old(self).spec_time(),
            final(self).spec_task() == old(self).spec_task(),
            final(self).spec_queue() == old(self).spec_queue(),
            final(self).spec_net() == old(self).spec_net(),
            final(self).spec_fs() == old(self).spec_fs(),
    {
        let at = Some(self.time.elapsed());
        self.rand.buggify(at)
    }

    /// Enables or disables buggify.
    pub fn set_buggify(&mut self, enabled: bool)
        requires
            old(self).wf(),
        ensures
            final(self).wf(),
            final(self).spec_rand().spec_buggify() == enabled,
            final(self).spec_rand().spec_seed() == old(self).spec_rand().spec_seed(),
            final(self).spec_rand().spec_stream() == old(self).spec_rand().spec_stream(),
            final(self).spec_rand().spec_record() == old(self).spec_rand().spec_record(),
            final(self).spec_time() == old(self).spec_time(),
            final(self).spec_task() == old(self).spec_task(),
            final(self).spec_queue() == old(self).spec_queue(),
            final(self).spec_net() == old(self).spec_net(),
            final(self).spec_fs() == old(self).spec_fs(),
    {
        if enabled {
            self.rand.enable_buggify();
        } else {
            self.rand.disable_buggify();
        }
    }

    /// Starts logging the draws of the generator, for a determinism check.
    pub fn enable_log(&mut self)
        requires
            old(self).wf(),
        ensures
            final(self).wf(),
            final(self).spec_rand().spec_record().log == Some(Seq::<u8>::empty()),
            final(self).spec_rand().spec_record().check == old(self).spec_rand().spec_record().check,
            final(self).spec_rand().spec_seed() == old(self).spec_rand().spec_seed(),
            final(self).spec_time() == old(self).spec_time(),
            final(self).spec_task() == old(self).spec_task(),
            final(self).spec_queue() == old(self).spec_queue(),
            final(self).spec_net() == old(self).spec_net(),
            final(self).spec_fs() == old(self).spec_fs(),
    {
        self.rand.enable_log();
    }

    /// Starts checking the draws of the generator against `log`.
    pub fn enable_check(&mut self, log: Log)
        requires
            old(self).wf(),
        ensures
            final(self).wf(),
            final(self).spec_rand().spec_record().check == Some((log.0@, 0nat)),
            final(self).spec_rand().spec_record().log == old(self).spec_rand().spec_record().log,
            final(self).spec_rand().spec_seed() == old(self).spec_rand().spec_seed(),
            final(self).spec_time() == old(self).spec_time(),
            final(self).spec_task() == old(self).spec_task(),
            final(self).spec_queue() == old(self).spec_queue(),
            final(self).spec_net() == old(self).spec_net(),
            final(self).spec_fs() == old(self).spec_fs(),
    {
        self.rand.enable_check(log);
    }

    /// Takes out the log of draws: the one being written, if any, else the
    /// one being checked against.
    pub fn take_log(&mut self) -> (l: Option<Log>)
        requires
            old(self).wf(),
        ensures
            final(self).wf(),
            match old(self).spec_rand().spec_record().log {
                Some(w) => l is Some && (l->0).0@ == w,
                None => match old(self).spec_rand().spec_record().check {
                    Some((c, _)) => l is Some && (l->0).0@ == c,
                    None => l is None,
                },
            },
            final(self).spec_time() == old(self).spec_time(),
            final(self).spec_task() == old(self).spec_task(),
            final(self).spec_queue() == old(self).spec_queue(),
            final(self).spec_net() == old(self).spec_net(),
            final(self).spec_fs() == old(self).spec_fs(),
    {
        self.rand.take_log()
    }

    /// The first draw that disagreed with the log checked against, if any.
    pub fn violation(&self) -> (v: Option<NonDeterminism>)
        ensures
            v == self.spec_rand().spec_record().violation,
    {
        self.rand.violation()
    }

    /// Returns a view of how the runtime is performing.
    pub fn metrics(&self) -> (m: RuntimeMetrics)
        ensures
            m.spec_num_nodes() == self.spec_task().spec_nodes().len(),
            m.spec_num_tasks() == self.spec_task().spec_tasks().len(),
    {
        RuntimeMetrics { num_nodes: self.task.num_nodes(), num_tasks: self.task.num_tasks() }
    }

    /// The simulated network.
    pub fn net(&self) -> (n: &Network)
        ensures
            *n == self.spec_net(),
    {
        &self.net
    }

    /// The simulated file systems.
    pub fn fs(&self) -> (f: &FsSim)
        ensures
            *f == self.spec_fs(),
    {
        &self.fs
    }

    /// The registry of nodes and tasks.
    pub fn task(&self) -> (t: &TaskHandle)
        ensures
            *t == self.spec_task(),
    {
        &self.task
    }

    /// Clogs node `id`: nothing leaves or reaches it. The node must exist.
    pub fn clog_node(&mut self, id: NodeId)
        requires
            old(self).wf(),
            old(self).spec_net().spec_nodes().contains_key(id.0),
        ensures
            final(self).wf(),
            final(self).spec_net().spec_clogged_nodes() == old(self).spec_net().spec_clogged_nodes().insert(id.0),
            final(self).spec_net().spec_clogged_links() == old(self).spec_net().spec_clogged_links(),
            final(self).spec_net().spec_nodes() == old(self).spec_net().spec_nodes(),
            forall|ip: IpAddr| final(self).spec_net().spec_owner(ip) == old(self).spec_net().spec_owner(ip),
            final(self).same_rand_time(*old(self)),
            final(self).spec_task() == old(self).spec_task(),
            final(self).spec_queue() == old(self).spec_queue(),
            final(self).spec_fs() == old(self).spec_fs(),
    {
        self.net.clog_node(id.0);
    }

    /// Unclogs node `id`. The node must exist.
    pub fn unclog_node(&mut self, id: NodeId)
        requires
            old(self).wf(),
            old(self).spec_net().spec_nodes().contains_key(id.0),
        ensures
            final(self).wf(),
            final(self).spec_net().spec_clogged_nodes() == old(self).spec_net().spec_clogged_nodes().remove(id.0),
            final(self).spec_net().spec_clogged_links() == old(self).spec_net().spec_clogged_links(),
            final(self).spec_net().spec_nodes() == old(self).spec_net().spec_nodes(),
            forall|ip: IpAddr| final(self).spec_net().spec_owner(ip) == old(self).spec_net().spec_owner(ip),
            final(self).same_rand_time(*old(self)),
            final(self).spec_task() == old(self).spec_task(),
            final(self).spec_queue() == old(self).spec_queue(),
            final(self).spec_fs() == old(self).spec_fs(),
    {
        self.net.unclog_node(id.0);
    }

    /// Clogs the link from `src` to `dst`. The node must exist.
    pub fn clog_link(&mut self, src: NodeId, dst: NodeId)
        requires
            old(self).wf(),
            old(self).spec_net().spec_nodes().contains_key(src.0),
            old(self).spec_net().spec_nodes().contains_key(dst.0),
        ensures
            final(self).wf(),
            final(self).spec_net().spec_clogged_links() == old(self).spec_net().spec_clogged_links().insert((src.0, dst.0)),
            final(self).spec_net().spec_clogged_nodes() == old(self).spec_net().spec_clogged_nodes(),
            final(self).spec_net().spec_nodes() == old(self).spec_net().spec_nodes(),
            forall|ip: IpAddr| final(self).spec_net().spec_owner(ip) == old(self).spec_net().spec_owner(ip),
            final(self).same_rand_time(*old(self)),
            final(self).spec_task() == old(self).spec_task(),
            final(self).spec_queue() == old(self).spec_queue(),
            final(self).spec_fs() == old(self).spec_fs(),
    {
        self.net.clog_link(src.0, dst.0);
    }

    /// Unclogs the link from `src` to `dst`. The node must exist.
    pub fn unclog_link(&mut self, src: NodeId, dst: NodeId)
        requires
            old(self).wf(),
            old(self).spec_net().spec_nodes().contains_key(src.0),
            old(self).spec_net().spec_nodes().contains_key(dst.0),
        ensures
            final(self).wf(),
            final(self).spec_net().spec_clogged_links() == old(self).spec_net().spec_clogged_links().remove((src.0, dst.0)),
            final(self).spec_net().spec_clogged_nodes() == old(self).spec_net().spec_clogged_nodes(),
            final(self).spec_net().spec_nodes() == old(self).spec_net().spec_nodes(),
            forall|ip: IpAddr| final(self).spec_net().spec_owner(ip) == old(self).spec_net().spec_owner(ip),
            final(self).same_rand_time(*old(self)),
            final(self).spec_task() == old(self).spec_task(),
            final(self).spec_queue() == old(self).spec_queue(),
            final(self).spec_fs() == old(self).spec_fs(),
    {
        self.net.unclog_link(src.0, dst.0);
    }

    /// Wakes task `task` now: it goes to the back of the ready queue.
    pub fn wake(&mut self, task: Id)
        requires
            old(self).wf(),
        ensures
            final(self).wf(),
            final(self).spec_queue() == old(self).spec_queue().push(task.0),
            final(self).same_rand_time(*old(self)),
            final(self).spec_task() == old(self).spec_task(),
            final(self).spec_net() == old(self).spec_net(),
            final(self).spec_fs() == old(self).spec_fs(),
    {
        let _ = self.queue.send(task.0);
    }

    /// Installs a "ctrl-c" handler for the tasks of node `node` at
    /// incarnation `inc`; a later incarnation is unaffected.
    pub fn install_ctrl_c(&mut self, node: NodeId, inc: u64)
        requires
            old(self).wf(),
        ensures
            final(self).spec_task().spec_next_task_id() == old(self).spec_task().spec_next_task_id(),
            final(self).spec_task().spec_next_node_id() == old(self).spec_task().spec_next_node_id(),
            final(self).wf(),
            match old(self).spec_task().spec_node(node.0) {
                Some(o) => if o.incarnation == inc {
                    final(self).spec_task().spec_node(node.0) matches Some(n) && n.ctrl_c
                        && n.killed == o.killed && n.paused == o.paused && n.incarnation == o.incarnation
                } else {
                    final(self).spec_task().spec_node(node.0) == old(self).spec_task().spec_node(node.0)
                },
                None => final(self).spec_task().spec_node(node.0) == old(self).spec_task().spec_node(node.0),
            },
            forall|k: u64| k != node.0 ==> final(self).spec_task().spec_node(k) == old(self).spec_task().spec_node(k),
            final(self).spec_task().spec_tasks() == old(self).spec_task().spec_tasks(),
            final(self).spec_queue() == old(self).spec_queue(),
            final(self).same_rand_time(*old(self)),
            final(self).spec_net() == old(self).spec_net(),
            final(self).spec_fs() == old(self).spec_fs(),
    {
        self.task.install_ctrl_c(node, inc);
        proof { self.lemma_restart_events_kept(*old(self)); }
    }

    /// Node `node` exits from a task of incarnation `inc`: that incarnation
    /// stops; a later one is unaffected.
    pub fn exit(&mut self, node: NodeId, inc: u64)
        requires
            old(self).wf(),
        ensures
            final(self).spec_task().spec_next_task_id() == old(self).spec_task().spec_next_task_id(),
            final(self).spec_task().spec_next_node_id() == old(self).spec_task().spec_next_node_id(),
            final(self).wf(),
            match old(self).spec_task().spec_node(node.0) {
                Some(o) => if o.incarnation == inc {
                    final(self).spec_task().spec_node(node.0) matches Some(n) && n.killed
                        && n.paused == o.paused && n.incarnation == o.incarnation
                } else {
                    final(self).spec_task().spec_node(node.0) == old(self).spec_task().spec_node(node.0)
                },
                None => final(self).spec_task().spec_node(node.0) == old(self).spec_task().spec_node(node.0),
            },
            forall|k: u64| k != node.0 ==> final(self).spec_task().spec_node(k) == old(self).spec_task().spec_node(k),
            final(self).spec_task().spec_tasks() == old(self).spec_task().spec_tasks(),
            final(self).spec_queue() == old(self).spec_queue(),
            final(self).same_rand_time(*old(self)),
            final(self).spec_net() == old(self).spec_net(),
            final(self).spec_fs() == old(self).spec_fs(),
    {
        self.task.exit(node, inc);
        proof { self.lemma_restart_events_kept(*old(self)); }
    }

    /// Aborts task `task`: it is marked cancelled and woken, so that it is
    /// dropped instead of run when its turn comes.
    pub fn abort(&mut self, task: Id)
        requires
            old(self).wf(),
        ensures
            final(self).spec_task().spec_next_task_id() == old(self).spec_task().spec_next_task_id(),
            final(self).spec_task().spec_next_node_id() == old(self).spec_task().spec_next_node_id(),
            final(self).wf(),
            match old(self).spec_task().spec_task(task.0) {
                Some(t) => final(self).spec_task().spec_task(task.0) == Some(crate::task::TaskRecord { cancelled: true, ..t }),
                None => final(self).spec_task().spec_task(task.0) is None,
            },
            forall|k: u64| k != task.0 ==> final(self).spec_task().spec_task(k) == old(self).spec_task().spec_task(k),
            forall|k: u64| final(self).spec_task().spec_node(k) == old(self).spec_task().spec_node(k),
            final(self).spec_queue() == old(self).spec_queue().push(task.0),
            final(self).same_rand_time(*old(self)),
            final(self).spec_net() == old(self).spec_net(),
            final(self).spec_fs() == old(self).spec_fs(),
    {
        self.task.cancel(task);
        let _ = self.queue.send(task.0);
        proof { self.lemma_restart_events_kept(*old(self)); }
    }

    /// Forgets task `task`, which has completed.
    pub fn finish(&mut self, task: Id)
        requires
            old(self).wf(),
        ensures
            final(self).spec_task().spec_next_task_id() == old(self).spec_task().spec_next_task_id(),
            final(self).spec_task().spec_next_node_id() == old(self).spec_task().spec_next_node_id(),
            final(self).wf(),
            final(self).spec_task().spec_task(task.0) is None,
            forall|k: u64| k != task.0 ==> final(self).spec_task().spec_task(k) == old(self).spec_task().spec_task(k),
            forall|k: u64| final(self).spec_task().spec_node(k) == old(self).spec_task().spec_node(k),
            final(self).spec_queue() == old(self).spec_queue(),
            final(self).same_rand_time(*old(self)),
            final(self).spec_net() == old(self).spec_net(),
            final(self).spec_fs() == old(self).spec_fs(),
    {
        self.task.finish(task);
        proof { self.lemma_restart_events_kept(*old(self)); }
    }

    /// Wakes task `task` at `deadline`: it goes back to the ready queue
    /// once time reaches the deadline. `ClockOverflow` when the deadline is
    /// past the latest one the clock can represent; nothing changes then.
    pub fn wake_at(&mut self, task: Id, deadline: Instant) -> (r: Result<(), RuntimeError>)
        requires
            old(self).wf(),
        ensures
            final(self).wf(),
            r is Ok == (deadline.nanos <= old(self).spec_time().max_deadline()),
            r is Err ==> r == Err::<(), RuntimeError>(RuntimeError::ClockOverflow) && *final(self) == *old(self),
            r is Ok ==> exists|p: int| 0 <= p <= old(self).spec_time().events().len()
                && final(self).spec_time().events() == #[trigger] timer_insert(old(self).spec_time().events(), p, (deadline, TimerEvent::Wake(task.0))),
            final(self).spec_time().elapsed_nanos() == old(self).spec_time().elapsed_nanos(),
            final(self).spec_time().base_time() == old(self).spec_time().base_time(),
            final(self).spec_rand() == old(self).spec_rand(),
            final(self).spec_task() == old(self).spec_task(),
            final(self).spec_queue() == old(self).spec_queue(),
            final(self).spec_net() == old(self).spec_net(),
            final(self).spec_fs() == old(self).spec_fs(),
    {
        if deadline.nanos > self.time.max_deadline_nanos() {
            return Err(RuntimeError::ClockOverflow);
        }
        let ghost before = self.time.events();
        self.time.add_timer(deadline, TimerEvent::Wake(task.0));
        proof {
            let p = choose|p: int| {
                &&& 0 <= p <= before.len()
                &&& crate::timer::all_due(before.take(p), deadline)
                &&& crate::timer::none_due(before.skip(p), deadline)
                &&& self.time.events() == before.take(p).push((deadline, TimerEvent::Wake(task.0))) + before.skip(p)
            };
            assert(before == old(self).spec_time().events());
            assert(self.time.events() == timer_insert(old(self).spec_time().events(), p, (deadline, TimerEvent::Wake(task.0))));
            assert forall|i: int| 0 <= i < self.time.events().len() implies
                restart_names_node((#[trigger] self.time.events()[i]).1, self.task) by {
                if i < p {
                    assert(self.time.events()[i] == before[i]);
                } else if i > p {
                    assert(self.time.events()[i] == before[i - 1]);
                }
            }
        }
        Ok(())
    }

    /// Binds a socket of node `node` to `addr`, as [`Network::bind`] does.
    pub fn net_bind(&mut self, node: NodeId, addr: SocketAddr) -> (r: Result<SocketAddr, BindError>)
        requires
            old(self).wf(),
            old(self).spec_net().spec_nodes().contains_key(node.0),
            !spec_is_unspecified(addr.ip) && !spec_is_loopback(addr.ip) ==> old(self).spec_net().spec_nodes()[node.0].ip is Some,
        ensures
            final(self).wf(),
            final(self).same_rand_time(*old(self)),
            final(self).spec_task() == old(self).spec_task(),
            final(self).spec_queue() == old(self).spec_queue(),
            final(self).spec_fs() == old(self).spec_fs(),
            r == spec_bind(old(self).spec_net().spec_nodes()[node.0].ip, old(self).spec_net().spec_ports(node.0), addr),
            final(self).spec_net().spec_nodes().dom() == old(self).spec_net().spec_nodes().dom(),
            final(self).spec_net().spec_nodes()[node.0].ip == old(self).spec_net().spec_nodes()[node.0].ip,
            match r {
                Ok(a) => {
                    &&& final(self).spec_net().spec_ports(node.0) == old(self).spec_net().spec_ports(node.0).insert(a.port)
                    &&& final(self).spec_net().spec_nodes()[node.0].sockets@[a.port].id == old(self).spec_net().spec_next_socket()
                    &&& final(self).spec_net().spec_nodes()[node.0].sockets@[a.port].mailbox.spec_msgs().len() == 0
                    &&& final(self).spec_net().spec_nodes()[node.0].sockets@[a.port].mailbox.spec_registered().len() == 0
                    &&& forall|p: u16| p != a.port && old(self).spec_net().spec_ports(node.0).contains(p)
                        ==> final(self).spec_net().spec_nodes()[node.0].sockets@[p] == old(self).spec_net().spec_nodes()[node.0].sockets@[p]
                    &&& final(self).spec_net().spec_next_socket() == old(self).spec_net().spec_next_socket().wrapping_add(1)
                },
                Err(_) => final(self).spec_net().spec_nodes()[node.0] == old(self).spec_net().spec_nodes()[node.0]
                    && final(self).spec_net().spec_next_socket() == old(self).spec_net().spec_next_socket(),
            },
            forall|n: u64| n != node.0 && old(self).spec_net().spec_nodes().contains_key(n) ==> final(self).spec_net().spec_nodes()[n] == old(self).spec_net().spec_nodes()[n],
            forall|ip: IpAddr| final(self).spec_net().spec_owner(ip) == old(self).spec_net().spec_owner(ip),
            final(self).spec_net().spec_clogged_nodes() == old(self).spec_net().spec_clogged_nodes(),
            final(self).spec_net().spec_clogged_links() == old(self).spec_net().spec_clogged_links(),
            final(self).spec_net().spec_config() == old(self).spec_net().spec_config(),
            final(self).spec_net().spec_stat() == old(self).spec_net().spec_stat(),
    {
        let r = self.net.bind(node.0, addr);
        proof { self.lemma_restart_events_kept(*old(self)); }
        r
    }

    /// Binds a socket of node `node` to the first of `addrs` that can be bound, as [`Network::bind_any`] does.
    pub fn net_bind_any(&mut self, node: NodeId, addrs: &Vec<SocketAddr>) -> (r: Result<SocketAddr, BindAnyError>)
        requires
            old(self).wf(),
            old(self).spec_net().spec_nodes().contains_key(node.0),
            forall|i: int| 0 <= i < addrs@.len() && !spec_is_unspecified(#[trigger] addrs@[i].ip)
                && !spec_is_loopback(addrs@[i].ip) ==> old(self).spec_net().spec_nodes()[node.0].ip is Some,
        ensures
            final(self).wf(),
            final(self).same_rand_time(*old(self)),
            final(self).spec_task() == old(self).spec_task(),
            final(self).spec_queue() == old(self).spec_queue(),
            final(self).spec_fs() == old(self).spec_fs(),
            final(self).spec_net().spec_nodes().dom() == old(self).spec_net().spec_nodes().dom(),
            forall|n: u64| n != node.0 && old(self).spec_net().spec_nodes().contains_key(n) ==> final(self).spec_net().spec_nodes()[n] == old(self).spec_net().spec_nodes()[n],
            forall|ip: IpAddr| final(self).spec_net().spec_owner(ip) == old(self).spec_net().spec_owner(ip),
            final(self).spec_net().spec_clogged_nodes() == old(self).spec_net().spec_clogged_nodes(),
            final(self).spec_net().spec_clogged_links() == old(self).spec_net().spec_clogged_links(),
            final(self).spec_net().spec_config() == old(self).spec_net().spec_config(),
            final(self).spec_net().spec_stat() == old(self).spec_net().spec_stat(),
            match r {
                Ok(a) => exists|k: int| {
                    &&& 0 <= k < addrs@.len()
                    &&& forall|j: int| 0 <= j < k ==> #[trigger] spec_bind(old(self).spec_net().spec_nodes()[node.0].ip, old(self).spec_net().spec_ports(node.0), addrs@[j]) is Err
                    &&& spec_bind(old(self).spec_net().spec_nodes()[node.0].ip, old(self).spec_net().spec_ports(node.0), addrs@[k]) == Ok::<SocketAddr, BindError>(a)
                    &&& final(self).spec_net().spec_ports(node.0) == old(self).spec_net().spec_ports(node.0).insert(a.port)
                },
                Err(BindAnyError::InvalidInput) => addrs@.len() == 0 && final(self).spec_net().spec_nodes() == old(self).spec_net().spec_nodes(),
                Err(BindAnyError::Bind(e)) => {
                    &&& addrs@.len() > 0
                    &&& forall|j: int| 0 <= j < addrs@.len() ==> #[trigger] spec_bind(old(self).spec_net().spec_nodes()[node.0].ip, old(self).spec_net().spec_ports(node.0), addrs@[j]) is Err
                    &&& spec_bind(old(self).spec_net().spec_nodes()[node.0].ip, old(self).spec_net().spec_ports(node.0), addrs@.last()) == Err::<SocketAddr, BindError>(e)
                    &&& final(self).spec_net().spec_nodes() == old(self).spec_net().spec_nodes()
                },
            },
    {
        let r = self.net.bind_any(node.0, addrs);
        proof { self.lemma_restart_events_kept(*old(self)); }
        r
    }

    /// Receives a message with `tag` at the socket of node `node` bound to `port`, as [`Network::recv`] does.
    pub fn net_recv(&mut self, node: NodeId, port: u16, tag: u64) -> (r: RecvOutcome)
        requires
            old(self).wf(),
            old(self).spec_net().spec_nodes().contains_key(node.0),
            old(self).spec_net().spec_ports(node.0).contains(port),
        ensures
            final(self).wf(),
            final(self).same_rand_time(*old(self)),
            final(self).spec_task() == old(self).spec_task(),
            final(self).spec_queue() == old(self).spec_queue(),
            final(self).spec_fs() == old(self).spec_fs(),
            final(self).spec_net().spec_nodes().dom() == old(self).spec_net().spec_nodes().dom(),
            final(self).spec_net().spec_nodes()[node.0].ip == old(self).spec_net().spec_nodes()[node.0].ip,
            final(self).spec_net().spec_ports(node.0) == old(self).spec_net().spec_ports(node.0),
            final(self).spec_net().spec_nodes()[node.0].sockets@[port].id == old(self).spec_net().spec_nodes()[node.0].sockets@[port].id,
            ({
                let before = old(self).spec_net().spec_nodes()[node.0].sockets@[port].mailbox;
                let after = final(self).spec_net().spec_nodes()[node.0].sockets@[port].mailbox;
                match crate::mailbox::first_with_tag(before.spec_msgs(), tag) {
                    Some(p) => r == RecvOutcome::Ready(before.spec_msgs()[p])
                        && after.spec_msgs() == crate::mailbox::swap_removed(before.spec_msgs(), p)
                        && after.spec_registered() == before.spec_registered()
                        && after.spec_next_id() == before.spec_next_id(),
                    None => r == RecvOutcome::Pending(before.spec_next_id())
                        && after.spec_msgs() == before.spec_msgs()
                        && after.spec_registered() == before.spec_registered().push((tag, before.spec_next_id()))
                        && after.spec_next_id() == before.spec_next_id().wrapping_add(1),
                }
            }),
            forall|p: u16| p != port && old(self).spec_net().spec_ports(node.0).contains(p)
                ==> final(self).spec_net().spec_nodes()[node.0].sockets@[p] == old(self).spec_net().spec_nodes()[node.0].sockets@[p],
            forall|n: u64| n != node.0 && old(self).spec_net().spec_nodes().contains_key(n) ==> final(self).spec_net().spec_nodes()[n] == old(self).spec_net().spec_nodes()[n],
            forall|ip: IpAddr| final(self).spec_net().spec_owner(ip) == old(self).spec_net().spec_owner(ip),
            final(self).spec_net().spec_clogged_nodes() == old(self).spec_net().spec_clogged_nodes(),
            final(self).spec_net().spec_clogged_links() == old(self).spec_net().spec_clogged_links(),
            final(self).spec_net().spec_config() == old(self).spec_net().spec_config(),
            final(self).spec_net().spec_stat() == old(self).spec_net().spec_stat(),
            final(self).spec_net().spec_next_socket() == old(self).spec_net().spec_next_socket(),
    {
        let r = self.net.recv(node.0, port, tag);
        proof { self.lemma_restart_events_kept(*old(self)); }
        r
    }

    /// Delivers a message that has arrived, as [`Network::deliver`] does.
    pub fn net_deliver(&mut self, d: Delivery, closed: &Vec<u64>) -> (r: Option<(u64, Message)>)
        requires
            old(self).wf(),
        ensures
            final(self).wf(),
            final(self).same_rand_time(*old(self)),
            final(self).spec_task() == old(self).spec_task(),
            final(self).spec_queue() == old(self).spec_queue(),
            final(self).spec_fs() == old(self).spec_fs(),
            final(self).spec_net().spec_nodes().dom() == old(self).spec_net().spec_nodes().dom(),
            forall|n: u64| n != d.node && old(self).spec_net().spec_nodes().contains_key(n) ==> final(self).spec_net().spec_nodes()[n] == old(self).spec_net().spec_nodes()[n],
            if old(self).spec_net().spec_nodes().contains_key(d.node) && old(self).spec_net().spec_ports(d.node).contains(d.port)
                && old(self).spec_net().spec_nodes()[d.node].sockets@[d.port].id == d.socket {
                let before = old(self).spec_net().spec_nodes()[d.node].sockets@[d.port].mailbox;
                let after = final(self).spec_net().spec_nodes()[d.node].sockets@[d.port];
                let (reg, taker) = spec_deliver_from(before.spec_registered(), 0, d.msg.tag, closed@);
                &&& final(self).spec_net().spec_nodes()[d.node].ip == old(self).spec_net().spec_nodes()[d.node].ip
                &&& final(self).spec_net().spec_ports(d.node) == old(self).spec_net().spec_ports(d.node)
                &&& forall|p: u16| p != d.port && old(self).spec_net().spec_ports(d.node).contains(p)
                    ==> final(self).spec_net().spec_nodes()[d.node].sockets@[p] == old(self).spec_net().spec_nodes()[d.node].sockets@[p]
                &&& after.id == d.socket
                &&& after.mailbox.spec_registered() == reg
                &&& after.mailbox.spec_next_id() == before.spec_next_id()
                &&& match taker {
                    Some(id) => r == Some((id, d.msg)) && after.mailbox.spec_msgs() == before.spec_msgs(),
                    None => r is None && after.mailbox.spec_msgs() == before.spec_msgs().push(d.msg),
                }
            } else {
                r is None && final(self).spec_net().spec_nodes() == old(self).spec_net().spec_nodes()
            },
            forall|ip: IpAddr| final(self).spec_net().spec_owner(ip) == old(self).spec_net().spec_owner(ip),
            final(self).spec_net().spec_clogged_nodes() == old(self).spec_net().spec_clogged_nodes(),
            final(self).spec_net().spec_clogged_links() == old(self).spec_net().spec_clogged_links(),
            final(self).spec_net().spec_config() == old(self).spec_net().spec_config(),
            final(self).spec_net().spec_stat() == old(self).spec_net().spec_stat(),
            final(self).spec_net().spec_next_socket() == old(self).spec_net().spec_next_socket(),
    {
        let r = self.net.deliver(d, closed);
        proof { self.lemma_restart_events_kept(*old(self)); }
        r
    }

    /// Sends `data` with `tag` from `src` on node `node` to `dst`, now. As
    /// [`Network::send`] decides, the message is dropped, or it arrives after
    /// a random latency: a timer event then delivers it. `ClockOverflow`,
    /// with nothing changed, when the latest arrival would pass the latest
    /// deadline the clock can represent. A destination node that is reached
    /// must have a socket on the port.
    pub fn net_send(&mut self, node: NodeId, src: SocketAddr, dst: SocketAddr, tag: u64, data: Vec<u8>) -> (r: Result<(), RuntimeError>)
        requires
            old(self).wf(),
            old(self).spec_net().spec_stat().msg_count < u64::MAX,
            match old(self).spec_net().spec_owner(dst.ip) {
                Some(dn) => !old(self).spec_net().spec_clogged(node.0, dn) ==> old(self).spec_net().spec_nodes().contains_key(dn)
                    && old(self).spec_net().spec_ports(dn).contains(dst.port),
                None => true,
            },
        ensures
            final(self).wf(),
            r is Err <==> old(self).spec_time().elapsed_nanos() + old(self).spec_net().spec_config().latency_max.nanos
                > old(self).spec_time().max_deadline(),
            r is Err ==> r == Err::<(), RuntimeError>(RuntimeError::ClockOverflow) && *final(self) == *old(self),
            final(self).spec_task() == old(self).spec_task(),
            final(self).spec_queue() == old(self).spec_queue(),
            final(self).spec_fs() == old(self).spec_fs(),
            final(self).spec_config() == old(self).spec_config(),
            final(self).spec_time_limit() == old(self).spec_time_limit(),
            final(self).spec_time().elapsed_nanos() == old(self).spec_time().elapsed_nanos(),
            final(self).spec_time().base_time() == old(self).spec_time().base_time(),
            final(self).spec_rand().spec_seed() == old(self).spec_rand().spec_seed(),
            final(self).spec_net().spec_nodes() == old(self).spec_net().spec_nodes(),
            forall|ip: IpAddr| final(self).spec_net().spec_owner(ip) == old(self).spec_net().spec_owner(ip),
            final(self).spec_net().spec_clogged_nodes() == old(self).spec_net().spec_clogged_nodes(),
            final(self).spec_net().spec_clogged_links() == old(self).spec_net().spec_clogged_links(),
            final(self).spec_net().spec_config() == old(self).spec_net().spec_config(),
            r is Ok ==> match old(self).spec_net().spec_owner(dst.ip) {
                None => final(self).spec_time().events() == old(self).spec_time().events()
                    && final(self).spec_net().spec_stat() == old(self).spec_net().spec_stat(),
                Some(dn) => if old(self).spec_net().spec_clogged(node.0, dn) {
                    final(self).spec_time().events() == old(self).spec_time().events()
                        && final(self).spec_net().spec_stat() == old(self).spec_net().spec_stat()
                } else {
                    let cfg = old(self).spec_net().spec_config();
                    let lost = final(self).spec_time().events() == old(self).spec_time().events()
                        && final(self).spec_net().spec_stat() == old(self).spec_net().spec_stat();
                    &&& cfg.loss_numerator == cfg.loss_denominator ==> lost
                    &&& !lost ==> exists|p: int, d: Delivery| {
                        &&& 0 <= p <= old(self).spec_time().events().len()
                        &&& final(self).spec_time().events() == #[trigger] timer_insert(old(self).spec_time().events(), p, (d.at, TimerEvent::Deliver(d)))
                        &&& cfg.latency_min.nanos <= d.at.nanos - old(self).spec_time().elapsed_nanos() < cfg.latency_max.nanos
                        &&& d.node == dn && d.port == dst.port
                        &&& d.socket == old(self).spec_net().spec_nodes()[dn].sockets@[dst.port].id
                        &&& d.msg.tag == tag && d.msg.data@ == data@ && d.msg.from == src
                        &&& final(self).spec_net().spec_stat().msg_count == old(self).spec_net().spec_stat().msg_count + 1
                    }
                    &&& cfg.loss_numerator == 0 ==> !lost
                }
            },
            r is Ok ==> match old(self).spec_net().spec_owner(dst.ip) {
                None => final(self).spec_rand().spec_stream() == old(self).spec_rand().spec_stream(),
                Some(dn) => if old(self).spec_net().spec_clogged(node.0, dn) {
                    final(self).spec_rand().spec_stream() == old(self).spec_rand().spec_stream()
                } else {
                    let cfg = old(self).spec_net().spec_config();
                    let (l, s1) = crate::rand::xoshiro_gen_ratio_of(old(self).spec_rand().spec_stream(), cfg.loss_numerator, cfg.loss_denominator);
                    let (latency, s2) = crate::rand::xoshiro_gen_range_of(s1, cfg.latency_min.nanos, cfg.latency_max.nanos);
                    &&& l ==> final(self).spec_time().events() == old(self).spec_time().events()
                        && final(self).spec_rand().spec_stream() == s1
                    &&& !l ==> final(self).spec_rand().spec_stream() == s2 && exists|p: int, d: Delivery| {
                        &&& 0 <= p <= old(self).spec_time().events().len()
                        &&& d.at.nanos == old(self).spec_time().elapsed_nanos() + latency
                        &&& final(self).spec_time().events() == #[trigger] timer_insert(old(self).spec_time().events(), p, (d.at, TimerEvent::Deliver(d)))
                    }
                }
            },
    {
        let now = self.time.now_instant();
        let max = self.time.max_deadline_nanos();
        if now.nanos > max || self.net_latency_max() > max - now.nanos {
            return Err(RuntimeError::ClockOverflow);
        }
        let ghost before = *self;
        match self.net.send(&mut self.rand, node.0, src, dst, tag, data, now) {
            Some(d) => {
                let at = d.at;
                let ghost dd = d;
                let ghost evs = self.time.events();
                self.time.add_timer(at, TimerEvent::Deliver(d));
                proof {
                    let p = choose|p: int| {
                        &&& 0 <= p <= evs.len()
                        &&& crate::timer::all_due(evs.take(p), at)
                        &&& crate::timer::none_due(evs.skip(p), at)
                        &&& self.time.events() == evs.take(p).push((at, TimerEvent::Deliver(dd))) + evs.skip(p)
                    };
                    assert(self.time.events() == timer_insert(old(self).spec_time().events(), p, (dd.at, TimerEvent::Deliver(dd))));
                    assert forall|i: int| 0 <= i < self.time.events().len() implies
                        restart_names_node((#[trigger] self.time.events()[i]).1, self.task) by {
                        if i < p {
                            assert(self.time.events()[i] == evs[i]);
                        } else if i > p {
                            assert(self.time.events()[i] == evs[i - 1]);
                        }
                    }
                    assert(self.time.events() != old(self).spec_time().events()) by {
                        assert(self.time.events().len() == evs.len() + 1);
                    }
                    assert forall|k: u64| #[trigger] self.task.spec_node(k) is Some implies
                        self.net.spec_nodes().contains_key(k) && self.fs.spec_node(k) is Some by {
                        assert(before.task.spec_node(k) is Some);
                    }
                }
            },
            None => {
                proof { self.lemma_restart_events_kept(before); }
            },
        }
        Ok(())
    }

    /// The latest latency of the network, in nanoseconds.
    fn net_latency_max(&self) -> (m: u64)
        ensures
            m == self.spec_net().spec_config().latency_max.nanos,
    {
        self.net.config().latency_max.nanos
    }

    /// Records `ip` as the address of host `name`.
    pub fn add_dns_record(&mut self, name: &str, ip: IpAddr)
        requires
            old(self).wf(),
        ensures
            final(self).wf(),
            final(self).spec_dns().spec_lookup(name@) == Some(ip),
            forall|n: Seq<char>| n != name@ ==> final(self).spec_dns().spec_lookup(n) == old(self).spec_dns().spec_lookup(n),
            final(self).same_rand_time(*old(self)),
            final(self).spec_task() == old(self).spec_task(),
            final(self).spec_queue() == old(self).spec_queue(),
            final(self).spec_net() == old(self).spec_net(),
            final(self).spec_fs() == old(self).spec_fs(),
    {
        self.dns.add(name, ip);
        proof { self.lemma_restart_events_kept(*old(self)); }
    }

    /// The address of host `name`, if known; "localhost" is 127.0.0.1.
    pub fn lookup_host(&self, name: &str) -> (r: Option<IpAddr>)
        requires
            self.wf(),
        ensures
            r == self.spec_dns().spec_lookup(name@),
    {
        self.dns.lookup(name)
    }

    /// The delay before a network operation: a draw from 0..5 microseconds.
    pub fn rand_delay(&mut self) -> (d: Duration)
        requires
            old(self).wf(),
        ensures
            final(self).wf(),
            d.nanos % 1_000 == 0 && d.nanos < 5_000,
            final(self).spec_rand().drawn_from(old(self).spec_rand(), old(self).spec_draw_time()),
            ({
                let (m, next) = crate::rand::xoshiro_gen_range_of(old(self).spec_rand().spec_stream(), 0, 5);
                d.nanos == m * 1_000 && final(self).spec_rand().spec_stream() == next
            }),
            final(self).spec_time() == old(self).spec_time(),
            final(self).spec_task() == old(self).spec_task(),
            final(self).spec_queue() == old(self).spec_queue(),
            final(self).spec_net() == old(self).spec_net(),
            final(self).spec_fs() == old(self).spec_fs(),
    {
        let at = Some(self.time.elapsed());
        let micros = self.rand.gen_range(0, 5, at);
        Duration { nanos: micros * 1_000 }
    }

    /// Releases the port of `addr` bound by a task of node `node` at
    /// incarnation `inc`: the socket is closed, unless that incarnation is
    /// dead, so that a restarted node keeps the ports it bound since.
    pub fn release(&mut self, node: NodeId, inc: u64, addr: SocketAddr)
        requires
            old(self).wf(),
        ensures
            final(self).wf(),
            final(self).same_rand_time(*old(self)),
            final(self).spec_task() == old(self).spec_task(),
            final(self).spec_queue() == old(self).spec_queue(),
            final(self).spec_fs() == old(self).spec_fs(),
            old(self).spec_task().spec_info_dead(node.0, inc) ==> final(self).spec_net() == old(self).spec_net(),
            !old(self).spec_task().spec_info_dead(node.0, inc) ==> {
                &&& final(self).spec_net().spec_nodes().dom() == old(self).spec_net().spec_nodes().dom()
                &&& final(self).spec_net().spec_ports(node.0) == old(self).spec_net().spec_ports(node.0).remove(addr.port)
                &&& forall|n: u64| n != node.0 && old(self).spec_net().spec_nodes().contains_key(n)
                    ==> final(self).spec_net().spec_nodes()[n] == old(self).spec_net().spec_nodes()[n]
            },
    {
        let alive = match self.task.node(node) {
            Some(n) => !n.killed && n.incarnation == inc,
            None => false,
        };
        if alive {
            self.net.close(node.0, addr);
            proof { self.lemma_restart_events_kept(*old(self)); }
        }
    }

    /// Fires timer events `fired`, in order: a woken task goes back to the
    /// ready queue; a restarted node starts its next incarnation and has its
    /// initial task, if any, spawned and queued; an arriving message is
    /// handed back. Returns the node and id of each initial task spawned, and
    /// the arriving messages.
    fn fire_events(&mut self, fired: Vec<TimerEvent>) -> (out: Fired)
        requires
            old(self).task.wf(),
            old(self).queue.spec_receiver_alive(),
            forall|i: int| 0 <= i < fired@.len() ==> restart_names_node(#[trigger] fired@[i], old(self).task),
            old(self).task.spec_next_task_id() + fired@.len() < u64::MAX,
        ensures
            final(self).task.wf(),
            final(self).queue.spec_receiver_alive(),
            final(self).rand == old(self).rand && final(self).time == old(self).time,
            final(self).net == old(self).net && final(self).fs == old(self).fs && final(self).dns == old(self).dns,
            final(self).config == old(self).config && final(self).time_limit == old(self).time_limit,
            final(self).queue.spec_queue() == old(self).queue.spec_queue()
                + fired_ready(fired@, old(self).task, old(self).task.spec_next_task_id() as int),
            final(self).task.spec_next_task_id() == old(self).task.spec_next_task_id() + restarts_with_init(fired@, old(self).task),
            out.inits@.len() == restarts_with_init(fired@, old(self).task),
            forall|j: int| 0 <= j < out.inits@.len() ==> (#[trigger] out.inits@[j]).1.0 == old(self).task.spec_next_task_id() + j
                && (final(self).task.spec_task(out.inits@[j].1.0) matches Some(rec) && rec.node == out.inits@[j].0.0),
            out.deliveries@ == fired_deliveries(fired@),
            forall|k: u64| #[trigger] final(self).task.spec_node(k) is Some == old(self).task.spec_node(k) is Some,
            final(self).task.spec_next_node_id() == old(self).task.spec_next_node_id(),
    {
        let ghost s0 = *self;
        let ghost t0 = self.task;
        let ghost next0 = self.task.spec_next_task_id() as int;
        let ghost all = fired@;
        let total = fired.len();
        assert(all.len() == total);
        let mut rest = fired;
        let mut inits: Vec<(NodeId, Id)> = Vec::new();
        let mut deliveries: Vec<Delivery> = Vec::new();
        let mut i: usize = 0;
        while rest.len() > 0
            invariant
                s0 == *old(self),
                t0 == old(self).task,
                next0 == t0.spec_next_task_id(),
                i <= all.len(),
                all.len() <= usize::MAX,
                rest@ == all.skip(i as int),
                forall|m: int| 0 <= m < all.len() ==> restart_names_node(#[trigger] all[m], t0),
                next0 + all.len() < u64::MAX,
                self.task.wf(),
                self.queue.spec_receiver_alive(),
                self.rand == s0.rand && self.time == s0.time,
                self.net == s0.net && self.fs == s0.fs && self.dns == s0.dns,
                self.config == s0.config && self.time_limit == s0.time_limit,
                0 <= restarts_with_init(all.take(i as int), t0) <= i,
                self.queue.spec_queue() == s0.queue.spec_queue() + fired_ready(all.take(i as int), t0, next0),
                self.task.spec_next_task_id() == next0 + restarts_with_init(all.take(i as int), t0),
                inits@.len() == restarts_with_init(all.take(i as int), t0),
                forall|j: int| 0 <= j < inits@.len() ==> (#[trigger] inits@[j]).1.0 == next0 + j
                    && (self.task.spec_task(inits@[j].1.0) matches Some(rec) && rec.node == inits@[j].0.0),
                deliveries@ == fired_deliveries(all.take(i as int)),
                forall|k: u64| #[trigger] self.task.spec_node(k) is Some == t0.spec_node(k) is Some,
                self.task.spec_next_node_id() == t0.spec_next_node_id(),
                forall|k: u64| t0.spec_node(k) is Some ==> (#[trigger] self.task.spec_node(k))->0.has_init == t0.spec_node(k)->0.has_init,
            decreases rest@.len(),
        {
            let e = rest.remove(0);
            proof {
                assert(all.skip(i as int)[0] == all[i as int]);
                assert(rest@ == all.skip(i + 1));
                assert(all.take(i + 1).drop_last() == all.take(i as int));
                assert(all.take(i + 1).last() == all[i as int]);
                assert(restart_names_node(all[i as int], t0));
            }
            match e {
                TimerEvent::Wake(t) => {
                    let _ = self.queue.send(t);
                },
                TimerEvent::Restart(n) => {
                    let has_init = self.task.restart(NodeId(n));
                    if has_init {
                        let inc = self.task.get_node(NodeId(n)).unwrap();
                        let t = self.task.spawn(NodeId(n), inc);
                        let _ = self.queue.send(t.0);
                        let ghost before = inits@;
                        inits.push((NodeId(n), t));
                        proof {
                            assert forall|j: int| 0 <= j < inits@.len() implies (#[trigger] inits@[j]).1.0 == next0 + j
                                && (self.task.spec_task(inits@[j].1.0) matches Some(rec) && rec.node == inits@[j].0.0) by {
                                if j < inits@.len() - 1 {
                                    assert(inits@[j] == before[j]);
                                }
                            }
                        }
                    }
                },
                TimerEvent::Deliver(d) => {
                    deliveries.push(d);
                },
            }
            i = i + 1;
        }
        proof {
            assert(all.skip(i as int).len() == 0);
            assert(all.take(i as int) == all);
        }
        Fired { inits, deliveries }
    }

    /// Resets node `id` in the simulators: its sockets are closed and its
    /// file system has a power failure.
    fn reset_sims(&mut self, id: NodeId)
        requires
            old(self).net.wf(),
            old(self).fs.wf(),
            old(self).net.spec_nodes().contains_key(id.0),
        ensures
            final(self).net.wf(),
            final(self).fs.wf(),
            final(self).net.spec_nodes().dom() == old(self).net.spec_nodes().dom(),
            final(self).net.spec_ports(id.0) == Set::<u16>::empty(),
            final(self).net.spec_nodes()[id.0].ip == old(self).net.spec_nodes()[id.0].ip,
            forall|k: u64| k != id.0 && old(self).net.spec_nodes().contains_key(k)
                ==> final(self).net.spec_nodes()[k] == old(self).net.spec_nodes()[k],
            forall|ip: IpAddr| final(self).net.spec_owner(ip) == old(self).net.spec_owner(ip),
            forall|k: u64| final(self).fs.spec_node(k) == old(self).fs.spec_node(k),
            final(self).rand == old(self).rand,
            final(self).time == old(self).time,
            final(self).task == old(self).task,
            final(self).queue == old(self).queue,
            final(self).config == old(self).config,
            final(self).time_limit == old(self).time_limit,
            final(self).dns == old(self).dns,
    {
        self.net.reset_node(id.0);
        self.fs.power_fail(id.0);
    }

    /// The timer events that restart a node still name live nodes, and
    /// every node of the registry still has its simulated parts.
    proof fn lemma_restart_events_kept(&self, o: Runtime)
        requires
            o.wf(),
            self.rand.wf(),
            self.time.wf(),
            self.task.wf(),
            self.net.wf(),
            self.dns.wf(),
            self.fs.wf(),
            self.queue.spec_receiver_alive(),
            self.time.events() == o.time.events(),
            forall|k: u64| #[trigger] o.task.spec_node(k) is Some ==> self.task.spec_node(k) is Some,
            forall|k: u64| #[trigger] self.task.spec_node(k) is Some ==> o.task.spec_node(k) is Some,
            self.net.spec_nodes().dom() == o.net.spec_nodes().dom(),
            forall|k: u64| #[trigger] self.fs.spec_node(k) is Some == o.fs.spec_node(k) is Some,
        ensures
            self.wf(),
    {
        assert forall|k: u64| #[trigger] self.task.spec_node(k) is Some implies
            self.net.spec_nodes().contains_key(k) && self.fs.spec_node(k) is Some by {
            assert(o.task.spec_node(k) is Some);
            assert(o.fs.spec_node(k) is Some);
        }
        assert forall|i: int| 0 <= i < self.time.events().len() implies restart_names_node((#[trigger] self.time.events()[i]).1, self.task) by {
            assert(o.time.events()[i] == self.time.events()[i]);
        }
    }

    /// The seed of the runtime.
    pub fn seed(&self) -> (s: u64)
        ensures
            s == self.spec_rand().spec_seed(),
    {
        self.rand.seed()
    }

    /// Sets a time limit on the execution: the runtime stops once the
    /// simulated time reaches it.
    pub fn set_time_limit(&mut self, limit: Duration)
        ensures
            final(self).spec_time_limit() == Some(limit),
            final(self).spec_rand() == old(self).spec_rand(),
            final(self).spec_time() == old(self).spec_time(),
            final(self).spec_task() == old(self).spec_task(),
            final(self).spec_queue() == old(self).spec_queue(),
            final(self).spec_net() == old(self).spec_net(),
            final(self).spec_fs() == old(self).spec_fs(),
            final(self).spec_config() == old(self).spec_config(),
            final(self).wf() == old(self).wf(),
    {
        self.time_limit = Some(limit);
    }
}

/// Whether `needle` occurs in `hay`, as a run of consecutive bytes.
pub open spec fn spec_holds(hay: Seq<u8>, needle: Seq<u8>) -> bool {
    exists|i: int| 0 <= i && i + needle.len() <= hay.len() && #[trigger] hay.subrange(i, i + needle.len()) == needle
}

/// Whether the bytes of `needle` occur in those of `hay`.
pub fn holds(hay: &str, needle: &str) -> (b: bool)
    ensures
        b == spec_holds(hay.spec_bytes(), needle.spec_bytes()),
{
    let h = hay.as_bytes();
    let n = needle.as_bytes();
    if n.len() > h.len() {
        return false;
    }
    let last = h.len() - n.len();
    let mut i: usize = 0;
    while i <= last
        invariant
            h@ == hay.spec_bytes(),
            n@ == needle.spec_bytes(),
            n@.len() <= h@.len(),
            last == h@.len() - n@.len(),
            i <= last + 1,
            forall|k: int| 0 <= k < i ==> #[trigger] h@.subrange(k, k + n@.len()) != n@,
        decreases h@.len() - i,
    {
        let mut j: usize = 0;
        let mut same = true;
        while j < n.len()
            invariant
                h@ == hay.spec_bytes(),
                n@ == needle.spec_bytes(),
                i + n@.len() <= h@.len(),
                h@.len() == h.len(),
                j <= n@.len(),
                same == (forall|m: int| 0 <= m < j ==> h@[i + m] == n@[m]),
            decreases n@.len() - j,
        {
            if h[i + j] != n[j] {
                same = false;
            }
            j = j + 1;
        }
        if same {
            assert(h@.subrange(i as int, i + n@.len()) =~= n@);
            return true;
        }
        proof {
            let m = choose|m: int| 0 <= m < n@.len() && h@[i + m] != n@[m];
            assert(h@.subrange(i as int, i + n@.len())[m] != n@[m]);
        }
        i = i + 1;
    }
    proof {
        assert forall|k: int| 0 <= k && k + n@.len() <= h@.len() implies
            #[trigger] h@.subrange(k, k + n@.len()) != n@ by {
            assert(k < i);
        }
    }
    false
}

/// Whether one of `patterns` occurs in `msg`.
pub open spec fn spec_holds_any(msg: Seq<u8>, patterns: Seq<String>) -> bool {
    exists|i: int| 0 <= i < patterns.len() && spec_holds(msg, vstd::utf8::encode_utf8(#[trigger] patterns[i]@))
}

/// Whether one of `patterns` occurs in `msg`.
pub fn holds_any(msg: &str, patterns: &Vec<String>) -> (b: bool)
    ensures
        b == spec_holds_any(msg.spec_bytes(), patterns@),
{
    let mut i: usize = 0;
    while i < patterns.len()
        invariant
            i <= patterns@.len(),
            forall|k: int| 0 <= k < i ==> !spec_holds(msg.spec_bytes(), vstd::utf8::encode_utf8(#[trigger] patterns@[k]@)),
        decreases patterns@.len() - i,
    {
        let p: &str = patterns[i].as_str();
        if holds(msg, p) {
            assert(spec_holds(msg.spec_bytes(), vstd::utf8::encode_utf8(patterns@[i as int]@)));
            return true;
        }
        i = i + 1;
    }
    false
}

} // verus!
