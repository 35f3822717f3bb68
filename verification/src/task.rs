//! Nodes and tasks: which tasks may run, which wait for their paused node,
//! and which are dropped because they were cancelled or their node killed.

use vstd::prelude::*;
use crate::addr_text::{dec_text, push_dec, push_str};
use crate::assoc::{assoc_get, assoc_unique, find_u64, lemma_assoc_push, lemma_assoc_update};

verus! {

/// A unique identifier for a node.
#[derive(Clone, Copy, Debug, PartialEq, Eq, Structural, PartialOrd, Ord, Hash)]
pub struct NodeId(pub u64);

impl NodeId {
    /// The identifier of the main node, which runs the supervisor.
    pub fn zero() -> (n: NodeId)
        ensures
            n.0 == 0,
    {
        NodeId(0)
    }
}

/// An opaque ID that uniquely identifies a task relative to all other
/// currently running tasks.
#[derive(Clone, Copy, Debug, PartialEq, Eq, Structural, Hash)]
pub struct Id(pub u64);

/// Task failed to execute to completion.
#[derive(Clone, Copy, Debug, PartialEq, Eq, Structural)]
pub struct JoinError {
    id: Id,
    is_panic: bool,
}

impl JoinError {
    /// The error of task `id`, which was cancelled.
    pub fn cancelled(id: Id) -> (e: JoinError)
        ensures
            e.spec_id() == id,
            !e.spec_is_panic(),
    {
        JoinError { id, is_panic: false }
    }

    /// The error of task `id`, which panicked.
    pub fn panicked(id: Id) -> (e: JoinError)
        ensures
            e.spec_id() == id,
            e.spec_is_panic(),
    {
        JoinError { id, is_panic: true }
    }

    /// The text of the error: "task N was cancelled" or "task N panicked".
    pub fn message(&self) -> (t: String)
        ensures
            t@ == seq!['t', 'a', 's', 'k', ' '] + dec_text(self.spec_id().0 as nat) + if self.spec_is_panic() {
                seq![' ', 'p', 'a', 'n', 'i', 'c', 'k', 'e', 'd']
            } else {
                seq![' ', 'w', 'a', 's', ' ', 'c', 'a', 'n', 'c', 'e', 'l', 'l', 'e', 'd']
            },
    {
        let mut s = String::new();
        push_str(&mut s, "task ");
        push_dec(&mut s, self.id.0);
        if self.is_panic {
            push_str(&mut s, " panicked");
        } else {
            push_str(&mut s, " was cancelled");
        }
        proof {
            reveal_strlit("task ");
            reveal_strlit(" panicked");
            reveal_strlit(" was cancelled");
        }
        s
    }

    /// The task the error is about.
    pub closed spec fn spec_id(&self) -> Id {
        self.id
    }

    /// Whether the task panicked.
    pub closed spec fn spec_is_panic(&self) -> bool {
        self.is_panic
    }

    /// Returns a task ID that identifies the task which errored.
    pub fn id(&self) -> (i: Id)
        ensures
            i == self.spec_id(),
    {
        self.id
    }

    /// Returns true if the error was caused by the task being cancelled.
    pub fn is_cancelled(&self) -> (b: bool)
        ensures
            b == !self.spec_is_panic(),
    {
        !self.is_panic
    }

    /// Returns true if the error was caused by the task panicking.
    pub fn is_panic(&self) -> (b: bool)
        ensures
            b == self.spec_is_panic(),
    {
        self.is_panic
    }
}

/// The state of a node as the scheduler sees it.
pub struct NodeState {
    /// Node name.
    pub name: Option<String>,
    /// The number of CPU cores.
    pub cores: usize,
    /// Whether to restart the node on panic.
    pub restart_on_panic: bool,
    /// Whether the node has been paused.
    pub paused: bool,
    /// Whether the node has been killed or has exited.
    pub killed: bool,
    /// How many times the node has been restarted; tasks of an earlier
    /// incarnation are dead.
    pub incarnation: u64,
    /// Whether a "ctrl-c" handler has been installed since the last restart.
    pub ctrl_c: bool,
    /// Tasks that became ready while the node was paused.
    pub parked: Vec<u64>,
    /// Whether the node has an initial task, respawned on restart.
    pub has_init: bool,
    /// The node is restarted when a task panics with a message that holds
    /// one of these.
    pub restart_on_panic_matching: Vec<String>,
}

/// A spawned task: its node, the node's incarnation at the time, and
/// whether it has been cancelled.
#[derive(Clone, Copy, Debug, PartialEq, Eq, Structural)]
pub struct TaskRecord {
    pub node: u64,
    pub incarnation: u64,
    pub cancelled: bool,
}

/// What the executor does with a task taken from the ready queue.
#[derive(Clone, Copy, Debug, PartialEq, Eq, Structural)]
pub enum Dispatch {
    /// The task was cancelled or its node killed: drop it.
    Drop,
    /// Its node is paused: keep it until the node resumes.
    Park,
    /// Run it.
    Run,
}

/// What a "ctrl-c" signal does to a node.
#[derive(Clone, Copy, Debug, PartialEq, Eq, Structural)]
pub enum CtrlC {
    /// A handler is installed: it is notified.
    Signalled,
    /// No handler was ever installed: the node is killed.
    Killed,
}

/// Whether node state `n` is named `name`.
pub open spec fn spec_named(n: NodeState, name: Seq<char>) -> bool {
    n.name matches Some(s) && s@ == name
}

/// Whether the node state `n` makes tasks of incarnation `inc` dead.
pub open spec fn spec_dead(n: NodeState, inc: u64) -> bool {
    n.killed || n.incarnation != inc
}

/// Restarting a node makes every task of its previous incarnation dead:
/// the new incarnation differs from the old one, even past the largest
/// number, where it wraps to zero.
pub proof fn restart_leaves_old_tasks_dead(old_incarnation: u64, n: NodeState)
    requires
        n.incarnation == old_incarnation.wrapping_add(1),
    ensures
        spec_dead(n, old_incarnation),
{
}

/// The registry of nodes and tasks.
pub struct TaskHandle {
    nodes: Vec<(u64, NodeState)>,
    main: NodeState,
    next_node_id: u64,
    tasks: Vec<(u64, TaskRecord)>,
    next_task_id: u64,
}

impl TaskHandle {
    /// The state of node `id` (the main node is 0), if it exists.
    pub closed spec fn spec_node(&self, id: u64) -> Option<NodeState> {
        if id == 0 { Some(self.main) } else { assoc_get(self.nodes@, id) }
    }

    /// The nodes other than the main node, with their ids.
    pub closed spec fn spec_nodes(&self) -> Seq<(u64, NodeState)> {
        self.nodes@
    }

    /// The record of task `id`, if it exists.
    pub closed spec fn spec_task(&self, id: u64) -> Option<TaskRecord> {
        assoc_get(self.tasks@, id)
    }

    /// The tasks, with their ids.
    pub closed spec fn spec_tasks(&self) -> Seq<(u64, TaskRecord)> {
        self.tasks@
    }

    /// The id the next node gets.
    pub closed spec fn spec_next_node_id(&self) -> u64 {
        self.next_node_id
    }

    /// The id the next task gets.
    pub closed spec fn spec_next_task_id(&self) -> u64 {
        self.next_task_id
    }

    /// The invariant: node and task ids are unique and below the next ids,
    /// and no node but the main one has id 0.
    pub closed spec fn wf(&self) -> bool {
        &&& assoc_unique(self.nodes@)
        &&& assoc_unique(self.tasks@)
        &&& self.next_node_id >= 1
        &&& forall|i: int| 0 <= i < self.nodes@.len() ==> 0 < #[trigger] self.nodes@[i].0 < self.next_node_id
        &&& forall|i: int| 0 <= i < self.tasks@.len() ==> #[trigger] self.tasks@[i].0 < self.next_task_id
    }

    /// Whether tasks of node `node` at incarnation `inc` are dead.
    pub open spec fn spec_info_dead(&self, node: u64, inc: u64) -> bool {
        match self.spec_node(node) {
            Some(n) => spec_dead(n, inc),
            None => true,
        }
    }

    /// A registry with only the main node, called "main", with one core.
    pub fn new() -> (t: TaskHandle)
        ensures
            t.wf(),
            t.spec_nodes().len() == 0,
            t.spec_tasks().len() == 0,
            t.spec_node(0) matches Some(m) && !m.killed && !m.paused && m.incarnation == 0 && m.cores == 1
                && !m.restart_on_panic && m.restart_on_panic_matching@.len() == 0,
            t.spec_next_node_id() == 1,
            t.spec_next_task_id() == 0,
    {
        TaskHandle {
            nodes: Vec::new(),
            main: NodeState {
                name: Some("main".to_owned()),
                cores: 1,
                restart_on_panic: false,
                paused: false,
                killed: false,
                incarnation: 0,
                ctrl_c: false,
                parked: Vec::new(),
                has_init: false,
                restart_on_panic_matching: Vec::new(),
            },
            next_node_id: 1,
            tasks: Vec::new(),
            next_task_id: 0,
        }
    }

    /// Takes node `id` out of the registry for a change; `put_node` puts it back.
    fn take_node(&mut self, i: usize) -> (r: (u64, NodeState))
        requires
            i < old(self).nodes@.len(),
        ensures
            r == old(self).nodes@[i as int],
            final(self).nodes@ == old(self).nodes@.remove(i as int),
            final(self).main == old(self).main,
            final(self).tasks == old(self).tasks,
            final(self).next_node_id == old(self).next_node_id,
            final(self).next_task_id == old(self).next_task_id,
    {
        self.nodes.remove(i)
    }

    /// Puts back at `i` a node taken out by `take_node`.
    fn put_node(&mut self, i: usize, id: u64, n: NodeState, Ghost(before): Ghost<Seq<(u64, NodeState)>>)
        requires
            i < before.len(),
            before[i as int].0 == id,
            old(self).nodes@ == before.remove(i as int),
            assoc_unique(before),
        ensures
            final(self).nodes@ == before.update(i as int, (id, n)),
            assoc_unique(final(self).nodes@),
            assoc_get(final(self).nodes@, id) == Some(n),
            forall|k: u64| k != id ==> assoc_get(final(self).nodes@, k) == assoc_get(before, k),
            final(self).main == old(self).main,
            final(self).tasks == old(self).tasks,
            final(self).next_node_id == old(self).next_node_id,
            final(self).next_task_id == old(self).next_task_id,
    {
        self.nodes.insert(i, (id, n));
        proof {
            assert(self.nodes@ =~= before.update(i as int, (id, n)));
            lemma_assoc_update(before, i as int, n);
        }
    }

    /// Creates a new node with the next id. Its initial task, if any, is to
    /// be spawned by the caller.
    pub fn create_node(
        &mut self,
        name: Option<String>,
        has_init: bool,
        cores: Option<usize>,
        restart_on_panic: bool,
        restart_on_panic_matching: Vec<String>,
    ) -> (id: NodeId)
        requires
            old(self).wf(),
            old(self).spec_next_node_id() < u64::MAX,
        ensures
            final(self).wf(),
            id.0 == old(self).spec_next_node_id(),
            id.0 != 0,
            final(self).spec_next_node_id() == old(self).spec_next_node_id() + 1,
            old(self).spec_node(id.0) is None,
            final(self).spec_node(id.0) matches Some(n) && {
                &&& n.name == name
                &&& n.cores == (match cores { Some(c) => c, None => 1 })
                &&& n.restart_on_panic == restart_on_panic
                &&& !n.paused && !n.killed && !n.ctrl_c
                &&& n.incarnation == 0
                &&& n.parked@.len() == 0
                &&& n.has_init == has_init
                &&& n.restart_on_panic_matching == restart_on_panic_matching
            },
            final(self).spec_nodes() == old(self).spec_nodes().push((id.0, final(self).spec_node(id.0)->0)),
            forall|k: u64| k != id.0 ==> final(self).spec_node(k) == old(self).spec_node(k),
            final(self).spec_tasks() == old(self).spec_tasks(),
            final(self).spec_next_task_id() == old(self).spec_next_task_id(),
    {
        let id = self.next_node_id;
        let n = NodeState {
            name,
            cores: match cores { Some(c) => c, None => 1 },
            restart_on_panic,
            paused: false,
            killed: false,
            incarnation: 0,
            ctrl_c: false,
            parked: Vec::new(),
            has_init,
            restart_on_panic_matching,
        };
        proof {
            if exists|i: int| 0 <= i < self.nodes@.len() && self.nodes@[i].0 == id {
                let i = choose|i: int| 0 <= i < self.nodes@.len() && self.nodes@[i].0 == id;
                assert(self.nodes@[i].0 < self.next_node_id);
            }
            lemma_assoc_push(self.nodes@, id, n);
        }
        self.nodes.push((id, n));
        self.next_node_id = self.next_node_id + 1;
        proof {
            assert forall|i: int| 0 <= i < self.nodes@.len() implies 0 < #[trigger] self.nodes@[i].0 < self.next_node_id by {
                if i < old(self).nodes@.len() {
                    assert(self.nodes@[i] == old(self).nodes@[i]);
                }
            }
        }
        NodeId(id)
    }

    /// Kills all tasks of node `id`: the node is marked killed and its parked
    /// tasks are dropped. The node must exist.
    pub fn kill(&mut self, id: NodeId)
        requires
            old(self).wf(),
            id.0 != 0,
            old(self).spec_node(id.0) is Some,
        ensures
            final(self).wf(),
            final(self).spec_node(id.0) matches Some(n) && {
                let o = old(self).spec_node(id.0)->0;
                &&& n.killed
                &&& n.parked@.len() == 0
                &&& n.incarnation == o.incarnation && n.paused == o.paused && n.ctrl_c == o.ctrl_c
                &&& n.name == o.name && n.cores == o.cores && n.restart_on_panic == o.restart_on_panic
                &&& n.has_init == o.has_init
                &&& n.restart_on_panic_matching == o.restart_on_panic_matching
            },
            forall|k: u64| k != id.0 ==> final(self).spec_node(k) == old(self).spec_node(k),
            final(self).spec_tasks() == old(self).spec_tasks(),
            final(self).spec_next_node_id() == old(self).spec_next_node_id(),
            final(self).spec_next_task_id() == old(self).spec_next_task_id(),
    {
        let i = find_u64(&self.nodes, id.0).unwrap();
        let ghost before = self.nodes@;
        let (k, mut n) = self.take_node(i);
        n.parked.clear();
        n.killed = true;
        self.put_node(i, k, n, Ghost(before));
        proof { self.lemma_ids_kept(before, i as int); }
    }

    /// Kills all tasks of node `id` and starts its next incarnation, not paused
    /// and without a "ctrl-c" handler. Returns whether the node has an initial
    /// task to respawn. The node must exist.
    pub fn restart(&mut self, id: NodeId) -> (has_init: bool)
        requires
            old(self).wf(),
            id.0 != 0,
            old(self).spec_node(id.0) is Some,
        ensures
            final(self).wf(),
            final(self).spec_node(id.0) matches Some(n) && {
                let o = old(self).spec_node(id.0)->0;
                &&& !n.killed && !n.paused && !n.ctrl_c
                &&& n.parked@.len() == 0
                &&& n.incarnation == o.incarnation.wrapping_add(1)
                &&& n.name == o.name && n.cores == o.cores && n.restart_on_panic == o.restart_on_panic
                &&& n.has_init == o.has_init
                &&& n.restart_on_panic_matching == o.restart_on_panic_matching
                &&& has_init == o.has_init
            },
            forall|k: u64| k != id.0 ==> final(self).spec_node(k) == old(self).spec_node(k),
            final(self).spec_tasks() == old(self).spec_tasks(),
            forall|k: u64| final(self).spec_task(k) == old(self).spec_task(k),
            final(self).spec_next_node_id() == old(self).spec_next_node_id(),
            final(self).spec_next_task_id() == old(self).spec_next_task_id(),
    {
        let i = find_u64(&self.nodes, id.0).unwrap();
        let ghost before = self.nodes@;
        let (k, mut n) = self.take_node(i);
        n.parked.clear();
        n.killed = false;
        n.paused = false;
        n.ctrl_c = false;
        n.incarnation = n.incarnation.wrapping_add(1);
        let has_init = n.has_init;
        self.put_node(i, k, n, Ghost(before));
        proof { self.lemma_ids_kept(before, i as int); }
        has_init
    }

    /// Pauses all tasks of node `id`. The node must exist.
    pub fn pause(&mut self, id: NodeId)
        requires
            old(self).wf(),
            id.0 != 0,
            old(self).spec_node(id.0) is Some,
        ensures
            final(self).wf(),
            final(self).spec_node(id.0) matches Some(n) && {
                let o = old(self).spec_node(id.0)->0;
                &&& n.paused
                &&& n.killed == o.killed && n.incarnation == o.incarnation && n.ctrl_c == o.ctrl_c
                &&& n.parked == o.parked
                &&& n.name == o.name && n.cores == o.cores && n.restart_on_panic == o.restart_on_panic
                &&& n.has_init == o.has_init
                &&& n.restart_on_panic_matching == o.restart_on_panic_matching
            },
            forall|k: u64| k != id.0 ==> final(self).spec_node(k) == old(self).spec_node(k),
            final(self).spec_tasks() == old(self).spec_tasks(),
            final(self).spec_next_node_id() == old(self).spec_next_node_id(),
            final(self).spec_next_task_id() == old(self).spec_next_task_id(),
    {
        let i = find_u64(&self.nodes, id.0).unwrap();
        let ghost before = self.nodes@;
        let (k, mut n) = self.take_node(i);
        n.paused = true;
        self.put_node(i, k, n, Ghost(before));
        proof { self.lemma_ids_kept(before, i as int); }
    }

    /// Resumes node `id`: the tasks parked while it was paused are handed back,
    /// in the order they were parked, to go to the ready queue. The node must
    /// exist.
    pub fn resume(&mut self, id: NodeId) -> (ready: Vec<u64>)
        requires
            old(self).wf(),
            id.0 != 0,
            old(self).spec_node(id.0) is Some,
        ensures
            final(self).wf(),
            final(self).spec_node(id.0) matches Some(n) && {
                let o = old(self).spec_node(id.0)->0;
                &&& !n.paused
                &&& ready@ == o.parked@
                &&& n.parked@.len() == 0
                &&& n.killed == o.killed && n.incarnation == o.incarnation && n.ctrl_c == o.ctrl_c
                &&& n.name == o.name && n.cores == o.cores && n.restart_on_panic == o.restart_on_panic
                &&& n.has_init == o.has_init
                &&& n.restart_on_panic_matching == o.restart_on_panic_matching
            },
            forall|k: u64| k != id.0 ==> final(self).spec_node(k) == old(self).spec_node(k),
            final(self).spec_tasks() == old(self).spec_tasks(),
            final(self).spec_next_node_id() == old(self).spec_next_node_id(),
            final(self).spec_next_task_id() == old(self).spec_next_task_id(),
    {
        let i = find_u64(&self.nodes, id.0).unwrap();
        let ghost before = self.nodes@;
        let (k, mut n) = self.take_node(i);
        n.paused = false;
        let mut ready: Vec<u64> = Vec::new();
        std::mem::swap(&mut ready, &mut n.parked);
        self.put_node(i, k, n, Ghost(before));
        proof { self.lemma_ids_kept(before, i as int); }
        ready
    }

    /// Sends a "ctrl-c" signal to node `id`: an installed handler is notified;
    /// without one the node is killed. The node must exist.
    pub fn send_ctrl_c(&mut self, id: NodeId) -> (r: CtrlC)
        requires
            old(self).wf(),
            id.0 != 0,
            old(self).spec_node(id.0) is Some,
        ensures
            final(self).wf(),
            old(self).spec_node(id.0)->0.ctrl_c ==> r == CtrlC::Signalled
                && forall|k: u64| final(self).spec_node(k) == old(self).spec_node(k),
            !old(self).spec_node(id.0)->0.ctrl_c ==> {
                &&& r == CtrlC::Killed
                &&& final(self).spec_node(id.0) matches Some(n) && n.killed && n.parked@.len() == 0
                    && n.incarnation == old(self).spec_node(id.0)->0.incarnation
                &&& forall|k: u64| k != id.0 ==> final(self).spec_node(k) == old(self).spec_node(k)
            },
            final(self).spec_tasks() == old(self).spec_tasks(),
            final(self).spec_next_node_id() == old(self).spec_next_node_id(),
            final(self).spec_next_task_id() == old(self).spec_next_task_id(),
    {
        let i = find_u64(&self.nodes, id.0).unwrap();
        if self.nodes[i].1.ctrl_c {
            return CtrlC::Signalled;
        }
        self.kill(id);
        CtrlC::Killed
    }

    /// Installs a "ctrl-c" handler for the tasks of node `node` at
    /// incarnation `inc`; it has no effect on a later incarnation.
    pub fn install_ctrl_c(&mut self, node: NodeId, inc: u64)
        requires
            old(self).wf(),
        ensures
            final(self).wf(),
            match old(self).spec_node(node.0) {
                Some(o) => if o.incarnation == inc {
                    final(self).spec_node(node.0) matches Some(n) && n.ctrl_c
                        && n.killed == o.killed && n.paused == o.paused && n.incarnation == o.incarnation
                        && n.parked == o.parked && n.name == o.name && n.cores == o.cores
                        && n.restart_on_panic == o.restart_on_panic && n.has_init == o.has_init
                        && n.restart_on_panic_matching == o.restart_on_panic_matching
                } else {
                    final(self).spec_node(node.0) == old(self).spec_node(node.0)
                },
                None => final(self).spec_node(node.0) == old(self).spec_node(node.0),
            },
            forall|k: u64| k != node.0 ==> final(self).spec_node(k) == old(self).spec_node(k),
            final(self).spec_tasks() == old(self).spec_tasks(),
            final(self).spec_next_node_id() == old(self).spec_next_node_id(),
            final(self).spec_next_task_id() == old(self).spec_next_task_id(),
    {
        if node.0 == 0 {
            if self.main.incarnation == inc {
                self.main.ctrl_c = true;
            }
            return;
        }
        match find_u64(&self.nodes, node.0) {
            Some(i) => {
                if self.nodes[i].1.incarnation == inc {
                    let ghost before = self.nodes@;
                    let (k, mut n) = self.take_node(i);
                    n.ctrl_c = true;
                    self.put_node(i, k, n, Ghost(before));
                    proof { self.lemma_ids_kept(before, i as int); }
                }
            },
            None => {},
        }
    }

    /// The state of node `id`, if it exists; node 0 is the main node.
    pub fn node(&self, id: NodeId) -> (r: Option<&NodeState>)
        requires
            self.wf(),
        ensures
            match r {
                Some(n) => self.spec_node(id.0) == Some(*n),
                None => self.spec_node(id.0) is None,
            },
    {
        if id.0 == 0 {
            return Some(&self.main);
        }
        match find_u64(&self.nodes, id.0) {
            Some(i) => Some(&self.nodes[i].1),
            None => None,
        }
    }

    /// The record of task `id`, if it exists.
    pub fn task(&self, id: Id) -> (r: Option<TaskRecord>)
        requires
            self.wf(),
        ensures
            r == self.spec_task(id.0),
    {
        match find_u64(&self.tasks, id.0) {
            Some(i) => Some(self.tasks[i].1),
            None => None,
        }
    }

    /// The id the next spawned task gets.
    pub fn next_task_id(&self) -> (t: u64)
        ensures
            t == self.spec_next_task_id(),
    {
        self.next_task_id
    }

    /// The id the next created node gets.
    pub fn next_node_id(&self) -> (n: u64)
        ensures
            n == self.spec_next_node_id(),
    {
        self.next_node_id
    }

    /// Whether node `id` has a "ctrl-c" handler installed.
    pub fn ctrl_c_installed(&self, id: NodeId) -> (b: bool)
        requires
            self.wf(),
            id.0 != 0,
            self.spec_node(id.0) is Some,
        ensures
            b == self.spec_node(id.0)->0.ctrl_c,
    {
        let i = find_u64(&self.nodes, id.0).unwrap();
        self.nodes[i].1.ctrl_c
    }

    /// Returns whether node `id` is killed or has exited. The node must exist.
    pub fn is_exit(&self, id: NodeId) -> (b: bool)
        requires
            self.wf(),
            id.0 != 0,
            self.spec_node(id.0) is Some,
        ensures
            b == self.spec_node(id.0)->0.killed,
    {
        let i = find_u64(&self.nodes, id.0).unwrap();
        self.nodes[i].1.killed
    }

    /// The current incarnation of node `id`, if it exists; node 0 is the main node.
    pub fn get_node(&self, id: NodeId) -> (r: Option<u64>)
        requires
            self.wf(),
        ensures
            r == match self.spec_node(id.0) {
                Some(n) => Some(n.incarnation),
                None => None::<u64>,
            },
    {
        if id.0 == 0 {
            return Some(self.main.incarnation);
        }
        match find_u64(&self.nodes, id.0) {
            Some(i) => Some(self.nodes[i].1.incarnation),
            None => None,
        }
    }

    /// Spawns a task on node `node` at incarnation `inc`, returning its id.
    /// The node must be alive at that incarnation.
    pub fn spawn(&mut self, node: NodeId, inc: u64) -> (id: Id)
        requires
            old(self).wf(),
            !old(self).spec_info_dead(node.0, inc),
            old(self).spec_next_task_id() < u64::MAX,
        ensures
            final(self).wf(),
            id.0 == old(self).spec_next_task_id(),
            old(self).spec_task(id.0) is None,
            final(self).spec_tasks() == old(self).spec_tasks().push((id.0, TaskRecord { node: node.0, incarnation: inc, cancelled: false })),
            final(self).spec_task(id.0) == Some(TaskRecord { node: node.0, incarnation: inc, cancelled: false }),
            forall|k: u64| k != id.0 ==> final(self).spec_task(k) == old(self).spec_task(k),
            forall|k: u64| final(self).spec_node(k) == old(self).spec_node(k),
            final(self).spec_nodes() == old(self).spec_nodes(),
            final(self).spec_next_node_id() == old(self).spec_next_node_id(),
            final(self).spec_next_task_id() == old(self).spec_next_task_id() + 1,
    {
        let id = self.next_task_id;
        let rec = TaskRecord { node: node.0, incarnation: inc, cancelled: false };
        proof {
            if exists|i: int| 0 <= i < self.tasks@.len() && self.tasks@[i].0 == id {
                let i = choose|i: int| 0 <= i < self.tasks@.len() && self.tasks@[i].0 == id;
                assert(self.tasks@[i].0 < self.next_task_id);
            }
            lemma_assoc_push(self.tasks@, id, rec);
        }
        self.tasks.push((id, rec));
        self.next_task_id = self.next_task_id + 1;
        proof {
            assert forall|i: int| 0 <= i < self.tasks@.len() implies #[trigger] self.tasks@[i].0 < self.next_task_id by {
                if i < old(self).tasks@.len() {
                    assert(self.tasks@[i] == old(self).tasks@[i]);
                }
            }
        }
        Id(id)
    }

    /// Marks task `task` cancelled (aborted); it will be dropped instead of run.
    pub fn cancel(&mut self, task: Id)
        requires
            old(self).wf(),
        ensures
            final(self).wf(),
            match old(self).spec_task(task.0) {
                Some(t) => final(self).spec_task(task.0) == Some(TaskRecord { cancelled: true, ..t }),
                None => final(self).spec_task(task.0) is None,
            },
            forall|k: u64| k != task.0 ==> final(self).spec_task(k) == old(self).spec_task(k),
            forall|k: u64| final(self).spec_node(k) == old(self).spec_node(k),
            final(self).spec_nodes() == old(self).spec_nodes(),
            final(self).spec_next_node_id() == old(self).spec_next_node_id(),
            final(self).spec_next_task_id() == old(self).spec_next_task_id(),
    {
        match find_u64(&self.tasks, task.0) {
            Some(i) => {
                let rec = TaskRecord { cancelled: true, ..self.tasks[i].1 };
                let ghost before = self.tasks@;
                self.tasks.set(i, (task.0, rec));
                proof {
                    lemma_assoc_update(before, i as int, rec);
                    assert forall|j: int| 0 <= j < self.tasks@.len() implies #[trigger] self.tasks@[j].0 < self.next_task_id by {
                        assert(self.tasks@[j].0 == before[j].0);
                    }
                }
            },
            None => {},
        }
    }

    /// Forgets task `task`, which has completed.
    pub fn finish(&mut self, task: Id)
        requires
            old(self).wf(),
        ensures
            final(self).wf(),
            final(self).spec_task(task.0) is None,
            forall|k: u64| k != task.0 ==> final(self).spec_task(k) == old(self).spec_task(k),
            forall|k: u64| final(self).spec_node(k) == old(self).spec_node(k),
            final(self).spec_nodes() == old(self).spec_nodes(),
            final(self).spec_next_node_id() == old(self).spec_next_node_id(),
            final(self).spec_next_task_id() == old(self).spec_next_task_id(),
    {
        match find_u64(&self.tasks, task.0) {
            Some(i) => {
                let ghost before = self.tasks@;
                proof { crate::assoc::lemma_assoc_remove(before, i as int); }
                self.tasks.remove(i);
                proof {
                    assert forall|j: int| 0 <= j < self.tasks@.len() implies #[trigger] self.tasks@[j].0 < self.next_task_id by {
                        assert(self.tasks@[j] == before[if j < i { j } else { j + 1 }]);
                    }
                }
            },
            None => {},
        }
    }

    /// The current node exits: its tasks of incarnation `inc` stop. A later
    /// incarnation is unaffected.
    pub fn exit(&mut self, node: NodeId, inc: u64)
        requires
            old(self).wf(),
        ensures
            final(self).wf(),
            match old(self).spec_node(node.0) {
                Some(o) => if o.incarnation == inc {
                    final(self).spec_node(node.0) matches Some(n) && n.killed
                        && n.ctrl_c == o.ctrl_c && n.paused == o.paused && n.incarnation == o.incarnation
                        && n.parked == o.parked && n.name == o.name && n.cores == o.cores
                        && n.restart_on_panic == o.restart_on_panic && n.has_init == o.has_init
                        && n.restart_on_panic_matching == o.restart_on_panic_matching
                } else {
                    final(self).spec_node(node.0) == old(self).spec_node(node.0)
                },
                None => final(self).spec_node(node.0) == old(self).spec_node(node.0),
            },
            forall|k: u64| k != node.0 ==> final(self).spec_node(k) == old(self).spec_node(k),
            final(self).spec_tasks() == old(self).spec_tasks(),
            final(self).spec_next_node_id() == old(self).spec_next_node_id(),
            final(self).spec_next_task_id() == old(self).spec_next_task_id(),
    {
        if node.0 == 0 {
            if self.main.incarnation == inc {
                self.main.killed = true;
            }
            return;
        }
        match find_u64(&self.nodes, node.0) {
            Some(i) => {
                if self.nodes[i].1.incarnation == inc {
                    let ghost before = self.nodes@;
                    let (k, mut n) = self.take_node(i);
                    n.killed = true;
                    self.put_node(i, k, n, Ghost(before));
                    proof { self.lemma_ids_kept(before, i as int); }
                }
            },
            None => {},
        }
    }

    /// Decides what to do with task `task`, just taken from the ready
    /// queue: drop it if it is unknown (it has completed), was cancelled or
    /// its node (at the task's incarnation) is dead; park it on its node if
    /// the node is paused; else run it.
    pub fn dispatch(&mut self, task: Id) -> (d: Dispatch)
        requires
            old(self).wf(),
        ensures
            final(self).wf(),
            old(self).spec_task(task.0) is None ==> d == Dispatch::Drop
                && forall|k: u64| final(self).spec_node(k) == old(self).spec_node(k),
            old(self).spec_task(task.0) is Some ==> ({
                let t = old(self).spec_task(task.0)->0;
                if t.cancelled || old(self).spec_info_dead(t.node, t.incarnation) {
                    d == Dispatch::Drop && forall|k: u64| final(self).spec_node(k) == old(self).spec_node(k)
                } else if old(self).spec_node(t.node)->0.paused {
                    &&& d == Dispatch::Park
                    &&& final(self).spec_node(t.node) matches Some(n)
                        && n.parked@ == old(self).spec_node(t.node)->0.parked@.push(task.0)
                        && n.paused && n.killed == old(self).spec_node(t.node)->0.killed
                        && n.incarnation == old(self).spec_node(t.node)->0.incarnation
                        && n.ctrl_c == old(self).spec_node(t.node)->0.ctrl_c
                    &&& forall|k: u64| k != t.node ==> final(self).spec_node(k) == old(self).spec_node(k)
                } else {
                    d == Dispatch::Run && forall|k: u64| final(self).spec_node(k) == old(self).spec_node(k)
                }
            }),
            final(self).spec_tasks() == old(self).spec_tasks(),
            forall|k: u64| final(self).spec_task(k) == old(self).spec_task(k),
            final(self).spec_next_node_id() == old(self).spec_next_node_id(),
            final(self).spec_next_task_id() == old(self).spec_next_task_id(),
    {
        let ti = match find_u64(&self.tasks, task.0) {
            Some(ti) => ti,
            None => return Dispatch::Drop,
        };
        let t = self.tasks[ti].1;
        if t.cancelled {
            return Dispatch::Drop;
        }
        if t.node == 0 {
            if self.main.killed || self.main.incarnation != t.incarnation {
                return Dispatch::Drop;
            }
            if self.main.paused {
                self.main.parked.push(task.0);
                return Dispatch::Park;
            }
            return Dispatch::Run;
        }
        let i = match find_u64(&self.nodes, t.node) {
            Some(i) => i,
            None => return Dispatch::Drop,
        };
        if self.nodes[i].1.killed || self.nodes[i].1.incarnation != t.incarnation {
            return Dispatch::Drop;
        }
        if self.nodes[i].1.paused {
            let ghost before = self.nodes@;
            let (k, mut n) = self.take_node(i);
            n.parked.push(task.0);
            self.put_node(i, k, n, Ghost(before));
            proof { self.lemma_ids_kept(before, i as int); }
            return Dispatch::Park;
        }
        Dispatch::Run
    }

    /// The first node (in order of creation) named `name`, other than the
    /// main node.
    pub fn node_by_name(&self, name: &str) -> (r: Option<NodeId>)
        requires
            self.wf(),
        ensures
            match r {
                Some(id) => exists|i: int| 0 <= i < self.spec_nodes().len() && self.spec_nodes()[i].0 == id.0
                    && spec_named(self.spec_nodes()[i].1, name@)
                    && forall|j: int| 0 <= j < i ==> !spec_named(#[trigger] self.spec_nodes()[j].1, name@),
                None => forall|j: int| 0 <= j < self.spec_nodes().len() ==> !spec_named(#[trigger] self.spec_nodes()[j].1, name@),
            },
    {
        let target = name.to_owned();
        let mut i: usize = 0;
        while i < self.nodes.len()
            invariant
                i <= self.nodes@.len(),
                target@ == name@,
                forall|j: int| 0 <= j < i ==> !spec_named(#[trigger] self.nodes@[j].1, name@),
            decreases self.nodes@.len() - i,
        {
            let hit = match &self.nodes[i].1.name {
                Some(n) => *n == target,
                None => false,
            };
            if hit {
                assert(spec_named(self.nodes@[i as int].1, name@));
                assert(self.spec_nodes()[i as int].0 == self.nodes@[i as int].0);
                return Some(NodeId(self.nodes[i].0));
            }
            i = i + 1;
        }
        None
    }

    /// Returns the number of nodes, the main node aside.
    pub fn num_nodes(&self) -> (n: usize)
        ensures
            n == self.spec_nodes().len(),
    {
        self.nodes.len()
    }

    /// Returns the number of tasks that have been spawned and not finished.
    pub fn num_tasks(&self) -> (n: usize)
        ensures
            n == self.spec_tasks().len(),
    {
        self.tasks.len()
    }

    /// Returns the number of live tasks spawned on node `node`.
    pub fn num_tasks_on_node(&self, node: NodeId) -> (n: usize)
        ensures
            n == self.spec_tasks().filter(|t: (u64, TaskRecord)| t.1.node == node.0).len(),
    {
        let ghost on = |t: (u64, TaskRecord)| t.1.node == node.0;
        let mut count: usize = 0;
        let mut i: usize = 0;
        while i < self.tasks.len()
            invariant
                i <= self.tasks@.len(),
                count == self.tasks@.take(i as int).filter(on).len(),
                on == (|t: (u64, TaskRecord)| t.1.node == node.0),
            decreases self.tasks@.len() - i,
        {
            proof {
                assert(self.tasks@.take(i + 1) == self.tasks@.take(i as int).push(self.tasks@[i as int]));
                self.tasks@.take(i as int).lemma_filter_push(self.tasks@[i as int], on);
                self.tasks@.take(i as int).filter(on).lemma_filter_len(on);
                self.tasks@.take(i as int).lemma_filter_len(on);
            }
            if self.tasks[i].1.node == node.0 {
                count = count + 1;
            }
            i = i + 1;
        }
        proof { assert(self.tasks@.take(self.tasks@.len() as int) == self.tasks@); }
        count
    }

    /// A node other than the main one exists only if it is listed.
    pub proof fn lemma_node_listed(&self, id: u64)
        requires
            id != 0,
            self.spec_node(id) is Some,
        ensures
            exists|i: int| 0 <= i < self.spec_nodes().len() && #[trigger] self.spec_nodes()[i].0 == id,
    {
        assert(exists|i: int| 0 <= i < self.nodes@.len() && self.nodes@[i].0 == id);
        let i = choose|i: int| 0 <= i < self.nodes@.len() && self.nodes@[i].0 == id;
        assert(self.spec_nodes()[i].0 == id);
    }

    /// The ids of nodes are unchanged by an update in place.
    proof fn lemma_ids_kept(&self, before: Seq<(u64, NodeState)>, i: int)
        requires
            0 <= i < before.len(),
            self.nodes@.len() == before.len(),
            self.nodes@[i].0 == before[i].0,
            forall|j: int| 0 <= j < before.len() && j != i ==> self.nodes@[j] == before[j],
            forall|j: int| 0 <= j < before.len() ==> 0 < #[trigger] before[j].0 < self.next_node_id,
        ensures
            forall|j: int| 0 <= j < self.nodes@.len() ==> 0 < #[trigger] self.nodes@[j].0 < self.next_node_id,
    {
        assert forall|j: int| 0 <= j < self.nodes@.len() implies 0 < #[trigger] self.nodes@[j].0 < self.next_node_id by {
            assert(self.nodes@[j].0 == before[j].0);
        }
    }
}

} // verus!
