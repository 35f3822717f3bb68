use madsim::addr::{IpAddr, SocketAddr};
use madsim::mailbox::RecvOutcome;
use madsim::runtime::{
    holds, holds_any, next_backoff, AfterRun, Config, NodeBuilder, Runtime, RuntimeError,
};
use madsim::task::{CtrlC, NodeId};
use madsim::time::{Duration, Instant};

fn ip(a: u8, b: u8, c: u8, d: u8) -> IpAddr {
    IpAddr::V4(u32::from_be_bytes([a, b, c, d]))
}

#[test]
fn seed_is_kept() {
    let rt = Runtime::with_seed_and_config(2333, Config::default());
    assert_eq!(rt.seed(), 2333);
}

#[test]
fn clock_starts_in_2022() {
    let rt = Runtime::with_seed_and_config(1, Config::default());
    assert_eq!(rt.elapsed(), Duration::from_nanos(0));
    assert_eq!(rt.now(), Instant::from_nanos(0));
    assert_eq!(rt.pending_events(), 0);
    assert_eq!(rt.metrics().num_nodes(), 0);
    assert_eq!(rt.metrics().num_tasks(), 0);
}

#[test]
fn block_on_without_events_stops() {
    let mut rt = Runtime::with_seed_and_config(0, Config::default());
    assert_eq!(rt.next_runnable(), None);
    assert_eq!(rt.advance_time().err(), Some(RuntimeError::NoEvents));
}

#[test]
fn spawned_task_runs_and_time_advances() {
    let mut rt = Runtime::with_seed_and_config(0, Config::default());
    let t = rt.spawn(NodeId(0), 0);
    assert_eq!(rt.next_runnable(), Some(t));
    let before = rt.elapsed().nanos;
    assert_eq!(rt.after_run(t, None), Ok(AfterRun::Continue));
    let step = rt.elapsed().nanos - before;
    assert!((50..100).contains(&step));
    assert_eq!(rt.next_runnable(), None);
}

#[test]
fn sleeping_task_wakes_at_deadline_plus_epsilon() {
    let mut rt = Runtime::with_seed_and_config(0, Config::default());
    let t = rt.spawn(NodeId(0), 0);
    assert_eq!(rt.next_runnable(), Some(t));
    rt.wake_at(t, Instant::from_nanos(1_000_000_000)).unwrap();
    assert_eq!(rt.pending_events(), 1);
    let fired = rt.advance_time().unwrap();
    assert!(fired.inits.is_empty() && fired.deliveries.is_empty());
    assert_eq!(rt.elapsed(), Duration::from_nanos(1_000_000_050));
    assert_eq!(rt.next_runnable(), Some(t));
}

#[test]
fn time_limit_stops_the_run() {
    let mut rt = Runtime::with_seed_and_config(0, Config::default());
    rt.set_time_limit(Duration::from_secs(1));
    let t = rt.spawn(NodeId(0), 0);
    rt.wake_at(t, Instant::from_nanos(2_000_000_000)).unwrap();
    assert_eq!(rt.advance_time().err(), Some(RuntimeError::TimeLimitExceeded));
}

#[test]
fn kill_drops_tasks_of_the_node() {
    let mut rt = Runtime::with_seed_and_config(0, Config::default());
    let (node1, _) = rt.create_node(NodeBuilder::new());
    let (node2, _) = rt.create_node(NodeBuilder::new());
    let t1 = rt.spawn(node1.id(), 0);
    let t2 = rt.spawn(node2.id(), 0);
    rt.kill(node1.id());
    rt.kill(node1.id());
    assert!(rt.is_exit(node1.id()));
    assert!(!rt.is_exit(node2.id()));
    assert_eq!(rt.next_runnable(), Some(t2));
    assert_eq!(rt.next_runnable(), None);
    let _ = t1;
}

#[test]
fn restart_respawns_the_initial_task() {
    let mut rt = Runtime::with_seed_and_config(0, Config::default());
    let (node, init) = rt.create_node(NodeBuilder::new().init());
    let init = init.unwrap();
    assert_eq!(rt.next_runnable(), Some(init));
    rt.kill(node.id());
    let again = rt.restart(node.id()).unwrap();
    assert!(!rt.is_exit(node.id()));
    assert_ne!(again, init);
    assert_eq!(rt.get_node(node.id()).unwrap().1, 1);
    assert_eq!(rt.next_runnable(), Some(again));
}

#[test]
fn pause_parks_and_resume_requeues() {
    let mut rt = Runtime::with_seed_and_config(0, Config::default());
    let (node, _) = rt.create_node(NodeBuilder::new());
    let t = rt.spawn(node.id(), 0);
    rt.pause(node.id());
    assert_eq!(rt.next_runnable(), None);
    rt.resume(node.id());
    assert_eq!(rt.next_runnable(), Some(t));
}

#[test]
fn ctrl_c_without_handler_kills() {
    let mut rt = Runtime::with_seed_and_config(0, Config::default());
    let (node, _) = rt.create_node(NodeBuilder::new());
    assert_eq!(rt.send_ctrl_c(node.id()), CtrlC::Killed);
    assert!(rt.is_exit(node.id()));
}

#[test]
fn panic_restarts_node_after_delay() {
    let mut rt = Runtime::with_seed_and_config(0, Config::default());
    let (node, init) = rt.create_node(NodeBuilder::new().init().restart_on_panic());
    let init = init.unwrap();
    assert_eq!(rt.next_runnable(), Some(init));
    assert_eq!(rt.after_run(init, Some("boom")), Ok(AfterRun::Continue));
    assert!(rt.is_exit(node.id()));
    assert_eq!(rt.pending_events(), 1);
    let spawned = rt.advance_time().unwrap().inits;
    assert_eq!(spawned.len(), 1);
    assert_eq!(spawned[0].0, node.id());
    let secs = rt.elapsed().nanos / 1_000_000_000;
    assert!((1..=10).contains(&secs));
    assert!(!rt.is_exit(node.id()));
    assert_eq!(rt.next_runnable(), Some(spawned[0].1));
}

#[test]
fn panic_matching_a_pattern_restarts() {
    let mut rt = Runtime::with_seed_and_config(0, Config::default());
    let b = NodeBuilder::new().init().restart_on_panic_matching("disk full".to_string());
    let (node, init) = rt.create_node(b);
    let init = init.unwrap();
    assert_eq!(rt.next_runnable(), Some(init));
    assert_eq!(rt.after_run(init, Some("error: disk full now")), Ok(AfterRun::Continue));
    assert!(rt.is_exit(node.id()));
}

#[test]
fn other_panic_goes_up() {
    let mut rt = Runtime::with_seed_and_config(0, Config::default());
    let b = NodeBuilder::new().restart_on_panic_matching("disk full".to_string());
    let (node, _) = rt.create_node(b);
    let t = rt.spawn(node.id(), 0);
    let before = rt.elapsed();
    assert_eq!(rt.after_run(t, Some("out of memory")), Ok(AfterRun::ResumePanic));
    assert_eq!(rt.elapsed(), before);
    assert!(!rt.is_exit(node.id()));
}

#[test]
fn node_gets_its_address_and_file_system() {
    let mut rt = Runtime::with_seed_and_config(0, Config::default());
    let a = ip(10, 0, 0, 1);
    assert!(!rt.ip_in_use(a));
    let (node, _) = rt.create_node(NodeBuilder::new().ip(a).name("server".to_string()));
    assert_eq!(node.id(), NodeId(1));
    assert!(rt.ip_in_use(a));
    assert_eq!(rt.net().owner(a), Some(1));
    assert!(rt.fs().get_file_size(1, "nothing").is_err());
    assert_eq!(rt.task().node_by_name("server"), Some(NodeId(1)));
}

#[test]
fn release_closes_port_of_live_incarnation_only() {
    let mut rt = Runtime::with_seed_and_config(0, Config::default());
    let a = ip(10, 0, 0, 1);
    let (node, _) = rt.create_node(NodeBuilder::new().ip(a));
    let addr = SocketAddr::new(a, 100);
    rt.release(node.id(), 5, addr);
    rt.release(node.id(), 0, addr);
    assert!(!rt.is_exit(node.id()));
}

#[test]
fn clogging_links() {
    let mut rt = Runtime::with_seed_and_config(0, Config::default());
    let (n1, _) = rt.create_node(NodeBuilder::new());
    let (n2, _) = rt.create_node(NodeBuilder::new());
    rt.clog_link(n1.id(), n2.id());
    rt.unclog_link(n1.id(), n2.id());
    rt.clog_node(n1.id());
    rt.unclog_node(n1.id());
}

#[test]
fn buggify_through_the_runtime() {
    let mut rt = Runtime::with_seed_and_config(3, Config::default());
    assert!(!rt.buggify());
    rt.set_buggify(true);
    let count = (0..1000).filter(|_| rt.buggify()).count();
    assert!((200..300).contains(&count));
}

#[test]
fn determinism_check_passes_on_replay() {
    let mut first = Runtime::with_seed_and_config(42, Config::default());
    first.enable_log();
    let a: Vec<u64> = (0..10).map(|_| first.random()).collect();
    let log = first.take_log().unwrap();

    let mut second = Runtime::with_seed_and_config(42, Config::default());
    second.enable_check(log);
    let b: Vec<u64> = (0..10).map(|_| second.random()).collect();
    assert_eq!(a, b);
    assert_eq!(second.violation(), None);
}

#[test]
fn substring_search() {
    assert!(holds("hello world", "lo w"));
    assert!(holds("abc", ""));
    assert!(!holds("abc", "abcd"));
    assert!(!holds("abc", "ac"));
    assert!(holds_any("timeout at node 3", &vec!["panic".to_string(), "node".to_string()]));
    assert!(!holds_any("fine", &vec![]));
}

#[test]
fn backoff_doubles_up_to_ten_seconds() {
    assert_eq!(next_backoff(Duration::from_millis(1)), Duration::from_millis(2));
    assert_eq!(next_backoff(Duration::from_secs(4)), Duration::from_secs(8));
    assert_eq!(next_backoff(Duration::from_secs(6)), Duration::from_secs(10));
}

#[test]
fn aborted_task_is_dropped() {
    let mut rt = Runtime::with_seed_and_config(0, Config::default());
    let t = rt.spawn(NodeId(0), 0);
    assert_eq!(rt.next_runnable(), Some(t));
    rt.abort(t);
    assert_eq!(rt.next_runnable(), None);
}

#[test]
fn exited_node_runs_nothing_until_restart() {
    let mut rt = Runtime::with_seed_and_config(0, Config::default());
    let (node, init) = rt.create_node(NodeBuilder::new().init());
    let init = init.unwrap();
    assert_eq!(rt.next_runnable(), Some(init));
    let t = rt.spawn(node.id(), 0);
    rt.exit(node.id(), 0);
    assert!(rt.is_exit(node.id()));
    assert_eq!(rt.next_runnable(), None);
    let _ = t;
    let again = rt.restart(node.id()).unwrap();
    assert_eq!(rt.next_runnable(), Some(again));
}

#[test]
fn ctrl_c_with_handler_only_signals() {
    let mut rt = Runtime::with_seed_and_config(0, Config::default());
    let (node, _) = rt.create_node(NodeBuilder::new());
    rt.install_ctrl_c(node.id(), 0);
    assert_eq!(rt.send_ctrl_c(node.id()), CtrlC::Signalled);
    assert!(!rt.is_exit(node.id()));
}

#[test]
fn runtime_fills_bytes_and_wakes() {
    let mut rt = Runtime::with_seed_and_config(5, Config::default());
    let mut buf = vec![0u8; 16];
    rt.fill_bytes(&mut buf);
    assert_eq!(buf.len(), 16);
    assert!(buf.iter().any(|&b| b != 0));
    let t = rt.spawn(NodeId(0), 0);
    assert_eq!(rt.next_runnable(), Some(t));
    rt.wake(t);
    assert_eq!(rt.next_runnable(), Some(t));
    rt.finish(t);
    rt.wake(t);
    assert_eq!(rt.next_runnable(), None);
}

#[test]
fn messages_travel_through_the_timer() {
    let mut rt = Runtime::with_seed_and_config(0, Config::default());
    let a = ip(10, 0, 0, 1);
    let b = ip(10, 0, 0, 2);
    let (n1, _) = rt.create_node(NodeBuilder::new().ip(a));
    let (n2, _) = rt.create_node(NodeBuilder::new().ip(b));
    let src = rt.net_bind(n1.id(), SocketAddr::new(a, 1)).unwrap();
    let dst = rt.net_bind(n2.id(), SocketAddr::new(b, 1)).unwrap();
    let ticket = match rt.net_recv(n2.id(), 1, 7) {
        RecvOutcome::Pending(id) => id,
        RecvOutcome::Ready(_) => panic!("nothing sent yet"),
    };
    assert!(rt.net().has_socket(2, 1));
    assert!(!rt.net().is_clogged(1, 2));
    rt.net_send(n1.id(), src, dst, 7, vec![42]).unwrap();
    assert_eq!(rt.pending_events(), 1);
    let fired = rt.advance_time().unwrap();
    let ms = rt.elapsed().nanos;
    assert!((1_000_050..10_000_050).contains(&ms));
    assert_eq!(fired.deliveries.len(), 1);
    let d = fired.deliveries.into_iter().next().unwrap();
    let (id, msg) = rt.net_deliver(d, &vec![]).unwrap();
    assert_eq!(id, ticket);
    assert_eq!(msg.data, vec![42]);
    assert_eq!(msg.from, src);
    assert_eq!(rt.net().stat().msg_count, 1);
}

#[test]
fn names_resolve_through_the_runtime() {
    let mut rt = Runtime::with_seed_and_config(0, Config::default());
    assert_eq!(rt.lookup_host("localhost"), Some(ip(127, 0, 0, 1)));
    rt.add_dns_record("server", ip(10, 0, 0, 3));
    assert_eq!(rt.lookup_host("server"), Some(ip(10, 0, 0, 3)));
    let d = rt.rand_delay();
    assert!(d.nanos < 5_000 && d.nanos % 1_000 == 0);
}

#[test]
fn nodes_get_distinct_increasing_ids() {
    let mut rt = Runtime::with_seed_and_config(0, Config::default());
    let k = rt.metrics().num_nodes();
    let (n1, _) = rt.create_node(NodeBuilder::new());
    assert_eq!(rt.metrics().num_nodes(), k + 1);
    let (n2, _) = rt.create_node(NodeBuilder::new());
    assert_ne!(n1.id(), NodeId(0));
    assert_ne!(n2.id(), NodeId(0));
    assert!(n1.id().0 < n2.id().0);
    rt.kill(n1.id());
    rt.kill(n1.id());
    assert!(rt.is_exit(n1.id()));
    assert!(!rt.is_exit(n2.id()));
}

#[test]
fn same_seed_same_runtime_draws() {
    let mut a = Runtime::with_seed_and_config(42, Config::default());
    let mut b = Runtime::with_seed_and_config(42, Config::default());
    for _ in 0..10 {
        assert_eq!(a.random(), b.random());
    }
    let mut x = vec![0u8; 16];
    let mut y = vec![0u8; 16];
    a.fill_bytes(&mut x);
    b.fill_bytes(&mut y);
    assert_eq!(x, y);
}
