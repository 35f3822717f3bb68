use madsim::addr::{IpAddr, SocketAddr};
use madsim::mailbox::{Mailbox, Message, RecvOutcome};
use madsim::network::{BindAnyError, BindError, NetConfig, Network};
use madsim::rand::GlobalRng;
use madsim::time::Instant;

fn v4(a: u8, b: u8, c: u8, d: u8) -> IpAddr {
    IpAddr::V4(u32::from_be_bytes([a, b, c, d]))
}

fn node_with_ip() -> Network {
    let mut net = Network::new(NetConfig::default());
    net.insert_node(1);
    net.set_ip(1, v4(10, 0, 0, 1));
    net
}

#[test]
fn bind() {
    let mut net = node_with_ip();

    // unspecified
    let addr = net.bind(1, SocketAddr::new(v4(0, 0, 0, 0), 0)).unwrap();
    assert_eq!(addr.ip, v4(0, 0, 0, 0));
    assert_ne!(addr.port, 0);

    // unspecified v6
    let addr = net.bind(1, SocketAddr::new(IpAddr::V6(0), 0)).unwrap();
    assert_eq!(addr.ip, IpAddr::V6(0));
    assert_ne!(addr.port, 0);

    // localhost
    let addr = net.bind(1, SocketAddr::new(v4(127, 0, 0, 1), 0)).unwrap();
    assert_eq!(addr.ip, v4(127, 0, 0, 1));
    assert_ne!(addr.port, 0);

    // localhost v6
    let addr = net.bind(1, SocketAddr::new(IpAddr::V6(1), 0)).unwrap();
    assert_eq!(addr.ip, IpAddr::V6(1));
    assert_ne!(addr.port, 0);

    // wrong IP
    let err = net.bind(1, SocketAddr::new(v4(10, 0, 0, 2), 0)).err().unwrap();
    assert_eq!(err, BindError::AddrNotAvailable);

    // local IP
    let ep = net.bind(1, SocketAddr::new(v4(10, 0, 0, 1), 100)).unwrap();
    assert_eq!(ep, SocketAddr::new(v4(10, 0, 0, 1), 100));

    // drop and reuse port
    net.close(1, ep);
    let _ = net.bind(1, SocketAddr::new(v4(10, 0, 0, 1), 100)).unwrap();
}

#[test]
fn ephemeral_ports_count_up_and_taken_port_is_refused() {
    let mut net = node_with_ip();
    let a = net.bind(1, SocketAddr::new(v4(10, 0, 0, 1), 0)).unwrap();
    let b = net.bind(1, SocketAddr::new(v4(10, 0, 0, 1), 0)).unwrap();
    assert_eq!((a.port, b.port), (1, 2));
    assert_eq!(net.bind(1, SocketAddr::new(v4(10, 0, 0, 1), 2)).err(), Some(BindError::AddrInUse));
}

#[test]
fn bind_any_tries_each_address() {
    let mut net = node_with_ip();
    assert_eq!(net.bind_any(1, &vec![]).err(), Some(BindAnyError::InvalidInput));
    let addrs = vec![SocketAddr::new(v4(10, 0, 0, 2), 1), SocketAddr::new(v4(10, 0, 0, 1), 7)];
    assert_eq!(net.bind_any(1, &addrs).unwrap(), SocketAddr::new(v4(10, 0, 0, 1), 7));
    let bad = vec![SocketAddr::new(v4(10, 0, 0, 2), 1)];
    assert_eq!(net.bind_any(1, &bad).err(), Some(BindAnyError::Bind(BindError::AddrNotAvailable)));
}

#[test]
fn send_to_unknown_address_is_lost() {
    let mut net = node_with_ip();
    let mut rng = GlobalRng::new_with_seed(1);
    let src = SocketAddr::new(v4(10, 0, 0, 1), 1);
    let dst = SocketAddr::new(v4(10, 0, 0, 9), 1);
    assert!(net.send(&mut rng, 1, src, dst, 5, vec![1], Instant::from_nanos(0)).is_none());
    assert_eq!(net.stat().msg_count, 0);
}

#[test]
fn send_deliver_recv() {
    let mut net = node_with_ip();
    net.insert_node(2);
    net.set_ip(2, v4(10, 0, 0, 2));
    let mut rng = GlobalRng::new_with_seed(1);
    let src = net.bind(1, SocketAddr::new(v4(10, 0, 0, 1), 1)).unwrap();
    let dst = net.bind(2, SocketAddr::new(v4(10, 0, 0, 2), 1)).unwrap();
    let d = net.send(&mut rng, 1, src, dst, 9, vec![7, 8], Instant::from_nanos(0)).unwrap();
    assert!(d.at.nanos >= 1_000_000 && d.at.nanos < 10_000_000);
    assert_eq!(net.stat().msg_count, 1);
    assert!(net.deliver(d, &vec![]).is_none());
    match net.recv(2, 1, 9) {
        RecvOutcome::Ready(m) => {
            assert_eq!(m.data, vec![7, 8]);
            assert_eq!(m.from, src);
        }
        RecvOutcome::Pending(_) => panic!("message should wait"),
    }
}

#[test]
fn clogged_link_drops_messages() {
    let mut net = node_with_ip();
    net.insert_node(2);
    net.set_ip(2, v4(10, 0, 0, 2));
    let mut rng = GlobalRng::new_with_seed(1);
    let src = net.bind(1, SocketAddr::new(v4(10, 0, 0, 1), 1)).unwrap();
    let dst = net.bind(2, SocketAddr::new(v4(10, 0, 0, 2), 1)).unwrap();
    net.clog_link(1, 2);
    assert!(net.send(&mut rng, 1, src, dst, 9, vec![1], Instant::from_nanos(0)).is_none());
    net.unclog_link(1, 2);
    net.clog_node(2);
    assert!(net.send(&mut rng, 1, src, dst, 9, vec![1], Instant::from_nanos(0)).is_none());
}

#[test]
fn mailbox_matches_tags() {
    let from = SocketAddr::new(v4(1, 2, 3, 4), 5);
    let mut mb = Mailbox::new();
    let ticket = match mb.recv(1) {
        RecvOutcome::Pending(id) => id,
        RecvOutcome::Ready(_) => panic!("nothing to receive yet"),
    };
    // a message with another tag waits
    assert!(mb.deliver(Message { tag: 2, data: vec![2], from }, &vec![]).is_none());
    // the registered receive takes a matching message
    let (id, m) = mb.deliver(Message { tag: 1, data: vec![1], from }, &vec![]).unwrap();
    assert_eq!(id, ticket);
    assert_eq!(m.data, vec![1]);
    match mb.recv(2) {
        RecvOutcome::Ready(m) => assert_eq!(m.data, vec![2]),
        RecvOutcome::Pending(_) => panic!("message with tag 2 waits"),
    }
}

#[test]
fn closed_receive_does_not_take_message() {
    let from = SocketAddr::new(v4(1, 2, 3, 4), 5);
    let mut mb = Mailbox::new();
    let ticket = match mb.recv(3) {
        RecvOutcome::Pending(id) => id,
        RecvOutcome::Ready(_) => panic!("nothing to receive yet"),
    };
    assert!(mb.deliver(Message { tag: 3, data: vec![3], from }, &vec![ticket]).is_none());
    match mb.recv(3) {
        RecvOutcome::Ready(m) => assert_eq!(m.data, vec![3]),
        RecvOutcome::Pending(_) => panic!("message was kept"),
    }
}
