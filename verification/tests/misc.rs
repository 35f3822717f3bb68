use madsim::addr::{IpAddr, SocketAddr};
use madsim::collections::SimRandomState;
use madsim::dns::DnsServer;
use madsim::fault::RandomHandle;
use madsim::mpsc::{Channel, SendError, TryRecvError};
use madsim::network::NetConfig;
use madsim::rand::{random, GlobalRng};
use madsim::rpc::hash_str;
use madsim::stream::StreamBuf;
use madsim::task::{JoinError, Id};
use madsim::tcp::{TcpError, TcpNetwork};
use madsim::time::Instant;
use madsim::wire::{
    advance_slices, decode_request, decode_response, encode_request, encode_response,
    socket_addr_from_bytes, socket_addr_to_bytes,
};

#[test]
fn hash33_of_strings() {
    assert_eq!(hash_str(""), 0);
    assert_eq!(hash_str("a"), 97);
    assert_eq!(hash_str("ab"), 97 * 33 + 98);
    let mut h: u64 = 0;
    for b in "madsim::rpc::Request".bytes() {
        h = h.wrapping_mul(33).wrapping_add(b as u64);
    }
    assert_eq!(hash_str("madsim::rpc::Request"), h);
}

#[test]
fn request_frames_round_trip() {
    let frame = encode_request(0x0102030405060708, &vec![1, 2, 3], &vec![9]);
    assert_eq!(frame, vec![1, 2, 3, 4, 5, 6, 7, 8, 0, 0, 0, 3, 1, 2, 3, 9]);
    assert_eq!(decode_request(&frame), Some((0x0102030405060708, vec![1, 2, 3], vec![9])));
    assert_eq!(decode_request(&vec![1, 2, 3]), None);
    let frame = encode_response(&vec![5], &vec![6, 7]);
    assert_eq!(frame, vec![0, 0, 0, 1, 5, 6, 7]);
    assert_eq!(decode_response(&frame), Some((vec![5], vec![6, 7])));
    assert_eq!(decode_response(&vec![0, 0, 0, 9, 1]), None);
}

#[test]
fn socket_addresses_round_trip() {
    let a = SocketAddr::new(IpAddr::V4(0x0a00_0001), 8080);
    let b = socket_addr_to_bytes(a);
    assert_eq!(b, [10, 0, 0, 1, 0x1f, 0x90]);
    assert_eq!(socket_addr_from_bytes(b), a);
}

#[test]
fn advancing_io_slices() {
    let mut bufs = vec![vec![1, 2], vec![3], vec![4, 5, 6]];
    advance_slices(&mut bufs, 3);
    assert_eq!(bufs, vec![vec![4, 5, 6]]);
    advance_slices(&mut bufs, 1);
    assert_eq!(bufs, vec![vec![5, 6]]);
}

#[test]
fn dns_knows_localhost_and_added_names() {
    let mut dns = DnsServer::new();
    assert_eq!(dns.lookup("localhost"), Some(IpAddr::V4(0x7f00_0001)));
    assert_eq!(dns.lookup("example"), None);
    dns.add("example", IpAddr::V4(1));
    dns.add("example", IpAddr::V4(2));
    assert_eq!(dns.lookup("example"), Some(IpAddr::V4(2)));
}

#[test]
fn channel_send_and_receive() {
    let mut ch: Channel<u32> = Channel::channel();
    assert_eq!(ch.try_recv_at(0), Err(TryRecvError::Empty));
    ch.send(1).unwrap();
    ch.send(2).unwrap();
    ch.send(3).unwrap();
    assert_eq!(ch.try_recv_at(0), Ok(1));
    assert_eq!(ch.try_recv_at(0), Ok(3));
    let mut rng = GlobalRng::new_with_seed(0);
    assert_eq!(ch.try_recv_random(&mut rng, None), Ok(2));
    ch.drop_sender();
    assert_eq!(ch.try_recv_at(0), Err(TryRecvError::Disconnected));
    ch.drop_receiver();
    assert!(matches!(ch.send(4), Err(SendError(4))));
}

#[test]
fn same_seed_same_draws() {
    let mut a = GlobalRng::new_with_seed(5);
    let mut b = GlobalRng::new_with_seed(5);
    for _ in 0..10 {
        assert_eq!(random(&mut a, None), random(&mut b, None));
    }
    let mut c = GlobalRng::new_with_seed(6);
    let xs: Vec<u64> = (0..4).map(|_| random(&mut a, None)).collect();
    let ys: Vec<u64> = (0..4).map(|_| random(&mut c, None)).collect();
    assert_ne!(xs, ys);
    for _ in 0..100 {
        let r = a.gen_range(10, 20, None);
        assert!((10..20).contains(&r));
    }
    assert_eq!(a.seed(), 5);
}

#[test]
fn log_then_check_finds_divergence() {
    let mut a = GlobalRng::new_with_seed(1);
    a.enable_log();
    let _ = a.next_u64(None);
    let _ = a.next_u64(None);
    let log = a.take_log().unwrap();
    assert_eq!(log.0.len(), 2);

    let mut b = GlobalRng::new_with_seed(2);
    b.enable_check(log);
    let _ = b.next_u64(None);
    let _ = b.next_u64(None);
    assert!(b.violation().is_some());
}

#[test]
fn hasher_state_draws_four_values() {
    let mut rng = GlobalRng::new_with_seed(3);
    rng.enable_log();
    let _s = SimRandomState::from_rng(&mut rng, None);
    assert_eq!(rng.take_log().unwrap().0.len(), 4);
}

#[test]
fn join_errors() {
    let e = JoinError::cancelled(Id(3));
    assert!(e.is_cancelled());
    assert!(!e.is_panic());
    assert_eq!(e.id(), Id(3));
    assert_eq!(e.message(), "task 3 was cancelled");
    let p = JoinError::panicked(Id(42));
    assert!(p.is_panic() && !p.is_cancelled());
    assert_eq!(p.message(), "task 42 panicked");
}

#[test]
fn tcp_connect_send_recv() {
    let mut tcp = TcpNetwork::new(NetConfig::default());
    let addr = SocketAddr::new(IpAddr::V4(0x0a00_0002), 1);
    assert_eq!(tcp.connect(1, addr), Err(TcpError::ConnectionRefused));
    tcp.listen(2, addr).unwrap();
    assert_eq!(tcp.listen(3, addr), Err(TcpError::AddrInUse));
    let (send, recv, dst) = tcp.connect(1, addr).unwrap();
    assert_eq!((send, recv, dst), (0, 1, 2));
    let mut rng = GlobalRng::new_with_seed(0);
    let (n, d) = tcp.send(&mut rng, send, vec![1, 2, 3], Instant::from_nanos(0)).unwrap();
    assert_eq!(n, 3);
    let d = d.unwrap();
    assert_eq!(tcp.recv(send), Ok(None));
    tcp.deliver(d);
    assert_eq!(tcp.recv(send), Ok(Some(vec![1, 2, 3])));
    assert_eq!(tcp.recv(send), Ok(None));
    assert_eq!(tcp.recv(99), Err(TcpError::ConnectionReset));
    let _ = recv;
}

#[test]
fn stream_reads_in_order() {
    let mut b = StreamBuf::new();
    assert_eq!(b.try_read(4), None);
    assert_eq!(b.write(b"hello"), 5);
    assert_eq!(b.write(b" world"), 6);
    let sent = b.flush();
    assert_eq!(sent, b"hello world".to_vec());
    assert_eq!(b.flush(), Vec::<u8>::new());
    b.fill(sent);
    assert!(b.has_pending());
    assert_eq!(b.try_read(4), Some(b"hell".to_vec()));
    assert_eq!(b.try_read(100), Some(b"o world".to_vec()));
    assert!(!b.has_pending());
    assert_eq!(b.try_read(1), None);
}

#[test]
fn fault_injection_follows_its_ratio() {
    let mut h = RandomHandle::new_with_seed(11);
    assert!(!h.should_fault(0, 1));
    assert!(h.should_fault(3, 3));
    let n = (0..1000).filter(|_| h.should_fault(1, 2)).count();
    assert!((400..600).contains(&n));
}

#[test]
fn filled_bytes_are_random() {
    let mut rng = GlobalRng::new_with_seed(9);
    let mut buf = vec![0u8; 32];
    rng.fill_bytes(&mut buf, None);
    assert_eq!(buf.len(), 32);
    assert!(buf.iter().any(|&b| b != 0));
}

#[test]
fn logged_values_depend_on_the_seed() {
    let mut a = GlobalRng::new_with_seed(1);
    let mut b = GlobalRng::new_with_seed(2);
    a.enable_log();
    b.enable_log();
    for _ in 0..16 {
        let _ = a.next_u32(None);
        let _ = b.next_u32(None);
    }
    assert_ne!(a.take_log().unwrap().0, b.take_log().unwrap().0);
}

#[test]
fn same_seed_same_faults() {
    let mut a = RandomHandle::new_with_seed(21);
    let mut b = RandomHandle::new_with_seed(21);
    for i in 0..100u32 {
        let n = i % 7;
        assert_eq!(a.should_fault(n, 6 + n), b.should_fault(n, 6 + n));
    }
}
