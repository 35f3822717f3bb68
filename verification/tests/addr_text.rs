use madsim::addr::{IpAddr, SocketAddr};
use madsim::addr_text::{ip_to_text, socket_addr_to_text};
use madsim::ipvs::{IpProtocol, ServiceAddr};

fn v6(groups: [u16; 8]) -> IpAddr {
    let mut a: u128 = 0;
    for g in groups {
        a = (a << 16) | g as u128;
    }
    IpAddr::V6(a)
}

#[test]
fn version4_text() {
    assert_eq!(ip_to_text(IpAddr::V4(0x0a00_0001)), "10.0.0.1");
    assert_eq!(ip_to_text(IpAddr::V4(0)), "0.0.0.0");
    assert_eq!(ip_to_text(IpAddr::V4(u32::MAX)), "255.255.255.255");
    assert_eq!(socket_addr_to_text(SocketAddr::new(IpAddr::V4(0xc0a8_0101), 80)), "192.168.1.1:80");
}

#[test]
fn version6_text() {
    assert_eq!(ip_to_text(IpAddr::V6(0)), "::");
    assert_eq!(ip_to_text(IpAddr::V6(1)), "::1");
    assert_eq!(ip_to_text(v6([0x2001, 0xdb8, 0, 0, 0, 0, 0, 1])), "2001:db8::1");
    assert_eq!(ip_to_text(v6([1, 0, 0, 2, 0, 0, 0, 3])), "1:0:0:2::3");
    assert_eq!(ip_to_text(v6([1, 0, 0, 2, 3, 0, 0, 4])), "1::2:3:0:0:4");
    assert_eq!(ip_to_text(v6([1, 0, 2, 3, 4, 5, 6, 7])), "1:0:2:3:4:5:6:7");
    assert_eq!(ip_to_text(v6([0xfe80, 0, 0, 0, 0xabcd, 0, 0, 0])), "fe80::abcd:0:0:0");
    assert_eq!(ip_to_text(v6([0, 0, 0, 0, 0, 0xffff, 0x0a00, 0x0001])), "::ffff:10.0.0.1");
    assert_eq!(socket_addr_to_text(SocketAddr::new(IpAddr::V6(1), 8080)), "[::1]:8080");
}

#[test]
fn service_address_from_socket_address() {
    let addr = SocketAddr::new(IpAddr::V4(0x0a00_0001), 80);
    let tcp = ServiceAddr::from_addr_proto(addr, IpProtocol::Tcp);
    assert!(tcp.same(&ServiceAddr::Tcp("10.0.0.1:80".into())));
    let udp = ServiceAddr::from_addr_proto(addr, IpProtocol::Udp);
    assert!(udp.same(&ServiceAddr::Udp("10.0.0.1:80".into())));
    assert!(!udp.same(&tcp));
}
