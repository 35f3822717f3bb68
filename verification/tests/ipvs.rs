use madsim::ipvs::{IpVirtualServer, Scheduler, ServiceAddr};

#[test]
fn round_robin() {
    let mut ipvs = IpVirtualServer::new();
    let service = ServiceAddr::Tcp("10.0.0.1:80".into());
    ipvs.add_service(service.copy(), Scheduler::RoundRobin);
    assert_eq!(ipvs.get_server(service.copy()), None);

    ipvs.add_server(service.copy(), "192.168.1.1:80");
    ipvs.add_server(service.copy(), "192.168.1.2:80");
    ipvs.add_server(service.copy(), "192.168.1.3:80");

    assert_eq!(ipvs.get_server(service.copy()).unwrap(), "192.168.1.1:80");
    assert_eq!(ipvs.get_server(service.copy()).unwrap(), "192.168.1.2:80");
    assert_eq!(ipvs.get_server(service.copy()).unwrap(), "192.168.1.3:80");

    ipvs.del_server(service.copy(), "192.168.1.1:80");

    assert_eq!(ipvs.get_server(service).unwrap(), "192.168.1.2:80");
}

#[test]
fn round_robin_wraps_around() {
    let mut ipvs = IpVirtualServer::new();
    let service = ServiceAddr::Udp("10.0.0.1:53".into());
    ipvs.add_service(service.copy(), Scheduler::RoundRobin);
    ipvs.add_server(service.copy(), "a");
    ipvs.add_server(service.copy(), "b");
    let picks: Vec<String> = (0..5).map(|_| ipvs.get_server(service.copy()).unwrap()).collect();
    assert_eq!(picks, vec!["a", "b", "a", "b", "a"]);
}

#[test]
fn unknown_service_has_no_server() {
    let mut ipvs = IpVirtualServer::new();
    assert_eq!(ipvs.get_server(ServiceAddr::Tcp("1.1.1.1:80".into())), None);
    let service = ServiceAddr::Tcp("1.1.1.1:80".into());
    ipvs.add_service(service.copy(), Scheduler::RoundRobin);
    ipvs.add_server(service.copy(), "x");
    ipvs.del_service(service.copy());
    assert_eq!(ipvs.get_server(service), None);
}
