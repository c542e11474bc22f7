//! Sockets within one provider, and the filters in front of them.
use eo9_stubs::l4::{IpAddress, L4Error, SocketAddress};
use eo9_stubs::l4_filtered::{gate, question, EndpointKind, L4Call};
use eo9_stubs::l4_loopback::{canonical, is_bindable, is_loopback, with_state, Loopback};
use eo9_stubs::pci_filtered::{
    self, enumerate, lookup, AddressPolicy, DeviceAddress, DeviceInfo, HeaderType, OpenRefusal,
    VendorDevice, VendorPolicy,
};
use eo9_stubs::policy_ports::Ports;
use eo9_stubs::refusal::{absent, cycle_counter, read_line, refuse, swallow, Denied};

fn io(result: Result<impl Sized, L4Error>) -> String {
    match result {
        Err(L4Error::Io(text)) => text,
        Err(other) => panic!("unexpected {other:?}"),
        Ok(_) => panic!("unexpected success"),
    }
}

fn local(port: u16) -> SocketAddress {
    SocketAddress { address: IpAddress::V4(127, 0, 0, 1), port }
}

#[test]
fn streams_carry_bytes_both_ways() {
    let mut net = Loopback::empty();
    let listener = net.listen(local(80)).unwrap();
    assert_eq!(listener.local, local(80));
    assert_eq!(
        io(net.accept(&listener)),
        "nothing to accept — the loopback transport does not block; connect before accepting"
    );
    let client = net.connect(local(80)).unwrap();
    assert_eq!(client.peer, local(80));
    let (server, from) = net.accept(&listener).unwrap();
    assert_eq!(from, server.peer);
    assert_eq!(from.port, 49152);
    assert_eq!(net.send(&client, &b"hello".to_vec()).unwrap(), 5);
    assert_eq!(net.send(&client, &b" there".to_vec()).unwrap(), 6);
    assert_eq!(net.recv(&server, 4).unwrap(), b"hell");
    assert_eq!(net.recv(&server, 100).unwrap(), b"o there");
    assert_eq!(
        io(net.recv(&server, 100)),
        "no data queued — the loopback transport does not block; send before receiving"
    );
    net.send(&server, &b"back".to_vec()).unwrap();
    // What was sent before a hang-up is read before the end.
    net.drop_connection(&server);
    assert_eq!(net.recv(&client, 100).unwrap(), b"back");
    assert_eq!(net.recv(&client, 100).unwrap(), b"");
    assert!(matches!(net.send(&client, &b"x".to_vec()), Err(L4Error::ConnectionReset)));
}

#[test]
fn connections_need_a_listener() {
    let mut net = Loopback::empty();
    assert!(matches!(net.connect(local(80)), Err(L4Error::ConnectionRefused)));
    let elsewhere = SocketAddress { address: IpAddress::V4(10, 0, 0, 1), port: 80 };
    assert!(matches!(net.connect(elsewhere), Err(L4Error::Unreachable)));
    assert!(matches!(net.listen(elsewhere), Err(L4Error::AddressUnavailable)));
    let listener = net.listen(local(80)).unwrap();
    assert!(matches!(net.listen(local(80)), Err(L4Error::AddressInUse)));
    net.drop_listener(&listener);
    assert!(matches!(net.connect(local(80)), Err(L4Error::ConnectionRefused)));
    assert!(net.listen(local(80)).is_ok());
    assert_eq!(net.listen(local(0)).unwrap().local.port, 49152);
    assert_eq!(net.listen(local(0)).unwrap().local.port, 49153);
}

#[test]
fn datagrams_arrive_whole() {
    let mut net = Loopback::empty();
    let one = net.bind_udp(local(7)).unwrap();
    let two = net.bind_udp(local(0)).unwrap();
    assert!(matches!(net.bind_udp(local(7)), Err(L4Error::AddressInUse)));
    assert_eq!(net.send_to(&two, local(7), b"parcel".to_vec()).unwrap(), 6);
    assert_eq!(net.send_to(&two, local(7), b"next".to_vec()).unwrap(), 4);
    let (payload, from) = net.recv_from(&one, 3).unwrap();
    assert_eq!(payload, b"par");
    assert_eq!(from, two.local);
    assert_eq!(net.recv_from(&one, 100).unwrap().0, b"next");
    assert_eq!(
        io(net.recv_from(&one, 100)),
        "no datagram queued — the loopback transport does not block; send before receiving"
    );
    net.drop_udp(&one);
    assert!(net.bind_udp(local(7)).is_ok());
}

#[test]
fn loopback_addresses_are_told_apart() {
    let any4 = IpAddress::V4(0, 0, 0, 0);
    let any6 = IpAddress::V6(0, 0, 0, 0, 0, 0, 0, 0);
    let own6 = IpAddress::V6(0, 0, 0, 0, 0, 0, 0, 1);
    assert!(is_loopback(&IpAddress::V4(127, 3, 2, 1)) && is_loopback(&own6));
    assert!(!is_loopback(&any4) && !is_loopback(&IpAddress::V4(128, 0, 0, 1)));
    assert!(is_bindable(&any4) && is_bindable(&any6) && is_bindable(&own6));
    assert!(!is_bindable(&IpAddress::V4(10, 0, 0, 1)));
    assert_eq!(canonical(&any4, 5), local(5));
    assert_eq!(canonical(&any6, 5), SocketAddress { address: own6, port: 5 });
    let mut state = None;
    with_state(&mut state).listen(local(9)).unwrap();
    assert!(matches!(with_state(&mut state).listen(local(9)), Err(L4Error::AddressInUse)));
}

#[test]
fn reset_forgets_everything() {
    let mut net = Loopback::empty();
    net.listen(local(80)).unwrap();
    net.configure();
    assert!(net.listen(local(80)).is_ok());
}

#[test]
fn endpoints_are_asked_about() {
    assert_eq!(question(&L4Call::Connect(local(80))), Some((EndpointKind::Connect, local(80))));
    assert_eq!(question(&L4Call::SendTo(local(7))), Some((EndpointKind::SendTo, local(7))));
    assert_eq!(question(&L4Call::Listen(local(1))), Some((EndpointKind::Listen, local(1))));
    assert_eq!(question(&L4Call::BindUdp(local(2))), Some((EndpointKind::BindUdp, local(2))));
    assert_eq!(question(&L4Call::Recv), None);
    assert!(matches!(gate(L4Call::Connect(local(80)), false), Err(L4Error::Denied)));
    assert_eq!(gate(L4Call::Connect(local(80)), true).unwrap(), L4Call::Connect(local(80)));
}

#[test]
fn ports_are_listed() {
    let mut ports = Ports::unconfigured();
    assert!(!ports.decide(EndpointKind::Connect, &local(80)));
    ports.configure(vec![80, 443]);
    assert!(ports.decide(EndpointKind::Connect, &local(443)));
    assert!(ports.decide(EndpointKind::SendTo, &local(80)));
    assert!(!ports.decide(EndpointKind::Connect, &local(22)));
}

fn function(device: u8, vendor_id: u16) -> DeviceInfo {
    DeviceInfo {
        address: DeviceAddress { segment: 0, bus: 0, device, function: 0 },
        vendor_id,
        device_id: 0x1041,
        class_code: 2,
        subclass: 0,
        prog_if: 0,
        revision: 1,
        header: HeaderType::Endpoint,
    }
}

#[test]
fn functions_are_filtered() {
    let all = vec![function(1, 0x1af4), function(2, 0x10ec), function(3, 0x8086)];
    assert_eq!(enumerate(&all, &vec![true, false, true]), vec![all[0], all[2]]);
    assert_eq!(lookup(&all, all[1].address), Ok(all[1]));
    assert_eq!(lookup(&all, function(9, 0).address), Err(OpenRefusal::NotFound));
    assert_eq!(pci_filtered::gate(all[1], true), Ok(all[1].address));
    assert_eq!(pci_filtered::gate(all[1], false), Err(OpenRefusal::Denied));
    let mut by_address = AddressPolicy { allow: None };
    assert!(!by_address.decide(&all[0]));
    by_address.configure(vec![all[0].address]);
    assert!(by_address.decide(&all[0]) && !by_address.decide(&all[1]));
    let mut by_vendor = VendorPolicy { allow: None };
    assert!(!by_vendor.decide(&all[0]));
    by_vendor.configure(vec![VendorDevice { vendor_id: 0x10ec, device_id: 0x1041 }]);
    assert!(by_vendor.decide(&all[1]) && !by_vendor.decide(&all[0]));
}

#[test]
fn refusals_refuse() {
    assert_eq!(refuse::<u8>(), Err(Denied));
    assert_eq!(absent::<u8>(), None);
    assert_eq!(cycle_counter(), 0);
    assert_eq!(swallow::<u8>("text"), Ok(()));
    assert_eq!(read_line::<u8>(), Ok(None));
}
