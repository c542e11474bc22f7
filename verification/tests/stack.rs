//! Two stacks on one wire, and a lease from a server at the other end of it.
use std::collections::VecDeque;

use eo9_stubs::l2::InterfaceInfo;
use eo9_stubs::l4::{IpAddress, L4Error, SocketAddress};
use eo9_stubs::l4_addressing::{
    bindable, bound_address, configure, destination_v4, fixed_dns_servers, local_address_with,
    mode, parse_ipv4, static_addressing, AddressMode, Addressing,
};
use eo9_stubs::l4_over_l2::{check_datagram, queued, Conn, Listener, NetState, Udp};
use eo9_stubs::l4_wait::{
    choose_interface, fit_parcel, flushes_after, lease_outcome, lease_servers, link_busy,
    link_failure, needs_lease, park_bound, send_outcome, Drain, DrainStep, Event, Goal, Got,
    LinkChoice, LinkError, Pump, PumpStep, Request, Wait, WaitStep,
};
use eo9_stubs::stack::{DatagramError, Ipv4};
use smoltcp::iface::{Config, Interface};
use smoltcp::phy::{Device, DeviceCapabilities, Medium, RxToken, TxToken};
use smoltcp::time::Instant;
use smoltcp::wire::{EthernetAddress, HardwareAddress};

struct Queues<'a> {
    rx: &'a mut VecDeque<Vec<u8>>,
    tx: &'a mut VecDeque<Vec<u8>>,
    mtu: usize,
}

struct Taken(Vec<u8>);

struct Given<'a>(&'a mut VecDeque<Vec<u8>>);

impl RxToken for Taken {
    fn consume<R, F: FnOnce(&[u8]) -> R>(self, f: F) -> R {
        f(&self.0)
    }
}

impl TxToken for Given<'_> {
    fn consume<R, F: FnOnce(&mut [u8]) -> R>(self, len: usize, f: F) -> R {
        let mut frame = vec![0u8; len];
        let result = f(&mut frame);
        self.0.push_back(frame);
        result
    }
}

impl Device for Queues<'_> {
    type RxToken<'b> = Taken where Self: 'b;
    type TxToken<'b> = Given<'b> where Self: 'b;

    fn receive(&mut self, _timestamp: Instant) -> Option<(Taken, Given<'_>)> {
        let frame = self.rx.pop_front()?;
        Some((Taken(frame), Given(self.tx)))
    }

    fn transmit(&mut self, _timestamp: Instant) -> Option<Given<'_>> {
        Some(Given(self.tx))
    }

    fn capabilities(&self) -> DeviceCapabilities {
        let mut caps = DeviceCapabilities::default();
        caps.medium = Medium::Ethernet;
        caps.max_transmission_unit = self.mtu;
        caps
    }
}

fn poll(net: &mut NetState, micros: i64) {
    let mut device = Queues { rx: &mut net.rx, tx: &mut net.tx, mtu: net.mtu };
    net.iface.poll(Instant::from_micros(micros), &mut device, &mut net.sockets);
}

fn host(number: u8, seed: u64, addressing: Option<Addressing>) -> NetState {
    let mut rx = VecDeque::new();
    let mut tx = VecDeque::new();
    let mut device = Queues { rx: &mut rx, tx: &mut tx, mtu: 1514 };
    let mac = EthernetAddress([2, 0, 0, 0, 0, number]);
    let mut config = Config::new(HardwareAddress::Ethernet(mac));
    config.random_seed = seed;
    let iface = Interface::new(config, &mut device, Instant::from_micros(0));
    NetState::new(iface, 1514, seed, addressing)
}

fn addressing(last: u8) -> Addressing {
    Addressing { address: Ipv4(10, 0, 2, last), prefix_len: 24, gateway: Ipv4(10, 0, 2, 2) }
}

/// What is at the other end of the wire.
trait Peer {
    fn exchange(&mut self, now: u64, frames: Vec<Vec<u8>>) -> Vec<Vec<u8>>;
}

impl Peer for NetState {
    fn exchange(&mut self, now: u64, frames: Vec<Vec<u8>>) -> Vec<Vec<u8>> {
        self.rx.extend(frames);
        poll(self, (now / 1000) as i64);
        self.tx.drain(..).collect()
    }
}

/// Nobody.
struct Silence;

impl Peer for Silence {
    fn exchange(&mut self, _now: u64, _frames: Vec<Vec<u8>>) -> Vec<Vec<u8>> {
        Vec::new()
    }
}

/// A wire with a clock and a console.
struct Wire<'a> {
    now: u64,
    tick: u64,
    inbox: VecDeque<Vec<u8>>,
    said: Vec<String>,
    parked: u64,
    refuse: bool,
    peer: &'a mut dyn Peer,
}

impl<'a> Wire<'a> {
    fn new(now: u64, peer: &'a mut dyn Peer) -> Wire<'a> {
        Wire {
            now,
            tick: 1_000,
            inbox: VecDeque::new(),
            said: Vec::new(),
            parked: 0,
            refuse: false,
            peer,
        }
    }

    fn perform(&mut self, net: &mut NetState, request: Request) -> Event {
        match request {
            Request::Clock => {
                self.now += self.tick;
                Event::Time(self.now)
            }
            Request::Poll(micros) => {
                poll(net, micros);
                Event::Done
            }
            Request::Say(line) => {
                self.said.push(line);
                Event::Done
            }
            Request::Send(frame) => {
                if self.refuse {
                    return Event::Refused;
                }
                self.inbox.extend(self.peer.exchange(self.now, vec![frame]));
                Event::Done
            }
            Request::Receive => {
                self.inbox.extend(self.peer.exchange(self.now, Vec::new()));
                Event::Frame(self.inbox.pop_front().unwrap_or_default())
            }
            Request::Park(bound) => {
                self.parked += 1;
                self.now += bound;
                Event::Done
            }
        }
    }

    fn wait(&mut self, net: &mut NetState, goal: Goal, deadline: u64) -> (Goal, Result<Got, L4Error>) {
        let mut wait = Wait::new(goal, deadline);
        let mut request = Request::Clock;
        for _ in 0..200_000 {
            let event = self.perform(net, request);
            match wait.step(net, event) {
                WaitStep::Ask(next) => request = next,
                WaitStep::Finished(result) => {
                    net.rx.extend(self.inbox.drain(..));
                    return (wait.goal, result);
                }
            }
        }
        panic!("the wait did not end");
    }

    fn pump(&mut self, net: &mut NetState) -> PumpStep {
        let mut pump = Pump::new();
        let mut request = Request::Clock;
        for _ in 0..1000 {
            let event = self.perform(net, request);
            match pump.step(net, event) {
                PumpStep::Ask(next) => request = next,
                over => {
                    net.rx.extend(self.inbox.drain(..));
                    return over;
                }
            }
        }
        panic!("the round did not end");
    }
}

const SECOND: u64 = 1_000_000_000;

/// A connection between two stacks, made at the given time.
fn connected(a: &mut NetState, b: &mut NetState) -> (Conn, Conn, Listener, u64) {
    let mut listener = b.listen(80).unwrap();
    let handle = a.start_connect(Ipv4(10, 0, 2, 2), 80).unwrap();
    let mut wire = Wire::new(SECOND, b);
    let (_, result) = wire.wait(a, Goal::Connect(handle), 6 * SECOND);
    assert!(matches!(result, Ok(Got::Done)), "{result:?}");
    let now = wire.now;
    let near = Conn {
        handle,
        peer: SocketAddress { address: IpAddress::V4(10, 0, 2, 2), port: 80 },
    };
    let mut wire = Wire::new(now, a);
    let (_, result) = wire.wait(b, Goal::Accept(listener.handle), 4 * SECOND);
    let Ok(Got::Peer(peer)) = result else { panic!("not accepted: {result:?}") };
    let now = wire.now;
    let (far, from) = b.take_over(&mut listener, peer).unwrap();
    assert_eq!(from.address, IpAddress::V4(10, 0, 2, 15));
    assert_eq!(from.port, 49152 + 7);
    (near, far, listener, now)
}

#[test]
fn stacks_talk_over_a_connection() {
    let mut a = host(15, 7, Some(addressing(15)));
    let mut b = host(2, 9, Some(addressing(2)));
    let (near, far, listener, now) = connected(&mut a, &mut b);
    assert_eq!((a.live, b.live), (1, 2));
    let bytes: Vec<u8> = (0..40_000u32).map(|i| (i % 253) as u8).collect();
    let goal = Goal::Send { handle: near.handle, bytes: bytes.clone(), queued: 0 };
    let mut got: Vec<u8> = Vec::new();
    let mut now = now;
    let mut goal = goal;
    while got.len() < bytes.len() {
        let mut wire = Wire::new(now, &mut b);
        let (after, result) = wire.wait(&mut a, goal, SECOND / 1000);
        now = wire.now;
        goal = after;
        assert!(matches!(result, Ok(Got::Done) | Err(L4Error::TimedOut)), "{result:?}");
        loop {
            let mut wire = Wire::new(now, &mut a);
            let recv = Goal::Recv { handle: far.handle, capacity: 10_000 };
            let (_, result) = wire.wait(&mut b, recv, SECOND / 1000);
            now = wire.now;
            match result {
                Ok(Got::Bytes(chunk)) => {
                    assert!(!chunk.is_empty() && chunk.len() <= 10_000);
                    got.extend(chunk);
                }
                Err(L4Error::TimedOut) => break,
                other => panic!("unexpected {other:?}"),
            }
        }
    }
    assert_eq!(got, bytes);
    // The far end reads the end of the stream once the near end is let go.
    a.close_connection(&near);
    assert_eq!((a.live, a.closing.len()), (0, 1));
    let mut wire = Wire::new(now, &mut a);
    let recv = Goal::Recv { handle: far.handle, capacity: 100 };
    let (_, result) = wire.wait(&mut b, recv, 4 * SECOND);
    assert!(matches!(result, Ok(Got::Bytes(chunk)) if chunk.is_empty()));
    now = wire.now;
    b.close_connection(&far);
    b.close_listener(&listener);
    assert_eq!(b.live, 0);
    assert!(b.listening_ports.is_empty());
    // After the close has run its course nothing is left of the sockets.
    for _ in 0..30 {
        let mut wire = Wire::new(now, &mut b);
        wire.pump(&mut a);
        now += SECOND;
    }
    a.sweep();
    b.sweep();
    assert!(a.closing.is_empty() && b.closing.is_empty());
}

#[test]
fn refused_connection_is_reported() {
    let mut a = host(15, 7, Some(addressing(15)));
    let mut b = host(2, 9, Some(addressing(2)));
    let handle = a.start_connect(Ipv4(10, 0, 2, 2), 81).unwrap();
    let mut wire = Wire::new(SECOND, &mut b);
    let (_, result) = wire.wait(&mut a, Goal::Connect(handle), 6 * SECOND);
    assert!(matches!(result, Err(L4Error::ConnectionRefused)), "{result:?}");
    a.cancel_connect(handle);
    assert_eq!(a.live, 0);
}

#[test]
fn silent_wire_times_out_and_parks() {
    let mut a = host(15, 7, Some(addressing(15)));
    let mut nobody = Silence;
    let handle = a.start_connect(Ipv4(10, 0, 2, 2), 80).unwrap();
    let mut wire = Wire::new(SECOND, &mut nobody);
    let (_, result) = wire.wait(&mut a, Goal::Connect(handle), 6 * SECOND);
    assert!(matches!(result, Err(L4Error::TimedOut)), "{result:?}");
    assert!(wire.now >= 7 * SECOND);
    assert!(wire.parked > 0);
}

#[test]
fn frozen_clock_ends_the_wait() {
    let mut a = host(15, 7, Some(addressing(15)));
    let listener = a.listen(80).unwrap();
    let mut nobody = Silence;
    let mut wire = Wire::new(SECOND, &mut nobody);
    wire.tick = 0;
    let mut wait = Wait::new(Goal::Accept(listener.handle), 4 * SECOND);
    let mut request = Request::Clock;
    let mut rounds = 0;
    loop {
        if matches!(request, Request::Receive) {
            rounds += 1;
        }
        let event = match request {
            Request::Park(_) => Event::Done,
            other => wire.perform(&mut a, other),
        };
        match wait.step(&mut a, event) {
            WaitStep::Ask(next) => request = next,
            WaitStep::Finished(result) => {
                assert!(matches!(result, Err(L4Error::TimedOut)));
                break;
            }
        }
    }
    assert_eq!(rounds, 4096);
}

#[test]
fn refused_link_ends_the_wait() {
    let mut a = host(15, 7, Some(addressing(15)));
    let mut nobody = Silence;
    let handle = a.start_connect(Ipv4(10, 0, 2, 2), 80).unwrap();
    let mut wire = Wire::new(SECOND, &mut nobody);
    wire.refuse = true;
    let (_, result) = wire.wait(&mut a, Goal::Connect(handle), 6 * SECOND);
    assert!(matches!(result, Err(L4Error::Denied)));
}

#[test]
fn datagrams_cross_the_wire() {
    let mut a = host(15, 7, Some(addressing(15)));
    let mut b = host(2, 9, Some(addressing(2)));
    let near: Udp = a.bind_udp(0).unwrap();
    let far = b.bind_udp(7).unwrap();
    assert_eq!(far.local, SocketAddress { address: IpAddress::V4(10, 0, 2, 2), port: 7 });
    assert!(matches!(b.bind_udp(7), Err(L4Error::AddressInUse)));
    a.queue_datagram(&near, Ipv4(10, 0, 2, 2), 7, &b"ping".to_vec()).unwrap();
    assert!(!a.drained(&near));
    let mut drain = Drain::new(near, 4);
    let mut wire = Wire::new(SECOND, &mut b);
    let mut request = Request::Clock;
    let sent = loop {
        let event = wire.perform(&mut a, request);
        match drain.step(&mut a, event) {
            DrainStep::Ask(next) => request = next,
            DrainStep::Finished(result) => break result.unwrap(),
        }
    };
    a.rx.extend(wire.inbox.drain(..));
    assert_eq!(sent, 4);
    assert!(a.drained(&near));
    let now = wire.now;
    let mut wire = Wire::new(now, &mut a);
    let (_, result) = wire.wait(&mut b, Goal::RecvFrom(far.handle), 4 * SECOND);
    let Ok(Got::Parcel(payload, from)) = result else { panic!("nothing came: {result:?}") };
    assert_eq!(payload, b"ping");
    assert_eq!(from, near.local);
    assert!(matches!(
        a.queue_datagram(&near, Ipv4(0, 0, 0, 0), 7, &vec![1]),
        Err(L4Error::Unreachable)
    ));
    a.close_udp(&near);
    b.close_udp(&far);
    assert_eq!((a.live, b.live), (0, 0));
    assert!(b.bind_udp(7).is_ok());
}

#[test]
fn full_queues_are_reported() {
    let mut a = host(15, 7, Some(addressing(15)));
    let near = a.bind_udp(5).unwrap();
    for _ in 0..4 {
        a.queue_datagram(&near, Ipv4(10, 0, 2, 2), 7, &vec![0; 1536]).unwrap();
    }
    match a.queue_datagram(&near, Ipv4(10, 0, 2, 2), 7, &vec![0; 1536]) {
        Err(L4Error::Io(text)) => assert_eq!(text, "udp send queue full"),
        other => panic!("unexpected {other:?}"),
    }
    assert!(queued(Ok(())).is_ok());
    assert!(matches!(queued(Err(DatagramError::Unaddressable)), Err(L4Error::Unreachable)));
    assert!(check_datagram(1536).is_ok());
    assert!(matches!(check_datagram(1537), Err(L4Error::MessageTooLarge)));
}

/// Sends what waits in a socket's queue.
fn sent_off(a: &mut NetState, b: &mut NetState, near: &Udp, now: u64) -> u64 {
    let mut drain = Drain::new(Udp { handle: near.handle, local: near.local }, 0);
    let mut wire = Wire::new(now, b);
    let mut request = Request::Clock;
    let sent = loop {
        let event = wire.perform(a, request);
        match drain.step(a, event) {
            DrainStep::Ask(next) => request = next,
            DrainStep::Finished(result) => break result.unwrap(),
        }
    };
    assert_eq!(sent, 0);
    a.rx.extend(wire.inbox.drain(..));
    wire.now
}

#[test]
fn queues_take_what_finds_room() {
    let mut a = host(15, 7, Some(addressing(15)));
    let near = a.bind_udp(5).unwrap();
    let remote = Ipv4(10, 0, 2, 2);
    // Datagrams are taken while others wait, up to the last byte of the queue.
    for size in [1000, 2000, 3144] {
        a.queue_datagram(&near, remote, 7, &vec![0; size]).unwrap();
    }
    assert!(a.queue_datagram(&near, remote, 7, &vec![0; 1]).is_err());
    a.queue_datagram(&near, remote, 7, &vec![]).unwrap();
    assert!(a.queue_datagram(&near, remote, 7, &vec![]).is_err());
    // One that is larger than the queue is never taken.
    let other = a.bind_udp(6).unwrap();
    assert!(a.queue_datagram(&other, remote, 7, &vec![0; 6145]).is_err());
    a.queue_datagram(&other, remote, 7, &vec![0; 6144]).unwrap();
}

#[test]
fn drained_queues_take_what_fits() {
    let mut a = host(15, 7, Some(addressing(15)));
    let mut b = host(2, 9, Some(addressing(2)));
    let near = a.bind_udp(5).unwrap();
    let remote = Ipv4(10, 0, 2, 2);
    let mut now = SECOND;
    for _ in 0..3 {
        a.queue_datagram(&near, remote, 7, &vec![1; 100]).unwrap();
        now = sent_off(&mut a, &mut b, &near, now);
        assert!(a.drained(&near));
    }
    a.queue_datagram(&near, remote, 7, &vec![0; 6144]).unwrap();
}

/// A stack that knows its neighbour, with four datagrams of 1400 bytes queued, of which so
/// many have left: the next byte goes to place 5600 of 6144.
fn partly_sent(left: usize) -> (NetState, Udp) {
    let mut a = host(15, 7, Some(addressing(15)));
    let mut b = host(2, 9, Some(addressing(2)));
    let near = a.bind_udp(5).unwrap();
    let remote = Ipv4(10, 0, 2, 2);
    a.queue_datagram(&near, remote, 7, &vec![1]).unwrap();
    let now = sent_off(&mut a, &mut b, &near, SECOND);
    for _ in 0..4 {
        a.queue_datagram(&near, remote, 7, &vec![2; 1400]).unwrap();
    }
    for _ in 0..left {
        poll(&mut a, (now / 1_000) as i64);
    }
    assert_eq!(a.tx.len(), left);
    (a, near)
}

#[test]
fn datagrams_are_not_divided() {
    let remote = Ipv4(10, 0, 2, 2);
    // Two entries are free: the rest of the memory is filled up, and the datagram follows.
    let (mut a, near) = partly_sent(2);
    a.queue_datagram(&near, remote, 7, &vec![3; 1400]).unwrap();
    assert!(a.queue_datagram(&near, remote, 7, &vec![]).is_err());
    // Two entries are free and there is a place of 2800 bytes, but none of 2801.
    let (mut a, near) = partly_sent(2);
    assert!(a.queue_datagram(&near, remote, 7, &vec![3; 2801]).is_err());
    a.queue_datagram(&near, remote, 7, &vec![3; 2800]).unwrap();
    // One entry is free: the filling takes it, and the datagram finds none.
    let (mut a, near) = partly_sent(1);
    assert!(a.queue_datagram(&near, remote, 7, &vec![3; 1400]).is_err());
    assert!(a.queue_datagram(&near, remote, 7, &vec![]).is_err());
    // One entry is free, and the datagram needs no filling.
    let (mut a, near) = partly_sent(1);
    a.queue_datagram(&near, remote, 7, &vec![3; 544]).unwrap();
    assert!(a.queue_datagram(&near, remote, 7, &vec![]).is_err());
    // One entry is free, but there are no bytes for the datagram: nothing is filled up.
    let (mut a, near) = partly_sent(1);
    assert!(a.queue_datagram(&near, remote, 7, &vec![3; 1401]).is_err());
    a.queue_datagram(&near, remote, 7, &vec![]).unwrap();
}

#[test]
fn sockets_are_bounded() {
    let mut a = host(15, 7, Some(addressing(15)));
    for port in 0..16u16 {
        a.listen(1000 + port).unwrap();
    }
    match a.listen(2000) {
        Err(L4Error::Io(text)) => assert_eq!(text, "socket table full (16 sockets)"),
        other => panic!("unexpected {other:?}"),
    }
    assert!(a.bind_udp(0).is_err());
    assert!(a.start_connect(Ipv4(10, 0, 2, 2), 80).is_err());
}

#[test]
fn listening_ports_are_held() {
    let mut a = host(15, 7, Some(addressing(15)));
    let listener = a.listen(80).unwrap();
    assert!(matches!(a.listen(80), Err(L4Error::AddressInUse)));
    a.close_listener(&listener);
    let again = a.listen(80).unwrap();
    assert_eq!(again.local, SocketAddress { address: IpAddress::V4(10, 0, 2, 15), port: 80 });
    let any = a.listen(0).unwrap();
    assert_eq!(any.local.port, 49152 + 7);
    assert_eq!(a.ephemeral_port(), 49152 + 8);
    match a.start_connect(Ipv4(0, 0, 0, 0), 80) {
        Err(L4Error::Io(text)) => assert_eq!(text, "connect: Unaddressable"),
        other => panic!("unexpected {other:?}"),
    }
}

/// A server that leases one address.
struct Server {
    lease_seconds: u32,
}

fn checksum(header: &[u8]) -> u16 {
    let mut sum: u32 = 0;
    for pair in header.chunks(2) {
        sum += u32::from(u16::from_be_bytes([pair[0], pair[1]]));
    }
    while sum > 0xffff {
        sum = (sum & 0xffff) + (sum >> 16);
    }
    !(sum as u16)
}

impl Server {
    fn reply(&self, frame: &[u8]) -> Option<Vec<u8>> {
        if frame.len() < 14 + 20 + 8 + 240 || frame[12..14] != [8, 0] || frame[23] != 17 {
            return None;
        }
        if frame[36..38] != [0, 67] {
            return None;
        }
        let request = &frame[42..];
        let mut kind = 0;
        let mut at = 240;
        while at < request.len() && request[at] != 255 {
            if request[at] == 0 {
                at += 1;
                continue;
            }
            if request[at] == 53 {
                kind = request[at + 2];
            }
            at += 2 + request[at + 1] as usize;
        }
        let mut dhcp = vec![2, 1, 6, 0];
        dhcp.extend(&request[4..8]);
        dhcp.extend([0; 8]);
        dhcp.extend([10, 0, 2, 77]);
        dhcp.extend([10, 0, 2, 2]);
        dhcp.extend([0; 4]);
        dhcp.extend(&request[28..34]);
        dhcp.extend(vec![0; 10 + 64 + 128]);
        dhcp.extend([0x63, 0x82, 0x53, 0x63]);
        dhcp.extend([53, 1, if kind == 1 { 2 } else { 5 }]);
        dhcp.extend([54, 4, 10, 0, 2, 2]);
        dhcp.extend([51, 4]);
        dhcp.extend(self.lease_seconds.to_be_bytes());
        dhcp.extend([1, 4, 255, 255, 255, 0]);
        dhcp.extend([3, 4, 10, 0, 2, 1]);
        dhcp.extend([6, 8, 10, 0, 2, 3, 8, 8, 8, 8]);
        dhcp.push(255);
        let mut ip = vec![0x45, 0];
        ip.extend((20 + 8 + dhcp.len() as u16).to_be_bytes());
        ip.extend([0, 0, 0x40, 0, 64, 17, 0, 0, 10, 0, 2, 2, 255, 255, 255, 255]);
        let sum = checksum(&ip);
        ip[10..12].copy_from_slice(&sum.to_be_bytes());
        let mut out = frame[6..12].to_vec();
        out.extend([2, 0, 0, 0, 0, 2, 8, 0]);
        out.extend(ip);
        out.extend([0, 67, 0, 68]);
        out.extend((8 + dhcp.len() as u16).to_be_bytes());
        out.extend([0, 0]);
        out.extend(dhcp);
        Some(out)
    }
}

impl Peer for Server {
    fn exchange(&mut self, _now: u64, frames: Vec<Vec<u8>>) -> Vec<Vec<u8>> {
        frames.iter().filter_map(|frame| self.reply(frame)).collect()
    }
}

#[test]
fn lease_is_acquired_and_announced() {
    let mut a = host(15, 7, None);
    assert!(needs_lease(&a));
    let mut server = Server { lease_seconds: 600 };
    let mut wire = Wire::new(SECOND, &mut server);
    let (_, result) = wire.wait(&mut a, Goal::Lease, 20 * SECOND);
    assert!(matches!(result, Ok(Got::Done)), "{result:?}");
    assert_eq!(
        wire.said,
        vec!["net.l4.over-l2: dhcp acquired 10.0.2.77/24 gw 10.0.2.1 dns 10.0.2.3 8.8.8.8 lease 600s"]
    );
    assert!(!needs_lease(&a));
    assert_eq!(a.bound, Some((Ipv4(10, 0, 2, 77), 24)));
    assert_eq!(
        lease_servers(&a),
        vec![IpAddress::V4(10, 0, 2, 3), IpAddress::V4(8, 8, 8, 8)]
    );
    assert_eq!(a.iface.ipv4_addr().unwrap().octets(), [10, 0, 2, 77]);
    // The lease runs out without an answer: the stack is without an address again.
    let now = wire.now + 700 * SECOND;
    let mut nobody = Silence;
    let mut wire = Wire::new(now, &mut nobody);
    wire.pump(&mut a);
    assert_eq!(
        wire.said,
        vec!["net.l4.over-l2: dhcp lease lost; reacquiring on the next operation"]
    );
    assert_eq!(a.bound, None);
    assert!(a.iface.ipv4_addr().is_none());
    assert!(lease_servers(&a).is_empty());
    assert!(needs_lease(&a));
}

#[test]
fn missing_lease_is_reported() {
    let mut a = host(15, 7, None);
    let mut nobody = Silence;
    let mut wire = Wire::new(SECOND, &mut nobody);
    let (_, result) = wire.wait(&mut a, Goal::Lease, 20 * SECOND);
    let (line, outcome) = lease_outcome(result);
    assert!(wire.said.is_empty());
    assert_eq!(
        line.unwrap(),
        "net.l4.over-l2: dhcp no lease within 20s — check the link and the network's DHCP service"
    );
    match outcome {
        Err(L4Error::Io(text)) => {
            assert_eq!(text, "dhcp: no lease arrived within the acquisition window")
        }
        other => panic!("unexpected {other:?}"),
    }
    assert!(matches!(lease_outcome(Err(L4Error::Denied)), (None, Err(L4Error::Denied))));
    assert!(matches!(lease_outcome(Ok(Got::Done)), (None, Ok(()))));
}

#[test]
fn addressing_is_configured() {
    assert_eq!(configure("dhcp", None, None), Ok(AddressMode::Dhcp));
    assert!(configure("dhcp", Some(24), None).unwrap_err().contains("do not combine"));
    assert_eq!(
        configure("10.20.3.70", None, Some("10.20.3.1".to_string())),
        Ok(AddressMode::Static(Addressing {
            address: Ipv4(10, 20, 3, 70),
            prefix_len: 24,
            gateway: Ipv4(10, 20, 3, 1),
        }))
    );
    assert_eq!(
        configure("10.20.3", None, None).unwrap_err(),
        "not a dotted-quad IPv4 address: \"10.20.3\" (or `dhcp` to acquire addressing from the network)"
    );
    assert!(configure("10.20.3.70", None, None).unwrap_err().contains("needs --gateway"));
    assert_eq!(
        configure("10.20.3.70", None, Some("x".to_string())).unwrap_err(),
        "not a dotted-quad IPv4 address: \"x\""
    );
    assert_eq!(
        configure("10.20.3.70", Some(33), Some("10.20.3.1".to_string())).unwrap_err(),
        "prefix-length must be 0..=32, not 33"
    );
    assert_eq!(parse_ipv4("1.2.3.4"), Ok(Ipv4(1, 2, 3, 4)));
    for text in ["1.2.3.256", "1.2.3.4.5", "1..3.4", "a.b.c.d"] {
        assert_eq!(
            parse_ipv4(text).unwrap_err(),
            format!("not a dotted-quad IPv4 address: {text:?}")
        );
    }
}

#[test]
fn default_addressing_is_the_usual_one() {
    let usual = Addressing {
        address: Ipv4(10, 0, 2, 15),
        prefix_len: 24,
        gateway: Ipv4(10, 0, 2, 2),
    };
    assert_eq!(mode(&None), AddressMode::Static(usual));
    assert_eq!(static_addressing(&None), Some(usual));
    assert_eq!(static_addressing(&Some(AddressMode::Dhcp)), None);
    assert_eq!(fixed_dns_servers(&None), Some(vec![IpAddress::V4(10, 0, 2, 3)]));
    assert_eq!(fixed_dns_servers(&Some(AddressMode::Static(usual))), Some(Vec::new()));
    assert_eq!(fixed_dns_servers(&Some(AddressMode::Dhcp)), None);
    assert_eq!(bound_address(&None, &None), Some((Ipv4(10, 0, 2, 15), 24)));
    assert_eq!(bound_address(&Some(None), &None), None);
    assert_eq!(bound_address(&None, &Some(AddressMode::Dhcp)), None);
}

#[test]
fn local_addresses_are_checked() {
    let bound = Some((Ipv4(10, 0, 2, 15), 24));
    assert!(bindable(&bound, &IpAddress::V4(10, 0, 2, 15)));
    assert!(bindable(&None, &IpAddress::V4(0, 0, 0, 0)));
    assert!(bindable(&None, &IpAddress::V6(0, 0, 0, 0, 0, 0, 0, 0)));
    assert!(!bindable(&None, &IpAddress::V4(10, 0, 2, 15)));
    assert!(!bindable(&bound, &IpAddress::V6(0, 0, 0, 0, 0, 0, 0, 1)));
    assert_eq!(local_address_with(&None, 5).address, IpAddress::V4(0, 0, 0, 0));
    assert_eq!(destination_v4(&IpAddress::V4(1, 2, 3, 4)).unwrap(), Ipv4(1, 2, 3, 4));
    assert!(matches!(
        destination_v4(&IpAddress::V6(0, 0, 0, 0, 0, 0, 0, 1)),
        Err(L4Error::Unreachable)
    ));
}

#[test]
fn outcomes_are_told() {
    assert_eq!(send_outcome(Ok(Got::Done), 5).unwrap(), 5);
    assert_eq!(send_outcome(Err(L4Error::TimedOut), 5).unwrap(), 5);
    assert!(matches!(send_outcome(Err(L4Error::TimedOut), 0), Err(L4Error::TimedOut)));
    assert!(matches!(send_outcome(Err(L4Error::Denied), 5), Err(L4Error::Denied)));
    assert!(flushes_after(&Ok(Got::Done)) && !flushes_after(&Err(L4Error::Denied)));
    assert_eq!(fit_parcel(vec![1, 2, 3], 2), vec![1, 2]);
    assert_eq!(park_bound(500, Some(1)), 500);
    assert_eq!(park_bound(5000, Some(1)), 1000);
    assert_eq!(park_bound(5000, None), 5000);
    assert_eq!(park_bound(5000, Some(u64::MAX)), 5000);
}

#[test]
fn links_are_chosen_and_fail() {
    let info = |mtu: u32| InterfaceInfo {
        name: "eth0".to_string(),
        mac: (2, 0, 0, 0, 0, 1),
        mtu,
        up: true,
    };
    assert_eq!(choose_interface(&vec![info(1500)]).unwrap(), LinkChoice { index: 0, mtu: 1500 });
    assert_eq!(choose_interface(&vec![info(100)]).unwrap().mtu, 576);
    assert_eq!(choose_interface(&vec![info(65535)]).unwrap().mtu, 9216);
    match choose_interface(&Vec::new()) {
        Err(L4Error::Io(text)) => assert_eq!(text, "the l2 capability exposes no interfaces"),
        other => panic!("unexpected {other:?}"),
    }
    match link_failure(LinkError::Other("LinkDown".to_string())) {
        L4Error::Io(text) => assert_eq!(text, "l2: LinkDown"),
        other => panic!("unexpected {other:?}"),
    }
    assert!(matches!(link_failure(LinkError::Denied), L4Error::Denied));
    match link_busy() {
        L4Error::Io(text) => {
            assert_eq!(text, "another l4 operation on this stack is in progress")
        }
        other => panic!("unexpected {other:?}"),
    }
}
