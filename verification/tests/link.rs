//! The link-layer providers on concrete frames.
use eo9_stubs::disk_virtio::Polled;
use eo9_stubs::frames::{cut, FrameQueue};
use eo9_stubs::l2::{InterfaceInfo, L2Error, Mac};
use eo9_stubs::l2_bridge::{self, BridgePort, Forward, SendStep, UplinkView};
use eo9_stubs::l2_echo;
use eo9_stubs::l2_ports::{
    check_frame, choose_uplink, configure, parse_mac, port_mac, uplink_failure, LinkInfo, Slot,
    UplinkError,
};
use eo9_stubs::l2_switch::{self, DrainStep, Drained};
use eo9_stubs::slot::{DriverSlot, SlotView};
use eo9_stubs::text::format_mac;

const BASE: Mac = (0x02, 0xe0, 0x09, 0x00, 0x00, 0x00);
const PORT_A: [u8; 6] = [0x02, 0xe0, 0x09, 0, 0, 1];
const PORT_B: [u8; 6] = [0x02, 0xe0, 0x09, 0, 0, 2];
const HOST: [u8; 6] = [0x52, 0x54, 0, 0x12, 0x34, 0x56];
const OTHER: [u8; 6] = [0x52, 0x54, 0, 0x12, 0x34, 0x57];
const ALL: [u8; 6] = [0xff; 6];

fn frame(dst: [u8; 6], src: [u8; 6], ethertype: u16, payload: &[u8]) -> Vec<u8> {
    let mut bytes = Vec::new();
    bytes.extend(dst);
    bytes.extend(src);
    bytes.extend(ethertype.to_be_bytes());
    bytes.extend(payload);
    bytes
}

fn mac(bytes: [u8; 6]) -> Mac {
    (bytes[0], bytes[1], bytes[2], bytes[3], bytes[4], bytes[5])
}

fn told(error: L2Error) -> String {
    match error {
        L2Error::Io(text) => text,
        other => format!("{other:?}"),
    }
}

#[test]
fn queue_keeps_the_newest() {
    let mut queue = FrameQueue::new();
    for number in 0..5u8 {
        queue.push(3, vec![number]);
    }
    assert_eq!(queue.pop(), Some(vec![2]));
    assert_eq!(queue.pop(), Some(vec![3]));
    assert_eq!(queue.pop(), Some(vec![4]));
    assert_eq!(queue.pop(), None);
    assert_eq!(cut(vec![1, 2, 3], 2), vec![1, 2]);
    assert_eq!(cut(vec![1, 2, 3], 9), vec![1, 2, 3]);
}

#[test]
fn addresses_are_read_and_shown() {
    assert_eq!(parse_mac("02:e0:09:00:01:0a").unwrap(), (2, 0xe0, 9, 0, 1, 10));
    assert_eq!(format_mac(&[2, 0xe0, 9, 0, 1, 10]), "02:e0:09:00:01:0a");
    for text in ["", "02:e0:09:00:01", "02:e0:09:00:01:0a:00", "02:e0:09:00:01:zz"] {
        assert_eq!(
            parse_mac(text).unwrap_err(),
            format!("not a colon-separated MAC address: {text:?}")
        );
    }
    let mut base = None;
    configure(&mut base, "06:00:00:00:00:ff").unwrap();
    assert_eq!(port_mac(base.unwrap(), Slot::A), (6, 0, 0, 0, 0, 0));
    assert_eq!(port_mac(base.unwrap(), Slot::B), (6, 0, 0, 0, 0, 1));
    assert!(configure(&mut base, "04:00:00:00:00:00").unwrap_err().contains("locally administered"));
    assert!(configure(&mut base, "03:00:00:00:00:00").unwrap_err().contains("multicast"));
}

#[test]
fn frames_and_uplinks_are_checked() {
    assert_eq!(
        told(check_frame(&[0; 13]).unwrap_err()),
        "frame too short to be Ethernet (13 bytes)"
    );
    assert!(matches!(check_frame(&[0; 2049]), Err(L2Error::FrameTooLarge)));
    assert!(check_frame(&[0; 14]).is_ok());
    assert_eq!(
        told(choose_uplink(&[]).unwrap_err()),
        "the upstream l2 exposes no interfaces"
    );
    assert_eq!(told(uplink_failure(UplinkError::Other("Odd".to_string()))), "uplink: Odd");
    assert!(matches!(uplink_failure(UplinkError::LinkDown), L2Error::LinkDown));
}

#[test]
fn echo_answers_arp_for_everyone() {
    let mut state = None;
    let echo = l2_echo::with_state(&mut state);
    let mut request = vec![0, 1, 8, 0, 6, 4, 0, 1];
    request.extend(HOST);
    request.extend([10, 0, 2, 15]);
    request.extend([0; 6]);
    request.extend([10, 0, 2, 2]);
    l2_echo::answer(echo, &frame(ALL, HOST, 0x0806, &request));
    let reply = l2_echo::recv_frame(echo, 2048).unwrap();
    let own = [0x02, 0xe0, 0x09, 0xec, 0x00, 0x01];
    assert_eq!(reply[..14], frame(HOST, own, 0x0806, &[])[..]);
    assert_eq!(reply[20..22], [0, 2]);
    assert_eq!(reply[22..28], own);
    assert_eq!(reply[28..32], [10, 0, 2, 2]);
    assert_eq!(reply[32..38], HOST);
    assert_eq!(l2_echo::recv_frame(echo, 2048), None);
}

#[test]
fn echo_turns_datagrams_round() {
    let mut datagram = vec![0x45, 0, 0, 32, 0, 1, 0, 0, 64, 17, 0, 0, 10, 0, 2, 15, 10, 0, 2, 2];
    datagram.extend([0x30, 0x39, 0, 7, 0, 12, 0xbe, 0xef, b'p', b'i', b'n', b'g']);
    let reply = l2_echo::reply_to(&frame(ALL, HOST, 0x0800, &datagram)).unwrap();
    let payload = &reply[14..];
    assert_eq!(payload[12..16], [10, 0, 2, 2]);
    assert_eq!(payload[16..20], [10, 0, 2, 15]);
    assert_eq!(payload[20..24], [0, 7, 0x30, 0x39]);
    assert_eq!(payload[26..28], [0, 0]);
    assert_eq!(&payload[28..], b"ping");
    let sum: u32 = payload[..20]
        .chunks(2)
        .map(|pair| u32::from(u16::from_be_bytes([pair[0], pair[1]])))
        .sum();
    let folded = (sum & 0xffff) + (sum >> 16);
    assert_eq!(folded, 0xffff);
}

#[test]
fn echo_of_an_echo_is_the_datagram() {
    let mut datagram = vec![0x45, 0, 0, 32, 0, 1, 0, 0, 64, 17, 1, 2, 10, 0, 2, 15, 10, 0, 2, 2];
    datagram.extend([0x30, 0x39, 0, 7, 0, 12, 0xbe, 0xef, b'p', b'i', b'n', b'g']);
    let once = l2_echo::reply_to(&frame(ALL, HOST, 0x0800, &datagram)).unwrap();
    let twice = l2_echo::reply_to(&once).unwrap();
    let sum = l2_echo::ipv4_checksum(&datagram[..20]);
    datagram[10..12].copy_from_slice(&sum.to_be_bytes());
    datagram[26..28].copy_from_slice(&[0, 0]);
    assert_eq!(twice[14..], datagram);
}

#[test]
fn echo_reflects_what_no_rule_is_for() {
    let mut arp = vec![0, 1, 8, 0, 6, 4, 0, 2];
    arp.extend([7; 20]);
    let mut segment = vec![0x45, 0, 0, 40, 0, 1, 0, 0, 64, 6, 0, 0, 10, 0, 2, 15, 10, 0, 2, 2];
    segment.extend([0; 20]);
    let short = vec![0x4f, 0, 0, 20, 0, 1, 0, 0, 64, 17, 0, 0, 10, 0, 2, 15, 10, 0, 2, 2];
    let cut = vec![0, 1, 8, 0, 6, 4, 0, 1];
    let mut state = None;
    let echo = l2_echo::with_state(&mut state);
    for (ethertype, payload) in
        [(0x0806, &arp), (0x0800, &segment), (0x0800, &short), (0x0806, &cut)]
    {
        l2_echo::answer(echo, &frame(OTHER, HOST, ethertype, payload));
        let reply = l2_echo::recv_frame(echo, 2048).unwrap();
        assert_eq!(reply[..14], frame(HOST, OTHER, ethertype, &[])[..]);
        assert_eq!(reply[14..20], HOST);
        assert_eq!(&reply[20..], &payload[..]);
        assert_eq!(l2_echo::recv_frame(echo, 2048), None);
    }
}

#[test]
fn checksum_matches_a_known_header() {
    let header = [
        0x45, 0x00, 0x00, 0x73, 0x00, 0x00, 0x40, 0x00, 0x40, 0x11, 0x00, 0x00, 0xc0, 0xa8, 0x00,
        0x01, 0xc0, 0xa8, 0x00, 0xc7,
    ];
    assert_eq!(l2_echo::ipv4_checksum(&header), 0xb861);
}

#[test]
fn echo_shows_the_source() {
    let probe = frame(OTHER, HOST, 0x88b5, b"hello");
    let reply = l2_echo::reply_to(&probe).unwrap();
    assert_eq!(reply[..14], frame(HOST, OTHER, 0x88b5, &[])[..]);
    assert_eq!(reply[14..20], HOST);
    assert_eq!(&reply[20..], b"hello");
    let broadcast = l2_echo::reply_to(&frame(OTHER, HOST, 0xb0b0, b"x")).unwrap();
    assert_eq!(broadcast[..6], ALL);
    assert_eq!(l2_echo::reply_to(&[0; 13]), None);
    assert!(l2_echo::open_interface("echo0").is_ok());
    assert!(matches!(l2_echo::open_interface("eth0"), Err(L2Error::NoSuchInterface)));
}

#[test]
fn switch_delivers_by_address() {
    let mut state = None;
    let switch = l2_switch::with_state(&mut state);
    let base = l2_switch::mac_base(None);
    assert_eq!(base, BASE);
    l2_switch::demux(switch, base, frame(PORT_A, HOST, 1, b"a"));
    l2_switch::demux(switch, base, frame(PORT_B, HOST, 1, b"b"));
    l2_switch::demux(switch, base, frame(OTHER, HOST, 1, b"c"));
    l2_switch::demux(switch, base, frame(ALL, HOST, 1, b"d"));
    assert_eq!(l2_switch::port_recv(switch, Slot::A).unwrap()[14], b'a');
    assert_eq!(l2_switch::port_recv(switch, Slot::A).unwrap()[14], b'd');
    assert_eq!(l2_switch::port_recv(switch, Slot::A), None);
    assert_eq!(l2_switch::port_recv(switch, Slot::B).unwrap()[14], b'b');
    assert_eq!(l2_switch::port_recv(switch, Slot::B).unwrap()[14], b'd');
}

#[test]
fn switch_sends_under_its_own_address() {
    let sent = l2_switch::port_send(Slot::B, BASE, frame(HOST, OTHER, 1, b"x")).unwrap();
    assert_eq!(sent, frame(HOST, PORT_B, 1, b"x"));
    assert!(l2_switch::port_send(Slot::B, BASE, vec![0; 3]).is_err());
    let info: InterfaceInfo = l2_switch::port_info(Slot::A, BASE, None);
    assert_eq!((info.name.as_str(), info.mac, info.up), ("vnic-a", mac(PORT_A), false));
    let up = l2_switch::port_info(Slot::A, BASE, Some(LinkInfo { mtu: 1400, up: true }));
    assert_eq!((up.mtu, up.up), (1400, true));
    assert!(matches!(
        l2_switch::port_open(Slot::A, "vnic-b"),
        Err(L2Error::NoSuchInterface)
    ));
}

#[test]
fn switch_drain_ends() {
    let mut state = None;
    let switch = l2_switch::with_state(&mut state);
    for attempt in 0..15 {
        let drained = Drained::Frame(frame(PORT_A, HOST, 1, &[attempt as u8]));
        assert!(matches!(l2_switch::drain(switch, BASE, attempt, drained), DrainStep::Again));
    }
    let last = Drained::Frame(frame(PORT_A, HOST, 1, &[15]));
    assert!(matches!(l2_switch::drain(switch, BASE, 15, last), DrainStep::Over));
    assert!(matches!(
        l2_switch::drain(switch, BASE, 0, Drained::Frame(Vec::new())),
        DrainStep::Over
    ));
    assert!(matches!(
        l2_switch::drain(switch, BASE, 0, Drained::Failed(UplinkError::Denied)),
        DrainStep::Failed(L2Error::Denied)
    ));
    for number in 0..16u8 {
        assert_eq!(l2_switch::port_recv(switch, Slot::A).unwrap()[14], number);
    }
}

#[test]
fn bridge_learns_where_addresses_live() {
    let mut state = None;
    let bridge = l2_bridge::with_state(&mut state);
    assert_eq!(bridge.lookup(mac(HOST)), None);
    bridge.learn(mac(HOST), BridgePort::Uplink);
    bridge.learn(mac(OTHER), BridgePort::Consumer(Slot::B));
    assert_eq!(bridge.lookup(mac(HOST)), Some(BridgePort::Uplink));
    bridge.learn(mac(HOST), BridgePort::Consumer(Slot::A));
    assert_eq!(bridge.lookup(mac(HOST)), Some(BridgePort::Consumer(Slot::A)));
    assert_eq!(bridge.lookup(mac(OTHER)), Some(BridgePort::Consumer(Slot::B)));
    assert!(matches!(
        bridge.decide(BridgePort::Consumer(Slot::A), mac(OTHER)),
        Forward::Local(Slot::B)
    ));
    assert!(matches!(
        bridge.decide(BridgePort::Consumer(Slot::B), mac(OTHER)),
        Forward::Drop
    ));
    assert!(matches!(
        bridge.decide(BridgePort::Consumer(Slot::A), mac(ALL)),
        Forward::Flood { to_consumer: Some(Slot::B), and_upstream: true }
    ));
}

#[test]
fn bridge_keeps_local_traffic_local() {
    let mut state = None;
    let bridge = l2_bridge::with_state(&mut state);
    bridge.learn(mac(OTHER), BridgePort::Consumer(Slot::B));
    match bridge.port_send(Slot::A, frame(OTHER, HOST, 1, b"hi")) {
        SendStep::Accepted(count) => assert_eq!(count, 16),
        other => panic!("unexpected {other:?}"),
    }
    assert_eq!(bridge.port_recv(Slot::B).unwrap(), frame(OTHER, HOST, 1, b"hi"));
    assert_eq!(bridge.port_recv(Slot::A), None);
    assert_eq!(bridge.lookup(mac(HOST)), Some(BridgePort::Consumer(Slot::A)));
}

#[test]
fn bridge_floods_what_it_does_not_know() {
    let mut state = None;
    let bridge = l2_bridge::with_state(&mut state);
    let unknown = frame(OTHER, HOST, 1, b"?");
    let SendStep::Upstream { frame: sent, sibling } = bridge.port_send(Slot::A, unknown.clone())
    else {
        panic!("not sent upstream")
    };
    assert_eq!(sent, unknown);
    assert_eq!(sibling, Some(Slot::B));
    assert_eq!(bridge.port_sent(sent, sibling, Ok(15)).unwrap(), 15);
    assert_eq!(bridge.port_recv(Slot::B).unwrap(), unknown);
    bridge.ingress_from_uplink(frame(HOST, OTHER, 1, b"!"));
    assert_eq!(bridge.port_recv(Slot::A).unwrap()[14], b'!');
    assert_eq!(bridge.port_recv(Slot::B), None);
    assert_eq!(bridge.lookup(mac(OTHER)), Some(BridgePort::Uplink));
}

#[test]
fn bridge_lends_its_uplink_once() {
    let mut state = None;
    let bridge = l2_bridge::with_state(&mut state);
    let UplinkView::NeedOpen(claim) = bridge.take_uplink() else { panic!("not to be opened") };
    assert!(matches!(bridge.take_uplink(), UplinkView::Busy));
    bridge.give_up(claim);
    let UplinkView::NeedOpen(claim) = bridge.take_uplink() else { panic!("not to be opened") };
    bridge.opened(LinkInfo { mtu: 1500, up: true });
    bridge.give_up(claim.defuse());
    bridge.put_uplink(LinkInfo { mtu: 1500, up: true });
    assert!(matches!(bridge.take_uplink(), UplinkView::Ready(_)));
    assert_eq!(
        told(l2_bridge::busy("send")),
        "send: the uplink is busy with the sibling port's operation"
    );
}

#[test]
fn driver_is_lent_once() {
    let mut slot: DriverSlot<u8> = DriverSlot::new();
    let SlotView::NeedBringUp(claim) = slot.acquire() else { panic!("not to be brought up") };
    assert!(matches!(slot.acquire(), SlotView::Busy));
    slot.give_up(claim);
    let SlotView::NeedBringUp(claim) = slot.acquire() else { panic!("not to be brought up") };
    slot.give_up(claim.defuse());
    slot.put_back(7);
    assert_eq!(slot.resting(), Some(&7));
    assert!(matches!(slot.acquire(), SlotView::Ready(7)));
    assert!(matches!(slot.acquire(), SlotView::Busy));
}

#[test]
fn switch_does_not_wait_upstream() {
    assert_eq!(l2_switch::eager("recv-frame", Polled::Ready(7)).unwrap(), 7);
    match l2_switch::eager::<u8>("recv-frame", Polled::Pending) {
        Err(L2Error::Io(text)) => {
            assert_eq!(text, "recv-frame: the upstream l2 provider suspended")
        }
        other => panic!("unexpected {other:?}"),
    }
}
