//! The TCP/IP engine below the transport provider: what its socket set and its interface
//! hold, and the calls into it.
//!
//! Everything here that speaks of the engine rests on the claims of the functions below;
//! the frames that it takes in and gives out pass through queues and are moved elsewhere.
use smoltcp::iface::{Interface, SocketHandle, SocketSet};
use smoltcp::socket::{dhcpv4, tcp, udp};
use smoltcp::wire;

use vstd::prelude::*;

use crate::l4::{IpAddress, SocketAddress};

verus! {

/// A network interface of the engine.
#[verifier::external_type_specification]
#[verifier::external_body]
pub struct ExInterface(smoltcp::iface::Interface);

/// The sockets of the engine.
#[verifier::external_type_specification]
#[verifier::external_body]
pub struct ExSocketSet<'a>(smoltcp::iface::SocketSet<'a>);

/// The name of a socket in the set.
#[verifier::external_type_specification]
#[verifier::external_body]
pub struct ExSocketHandle(smoltcp::iface::SocketHandle);

/// An internet address of four octets.
#[derive(Clone, Copy, PartialEq, Eq, Structural, Debug)]
pub struct Ipv4(pub u8, pub u8, pub u8, pub u8);

impl Ipv4 {
    /// The address among those of both families.
    pub open spec fn spec_ip(self) -> IpAddress {
        IpAddress::V4(self.0, self.1, self.2, self.3)
    }

    /// The address among those of both families.
    #[verifier::when_used_as_spec(spec_ip)]
    pub fn ip(self) -> (address: IpAddress)
        ensures
            address == self.ip(),
    {
        IpAddress::V4(self.0, self.1, self.2, self.3)
    }
}

/// The state of a TCP socket.
#[derive(Clone, Copy, PartialEq, Eq, Structural, Debug)]
pub enum TcpState {
    Closed,
    Listen,
    SynSent,
    SynReceived,
    Established,
    FinWait1,
    FinWait2,
    CloseWait,
    Closing,
    LastAck,
    TimeWait,
}

/// Why a TCP socket was not opened.
#[derive(Clone, Copy, PartialEq, Eq, Structural, Debug)]
pub enum OpenError {
    InvalidState,
    Unaddressable,
}

/// Why a TCP socket gave no bytes.
#[derive(Clone, Copy, PartialEq, Eq, Structural, Debug)]
pub enum TakeError {
    InvalidState,
    Finished,
}

/// Why a datagram was not queued.
#[derive(Clone, Copy, PartialEq, Eq, Structural, Debug)]
pub enum DatagramError {
    BufferFull,
    Unaddressable,
}

/// The addressing that the network leased.
#[derive(Debug)]
pub struct Lease {
    pub address: Ipv4,
    pub prefix: u8,
    pub router: Option<Ipv4>,
    pub dns: Vec<Ipv4>,
    /// The acknowledgement as it came.
    pub packet: Option<Vec<u8>>,
}

/// The addressing that the network leased, over contents.
#[verifier::ext_equal]
pub struct LeaseView {
    pub address: Ipv4,
    pub prefix: u8,
    pub router: Option<Ipv4>,
    pub dns: Seq<Ipv4>,
    pub packet: Option<Seq<u8>>,
}

impl View for Lease {
    type V = LeaseView;

    open spec fn view(&self) -> LeaseView {
        LeaseView {
            address: self.address,
            prefix: self.prefix,
            router: self.router,
            dns: self.dns@,
            packet: match self.packet {
                Some(packet) => Some(packet@),
                None => None,
            },
        }
    }
}

/// What the lease client reports.
#[derive(Debug)]
pub enum LeaseEvent {
    Bound(Lease),
    Lost,
}

/// What the lease client reports, over contents.
pub enum LeaseNews {
    Bound(LeaseView),
    Lost,
}

impl View for LeaseEvent {
    type V = LeaseNews;

    open spec fn view(&self) -> LeaseNews {
        match self {
            LeaseEvent::Bound(lease) => LeaseNews::Bound(lease@),
            LeaseEvent::Lost => LeaseNews::Lost,
        }
    }
}

/// What a TCP socket holds.
#[verifier::ext_equal]
pub struct TcpHeld {
    pub state: TcpState,
    /// The port that it listens on at every address; zero for none.
    pub port: u16,
    pub remote: Option<SocketAddress>,
    /// Bytes that came and were not taken yet.
    pub received: Seq<u8>,
    /// Bytes that wait to be sent or acknowledged, and how many there may be.
    pub unsent: Seq<u8>,
    pub room: nat,
    /// Whether the other end closed its direction.
    pub finished: bool,
}

/// A datagram with the address at its other end.
pub struct Parcel {
    pub peer: SocketAddress,
    pub payload: Seq<u8>,
}

/// What a UDP socket holds.
#[verifier::ext_equal]
pub struct UdpHeld {
    /// The port that it is bound to; zero for none.
    pub port: u16,
    pub waiting: Seq<Parcel>,
    pub outgoing: Seq<Parcel>,
    /// The outgoing datagrams and the fillings between them.
    pub entries: nat,
    /// The bytes that those take up.
    pub unsent: nat,
    /// Where in the memory of the queue the first of those bytes lies.
    pub start: nat,
    /// How many outgoing datagrams and fillings there may be, and how many bytes.
    pub slots: nat,
    pub room: nat,
}

/// What the set holds under a handle.
pub enum Held {
    Tcp(TcpHeld),
    Udp(UdpHeld),
    /// The lease client, with what it reports next.
    Dhcp(Option<LeaseNews>),
}

/// What a set of sockets holds.
pub uninterp spec fn table(sockets: SocketSet<'static>) -> Map<SocketHandle, Held>;

/// The addresses of an interface, with their prefix lengths.
pub uninterp spec fn addresses(iface: Interface) -> Seq<(Ipv4, u8)>;

/// The router of an interface's default route.
pub uninterp spec fn gateway(iface: Interface) -> Option<Ipv4>;

/// How many default routes an interface has.
pub uninterp spec fn default_routes(iface: Interface) -> nat;

/// The size of the largest frame that an interface sends, with its header.
pub uninterp spec fn frame_size(iface: Interface) -> nat;

/// How many routes an interface has besides its default routes.
pub uninterp spec fn other_routes(iface: Interface) -> nat;

/// How many microseconds the engine can be left alone from a point in time on.
pub uninterp spec fn wait_time(iface: Interface, sockets: SocketSet<'static>, micros: i64) -> Option<
    u64,
>;

/// The duration of the lease that an acknowledgement grants, in seconds.
pub uninterp spec fn lease_duration(packet: Seq<u8>) -> Option<u32>;

/// An address of four octets.
pub fn v4(octets: [u8; 4]) -> (address: Ipv4)
    ensures
        address == Ipv4(octets[0], octets[1], octets[2], octets[3]),
{
    Ipv4(octets[0], octets[1], octets[2], octets[3])
}

/// Whether an interface may have an address: it is neither the broadcast address nor a
/// multicast address.
pub open spec fn assignable(address: Ipv4) -> bool {
    !(224 <= address.0 < 240) && address != Ipv4(255, 255, 255, 255)
}

/// The default route that an interface with so many other routes can be given.
pub open spec fn routed(others: nat, router: Ipv4) -> Option<Ipv4> {
    if others < 2 {
        Some(router)
    } else {
        None
    }
}

/// The smallest frame that has room for the headers of a segment.
pub const SMALLEST_FRAME: usize = 54;

/// How many default routes there are once one was set in place of the first.
pub open spec fn routes_set(others: nat, before: nat) -> nat {
    if others >= 2 {
        0
    } else if before == 0 {
        1
    } else {
        before
    }
}

/// A TCP socket that was just made.
pub open spec fn fresh_tcp(room: nat) -> TcpHeld {
    TcpHeld {
        state: TcpState::Closed,
        port: 0,
        remote: None,
        received: Seq::empty(),
        unsent: Seq::empty(),
        room,
        finished: false,
    }
}

/// A UDP socket that was just made.
pub open spec fn fresh_udp(slots: nat, room: nat) -> UdpHeld {
    UdpHeld {
        port: 0,
        waiting: Seq::empty(),
        outgoing: Seq::empty(),
        entries: 0,
        unsent: 0,
        start: 0,
        slots,
        room,
    }
}

/// Where the memory of a queue starts to be used: at its beginning where no bytes are in it.
pub open spec fn used_from(held: UdpHeld) -> nat {
    if held.unsent == 0 {
        0
    } else {
        held.start
    }
}

/// How many free bytes of a queue lie in one piece behind the last used one.
pub open spec fn in_one_piece(held: UdpHeld) -> int {
    let end = if held.room == 0 {
        0
    } else {
        (used_from(held) + held.unsent) % held.room
    };
    if held.room - end <= held.room - held.unsent {
        held.room - end
    } else {
        held.room - held.unsent
    }
}

/// The bytes that a queue is filled up with before a datagram, which is not divided: none
/// where it finds room behind the last used byte, else the rest of the memory.
pub open spec fn filling(held: UdpHeld, len: nat) -> int {
    if in_one_piece(held) < len {
        in_one_piece(held)
    } else {
        0
    }
}

/// Whether a queue has an entry left, and bytes for a datagram with its filling.
pub open spec fn has_bytes(held: UdpHeld, len: nat) -> bool {
    held.entries < held.slots && held.unsent + filling(held, len) + len <= held.room
}

/// The queue with the filling before a datagram in it, an entry of its own.
pub open spec fn filled(held: UdpHeld, len: nat) -> UdpHeld {
    UdpHeld {
        entries: if in_one_piece(held) < len {
            held.entries + 1
        } else {
            held.entries
        },
        unsent: (held.unsent + filling(held, len)) as nat,
        start: used_from(held),
        ..held
    }
}

/// Whether a queue takes a datagram of so many bytes: there are bytes for it, and an entry
/// is left once the filling is in.
pub open spec fn takes(held: UdpHeld, len: nat) -> bool {
    has_bytes(held, len) && filled(held, len).entries < held.slots
}

/// What a queue holds after a datagram was handed to it. One that it does not take for want
/// of an entry behind the filling leaves the filling.
pub open spec fn handed(held: UdpHeld, parcel: Parcel) -> UdpHeld {
    let len = parcel.payload.len();
    let before = filled(held, len);
    if takes(held, len) {
        UdpHeld {
            outgoing: held.outgoing.push(parcel),
            entries: before.entries + 1,
            unsent: before.unsent + len,
            ..before
        }
    } else if has_bytes(held, len) {
        before
    } else {
        held
    }
}

/// Whether a TCP socket takes part in anything.
pub open spec fn is_open(state: TcpState) -> bool {
    state != TcpState::Closed && state != TcpState::TimeWait
}

/// Whether a TCP socket takes bytes to send.
pub open spec fn may_send(held: TcpHeld) -> bool {
    held.state == TcpState::Established || held.state == TcpState::CloseWait
}

/// Whether a TCP socket gives bytes, now or later.
pub open spec fn may_recv(held: TcpHeld) -> bool {
    ||| held.state == TcpState::Established
    ||| held.state == TcpState::FinWait1
    ||| held.state == TcpState::FinWait2
    ||| held.received.len() > 0
}

/// The state after the sending direction is closed.
pub open spec fn closed_state(state: TcpState) -> TcpState {
    match state {
        TcpState::Listen => TcpState::Closed,
        TcpState::SynSent => TcpState::Closed,
        TcpState::SynReceived => TcpState::FinWait1,
        TcpState::Established => TcpState::FinWait1,
        TcpState::CloseWait => TcpState::LastAck,
        _ => state,
    }
}

/// Whether a set holds a TCP socket under a handle.
pub open spec fn has_tcp(table: Map<SocketHandle, Held>, handle: SocketHandle) -> bool {
    table.contains_key(handle) && table[handle] is Tcp
}

/// Whether a set holds a UDP socket under a handle.
pub open spec fn has_udp(table: Map<SocketHandle, Held>, handle: SocketHandle) -> bool {
    table.contains_key(handle) && table[handle] is Udp
}

/// Whether a UDP socket of a set has a port.
pub open spec fn udp_bound(table: Map<SocketHandle, Held>, port: u16) -> bool {
    exists|handle: SocketHandle| #[trigger]
        has_udp(table, handle) && table[handle]->Udp_0.port == port
}

/// Whether a set holds the lease client under a handle.
pub open spec fn has_dhcp(table: Map<SocketHandle, Held>, handle: SocketHandle) -> bool {
    table.contains_key(handle) && table[handle] is Dhcp
}

/// No sockets at all.
pub open spec fn no_sockets() -> Map<SocketHandle, Held> {
    Map::empty()
}

/// A set without sockets, through `SocketSet::new` with an empty growable storage.
#[verifier::external_body]
pub(crate) fn empty_set() -> (sockets: SocketSet<'static>)
    ensures
        table(sockets) == no_sockets(),
{
    SocketSet::new(Vec::new())
}

/// A new TCP socket joins the set, through `SocketSet::add` and `tcp::Socket::new`: it is
/// closed, with empty buffers of the given sizes, under a handle that was free. A buffer
/// beyond a gibibyte is left out: the engine refuses one to receive into by a panic.
#[verifier::external_body]
pub(crate) fn add_tcp(sockets: &mut SocketSet<'static>, receive: usize, send: usize) -> (handle:
    SocketHandle)
    requires
        receive <= 0x4000_0000,
        send <= 0x4000_0000,
    ensures
        !table(*old(sockets)).contains_key(handle),
        table(*final(sockets)) == table(*old(sockets)).insert(
            handle,
            Held::Tcp(fresh_tcp(send as nat)),
        ),
{
    sockets.add(
        tcp::Socket::new(
            tcp::SocketBuffer::new(vec![0u8; receive]),
            tcp::SocketBuffer::new(vec![0u8; send]),
        ),
    )
}

/// The set forgets a socket, through `SocketSet::remove`.
#[verifier::external_body]
pub(crate) fn remove(sockets: &mut SocketSet<'static>, handle: SocketHandle)
    requires
        table(*old(sockets)).contains_key(handle),
    ensures
        table(*final(sockets)) == table(*old(sockets)).remove(handle),
{
    sockets.remove(handle);
}

/// The state of a TCP socket, through `tcp::Socket::state`.
#[verifier::external_body]
pub(crate) fn tcp_state(sockets: &SocketSet<'static>, handle: SocketHandle) -> (state: TcpState)
    requires
        has_tcp(table(*sockets), handle),
    ensures
        state == table(*sockets)[handle]->Tcp_0.state,
{
    match sockets.get::<tcp::Socket>(handle).state() {
        tcp::State::Closed => TcpState::Closed,
        tcp::State::Listen => TcpState::Listen,
        tcp::State::SynSent => TcpState::SynSent,
        tcp::State::SynReceived => TcpState::SynReceived,
        tcp::State::Established => TcpState::Established,
        tcp::State::FinWait1 => TcpState::FinWait1,
        tcp::State::FinWait2 => TcpState::FinWait2,
        tcp::State::CloseWait => TcpState::CloseWait,
        tcp::State::Closing => TcpState::Closing,
        tcp::State::LastAck => TcpState::LastAck,
        tcp::State::TimeWait => TcpState::TimeWait,
    }
}

/// The address at the other end of a TCP socket, through `tcp::Socket::remote_endpoint`.
#[verifier::external_body]
pub(crate) fn tcp_remote(sockets: &SocketSet<'static>, handle: SocketHandle) -> (remote: Option<
    SocketAddress,
>)
    requires
        has_tcp(table(*sockets), handle),
    ensures
        remote == table(*sockets)[handle]->Tcp_0.remote,
{
    match sockets.get::<tcp::Socket>(handle).remote_endpoint() {
        Some(wire::IpEndpoint { addr: wire::IpAddress::Ipv4(address), port }) => Some(
            SocketAddress { address: v4(address.octets()).ip(), port },
        ),
        None => None,
    }
}

/// A TCP socket starts to connect, through `tcp::Socket::connect` in the context of an
/// interface. A socket that is open is left alone. Otherwise the remote address and both
/// ports must not be zero and the interface must have an address; a socket that starts
/// has empty buffers and awaits the answer to its first segment. The interface keeps its
/// addresses and its routes.
#[verifier::external_body]
pub(crate) fn tcp_connect(
    iface: &mut Interface,
    sockets: &mut SocketSet<'static>,
    handle: SocketHandle,
    address: Ipv4,
    port: u16,
    local_port: u16,
) -> (result: Result<(), OpenError>)
    requires
        has_tcp(table(*old(sockets)), handle),
    ensures
        addresses(*final(iface)) == addresses(*old(iface)),
        gateway(*final(iface)) == gateway(*old(iface)),
        other_routes(*final(iface)) == other_routes(*old(iface)),
        default_routes(*final(iface)) == default_routes(*old(iface)),
        frame_size(*final(iface)) == frame_size(*old(iface)),
        ({
            let before = table(*old(sockets));
            let held = before[handle]->Tcp_0;
            if is_open(held.state) {
                &&& result == Err::<(), OpenError>(OpenError::InvalidState)
                &&& table(*final(sockets)) == before
            } else if port == 0 || address == Ipv4(0, 0, 0, 0) || local_port == 0
                || addresses(*old(iface)).len() == 0 {
                &&& result == Err::<(), OpenError>(OpenError::Unaddressable)
                &&& table(*final(sockets)) == before
            } else {
                &&& result == Ok::<(), OpenError>(())
                &&& table(*final(sockets)) == before.insert(
                    handle,
                    Held::Tcp(
                        TcpHeld {
                            state: TcpState::SynSent,
                            remote: Some(SocketAddress { address: address.ip(), port }),
                            ..fresh_tcp(held.room)
                        },
                    ),
                )
            }
        }),
{
    let remote = wire::IpAddress::v4(address.0, address.1, address.2, address.3);
    let socket = sockets.get_mut::<tcp::Socket>(handle);
    match socket.connect(iface.context(), (remote, port), local_port) {
        Ok(()) => Ok(()),
        Err(tcp::ConnectError::InvalidState) => Err(OpenError::InvalidState),
        Err(tcp::ConnectError::Unaddressable) => Err(OpenError::Unaddressable),
    }
}

/// A TCP socket starts to listen, through `tcp::Socket::listen`: on a port other than
/// zero, unless it is open. A socket that listens on the port already goes on.
#[verifier::external_body]
pub(crate) fn tcp_listen(
    sockets: &mut SocketSet<'static>,
    handle: SocketHandle,
    port: u16,
) -> (result: Result<(), OpenError>)
    requires
        has_tcp(table(*old(sockets)), handle),
    ensures
        ({
            let before = table(*old(sockets));
            let held = before[handle]->Tcp_0;
            if port == 0 {
                &&& result == Err::<(), OpenError>(OpenError::Unaddressable)
                &&& table(*final(sockets)) == before
            } else if held.state == TcpState::Listen && held.port == port {
                &&& result == Ok::<(), OpenError>(())
                &&& table(*final(sockets)) == before
            } else if is_open(held.state) {
                &&& result == Err::<(), OpenError>(OpenError::InvalidState)
                &&& table(*final(sockets)) == before
            } else {
                &&& result == Ok::<(), OpenError>(())
                &&& table(*final(sockets)) == before.insert(
                    handle,
                    Held::Tcp(TcpHeld { state: TcpState::Listen, port, ..fresh_tcp(held.room) }),
                )
            }
        }),
{
    match sockets.get_mut::<tcp::Socket>(handle).listen(port) {
        Ok(()) => Ok(()),
        Err(tcp::ListenError::InvalidState) => Err(OpenError::InvalidState),
        Err(tcp::ListenError::Unaddressable) => Err(OpenError::Unaddressable),
    }
}

/// Whether a TCP socket takes bytes to send, through `tcp::Socket::may_send`.
#[verifier::external_body]
pub(crate) fn tcp_may_send(sockets: &SocketSet<'static>, handle: SocketHandle) -> (yes: bool)
    requires
        has_tcp(table(*sockets), handle),
    ensures
        yes == may_send(table(*sockets)[handle]->Tcp_0),
{
    sockets.get::<tcp::Socket>(handle).may_send()
}

/// Bytes are queued on a TCP socket, through `tcp::Socket::send_slice`: as many as there
/// is room for, while the socket takes bytes. Gives how many; nothing for a socket that
/// takes none, for which the engine says that its state is invalid.
#[verifier::external_body]
pub(crate) fn tcp_send(sockets: &mut SocketSet<'static>, handle: SocketHandle, bytes: &[u8]) -> (count:
    Option<usize>)
    requires
        has_tcp(table(*old(sockets)), handle),
    ensures
        ({
            let before = table(*old(sockets));
            let held = before[handle]->Tcp_0;
            if may_send(held) {
                let space = held.room - held.unsent.len();
                &&& count matches Some(count)
                &&& count == (if bytes@.len() <= space { bytes@.len() as int } else { space })
                &&& table(*final(sockets)) == before.insert(
                    handle,
                    Held::Tcp(
                        TcpHeld { unsent: held.unsent + bytes@.take(count as int), ..held },
                    ),
                )
            } else {
                &&& count is None
                &&& table(*final(sockets)) == before
            }
        }),
{
    sockets.get_mut::<tcp::Socket>(handle).send_slice(bytes).ok()
}

/// Whether a TCP socket gives bytes, now or later, through `tcp::Socket::may_recv`.
#[verifier::external_body]
pub(crate) fn tcp_may_recv(sockets: &SocketSet<'static>, handle: SocketHandle) -> (yes: bool)
    requires
        has_tcp(table(*sockets), handle),
    ensures
        yes == may_recv(table(*sockets)[handle]->Tcp_0),
{
    sockets.get::<tcp::Socket>(handle).may_recv()
}

/// Whether a TCP socket has bytes to give, through `tcp::Socket::can_recv`.
#[verifier::external_body]
pub(crate) fn tcp_can_recv(sockets: &SocketSet<'static>, handle: SocketHandle) -> (yes: bool)
    requires
        has_tcp(table(*sockets), handle),
    ensures
        yes == (table(*sockets)[handle]->Tcp_0.received.len() > 0),
{
    sockets.get::<tcp::Socket>(handle).can_recv()
}

/// Bytes are taken from a TCP socket, through `tcp::Socket::recv_slice`: the first that
/// came, up to `wanted` of them, which is at most a gibibyte. A socket that gives no bytes
/// any more says whether the other end closed its direction.
#[verifier::external_body]
pub(crate) fn tcp_recv(sockets: &mut SocketSet<'static>, handle: SocketHandle, wanted: usize) -> (result:
    Result<Vec<u8>, TakeError>)
    requires
        has_tcp(table(*old(sockets)), handle),
        wanted <= 0x4000_0000,
    ensures
        ({
            let before = table(*old(sockets));
            let held = before[handle]->Tcp_0;
            let count = if wanted <= held.received.len() {
                wanted as int
            } else {
                held.received.len() as int
            };
            if may_recv(held) {
                &&& result matches Ok(bytes)
                &&& bytes@ == held.received.take(count)
                &&& table(*final(sockets)) == before.insert(
                    handle,
                    Held::Tcp(TcpHeld { received: held.received.skip(count), ..held }),
                )
            } else {
                &&& result == Err::<Vec<u8>, TakeError>(
                    if held.finished {
                        TakeError::Finished
                    } else {
                        TakeError::InvalidState
                    },
                )
                &&& table(*final(sockets)) == before
            }
        }),
{
    let mut chunk = vec![0u8; wanted];
    match sockets.get_mut::<tcp::Socket>(handle).recv_slice(&mut chunk) {
        Ok(count) => {
            chunk.truncate(count);
            Ok(chunk)
        },
        Err(tcp::RecvError::InvalidState) => Err(TakeError::InvalidState),
        Err(tcp::RecvError::Finished) => Err(TakeError::Finished),
    }
}

/// The sending direction of a TCP socket is closed, through `tcp::Socket::close`.
#[verifier::external_body]
pub(crate) fn tcp_close(sockets: &mut SocketSet<'static>, handle: SocketHandle)
    requires
        has_tcp(table(*old(sockets)), handle),
    ensures
        ({
            let held = table(*old(sockets))[handle]->Tcp_0;
            table(*final(sockets)) == table(*old(sockets)).insert(
                handle,
                Held::Tcp(TcpHeld { state: closed_state(held.state), ..held }),
            )
        }),
{
    sockets.get_mut::<tcp::Socket>(handle).close();
}

/// A TCP socket is closed at once, through `tcp::Socket::abort`.
#[verifier::external_body]
pub(crate) fn tcp_abort(sockets: &mut SocketSet<'static>, handle: SocketHandle)
    requires
        has_tcp(table(*old(sockets)), handle),
    ensures
        ({
            let held = table(*old(sockets))[handle]->Tcp_0;
            table(*final(sockets)) == table(*old(sockets)).insert(
                handle,
                Held::Tcp(TcpHeld { state: TcpState::Closed, ..held }),
            )
        }),
{
    sockets.get_mut::<tcp::Socket>(handle).abort();
}

/// A new UDP socket joins the set, through `SocketSet::add` and `udp::Socket::new`: it is
/// unbound and holds nothing, with room for the given numbers of datagrams of the given
/// size, under a handle that was free. The room is at most a gibibyte in each direction,
/// and at most a million datagrams.
#[verifier::external_body]
pub(crate) fn add_udp(
    sockets: &mut SocketSet<'static>,
    receive: usize,
    send: usize,
    size: usize,
) -> (handle: SocketHandle)
    requires
        receive <= 0x10_0000,
        send <= 0x10_0000,
        receive * size <= 0x4000_0000,
        send * size <= 0x4000_0000,
    ensures
        !table(*old(sockets)).contains_key(handle),
        table(*final(sockets)) == table(*old(sockets)).insert(
            handle,
            Held::Udp(fresh_udp(send as nat, (send * size) as nat)),
        ),
{
    let received = vec![udp::PacketMetadata::EMPTY; receive];
    let sent = vec![udp::PacketMetadata::EMPTY; send];
    sockets.add(
        udp::Socket::new(
            udp::PacketBuffer::new(received, vec![0u8; receive * size]),
            udp::PacketBuffer::new(sent, vec![0u8; send * size]),
        ),
    )
}

/// A UDP socket is bound to a port, through `udp::Socket::bind`: to one other than zero,
/// unless it is bound already.
#[verifier::external_body]
pub(crate) fn udp_bind(
    sockets: &mut SocketSet<'static>,
    handle: SocketHandle,
    port: u16,
) -> (result: Result<(), OpenError>)
    requires
        has_udp(table(*old(sockets)), handle),
    ensures
        ({
            let before = table(*old(sockets));
            let held = before[handle]->Udp_0;
            if port == 0 {
                &&& result == Err::<(), OpenError>(OpenError::Unaddressable)
                &&& table(*final(sockets)) == before
            } else if held.port != 0 {
                &&& result == Err::<(), OpenError>(OpenError::InvalidState)
                &&& table(*final(sockets)) == before
            } else {
                &&& result == Ok::<(), OpenError>(())
                &&& table(*final(sockets)) == before.insert(
                    handle,
                    Held::Udp(UdpHeld { port, ..held }),
                )
            }
        }),
{
    match sockets.get_mut::<udp::Socket>(handle).bind(port) {
        Ok(()) => Ok(()),
        Err(udp::BindError::InvalidState) => Err(OpenError::InvalidState),
        Err(udp::BindError::Unaddressable) => Err(OpenError::Unaddressable),
    }
}

/// The ports of the UDP sockets of a set, through `SocketSet::iter` and
/// `udp::Socket::endpoint`: one item for each socket of the set, in the order of the set,
/// and nothing in the item of a socket of another kind.
#[verifier::external_body]
pub(crate) fn udp_ports(sockets: &SocketSet<'static>) -> (ports: Vec<Option<u16>>)
    ensures
        forall|port: u16| #[trigger]
            ports@.contains(Some(port)) == udp_bound(table(*sockets), port),
{
    let kind = |(_, socket): (SocketHandle, &smoltcp::socket::Socket<'static>)| match socket {
        smoltcp::socket::Socket::Udp(socket) => Some(socket.endpoint().port),
        smoltcp::socket::Socket::Tcp(_) => None,
        smoltcp::socket::Socket::Dhcpv4(_) => None,
    };
    sockets.iter().map(kind).collect()
}

/// A datagram is queued on a UDP socket, through `udp::Socket::send_slice`. An unbound
/// socket, a remote address of zeros and a remote port of zero are refused; otherwise the
/// queue takes the datagram or has no room for it. Its memory is a ring (`PacketBuffer`) in
/// which a datagram lies in one piece: where there is no such piece behind the last used
/// byte, the rest of the memory is filled up with an entry of its own, and the datagram goes
/// to the beginning.
#[verifier::external_body]
pub(crate) fn udp_send(
    sockets: &mut SocketSet<'static>,
    handle: SocketHandle,
    payload: &[u8],
    address: Ipv4,
    port: u16,
) -> (result: Result<(), DatagramError>)
    requires
        has_udp(table(*old(sockets)), handle),
    ensures
        ({
            let before = table(*old(sockets));
            let after = table(*final(sockets));
            let held = before[handle]->Udp_0;
            if held.port == 0 || address == Ipv4(0, 0, 0, 0) || port == 0 {
                &&& result == Err::<(), DatagramError>(DatagramError::Unaddressable)
                &&& after == before
            } else {
                let parcel = Parcel {
                    peer: SocketAddress { address: address.ip(), port },
                    payload: payload@,
                };
                &&& result == if takes(held, payload@.len()) {
                    Ok::<(), DatagramError>(())
                } else {
                    Err::<(), DatagramError>(DatagramError::BufferFull)
                }
                &&& after == before.insert(handle, Held::Udp(handed(held, parcel)))
            }
        }),
{
    let remote = wire::IpAddress::v4(address.0, address.1, address.2, address.3);
    match sockets.get_mut::<udp::Socket>(handle).send_slice(payload, (remote, port)) {
        Ok(()) => Ok(()),
        Err(udp::SendError::BufferFull) => Err(DatagramError::BufferFull),
        Err(udp::SendError::Unaddressable) => Err(DatagramError::Unaddressable),
    }
}

/// How many bytes the outgoing datagrams of a UDP socket take up, through
/// `udp::Socket::send_queue`.
#[verifier::external_body]
pub(crate) fn udp_unsent(sockets: &SocketSet<'static>, handle: SocketHandle) -> (count: usize)
    requires
        has_udp(table(*sockets), handle),
    ensures
        count == table(*sockets)[handle]->Udp_0.unsent,
{
    sockets.get::<udp::Socket>(handle).send_queue()
}

/// Whether a UDP socket may have a datagram, through `udp::Socket::can_recv`. It says so
/// of every socket that has one. Of one that has none it may say so too, where the queue
/// holds filling only.
#[verifier::external_body]
pub(crate) fn udp_can_recv(sockets: &SocketSet<'static>, handle: SocketHandle) -> (yes: bool)
    requires
        has_udp(table(*sockets), handle),
    ensures
        !yes ==> table(*sockets)[handle]->Udp_0.waiting.len() == 0,
{
    sockets.get::<udp::Socket>(handle).can_recv()
}

/// The datagram that came first is taken from a UDP socket, through `udp::Socket::recv`;
/// nothing where there is none, for which the engine says that the queue is exhausted.
#[verifier::external_body]
pub(crate) fn udp_recv(sockets: &mut SocketSet<'static>, handle: SocketHandle) -> (parcel: Option<
    (Vec<u8>, SocketAddress),
>)
    requires
        has_udp(table(*old(sockets)), handle),
    ensures
        ({
            let before = table(*old(sockets));
            let held = before[handle]->Udp_0;
            if held.waiting.len() == 0 {
                &&& parcel is None
                &&& table(*final(sockets)) == before
            } else {
                &&& parcel matches Some((payload, peer))
                &&& payload@ == held.waiting[0].payload
                &&& peer == held.waiting[0].peer
                &&& table(*final(sockets)) == before.insert(
                    handle,
                    Held::Udp(UdpHeld { waiting: held.waiting.drop_first(), ..held }),
                )
            }
        }),
{
    match sockets.get_mut::<udp::Socket>(handle).recv() {
        Ok((payload, metadata)) => {
            let wire::IpAddress::Ipv4(address) = metadata.endpoint.addr;
            let peer = SocketAddress {
                address: v4(address.octets()).ip(),
                port: metadata.endpoint.port,
            };
            Some((payload.to_vec(), peer))
        },
        Err(_) => None,
    }
}

/// A UDP socket is unbound and drops what it holds, through `udp::Socket::close`.
#[verifier::external_body]
pub(crate) fn udp_close(sockets: &mut SocketSet<'static>, handle: SocketHandle)
    requires
        has_udp(table(*old(sockets)), handle),
    ensures
        ({
            let held = table(*old(sockets))[handle]->Udp_0;
            table(*final(sockets)) == table(*old(sockets)).insert(
                handle,
                Held::Udp(fresh_udp(held.slots, held.room)),
            )
        }),
{
    sockets.get_mut::<udp::Socket>(handle).close();
}

/// A new lease client joins the set, through `SocketSet::add` and `dhcpv4::Socket::new`,
/// with a buffer of the given size for the packets that come
/// (`dhcpv4::Socket::set_receive_packet_buffer`), at most a gibibyte, under a handle that
/// was free. What it reports first is that there is no lease.
#[verifier::external_body]
pub(crate) fn add_dhcp(sockets: &mut SocketSet<'static>, size: usize) -> (handle: SocketHandle)
    requires
        size <= 0x4000_0000,
    ensures
        !table(*old(sockets)).contains_key(handle),
        table(*final(sockets)) == table(*old(sockets)).insert(
            handle,
            Held::Dhcp(Some(LeaseNews::Lost)),
        ),
{
    let mut socket = dhcpv4::Socket::new();
    socket.set_receive_packet_buffer(Box::leak(vec![0u8; size].into_boxed_slice()));
    sockets.add(socket)
}

/// What the lease client reports, through `dhcpv4::Socket::poll`; it reports a thing once.
/// A leased address is one that an interface may have, and its prefix length is at most
/// thirty-two: the engine takes no other acknowledgement.
#[verifier::external_body]
pub(crate) fn dhcp_poll(sockets: &mut SocketSet<'static>, handle: SocketHandle) -> (event: Option<
    LeaseEvent,
>)
    requires
        has_dhcp(table(*old(sockets)), handle),
    ensures
        match event {
            Some(event) => table(*old(sockets))[handle]->Dhcp_0 == Some(event@),
            None => table(*old(sockets))[handle]->Dhcp_0 is None,
        },
        event matches Some(LeaseEvent::Bound(lease)) ==> assignable(lease.address) && lease.prefix
            <= 32,
        table(*final(sockets)) == table(*old(sockets)).insert(handle, Held::Dhcp(None)),
{
    match sockets.get_mut::<dhcpv4::Socket>(handle).poll() {
        None => None,
        Some(dhcpv4::Event::Deconfigured) => Some(LeaseEvent::Lost),
        Some(dhcpv4::Event::Configured(lease)) => Some(
            LeaseEvent::Bound(
                Lease {
                    address: v4(lease.address.address().octets()),
                    prefix: lease.address.prefix_len(),
                    router: lease.router.map(|router| v4(router.octets())),
                    dns: lease.dns_servers.iter().map(|server| v4(server.octets())).collect(),
                    packet: lease.packet.map(|packet| packet.into_inner().to_vec()),
                },
            ),
        ),
    }
}

/// The duration of the lease that an acknowledgement grants, through
/// `wire::DhcpRepr::parse`; nothing where the packet is not one or does not say.
#[verifier::external_body]
pub(crate) fn lease_seconds(packet: &[u8]) -> (seconds: Option<u32>)
    ensures
        seconds == lease_duration(packet@),
{
    let packet = wire::DhcpPacket::new_unchecked(packet);
    wire::DhcpRepr::parse(&packet).ok()?.lease_duration
}

/// The interface gets the addresses of a list in place of its own, through
/// `Interface::update_ip_addrs`. An address that an interface may not have and a prefix
/// length beyond thirty-two are left out, because the engine refuses them by a panic, and
/// so is a list of more than two. The routes stay.
#[verifier::external_body]
pub(crate) fn set_addresses(iface: &mut Interface, list: &Vec<(Ipv4, u8)>)
    requires
        list@.len() <= 2,
        forall|i: int|
            0 <= i < list@.len() ==> assignable((#[trigger] list@[i]).0) && list@[i].1 <= 32,
    ensures
        addresses(*final(iface)) == list@,
        gateway(*final(iface)) == gateway(*old(iface)),
        other_routes(*final(iface)) == other_routes(*old(iface)),
        default_routes(*final(iface)) == default_routes(*old(iface)),
        frame_size(*final(iface)) == frame_size(*old(iface)),
{
    let cidr = |item: &(Ipv4, u8)| {
        let address = item.0;
        let address = wire::IpAddress::v4(address.0, address.1, address.2, address.3);
        wire::IpCidr::new(address, item.1)
    };
    iface.update_ip_addrs(|held| *held = list.iter().map(cidr).collect());
}

/// The interface gets a default route through a router in place of the one it had, through
/// `Routes::add_default_ipv4_route`, while it has fewer than two other routes; with two,
/// its table is full and it is left without a default route, and says so.
#[verifier::external_body]
pub(crate) fn set_gateway(iface: &mut Interface, router: Ipv4) -> (done: bool)
    ensures
        done == (other_routes(*old(iface)) < 2),
        gateway(*final(iface)) == routed(other_routes(*old(iface)), router),
        default_routes(*final(iface)) == routes_set(
            other_routes(*old(iface)),
            default_routes(*old(iface)),
        ),
        addresses(*final(iface)) == addresses(*old(iface)),
        other_routes(*final(iface)) == other_routes(*old(iface)),
        frame_size(*final(iface)) == frame_size(*old(iface)),
{
    let router = wire::Ipv4Address::new(router.0, router.1, router.2, router.3);
    iface.routes_mut().add_default_ipv4_route(router).is_ok()
}

/// The interface loses its default route, through `Routes::remove_default_ipv4_route`. An
/// interface with several is left out, because the engine takes the first one only.
#[verifier::external_body]
pub(crate) fn clear_gateway(iface: &mut Interface)
    requires
        default_routes(*old(iface)) <= 1,
    ensures
        gateway(*final(iface)) is None,
        default_routes(*final(iface)) == 0,
        addresses(*final(iface)) == addresses(*old(iface)),
        other_routes(*final(iface)) == other_routes(*old(iface)),
        frame_size(*final(iface)) == frame_size(*old(iface)),
{
    iface.routes_mut().remove_default_ipv4_route();
}

/// How many microseconds the engine can be left alone from a point in time on, through
/// `Interface::poll_delay`; nothing where only traffic gives it work. The interface keeps
/// its addresses and its routes. A time before the origin of the clock and an interface
/// whose frames are too small for a segment are left out, because the engine's arithmetic
/// overflows on them.
#[verifier::external_body]
pub(crate) fn poll_delay(
    iface: &mut Interface,
    sockets: &SocketSet<'static>,
    micros: i64,
) -> (delay: Option<u64>)
    requires
        micros >= 0,
        frame_size(*old(iface)) >= SMALLEST_FRAME,
    ensures
        delay == wait_time(*old(iface), *sockets, micros),
        addresses(*final(iface)) == addresses(*old(iface)),
        gateway(*final(iface)) == gateway(*old(iface)),
        other_routes(*final(iface)) == other_routes(*old(iface)),
        default_routes(*final(iface)) == default_routes(*old(iface)),
        frame_size(*final(iface)) == frame_size(*old(iface)),
{
    let now = smoltcp::time::Instant::from_micros(micros);
    Some(iface.poll_delay(now, sockets)?.total_micros())
}

} // verus!
