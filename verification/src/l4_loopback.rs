//! `net.l4.loopback`: a transport layer in memory, reachable under loopback addresses
//! only.
//!
//! Connections are pairs of byte streams. A handle names the streams, the backlog or the
//! datagram queue that it stands for by number.
use std::collections::{BTreeMap, VecDeque};

use vstd::prelude::*;
use vstd::std_specs::vecdeque::VecDequeAdditionalSpecFns;
use vstd::string::*;

use crate::bytes::slice_of;
use crate::l4::{IpAddress, L4Error, L4Failure, SocketAddress};

verus! {

broadcast use vstd::std_specs::btree::group_btree_axioms;

/// The first of the ports that are handed out.
pub const FIRST_EPHEMERAL: u16 = 49152;

pub const NO_DATA: &'static str =
    "no data queued — the loopback transport does not block; send before receiving";

pub const NO_PENDING: &'static str =
    "nothing to accept — the loopback transport does not block; connect before accepting";

pub const NO_DATAGRAM: &'static str =
    "no datagram queued — the loopback transport does not block; send before receiving";

/// One direction of a connection.
#[derive(Debug)]
pub struct Stream {
    /// Bytes that were sent and not yet received.
    pub queue: VecDeque<u8>,
    /// Whether one of the two ends is gone.
    pub closed: bool,
}

/// One direction of a connection, over contents.
pub struct Flow {
    pub queue: Seq<u8>,
    pub closed: bool,
}

impl View for Stream {
    type V = Flow;

    open spec fn view(&self) -> Flow {
        Flow { queue: self.queue@, closed: self.closed }
    }
}

impl Stream {
    /// An empty direction between two ends that are there.
    pub fn new() -> (stream: Stream)
        ensures
            stream@ == (Flow { queue: Seq::empty(), closed: false }),
    {
        let stream = Stream { queue: VecDeque::new(), closed: false };
        assert(stream@.queue =~= Seq::empty());
        stream
    }

    /// Append bytes.
    fn append(&mut self, bytes: &Vec<u8>)
        ensures
            final(self)@ == (Flow { queue: old(self)@.queue + bytes@, closed: old(self)@.closed }),
    {
        let mut done: usize = 0;
        while done < bytes.len()
            invariant
                done <= bytes.len(),
                self.closed == old(self).closed,
                self.queue@ == old(self).queue@ + bytes@.take(done as int),
            decreases bytes.len() - done,
        {
            self.queue.push_back(bytes[done]);
            assert(bytes@.take(done + 1) =~= bytes@.take(done as int).push(bytes@[done as int]));
            done += 1;
        }
        assert(bytes@.take(done as int) =~= bytes@);
    }

    /// Take the first bytes, up to `wanted` of them.
    fn take(&mut self, wanted: u64) -> (bytes: Vec<u8>)
        ensures
            bytes@.len() == lesser(wanted as nat, old(self)@.queue.len()),
            bytes@ == old(self)@.queue.take(bytes@.len() as int),
            final(self)@ == (Flow {
                queue: old(self)@.queue.skip(bytes@.len() as int),
                closed: old(self)@.closed,
            }),
    {
        let mut bytes: Vec<u8> = Vec::new();
        assert(old(self)@.queue.skip(0) =~= old(self)@.queue);
        while (bytes.len() as u64) < wanted && self.queue.len() > 0
            invariant
                self.closed == old(self).closed,
                bytes@.len() <= wanted,
                bytes@.len() <= old(self)@.queue.len(),
                bytes@ == old(self)@.queue.take(bytes@.len() as int),
                self.queue@ == old(self)@.queue.skip(bytes@.len() as int),
            decreases self.queue@.len(),
        {
            let ghost count = bytes@.len() as int;
            if let Some(byte) = self.queue.pop_front() {
                bytes.push(byte);
            }
            assert(old(self)@.queue.take(count + 1) =~= old(self)@.queue.take(count).push(
                old(self)@.queue[count],
            ));
            assert(old(self)@.queue.skip(count).drop_first() =~= old(self)@.queue.skip(count + 1));
        }
        bytes
    }
}

/// One end of a connection: the peer's address, the stream that comes from it and the
/// stream that goes to it.
#[derive(Clone, Copy, PartialEq, Eq, Structural, Debug)]
pub struct Connection {
    pub peer: SocketAddress,
    pub rx: usize,
    pub tx: usize,
}

/// A listening socket.
#[derive(Clone, Copy, PartialEq, Eq, Structural, Debug)]
pub struct Listener {
    pub local: SocketAddress,
    pub backlog: usize,
}

/// A bound datagram socket.
#[derive(Clone, Copy, PartialEq, Eq, Structural, Debug)]
pub struct UdpSocket {
    pub local: SocketAddress,
    pub queue: usize,
}

/// A datagram that waits.
#[derive(Debug)]
pub struct Datagram {
    pub from: SocketAddress,
    pub payload: Vec<u8>,
}

/// A datagram that waits, over contents.
pub struct Message {
    pub from: SocketAddress,
    pub payload: Seq<u8>,
}

impl View for Datagram {
    type V = Message;

    open spec fn view(&self) -> Message {
        Message { from: self.from, payload: self.payload@ }
    }
}

/// The whole network.
#[derive(Debug)]
pub struct Loopback {
    /// The backlog of each listening port, and the queue of each datagram port.
    pub listeners: BTreeMap<u16, usize>,
    pub udp: BTreeMap<u16, usize>,
    /// The port that is handed out next, if it is free.
    pub next_ephemeral: u16,
    pub streams: Vec<Stream>,
    pub backlogs: Vec<VecDeque<Connection>>,
    pub queues: Vec<VecDeque<Datagram>>,
}

/// The whole network, over contents.
#[verifier::ext_equal]
pub struct Net {
    pub listeners: Map<u16, usize>,
    pub udp: Map<u16, usize>,
    pub next_ephemeral: u16,
    pub streams: Seq<Flow>,
    pub backlogs: Seq<Seq<Connection>>,
    pub queues: Seq<Seq<Message>>,
}

/// The contents of a queue of datagrams.
pub open spec fn messages(queue: Seq<Datagram>) -> Seq<Message> {
    queue.map_values(|datagram: Datagram| datagram@)
}

impl View for Loopback {
    type V = Net;

    open spec fn view(&self) -> Net {
        Net {
            listeners: self.listeners@,
            udp: self.udp@,
            next_ephemeral: self.next_ephemeral,
            streams: self.streams@.map_values(|stream: Stream| stream@),
            backlogs: self.backlogs@.map_values(|backlog: VecDeque<Connection>| backlog@),
            queues: self.queues@.map_values(|queue: VecDeque<Datagram>| messages(queue@)),
        }
    }
}

/// The port after a port, among those that are handed out.
pub open spec fn next_port(port: u16) -> u16 {
    if port == u16::MAX {
        FIRST_EPHEMERAL
    } else {
        (port + 1) as u16
    }
}

impl Net {
    /// Ports name backlogs and queues that exist; the next port is one to hand out.
    pub open spec fn wf(self) -> bool {
        &&& self.next_ephemeral >= FIRST_EPHEMERAL
        &&& forall|port: u16| #[trigger]
            self.listeners.contains_key(port) ==> self.listeners[port] < self.backlogs.len()
        &&& forall|port: u16| #[trigger]
            self.udp.contains_key(port) ==> self.udp[port] < self.queues.len()
    }

    /// The ends that wait name streams that exist.
    pub open spec fn linked(self) -> bool {
        forall|backlog: int, place: int|
            0 <= backlog < self.backlogs.len() && 0 <= place < self.backlogs[backlog].len()
                ==> (#[trigger] self.backlogs[backlog][place]).rx < self.streams.len()
                && self.backlogs[backlog][place].tx < self.streams.len()
    }

    /// Whether a port is in use by either protocol.
    pub open spec fn bound(self, port: u16) -> bool {
        self.listeners.contains_key(port) || self.udp.contains_key(port)
    }

    /// Whether a port is left to hand out.
    pub open spec fn has_free_port(self) -> bool {
        exists|port: u16| FIRST_EPHEMERAL <= port && !#[trigger] self.bound(port)
    }
}

/// The first free port from `port` on, looking at no more than `fuel` others.
pub open spec fn free_from(net: Net, port: u16, fuel: nat) -> u16
    decreases fuel,
{
    if fuel == 0 || !net.bound(port) {
        port
    } else {
        free_from(net, next_port(port), (fuel - 1) as nat)
    }
}

/// The port that is handed out, and the network after that.
pub open spec fn handed_out(net: Net) -> (Net, u16) {
    let port = free_from(net, net.next_ephemeral, 16384);
    (Net { next_ephemeral: next_port(port), ..net }, port)
}

/// How far a port is from another, going round.
pub open spec fn distance(from: u16, to: u16) -> int {
    if from <= to {
        to - from
    } else {
        to - from + 16384
    }
}

proof fn lemma_free_fuel(net: Net, port: u16, free: u16, fuel: nat, more: nat)
    requires
        FIRST_EPHEMERAL <= port,
        FIRST_EPHEMERAL <= free,
        !net.bound(free),
        distance(port, free) <= fuel <= more,
    ensures
        free_from(net, port, fuel) == free_from(net, port, more),
        !net.bound(free_from(net, port, fuel)),
        free_from(net, port, fuel) >= FIRST_EPHEMERAL,
    decreases fuel,
{
    if net.bound(port) {
        assert(port != free);
        lemma_free_fuel(net, next_port(port), free, (fuel - 1) as nat, (more - 1) as nat);
    }
}

/// Whether an address is reachable.
pub open spec fn loopback_address(ip: IpAddress) -> bool {
    match ip {
        IpAddress::V4(first, _, _, _) => first == 127,
        IpAddress::V6(..) => ip == IpAddress::V6(0, 0, 0, 0, 0, 0, 0, 1),
    }
}

/// Whether an address can be bound.
pub open spec fn bindable_address(ip: IpAddress) -> bool {
    loopback_address(ip) || ip == IpAddress::V4(0, 0, 0, 0) || ip == IpAddress::V6(
        0,
        0,
        0,
        0,
        0,
        0,
        0,
        0,
    )
}

/// The one loopback address of a family, with a port.
pub open spec fn canonical_address(ip: IpAddress, port: u16) -> SocketAddress {
    SocketAddress {
        address: match ip {
            IpAddress::V4(..) => IpAddress::V4(127, 0, 0, 1),
            IpAddress::V6(..) => IpAddress::V6(0, 0, 0, 0, 0, 0, 0, 1),
        },
        port,
    }
}

/// Whether an address is reachable.
pub fn is_loopback(ip: &IpAddress) -> (yes: bool)
    ensures
        yes == loopback_address(*ip),
{
    match ip {
        IpAddress::V4(first, _, _, _) => *first == 127,
        IpAddress::V6(..) => *ip == IpAddress::V6(0, 0, 0, 0, 0, 0, 0, 1),
    }
}

/// Whether an address can be bound.
pub fn is_bindable(ip: &IpAddress) -> (yes: bool)
    ensures
        yes == bindable_address(*ip),
{
    is_loopback(ip) || *ip == IpAddress::V4(0, 0, 0, 0) || *ip == IpAddress::V6(
        0,
        0,
        0,
        0,
        0,
        0,
        0,
        0,
    )
}

/// The one loopback address of a family, with a port.
pub fn canonical(ip: &IpAddress, port: u16) -> (address: SocketAddress)
    ensures
        address == canonical_address(*ip, port),
{
    let address = match ip {
        IpAddress::V4(..) => IpAddress::V4(127, 0, 0, 1),
        IpAddress::V6(..) => IpAddress::V6(0, 0, 0, 0, 0, 0, 0, 1),
    };
    SocketAddress { address, port }
}

/// What a call came to, over contents.
pub open spec fn outcome<T>(result: Result<T, L4Error>) -> Result<T, L4Failure> {
    match result {
        Ok(value) => Ok(value),
        Err(error) => Err(error@),
    }
}

/// What a read came to, over contents.
pub open spec fn contents(result: Result<Vec<u8>, L4Error>) -> Result<Seq<u8>, L4Failure> {
    match result {
        Ok(bytes) => Ok(bytes@),
        Err(error) => Err(error@),
    }
}

/// The port of a binding: the wanted one, or one that is handed out for zero.
pub open spec fn chosen(net: Net, wanted: u16) -> (Net, u16) {
    if wanted == 0 {
        handed_out(net)
    } else {
        (net, wanted)
    }
}

/// What `connect` does: two streams, whose far end waits in the backlog of the port.
pub open spec fn connected(net: Net, remote: SocketAddress) -> (Net, Result<
    Connection,
    L4Failure,
>) {
    if !loopback_address(remote.address) {
        (net, Err(L4Failure::Unreachable))
    } else if !net.listeners.contains_key(remote.port) {
        (net, Err(L4Failure::ConnectionRefused))
    } else {
        let (drawn, port) = handed_out(net);
        let to_client = net.streams.len() as usize;
        let to_server = (net.streams.len() + 1) as usize;
        let backlog = net.listeners[remote.port] as int;
        let far = Connection {
            peer: canonical_address(remote.address, port),
            rx: to_server,
            tx: to_client,
        };
        let near = Connection {
            peer: canonical_address(remote.address, remote.port),
            rx: to_client,
            tx: to_server,
        };
        (
            Net {
                streams: net.streams.push(open_flow()).push(open_flow()),
                backlogs: net.backlogs.update(backlog, net.backlogs[backlog].push(far)),
                ..drawn
            },
            Ok(near),
        )
    }
}

/// A direction that is empty and open.
pub open spec fn open_flow() -> Flow {
    Flow { queue: Seq::empty(), closed: false }
}

/// What `listen` does.
pub open spec fn listening(net: Net, local: SocketAddress) -> (Net, Result<Listener, L4Failure>) {
    if !bindable_address(local.address) {
        (net, Err(L4Failure::AddressUnavailable))
    } else {
        let (drawn, port) = chosen(net, local.port);
        if net.listeners.contains_key(port) {
            (drawn, Err(L4Failure::AddressInUse))
        } else {
            let backlog = net.backlogs.len() as usize;
            (
                Net {
                    listeners: net.listeners.insert(port, backlog),
                    backlogs: net.backlogs.push(Seq::empty()),
                    ..drawn
                },
                Ok(Listener { local: canonical_address(local.address, port), backlog }),
            )
        }
    }
}

/// What `accept` does.
pub open spec fn accepted(net: Net, listener: Listener) -> (Net, Result<
    (Connection, SocketAddress),
    L4Failure,
>) {
    let waiting = net.backlogs[listener.backlog as int];
    if waiting.len() == 0 {
        (net, Err(L4Failure::Io(NO_PENDING@)))
    } else {
        (
            Net {
                backlogs: net.backlogs.update(listener.backlog as int, waiting.drop_first()),
                ..net
            },
            Ok((waiting[0], waiting[0].peer)),
        )
    }
}

/// What `send` does.
pub open spec fn sent(net: Net, connection: Connection, bytes: Seq<u8>) -> (Net, Result<
    u64,
    L4Failure,
>) {
    let flow = net.streams[connection.tx as int];
    if flow.closed {
        (net, Err(L4Failure::ConnectionReset))
    } else {
        (
            Net {
                streams: net.streams.update(
                    connection.tx as int,
                    Flow { queue: flow.queue + bytes, closed: false },
                ),
                ..net
            },
            Ok(bytes.len() as u64),
        )
    }
}

/// The smaller of two counts.
pub open spec fn lesser(a: nat, b: nat) -> nat {
    if a < b {
        a
    } else {
        b
    }
}

/// What `recv` does.
pub open spec fn received(net: Net, connection: Connection, wanted: nat) -> (Net, Result<
    Seq<u8>,
    L4Failure,
>) {
    let flow = net.streams[connection.rx as int];
    let count = lesser(wanted, flow.queue.len());
    if count == 0 && !flow.closed && wanted != 0 {
        (net, Err(L4Failure::Io(NO_DATA@)))
    } else {
        (
            Net {
                streams: net.streams.update(
                    connection.rx as int,
                    Flow { queue: flow.queue.skip(count as int), closed: flow.closed },
                ),
                ..net
            },
            Ok(flow.queue.take(count as int)),
        )
    }
}

/// What `bind_udp` does.
pub open spec fn bound_udp(net: Net, local: SocketAddress) -> (Net, Result<UdpSocket, L4Failure>) {
    if !bindable_address(local.address) {
        (net, Err(L4Failure::AddressUnavailable))
    } else {
        let (drawn, port) = chosen(net, local.port);
        if net.udp.contains_key(port) {
            (drawn, Err(L4Failure::AddressInUse))
        } else {
            let queue = net.queues.len() as usize;
            (
                Net {
                    udp: net.udp.insert(port, queue),
                    queues: net.queues.push(Seq::empty()),
                    ..drawn
                },
                Ok(UdpSocket { local: canonical_address(local.address, port), queue }),
            )
        }
    }
}

/// What `send_to` does.
pub open spec fn sent_to(
    net: Net,
    socket: UdpSocket,
    remote: SocketAddress,
    payload: Seq<u8>,
) -> (Net, Result<u64, L4Failure>) {
    if !loopback_address(remote.address) {
        (net, Err(L4Failure::Unreachable))
    } else if !net.udp.contains_key(remote.port) {
        (net, Err(L4Failure::ConnectionRefused))
    } else {
        let queue = net.udp[remote.port] as int;
        (
            Net {
                queues: net.queues.update(
                    queue,
                    net.queues[queue].push(Message { from: socket.local, payload }),
                ),
                ..net
            },
            Ok(payload.len() as u64),
        )
    }
}

/// What `recv_from` does: a datagram is cut to the buffer.
pub open spec fn received_from(net: Net, socket: UdpSocket, wanted: nat) -> (Net, Result<
    (Seq<u8>, SocketAddress),
    L4Failure,
>) {
    let waiting = net.queues[socket.queue as int];
    if waiting.len() == 0 {
        (net, Err(L4Failure::Io(NO_DATAGRAM@)))
    } else {
        (
            Net {
                queues: net.queues.update(socket.queue as int, waiting.drop_first()),
                ..net
            },
            Ok(
                (
                    waiting[0].payload.take(lesser(wanted, waiting[0].payload.len()) as int),
                    waiting[0].from,
                ),
            ),
        )
    }
}

/// A direction with an end gone.
pub open spec fn shut(flow: Flow) -> Flow {
    Flow { closed: true, ..flow }
}

/// What is left when an end of a connection is gone.
pub open spec fn hung_up(net: Net, connection: Connection) -> Net {
    let one = net.streams.update(
        connection.rx as int,
        shut(net.streams[connection.rx as int]),
    );
    Net { streams: one.update(connection.tx as int, shut(one[connection.tx as int])), ..net }
}

/// What is left when ends of several connections are gone.
pub open spec fn hung_up_all(net: Net, gone: Seq<Connection>) -> Net
    decreases gone.len(),
{
    if gone.len() == 0 {
        net
    } else {
        hung_up(hung_up_all(net, gone.drop_last()), gone.last())
    }
}

/// What is left when a listener is gone.
pub open spec fn unlistened(net: Net, listener: Listener) -> Net {
    let closed = hung_up_all(
        Net { listeners: net.listeners.remove(listener.local.port), ..net },
        net.backlogs[listener.backlog as int],
    );
    Net { backlogs: closed.backlogs.update(listener.backlog as int, Seq::empty()), ..closed }
}

/// The empty network.
pub open spec fn empty_net() -> Net {
    Net {
        listeners: Map::empty(),
        udp: Map::empty(),
        next_ephemeral: FIRST_EPHEMERAL,
        streams: Seq::empty(),
        backlogs: Seq::empty(),
        queues: Seq::empty(),
    }
}

/// The network of a provider, which starts empty.
pub fn with_state(state: &mut Option<Loopback>) -> (net: &mut Loopback)
    ensures
        *old(state) matches Some(before) ==> *net == before,
        *old(state) is None ==> net@ == empty_net(),
        *final(state) == Some(*final(net)),
{
    if state.is_none() {
        *state = Some(Loopback::empty());
    }
    state.as_mut().unwrap()
}

impl Loopback {
    /// The empty network.
    pub fn empty() -> (net: Loopback)
        ensures
            net@ == empty_net(),
    {
        let net = Loopback {
            listeners: BTreeMap::new(),
            udp: BTreeMap::new(),
            next_ephemeral: FIRST_EPHEMERAL,
            streams: Vec::new(),
            backlogs: Vec::new(),
            queues: Vec::new(),
        };
        assert(net@ =~= empty_net());
        net
    }

    /// Hand a port out that neither protocol uses.
    pub fn ephemeral_port(&mut self) -> (port: u16)
        requires
            old(self)@.wf(),
            old(self)@.has_free_port(),
        ensures
            (final(self)@, port) == handed_out(old(self)@),
            final(self)@.wf(),
    {
        let ghost free = choose|port: u16| FIRST_EPHEMERAL <= port && !#[trigger] old(self)@.bound(
            port,
        );
        let ghost mut fuel: nat = 16384;
        loop
            invariant
                self.listeners == old(self).listeners,
                self.udp == old(self).udp,
                self.streams == old(self).streams,
                self.backlogs == old(self).backlogs,
                self.queues == old(self).queues,
                old(self)@.wf(),
                FIRST_EPHEMERAL <= free,
                !old(self)@.bound(free),
                FIRST_EPHEMERAL <= self.next_ephemeral,
                distance(self.next_ephemeral, free) <= fuel,
                free_from(old(self)@, old(self)@.next_ephemeral, 16384) == free_from(
                    old(self)@,
                    self.next_ephemeral,
                    fuel,
                ),
            decreases distance(self.next_ephemeral, free),
        {
            let candidate: u16 = self.next_ephemeral;
            self.next_ephemeral = if candidate == u16::MAX {
                FIRST_EPHEMERAL
            } else {
                candidate + 1
            };
            if !self.listeners.contains_key(&candidate) && !self.udp.contains_key(&candidate) {
                assert(!old(self)@.bound(candidate));
                assert(self@ =~= handed_out(old(self)@).0);
                return candidate;
            }
            proof {
                assert(old(self)@.bound(candidate));
                assert(candidate != free);
                fuel = (fuel - 1) as nat;
            }
        }
    }
    /// Hand out a port for a local address whose port is zero; any other is taken as it is.
    fn choose_port(&mut self, wanted: u16) -> (port: u16)
        requires
            old(self)@.wf(),
            wanted == 0 ==> old(self)@.has_free_port(),
        ensures
            (final(self)@, port) == chosen(old(self)@, wanted),
            final(self)@.wf(),
    {
        if wanted == 0 {
            self.ephemeral_port()
        } else {
            wanted
        }
    }

    /// Connect to a listener; the other end waits in its backlog.
    pub fn connect(&mut self, remote: SocketAddress) -> (result: Result<Connection, L4Error>)
        requires
            old(self)@.wf(),
            loopback_address(remote.address) && old(self)@.listeners.contains_key(remote.port)
                ==> old(self)@.has_free_port(),
        ensures
            (final(self)@, outcome(result)) == connected(old(self)@, remote),
            final(self)@.wf(),
    {
        if !is_loopback(&remote.address) {
            return Err(L4Error::Unreachable);
        }
        let backlog: usize = match self.listeners.get(&remote.port) {
            Some(backlog) => *backlog,
            None => {
                return Err(L4Error::ConnectionRefused);
            },
        };
        let port: u16 = self.ephemeral_port();
        let client = canonical(&remote.address, port);
        let server = canonical(&remote.address, remote.port);
        let to_client: usize = self.streams.len();
        self.streams.push(Stream::new());
        let to_server: usize = self.streams.len();
        self.streams.push(Stream::new());
        self.backlogs[backlog].push_back(
            Connection { peer: client, rx: to_server, tx: to_client },
        );
        assert(self@ =~~= connected(old(self)@, remote).0);
        Ok(Connection { peer: server, rx: to_client, tx: to_server })
    }

    /// Start to listen.
    pub fn listen(&mut self, local: SocketAddress) -> (result: Result<Listener, L4Error>)
        requires
            old(self)@.wf(),
            bindable_address(local.address) && local.port == 0 ==> old(self)@.has_free_port(),
        ensures
            (final(self)@, outcome(result)) == listening(old(self)@, local),
            final(self)@.wf(),
    {
        if !is_bindable(&local.address) {
            return Err(L4Error::AddressUnavailable);
        }
        let port: u16 = self.choose_port(local.port);
        if self.listeners.contains_key(&port) {
            return Err(L4Error::AddressInUse);
        }
        let backlog: usize = self.backlogs.len();
        self.backlogs.push(VecDeque::new());
        self.listeners.insert(port, backlog);
        assert(self@ =~~= listening(old(self)@, local).0);
        Ok(Listener { local: canonical(&local.address, port), backlog })
    }

    /// Take the connection that has waited longest.
    pub fn accept(&mut self, listener: &Listener) -> (result: Result<
        (Connection, SocketAddress),
        L4Error,
    >)
        requires
            old(self)@.wf(),
            listener.backlog < old(self)@.backlogs.len(),
        ensures
            (final(self)@, outcome(result)) == accepted(old(self)@, *listener),
            final(self)@.wf(),
    {
        match self.backlogs[listener.backlog].pop_front() {
            Some(connection) => {
                assert(self@ =~~= accepted(old(self)@, *listener).0);
                Ok((connection, connection.peer))
            },
            None => {
                assert(self@ =~~= old(self)@);
                Err(L4Error::Io(String::from_str(NO_PENDING)))
            },
        }
    }

    /// Send bytes to the other end.
    pub fn send(&mut self, connection: &Connection, bytes: &Vec<u8>) -> (result: Result<
        u64,
        L4Error,
    >)
        requires
            old(self)@.wf(),
            connection.tx < old(self)@.streams.len(),
        ensures
            (final(self)@, outcome(result)) == sent(old(self)@, *connection, bytes@),
            final(self)@.wf(),
    {
        if self.streams[connection.tx].closed {
            return Err(L4Error::ConnectionReset);
        }
        self.streams[connection.tx].append(bytes);
        assert(self@ =~~= sent(old(self)@, *connection, bytes@).0);
        Ok(bytes.len() as u64)
    }

    /// Receive into a buffer of `wanted` bytes; gives the bytes that were received.
    pub fn recv(&mut self, connection: &Connection, wanted: u64) -> (result: Result<
        Vec<u8>,
        L4Error,
    >)
        requires
            old(self)@.wf(),
            connection.rx < old(self)@.streams.len(),
        ensures
            (final(self)@, contents(result)) == received(old(self)@, *connection, wanted as nat),
            final(self)@.wf(),
    {
        let bytes = self.streams[connection.rx].take(wanted);
        let stream = &self.streams[connection.rx];
        assert(self@ =~~= Net {
            streams: old(self)@.streams.update(
                connection.rx as int,
                Flow {
                    queue: old(self)@.streams[connection.rx as int].queue.skip(bytes@.len() as int),
                    ..old(self)@.streams[connection.rx as int]
                },
            ),
            ..old(self)@
        });
        if bytes.len() == 0 {
            proof {
                let flow = old(self)@.streams[connection.rx as int];
                assert(flow.queue.skip(0) =~= flow.queue);
                assert(self@ =~~= old(self)@);
            }
            if stream.closed || wanted == 0 {
                return Ok(bytes);
            }
            return Err(L4Error::Io(String::from_str(NO_DATA)));
        }
        Ok(bytes)
    }

    /// Bind a datagram socket.
    pub fn bind_udp(&mut self, local: SocketAddress) -> (result: Result<UdpSocket, L4Error>)
        requires
            old(self)@.wf(),
            bindable_address(local.address) && local.port == 0 ==> old(self)@.has_free_port(),
        ensures
            (final(self)@, outcome(result)) == bound_udp(old(self)@, local),
            final(self)@.wf(),
    {
        if !is_bindable(&local.address) {
            return Err(L4Error::AddressUnavailable);
        }
        let port: u16 = self.choose_port(local.port);
        if self.udp.contains_key(&port) {
            return Err(L4Error::AddressInUse);
        }
        let queue: usize = self.queues.len();
        self.queues.push(VecDeque::new());
        self.udp.insert(port, queue);
        assert(messages(Seq::empty()) =~= Seq::empty());
        assert(self@ =~~= bound_udp(old(self)@, local).0);
        Ok(UdpSocket { local: canonical(&local.address, port), queue })
    }

    /// Send a datagram.
    pub fn send_to(
        &mut self,
        socket: &UdpSocket,
        remote: SocketAddress,
        payload: Vec<u8>,
    ) -> (result: Result<u64, L4Error>)
        requires
            old(self)@.wf(),
        ensures
            (final(self)@, outcome(result)) == sent_to(old(self)@, *socket, remote, payload@),
            final(self)@.wf(),
    {
        if !is_loopback(&remote.address) {
            return Err(L4Error::Unreachable);
        }
        let queue: usize = match self.udp.get(&remote.port) {
            Some(queue) => *queue,
            None => {
                return Err(L4Error::ConnectionRefused);
            },
        };
        let bytes_sent: u64 = payload.len() as u64;
        let datagram = Datagram { from: socket.local, payload };
        proof {
            let before = self.queues@[queue as int]@;
            assert(messages(before.push(datagram)) =~= messages(before).push(datagram@));
        }
        self.queues[queue].push_back(datagram);
        assert(self@ =~~= sent_to(old(self)@, *socket, remote, payload@).0);
        Ok(bytes_sent)
    }

    /// Receive a datagram into a buffer of `wanted` bytes; gives the bytes that were
    /// received and the sender.
    pub fn recv_from(&mut self, socket: &UdpSocket, wanted: u64) -> (result: Result<
        (Vec<u8>, SocketAddress),
        L4Error,
    >)
        requires
            old(self)@.wf(),
            socket.queue < old(self)@.queues.len(),
        ensures
            (final(self)@, match result {
                Ok((bytes, from)) => Ok((bytes@, from)),
                Err(error) => Err(error@),
            }) == received_from(old(self)@, *socket, wanted as nat),
            final(self)@.wf(),
    {
        let ghost before = self.queues@[socket.queue as int]@;
        match self.queues[socket.queue].pop_front() {
            Some(datagram) => {
                proof {
                    assert(messages(before.drop_first()) =~= messages(before).drop_first());
                }
                assert(self@ =~~= received_from(old(self)@, *socket, wanted as nat).0);
                let length: usize = datagram.payload.len();
                let count: usize = if wanted < length as u64 {
                    wanted as usize
                } else {
                    length
                };
                Ok((slice_of(&datagram.payload, 0, count), datagram.from))
            },
            None => {
                assert(self@ =~~= old(self)@);
                Err(L4Error::Io(String::from_str(NO_DATAGRAM)))
            },
        }
    }

    /// One end is gone: both directions are closed.
    pub fn drop_connection(&mut self, connection: &Connection)
        requires
            old(self)@.wf(),
            connection.rx < old(self)@.streams.len(),
            connection.tx < old(self)@.streams.len(),
        ensures
            final(self)@ == hung_up(old(self)@, *connection),
            final(self)@.wf(),
    {
        self.streams[connection.rx].closed = true;
        self.streams[connection.tx].closed = true;
        assert(self@ =~~= hung_up(old(self)@, *connection));
    }

    /// A listener is gone: its port is free and the connections that waited are closed.
    pub fn drop_listener(&mut self, listener: &Listener)
        requires
            old(self)@.wf(),
            old(self)@.linked(),
            listener.backlog < old(self)@.backlogs.len(),
        ensures
            final(self)@ == unlistened(old(self)@, *listener),
            final(self)@.wf(),
    {
        self.listeners.remove(&listener.local.port);
        let ghost waiting = self.backlogs@[listener.backlog as int]@;
        let mut done: usize = 0;
        assert(waiting.take(0) =~= Seq::empty());
        while done < self.backlogs[listener.backlog].len()
            invariant
                waiting == self.backlogs@[listener.backlog as int]@,
                listener.backlog < self.backlogs@.len(),
                done <= waiting.len(),
                self@.linked(),
                self@.wf(),
                self@ == hung_up_all(
                    Net {
                        listeners: old(self)@.listeners.remove(listener.local.port),
                        ..old(self)@
                    },
                    waiting.take(done as int),
                ),
            decreases waiting.len() - done,
        {
            let connection = self.backlogs[listener.backlog][done];
            proof {
                assert(self@.backlogs.len() == self.backlogs@.len());
                assert(self@.backlogs[listener.backlog as int] == waiting);
                assert(self@.backlogs[listener.backlog as int][done as int] == connection);
                assert(waiting.take(done + 1).drop_last() =~= waiting.take(done as int));
            }
            let ghost before = self@.backlogs;
            self.drop_connection(&connection);
            assert(self@.backlogs == before);
            assert(self@.backlogs.len() == self.backlogs@.len());
            assert(self@.backlogs[listener.backlog as int] == self.backlogs@[listener.backlog as int]@);
            done += 1;
        }
        assert(waiting.take(done as int) =~= waiting);
        let mut gone: VecDeque<Connection> = VecDeque::new();
        std::mem::swap(&mut self.backlogs[listener.backlog], &mut gone);
        assert(self@ =~~= unlistened(old(self)@, *listener));
    }

    /// A datagram socket is gone: its port is free.
    pub fn drop_udp(&mut self, socket: &UdpSocket)
        requires
            old(self)@.wf(),
        ensures
            final(self)@ == (Net {
                udp: old(self)@.udp.remove(socket.local.port),
                ..old(self)@
            }),
            final(self)@.wf(),
    {
        self.udp.remove(&socket.local.port);
    }

    /// Start over with no port bound. What existing handles stand for stays.
    pub fn configure(&mut self)
        requires
            old(self)@.wf(),
        ensures
            final(self)@ == (Net {
                listeners: Map::empty(),
                udp: Map::empty(),
                next_ephemeral: FIRST_EPHEMERAL,
                ..old(self)@
            }),
            final(self)@.wf(),
    {
        self.listeners = BTreeMap::new();
        self.udp = BTreeMap::new();
        self.next_ephemeral = FIRST_EPHEMERAL;
    }
}

/// A fresh pair of streams carries what one end sends to the other, in order: after a
/// connection was made and accepted, bytes that were sent in several pieces are received
/// as one sequence, however the reads cut it.
pub proof fn law_stream_is_fifo(
    net: Net,
    connection: Connection,
    far: Connection,
    first: Seq<u8>,
    second: Seq<u8>,
    wanted: nat,
)
    requires
        connection.tx < net.streams.len(),
        far.rx == connection.tx,
        net.streams[far.rx as int] == open_flow(),
        0 < wanted,
        0 < first.len() + second.len() <= u64::MAX,
    ensures
        ({
            let (one, _) = sent(net, connection, first);
            let (two, result) = sent(one, connection, second);
            let (three, got) = received(two, far, wanted);
            let count = lesser(wanted, first.len() + second.len()) as int;
            &&& result == Ok::<u64, L4Failure>(second.len() as u64)
            &&& got == Ok::<Seq<u8>, L4Failure>((first + second).take(count))
            &&& three.streams[far.rx as int].queue == (first + second).skip(count)
        }),
{
    let (one, _) = sent(net, connection, first);
    let (two, _) = sent(one, connection, second);
    assert(two.streams[far.rx as int].queue =~= first + second);
}

/// Connecting queues the other end: the next `accept` of a listener whose backlog was
/// empty gives an end whose streams are those of the connecting end, crossed over, and
/// the address of the connecting end.
pub proof fn law_accept_meets_connect(net: Net, remote: SocketAddress, listener: Listener)
    requires
        net.wf(),
        net.has_free_port(),
        net.streams.len() + 2 <= usize::MAX,
        loopback_address(remote.address),
        net.listeners.contains_key(remote.port),
        net.listeners[remote.port] == listener.backlog,
        net.backlogs[listener.backlog as int].len() == 0,
    ensures
        ({
            let (made, near) = connected(net, remote);
            let (after, got) = accepted(made, listener);
            &&& near is Ok
            &&& got matches Ok((far, from))
            &&& far.rx == near->Ok_0.tx
            &&& far.tx == near->Ok_0.rx
            &&& far.rx != far.tx
            &&& from == far.peer
            &&& from == canonical_address(remote.address, handed_out(net).1)
            &&& near->Ok_0.peer == canonical_address(remote.address, remote.port)
            &&& after.streams[far.rx as int] == open_flow()
            &&& after.streams[far.tx as int] == open_flow()
        }),
{
}

/// A port that is handed out is bound by neither protocol and lies among those that are
/// handed out, whenever one is left.
pub proof fn law_handed_out_is_free(net: Net)
    requires
        net.wf(),
        net.has_free_port(),
    ensures
        !net.bound(handed_out(net).1),
        handed_out(net).1 >= FIRST_EPHEMERAL,
{
    let free = choose|port: u16| FIRST_EPHEMERAL <= port && !#[trigger] net.bound(port);
    lemma_free_fuel(net, net.next_ephemeral, free, 16384, 16384);
}

/// Nothing outside is reachable, and nothing answers where nobody listens: neither call
/// changes the network.
pub proof fn law_only_loopback(net: Net, socket: UdpSocket, remote: SocketAddress, payload: Seq<u8>)
    ensures
        !loopback_address(remote.address) ==> connected(net, remote) == (
            net,
            Err::<Connection, L4Failure>(L4Failure::Unreachable),
        ),
        !loopback_address(remote.address) ==> sent_to(net, socket, remote, payload) == (
            net,
            Err::<u64, L4Failure>(L4Failure::Unreachable),
        ),
        loopback_address(remote.address) && !net.listeners.contains_key(remote.port) ==> connected(
            net,
            remote,
        ) == (net, Err::<Connection, L4Failure>(L4Failure::ConnectionRefused)),
{
}

/// After an end is gone the other end still receives what was sent before, then reads the
/// end of the stream, and its own sends are refused.
pub proof fn law_hang_up_drains(net: Net, gone: Connection, left: Connection, wanted: nat)
    requires
        gone.rx < net.streams.len(),
        gone.tx < net.streams.len(),
        left.rx == gone.tx,
        left.tx == gone.rx,
        gone.rx != gone.tx,
        wanted > 0,
    ensures
        ({
            let after = hung_up(net, gone);
            let queue = net.streams[left.rx as int].queue;
            &&& received(after, left, wanted).1 == Ok::<Seq<u8>, L4Failure>(
                queue.take(lesser(wanted, queue.len()) as int),
            )
            &&& forall|bytes: Seq<u8>|
                (#[trigger] sent(after, left, bytes)).1 == Err::<u64, L4Failure>(
                    L4Failure::ConnectionReset,
                )
        }),
{
}

/// A datagram that was sent to a socket with nothing waiting is received from it, cut to
/// the buffer, with the sender's address.
pub proof fn law_datagram_arrives(
    net: Net,
    from: UdpSocket,
    to: UdpSocket,
    remote: SocketAddress,
    payload: Seq<u8>,
    wanted: nat,
)
    requires
        net.wf(),
        loopback_address(remote.address),
        net.udp.contains_key(remote.port),
        net.udp[remote.port] == to.queue,
        net.queues[to.queue as int].len() == 0,
    ensures
        received_from(sent_to(net, from, remote, payload).0, to, wanted).1 == Ok::<
            (Seq<u8>, SocketAddress),
            L4Failure,
        >((payload.take(lesser(wanted, payload.len()) as int), from.local)),
{
}

/// Every operation keeps the ends that wait linked to streams that exist.
pub proof fn law_backlogs_stay_linked(
    net: Net,
    remote: SocketAddress,
    listener: Listener,
    connection: Connection,
    bytes: Seq<u8>,
    wanted: nat,
)
    requires
        net.wf(),
        net.linked(),
        net.streams.len() + 2 <= usize::MAX,
        listener.backlog < net.backlogs.len(),
        connection.rx < net.streams.len(),
        connection.tx < net.streams.len(),
    ensures
        connected(net, remote).0.linked(),
        listening(net, remote).0.linked(),
        accepted(net, listener).0.linked(),
        sent(net, connection, bytes).0.linked(),
        received(net, connection, wanted).0.linked(),
        hung_up(net, connection).linked(),
        unlistened(net, listener).linked(),
{
    let waiting = net.backlogs[listener.backlog as int];
    assert forall|place: int| 0 <= place < waiting.len() implies (#[trigger] waiting[place]).rx
        < net.streams.len() && waiting[place].tx < net.streams.len() by {
        assert(net.backlogs[listener.backlog as int][place].rx < net.streams.len());
    }
    lemma_hung_up_all_keeps(
        Net { listeners: net.listeners.remove(listener.local.port), ..net },
        waiting,
    );
}

proof fn lemma_hung_up_all_keeps(net: Net, gone: Seq<Connection>)
    requires
        forall|place: int|
            0 <= place < gone.len() ==> (#[trigger] gone[place]).rx < net.streams.len()
                && gone[place].tx < net.streams.len(),
    ensures
        hung_up_all(net, gone).streams.len() == net.streams.len(),
        hung_up_all(net, gone).backlogs == net.backlogs,
    decreases gone.len(),
{
    if gone.len() > 0 {
        lemma_hung_up_all_keeps(net, gone.drop_last());
    }
}

/// Sending puts all bytes behind those that wait in that direction, and touches nothing
/// else; a direction with an end gone takes none and says so.
pub proof fn law_send_appends(net: Net, connection: Connection, bytes: Seq<u8>, other: int)
    requires
        connection.tx < net.streams.len(),
        0 <= other < net.streams.len(),
        other != connection.tx,
        bytes.len() <= u64::MAX,
    ensures
        ({
            let before = net.streams[connection.tx as int];
            let (after, result) = sent(net, connection, bytes);
            let there = after.streams[connection.tx as int];
            &&& before.closed ==> result is Err && after == net
            &&& !before.closed ==> {
                &&& result == Ok::<u64, L4Failure>(bytes.len() as u64)
                &&& there.queue == before.queue + bytes && !there.closed
            }
            &&& after.streams.len() == net.streams.len() && after.streams[other]
                == net.streams[other]
            &&& after.listeners == net.listeners && after.udp == net.udp && after.backlogs
                == net.backlogs && after.queues == net.queues && after.next_ephemeral
                == net.next_ephemeral
        }),
{
}

/// Receiving gives the bytes that came first, as many as wait and are wanted, and leaves the
/// others in their order. Where none wait, a direction with an end gone gives the end of the
/// stream and an open one says that there is nothing.
pub proof fn law_receive_takes_the_first(
    net: Net,
    connection: Connection,
    wanted: nat,
    other: int,
)
    requires
        connection.rx < net.streams.len(),
        0 <= other < net.streams.len(),
        other != connection.rx,
        wanted > 0,
    ensures
        ({
            let before = net.streams[connection.rx as int];
            let (after, result) = received(net, connection, wanted);
            let there = after.streams[connection.rx as int];
            &&& result is Err <==> before.queue.len() == 0 && !before.closed
            &&& result is Err ==> after == net
            &&& result matches Ok(bytes) ==> {
                &&& bytes + there.queue == before.queue
                &&& bytes.len() <= wanted
                &&& bytes.len() < wanted ==> there.queue.len() == 0
                &&& there.closed == before.closed
            }
            &&& after.streams.len() == net.streams.len() && after.streams[other]
                == net.streams[other]
            &&& after.listeners == net.listeners && after.udp == net.udp && after.backlogs
                == net.backlogs && after.queues == net.queues
        }),
{
    let before = net.streams[connection.rx as int];
    let (after, result) = received(net, connection, wanted);
    if let Ok(bytes) = result {
        assert(bytes + after.streams[connection.rx as int].queue =~= before.queue);
    }
}

/// Connecting to a port on which someone listens makes two new directions, empty and open,
/// and the far end waits behind those that wait there already. No other connection and no
/// other listener notices.
pub proof fn law_connect_waits_in_line(net: Net, remote: SocketAddress, other: int)
    requires
        net.wf(),
        net.has_free_port(),
        net.streams.len() + 2 <= usize::MAX,
        loopback_address(remote.address),
        net.listeners.contains_key(remote.port),
        0 <= other < net.backlogs.len(),
        other != net.listeners[remote.port],
    ensures
        ({
            let place = net.listeners[remote.port] as int;
            let (after, result) = connected(net, remote);
            &&& result matches Ok(near)
            &&& after.backlogs[place].drop_last() == net.backlogs[place]
            &&& after.backlogs[place].len() == net.backlogs[place].len() + 1
            &&& after.backlogs[place].last().rx == near.tx && after.backlogs[place].last().tx
                == near.rx
            &&& after.backlogs[other] == net.backlogs[other] && after.backlogs.len()
                == net.backlogs.len()
            &&& near.rx >= net.streams.len() && near.tx >= net.streams.len() && near.rx != near.tx
            &&& after.streams.len() == net.streams.len() + 2
            &&& near.rx < after.streams.len() && near.tx < after.streams.len()
            &&& after.streams[near.rx as int].queue.len() == 0
                && !after.streams[near.rx as int].closed
            &&& after.streams[near.tx as int].queue.len() == 0
                && !after.streams[near.tx as int].closed
            &&& forall|i: int|
                0 <= i < net.streams.len() ==> #[trigger] after.streams[i] == net.streams[i]
            &&& after.listeners == net.listeners && after.udp == net.udp && after.queues
                == net.queues
            &&& near.peer.port == remote.port
        }),
{
    let place = net.listeners[remote.port] as int;
    let after = connected(net, remote).0;
    assert(after.backlogs[place].drop_last() =~= net.backlogs[place]);
}

/// Accepting takes the connection that has waited longest; the others wait on in their
/// order. Where none waits nothing changes, and that is said.
pub proof fn law_accept_takes_the_longest_waiting(net: Net, listener: Listener, other: int)
    requires
        listener.backlog < net.backlogs.len(),
        0 <= other < net.backlogs.len(),
        other != listener.backlog,
    ensures
        ({
            let waiting = net.backlogs[listener.backlog as int];
            let (after, result) = accepted(net, listener);
            &&& result is Err <==> waiting.len() == 0
            &&& result is Err ==> after == net
            &&& result matches Ok((connection, from)) ==> {
                &&& seq![connection] + after.backlogs[listener.backlog as int] == waiting
                &&& from == connection.peer
            }
            &&& after.backlogs[other] == net.backlogs[other]
            &&& after.streams == net.streams && after.listeners == net.listeners && after.udp
                == net.udp && after.queues == net.queues
        }),
{
    let waiting = net.backlogs[listener.backlog as int];
    if waiting.len() > 0 {
        assert(seq![waiting[0]] + waiting.drop_first() =~= waiting);
    }
}

/// Listening succeeds exactly on an address that can be bound and a port on which nobody
/// listens; then someone does, with nobody waiting, and nothing else has changed. The port is
/// the one that was asked for.
pub proof fn law_listen_takes_the_port(net: Net, local: SocketAddress, other: u16)
    requires
        net.wf(),
        local.port == 0 ==> net.has_free_port(),
        net.backlogs.len() <= usize::MAX,
    ensures
        ({
            let (after, result) = listening(net, local);
            &&& result is Ok <==> bindable_address(local.address) && (local.port == 0
                || !net.listeners.contains_key(local.port))
            &&& result is Err && bindable_address(local.address) ==> result->Err_0 is AddressInUse
            &&& result is Err && !bindable_address(local.address) ==> result->Err_0
                is AddressUnavailable
            &&& result is Err ==> after.listeners == net.listeners && after.backlogs == net.backlogs
            &&& result matches Ok(listener) ==> {
                let port = listener.local.port;
                &&& local.port != 0 ==> port == local.port
                &&& !net.listeners.contains_key(port) && after.listeners.contains_key(port)
                &&& after.listeners[port] == listener.backlog
                &&& listener.backlog == net.backlogs.len()
                &&& after.backlogs == net.backlogs.push(Seq::empty())
                &&& other != port ==> after.listeners.contains_key(other)
                    == net.listeners.contains_key(other)
                &&& other != port && net.listeners.contains_key(other) ==> after.listeners[other]
                    == net.listeners[other]
                &&& loopback_address(listener.local.address)
            }
            &&& after.streams == net.streams && after.udp == net.udp && after.queues == net.queues
        }),
{
    if local.port == 0 {
        law_handed_out_is_free(net);
    }
}

/// Binding a datagram socket succeeds exactly on an address that can be bound and a port to
/// which none is bound; then one is, with nothing waiting, and nothing else has changed.
pub proof fn law_bind_takes_the_port(net: Net, local: SocketAddress, other: u16)
    requires
        net.wf(),
        local.port == 0 ==> net.has_free_port(),
        net.queues.len() <= usize::MAX,
    ensures
        ({
            let (after, result) = bound_udp(net, local);
            &&& result is Ok <==> bindable_address(local.address) && (local.port == 0
                || !net.udp.contains_key(local.port))
            &&& result is Err && bindable_address(local.address) ==> result->Err_0 is AddressInUse
            &&& result is Err && !bindable_address(local.address) ==> result->Err_0
                is AddressUnavailable
            &&& result is Err ==> after.udp == net.udp && after.queues == net.queues
            &&& result matches Ok(socket) ==> {
                let port = socket.local.port;
                &&& local.port != 0 ==> port == local.port
                &&& !net.udp.contains_key(port) && after.udp.contains_key(port)
                &&& after.udp[port] == socket.queue
                &&& socket.queue == net.queues.len()
                &&& after.queues == net.queues.push(Seq::empty())
                &&& other != port ==> after.udp.contains_key(other) == net.udp.contains_key(other)
                &&& other != port && net.udp.contains_key(other) ==> after.udp[other]
                    == net.udp[other]
                &&& loopback_address(socket.local.address)
            }
            &&& after.streams == net.streams && after.listeners == net.listeners && after.backlogs
                == net.backlogs
        }),
{
    if local.port == 0 {
        law_handed_out_is_free(net);
    }
}

/// A datagram joins the queue of the socket that is bound to the port, behind those that
/// wait, whole and with the address of its sender; where none is bound it is refused, and
/// nothing changes.
pub proof fn law_datagram_joins_the_queue(
    net: Net,
    socket: UdpSocket,
    remote: SocketAddress,
    payload: Seq<u8>,
    other: int,
)
    requires
        net.wf(),
        payload.len() <= u64::MAX,
        0 <= other < net.queues.len(),
    ensures
        ({
            let (after, result) = sent_to(net, socket, remote, payload);
            let place = net.udp[remote.port] as int;
            &&& result is Ok <==> loopback_address(remote.address) && net.udp.contains_key(
                remote.port,
            )
            &&& result is Err ==> after == net
            &&& result matches Ok(count) ==> {
                let queue = after.queues[place];
                &&& count == payload.len()
                &&& queue.len() == net.queues[place].len() + 1
                &&& queue.drop_last() == net.queues[place]
                &&& queue.last().payload == payload && queue.last().from == socket.local
                &&& other != place ==> after.queues[other] == net.queues[other]
            }
            &&& after.streams == net.streams && after.backlogs == net.backlogs && after.udp
                == net.udp && after.listeners == net.listeners
        }),
{
    if net.udp.contains_key(remote.port) {
        let place = net.udp[remote.port] as int;
        let message = Message { from: socket.local, payload };
        assert(net.queues[place].push(message).drop_last() =~= net.queues[place]);
    }
}

/// Receiving a datagram takes the one that came first, as far as the buffer goes, with the
/// address of its sender; the others wait on in their order.
pub proof fn law_datagrams_come_in_order(net: Net, socket: UdpSocket, wanted: nat, other: int)
    requires
        socket.queue < net.queues.len(),
        0 <= other < net.queues.len(),
        other != socket.queue,
    ensures
        ({
            let waiting = net.queues[socket.queue as int];
            let (after, result) = received_from(net, socket, wanted);
            &&& result is Err <==> waiting.len() == 0
            &&& result is Err ==> after == net
            &&& result matches Ok((bytes, from)) ==> {
                &&& seq![waiting[0]] + after.queues[socket.queue as int] == waiting
                &&& from == waiting[0].from
                &&& bytes.is_prefix_of(waiting[0].payload) && bytes.len() <= wanted
                &&& bytes.len() < wanted ==> bytes == waiting[0].payload
            }
            &&& after.queues[other] == net.queues[other]
            &&& after.streams == net.streams && after.backlogs == net.backlogs && after.udp
                == net.udp && after.listeners == net.listeners
        }),
{
    let waiting = net.queues[socket.queue as int];
    if waiting.len() > 0 {
        assert(seq![waiting[0]] + waiting.drop_first() =~= waiting);
        let payload = waiting[0].payload;
        let bytes = payload.take(lesser(wanted, payload.len()) as int);
        assert(payload.subrange(0, bytes.len() as int) =~= bytes);
    }
}

/// When an end is gone, both directions of its connection are closed, what was sent in them
/// still waits, and no other connection notices.
pub proof fn law_hang_up_closes_both_ways(net: Net, gone: Connection, other: int)
    requires
        gone.rx < net.streams.len(),
        gone.tx < net.streams.len(),
        0 <= other < net.streams.len(),
    ensures
        ({
            let after = hung_up(net, gone);
            &&& after.streams.len() == net.streams.len()
            &&& after.streams[other].queue == net.streams[other].queue
            &&& other == gone.rx || other == gone.tx ==> after.streams[other].closed
            &&& other != gone.rx && other != gone.tx ==> after.streams[other].closed
                == net.streams[other].closed
            &&& after.listeners == net.listeners && after.udp == net.udp && after.backlogs
                == net.backlogs && after.queues == net.queues
        }),
{
}

/// When a listener is gone, its port is free, whoever waited there is hung up on, and nobody
/// else notices.
pub proof fn law_listener_leaves_its_port(net: Net, listener: Listener, port: u16, other: int)
    requires
        net.wf(),
        net.linked(),
        listener.backlog < net.backlogs.len(),
        0 <= other < net.streams.len(),
    ensures
        ({
            let after = unlistened(net, listener);
            let waiting = net.backlogs[listener.backlog as int];
            let met = exists|i: int|
                0 <= i < waiting.len() && ((#[trigger] waiting[i]).rx == other || waiting[i].tx
                    == other);
            &&& after.listeners.contains_key(port) <==> net.listeners.contains_key(port) && port
                != listener.local.port
            &&& after.listeners.contains_key(port) ==> after.listeners[port] == net.listeners[port]
            &&& after.backlogs[listener.backlog as int].len() == 0
            &&& after.streams.len() == net.streams.len()
            &&& after.streams[other].queue == net.streams[other].queue
            &&& after.streams[other].closed == (net.streams[other].closed || met)
            &&& after.udp == net.udp && after.queues == net.queues
        }),
{
    let waiting = net.backlogs[listener.backlog as int];
    let freed = Net { listeners: net.listeners.remove(listener.local.port), ..net };
    assert forall|i: int| 0 <= i < waiting.len() implies (#[trigger] waiting[i]).rx
        < freed.streams.len() && waiting[i].tx < freed.streams.len() by {
        assert(net.backlogs[listener.backlog as int][i].rx < net.streams.len());
    }
    lemma_all_hung_up(freed, waiting, other);
}

proof fn lemma_all_hung_up(net: Net, gone: Seq<Connection>, other: int)
    requires
        0 <= other < net.streams.len(),
        forall|i: int|
            0 <= i < gone.len() ==> (#[trigger] gone[i]).rx < net.streams.len() && gone[i].tx
                < net.streams.len(),
    ensures
        ({
            let after = hung_up_all(net, gone);
            let met = exists|i: int|
                0 <= i < gone.len() && ((#[trigger] gone[i]).rx == other || gone[i].tx == other);
            &&& after.streams.len() == net.streams.len()
            &&& after.streams[other].queue == net.streams[other].queue
            &&& after.streams[other].closed == (net.streams[other].closed || met)
            &&& after.listeners == net.listeners && after.udp == net.udp && after.queues
                == net.queues && after.backlogs == net.backlogs
        }),
    decreases gone.len(),
{
    if gone.len() > 0 {
        let fewer = gone.drop_last();
        assert forall|i: int| 0 <= i < fewer.len() implies (#[trigger] fewer[i]).rx
            < net.streams.len() && fewer[i].tx < net.streams.len() by {
            assert(gone[i].rx < net.streams.len());
        }
        lemma_all_hung_up(net, fewer, other);
        let before = hung_up_all(net, fewer);
        let last = gone.last();
        assert(gone[gone.len() - 1] == last);
        law_hang_up_closes_both_ways(before, last, other);
        if exists|i: int|
            0 <= i < fewer.len() && ((#[trigger] fewer[i]).rx == other || fewer[i].tx == other) {
            let i = choose|i: int|
                0 <= i < fewer.len() && ((#[trigger] fewer[i]).rx == other || fewer[i].tx == other);
            assert(gone[i] == fewer[i]);
        }
        if exists|i: int|
            0 <= i < gone.len() && ((#[trigger] gone[i]).rx == other || gone[i].tx == other) {
            let i = choose|i: int|
                0 <= i < gone.len() && ((#[trigger] gone[i]).rx == other || gone[i].tx == other);
            if i < fewer.len() {
                assert(fewer[i] == gone[i]);
            }
        }
    }
}

/// The addresses that are reachable are those of the machine itself: the whole network of
/// 127 and the one of the newer family; those and the addresses that stand for any can be
/// bound.
pub proof fn law_loopback_addresses(a: u8, b: u8, c: u8, d: u8, port: u16)
    ensures
        loopback_address(IpAddress::V4(a, b, c, d)) <==> a == 127,
        loopback_address(IpAddress::V6(0, 0, 0, 0, 0, 0, 0, 1)),
        !loopback_address(IpAddress::V6(0, 0, 0, 0, 0, 0, 0, 0)),
        bindable_address(IpAddress::V4(a, b, c, d)) <==> a == 127 || a == 0 && b == 0 && c == 0 && d
            == 0,
        bindable_address(IpAddress::V6(0, 0, 0, 0, 0, 0, 0, 0)),
        canonical_address(IpAddress::V4(a, b, c, d), port).address == IpAddress::V4(127, 0, 0, 1),
        canonical_address(IpAddress::V4(a, b, c, d), port).port == port,
{
}

/// A port is left to hand out exactly while one from 49152 on is in use by neither protocol.
pub proof fn law_port_is_left(net: Net, port: u16)
    ensures
        port >= 49152 && !net.listeners.contains_key(port) && !net.udp.contains_key(port)
            ==> net.has_free_port(),
        (forall|p: u16| p >= 49152 ==> #[trigger] net.bound(p)) ==> !net.has_free_port(),
        net.bound(port) <==> net.listeners.contains_key(port) || net.udp.contains_key(port),
{
    if port >= 49152 && !net.bound(port) {
        assert(FIRST_EPHEMERAL <= port && !net.bound(port));
    }
}

} // verus!
