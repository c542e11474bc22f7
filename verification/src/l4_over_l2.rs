//! `net.l4.over-l2`: transport sockets over a link, with the TCP/IP engine in between.
//!
//! Here are the state of the stack and what each operation does to it. How the frames
//! get to the link and back, and how an operation waits, stands in [`crate::l4_wait`].
use std::collections::VecDeque;

use smoltcp::iface::{Interface, SocketHandle, SocketSet};

use vstd::prelude::*;
use vstd::std_specs::vecdeque::VecDequeAdditionalSpecFns;
use vstd::string::*;

use crate::l4::{L4Error, L4Failure, SocketAddress};
use crate::l4_addressing::{local_address_with, local_of, Addressing};
use crate::stack::{
    add_dhcp, add_tcp, add_udp, addresses, assignable, clear_gateway, closed_state, default_routes,
    dhcp_poll, empty_set, frame_size, fresh_tcp, fresh_udp, gateway, handed, has_dhcp, has_tcp,
    has_udp, lease_duration, lease_seconds, no_sockets, other_routes, remove, routed, routes_set,
    set_addresses, set_gateway, table, takes, tcp_abort, tcp_close, tcp_connect, tcp_listen,
    tcp_state, udp_bind, udp_bound, udp_close, udp_ports, udp_send, udp_unsent, used_from,
    DatagramError, Held, Ipv4, Lease, LeaseEvent, LeaseNews, LeaseView, OpenError, Parcel, TcpHeld,
    TcpState, UdpHeld, SMALLEST_FRAME,
};
use crate::text::{decimal, push_decimal};

verus! {

/// The sockets that may be there at once.
pub const MAX_SOCKETS: usize = 16;

/// The size of a TCP buffer, in each direction.
pub const TCP_BUFFER_BYTES: usize = 16384;

/// The largest datagram.
pub const UDP_PACKET_BYTES: usize = 1536;

/// The datagrams that a socket holds, in each direction.
pub const UDP_RX_PACKETS: usize = 8;

pub const UDP_TX_PACKETS: usize = 4;

/// The first of the ports that are handed out.
pub const FIRST_EPHEMERAL: u16 = 49152;

/// The stack.
pub struct NetState {
    pub iface: Interface,
    pub sockets: SocketSet<'static>,
    /// Frames that came from the link, and frames that go to it.
    pub rx: VecDeque<Vec<u8>>,
    pub tx: VecDeque<Vec<u8>>,
    pub mtu: usize,
    /// The port that is handed out next.
    pub ephemeral: u16,
    /// Sockets that nobody holds and that still close.
    pub closing: Vec<SocketHandle>,
    /// How many sockets are held.
    pub live: usize,
    /// The ports that listeners hold.
    pub listening_ports: Vec<u16>,
    /// The lease client, where a lease is wanted.
    pub dhcp: Option<SocketHandle>,
    /// The address of the link and its prefix length.
    pub bound: Option<(Ipv4, u8)>,
    /// The name servers that the lease told of.
    pub dns: Vec<Ipv4>,
}

/// The stack, over contents.
#[verifier::ext_equal]
pub struct NetView {
    pub table: Map<SocketHandle, Held>,
    pub addresses: Seq<(Ipv4, u8)>,
    pub gateway: Option<Ipv4>,
    pub other_routes: nat,
    pub default_routes: nat,
    pub frame_size: nat,
    pub rx: Seq<Seq<u8>>,
    pub tx: Seq<Seq<u8>>,
    pub mtu: usize,
    pub ephemeral: u16,
    pub closing: Seq<SocketHandle>,
    pub live: usize,
    pub listening_ports: Seq<u16>,
    pub dhcp: Option<SocketHandle>,
    pub bound: Option<(Ipv4, u8)>,
    pub dns: Seq<Ipv4>,
}

/// The contents of a queue of frames.
pub open spec fn frames(queue: Seq<Vec<u8>>) -> Seq<Seq<u8>> {
    queue.map_values(|frame: Vec<u8>| frame@)
}

impl View for NetState {
    type V = NetView;

    open spec fn view(&self) -> NetView {
        NetView {
            table: table(self.sockets),
            addresses: addresses(self.iface),
            gateway: gateway(self.iface),
            other_routes: other_routes(self.iface),
            default_routes: default_routes(self.iface),
            frame_size: frame_size(self.iface),
            rx: frames(self.rx@),
            tx: frames(self.tx@),
            mtu: self.mtu,
            ephemeral: self.ephemeral,
            closing: self.closing@,
            live: self.live,
            listening_ports: self.listening_ports@,
            dhcp: self.dhcp,
            bound: self.bound,
            dns: self.dns@,
        }
    }
}

impl NetView {
    /// The next port is one to hand out, the sockets that close are distinct TCP sockets,
    /// the lease client is one, no more sockets are held than may be, and the interface has
    /// no more than one default route and frames that a segment fits in.
    pub open spec fn wf(self) -> bool {
        &&& self.ephemeral >= FIRST_EPHEMERAL
        &&& self.closing.no_duplicates()
        &&& forall|i: int|
            0 <= i < self.closing.len() ==> has_tcp(self.table, #[trigger] self.closing[i])
        &&& self.dhcp matches Some(handle) ==> has_dhcp(self.table, handle)
        &&& self.live <= MAX_SOCKETS
        &&& self.default_routes <= 1
        &&& self.frame_size >= SMALLEST_FRAME
    }
}

/// The port after a port, among those that are handed out.
pub open spec fn next_port(port: u16) -> u16 {
    if port == u16::MAX {
        FIRST_EPHEMERAL
    } else {
        (port + 1) as u16
    }
}

/// Whether a set holds a TCP socket that is closed under a handle.
pub open spec fn is_closed(table: Map<SocketHandle, Held>, handle: SocketHandle) -> bool {
    table[handle]->Tcp_0.state == TcpState::Closed
}

/// The stack without the sockets that nobody holds and that are closed.
pub open spec fn swept(net: NetView) -> NetView {
    NetView {
        table: net.table.remove_keys(
            Set::new(
                |handle: SocketHandle|
                    net.closing.contains(handle) && is_closed(net.table, handle),
            ),
        ),
        closing: net.closing.filter(|handle: SocketHandle| !is_closed(net.table, handle)),
        ..net
    }
}

/// What is said when there is no room for another socket.
pub open spec fn full() -> L4Failure {
    L4Failure::Io("socket table full (16 sockets)"@)
}

/// There is no room for another socket.
pub fn table_full() -> (error: L4Error)
    ensures
        error@ == full(),
{
    L4Error::Io(String::from_str("socket table full (16 sockets)"))
}

/// An engine error, in words.
pub open spec fn open_words(error: OpenError) -> Seq<char> {
    match error {
        OpenError::InvalidState => "InvalidState"@,
        OpenError::Unaddressable => "Unaddressable"@,
    }
}

fn refused(what: &str, error: OpenError) -> (failure: L4Error)
    ensures
        failure@ == L4Failure::Io(what@ + open_words(error)),
{
    let mut said = String::from_str(what);
    said.append(
        match error {
            OpenError::InvalidState => "InvalidState",
            OpenError::Unaddressable => "Unaddressable",
        },
    );
    L4Error::Io(said)
}

impl NetState {
    /// The stack over an interface of the engine. With fixed addressing the interface gets
    /// it; without, a lease client joins the sockets. The first port to hand out comes
    /// from the seed. An interface with several default routes, or with frames too small for
    /// a segment, is left out; the engine makes none with routes.
    pub fn new(
        iface: Interface,
        mtu: usize,
        seed: u64,
        addressing: Option<Addressing>,
    ) -> (net: NetState)
        requires
            addressing matches Some(fixed) ==> assignable(fixed.address) && fixed.prefix_len <= 32,
            default_routes(iface) <= 1,
            frame_size(iface) >= SMALLEST_FRAME,
        ensures
            net@.wf(),
            match addressing {
                Some(fixed) => {
                    &&& net@.table == no_sockets()
                    &&& net@.addresses == seq![(fixed.address, fixed.prefix_len)]
                    &&& net@.gateway == routed(other_routes(iface), fixed.gateway)
                    &&& net@.dhcp is None
                    &&& net@.bound == Some((fixed.address, fixed.prefix_len))
                },
                None => {
                    &&& net@.dhcp matches Some(handle)
                    &&& net@.table == no_sockets().insert(
                        handle,
                        Held::Dhcp(Some(LeaseNews::Lost)),
                    )
                    &&& net@.addresses == addresses(iface)
                    &&& net@.gateway == gateway(iface)
                    &&& net@.bound is None
                },
            },
            net@.other_routes == other_routes(iface),
            net@.default_routes == match addressing {
                Some(_) => routes_set(other_routes(iface), default_routes(iface)),
                None => default_routes(iface),
            },
            net@.frame_size == frame_size(iface),
            net@.rx.len() == 0,
            net@.tx.len() == 0,
            net@.mtu == mtu,
            net@.ephemeral == FIRST_EPHEMERAL + seed % 16000,
            net@.closing.len() == 0,
            net@.live == 0,
            net@.listening_ports.len() == 0,
            net@.dns.len() == 0,
    {
        let mut iface = iface;
        let mut sockets = empty_set();
        let mut bound: Option<(Ipv4, u8)> = None;
        let mut dhcp: Option<SocketHandle> = None;
        match addressing {
            Some(fixed) => {
                let mut list: Vec<(Ipv4, u8)> = Vec::new();
                list.push((fixed.address, fixed.prefix_len));
                set_addresses(&mut iface, &list);
                set_gateway(&mut iface, fixed.gateway);
                bound = Some((fixed.address, fixed.prefix_len));
                assert(list@ =~= seq![(fixed.address, fixed.prefix_len)]);
            },
            None => {
                dhcp = Some(add_dhcp(&mut sockets, UDP_PACKET_BYTES));
            },
        }
        NetState {
            iface,
            sockets,
            rx: VecDeque::new(),
            tx: VecDeque::new(),
            mtu,
            ephemeral: FIRST_EPHEMERAL + (seed % 16000) as u16,
            closing: Vec::new(),
            live: 0,
            listening_ports: Vec::new(),
            dhcp,
            bound,
            dns: Vec::new(),
        }
    }

    /// Hand a port out.
    pub fn ephemeral_port(&mut self) -> (port: u16)
        requires
            old(self)@.wf(),
        ensures
            port == old(self)@.ephemeral,
            final(self)@ == (NetView { ephemeral: next_port(port), ..old(self)@ }),
    {
        let port: u16 = self.ephemeral;
        self.ephemeral = if port == u16::MAX {
            FIRST_EPHEMERAL
        } else {
            port + 1
        };
        port
    }

    /// Forget the sockets that nobody holds and that are closed.
    pub fn sweep(&mut self)
        requires
            old(self)@.wf(),
        ensures
            final(self)@ == swept(old(self)@),
            final(self)@.wf(),
    {
        let mut handles: Vec<SocketHandle> = Vec::new();
        std::mem::swap(&mut self.closing, &mut handles);
        let ghost before = table(self.sockets);
        let ghost all = handles@;
        let ghost keeps = |handle: SocketHandle| !is_closed(before, handle);
        let mut at: usize = 0;
        assert(all.take(0).filter(keeps) =~= Seq::empty()) by {
            reveal(Seq::filter);
        }
        assert(before.remove_keys(
            Set::new(
                |handle: SocketHandle| all.take(0).contains(handle) && is_closed(before, handle),
            ),
        ) =~= before);
        while at < handles.len()
            invariant
                at <= handles.len(),
                handles@ == all,
                all == old(self)@.closing,
                all.no_duplicates(),
                before == old(self)@.table,
                keeps == (|handle: SocketHandle| !is_closed(before, handle)),
                old(self)@.wf(),
                self.closing@ == all.take(at as int).filter(keeps),
                self@ == (NetView {
                    table: before.remove_keys(
                        Set::new(
                            |handle: SocketHandle|
                                all.take(at as int).contains(handle) && is_closed(before, handle),
                        ),
                    ),
                    closing: all.take(at as int).filter(keeps),
                    ..old(self)@
                }),
            decreases handles.len() - at,
        {
            let handle = handles[at];
            proof {
                lemma_filter_step(all, at as int, keeps);
                assert(has_tcp(before, all[at as int]));
                assert forall|i: int| 0 <= i < at implies #[trigger] all.take(at as int)[i]
                    != handle by {
                    assert(all[i] != all[at as int]);
                }
                assert(has_tcp(table(self.sockets), handle));
                assert(table(self.sockets)[handle] == before[handle]);
                assert forall|other: SocketHandle|
                    all.take(at + 1).contains(other) == (all.take(at as int).contains(other)
                        || other == handle) by {
                    lemma_take_contains(all, at as int, other);
                }
            }
            if tcp_state(&self.sockets, handle) == TcpState::Closed {
                remove(&mut self.sockets, handle);
            } else {
                self.closing.push(handle);
            }
            at += 1;
            assert(self@.table =~= before.remove_keys(
                Set::new(
                    |handle: SocketHandle|
                        all.take(at as int).contains(handle) && is_closed(before, handle),
                ),
            ));
        }
        proof {
            assert(all.take(at as int) =~= all);
            assert(self@ =~= swept(old(self)@));
            lemma_swept_wf(old(self)@);
        }
    }
}

/// A TCP connection.
#[derive(Clone, Copy, Debug)]
pub struct Conn {
    pub handle: SocketHandle,
    pub peer: SocketAddress,
}

/// A listening socket: the engine's socket that takes the next connection, and the
/// address.
#[derive(Clone, Copy, Debug)]
pub struct Listener {
    pub handle: SocketHandle,
    pub local: SocketAddress,
}

/// A bound datagram socket.
#[derive(Clone, Copy, Debug)]
pub struct Udp {
    pub handle: SocketHandle,
    pub local: SocketAddress,
}

/// Whether the engine refuses to connect to an address from the stack.
pub open spec fn unaddressable(net: NetView, remote: Ipv4, port: u16) -> bool {
    port == 0 || remote == Ipv4(0, 0, 0, 0) || net.addresses.len() == 0
}

/// The port of a binding: the wanted one, or one that is handed out for zero.
pub open spec fn chosen(net: NetView, wanted: u16) -> (NetView, u16) {
    if wanted == 0 {
        (NetView { ephemeral: next_port(net.ephemeral), ..net }, net.ephemeral)
    } else {
        (net, wanted)
    }
}

/// A socket that nobody had joins the stack and is held.
pub open spec fn joined(net: NetView, handle: SocketHandle, held: Held) -> NetView {
    NetView { table: net.table.insert(handle, held), live: (net.live + 1) as usize, ..net }
}

/// One socket fewer is held.
pub open spec fn fewer(live: usize) -> usize {
    if live == 0 {
        0
    } else {
        (live - 1) as usize
    }
}

/// A socket leaves the stack.
pub open spec fn left(net: NetView, handle: SocketHandle) -> NetView {
    NetView { table: net.table.remove(handle), live: fewer(net.live), ..net }
}

impl NetState {
    fn choose_port(&mut self, wanted: u16) -> (port: u16)
        requires
            old(self)@.wf(),
        ensures
            (final(self)@, port) == chosen(old(self)@, wanted),
            final(self)@.wf(),
            port != 0,
    {
        if wanted == 0 {
            self.ephemeral_port()
        } else {
            wanted
        }
    }

    /// Start to connect: a new socket awaits the answer, from a port that is handed out.
    pub fn start_connect(&mut self, remote: Ipv4, port: u16) -> (result: Result<
        SocketHandle,
        L4Error,
    >)
        requires
            old(self)@.wf(),
        ensures
            final(self)@.wf(),
            ({
                let before = swept(old(self)@);
                let drawn = NetView { ephemeral: next_port(before.ephemeral), ..before };
                match result {
                    Ok(handle) => {
                        &&& before.live < MAX_SOCKETS
                        &&& !unaddressable(before, remote, port)
                        &&& !before.table.contains_key(handle)
                        &&& final(self)@ == joined(
                            drawn,
                            handle,
                            Held::Tcp(
                                TcpHeld {
                                    state: TcpState::SynSent,
                                    remote: Some(SocketAddress { address: remote.ip(), port }),
                                    ..fresh_tcp(TCP_BUFFER_BYTES as nat)
                                },
                            ),
                        )
                    },
                    Err(error) => if before.live >= MAX_SOCKETS {
                        &&& error@ == full()
                        &&& final(self)@ == before
                    } else {
                        &&& unaddressable(before, remote, port)
                        &&& error@ == L4Failure::Io("connect: "@ + "Unaddressable"@)
                        &&& final(self)@ == drawn
                    },
                }
            }),
    {
        self.sweep();
        if self.live >= MAX_SOCKETS {
            return Err(table_full());
        }
        let ghost before = self@;
        let local_port: u16 = self.ephemeral_port();
        let ghost drawn = self@;
        let handle = add_tcp(&mut self.sockets, TCP_BUFFER_BYTES, TCP_BUFFER_BYTES);
        match tcp_connect(&mut self.iface, &mut self.sockets, handle, remote, port, local_port) {
            Ok(()) => {
                self.live += 1;
                proof {
                    lemma_join_keeps_wf(
                        drawn,
                        handle,
                        Held::Tcp(
                            TcpHeld {
                                state: TcpState::SynSent,
                                remote: Some(SocketAddress { address: remote.ip(), port }),
                                ..fresh_tcp(TCP_BUFFER_BYTES as nat)
                            },
                        ),
                    );
                    assert(self@.table =~= joined(
                        drawn,
                        handle,
                        Held::Tcp(
                            TcpHeld {
                                state: TcpState::SynSent,
                                remote: Some(SocketAddress { address: remote.ip(), port }),
                                ..fresh_tcp(TCP_BUFFER_BYTES as nat)
                            },
                        ),
                    ).table);
                }
                Ok(handle)
            },
            Err(error) => {
                remove(&mut self.sockets, handle);
                assert(self@.table =~= drawn.table);
                Err(refused("connect: ", error))
            },
        }
    }

    /// A connection that did not come about is dropped.
    pub fn cancel_connect(&mut self, handle: SocketHandle)
        requires
            old(self)@.wf(),
            has_tcp(old(self)@.table, handle),
            !old(self)@.closing.contains(handle),
        ensures
            final(self)@.wf(),
            final(self)@ == left(old(self)@, handle),
    {
        tcp_abort(&mut self.sockets, handle);
        remove(&mut self.sockets, handle);
        if self.live > 0 {
            self.live -= 1;
        }
        assert(self@.table =~= old(self)@.table.remove(handle));
        proof {
            lemma_left_wf(old(self)@, handle);
        }
    }

    /// Start to listen on a port; zero asks for one that is handed out.
    pub fn listen(&mut self, wanted: u16) -> (result: Result<Listener, L4Error>)
        requires
            old(self)@.wf(),
        ensures
            final(self)@.wf(),
            ({
                let before = swept(old(self)@);
                let (drawn, port) = chosen(before, wanted);
                match result {
                    Ok(listener) => {
                        &&& before.live < MAX_SOCKETS
                        &&& !before.listening_ports.contains(port)
                        &&& !before.table.contains_key(listener.handle)
                        &&& listener.local == local_of(before.bound, port)
                        &&& final(self)@ == joined(
                            NetView {
                                listening_ports: before.listening_ports.push(port),
                                ..drawn
                            },
                            listener.handle,
                            Held::Tcp(listening(port)),
                        )
                    },
                    Err(error) => if before.live >= MAX_SOCKETS {
                        &&& error@ == full()
                        &&& final(self)@ == before
                    } else {
                        &&& before.listening_ports.contains(port)
                        &&& error@ == L4Failure::AddressInUse
                        &&& final(self)@ == drawn
                    },
                }
            }),
    {
        self.sweep();
        if self.live >= MAX_SOCKETS {
            return Err(table_full());
        }
        let port: u16 = self.choose_port(wanted);
        if holds_port(&self.listening_ports, port) {
            return Err(L4Error::AddressInUse);
        }
        let ghost drawn = self@;
        let handle = add_tcp(&mut self.sockets, TCP_BUFFER_BYTES, TCP_BUFFER_BYTES);
        if let Err(error) = tcp_listen(&mut self.sockets, handle, port) {
            return Err(refused("listen: ", error));
        }
        self.live += 1;
        self.listening_ports.push(port);
        proof {
            lemma_join_keeps_wf(drawn, handle, Held::Tcp(listening(port)));
            assert(self@.table =~= drawn.table.insert(handle, Held::Tcp(listening(port))));
        }
        Ok(Listener { handle, local: local_address_with(&self.bound, port) })
    }

    /// The connection that a listener waited for is there: its socket becomes the
    /// connection, and a new one takes over listening. Gives the connection and the
    /// address at its other end. The new socket counts like any other: while as many
    /// sockets as there may be are held, the connection is not taken over, the listener
    /// stays as it is, and the answer is that the limit of sockets is reached.
    pub fn take_over(&mut self, listener: &mut Listener, peer: Option<SocketAddress>) -> (result:
        Result<(Conn, SocketAddress), L4Error>)
        requires
            old(self)@.wf(),
        ensures
            final(self)@.wf(),
            final(listener).local == old(listener).local,
            match result {
                Ok((conn, from)) => {
                    &&& old(self)@.live < MAX_SOCKETS
                    &&& old(listener).local.port != 0
                    &&& conn.handle == old(listener).handle
                    &&& conn.peer == from
                    &&& from == match peer {
                        Some(peer) => peer,
                        None => local_of(old(self)@.bound, 0),
                    }
                    &&& !old(self)@.table.contains_key(final(listener).handle)
                    &&& final(self)@ == joined(
                        old(self)@,
                        final(listener).handle,
                        Held::Tcp(listening(old(listener).local.port)),
                    )
                },
                Err(error) => {
                    &&& final(listener).handle == old(listener).handle
                    &&& final(self)@ == old(self)@
                    &&& if old(self)@.live >= MAX_SOCKETS {
                        error@ == full()
                    } else {
                        &&& old(listener).local.port == 0
                        &&& error@ == L4Failure::Io("listen: "@ + "Unaddressable"@)
                    }
                },
            },
    {
        if self.live >= MAX_SOCKETS {
            return Err(table_full());
        }
        let port: u16 = listener.local.port;
        let handle = add_tcp(&mut self.sockets, TCP_BUFFER_BYTES, TCP_BUFFER_BYTES);
        if let Err(error) = tcp_listen(&mut self.sockets, handle, port) {
            remove(&mut self.sockets, handle);
            assert(self@.table =~= old(self)@.table);
            return Err(refused("listen: ", error));
        }
        self.live += 1;
        proof {
            lemma_join_keeps_wf(old(self)@, handle, Held::Tcp(listening(port)));
            assert(self@.table =~= old(self)@.table.insert(handle, Held::Tcp(listening(port))));
        }
        let taken = listener.handle;
        listener.handle = handle;
        let from = match peer {
            Some(peer) => peer,
            None => local_address_with(&self.bound, 0),
        };
        Ok((Conn { handle: taken, peer: from }, from))
    }

    /// Bind a datagram socket to a port; zero asks for one that is handed out.
    pub fn bind_udp(&mut self, wanted: u16) -> (result: Result<Udp, L4Error>)
        requires
            old(self)@.wf(),
        ensures
            final(self)@.wf(),
            ({
                let before = swept(old(self)@);
                let (drawn, port) = chosen(before, wanted);
                match result {
                    Ok(socket) => {
                        &&& before.live < MAX_SOCKETS
                        &&& !udp_bound(before.table, port)
                        &&& !before.table.contains_key(socket.handle)
                        &&& socket.local == local_of(before.bound, port)
                        &&& final(self)@ == joined(
                            drawn,
                            socket.handle,
                            Held::Udp(bound_udp(port)),
                        )
                    },
                    Err(error) => if before.live >= MAX_SOCKETS {
                        &&& error@ == full()
                        &&& final(self)@ == before
                    } else {
                        &&& udp_bound(before.table, port)
                        &&& error@ == L4Failure::AddressInUse
                        &&& final(self)@ == drawn
                    },
                }
            }),
    {
        self.sweep();
        if self.live >= MAX_SOCKETS {
            return Err(table_full());
        }
        let port: u16 = self.choose_port(wanted);
        let ports = udp_ports(&self.sockets);
        if holds_some_port(&ports, port) {
            return Err(L4Error::AddressInUse);
        }
        let ghost drawn = self@;
        let handle = add_udp(&mut self.sockets, UDP_RX_PACKETS, UDP_TX_PACKETS, UDP_PACKET_BYTES);
        if let Err(error) = udp_bind(&mut self.sockets, handle, port) {
            return Err(refused("bind: ", error));
        }
        self.live += 1;
        proof {
            lemma_join_keeps_wf(drawn, handle, Held::Udp(bound_udp(port)));
            assert(self@.table =~= drawn.table.insert(
                handle,
                Held::Udp(bound_udp(port)),
            ));
        }
        Ok(Udp { handle, local: local_address_with(&self.bound, port) })
    }

    /// Queue a datagram, as far as the queue of the socket has room for it.
    pub fn queue_datagram(
        &mut self,
        socket: &Udp,
        remote: Ipv4,
        port: u16,
        payload: &Vec<u8>,
    ) -> (result: Result<(), L4Error>)
        requires
            old(self)@.wf(),
            has_udp(old(self)@.table, socket.handle),
        ensures
            final(self)@.wf(),
            ({
                let held = old(self)@.table[socket.handle]->Udp_0;
                let parcel = Parcel {
                    peer: SocketAddress { address: remote.ip(), port },
                    payload: payload@,
                };
                if held.port == 0 || remote == Ipv4(0, 0, 0, 0) || port == 0 {
                    &&& result matches Err(error) && error@ == L4Failure::Unreachable
                    &&& final(self)@ == old(self)@
                } else {
                    &&& result is Ok == takes(held, payload@.len())
                    &&& result matches Err(error) ==> error@ == L4Failure::Io(
                        "udp send queue full"@,
                    )
                    &&& final(self)@ == (NetView {
                        table: old(self)@.table.insert(
                            socket.handle,
                            Held::Udp(handed(held, parcel)),
                        ),
                        ..old(self)@
                    })
                }
            }),
    {
        let outcome = udp_send(&mut self.sockets, socket.handle, payload.as_slice(), remote, port);
        queued(outcome)
    }

    /// Whether nothing waits to be sent, neither frames nor datagrams of a socket.
    pub fn drained(&self, socket: &Udp) -> (yes: bool)
        requires
            has_udp(self@.table, socket.handle),
        ensures
            yes == (self@.tx.len() == 0 && self@.table[socket.handle]->Udp_0.unsent == 0),
    {
        self.tx.len() == 0 && udp_unsent(&self.sockets, socket.handle) == 0
    }

    /// A connection is let go: its socket closes, and is forgotten when it is closed.
    pub fn close_connection(&mut self, conn: &Conn)
        requires
            old(self)@.wf(),
            has_tcp(old(self)@.table, conn.handle),
            !old(self)@.closing.contains(conn.handle),
        ensures
            final(self)@.wf(),
            ({
                let held = old(self)@.table[conn.handle]->Tcp_0;
                final(self)@ == (NetView {
                    table: old(self)@.table.insert(
                        conn.handle,
                        Held::Tcp(TcpHeld { state: closed_state(held.state), ..held }),
                    ),
                    closing: old(self)@.closing.push(conn.handle),
                    live: fewer(old(self)@.live),
                    ..old(self)@
                })
            }),
    {
        tcp_close(&mut self.sockets, conn.handle);
        self.closing.push(conn.handle);
        if self.live > 0 {
            self.live -= 1;
        }
        proof {
            let closing = self@.closing;
            assert forall|i: int, j: int|
                0 <= i < closing.len() && 0 <= j < closing.len() && i != j implies closing[i]
                != closing[j] by {
                if i < closing.len() - 1 {
                    assert(old(self)@.closing.contains(closing[i]));
                }
                if j < closing.len() - 1 {
                    assert(old(self)@.closing.contains(closing[j]));
                }
            }
            assert forall|i: int| 0 <= i < closing.len() implies has_tcp(
                self@.table,
                #[trigger] closing[i],
            ) by {
                if i < closing.len() - 1 {
                    assert(has_tcp(old(self)@.table, old(self)@.closing[i]));
                }
            }
        }
    }

    /// A listener is let go: its socket and its port are free at once.
    pub fn close_listener(&mut self, listener: &Listener)
        requires
            old(self)@.wf(),
            has_tcp(old(self)@.table, listener.handle),
            !old(self)@.closing.contains(listener.handle),
        ensures
            final(self)@.wf(),
            final(self)@ == (NetView {
                listening_ports: old(self)@.listening_ports.filter(
                    |port: u16| port != listener.local.port,
                ),
                ..left(old(self)@, listener.handle)
            }),
    {
        tcp_abort(&mut self.sockets, listener.handle);
        remove(&mut self.sockets, listener.handle);
        if self.live > 0 {
            self.live -= 1;
        }
        let mut kept: Vec<u16> = Vec::new();
        let mut at: usize = 0;
        let ghost keeps = |port: u16| port != listener.local.port;
        assert(self.listening_ports@.take(0).filter(keeps) =~= Seq::empty()) by {
            reveal(Seq::filter);
        }
        while at < self.listening_ports.len()
            invariant
                at <= self.listening_ports.len(),
                keeps == (|port: u16| port != listener.local.port),
                kept@ == self.listening_ports@.take(at as int).filter(keeps),
            decreases self.listening_ports.len() - at,
        {
            proof {
                reveal(Seq::filter);
                assert(self.listening_ports@.take(at + 1).drop_last()
                    =~= self.listening_ports@.take(at as int));
            }
            if self.listening_ports[at] != listener.local.port {
                kept.push(self.listening_ports[at]);
            }
            at += 1;
        }
        assert(self.listening_ports@.take(at as int) =~= self.listening_ports@);
        self.listening_ports = kept;
        assert(self@.table =~= old(self)@.table.remove(listener.handle));
        proof {
            lemma_left_wf(old(self)@, listener.handle);
        }
    }

    /// A datagram socket is let go.
    pub fn close_udp(&mut self, socket: &Udp)
        requires
            old(self)@.wf(),
            has_udp(old(self)@.table, socket.handle),
        ensures
            final(self)@.wf(),
            final(self)@ == left(old(self)@, socket.handle),
    {
        udp_close(&mut self.sockets, socket.handle);
        remove(&mut self.sockets, socket.handle);
        if self.live > 0 {
            self.live -= 1;
        }
        assert(self@.table =~= old(self)@.table.remove(socket.handle));
        proof {
            if old(self)@.closing.contains(socket.handle) {
                let closing = old(self)@.closing;
                let i = choose|i: int| 0 <= i < closing.len() && closing[i] == socket.handle;
                assert(has_tcp(old(self)@.table, closing[i]));
            }
            lemma_left_wf(old(self)@, socket.handle);
        }
    }
}

/// A socket that listens on a port.
pub open spec fn listening(port: u16) -> TcpHeld {
    TcpHeld { state: TcpState::Listen, port, ..fresh_tcp(TCP_BUFFER_BYTES as nat) }
}

/// A datagram socket that is bound to a port.
pub open spec fn bound_udp(port: u16) -> UdpHeld {
    UdpHeld {
        port,
        ..fresh_udp(UDP_TX_PACKETS as nat, (UDP_TX_PACKETS * UDP_PACKET_BYTES) as nat)
    }
}

/// What it comes to that the engine queued a datagram, or did not.
pub fn queued(outcome: Result<(), DatagramError>) -> (result: Result<(), L4Error>)
    ensures
        match outcome {
            Ok(()) => result is Ok,
            Err(DatagramError::BufferFull) => result matches Err(error) && error@ == L4Failure::Io(
                "udp send queue full"@,
            ),
            Err(DatagramError::Unaddressable) => result matches Err(error) && error@
                == L4Failure::Unreachable,
        },
{
    match outcome {
        Ok(()) => Ok(()),
        Err(DatagramError::BufferFull) => Err(
            L4Error::Io(String::from_str("udp send queue full")),
        ),
        Err(DatagramError::Unaddressable) => Err(L4Error::Unreachable),
    }
}

/// Whether a datagram is short enough to be sent.
pub fn check_datagram(length: usize) -> (result: Result<(), L4Error>)
    ensures
        match result {
            Ok(()) => length <= UDP_PACKET_BYTES,
            Err(error) => length > UDP_PACKET_BYTES && error@ == L4Failure::MessageTooLarge,
        },
{
    if length > UDP_PACKET_BYTES {
        Err(L4Error::MessageTooLarge)
    } else {
        Ok(())
    }
}

fn holds_port(ports: &Vec<u16>, port: u16) -> (yes: bool)
    ensures
        yes == ports@.contains(port),
{
    let mut at: usize = 0;
    while at < ports.len()
        invariant
            at <= ports.len(),
            forall|i: int| 0 <= i < at ==> ports@[i] != port,
        decreases ports.len() - at,
    {
        if ports[at] == port {
            return true;
        }
        at += 1;
    }
    false
}

fn holds_some_port(ports: &Vec<Option<u16>>, port: u16) -> (yes: bool)
    ensures
        yes == ports@.contains(Some(port)),
{
    let mut at: usize = 0;
    while at < ports.len()
        invariant
            at <= ports.len(),
            forall|i: int| 0 <= i < at ==> ports@[i] != Some(port),
        decreases ports.len() - at,
    {
        if let Some(held) = ports[at] {
            if held == port {
                assert(ports@[at as int] == Some(port));
                return true;
            }
        }
        at += 1;
    }
    false
}

proof fn lemma_join_keeps_wf(net: NetView, handle: SocketHandle, held: Held)
    requires
        net.wf(),
        net.live < MAX_SOCKETS,
        !net.table.contains_key(handle),
    ensures
        joined(net, handle, held).wf(),
{
    assert forall|i: int| 0 <= i < net.closing.len() implies has_tcp(
        joined(net, handle, held).table,
        #[trigger] net.closing[i],
    ) by {
        assert(has_tcp(net.table, net.closing[i]));
    }
}

proof fn lemma_left_wf(net: NetView, handle: SocketHandle)
    requires
        net.wf(),
        !net.closing.contains(handle),
        net.dhcp != Some(handle),
    ensures
        left(net, handle).wf(),
{
    assert forall|i: int| 0 <= i < net.closing.len() implies has_tcp(
        left(net, handle).table,
        #[trigger] net.closing[i],
    ) by {
        assert(has_tcp(net.table, net.closing[i]));
        assert(net.closing.contains(net.closing[i]));
    }
}

/// An address in words.
pub open spec fn quad_text(address: Ipv4) -> Seq<char> {
    decimal(address.0 as nat) + "."@ + decimal(address.1 as nat) + "."@ + decimal(
        address.2 as nat,
    ) + "."@ + decimal(address.3 as nat)
}

fn quad(address: Ipv4) -> (text: String)
    ensures
        text@ == quad_text(address),
{
    let mut text = String::new();
    push_decimal(&mut text, address.0 as u64);
    assert(text@ =~= decimal(address.0 as nat));
    text.append(".");
    push_decimal(&mut text, address.1 as u64);
    text.append(".");
    push_decimal(&mut text, address.2 as u64);
    text.append(".");
    push_decimal(&mut text, address.3 as u64);
    text
}

/// Name servers in words, each after a space.
pub open spec fn servers_text(servers: Seq<Ipv4>) -> Seq<char>
    decreases servers.len(),
{
    if servers.len() == 0 {
        Seq::empty()
    } else {
        servers_text(servers.drop_last()) + " "@ + quad_text(servers.last())
    }
}

/// The router of a lease in words.
pub open spec fn router_text(router: Option<Ipv4>) -> Seq<char> {
    match router {
        Some(router) => " gw "@ + quad_text(router),
        None => " gw none"@,
    }
}

/// The name servers of a lease in words.
pub open spec fn dns_text(servers: Seq<Ipv4>) -> Seq<char> {
    if servers.len() == 0 {
        Seq::empty()
    } else {
        " dns"@ + servers_text(servers)
    }
}

/// The duration of a lease in words.
pub open spec fn duration_text(seconds: Option<u32>) -> Seq<char> {
    match seconds {
        Some(seconds) => " lease "@ + decimal(seconds as nat) + "s"@,
        None => Seq::empty(),
    }
}

/// What is announced of a lease.
pub open spec fn acquired(lease: LeaseView, seconds: Option<u32>) -> Seq<char> {
    "net.l4.over-l2: dhcp acquired "@ + quad_text(lease.address) + "/"@ + decimal(
        lease.prefix as nat,
    ) + router_text(lease.router) + dns_text(lease.dns) + duration_text(seconds)
}

fn router_words(router: &Option<Ipv4>) -> (text: String)
    ensures
        text@ == router_text(*router),
{
    match router {
        Some(router) => {
            let mut text = String::from_str(" gw ");
            text.append(quad(*router).as_str());
            text
        },
        None => String::from_str(" gw none"),
    }
}

fn dns_words(servers: &Vec<Ipv4>) -> (text: String)
    ensures
        text@ == dns_text(servers@),
{
    if servers.len() == 0 {
        let text = String::new();
        assert(text@ =~= Seq::empty());
        return text;
    }
    let mut list = String::new();
    let mut at: usize = 0;
    assert(list@ =~= servers_text(servers@.take(0)));
    while at < servers.len()
        invariant
            at <= servers.len(),
            list@ == servers_text(servers@.take(at as int)),
        decreases servers.len() - at,
    {
        assert(servers@.take(at + 1).drop_last() =~= servers@.take(at as int));
        list.append(" ");
        list.append(quad(servers[at]).as_str());
        at += 1;
    }
    assert(servers@.take(at as int) =~= servers@);
    let mut text = String::from_str(" dns");
    text.append(list.as_str());
    text
}

fn duration_words(seconds: Option<u32>) -> (text: String)
    ensures
        text@ == duration_text(seconds),
{
    match seconds {
        Some(seconds) => {
            let mut text = String::from_str(" lease ");
            push_decimal(&mut text, seconds as u64);
            text.append("s");
            text
        },
        None => {
            let text = String::new();
            assert(text@ =~= Seq::empty());
            text
        },
    }
}

/// Announce a lease.
pub fn announcement(lease: &Lease, seconds: Option<u32>) -> (line: String)
    ensures
        line@ == acquired(lease@, seconds),
{
    let mut line = String::from_str("net.l4.over-l2: dhcp acquired ");
    line.append(quad(lease.address).as_str());
    line.append("/");
    push_decimal(&mut line, lease.prefix as u64);
    line.append(router_words(&lease.router).as_str());
    line.append(dns_words(&lease.dns).as_str());
    line.append(duration_words(seconds).as_str());
    line
}

/// The duration that the acknowledgement of a lease grants.
pub open spec fn seconds_of(lease: LeaseView) -> Option<u32> {
    match lease.packet {
        Some(packet) => lease_duration(packet),
        None => None,
    }
}

/// What is announced when a lease is lost.
pub open spec fn lost_text() -> Seq<char> {
    "net.l4.over-l2: dhcp lease lost; reacquiring on the next operation"@
}

/// The stack without what a lease gave it.
pub open spec fn unleased(net: NetView) -> NetView {
    NetView {
        addresses: Seq::empty(),
        gateway: None,
        default_routes: 0,
        bound: None,
        dns: Seq::empty(),
        ..net
    }
}

/// The stack with a lease.
pub open spec fn leased(net: NetView, lease: LeaseView) -> NetView {
    NetView {
        addresses: seq![(lease.address, lease.prefix)],
        gateway: match lease.router {
            Some(router) => routed(net.other_routes, router),
            None => None,
        },
        default_routes: match lease.router {
            Some(_) => routes_set(net.other_routes, net.default_routes),
            None => 0,
        },
        bound: Some((lease.address, lease.prefix)),
        dns: lease.dns,
        ..net
    }
}

/// What the lease client reports is heard once: the stack without it.
pub open spec fn heard(net: NetView) -> NetView {
    match net.dhcp {
        Some(handle) => NetView { table: net.table.insert(handle, Held::Dhcp(None)), ..net },
        None => net,
    }
}

/// What the lease client reports next.
pub open spec fn news_of(net: NetView) -> Option<LeaseNews> {
    match net.dhcp {
        Some(handle) => net.table[handle]->Dhcp_0,
        None => None,
    }
}

/// What hearing the lease client does to the stack, and what is announced.
pub open spec fn after_news(net: NetView) -> (NetView, Option<Seq<char>>) {
    match news_of(net) {
        None => (heard(net), None),
        Some(LeaseNews::Bound(lease)) => (
            leased(heard(net), lease),
            Some(acquired(lease, seconds_of(lease))),
        ),
        Some(LeaseNews::Lost) => if net.bound is Some {
            (unleased(heard(net)), Some(lost_text()))
        } else {
            (heard(net), None)
        },
    }
}

/// An optional line, over contents.
pub open spec fn line_of(line: Option<String>) -> Option<Seq<char>> {
    match line {
        Some(line) => Some(line@),
        None => None,
    }
}

proof fn lemma_heard_wf(net: NetView)
    requires
        net.wf(),
    ensures
        heard(net).wf(),
{
    assert forall|i: int| 0 <= i < net.closing.len() implies has_tcp(
        heard(net).table,
        #[trigger] net.closing[i],
    ) by {
        assert(has_tcp(net.table, net.closing[i]));
    }
}

impl NetState {
    /// Hear what the lease client reports, if there is one, and bring the interface in
    /// line with it. Gives the line to announce.
    pub fn lease_news(&mut self) -> (line: Option<String>)
        requires
            old(self)@.wf(),
        ensures
            (final(self)@, line_of(line)) == after_news(old(self)@),
            final(self)@.wf(),
    {
        let handle = match self.dhcp {
            Some(handle) => handle,
            None => {
                return None;
            },
        };
        proof {
            lemma_heard_wf(self@);
        }
        match dhcp_poll(&mut self.sockets, handle) {
            None => None,
            Some(event) => self.apply_news(event),
        }
    }

    /// Bring the interface in line with what the lease client reported.
    pub fn apply_news(&mut self, event: LeaseEvent) -> (line: Option<String>)
        requires
            old(self)@.wf(),
            event matches LeaseEvent::Bound(lease) ==> assignable(lease.address) && lease.prefix
                <= 32,
        ensures
            final(self)@.wf(),
            match event@ {
                LeaseNews::Bound(lease) => {
                    &&& final(self)@ == leased(old(self)@, lease)
                    &&& line_of(line) == Some(acquired(lease, seconds_of(lease)))
                },
                LeaseNews::Lost => if old(self)@.bound is Some {
                    &&& final(self)@ == unleased(old(self)@)
                    &&& line_of(line) == Some(lost_text())
                } else {
                    &&& final(self)@ == old(self)@
                    &&& line is None
                },
            },
    {
        match event {
            LeaseEvent::Bound(lease) => {
                let seconds: Option<u32> = match &lease.packet {
                    Some(packet) => lease_seconds(packet.as_slice()),
                    None => None,
                };
                let line = announcement(&lease, seconds);
                let mut list: Vec<(Ipv4, u8)> = Vec::new();
                list.push((lease.address, lease.prefix));
                assert(list@ =~= seq![(lease.address, lease.prefix)]);
                set_addresses(&mut self.iface, &list);
                match lease.router {
                    Some(router) => {
                        set_gateway(&mut self.iface, router);
                    },
                    None => {
                        clear_gateway(&mut self.iface);
                    },
                }
                self.bound = Some((lease.address, lease.prefix));
                self.dns = lease.dns;
                Some(line)
            },
            LeaseEvent::Lost => if self.bound.is_some() {
                self.bound = None;
                self.dns = Vec::new();
                let none: Vec<(Ipv4, u8)> = Vec::new();
                set_addresses(&mut self.iface, &none);
                clear_gateway(&mut self.iface);
                assert(self@ =~= unleased(old(self)@));
                Some(
                    String::from_str(
                        "net.l4.over-l2: dhcp lease lost; reacquiring on the next operation",
                    ),
                )
            } else {
                None
            },
        }
    }
}

proof fn lemma_take_contains(all: Seq<SocketHandle>, at: int, other: SocketHandle)
    requires
        0 <= at < all.len(),
    ensures
        all.take(at + 1).contains(other) == (all.take(at).contains(other) || other == all[at]),
{
    let longer = all.take(at + 1);
    if longer.contains(other) {
        let i = choose|i: int| 0 <= i < longer.len() && longer[i] == other;
        if i < at {
            assert(all.take(at)[i] == other);
        }
    }
    if all.take(at).contains(other) {
        let i = choose|i: int| 0 <= i < all.take(at).len() && all.take(at)[i] == other;
        assert(longer[i] == other);
    }
    assert(longer[at] == all[at]);
}

proof fn lemma_filter_step(
    all: Seq<SocketHandle>,
    at: int,
    keeps: spec_fn(SocketHandle) -> bool,
)
    requires
        0 <= at < all.len(),
    ensures
        all.take(at + 1).filter(keeps) == if keeps(all[at]) {
            all.take(at).filter(keeps).push(all[at])
        } else {
            all.take(at).filter(keeps)
        },
{
    reveal(Seq::filter);
    assert(all.take(at + 1).drop_last() =~= all.take(at));
}

proof fn lemma_swept_wf(net: NetView)
    requires
        net.wf(),
    ensures
        swept(net).wf(),
{
    let keeps = |handle: SocketHandle| !is_closed(net.table, handle);
    let kept = net.closing.filter(keeps);
    lemma_filter_sound(net.closing, keeps);
    assert forall|i: int| 0 <= i < kept.len() implies has_tcp(
        swept(net).table,
        #[trigger] kept[i],
    ) by {
        let from = choose|j: int| 0 <= j < net.closing.len() && net.closing[j] == kept[i];
        assert(has_tcp(net.table, net.closing[from]));
    }
    if let Some(handle) = net.dhcp {
        if net.closing.contains(handle) {
            let j = choose|j: int| 0 <= j < net.closing.len() && net.closing[j] == handle;
            assert(has_tcp(net.table, net.closing[j]));
        }
    }
}

proof fn lemma_filter_sound(all: Seq<SocketHandle>, keeps: spec_fn(SocketHandle) -> bool)
    requires
        all.no_duplicates(),
    ensures
        all.filter(keeps).no_duplicates(),
        forall|i: int|
            0 <= i < all.filter(keeps).len() ==> keeps(#[trigger] all.filter(keeps)[i])
                && all.contains(all.filter(keeps)[i]),
    decreases all.len(),
{
    reveal(Seq::filter);
    if all.len() > 0 {
        let shorter = all.drop_last();
        lemma_filter_sound(shorter, keeps);
        let kept = all.filter(keeps);
        assert forall|i: int| 0 <= i < kept.len() implies keeps(#[trigger] kept[i])
            && all.contains(kept[i]) && (i < shorter.filter(keeps).len() ==> kept[i]
            != all.last()) by {
            if i < shorter.filter(keeps).len() {
                let item = shorter.filter(keeps)[i];
                assert(shorter.contains(item));
                let j = choose|j: int| 0 <= j < shorter.len() && shorter[j] == item;
                assert(all[j] == item);
            } else {
                assert(kept[i] == all[all.len() - 1]);
            }
        }
    }
}

/// Whether the interface has the address that the stack says it has, and no other.
pub open spec fn agrees(net: NetView) -> bool {
    net.addresses == match net.bound {
        Some(bound) => seq![bound],
        None => Seq::empty(),
    }
}

/// Whatever the lease client reports, the interface keeps the address that the stack says
/// it has; a lost lease leaves no address, no route and no name servers behind.
pub proof fn law_interface_follows_lease(net: NetView)
    requires
        agrees(net),
    ensures
        agrees(after_news(net).0),
        news_of(net) == Some(LeaseNews::Lost) && net.bound is Some ==> {
            let after = after_news(net).0;
            after.bound is None && after.gateway is None && after.dns.len() == 0
        },
{
}

/// The lease client starts without a lease and says so; that is no news, and nothing is
/// announced. A lease and its loss are announced.
pub proof fn law_only_changes_are_announced(net: NetView)
    ensures
        news_of(net) is None || news_of(net) == Some(LeaseNews::Lost) && net.bound is None
            <==> after_news(net).1 is None,
        news_of(net) == Some(LeaseNews::Lost) && net.bound is None ==> after_news(net).0 == heard(
            net,
        ),
{
}

/// A port that a listener holds stays taken until the listener is let go: listening on it
/// is refused, whatever its sockets do.
pub proof fn law_held_port_is_taken(net: NetView, port: u16, handle: SocketHandle, held: Held)
    requires
        net.listening_ports.contains(port),
    ensures
        swept(net).listening_ports.contains(port),
        joined(net, handle, held).listening_ports.contains(port),
        left(net, handle).listening_ports.contains(port),
        after_news(net).0.listening_ports.contains(port),
{
}

/// Whether nothing that was queued on a socket has left since it was bound: datagrams lie
/// in the memory from its beginning on, none larger than a datagram may be.
pub open spec fn queued_since_bound(held: UdpHeld) -> bool {
    &&& held.slots == UDP_TX_PACKETS
    &&& held.room == UDP_TX_PACKETS * UDP_PACKET_BYTES
    &&& held.start == 0
    &&& held.entries == held.outgoing.len() <= UDP_TX_PACKETS
    &&& held.unsent <= held.entries * UDP_PACKET_BYTES
}

/// A socket that was just bound takes as many datagrams as its queue is long, each up to
/// the size that a datagram may have, and not one more.
pub proof fn law_bound_socket_takes_its_packets(held: UdpHeld, parcel: Parcel)
    requires
        queued_since_bound(held),
        parcel.payload.len() <= UDP_PACKET_BYTES,
    ensures
        takes(held, parcel.payload.len()) <==> held.outgoing.len() < UDP_TX_PACKETS,
        queued_since_bound(handed(held, parcel)),
        forall|port: u16| queued_since_bound(#[trigger] bound_udp(port)),
{
    if held.outgoing.len() < UDP_TX_PACKETS {
        assert(held.unsent < held.room);
        vstd::arithmetic::div_mod::lemma_small_mod(held.unsent, held.room);
        assert((used_from(held) + held.unsent) % held.room == held.unsent);
    }
}

/// A queue that no bytes are in takes every datagram that fits its memory while an entry is
/// left, wherever the bytes before lay.
pub proof fn law_drained_queue_takes_what_fits(held: UdpHeld, len: nat)
    requires
        held.unsent == 0,
    ensures
        takes(held, len) <==> held.entries < held.slots && len <= held.room,
{
    if held.room > 0 {
        vstd::arithmetic::div_mod::lemma_small_mod(0, held.room);
    }
}

/// What was queued stays queued in its order, whether the next datagram is taken or not, and
/// the bytes never outgrow the memory nor the entries the slots.
pub proof fn law_queue_keeps_what_it_has(held: UdpHeld, parcel: Parcel)
    requires
        held.entries <= held.slots,
        held.unsent <= held.room,
    ensures
        ({
            let after = handed(held, parcel);
            &&& after.outgoing == if takes(held, parcel.payload.len()) {
                held.outgoing.push(parcel)
            } else {
                held.outgoing
            }
            &&& after.entries <= after.slots == held.slots
            &&& held.unsent <= after.unsent <= after.room == held.room
            &&& after.waiting == held.waiting && after.port == held.port
        }),
{
}

/// Hearing of a lease brings the interface in line with it: it has the leased address and no
/// other; the router that the lease names is its gateway, over its only default route, where
/// there is room for one, and without a router it has none; the name servers are those of
/// the lease. The sockets and the frames stay, and the news is heard once.
pub proof fn law_lease_sets_up_the_interface(net: NetView)
    requires
        net.wf(),
        net.dhcp is Some,
    ensures
        news_of(net) matches Some(LeaseNews::Bound(lease)) ==> {
            let after = after_news(net).0;
            &&& after.addresses == seq![(lease.address, lease.prefix)]
            &&& after.bound == Some((lease.address, lease.prefix))
            &&& lease.router matches Some(router) ==> net.other_routes < 2 ==> after.gateway
                == Some(router) && after.default_routes == 1
            &&& lease.router is None ==> after.gateway is None && after.default_routes == 0
            &&& after.dns == lease.dns
            &&& after.other_routes == net.other_routes
            &&& after.rx == net.rx && after.tx == net.tx && after.mtu == net.mtu
            &&& after.ephemeral == net.ephemeral && after.live == net.live && after.closing
                == net.closing && after.listening_ports == net.listening_ports
        },
        news_of(after_news(net).0) is None,
        news_of(net) is None ==> {
            let after = after_news(net).0;
            &&& after_news(net).1 is None
            &&& after.addresses == net.addresses && after.gateway == net.gateway && after.bound
                == net.bound && after.dns == net.dns && after.default_routes
                == net.default_routes
        },
        after_news(net).0.dhcp == net.dhcp,
        forall|handle: SocketHandle|
            Some(handle) != net.dhcp ==> (#[trigger] after_news(net).0.table.contains_key(handle)
                == net.table.contains_key(handle)),
        forall|handle: SocketHandle|
            Some(handle) != net.dhcp && net.table.contains_key(handle)
                ==> #[trigger] after_news(net).0.table[handle] == net.table[handle],
{
}

/// A lease that is heard and then lost leaves the stack as one without a lease: no address,
/// no gateway, no route, no name servers. One that never had a lease is left as it is.
pub proof fn law_lost_lease_clears_the_interface(net: NetView)
    requires
        net.wf(),
        news_of(net) == Some(LeaseNews::Lost),
    ensures
        ({
            let after = after_news(net).0;
            &&& net.bound is Some ==> {
                &&& after.addresses.len() == 0 && after.bound is None
                &&& after.gateway is None && after.default_routes == 0
                &&& after.dns.len() == 0
            }
            &&& net.bound is None ==> after.addresses == net.addresses && after.gateway
                == net.gateway && after.dns == net.dns
            &&& after.live == net.live && after.rx == net.rx && after.tx == net.tx
        }),
{
}

/// Sweeping forgets the sockets that were let go and are closed, and no other: each other
/// one stays as it was, and those that still close wait on in their order.
pub proof fn law_sweep_forgets_only_the_closed(net: NetView, handle: SocketHandle)
    requires
        net.wf(),
    ensures
        ({
            let after = swept(net);
            let over = net.closing.contains(handle) && net.table[handle]->Tcp_0.state
                == TcpState::Closed;
            &&& after.table.contains_key(handle) <==> net.table.contains_key(handle) && !over
            &&& after.table.contains_key(handle) ==> after.table[handle] == net.table[handle]
            &&& after.closing.contains(handle) <==> net.closing.contains(handle) && !over
            &&& after.live == net.live && after.dhcp == net.dhcp && after.listening_ports
                == net.listening_ports
            &&& after.ephemeral == net.ephemeral && after.bound == net.bound
            &&& after.rx == net.rx && after.tx == net.tx && after.dns == net.dns
            &&& after.addresses == net.addresses && after.gateway == net.gateway
        }),
{
    let keeps = |handle: SocketHandle| !is_closed(net.table, handle);
    if net.closing.contains(handle) && keeps(handle) {
        let i = choose|i: int| 0 <= i < net.closing.len() && net.closing[i] == handle;
        net.closing.lemma_filter_contains(keeps, i);
    }
    if net.closing.filter(keeps).contains(handle) {
        let i = choose|i: int|
            0 <= i < net.closing.filter(keeps).len() && net.closing.filter(keeps)[i] == handle;
        net.closing.lemma_filter_pred(keeps, i);
        net.closing.lemma_filter_contains_rev(keeps, handle);
    }
}

/// Ports are handed out in turn from the range for that, each one behind the one before,
/// and the first one behind the last. A port that is asked for is the port that is used, and
/// nothing is handed out for it.
pub proof fn law_ports_are_handed_out_in_turn(net: NetView, wanted: u16)
    requires
        net.wf(),
    ensures
        ({
            let (after, port) = chosen(net, wanted);
            &&& wanted != 0 ==> port == wanted && after == net
            &&& wanted == 0 ==> {
                &&& port == net.ephemeral && port >= 49152
                &&& port < 65535 ==> after.ephemeral == port + 1
                &&& port == 65535 ==> after.ephemeral == 49152
            }
            &&& after.table == net.table && after.live == net.live
        }),
{
}

/// A socket that joins is held until it leaves: joining adds that one socket and counts it,
/// and leaving undoes it.
pub proof fn law_joined_and_left(net: NetView, handle: SocketHandle, held: Held)
    requires
        net.wf(),
        net.live < MAX_SOCKETS,
        !net.table.contains_key(handle),
    ensures
        joined(net, handle, held).table.contains_key(handle),
        joined(net, handle, held).table[handle] == held,
        joined(net, handle, held).live == net.live + 1,
        forall|other: SocketHandle|
            other != handle && net.table.contains_key(other) ==> joined(
                net,
                handle,
                held,
            ).table.contains_key(other) && #[trigger] joined(net, handle, held).table[other]
                == net.table[other],
        left(joined(net, handle, held), handle) == net,
{
    assert(left(joined(net, handle, held), handle).table =~= net.table);
    assert(left(joined(net, handle, held), handle) =~= net);
}

/// A new listener listens on its port, and a new datagram socket is bound to its own; neither
/// has received anything or has anything to send.
pub proof fn law_new_sockets_are_at_their_port(port: u16)
    ensures
        listening(port).state == TcpState::Listen && listening(port).port == port,
        listening(port).remote is None && listening(port).received.len() == 0,
        listening(port).unsent.len() == 0 && listening(port).room == TCP_BUFFER_BYTES,
        bound_udp(port).port == port,
        bound_udp(port).waiting.len() == 0 && bound_udp(port).outgoing.len() == 0,
{
}

/// A stack refuses to connect to no port, to no address, and while it has no address of its
/// own; to everything else it begins to.
pub proof fn law_connects_where_it_can(net: NetView, remote: Ipv4, port: u16)
    requires
        agrees(net),
    ensures
        !unaddressable(net, remote, port) <==> net.bound is Some && port != 0 && !(remote.0 == 0
            && remote.1 == 0 && remote.2 == 0 && remote.3 == 0),
{
}

} // verus!
