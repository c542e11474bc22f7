//! How an operation of `net.l4.over-l2` waits: it moves frames between the stack and the
//! link in rounds until what it wants is there, or its time is over.
//!
//! The link, the clock and the console are asked for one thing at a time; what comes back
//! is the event that decides the next step.
use std::collections::VecDeque;

use smoltcp::iface::SocketHandle;

use vstd::prelude::*;
use vstd::std_specs::vecdeque::VecDequeAdditionalSpecFns;
use vstd::string::*;

use crate::bytes::slice_of;
use crate::l2::InterfaceInfo;
use crate::l4::{IpAddress, L4Error, L4Failure, SocketAddress};
use crate::l4_over_l2::{
    after_news, frames, line_of, NetState, NetView, Udp, TCP_BUFFER_BYTES,
};
use crate::stack::{
    has_tcp, has_udp, may_recv, may_send, poll_delay, tcp_can_recv, tcp_may_recv, tcp_may_send,
    tcp_recv, tcp_remote, tcp_send, tcp_state, udp_can_recv, udp_recv, wait_time, Held, Ipv4,
    TakeError, TcpHeld, TcpState, UdpHeld,
};

verus! {

/// The frames that wait for the stack at most.
pub const RX_QUEUE_CAP: usize = 32;

/// The size of the buffer for a frame that comes.
pub const RX_BUFFER_BYTES: usize = 2048;

/// The frames that are taken from the link in a round at most.
pub const RX_BATCH: usize = 4;

/// How long operations wait, in nanoseconds.
pub const RECV_DEADLINE_NS: u64 = 4_000_000_000;

pub const CONNECT_DEADLINE_NS: u64 = 6_000_000_000;

pub const SEND_FLUSH_DEADLINE_NS: u64 = 1_500_000_000;

pub const DHCP_DEADLINE_NS: u64 = 20_000_000_000;

/// The rounds in a row in which the clock may stand still.
pub const FROZEN_CLOCK_ROUNDS: u32 = 4096;

/// What an operation waits for.
#[derive(Debug)]
pub enum Goal {
    /// An address.
    Lease,
    /// The answer to an attempt to connect.
    Connect(SocketHandle),
    /// A connection on a listening socket.
    Accept(SocketHandle),
    /// Room for bytes; `queued` of them are on their way.
    Send { handle: SocketHandle, bytes: Vec<u8>, queued: usize },
    /// Bytes, for a buffer of so many.
    Recv { handle: SocketHandle, capacity: u64 },
    /// A datagram.
    RecvFrom(SocketHandle),
}

/// What an operation waits for, over contents.
#[allow(inconsistent_fields)]
pub enum Aim {
    Lease,
    Connect(SocketHandle),
    Accept(SocketHandle),
    Send { handle: SocketHandle, bytes: Seq<u8>, queued: nat },
    Recv { handle: SocketHandle, capacity: u64 },
    RecvFrom(SocketHandle),
}

impl View for Goal {
    type V = Aim;

    open spec fn view(&self) -> Aim {
        match self {
            Goal::Lease => Aim::Lease,
            Goal::Connect(handle) => Aim::Connect(*handle),
            Goal::Accept(handle) => Aim::Accept(*handle),
            Goal::Send { handle, bytes, queued } => Aim::Send {
                handle: *handle,
                bytes: bytes@,
                queued: *queued as nat,
            },
            Goal::Recv { handle, capacity } => Aim::Recv { handle: *handle, capacity: *capacity },
            Goal::RecvFrom(handle) => Aim::RecvFrom(*handle),
        }
    }
}

/// What an operation waited for.
#[derive(Debug)]
pub enum Got {
    Done,
    Peer(Option<SocketAddress>),
    Bytes(Vec<u8>),
    Parcel(Vec<u8>, SocketAddress),
}

/// What an operation waited for, over contents.
#[allow(inconsistent_fields)]
pub enum GotView {
    Done,
    Peer(Option<SocketAddress>),
    Bytes(Seq<u8>),
    Parcel(Seq<u8>, SocketAddress),
}

impl View for Got {
    type V = GotView;

    open spec fn view(&self) -> GotView {
        match self {
            Got::Done => GotView::Done,
            Got::Peer(peer) => GotView::Peer(*peer),
            Got::Bytes(bytes) => GotView::Bytes(bytes@),
            Got::Parcel(payload, peer) => GotView::Parcel(payload@, *peer),
        }
    }
}

/// How a wait ended, over contents.
pub open spec fn ended(result: Result<Got, L4Error>) -> Result<GotView, L4Failure> {
    match result {
        Ok(got) => Ok(got@),
        Err(error) => Err(error@),
    }
}

/// How a wait ended, if it did, over contents.
pub open spec fn maybe_ended(result: Option<Result<Got, L4Error>>) -> Option<
    Result<GotView, L4Failure>,
> {
    match result {
        Some(result) => Some(ended(result)),
        None => None,
    }
}

/// Whether the sockets of a goal are there.
pub open spec fn fits(aim: Aim, net: NetView) -> bool {
    match aim {
        Aim::Lease => true,
        Aim::Connect(handle) => has_tcp(net.table, handle),
        Aim::Accept(handle) => has_tcp(net.table, handle),
        Aim::Send { handle, bytes, queued } => has_tcp(net.table, handle) && queued
            <= bytes.len(),
        Aim::Recv { handle, capacity } => has_tcp(net.table, handle),
        Aim::RecvFrom(handle) => has_udp(net.table, handle),
    }
}

/// The smaller of two counts.
pub open spec fn lesser(a: int, b: int) -> int {
    if a <= b {
        a
    } else {
        b
    }
}

/// The stack with another thing under a handle.
pub open spec fn with_held(net: NetView, handle: SocketHandle, held: Held) -> NetView {
    NetView { table: net.table.insert(handle, held), ..net }
}

/// What looking for bytes does: bytes that came are taken, as many as fit the buffer; a
/// direction that is over gives none.
pub open spec fn looked_for_bytes(net: NetView, handle: SocketHandle, capacity: u64) -> (
    NetView,
    Option<Result<GotView, L4Failure>>,
) {
    let held = net.table[handle]->Tcp_0;
    let count = lesser(lesser(capacity as int, TCP_BUFFER_BYTES as int), held.received.len() as int);
    if held.received.len() > 0 {
        (
            with_held(
                net,
                handle,
                Held::Tcp(TcpHeld { received: held.received.skip(count), ..held }),
            ),
            Some(Ok(GotView::Bytes(held.received.take(count)))),
        )
    } else if !may_recv(held) {
        (net, Some(Ok(GotView::Bytes(Seq::empty()))))
    } else {
        (net, None)
    }
}

/// What looking for room does: bytes are queued as far as there is room.
pub open spec fn looked_for_room(
    net: NetView,
    handle: SocketHandle,
    bytes: Seq<u8>,
    queued: nat,
) -> (NetView, nat, Option<Result<GotView, L4Failure>>) {
    let held = net.table[handle]->Tcp_0;
    if !may_send(held) {
        (
            net,
            queued,
            Some(
                if queued > 0 {
                    Ok(GotView::Done)
                } else {
                    Err(L4Failure::ConnectionReset)
                },
            ),
        )
    } else {
        let count = lesser(bytes.len() - queued, held.room - held.unsent.len());
        let more = bytes.subrange(queued as int, queued + count);
        (
            with_held(net, handle, Held::Tcp(TcpHeld { unsent: held.unsent + more, ..held })),
            (queued + count) as nat,
            if queued + count == bytes.len() {
                Some(Ok(GotView::Done))
            } else {
                None
            },
        )
    }
}

/// What a look at the stack does for a goal: the goal and the stack after it, and how the
/// wait ends, if it does.
pub open spec fn looked(aim: Aim, net: NetView) -> (
    Aim,
    NetView,
    Option<Result<GotView, L4Failure>>,
) {
    match aim {
        Aim::Lease => (
            aim,
            net,
            if net.bound is Some {
                Some(Ok(GotView::Done))
            } else {
                None
            },
        ),
        Aim::Connect(handle) => (
            aim,
            net,
            match net.table[handle]->Tcp_0.state {
                TcpState::Established => Some(Ok(GotView::Done)),
                TcpState::Closed => Some(Err(L4Failure::ConnectionRefused)),
                _ => None,
            },
        ),
        Aim::Accept(handle) => (
            aim,
            net,
            match net.table[handle]->Tcp_0.state {
                TcpState::Established => Some(
                    Ok(GotView::Peer(net.table[handle]->Tcp_0.remote)),
                ),
                TcpState::Closed => Some(Err(L4Failure::ConnectionReset)),
                _ => None,
            },
        ),
        Aim::Send { handle, bytes, queued } => {
            let (after, now_queued, end) = looked_for_room(net, handle, bytes, queued);
            (Aim::Send { handle, bytes, queued: now_queued }, after, end)
        },
        Aim::Recv { handle, capacity } => {
            let (after, end) = looked_for_bytes(net, handle, capacity);
            (aim, after, end)
        },
        Aim::RecvFrom(handle) => {
            let held = net.table[handle]->Udp_0;
            if held.waiting.len() == 0 {
                (aim, net, None)
            } else {
                (
                    aim,
                    with_held(
                        net,
                        handle,
                        Held::Udp(UdpHeld { waiting: held.waiting.drop_first(), ..held }),
                    ),
                    Some(Ok(GotView::Parcel(held.waiting[0].payload, held.waiting[0].peer))),
                )
            }
        },
    }
}

proof fn lemma_held_wf(net: NetView, handle: SocketHandle, held: Held)
    requires
        net.wf(),
        net.table.contains_key(handle),
        net.table[handle] is Tcp ==> held is Tcp,
        net.table[handle] is Udp ==> held is Udp,
        !(net.table[handle] is Dhcp),
    ensures
        with_held(net, handle, held).wf(),
{
    assert forall|i: int| 0 <= i < net.closing.len() implies has_tcp(
        with_held(net, handle, held).table,
        #[trigger] net.closing[i],
    ) by {
        assert(has_tcp(net.table, net.closing[i]));
    }
}

impl Goal {
    /// Look at the stack: take what is there, and say how the wait ends, if it does.
    pub fn check(&mut self, net: &mut NetState) -> (end: Option<Result<Got, L4Error>>)
        requires
            old(net)@.wf(),
            fits(old(self)@, old(net)@),
        ensures
            (final(self)@, final(net)@, maybe_ended(end)) == looked(old(self)@, old(net)@),
            final(net)@.wf(),
            fits(final(self)@, final(net)@),
    {
        match self {
            Goal::Lease => if net.bound.is_some() {
                Some(Ok(Got::Done))
            } else {
                None
            },
            Goal::Connect(handle) => match tcp_state(&net.sockets, *handle) {
                TcpState::Established => Some(Ok(Got::Done)),
                TcpState::Closed => Some(Err(L4Error::ConnectionRefused)),
                _ => None,
            },
            Goal::Accept(handle) => match tcp_state(&net.sockets, *handle) {
                TcpState::Established => Some(Ok(Got::Peer(tcp_remote(&net.sockets, *handle)))),
                TcpState::Closed => Some(Err(L4Error::ConnectionReset)),
                _ => None,
            },
            Goal::Send { handle, bytes, queued } => {
                if !tcp_may_send(&net.sockets, *handle) {
                    return if *queued > 0 {
                        Some(Ok(Got::Done))
                    } else {
                        Some(Err(L4Error::ConnectionReset))
                    };
                }
                let rest = slice_of(bytes.as_slice(), *queued, bytes.len());
                let ghost before = net@;
                match tcp_send(&mut net.sockets, *handle, rest.as_slice()) {
                    Some(count) => {
                        proof {
                            let held = before.table[*handle]->Tcp_0;
                            assert(rest@.take(count as int) =~= bytes@.subrange(
                                *queued as int,
                                *queued + count,
                            ));
                            lemma_held_wf(
                                before,
                                *handle,
                                Held::Tcp(
                                    TcpHeld {
                                        unsent: held.unsent + rest@.take(count as int),
                                        ..held
                                    },
                                ),
                            );
                        }
                        *queued = *queued + count;
                        if *queued == bytes.len() {
                            Some(Ok(Got::Done))
                        } else {
                            None
                        }
                    },
                    None => Some(Err(L4Error::Io(String::from_str("send: InvalidState")))),
                }
            },
            Goal::Recv { handle, capacity } => {
                let ghost before = net@;
                if tcp_can_recv(&net.sockets, *handle) {
                    let wanted: usize = if *capacity < TCP_BUFFER_BYTES as u64 {
                        *capacity as usize
                    } else {
                        TCP_BUFFER_BYTES
                    };
                    proof {
                        let held = before.table[*handle]->Tcp_0;
                        lemma_held_wf(
                            before,
                            *handle,
                            Held::Tcp(
                                TcpHeld {
                                    received: held.received.skip(
                                        lesser(wanted as int, held.received.len() as int),
                                    ),
                                    ..held
                                },
                            ),
                        );
                    }
                    return match tcp_recv(&mut net.sockets, *handle, wanted) {
                        Ok(chunk) => Some(Ok(Got::Bytes(chunk))),
                        Err(TakeError::InvalidState) => Some(
                            Err(L4Error::Io(String::from_str("recv: InvalidState"))),
                        ),
                        Err(TakeError::Finished) => Some(
                            Err(L4Error::Io(String::from_str("recv: Finished"))),
                        ),
                    };
                }
                if !tcp_may_recv(&net.sockets, *handle) {
                    let none: Vec<u8> = Vec::new();
                    assert(none@ =~= Seq::empty());
                    return Some(Ok(Got::Bytes(none)));
                }
                None
            },
            Goal::RecvFrom(handle) => {
                if !udp_can_recv(&net.sockets, *handle) {
                    return None;
                }
                let ghost before = net@;
                proof {
                    let held = before.table[*handle]->Udp_0;
                    lemma_held_wf(
                        before,
                        *handle,
                        Held::Udp(UdpHeld { waiting: held.waiting.drop_first(), ..held }),
                    );
                }
                match udp_recv(&mut net.sockets, *handle) {
                    Some((payload, peer)) => Some(Ok(Got::Parcel(payload, peer))),
                    None => None,
                }
            },
        }
    }
}

/// What is asked for.
#[derive(Debug)]
pub enum Request {
    /// The time.
    Clock,
    /// A turn of the engine over the queues of frames, at a time in microseconds.
    Poll(i64),
    /// A line on the console.
    Say(String),
    /// A frame for the link.
    Send(Vec<u8>),
    /// The next frame of the link, if one is there.
    Receive,
    /// A wait for traffic, for so many nanoseconds at most.
    Park(u64),
}

/// What is asked for, over contents.
#[allow(inconsistent_fields)]
pub enum Asked {
    Clock,
    Poll(i64),
    Say(Seq<char>),
    Send(Seq<u8>),
    Receive,
    Park(u64),
}

impl View for Request {
    type V = Asked;

    open spec fn view(&self) -> Asked {
        match self {
            Request::Clock => Asked::Clock,
            Request::Poll(micros) => Asked::Poll(*micros),
            Request::Say(line) => Asked::Say(line@),
            Request::Send(frame) => Asked::Send(frame@),
            Request::Receive => Asked::Receive,
            Request::Park(bound) => Asked::Park(*bound),
        }
    }
}

/// What came back.
#[derive(Debug)]
pub enum Event {
    /// The time, in nanoseconds.
    Time(u64),
    /// It is done.
    Done,
    /// A frame; an empty one where there was none.
    Frame(Vec<u8>),
    /// The link is not permitted.
    Refused,
    /// The link failed in another way.
    Failed,
}

/// What came back, over contents.
#[allow(inconsistent_fields)]
pub enum Came {
    Time(u64),
    Done,
    Frame(Seq<u8>),
    Refused,
    Failed,
}

impl View for Event {
    type V = Came;

    open spec fn view(&self) -> Came {
        match self {
            Event::Time(now) => Came::Time(*now),
            Event::Done => Came::Done,
            Event::Frame(frame) => Came::Frame(frame@),
            Event::Refused => Came::Refused,
            Event::Failed => Came::Failed,
        }
    }
}

/// Where a round stands.
#[derive(Clone, Copy, PartialEq, Eq, Structural, Debug)]
pub enum PumpPhase {
    /// It awaits the time.
    Clock,
    /// It awaits the engine.
    Poll,
    /// It awaits the console.
    Say,
    /// It awaits the link, which sends.
    Send,
    /// It awaits the link, which receives.
    Receive,
}

/// One round: the engine gives out what is due, the link takes it, the link gives a few
/// frames, and the engine takes those.
#[derive(Debug)]
pub struct Pump {
    pub phase: PumpPhase,
    /// Whether the engine has had its second turn.
    pub second: bool,
    /// Frames that are still to be sent.
    pub frames: VecDeque<Vec<u8>>,
    pub sent_any: bool,
    pub received_any: bool,
    /// The frames that were received.
    pub batch: usize,
}

/// One round, over contents.
#[verifier::ext_equal]
pub struct Round {
    pub phase: PumpPhase,
    pub second: bool,
    pub frames: Seq<Seq<u8>>,
    pub sent_any: bool,
    pub received_any: bool,
    pub batch: nat,
}

impl Round {
    /// The link receives before the engine's second turn only, and not too much.
    pub open spec fn wf(self) -> bool {
        &&& self.second || self.batch < RX_BATCH
        &&& self.phase == PumpPhase::Receive ==> !self.second
    }
}

impl View for Pump {
    type V = Round;

    open spec fn view(&self) -> Round {
        Round {
            phase: self.phase,
            second: self.second,
            frames: frames(self.frames@),
            sent_any: self.sent_any,
            received_any: self.received_any,
            batch: self.batch as nat,
        }
    }
}

/// The next step of a round.
#[derive(Debug)]
pub enum PumpStep {
    Ask(Request),
    /// The round is over; whether a frame moved.
    Moved(bool),
    /// The link is not permitted.
    Denied,
}

/// The next step of a round, over contents.
pub enum Turn {
    Ask(Asked),
    Moved(bool),
    Denied,
}

impl View for PumpStep {
    type V = Turn;

    open spec fn view(&self) -> Turn {
        match self {
            PumpStep::Ask(request) => Turn::Ask(request@),
            PumpStep::Moved(any) => Turn::Moved(*any),
            PumpStep::Denied => Turn::Denied,
        }
    }
}

/// Whether an event answers what a round awaits.
pub open spec fn answers(phase: PumpPhase, came: Came) -> bool {
    match phase {
        PumpPhase::Clock => came is Time,
        PumpPhase::Poll => came is Done,
        PumpPhase::Say => came is Done,
        PumpPhase::Send => came is Done || came is Refused || came is Failed,
        PumpPhase::Receive => came is Frame || came is Refused || came is Failed,
    }
}

/// A round that has not begun.
pub open spec fn fresh_round() -> Round {
    Round {
        phase: PumpPhase::Clock,
        second: false,
        frames: Seq::empty(),
        sent_any: false,
        received_any: false,
        batch: 0,
    }
}

/// The engine's clock for a time.
pub open spec fn micros_of(now: u64) -> i64 {
    (now / 1000) as i64
}

/// The frames that are left are sent one by one; then the link receives, or the round is
/// over.
pub open spec fn sending(round: Round) -> (Round, Turn) {
    if round.frames.len() > 0 {
        (
            Round { phase: PumpPhase::Send, frames: round.frames.drop_first(), ..round },
            Turn::Ask(Asked::Send(round.frames[0])),
        )
    } else if round.second {
        (round, Turn::Moved(round.received_any || round.sent_any))
    } else {
        (Round { phase: PumpPhase::Receive, ..round }, Turn::Ask(Asked::Receive))
    }
}

/// The engine has had its turn: what it gave out is taken over and sent.
pub open spec fn flushing(round: Round, net: NetView) -> (Round, NetView, Turn) {
    let (after, turn) = sending(
        Round { frames: net.tx, sent_any: round.sent_any || net.tx.len() > 0, ..round },
    );
    (after, NetView { tx: Seq::empty(), ..net }, turn)
}

/// The link has no more frames: the engine has a second turn if any came.
pub open spec fn received_all(round: Round) -> (Round, Turn) {
    if round.received_any {
        (
            Round { phase: PumpPhase::Clock, second: true, ..round },
            Turn::Ask(Asked::Clock),
        )
    } else {
        (round, Turn::Moved(round.sent_any))
    }
}

/// A frame came: it waits for the engine, if there is room.
pub open spec fn took_frame(net: NetView, frame: Seq<u8>) -> NetView {
    if net.rx.len() < RX_QUEUE_CAP {
        NetView {
            rx: net.rx.push(frame.take(lesser(frame.len() as int, RX_BUFFER_BYTES as int))),
            ..net
        }
    } else {
        net
    }
}

/// The step of a round that an event brings about.
pub open spec fn pumped(round: Round, net: NetView, came: Came) -> (Round, NetView, Turn) {
    match round.phase {
        PumpPhase::Clock => (
            Round { phase: PumpPhase::Poll, ..round },
            net,
            Turn::Ask(Asked::Poll(micros_of(came->Time_0))),
        ),
        PumpPhase::Poll => {
            let (after, line) = after_news(net);
            match line {
                Some(line) => (
                    Round { phase: PumpPhase::Say, ..round },
                    after,
                    Turn::Ask(Asked::Say(line)),
                ),
                None => flushing(round, after),
            }
        },
        PumpPhase::Say => flushing(round, net),
        PumpPhase::Send => if came is Refused {
            (round, net, Turn::Denied)
        } else {
            let (after, turn) = sending(round);
            (after, net, turn)
        },
        PumpPhase::Receive => match came {
            Came::Refused => (round, net, Turn::Denied),
            Came::Frame(frame) => if frame.len() > 0 {
                let more = Round { received_any: true, batch: round.batch + 1, ..round };
                if round.batch + 1 < RX_BATCH {
                    (more, took_frame(net, frame), Turn::Ask(Asked::Receive))
                } else {
                    let (after, turn) = received_all(more);
                    (after, took_frame(net, frame), turn)
                }
            } else {
                let (after, turn) = received_all(round);
                (after, net, turn)
            },
            _ => {
                let (after, turn) = received_all(round);
                (after, net, turn)
            },
        },
    }
}

impl Pump {
    /// A round that has not begun; the first thing it asks for is the time.
    pub fn new() -> (pump: Pump)
        ensures
            pump@ == fresh_round(),
    {
        let pump = Pump {
            phase: PumpPhase::Clock,
            second: false,
            frames: VecDeque::new(),
            sent_any: false,
            received_any: false,
            batch: 0,
        };
        assert(pump@ =~= fresh_round());
        pump
    }

    fn send_next(&mut self) -> (step: PumpStep)
        ensures
            (final(self)@, step@) == sending(old(self)@),
    {
        let ghost before = self.frames@;
        match self.frames.pop_front() {
            Some(frame) => {
                assert(frames(before.drop_first()) =~= frames(before).drop_first());
                self.phase = PumpPhase::Send;
                PumpStep::Ask(Request::Send(frame))
            },
            None => if self.second {
                PumpStep::Moved(self.received_any || self.sent_any)
            } else {
                self.phase = PumpPhase::Receive;
                PumpStep::Ask(Request::Receive)
            },
        }
    }

    fn flush_tx(&mut self, net: &mut NetState) -> (step: PumpStep)
        ensures
            (final(self)@, final(net)@, step@) == flushing(old(self)@, old(net)@),
    {
        let mut drained: VecDeque<Vec<u8>> = VecDeque::new();
        std::mem::swap(&mut net.tx, &mut drained);
        assert(net@ =~= (NetView { tx: Seq::empty(), ..old(net)@ }));
        if drained.len() > 0 {
            self.sent_any = true;
        }
        self.frames = drained;
        assert(self@ =~= (Round {
            frames: old(net)@.tx,
            sent_any: old(self)@.sent_any || old(net)@.tx.len() > 0,
            ..old(self)@
        }));
        self.send_next()
    }

    fn end_receive(&mut self) -> (step: PumpStep)
        ensures
            (final(self)@, step@) == received_all(old(self)@),
    {
        if self.received_any {
            self.phase = PumpPhase::Clock;
            self.second = true;
            PumpStep::Ask(Request::Clock)
        } else {
            PumpStep::Moved(self.sent_any)
        }
    }

    /// Take an event.
    pub fn step(&mut self, net: &mut NetState, event: Event) -> (step: PumpStep)
        requires
            old(net)@.wf(),
            answers(old(self)@.phase, event@),
            old(self)@.wf(),
        ensures
            (final(self)@, final(net)@, step@) == pumped(old(self)@, old(net)@, event@),
            final(net)@.wf(),
            step is Ask ==> final(self)@.wf(),
    {
        match self.phase {
            PumpPhase::Clock => {
                let micros: i64 = match event {
                    Event::Time(now) => (now / 1000) as i64,
                    _ => 0,
                };
                self.phase = PumpPhase::Poll;
                PumpStep::Ask(Request::Poll(micros))
            },
            PumpPhase::Poll => match net.lease_news() {
                Some(line) => {
                    self.phase = PumpPhase::Say;
                    PumpStep::Ask(Request::Say(line))
                },
                None => self.flush_tx(net),
            },
            PumpPhase::Say => self.flush_tx(net),
            PumpPhase::Send => match event {
                Event::Refused => PumpStep::Denied,
                _ => self.send_next(),
            },
            PumpPhase::Receive => match event {
                Event::Refused => PumpStep::Denied,
                Event::Frame(frame) => {
                    if frame.len() == 0 {
                        return self.end_receive();
                    }
                    take_frame(net, frame);
                    self.received_any = true;
                    self.batch += 1;
                    if self.batch < RX_BATCH {
                        PumpStep::Ask(Request::Receive)
                    } else {
                        self.end_receive()
                    }
                },
                _ => self.end_receive(),
            },
        }
    }
}

fn take_frame(net: &mut NetState, frame: Vec<u8>)
    requires
        old(net)@.wf(),
    ensures
        final(net)@ == took_frame(old(net)@, frame@),
        final(net)@.wf(),
{
    if net.rx.len() < RX_QUEUE_CAP {
        let count: usize = if frame.len() < RX_BUFFER_BYTES {
            frame.len()
        } else {
            RX_BUFFER_BYTES
        };
        let part = slice_of(frame.as_slice(), 0, count);
        proof {
            assert(frames(net.rx@.push(part)) =~= frames(net.rx@).push(part@));
            assert(part@ =~= frame@.take(lesser(frame@.len() as int, RX_BUFFER_BYTES as int)));
        }
        net.rx.push_back(part);
    }
}

/// Where a wait stands.
#[derive(Clone, Copy, PartialEq, Eq, Structural, Debug)]
pub enum WaitPhase {
    /// It awaits the time at which it starts.
    Start,
    /// It awaits the time before a round.
    Round,
    /// A round is under way.
    Pumping,
    /// It awaits the time before it parks.
    Due,
    /// It is parked.
    Parked,
}

/// A wait.
#[derive(Debug)]
pub struct Wait {
    pub goal: Goal,
    pub deadline: u64,
    pub start: u64,
    pub last_now: u64,
    /// The rounds since the clock last moved.
    pub frozen: u32,
    pub phase: WaitPhase,
    /// Whether the round under way is the last.
    pub expired: bool,
    pub pump: Pump,
}

/// A wait, over contents.
pub struct Waiting {
    pub aim: Aim,
    pub deadline: u64,
    pub start: u64,
    pub last_now: u64,
    pub frozen: u32,
    pub phase: WaitPhase,
    pub expired: bool,
    pub round: Round,
}

impl View for Wait {
    type V = Waiting;

    open spec fn view(&self) -> Waiting {
        Waiting {
            aim: self.goal@,
            deadline: self.deadline,
            start: self.start,
            last_now: self.last_now,
            frozen: self.frozen,
            phase: self.phase,
            expired: self.expired,
            round: self.pump@,
        }
    }
}

impl Waiting {
    /// The clock has not stood still for too long, unless the last round is under way.
    pub open spec fn wf(self) -> bool {
        &&& self.frozen < FROZEN_CLOCK_ROUNDS || self.expired
        &&& self.expired ==> self.phase == WaitPhase::Pumping
        &&& self.phase == WaitPhase::Pumping ==> self.round.wf()
    }
}

/// The next step of a wait.
#[derive(Debug)]
pub enum WaitStep {
    Ask(Request),
    Finished(Result<Got, L4Error>),
}

/// The next step of a wait, over contents.
#[allow(inconsistent_fields)]
pub enum WaitTurn {
    Ask(Asked),
    Finished(Result<GotView, L4Failure>),
}

impl View for WaitStep {
    type V = WaitTurn;

    open spec fn view(&self) -> WaitTurn {
        match self {
            WaitStep::Ask(request) => WaitTurn::Ask(request@),
            WaitStep::Finished(result) => WaitTurn::Finished(ended(*result)),
        }
    }
}

/// Whether an event answers what a wait awaits.
pub open spec fn wait_answers(waiting: Waiting, came: Came) -> bool {
    match waiting.phase {
        WaitPhase::Pumping => answers(waiting.round.phase, came),
        WaitPhase::Parked => came is Done || came is Refused || came is Failed,
        _ => came is Time,
    }
}

/// How long ago something was, by a clock that may go back.
pub open spec fn since(start: u64, now: u64) -> u64 {
    if now < start {
        0
    } else {
        (now - start) as u64
    }
}

/// What is left of a time.
pub open spec fn rest_of(whole: u64, spent: u64) -> u64 {
    if whole < spent {
        0
    } else {
        (whole - spent) as u64
    }
}

/// The look before a round: the wait ends, or a round comes up.
pub open spec fn at_top(waiting: Waiting, net: NetView) -> (Waiting, NetView, WaitTurn) {
    let (aim, after, end) = looked(waiting.aim, net);
    match end {
        Some(result) => (Waiting { aim, ..waiting }, after, WaitTurn::Finished(result)),
        None => (
            Waiting { aim, phase: WaitPhase::Round, ..waiting },
            after,
            WaitTurn::Ask(Asked::Clock),
        ),
    }
}

/// The round is over. In the last one the wait ends; after one that moved something
/// another comes up; otherwise the wait ends or parks.
pub open spec fn after_round(waiting: Waiting, net: NetView, moved: bool) -> (
    Waiting,
    NetView,
    WaitTurn,
) {
    let (aim, after, end) = looked(waiting.aim, net);
    if waiting.expired {
        (
            Waiting { aim, ..waiting },
            after,
            WaitTurn::Finished(
                match end {
                    Some(result) => result,
                    None => Err(L4Failure::TimedOut),
                },
            ),
        )
    } else if moved {
        at_top(waiting, net)
    } else {
        match end {
            Some(result) => (Waiting { aim, ..waiting }, after, WaitTurn::Finished(result)),
            None => (
                Waiting { aim, phase: WaitPhase::Due, ..waiting },
                after,
                WaitTurn::Ask(Asked::Clock),
            ),
        }
    }
}

/// A time in nanoseconds for one in microseconds, as far as it goes.
pub open spec fn nanos(micros: u64) -> u64 {
    if micros * 1000 > u64::MAX {
        u64::MAX
    } else {
        (micros * 1000) as u64
    }
}

/// How long a wait parks: until its time is over or the engine has something to do.
pub open spec fn park_time(remaining: u64, due: Option<u64>) -> u64 {
    match due {
        Some(micros) => if nanos(micros) < remaining {
            nanos(micros)
        } else {
            remaining
        },
        None => remaining,
    }
}

/// The step of a wait that an event brings about. `due` is how long the engine can be
/// left alone.
pub open spec fn waited(waiting: Waiting, net: NetView, due: Option<u64>, came: Came) -> (
    Waiting,
    NetView,
    WaitTurn,
) {
    match waiting.phase {
        WaitPhase::Start => {
            let start = came->Time_0;
            at_top(Waiting { start, last_now: start, ..waiting }, net)
        },
        WaitPhase::Round => {
            let now = came->Time_0;
            let frozen = if now == waiting.last_now {
                (waiting.frozen + 1) as u32
            } else {
                0
            };
            (
                Waiting {
                    last_now: now,
                    frozen,
                    expired: since(waiting.start, now) >= waiting.deadline || frozen
                        >= FROZEN_CLOCK_ROUNDS,
                    phase: WaitPhase::Pumping,
                    round: fresh_round(),
                    ..waiting
                },
                net,
                WaitTurn::Ask(Asked::Clock),
            )
        },
        WaitPhase::Pumping => {
            let (round, after, turn) = pumped(waiting.round, net, came);
            let on = Waiting { round, ..waiting };
            match turn {
                Turn::Ask(asked) => (on, after, WaitTurn::Ask(asked)),
                Turn::Denied => (on, after, WaitTurn::Finished(Err(L4Failure::Denied))),
                Turn::Moved(moved) => after_round(on, after, moved),
            }
        },
        WaitPhase::Due => {
            let remaining = rest_of(waiting.deadline, since(waiting.start, came->Time_0));
            let bound = park_time(remaining, due);
            if bound > 0 {
                (
                    Waiting { phase: WaitPhase::Parked, ..waiting },
                    net,
                    WaitTurn::Ask(Asked::Park(bound)),
                )
            } else {
                at_top(waiting, net)
            }
        },
        WaitPhase::Parked => if came is Refused {
            (waiting, net, WaitTurn::Finished(Err(L4Failure::Denied)))
        } else {
            at_top(waiting, net)
        },
    }
}

/// The time of an event.
pub open spec fn time_of(came: Came) -> u64 {
    match came {
        Came::Time(now) => now,
        _ => 0,
    }
}

/// How long a wait parks.
pub fn park_bound(remaining: u64, due: Option<u64>) -> (bound: u64)
    ensures
        bound == park_time(remaining, due),
{
    match due {
        Some(micros) => {
            let due: u64 = if micros > u64::MAX / 1000 {
                u64::MAX
            } else {
                micros * 1000
            };
            if due < remaining {
                due
            } else {
                remaining
            }
        },
        None => remaining,
    }
}

impl Wait {
    /// A wait that has not begun; the first thing it asks for is the time.
    pub fn new(goal: Goal, deadline: u64) -> (wait: Wait)
        ensures
            wait@.wf(),
            wait@.aim == goal@,
            wait@.deadline == deadline,
            wait@.frozen == 0,
            wait@.phase == WaitPhase::Start,
            !wait@.expired,
    {
        Wait {
            goal,
            deadline,
            start: 0,
            last_now: 0,
            frozen: 0,
            phase: WaitPhase::Start,
            expired: false,
            pump: Pump::new(),
        }
    }

    fn top(&mut self, net: &mut NetState) -> (step: WaitStep)
        requires
            old(net)@.wf(),
            old(self)@.wf(),
            !old(self)@.expired,
            fits(old(self)@.aim, old(net)@),
        ensures
            (final(self)@, final(net)@, step@) == at_top(old(self)@, old(net)@),
            final(net)@.wf(),
            final(self)@.wf(),
            fits(final(self)@.aim, final(net)@),
    {
        match self.goal.check(net) {
            Some(result) => WaitStep::Finished(result),
            None => {
                self.phase = WaitPhase::Round;
                WaitStep::Ask(Request::Clock)
            },
        }
    }

    fn round_over(&mut self, net: &mut NetState, moved: bool) -> (step: WaitStep)
        requires
            old(net)@.wf(),
            old(self)@.phase == WaitPhase::Pumping,
            old(self)@.frozen < FROZEN_CLOCK_ROUNDS || old(self)@.expired,
            fits(old(self)@.aim, old(net)@),
        ensures
            (final(self)@, final(net)@, step@) == after_round(old(self)@, old(net)@, moved),
            final(net)@.wf(),
            step is Ask ==> final(self)@.wf(),
            fits(final(self)@.aim, final(net)@),
    {
        if self.expired {
            return match self.goal.check(net) {
                Some(result) => WaitStep::Finished(result),
                None => WaitStep::Finished(Err(L4Error::TimedOut)),
            };
        }
        match self.goal.check(net) {
            Some(result) => WaitStep::Finished(result),
            None => {
                self.phase = if moved {
                    WaitPhase::Round
                } else {
                    WaitPhase::Due
                };
                WaitStep::Ask(Request::Clock)
            },
        }
    }

    /// Take an event.
    pub fn step(&mut self, net: &mut NetState, event: Event) -> (step: WaitStep)
        requires
            old(net)@.wf(),
            old(self)@.wf(),
            fits(old(self)@.aim, old(net)@),
            wait_answers(old(self)@, event@),
        ensures
            (final(self)@, final(net)@, step@) == waited(
                old(self)@,
                old(net)@,
                wait_time(old(net).iface, old(net).sockets, micros_of(time_of(event@))),
                event@,
            ),
            final(net)@.wf(),
            step is Ask ==> final(self)@.wf(),
            fits(final(self)@.aim, final(net)@),
    {
        let now: u64 = match event {
            Event::Time(now) => now,
            _ => 0,
        };
        match self.phase {
            WaitPhase::Start => {
                self.start = now;
                self.last_now = now;
                self.top(net)
            },
            WaitPhase::Round => {
                if now == self.last_now {
                    self.frozen += 1;
                } else {
                    self.last_now = now;
                    self.frozen = 0;
                }
                self.expired = now.saturating_sub(self.start) >= self.deadline || self.frozen
                    >= FROZEN_CLOCK_ROUNDS;
                self.pump = Pump::new();
                self.phase = WaitPhase::Pumping;
                WaitStep::Ask(Request::Clock)
            },
            WaitPhase::Pumping => {
                proof {
                    lemma_pump_fits(self@.aim, self@.round, net@, event@);
                }
                match self.pump.step(net, event) {
                    PumpStep::Ask(request) => WaitStep::Ask(request),
                    PumpStep::Denied => WaitStep::Finished(Err(L4Error::Denied)),
                    PumpStep::Moved(moved) => self.round_over(net, moved),
                }
            },
            WaitPhase::Due => {
                let micros: i64 = (now / 1000) as i64;
                let due = poll_delay(&mut net.iface, &net.sockets, micros);
                let remaining: u64 = self.deadline.saturating_sub(
                    now.saturating_sub(self.start),
                );
                let bound: u64 = park_bound(remaining, due);
                if bound > 0 {
                    self.phase = WaitPhase::Parked;
                    WaitStep::Ask(Request::Park(bound))
                } else {
                    self.top(net)
                }
            },
            WaitPhase::Parked => match event {
                Event::Refused => WaitStep::Finished(Err(L4Error::Denied)),
                _ => self.top(net),
            },
        }
    }
}

proof fn lemma_pump_fits(aim: Aim, round: Round, net: NetView, came: Came)
    requires
        net.wf(),
        fits(aim, net),
    ensures
        fits(aim, pumped(round, net, came).1),
{
}

/// A datagram that was queued gets a few rounds to leave.
#[derive(Debug)]
pub struct Drain {
    pub socket: Udp,
    /// The length of the datagram.
    pub length: u64,
    /// The rounds that are left, with the one under way.
    pub left: u32,
    pub pump: Pump,
}

/// The rounds that a datagram gets.
pub const DRAIN_ROUNDS: u32 = 6;

/// The next step of a drain.
#[derive(Debug)]
pub enum DrainStep {
    Ask(Request),
    Finished(Result<u64, L4Error>),
}

/// The next step of a drain, over contents.
#[allow(inconsistent_fields)]
pub enum DrainTurn {
    Ask(Asked),
    Finished(Result<u64, L4Failure>),
}

impl View for DrainStep {
    type V = DrainTurn;

    open spec fn view(&self) -> DrainTurn {
        match self {
            DrainStep::Ask(request) => DrainTurn::Ask(request@),
            DrainStep::Finished(Ok(count)) => DrainTurn::Finished(Ok(*count)),
            DrainStep::Finished(Err(error)) => DrainTurn::Finished(Err(error@)),
        }
    }
}

/// Whether nothing waits to be sent.
pub open spec fn is_drained(net: NetView, handle: SocketHandle) -> bool {
    net.tx.len() == 0 && net.table[handle]->Udp_0.unsent == 0
}

/// The step of a drain that an event brings about: the round, the rounds that are left,
/// the stack and what is next.
pub open spec fn drained_by(
    round: Round,
    left: u32,
    length: u64,
    handle: SocketHandle,
    net: NetView,
    came: Came,
) -> (Round, u32, NetView, DrainTurn) {
    let (on, after, turn) = pumped(round, net, came);
    match turn {
        Turn::Ask(asked) => (on, left, after, DrainTurn::Ask(asked)),
        Turn::Denied => (on, left, after, DrainTurn::Finished(Err(L4Failure::Denied))),
        Turn::Moved(_) => if is_drained(after, handle) || left <= 1 {
            (on, left, after, DrainTurn::Finished(Ok(length)))
        } else {
            (fresh_round(), (left - 1) as u32, after, DrainTurn::Ask(Asked::Clock))
        },
    }
}

impl Drain {
    /// A drain that has not begun; the first thing it asks for is the time.
    pub fn new(socket: Udp, length: u64) -> (drain: Drain)
        ensures
            drain.socket == socket,
            drain.length == length,
            drain.left == DRAIN_ROUNDS,
            drain.pump@ == fresh_round(),
    {
        Drain { socket, length, left: DRAIN_ROUNDS, pump: Pump::new() }
    }

    /// Take an event.
    pub fn step(&mut self, net: &mut NetState, event: Event) -> (step: DrainStep)
        requires
            old(net)@.wf(),
            old(self).pump@.wf(),
            answers(old(self).pump@.phase, event@),
            has_udp(old(net)@.table, old(self).socket.handle),
        ensures
            final(net)@.wf(),
            has_udp(final(net)@.table, old(self).socket.handle),
            final(self).socket == old(self).socket,
            final(self).length == old(self).length,
            (final(self).pump@, final(self).left, final(net)@, step@) == drained_by(
                old(self).pump@,
                old(self).left,
                old(self).length,
                old(self).socket.handle,
                old(net)@,
                event@,
            ),
            step is Ask ==> final(self).pump@.wf(),
    {
        proof {
            lemma_pump_fits(
                Aim::RecvFrom(self.socket.handle),
                self.pump@,
                net@,
                event@,
            );
        }
        match self.pump.step(net, event) {
            PumpStep::Ask(request) => DrainStep::Ask(request),
            PumpStep::Denied => DrainStep::Finished(Err(L4Error::Denied)),
            PumpStep::Moved(_) => {
                if net.drained(&self.socket) || self.left <= 1 {
                    return DrainStep::Finished(Ok(self.length));
                }
                self.left -= 1;
                self.pump = Pump::new();
                DrainStep::Ask(Request::Clock)
            },
        }
    }
}

/// Whether operations have to wait for a lease.
pub fn needs_lease(net: &NetState) -> (yes: bool)
    ensures
        yes == (net@.dhcp is Some && net@.bound is None),
{
    net.dhcp.is_some() && net.bound.is_none()
}

/// What is announced when no lease came.
pub open spec fn no_lease_text() -> Seq<char> {
    "net.l4.over-l2: dhcp no lease within 20s — check the link and the network's DHCP service"@
}

/// What the wait for a lease comes to: a line to announce, and the failure.
pub open spec fn lease_ended(result: Result<GotView, L4Failure>) -> (
    Option<Seq<char>>,
    Result<(), L4Failure>,
) {
    match result {
        Ok(_) => (None, Ok(())),
        Err(L4Failure::TimedOut) => (
            Some(no_lease_text()),
            Err(L4Failure::Io("dhcp: no lease arrived within the acquisition window"@)),
        ),
        Err(failure) => (None, Err(failure)),
    }
}

/// What the wait for a lease comes to.
pub fn lease_outcome(result: Result<Got, L4Error>) -> (outcome: (
    Option<String>,
    Result<(), L4Error>,
))
    ensures
        (
            line_of(outcome.0),
            match outcome.1 {
                Ok(()) => Ok(()),
                Err(error) => Err(error@),
            },
        ) == lease_ended(ended(result)),
{
    match result {
        Ok(_) => (None, Ok(())),
        Err(L4Error::TimedOut) => (
            Some(
                String::from_str(
                    "net.l4.over-l2: dhcp no lease within 20s — check the link and the network's DHCP service",
                ),
            ),
            Err(
                L4Error::Io(
                    String::from_str("dhcp: no lease arrived within the acquisition window"),
                ),
            ),
        ),
        Err(other) => (None, Err(other)),
    }
}

/// Whether a round follows a wait for room: unless the link is not permitted.
pub fn flushes_after(result: &Result<Got, L4Error>) -> (yes: bool)
    ensures
        yes == (ended(*result) != Err::<GotView, L4Failure>(L4Failure::Denied)),
{
    match result {
        Err(L4Error::Denied) => false,
        _ => true,
    }
}

/// What a wait for room comes to: the bytes that are on their way, if there are any or
/// the wait succeeded.
pub open spec fn send_ended(result: Result<GotView, L4Failure>, queued: nat) -> Result<
    u64,
    L4Failure,
> {
    match result {
        Ok(_) => Ok(queued as u64),
        Err(failure) => if failure is TimedOut && queued > 0 {
            Ok(queued as u64)
        } else {
            Err(failure)
        },
    }
}

/// What a wait for room comes to.
pub fn send_outcome(result: Result<Got, L4Error>, queued: usize) -> (outcome: Result<u64, L4Error>)
    ensures
        (match outcome {
            Ok(count) => Ok(count),
            Err(error) => Err(error@),
        }) == send_ended(ended(result), queued as nat),
{
    match result {
        Ok(_) => Ok(queued as u64),
        Err(L4Error::TimedOut) => if queued > 0 {
            Ok(queued as u64)
        } else {
            Err(L4Error::TimedOut)
        },
        Err(other) => Err(other),
    }
}

/// A datagram for a buffer: as much of it as fits.
pub fn fit_parcel(payload: Vec<u8>, capacity: u64) -> (part: Vec<u8>)
    ensures
        part@ == payload@.take(lesser(payload@.len() as int, capacity as int)),
{
    let length: usize = payload.len();
    let count: usize = if capacity < length as u64 {
        capacity as usize
    } else {
        length
    };
    let part = slice_of(payload.as_slice(), 0, count);
    assert(part@ =~= payload@.take(lesser(payload@.len() as int, capacity as int)));
    part
}

/// A failure of the link.
#[derive(Debug)]
pub enum LinkError {
    Denied,
    /// Any other, in words.
    Other(String),
}

/// A failure of the link as one of the transport.
pub fn link_failure(error: LinkError) -> (failure: L4Error)
    ensures
        failure@ == match error {
            LinkError::Denied => L4Failure::Denied,
            LinkError::Other(shown) => L4Failure::Io("l2: "@ + shown@),
        },
{
    match error {
        LinkError::Denied => L4Error::Denied,
        LinkError::Other(shown) => {
            let mut text = String::from_str("l2: ");
            text.append(shown.as_str());
            L4Error::Io(text)
        },
    }
}

/// The failure of an operation that arrives while another is under way.
pub fn link_busy() -> (failure: L4Error)
    ensures
        failure@ == L4Failure::Io("another l4 operation on this stack is in progress"@),
{
    L4Error::Io(String::from_str("another l4 operation on this stack is in progress"))
}

/// What is taken over from an interface of the link.
#[derive(Clone, Copy, PartialEq, Eq, Structural, Debug)]
pub struct LinkChoice {
    pub index: usize,
    pub mtu: usize,
}

/// The size of frames that the stack uses for what an interface says.
pub open spec fn clamped(mtu: u32) -> usize {
    if mtu < 576 {
        576
    } else if mtu > 9216 {
        9216
    } else {
        mtu as usize
    }
}

/// Choose the interface of the link: its first one.
pub fn choose_interface(interfaces: &Vec<InterfaceInfo>) -> (choice: Result<LinkChoice, L4Error>)
    ensures
        match choice {
            Ok(choice) => interfaces@.len() > 0 && choice == (LinkChoice {
                index: 0,
                mtu: clamped(interfaces@[0].mtu),
            }),
            Err(error) => interfaces@.len() == 0 && error@ == L4Failure::Io(
                "the l2 capability exposes no interfaces"@,
            ),
        },
{
    if interfaces.len() == 0 {
        return Err(
            L4Error::Io(String::from_str("the l2 capability exposes no interfaces")),
        );
    }
    let mtu: u32 = interfaces[0].mtu;
    let mtu: usize = if mtu < 576 {
        576
    } else if mtu > 9216 {
        9216
    } else {
        mtu as usize
    };
    Ok(LinkChoice { index: 0, mtu })
}

/// The name servers that the lease told of.
pub fn lease_servers(net: &NetState) -> (servers: Vec<IpAddress>)
    ensures
        servers@ == net@.dns.map_values(|server: Ipv4| server.ip()),
{
    let mut servers: Vec<IpAddress> = Vec::new();
    let mut at: usize = 0;
    while at < net.dns.len()
        invariant
            at <= net.dns.len(),
            servers@ == net.dns@.take(at as int).map_values(|server: Ipv4| server.ip()),
        decreases net.dns.len() - at,
    {
        servers.push(net.dns[at].ip());
        at += 1;
        assert(servers@ =~= net.dns@.take(at as int).map_values(|server: Ipv4| server.ip()));
    }
    assert(net.dns@.take(at as int) =~= net.dns@);
    servers
}

/// A wait ends for want of time only after its last round, and only if a look after that
/// round found nothing: what the link brought in time decides, not the clock.
pub proof fn law_wire_beats_clock(waiting: Waiting, net: NetView, due: Option<u64>, came: Came)
    requires
        waiting.wf(),
        waited(waiting, net, due, came).2 == WaitTurn::Finished(Err(L4Failure::TimedOut)),
    ensures
        waiting.expired,
        waiting.phase == WaitPhase::Pumping,
        ({
            let (_, after, turn) = pumped(waiting.round, net, came);
            &&& turn is Moved
            &&& looked(waiting.aim, after).2 is None
        }),
{
}

/// A look never ends a wait for want of time.
pub proof fn law_looks_never_time_out(aim: Aim, net: NetView)
    ensures
        looked(aim, net).2 != Some(Err::<GotView, L4Failure>(L4Failure::TimedOut)),
{
}

/// A round is the last one only if the time of the wait is over, or the clock stood still
/// for the given number of rounds; and then it is.
pub proof fn law_window_is_honest(waiting: Waiting, net: NetView, due: Option<u64>, now: u64)
    requires
        waiting.wf(),
        waiting.phase == WaitPhase::Round,
    ensures
        ({
            let (after, _, _) = waited(waiting, net, due, Came::Time(now));
            &&& after.expired <==> since(waiting.start, now) >= waiting.deadline || now
                == waiting.last_now && waiting.frozen + 1 >= FROZEN_CLOCK_ROUNDS
            &&& now != waiting.last_now ==> after.frozen == 0
            &&& now == waiting.last_now ==> after.frozen == waiting.frozen + 1
        }),
{
}

/// The last round ends the wait, whatever it brings.
pub proof fn law_last_round_ends(waiting: Waiting, net: NetView, due: Option<u64>, came: Came)
    requires
        waiting.phase == WaitPhase::Pumping,
        waiting.expired,
        !(pumped(waiting.round, net, came).2 is Ask),
    ensures
        waited(waiting, net, due, came).2 is Finished,
{
}

/// What is there already never touches the link: the first look ends the wait.
pub proof fn law_ready_never_waits(waiting: Waiting, net: NetView, due: Option<u64>, now: u64)
    requires
        waiting.phase == WaitPhase::Start,
        looked(waiting.aim, net).2 is Some,
    ensures
        waited(waiting, net, due, Came::Time(now)).2 == WaitTurn::Finished(
            looked(waiting.aim, net).2->0,
        ),
{
}

/// A wait parks for no longer than its time lasts and the engine can be left alone, and
/// not at all where that is no time.
pub proof fn law_park_is_bounded(waiting: Waiting, net: NetView, due: Option<u64>, now: u64)
    requires
        waiting.phase == WaitPhase::Due,
    ensures
        waited(waiting, net, due, Came::Time(now)).2 matches WaitTurn::Ask(Asked::Park(bound)) ==> {
            &&& 0 < bound <= rest_of(waiting.deadline, since(waiting.start, now))
            &&& due matches Some(micros) ==> bound <= nanos(micros)
        },
{
}

/// A link that is not permitted ends every wait with that failure, whatever it awaits from
/// the link.
pub proof fn law_refusal_ends(waiting: Waiting, net: NetView, due: Option<u64>)
    requires
        waiting.phase == WaitPhase::Parked || waiting.phase == WaitPhase::Pumping && (
        waiting.round.phase == PumpPhase::Send || waiting.round.phase == PumpPhase::Receive),
    ensures
        waited(waiting, net, due, Came::Refused).2 == WaitTurn::Finished(Err(L4Failure::Denied)),
{
}

/// What remains of a round, as a number that every step makes smaller.
pub open spec fn round_left(round: Round) -> (int, int, int) {
    (
        if round.second {
            0
        } else {
            1
        },
        match round.phase {
            PumpPhase::Clock => 4,
            PumpPhase::Poll => 3,
            PumpPhase::Say => 2,
            PumpPhase::Send => 1,
            PumpPhase::Receive => 0,
        },
        if round.phase == PumpPhase::Receive {
            RX_BATCH - round.batch
        } else {
            round.frames.len() as int
        },
    )
}

/// Every round ends: each step that asks for something more leaves less of the round.
pub proof fn law_round_ends(round: Round, net: NetView, came: Came)
    requires
        round.wf(),
        answers(round.phase, came),
    ensures
        pumped(round, net, came).2 is Ask ==> {
            let before = round_left(round);
            let after = round_left(pumped(round, net, came).0);
            &&& 0 <= after.0 && 0 <= after.1 && 0 <= after.2
            &&& after.0 < before.0 || after.0 == before.0 && (after.1 < before.1 || after.1
                == before.1 && after.2 < before.2)
        },
{
}

/// No round makes the stack hold more frames that came than it may.
pub proof fn law_receive_queue_is_bounded(round: Round, net: NetView, came: Came)
    requires
        net.rx.len() <= RX_QUEUE_CAP,
    ensures
        pumped(round, net, came).1.rx.len() <= RX_QUEUE_CAP,
{
}

/// Bytes are queued in order and none twice: a look for room moves the next bytes that
/// were not queued yet to the end of what the socket has to send.
pub proof fn law_send_keeps_order(
    net: NetView,
    handle: SocketHandle,
    bytes: Seq<u8>,
    queued: nat,
    sent: Seq<u8>,
)
    requires
        has_tcp(net.table, handle),
        may_send(net.table[handle]->Tcp_0),
        net.table[handle]->Tcp_0.unsent.len() <= net.table[handle]->Tcp_0.room,
        queued <= bytes.len(),
        net.table[handle]->Tcp_0.unsent == sent + bytes.take(queued as int),
    ensures
        ({
            let (after, now_queued, _) = looked_for_room(net, handle, bytes, queued);
            &&& queued <= now_queued <= bytes.len()
            &&& after.table[handle]->Tcp_0.unsent == sent + bytes.take(now_queued as int)
            &&& after.table[handle]->Tcp_0.unsent.len() <= after.table[handle]->Tcp_0.room
        }),
{
    let (after, now_queued, _) = looked_for_room(net, handle, bytes, queued);
    let held = net.table[handle]->Tcp_0;
    assert(held.unsent + bytes.subrange(queued as int, now_queued as int) =~= sent + bytes.take(
        now_queued as int,
    ));
}

/// A look for bytes gives those that came first, as many as the buffer takes up to the size
/// of a socket's own, and leaves the others in their order. A direction that is over gives
/// none; one that is not waits. No other socket changes.
pub proof fn law_received_bytes_come_in_order(
    net: NetView,
    handle: SocketHandle,
    capacity: u64,
    other: SocketHandle,
)
    requires
        has_tcp(net.table, handle),
        other != handle,
    ensures
        ({
            let before = net.table[handle]->Tcp_0;
            let (aim, after, end) = looked(Aim::Recv { handle, capacity }, net);
            let there = after.table[handle]->Tcp_0;
            &&& before.received.len() > 0 ==> {
                &&& end matches Some(Ok(GotView::Bytes(bytes)))
                &&& bytes + there.received == before.received
                &&& bytes.len() <= capacity && bytes.len() <= 16384
                &&& bytes.len() == capacity || bytes.len() == 16384 || there.received.len() == 0
            }
            &&& before.received.len() == 0 ==> {
                &&& end is None <==> may_recv(before)
                &&& end is Some ==> end == Some(
                    Ok::<GotView, L4Failure>(GotView::Bytes(Seq::empty())),
                )
                &&& after == net
            }
            &&& aim == (Aim::Recv { handle, capacity })
            &&& there == (TcpHeld { received: there.received, ..before })
            &&& after.table.contains_key(other) == net.table.contains_key(other)
            &&& net.table.contains_key(other) ==> after.table[other] == net.table[other]
        }),
{
    let before = net.table[handle]->Tcp_0;
    let count = lesser(
        lesser(capacity as int, TCP_BUFFER_BYTES as int),
        before.received.len() as int,
    );
    assert(before.received.take(count) + before.received.skip(count) =~= before.received);
}

/// A look for room queues as many of the bytes that are left as there is room for, and the
/// wait ends once all are queued. On a connection that takes none it ends too: with what is
/// on its way, or with the failure where nothing is.
pub proof fn law_send_queues_what_fits(
    net: NetView,
    handle: SocketHandle,
    bytes: Seq<u8>,
    queued: nat,
)
    requires
        has_tcp(net.table, handle),
        queued <= bytes.len(),
        net.table[handle]->Tcp_0.unsent.len() <= net.table[handle]->Tcp_0.room,
    ensures
        ({
            let before = net.table[handle]->Tcp_0;
            let (aim, after, end) = looked(Aim::Send { handle, bytes, queued }, net);
            let there = after.table[handle]->Tcp_0;
            let more = aim->Send_queued - queued;
            &&& aim is Send && aim->Send_handle == handle && aim->Send_bytes == bytes
            &&& !may_send(before) ==> {
                &&& after == net && more == 0
                &&& end == Some(
                    if queued > 0 {
                        Ok::<GotView, L4Failure>(GotView::Done)
                    } else {
                        Err(L4Failure::ConnectionReset)
                    },
                )
            }
            &&& may_send(before) ==> {
                &&& 0 <= more && queued + more <= bytes.len()
                &&& there.unsent == before.unsent + bytes.subrange(queued as int, queued + more)
                &&& queued + more == bytes.len() || there.unsent.len() == before.room
                &&& end is Some <==> queued + more == bytes.len()
                &&& end is Some ==> end == Some(Ok::<GotView, L4Failure>(GotView::Done))
            }
        }),
{
}

/// A connection is made once it is established and refused once it is closed; until then
/// the wait goes on. A listener's connection is there with the address at its other end.
pub proof fn law_connections_are_awaited(net: NetView, handle: SocketHandle)
    requires
        has_tcp(net.table, handle),
    ensures
        ({
            let held = net.table[handle]->Tcp_0;
            let (_, one, connect) = looked(Aim::Connect(handle), net);
            let (_, other, accept) = looked(Aim::Accept(handle), net);
            &&& one == net && other == net
            &&& connect == Some(Ok::<GotView, L4Failure>(GotView::Done)) <==> held.state
                == TcpState::Established
            &&& connect == Some(Err::<GotView, L4Failure>(L4Failure::ConnectionRefused))
                <==> held.state == TcpState::Closed
            &&& connect is None <==> held.state != TcpState::Established && held.state
                != TcpState::Closed
            &&& accept == Some(Ok::<GotView, L4Failure>(GotView::Peer(held.remote)))
                <==> held.state == TcpState::Established
            &&& accept == Some(Err::<GotView, L4Failure>(L4Failure::ConnectionReset))
                <==> held.state == TcpState::Closed
            &&& accept is None <==> connect is None
        }),
{
}

/// A datagram that is received is the one that came first, whole and with its sender; the
/// others wait on in their order. Where none waits, the wait goes on. An address is awaited
/// until there is one.
pub proof fn law_datagrams_are_taken_in_order(net: NetView, handle: SocketHandle)
    requires
        has_udp(net.table, handle),
    ensures
        ({
            let before = net.table[handle]->Udp_0;
            let (_, after, end) = looked(Aim::RecvFrom(handle), net);
            let there = after.table[handle]->Udp_0;
            &&& end is None <==> before.waiting.len() == 0
            &&& end is None ==> after == net
            &&& end is Some ==> {
                &&& end == Some(
                    Ok::<GotView, L4Failure>(
                        GotView::Parcel(before.waiting[0].payload, before.waiting[0].peer),
                    ),
                )
                &&& seq![before.waiting[0]] + there.waiting == before.waiting
                &&& there == (UdpHeld { waiting: there.waiting, ..before })
            }
        }),
        looked(Aim::Lease, net).2 is Some <==> net.bound is Some,
        looked(Aim::Lease, net).1 == net,
{
    let before = net.table[handle]->Udp_0;
    if before.waiting.len() > 0 {
        assert(seq![before.waiting[0]] + before.waiting.drop_first() =~= before.waiting);
    }
}

/// What the engine gives out leaves frame by frame, in its order and none twice: the first
/// goes to the link and the others follow, each once the link is done with the one before.
/// After the last the link is asked for frames, or the round is over.
pub proof fn law_frames_leave_in_order(round: Round, net: NetView, came: Came)
    requires
        round.wf(),
        answers(round.phase, came),
        !(came is Refused),
        round.phase == PumpPhase::Say || round.phase == PumpPhase::Send || round.phase
            == PumpPhase::Poll && after_news(net).1 is None,
    ensures
        ({
            let (after, there, turn) = pumped(round, net, came);
            let due = if round.phase == PumpPhase::Send {
                round.frames
            } else {
                net.tx
            };
            &&& round.phase != PumpPhase::Send ==> there.tx.len() == 0
            &&& due.len() > 0 ==> {
                &&& turn == Turn::Ask(Asked::Send(due[0]))
                &&& seq![due[0]] + after.frames == due
                &&& after.phase == PumpPhase::Send
            }
            &&& due.len() == 0 && !round.second ==> turn == Turn::Ask(Asked::Receive)
            &&& due.len() == 0 && round.second ==> turn == Turn::Moved(
                round.received_any || round.sent_any,
            )
            &&& round.phase != PumpPhase::Send && due.len() > 0 ==> after.sent_any
            &&& round.second == after.second
        }),
{
    if round.frames.len() > 0 {
        assert(seq![round.frames[0]] + round.frames.drop_first() =~= round.frames);
    }
    let tx = after_news(net).0.tx;
    assert(tx == net.tx);
    if tx.len() > 0 {
        assert(seq![tx[0]] + tx.drop_first() =~= tx);
    }
}

/// A frame that comes waits for the engine behind those that came before, whole up to the
/// size of the buffer, while there is room. After four frames, or where none is left, the
/// engine gets its second turn if any came; otherwise the round is over.
pub proof fn law_frames_arrive_in_order(round: Round, net: NetView, frame: Seq<u8>)
    requires
        round.wf(),
        round.phase == PumpPhase::Receive,
    ensures
        ({
            let (after, there, turn) = pumped(round, net, Came::Frame(frame));
            &&& frame.len() > 0 && net.rx.len() < 32 ==> {
                &&& there.rx.len() == net.rx.len() + 1 && there.rx.drop_last() == net.rx
                &&& there.rx.last().is_prefix_of(frame)
                &&& there.rx.last().len() == frame.len() || there.rx.last().len() == 2048
                    < frame.len()
            }
            &&& frame.len() == 0 || net.rx.len() >= 32 ==> there.rx == net.rx
            &&& frame.len() > 0 && round.batch < 3 ==> turn == Turn::Ask(Asked::Receive)
                && after.received_any
            &&& frame.len() > 0 && round.batch == 3 ==> turn == Turn::Ask(Asked::Clock)
                && after.second
            &&& frame.len() == 0 && round.received_any ==> turn == Turn::Ask(Asked::Clock)
                && after.second
            &&& frame.len() == 0 && !round.received_any ==> turn == Turn::Moved(round.sent_any)
            &&& there.tx == net.tx && there.table == net.table
        }),
{
    let part = frame.take(lesser(frame.len() as int, RX_BUFFER_BYTES as int));
    assert(part =~= frame.subrange(0, part.len() as int));
    assert(net.rx.push(part).drop_last() =~= net.rx);
}

/// A round begins with the time, at which the engine has its turn; what the lease client
/// reports is said before anything is sent.
pub proof fn law_round_polls_the_engine(round: Round, net: NetView, now: u64)
    requires
        round.phase == PumpPhase::Clock,
    ensures
        ({
            let (after, there, turn) = pumped(round, net, Came::Time(now));
            &&& turn matches Turn::Ask(Asked::Poll(micros))
            &&& 1000 * micros <= now < 1000 * micros + 1000
            &&& after.phase == PumpPhase::Poll && there == net
        }),
        after_news(net).1 matches Some(line) ==> {
            let polled = Round { phase: PumpPhase::Poll, ..round };
            let (after, there, turn) = pumped(polled, net, Came::Done);
            &&& turn == Turn::Ask(Asked::Say(line))
            &&& there == after_news(net).0
            &&& after.phase == PumpPhase::Say
        },
{
}

/// A wait parks as long as it may: until its time is over, or until the engine has something
/// to do where that is sooner; where that is now, another round comes up.
pub proof fn law_park_is_as_long_as_may_be(
    waiting: Waiting,
    net: NetView,
    due: Option<u64>,
    now: u64,
)
    requires
        waiting.phase == WaitPhase::Due,
        waiting.start <= now,
    ensures
        ({
            let left = waiting.deadline - (now - waiting.start);
            let (_, _, turn) = waited(waiting, net, due, Came::Time(now));
            &&& left > 0 && (due matches Some(micros) ==> 1000 * micros >= left) ==> turn
                == WaitTurn::Ask(Asked::Park(left as u64))
            &&& left > 0 && (due matches Some(micros) && 0 < 1000 * micros < left) ==> turn
                == WaitTurn::Ask(Asked::Park((1000 * due->0) as u64))
            &&& turn is Ask && (left <= 0 || due == Some(0u64)) ==> turn == WaitTurn::Ask(
                Asked::Clock,
            )
        }),
{
}

/// A datagram that was queued is reported as sent, with its whole length, once nothing waits
/// any more or its rounds are over; only a link that is not permitted fails.
pub proof fn law_drain_reports_the_datagram(
    round: Round,
    left: u32,
    length: u64,
    handle: SocketHandle,
    net: NetView,
    came: Came,
)
    requires
        left >= 1,
    ensures
        ({
            let (on, there, turn) = pumped(round, net, came);
            let (_, rounds, after, step) = drained_by(round, left, length, handle, net, came);
            let over = there.tx.len() == 0 && there.table[handle]->Udp_0.unsent == 0;
            &&& after == there
            &&& turn is Moved && (over || left == 1) ==> step == DrainTurn::Finished(
                Ok::<u64, L4Failure>(length),
            )
            &&& turn is Moved && !over && left > 1 ==> step == DrainTurn::Ask(Asked::Clock)
                && rounds == left - 1
            &&& turn is Denied ==> step == DrainTurn::Finished(
                Err::<u64, L4Failure>(L4Failure::Denied),
            )
            &&& turn matches Turn::Ask(asked) ==> step == DrainTurn::Ask(asked)
        }),
{
}

/// What a wait comes to in the end: bytes that are on their way count as sent, also where
/// the time was over before all of them were; a lease that did not come in time is announced
/// and fails; any other failure stays what it is.
pub proof fn law_outcomes_are_told(
    result: Result<GotView, L4Failure>,
    queued: nat,
)
    requires
        queued <= u64::MAX,
    ensures
        send_ended(result, queued) matches Ok(count) ==> count == queued,
        send_ended(result, queued) is Ok <==> result is Ok || result->Err_0 is TimedOut && queued
            > 0,
        send_ended(result, queued) matches Err(failure) ==> failure == result->Err_0,
        lease_ended(result).1 is Ok <==> result is Ok,
        lease_ended(result).0 is Some <==> result is Err && result->Err_0 is TimedOut,
        result is Err && !(result->Err_0 is TimedOut) ==> lease_ended(result).1 == Err::<
            (),
            L4Failure,
        >(result->Err_0),
{
}

/// Frames are as large as the interface says, but no smaller than 576 and no larger than
/// 9216 bytes.
pub proof fn law_frame_size_is_clamped(mtu: u32)
    ensures
        576 <= clamped(mtu) <= 9216,
        576 <= mtu <= 9216 ==> clamped(mtu) == mtu,
        mtu < 576 ==> clamped(mtu) == 576,
        mtu > 9216 ==> clamped(mtu) == 9216,
{
}

/// A fresh round has sent and received nothing and begins with the time: the engine gets its
/// turn at that time, and then whatever it gives out is sent before anything is received.
pub proof fn law_fresh_round_begins_with_the_time(net: NetView, now: u64)
    ensures
        ({
            let (after, there, turn) = pumped(fresh_round(), net, Came::Time(now));
            &&& turn matches Turn::Ask(Asked::Poll(micros)) && 1000 * micros <= now < 1000 * micros
                + 1000
            &&& there == net
            &&& after.frames.len() == 0 && after.batch == 0
            &&& !after.sent_any && !after.received_any && !after.second
        }),
{
}

/// A wait counts how long the clock stands still from one round to the next: the time of a
/// round is what the next is compared with, two rounds at one time count one standstill more,
/// and any other time ends the count. The round that follows is a fresh one.
pub proof fn law_standstill_is_counted(
    waiting: Waiting,
    net: NetView,
    due: Option<u64>,
    now: u64,
    then: u64,
)
    requires
        waiting.phase == WaitPhase::Round,
        waiting.frozen < 4096,
    ensures
        ({
            let (one, there, turn) = waited(waiting, net, due, Came::Time(now));
            let again = Waiting { phase: WaitPhase::Round, ..one };
            let (two, _, _) = waited(again, net, due, Came::Time(then));
            &&& there == net && turn == WaitTurn::Ask(Asked::Clock)
            &&& one.phase == WaitPhase::Pumping && one.round == fresh_round()
            &&& one.aim == waiting.aim && one.start == waiting.start && one.deadline
                == waiting.deadline
            &&& now == then ==> two.frozen == one.frozen + 1
            &&& now != then ==> two.frozen == 0
        }),
{
}

/// A wait begins its time where the clock first stands, and looks once before any round.
pub proof fn law_wait_begins_its_time(
    waiting: Waiting,
    net: NetView,
    due: Option<u64>,
    start: u64,
    now: u64,
)
    requires
        waiting.phase == WaitPhase::Start,
        waiting.frozen == 0,
        looked(waiting.aim, net).2 is None,
        start <= now,
    ensures
        ({
            let (begun, there, turn) = waited(waiting, net, due, Came::Time(start));
            let (round, _, _) = waited(begun, there, due, Came::Time(now));
            &&& turn == WaitTurn::Ask(Asked::Clock) && begun.phase == WaitPhase::Round
            &&& round.expired <==> now >= start + waiting.deadline
            &&& round.frozen == if now == start {
                1int
            } else {
                0
            }
        }),
{
}

/// What a value is over contents is of the same kind as the value itself: no two kinds are
/// taken for one another.
pub proof fn law_contents_keep_their_kind(
    goal: Goal,
    got: Got,
    request: Request,
    event: Event,
    pump_step: PumpStep,
    wait_step: WaitStep,
    drain_step: DrainStep,
)
    ensures
        goal is Lease <==> goal@ is Lease,
        goal is Connect <==> goal@ is Connect,
        goal is Accept <==> goal@ is Accept,
        goal is Send <==> goal@ is Send,
        goal is Recv <==> goal@ is Recv,
        goal is RecvFrom <==> goal@ is RecvFrom,
        got is Done <==> got@ is Done,
        got is Peer <==> got@ is Peer,
        got is Bytes <==> got@ is Bytes,
        got is Parcel <==> got@ is Parcel,
        request is Clock <==> request@ is Clock,
        request is Poll <==> request@ is Poll,
        request is Say <==> request@ is Say,
        request is Send <==> request@ is Send,
        request is Receive <==> request@ is Receive,
        request is Park <==> request@ is Park,
        event is Time <==> event@ is Time,
        event is Done <==> event@ is Done,
        event is Frame <==> event@ is Frame,
        event is Refused <==> event@ is Refused,
        event is Failed <==> event@ is Failed,
        pump_step is Ask <==> pump_step@ is Ask,
        pump_step is Moved <==> pump_step@ is Moved,
        pump_step is Denied <==> pump_step@ is Denied,
        wait_step is Ask <==> wait_step@ is Ask,
        wait_step is Finished <==> wait_step@ is Finished,
        drain_step is Ask <==> drain_step@ is Ask,
        drain_step is Finished <==> drain_step@ is Finished,
{
}

/// Where frames came, the engine has a second turn at a new time, and only then is the round
/// over; where none came it is over at once, and has moved something if it sent anything.
pub proof fn law_received_frames_get_a_second_turn(round: Round, net: NetView, now: u64)
    ensures
        round.received_any ==> {
            let (again, turn) = received_all(round);
            let (polling, there, next) = pumped(again, net, Came::Time(now));
            &&& turn == Turn::Ask(Asked::Clock) && again.second
            &&& next matches Turn::Ask(Asked::Poll(_)) && there == net && polling.second
            &&& again.sent_any == round.sent_any && again.frames == round.frames
        },
        !round.received_any ==> received_all(round).1 == Turn::Moved(round.sent_any),
{
}

} // verus!
