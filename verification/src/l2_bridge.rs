//! `net.l2.bridge`: a learning bridge between two ports and one link.
//!
//! Frames pass unchanged. The bridge learns behind which port an address lives from the
//! frames it sends, forwards to where the destination was learned, and to everywhere else
//! where it was not.
use vstd::prelude::*;
use vstd::string::*;

use crate::bytes::slice_of;
use crate::l2::{Described, InterfaceInfo, L2Error, L2Failure, Mac};
use crate::l2_ports::{
    check_frame, frame_refusal, group_address, is_group, mac_at, port_address, port_mac, read_mac,
    same_mac, uplink_failed, uplink_failure, LinkInfo, Slot, UplinkError, DRAIN_BATCH, RX_QUEUE_CAP,
};
use crate::frames::{enqueued, FrameQueue};
use crate::l2_switch::{delivered, DrainStep, Drained, Queues, SwitchState};
use crate::slot::BringUpClaim;
use crate::text::same;

verus! {

/// The base of the port addresses of a bridge that was not configured.
pub const DEFAULT_BASE: Mac = (0x02, 0xe0, 0x09, 0x00, 0x01, 0x00);

/// Addresses that the table holds before the one learned longest ago is forgotten.
pub const LEARN_CAP: usize = 64;

/// The base of the port addresses.
pub fn mac_base(configured: Option<Mac>) -> (base: Mac)
    ensures
        base == match configured {
            Some(base) => base,
            None => DEFAULT_BASE,
        },
{
    match configured {
        Some(base) => base,
        None => DEFAULT_BASE,
    }
}

/// Where a station lives: behind one of the ports, or behind the link above.
#[derive(Clone, Copy, PartialEq, Eq, Structural, Debug)]
pub enum BridgePort {
    Consumer(Slot),
    Uplink,
}

/// A table of learned addresses, the one learned longest ago first.
pub type Table = Seq<(Mac, BridgePort)>;

/// The state of a bridge.
#[derive(Debug)]
pub struct BridgeState {
    /// What is known of the open link above; it is out while an operation uses it.
    pub uplink: Option<LinkInfo>,
    /// Whether the link above is out or being opened.
    pub claimed: bool,
    /// What was last known of the link above.
    pub params: Option<LinkInfo>,
    pub learned: Vec<(Mac, BridgePort)>,
    pub rx: SwitchState,
}

/// Whether an address is in a table.
pub open spec fn knows(table: Table, mac: Mac) -> bool {
    exists|i: int| 0 <= i < table.len() && #[trigger] table[i].0 == mac
}

/// Where an address stands in a table.
pub open spec fn place_of(table: Table, mac: Mac) -> int {
    choose|i: int| 0 <= i < table.len() && #[trigger] table[i].0 == mac
}

/// A table is bounded, names no address twice and holds no group address.
pub open spec fn table_wf(table: Table) -> bool {
    &&& table.len() <= LEARN_CAP
    &&& forall|i: int, j: int|
        0 <= i < j < table.len() ==> (#[trigger] table[i]).0 != (#[trigger] table[j]).0
    &&& forall|i: int| 0 <= i < table.len() ==> !is_group((#[trigger] table[i]).0)
}

/// A table after an address was seen on a port: it moves to the end; a new one makes
/// room by forgetting the first; a group address is never learned.
pub open spec fn taught(table: Table, mac: Mac, port: BridgePort) -> Table {
    if is_group(mac) {
        table
    } else if knows(table, mac) {
        table.remove(place_of(table, mac)).push((mac, port))
    } else if table.len() == LEARN_CAP {
        table.remove(0).push((mac, port))
    } else {
        table.push((mac, port))
    }
}

/// Where an address was learned, if it was.
pub open spec fn found(table: Table, mac: Mac) -> Option<BridgePort> {
    if knows(table, mac) {
        Some(table[place_of(table, mac)].1)
    } else {
        None
    }
}

/// Where a frame goes.
#[derive(Clone, Copy, PartialEq, Eq, Structural, Debug)]
pub enum Forward {
    /// Nowhere: its destination lives where it came from.
    Drop,
    /// To one port.
    Local(Slot),
    /// To the link above.
    Upstream,
    /// To everything except where it came from: to both ports, or to one port and the
    /// link above.
    Flood { to_consumer: Option<Slot>, and_upstream: bool },
}

/// Everything except where a frame came from.
pub open spec fn everywhere_else(ingress: BridgePort) -> Forward {
    match ingress {
        BridgePort::Consumer(slot) => Forward::Flood {
            to_consumer: Some(slot.other()),
            and_upstream: true,
        },
        BridgePort::Uplink => Forward::Flood { to_consumer: None, and_upstream: false },
    }
}

/// Where a frame from `ingress` to `dst` goes.
pub open spec fn decided(table: Table, ingress: BridgePort, dst: Mac) -> Forward {
    if is_group(dst) {
        everywhere_else(ingress)
    } else {
        match found(table, dst) {
            None => everywhere_else(ingress),
            Some(port) => if port == ingress {
                Forward::Drop
            } else {
                match port {
                    BridgePort::Consumer(slot) => Forward::Local(slot),
                    BridgePort::Uplink => Forward::Upstream,
                }
            },
        }
    }
}

/// The state of a provider, which starts with nothing learned and nothing queued.
pub fn with_state(state: &mut Option<BridgeState>) -> (there: &mut BridgeState)
    ensures
        *old(state) matches Some(before) ==> *there == before,
        *old(state) is None ==> {
            &&& there.uplink is None && !there.claimed && there.params is None
            &&& there.learned@ == Seq::<(Mac, BridgePort)>::empty()
            &&& there.rx@ == (Queues { a: Seq::empty(), b: Seq::empty() })
        },
        *final(state) == Some(*final(there)),
{
    if state.is_none() {
        *state = Some(
            BridgeState {
                uplink: None,
                claimed: false,
                params: None,
                learned: Vec::new(),
                rx: SwitchState { a: FrameQueue::new(), b: FrameQueue::new() },
            },
        );
    }
    state.as_mut().unwrap()
}

/// What taking the link above found.
#[derive(Debug)]
pub enum UplinkView {
    /// The link; it must be put back.
    Ready(LinkInfo),
    /// The other port uses it.
    Busy,
    /// The caller holds the claim to open it.
    NeedOpen(BringUpClaim),
}

/// What is said of an operation that finds the link above in use.
pub open spec fn busy_text(what: Seq<char>) -> L2Failure {
    L2Failure::Io(what + ": the uplink is busy with the sibling port's operation"@)
}

/// What an operation answers that finds the link above in use.
pub fn busy(what: &str) -> (error: L2Error)
    ensures
        error@ == busy_text(what@),
{
    let mut text = String::from_str(what);
    text.append(": the uplink is busy with the sibling port's operation");
    L2Error::Io(text)
}

/// The name of a port's interface.
pub open spec fn interface_name(slot: Slot) -> Seq<char> {
    match slot {
        Slot::A => "bridge-a"@,
        Slot::B => "bridge-b"@,
    }
}

fn name_of(slot: Slot) -> (name: &'static str)
    ensures
        name@ == interface_name(slot),
{
    match slot {
        Slot::A => "bridge-a",
        Slot::B => "bridge-b",
    }
}

/// What a port's interface reports; before a link was open it is down.
pub fn port_info(slot: Slot, base: Mac, uplink: Option<LinkInfo>) -> (info: InterfaceInfo)
    ensures
        info@ == (Described {
            name: interface_name(slot),
            mac: port_address(base, slot),
            mtu: match uplink {
                Some(link) => link.mtu,
                None => 0,
            },
            up: match uplink {
                Some(link) => link.up,
                None => false,
            },
        }),
{
    let (mtu, up): (u32, bool) = match uplink {
        Some(link) => (link.mtu, link.up),
        None => (0, false),
    };
    InterfaceInfo { name: String::from_str(name_of(slot)), mac: port_mac(base, slot), mtu, up }
}

/// Open a port's one interface by its name.
pub fn port_open(slot: Slot, name: &str) -> (result: Result<(), L2Error>)
    ensures
        match result {
            Ok(_) => name@ == interface_name(slot),
            Err(error) => error is NoSuchInterface && name@ != interface_name(slot),
        },
{
    if same(name, name_of(slot)) {
        Ok(())
    } else {
        Err(L2Error::NoSuchInterface)
    }
}

/// What a port's send comes to.
#[derive(Debug)]
pub enum SendStep {
    /// The frame is dealt with; so many bytes were accepted.
    Accepted(u64),
    /// Send the frame on the link above, then report with [`BridgeState::port_sent`].
    Upstream { frame: Vec<u8>, sibling: Option<Slot> },
    Refused(L2Error),
}

/// The queues and the answer of a port's send, once its source has been learned.
pub open spec fn sending(table: Table, queues: Queues, slot: Slot, frame: Seq<u8>) -> (
    Queues,
    Forward,
) {
    let way = decided(table, BridgePort::Consumer(slot), mac_at(frame, 0));
    match way {
        Forward::Local(to) => (delivered(queues, to, frame), way),
        _ => (queues, way),
    }
}

impl BridgeState {
    /// The table is sound.
    pub open spec fn wf(self) -> bool {
        table_wf(self.learned@)
    }

    /// Take the link above, or claim to open it.
    pub fn take_uplink(&mut self) -> (view: UplinkView)
        ensures
            final(self).learned@ == old(self).learned@,
            final(self).rx@ == old(self).rx@,
            final(self).params == old(self).params,
            match old(self).uplink {
                Some(link) => {
                    &&& view == UplinkView::Ready(link)
                    &&& final(self).uplink is None && final(self).claimed
                },
                None => if old(self).claimed {
                    &&& view is Busy
                    &&& final(self).uplink is None && final(self).claimed
                } else {
                    &&& view == UplinkView::NeedOpen(BringUpClaim { armed: true })
                    &&& final(self).uplink is None && final(self).claimed
                },
            },
    {
        match self.uplink.take() {
            Some(link) => {
                self.claimed = true;
                UplinkView::Ready(link)
            },
            None => if self.claimed {
                UplinkView::Busy
            } else {
                self.claimed = true;
                UplinkView::NeedOpen(BringUpClaim { armed: true })
            },
        }
    }

    /// The link above was opened by the operation that holds it.
    pub fn opened(&mut self, link: LinkInfo)
        ensures
            *final(self) == (BridgeState { params: Some(link), ..*old(self) }),
    {
        self.params = Some(link);
    }

    /// Put the link above back when an operation ends, however it ends.
    pub fn put_uplink(&mut self, link: LinkInfo)
        ensures
            *final(self) == (BridgeState { uplink: Some(link), claimed: false, ..*old(self) }),
    {
        self.uplink = Some(link);
        self.claimed = false;
    }

    /// Give the claim to open the link above up.
    pub fn give_up(&mut self, claim: BringUpClaim)
        ensures
            *final(self) == (BridgeState {
                claimed: if claim.armed {
                    false
                } else {
                    old(self).claimed
                },
                ..*old(self)
            }),
    {
        if claim.armed {
            self.claimed = false;
        }
    }

    fn position(&self, mac: Mac) -> (place: Option<usize>)
        requires
            self.wf(),
        ensures
            match place {
                Some(at) => {
                    &&& knows(self.learned@, mac)
                    &&& at == place_of(self.learned@, mac)
                    &&& at < self.learned@.len()
                },
                None => !knows(self.learned@, mac),
            },
    {
        let mut at: usize = 0;
        while at < self.learned.len()
            invariant
                self.wf(),
                at <= self.learned@.len(),
                forall|i: int| 0 <= i < at ==> (#[trigger] self.learned@[i]).0 != mac,
            decreases self.learned@.len() - at,
        {
            let entry = self.learned[at];
            if same_mac(entry.0, mac) {
                proof {
                    let there = place_of(self.learned@, mac);
                    assert(self.learned@[at as int].0 == mac);
                    assert(self.learned@[there].0 == mac);
                    if there < at {
                    } else if there > at {
                        assert(self.learned@[at as int].0 != self.learned@[there].0);
                    }
                }
                return Some(at);
            }
            at = at + 1;
        }
        None
    }

    /// An address was seen on a port.
    pub fn learn(&mut self, mac: Mac, port: BridgePort)
        requires
            old(self).wf(),
        ensures
            final(self).wf(),
            final(self).learned@ == taught(old(self).learned@, mac, port),
            final(self).rx == old(self).rx,
            final(self).uplink == old(self).uplink,
            final(self).claimed == old(self).claimed,
            final(self).params == old(self).params,
    {
        proof {
            law_table_stays_sound(self.learned@, mac, port);
        }
        if group_address(mac) {
            return;
        }
        match self.position(mac) {
            Some(at) => {
                let _old = self.learned.remove(at);
            },
            None => {
                if self.learned.len() == LEARN_CAP {
                    let _oldest = self.learned.remove(0);
                }
            },
        }
        self.learned.push((mac, port));
    }

    /// Where an address was learned.
    pub fn lookup(&self, mac: Mac) -> (port: Option<BridgePort>)
        requires
            self.wf(),
        ensures
            port == found(self.learned@, mac),
    {
        match self.position(mac) {
            Some(at) => Some(self.learned[at].1),
            None => None,
        }
    }

    /// Where a frame from `ingress` to `dst` goes.
    pub fn decide(&self, ingress: BridgePort, dst: Mac) -> (way: Forward)
        requires
            self.wf(),
        ensures
            way == decided(self.learned@, ingress, dst),
    {
        if !group_address(dst) {
            match self.lookup(dst) {
                Some(port) => {
                    return if port == ingress {
                        Forward::Drop
                    } else {
                        match port {
                            BridgePort::Consumer(slot) => Forward::Local(slot),
                            BridgePort::Uplink => Forward::Upstream,
                        }
                    };
                },
                None => {},
            }
        }
        match ingress {
            BridgePort::Consumer(slot) => Forward::Flood {
                to_consumer: Some(slot.sibling()),
                and_upstream: true,
            },
            BridgePort::Uplink => Forward::Flood { to_consumer: None, and_upstream: false },
        }
    }

    /// Put a frame into the queue of a port.
    pub fn enqueue(&mut self, slot: Slot, frame: Vec<u8>)
        ensures
            final(self).rx@ == delivered(old(self).rx@, slot, frame@),
            final(self).learned == old(self).learned,
            final(self).uplink == old(self).uplink,
            final(self).claimed == old(self).claimed,
            final(self).params == old(self).params,
    {
        crate::l2_switch::enqueue(&mut self.rx, slot, frame);
    }

    /// Deliver a frame that arrived on the link above.
    pub fn ingress_from_uplink(&mut self, frame: Vec<u8>)
        requires
            old(self).wf(),
        ensures
            final(self).wf(),
            final(self).uplink == old(self).uplink,
            final(self).claimed == old(self).claimed,
            final(self).params == old(self).params,
            (final(self).learned@, final(self).rx@) == arrived(
                old(self).learned@,
                old(self).rx@,
                frame@,
            ),
    {
        if frame.len() < 14 {
            return;
        }
        let dst = read_mac(&frame, 0);
        let src = read_mac(&frame, 6);
        self.learn(src, BridgePort::Uplink);
        match self.decide(BridgePort::Uplink, dst) {
            Forward::Drop | Forward::Upstream => {},
            Forward::Local(slot) => self.enqueue(slot, frame),
            Forward::Flood { .. } => {
                let copy = slice_of(&frame, 0, frame.len());
                assert(copy@ =~= frame@);
                self.enqueue(Slot::A, copy);
                self.enqueue(Slot::B, frame);
            },
        }
    }

    /// Take one receive attempt of a drain; `attempts` counts those before it.
    pub fn drain(&mut self, attempts: u32, drained: Drained) -> (step: DrainStep)
        requires
            old(self).wf(),
            attempts < DRAIN_BATCH,
        ensures
            final(self).wf(),
            final(self).uplink == old(self).uplink,
            final(self).claimed == old(self).claimed,
            final(self).params == old(self).params,
            match drained {
                Drained::Frame(frame) => if frame@.len() > 0 {
                    &&& (final(self).learned@, final(self).rx@) == arrived(
                        old(self).learned@,
                        old(self).rx@,
                        frame@,
                    )
                    &&& step == if attempts + 1 < DRAIN_BATCH {
                        DrainStep::Again
                    } else {
                        DrainStep::Over
                    }
                } else {
                    *final(self) == *old(self) && step is Over
                },
                Drained::Failed(error) => {
                    &&& *final(self) == *old(self)
                    &&& step matches DrainStep::Failed(failure) && failure@ == uplink_failed(
                        error,
                    )
                },
            },
    {
        match drained {
            Drained::Frame(frame) => if frame.len() > 0 {
                self.ingress_from_uplink(frame);
                if attempts + 1 < DRAIN_BATCH {
                    DrainStep::Again
                } else {
                    DrainStep::Over
                }
            } else {
                DrainStep::Over
            },
            Drained::Failed(error) => DrainStep::Failed(uplink_failure(error)),
        }
    }

    /// Accept a frame from a port: learn its source and forward it. Where the link above
    /// has a share in it, nothing is delivered yet.
    pub fn port_send(&mut self, slot: Slot, frame: Vec<u8>) -> (step: SendStep)
        requires
            old(self).wf(),
        ensures
            final(self).wf(),
            final(self).uplink == old(self).uplink,
            final(self).claimed == old(self).claimed,
            final(self).params == old(self).params,
            match frame_refusal(frame@) {
                Some(failure) => {
                    &&& step matches SendStep::Refused(error) && error@ == failure
                    &&& *final(self) == *old(self)
                },
                None => {
                    let table = taught(
                        old(self).learned@,
                        mac_at(frame@, 6),
                        BridgePort::Consumer(slot),
                    );
                    let (queues, way) = sending(table, old(self).rx@, slot, frame@);
                    &&& final(self).learned@ == table
                    &&& final(self).rx@ == queues
                    &&& match way {
                        Forward::Drop => step == SendStep::Accepted(frame@.len() as u64),
                        Forward::Local(_) => step == SendStep::Accepted(frame@.len() as u64),
                        Forward::Upstream => step matches SendStep::Upstream {
                            frame: out,
                            sibling,
                        } && out@ == frame@ && sibling is None,
                        Forward::Flood { to_consumer, .. } => step matches SendStep::Upstream {
                            frame: out,
                            sibling,
                        } && out@ == frame@ && sibling == to_consumer,
                    }
                },
            },
    {
        match check_frame(&frame) {
            Ok(_) => {},
            Err(error) => return SendStep::Refused(error),
        }
        let dst = read_mac(&frame, 0);
        let src = read_mac(&frame, 6);
        let ingress = BridgePort::Consumer(slot);
        self.learn(src, ingress);
        match self.decide(ingress, dst) {
            Forward::Drop => SendStep::Accepted(frame.len() as u64),
            Forward::Local(to) => {
                let len: u64 = frame.len() as u64;
                self.enqueue(to, frame);
                SendStep::Accepted(len)
            },
            Forward::Upstream => SendStep::Upstream { frame, sibling: None },
            Forward::Flood { to_consumer, .. } => SendStep::Upstream {
                frame,
                sibling: to_consumer,
            },
        }
    }

    /// The link above took or refused a frame: only now the other port gets its share.
    pub fn port_sent(
        &mut self,
        frame: Vec<u8>,
        sibling: Option<Slot>,
        sent: Result<u64, UplinkError>,
    ) -> (result: Result<u64, L2Error>)
        ensures
            final(self).learned == old(self).learned,
            final(self).uplink == old(self).uplink,
            final(self).claimed == old(self).claimed,
            final(self).params == old(self).params,
            match sent {
                Ok(len) => {
                    &&& result == Ok::<u64, L2Error>(len)
                    &&& final(self).rx@ == match sibling {
                        Some(slot) => delivered(old(self).rx@, slot, frame@),
                        None => old(self).rx@,
                    }
                },
                Err(error) => {
                    &&& result matches Err(failure) && failure@ == uplink_failed(error)
                    &&& final(self).rx@ == old(self).rx@
                },
            },
    {
        match sent {
            Ok(len) => {
                match sibling {
                    Some(slot) => self.enqueue(slot, frame),
                    None => {},
                }
                Ok(len)
            },
            Err(error) => Err(uplink_failure(error)),
        }
    }

    /// Take the oldest frame of a port's queue.
    pub fn port_recv(&mut self, slot: Slot) -> (frame: Option<Vec<u8>>)
        ensures
            final(self).learned == old(self).learned,
            final(self).uplink == old(self).uplink,
            final(self).claimed == old(self).claimed,
            final(self).params == old(self).params,
            final(self).rx@.of(slot.other()) == old(self).rx@.of(slot.other()),
            match frame {
                Some(frame) => {
                    &&& old(self).rx@.of(slot).len() > 0
                    &&& frame@ == old(self).rx@.of(slot)[0]
                    &&& final(self).rx@.of(slot) == old(self).rx@.of(slot).subrange(
                        1,
                        old(self).rx@.of(slot).len() as int,
                    )
                },
                None => old(self).rx@.of(slot).len() == 0 && final(self).rx@ == old(self).rx@,
            },
    {
        crate::l2_switch::port_recv(&mut self.rx, slot)
    }
}

/// The table and the queues after a frame arrived on the link above.
pub open spec fn arrived(table: Table, queues: Queues, frame: Seq<u8>) -> (Table, Queues) {
    if frame.len() < 14 {
        (table, queues)
    } else {
        let after = taught(table, mac_at(frame, 6), BridgePort::Uplink);
        (
            after,
            match decided(after, BridgePort::Uplink, mac_at(frame, 0)) {
                Forward::Drop => queues,
                Forward::Upstream => queues,
                Forward::Local(slot) => delivered(queues, slot, frame),
                Forward::Flood { .. } => delivered(
                    delivered(queues, Slot::A, frame),
                    Slot::B,
                    frame,
                ),
            },
        )
    }
}

/// Learning keeps a table bounded, without doubles and without group addresses.
pub proof fn law_table_stays_sound(table: Table, mac: Mac, port: BridgePort)
    requires
        table_wf(table),
    ensures
        table_wf(taught(table, mac, port)),
{
    let after = taught(table, mac, port);
    if !is_group(mac) {
        if knows(table, mac) {
            let at = place_of(table, mac);
            let rest = table.remove(at);
            assert(forall|i: int| 0 <= i < at ==> #[trigger] rest[i] == table[i]);
            assert(forall|i: int| at <= i < rest.len() ==> #[trigger] rest[i] == table[i + 1]);
            assert forall|i: int| 0 <= i < rest.len() implies (#[trigger] rest[i]).0 != mac by {
                if i < at {
                    assert(table[i].0 != table[at].0);
                } else {
                    assert(table[at].0 != table[i + 1].0);
                }
            }
            assert(forall|i: int| 0 <= i < rest.len() ==> #[trigger] after[i] == rest[i]);
        } else if table.len() == LEARN_CAP {
            let rest = table.remove(0);
            assert(forall|i: int| 0 <= i < rest.len() ==> #[trigger] rest[i] == table[i + 1]);
            assert(forall|i: int| 0 <= i < rest.len() ==> #[trigger] after[i] == rest[i]);
        }
    }
}

/// What was learned is found: the last sighting of a station decides where it lives.
pub proof fn law_last_sighting_counts(table: Table, mac: Mac, port: BridgePort)
    requires
        table_wf(table),
        !is_group(mac),
    ensures
        found(taught(table, mac, port), mac) == Some(port),
{
    law_table_stays_sound(table, mac, port);
    let after = taught(table, mac, port);
    let last = after.len() - 1;
    assert(after[last] == (mac, port));
    let there = place_of(after, mac);
    assert(after[there].0 == mac);
    if there < last {
        assert(after[there].0 != after[last].0);
    }
}

/// Learning one station forgets no other, except the one learned longest ago where the
/// table is full and the station is new.
pub proof fn law_others_are_kept(table: Table, mac: Mac, port: BridgePort, other: Mac)
    requires
        table_wf(table),
        other != mac,
        knows(table, mac) || table.len() < LEARN_CAP || table[0].0 != other,
    ensures
        found(taught(table, mac, port), other) == found(table, other),
{
    law_table_stays_sound(table, mac, port);
    let after = taught(table, mac, port);
    if is_group(mac) {
    } else {
        let cut = if knows(table, mac) {
            place_of(table, mac)
        } else if table.len() == LEARN_CAP {
            0
        } else {
            table.len() as int
        };
        let kept = |i: int| if i < cut {
            i
        } else {
            i - 1
        };
        if knows(table, other) {
            let at = place_of(table, other);
            assert(table[at].0 == other);
            assert(at != cut);
            let now = kept(at);
            assert(after[now] == table[at]);
            assert(knows(after, other));
            let there = place_of(after, other);
            assert(after[there].0 == other);
            if there < now {
                assert(after[there].0 != after[now].0);
            } else if now < there {
                assert(after[now].0 != after[there].0);
            }
        } else if knows(after, other) {
            let there = place_of(after, other);
            assert(after[there].0 == other);
            if there < after.len() - 1 {
                let before = if there < cut {
                    there
                } else {
                    there + 1
                };
                assert(after[there] == table[before]);
                assert(table[before].0 == other);
            }
        }
    }
}

/// A frame is never sent back where it came from.
pub proof fn law_never_reflected(table: Table, ingress: BridgePort, dst: Mac)
    ensures
        match decided(table, ingress, dst) {
            Forward::Drop => true,
            Forward::Local(slot) => ingress != BridgePort::Consumer(slot),
            Forward::Upstream => ingress != BridgePort::Uplink,
            Forward::Flood { to_consumer, and_upstream } => {
                &&& and_upstream ==> ingress != BridgePort::Uplink
                &&& to_consumer matches Some(slot) ==> ingress != BridgePort::Consumer(slot)
                &&& to_consumer is None ==> ingress == BridgePort::Uplink
            },
        },
{
}

/// A destination that was not learned, and every group, is reached everywhere else.
pub proof fn law_unknown_is_flooded(table: Table, ingress: BridgePort, dst: Mac)
    requires
        is_group(dst) || !knows(table, dst),
    ensures
        decided(table, ingress, dst) == everywhere_else(ingress),
{
}

/// Frames between the two ports whose stations are known never touch the link above.
pub proof fn law_local_traffic_stays_local(table: Table, slot: Slot, dst: Mac)
    requires
        !is_group(dst),
        found(table, dst) == Some(BridgePort::Consumer(slot.other())),
    ensures
        decided(table, BridgePort::Consumer(slot), dst) == Forward::Local(slot.other()),
{
}

/// A frame that the link above has a share in is delivered to no port before that link took
/// it, so a failure of the link means that nothing was delivered.
pub proof fn law_nothing_before_upstream(
    table: Table,
    queues: Queues,
    slot: Slot,
    frame: Seq<u8>,
)
    ensures
        ({
            let (after, way) = sending(table, queues, slot, frame);
            way is Upstream || way is Flood ==> after == queues
        }),
{
}

/// Everywhere else is everywhere: from a port, the other port and the link above; from the
/// link above, both ports.
pub proof fn law_flood_reaches_everyone(table: Table, queues: Queues, slot: Slot, frame: Seq<u8>)
    requires
        frame.len() >= 14,
        mac_at(frame, 0).0 % 2 == 1 || !knows(table, mac_at(frame, 0)),
        mac_at(frame, 0) != mac_at(frame, 6),
        table_wf(table),
    ensures
        decided(table, BridgePort::Consumer(slot), mac_at(frame, 0)) == (Forward::Flood {
            to_consumer: Some(
                if slot == Slot::A {
                    Slot::B
                } else {
                    Slot::A
                },
            ),
            and_upstream: true,
        }),
        arrived(table, queues, frame).1.of(Slot::A) == enqueued(
            queues.of(Slot::A),
            RX_QUEUE_CAP as nat,
            frame,
        ),
        arrived(table, queues, frame).1.of(Slot::B) == enqueued(
            queues.of(Slot::B),
            RX_QUEUE_CAP as nat,
            frame,
        ),
{
    let after = taught(table, mac_at(frame, 6), BridgePort::Uplink);
    if !is_group(mac_at(frame, 0)) && knows(after, mac_at(frame, 0)) {
        let i = place_of(after, mac_at(frame, 0));
        lemma_taught_knows(table, mac_at(frame, 6), BridgePort::Uplink, i);
    }
}

proof fn lemma_taught_knows(table: Table, mac: Mac, port: BridgePort, i: int)
    requires
        0 <= i < taught(table, mac, port).len(),
        taught(table, mac, port)[i].0 != mac,
    ensures
        knows(table, taught(table, mac, port)[i].0),
{
    let after = taught(table, mac, port);
    if is_group(mac) {
        assert(table[i].0 == after[i].0);
    } else if knows(table, mac) {
        let at = place_of(table, mac);
        assert(0 <= at < table.len());
        if i < at {
            assert(table[i].0 == after[i].0);
        } else {
            assert(table[i + 1].0 == after[i].0);
        }
    } else if table.len() == LEARN_CAP {
        assert(table[i + 1].0 == after[i].0);
    } else {
        assert(table[i].0 == after[i].0);
    }
}

/// A frame for a station that was last seen on a port goes there and nowhere else: to that
/// port, unchanged and behind what waits there, or to the link above; and nowhere where it
/// lives on the side that the frame came from.
pub proof fn law_known_station_gets_its_frame(
    table: Table,
    queues: Queues,
    slot: Slot,
    frame: Seq<u8>,
    port: BridgePort,
)
    requires
        mac_at(frame, 0).0 % 2 == 0,
        found(table, mac_at(frame, 0)) == Some(port),
    ensures
        ({
            let (after, way) = sending(table, queues, slot, frame);
            match port {
                BridgePort::Uplink => way is Upstream && after == queues,
                BridgePort::Consumer(there) => if there == slot {
                    way is Drop && after == queues
                } else {
                    &&& way == Forward::Local(there)
                    &&& after.of(there) == enqueued(queues.of(there), RX_QUEUE_CAP as nat, frame)
                    &&& after.of(slot) == queues.of(slot)
                },
            }
        }),
{
}

/// What arrives from the link above teaches the bridge that its sender lives there, and goes
/// to the port behind which its destination lives, and to no other.
pub proof fn law_arrival_is_delivered(
    table: Table,
    queues: Queues,
    frame: Seq<u8>,
    slot: Slot,
)
    requires
        table_wf(table),
        frame.len() >= 14,
        mac_at(frame, 0).0 % 2 == 0,
        mac_at(frame, 6).0 % 2 == 0,
    ensures
        ({
            let (learned, after) = arrived(table, queues, frame);
            &&& found(learned, mac_at(frame, 6)) == Some(BridgePort::Uplink)
            &&& found(learned, mac_at(frame, 0)) == Some(BridgePort::Consumer(slot)) ==> {
                &&& after.of(slot) == enqueued(queues.of(slot), RX_QUEUE_CAP as nat, frame)
                &&& after.of(slot.other()) == queues.of(slot.other())
            }
            &&& found(learned, mac_at(frame, 0)) == Some(BridgePort::Uplink) ==> after == queues
        }),
{
    law_last_sighting_counts(table, mac_at(frame, 6), BridgePort::Uplink);
}

/// What is too short to have addresses teaches nothing and goes nowhere.
pub proof fn law_short_arrival_is_dropped(table: Table, queues: Queues, frame: Seq<u8>)
    requires
        frame.len() < 14,
    ensures
        arrived(table, queues, frame) == (table, queues),
{
}

} // verus!
