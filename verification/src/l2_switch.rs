//! `net.l2.switch`: two virtual interfaces over one link, each with its own address.
//!
//! What a port sends leaves under the port's address; what arrives goes to the port it
//! is addressed to, or to both where it is addressed to a group, and nowhere else.
use vstd::prelude::*;
use vstd::string::*;

use crate::bytes::{push_all, slice_of};
use crate::device::labelled;
use crate::disk_virtio::{poll_eager, Polled};
use crate::frames::{enqueued, law_newest_wins, FrameQueue};
use crate::l2::{
    mac_array, mac_bytes, Described, InterfaceInfo, L2Error, L2Failure, Mac,
};
use crate::l2_ports::{
    check_frame, frame_refusal, group_address, is_group, mac_at, port_address, port_mac, read_mac,
    same_mac, uplink_failed, uplink_failure, LinkInfo, Slot, UplinkError, DRAIN_BATCH,
    RX_QUEUE_CAP,
};
use crate::text::same;

verus! {

/// The base of the port addresses of a switch that was not configured.
pub const DEFAULT_BASE: Mac = (0x02, 0xe0, 0x09, 0x00, 0x00, 0x00);

/// The base of the port addresses.
pub fn mac_base(configured: Option<Mac>) -> (base: Mac)
    ensures
        base == match configured {
            Some(base) => base,
            None => DEFAULT_BASE,
        },
{
    match configured {
        Some(base) => base,
        None => DEFAULT_BASE,
    }
}

/// The queues of the two ports.
#[derive(Debug)]
pub struct SwitchState {
    pub a: FrameQueue,
    pub b: FrameQueue,
}

/// The queues of the two ports, over contents.
#[verifier::ext_equal]
pub struct Queues {
    pub a: Seq<Seq<u8>>,
    pub b: Seq<Seq<u8>>,
}

impl View for SwitchState {
    type V = Queues;

    open spec fn view(&self) -> Queues {
        Queues { a: self.a@, b: self.b@ }
    }
}

impl Queues {
    /// The queue of a port.
    pub open spec fn of(self, slot: Slot) -> Seq<Seq<u8>> {
        match slot {
            Slot::A => self.a,
            Slot::B => self.b,
        }
    }

    /// No queue is longer than its bound.
    pub open spec fn wf(self) -> bool {
        self.a.len() <= RX_QUEUE_CAP && self.b.len() <= RX_QUEUE_CAP
    }
}

/// The state of a provider, which starts with empty queues.
pub fn with_state(state: &mut Option<SwitchState>) -> (there: &mut SwitchState)
    ensures
        *old(state) matches Some(before) ==> *there == before,
        *old(state) is None ==> there@ == (Queues { a: Seq::empty(), b: Seq::empty() }),
        *final(state) == Some(*final(there)),
{
    if state.is_none() {
        *state = Some(SwitchState { a: FrameQueue::new(), b: FrameQueue::new() });
    }
    state.as_mut().unwrap()
}

/// The queues after a frame was put into one.
pub open spec fn delivered(queues: Queues, slot: Slot, frame: Seq<u8>) -> Queues {
    match slot {
        Slot::A => Queues { a: enqueued(queues.a, RX_QUEUE_CAP as nat, frame), ..queues },
        Slot::B => Queues { b: enqueued(queues.b, RX_QUEUE_CAP as nat, frame), ..queues },
    }
}

/// Put a frame into the queue of a port.
pub fn enqueue(state: &mut SwitchState, slot: Slot, frame: Vec<u8>)
    ensures
        final(state)@ == delivered(old(state)@, slot, frame@),
{
    match slot {
        Slot::A => state.a.push(RX_QUEUE_CAP, frame),
        Slot::B => state.b.push(RX_QUEUE_CAP, frame),
    }
}

/// The queues after a frame arrived: a group address reaches both ports, a port's own
/// address that port alone, any other address none.
pub open spec fn demuxed(queues: Queues, base: Mac, frame: Seq<u8>) -> Queues {
    if frame.len() < 14 {
        queues
    } else {
        let dst = mac_at(frame, 0);
        if is_group(dst) {
            delivered(delivered(queues, Slot::A, frame), Slot::B, frame)
        } else if dst == port_address(base, Slot::A) {
            delivered(queues, Slot::A, frame)
        } else if dst == port_address(base, Slot::B) {
            delivered(queues, Slot::B, frame)
        } else {
            queues
        }
    }
}

/// Deliver a frame that arrived.
pub fn demux(state: &mut SwitchState, base: Mac, frame: Vec<u8>)
    ensures
        final(state)@ == demuxed(old(state)@, base, frame@),
{
    if frame.len() < 14 {
        return;
    }
    let dst = read_mac(&frame, 0);
    if group_address(dst) {
        let copy = slice_of(&frame, 0, frame.len());
        assert(copy@ =~= frame@);
        enqueue(state, Slot::A, copy);
        enqueue(state, Slot::B, frame);
    } else if same_mac(dst, port_mac(base, Slot::A)) {
        enqueue(state, Slot::A, frame);
    } else if same_mac(dst, port_mac(base, Slot::B)) {
        enqueue(state, Slot::B, frame);
    }
}

/// What is said when the link above does not answer at once.
pub open spec fn suspended(what: Seq<char>) -> L2Failure {
    L2Failure::Io(labelled(what, "the upstream l2 provider suspended"@))
}

/// Drive an operation of the link above that completes without suspending.
pub fn eager<T>(what: &str, polled: Polled<T>) -> (result: Result<T, L2Error>)
    ensures
        match polled {
            Polled::Ready(value) => result == Ok::<T, L2Error>(value),
            Polled::Pending => result matches Err(error) && error@ == suspended(what@),
        },
{
    match poll_eager(polled) {
        Some(value) => Ok(value),
        None => {
            let mut text = String::from_str(what);
            text.append(": ");
            text.append("the upstream l2 provider suspended");
            Err(L2Error::Io(text))
        },
    }
}

/// The name of a port's interface.
pub open spec fn interface_name(slot: Slot) -> Seq<char> {
    match slot {
        Slot::A => "vnic-a"@,
        Slot::B => "vnic-b"@,
    }
}

fn name_of(slot: Slot) -> (name: &'static str)
    ensures
        name@ == interface_name(slot),
{
    match slot {
        Slot::A => "vnic-a",
        Slot::B => "vnic-b",
    }
}

/// What a port's interface reports; without a link above it is down.
pub fn port_info(slot: Slot, base: Mac, uplink: Option<LinkInfo>) -> (info: InterfaceInfo)
    ensures
        info@ == (Described {
            name: interface_name(slot),
            mac: port_address(base, slot),
            mtu: match uplink {
                Some(link) => link.mtu,
                None => 0,
            },
            up: match uplink {
                Some(link) => link.up,
                None => false,
            },
        }),
{
    let (mtu, up): (u32, bool) = match uplink {
        Some(link) => (link.mtu, link.up),
        None => (0, false),
    };
    InterfaceInfo { name: String::from_str(name_of(slot)), mac: port_mac(base, slot), mtu, up }
}

/// Open a port's one interface by its name.
pub fn port_open(slot: Slot, name: &str) -> (result: Result<(), L2Error>)
    ensures
        match result {
            Ok(_) => name@ == interface_name(slot),
            Err(error) => error is NoSuchInterface && name@ != interface_name(slot),
        },
{
    if same(name, name_of(slot)) {
        Ok(())
    } else {
        Err(L2Error::NoSuchInterface)
    }
}

/// A frame under another source address.
pub open spec fn sourced(frame: Seq<u8>, source: Mac) -> Seq<u8> {
    frame.subrange(0, 6) + mac_bytes(source) + frame.subrange(12, frame.len() as int)
}

/// The frame that leaves when a port sends one: the same under the port's address.
pub fn port_send(slot: Slot, base: Mac, frame: Vec<u8>) -> (result: Result<Vec<u8>, L2Error>)
    ensures
        match result {
            Ok(out) => frame_refusal(frame@) is None && out@ == sourced(
                frame@,
                port_address(base, slot),
            ),
            Err(error) => frame_refusal(frame@) == Some(error@),
        },
{
    match check_frame(&frame) {
        Ok(_) => {},
        Err(error) => return Err(error),
    }
    let mut out = slice_of(&frame, 0, 6);
    push_all(&mut out, &mac_array(port_mac(base, slot)));
    push_all(&mut out, &slice_of(&frame, 12, frame.len()));
    Ok(out)
}

/// What a receive attempt on the link above gave.
#[derive(Debug)]
pub enum Drained {
    /// A frame; an empty one means that nothing is waiting.
    Frame(Vec<u8>),
    Failed(UplinkError),
}

/// What a drain does next.
#[derive(Debug)]
pub enum DrainStep {
    /// Try to receive once more.
    Again,
    /// The drain is over.
    Over,
    Failed(L2Error),
}

/// Take one receive attempt of a drain; `attempts` counts those before it.
pub fn drain(state: &mut SwitchState, base: Mac, attempts: u32, drained: Drained) -> (step:
    DrainStep)
    requires
        attempts < DRAIN_BATCH,
    ensures
        match drained {
            Drained::Frame(frame) => if frame@.len() > 0 {
                &&& final(state)@ == demuxed(old(state)@, base, frame@)
                &&& step == if attempts + 1 < DRAIN_BATCH {
                    DrainStep::Again
                } else {
                    DrainStep::Over
                }
            } else {
                final(state)@ == old(state)@ && step is Over
            },
            Drained::Failed(error) => {
                &&& final(state)@ == old(state)@
                &&& step matches DrainStep::Failed(failure) && failure@ == uplink_failed(error)
            },
        },
{
    match drained {
        Drained::Frame(frame) => if frame.len() > 0 {
            demux(state, base, frame);
            if attempts + 1 < DRAIN_BATCH {
                DrainStep::Again
            } else {
                DrainStep::Over
            }
        } else {
            DrainStep::Over
        },
        Drained::Failed(error) => DrainStep::Failed(uplink_failure(error)),
    }
}

/// Take the oldest frame of a port's queue.
pub fn port_recv(state: &mut SwitchState, slot: Slot) -> (frame: Option<Vec<u8>>)
    ensures
        final(state)@.of(slot.other()) == old(state)@.of(slot.other()),
        match frame {
            Some(frame) => {
                &&& old(state)@.of(slot).len() > 0
                &&& frame@ == old(state)@.of(slot)[0]
                &&& final(state)@.of(slot) == old(state)@.of(slot).subrange(
                    1,
                    old(state)@.of(slot).len() as int,
                )
            },
            None => old(state)@.of(slot).len() == 0 && final(state)@ == old(state)@,
        },
{
    match slot {
        Slot::A => state.a.pop(),
        Slot::B => state.b.pop(),
    }
}

/// A port sees only what is addressed to it or to a group: nothing else ever enters its
/// queue.
pub proof fn law_ports_are_isolated(queues: Queues, base: Mac, frame: Seq<u8>, slot: Slot)
    requires
        frame.len() >= 14,
        !is_group(mac_at(frame, 0)),
        mac_at(frame, 0) != port_address(base, slot),
    ensures
        demuxed(queues, base, frame).of(slot) == queues.of(slot),
{
}

/// Whatever a port sends leaves under the port's own address and is otherwise unchanged.
pub proof fn law_source_is_own(frame: Seq<u8>, base: Mac, slot: Slot)
    requires
        frame_refusal(frame) is None,
    ensures
        mac_at(sourced(frame, port_address(base, slot)), 6) == port_address(base, slot),
        sourced(frame, port_address(base, slot)).len() == frame.len(),
        forall|i: int|
            0 <= i < frame.len() && !(6 <= i < 12) ==> sourced(frame, port_address(base, slot))[i]
                == frame[i],
{
}

/// Queues stay within their bound.
pub proof fn law_queues_stay_bounded(queues: Queues, base: Mac, frame: Seq<u8>)
    requires
        queues.wf(),
    ensures
        demuxed(queues, base, frame).wf(),
{
}

/// A frame for a group reaches both ports, a frame for a port that port.
pub proof fn law_own_traffic_arrives(queues: Queues, base: Mac, frame: Seq<u8>, slot: Slot)
    requires
        frame.len() >= 14,
        is_group(mac_at(frame, 0)) || mac_at(frame, 0) == port_address(base, slot),
        !is_group(port_address(base, slot)),
    ensures
        demuxed(queues, base, frame).of(slot) == enqueued(
            queues.of(slot),
            RX_QUEUE_CAP as nat,
            frame,
        ),
{
    crate::l2_ports::law_port_addresses_differ(base);
}

/// A frame that is delivered stands behind what waits at that port; the other port gets
/// nothing, and only a full queue loses a frame, its oldest.
pub proof fn law_delivery_is_to_one_port(queues: Queues, slot: Slot, frame: Seq<u8>)
    requires
        queues.wf(),
    ensures
        ({
            let after = delivered(queues, slot, frame);
            let (before, there) = (queues.of(slot), after.of(slot));
            &&& after.of(slot.other()) == queues.of(slot.other())
            &&& there.len() > 0 && there.last() == frame
            &&& before.len() < 32 ==> there == before.push(frame)
            &&& before.len() == 32 ==> there.len() == 32 && there.drop_last() == before.skip(1)
        }),
{
    let before = queues.of(slot);
    law_newest_wins(before, RX_QUEUE_CAP as nat, frame);
    if before.len() == 32 {
        assert(before.subrange(1, 32) =~= before.skip(1));
    } else {
        assert(before.push(frame).drop_last() =~= before);
    }
}

/// What is too short to have addresses is not delivered.
pub proof fn law_short_frames_go_nowhere(queues: Queues, base: Mac, frame: Seq<u8>)
    requires
        frame.len() < 14,
    ensures
        demuxed(queues, base, frame) == queues,
{
}

} // verus!
