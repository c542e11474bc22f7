//! `net.rtl8125`: whole Ethernet frames through an RTL8125 controller.
//!
//! [`Tx`] sends one frame, after settling what a cancelled transmit left behind; [`Rx`]
//! takes the next frame and arms consumed descriptors again, one cache line at a time;
//! [`Bringup`] strings the register programs and the two loopback tests together.
use vstd::prelude::*;
use vstd::string::*;

use crate::bytes::{push_all, push_zeros, zero_bytes};
use crate::device::{count, counted, labelled};
use crate::l2::{
    io, mac_array, mac_bytes, Described, InterfaceInfo, L2Error, L2Failure, Mac,
};
use crate::rtl8125::{xid_from_tx_config, xid_of, Bits, Chip, Link, Notes, Op, Tables, XID_8125A};
use crate::rtl8125_programs::{
    configuration, configuration_program, identity, leave_mac_loopback, mac_loopback, outlook,
    phy_loopback, phy_loopback_settle, push_identity, push_leave_mac_loopback, push_mac_loopback,
    push_outlook, push_phy_loopback, push_phy_loopback_settle, takeover, takeover_program, Wish,
    RX_RING_BASE,
};
use crate::text::{decimal, format_mac, hex, mac_text, push_decimal, push_hex, same};

verus! {

/// Descriptors of each ring.
pub const SLOTS: u16 = 32;

/// Bytes of one receive slot, and of the transmit buffer.
pub const SLOT_BYTES: u64 = 2048;

/// The largest frame that can be sent.
pub const MAX_FRAME: u64 = 2048;

/// The shortest frame on the wire; shorter ones are padded.
pub const MIN_FRAME: usize = 60;

/// Descriptors that share a cache line.
pub const LINE_SLOTS: u16 = 4;

/// The payload size that the interface reports.
pub const MTU: u32 = 1500;

/// The alignment that the chip wants of its rings.
pub const RING_ALIGN: u64 = 256;

/// How often a transmit descriptor is read before the transmit counts as lost, and a
/// receive descriptor before nothing is waiting.
pub const TX_POLL_LIMIT: u64 = 2_000_000;

pub const RX_POLL_LIMIT: u64 = 2_000;

/// How many receive windows a loopback test listens.
pub const LOOP_WINDOWS: u32 = 30;

/// A brought-up controller.
#[derive(Clone, Copy, Debug)]
pub struct Nic {
    /// Descriptors published and completions consumed so far, counting round.
    pub tx_published: u16,
    pub tx_consumed: u16,
    /// Receive descriptors consumed so far, counting round.
    pub rx_cursor: u16,
    pub mac: Mac,
    pub link: Link,
    /// Whether the receive report was made.
    pub diagnosed: bool,
    /// Receive slots consumed and lines armed again, counting round.
    pub slots_consumed: u64,
    pub lines_rearmed: u64,
    /// The address of the transmit buffer, as the device sees it.
    pub tx_address: u64,
}

/// A transmit descriptor to write.
#[derive(Clone, Copy, PartialEq, Eq, Structural, Debug)]
pub struct TxDescriptor {
    pub slot: u16,
    pub address: u64,
    pub len: u16,
    /// Whether it ends the ring.
    pub last: bool,
}

/// A receive descriptor to write.
#[derive(Clone, Copy, PartialEq, Eq, Structural, Debug)]
pub struct RxDescriptor {
    pub slot: u16,
    pub address: u64,
    pub len: u16,
    /// Whether it ends the ring.
    pub last: bool,
}

/// The receive descriptor of a slot.
pub open spec fn posted(base: u64, slot: int) -> RxDescriptor {
    RxDescriptor {
        slot: slot as u16,
        address: (base + slot * SLOT_BYTES) as u64,
        len: SLOT_BYTES as u16,
        last: slot == SLOTS - 1,
    }
}

/// Descriptors that post every receive slot from `first` up to `end`.
pub fn post_slots(base: u64, first: u16, end: u16) -> (posts: Vec<RxDescriptor>)
    requires
        base + SLOTS * SLOT_BYTES <= u64::MAX,
        first <= end <= SLOTS,
    ensures
        posts@ == Seq::new((end - first) as nat, |i: int| posted(base, first + i)),
{
    let mut posts: Vec<RxDescriptor> = Vec::new();
    let mut slot: u16 = first;
    while slot < end
        invariant
            base + SLOTS * SLOT_BYTES <= u64::MAX,
            first <= slot <= end <= SLOTS,
            posts@ == Seq::new((slot - first) as nat, |i: int| posted(base, first + i)),
        decreases end - slot,
    {
        posts.push(
            RxDescriptor {
                slot,
                address: base + slot as u64 * SLOT_BYTES,
                len: SLOT_BYTES as u16,
                last: slot == SLOTS - 1,
            },
        );
        slot = slot + 1;
        assert(posts@ =~= Seq::new((slot - first) as nat, |i: int| posted(base, first + i)));
    }
    posts
}

/// A frame padded with zeros to the shortest length.
pub open spec fn padded(frame: Seq<u8>) -> Seq<u8> {
    if frame.len() < MIN_FRAME {
        frame + zero_bytes((MIN_FRAME - frame.len()) as nat)
    } else {
        frame
    }
}

/// What a transmit waits for.
#[derive(Clone, Copy, PartialEq, Eq, Structural, Debug)]
pub enum Stage {
    /// The completion of a transmit that was cancelled.
    Draining,
    /// Its own completion.
    Issued,
}

/// Where a transmit stands.
#[derive(Clone, Copy, PartialEq, Eq, Structural, Debug)]
pub enum TxPhase {
    /// Ringing the doorbell.
    Kick { spins: u64 },
    /// Watching the descriptor.
    Look { spins: u64 },
}

/// One frame that is being sent.
#[derive(Debug)]
pub struct Tx {
    pub frame: Vec<u8>,
    pub stage: Stage,
    pub phase: TxPhase,
}

/// One frame that is being sent, over contents.
pub struct Sending {
    pub frame: Seq<u8>,
    pub stage: Stage,
    pub phase: TxPhase,
}

impl View for Tx {
    type V = Sending;

    open spec fn view(&self) -> Sending {
        Sending { frame: self.frame@, stage: self.stage, phase: self.phase }
    }
}

/// What became of a step of a transmit.
#[derive(Debug)]
pub enum TxEvent {
    /// The doorbell was rung.
    Rung,
    /// The doorbell could not be rung; the text names the error.
    Unrung(String),
    /// The descriptor was read: does the chip still own it?
    Owned(bool),
}

/// What became of a step of a transmit, over contents.
pub enum TxNews {
    Rung,
    Unrung(Seq<char>),
    Owned(bool),
}

impl View for TxEvent {
    type V = TxNews;

    open spec fn view(&self) -> TxNews {
        match self {
            TxEvent::Rung => TxNews::Rung,
            TxEvent::Unrung(error) => TxNews::Unrung(error@),
            TxEvent::Owned(owned) => TxNews::Owned(*owned),
        }
    }
}

/// What a transmit does next.
#[derive(Debug)]
pub enum TxStep {
    /// Put these bytes into the transmit buffer, write the descriptor, ring the doorbell.
    Publish(Vec<u8>, TxDescriptor),
    /// Ring the doorbell.
    Ring,
    /// Read the transmit descriptor of this slot.
    Look(u16),
    /// The chip took the frame; this is its length.
    Sent(u64),
    Failed(String),
}

/// What a transmit does next, over contents.
pub enum TxAnswer {
    Publish(Seq<u8>, TxDescriptor),
    Ring,
    Look(u16),
    Sent(u64),
    Failed(Seq<char>),
}

impl View for TxStep {
    type V = TxAnswer;

    open spec fn view(&self) -> TxAnswer {
        match self {
            TxStep::Publish(bytes, descriptor) => TxAnswer::Publish(bytes@, *descriptor),
            TxStep::Ring => TxAnswer::Ring,
            TxStep::Look(slot) => TxAnswer::Look(*slot),
            TxStep::Sent(len) => TxAnswer::Sent(*len),
            TxStep::Failed(text) => TxAnswer::Failed(text@),
        }
    }
}

/// A transmit at its start and after each completion that it drained: the frame is
/// published only once everything that was published before has been consumed.
pub open spec fn tx_settled(nic: Nic, sending: Sending, spins: u64) -> (Nic, Sending, TxAnswer) {
    if nic.tx_consumed != nic.tx_published {
        (
            nic,
            Sending { stage: Stage::Draining, phase: TxPhase::Kick { spins }, ..sending },
            TxAnswer::Ring,
        )
    } else {
        let slot = nic.tx_published % SLOTS;
        (
            Nic { tx_published: counted(nic.tx_published), ..nic },
            Sending { stage: Stage::Issued, phase: TxPhase::Kick { spins: 0 }, ..sending },
            TxAnswer::Publish(
                padded(sending.frame),
                TxDescriptor {
                    slot,
                    address: nic.tx_address,
                    len: padded(sending.frame).len() as u16,
                    last: slot == SLOTS - 1,
                },
            ),
        )
    }
}

/// A transmit after an event.
pub open spec fn tx_next(nic: Nic, sending: Sending, news: TxNews) -> (Nic, Sending, TxAnswer) {
    match (sending.phase, news) {
        (_, TxNews::Unrung(error)) => (
            nic,
            sending,
            TxAnswer::Failed(labelled("net.rtl8125: register write"@, error)),
        ),
        (TxPhase::Look { spins }, TxNews::Owned(false)) => {
            let after = Nic { tx_consumed: counted(nic.tx_consumed), ..nic };
            if sending.stage == Stage::Draining {
                tx_settled(after, sending, spins)
            } else {
                (after, sending, TxAnswer::Sent(sending.frame.len() as u64))
            }
        },
        (TxPhase::Look { spins }, TxNews::Owned(true)) => if spins >= TX_POLL_LIMIT {
            (
                nic,
                sending,
                TxAnswer::Failed(
                    if sending.stage == Stage::Draining {
                        "net.rtl8125: the chip did not complete a cancelled transmit (poll limit)"@
                    } else {
                        "net.rtl8125: the chip did not consume the transmitted frame (poll limit)"@
                    },
                ),
            )
        } else {
            (
                nic,
                Sending { phase: TxPhase::Look { spins: (spins + 1) as u64 }, ..sending },
                TxAnswer::Look(nic.tx_consumed % SLOTS),
            )
        },
        (TxPhase::Kick { spins }, _) => (
            nic,
            Sending { phase: TxPhase::Look { spins }, ..sending },
            TxAnswer::Look(nic.tx_consumed % SLOTS),
        ),
        (TxPhase::Look { .. }, _) => (nic, sending, TxAnswer::Look(nic.tx_consumed % SLOTS)),
    }
}

impl Sending {
    /// The frame fits; polls stay within their limit; the frame in flight is the only
    /// thing that the chip has not consumed; what is drained is something that it has not
    /// consumed.
    pub open spec fn wf(self, nic: Nic) -> bool {
        &&& self.frame.len() <= MAX_FRAME
        &&& match self.phase {
            TxPhase::Kick { spins } => spins <= TX_POLL_LIMIT,
            TxPhase::Look { spins } => spins <= TX_POLL_LIMIT,
        }
        &&& self.stage == Stage::Issued ==> nic.tx_published == counted(nic.tx_consumed)
        &&& self.stage == Stage::Draining ==> nic.tx_published != nic.tx_consumed
    }
}

impl Tx {
    fn settle(&mut self, nic: &mut Nic, spins: u64) -> (step: TxStep)
        requires
            old(self).frame@.len() <= MAX_FRAME,
            spins <= TX_POLL_LIMIT,
        ensures
            final(self)@.wf(*final(nic)),
            (*final(nic), final(self)@, step@) == tx_settled(*old(nic), old(self)@, spins),
    {
        if nic.tx_consumed != nic.tx_published {
            self.stage = Stage::Draining;
            self.phase = TxPhase::Kick { spins };
            return TxStep::Ring;
        }
        let slot: u16 = nic.tx_published % SLOTS;
        let mut packet: Vec<u8> = Vec::new();
        push_all(&mut packet, &self.frame);
        if self.frame.len() < MIN_FRAME {
            push_zeros(&mut packet, MIN_FRAME - self.frame.len());
        }
        assert(packet@ =~= padded(self.frame@));
        nic.tx_published = count(nic.tx_published);
        self.stage = Stage::Issued;
        self.phase = TxPhase::Kick { spins: 0 };
        let descriptor = TxDescriptor {
            slot,
            address: nic.tx_address,
            len: packet.len() as u16,
            last: slot == SLOTS - 1,
        };
        TxStep::Publish(packet, descriptor)
    }

    /// Begin to send a frame.
    pub fn new(nic: &mut Nic, frame: Vec<u8>) -> (begun: (Tx, TxStep))
        requires
            frame@.len() <= MAX_FRAME,
        ensures
            begun.0@.wf(*final(nic)),
            (*final(nic), begun.0@, begun.1@) == tx_settled(
                *old(nic),
                (Sending {
                    frame: frame@,
                    stage: Stage::Draining,
                    phase: TxPhase::Kick { spins: 0 },
                }),
                0,
            ),
    {
        let mut tx = Tx { frame, stage: Stage::Draining, phase: TxPhase::Kick { spins: 0 } };
        let step = tx.settle(nic, 0);
        (tx, step)
    }

    /// Take what became of the pending step and say what comes next.
    pub fn next(&mut self, nic: &mut Nic, event: TxEvent) -> (step: TxStep)
        requires
            old(self)@.wf(*old(nic)),
        ensures
            !(step@ is Sent) ==> final(self)@.wf(*final(nic)),
            (*final(nic), final(self)@, step@) == tx_next(*old(nic), old(self)@, event@),
    {
        let slot: u16 = nic.tx_consumed % SLOTS;
        match (self.phase, event) {
            (_, TxEvent::Unrung(error)) => {
                let mut text = String::from_str("net.rtl8125: register write");
                text.append(": ");
                text.append(error.as_str());
                TxStep::Failed(text)
            },
            (TxPhase::Look { spins }, TxEvent::Owned(owned)) => if !owned {
                nic.tx_consumed = count(nic.tx_consumed);
                if self.stage == Stage::Draining {
                    self.settle(nic, spins)
                } else {
                    TxStep::Sent(self.frame.len() as u64)
                }
            } else if spins >= TX_POLL_LIMIT {
                TxStep::Failed(
                    if self.stage == Stage::Draining {
                        String::from_str(
                            "net.rtl8125: the chip did not complete a cancelled transmit (poll limit)",
                        )
                    } else {
                        String::from_str(
                            "net.rtl8125: the chip did not consume the transmitted frame (poll limit)",
                        )
                    },
                )
            } else {
                self.phase = TxPhase::Look { spins: spins + 1 };
                TxStep::Look(slot)
            },
            (TxPhase::Kick { spins }, _) => {
                self.phase = TxPhase::Look { spins };
                TxStep::Look(slot)
            },
            (TxPhase::Look { .. }, _) => TxStep::Look(slot),
        }
    }
}

/// Why a frame is not sent at all, if it is not: it is too large, or the link is down.
pub fn send(nic: &Nic, frame: &[u8]) -> (result: Result<(), L2Error>)
    ensures
        match result {
            Ok(_) => frame@.len() <= MAX_FRAME && nic.link != Link::Down,
            Err(error) => if frame@.len() > MAX_FRAME {
                error is FrameTooLarge
            } else {
                error is LinkDown && nic.link == Link::Down
            },
        },
{
    if frame.len() as u64 > MAX_FRAME {
        Err(L2Error::FrameTooLarge)
    } else if nic.link == Link::Down {
        Err(L2Error::LinkDown)
    } else {
        Ok(())
    }
}

/// The first slot of the cache line that is armed again when a slot is consumed: only
/// the last slot of a line does so.
pub open spec fn line_armed(slot: u16) -> Option<u16> {
    if slot % LINE_SLOTS == LINE_SLOTS - 1 {
        Some((slot - (LINE_SLOTS - 1)) as u16)
    } else {
        None
    }
}

/// A receive.
#[derive(Clone, Copy, Debug)]
pub struct Rx {
    pub max_len: u64,
    pub spins: u64,
}

/// What became of a step of a receive.
#[derive(Debug)]
pub enum RxEvent {
    /// The chip still owns the descriptor.
    Owned,
    /// A frame of so many bytes is in the slot; none where it is damaged or a fragment.
    Complete(Option<u32>),
    /// The bytes of the frame.
    Bytes(Vec<u8>),
}

/// What became of a step of a receive, over contents.
pub enum RxNews {
    Owned,
    Complete(Option<u32>),
    Bytes(Seq<u8>),
}

impl View for RxEvent {
    type V = RxNews;

    open spec fn view(&self) -> RxNews {
        match self {
            RxEvent::Owned => RxNews::Owned,
            RxEvent::Complete(len) => RxNews::Complete(*len),
            RxEvent::Bytes(bytes) => RxNews::Bytes(bytes@),
        }
    }
}

/// What a receive does next.
#[derive(Debug)]
pub enum RxStep {
    /// Read the receive descriptor of this slot.
    Look(u16),
    /// Read so many bytes at this offset of the receive slots.
    Copy { offset: u64, len: u64 },
    /// A frame was taken; the line of descriptors from this slot on is armed again.
    Received { frame: Vec<u8>, rearm: Option<u16> },
    /// Nothing is waiting; the receive state may be worth a report.
    Nothing { report: bool },
}

/// What a receive does next, over contents.
pub enum RxAnswer {
    Look(u16),
    Copy { offset: u64, len: u64 },
    Received { frame: Seq<u8>, rearm: Option<u16> },
    Nothing { report: bool },
}

impl View for RxStep {
    type V = RxAnswer;

    open spec fn view(&self) -> RxAnswer {
        match self {
            RxStep::Look(slot) => RxAnswer::Look(*slot),
            RxStep::Copy { offset, len } => RxAnswer::Copy { offset: *offset, len: *len },
            RxStep::Received { frame, rearm } => RxAnswer::Received {
                frame: frame@,
                rearm: *rearm,
            },
            RxStep::Nothing { report } => RxAnswer::Nothing { report: *report },
        }
    }
}

/// The next value of a 64-bit counter that counts round.
pub open spec fn counted64(value: u64) -> u64 {
    if value == u64::MAX {
        0
    } else {
        (value + 1) as u64
    }
}

fn count64(value: u64) -> (next: u64)
    ensures
        next == counted64(value),
{
    if value == u64::MAX {
        0
    } else {
        value + 1
    }
}

/// The controller after it gave the frame of the current slot away.
pub open spec fn rx_consumed(nic: Nic, frame: Seq<u8>) -> (Nic, RxAnswer) {
    let rearm = line_armed(nic.rx_cursor % SLOTS);
    (
        Nic {
            slots_consumed: counted64(nic.slots_consumed),
            lines_rearmed: if rearm is Some {
                counted64(nic.lines_rearmed)
            } else {
                nic.lines_rearmed
            },
            rx_cursor: counted(nic.rx_cursor),
            ..nic
        },
        RxAnswer::Received { frame, rearm },
    )
}

/// How many bytes of a frame are taken.
pub open spec fn copy_len(payload: u32, max_len: u64) -> u64 {
    let wanted = if payload < max_len {
        payload as u64
    } else {
        max_len
    };
    if wanted < SLOT_BYTES {
        wanted
    } else {
        SLOT_BYTES
    }
}

/// A receive after an event.
pub open spec fn rx_next(nic: Nic, rx: Rx, news: RxNews) -> (Nic, Rx, RxAnswer) {
    let slot = nic.rx_cursor % SLOTS;
    match news {
        RxNews::Owned => if rx.spins >= RX_POLL_LIMIT {
            let report = !nic.diagnosed && nic.tx_consumed != 0;
            (
                Nic { diagnosed: nic.diagnosed || report, ..nic },
                rx,
                RxAnswer::Nothing { report },
            )
        } else {
            (nic, Rx { spins: (rx.spins + 1) as u64, ..rx }, RxAnswer::Look(slot))
        },
        RxNews::Complete(Some(payload)) => (
            nic,
            rx,
            RxAnswer::Copy {
                offset: (slot * SLOT_BYTES) as u64,
                len: copy_len(payload, rx.max_len),
            },
        ),
        RxNews::Complete(None) => {
            let (after, answer) = rx_consumed(nic, Seq::empty());
            (after, rx, answer)
        },
        RxNews::Bytes(bytes) => {
            let (after, answer) = rx_consumed(nic, bytes);
            (after, rx, answer)
        },
    }
}

impl Rx {
    /// Begin to receive at most `max_len` bytes: look at this slot.
    pub fn new(nic: &Nic, max_len: u64) -> (begun: (Rx, u16))
        ensures
            begun.0 == (Rx { max_len, spins: 0 }),
            begun.1 == nic.rx_cursor % SLOTS,
    {
        (Rx { max_len, spins: 0 }, nic.rx_cursor % SLOTS)
    }

    fn consume(nic: &mut Nic, frame: Vec<u8>) -> (step: RxStep)
        ensures
            (*final(nic), step@) == rx_consumed(*old(nic), frame@),
    {
        let slot: u16 = nic.rx_cursor % SLOTS;
        let rearm: Option<u16> = if slot % LINE_SLOTS == LINE_SLOTS - 1 {
            Some(slot - (LINE_SLOTS - 1))
        } else {
            None
        };
        nic.slots_consumed = count64(nic.slots_consumed);
        if rearm.is_some() {
            nic.lines_rearmed = count64(nic.lines_rearmed);
        }
        nic.rx_cursor = count(nic.rx_cursor);
        RxStep::Received { frame, rearm }
    }

    /// Take what became of the pending step and say what comes next.
    pub fn next(&mut self, nic: &mut Nic, event: RxEvent) -> (step: RxStep)
        requires
            old(self).spins <= RX_POLL_LIMIT,
        ensures
            final(self).spins <= RX_POLL_LIMIT,
            (*final(nic), *final(self), step@) == rx_next(*old(nic), *old(self), event@),
    {
        let slot: u16 = nic.rx_cursor % SLOTS;
        match event {
            RxEvent::Owned => if self.spins >= RX_POLL_LIMIT {
                let report = !nic.diagnosed && nic.tx_consumed != 0;
                if report {
                    nic.diagnosed = true;
                }
                RxStep::Nothing { report }
            } else {
                self.spins = self.spins + 1;
                RxStep::Look(slot)
            },
            RxEvent::Complete(Some(payload)) => {
                let wanted: u64 = if (payload as u64) < self.max_len {
                    payload as u64
                } else {
                    self.max_len
                };
                let len: u64 = if wanted < SLOT_BYTES {
                    wanted
                } else {
                    SLOT_BYTES
                };
                RxStep::Copy { offset: slot as u64 * SLOT_BYTES, len }
            },
            RxEvent::Complete(None) => {
                let none: Vec<u8> = Vec::new();
                assert(none@ =~= Seq::empty());
                Rx::consume(nic, none)
            },
            RxEvent::Bytes(bytes) => Rx::consume(nic, bytes),
        }
    }
}

/// The transmit buffer and descriptor are written only while the chip has consumed
/// everything that was published before.
pub proof fn law_publishes_only_when_drained(nic: Nic, sending: Sending, news: TxNews)
    requires
        sending.wf(nic),
    ensures
        ({
            let (after, there, step) = tx_next(nic, sending, news);
            step is Publish ==> after.tx_published == counted(after.tx_consumed)
        }),
{
}

/// A frame counts as sent when its own descriptor was consumed; nothing is in flight then.
pub proof fn law_sent_leaves_nothing_in_flight(nic: Nic, sending: Sending, news: TxNews)
    requires
        sending.wf(nic),
    ensures
        ({
            let (after, there, step) = tx_next(nic, sending, news);
            step matches TxAnswer::Sent(len) ==> after.tx_published == after.tx_consumed && len
                == sending.frame.len()
        }),
{
}

/// A line is armed again exactly when its last slot is consumed, and the four slots of
/// the line are then the four that were consumed last.
pub proof fn law_rearmed_line_is_consumed(cursor: int)
    requires
        3 <= cursor,
    ensures
        line_armed((cursor % SLOTS as int) as u16) matches Some(first) ==> {
            &&& first == (cursor - 3) % SLOTS as int
            &&& first + 1 == (cursor - 2) % SLOTS as int
            &&& first + 2 == (cursor - 1) % SLOTS as int
            &&& first + 3 == cursor % SLOTS as int
        },
        line_armed((cursor % SLOTS as int) as u16) is Some <==> cursor % 4 == 3,
{
}

/// At any time fewer slots than one line are consumed without being armed again.
pub proof fn law_few_slots_unarmed(cursor: int)
    requires
        0 <= cursor,
    ensures
        ({
            let unarmed = cursor % LINE_SLOTS as int;
            &&& 0 <= unarmed < LINE_SLOTS
            &&& line_armed((cursor % SLOTS as int) as u16) is Some ==> unarmed == LINE_SLOTS - 1
        }),
{
}

/// The frame of a loopback test: from the controller to itself, of an experimental type,
/// with bytes that count.
pub open spec fn test_frame(mac: Mac) -> Seq<u8> {
    mac_bytes(mac) + mac_bytes(mac) + seq![0x88u8, 0xb5u8] + Seq::new(
        46,
        |i: int| (14 + i) as u8,
    )
}

/// The frame of a loopback test.
pub fn loopback_frame(mac: Mac) -> (frame: Vec<u8>)
    ensures
        frame@ == test_frame(mac),
        frame@.len() == 60,
{
    let mut frame: Vec<u8> = Vec::new();
    let own = mac_array(mac);
    push_all(&mut frame, &own);
    push_all(&mut frame, &own);
    frame.push(0x88);
    frame.push(0xb5);
    let ghost head = frame@;
    assert(head =~= mac_bytes(mac) + mac_bytes(mac) + seq![0x88u8, 0xb5u8]);
    let mut at: u8 = 14;
    while at < 60
        invariant
            14 <= at <= 60,
            frame@ == head + Seq::new((at - 14) as nat, |i: int| (14 + i) as u8),
        decreases 60 - at,
    {
        frame.push(at);
        at = at + 1;
        assert(frame@ =~= head + Seq::new((at - 14) as nat, |i: int| (14 + i) as u8));
    }
    assert(frame@ =~= test_frame(mac));
    frame
}

/// Where a loopback test stands.
#[derive(Clone, Copy, PartialEq, Eq, Structural, Debug)]
pub enum LoopPhase {
    /// Entering the loopback mode.
    Enter,
    /// Letting the PHY lock.
    Settle,
    /// Sending the frame.
    Send,
    /// Listening; so many windows have passed.
    Listen { windows: u32 },
    /// Leaving the loopback mode.
    Leave,
}

/// A loopback test, through the MAC alone or up to the PHY's line side.
#[derive(Debug)]
pub struct Loopback {
    pub phy_level: bool,
    pub mac: Mac,
    pub phase: LoopPhase,
    /// The outcome, once it is known.
    pub outcome: Result<String, String>,
}

/// A loopback test, over contents.
pub struct Looping {
    pub phy_level: bool,
    pub mac: Mac,
    pub phase: LoopPhase,
    pub outcome: Result<Seq<char>, Seq<char>>,
}

/// The content of an outcome.
pub open spec fn outcome_of(outcome: Result<String, String>) -> Result<Seq<char>, Seq<char>> {
    match outcome {
        Ok(detail) => Ok(detail@),
        Err(reason) => Err(reason@),
    }
}

impl View for Loopback {
    type V = Looping;

    open spec fn view(&self) -> Looping {
        Looping {
            phy_level: self.phy_level,
            mac: self.mac,
            phase: self.phase,
            outcome: outcome_of(self.outcome),
        }
    }
}

/// What became of a step of a loopback test.
#[derive(Debug)]
pub enum LoopEvent {
    /// The program ran through.
    Ran,
    /// The program failed.
    Stopped(String),
    /// The chip took the frame.
    Sent,
    /// The frame was not sent; it failed while an earlier one was drained, or itself.
    Unsent(Stage, String),
    /// A receive window passed with this frame, which may be empty.
    Received(Vec<u8>),
}

/// What became of a step of a loopback test, over contents.
pub enum LoopNews {
    Ran,
    Stopped(Seq<char>),
    Sent,
    Unsent(Stage, Seq<char>),
    Received(Seq<u8>),
}

impl View for LoopEvent {
    type V = LoopNews;

    open spec fn view(&self) -> LoopNews {
        match self {
            LoopEvent::Ran => LoopNews::Ran,
            LoopEvent::Stopped(text) => LoopNews::Stopped(text@),
            LoopEvent::Sent => LoopNews::Sent,
            LoopEvent::Unsent(stage, text) => LoopNews::Unsent(*stage, text@),
            LoopEvent::Received(frame) => LoopNews::Received(frame@),
        }
    }
}

/// What a loopback test does next.
#[derive(Debug)]
pub enum LoopStep {
    Run(Vec<Op>),
    Send(Vec<u8>),
    /// Receive one frame of at most so many bytes.
    Receive(u64),
    /// The test is over.
    Over(Result<String, String>),
}

/// What a loopback test does next, over contents.
pub enum LoopAnswer {
    Run(Seq<Op>),
    Send(Seq<u8>),
    Receive(u64),
    Over(Result<Seq<char>, Seq<char>>),
}

impl View for LoopStep {
    type V = LoopAnswer;

    open spec fn view(&self) -> LoopAnswer {
        match self {
            LoopStep::Run(ops) => LoopAnswer::Run(ops@),
            LoopStep::Send(frame) => LoopAnswer::Send(frame@),
            LoopStep::Receive(len) => LoopAnswer::Receive(*len),
            LoopStep::Over(outcome) => LoopAnswer::Over(outcome_of(*outcome)),
        }
    }
}

/// A test whose outcome is known: the MAC leaves its loopback mode; the PHY's is left by
/// the negotiation that follows.
pub open spec fn loop_ending(
    chip: Chip,
    looping: Looping,
    outcome: Result<Seq<char>, Seq<char>>,
) -> (Looping, LoopAnswer) {
    if looping.phy_level {
        (Looping { outcome, ..looping }, LoopAnswer::Over(outcome))
    } else {
        (
            Looping { phase: LoopPhase::Leave, outcome, ..looping },
            LoopAnswer::Run(leave_mac_loopback(chip)),
        )
    }
}

/// The outcome of a test that got `frame` back.
pub open spec fn verdict(mac: Mac, frame: Seq<u8>) -> Result<Seq<char>, Seq<char>> {
    if frame.len() >= 60 && frame.subrange(0, 60) == test_frame(mac) {
        Ok(decimal(frame.len()) + " bytes round-tripped"@)
    } else {
        Err(
            "a "@ + decimal(frame.len())
                + "-byte frame arrived but did not match the test pattern"@,
        )
    }
}

/// A loopback test after an event.
pub open spec fn looped(chip: Chip, looping: Looping, news: LoopNews) -> (Looping, LoopAnswer) {
    let to = |phase: LoopPhase, answer: LoopAnswer| (Looping { phase, ..looping }, answer);
    match (looping.phase, news) {
        (LoopPhase::Leave, _) => (looping, LoopAnswer::Over(looping.outcome)),
        (LoopPhase::Enter, LoopNews::Stopped(text)) => (
            looping,
            LoopAnswer::Over(
                Err(
                    if looping.phy_level {
                        "entering phy loopback: "@ + text
                    } else {
                        "entering mac loopback: "@ + text
                    },
                ),
            ),
        ),
        (LoopPhase::Settle, LoopNews::Stopped(text)) => (
            looping,
            LoopAnswer::Over(Err("settling phy loopback: "@ + text)),
        ),
        (LoopPhase::Enter, _) => if looping.phy_level {
            to(LoopPhase::Settle, LoopAnswer::Run(phy_loopback_settle(chip)))
        } else {
            to(LoopPhase::Send, LoopAnswer::Send(test_frame(looping.mac)))
        },
        (LoopPhase::Settle, _) => to(LoopPhase::Send, LoopAnswer::Send(test_frame(looping.mac))),
        (LoopPhase::Send, LoopNews::Unsent(stage, text)) => loop_ending(
            chip,
            looping,
            Err(
                if stage == Stage::Draining {
                    text
                } else {
                    "transmit: "@ + text
                },
            ),
        ),
        (LoopPhase::Send, _) => to(LoopPhase::Listen { windows: 0 }, LoopAnswer::Receive(2048)),
        (LoopPhase::Listen { windows }, LoopNews::Received(frame)) => if frame.len() > 0 {
            loop_ending(chip, looping, verdict(looping.mac, frame))
        } else if windows + 1 >= LOOP_WINDOWS {
            loop_ending(
                chip,
                looping,
                Err("no frame in the receive ring after 30 windows"@),
            )
        } else {
            to(
                LoopPhase::Listen { windows: (windows + 1) as u32 },
                LoopAnswer::Receive(2048),
            )
        },
        (LoopPhase::Listen { windows }, _) => (looping, LoopAnswer::Receive(2048)),
    }
}

impl Loopback {
    /// Begin a loopback test.
    pub fn new(chip: &Chip, mac: Mac, phy_level: bool) -> (begun: (Loopback, Vec<Op>))
        ensures
            begun.0@ == (Looping {
                phy_level,
                mac,
                phase: LoopPhase::Enter,
                outcome: Err(Seq::empty()),
            }),
            begun.1@ == if phy_level {
                phy_loopback(*chip)
            } else {
                mac_loopback(*chip)
            },
    {
        let mut ops: Vec<Op> = Vec::new();
        if phy_level {
            push_phy_loopback(&mut ops, chip);
            assert(ops@ =~= phy_loopback(*chip));
        } else {
            push_mac_loopback(&mut ops, chip);
            assert(ops@ =~= mac_loopback(*chip));
        }
        (
            Loopback { phy_level, mac, phase: LoopPhase::Enter, outcome: Err(String::new()) },
            ops,
        )
    }

    fn end(&mut self, chip: &Chip, outcome: Result<String, String>) -> (step: LoopStep)
        ensures
            step@ is Over ==> *final(self) == *old(self),
            step@ is Run ==> final(self)@ == loop_ending(
                *chip,
                old(self)@,
                outcome_of(outcome),
            ).0,
            step@ == loop_ending(*chip, old(self)@, outcome_of(outcome)).1,
    {
        if self.phy_level {
            LoopStep::Over(outcome)
        } else {
            self.phase = LoopPhase::Leave;
            self.outcome = outcome;
            let mut ops: Vec<Op> = Vec::new();
            push_leave_mac_loopback(&mut ops, chip);
            assert(ops@ =~= leave_mac_loopback(*chip));
            LoopStep::Run(ops)
        }
    }

    fn judge(&self, frame: &[u8]) -> (outcome: Result<String, String>)
        ensures
            outcome_of(outcome) == verdict(self.mac, frame@),
    {
        let wanted = loopback_frame(self.mac);
        let mut matching = frame.len() >= 60;
        if matching {
            let mut at: usize = 0;
            assert(frame@.subrange(0, 0) =~= wanted@.subrange(0, 0));
            while at < 60
                invariant
                    at <= 60,
                    frame@.len() >= 60,
                    wanted@.len() == 60,
                    matching == (frame@.subrange(0, at as int) == wanted@.subrange(0, at as int)),
                decreases 60 - at,
            {
                if frame[at] != wanted[at] {
                    matching = false;
                }
                at = at + 1;
                proof {
                    let (one, two) = (
                        frame@.subrange(0, at as int),
                        wanted@.subrange(0, at as int),
                    );
                    assert(one.drop_last() =~= frame@.subrange(0, at - 1));
                    assert(two.drop_last() =~= wanted@.subrange(0, at - 1));
                    if one.drop_last() == two.drop_last() && one.last() == two.last() {
                        assert(one =~= one.drop_last().push(one.last()));
                        assert(two =~= two.drop_last().push(two.last()));
                    }
                }
            }
            assert(wanted@.subrange(0, 60) =~= wanted@);
        }
        if matching {
            let mut detail = String::new();
            push_decimal(&mut detail, frame.len() as u64);
            detail.append(" bytes round-tripped");
            assert(detail@ =~= decimal(frame@.len()) + " bytes round-tripped"@);
            Ok(detail)
        } else {
            let mut reason = String::from_str("a ");
            push_decimal(&mut reason, frame.len() as u64);
            reason.append("-byte frame arrived but did not match the test pattern");
            Err(reason)
        }
    }

    fn prefixed(prefix: &str, text: String) -> (outcome: Result<String, String>)
        ensures
            outcome_of(outcome) == Err::<Seq<char>, Seq<char>>(prefix@ + text@),
    {
        let mut reason = String::from_str(prefix);
        reason.append(text.as_str());
        Err(reason)
    }

    /// Take what became of the pending step and say what comes next.
    pub fn next(&mut self, chip: &Chip, event: LoopEvent) -> (step: LoopStep)
        requires
            old(self).phase matches LoopPhase::Listen { windows } ==> windows < LOOP_WINDOWS,
        ensures
            final(self).phase matches LoopPhase::Listen { windows } ==> windows < LOOP_WINDOWS,
            step@ == looped(*chip, old(self)@, event@).1,
            !(step@ is Over) ==> final(self)@ == looped(*chip, old(self)@, event@).0,
    {
        match (self.phase, event) {
            (LoopPhase::Leave, _) => {
                let mut outcome: Result<String, String> = Err(String::new());
                std::mem::swap(&mut self.outcome, &mut outcome);
                LoopStep::Over(outcome)
            },
            (LoopPhase::Enter, LoopEvent::Stopped(text)) => LoopStep::Over(
                if self.phy_level {
                    Self::prefixed("entering phy loopback: ", text)
                } else {
                    Self::prefixed("entering mac loopback: ", text)
                },
            ),
            (LoopPhase::Settle, LoopEvent::Stopped(text)) => LoopStep::Over(
                Self::prefixed("settling phy loopback: ", text),
            ),
            (LoopPhase::Enter, _) => if self.phy_level {
                self.phase = LoopPhase::Settle;
                let mut ops: Vec<Op> = Vec::new();
                push_phy_loopback_settle(&mut ops, chip);
                assert(ops@ =~= phy_loopback_settle(*chip));
                LoopStep::Run(ops)
            } else {
                self.phase = LoopPhase::Send;
                LoopStep::Send(loopback_frame(self.mac))
            },
            (LoopPhase::Settle, _) => {
                self.phase = LoopPhase::Send;
                LoopStep::Send(loopback_frame(self.mac))
            },
            (LoopPhase::Send, LoopEvent::Unsent(stage, text)) => {
                let outcome = if stage == Stage::Draining {
                    Err(text)
                } else {
                    Self::prefixed("transmit: ", text)
                };
                self.end(chip, outcome)
            },
            (LoopPhase::Send, _) => {
                self.phase = LoopPhase::Listen { windows: 0 };
                LoopStep::Receive(2048)
            },
            (LoopPhase::Listen { windows }, LoopEvent::Received(frame)) => if frame.len() > 0 {
                let outcome = self.judge(&frame);
                self.end(chip, outcome)
            } else if windows + 1 >= LOOP_WINDOWS {
                self.end(
                    chip,
                    Err(String::from_str("no frame in the receive ring after 30 windows")),
                )
            } else {
                self.phase = LoopPhase::Listen { windows: windows + 1 };
                LoopStep::Receive(2048)
            },
            (LoopPhase::Listen { .. }, _) => LoopStep::Receive(2048),
        }
    }
}

/// The line about a loopback test.
pub open spec fn test_line(phy_level: bool, outcome: Result<Seq<char>, Seq<char>>) -> Seq<char> {
    (if phy_level {
        "net.rtl8125: phy-loopback "@
    } else {
        "net.rtl8125: mac-loopback "@
    }) + match outcome {
        Ok(detail) => "PASS ("@ + detail + ")"@,
        Err(reason) => "FAIL ("@ + reason + ")"@,
    }
}

fn report_test(phy_level: bool, outcome: &Result<String, String>) -> (line: String)
    ensures
        line@ == test_line(phy_level, outcome_of(*outcome)),
{
    let mut line = String::from_str(
        if phy_level {
            "net.rtl8125: phy-loopback "
        } else {
            "net.rtl8125: mac-loopback "
        },
    );
    match outcome {
        Ok(detail) => {
            line.append("PASS (");
            line.append(detail.as_str());
            line.append(")");
        },
        Err(reason) => {
            line.append("FAIL (");
            line.append(reason.as_str());
            line.append(")");
        },
    }
    assert(line@ =~= test_line(phy_level, outcome_of(*outcome)));
    line
}

/// The state of the chip as the announcement gives it.
pub open spec fn state_text(notes: Notes, advertise_max: u16) -> Seq<char> {
    "rxcfg 0x"@ + hex(notes.rx_config as nat, 8) + " rxdv-byte 0x"@ + hex(notes.rxdv as nat, 2)
        + " isr 0x"@ + hex(notes.isr as nat, 4) + " phy-state "@ + decimal(notes.phy_state as nat)
        + " eee-mac 0x"@ + hex(notes.eee as nat, 1) + " ram-code 0x"@ + hex(
        notes.ram_before as nat,
        4,
    ) + "->0x"@ + hex(notes.ram_after as nat, 4) + " adv-max "@ + decimal(advertise_max as nat)
}

/// The state of the link as the announcement gives it.
pub open spec fn link_text(link: Link) -> Seq<char> {
    match link {
        Link::Up(speed) => ") link up "@ + decimal(speed as nat) + " Mb/s, rings rx/tx 32/32, "@,
        Link::Down => ") link DOWN after the bounded autoneg wait (cable? negotiation still running? operations re-check), "@,
    }
}

/// The line that announces a controller.
pub open spec fn banner_text(notes: Notes, advertise_max: u16) -> Seq<char> {
    let xid = xid_of(notes.tx_config);
    "net.rtl8125: "@ + mac_text(mac_bytes(notes.mac)) + " (xid 0x"@ + hex(xid as nat, 3) + (
    if xid == XID_8125A {
        " 8125A"@
    } else {
        " 8125B+"@
    }) + link_text(notes.link) + state_text(notes, advertise_max)
}

fn state_line(notes: &Notes, advertise_max: u16) -> (line: String)
    ensures
        line@ == state_text(*notes, advertise_max),
{
    let mut line = String::from_str("rxcfg 0x");
    push_hex(&mut line, notes.rx_config as u64, 8);
    line.append(" rxdv-byte 0x");
    push_hex(&mut line, notes.rxdv as u64, 2);
    line.append(" isr 0x");
    push_hex(&mut line, notes.isr as u64, 4);
    line.append(" phy-state ");
    push_decimal(&mut line, notes.phy_state as u64);
    line.append(" eee-mac 0x");
    push_hex(&mut line, notes.eee as u64, 1);
    line.append(" ram-code 0x");
    push_hex(&mut line, notes.ram_before as u64, 4);
    line.append("->0x");
    push_hex(&mut line, notes.ram_after as u64, 4);
    line.append(" adv-max ");
    push_decimal(&mut line, advertise_max as u64);
    line
}

fn link_line(link: Link) -> (line: String)
    ensures
        line@ == link_text(link),
{
    match link {
        Link::Up(speed) => {
            let mut line = String::from_str(") link up ");
            push_decimal(&mut line, speed as u64);
            line.append(" Mb/s, rings rx/tx 32/32, ");
            line
        },
        Link::Down => String::from_str(
            ") link DOWN after the bounded autoneg wait (cable? negotiation still running? operations re-check), ",
        ),
    }
}

/// The line that announces a controller.
pub fn banner(notes: &Notes, advertise_max: u16) -> (line: String)
    ensures
        line@ == banner_text(*notes, advertise_max),
{
    let xid: u16 = xid_from_tx_config(notes.tx_config);
    let mut line = String::from_str("net.rtl8125: ");
    line.append(format_mac(&mac_array(notes.mac)).as_str());
    line.append(" (xid 0x");
    push_hex(&mut line, xid as u64, 3);
    let variant = if xid == XID_8125A {
        " 8125A"
    } else {
        " 8125B+"
    };
    line.append(variant);
    line.append(link_line(notes.link).as_str());
    line.append(state_line(notes, advertise_max).as_str());
    line
}

/// A flag of the interrupt status, as the receive report shows it.
pub open spec fn flag_text(isr: u32, bit: u32, label: Seq<char>) -> Seq<char> {
    label + (if isr & bit != 0 {
        "+"@
    } else {
        "-"@
    })
}

fn push_flag(line: &mut String, isr: u32, bit: u32, label: &str)
    ensures
        final(line)@ == old(line)@ + flag_text(isr, bit, label@),
{
    line.append(label);
    if isr & bit != 0 {
        line.append("+");
    } else {
        line.append("-");
    }
    assert(line@ =~= old(line)@ + flag_text(isr, bit, label@));
}

/// The report about the receive state.
pub open spec fn receive_report(bits: Bits, notes: Notes, slot: u16, opts1: u32) -> Seq<char> {
    let isr = notes.isr;
    "net.rtl8125: rx diagnostic - isr 0x"@ + hex(isr as nat, 4) + " ("@ + flag_text(
        isr,
        bits.isr_rx_ok,
        "rok"@,
    ) + " "@ + flag_text(isr, bits.isr_rx_desc_unavail, "rdu"@) + " "@ + flag_text(
        isr,
        bits.isr_rx_fifo_over,
        "fovw"@,
    ) + " "@ + flag_text(isr, bits.isr_tx_ok, "tok"@) + " "@ + flag_text(
        isr,
        bits.isr_link_change,
        "link"@,
    ) + ") rxcfg 0x"@ + hex(notes.rx_config as nat, 8) + " rxdv-byte 0x"@ + hex(
        notes.rxdv as nat,
        2,
    ) + " mcu 0x"@ + hex(notes.mcu as nat, 2) + " cmd 0x"@ + hex(notes.chip_cmd as nat, 2)
        + " rx slot "@ + decimal(slot as nat) + " opts1 0x"@ + hex(opts1 as nat, 8)
}

/// The report about the receive state: the chip's latched status and the descriptor that
/// is watched.
pub fn rx_diagnostic(bits: &Bits, notes: &Notes, slot: u16, opts1: u32) -> (line: String)
    ensures
        line@ == receive_report(*bits, *notes, slot, opts1),
{
    let isr: u32 = notes.isr;
    let mut line = String::from_str("net.rtl8125: rx diagnostic - isr 0x");
    push_hex(&mut line, isr as u64, 4);
    line.append(" (");
    push_flag(&mut line, isr, bits.isr_rx_ok, "rok");
    line.append(" ");
    push_flag(&mut line, isr, bits.isr_rx_desc_unavail, "rdu");
    line.append(" ");
    push_flag(&mut line, isr, bits.isr_rx_fifo_over, "fovw");
    line.append(" ");
    push_flag(&mut line, isr, bits.isr_tx_ok, "tok");
    line.append(" ");
    push_flag(&mut line, isr, bits.isr_link_change, "link");
    line.append(") rxcfg 0x");
    push_hex(&mut line, notes.rx_config as u64, 8);
    line.append(" rxdv-byte 0x");
    push_hex(&mut line, notes.rxdv as u64, 2);
    line.append(" mcu 0x");
    push_hex(&mut line, notes.mcu as u64, 2);
    line.append(" cmd 0x");
    push_hex(&mut line, notes.chip_cmd as u64, 2);
    line.append(" rx slot ");
    push_decimal(&mut line, slot as u64);
    line.append(" opts1 0x");
    push_hex(&mut line, opts1 as u64, 8);
    line
}

/// The number that bytes, least significant first, hold.
pub open spec fn little_endian(raw: Seq<u8>) -> int
    decreases raw.len(),
{
    if raw.len() == 0 {
        0
    } else {
        raw[0] + 256 * little_endian(raw.subrange(1, raw.len() as int))
    }
}

/// One field of the dumped counters.
pub fn counter(raw: &[u8]) -> (value: u64)
    requires
        raw@.len() <= 8,
    ensures
        value == little_endian(raw@),
{
    let mut value: u64 = 0;
    let mut at: usize = raw.len();
    proof {
        assert(raw@.subrange(at as int, raw@.len() as int) =~= Seq::empty());
    }
    while at > 0
        invariant
            at <= raw@.len() <= 8,
            value == little_endian(raw@.subrange(at as int, raw@.len() as int)),
            value < pow256((raw@.len() - at) as nat),
        decreases at,
    {
        proof {
            let rest = raw@.subrange(at - 1, raw@.len() as int);
            assert(rest.subrange(1, rest.len() as int) =~= raw@.subrange(
                at as int,
                raw@.len() as int,
            ));
            assert(rest[0] == raw@[at - 1]);
            lemma_pow256((raw@.len() - at) as nat);
        }
        at = at - 1;
        value = raw[at] as u64 + 256 * value;
    }
    assert(raw@.subrange(0, raw@.len() as int) =~= raw@);
    value
}

/// A power of 256.
pub open spec fn pow256(exponent: nat) -> int
    decreases exponent,
{
    if exponent == 0 {
        1
    } else {
        256 * pow256((exponent - 1) as nat)
    }
}

proof fn lemma_pow256(exponent: nat)
    requires
        exponent <= 7,
    ensures
        pow256(exponent + 1) == 256 * pow256(exponent),
        256 * pow256(exponent) <= 0x1_0000_0000_0000_0000,
{
    reveal_with_fuel(pow256, 9);
}

/// The counters that a report shows.
#[derive(Clone, Copy, Debug)]
pub struct Counters {
    pub tx_packets: u64,
    pub rx_packets: u64,
    pub missed: u64,
    pub rx_errors: u64,
    pub unicast: u64,
    pub broadcast: u64,
    pub multicast: u64,
}

/// The report about the counters; a dump that never completed is itself a finding.
pub open spec fn counter_report(nic: Nic, counters: Option<Counters>) -> Seq<char> {
    match counters {
        Some(c) => "net.rtl8125: counters - tx "@ + decimal(c.tx_packets as nat) + " rx "@
            + decimal(c.rx_packets as nat) + " missed "@ + decimal(c.missed as nat)
            + " rx-errors "@ + decimal(c.rx_errors as nat) + " unicast "@ + decimal(
            c.unicast as nat,
        ) + " broadcast "@ + decimal(c.broadcast as nat) + " multicast "@ + decimal(
            c.multicast as nat,
        ) + " consumed-slots "@ + decimal(nic.slots_consumed as nat) + " rearmed-lines "@
            + decimal(nic.lines_rearmed as nat),
        None => "net.rtl8125: counters - DUMP NEVER COMPLETED (the chip could not DMA-write host memory: inbound write path suspect)"@,
    }
}

/// The report about the counters.
pub fn counters_line(nic: &Nic, counters: &Option<Counters>) -> (line: String)
    ensures
        line@ == counter_report(*nic, *counters),
{
    match counters {
        Some(c) => {
            let mut line = String::from_str("net.rtl8125: counters - tx ");
            push_decimal(&mut line, c.tx_packets);
            line.append(" rx ");
            push_decimal(&mut line, c.rx_packets);
            line.append(" missed ");
            push_decimal(&mut line, c.missed);
            line.append(" rx-errors ");
            push_decimal(&mut line, c.rx_errors);
            line.append(" unicast ");
            push_decimal(&mut line, c.unicast);
            line.append(" broadcast ");
            push_decimal(&mut line, c.broadcast);
            line.append(" multicast ");
            push_decimal(&mut line, c.multicast);
            line.append(" consumed-slots ");
            push_decimal(&mut line, nic.slots_consumed);
            line.append(" rearmed-lines ");
            push_decimal(&mut line, nic.lines_rearmed);
            line
        },
        None => String::from_str(
            "net.rtl8125: counters - DUMP NEVER COMPLETED (the chip could not DMA-write host memory: inbound write path suspect)",
        ),
    }
}

/// A PCI function as enumeration reports it.
#[derive(Clone, Copy, PartialEq, Eq, Structural, Debug)]
pub struct Function {
    pub vendor_id: u16,
    pub device_id: u16,
}

/// A BAR as the function reports it.
#[derive(Clone, Copy, PartialEq, Eq, Structural, Debug)]
pub struct BarInfo {
    pub index: u8,
    /// Whether it is memory, not ports.
    pub memory: bool,
}

/// Whether a function is an RTL8125.
pub open spec fn is_rtl8125(function: Function) -> bool {
    function.vendor_id == 0x10ec && function.device_id == 0x8125
}

/// Choose the function to claim: the first RTL8125 on the bus.
pub fn choose_function(functions: &[Function]) -> (chosen: Result<usize, String>)
    ensures
        match chosen {
            Ok(at) => {
                &&& at < functions@.len() && is_rtl8125(functions@[at as int])
                &&& forall|i: int| 0 <= i < at ==> !is_rtl8125(#[trigger] functions@[i])
            },
            Err(text) => {
                &&& forall|i: int|
                    0 <= i < functions@.len() ==> !is_rtl8125(#[trigger] functions@[i])
                &&& text@
                    == "net.rtl8125: no RTL8125 (10ec:8125) function is visible through the granted pci capability (QEMU has no RTL8125 model — this driver's device exists on the Orange Pi 5 Plus board; under QEMU compose net.virtio instead)"@
            },
        },
{
    let mut at: usize = 0;
    while at < functions.len()
        invariant
            at <= functions.len(),
            forall|i: int| 0 <= i < at ==> !is_rtl8125(#[trigger] functions@[i]),
        decreases functions.len() - at,
    {
        if functions[at].vendor_id == 0x10ec && functions[at].device_id == 0x8125 {
            return Ok(at);
        }
        at = at + 1;
    }
    Err(
        String::from_str(
            "net.rtl8125: no RTL8125 (10ec:8125) function is visible through the granted pci capability (QEMU has no RTL8125 model — this driver's device exists on the Orange Pi 5 Plus board; under QEMU compose net.virtio instead)",
        ),
    )
}

/// Whether a BAR is where the register block usually lies.
pub open spec fn is_usual(bar: BarInfo) -> bool {
    bar.index == 2 && bar.memory
}

/// Choose the BAR of the register block: the second one where it is memory, else the
/// first that is memory.
pub fn choose_bar(bars: &[BarInfo]) -> (chosen: Result<u8, String>)
    ensures
        match chosen {
            Ok(index) => if exists|i: int| 0 <= i < bars@.len() && is_usual(#[trigger] bars@[i]) {
                index == 2
            } else {
                exists|i: int|
                    {
                        &&& 0 <= i < bars@.len() && (#[trigger] bars@[i]).memory
                        &&& bars@[i].index == index
                        &&& forall|j: int| 0 <= j < i ==> !(#[trigger] bars@[j]).memory
                    }
            },
            Err(text) => {
                &&& forall|i: int| 0 <= i < bars@.len() ==> !(#[trigger] bars@[i]).memory
                &&& text@ == "net.rtl8125: the function exposes no memory BAR for its registers"@
            },
        },
{
    let mut at: usize = 0;
    let mut first: Option<u8> = None;
    while at < bars.len()
        invariant
            at <= bars.len(),
            forall|i: int| 0 <= i < at ==> !is_usual(#[trigger] bars@[i]),
            match first {
                None => forall|i: int| 0 <= i < at ==> !(#[trigger] bars@[i]).memory,
                Some(index) => exists|i: int|
                    {
                        &&& 0 <= i < bars@.len() && (#[trigger] bars@[i]).memory
                        &&& bars@[i].index == index
                        &&& forall|j: int| 0 <= j < i ==> !(#[trigger] bars@[j]).memory
                    },
            },
        decreases bars.len() - at,
    {
        if bars[at].index == 2 && bars[at].memory {
            assert(is_usual(bars@[at as int]));
            return Ok(2);
        }
        if bars[at].memory && first.is_none() {
            first = Some(bars[at].index);
        }
        at = at + 1;
    }
    match first {
        Some(index) => Ok(index),
        None => Err(
            String::from_str("net.rtl8125: the function exposes no memory BAR for its registers"),
        ),
    }
}

/// Check that the ring page lies as the chip wants it.
pub fn check_alignment(ring_address: u64) -> (result: Result<(), String>)
    ensures
        match result {
            Ok(_) => ring_address % RING_ALIGN == 0,
            Err(text) => {
                &&& ring_address % RING_ALIGN != 0
                &&& text@ == "net.rtl8125: the DMA ring buffer is not 256-byte aligned (got 0x"@
                    + hex(ring_address as nat, 1) + ")"@
            },
        },
{
    if ring_address % RING_ALIGN != 0 {
        let mut text = String::from_str(
            "net.rtl8125: the DMA ring buffer is not 256-byte aligned (got 0x",
        );
        push_hex(&mut text, ring_address, 1);
        text.append(")");
        return Err(text);
    }
    Ok(())
}

/// The speed cap of a provider: what was configured, else everything the chip has.
pub fn advertise_max(configured: Option<u16>) -> (cap: u16)
    ensures
        cap == match configured {
            Some(cap) => cap,
            None => 2500u16,
        },
{
    match configured {
        Some(cap) => cap,
        None => 2500,
    }
}

/// Set the speed cap.
pub fn configure(configured: &mut Option<u16>, cap: u16) -> (result: Result<(), String>)
    ensures
        match result {
            Ok(_) => {
                &&& cap == 100 || cap == 1000 || cap == 2500
                &&& *final(configured) == Some(cap)
            },
            Err(text) => {
                &&& !(cap == 100 || cap == 1000 || cap == 2500)
                &&& text@ == "advertise-max must be 100, 1000, or 2500 (got "@ + decimal(
                    cap as nat,
                ) + ")"@
                &&& *final(configured) == *old(configured)
            },
        },
{
    if cap != 100 && cap != 1000 && cap != 2500 {
        let mut text = String::from_str("advertise-max must be 100, 1000, or 2500 (got ");
        push_decimal(&mut text, cap as u64);
        text.append(")");
        return Err(text);
    }
    *configured = Some(cap);
    Ok(())
}

/// What the interface of a driver reports: the link as it was last seen.
pub open spec fn interface(nic: Nic) -> Described {
    Described { name: "rtl0"@, mac: nic.mac, mtu: MTU, up: nic.link != Link::Down }
}

/// What the interface reports: the resting driver's answer, or that it is unavailable.
pub fn info(resting: Option<&Nic>) -> (info: InterfaceInfo)
    ensures
        info@ == match resting {
            Some(nic) => interface(*nic),
            None => (Described {
                name: "rtl0"@,
                mac: (0, 0, 0, 0, 0, 0),
                mtu: 0,
                up: false,
            }),
        },
{
    match resting {
        Some(nic) => InterfaceInfo {
            name: String::from_str("rtl0"),
            mac: nic.mac,
            mtu: MTU,
            up: nic.link != Link::Down,
        },
        None => InterfaceInfo {
            name: String::from_str("rtl0"),
            mac: (0, 0, 0, 0, 0, 0),
            mtu: 0,
            up: false,
        },
    }
}

/// Open the one interface, by its name or by none.
pub fn open_interface(name: &str) -> (result: Result<(), L2Error>)
    ensures
        match result {
            Ok(_) => name@.len() == 0 || name@ == "rtl0"@,
            Err(error) => error is NoSuchInterface && name@.len() != 0 && name@ != "rtl0"@,
        },
{
    if name.is_empty() || same(name, "rtl0") {
        Ok(())
    } else {
        Err(L2Error::NoSuchInterface)
    }
}

/// What an operation answers while another one has the driver.
pub fn busy() -> (error: L2Error)
    ensures
        error@ == L2Failure::Io("net.rtl8125: another operation on this device is in progress"@),
{
    io("net.rtl8125: another operation on this device is in progress")
}

/// Where a bring-up stands.
#[derive(Clone, Copy, PartialEq, Eq, Structural, Debug)]
pub enum BringStage {
    /// Reading who the chip is.
    Identity,
    /// Taking it over.
    Takeover,
    /// Configuring and enabling it.
    Configuration,
    /// Testing the path inside the MAC.
    MacTest,
    /// Testing the path up to the PHY's line side.
    PhyTest,
    /// Waiting for the link and reading the state back.
    Outlook,
}

/// A bring-up.
#[derive(Debug)]
pub struct Bringup {
    pub stage: BringStage,
    pub notes: Notes,
    pub nic: Nic,
    pub advertise_max: u16,
    /// The address of the ring page, as the device sees it.
    pub rings: u64,
    /// The outcome of the first test.
    pub mac_outcome: Result<String, String>,
}

/// A bring-up, over contents.
pub struct Bringing {
    pub stage: BringStage,
    pub notes: Notes,
    pub nic: Nic,
    pub advertise_max: u16,
    pub rings: u64,
    pub mac_outcome: Result<Seq<char>, Seq<char>>,
}

impl View for Bringup {
    type V = Bringing;

    open spec fn view(&self) -> Bringing {
        Bringing {
            stage: self.stage,
            notes: self.notes,
            nic: self.nic,
            advertise_max: self.advertise_max,
            rings: self.rings,
            mac_outcome: outcome_of(self.mac_outcome),
        }
    }
}

/// What became of a step of a bring-up.
#[derive(Debug)]
pub enum BringEvent {
    /// The program ran through and has read this.
    Ran(Notes),
    /// The program failed.
    Stopped(String),
    /// A loopback test is over.
    Tested(Result<String, String>),
}

/// What became of a step of a bring-up, over contents.
pub enum BringNews {
    Ran(Notes),
    Stopped(Seq<char>),
    Tested(Result<Seq<char>, Seq<char>>),
}

impl View for BringEvent {
    type V = BringNews;

    open spec fn view(&self) -> BringNews {
        match self {
            BringEvent::Ran(notes) => BringNews::Ran(*notes),
            BringEvent::Stopped(text) => BringNews::Stopped(text@),
            BringEvent::Tested(outcome) => BringNews::Tested(outcome_of(*outcome)),
        }
    }
}

/// What a bring-up does next.
#[derive(Debug)]
pub enum BringStep {
    /// Run this program.
    Run(Vec<Op>),
    /// Run a loopback test.
    Test { phy_level: bool },
    /// Say how both tests went, then run this program.
    Report(String, String, Vec<Op>),
    /// The controller is up; this line announces it.
    Up(String),
    Failed(String),
}

/// What a bring-up does next, over contents.
pub enum BringAnswer {
    Run(Seq<Op>),
    Test { phy_level: bool },
    Report(Seq<char>, Seq<char>, Seq<Op>),
    Up(Seq<char>),
    Failed(Seq<char>),
}

impl View for BringStep {
    type V = BringAnswer;

    open spec fn view(&self) -> BringAnswer {
        match self {
            BringStep::Run(ops) => BringAnswer::Run(ops@),
            BringStep::Test { phy_level } => BringAnswer::Test { phy_level: *phy_level },
            BringStep::Report(mac, phy, ops) => BringAnswer::Report(mac@, phy@, ops@),
            BringStep::Up(line) => BringAnswer::Up(line@),
            BringStep::Failed(text) => BringAnswer::Failed(text@),
        }
    }
}

/// Whether the chip that notes identify is of the older variant.
pub open spec fn is_older(notes: Notes) -> bool {
    xid_of(notes.tx_config) == XID_8125A
}

/// What a bring-up is to configure.
pub open spec fn wish_of(bringing: Bringing, notes: Notes) -> Wish {
    Wish {
        older: is_older(notes),
        ram_code: notes.ram_before,
        advertise_max: bringing.advertise_max,
        rings: bringing.rings,
    }
}

/// A bring-up after an event. The receive report stays off during the tests, so that it
/// is still there for real traffic.
pub open spec fn brought(chip: Chip, tables: Tables, bringing: Bringing, news: BringNews) -> (
    Bringing,
    BringAnswer,
) {
    match (bringing.stage, news) {
        (_, BringNews::Stopped(text)) => (bringing, BringAnswer::Failed(text)),
        (BringStage::Identity, BringNews::Ran(notes)) => (
            Bringing {
                stage: BringStage::Takeover,
                notes,
                nic: Nic { mac: notes.mac, ..bringing.nic },
                ..bringing
            },
            BringAnswer::Run(takeover(chip, tables, is_older(notes))),
        ),
        (BringStage::Takeover, BringNews::Ran(notes)) => (
            Bringing { stage: BringStage::Configuration, notes, ..bringing },
            BringAnswer::Run(configuration(chip, tables, wish_of(bringing, notes))),
        ),
        (BringStage::Configuration, BringNews::Ran(notes)) => (
            Bringing {
                stage: BringStage::MacTest,
                notes,
                nic: Nic { diagnosed: true, ..bringing.nic },
                ..bringing
            },
            BringAnswer::Test { phy_level: false },
        ),
        (BringStage::MacTest, BringNews::Tested(outcome)) => (
            Bringing { stage: BringStage::PhyTest, mac_outcome: outcome, ..bringing },
            BringAnswer::Test { phy_level: true },
        ),
        (BringStage::PhyTest, BringNews::Tested(outcome)) => (
            Bringing {
                stage: BringStage::Outlook,
                nic: Nic { diagnosed: false, ..bringing.nic },
                ..bringing
            },
            BringAnswer::Report(
                test_line(false, bringing.mac_outcome),
                test_line(true, outcome),
                outlook(chip),
            ),
        ),
        (BringStage::Outlook, BringNews::Ran(notes)) => (
            Bringing { notes, nic: Nic { link: notes.link, ..bringing.nic }, ..bringing },
            BringAnswer::Up(banner_text(notes, bringing.advertise_max)),
        ),
        (_, _) => (
            bringing,
            BringAnswer::Failed("net.rtl8125: internal error: bring-up out of step"@),
        ),
    }
}

/// Nothing read.
pub open spec fn no_notes() -> Notes {
    Notes {
        mac: (0, 0, 0, 0, 0, 0),
        tx_config: 0,
        rx_config: 0,
        rxdv: 0,
        isr: 0,
        mcu: 0,
        chip_cmd: 0,
        ram_before: 0,
        ram_after: 0,
        phy_state: 0,
        eee: 0,
        link: Link::Down,
        expired: false,
    }
}

/// A controller that nothing was done with.
pub open spec fn idle(tx_address: u64) -> Nic {
    Nic {
        tx_published: 0,
        tx_consumed: 0,
        rx_cursor: 0,
        mac: (0, 0, 0, 0, 0, 0),
        link: Link::Down,
        diagnosed: false,
        slots_consumed: 0,
        lines_rearmed: 0,
        tx_address,
    }
}

impl Bringup {
    /// Begin to bring a controller up.
    pub fn new(chip: &Chip, advertise_max: u16, rings: u64, tx_address: u64) -> (begun: (
        Bringup,
        Vec<Op>,
    ))
        requires
            chip.wf(),
        ensures
            begun.0@ == (Bringing {
                stage: BringStage::Identity,
                notes: no_notes(),
                nic: idle(tx_address),
                advertise_max,
                rings,
                mac_outcome: Err(Seq::empty()),
            }),
            begun.1@ == identity(*chip),
    {
        let notes = Notes {
            mac: (0, 0, 0, 0, 0, 0),
            tx_config: 0,
            rx_config: 0,
            rxdv: 0,
            isr: 0,
            mcu: 0,
            chip_cmd: 0,
            ram_before: 0,
            ram_after: 0,
            phy_state: 0,
            eee: 0,
            link: Link::Down,
            expired: false,
        };
        let nic = Nic {
            tx_published: 0,
            tx_consumed: 0,
            rx_cursor: 0,
            mac: (0, 0, 0, 0, 0, 0),
            link: Link::Down,
            diagnosed: false,
            slots_consumed: 0,
            lines_rearmed: 0,
            tx_address,
        };
        let mut ops: Vec<Op> = Vec::new();
        push_identity(&mut ops, chip);
        assert(ops@ =~= identity(*chip));
        (
            Bringup {
                stage: BringStage::Identity,
                notes,
                nic,
                advertise_max,
                rings,
                mac_outcome: Err(String::new()),
            },
            ops,
        )
    }

    /// Take what became of the pending step and say what comes next.
    pub fn next(&mut self, chip: &Chip, tables: &Tables, event: BringEvent) -> (step: BringStep)
        requires
            chip.wf(),
            old(self).rings + RX_RING_BASE <= u64::MAX,
        ensures
            (final(self)@, step@) == brought(*chip, *tables, old(self)@, event@),
    {
        match (self.stage, event) {
            (_, BringEvent::Stopped(text)) => BringStep::Failed(text),
            (BringStage::Identity, BringEvent::Ran(notes)) => {
                self.stage = BringStage::Takeover;
                self.notes = notes;
                self.nic.mac = notes.mac;
                let older = xid_from_tx_config(notes.tx_config) == XID_8125A;
                BringStep::Run(takeover_program(chip, tables, older))
            },
            (BringStage::Takeover, BringEvent::Ran(notes)) => {
                let wish = Wish {
                    older: xid_from_tx_config(notes.tx_config) == XID_8125A,
                    ram_code: notes.ram_before,
                    advertise_max: self.advertise_max,
                    rings: self.rings,
                };
                self.stage = BringStage::Configuration;
                self.notes = notes;
                BringStep::Run(configuration_program(chip, tables, &wish))
            },
            (BringStage::Configuration, BringEvent::Ran(notes)) => {
                self.stage = BringStage::MacTest;
                self.notes = notes;
                self.nic.diagnosed = true;
                BringStep::Test { phy_level: false }
            },
            (BringStage::MacTest, BringEvent::Tested(outcome)) => {
                self.stage = BringStage::PhyTest;
                self.mac_outcome = outcome;
                BringStep::Test { phy_level: true }
            },
            (BringStage::PhyTest, BringEvent::Tested(outcome)) => {
                self.stage = BringStage::Outlook;
                self.nic.diagnosed = false;
                let mut ops: Vec<Op> = Vec::new();
                push_outlook(&mut ops, chip);
                assert(ops@ =~= outlook(*chip));
                BringStep::Report(
                    report_test(false, &self.mac_outcome),
                    report_test(true, &outcome),
                    ops,
                )
            },
            (BringStage::Outlook, BringEvent::Ran(notes)) => {
                self.notes = notes;
                self.nic.link = notes.link;
                BringStep::Up(banner(&notes, self.advertise_max))
            },
            _ => BringStep::Failed(
                String::from_str("net.rtl8125: internal error: bring-up out of step"),
            ),
        }
    }
}

/// How many frames were published that the chip has not consumed.
pub open spec fn in_flight(nic: Nic) -> int {
    if nic.tx_published >= nic.tx_consumed {
        nic.tx_published - nic.tx_consumed
    } else {
        nic.tx_published + 0x1_0000 - nic.tx_consumed
    }
}

/// How much of a transmit is left: the descriptors that it drains, then its own.
pub open spec fn tx_left(nic: Nic, sending: Sending) -> int {
    let descriptors = if sending.stage == Stage::Issued {
        0
    } else {
        in_flight(nic) + 1
    };
    descriptors * (TX_POLL_LIMIT + 10) + match sending.phase {
        TxPhase::Kick { spins } => TX_POLL_LIMIT - spins + 2,
        TxPhase::Look { spins } => TX_POLL_LIMIT - spins + 1,
    }
}

/// Every transmit ends, whatever the chip does: each step that goes on leaves less of it.
pub proof fn law_transmit_ends(nic: Nic, sending: Sending, news: TxNews)
    requires
        sending.wf(nic),
        sending.phase is Look <==> news is Owned,
    ensures
        ({
            let (after, there, step) = tx_next(nic, sending, news);
            !(step is Sent) && !(step is Failed) ==> 0 <= tx_left(after, there) < tx_left(
                nic,
                sending,
            )
        }),
{
    let used = Nic { tx_consumed: counted(nic.tx_consumed), ..nic };
    assert(0 <= in_flight(nic) < 0x1_0000);
    assert(0 <= in_flight(used) < 0x1_0000);
    if sending.stage == Stage::Draining {
        assert(in_flight(used) == in_flight(nic) - 1);
    }
}

/// A receive looks at a slot a bounded number of times: each look that finds the chip still
/// at it leaves fewer.
pub proof fn law_receive_ends(nic: Nic, rx: Rx, news: RxNews)
    requires
        rx.spins <= RX_POLL_LIMIT,
    ensures
        ({
            let (_, there, step) = rx_next(nic, rx, news);
            &&& step is Look ==> news is Owned && rx.spins < there.spins <= RX_POLL_LIMIT
            &&& step is Copy ==> news is Complete
        }),
{
}

/// How much of a loopback test is left.
pub open spec fn loop_left(looping: Looping) -> int {
    match looping.phase {
        LoopPhase::Enter => LOOP_WINDOWS + 4,
        LoopPhase::Settle => LOOP_WINDOWS + 3,
        LoopPhase::Send => LOOP_WINDOWS + 2,
        LoopPhase::Listen { windows } => LOOP_WINDOWS - windows + 1,
        LoopPhase::Leave => 1,
    }
}

/// Every loopback test ends, and one at the MAC leaves the loopback mode whatever came of
/// it: each step that goes on leaves less of the test, and only after the mode was left
/// does it give an outcome other than that the mode was not entered.
pub proof fn law_loopback_ends(chip: Chip, looping: Looping, news: LoopNews)
    requires
        looping.phase matches LoopPhase::Listen { windows } ==> windows < LOOP_WINDOWS
            && news is Received,
    ensures
        ({
            let (there, step) = looped(chip, looping, news);
            &&& !(step is Over) ==> 0 < loop_left(there) < loop_left(looping)
            &&& step is Over && !looping.phy_level ==> looping.phase == LoopPhase::Leave
                || looping.phase == LoopPhase::Enter || looping.phase == LoopPhase::Settle
        }),
{
}

/// A frame that is sent on an idle controller goes out whole: its bytes in order, zeros up to
/// the shortest length behind them, from the transmit buffer, in the next slot of the ring.
/// It counts as sent, with its own length, when the chip has given that slot back, and all
/// else about the controller stays.
pub proof fn law_frame_goes_out_whole(nic: Nic, frame: Seq<u8>)
    requires
        frame.len() <= 2048,
        nic.tx_published == nic.tx_consumed,
    ensures
        ({
            let fresh = Sending {
                frame,
                stage: Stage::Draining,
                phase: TxPhase::Kick { spins: 0 },
            };
            let (first, s1, a1) = tx_settled(nic, fresh, 0);
            let (second, s2, a2) = tx_next(first, s1, TxNews::Rung);
            let (third, s3, a3) = tx_next(second, s2, TxNews::Owned(false));
            let next = (nic.tx_published + 1) % 0x1_0000;
            &&& a1 matches TxAnswer::Publish(bytes, descriptor) && {
                &&& bytes.len() == if frame.len() < 60 {
                    60
                } else {
                    frame.len()
                }
                &&& forall|i: int| 0 <= i < frame.len() ==> #[trigger] bytes[i] == frame[i]
                &&& forall|i: int| frame.len() <= i < bytes.len() ==> #[trigger] bytes[i] == 0
                &&& descriptor.address == nic.tx_address
                &&& descriptor.len == bytes.len()
                &&& descriptor.slot == nic.tx_published % 32
                &&& descriptor.last == (nic.tx_published % 32 == 31)
            }
            &&& first.tx_published == next && first.tx_consumed == nic.tx_consumed
            &&& second == first && a2 == TxAnswer::Look((nic.tx_published % 32) as u16)
            &&& a3 == TxAnswer::Sent(frame.len() as u64)
            &&& third == (Nic { tx_published: next as u16, tx_consumed: next as u16, ..nic })
        }),
{
}

/// While the chip still owns the slot, a transmit keeps looking at it, up to two million
/// times, and then fails; neither changes the controller. A doorbell that cannot be rung
/// fails it at once.
pub proof fn law_unsent_frame_is_waited_for(nic: Nic, sending: Sending, spins: u64, error: Seq<char>)
    requires
        sending.wf(nic),
        sending.phase == (TxPhase::Look { spins }),
    ensures
        ({
            let (after, there, step) = tx_next(nic, sending, TxNews::Owned(true));
            &&& after == nic && there.frame == sending.frame && there.stage == sending.stage
            &&& spins < 2_000_000 ==> {
                &&& step == TxAnswer::Look((nic.tx_consumed % 32) as u16)
                &&& there.phase == (TxPhase::Look { spins: (spins + 1) as u64 })
            }
            &&& spins >= 2_000_000 ==> step is Failed
        }),
        tx_next(nic, sending, TxNews::Unrung(error)).0 == nic,
        tx_next(nic, sending, TxNews::Unrung(error)).2 matches TxAnswer::Failed(text)
            && text.len() >= error.len() && text.subrange(
            text.len() - error.len(),
            text.len() as int,
        ) == error,
{
    let text = labelled("net.rtl8125: register write"@, error);
    assert(text.subrange(text.len() - error.len(), text.len() as int) =~= error);
}

/// A frame that follows a cancelled one waits for it: the doorbell is rung for the old slot,
/// that slot is watched, and only when the chip has given it back is the new frame published,
/// whole and in the slot behind.
pub proof fn law_cancelled_frame_is_drained(nic: Nic, frame: Seq<u8>)
    requires
        frame.len() <= 2048,
        nic.tx_published == (nic.tx_consumed + 1) % 0x1_0000,
    ensures
        ({
            let fresh = Sending {
                frame,
                stage: Stage::Draining,
                phase: TxPhase::Kick { spins: 0 },
            };
            let (first, s1, a1) = tx_settled(nic, fresh, 0);
            let (second, s2, a2) = tx_next(first, s1, TxNews::Rung);
            let (third, s3, a3) = tx_next(second, s2, TxNews::Owned(false));
            &&& a1 == TxAnswer::Ring && first == nic
            &&& a2 == TxAnswer::Look((nic.tx_consumed % 32) as u16) && second == nic
            &&& a3 matches TxAnswer::Publish(bytes, descriptor) && {
                &&& frame.len() <= bytes.len() && bytes.subrange(0, frame.len() as int) == frame
                &&& descriptor.slot == nic.tx_published % 32
                &&& descriptor.address == nic.tx_address
                &&& descriptor.len == bytes.len()
            }
            &&& third == (Nic {
                tx_consumed: nic.tx_published,
                tx_published: ((nic.tx_published + 1) % 0x1_0000) as u16,
                ..nic
            })
            &&& s3.frame == frame && s3.stage == Stage::Issued
        }),
{
    assert(padded(frame).subrange(0, frame.len() as int) =~= frame);
}

/// A received frame is what lies in its slot, as much of it as was asked for: the bytes are
/// read from the slot's own place, given away as they are, and the next receive looks at the
/// slot behind. A damaged frame takes its slot with it too. Four slots are armed again
/// together, when the last of them was taken.
pub proof fn law_received_frame_is_the_slots(
    nic: Nic,
    max_len: u64,
    payload: u32,
    bytes: Seq<u8>,
)
    ensures
        ({
            let rx = Rx { max_len, spins: 0 };
            let slot: int = nic.rx_cursor as int % 32;
            let (first, r1, a1) = rx_next(nic, rx, RxNews::Complete(Some(payload)));
            let (second, r2, a2) = rx_next(first, r1, RxNews::Bytes(bytes));
            let (damaged, _, a3) = rx_next(nic, rx, RxNews::Complete(None));
            let rearm = if slot % 4 == 3 {
                Some((slot - 3) as u16)
            } else {
                None
            };
            &&& first == nic
            &&& a1 matches RxAnswer::Copy { offset, len } && {
                &&& offset == 2048 * slot
                &&& len <= payload && len <= max_len && len <= 2048
                &&& len == payload || len == max_len || len == 2048
            }
            &&& a2 == (RxAnswer::Received { frame: bytes, rearm })
            &&& second.rx_cursor == (nic.rx_cursor + 1) % 0x1_0000
            &&& second.slots_consumed == if nic.slots_consumed == u64::MAX {
                0
            } else {
                nic.slots_consumed + 1
            }
            &&& rearm is None ==> second.lines_rearmed == nic.lines_rearmed
            &&& rearm is Some ==> second.lines_rearmed == if nic.lines_rearmed == u64::MAX {
                0
            } else {
                nic.lines_rearmed + 1
            }
            &&& second == (Nic {
                rx_cursor: second.rx_cursor,
                slots_consumed: second.slots_consumed,
                lines_rearmed: second.lines_rearmed,
                ..nic
            })
            &&& damaged == second && a3 == (RxAnswer::Received { frame: Seq::empty(), rearm })
        }),
{
}

/// A receive on an empty ring keeps looking at its slot, two thousand times, and then says
/// that nothing is waiting. It changes nothing but that the receive report is asked for at
/// most once, and only where a frame was sent before.
pub proof fn law_nothing_waiting(nic: Nic, rx: Rx)
    ensures
        ({
            let (after, there, step) = rx_next(nic, rx, RxNews::Owned);
            let (_, _, again) = rx_next(after, there, RxNews::Owned);
            &&& rx.spins < 2_000 ==> {
                &&& step == RxAnswer::Look((nic.rx_cursor % 32) as u16)
                &&& after == nic && there == (Rx { spins: (rx.spins + 1) as u64, ..rx })
            }
            &&& rx.spins >= 2_000 ==> {
                &&& step matches RxAnswer::Nothing { report } && report == (!nic.diagnosed
                    && nic.tx_consumed != 0)
                &&& after == (Nic { diagnosed: after.diagnosed, ..nic })
                &&& nic.diagnosed ==> after.diagnosed
                &&& nic.tx_consumed == 0 ==> after == nic
                &&& step == (RxAnswer::Nothing { report: true }) ==> again == (
                RxAnswer::Nothing { report: false })
            }
        }),
{
}

/// Receive slots lie behind one another, 2048 bytes each, and only the descriptor of the last
/// ends the ring.
pub proof fn law_slots_lie_behind_one_another(base: u64, slot: int)
    requires
        base + 32 * 2048 <= u64::MAX,
        0 <= slot < 32,
    ensures
        posted(base, slot).slot == slot,
        posted(base, slot).address == base + 2048 * slot,
        posted(base, slot).len == 2048,
        posted(base, slot).last <==> slot == 31,
{
}

/// The frame of a loopback test goes from the controller to itself, and byte `i` of its
/// payload is `i`.
pub proof fn law_test_frame_is_addressed_to_itself(mac: Mac, i: int)
    requires
        0 <= i < 60,
    ensures
        test_frame(mac).len() == 60,
        i < 12 ==> test_frame(mac)[i] == seq![mac.0, mac.1, mac.2, mac.3, mac.4, mac.5][i % 6],
        i == 12 ==> test_frame(mac)[i] == 0x88,
        i == 13 ==> test_frame(mac)[i] == 0xb5,
        i >= 14 ==> test_frame(mac)[i] == i,
{
}

/// A loopback test passes exactly where what came back begins with what was sent; the rest of
/// it, such as a checksum, is not looked at.
pub proof fn law_test_passes_on_what_was_sent(mac: Mac, back: Seq<u8>)
    ensures
        verdict(mac, back) is Ok <==> back.len() >= 60 && forall|i: int|
            0 <= i < 60 ==> #[trigger] back[i] == test_frame(mac)[i],
{
    if back.len() >= 60 {
        let head = back.subrange(0, 60);
        if forall|i: int| 0 <= i < 60 ==> #[trigger] back[i] == test_frame(mac)[i] {
            assert(head =~= test_frame(mac));
        }
        if head == test_frame(mac) {
            assert forall|i: int| 0 <= i < 60 implies #[trigger] back[i] == test_frame(mac)[i] by {
                assert(back[i] == head[i]);
            }
        }
    }
}

/// An undisturbed loopback test enters its mode, sends the test frame and gives the outcome
/// of the first frame that comes back, whichever window it comes in. A test at the MAC leaves
/// its mode in between.
pub proof fn law_loopback_judges_what_came_back(
    chip: Chip,
    mac: Mac,
    phy_level: bool,
    outcome: Result<Seq<char>, Seq<char>>,
    windows: u32,
    back: Seq<u8>,
    news: LoopNews,
)
    requires
        windows < 30,
        back.len() > 0,
    ensures
        ({
            let begun = Looping { phy_level, mac, phase: LoopPhase::Enter, outcome };
            let (entered, a1) = looped(chip, begun, LoopNews::Ran);
            let (settled, a2) = if phy_level {
                looped(chip, entered, LoopNews::Ran)
            } else {
                (entered, a1)
            };
            let (sent, a3) = looped(chip, settled, LoopNews::Sent);
            let listening = Looping { phase: LoopPhase::Listen { windows }, ..sent };
            let (waiting, a4) = looped(chip, listening, LoopNews::Received(Seq::empty()));
            let (heard, a5) = looped(chip, listening, LoopNews::Received(back));
            let (left, a6) = looped(chip, heard, news);
            &&& phy_level ==> a1 == LoopAnswer::Run(phy_loopback_settle(chip))
            &&& a2 == LoopAnswer::Send(test_frame(mac))
            &&& a3 == LoopAnswer::Receive(2048)
            &&& sent.phase == (LoopPhase::Listen { windows: 0 })
            &&& windows < 29 ==> a4 == LoopAnswer::Receive(2048) && waiting.phase == (
            LoopPhase::Listen { windows: (windows + 1) as u32 })
            &&& windows == 29 ==> waiting.outcome is Err
            &&& heard.outcome == verdict(mac, back)
            &&& phy_level ==> a5 == LoopAnswer::Over(verdict(mac, back))
            &&& !phy_level ==> a5 == LoopAnswer::Run(leave_mac_loopback(chip)) && a6
                == LoopAnswer::Over(verdict(mac, back))
        }),
{
}

/// A loopback test whose frame was not sent, or whose mode was not entered, fails with the
/// reason at the end of what it says, and an unsent frame at the MAC still leaves the mode.
pub proof fn law_loopback_fails_with_the_reason(
    chip: Chip,
    looping: Looping,
    stage: Stage,
    reason: Seq<char>,
    news: LoopNews,
)
    ensures
        ({
            let (unsent, a1) = looped(
                chip,
                Looping { phase: LoopPhase::Send, ..looping },
                LoopNews::Unsent(stage, reason),
            );
            let (_, a2) = looped(chip, unsent, news);
            let (_, a3) = looped(
                chip,
                Looping { phase: LoopPhase::Enter, ..looping },
                LoopNews::Stopped(reason),
            );
            let (_, a4) = looped(
                chip,
                Looping { phase: LoopPhase::Settle, ..looping },
                LoopNews::Stopped(reason),
            );
            &&& unsent.outcome matches Err(text) && ends_with(text, reason)
            &&& stage == Stage::Draining ==> unsent.outcome == Err::<Seq<char>, Seq<char>>(reason)
            &&& looping.phy_level ==> a1 == LoopAnswer::Over(unsent.outcome)
            &&& !looping.phy_level ==> a1 == LoopAnswer::Run(leave_mac_loopback(chip)) && a2
                == LoopAnswer::Over(unsent.outcome)
            &&& a3 matches LoopAnswer::Over(Err(text)) && ends_with(text, reason)
            &&& a4 matches LoopAnswer::Over(Err(text)) && ends_with(text, reason)
        }),
{
    assert(ends_with(reason, reason)) by {
        assert(reason.subrange(0, reason.len() as int) =~= reason);
    }
    assert forall|prefix: Seq<char>| ends_with(#[trigger] (prefix + reason), reason) by {
        let text = prefix + reason;
        assert(text.subrange(text.len() - reason.len(), text.len() as int) =~= reason);
    }
}

/// Whether a text ends with another.
pub open spec fn ends_with(text: Seq<char>, end: Seq<char>) -> bool {
    text.len() >= end.len() && text.subrange(text.len() - end.len(), text.len() as int) == end
}

/// A bring-up that nothing stops identifies the chip, takes it over, configures it for the
/// variant and the speed that were found and asked for, tests it inside and out, and is up
/// with the address and the link that the chip reported. The receive report is off during the
/// tests and on afterwards; nothing was sent or received.
pub proof fn law_bringup_goes_in_order(
    chip: Chip,
    tables: Tables,
    advertise_max: u16,
    rings: u64,
    tx_address: u64,
    n1: Notes,
    n2: Notes,
    n3: Notes,
    n4: Notes,
    inside: Result<Seq<char>, Seq<char>>,
    outside: Result<Seq<char>, Seq<char>>,
)
    ensures
        ({
            let begun = Bringing {
                stage: BringStage::Identity,
                notes: no_notes(),
                nic: idle(tx_address),
                advertise_max,
                rings,
                mac_outcome: Err(Seq::empty()),
            };
            let (b1, a1) = brought(chip, tables, begun, BringNews::Ran(n1));
            let (b2, a2) = brought(chip, tables, b1, BringNews::Ran(n2));
            let (b3, a3) = brought(chip, tables, b2, BringNews::Ran(n3));
            let (b4, a4) = brought(chip, tables, b3, BringNews::Tested(inside));
            let (b5, a5) = brought(chip, tables, b4, BringNews::Tested(outside));
            let (b6, a6) = brought(chip, tables, b5, BringNews::Ran(n4));
            &&& a1 == BringAnswer::Run(takeover(chip, tables, xid_of(n1.tx_config) == XID_8125A))
            &&& a2 == BringAnswer::Run(
                configuration(
                    chip,
                    tables,
                    Wish {
                        older: xid_of(n2.tx_config) == XID_8125A,
                        ram_code: n2.ram_before,
                        advertise_max,
                        rings,
                    },
                ),
            )
            &&& a3 == (BringAnswer::Test { phy_level: false })
            &&& a4 == (BringAnswer::Test { phy_level: true })
            &&& a5 matches BringAnswer::Report(_, _, ops) && ops == outlook(chip)
            &&& a6 is Up
            &&& b3.nic.diagnosed && b4.nic.diagnosed && !b5.nic.diagnosed
            &&& b6.nic.mac == n1.mac && b6.nic.link == n4.link && !b6.nic.diagnosed
            &&& b6.nic.tx_published == 0 && b6.nic.tx_consumed == 0 && b6.nic.rx_cursor == 0
            &&& b6.nic.tx_address == tx_address
            &&& b1.notes == n1 && b2.notes == n2 && b3.notes == n3 && b6.notes == n4
        }),
{
}

/// Whatever stops a bring-up, at any stage, is what it fails with, and the controller stays as
/// it was known. A failed loopback test stops nothing.
pub proof fn law_bringup_fails_with_the_reason(
    chip: Chip,
    tables: Tables,
    bringing: Bringing,
    reason: Seq<char>,
    outcome: Result<Seq<char>, Seq<char>>,
)
    ensures
        brought(chip, tables, bringing, BringNews::Stopped(reason)) == (
            bringing,
            BringAnswer::Failed(reason),
        ),
        bringing.stage == BringStage::MacTest || bringing.stage == BringStage::PhyTest ==> !(
        brought(chip, tables, bringing, BringNews::Tested(outcome)).1 is Failed),
{
}

/// The bytes of a counter weigh 256 times as much as those before them: a byte put on top
/// adds its own share and changes nothing of the rest.
pub proof fn law_counter_bytes_weigh_in(raw: Seq<u8>, top: u8)
    ensures
        little_endian(raw.push(top)) == little_endian(raw) + top * pow256(raw.len()),
    decreases raw.len(),
{
    let more = raw.push(top);
    let rest = raw.subrange(1, raw.len() as int);
    if raw.len() == 0 {
        assert(more.subrange(1, 1) =~= Seq::<u8>::empty());
        assert(little_endian(more.subrange(1, 1)) == 0);
        assert(top * pow256(0) == top) by (nonlinear_arith)
            requires
                pow256(0) == 1,
        ;
    } else {
        law_counter_bytes_weigh_in(rest, top);
        assert(more.subrange(1, more.len() as int) =~= rest.push(top));
        let power = pow256(rest.len());
        assert(256 * (top * power) == top * (256 * power)) by (nonlinear_arith);
    }
}

/// The interface that a driver reports is up exactly while its link is, whatever its speed,
/// and has the address of the chip.
pub proof fn law_interface_follows_the_link(nic: Nic, speed: u32)
    ensures
        !interface(Nic { link: Link::Down, ..nic }).up,
        interface(Nic { link: Link::Up(speed), ..nic }).up,
        interface(nic).mac == nic.mac,
        interface(nic).mtu == 1500,
{
}

/// Nothing has been read of a chip that nobody asked: its link is down, and a controller that
/// nothing was done with has neither sent nor received.
pub proof fn law_nothing_is_known_at_first(tx_address: u64)
    ensures
        no_notes().mac == (0u8, 0u8, 0u8, 0u8, 0u8, 0u8),
        no_notes().link == Link::Down && !no_notes().expired,
        no_notes().tx_config == 0 && no_notes().ram_before == 0 && no_notes().ram_after == 0,
        idle(tx_address).mac == no_notes().mac && idle(tx_address).link == Link::Down,
        idle(tx_address).tx_address == tx_address,
        idle(tx_address).tx_published == 0 && idle(tx_address).tx_consumed == 0,
        idle(tx_address).rx_cursor == 0 && idle(tx_address).slots_consumed == 0,
        idle(tx_address).lines_rearmed == 0 && !idle(tx_address).diagnosed,
{
}

/// What a value is over contents is of the same kind as the value itself: no two kinds are
/// taken for one another.
pub proof fn law_contents_keep_their_kind(
    tx_event: TxEvent,
    tx_step: TxStep,
    rx_event: RxEvent,
    rx_step: RxStep,
    loop_event: LoopEvent,
    loop_step: LoopStep,
    bring_event: BringEvent,
    bring_step: BringStep,
)
    ensures
        tx_event is Rung <==> tx_event@ is Rung,
        tx_event is Unrung <==> tx_event@ is Unrung,
        tx_event is Owned <==> tx_event@ is Owned,
        tx_step is Publish <==> tx_step@ is Publish,
        tx_step is Ring <==> tx_step@ is Ring,
        tx_step is Look <==> tx_step@ is Look,
        tx_step is Sent <==> tx_step@ is Sent,
        tx_step is Failed <==> tx_step@ is Failed,
        rx_event is Owned <==> rx_event@ is Owned,
        rx_event is Complete <==> rx_event@ is Complete,
        rx_event is Bytes <==> rx_event@ is Bytes,
        rx_step is Look <==> rx_step@ is Look,
        rx_step is Copy <==> rx_step@ is Copy,
        rx_step is Received <==> rx_step@ is Received,
        rx_step is Nothing <==> rx_step@ is Nothing,
        loop_event is Ran <==> loop_event@ is Ran,
        loop_event is Stopped <==> loop_event@ is Stopped,
        loop_event is Sent <==> loop_event@ is Sent,
        loop_event is Unsent <==> loop_event@ is Unsent,
        loop_event is Received <==> loop_event@ is Received,
        loop_step is Run <==> loop_step@ is Run,
        loop_step is Send <==> loop_step@ is Send,
        loop_step is Receive <==> loop_step@ is Receive,
        loop_step is Over <==> loop_step@ is Over,
        bring_event is Ran <==> bring_event@ is Ran,
        bring_event is Stopped <==> bring_event@ is Stopped,
        bring_event is Tested <==> bring_event@ is Tested,
        bring_step is Run <==> bring_step@ is Run,
        bring_step is Test <==> bring_step@ is Test,
        bring_step is Report <==> bring_step@ is Report,
        bring_step is Up <==> bring_step@ is Up,
        bring_step is Failed <==> bring_step@ is Failed,
{
}

} // verus!
