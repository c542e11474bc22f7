//! `net.virtio`: whole Ethernet frames through the queues of a virtio network device.
//!
//! [`Send`] publishes one frame, after settling what a cancelled transmit left behind;
//! [`Recv`] takes the next delivered frame and posts its slot again; [`Wait`] waits for
//! the receive interrupt.
use vstd::prelude::*;
use vstd::string::*;

use crate::bytes::{
    dword_le, law_le16_round_trip, le16, push_all, push_zeros, read_le16, read_le32, word_le,
    zero_bytes,
};
use crate::device::{
    after_stores, bytes_of, count, counted, fits, only, push_store, stores, Access, Answer, Buffer,
    MemoryWrite, Reply, Request, Store, Wanted, Width, Window,
};
use crate::l2::{
    io, mac_array, mac_bytes, Described, InterfaceInfo, L2Error, L2Failure, Mac,
};
use crate::text::{decimal, format_mac, mac_text, push_decimal, same};
use crate::virtio::{access_failure, descriptor, failure, word, write_descriptor, Kind};
use crate::virtio_start::{
    Learnt, AVAIL_OFFSET, RING_REGION, RX_SLOTS, RX_SLOT_BYTES, USED_OFFSET,
};

verus! {

/// The header in front of every frame on the rings.
pub const VNET_HEADER: u64 = 12;

/// The largest frame that can be sent.
pub const MAX_FRAME: u64 = 2036;

/// The payload size that the interface reports.
pub const MTU: u32 = 1500;

/// How often the used ring is read before a transmit counts as lost, and before a
/// receive reports that nothing is waiting.
pub const TX_POLL_LIMIT: u64 = 50_000_000;

pub const RX_POLL_LIMIT: u64 = 2_000;

/// Missed interrupts are announced at the first and at every so many.
pub const REPORT_EVERY: u32 = 16;

/// One queue.
#[derive(Clone, Copy, Debug)]
pub struct Queue {
    /// The doorbell, as an offset within the notify BAR.
    pub notify_offset: u64,
    pub size: u16,
    /// Buffers published so far, counting round.
    pub avail_index: u16,
    /// Completions consumed so far, counting round.
    pub used_index: u16,
}

/// A brought-up network device.
#[derive(Clone, Copy, Debug)]
pub struct Nic {
    pub rx: Queue,
    pub tx: Queue,
    /// The address of the transmit buffer, as the device sees it.
    pub tx_address: u64,
    /// Whether there is an interrupt status window, and whether a vector was granted.
    pub isr: bool,
    pub interrupt: bool,
    /// Missed interrupts so far, counting round.
    pub missed: u32,
    pub mac: Mac,
}

/// The line that announces a device.
pub open spec fn banner_text(nic: Nic) -> Seq<char> {
    "net.virtio: virtio-net "@ + mac_text(mac_bytes(nic.mac)) + ", queues rx/tx "@ + decimal(
        nic.rx.size as nat,
    ) + "/"@ + decimal(nic.tx.size as nat) + ", rx wait: "@ + (if nic.interrupt {
        "INTx interrupt"@
    } else {
        "polled"@
    })
}

/// What an interface reports whose driver cannot be asked.
pub open spec fn unavailable() -> Described {
    Described { name: "virtio0"@, mac: (0, 0, 0, 0, 0, 0), mtu: 0, up: false }
}

/// What the interface of a driver reports.
pub open spec fn interface(nic: Nic) -> Described {
    Described { name: "virtio0"@, mac: nic.mac, mtu: MTU, up: true }
}

/// The doorbell of a queue.
pub open spec fn doorbell(nic: Nic, transmit: bool) -> Access {
    Access::Write {
        window: Window::Notify,
        register: if transmit {
            nic.tx.notify_offset
        } else {
            nic.rx.notify_offset
        },
        width: Width::Word,
        value: if transmit {
            1
        } else {
            0
        },
    }
}

/// The read of a queue's used index.
pub open spec fn used_fetch(transmit: bool) -> Access {
    Access::Fetch {
        buffer: Buffer::Rings,
        offset: if transmit {
            (RING_REGION + USED_OFFSET + 2) as u64
        } else {
            (USED_OFFSET + 2) as u64
        },
        len: 2,
    }
}

/// The read that clears the interrupt status.
pub open spec fn isr_read() -> Access {
    Access::Read { window: Window::Isr, register: 0, width: Width::Byte }
}

impl Nic {
    /// Both queues have room.
    pub open spec fn wf(self) -> bool {
        1 <= self.rx.size && 1 <= self.tx.size
    }

    /// The driver of a device that was brought up: its receive slots are posted.
    pub fn new(learnt: &Learnt, isr: bool, tx_address: u64) -> (nic: Nic)
        requires
            1 <= learnt.first.size,
            1 <= learnt.second.size,
        ensures
            nic.wf(),
            nic == (Nic {
                rx: Queue {
                    notify_offset: learnt.first.notify_offset,
                    size: learnt.first.size,
                    avail_index: RX_SLOTS,
                    used_index: 0,
                },
                tx: Queue {
                    notify_offset: learnt.second.notify_offset,
                    size: learnt.second.size,
                    avail_index: 0,
                    used_index: 0,
                },
                tx_address,
                isr,
                interrupt: learnt.interrupt,
                missed: 0,
                mac: learnt.mac,
            }),
    {
        Nic {
            rx: Queue {
                notify_offset: learnt.first.notify_offset,
                size: learnt.first.size,
                avail_index: RX_SLOTS,
                used_index: 0,
            },
            tx: Queue {
                notify_offset: learnt.second.notify_offset,
                size: learnt.second.size,
                avail_index: 0,
                used_index: 0,
            },
            tx_address,
            isr,
            interrupt: learnt.interrupt,
            missed: 0,
            mac: learnt.mac,
        }
    }

    /// The line that announces the device.
    pub fn banner(&self) -> (line: String)
        ensures
            line@ == banner_text(*self),
    {
        let mut line = String::from_str("net.virtio: virtio-net ");
        line.append(format_mac(&mac_array(self.mac)).as_str());
        line.append(", queues rx/tx ");
        push_decimal(&mut line, self.rx.size as u64);
        line.append("/");
        push_decimal(&mut line, self.tx.size as u64);
        line.append(", rx wait: ");
        if self.interrupt {
            line.append("INTx interrupt");
        } else {
            line.append("polled");
        }
        line
    }

    /// What the interface reports.
    pub fn interface_info(&self) -> (info: InterfaceInfo)
        ensures
            info@ == interface(*self),
    {
        InterfaceInfo { name: String::from_str("virtio0"), mac: self.mac, mtu: MTU, up: true }
    }

    fn ring(&self, transmit: bool) -> (access: Access)
        ensures
            access == doorbell(*self, transmit),
    {
        Access::Write {
            window: Window::Notify,
            register: if transmit {
                self.tx.notify_offset
            } else {
                self.rx.notify_offset
            },
            width: Width::Word,
            value: if transmit {
                1
            } else {
                0
            },
        }
    }
}

fn fetch_used(transmit: bool) -> (access: Access)
    ensures
        access == used_fetch(transmit),
{
    Access::Fetch {
        buffer: Buffer::Rings,
        offset: if transmit {
            RING_REGION + USED_OFFSET + 2
        } else {
            USED_OFFSET + 2
        },
        len: 2,
    }
}

fn read_isr() -> (access: Access)
    ensures
        access == isr_read(),
{
    Access::Read { window: Window::Isr, register: 0, width: Width::Byte }
}

fn used_index(reply: &Reply) -> (used: u16)
    requires
        reply@ matches Answer::Bytes(bytes) && bytes.len() == 2,
    ensures
        used == word_le(bytes_of(reply@), 0),
{
    match reply {
        Reply::Bytes(raw) => read_le16(raw, 0),
        _ => 0,
    }
}

/// What the interface reports: the resting driver's answer, or that it is unavailable.
pub fn info(resting: Option<&Nic>) -> (info: InterfaceInfo)
    ensures
        info@ == match resting {
            Some(nic) => interface(*nic),
            None => unavailable(),
        },
{
    match resting {
        Some(nic) => nic.interface_info(),
        None => InterfaceInfo {
            name: String::from_str("virtio0"),
            mac: (0, 0, 0, 0, 0, 0),
            mtu: 0,
            up: false,
        },
    }
}

/// Open the one interface, by its name or by none.
pub fn open_interface(name: &str) -> (result: Result<(), L2Error>)
    ensures
        match result {
            Ok(_) => name@.len() == 0 || name@ == "virtio0"@,
            Err(error) => error is NoSuchInterface && name@.len() != 0 && name@ != "virtio0"@,
        },
{
    if name.is_empty() || same(name, "virtio0") {
        Ok(())
    } else {
        Err(L2Error::NoSuchInterface)
    }
}

/// What an operation answers while another one has the driver.
pub fn busy() -> (error: L2Error)
    ensures
        error@ == L2Failure::Io("net.virtio: another operation on this device is in progress"@),
{
    io("net.virtio: another operation on this device is in progress")
}

/// What a transmit waits for.
#[derive(Clone, Copy, PartialEq, Eq, Structural, Debug)]
pub enum Stage {
    /// The completion of a transmit that was cancelled.
    Draining,
    /// Its own completion.
    Issued,
}

/// Where a transmit stands.
#[derive(Clone, Copy, PartialEq, Eq, Structural, Debug)]
pub enum SendPhase {
    /// Ringing the doorbell.
    Kick { spins: u64 },
    /// Watching the used ring.
    Poll { spins: u64 },
}

/// One frame that is being sent.
#[derive(Debug)]
pub struct Send {
    pub frame: Vec<u8>,
    pub stage: Stage,
    pub phase: SendPhase,
}

/// One frame that is being sent, over contents.
pub struct Sending {
    pub frame: Seq<u8>,
    pub stage: Stage,
    pub phase: SendPhase,
}

impl View for Send {
    type V = Sending;

    open spec fn view(&self) -> Sending {
        Sending { frame: self.frame@, stage: self.stage, phase: self.phase }
    }
}

/// What a transmit does next.
#[derive(Debug)]
pub enum SendStep {
    Ask(Request),
    /// The device took the frame; this is its length.
    Sent(u64),
    Failed(L2Error),
}

/// What a transmit does next, over contents.
pub enum SendAnswer {
    Ask(Wanted),
    Sent(u64),
    Failed(L2Failure),
}

impl View for SendStep {
    type V = SendAnswer;

    open spec fn view(&self) -> SendAnswer {
        match self {
            SendStep::Ask(request) => SendAnswer::Ask(request@),
            SendStep::Sent(len) => SendAnswer::Sent(*len),
            SendStep::Failed(error) => SendAnswer::Failed(error@),
        }
    }
}

/// Everything that publishes a frame: the buffer with the header, its descriptor, and
/// the entry and index of the available ring.
pub open spec fn frame_publication(nic: Nic, frame: Seq<u8>) -> Seq<Store> {
    let packet = zero_bytes(VNET_HEADER as nat) + frame;
    let slot = nic.tx.avail_index % nic.tx.size;
    seq![
        Store { buffer: Buffer::Transmit, offset: 0, bytes: packet },
        Store {
            buffer: Buffer::Rings,
            offset: RING_REGION + slot * 16,
            bytes: descriptor(nic.tx_address, packet.len() as u32, 0, 0),
        },
        Store {
            buffer: Buffer::Rings,
            offset: RING_REGION + AVAIL_OFFSET + 4 + 2 * slot,
            bytes: le16(slot),
        },
        Store {
            buffer: Buffer::Rings,
            offset: RING_REGION + AVAIL_OFFSET + 2,
            bytes: le16(counted(nic.tx.avail_index)),
        },
    ]
}

/// A transmit at its start and after each completion that it drained: the frame is
/// published only once everything that was published before has been consumed.
pub open spec fn send_settled(nic: Nic, sending: Sending, spins: u64) -> (
    Nic,
    Sending,
    SendAnswer,
) {
    if nic.tx.avail_index != nic.tx.used_index {
        (
            nic,
            Sending { stage: Stage::Draining, phase: SendPhase::Kick { spins }, ..sending },
            SendAnswer::Ask(only(doorbell(nic, true))),
        )
    } else {
        (
            Nic {
                tx: Queue { avail_index: counted(nic.tx.avail_index), ..nic.tx },
                ..nic
            },
            Sending { stage: Stage::Issued, phase: SendPhase::Kick { spins: 0 }, ..sending },
            SendAnswer::Ask(
                after_stores(frame_publication(nic, sending.frame), doorbell(nic, true)),
            ),
        )
    }
}

/// A transmit after a reply.
pub open spec fn send_next(nic: Nic, sending: Sending, answer: Answer) -> (
    Nic,
    Sending,
    SendAnswer,
) {
    match sending.phase {
        SendPhase::Kick { spins } => match answer {
            Answer::Failed(error) => (
                nic,
                sending,
                SendAnswer::Failed(
                    L2Failure::Io(failure(Kind::Net, doorbell(nic, true), error)),
                ),
            ),
            _ => (
                nic,
                Sending { phase: SendPhase::Poll { spins }, ..sending },
                SendAnswer::Ask(only(used_fetch(true))),
            ),
        },
        SendPhase::Poll { spins } => if word_le(bytes_of(answer), 0) != nic.tx.used_index {
            let after = Nic {
                tx: Queue { used_index: counted(nic.tx.used_index), ..nic.tx },
                ..nic
            };
            if sending.stage == Stage::Draining {
                send_settled(after, sending, spins)
            } else {
                (after, sending, SendAnswer::Sent(sending.frame.len() as u64))
            }
        } else if spins >= TX_POLL_LIMIT {
            (
                nic,
                sending,
                SendAnswer::Failed(
                    L2Failure::Io(
                        if sending.stage == Stage::Draining {
                            "net.virtio: the device did not complete a cancelled transmit (poll limit)"@
                        } else {
                            "net.virtio: the device did not consume the transmitted frame (poll limit)"@
                        },
                    ),
                ),
            )
        } else {
            (
                nic,
                Sending { phase: SendPhase::Poll { spins: (spins + 1) as u64 }, ..sending },
                SendAnswer::Ask(only(used_fetch(true))),
            )
        },
    }
}

/// The access that a transmit waits for.
pub open spec fn send_access(nic: Nic, sending: Sending) -> Access {
    match sending.phase {
        SendPhase::Kick { .. } => doorbell(nic, true),
        SendPhase::Poll { .. } => used_fetch(true),
    }
}

impl Sending {
    /// The frame fits; polls stay within their limit; the frame in flight is the only
    /// thing that the device has not consumed; what is drained is something that it has not
    /// consumed.
    pub open spec fn wf(self, nic: Nic) -> bool {
        &&& self.frame.len() <= MAX_FRAME
        &&& match self.phase {
            SendPhase::Kick { spins } => spins <= TX_POLL_LIMIT,
            SendPhase::Poll { spins } => spins <= TX_POLL_LIMIT,
        }
        &&& self.stage == Stage::Issued ==> nic.tx.avail_index == counted(nic.tx.used_index)
        &&& self.stage == Stage::Draining ==> nic.tx.avail_index != nic.tx.used_index
    }
}

impl Send {
    fn settle(&mut self, nic: &mut Nic, spins: u64) -> (step: SendStep)
        requires
            old(nic).wf(),
            old(self).frame@.len() <= MAX_FRAME,
            spins <= TX_POLL_LIMIT,
        ensures
            final(nic).wf(),
            final(self)@.wf(*final(nic)),
            (*final(nic), final(self)@, step@) == send_settled(*old(nic), old(self)@, spins),
    {
        if nic.tx.avail_index != nic.tx.used_index {
            self.stage = Stage::Draining;
            self.phase = SendPhase::Kick { spins };
            return SendStep::Ask(Request::only(nic.ring(true)));
        }
        let mut packet: Vec<u8> = Vec::new();
        push_zeros(&mut packet, VNET_HEADER as usize);
        push_all(&mut packet, &self.frame);
        assert(packet@ =~= zero_bytes(VNET_HEADER as nat) + self.frame@);
        let len: u32 = packet.len() as u32;
        let slot: u16 = nic.tx.avail_index % nic.tx.size;
        let mut writes: Vec<MemoryWrite> = Vec::new();
        push_store(&mut writes, Buffer::Transmit, 0, packet);
        push_store(
            &mut writes,
            Buffer::Rings,
            RING_REGION + slot as u64 * 16,
            write_descriptor(nic.tx_address, len, 0, 0),
        );
        push_store(
            &mut writes,
            Buffer::Rings,
            RING_REGION + AVAIL_OFFSET + 4 + 2 * slot as u64,
            word(slot),
        );
        nic.tx.avail_index = count(nic.tx.avail_index);
        push_store(
            &mut writes,
            Buffer::Rings,
            RING_REGION + AVAIL_OFFSET + 2,
            word(nic.tx.avail_index),
        );
        assert(stores(writes@) =~= frame_publication(*old(nic), self.frame@));
        self.stage = Stage::Issued;
        self.phase = SendPhase::Kick { spins: 0 };
        SendStep::Ask(Request::after_stores(writes, nic.ring(true)))
    }

    /// Begin to send a frame; one that is too large is refused.
    pub fn new(nic: &mut Nic, frame: Vec<u8>) -> (begun: Result<(Send, SendStep), L2Error>)
        requires
            old(nic).wf(),
        ensures
            final(nic).wf(),
            match begun {
                Ok((send, step)) => {
                    &&& frame@.len() <= MAX_FRAME
                    &&& send@.wf(*final(nic))
                    &&& (*final(nic), send@, step@) == send_settled(
                        *old(nic),
                        (Sending {
                            frame: frame@,
                            stage: Stage::Draining,
                            phase: SendPhase::Kick { spins: 0 },
                        }),
                        0,
                    )
                },
                Err(error) => {
                    &&& frame@.len() > MAX_FRAME
                    &&& error is FrameTooLarge
                    &&& *final(nic) == *old(nic)
                },
            },
    {
        if frame.len() as u64 > MAX_FRAME {
            return Err(L2Error::FrameTooLarge);
        }
        let mut send = Send {
            frame,
            stage: Stage::Draining,
            phase: SendPhase::Kick { spins: 0 },
        };
        let step = send.settle(nic, 0);
        Ok((send, step))
    }

    /// Take the reply to the pending access and say what comes next.
    pub fn next(&mut self, nic: &mut Nic, reply: Reply) -> (step: SendStep)
        requires
            old(nic).wf(),
            old(self)@.wf(*old(nic)),
            fits(send_access(*old(nic), old(self)@), reply@),
        ensures
            final(nic).wf(),
            !(step@ is Sent) ==> final(self)@.wf(*final(nic)),
            (*final(nic), final(self)@, step@) == send_next(*old(nic), old(self)@, reply@),
    {
        match self.phase {
            SendPhase::Kick { spins } => match reply {
                Reply::Failed(error) => SendStep::Failed(
                    L2Error::Io(access_failure(Kind::Net, nic.ring(true), error)),
                ),
                _ => {
                    self.phase = SendPhase::Poll { spins };
                    SendStep::Ask(Request::only(fetch_used(true)))
                },
            },
            SendPhase::Poll { spins } => if used_index(&reply) != nic.tx.used_index {
                nic.tx.used_index = count(nic.tx.used_index);
                if self.stage == Stage::Draining {
                    self.settle(nic, spins)
                } else {
                    SendStep::Sent(self.frame.len() as u64)
                }
            } else if spins >= TX_POLL_LIMIT {
                SendStep::Failed(
                    if self.stage == Stage::Draining {
                        io(
                            "net.virtio: the device did not complete a cancelled transmit (poll limit)",
                        )
                    } else {
                        io(
                            "net.virtio: the device did not consume the transmitted frame (poll limit)",
                        )
                    },
                )
            } else {
                self.phase = SendPhase::Poll { spins: spins + 1 };
                SendStep::Ask(Request::only(fetch_used(true)))
            },
        }
    }
}

/// Where a receive stands.
#[derive(Clone, Copy, PartialEq, Eq, Structural, Debug)]
pub enum RecvPhase {
    /// Watching the used ring.
    Poll { spins: u64 },
    /// Reading the completion.
    Element,
    /// Reading the frame out of its slot.
    Frame { id: u32, len: u64 },
    /// Handing the slot back.
    Repost,
    /// Clearing the interrupt status.
    Clear,
}

/// A receive.
#[derive(Debug)]
pub struct Recv {
    pub max_len: u64,
    pub phase: RecvPhase,
    pub frame: Vec<u8>,
}

/// A receive, over contents.
pub struct Receiving {
    pub max_len: u64,
    pub phase: RecvPhase,
    pub frame: Seq<u8>,
}

impl View for Recv {
    type V = Receiving;

    open spec fn view(&self) -> Receiving {
        Receiving { max_len: self.max_len, phase: self.phase, frame: self.frame@ }
    }
}

/// What a receive does next.
#[derive(Debug)]
pub enum RecvStep {
    Ask(Request),
    /// The next frame; empty where nothing (usable) was waiting.
    Received(Vec<u8>),
    Failed(L2Error),
}

/// What a receive does next, over contents.
pub enum RecvAnswer {
    Ask(Wanted),
    Received(Seq<u8>),
    Failed(L2Failure),
}

impl View for RecvStep {
    type V = RecvAnswer;

    open spec fn view(&self) -> RecvAnswer {
        match self {
            RecvStep::Ask(request) => RecvAnswer::Ask(request@),
            RecvStep::Received(frame) => RecvAnswer::Received(frame@),
            RecvStep::Failed(error) => RecvAnswer::Failed(error@),
        }
    }
}

/// The read of the completion that comes next.
pub open spec fn element_fetch(nic: Nic) -> Access {
    Access::Fetch {
        buffer: Buffer::Rings,
        offset: (USED_OFFSET + 4 + 8 * (nic.rx.used_index % nic.rx.size)) as u64,
        len: 8,
    }
}

/// The read of a frame out of its slot.
pub open spec fn frame_fetch(id: u32, len: u64) -> Access {
    Access::Fetch {
        buffer: Buffer::Receive,
        offset: (id * RX_SLOT_BYTES + VNET_HEADER) as u64,
        len,
    }
}

/// How many bytes of a frame are taken: what the device wrote without the header, as far
/// as the receiver wants and the slot holds.
pub open spec fn frame_len(written: u32, max_len: u64) -> int {
    let bare = written - VNET_HEADER;
    let wanted = if bare < max_len {
        bare
    } else {
        max_len as int
    };
    if wanted < RX_SLOT_BYTES - VNET_HEADER {
        wanted
    } else {
        RX_SLOT_BYTES - VNET_HEADER
    }
}

/// The access that a receive waits for.
pub open spec fn recv_access(nic: Nic, receiving: Receiving) -> Access {
    match receiving.phase {
        RecvPhase::Poll { .. } => used_fetch(false),
        RecvPhase::Element => element_fetch(nic),
        RecvPhase::Frame { id, len } => frame_fetch(id, len),
        RecvPhase::Repost => doorbell(nic, false),
        RecvPhase::Clear => isr_read(),
    }
}

/// A receive whose slot has been dealt with.
pub open spec fn recv_finished(nic: Nic, receiving: Receiving) -> (Nic, Receiving, RecvAnswer) {
    if nic.interrupt && nic.isr {
        (
            nic,
            Receiving { phase: RecvPhase::Clear, ..receiving },
            RecvAnswer::Ask(only(isr_read())),
        )
    } else {
        (nic, receiving, RecvAnswer::Received(receiving.frame))
    }
}

/// A receive that hands slot `id` back to the device.
pub open spec fn reposted(nic: Nic, receiving: Receiving, id: u32) -> (
    Nic,
    Receiving,
    RecvAnswer,
) {
    let posts = seq![
        Store {
            buffer: Buffer::Rings,
            offset: AVAIL_OFFSET + 4 + 2 * (nic.rx.avail_index % nic.rx.size),
            bytes: le16(id as u16),
        },
        Store {
            buffer: Buffer::Rings,
            offset: AVAIL_OFFSET + 2,
            bytes: le16(counted(nic.rx.avail_index)),
        },
    ];
    (
        Nic { rx: Queue { avail_index: counted(nic.rx.avail_index), ..nic.rx }, ..nic },
        Receiving { phase: RecvPhase::Repost, ..receiving },
        RecvAnswer::Ask(after_stores(posts, doorbell(nic, false))),
    )
}

/// A receive after a reply.
pub open spec fn recv_next(nic: Nic, receiving: Receiving, answer: Answer) -> (
    Nic,
    Receiving,
    RecvAnswer,
) {
    match receiving.phase {
        RecvPhase::Poll { spins } => if word_le(bytes_of(answer), 0) != nic.rx.used_index {
            (
                nic,
                Receiving { phase: RecvPhase::Element, ..receiving },
                RecvAnswer::Ask(only(element_fetch(nic))),
            )
        } else if spins >= RX_POLL_LIMIT {
            (nic, receiving, RecvAnswer::Received(Seq::empty()))
        } else {
            (
                nic,
                Receiving { phase: RecvPhase::Poll { spins: (spins + 1) as u64 }, ..receiving },
                RecvAnswer::Ask(only(used_fetch(false))),
            )
        },
        RecvPhase::Element => {
            let id = dword_le(bytes_of(answer), 0);
            let written = dword_le(bytes_of(answer), 4);
            let after = Nic {
                rx: Queue { used_index: counted(nic.rx.used_index), ..nic.rx },
                ..nic
            };
            if id >= RX_SLOTS {
                recv_finished(after, receiving)
            } else if written <= VNET_HEADER {
                reposted(after, receiving, id)
            } else {
                let len = frame_len(written, receiving.max_len) as u64;
                (
                    after,
                    Receiving { phase: RecvPhase::Frame { id, len }, ..receiving },
                    RecvAnswer::Ask(only(frame_fetch(id, len))),
                )
            }
        },
        RecvPhase::Frame { id, .. } => reposted(
            nic,
            Receiving { frame: bytes_of(answer), ..receiving },
            id,
        ),
        RecvPhase::Repost => match answer {
            Answer::Failed(error) => (
                nic,
                receiving,
                RecvAnswer::Failed(
                    L2Failure::Io(failure(Kind::Net, doorbell(nic, false), error)),
                ),
            ),
            _ => recv_finished(nic, receiving),
        },
        RecvPhase::Clear => (nic, receiving, RecvAnswer::Received(receiving.frame)),
    }
}

impl Receiving {
    /// Polls stay within their limit, and slots exist.
    pub open spec fn wf(self) -> bool {
        match self.phase {
            RecvPhase::Poll { spins } => spins <= RX_POLL_LIMIT && self.frame.len() == 0,
            RecvPhase::Element => self.frame.len() == 0,
            RecvPhase::Frame { id, len } => id < RX_SLOTS && len <= self.max_len
                && self.frame.len() == 0,
            _ => self.frame.len() <= self.max_len,
        }
    }
}

impl Recv {
    fn finish(&mut self, nic: &Nic) -> (step: RecvStep)
        requires
            old(self)@.frame.len() <= old(self).max_len,
        ensures
            ({
                let (after, there, answer) = recv_finished(*nic, old(self)@);
                &&& after == *nic
                &&& step@ == answer
                &&& answer is Ask ==> final(self)@ == there
            }),
            final(self).max_len == old(self).max_len,
            step@ is Ask ==> final(self)@.wf(),
    {
        if nic.interrupt && nic.isr {
            self.phase = RecvPhase::Clear;
            RecvStep::Ask(Request::only(read_isr()))
        } else {
            RecvStep::Received(self.hand_over())
        }
    }

    fn hand_over(&mut self) -> (frame: Vec<u8>)
        ensures
            frame@ == old(self).frame@,
            final(self).max_len == old(self).max_len,
    {
        let mut frame: Vec<u8> = Vec::new();
        std::mem::swap(&mut self.frame, &mut frame);
        frame
    }

    fn repost(&mut self, nic: &mut Nic, id: u32) -> (step: RecvStep)
        requires
            old(nic).wf(),
            id < RX_SLOTS,
        ensures
            final(nic).wf(),
            (*final(nic), final(self)@, step@) == reposted(*old(nic), old(self)@, id),
    {
        let slot: u64 = (nic.rx.avail_index % nic.rx.size) as u64;
        let mut writes: Vec<MemoryWrite> = Vec::new();
        push_store(&mut writes, Buffer::Rings, AVAIL_OFFSET + 4 + 2 * slot, word(id as u16));
        nic.rx.avail_index = count(nic.rx.avail_index);
        push_store(&mut writes, Buffer::Rings, AVAIL_OFFSET + 2, word(nic.rx.avail_index));
        self.phase = RecvPhase::Repost;
        proof {
            let (_, _, answer) = reposted(*old(nic), old(self)@, id);
            assert(stores(writes@) =~= answer->Ask_0.writes);
        }
        RecvStep::Ask(Request::after_stores(writes, nic.ring(false)))
    }

    /// Begin to receive at most `max_len` bytes.
    pub fn new(max_len: u64) -> (begun: (Recv, Request))
        ensures
            begun.0@ == (Receiving {
                max_len,
                phase: RecvPhase::Poll { spins: 0 },
                frame: Seq::empty(),
            }),
            begun.0@.wf(),
            begun.1@ == only(used_fetch(false)),
    {
        let recv = Recv { max_len, phase: RecvPhase::Poll { spins: 0 }, frame: Vec::new() };
        assert(recv.frame@ =~= Seq::empty());
        (recv, Request::only(fetch_used(false)))
    }

    /// Take the reply to the pending access and say what comes next.
    pub fn next(&mut self, nic: &mut Nic, reply: Reply) -> (step: RecvStep)
        requires
            old(nic).wf(),
            old(self)@.wf(),
            fits(recv_access(*old(nic), old(self)@), reply@),
        ensures
            final(nic).wf(),
            step@ is Ask ==> final(self)@.wf(),
            ({
                let (after, there, answer) = recv_next(*old(nic), old(self)@, reply@);
                &&& *final(nic) == after
                &&& step@ == answer
                &&& answer is Ask ==> final(self)@ == there
            }),
    {
        match self.phase {
            RecvPhase::Poll { spins } => if used_index(&reply) != nic.rx.used_index {
                self.phase = RecvPhase::Element;
                let slot: u64 = (nic.rx.used_index % nic.rx.size) as u64;
                RecvStep::Ask(
                    Request::only(
                        Access::Fetch {
                            buffer: Buffer::Rings,
                            offset: USED_OFFSET + 4 + 8 * slot,
                            len: 8,
                        },
                    ),
                )
            } else if spins >= RX_POLL_LIMIT {
                RecvStep::Received(Vec::new())
            } else {
                self.phase = RecvPhase::Poll { spins: spins + 1 };
                RecvStep::Ask(Request::only(fetch_used(false)))
            },
            RecvPhase::Element => {
                let (id, written): (u32, u32) = match &reply {
                    Reply::Bytes(raw) => (read_le32(raw, 0), read_le32(raw, 4)),
                    _ => (0, 0),
                };
                nic.rx.used_index = count(nic.rx.used_index);
                if id >= RX_SLOTS as u32 {
                    self.finish(nic)
                } else if written as u64 <= VNET_HEADER {
                    self.repost(nic, id)
                } else {
                    let bare: u64 = written as u64 - VNET_HEADER;
                    let wanted: u64 = if bare < self.max_len {
                        bare
                    } else {
                        self.max_len
                    };
                    let len: u64 = if wanted < RX_SLOT_BYTES - VNET_HEADER {
                        wanted
                    } else {
                        RX_SLOT_BYTES - VNET_HEADER
                    };
                    self.phase = RecvPhase::Frame { id, len };
                    RecvStep::Ask(
                        Request::only(
                            Access::Fetch {
                                buffer: Buffer::Receive,
                                offset: id as u64 * RX_SLOT_BYTES + VNET_HEADER,
                                len,
                            },
                        ),
                    )
                }
            },
            RecvPhase::Frame { id, .. } => {
                self.frame = match reply {
                    Reply::Bytes(frame) => frame,
                    _ => Vec::new(),
                };
                self.repost(nic, id)
            },
            RecvPhase::Repost => match reply {
                Reply::Failed(error) => RecvStep::Failed(
                    L2Error::Io(access_failure(Kind::Net, nic.ring(false), error)),
                ),
                _ => self.finish(nic),
            },
            RecvPhase::Clear => RecvStep::Received(self.hand_over()),
        }
    }
}

/// Where a wait stands.
#[derive(Clone, Copy, PartialEq, Eq, Structural, Debug)]
pub enum WaitPhase {
    /// Looking whether something was delivered already.
    Look,
    /// Waiting for the interrupt.
    Park,
    /// Clearing the interrupt status.
    Clear,
    /// Looking whether an expired wait missed something.
    Recheck,
}

/// A wait for receive work.
#[derive(Clone, Copy, Debug)]
pub struct Wait {
    pub bound: u64,
    pub phase: WaitPhase,
}

/// What a wait does next.
#[derive(Debug)]
pub enum WaitStep {
    Ask(Access),
    /// The wait is over; a missed interrupt may have to be announced.
    Over(Option<String>),
}

/// What a wait does next, over contents.
pub enum WaitAnswer {
    Ask(Access),
    Over(Option<Seq<char>>),
}

impl View for WaitStep {
    type V = WaitAnswer;

    open spec fn view(&self) -> WaitAnswer {
        match self {
            WaitStep::Ask(access) => WaitAnswer::Ask(*access),
            WaitStep::Over(Some(line)) => WaitAnswer::Over(Some(line@)),
            WaitStep::Over(None) => WaitAnswer::Over(None),
        }
    }
}

/// The announcement of a missed interrupt.
pub open spec fn missed_line(occurrence: u32) -> Seq<char> {
    "liveness: net.virtio rx frame present after a bounded interrupt wait expired (missed INTx; occurrence "@
        + decimal(occurrence as nat) + ")"@
}

/// The access that a wait waits for.
pub open spec fn wait_access(wait: Wait) -> Access {
    match wait.phase {
        WaitPhase::Look => used_fetch(false),
        WaitPhase::Park => Access::WaitInterrupt { bound: wait.bound },
        WaitPhase::Clear => isr_read(),
        WaitPhase::Recheck => used_fetch(false),
    }
}

/// A wait in another phase.
pub open spec fn wait_in(nic: Nic, wait: Wait, phase: WaitPhase) -> (Nic, Wait, WaitAnswer) {
    let there = Wait { phase, ..wait };
    (nic, there, WaitAnswer::Ask(wait_access(there)))
}

/// A wait after a reply.
pub open spec fn wait_next(nic: Nic, wait: Wait, answer: Answer) -> (Nic, Wait, WaitAnswer) {
    let delivered = word_le(bytes_of(answer), 0) != nic.rx.used_index;
    match wait.phase {
        WaitPhase::Look => if delivered || !nic.interrupt {
            (nic, wait, WaitAnswer::Over(None))
        } else {
            wait_in(nic, wait, WaitPhase::Park)
        },
        WaitPhase::Park => if answer is Failed {
            wait_in(nic, wait, WaitPhase::Recheck)
        } else if nic.isr {
            wait_in(nic, wait, WaitPhase::Clear)
        } else {
            (nic, wait, WaitAnswer::Over(None))
        },
        WaitPhase::Clear => (nic, wait, WaitAnswer::Over(None)),
        WaitPhase::Recheck => if delivered {
            let missed = if nic.missed == u32::MAX {
                0
            } else {
                (nic.missed + 1) as u32
            };
            (
                Nic { missed, ..nic },
                wait,
                WaitAnswer::Over(
                    if missed == 1 || missed % REPORT_EVERY == 0 {
                        Some(missed_line(missed))
                    } else {
                        None
                    },
                ),
            )
        } else {
            (nic, wait, WaitAnswer::Over(None))
        },
    }
}

impl Wait {
    /// Begin to wait for receive work, at most `bound` nanoseconds.
    pub fn new(bound: u64) -> (begun: (Wait, Access))
        ensures
            begun.0 == (Wait { bound, phase: WaitPhase::Look }),
            begun.1 == used_fetch(false),
    {
        (Wait { bound, phase: WaitPhase::Look }, fetch_used(false))
    }

    /// Take the reply to the pending access and say what comes next.
    pub fn next(&mut self, nic: &mut Nic, reply: Reply) -> (step: WaitStep)
        requires
            fits(wait_access(*old(self)), reply@),
        ensures
            (*final(nic), *final(self), step@) == wait_next(*old(nic), *old(self), reply@),
    {
        match self.phase {
            WaitPhase::Look => if used_index(&reply) != nic.rx.used_index || !nic.interrupt {
                WaitStep::Over(None)
            } else {
                self.phase = WaitPhase::Park;
                WaitStep::Ask(Access::WaitInterrupt { bound: self.bound })
            },
            WaitPhase::Park => match reply {
                Reply::Failed(_) => {
                    self.phase = WaitPhase::Recheck;
                    WaitStep::Ask(fetch_used(false))
                },
                _ => if nic.isr {
                    self.phase = WaitPhase::Clear;
                    WaitStep::Ask(read_isr())
                } else {
                    WaitStep::Over(None)
                },
            },
            WaitPhase::Clear => WaitStep::Over(None),
            WaitPhase::Recheck => if used_index(&reply) != nic.rx.used_index {
                nic.missed = if nic.missed == u32::MAX {
                    0
                } else {
                    nic.missed + 1
                };
                if nic.missed == 1 || nic.missed % REPORT_EVERY == 0 {
                    let mut line = String::from_str(
                        "liveness: net.virtio rx frame present after a bounded interrupt wait expired (missed INTx; occurrence ",
                    );
                    push_decimal(&mut line, nic.missed as u64);
                    line.append(")");
                    WaitStep::Over(Some(line))
                } else {
                    WaitStep::Over(None)
                }
            } else {
                WaitStep::Over(None)
            },
        }
    }
}

/// The transmit buffer and ring are written only while the device has consumed every
/// frame that was published before.
pub proof fn law_publishes_only_when_drained(nic: Nic, sending: Sending, answer: Answer)
    requires
        sending.wf(nic),
    ensures
        ({
            let (after, there, step) = send_next(nic, sending, answer);
            step matches SendAnswer::Ask(wanted) ==> wanted.writes.len() > 0
                ==> after.tx.avail_index == counted(after.tx.used_index)
        }),
{
}

/// A frame counts as sent when its own completion, the last one published, was consumed;
/// the queue is level again.
pub proof fn law_sent_leaves_queue_level(nic: Nic, sending: Sending, answer: Answer)
    requires
        sending.wf(nic),
    ensures
        ({
            let (after, there, step) = send_next(nic, sending, answer);
            step matches SendAnswer::Sent(len) ==> after.tx.avail_index == after.tx.used_index
                && len == sending.frame.len()
        }),
{
}

/// A wait never parks over work that was delivered already, nor without a vector.
pub proof fn law_wait_parks_only_when_idle(nic: Nic, wait: Wait, answer: Answer)
    requires
        wait.phase == WaitPhase::Look,
    ensures
        wait_next(nic, wait, answer).2 is Ask ==> word_le(bytes_of(answer), 0)
            == nic.rx.used_index && nic.interrupt,
{
}

/// A received frame is never longer than the receiver asked for.
pub proof fn law_frame_within_bound(written: u32, max_len: u64)
    requires
        written > VNET_HEADER,
    ensures
        0 <= frame_len(written, max_len) <= max_len,
        frame_len(written, max_len) <= RX_SLOT_BYTES - VNET_HEADER,
        frame_len(written, max_len) <= written - VNET_HEADER,
{
}

/// How many frames were published that the device has not consumed.
pub open spec fn in_flight(queue: Queue) -> int {
    if queue.avail_index >= queue.used_index {
        queue.avail_index - queue.used_index
    } else {
        queue.avail_index + 0x1_0000 - queue.used_index
    }
}

/// How much of a transmit is left: the completions that it drains, then its own.
pub open spec fn send_left(nic: Nic, sending: Sending) -> int {
    let completions = if sending.stage == Stage::Issued {
        0
    } else {
        in_flight(nic.tx) + 1
    };
    completions * (TX_POLL_LIMIT + 10) + match sending.phase {
        SendPhase::Kick { spins } => TX_POLL_LIMIT - spins + 2,
        SendPhase::Poll { spins } => TX_POLL_LIMIT - spins + 1,
    }
}

/// Every transmit ends, whatever the device answers: each step that asks for something more
/// leaves less of it.
pub proof fn law_send_ends(nic: Nic, sending: Sending, answer: Answer)
    requires
        sending.wf(nic),
    ensures
        ({
            let (after, there, step) = send_next(nic, sending, answer);
            step is Ask ==> 0 <= send_left(after, there) < send_left(nic, sending)
        }),
{
    let used = Queue { used_index: counted(nic.tx.used_index), ..nic.tx };
    assert(0 <= in_flight(nic.tx) < 0x1_0000);
    assert(0 <= in_flight(used) < 0x1_0000);
    if sending.stage == Stage::Draining {
        assert(in_flight(used) == in_flight(nic.tx) - 1);
    }
}

/// How much of a receive is left.
pub open spec fn recv_left(receiving: Receiving) -> int {
    match receiving.phase {
        RecvPhase::Poll { spins } => RX_POLL_LIMIT - spins + 5,
        RecvPhase::Element => 4,
        RecvPhase::Frame { .. } => 3,
        RecvPhase::Repost => 2,
        RecvPhase::Clear => 1,
    }
}

/// Every receive ends, whatever the device answers: each step that asks for something more
/// leaves less of it.
pub proof fn law_receive_ends(nic: Nic, receiving: Receiving, answer: Answer)
    requires
        receiving.wf(),
    ensures
        ({
            let (_, there, step) = recv_next(nic, receiving, answer);
            step is Ask ==> 0 <= recv_left(there) < recv_left(receiving)
        }),
{
}

/// Publishing a frame puts it whole into the transmit buffer, behind a header of zeros, and
/// offers exactly that to the device: its address, its length, and the next entry of the
/// ring. Then the doorbell of the transmit queue is rung.
pub proof fn law_frame_is_offered_whole(nic: Nic, sending: Sending, spins: u64)
    requires
        nic.wf(),
        nic.tx.avail_index == nic.tx.used_index,
        sending.frame.len() <= MAX_FRAME,
    ensures
        ({
            let (after, there, step) = send_settled(nic, sending, spins);
            let writes = step->Ask_0.writes;
            let slot = nic.tx.avail_index % nic.tx.size;
            let packet = writes[0].bytes;
            &&& step is Ask && writes.len() == 4
            &&& writes[0].buffer == Buffer::Transmit && writes[0].offset == 0
            &&& packet.len() == 12 + sending.frame.len() && packet.skip(12) == sending.frame
            &&& forall|i: int| 0 <= i < 12 ==> #[trigger] packet[i] == 0
            &&& writes[1].buffer == Buffer::Rings && writes[1].offset == RING_REGION + 16 * slot
            &&& writes[1].bytes == descriptor(nic.tx_address, packet.len() as u32, 0, 0)
            &&& writes[2].buffer == Buffer::Rings && writes[2].offset == RING_REGION + AVAIL_OFFSET
                + 4 + 2 * slot && writes[2].bytes == le16(slot)
            &&& writes[3].buffer == Buffer::Rings && writes[3].offset == RING_REGION + AVAIL_OFFSET
                + 2 && writes[3].bytes == le16(after.tx.avail_index)
            &&& after.tx.avail_index == if nic.tx.avail_index == 65535 {
                0
            } else {
                nic.tx.avail_index + 1
            }
            &&& step->Ask_0.access == (Access::Write {
                window: Window::Notify,
                register: nic.tx.notify_offset,
                width: Width::Word,
                value: 1,
            })
            &&& there.stage == Stage::Issued && there.frame == sending.frame
            &&& after.rx == nic.rx
        }),
{
    let packet = zero_bytes(VNET_HEADER as nat) + sending.frame;
    assert(packet.skip(12) =~= sending.frame);
}

/// A frame counts as sent exactly when the device shows that it consumed it, and with its
/// whole length; until then the ring is read on.
pub proof fn law_sent_when_consumed(nic: Nic, sending: Sending, used: Seq<u8>)
    requires
        sending.wf(nic),
        sending.stage == Stage::Issued,
        sending.phase is Poll,
        used.len() == 2,
    ensures
        ({
            let (after, there, step) = send_next(nic, sending, Answer::Bytes(used));
            let moved = word_le(used, 0) != nic.tx.used_index;
            &&& moved ==> step == SendAnswer::Sent(sending.frame.len() as u64)
            &&& !moved ==> (step is Ask || step is Failed) && after == nic
            &&& !moved && step is Ask ==> step->Ask_0 == only(
                Access::Fetch { buffer: Buffer::Rings, offset: 2562, len: 2 },
            )
        }),
{
}

/// What a receive gives is what the device put into the slot: once the ring shows another
/// completion, the frame is read from the slot that it names, behind the header, as much of
/// it as was written and is wanted; the slot is handed back, and the frame is given whole.
pub proof fn law_received_is_what_was_delivered(
    nic: Nic,
    max_len: u64,
    spins: u64,
    used: Seq<u8>,
    element: Seq<u8>,
    frame: Seq<u8>,
)
    requires
        nic.wf(),
        used.len() == 2,
        word_le(used, 0) != nic.rx.used_index,
        element.len() == 8,
        dword_le(element, 0) < 8,
        dword_le(element, 4) > 12,
        !(nic.interrupt && nic.isr),
    ensures
        ({
            let id = dword_le(element, 0);
            let written = dword_le(element, 4);
            let start = Receiving {
                max_len,
                phase: RecvPhase::Poll { spins },
                frame: Seq::empty(),
            };
            let (_, one, look) = recv_next(nic, start, Answer::Bytes(used));
            let (after, two, fetch) = recv_next(nic, one, Answer::Bytes(element));
            let (posted, three, back) = recv_next(after, two, Answer::Bytes(frame));
            let (_, _, end) = recv_next(posted, three, Answer::Done);
            let len = fetch->Ask_0.access->Fetch_len;
            let writes = back->Ask_0.writes;
            &&& look == RecvAnswer::Ask(
                only(
                    Access::Fetch {
                        buffer: Buffer::Rings,
                        offset: (512 + 4 + 8 * (nic.rx.used_index % nic.rx.size)) as u64,
                        len: 8,
                    },
                ),
            )
            &&& fetch == RecvAnswer::Ask(
                only(
                    Access::Fetch {
                        buffer: Buffer::Receive,
                        offset: (2048 * id + 12) as u64,
                        len,
                    },
                ),
            )
            &&& len <= written - 12 && len <= max_len && len <= 2036
            &&& len == written - 12 || len == max_len || len == 2036
            &&& after.rx.used_index == if nic.rx.used_index == 65535 {
                0
            } else {
                nic.rx.used_index + 1
            }
            &&& back is Ask && writes.len() == 2
            &&& writes[0].offset == AVAIL_OFFSET + 4 + 2 * (nic.rx.avail_index % nic.rx.size)
                && word_le(writes[0].bytes, 0) == id
            &&& writes[1].offset == AVAIL_OFFSET + 2 && word_le(writes[1].bytes, 0)
                == posted.rx.avail_index
            &&& posted.rx.avail_index == if nic.rx.avail_index == 65535 {
                0
            } else {
                nic.rx.avail_index + 1
            }
            &&& back->Ask_0.access == (Access::Write {
                window: Window::Notify,
                register: nic.rx.notify_offset,
                width: Width::Word,
                value: 0,
            })
            &&& end == RecvAnswer::Received(frame)
            &&& posted.tx == nic.tx
        }),
{
    law_le16_round_trip(dword_le(element, 0) as u16);
    law_le16_round_trip(counted(nic.rx.avail_index));
}

/// Where nothing was delivered a receive gives nothing and changes nothing; a slot that holds
/// no frame is handed back. Where the interrupt has to be cleared, that comes before the
/// frame is given, which stays the same.
pub proof fn law_receive_without_a_frame(nic: Nic, receiving: Receiving, answer: Answer)
    requires
        receiving.wf(),
        fits(recv_access(nic, receiving), answer),
    ensures
        ({
            let (after, there, step) = recv_next(nic, receiving, answer);
            &&& receiving.phase == (RecvPhase::Poll { spins: RX_POLL_LIMIT }) && word_le(
                answer->Bytes_0,
                0,
            ) == nic.rx.used_index ==> step == RecvAnswer::Received(Seq::empty()) && after == nic
            &&& receiving.phase == RecvPhase::Clear ==> step == RecvAnswer::Received(
                receiving.frame,
            )
            &&& receiving.phase == RecvPhase::Repost && !(answer is Failed) ==> if nic.interrupt
                && nic.isr {
                &&& step == RecvAnswer::Ask(
                    only(Access::Read { window: Window::Isr, register: 0, width: Width::Byte }),
                )
                &&& there.phase == RecvPhase::Clear && there.frame == receiving.frame
            } else {
                step == RecvAnswer::Received(receiving.frame)
            }
            &&& receiving.phase == RecvPhase::Element && dword_le(answer->Bytes_0, 0) < 8
                && dword_le(answer->Bytes_0, 4) <= 12 ==> {
                &&& there.phase == RecvPhase::Repost && there.frame.len() == 0
                &&& step is Ask && step->Ask_0.writes.len() == 2
            }
            &&& after.tx == nic.tx
        }),
{
}

/// A wait is over at once where something was delivered; else it parks for as long as it was
/// told to, and where that ran out it looks once more and counts what it missed.
pub proof fn law_wait_is_as_long_as_told(nic: Nic, wait: Wait, used: Seq<u8>, error: Seq<char>)
    requires
        used.len() == 2,
    ensures
        ({
            let moved = word_le(used, 0) != nic.rx.used_index;
            let looking = Wait { phase: WaitPhase::Look, ..wait };
            let parked = Wait { phase: WaitPhase::Park, ..wait };
            let again = Wait { phase: WaitPhase::Recheck, ..wait };
            let (_, _, first) = wait_next(nic, looking, Answer::Bytes(used));
            let (_, recheck, second) = wait_next(nic, parked, Answer::Failed(error));
            let (after, _, third) = wait_next(nic, again, Answer::Bytes(used));
            &&& moved ==> first == WaitAnswer::Over(None)
            &&& !moved && nic.interrupt ==> first == WaitAnswer::Ask(
                Access::WaitInterrupt { bound: wait.bound },
            )
            &&& recheck.phase == WaitPhase::Recheck && second == WaitAnswer::Ask(
                Access::Fetch { buffer: Buffer::Rings, offset: 514, len: 2 },
            )
            &&& third is Over
            &&& nic.missed < u32::MAX ==> after.missed == nic.missed + (if moved {
                1int
            } else {
                0
            })
            &&& !moved ==> third == WaitAnswer::Over(None)
            &&& moved && nic.missed == 0 ==> third matches WaitAnswer::Over(Some(_))
        }),
{
}

/// An interface whose driver cannot be asked is down and says nothing of itself but its name,
/// which it has in common with one that can.
pub proof fn law_unavailable_interface_is_down(nic: Nic)
    ensures
        !unavailable().up && unavailable().mtu == 0,
        unavailable().mac == (0u8, 0u8, 0u8, 0u8, 0u8, 0u8),
        unavailable().name == interface(nic).name,
        interface(nic).mac == nic.mac,
{
}

/// While an earlier frame is still with the device, nothing of the new one is published: the
/// doorbell is rung for the old one, the polls that were spent on it count on, and the new
/// frame is kept.
pub proof fn law_earlier_frame_is_drained(nic: Nic, sending: Sending, spins: u64)
    requires
        nic.tx.avail_index != nic.tx.used_index,
    ensures
        ({
            let (after, there, step) = send_settled(nic, sending, spins);
            &&& after == nic && there.frame == sending.frame
            &&& there.stage == Stage::Draining && there.phase == (SendPhase::Kick { spins })
            &&& step == SendAnswer::Ask(only(doorbell(nic, true)))
        }),
{
}

/// What a value is over contents is of the same kind as the value itself: no two kinds are
/// taken for one another.
pub proof fn law_contents_keep_their_kind(
    send_step: SendStep,
    recv_step: RecvStep,
    wait_step: WaitStep,
)
    ensures
        send_step is Ask <==> send_step@ is Ask,
        send_step is Sent <==> send_step@ is Sent,
        send_step is Failed <==> send_step@ is Failed,
        recv_step is Ask <==> recv_step@ is Ask,
        recv_step is Received <==> recv_step@ is Received,
        recv_step is Failed <==> recv_step@ is Failed,
        wait_step is Ask <==> wait_step@ is Ask,
        wait_step is Over <==> wait_step@ is Over,
{
}

} // verus!
