//! Bringing a virtio function up: reset, feature negotiation, queue setup, and what each
//! driver reads from its device before the first operation.
//!
//! The conversation is a program of operations, one access each; [`Start`] runs it.
use vstd::prelude::*;
use vstd::string::*;

use crate::bytes::{le16, zero_bytes, zero_vec};
use crate::device::{
    after_stores, only, push_store, stores, value_of, Access, Answer, Buffer, MemoryWrite, Reply,
    Request, Store, Wanted, Width, Window,
};
use crate::text::{decimal, push_decimal};
use crate::virtio::{
    access_failure, descriptor, failure, name, said, word, write_descriptor, Kind, Windows,
};

verus! {

/// Registers of the common configuration window.
pub const DEVICE_FEATURE_SELECT: u64 = 0x00;

pub const DEVICE_FEATURE: u64 = 0x04;

pub const DRIVER_FEATURE_SELECT: u64 = 0x08;

pub const DRIVER_FEATURE: u64 = 0x0c;

pub const NUM_QUEUES: u64 = 0x12;

pub const DEVICE_STATUS: u64 = 0x14;

pub const QUEUE_SELECT: u64 = 0x16;

pub const QUEUE_SIZE: u64 = 0x18;

pub const QUEUE_ENABLE: u64 = 0x1c;

pub const QUEUE_NOTIFY_OFF: u64 = 0x1e;

pub const QUEUE_DESC: u64 = 0x20;

pub const QUEUE_DRIVER: u64 = 0x28;

pub const QUEUE_DEVICE: u64 = 0x30;

/// The device status when the driver has been acknowledged, when it drives, when the
/// features are settled, and when it is live.
pub const ACKNOWLEDGED: u64 = 1;

pub const DRIVING: u64 = 3;

pub const FEATURES_SETTLED: u64 = 11;

pub const LIVE: u64 = 15;

/// The status bit by which a device accepts the features.
pub const FEATURES_OK: u32 = 8;

/// The feature bit, in the high word, of the modern register layout.
pub const VERSION_1: u32 = 1;

/// The feature bit, in the low word, of a stable hardware address.
pub const MAC: u32 = 32;

/// The largest queue that a driver uses.
pub const LARGEST_QUEUE: u32 = 16;

/// How many status reads a reset may take.
pub const RESET_LIMIT: u32 = 1000;

/// Where the rings lie within the region of a queue.
pub const AVAIL_OFFSET: u64 = 256;

pub const USED_OFFSET: u64 = 512;

/// The size of the region of one queue, and of the page that holds the rings.
pub const RING_REGION: u64 = 2048;

pub const RING_BYTES: u64 = 4096;

/// The receive slots of the network driver, and their size.
pub const RX_SLOTS: u16 = 8;

pub const RX_SLOT_BYTES: u64 = 2048;

/// A descriptor continues in another one; a descriptor is written by the device.
pub const DESC_NEXT: u16 = 1;

pub const DESC_WRITE: u16 = 2;

/// What a bring-up needs to know beforehand.
#[derive(Clone, Copy, Debug)]
pub struct Plan {
    pub kind: Kind,
    pub windows: Windows,
    /// The address of the ring page, as the device sees it.
    pub rings: u64,
    /// The address of the receive slots; only the network driver has them.
    pub receive: u64,
}

/// One queue: its size and the offset of its doorbell.
#[derive(Clone, Copy, Debug)]
pub struct Ring {
    pub size: u16,
    pub notify_offset: u64,
}

/// What a bring-up has learnt.
#[derive(Clone, Copy, Debug)]
pub struct Learnt {
    pub spins: u32,
    pub low_features: u32,
    /// Queue 0, which receives in the network driver.
    pub first: Ring,
    /// Queue 1, which transmits in the network driver.
    pub second: Ring,
    pub capacity_low: u32,
    pub capacity_high: u32,
    pub mac: (u8, u8, u8, u8, u8, u8),
    /// Whether an interrupt vector was granted.
    pub interrupt: bool,
}

/// One operation of a bring-up.
#[derive(Clone, Copy, PartialEq, Eq, Structural, Debug)]
pub enum Op {
    /// Write a common register.
    Write { register: u64, width: Width, value: u64 },
    /// Read the status until the reset is done.
    AwaitReset,
    /// Read the low feature word.
    ReadLow,
    /// Read the high feature word and check the offer.
    ReadHigh,
    /// Read the status back: the device must have accepted the features.
    ConfirmFeatures,
    BusMaster,
    CountQueues,
    MaxSize { queue: u16 },
    SetSize { queue: u16 },
    /// Zero the rings of a queue; the network driver also suppresses its interrupts.
    ClearRing { queue: u16 },
    NotifyOffset { queue: u16 },
    /// Publish an empty available ring.
    ClearAvail,
    ReadCapacity { high: bool },
    ReadMac { index: u64 },
    EnableInterrupt,
    /// Hand the device its receive slots and ring the doorbell.
    PostReceive,
}

/// Where the rings of a queue start within the ring page.
pub open spec fn ring_base(queue: u16) -> int {
    RING_REGION * queue
}

pub open spec fn write_op(register: u64, width: Width, value: u64) -> Op {
    Op::Write { register, width, value }
}

/// The low half of an address.
pub open spec fn low_half(address: int) -> u64 {
    (address % 0x1_0000_0000) as u64
}

/// The high half of an address.
pub open spec fn high_half(address: int) -> u64 {
    (address / 0x1_0000_0000) as u64
}

/// Reset, identification and feature negotiation.
pub open spec fn negotiation(kind: Kind) -> Seq<Op> {
    let opening = seq![
        write_op(DEVICE_STATUS, Width::Byte, 0),
        Op::AwaitReset,
        write_op(DEVICE_STATUS, Width::Byte, ACKNOWLEDGED),
        write_op(DEVICE_STATUS, Width::Byte, DRIVING),
    ];
    let low = if kind == Kind::Net {
        seq![write_op(DEVICE_FEATURE_SELECT, Width::Dword, 0), Op::ReadLow]
    } else {
        seq![]
    };
    opening + low + seq![
        write_op(DEVICE_FEATURE_SELECT, Width::Dword, 1),
        Op::ReadHigh,
        write_op(DRIVER_FEATURE_SELECT, Width::Dword, 0),
        write_op(
            DRIVER_FEATURE,
            Width::Dword,
            if kind == Kind::Net {
                MAC as u64
            } else {
                0
            },
        ),
        write_op(DRIVER_FEATURE_SELECT, Width::Dword, 1),
        write_op(DRIVER_FEATURE, Width::Dword, VERSION_1 as u64),
        write_op(DEVICE_STATUS, Width::Byte, FEATURES_SETTLED),
        Op::ConfirmFeatures,
        Op::BusMaster,
        Op::CountQueues,
    ]
}

/// The setup of one queue.
pub open spec fn queue_setup(plan: Plan, queue: u16) -> Seq<Op> {
    let base = plan.rings + ring_base(queue);
    seq![
        write_op(QUEUE_SELECT, Width::Word, queue as u64),
        Op::MaxSize { queue },
        Op::SetSize { queue },
        Op::ClearRing { queue },
        write_op(QUEUE_DESC, Width::Dword, low_half(base)),
        write_op((QUEUE_DESC + 4) as u64, Width::Dword, high_half(base)),
        write_op(QUEUE_DRIVER, Width::Dword, low_half(base + AVAIL_OFFSET)),
        write_op((QUEUE_DRIVER + 4) as u64, Width::Dword, high_half(base + AVAIL_OFFSET)),
        write_op(QUEUE_DEVICE, Width::Dword, low_half(base + USED_OFFSET)),
        write_op((QUEUE_DEVICE + 4) as u64, Width::Dword, high_half(base + USED_OFFSET)),
        Op::NotifyOffset { queue },
    ] + (if plan.kind == Kind::Net {
        seq![]
    } else {
        seq![Op::ClearAvail]
    }) + seq![write_op(QUEUE_ENABLE, Width::Word, 1)]
}

/// What follows once the queues are enabled.
pub open spec fn going_live(plan: Plan) -> Seq<Op> {
    let live = seq![write_op(DEVICE_STATUS, Width::Byte, LIVE)];
    let interrupt = if plan.windows.isr is Some {
        seq![Op::EnableInterrupt]
    } else {
        seq![]
    };
    match plan.kind {
        Kind::Disk => live + seq![
            Op::ReadCapacity { high: false },
            Op::ReadCapacity { high: true },
        ],
        Kind::Gpu => live + interrupt,
        Kind::Net => live + seq![
            Op::ReadMac { index: 0 },
            Op::ReadMac { index: 1 },
            Op::ReadMac { index: 2 },
            Op::ReadMac { index: 3 },
            Op::ReadMac { index: 4 },
            Op::ReadMac { index: 5 },
        ] + interrupt + seq![Op::PostReceive],
    }
}

/// The whole bring-up.
pub open spec fn program(plan: Plan) -> Seq<Op> {
    let queues = if plan.kind == Kind::Net {
        queue_setup(plan, 0) + queue_setup(plan, 1)
    } else {
        queue_setup(plan, 0)
    };
    negotiation(plan.kind) + queues + going_live(plan)
}

/// The queue of that number.
pub open spec fn ring_of(learnt: Learnt, queue: u16) -> Ring {
    if queue == 0 {
        learnt.first
    } else {
        learnt.second
    }
}

/// What is known once the queue of that number is `ring`.
pub open spec fn with_ring(learnt: Learnt, queue: u16, ring: Ring) -> Learnt {
    if queue == 0 {
        Learnt { first: ring, ..learnt }
    } else {
        Learnt { second: ring, ..learnt }
    }
}

/// The bytes that clear a queue.
pub open spec fn clearing(kind: Kind, queue: u16) -> Seq<Store> {
    let zero = Store { buffer: Buffer::Rings, offset: ring_base(queue), bytes: zero_bytes(1024) };
    if kind == Kind::Net {
        seq![
            zero,
            Store {
                buffer: Buffer::Rings,
                offset: ring_base(queue) + AVAIL_OFFSET,
                bytes: le16(1),
            },
        ]
    } else {
        seq![zero]
    }
}

/// The stores that post the first `count` receive slots: each slot gets a descriptor
/// that the device writes and an entry of the available ring.
pub open spec fn posting(receive: u64, size: u16, count: nat) -> Seq<Store>
    decreases count,
{
    if count == 0 {
        seq![]
    } else {
        let slot = (count - 1) as int;
        posting(receive, size, (count - 1) as nat).push(
            Store {
                buffer: Buffer::Rings,
                offset: slot * 16,
                bytes: descriptor(
                    (receive + slot * RX_SLOT_BYTES) as u64,
                    RX_SLOT_BYTES as u32,
                    DESC_WRITE,
                    0,
                ),
            },
        ).push(
            Store {
                buffer: Buffer::Rings,
                offset: AVAIL_OFFSET + 4 + 2 * (slot % size as int),
                bytes: le16(slot as u16),
            },
        )
    }
}

/// Everything that hands the device its receive slots: interrupts of the queue come back
/// on where a vector was granted, then every slot, then the available index.
pub open spec fn receive_posts(plan: Plan, learnt: Learnt) -> Seq<Store> {
    let enabling = if learnt.interrupt {
        seq![Store { buffer: Buffer::Rings, offset: AVAIL_OFFSET as int, bytes: le16(0) }]
    } else {
        seq![]
    };
    (enabling + posting(plan.receive, learnt.first.size, RX_SLOTS as nat)).push(
        Store { buffer: Buffer::Rings, offset: AVAIL_OFFSET + 2, bytes: le16(RX_SLOTS) },
    )
}

/// The request of an operation.
pub open spec fn request_of(plan: Plan, learnt: Learnt, op: Op) -> Wanted {
    let read = |register: u64, width: Width| only(
        Access::Read { window: Window::Common, register, width },
    );
    match op {
        Op::Write { register, width, value } => only(
            Access::Write { window: Window::Common, register, width, value },
        ),
        Op::AwaitReset => read(DEVICE_STATUS, Width::Byte),
        Op::ReadLow => read(DEVICE_FEATURE, Width::Dword),
        Op::ReadHigh => read(DEVICE_FEATURE, Width::Dword),
        Op::ConfirmFeatures => read(DEVICE_STATUS, Width::Byte),
        Op::BusMaster => only(Access::BusMaster),
        Op::CountQueues => read(NUM_QUEUES, Width::Word),
        Op::MaxSize { .. } => read(QUEUE_SIZE, Width::Word),
        Op::SetSize { queue } => only(
            Access::Write {
                window: Window::Common,
                register: QUEUE_SIZE,
                width: Width::Word,
                value: ring_of(learnt, queue).size as u64,
            },
        ),
        Op::ClearRing { queue } => after_stores(clearing(plan.kind, queue), Access::Pause),
        Op::NotifyOffset { .. } => read(QUEUE_NOTIFY_OFF, Width::Word),
        Op::ClearAvail => after_stores(
            seq![Store {
                buffer: Buffer::Rings,
                offset: AVAIL_OFFSET as int,
                bytes: zero_bytes(4),
            }],
            Access::Pause,
        ),
        Op::ReadCapacity { high } => only(
            Access::Read {
                window: Window::Device,
                register: if high {
                    4
                } else {
                    0
                },
                width: Width::Dword,
            },
        ),
        Op::ReadMac { index } => only(
            Access::Read { window: Window::Device, register: index, width: Width::Byte },
        ),
        Op::EnableInterrupt => only(Access::EnableInterrupt),
        Op::PostReceive => after_stores(
            receive_posts(plan, learnt),
            Access::Write {
                window: Window::Notify,
                register: learnt.first.notify_offset,
                width: Width::Word,
                value: 0,
            },
        ),
    }
}

/// What a reply does to a bring-up: the same operation once more, the next operation, or
/// the end with an error.
pub enum Reaction {
    Again(Learnt),
    Onward(Learnt),
    Refuse(Seq<char>),
}

/// What the queue-count check says.
pub open spec fn too_few_queues(kind: Kind, count: u32) -> Seq<char> {
    if kind == Kind::Net {
        name(kind) + ": the device exposes "@ + decimal(count as nat)
            + " virtqueue(s); a net device needs a receive and a transmit queue"@
    } else {
        name(kind) + ": the device exposes no virtqueues"@
    }
}

/// What the feature check says of a device without the modern layout.
pub open spec fn not_modern(kind: Kind) -> Seq<char> {
    if kind == Kind::Gpu {
        name(kind) + ": the device does not offer VIRTIO_F_VERSION_1"@
    } else {
        name(kind)
            + ": the device does not offer VIRTIO_F_VERSION_1 (is it a legacy-only function?)"@
    }
}

/// The hardware address with one byte replaced.
pub open spec fn with_mac_byte(
    mac: (u8, u8, u8, u8, u8, u8),
    index: u64,
    byte: u8,
) -> (u8, u8, u8, u8, u8, u8) {
    if index == 0 {
        (byte, mac.1, mac.2, mac.3, mac.4, mac.5)
    } else if index == 1 {
        (mac.0, byte, mac.2, mac.3, mac.4, mac.5)
    } else if index == 2 {
        (mac.0, mac.1, byte, mac.3, mac.4, mac.5)
    } else if index == 3 {
        (mac.0, mac.1, mac.2, byte, mac.4, mac.5)
    } else if index == 4 {
        (mac.0, mac.1, mac.2, mac.3, byte, mac.5)
    } else {
        (mac.0, mac.1, mac.2, mac.3, mac.4, byte)
    }
}

/// What the value that an operation read does.
pub open spec fn on_value(plan: Plan, learnt: Learnt, op: Op, value: u32) -> Reaction {
    let kind = plan.kind;
    match op {
        Op::AwaitReset => if value == 0 {
            Reaction::Onward(learnt)
        } else if learnt.spins >= RESET_LIMIT {
            Reaction::Refuse(name(kind) + ": device did not reset"@)
        } else {
            Reaction::Again(Learnt { spins: (learnt.spins + 1) as u32, ..learnt })
        },
        Op::ReadLow => Reaction::Onward(Learnt { low_features: value, ..learnt }),
        Op::ReadHigh => if value & VERSION_1 == 0 {
            Reaction::Refuse(not_modern(kind))
        } else if kind == Kind::Net && learnt.low_features & MAC == 0 {
            Reaction::Refuse(name(kind) + ": the device does not offer VIRTIO_NET_F_MAC"@)
        } else {
            Reaction::Onward(learnt)
        },
        Op::ConfirmFeatures => if value & FEATURES_OK == 0 {
            Reaction::Refuse(name(kind) + ": the device rejected the negotiated feature set"@)
        } else {
            Reaction::Onward(learnt)
        },
        Op::CountQueues => if value == 0 || (kind == Kind::Net && value < 2) {
            Reaction::Refuse(too_few_queues(kind, value))
        } else {
            Reaction::Onward(learnt)
        },
        Op::MaxSize { queue } => if value == 0 {
            Reaction::Refuse(
                name(kind) + ": virtqueue "@ + decimal(queue as nat) + " is not available"@,
            )
        } else {
            let size = if value < LARGEST_QUEUE {
                value as u16
            } else {
                LARGEST_QUEUE as u16
            };
            Reaction::Onward(
                with_ring(learnt, queue, Ring { size, ..ring_of(learnt, queue) }),
            )
        },
        Op::NotifyOffset { queue } => Reaction::Onward(
            with_ring(
                learnt,
                queue,
                Ring {
                    notify_offset: (plan.windows.notify.offset + value
                        * plan.windows.multiplier) as u64,
                    ..ring_of(learnt, queue)
                },
            ),
        ),
        Op::ReadCapacity { high } => Reaction::Onward(
            if high {
                Learnt { capacity_high: value, ..learnt }
            } else {
                Learnt { capacity_low: value, ..learnt }
            },
        ),
        Op::ReadMac { index } => Reaction::Onward(
            Learnt { mac: with_mac_byte(learnt.mac, index, (value & 0xff) as u8), ..learnt },
        ),
        _ => Reaction::Onward(learnt),
    }
}

/// What a reply does.
pub open spec fn react(plan: Plan, learnt: Learnt, op: Op, answer: Answer) -> Reaction {
    if op == Op::EnableInterrupt {
        Reaction::Onward(Learnt { interrupt: answer is Done, ..learnt })
    } else {
        match answer {
            Answer::Failed(error) => Reaction::Refuse(
                failure(plan.kind, request_of(plan, learnt, op).access, error),
            ),
            _ => on_value(plan, learnt, op, value_of(answer)),
        }
    }
}

/// Nothing learnt.
pub open spec fn fresh() -> Learnt {
    Learnt {
        spins: 0,
        low_features: 0,
        first: Ring { size: 0, notify_offset: 0 },
        second: Ring { size: 0, notify_offset: 0 },
        capacity_low: 0,
        capacity_high: 0,
        mac: (0, 0, 0, 0, 0, 0),
        interrupt: false,
    }
}

/// A bring-up in progress.
#[derive(Debug)]
pub struct Start {
    pub plan: Plan,
    pub ops: Vec<Op>,
    pub at: usize,
    pub learnt: Learnt,
}

/// Where a bring-up stands.
pub struct Standing {
    pub at: int,
    pub learnt: Learnt,
}

/// What a bring-up does next.
#[derive(Debug)]
pub enum StartStep {
    /// Perform this and hand back the reply.
    Ask(Request),
    /// The device is up; this is what was learnt.
    Up(Learnt),
    /// The device cannot be brought up.
    Refused(String),
}

/// What a bring-up does next, over contents.
pub enum StartAnswer {
    Ask(Wanted),
    Up(Learnt),
    Refused(Seq<char>),
}

impl View for StartStep {
    type V = StartAnswer;

    open spec fn view(&self) -> StartAnswer {
        match self {
            StartStep::Ask(request) => StartAnswer::Ask(request@),
            StartStep::Up(learnt) => StartAnswer::Up(*learnt),
            StartStep::Refused(text) => StartAnswer::Refused(text@),
        }
    }
}

/// A bring-up after a reply.
pub open spec fn advance(plan: Plan, standing: Standing, answer: Answer) -> (
    Standing,
    StartAnswer,
) {
    let ops = program(plan);
    match react(plan, standing.learnt, ops[standing.at], answer) {
        Reaction::Again(learnt) => (
            Standing { learnt, ..standing },
            StartAnswer::Ask(request_of(plan, learnt, ops[standing.at])),
        ),
        Reaction::Onward(learnt) => if standing.at + 1 < ops.len() {
            (
                Standing { at: standing.at + 1, learnt },
                StartAnswer::Ask(request_of(plan, learnt, ops[standing.at + 1])),
            )
        } else {
            (Standing { at: standing.at, learnt }, StartAnswer::Up(learnt))
        },
        Reaction::Refuse(text) => (standing, StartAnswer::Refused(text)),
    }
}

/// What a reply does to a bring-up.
enum Turn {
    Again,
    Onward,
    Refuse(String),
}

fn push_write(ops: &mut Vec<Op>, register: u64, width: Width, value: u64)
    ensures
        final(ops)@ == old(ops)@.push(write_op(register, width, value)),
{
    ops.push(Op::Write { register, width, value });
}

fn push_negotiation(ops: &mut Vec<Op>, kind: Kind)
    ensures
        final(ops)@ == old(ops)@ + negotiation(kind),
{
    push_write(ops, DEVICE_STATUS, Width::Byte, 0);
    ops.push(Op::AwaitReset);
    push_write(ops, DEVICE_STATUS, Width::Byte, ACKNOWLEDGED);
    push_write(ops, DEVICE_STATUS, Width::Byte, DRIVING);
    if kind == Kind::Net {
        push_write(ops, DEVICE_FEATURE_SELECT, Width::Dword, 0);
        ops.push(Op::ReadLow);
    }
    push_write(ops, DEVICE_FEATURE_SELECT, Width::Dword, 1);
    ops.push(Op::ReadHigh);
    push_write(ops, DRIVER_FEATURE_SELECT, Width::Dword, 0);
    let accepted: u64 = if kind == Kind::Net {
        MAC as u64
    } else {
        0
    };
    push_write(ops, DRIVER_FEATURE, Width::Dword, accepted);
    push_write(ops, DRIVER_FEATURE_SELECT, Width::Dword, 1);
    push_write(ops, DRIVER_FEATURE, Width::Dword, VERSION_1 as u64);
    push_write(ops, DEVICE_STATUS, Width::Byte, FEATURES_SETTLED);
    ops.push(Op::ConfirmFeatures);
    ops.push(Op::BusMaster);
    ops.push(Op::CountQueues);
    assert(ops@ =~= old(ops)@ + negotiation(kind));
}

fn push_address(ops: &mut Vec<Op>, register: u64, address: u64)
    requires
        register < 0x100,
    ensures
        final(ops)@ == old(ops)@.push(
            write_op(register, Width::Dword, low_half(address as int)),
        ).push(write_op((register + 4) as u64, Width::Dword, high_half(address as int))),
{
    push_write(ops, register, Width::Dword, address % 0x1_0000_0000);
    push_write(ops, register + 4, Width::Dword, address / 0x1_0000_0000);
}

fn push_queue(ops: &mut Vec<Op>, plan: &Plan, queue: u16)
    requires
        plan.wf(),
        queue < 2,
    ensures
        final(ops)@ == old(ops)@ + queue_setup(*plan, queue),
{
    let base: u64 = plan.rings + RING_REGION * queue as u64;
    push_write(ops, QUEUE_SELECT, Width::Word, queue as u64);
    ops.push(Op::MaxSize { queue });
    ops.push(Op::SetSize { queue });
    ops.push(Op::ClearRing { queue });
    push_address(ops, QUEUE_DESC, base);
    push_address(ops, QUEUE_DRIVER, base + AVAIL_OFFSET);
    push_address(ops, QUEUE_DEVICE, base + USED_OFFSET);
    ops.push(Op::NotifyOffset { queue });
    if plan.kind != Kind::Net {
        ops.push(Op::ClearAvail);
    }
    push_write(ops, QUEUE_ENABLE, Width::Word, 1);
    assert(ops@ =~= old(ops)@ + queue_setup(*plan, queue));
}

fn push_going_live(ops: &mut Vec<Op>, plan: &Plan)
    ensures
        final(ops)@ == old(ops)@ + going_live(*plan),
{
    push_write(ops, DEVICE_STATUS, Width::Byte, LIVE);
    match plan.kind {
        Kind::Disk => {
            ops.push(Op::ReadCapacity { high: false });
            ops.push(Op::ReadCapacity { high: true });
        },
        Kind::Gpu => {
            if plan.windows.isr.is_some() {
                ops.push(Op::EnableInterrupt);
            }
        },
        Kind::Net => {
            ops.push(Op::ReadMac { index: 0 });
            ops.push(Op::ReadMac { index: 1 });
            ops.push(Op::ReadMac { index: 2 });
            ops.push(Op::ReadMac { index: 3 });
            ops.push(Op::ReadMac { index: 4 });
            ops.push(Op::ReadMac { index: 5 });
            if plan.windows.isr.is_some() {
                ops.push(Op::EnableInterrupt);
            }
            ops.push(Op::PostReceive);
        },
    }
    assert(ops@ =~= old(ops)@ + going_live(*plan));
}

impl Plan {
    /// The shared buffers lie within the address space.
    pub open spec fn wf(self) -> bool {
        &&& self.rings + RING_BYTES <= u64::MAX
        &&& self.receive + RX_SLOTS * RX_SLOT_BYTES <= u64::MAX
    }
}

/// The size of a queue is known after the operation that reads it.
pub open spec fn sized(ops: Seq<Op>, at: int, learnt: Learnt) -> bool {
    forall|j: int, queue: u16|
        0 <= j < at && j < ops.len() && #[trigger] ops[j] == (Op::MaxSize { queue }) && queue < 2
            ==> 1 <= #[trigger] ring_of(learnt, queue).size <= 16
}

/// Whether an operation names a queue that a bring-up has.
pub open spec fn names_queue(op: Op) -> bool {
    match op {
        Op::MaxSize { queue } => queue < 2,
        Op::SetSize { queue } => queue < 2,
        Op::ClearRing { queue } => queue < 2,
        Op::NotifyOffset { queue } => queue < 2,
        Op::ReadMac { index } => index < 6,
        _ => true,
    }
}

proof fn lemma_program_queues(plan: Plan)
    ensures
        forall|i: int| 0 <= i < program(plan).len() ==> names_queue(#[trigger] program(plan)[i]),
{
    let head = negotiation(plan.kind);
    let first = queue_setup(plan, 0);
    let second = queue_setup(plan, 1);
    let tail = going_live(plan);
    assert(forall|i: int| 0 <= i < head.len() ==> names_queue(#[trigger] head[i]));
    assert(forall|i: int| 0 <= i < first.len() ==> names_queue(#[trigger] first[i]));
    assert(forall|i: int| 0 <= i < second.len() ==> names_queue(#[trigger] second[i]));
    assert(forall|i: int| 0 <= i < tail.len() ==> names_queue(#[trigger] tail[i]));
}

proof fn lemma_post_comes_after_size(plan: Plan, at: int)
    requires
        0 <= at < program(plan).len(),
        program(plan)[at] == Op::PostReceive,
    ensures
        exists|j: int|
            0 <= j < at && #[trigger] program(plan)[j] == (Op::MaxSize { queue: 0 }),
{
    let head = negotiation(plan.kind);
    let first = queue_setup(plan, 0);
    let second = queue_setup(plan, 1);
    assert(forall|i: int| 0 <= i < head.len() ==> #[trigger] head[i] != Op::PostReceive);
    assert(forall|i: int| 0 <= i < first.len() ==> #[trigger] first[i] != Op::PostReceive);
    assert(first[1] == (Op::MaxSize { queue: 0 }));
    let j = (head.len() + 1) as int;
    assert(program(plan)[j] == (Op::MaxSize { queue: 0 }));
    assert(at >= head.len() + first.len());
}

impl Start {
    /// The bring-up runs the program of its plan and remembers what it must.
    pub open spec fn wf(self) -> bool {
        &&& self.plan.wf()
        &&& self.ops@ == program(self.plan)
        &&& self.at < self.ops@.len()
        &&& self.learnt.spins <= RESET_LIMIT
        &&& sized(self.ops@, self.at as int, self.learnt)
    }

    /// Where the bring-up stands.
    pub open spec fn standing(self) -> Standing {
        Standing { at: self.at as int, learnt: self.learnt }
    }

    /// A bring-up that has not begun, and its first request.
    pub fn new(plan: Plan) -> (begun: (Start, Request))
        requires
            plan.wf(),
        ensures
            begun.0.wf(),
            begun.0.plan == plan,
            begun.0.standing() == (Standing { at: 0, learnt: fresh() }),
            begun.1@ == request_of(plan, fresh(), program(plan)[0]),
    {
        let mut ops: Vec<Op> = Vec::new();
        push_negotiation(&mut ops, plan.kind);
        push_queue(&mut ops, &plan, 0);
        if plan.kind == Kind::Net {
            push_queue(&mut ops, &plan, 1);
        }
        push_going_live(&mut ops, &plan);
        assert(ops@ =~= program(plan));
        let learnt = Learnt {
            spins: 0,
            low_features: 0,
            first: Ring { size: 0, notify_offset: 0 },
            second: Ring { size: 0, notify_offset: 0 },
            capacity_low: 0,
            capacity_high: 0,
            mac: (0, 0, 0, 0, 0, 0),
            interrupt: false,
        };
        let start = Start { plan, ops, at: 0, learnt };
        let request = start.request();
        (start, request)
    }

    fn read(register: u64, width: Width) -> (request: Request)
        ensures
            request@ == only(Access::Read { window: Window::Common, register, width }),
    {
        Request::only(Access::Read { window: Window::Common, register, width })
    }

    fn clear_ring(&self, queue: u16) -> (request: Request)
        requires
            queue < 2,
        ensures
            request@ == after_stores(clearing(self.plan.kind, queue), Access::Pause),
    {
        let base: u64 = RING_REGION * queue as u64;
        let mut writes: Vec<MemoryWrite> = Vec::new();
        push_store(&mut writes, Buffer::Rings, base, zero_vec(1024));
        if self.plan.kind == Kind::Net {
            push_store(&mut writes, Buffer::Rings, base + AVAIL_OFFSET, word(1));
        }
        assert(stores(writes@) =~= clearing(self.plan.kind, queue));
        Request::after_stores(writes, Access::Pause)
    }

    fn post_receive(&self) -> (request: Request)
        requires
            self.plan.wf(),
            1 <= self.learnt.first.size,
        ensures
            request@ == request_of(self.plan, self.learnt, Op::PostReceive),
    {
        let mut writes: Vec<MemoryWrite> = Vec::new();
        if self.learnt.interrupt {
            push_store(&mut writes, Buffer::Rings, AVAIL_OFFSET, word(0));
        }
        let ghost enabling = stores(writes@);
        assert(enabling =~= if self.learnt.interrupt {
            seq![Store { buffer: Buffer::Rings, offset: AVAIL_OFFSET as int, bytes: le16(0) }]
        } else {
            seq![]
        });
        let receive: u64 = self.plan.receive;
        let size: u16 = self.learnt.first.size;
        let mut slot: u16 = 0;
        assert(enabling + posting(receive, size, 0) =~= enabling);
        while slot < RX_SLOTS
            invariant
                slot <= RX_SLOTS,
                1 <= size,
                receive + RX_SLOTS * RX_SLOT_BYTES <= u64::MAX,
                stores(writes@) == enabling + posting(receive, size, slot as nat),
            decreases RX_SLOTS - slot,
        {
            push_store(
                &mut writes,
                Buffer::Rings,
                slot as u64 * 16,
                write_descriptor(
                    receive + slot as u64 * RX_SLOT_BYTES,
                    RX_SLOT_BYTES as u32,
                    DESC_WRITE,
                    0,
                ),
            );
            push_store(
                &mut writes,
                Buffer::Rings,
                AVAIL_OFFSET + 4 + 2 * ((slot % size) as u64),
                word(slot),
            );
            slot = slot + 1;
            assert(stores(writes@) =~= enabling + posting(receive, size, slot as nat));
        }
        push_store(&mut writes, Buffer::Rings, AVAIL_OFFSET + 2, word(RX_SLOTS));
        assert(stores(writes@) =~= receive_posts(self.plan, self.learnt));
        Request::after_stores(
            writes,
            Access::Write {
                window: Window::Notify,
                register: self.learnt.first.notify_offset,
                width: Width::Word,
                value: 0,
            },
        )
    }

    /// The request that the bring-up waits on.
    pub fn request(&self) -> (request: Request)
        requires
            self.wf(),
        ensures
            request@ == request_of(self.plan, self.learnt, program(self.plan)[self.at as int]),
    {
        proof {
            lemma_program_queues(self.plan);
            assert(names_queue(program(self.plan)[self.at as int]));
        }
        match self.ops[self.at] {
            Op::Write { register, width, value } => Request::only(
                Access::Write { window: Window::Common, register, width, value },
            ),
            Op::AwaitReset => Self::read(DEVICE_STATUS, Width::Byte),
            Op::ReadLow => Self::read(DEVICE_FEATURE, Width::Dword),
            Op::ReadHigh => Self::read(DEVICE_FEATURE, Width::Dword),
            Op::ConfirmFeatures => Self::read(DEVICE_STATUS, Width::Byte),
            Op::BusMaster => Request::only(Access::BusMaster),
            Op::CountQueues => Self::read(NUM_QUEUES, Width::Word),
            Op::MaxSize { .. } => Self::read(QUEUE_SIZE, Width::Word),
            Op::SetSize { queue } => Request::only(
                Access::Write {
                    window: Window::Common,
                    register: QUEUE_SIZE,
                    width: Width::Word,
                    value: self.ring(queue).size as u64,
                },
            ),
            Op::ClearRing { queue } => self.clear_ring(queue),
            Op::NotifyOffset { .. } => Self::read(QUEUE_NOTIFY_OFF, Width::Word),
            Op::ClearAvail => {
                let mut writes: Vec<MemoryWrite> = Vec::new();
                push_store(&mut writes, Buffer::Rings, AVAIL_OFFSET, zero_vec(4));
                assert(stores(writes@) =~= seq![
                    Store {
                        buffer: Buffer::Rings,
                        offset: AVAIL_OFFSET as int,
                        bytes: zero_bytes(4),
                    },
                ]);
                Request::after_stores(writes, Access::Pause)
            },
            Op::ReadCapacity { high } => Request::only(
                Access::Read {
                    window: Window::Device,
                    register: if high {
                        4
                    } else {
                        0
                    },
                    width: Width::Dword,
                },
            ),
            Op::ReadMac { index } => Request::only(
                Access::Read { window: Window::Device, register: index, width: Width::Byte },
            ),
            Op::EnableInterrupt => Request::only(Access::EnableInterrupt),
            Op::PostReceive => {
                proof {
                    lemma_post_comes_after_size(self.plan, self.at as int);
                    let j = choose|j: int|
                        0 <= j < self.at && #[trigger] program(self.plan)[j] == (Op::MaxSize {
                            queue: 0,
                        });
                    assert(1 <= ring_of(self.learnt, 0).size <= 16);
                }
                self.post_receive()
            },
        }
    }

    fn ring(&self, queue: u16) -> (ring: Ring)
        ensures
            ring == ring_of(self.learnt, queue),
    {
        if queue == 0 {
            self.learnt.first
        } else {
            self.learnt.second
        }
    }

    fn set_ring(&mut self, queue: u16, ring: Ring)
        ensures
            final(self).learnt == with_ring(old(self).learnt, queue, ring),
            final(self).plan == old(self).plan,
            final(self).ops == old(self).ops,
            final(self).at == old(self).at,
    {
        if queue == 0 {
            self.learnt.first = ring;
        } else {
            self.learnt.second = ring;
        }
    }

    fn heard(&mut self, op: Op, value: u32) -> (turn: Turn)
        requires
            old(self).plan.wf(),
            old(self).learnt.spins <= RESET_LIMIT,
            names_queue(op),
        ensures
            final(self).plan == old(self).plan,
            final(self).ops == old(self).ops,
            final(self).at == old(self).at,
            final(self).learnt.spins <= RESET_LIMIT,
            match turn {
                Turn::Again => on_value(old(self).plan, old(self).learnt, op, value)
                    == Reaction::Again(final(self).learnt),
                Turn::Onward => on_value(old(self).plan, old(self).learnt, op, value)
                    == Reaction::Onward(final(self).learnt),
                Turn::Refuse(text) => {
                    &&& on_value(old(self).plan, old(self).learnt, op, value) == Reaction::Refuse(
                        text@,
                    )
                    &&& final(self).learnt == old(self).learnt
                },
            },
    {
        let kind = self.plan.kind;
        match op {
            Op::AwaitReset => if value == 0 {
                Turn::Onward
            } else if self.learnt.spins >= RESET_LIMIT {
                Turn::Refuse(said(kind, ": device did not reset"))
            } else {
                self.learnt.spins = self.learnt.spins + 1;
                Turn::Again
            },
            Op::ReadLow => {
                self.learnt.low_features = value;
                Turn::Onward
            },
            Op::ReadHigh => if value & VERSION_1 == 0 {
                Turn::Refuse(
                    if kind == Kind::Gpu {
                        said(kind, ": the device does not offer VIRTIO_F_VERSION_1")
                    } else {
                        said(
                            kind,
                            ": the device does not offer VIRTIO_F_VERSION_1 (is it a legacy-only function?)",
                        )
                    },
                )
            } else if kind == Kind::Net && self.learnt.low_features & MAC == 0 {
                Turn::Refuse(said(kind, ": the device does not offer VIRTIO_NET_F_MAC"))
            } else {
                Turn::Onward
            },
            Op::ConfirmFeatures => if value & FEATURES_OK == 0 {
                Turn::Refuse(said(kind, ": the device rejected the negotiated feature set"))
            } else {
                Turn::Onward
            },
            Op::CountQueues => if value == 0 || (kind == Kind::Net && value < 2) {
                if kind == Kind::Net {
                    let mut text = said(kind, ": the device exposes ");
                    push_decimal(&mut text, value as u64);
                    text.append(
                        " virtqueue(s); a net device needs a receive and a transmit queue",
                    );
                    Turn::Refuse(text)
                } else {
                    Turn::Refuse(said(kind, ": the device exposes no virtqueues"))
                }
            } else {
                Turn::Onward
            },
            Op::MaxSize { queue } => if value == 0 {
                let mut text = said(kind, ": virtqueue ");
                push_decimal(&mut text, queue as u64);
                text.append(" is not available");
                Turn::Refuse(text)
            } else {
                let size: u16 = if value < LARGEST_QUEUE {
                    value as u16
                } else {
                    LARGEST_QUEUE as u16
                };
                let ring = self.ring(queue);
                self.set_ring(queue, Ring { size, ..ring });
                Turn::Onward
            },
            Op::NotifyOffset { queue } => {
                let ring = self.ring(queue);
                let multiplier: u64 = self.plan.windows.multiplier as u64;
                let offset: u64 = self.plan.windows.notify.offset as u64;
                assert(offset + value * multiplier <= u64::MAX) by (nonlinear_arith)
                    requires
                        offset <= 0xffff_ffff,
                        value <= 0xffff_ffff,
                        multiplier <= 0xffff_ffff,
                ;
                assert(value * multiplier >= 0) by (nonlinear_arith)
                    requires
                        value >= 0,
                        multiplier >= 0,
                ;
                self.set_ring(
                    queue,
                    Ring { notify_offset: offset + value as u64 * multiplier, ..ring },
                );
                Turn::Onward
            },
            Op::ReadCapacity { high } => {
                if high {
                    self.learnt.capacity_high = value;
                } else {
                    self.learnt.capacity_low = value;
                }
                Turn::Onward
            },
            Op::ReadMac { index } => {
                assert(value & 0xff <= 0xff) by (bit_vector);
                let byte: u8 = (value & 0xff) as u8;
                let mac = self.learnt.mac;
                self.learnt.mac = match index {
                    0 => (byte, mac.1, mac.2, mac.3, mac.4, mac.5),
                    1 => (mac.0, byte, mac.2, mac.3, mac.4, mac.5),
                    2 => (mac.0, mac.1, byte, mac.3, mac.4, mac.5),
                    3 => (mac.0, mac.1, mac.2, byte, mac.4, mac.5),
                    4 => (mac.0, mac.1, mac.2, mac.3, byte, mac.5),
                    _ => (mac.0, mac.1, mac.2, mac.3, mac.4, byte),
                };
                Turn::Onward
            },
            _ => Turn::Onward,
        }
    }

    /// Take the reply to the pending request and say what comes next.
    pub fn next(&mut self, reply: Reply) -> (step: StartStep)
        requires
            old(self).wf(),
        ensures
            final(self).wf(),
            final(self).plan == old(self).plan,
            (final(self).standing(), step@) == advance(
                old(self).plan,
                old(self).standing(),
                reply@,
            ),
    {
        let op = self.ops[self.at];
        proof {
            lemma_program_queues(self.plan);
            assert(names_queue(program(self.plan)[self.at as int]));
        }
        let turn = if op == Op::EnableInterrupt {
            self.learnt.interrupt = match reply {
                Reply::Done => true,
                _ => false,
            };
            Turn::Onward
        } else {
            let value = reply.value();
            match reply {
                Reply::Failed(error) => {
                    let access = self.request().access;
                    Turn::Refuse(access_failure(self.plan.kind, access, error))
                },
                _ => self.heard(op, value),
            }
        };
        match turn {
            Turn::Again => {
                proof {
                    assert(sized(self.ops@, self.at as int, self.learnt)) by {
                        assert forall|j: int, queue: u16|
                            0 <= j < self.at && j < self.ops@.len() && #[trigger] self.ops@[j] == (
                            Op::MaxSize { queue }) && queue < 2 implies 1 <= #[trigger] ring_of(
                            self.learnt,
                            queue,
                        ).size <= 16 by {
                            assert(1 <= ring_of(old(self).learnt, queue).size <= 16);
                        }
                    }
                }
                StartStep::Ask(self.request())
            },
            Turn::Onward => {
                proof {
                    assert forall|j: int, queue: u16|
                        0 <= j < self.at + 1 && j < self.ops@.len() && #[trigger] self.ops@[j] == (
                        Op::MaxSize { queue }) && queue < 2 implies 1 <= #[trigger] ring_of(
                        self.learnt,
                        queue,
                    ).size <= 16 by {
                        if j < self.at {
                            assert(1 <= ring_of(old(self).learnt, queue).size <= 16);
                        }
                    }
                    assert(sized(self.ops@, self.at + 1, self.learnt));
                }
                if self.at + 1 < self.ops.len() {
                    self.at = self.at + 1;
                    StartStep::Ask(self.request())
                } else {
                    StartStep::Up(self.learnt)
                }
            },
            Turn::Refuse(text) => StartStep::Refused(text),
        }
    }
}

/// How many replies a bring-up can still take.
pub open spec fn budget(plan: Plan, standing: Standing) -> int {
    (program(plan).len() - standing.at) + (RESET_LIMIT - standing.learnt.spins)
}

/// A bring-up ends whatever the device answers: every reply that does not end it costs
/// one of a bounded number.
pub proof fn law_bring_up_ends(plan: Plan, standing: Standing, answer: Answer)
    requires
        0 <= standing.at < program(plan).len(),
        standing.learnt.spins <= RESET_LIMIT,
    ensures
        ({
            let (there, step) = advance(plan, standing, answer);
            step is Ask ==> 0 < budget(plan, there) < budget(plan, standing)
        }),
{
}

/// The position at which a bring-up tells the device that the driver is live.
pub open spec fn live_at(plan: Plan) -> int {
    let queues = if plan.kind == Kind::Net {
        queue_setup(plan, 0) + queue_setup(plan, 1)
    } else {
        queue_setup(plan, 0)
    };
    (negotiation(plan.kind).len() + queues.len()) as int
}

/// Whether an operation is part of the setup that a live device needs.
pub open spec fn is_setup(op: Op) -> bool {
    match op {
        Op::AwaitReset | Op::ReadLow | Op::ReadHigh | Op::ConfirmFeatures | Op::BusMaster => true,
        Op::CountQueues | Op::ClearAvail => true,
        Op::MaxSize { .. } | Op::SetSize { .. } | Op::ClearRing { .. } => true,
        Op::NotifyOffset { .. } => true,
        Op::Write { register, .. } => register != DEVICE_STATUS,
        _ => false,
    }
}

/// A device is told that the driver is live exactly once, after all of the setup (reset,
/// accepted features, bus mastering, every queue cleared, placed and enabled), and its
/// receive slots are posted only after that.
pub proof fn law_live_after_setup(plan: Plan, at: int)
    requires
        0 <= at < program(plan).len(),
    ensures
        program(plan)[at] == write_op(DEVICE_STATUS, Width::Byte, LIVE) <==> at == live_at(plan),
        is_setup(program(plan)[at]) ==> at < live_at(plan),
        program(plan)[at] == Op::PostReceive ==> at > live_at(plan),
{
    let head = negotiation(plan.kind);
    let first = queue_setup(plan, 0);
    let second = queue_setup(plan, 1);
    let tail = going_live(plan);
    let live = write_op(DEVICE_STATUS, Width::Byte, LIVE);
    assert(forall|i: int|
        0 <= i < head.len() ==> #[trigger] head[i] != live && head[i] != Op::PostReceive);
    assert(forall|i: int|
        0 <= i < first.len() ==> #[trigger] first[i] != live && first[i] != Op::PostReceive);
    assert(forall|i: int|
        0 <= i < second.len() ==> #[trigger] second[i] != live && second[i] != Op::PostReceive);
    assert(tail[0] == live);
    assert(forall|i: int|
        0 < i < tail.len() ==> #[trigger] tail[i] != live && !is_setup(tail[i]));
}

/// The setup of a queue selects it, sizes and clears it, tells the device where its three
/// parts lie in the ring page, half by half, asks for its doorbell and enables it last.
pub proof fn law_queue_is_placed_and_enabled(plan: Plan, learnt: Learnt, queue: u16)
    requires
        plan.wf(),
        queue < 2,
    ensures
        ({
            let ops = queue_setup(plan, queue);
            let base = plan.rings + 2048 * queue;
            let value = |i: int| ops[i]->Write_value;
            &&& ops[0] == (Op::Write { register: 0x16, width: Width::Word, value: queue as u64 })
            &&& ops[1] == (Op::MaxSize { queue }) && ops[2] == (Op::SetSize { queue }) && ops[3]
                == (Op::ClearRing { queue })
            &&& forall|i: int|
                4 <= i < 10 ==> (#[trigger] ops[i]) is Write && ops[i]->Write_register == 0x20 + 4
                    * (i - 4) && ops[i]->Write_width == Width::Dword
            &&& value(4) + 0x1_0000_0000 * value(5) == base
            &&& value(6) + 0x1_0000_0000 * value(7) == base + 256
            &&& value(8) + 0x1_0000_0000 * value(9) == base + 512
            &&& ops[10] == (Op::NotifyOffset { queue })
            &&& ops.last() == (Op::Write { register: 0x1c, width: Width::Word, value: 1 })
        }),
{
    let ops = queue_setup(plan, queue);
    assert(ops.len() == if plan.kind == Kind::Net {
        12
    } else {
        13int
    });
    assert(ops.last() == ops[ops.len() - 1]);
}

/// An operation that writes a register writes that value to that register of the common
/// window, and one that sizes a queue writes the size that was settled on.
pub proof fn law_operations_write_what_they_say(
    plan: Plan,
    learnt: Learnt,
    register: u64,
    width: Width,
    value: u64,
)
    ensures
        request_of(plan, learnt, Op::Write { register, width, value }) == only(
            Access::Write { window: Window::Common, register, width, value },
        ),
        request_of(plan, learnt, Op::SetSize { queue: 0 }).access == (Access::Write {
            window: Window::Common,
            register: 0x18,
            width: Width::Word,
            value: learnt.first.size as u64,
        }),
        request_of(plan, learnt, Op::SetSize { queue: 1 }).access == (Access::Write {
            window: Window::Common,
            register: 0x18,
            width: Width::Word,
            value: learnt.second.size as u64,
        }),
{
}

/// What is learnt of a queue: it is as large as the device allows, up to sixteen, and its
/// doorbell lies where the device says, counted in the multiplier of the window. The other
/// queue stays as it was.
pub proof fn law_queues_are_learnt(plan: Plan, learnt: Learnt, value: u32)
    requires
        plan.windows.notify.offset + value * plan.windows.multiplier <= u64::MAX,
    ensures
        on_value(plan, learnt, Op::MaxSize { queue: 0 }, value) is Refuse <==> value == 0,
        on_value(plan, learnt, Op::MaxSize { queue: 0 }, value) matches Reaction::Onward(after) ==> {
            &&& value <= 16 ==> after.first.size == value
            &&& value > 16 ==> after.first.size == 16
            &&& after.second == learnt.second && after.first.notify_offset
                == learnt.first.notify_offset
        },
        on_value(plan, learnt, Op::MaxSize { queue: 1 }, value) matches Reaction::Onward(after) ==> {
            &&& value <= 16 ==> after.second.size == value
            &&& value > 16 ==> after.second.size == 16
            &&& after.first == learnt.first
        },
        ({
            let bell = plan.windows.notify.offset + value * plan.windows.multiplier;
            let first = on_value(plan, learnt, Op::NotifyOffset { queue: 0 }, value);
            let second = on_value(plan, learnt, Op::NotifyOffset { queue: 1 }, value);
            &&& first is Onward && first->Onward_0.first.notify_offset == bell
            &&& second is Onward && second->Onward_0.second.notify_offset == bell
            &&& first->Onward_0.second == learnt.second && second->Onward_0.first == learnt.first
            &&& first->Onward_0.first.size == learnt.first.size
            &&& second->Onward_0.second.size == learnt.second.size
        }),
{
}

/// The six bytes of the hardware address are learnt one by one, in their order.
pub proof fn law_address_is_learnt(plan: Plan, learnt: Learnt, bytes: Seq<u32>)
    requires
        bytes.len() == 6,
    ensures
        ({
            let one = on_value(plan, learnt, Op::ReadMac { index: 0 }, bytes[0])->Onward_0;
            let two = on_value(plan, one, Op::ReadMac { index: 1 }, bytes[1])->Onward_0;
            let three = on_value(plan, two, Op::ReadMac { index: 2 }, bytes[2])->Onward_0;
            let four = on_value(plan, three, Op::ReadMac { index: 3 }, bytes[3])->Onward_0;
            let five = on_value(plan, four, Op::ReadMac { index: 4 }, bytes[4])->Onward_0;
            let six = on_value(plan, five, Op::ReadMac { index: 5 }, bytes[5])->Onward_0;
            &&& six.mac.0 == (bytes[0] & 0xff) as u8 && six.mac.1 == (bytes[1] & 0xff) as u8
            &&& six.mac.2 == (bytes[2] & 0xff) as u8 && six.mac.3 == (bytes[3] & 0xff) as u8
            &&& six.mac.4 == (bytes[4] & 0xff) as u8 && six.mac.5 == (bytes[5] & 0xff) as u8
            &&& six.first == learnt.first && six.second == learnt.second
        }),
        forall|index: u64|
            #![trigger request_of(plan, learnt, Op::ReadMac { index })]
            request_of(plan, learnt, Op::ReadMac { index }).access == (Access::Read {
                window: Window::Device,
                register: index,
                width: Width::Byte,
            }),
{
}

/// The sectors of a disk are learnt in two halves, each from its own register.
pub proof fn law_capacity_is_learnt(plan: Plan, learnt: Learnt, low: u32, high: u32)
    ensures
        ({
            let one = on_value(plan, learnt, Op::ReadCapacity { high: false }, low)->Onward_0;
            let two = on_value(plan, one, Op::ReadCapacity { high: true }, high)->Onward_0;
            &&& two.capacity_low == low && two.capacity_high == high
        }),
        request_of(plan, learnt, Op::ReadCapacity { high: false }).access == (Access::Read {
            window: Window::Device,
            register: 0,
            width: Width::Dword,
        }),
        request_of(plan, learnt, Op::ReadCapacity { high: true }).access == (Access::Read {
            window: Window::Device,
            register: 4,
            width: Width::Dword,
        }),
{
}

/// A device is refused where it does not reset, lacks the modern layout or what the driver
/// needs of it, rejects the features or has too few queues, and nowhere else; an interrupt
/// that is not granted is no reason.
pub proof fn law_devices_are_refused_for_cause(
    plan: Plan,
    learnt: Learnt,
    value: u32,
    answer: Answer,
)
    ensures
        on_value(plan, learnt, Op::AwaitReset, value) is Onward <==> value == 0,
        on_value(plan, learnt, Op::AwaitReset, value) is Refuse <==> value != 0 && learnt.spins
            >= 1000,
        on_value(plan, learnt, Op::ReadHigh, value) is Refuse <==> value & 1 == 0 || plan.kind
            == Kind::Net && learnt.low_features & 32 == 0,
        on_value(plan, learnt, Op::ConfirmFeatures, value) is Refuse <==> value & 8 == 0,
        on_value(plan, learnt, Op::CountQueues, value) is Refuse <==> value == 0 || plan.kind
            == Kind::Net && value == 1,
        react(plan, learnt, Op::EnableInterrupt, answer) matches Reaction::Onward(after)
            && after.interrupt == (answer is Done),
        (on_value(plan, learnt, Op::ReadLow, value) matches Reaction::Onward(after)
            && after.low_features == value),
{
}

/// Every receive slot is posted: its descriptor names its own memory, which the device
/// writes, and the ring offers it.
pub proof fn law_every_slot_is_posted(receive: u64, size: u16, count: nat, slot: int)
    requires
        0 <= slot < count,
    ensures
        ({
            let posts = posting(receive, size, count);
            &&& posts.len() == 2 * count
            &&& posts[2 * slot].buffer == Buffer::Rings && posts[2 * slot].offset == 16 * slot
            &&& posts[2 * slot].bytes == descriptor((receive + 2048 * slot) as u64, 2048, 2, 0)
            &&& posts[2 * slot + 1].buffer == Buffer::Rings && posts[2 * slot + 1].offset
                == AVAIL_OFFSET + 4 + 2 * (slot % size as int) && posts[2 * slot + 1].bytes == le16(
                slot as u16,
            )
        }),
    decreases count,
{
    lemma_posting_len(receive, size, (count - 1) as nat);
    if slot < count - 1 {
        law_every_slot_is_posted(receive, size, (count - 1) as nat, slot);
    }
}

proof fn lemma_posting_len(receive: u64, size: u16, count: nat)
    ensures
        posting(receive, size, count).len() == 2 * count,
    decreases count,
{
    if count > 0 {
        lemma_posting_len(receive, size, (count - 1) as nat);
    }
}

/// What hands the receive slots over ends with their number in the ring and the doorbell of
/// the receive queue.
pub proof fn law_slots_are_counted_and_rung(plan: Plan, learnt: Learnt)
    ensures
        ({
            let wanted = request_of(plan, learnt, Op::PostReceive);
            let last = wanted.writes.last();
            &&& wanted.writes.len() > 0
            &&& last.buffer == Buffer::Rings && last.offset == AVAIL_OFFSET + 2 && last.bytes
                == le16(8)
            &&& wanted.access == (Access::Write {
                window: Window::Notify,
                register: learnt.first.notify_offset,
                width: Width::Word,
                value: 0,
            })
        }),
{
}

/// A device is reset first, acknowledged and driven; the driver accepts the modern layout and
/// of everything else at most the hardware address, reads what is offered before it accepts,
/// and has the choice confirmed before it counts the queues. The status is a byte that keeps
/// every bit that was set.
pub proof fn law_negotiation_goes_in_order(kind: Kind)
    ensures
        ({
            let ops = negotiation(kind);
            let net = kind == Kind::Net;
            let on: int = if net {
                6
            } else {
                4
            };
            let write = |register: u64, width: Width, value: u64|
                Op::Write { register, width, value };
            &&& ops.len() == on + 10
            &&& ops[0] == write(0x14, Width::Byte, 0) && ops[1] == Op::AwaitReset
            &&& ops[2] == write(0x14, Width::Byte, 1)
            &&& ops[3] == write(0x14, Width::Byte, 3)
            &&& net ==> ops[4] == write(0x00, Width::Dword, 0) && ops[5] == Op::ReadLow
            &&& ops[on] == write(0x00, Width::Dword, 1) && ops[on + 1] == Op::ReadHigh
            &&& ops[on + 2] == write(0x08, Width::Dword, 0)
            &&& ops[on + 3] == write(
                0x0c,
                Width::Dword,
                if net {
                    32
                } else {
                    0
                },
            )
            &&& ops[on + 4] == write(0x08, Width::Dword, 1)
            &&& ops[on + 5] == write(0x0c, Width::Dword, 1)
            &&& ops[on + 6] == write(0x14, Width::Byte, 11)
            &&& ops[on + 7] == Op::ConfirmFeatures
            &&& ops[on + 8] == Op::BusMaster && ops[on + 9] == Op::CountQueues
        }),
{
}

/// What nobody has told is nothing: no address, no capacity, no queues, no interrupt.
pub proof fn law_nothing_is_learnt_at_first()
    ensures
        fresh().mac == (0u8, 0u8, 0u8, 0u8, 0u8, 0u8),
        fresh().capacity_low == 0 && fresh().capacity_high == 0,
        fresh().first == fresh().second && fresh().first.size == 0,
        fresh().first.notify_offset == 0,
        fresh().spins == 0 && fresh().low_features == 0 && !fresh().interrupt,
{
}

/// Setting a queue up begins with a ring of nothing but zeros, all 1024 bytes of its region;
/// a network queue is then told not to interrupt, and nothing else is written.
pub proof fn law_ring_is_cleared(plan: Plan, learnt: Learnt, queue: u16)
    ensures
        ({
            let wanted = request_of(plan, learnt, Op::ClearRing { queue });
            let zero = wanted.writes[0];
            &&& wanted.access == Access::Pause
            &&& zero.buffer == Buffer::Rings && zero.offset == ring_base(queue)
            &&& zero.bytes.len() == 1024 && forall|i: int|
                0 <= i < 1024 ==> #[trigger] zero.bytes[i] == 0
            &&& plan.kind != Kind::Net ==> wanted.writes.len() == 1
            &&& plan.kind == Kind::Net ==> {
                &&& wanted.writes.len() == 2
                &&& wanted.writes[1].buffer == Buffer::Rings
                &&& wanted.writes[1].offset == ring_base(queue) + 256
                &&& wanted.writes[1].bytes == seq![1u8, 0u8]
            }
        }),
        ({
            let wanted = request_of(plan, learnt, Op::ClearAvail);
            &&& wanted.access == Access::Pause && wanted.writes.len() == 1
            &&& wanted.writes[0].buffer == Buffer::Rings && wanted.writes[0].offset == 256
            &&& wanted.writes[0].bytes == seq![0u8, 0u8, 0u8, 0u8]
        }),
{
    assert(zero_bytes(4) =~= seq![0u8, 0u8, 0u8, 0u8]);
}

/// Each thing that a driver learns is read from its own register, in the width that the
/// register has, and reading writes nothing.
pub proof fn law_readings_come_from_their_registers(
    plan: Plan,
    learnt: Learnt,
    queue: u16,
    index: u64,
)
    ensures
        ({
            let common = |register: u64, width: Width|
                Access::Read { window: Window::Common, register, width };
            let device = |register: u64, width: Width|
                Access::Read { window: Window::Device, register, width };
            let asked = |op: Op| request_of(plan, learnt, op).access;
            &&& asked(Op::AwaitReset) == common(0x14, Width::Byte)
            &&& asked(Op::ConfirmFeatures) == common(0x14, Width::Byte)
            &&& asked(Op::ReadLow) == common(0x04, Width::Dword)
            &&& asked(Op::ReadHigh) == common(0x04, Width::Dword)
            &&& asked(Op::CountQueues) == common(0x12, Width::Word)
            &&& asked(Op::MaxSize { queue }) == common(0x18, Width::Word)
            &&& asked(Op::NotifyOffset { queue }) == common(0x1e, Width::Word)
            &&& asked(Op::ReadCapacity { high: false }) == device(0, Width::Dword)
            &&& asked(Op::ReadCapacity { high: true }) == device(4, Width::Dword)
            &&& asked(Op::ReadMac { index }) == device(index, Width::Byte)
            &&& asked(Op::EnableInterrupt) == Access::EnableInterrupt
            &&& asked(Op::BusMaster) == Access::BusMaster
            &&& request_of(plan, learnt, Op::MaxSize { queue }).writes.len() == 0
            &&& request_of(plan, learnt, Op::ReadMac { index }).writes.len() == 0
        }),
{
}

/// What a value is over contents is of the same kind as the value itself: no two kinds are
/// taken for one another.
pub proof fn law_contents_keep_their_kind(start_step: StartStep)
    ensures
        start_step is Ask <==> start_step@ is Ask,
        start_step is Up <==> start_step@ is Up,
        start_step is Refused <==> start_step@ is Refused,
{
}

} // verus!
