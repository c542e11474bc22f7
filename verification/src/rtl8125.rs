//! The register programs of an RTL8125 controller.
//!
//! A program is a list of operations on the controller: plain registers, the MAC's own
//! address space (MAC OCP) and the PHY behind its management window. [`Runner`] carries
//! one out, one access at a time. The addresses and bit values of the silicon are data:
//! [`Chip`].
use vstd::prelude::*;
use vstd::string::*;

use crate::device::{labelled, pci_call, Width};
use crate::text::{hex, push_hex};

verus! {

/// Poll bounds: a soft reset, the best-effort quiesce waits, one PHY transaction, and
/// the link at the end of a bring-up.
pub const RESET_POLL_LIMIT: u32 = 100_000;

pub const QUIESCE_POLL_LIMIT: u32 = 200_000;

pub const PHY_POLL_LIMIT: u32 = 100_000;

pub const LINK_WAIT_LIMIT: u32 = 2_000_000;

/// The version that the PHY microcode carries once it is loaded.
pub const PHY_MCU_VERSION: u16 = 0x0b99;

/// The identity of the older chip variant; every other one takes the newer arms.
pub const XID_8125A: u16 = 0x609;

/// Register addresses.
#[derive(Clone, Copy, Debug)]
pub struct Registers {
    pub mac0: u64,
    pub mar0: u64,
    pub tx_desc_addr_low: u64,
    pub rx_desc_addr_low: u64,
    pub chip_cmd: u64,
    pub tx_config: u64,
    pub rx_config: u64,
    pub cfg9346: u64,
    pub config1: u64,
    pub config3: u64,
    pub phy_status: u64,
    pub pmch: u64,
    pub ephyar: u64,
    pub mcu: u64,
    pub rx_max_size: u64,
    pub rxdv_gate_byte: u64,
    pub intr_mask: u64,
    pub intr_status: u64,
    pub int_cfg0: u64,
    pub int_cfg1: u64,
    pub int_miti_base: u64,
    pub int_miti_end_8125a: u64,
    pub int_miti_end_8125b: u64,
    pub tx_poll: u64,
    pub counter_addr_low: u64,
    pub counter_addr_high: u64,
}

/// Bit values of plain registers.
#[derive(Clone, Copy, Debug)]
pub struct Bits {
    pub rxdv_gate: u32,
    pub cmd_stop_req: u32,
    pub cmd_reset: u32,
    pub cmd_rx_enable: u32,
    pub cmd_tx_enable: u32,
    pub mcu_tx_empty: u32,
    pub mcu_rx_empty: u32,
    pub mcu_now_is_oob: u32,
    pub mcu_link_list_rdy: u32,
    pub cfg9346_unlock: u32,
    pub cfg9346_lock: u32,
    pub config1_speed_down: u32,
    pub config3_rdy_to_l23: u32,
    pub rx_max_size_value: u32,
    pub rx_config_8125a: u32,
    pub rx_config_8125b: u32,
    pub rx_accept_broadcast: u32,
    pub rx_accept_my_phys: u32,
    pub tx_config_value: u32,
    pub tx_config_mac_loopback: u32,
    pub tx_poll_queue0: u32,
    pub phy_status_link: u32,
    pub phy_status_2500: u32,
    pub phy_status_1000: u32,
    pub phy_status_100: u32,
    pub phy_status_10: u32,
    pub counter_dump: u32,
    pub counter_reset: u32,
    pub isr_rx_ok: u32,
    pub isr_rx_desc_unavail: u32,
    pub isr_rx_fifo_over: u32,
    pub isr_tx_ok: u32,
    pub isr_link_change: u32,
}

/// Addresses and values of the MAC's own address space.
#[derive(Clone, Copy, Debug)]
pub struct MacOcp {
    pub realwow_ctrl: u16,
    pub realwow_disable: u16,
    pub oob_handshake: u16,
    pub oob_handshake_bit14: u16,
    pub ll_param_a: (u16, u16),
    pub ll_param_b: (u16, u16),
    pub ll_param_c: (u16, u16),
    pub ups_ctrl: u16,
    pub ups_bit: u16,
    pub tx_new_desc_format: u16,
    pub tx_new_desc_format_bit: u16,
    pub start_handshake: (u16, u16),
    pub start_handshake_status: u16,
    pub start_handshake_busy: u16,
}

/// Addresses, in the PHY's own space, and values of PHY registers.
#[derive(Clone, Copy, Debug)]
pub struct Phy {
    pub bmcr: u16,
    pub anar: u16,
    pub gbcr: u16,
    pub adv_2500: u16,
    pub adv_2500_full: u16,
    pub anar_advertise_10_100: u16,
    pub gbcr_advertise_1000_full: u16,
    pub bmcr_start_autoneg: u16,
    pub bmcr_loopback_1000fd: u16,
}

/// Everything that is particular to the silicon.
#[derive(Clone, Copy, Debug)]
pub struct Chip {
    pub reg: Registers,
    pub bits: Bits,
    pub ocp: MacOcp,
    pub phy: Phy,
}

/// The microcode and tuning tables of the newer chip variant: addresses and values.
#[derive(Debug)]
pub struct Tables {
    pub mac_mcu: Vec<(u16, u16)>,
    pub ephy: Vec<(u16, u16)>,
    pub phy_mcu: Vec<(u16, u16)>,
}

/// What a read is remembered as.
#[derive(Clone, Copy, PartialEq, Eq, Structural, Debug)]
pub enum Slot {
    /// One byte of the factory address.
    Mac(u64),
    TxConfig,
    RxConfig,
    Rxdv,
    Isr,
    Mcu,
    ChipCmd,
    /// The PHY microcode version before and after a load.
    RamBefore,
    RamAfter,
    PhyState,
    Eee,
}

/// What happens when a bounded wait runs out.
#[derive(Clone, Copy, PartialEq, Eq, Structural, Debug)]
pub enum Expiry {
    /// The program goes on: the wait was best effort.
    GoOn,
    /// The program fails: the chip stays in reset.
    SoftReset,
    /// The program fails: the PHY stays in reset.
    PhyReset,
    /// The program warns and goes on: the PHY did not enter patch mode.
    EnterPatch,
    /// The program warns and goes on: the PHY did not leave patch mode.
    LeavePatch,
}

/// What a wait waits for, of the bits under its mask.
#[derive(Clone, Copy, PartialEq, Eq, Structural, Debug)]
pub enum Goal {
    /// All are clear.
    Clear,
    /// All are set.
    Full,
    /// One at least is set.
    Any,
    /// They hold this value.
    Is(u32),
}

/// Whether a value meets a goal.
pub open spec fn met(goal: Goal, value: u32, mask: u32) -> bool {
    match goal {
        Goal::Clear => value & mask == 0,
        Goal::Full => value & mask == mask,
        Goal::Any => value & mask != 0,
        Goal::Is(wanted) => value & mask == wanted,
    }
}

fn meets(goal: Goal, value: u32, mask: u32) -> (yes: bool)
    ensures
        yes == met(goal, value, mask),
{
    match goal {
        Goal::Clear => value & mask == 0,
        Goal::Full => value & mask == mask,
        Goal::Any => value & mask != 0,
        Goal::Is(wanted) => value & mask == wanted,
    }
}

/// One operation of a program.
#[derive(Clone, Copy, PartialEq, Eq, Structural, Debug)]
#[allow(inconsistent_fields)]
pub enum Op {
    Read { register: u64, width: Width, into: Slot },
    Write { register: u64, width: Width, value: u64 },
    /// Read, clear some bits, set others, write back.
    Update { register: u64, width: Width, clear: u32, set: u32 },
    /// So many harmless reads, for their time.
    Settle { reads: u32 },
    /// Read until the masked bits are as wanted.
    Await { register: u64, width: Width, mask: u32, goal: Goal, limit: u32, expiry: Expiry },
    MacRead { address: u16, into: Slot },
    MacWrite { address: u16, value: u16 },
    MacUpdate { address: u16, clear: u16, set: u16 },
    MacAwait { address: u16, mask: u16, goal: Goal, limit: u32, expiry: Expiry },
    PhyRead { address: u16, into: Slot },
    PhyWrite { address: u16, value: u16 },
    PhyUpdate { address: u16, clear: u16, set: u16 },
    PhyAwait { address: u16, mask: u16, goal: Goal, limit: u32, expiry: Expiry },
    /// Write a register of the bus interface's own PHY.
    EphyWrite { register: u16, value: u16 },
    /// Read the link until it is up.
    AwaitLink,
    BusMaster,
    /// Hand the chip its rings: no transmit descriptor owned, every receive slot posted.
    PostRings,
}

/// One access to the controller.
#[derive(Clone, Copy, PartialEq, Eq, Structural, Debug)]
#[allow(inconsistent_fields)]
pub enum Touch {
    /// Read a register: the reply is [`Heard::Value`].
    Read { register: u64, width: Width },
    /// Write a register: the reply is [`Heard::Done`].
    Write { register: u64, width: Width, value: u64 },
    /// Write the command that selects an address of the MAC's space for reading.
    SelectMac { address: u16 },
    /// Read the selected value of the MAC's space: the reply is [`Heard::Value`].
    LoadMac,
    /// Write the command that stores into the MAC's space.
    StoreMac { address: u16, value: u16 },
    /// Write the command that starts a PHY read.
    SelectPhy { address: u16 },
    /// Look whether the PHY read is complete: [`Heard::Value`] or [`Heard::Pending`].
    PollPhyRead,
    /// Write the command that starts a PHY write.
    StorePhy { address: u16, value: u16 },
    /// Look whether the PHY write is complete: [`Heard::Done`] or [`Heard::Pending`].
    PollPhyWrite,
    BusMaster,
    /// Write the rings into shared memory.
    PostRings,
}

/// What became of an access.
#[derive(Debug)]
pub enum Heard {
    Done,
    Value(u32),
    Pending,
    /// It failed; the text names the error.
    Failed(String),
}

/// What became of an access, over contents.
pub enum Hearing {
    Done,
    Value(u32),
    Pending,
    Failed(Seq<char>),
}

impl View for Heard {
    type V = Hearing;

    open spec fn view(&self) -> Hearing {
        match self {
            Heard::Done => Hearing::Done,
            Heard::Value(value) => Hearing::Value(*value),
            Heard::Pending => Hearing::Pending,
            Heard::Failed(error) => Hearing::Failed(error@),
        }
    }
}

/// The state of the link.
#[derive(Clone, Copy, PartialEq, Eq, Structural, Debug)]
pub enum Link {
    Down,
    /// Up, at so many megabits per second.
    Up(u32),
}

/// What a program has read.
#[derive(Clone, Copy, Debug)]
pub struct Notes {
    pub mac: (u8, u8, u8, u8, u8, u8),
    pub tx_config: u32,
    pub rx_config: u32,
    pub rxdv: u32,
    pub isr: u32,
    pub mcu: u32,
    pub chip_cmd: u32,
    pub ram_before: u16,
    pub ram_after: u16,
    pub phy_state: u16,
    pub eee: u16,
    pub link: Link,
    /// Whether the last bounded wait ran out.
    pub expired: bool,
}

/// The link state that a status word reports: the best speed whose bit is set; no speed
/// means that negotiation is still running.
pub open spec fn link_of(bits: Bits, status: u32) -> Link {
    if status & bits.phy_status_link == 0 {
        Link::Down
    } else if status & bits.phy_status_2500 != 0 {
        Link::Up(2500)
    } else if status & bits.phy_status_1000 != 0 {
        Link::Up(1000)
    } else if status & bits.phy_status_100 != 0 {
        Link::Up(100)
    } else if status & bits.phy_status_10 != 0 {
        Link::Up(10)
    } else {
        Link::Down
    }
}

/// The link state that a status word reports.
pub fn decode_link(bits: &Bits, status: u32) -> (link: Link)
    ensures
        link == link_of(*bits, status),
{
    if status & bits.phy_status_link == 0 {
        Link::Down
    } else if status & bits.phy_status_2500 != 0 {
        Link::Up(2500)
    } else if status & bits.phy_status_1000 != 0 {
        Link::Up(1000)
    } else if status & bits.phy_status_100 != 0 {
        Link::Up(100)
    } else if status & bits.phy_status_10 != 0 {
        Link::Up(10)
    } else {
        Link::Down
    }
}

/// The chip variant that the transmit configuration names.
pub open spec fn xid_of(tx_config: u32) -> u16 {
    ((tx_config >> 20) & 0xfcf) as u16
}

/// The chip variant that the transmit configuration names.
pub fn xid_from_tx_config(tx_config: u32) -> (xid: u16)
    ensures
        xid == xid_of(tx_config),
{
    assert((tx_config >> 20) & 0xfcf <= 0xfcf) by (bit_vector);
    ((tx_config >> 20) & 0xfcf) as u16
}

/// Where an operation stands: at its first access, at the read of a selected value, at
/// the write of an updated value, or polling for completion.
#[derive(Clone, Copy, PartialEq, Eq, Structural, Debug)]
pub enum Micro {
    First,
    Load,
    Store { value: u32 },
    Poll { polls: u32 },
    PollStore { value: u32, polls: u32 },
}

/// A value with some bits cleared and others set.
pub open spec fn updated(value: u32, clear: u32, set: u32) -> u32 {
    (value & !clear) | set
}

/// A 16-bit value with some bits cleared and others set.
pub open spec fn updated16(value: u32, clear: u16, set: u16) -> u16 {
    (((value & 0xffff) as u16) & !clear) | set
}

/// The command word of a write to the bus interface's own PHY.
pub open spec fn ephy_word(register: u16, value: u16) -> u64 {
    0x8000_0000u64 | (((register & 0x7f) as u64) << 16) | (value as u64)
}

/// The access of an operation where it stands.
pub open spec fn touch_of(chip: Chip, op: Op, micro: Micro) -> Touch {
    match (op, micro) {
        (Op::Read { register, width, .. }, _) => Touch::Read { register, width },
        (Op::Write { register, width, value }, _) => Touch::Write { register, width, value },
        (Op::Update { register, width, .. }, Micro::Store { value }) => Touch::Write {
            register,
            width,
            value: value as u64,
        },
        (Op::Update { register, width, .. }, _) => Touch::Read { register, width },
        (Op::Settle { .. }, _) => Touch::Read { register: chip.reg.chip_cmd, width: Width::Byte },
        (Op::Await { register, width, .. }, _) => Touch::Read { register, width },
        (Op::MacWrite { address, value }, _) => Touch::StoreMac { address, value },
        (Op::MacUpdate { address, .. }, Micro::Store { value }) => Touch::StoreMac {
            address,
            value: value as u16,
        },
        (Op::MacRead { .. }, Micro::Load) => Touch::LoadMac,
        (Op::MacUpdate { .. }, Micro::Load) => Touch::LoadMac,
        (Op::MacAwait { .. }, Micro::Load) => Touch::LoadMac,
        (Op::MacRead { address, .. }, _) => Touch::SelectMac { address },
        (Op::MacUpdate { address, .. }, _) => Touch::SelectMac { address },
        (Op::MacAwait { address, .. }, _) => Touch::SelectMac { address },
        (Op::PhyWrite { .. }, Micro::Poll { .. }) => Touch::PollPhyWrite,
        (Op::PhyWrite { address, value }, _) => Touch::StorePhy { address, value },
        (Op::PhyUpdate { address, .. }, Micro::Store { value }) => Touch::StorePhy {
            address,
            value: value as u16,
        },
        (Op::PhyUpdate { .. }, Micro::PollStore { .. }) => Touch::PollPhyWrite,
        (Op::PhyRead { .. }, Micro::Poll { .. }) => Touch::PollPhyRead,
        (Op::PhyUpdate { .. }, Micro::Poll { .. }) => Touch::PollPhyRead,
        (Op::PhyAwait { .. }, Micro::Poll { .. }) => Touch::PollPhyRead,
        (Op::PhyRead { address, .. }, _) => Touch::SelectPhy { address },
        (Op::PhyUpdate { address, .. }, _) => Touch::SelectPhy { address },
        (Op::PhyAwait { address, .. }, _) => Touch::SelectPhy { address },
        (Op::EphyWrite { .. }, Micro::Poll { .. }) => Touch::Read {
            register: chip.reg.ephyar,
            width: Width::Dword,
        },
        (Op::EphyWrite { register, value }, _) => Touch::Write {
            register: chip.reg.ephyar,
            width: Width::Dword,
            value: ephy_word(register, value),
        },
        (Op::AwaitLink, _) => Touch::Read { register: chip.reg.phy_status, width: Width::Word },
        (Op::BusMaster, _) => Touch::BusMaster,
        (Op::PostRings, _) => Touch::PostRings,
    }
}

/// What an access is called when it fails.
pub open spec fn purpose(touch: Touch) -> Seq<char> {
    match touch {
        Touch::Read { .. } | Touch::LoadMac | Touch::PollPhyRead | Touch::PollPhyWrite =>
            "net.rtl8125: register read"@,
        Touch::BusMaster => "net.rtl8125: set-bus-master"@,
        _ => "net.rtl8125: register write"@,
    }
}

/// The notes with one more value.
pub open spec fn noted(notes: Notes, into: Slot, value: u32) -> Notes {
    let byte = (value & 0xff) as u8;
    let word = (value & 0xffff) as u16;
    let mac = notes.mac;
    match into {
        Slot::Mac(index) => Notes {
            mac: if index == 0 {
                (byte, mac.1, mac.2, mac.3, mac.4, mac.5)
            } else if index == 1 {
                (mac.0, byte, mac.2, mac.3, mac.4, mac.5)
            } else if index == 2 {
                (mac.0, mac.1, byte, mac.3, mac.4, mac.5)
            } else if index == 3 {
                (mac.0, mac.1, mac.2, byte, mac.4, mac.5)
            } else if index == 4 {
                (mac.0, mac.1, mac.2, mac.3, byte, mac.5)
            } else {
                (mac.0, mac.1, mac.2, mac.3, mac.4, byte)
            },
            ..notes
        },
        Slot::TxConfig => Notes { tx_config: value, ..notes },
        Slot::RxConfig => Notes { rx_config: value, ..notes },
        Slot::Rxdv => Notes { rxdv: value, ..notes },
        Slot::Isr => Notes { isr: value, ..notes },
        Slot::Mcu => Notes { mcu: value, ..notes },
        Slot::ChipCmd => Notes { chip_cmd: value, ..notes },
        Slot::RamBefore => Notes { ram_before: word, ram_after: word, ..notes },
        Slot::RamAfter => Notes { ram_after: word, ..notes },
        Slot::PhyState => Notes { phy_state: word & 0x0007, ..notes },
        Slot::Eee => Notes { eee: word & 0x0003, ..notes },
    }
}

/// The warning that the microcode did not take.
pub open spec fn not_taken(version: u16) -> Seq<char> {
    "net.rtl8125: WARNING: phy mcu ram code reads 0x"@ + hex(version as nat, 4)
        + " after the load (expected 0x0b99) - the patch did NOT take"@
}

/// What a program says when it has read a value.
pub open spec fn remark(into: Slot, value: u32) -> Option<Seq<char>> {
    if into == Slot::RamAfter && (value & 0xffff) as u16 != PHY_MCU_VERSION {
        Some(not_taken((value & 0xffff) as u16))
    } else {
        None
    }
}

/// What a reply does to an operation: it goes on elsewhere, it starts over, it is done,
/// perhaps with something to say, or the program fails.
pub enum Effect {
    Go(Micro),
    Again,
    Done { notes: Notes, says: Option<Seq<char>> },
    Fail(Seq<char>),
}

pub open spec fn done(notes: Notes) -> Effect {
    Effect::Done { notes, says: None }
}

/// The end of a bounded wait that ran out.
pub open spec fn ran_out(notes: Notes, expiry: Expiry) -> Effect {
    let there = Notes { expired: true, ..notes };
    match expiry {
        Expiry::GoOn => done(there),
        Expiry::SoftReset => Effect::Fail(
            "net.rtl8125: the chip did not come out of soft reset (poll limit)"@,
        ),
        Expiry::PhyReset => Effect::Fail(
            "net.rtl8125: the PHY did not come out of reset (poll limit)"@,
        ),
        Expiry::EnterPatch => Effect::Done {
            notes: there,
            says: Some(
                "net.rtl8125: WARNING: phy mcu patch-mode ENTER not acknowledged (0xb800 bit 6 never set) - the microcode table is being written anyway, per the reference, but a dead handshake usually means a dead load"@,
            ),
        },
        Expiry::LeavePatch => Effect::Done {
            notes: there,
            says: Some(
                "net.rtl8125: WARNING: phy mcu patch-mode LEAVE not acknowledged (0xb800 bit 6 never cleared)"@,
            ),
        },
    }
}

/// One read of a bounded wait.
pub open spec fn waited(
    notes: Notes,
    spins: u32,
    limit: u32,
    expiry: Expiry,
    satisfied: bool,
) -> Effect {
    if satisfied {
        done(Notes { expired: false, ..notes })
    } else if spins >= limit {
        ran_out(notes, expiry)
    } else {
        Effect::Again
    }
}

/// A PHY transaction that never completes.
pub open spec fn phy_stuck(verb: Seq<char>, address: u16) -> Seq<char> {
    "net.rtl8125: PHY "@ + verb + " OCP 0x"@ + hex(address as nat, 4)
        + " never completed (poll limit)"@
}

/// A write to the bus interface's own PHY that never completes.
pub open spec fn ephy_stuck(register: u16) -> Seq<char> {
    "net.rtl8125: EPHY write to 0x"@ + hex(register as nat, 4)
        + " never completed (poll limit)"@
}

/// What a reply does to an operation.
pub open spec fn effect_of(
    chip: Chip,
    op: Op,
    micro: Micro,
    spins: u32,
    notes: Notes,
    hearing: Hearing,
) -> Effect {
    let value = match hearing {
        Hearing::Value(value) => value,
        _ => 0,
    };
    let pending = hearing is Pending;
    match hearing {
        Hearing::Failed(error) => Effect::Fail(
            labelled(purpose(touch_of(chip, op, micro)), error),
        ),
        _ => match (op, micro) {
            (Op::Read { into, .. }, _) => Effect::Done {
                notes: noted(notes, into, value),
                says: remark(into, value),
            },
            (Op::Write { .. }, _) => done(notes),
            (Op::Update { .. }, Micro::Store { .. }) => done(notes),
            (Op::Update { clear, set, .. }, _) => Effect::Go(
                Micro::Store { value: updated(value, clear, set) },
            ),
            (Op::Settle { reads }, _) => if spins + 1 < reads {
                Effect::Again
            } else {
                done(notes)
            },
            (Op::Await { mask, goal, limit, expiry, .. }, _) => waited(
                notes,
                spins,
                limit,
                expiry,
                met(goal, value, mask),
            ),
            (Op::MacWrite { .. }, _) => done(notes),
            (Op::MacUpdate { .. }, Micro::Store { .. }) => done(notes),
            (Op::MacRead { into, .. }, Micro::Load) => Effect::Done {
                notes: noted(notes, into, value),
                says: remark(into, value),
            },
            (Op::MacUpdate { clear, set, .. }, Micro::Load) => Effect::Go(
                Micro::Store { value: updated16(value, clear, set) as u32 },
            ),
            (Op::MacAwait { mask, goal, limit, expiry, .. }, Micro::Load) => waited(
                notes,
                spins,
                limit,
                expiry,
                met(goal, value & 0xffff, mask as u32),
            ),
            (Op::MacRead { .. }, _) => Effect::Go(Micro::Load),
            (Op::MacUpdate { .. }, _) => Effect::Go(Micro::Load),
            (Op::MacAwait { .. }, _) => Effect::Go(Micro::Load),
            (Op::PhyWrite { address, .. }, Micro::Poll { polls }) => if !pending {
                done(notes)
            } else if polls >= PHY_POLL_LIMIT {
                Effect::Fail(phy_stuck("write to"@, address))
            } else {
                Effect::Go(Micro::Poll { polls: (polls + 1) as u32 })
            },
            (Op::PhyUpdate { address, .. }, Micro::PollStore { value: stored, polls }) =>
                if !pending {
                    done(notes)
                } else if polls >= PHY_POLL_LIMIT {
                    Effect::Fail(phy_stuck("write to"@, address))
                } else {
                    Effect::Go(Micro::PollStore { value: stored, polls: (polls + 1) as u32 })
                },
            (Op::PhyUpdate { .. }, Micro::Store { value: stored }) => Effect::Go(
                Micro::PollStore { value: stored, polls: 0 },
            ),
            (Op::PhyRead { address, into }, Micro::Poll { polls }) => if !pending {
                Effect::Done { notes: noted(notes, into, value), says: remark(into, value) }
            } else if polls >= PHY_POLL_LIMIT {
                Effect::Fail(phy_stuck("read from"@, address))
            } else {
                Effect::Go(Micro::Poll { polls: (polls + 1) as u32 })
            },
            (Op::PhyUpdate { address, clear, set }, Micro::Poll { polls }) => if !pending {
                Effect::Go(Micro::Store { value: updated16(value, clear, set) as u32 })
            } else if polls >= PHY_POLL_LIMIT {
                Effect::Fail(phy_stuck("read from"@, address))
            } else {
                Effect::Go(Micro::Poll { polls: (polls + 1) as u32 })
            },
            (Op::PhyAwait { address, mask, goal, limit, expiry }, Micro::Poll { polls }) =>
                if !pending {
                    waited(notes, spins, limit, expiry, met(goal, value & 0xffff, mask as u32))
                } else if polls >= PHY_POLL_LIMIT {
                    Effect::Fail(phy_stuck("read from"@, address))
                } else {
                    Effect::Go(Micro::Poll { polls: (polls + 1) as u32 })
                },
            (Op::PhyWrite { .. }, _) => Effect::Go(Micro::Poll { polls: 0 }),
            (Op::PhyRead { .. }, _) => Effect::Go(Micro::Poll { polls: 0 }),
            (Op::PhyUpdate { .. }, _) => Effect::Go(Micro::Poll { polls: 0 }),
            (Op::PhyAwait { .. }, _) => Effect::Go(Micro::Poll { polls: 0 }),
            (Op::EphyWrite { register, .. }, Micro::Poll { polls }) => if value & 0x8000_0000
                == 0 {
                done(notes)
            } else if polls >= PHY_POLL_LIMIT {
                Effect::Fail(ephy_stuck(register))
            } else {
                Effect::Go(Micro::Poll { polls: (polls + 1) as u32 })
            },
            (Op::EphyWrite { .. }, _) => Effect::Go(Micro::Poll { polls: 0 }),
            (Op::AwaitLink, _) => {
                let link = link_of(chip.bits, value);
                waited(
                    Notes { link, ..notes },
                    spins,
                    LINK_WAIT_LIMIT,
                    Expiry::GoOn,
                    link != Link::Down,
                )
            },
            (Op::BusMaster, _) => done(notes),
            (Op::PostRings, _) => done(notes),
        },
    }
}

/// A program in progress.
#[derive(Debug)]
pub struct Runner {
    pub chip: Chip,
    pub ops: Vec<Op>,
    pub at: usize,
    pub micro: Micro,
    /// How often the current operation has started over.
    pub spins: u32,
    pub notes: Notes,
}

/// Where a program stands.
pub struct Standing {
    pub at: int,
    pub micro: Micro,
    pub spins: u32,
    pub notes: Notes,
}

/// What a program does next.
#[derive(Debug)]
pub enum RunStep {
    /// Say this, if anything, then perform the access and hand back the reply.
    Ask(Option<String>, Touch),
    /// The program is through; there may be a last thing to say.
    Complete(Option<String>),
    Failed(String),
}

/// What a program does next, over contents.
pub enum RunAnswer {
    Ask(Option<Seq<char>>, Touch),
    Complete(Option<Seq<char>>),
    Failed(Seq<char>),
}

/// The content of a line that may be there.
pub open spec fn line_of(line: Option<String>) -> Option<Seq<char>> {
    match line {
        Some(line) => Some(line@),
        None => None,
    }
}

impl View for RunStep {
    type V = RunAnswer;

    open spec fn view(&self) -> RunAnswer {
        match self {
            RunStep::Ask(says, touch) => RunAnswer::Ask(line_of(*says), *touch),
            RunStep::Complete(says) => RunAnswer::Complete(line_of(*says)),
            RunStep::Failed(text) => RunAnswer::Failed(text@),
        }
    }
}

/// A program after a reply.
pub open spec fn ran(chip: Chip, ops: Seq<Op>, standing: Standing, hearing: Hearing) -> (
    Standing,
    RunAnswer,
) {
    let op = ops[standing.at];
    match effect_of(chip, op, standing.micro, standing.spins, standing.notes, hearing) {
        Effect::Go(micro) => (
            Standing { micro, ..standing },
            RunAnswer::Ask(None, touch_of(chip, op, micro)),
        ),
        Effect::Again => (
            Standing { micro: Micro::First, spins: (standing.spins + 1) as u32, ..standing },
            RunAnswer::Ask(None, touch_of(chip, op, Micro::First)),
        ),
        Effect::Done { notes, says } => if standing.at + 1 < ops.len() {
            (
                Standing { at: standing.at + 1, micro: Micro::First, spins: 0, notes },
                RunAnswer::Ask(says, touch_of(chip, ops[standing.at + 1], Micro::First)),
            )
        } else {
            (Standing { notes, ..standing }, RunAnswer::Complete(says))
        },
        Effect::Fail(text) => (standing, RunAnswer::Failed(text)),
    }
}

/// How often an operation may start over.
pub open spec fn patience(op: Op) -> int {
    match op {
        Op::Settle { reads } => reads as int,
        Op::Await { limit, .. } => limit as int,
        Op::MacAwait { limit, .. } => limit as int,
        Op::PhyAwait { limit, .. } => limit as int,
        Op::AwaitLink => LINK_WAIT_LIMIT as int,
        _ => 0,
    }
}

/// Whether an operation passes through a position.
pub open spec fn passes(op: Op, micro: Micro) -> bool {
    match micro {
        Micro::First => true,
        Micro::Load => op is MacRead || op is MacUpdate || op is MacAwait,
        Micro::Store { .. } => op is Update || op is MacUpdate || op is PhyUpdate,
        Micro::Poll { .. } => op is PhyRead || op is PhyWrite || op is PhyUpdate || op is PhyAwait
            || op is EphyWrite,
        Micro::PollStore { .. } => op is PhyUpdate,
    }
}

/// Whether an operation can stand there: the counters are within their bounds.
pub open spec fn in_bounds(op: Op, micro: Micro, spins: u32) -> bool {
    &&& passes(op, micro)
    &&& spins <= patience(op)
    &&& match micro {
        Micro::Poll { polls } => polls <= PHY_POLL_LIMIT,
        Micro::PollStore { value, polls } => polls <= PHY_POLL_LIMIT && value <= 0xffff,
        Micro::Store { value } => op is Update || value <= 0xffff,
        _ => true,
    }
}

/// What an operation does with a reply.
enum Did {
    Go(Micro),
    Again,
    Done(Notes, Option<String>),
    Fail(String),
}

impl View for Did {
    type V = Effect;

    closed spec fn view(&self) -> Effect {
        match self {
            Did::Go(micro) => Effect::Go(*micro),
            Did::Again => Effect::Again,
            Did::Done(notes, says) => Effect::Done { notes: *notes, says: line_of(*says) },
            Did::Fail(text) => Effect::Fail(text@),
        }
    }
}

fn note(notes: &Notes, into: Slot, value: u32) -> (did: Did)
    ensures
        did@ == (Effect::Done { notes: noted(*notes, into, value), says: remark(into, value) }),
{
    assert(value & 0xff <= 0xff) by (bit_vector);
    assert(value & 0xffff <= 0xffff) by (bit_vector);
    let byte: u8 = (value & 0xff) as u8;
    let word: u16 = (value & 0xffff) as u16;
    let mac = notes.mac;
    let mut notes = *notes;
    match into {
        Slot::Mac(index) => {
            notes.mac = match index {
                0 => (byte, mac.1, mac.2, mac.3, mac.4, mac.5),
                1 => (mac.0, byte, mac.2, mac.3, mac.4, mac.5),
                2 => (mac.0, mac.1, byte, mac.3, mac.4, mac.5),
                3 => (mac.0, mac.1, mac.2, byte, mac.4, mac.5),
                4 => (mac.0, mac.1, mac.2, mac.3, byte, mac.5),
                _ => (mac.0, mac.1, mac.2, mac.3, mac.4, byte),
            };
        },
        Slot::TxConfig => notes.tx_config = value,
        Slot::RxConfig => notes.rx_config = value,
        Slot::Rxdv => notes.rxdv = value,
        Slot::Isr => notes.isr = value,
        Slot::Mcu => notes.mcu = value,
        Slot::ChipCmd => notes.chip_cmd = value,
        Slot::RamBefore => {
            notes.ram_before = word;
            notes.ram_after = word;
        },
        Slot::RamAfter => {
            notes.ram_after = word;
            if word != PHY_MCU_VERSION {
                let mut text = String::from_str(
                    "net.rtl8125: WARNING: phy mcu ram code reads 0x",
                );
                push_hex(&mut text, word as u64, 4);
                text.append(" after the load (expected 0x0b99) - the patch did NOT take");
                return Did::Done(notes, Some(text));
            }
        },
        Slot::PhyState => notes.phy_state = word & 0x0007,
        Slot::Eee => notes.eee = word & 0x0003,
    }
    Did::Done(notes, None)
}

fn run_out(notes: &Notes, expiry: Expiry) -> (did: Did)
    ensures
        did@ == ran_out(*notes, expiry),
{
    let mut notes = *notes;
    notes.expired = true;
    match expiry {
        Expiry::GoOn => Did::Done(notes, None),
        Expiry::SoftReset => Did::Fail(
            String::from_str(
                "net.rtl8125: the chip did not come out of soft reset (poll limit)",
            ),
        ),
        Expiry::PhyReset => Did::Fail(
            String::from_str("net.rtl8125: the PHY did not come out of reset (poll limit)"),
        ),
        Expiry::EnterPatch => Did::Done(
            notes,
            Some(
                String::from_str(
                    "net.rtl8125: WARNING: phy mcu patch-mode ENTER not acknowledged (0xb800 bit 6 never set) - the microcode table is being written anyway, per the reference, but a dead handshake usually means a dead load",
                ),
            ),
        ),
        Expiry::LeavePatch => Did::Done(
            notes,
            Some(
                String::from_str(
                    "net.rtl8125: WARNING: phy mcu patch-mode LEAVE not acknowledged (0xb800 bit 6 never cleared)",
                ),
            ),
        ),
    }
}

fn wait(notes: &Notes, spins: u32, limit: u32, expiry: Expiry, satisfied: bool) -> (did: Did)
    ensures
        did@ == waited(*notes, spins, limit, expiry, satisfied),
{
    if satisfied {
        let mut notes = *notes;
        notes.expired = false;
        Did::Done(notes, None)
    } else if spins >= limit {
        run_out(notes, expiry)
    } else {
        Did::Again
    }
}

fn phy_failure(verb: &str, address: u16) -> (did: Did)
    ensures
        did@ == Effect::Fail(phy_stuck(verb@, address)),
{
    let mut text = String::from_str("net.rtl8125: PHY ");
    text.append(verb);
    text.append(" OCP 0x");
    push_hex(&mut text, address as u64, 4);
    text.append(" never completed (poll limit)");
    Did::Fail(text)
}

/// The error of an access that failed.
pub fn touch_failure(touch: Touch, error: String) -> (text: String)
    ensures
        text@ == labelled(purpose(touch), error@),
{
    let what = match touch {
        Touch::Read { .. } | Touch::LoadMac | Touch::PollPhyRead | Touch::PollPhyWrite =>
            "net.rtl8125: register read",
        Touch::BusMaster => "net.rtl8125: set-bus-master",
        _ => "net.rtl8125: register write",
    };
    match pci_call::<()>(what, Err(error)) {
        Ok(_) => String::from_str(what),
        Err(text) => text,
    }
}

impl Runner {
    /// Counters stay within their bounds.
    pub open spec fn wf(self) -> bool {
        &&& self.at < self.ops@.len()
        &&& in_bounds(self.ops@[self.at as int], self.micro, self.spins)
    }

    /// Where the program stands.
    pub open spec fn standing(self) -> Standing {
        Standing { at: self.at as int, micro: self.micro, spins: self.spins, notes: self.notes }
    }

    /// Begin a program; `notes` is what earlier programs read.
    pub fn new(chip: &Chip, ops: Vec<Op>, notes: Notes) -> (begun: (Runner, Touch))
        requires
            ops@.len() > 0,
        ensures
            begun.0.wf(),
            begun.0.chip == *chip,
            begun.0.ops == ops,
            begun.0.standing() == (Standing { at: 0, micro: Micro::First, spins: 0, notes }),
            begun.1 == touch_of(*chip, ops@[0], Micro::First),
    {
        let runner = Runner { chip: *chip, ops, at: 0, micro: Micro::First, spins: 0, notes };
        let touch = runner.touch();
        (runner, touch)
    }

    /// The access that the program waits for.
    pub fn touch(&self) -> (touch: Touch)
        requires
            self.wf(),
        ensures
            touch == touch_of(self.chip, self.ops@[self.at as int], self.micro),
    {
        let chip = &self.chip;
        match (self.ops[self.at], self.micro) {
            (Op::Read { register, width, .. }, _) => Touch::Read { register, width },
            (Op::Write { register, width, value }, _) => Touch::Write { register, width, value },
            (Op::Update { register, width, .. }, Micro::Store { value }) => Touch::Write {
                register,
                width,
                value: value as u64,
            },
            (Op::Update { register, width, .. }, _) => Touch::Read { register, width },
            (Op::Settle { .. }, _) => Touch::Read {
                register: chip.reg.chip_cmd,
                width: Width::Byte,
            },
            (Op::Await { register, width, .. }, _) => Touch::Read { register, width },
            (Op::MacWrite { address, value }, _) => Touch::StoreMac { address, value },
            (Op::MacUpdate { address, .. }, Micro::Store { value }) => Touch::StoreMac {
                address,
                value: value as u16,
            },
            (Op::MacRead { .. }, Micro::Load) => Touch::LoadMac,
            (Op::MacUpdate { .. }, Micro::Load) => Touch::LoadMac,
            (Op::MacAwait { .. }, Micro::Load) => Touch::LoadMac,
            (Op::MacRead { address, .. }, _) => Touch::SelectMac { address },
            (Op::MacUpdate { address, .. }, _) => Touch::SelectMac { address },
            (Op::MacAwait { address, .. }, _) => Touch::SelectMac { address },
            (Op::PhyWrite { .. }, Micro::Poll { .. }) => Touch::PollPhyWrite,
            (Op::PhyWrite { address, value }, _) => Touch::StorePhy { address, value },
            (Op::PhyUpdate { address, .. }, Micro::Store { value }) => Touch::StorePhy {
                address,
                value: value as u16,
            },
            (Op::PhyUpdate { .. }, Micro::PollStore { .. }) => Touch::PollPhyWrite,
            (Op::PhyRead { .. }, Micro::Poll { .. }) => Touch::PollPhyRead,
            (Op::PhyUpdate { .. }, Micro::Poll { .. }) => Touch::PollPhyRead,
            (Op::PhyAwait { .. }, Micro::Poll { .. }) => Touch::PollPhyRead,
            (Op::PhyRead { address, .. }, _) => Touch::SelectPhy { address },
            (Op::PhyUpdate { address, .. }, _) => Touch::SelectPhy { address },
            (Op::PhyAwait { address, .. }, _) => Touch::SelectPhy { address },
            (Op::EphyWrite { .. }, Micro::Poll { .. }) => Touch::Read {
                register: chip.reg.ephyar,
                width: Width::Dword,
            },
            (Op::EphyWrite { register, value }, _) => Touch::Write {
                register: chip.reg.ephyar,
                width: Width::Dword,
                value: 0x8000_0000u64 | (((register & 0x7f) as u64) << 16) | (value as u64),
            },
            (Op::AwaitLink, _) => Touch::Read {
                register: chip.reg.phy_status,
                width: Width::Word,
            },
            (Op::BusMaster, _) => Touch::BusMaster,
            (Op::PostRings, _) => Touch::PostRings,
        }
    }

    fn react(&self, heard: Heard) -> (did: Did)
        requires
            self.wf(),
        ensures
            did@ == effect_of(
                self.chip,
                self.ops@[self.at as int],
                self.micro,
                self.spins,
                self.notes,
                heard@,
            ),
            did matches Did::Go(micro) ==> in_bounds(self.ops@[self.at as int], micro, self.spins),
            did is Again ==> in_bounds(
                self.ops@[self.at as int],
                Micro::First,
                (self.spins + 1) as u32,
            ) && self.spins < u32::MAX,
    {
        let (value, pending): (u32, bool) = match heard {
            Heard::Value(value) => (value, false),
            Heard::Pending => (0, true),
            Heard::Done => (0, false),
            Heard::Failed(error) => return Did::Fail(touch_failure(self.touch(), error)),
        };
        assert(value & 0xffff <= 0xffff) by (bit_vector);
        let word: u16 = (value & 0xffff) as u16;
        let notes = &self.notes;
        let spins: u32 = self.spins;
        match (self.ops[self.at], self.micro) {
            (Op::Read { into, .. }, _) => note(notes, into, value),
            (Op::Write { .. }, _) => Did::Done(*notes, None),
            (Op::Update { .. }, Micro::Store { .. }) => Did::Done(*notes, None),
            (Op::Update { clear, set, .. }, _) => Did::Go(
                Micro::Store { value: (value & !clear) | set },
            ),
            (Op::Settle { reads }, _) => if (spins as u64) + 1 < reads as u64 {
                Did::Again
            } else {
                Did::Done(*notes, None)
            },
            (Op::Await { mask, goal, limit, expiry, .. }, _) => wait(
                notes,
                spins,
                limit,
                expiry,
                meets(goal, value, mask),
            ),
            (Op::MacWrite { .. }, _) => Did::Done(*notes, None),
            (Op::MacUpdate { .. }, Micro::Store { .. }) => Did::Done(*notes, None),
            (Op::MacRead { into, .. }, Micro::Load) => note(notes, into, value),
            (Op::MacUpdate { clear, set, .. }, Micro::Load) => Did::Go(
                Micro::Store { value: ((word & !clear) | set) as u32 },
            ),
            (Op::MacAwait { mask, goal, limit, expiry, .. }, Micro::Load) => wait(
                notes,
                spins,
                limit,
                expiry,
                meets(goal, value & 0xffff, mask as u32),
            ),
            (Op::MacRead { .. }, _) => Did::Go(Micro::Load),
            (Op::MacUpdate { .. }, _) => Did::Go(Micro::Load),
            (Op::MacAwait { .. }, _) => Did::Go(Micro::Load),
            (Op::PhyWrite { address, .. }, Micro::Poll { polls }) => if !pending {
                Did::Done(*notes, None)
            } else if polls >= PHY_POLL_LIMIT {
                phy_failure("write to", address)
            } else {
                Did::Go(Micro::Poll { polls: polls + 1 })
            },
            (Op::PhyUpdate { address, .. }, Micro::PollStore { value: stored, polls }) =>
                if !pending {
                    Did::Done(*notes, None)
                } else if polls >= PHY_POLL_LIMIT {
                    phy_failure("write to", address)
                } else {
                    Did::Go(Micro::PollStore { value: stored, polls: polls + 1 })
                },
            (Op::PhyUpdate { .. }, Micro::Store { value: stored }) => Did::Go(
                Micro::PollStore { value: stored, polls: 0 },
            ),
            (Op::PhyRead { address, into }, Micro::Poll { polls }) => if !pending {
                note(notes, into, value)
            } else if polls >= PHY_POLL_LIMIT {
                phy_failure("read from", address)
            } else {
                Did::Go(Micro::Poll { polls: polls + 1 })
            },
            (Op::PhyUpdate { address, clear, set }, Micro::Poll { polls }) => if !pending {
                Did::Go(Micro::Store { value: ((word & !clear) | set) as u32 })
            } else if polls >= PHY_POLL_LIMIT {
                phy_failure("read from", address)
            } else {
                Did::Go(Micro::Poll { polls: polls + 1 })
            },
            (Op::PhyAwait { address, mask, goal, limit, expiry }, Micro::Poll { polls }) =>
                if !pending {
                    wait(notes, spins, limit, expiry, meets(goal, value & 0xffff, mask as u32))
                } else if polls >= PHY_POLL_LIMIT {
                    phy_failure("read from", address)
                } else {
                    Did::Go(Micro::Poll { polls: polls + 1 })
                },
            (Op::PhyWrite { .. }, _) => Did::Go(Micro::Poll { polls: 0 }),
            (Op::PhyRead { .. }, _) => Did::Go(Micro::Poll { polls: 0 }),
            (Op::PhyUpdate { .. }, _) => Did::Go(Micro::Poll { polls: 0 }),
            (Op::PhyAwait { .. }, _) => Did::Go(Micro::Poll { polls: 0 }),
            (Op::EphyWrite { register, .. }, Micro::Poll { polls }) => if value & 0x8000_0000
                == 0 {
                Did::Done(*notes, None)
            } else if polls >= PHY_POLL_LIMIT {
                let mut text = String::from_str("net.rtl8125: EPHY write to 0x");
                push_hex(&mut text, register as u64, 4);
                text.append(" never completed (poll limit)");
                Did::Fail(text)
            } else {
                Did::Go(Micro::Poll { polls: polls + 1 })
            },
            (Op::EphyWrite { .. }, _) => Did::Go(Micro::Poll { polls: 0 }),
            (Op::AwaitLink, _) => {
                let link = decode_link(&self.chip.bits, value);
                let mut seen = *notes;
                seen.link = link;
                wait(&seen, spins, LINK_WAIT_LIMIT, Expiry::GoOn, link != Link::Down)
            },
            (Op::BusMaster, _) => Did::Done(*notes, None),
            (Op::PostRings, _) => Did::Done(*notes, None),
        }
    }

    /// Take the reply to the pending access and say what comes next.
    pub fn next(&mut self, heard: Heard) -> (step: RunStep)
        requires
            old(self).wf(),
        ensures
            final(self).wf(),
            final(self).chip == old(self).chip,
            final(self).ops == old(self).ops,
            (final(self).standing(), step@) == ran(
                old(self).chip,
                old(self).ops@,
                old(self).standing(),
                heard@,
            ),
    {
        match self.react(heard) {
            Did::Go(micro) => {
                self.micro = micro;
                RunStep::Ask(None, self.touch())
            },
            Did::Again => {
                self.micro = Micro::First;
                self.spins = self.spins + 1;
                RunStep::Ask(None, self.touch())
            },
            Did::Done(notes, says) => {
                self.notes = notes;
                if self.ops.len() - self.at > 1 {
                    self.at = self.at + 1;
                    self.micro = Micro::First;
                    self.spins = 0;
                    RunStep::Ask(says, self.touch())
                } else {
                    RunStep::Complete(says)
                }
            },
            Did::Fail(text) => RunStep::Failed(text),
        }
    }
}

/// How far an operation is from the end of one attempt.
pub open spec fn distance(micro: Micro) -> int {
    match micro {
        Micro::First => 2 * PHY_POLL_LIMIT + 5,
        Micro::Load => 2 * PHY_POLL_LIMIT + 4,
        Micro::Poll { polls } => 2 * PHY_POLL_LIMIT + 3 - polls,
        Micro::Store { .. } => PHY_POLL_LIMIT + 2,
        Micro::PollStore { polls, .. } => PHY_POLL_LIMIT + 1 - polls,
    }
}

/// A program ends whatever the chip answers: a reply that does not end it moves on to a
/// later operation, or starts the operation over within its bound, or moves the attempt
/// closer to its end.
pub proof fn law_program_ends(chip: Chip, ops: Seq<Op>, standing: Standing, hearing: Hearing)
    requires
        0 <= standing.at < ops.len(),
        in_bounds(ops[standing.at], standing.micro, standing.spins),
    ensures
        ({
            let (there, step) = ran(chip, ops, standing, hearing);
            step is Ask ==> {
                ||| standing.at < there.at < ops.len()
                ||| {
                    &&& there.at == standing.at
                    &&& standing.spins < there.spins <= patience(ops[there.at])
                }
                ||| {
                    &&& there.at == standing.at
                    &&& there.spins == standing.spins
                    &&& 0 <= distance(there.micro) < distance(standing.micro)
                }
            }
        }),
{
    let op = ops[standing.at];
    if let Hearing::Value(value) = hearing {
        assert(value & 0xffff <= 0xffff) by (bit_vector);
    }
}

/// Where a program stands before the first access of an operation.
pub open spec fn at_start(at: int, notes: Notes) -> Standing {
    Standing { at, micro: Micro::First, spins: 0, notes }
}

/// Updating a register reads it, then writes the same register back in the same width: the
/// bits to set are set, the bits to clear that are not set again are clear, and every other
/// bit is as it was read. The program then turns to its next operation with its notes as
/// they were.
pub proof fn law_update_changes_its_bits_alone(
    chip: Chip,
    ops: Seq<Op>,
    at: int,
    notes: Notes,
    value: u32,
)
    requires
        0 <= at < ops.len() - 1,
        ops[at] is Update,
    ensures
        ops[at] matches Op::Update { register, width, clear, set } && {
            let (s1, a1) = ran(chip, ops, at_start(at, notes), Hearing::Value(value));
            let (s2, a2) = ran(chip, ops, s1, Hearing::Done);
            &&& touch_of(chip, ops[at], Micro::First) == (Touch::Read { register, width })
            &&& a1 matches RunAnswer::Ask(None, Touch::Write { register: r, width: w, value: v })
                && {
                &&& r == register && w == width && v <= 0xffff_ffff
                &&& (v as u32) & set == set
                &&& (v as u32) & (clear & !set) == 0
                &&& (v as u32) & !(clear | set) == value & !(clear | set)
            }
            &&& s2 == at_start(at + 1, notes)
            &&& a2 == RunAnswer::Ask(None, touch_of(chip, ops[at + 1], Micro::First))
        },
{
    if let Op::Update { register, width, clear, set } = ops[at] {
        lemma_updated(value, clear, set);
    }
}

proof fn lemma_updated(value: u32, clear: u32, set: u32)
    ensures
        updated(value, clear, set) & set == set,
        updated(value, clear, set) & (clear & !set) == 0,
        updated(value, clear, set) & !(clear | set) == value & !(clear | set),
{
    assert(((value & !clear) | set) & set == set) by (bit_vector);
    assert(((value & !clear) | set) & (clear & !set) == 0) by (bit_vector);
    assert(((value & !clear) | set) & !(clear | set) == value & !(clear | set)) by (bit_vector);
}

proof fn lemma_updated16(value: u32, clear: u16, set: u16)
    requires
        value <= 0xffff,
    ensures
        updated16(value, clear, set) & set == set,
        updated16(value, clear, set) & (clear & !set) == 0,
        updated16(value, clear, set) & !(clear | set) == (value as u16) & !(clear | set),
{
    let v = value as u16;
    assert(value & 0xffff == value) by (bit_vector)
        requires
            value <= 0xffff,
    ;
    assert(((v & !clear) | set) & set == set) by (bit_vector);
    assert(((v & !clear) | set) & (clear & !set) == 0) by (bit_vector);
    assert(((v & !clear) | set) & !(clear | set) == v & !(clear | set)) by (bit_vector);
}

/// Updating a value of the MAC's space selects its address, loads it, and stores at the same
/// address what was loaded, with no bits changed but those that are to be set or cleared.
pub proof fn law_mac_update_changes_its_bits_alone(
    chip: Chip,
    ops: Seq<Op>,
    at: int,
    notes: Notes,
    value: u16,
)
    requires
        0 <= at < ops.len() - 1,
        ops[at] is MacUpdate,
    ensures
        ops[at] matches Op::MacUpdate { address, clear, set } && {
            let (s1, a1) = ran(chip, ops, at_start(at, notes), Hearing::Done);
            let (s2, a2) = ran(chip, ops, s1, Hearing::Value(value as u32));
            let (s3, a3) = ran(chip, ops, s2, Hearing::Done);
            &&& touch_of(chip, ops[at], Micro::First) == (Touch::SelectMac { address })
            &&& a1 == RunAnswer::Ask(None, Touch::LoadMac)
            &&& a2 matches RunAnswer::Ask(None, Touch::StoreMac { address: a, value: v }) && {
                &&& a == address
                &&& v & set == set && v & (clear & !set) == 0
                &&& v & !(clear | set) == value & !(clear | set)
            }
            &&& s3 == at_start(at + 1, notes)
            &&& a3 == RunAnswer::Ask(None, touch_of(chip, ops[at + 1], Micro::First))
        },
{
    if let Op::MacUpdate { address, clear, set } = ops[at] {
        lemma_updated16(value as u32, clear, set);
    }
}

/// Updating a value of the PHY's space reads it, waiting for the transaction, stores at the
/// same address what was read with no bits changed but those that are to be set or cleared,
/// and waits for that transaction too.
pub proof fn law_phy_update_changes_its_bits_alone(
    chip: Chip,
    ops: Seq<Op>,
    at: int,
    notes: Notes,
    value: u16,
)
    requires
        0 <= at < ops.len() - 1,
        ops[at] is PhyUpdate,
    ensures
        ops[at] matches Op::PhyUpdate { address, clear, set } && {
            let (s1, a1) = ran(chip, ops, at_start(at, notes), Hearing::Done);
            let (s2, a2) = ran(chip, ops, s1, Hearing::Pending);
            let (s3, a3) = ran(chip, ops, s2, Hearing::Value(value as u32));
            let (s4, a4) = ran(chip, ops, s3, Hearing::Done);
            let (s5, a5) = ran(chip, ops, s4, Hearing::Pending);
            let (s6, a6) = ran(chip, ops, s5, Hearing::Done);
            &&& touch_of(chip, ops[at], Micro::First) == (Touch::SelectPhy { address })
            &&& a1 == RunAnswer::Ask(None, Touch::PollPhyRead) && a2 == a1
            &&& a3 matches RunAnswer::Ask(None, Touch::StorePhy { address: a, value: v }) && {
                &&& a == address
                &&& v & set == set && v & (clear & !set) == 0
                &&& v & !(clear | set) == value & !(clear | set)
            }
            &&& a4 == RunAnswer::Ask(None, Touch::PollPhyWrite) && a5 == a4
            &&& s6 == at_start(at + 1, notes)
            &&& a6 == RunAnswer::Ask(None, touch_of(chip, ops[at + 1], Micro::First))
        },
{
    if let Op::PhyUpdate { address, clear, set } = ops[at] {
        lemma_updated16(value as u32, clear, set);
    }
}

/// A write stores its value at its address, once, and the program turns to its next operation
/// with its notes as they were. One to the PHY waits until the transaction is complete.
pub proof fn law_writes_store_what_they_say(chip: Chip, ops: Seq<Op>, at: int, notes: Notes)
    requires
        0 <= at < ops.len() - 1,
    ensures
        ({
            let op = ops[at];
            let (s1, a1) = ran(chip, ops, at_start(at, notes), Hearing::Done);
            let (s2, a2) = ran(chip, ops, s1, Hearing::Pending);
            let (s3, a3) = ran(chip, ops, s2, Hearing::Done);
            let after = (
                at_start(at + 1, notes),
                RunAnswer::Ask(None, touch_of(chip, ops[at + 1], Micro::First)),
            );
            let first = touch_of(chip, op, Micro::First);
            &&& op matches Op::Write { register, width, value } ==> first == (Touch::Write {
                register,
                width,
                value,
            }) && (s1, a1) == after
            &&& op matches Op::MacWrite { address, value } ==> first == (Touch::StoreMac {
                address,
                value,
            }) && (s1, a1) == after
            &&& op matches Op::PhyWrite { address, value } ==> {
                &&& first == (Touch::StorePhy { address, value })
                &&& a1 == RunAnswer::Ask(None, Touch::PollPhyWrite) && a2 == a1
                &&& (s3, a3) == after
            }
            &&& op is BusMaster ==> first == Touch::BusMaster && (s1, a1) == after
            &&& op is PostRings ==> first == Touch::PostRings && (s1, a1) == after
        }),
{
}

/// A write to the bus interface's own PHY is one command word: the write flag on top, the
/// register's seven bits below it, the value in the low half. It is complete when the flag
/// reads clear.
pub proof fn law_ephy_write_is_one_word(
    chip: Chip,
    ops: Seq<Op>,
    at: int,
    notes: Notes,
    busy: u32,
    idle: u32,
)
    requires
        0 <= at < ops.len() - 1,
        ops[at] is EphyWrite,
        busy & 0x8000_0000 != 0,
        idle & 0x8000_0000 == 0,
    ensures
        ops[at] matches Op::EphyWrite { register, value } && {
            let (s1, a1) = ran(chip, ops, at_start(at, notes), Hearing::Done);
            let (s2, a2) = ran(chip, ops, s1, Hearing::Value(busy));
            let (s3, a3) = ran(chip, ops, s2, Hearing::Value(idle));
            let look = Touch::Read { register: chip.reg.ephyar, width: Width::Dword };
            &&& touch_of(chip, ops[at], Micro::First) matches Touch::Write {
                register: r,
                width: w,
                value: word,
            } && {
                &&& r == chip.reg.ephyar && w == Width::Dword
                &&& word == 0x8000_0000 + (register % 128) * 0x1_0000 + value
            }
            &&& a1 == RunAnswer::Ask(None, look) && a2 == a1
            &&& s3 == at_start(at + 1, notes)
            &&& a3 == RunAnswer::Ask(None, touch_of(chip, ops[at + 1], Micro::First))
        },
{
    if let Op::EphyWrite { register, value } = ops[at] {
        assert((0x8000_0000u64 | (((register & 0x7f) as u64) << 16) | (value as u64))
            == 0x8000_0000 + (register % 128) * 0x1_0000 + value) by (bit_vector);
    }
}

/// What a program reads it remembers, under the name that the operation gives and nowhere
/// else: six bytes read as the address make up the address, and each other value is noted as
/// it was read, cut to its width.
pub proof fn law_reads_are_remembered(
    notes: Notes,
    v0: u32,
    v1: u32,
    v2: u32,
    v3: u32,
    v4: u32,
    v5: u32,
    value: u32,
)
    requires
        v0 <= 0xff,
        v1 <= 0xff,
        v2 <= 0xff,
        v3 <= 0xff,
        v4 <= 0xff,
        v5 <= 0xff,
        value <= 0xffff,
    ensures
        ({
            let n0 = noted(notes, Slot::Mac(0), v0);
            let n1 = noted(n0, Slot::Mac(1), v1);
            let n2 = noted(n1, Slot::Mac(2), v2);
            let n3 = noted(n2, Slot::Mac(3), v3);
            let n4 = noted(n3, Slot::Mac(4), v4);
            let n5 = noted(n4, Slot::Mac(5), v5);
            let mac = (v0 as u8, v1 as u8, v2 as u8, v3 as u8, v4 as u8, v5 as u8);
            n5 == (Notes { mac, ..notes })
        }),
        noted(notes, Slot::TxConfig, value) == (Notes { tx_config: value, ..notes }),
        noted(notes, Slot::RxConfig, value) == (Notes { rx_config: value, ..notes }),
        noted(notes, Slot::Rxdv, value) == (Notes { rxdv: value, ..notes }),
        noted(notes, Slot::Isr, value) == (Notes { isr: value, ..notes }),
        noted(notes, Slot::Mcu, value) == (Notes { mcu: value, ..notes }),
        noted(notes, Slot::ChipCmd, value) == (Notes { chip_cmd: value, ..notes }),
        noted(noted(notes, Slot::RamBefore, value), Slot::RamAfter, v0) == (Notes {
            ram_before: value as u16,
            ram_after: v0 as u16,
            ..notes
        }),
        noted(notes, Slot::RamBefore, value).ram_after == value,
        noted(notes, Slot::PhyState, value) == (Notes { phy_state: (value % 8) as u16, ..notes }),
        noted(notes, Slot::Eee, value) == (Notes { eee: (value % 4) as u16, ..notes }),
{
    assert forall|v: u32| v <= 0xff implies #[trigger] (v & 0xff) == v by {
        assert(v & 0xff == v) by (bit_vector)
            requires
                v <= 0xff,
        ;
    }
    assert forall|v: u32| v <= 0xffff implies #[trigger] (v & 0xffff) == v by {
        assert(v & 0xffff == v) by (bit_vector)
            requires
                v <= 0xffff,
        ;
    }
    assert(v0 & 0xffff == v0);
    let word = value as u16;
    assert(word & 7 == word % 8 && word & 3 == word % 4) by (bit_vector);
}

/// Each kind of read asks for its own register or address and hands what came back to the
/// notes.
pub proof fn law_reads_ask_for_their_own(
    chip: Chip,
    ops: Seq<Op>,
    at: int,
    notes: Notes,
    value: u32,
)
    requires
        0 <= at < ops.len() - 1,
    ensures
        ({
            let op = ops[at];
            let (s1, a1) = ran(chip, ops, at_start(at, notes), Hearing::Value(value));
            let (s2, a2) = ran(chip, ops, s1, Hearing::Pending);
            let (s3, a3) = ran(chip, ops, s2, Hearing::Value(value));
            let (m2, b2) = ran(chip, ops, s1, Hearing::Value(value));
            let first = touch_of(chip, op, Micro::First);
            &&& op matches Op::Read { register, width, into } ==> {
                &&& first == (Touch::Read { register, width })
                &&& s1 == at_start(at + 1, noted(notes, into, value))
            }
            &&& op matches Op::MacRead { address, into } ==> {
                &&& first == (Touch::SelectMac { address })
                &&& a1 == RunAnswer::Ask(None, Touch::LoadMac)
                &&& m2 == at_start(at + 1, noted(notes, into, value))
            }
            &&& op matches Op::PhyRead { address, into } ==> {
                &&& first == (Touch::SelectPhy { address })
                &&& a1 == RunAnswer::Ask(None, Touch::PollPhyRead) && a2 == a1
                &&& s3 == at_start(at + 1, noted(notes, into, value))
            }
        }),
{
}

/// A bounded wait reads its register until the bits are as wanted and goes on then; it reads
/// at most as often as its limit says, and where that is used up it goes on, warns or fails
/// as it was told. Only a wait that ran out is remembered as one.
pub proof fn law_waits_are_bounded(
    chip: Chip,
    ops: Seq<Op>,
    at: int,
    spins: u32,
    notes: Notes,
    value: u32,
)
    requires
        0 <= at < ops.len() - 1,
        spins < u32::MAX,
        ops[at] is Await,
    ensures
        ops[at] matches Op::Await { register, width, mask, goal, limit, expiry } && {
            let standing = Standing { at, micro: Micro::First, spins, notes };
            let (there, step) = ran(chip, ops, standing, Hearing::Value(value));
            let next = touch_of(chip, ops[at + 1], Micro::First);
            &&& met(goal, value, mask) ==> {
                &&& there == at_start(at + 1, Notes { expired: false, ..notes })
                &&& step == RunAnswer::Ask(None, next)
            }
            &&& !met(goal, value, mask) && spins < limit ==> {
                &&& there == (Standing { spins: (spins + 1) as u32, ..standing })
                &&& step == RunAnswer::Ask(None, Touch::Read { register, width })
            }
            &&& !met(goal, value, mask) && spins >= limit ==> {
                let late = at_start(at + 1, Notes { expired: true, ..notes });
                &&& expiry == Expiry::GoOn ==> there == late && step == RunAnswer::Ask(None, next)
                &&& expiry == Expiry::EnterPatch || expiry == Expiry::LeavePatch ==> {
                    &&& there == late
                    &&& step matches RunAnswer::Ask(Some(_), touch) && touch == next
                }
                &&& expiry == Expiry::SoftReset || expiry == Expiry::PhyReset ==> step is Failed
            }
        },
{
}

/// What a wait waits for, bit by bit: clearing the masked bits makes them clear, setting them
/// makes them full, they are never both clear and, where there are any, partly set, and no
/// other bit matters.
pub proof fn law_goals_look_at_the_mask(goal: Goal, value: u32, mask: u32, other: u32)
    ensures
        met(Goal::Clear, value & !mask, mask),
        met(Goal::Full, value | mask, mask),
        met(Goal::Any, value, mask) <==> !met(Goal::Clear, value, mask),
        met(Goal::Is(0), value, mask) <==> met(Goal::Clear, value, mask),
        met(Goal::Is(mask), value, mask) <==> met(Goal::Full, value, mask),
        mask != 0 && met(Goal::Full, value, mask) ==> met(Goal::Any, value, mask),
        met(goal, (value & mask) | (other & !mask), mask) == met(goal, value, mask),
{
    assert((value & !mask) & mask == 0 && (value | mask) & mask == mask) by (bit_vector);
    assert(((value & mask) | (other & !mask)) & mask == value & mask) by (bit_vector);
}

/// A settling pause reads as often as it says, and no read is a write.
pub proof fn law_settling_only_reads(
    chip: Chip,
    ops: Seq<Op>,
    at: int,
    spins: u32,
    notes: Notes,
    value: u32,
)
    requires
        0 <= at < ops.len() - 1,
        ops[at] is Settle,
        spins < u32::MAX,
    ensures
        ops[at] matches Op::Settle { reads } && {
            let standing = Standing { at, micro: Micro::First, spins, notes };
            let (there, step) = ran(chip, ops, standing, Hearing::Value(value));
            &&& touch_of(chip, ops[at], Micro::First) == (Touch::Read {
                register: chip.reg.chip_cmd,
                width: Width::Byte,
            })
            &&& spins + 1 < reads ==> {
                &&& step matches RunAnswer::Ask(None, touch) && touch is Read
                &&& there == (Standing { spins: (spins + 1) as u32, ..standing })
            }
            &&& spins + 1 >= reads ==> there == at_start(at + 1, notes)
        },
{
}

/// The wait for the link ends with the link that the status word reports, remembered, or,
/// after two million reads, with the link down.
pub proof fn law_link_is_awaited(
    chip: Chip,
    ops: Seq<Op>,
    at: int,
    spins: u32,
    notes: Notes,
    status: u32,
)
    requires
        0 <= at < ops.len() - 1,
        ops[at] is AwaitLink,
        spins < u32::MAX,
    ensures
        ({
            let standing = Standing { at, micro: Micro::First, spins, notes };
            let (there, step) = ran(chip, ops, standing, Hearing::Value(status));
            let link = link_of(chip.bits, status);
            let ask = Touch::Read { register: chip.reg.phy_status, width: Width::Word };
            &&& touch_of(chip, ops[at], Micro::First) == ask
            &&& link != Link::Down ==> there == at_start(
                at + 1,
                Notes { link, expired: false, ..notes },
            )
            &&& link == Link::Down && spins < 2_000_000 ==> step == RunAnswer::Ask(None, ask)
                && there == (Standing { spins: (spins + 1) as u32, ..standing })
            &&& link == Link::Down && spins >= 2_000_000 ==> there == at_start(
                at + 1,
                Notes { link: Link::Down, expired: true, ..notes },
            )
        }),
{
}

/// The bit of a status word that stands for a speed.
pub open spec fn speed_bit(bits: Bits, speed: int) -> u32 {
    if speed == 2500 {
        bits.phy_status_2500
    } else if speed == 1000 {
        bits.phy_status_1000
    } else if speed == 100 {
        bits.phy_status_100
    } else {
        bits.phy_status_10
    }
}

/// A link is up exactly where the link bit and the bit of some speed are set, and its speed is
/// the fastest of those whose bits are.
pub proof fn law_link_is_the_fastest_reported(bits: Bits, status: u32, speed: int)
    requires
        speed == 10 || speed == 100 || speed == 1000 || speed == 2500,
    ensures
        status & bits.phy_status_link == 0 ==> link_of(bits, status) == Link::Down,
        status & bits.phy_status_link != 0 && status & speed_bit(bits, speed) != 0 ==> {
            &&& link_of(bits, status) matches Link::Up(best) && best >= speed
        },
        link_of(bits, status) matches Link::Up(best) ==> {
            &&& best == 10 || best == 100 || best == 1000 || best == 2500
            &&& status & bits.phy_status_link != 0
            &&& status & speed_bit(bits, best as int) != 0
        },
{
}

/// The chip variant is what stands above bit 20 of the transmit configuration, without its
/// two flag bits; nothing below matters.
pub proof fn law_variant_stands_above_bit_20(variant: u32, flags: u32, low: u32)
    requires
        variant & 0xfcf == variant,
        flags & 0x30 == flags,
        low < 0x10_0000,
    ensures
        xid_of(((variant | flags) << 20) | low) == variant,
{
    assert((((((variant | flags) << 20) | low) >> 20) & 0xfcf) == variant) by (bit_vector)
        requires
            variant & 0xfcf == variant,
            flags & 0x30 == flags,
            low < 0x10_0000,
    ;
    assert(variant & 0xfcf <= 0xfcf) by (bit_vector);
}

/// An access that fails stops the program where it stands, and what it says ends with the
/// error; the last operation's end is the program's.
pub proof fn law_failed_access_stops_the_program(
    chip: Chip,
    ops: Seq<Op>,
    standing: Standing,
    error: Seq<char>,
    notes: Notes,
)
    requires
        ops.len() > 0,
    ensures
        ({
            let (there, step) = ran(chip, ops, standing, Hearing::Failed(error));
            &&& there == standing
            &&& step matches RunAnswer::Failed(text) && text.len() >= error.len() && text.subrange(
                text.len() - error.len(),
                text.len() as int,
            ) == error
        }),
        ops.last() is Write || ops.last() is MacWrite ==> ran(
            chip,
            ops,
            at_start(ops.len() - 1, notes),
            Hearing::Done,
        ).1 == RunAnswer::Complete(None),
{
    let op = ops[standing.at];
    let text = labelled(purpose(touch_of(chip, op, standing.micro)), error);
    assert(text.subrange(text.len() - error.len(), text.len() as int) =~= error);
}

/// A PHY transaction that stays pending is polled a hundred thousand times and then fails the
/// program.
pub proof fn law_stuck_phy_stops_the_program(
    chip: Chip,
    ops: Seq<Op>,
    at: int,
    polls: u32,
    spins: u32,
    notes: Notes,
)
    requires
        0 <= at < ops.len(),
        polls < u32::MAX,
        ops[at] is PhyRead || ops[at] is PhyWrite || ops[at] is PhyUpdate || ops[at] is PhyAwait,
    ensures
        ({
            let standing = Standing { at, micro: Micro::Poll { polls }, spins, notes };
            let (there, step) = ran(chip, ops, standing, Hearing::Pending);
            &&& polls < 100_000 ==> {
                &&& there == (Standing {
                    micro: Micro::Poll { polls: (polls + 1) as u32 },
                    ..standing
                })
                &&& step == RunAnswer::Ask(None, touch_of(chip, ops[at], standing.micro))
            }
            &&& polls >= 100_000 ==> step is Failed
        }),
{
}

/// A load of the microcode that did not take is said, and one that did is not: only the
/// version that is read back decides, and no other read says anything.
pub proof fn law_load_that_did_not_take_is_said(into: Slot, version: u32)
    requires
        version <= 0xffff,
    ensures
        remark(into, version) is Some <==> into == Slot::RamAfter && version != 0x0b99,
{
    assert(version & 0xffff == version) by (bit_vector)
        requires
            version <= 0xffff,
    ;
}

/// What a value is over contents is of the same kind as the value itself: no two kinds are
/// taken for one another.
pub proof fn law_contents_keep_their_kind(heard: Heard, run_step: RunStep)
    ensures
        heard is Done <==> heard@ is Done,
        heard is Value <==> heard@ is Value,
        heard is Pending <==> heard@ is Pending,
        heard is Failed <==> heard@ is Failed,
        run_step is Ask <==> run_step@ is Ask,
        run_step is Complete <==> run_step@ is Complete,
        run_step is Failed <==> run_step@ is Failed,
{
}

/// A wait on a value behind a window selects it anew for every look: an attempt that did not
/// find what it waits for begins again with the address, and counts as one.
pub proof fn law_waits_select_anew(
    chip: Chip,
    ops: Seq<Op>,
    at: int,
    spins: u32,
    polls: u32,
    notes: Notes,
    value: u16,
)
    requires
        0 <= at < ops.len(),
        spins < u32::MAX,
    ensures
        ops[at] matches Op::MacAwait { address, mask, goal, limit, expiry } ==> {
            let loaded = Standing { at, micro: Micro::Load, spins, notes };
            let (there, step) = ran(chip, ops, loaded, Hearing::Value(value as u32));
            !met(goal, value as u32, mask as u32) && spins < limit ==> {
                &&& there == (Standing { at, micro: Micro::First, spins: (spins + 1) as u32, notes })
                &&& step == RunAnswer::Ask(None, Touch::SelectMac { address })
            }
        },
        ops[at] matches Op::PhyAwait { address, mask, goal, limit, expiry } ==> {
            let polled = Standing { at, micro: Micro::Poll { polls }, spins, notes };
            let (there, step) = ran(chip, ops, polled, Hearing::Value(value as u32));
            !met(goal, value as u32, mask as u32) && spins < limit ==> {
                &&& there == (Standing { at, micro: Micro::First, spins: (spins + 1) as u32, notes })
                &&& step == RunAnswer::Ask(None, Touch::SelectPhy { address })
            }
        },
{
    let wide = value as u32;
    assert(wide & 0xffff == wide) by (bit_vector)
        requires
            wide <= 0xffff,
    ;
}

} // verus!
