//! The programs that bring an RTL8125 controller up, test it and report on it.
//!
//! Each is a list of operations; [`takeover`], [`configuration`] and [`counter_dump`] put
//! the parts together.
use vstd::prelude::*;

use crate::device::Width;
use crate::rtl8125::{
    Chip, Expiry, Goal, Op, Slot, Tables, PHY_MCU_VERSION, QUIESCE_POLL_LIMIT, RESET_POLL_LIMIT,
};

verus! {

impl Chip {
    /// The register block is small.
    pub open spec fn wf(self) -> bool {
        &&& self.reg.mac0 <= 0xffff_ffff
        &&& self.reg.mar0 <= 0xffff_ffff
        &&& self.reg.tx_desc_addr_low <= 0xffff_ffff
        &&& self.reg.rx_desc_addr_low <= 0xffff_ffff
        &&& self.reg.int_miti_end_8125a <= 0xffff_ffff
        &&& self.reg.int_miti_end_8125b <= 0xffff_ffff
    }
}

/// Read the factory address and the chip variant.
pub open spec fn identity(chip: Chip) -> Seq<Op> {
    seq![
        Op::Read { register: (chip.reg.mac0 + 0) as u64, width: Width::Byte, into: Slot::Mac(0) },
        Op::Read { register: (chip.reg.mac0 + 1) as u64, width: Width::Byte, into: Slot::Mac(1) },
        Op::Read { register: (chip.reg.mac0 + 2) as u64, width: Width::Byte, into: Slot::Mac(2) },
        Op::Read { register: (chip.reg.mac0 + 3) as u64, width: Width::Byte, into: Slot::Mac(3) },
        Op::Read { register: (chip.reg.mac0 + 4) as u64, width: Width::Byte, into: Slot::Mac(4) },
        Op::Read { register: (chip.reg.mac0 + 5) as u64, width: Width::Byte, into: Slot::Mac(5) },
        Op::Read { register: chip.reg.tx_config, width: Width::Dword, into: Slot::TxConfig },
    ]
}

pub fn push_identity(ops: &mut Vec<Op>, chip: &Chip)
    requires
        chip.wf(),
    ensures
        final(ops)@ == old(ops)@ + identity(*chip),
{
    ops.push(
        Op::Read {
            register: (chip.reg.mac0 + 0) as u64,
            width: Width::Byte,
            into: Slot::Mac(0),
        },
    );
    ops.push(
        Op::Read {
            register: (chip.reg.mac0 + 1) as u64,
            width: Width::Byte,
            into: Slot::Mac(1),
        },
    );
    ops.push(
        Op::Read {
            register: (chip.reg.mac0 + 2) as u64,
            width: Width::Byte,
            into: Slot::Mac(2),
        },
    );
    ops.push(
        Op::Read {
            register: (chip.reg.mac0 + 3) as u64,
            width: Width::Byte,
            into: Slot::Mac(3),
        },
    );
    ops.push(
        Op::Read {
            register: (chip.reg.mac0 + 4) as u64,
            width: Width::Byte,
            into: Slot::Mac(4),
        },
    );
    ops.push(
        Op::Read {
            register: (chip.reg.mac0 + 5) as u64,
            width: Width::Byte,
            into: Slot::Mac(5),
        },
    );
    ops.push(Op::Read { register: chip.reg.tx_config, width: Width::Dword, into: Slot::TxConfig });
    assert(ops@ =~= old(ops)@ + identity(*chip));
}

/// Take the chip away from its management controller: stop it, reset it, clear its
/// ownership and hand the link list over.
pub open spec fn quiesce(chip: Chip) -> Seq<Op> {
    seq![
        Op::MacWrite { address: chip.ocp.realwow_ctrl, value: chip.ocp.realwow_disable },
        Op::Update { register: chip.reg.rx_config, width: Width::Dword, clear: 0x3f, set: 0 },
        Op::Update {
            register: chip.reg.rxdv_gate_byte,
            width: Width::Byte,
            clear: 0,
            set: chip.bits.rxdv_gate,
        },
        Op::Settle { reads: 1000 },
        Op::Update {
            register: chip.reg.chip_cmd,
            width: Width::Byte,
            clear: 0,
            set: chip.bits.cmd_stop_req,
        },
        Op::Settle { reads: 100 },
        Op::Await {
            register: chip.reg.mcu,
            width: Width::Byte,
            mask: chip.bits.mcu_tx_empty | chip.bits.mcu_rx_empty,
            goal: Goal::Full,
            limit: QUIESCE_POLL_LIMIT,
            expiry: Expiry::GoOn,
        },
        Op::Write { register: chip.reg.chip_cmd, width: Width::Byte, value: 0 },
        Op::Write {
            register: chip.reg.chip_cmd,
            width: Width::Byte,
            value: chip.bits.cmd_reset as u64,
        },
        Op::Await {
            register: chip.reg.chip_cmd,
            width: Width::Byte,
            mask: chip.bits.cmd_reset,
            goal: Goal::Clear,
            limit: RESET_POLL_LIMIT,
            expiry: Expiry::SoftReset,
        },
        Op::Update {
            register: chip.reg.mcu,
            width: Width::Byte,
            clear: chip.bits.mcu_now_is_oob,
            set: 0,
        },
        Op::MacUpdate {
            address: chip.ocp.oob_handshake,
            clear: chip.ocp.oob_handshake_bit14,
            set: 0,
        },
        Op::Await {
            register: chip.reg.mcu,
            width: Width::Byte,
            mask: chip.bits.mcu_link_list_rdy,
            goal: Goal::Any,
            limit: QUIESCE_POLL_LIMIT,
            expiry: Expiry::GoOn,
        },
        Op::MacWrite { address: chip.ocp.ll_param_a.0, value: chip.ocp.ll_param_a.1 },
        Op::MacWrite { address: chip.ocp.ll_param_b.0, value: chip.ocp.ll_param_b.1 },
        Op::MacWrite { address: chip.ocp.ll_param_c.0, value: chip.ocp.ll_param_c.1 },
        Op::Await {
            register: chip.reg.mcu,
            width: Width::Byte,
            mask: chip.bits.mcu_link_list_rdy,
            goal: Goal::Any,
            limit: QUIESCE_POLL_LIMIT,
            expiry: Expiry::GoOn,
        },
    ]
}

fn push_quiesce(ops: &mut Vec<Op>, chip: &Chip)
    ensures
        final(ops)@ == old(ops)@ + quiesce(*chip),
{
    ops.push(Op::MacWrite { address: chip.ocp.realwow_ctrl, value: chip.ocp.realwow_disable });
    ops.push(Op::Update { register: chip.reg.rx_config, width: Width::Dword, clear: 0x3f, set: 0 });
    ops.push(
        Op::Update {
            register: chip.reg.rxdv_gate_byte,
            width: Width::Byte,
            clear: 0,
            set: chip.bits.rxdv_gate,
        },
    );
    ops.push(Op::Settle { reads: 1000 });
    ops.push(
        Op::Update {
            register: chip.reg.chip_cmd,
            width: Width::Byte,
            clear: 0,
            set: chip.bits.cmd_stop_req,
        },
    );
    ops.push(Op::Settle { reads: 100 });
    ops.push(
        Op::Await {
            register: chip.reg.mcu,
            width: Width::Byte,
            mask: chip.bits.mcu_tx_empty | chip.bits.mcu_rx_empty,
            goal: Goal::Full,
            limit: QUIESCE_POLL_LIMIT,
            expiry: Expiry::GoOn,
        },
    );
    ops.push(Op::Write { register: chip.reg.chip_cmd, width: Width::Byte, value: 0 });
    ops.push(
        Op::Write {
            register: chip.reg.chip_cmd,
            width: Width::Byte,
            value: chip.bits.cmd_reset as u64,
        },
    );
    ops.push(
        Op::Await {
            register: chip.reg.chip_cmd,
            width: Width::Byte,
            mask: chip.bits.cmd_reset,
            goal: Goal::Clear,
            limit: RESET_POLL_LIMIT,
            expiry: Expiry::SoftReset,
        },
    );
    ops.push(
        Op::Update {
            register: chip.reg.mcu,
            width: Width::Byte,
            clear: chip.bits.mcu_now_is_oob,
            set: 0,
        },
    );
    ops.push(
        Op::MacUpdate {
            address: chip.ocp.oob_handshake,
            clear: chip.ocp.oob_handshake_bit14,
            set: 0,
        },
    );
    ops.push(
        Op::Await {
            register: chip.reg.mcu,
            width: Width::Byte,
            mask: chip.bits.mcu_link_list_rdy,
            goal: Goal::Any,
            limit: QUIESCE_POLL_LIMIT,
            expiry: Expiry::GoOn,
        },
    );
    ops.push(Op::MacWrite { address: chip.ocp.ll_param_a.0, value: chip.ocp.ll_param_a.1 });
    ops.push(Op::MacWrite { address: chip.ocp.ll_param_b.0, value: chip.ocp.ll_param_b.1 });
    ops.push(Op::MacWrite { address: chip.ocp.ll_param_c.0, value: chip.ocp.ll_param_c.1 });
    ops.push(
        Op::Await {
            register: chip.reg.mcu,
            width: Width::Byte,
            mask: chip.bits.mcu_link_list_rdy,
            goal: Goal::Any,
            limit: QUIESCE_POLL_LIMIT,
            expiry: Expiry::GoOn,
        },
    );
    assert(ops@ =~= old(ops)@ + quiesce(*chip));
}

/// Halt the MAC microcontroller before its table is replayed.
pub open spec fn halt(chip: Chip) -> Seq<Op> {
    seq![
        Op::Update { register: 0xf1, width: Width::Byte, clear: 0x80, set: 0 },
        Op::MacWrite { address: 0xfc48, value: 0 },
        Op::MacWrite { address: 0xfc28, value: 0 },
        Op::MacWrite { address: 0xfc2a, value: 0 },
        Op::MacWrite { address: 0xfc2c, value: 0 },
        Op::MacWrite { address: 0xfc2e, value: 0 },
        Op::MacWrite { address: 0xfc30, value: 0 },
        Op::MacWrite { address: 0xfc32, value: 0 },
        Op::MacWrite { address: 0xfc34, value: 0 },
        Op::MacWrite { address: 0xfc36, value: 0 },
        Op::MacWrite { address: 0xfc38, value: 0 },
        Op::MacWrite { address: 0xfc3a, value: 0 },
        Op::MacWrite { address: 0xfc3c, value: 0 },
        Op::MacWrite { address: 0xfc3e, value: 0 },
        Op::MacWrite { address: 0xfc40, value: 0 },
        Op::MacWrite { address: 0xfc42, value: 0 },
        Op::MacWrite { address: 0xfc44, value: 0 },
        Op::MacWrite { address: 0xfc46, value: 0 },
        Op::Settle { reads: 1500 },
        Op::MacWrite { address: 0xfc26, value: 0 },
        Op::MacUpdate { address: 0xe446, clear: 0x0003, set: 0 },
    ]
}

fn push_halt(ops: &mut Vec<Op>, chip: &Chip)
    ensures
        final(ops)@ == old(ops)@ + halt(*chip),
{
    ops.push(Op::Update { register: 0xf1, width: Width::Byte, clear: 0x80, set: 0 });
    ops.push(Op::MacWrite { address: 0xfc48, value: 0 });
    ops.push(Op::MacWrite { address: 0xfc28, value: 0 });
    ops.push(Op::MacWrite { address: 0xfc2a, value: 0 });
    ops.push(Op::MacWrite { address: 0xfc2c, value: 0 });
    ops.push(Op::MacWrite { address: 0xfc2e, value: 0 });
    ops.push(Op::MacWrite { address: 0xfc30, value: 0 });
    ops.push(Op::MacWrite { address: 0xfc32, value: 0 });
    ops.push(Op::MacWrite { address: 0xfc34, value: 0 });
    ops.push(Op::MacWrite { address: 0xfc36, value: 0 });
    ops.push(Op::MacWrite { address: 0xfc38, value: 0 });
    ops.push(Op::MacWrite { address: 0xfc3a, value: 0 });
    ops.push(Op::MacWrite { address: 0xfc3c, value: 0 });
    ops.push(Op::MacWrite { address: 0xfc3e, value: 0 });
    ops.push(Op::MacWrite { address: 0xfc40, value: 0 });
    ops.push(Op::MacWrite { address: 0xfc42, value: 0 });
    ops.push(Op::MacWrite { address: 0xfc44, value: 0 });
    ops.push(Op::MacWrite { address: 0xfc46, value: 0 });
    ops.push(Op::Settle { reads: 1500 });
    ops.push(Op::MacWrite { address: 0xfc26, value: 0 });
    ops.push(Op::MacUpdate { address: 0xe446, clear: 0x0003, set: 0 });
    assert(ops@ =~= old(ops)@ + halt(*chip));
}

/// Power the PHY, silence the interrupts and reset the chip again.
pub open spec fn power(chip: Chip) -> Seq<Op> {
    seq![
        Op::Update { register: chip.reg.pmch, width: Width::Byte, clear: 0, set: 0xc0 },
        Op::PhyWrite { address: chip.phy.bmcr, value: 0x1000 },
        Op::PhyAwait {
            address: 0xa420,
            mask: 0x0007,
            goal: Goal::Is(3),
            limit: QUIESCE_POLL_LIMIT,
            expiry: Expiry::GoOn,
        },
        Op::Write { register: chip.reg.intr_mask, width: Width::Dword, value: 0 },
        Op::Write { register: chip.reg.intr_status, width: Width::Dword, value: 0xffff_ffff },
        Op::Write {
            register: chip.reg.chip_cmd,
            width: Width::Byte,
            value: chip.bits.cmd_reset as u64,
        },
        Op::Await {
            register: chip.reg.chip_cmd,
            width: Width::Byte,
            mask: chip.bits.cmd_reset,
            goal: Goal::Clear,
            limit: RESET_POLL_LIMIT,
            expiry: Expiry::SoftReset,
        },
    ]
}

fn push_power(ops: &mut Vec<Op>, chip: &Chip)
    ensures
        final(ops)@ == old(ops)@ + power(*chip),
{
    ops.push(Op::Update { register: chip.reg.pmch, width: Width::Byte, clear: 0, set: 0xc0 });
    ops.push(Op::PhyWrite { address: chip.phy.bmcr, value: 0x1000 });
    ops.push(
        Op::PhyAwait {
            address: 0xa420,
            mask: 0x0007,
            goal: Goal::Is(3),
            limit: QUIESCE_POLL_LIMIT,
            expiry: Expiry::GoOn,
        },
    );
    ops.push(Op::Write { register: chip.reg.intr_mask, width: Width::Dword, value: 0 });
    ops.push(Op::Write { register: chip.reg.intr_status, width: Width::Dword, value: 0xffff_ffff });
    ops.push(
        Op::Write {
            register: chip.reg.chip_cmd,
            width: Width::Byte,
            value: chip.bits.cmd_reset as u64,
        },
    );
    ops.push(
        Op::Await {
            register: chip.reg.chip_cmd,
            width: Width::Byte,
            mask: chip.bits.cmd_reset,
            goal: Goal::Clear,
            limit: RESET_POLL_LIMIT,
            expiry: Expiry::SoftReset,
        },
    );
    assert(ops@ =~= old(ops)@ + power(*chip));
}

/// Advertise nothing, reset the PHY and read its microcode version.
pub open spec fn phy_reset(chip: Chip) -> Seq<Op> {
    seq![
        Op::PhyUpdate { address: chip.phy.anar, clear: 0x01e0, set: 0 },
        Op::PhyUpdate { address: chip.phy.gbcr, clear: 0x0300, set: 0 },
        Op::PhyUpdate { address: chip.phy.adv_2500, clear: chip.phy.adv_2500_full, set: 0 },
        Op::PhyWrite { address: chip.phy.bmcr, value: 0x9200 },
        Op::PhyAwait {
            address: chip.phy.bmcr,
            mask: 0x8000,
            goal: Goal::Clear,
            limit: QUIESCE_POLL_LIMIT,
            expiry: Expiry::PhyReset,
        },
        Op::PhyWrite { address: 0xa436, value: 0x801e },
        Op::PhyRead { address: 0xa438, into: Slot::RamBefore },
    ]
}

fn push_phy_reset(ops: &mut Vec<Op>, chip: &Chip)
    ensures
        final(ops)@ == old(ops)@ + phy_reset(*chip),
{
    ops.push(Op::PhyUpdate { address: chip.phy.anar, clear: 0x01e0, set: 0 });
    ops.push(Op::PhyUpdate { address: chip.phy.gbcr, clear: 0x0300, set: 0 });
    ops.push(Op::PhyUpdate { address: chip.phy.adv_2500, clear: chip.phy.adv_2500_full, set: 0 });
    ops.push(Op::PhyWrite { address: chip.phy.bmcr, value: 0x9200 });
    ops.push(
        Op::PhyAwait {
            address: chip.phy.bmcr,
            mask: 0x8000,
            goal: Goal::Clear,
            limit: QUIESCE_POLL_LIMIT,
            expiry: Expiry::PhyReset,
        },
    );
    ops.push(Op::PhyWrite { address: 0xa436, value: 0x801e });
    ops.push(Op::PhyRead { address: 0xa438, into: Slot::RamBefore });
    assert(ops@ =~= old(ops)@ + phy_reset(*chip));
}

/// Enter the PHY's patch mode.
pub open spec fn enter_patch(chip: Chip) -> Seq<Op> {
    seq![
        Op::PhyUpdate { address: 0xb820, clear: 0x0000, set: 0x0010 },
        Op::PhyAwait {
            address: 0xb800,
            mask: 0x0040,
            goal: Goal::Any,
            limit: QUIESCE_POLL_LIMIT,
            expiry: Expiry::EnterPatch,
        },
    ]
}

fn push_enter_patch(ops: &mut Vec<Op>, chip: &Chip)
    ensures
        final(ops)@ == old(ops)@ + enter_patch(*chip),
{
    ops.push(Op::PhyUpdate { address: 0xb820, clear: 0x0000, set: 0x0010 });
    ops.push(
        Op::PhyAwait {
            address: 0xb800,
            mask: 0x0040,
            goal: Goal::Any,
            limit: QUIESCE_POLL_LIMIT,
            expiry: Expiry::EnterPatch,
        },
    );
    assert(ops@ =~= old(ops)@ + enter_patch(*chip));
}

/// Leave the PHY's patch mode and stamp the version.
pub open spec fn leave_patch(chip: Chip) -> Seq<Op> {
    seq![
        Op::PhyUpdate { address: 0xb820, clear: 0x0010, set: 0x0000 },
        Op::PhyAwait {
            address: 0xb800,
            mask: 0x0040,
            goal: Goal::Clear,
            limit: QUIESCE_POLL_LIMIT,
            expiry: Expiry::LeavePatch,
        },
        Op::PhyWrite { address: 0xa436, value: 0x801e },
        Op::PhyWrite { address: 0xa438, value: PHY_MCU_VERSION },
    ]
}

fn push_leave_patch(ops: &mut Vec<Op>, chip: &Chip)
    ensures
        final(ops)@ == old(ops)@ + leave_patch(*chip),
{
    ops.push(Op::PhyUpdate { address: 0xb820, clear: 0x0010, set: 0x0000 });
    ops.push(
        Op::PhyAwait {
            address: 0xb800,
            mask: 0x0040,
            goal: Goal::Clear,
            limit: QUIESCE_POLL_LIMIT,
            expiry: Expiry::LeavePatch,
        },
    );
    ops.push(Op::PhyWrite { address: 0xa436, value: 0x801e });
    ops.push(Op::PhyWrite { address: 0xa438, value: PHY_MCU_VERSION });
    assert(ops@ =~= old(ops)@ + leave_patch(*chip));
}

/// Read the microcode version back and tune the PHY of the newer variant.
pub open spec fn tuning(chip: Chip) -> Seq<Op> {
    seq![
        Op::PhyWrite { address: 0xa436, value: 0x801e },
        Op::PhyRead { address: 0xa438, into: Slot::RamAfter },
        Op::PhyUpdate { address: 0xa442, clear: 0x0000, set: 0x0800 },
        Op::PhyUpdate { address: 0xac46, clear: 0x00f0, set: 0x0090 },
        Op::PhyUpdate { address: 0xad30, clear: 0x0003, set: 0x0001 },
        Op::PhyWrite { address: 0xb87c, value: 0x80f5 },
        Op::PhyWrite { address: 0xb87e, value: 0x760e },
        Op::PhyWrite { address: 0xb87c, value: 0x8107 },
        Op::PhyWrite { address: 0xb87e, value: 0x360e },
        Op::PhyWrite { address: 0xb87c, value: 0x8551 },
        Op::PhyUpdate { address: 0xb87e, clear: 0xff00, set: 0x0800 },
        Op::PhyUpdate { address: 0xbf00, clear: 0xe000, set: 0xa000 },
        Op::PhyUpdate { address: 0xbf46, clear: 0x0f00, set: 0x0300 },
    ]
}

fn push_tuning(ops: &mut Vec<Op>, chip: &Chip)
    ensures
        final(ops)@ == old(ops)@ + tuning(*chip),
{
    ops.push(Op::PhyWrite { address: 0xa436, value: 0x801e });
    ops.push(Op::PhyRead { address: 0xa438, into: Slot::RamAfter });
    ops.push(Op::PhyUpdate { address: 0xa442, clear: 0x0000, set: 0x0800 });
    ops.push(Op::PhyUpdate { address: 0xac46, clear: 0x00f0, set: 0x0090 });
    ops.push(Op::PhyUpdate { address: 0xad30, clear: 0x0003, set: 0x0001 });
    ops.push(Op::PhyWrite { address: 0xb87c, value: 0x80f5 });
    ops.push(Op::PhyWrite { address: 0xb87e, value: 0x760e });
    ops.push(Op::PhyWrite { address: 0xb87c, value: 0x8107 });
    ops.push(Op::PhyWrite { address: 0xb87e, value: 0x360e });
    ops.push(Op::PhyWrite { address: 0xb87c, value: 0x8551 });
    ops.push(Op::PhyUpdate { address: 0xb87e, clear: 0xff00, set: 0x0800 });
    ops.push(Op::PhyUpdate { address: 0xbf00, clear: 0xe000, set: 0xa000 });
    ops.push(Op::PhyUpdate { address: 0xbf46, clear: 0x0f00, set: 0x0300 });
    assert(ops@ =~= old(ops)@ + tuning(*chip));
}

/// Set the equalizer of the newer variant.
pub open spec fn equalizer(chip: Chip) -> Seq<Op> {
    seq![
        Op::PhyWrite { address: 0xa436, value: 0x8044 },
        Op::PhyWrite { address: 0xa438, value: 0x2417 },
        Op::PhyWrite { address: 0xa436, value: 0x804a },
        Op::PhyWrite { address: 0xa438, value: 0x2417 },
        Op::PhyWrite { address: 0xa436, value: 0x8050 },
        Op::PhyWrite { address: 0xa438, value: 0x2417 },
        Op::PhyWrite { address: 0xa436, value: 0x8056 },
        Op::PhyWrite { address: 0xa438, value: 0x2417 },
        Op::PhyWrite { address: 0xa436, value: 0x805c },
        Op::PhyWrite { address: 0xa438, value: 0x2417 },
        Op::PhyWrite { address: 0xa436, value: 0x8062 },
        Op::PhyWrite { address: 0xa438, value: 0x2417 },
        Op::PhyWrite { address: 0xa436, value: 0x8068 },
        Op::PhyWrite { address: 0xa438, value: 0x2417 },
        Op::PhyWrite { address: 0xa436, value: 0x806e },
        Op::PhyWrite { address: 0xa438, value: 0x2417 },
        Op::PhyWrite { address: 0xa436, value: 0x8074 },
        Op::PhyWrite { address: 0xa438, value: 0x2417 },
        Op::PhyWrite { address: 0xa436, value: 0x807a },
        Op::PhyWrite { address: 0xa438, value: 0x2417 },
        Op::PhyUpdate { address: 0xa4ca, clear: 0x0000, set: 0x0040 },
        Op::PhyUpdate { address: 0xbf84, clear: 0xe000, set: 0xa000 },
        Op::PhyWrite { address: 0xa436, value: 0x8170 },
        Op::PhyUpdate { address: 0xa438, clear: 0x2700, set: 0xd800 },
        Op::PhyUpdate { address: 0xa424, clear: 0x0000, set: 0x0008 },
    ]
}

fn push_equalizer(ops: &mut Vec<Op>, chip: &Chip)
    ensures
        final(ops)@ == old(ops)@ + equalizer(*chip),
{
    ops.push(Op::PhyWrite { address: 0xa436, value: 0x8044 });
    ops.push(Op::PhyWrite { address: 0xa438, value: 0x2417 });
    ops.push(Op::PhyWrite { address: 0xa436, value: 0x804a });
    ops.push(Op::PhyWrite { address: 0xa438, value: 0x2417 });
    ops.push(Op::PhyWrite { address: 0xa436, value: 0x8050 });
    ops.push(Op::PhyWrite { address: 0xa438, value: 0x2417 });
    ops.push(Op::PhyWrite { address: 0xa436, value: 0x8056 });
    ops.push(Op::PhyWrite { address: 0xa438, value: 0x2417 });
    ops.push(Op::PhyWrite { address: 0xa436, value: 0x805c });
    ops.push(Op::PhyWrite { address: 0xa438, value: 0x2417 });
    ops.push(Op::PhyWrite { address: 0xa436, value: 0x8062 });
    ops.push(Op::PhyWrite { address: 0xa438, value: 0x2417 });
    ops.push(Op::PhyWrite { address: 0xa436, value: 0x8068 });
    ops.push(Op::PhyWrite { address: 0xa438, value: 0x2417 });
    ops.push(Op::PhyWrite { address: 0xa436, value: 0x806e });
    ops.push(Op::PhyWrite { address: 0xa438, value: 0x2417 });
    ops.push(Op::PhyWrite { address: 0xa436, value: 0x8074 });
    ops.push(Op::PhyWrite { address: 0xa438, value: 0x2417 });
    ops.push(Op::PhyWrite { address: 0xa436, value: 0x807a });
    ops.push(Op::PhyWrite { address: 0xa438, value: 0x2417 });
    ops.push(Op::PhyUpdate { address: 0xa4ca, clear: 0x0000, set: 0x0040 });
    ops.push(Op::PhyUpdate { address: 0xbf84, clear: 0xe000, set: 0xa000 });
    ops.push(Op::PhyWrite { address: 0xa436, value: 0x8170 });
    ops.push(Op::PhyUpdate { address: 0xa438, clear: 0x2700, set: 0xd800 });
    ops.push(Op::PhyUpdate { address: 0xa424, clear: 0x0000, set: 0x0008 });
    assert(ops@ =~= old(ops)@ + equalizer(*chip));
}

/// Turn low-power idle off in the MAC.
pub open spec fn eee_mac(chip: Chip) -> Seq<Op> {
    seq![
        Op::PhyUpdate { address: 0xa5b4, clear: 0x8000, set: 0 },
        Op::MacUpdate { address: 0xe040, clear: 0x0003, set: 0 },
    ]
}

fn push_eee_mac(ops: &mut Vec<Op>, chip: &Chip)
    ensures
        final(ops)@ == old(ops)@ + eee_mac(*chip),
{
    ops.push(Op::PhyUpdate { address: 0xa5b4, clear: 0x8000, set: 0 });
    ops.push(Op::MacUpdate { address: 0xe040, clear: 0x0003, set: 0 });
    assert(ops@ =~= old(ops)@ + eee_mac(*chip));
}

/// Turn low-power idle off in the PHY.
pub open spec fn eee_phy(chip: Chip) -> Seq<Op> {
    seq![
        Op::PhyUpdate { address: 0xa5d0, clear: 0x0006, set: 0 },
        Op::PhyUpdate { address: 0xa6d4, clear: 0x0001, set: 0 },
        Op::PhyUpdate { address: 0xa6d8, clear: 0x0010, set: 0 },
        Op::PhyUpdate { address: 0xa428, clear: 0x0080, set: 0 },
        Op::PhyUpdate { address: 0xa4a2, clear: 0x0200, set: 0 },
        Op::MacUpdate { address: 0xe052, clear: 0x0001, set: 0 },
        Op::PhyUpdate { address: 0xa442, clear: 0x3000, set: 0 },
        Op::PhyUpdate { address: 0xa430, clear: 0x8000, set: 0 },
        Op::Write { register: chip.reg.int_cfg0, width: Width::Byte, value: 0 },
    ]
}

fn push_eee_phy(ops: &mut Vec<Op>, chip: &Chip)
    ensures
        final(ops)@ == old(ops)@ + eee_phy(*chip),
{
    ops.push(Op::PhyUpdate { address: 0xa5d0, clear: 0x0006, set: 0 });
    ops.push(Op::PhyUpdate { address: 0xa6d4, clear: 0x0001, set: 0 });
    ops.push(Op::PhyUpdate { address: 0xa6d8, clear: 0x0010, set: 0 });
    ops.push(Op::PhyUpdate { address: 0xa428, clear: 0x0080, set: 0 });
    ops.push(Op::PhyUpdate { address: 0xa4a2, clear: 0x0200, set: 0 });
    ops.push(Op::MacUpdate { address: 0xe052, clear: 0x0001, set: 0 });
    ops.push(Op::PhyUpdate { address: 0xa442, clear: 0x3000, set: 0 });
    ops.push(Op::PhyUpdate { address: 0xa430, clear: 0x8000, set: 0 });
    ops.push(Op::Write { register: chip.reg.int_cfg0, width: Width::Byte, value: 0 });
    assert(ops@ =~= old(ops)@ + eee_phy(*chip));
}

/// Configure the MAC up to the point where the variants differ; legacy descriptors are
/// selected here.
pub open spec fn mac_setup(chip: Chip) -> Seq<Op> {
    seq![
        Op::Write {
            register: chip.reg.cfg9346,
            width: Width::Byte,
            value: chip.bits.cfg9346_unlock as u64,
        },
        Op::Update {
            register: chip.reg.config3,
            width: Width::Byte,
            clear: chip.bits.config3_rdy_to_l23,
            set: 0,
        },
        Op::Write { register: 0x382, width: Width::Word, value: 0x221b },
        Op::Write { register: 0x4500, width: Width::Byte, value: 0 },
        Op::Write { register: 0x4800, width: Width::Word, value: 0 },
        Op::MacUpdate { address: chip.ocp.ups_ctrl, clear: chip.ocp.ups_bit, set: 0 },
        Op::Update {
            register: chip.reg.config1,
            width: Width::Byte,
            clear: chip.bits.config1_speed_down,
            set: 0,
        },
        Op::Write {
            register: chip.reg.cfg9346,
            width: Width::Byte,
            value: chip.bits.cfg9346_lock as u64,
        },
        Op::MacWrite { address: 0xc140, value: 0xffff },
        Op::MacWrite { address: 0xc142, value: 0xffff },
        Op::MacUpdate { address: 0xd3e2, clear: 0x0fff, set: 0x03a9 },
        Op::MacUpdate { address: 0xd3e4, clear: 0x00ff, set: 0x0000 },
        Op::MacUpdate { address: 0xe860, clear: 0x0000, set: 0x0080 },
        Op::MacUpdate {
            address: chip.ocp.tx_new_desc_format,
            clear: chip.ocp.tx_new_desc_format_bit,
            set: 0,
        },
    ]
}

fn push_mac_setup(ops: &mut Vec<Op>, chip: &Chip)
    ensures
        final(ops)@ == old(ops)@ + mac_setup(*chip),
{
    ops.push(
        Op::Write {
            register: chip.reg.cfg9346,
            width: Width::Byte,
            value: chip.bits.cfg9346_unlock as u64,
        },
    );
    ops.push(
        Op::Update {
            register: chip.reg.config3,
            width: Width::Byte,
            clear: chip.bits.config3_rdy_to_l23,
            set: 0,
        },
    );
    ops.push(Op::Write { register: 0x382, width: Width::Word, value: 0x221b });
    ops.push(Op::Write { register: 0x4500, width: Width::Byte, value: 0 });
    ops.push(Op::Write { register: 0x4800, width: Width::Word, value: 0 });
    ops.push(Op::MacUpdate { address: chip.ocp.ups_ctrl, clear: chip.ocp.ups_bit, set: 0 });
    ops.push(
        Op::Update {
            register: chip.reg.config1,
            width: Width::Byte,
            clear: chip.bits.config1_speed_down,
            set: 0,
        },
    );
    ops.push(
        Op::Write {
            register: chip.reg.cfg9346,
            width: Width::Byte,
            value: chip.bits.cfg9346_lock as u64,
        },
    );
    ops.push(Op::MacWrite { address: 0xc140, value: 0xffff });
    ops.push(Op::MacWrite { address: 0xc142, value: 0xffff });
    ops.push(Op::MacUpdate { address: 0xd3e2, clear: 0x0fff, set: 0x03a9 });
    ops.push(Op::MacUpdate { address: 0xd3e4, clear: 0x00ff, set: 0x0000 });
    ops.push(Op::MacUpdate { address: 0xe860, clear: 0x0000, set: 0x0080 });
    ops.push(
        Op::MacUpdate {
            address: chip.ocp.tx_new_desc_format,
            clear: chip.ocp.tx_new_desc_format_bit,
            set: 0,
        },
    );
    assert(ops@ =~= old(ops)@ + mac_setup(*chip));
}

/// Parameters of the older variant.
pub open spec fn variant_a(chip: Chip) -> Seq<Op> {
    seq![
        Op::MacUpdate { address: 0xe614, clear: 0x0700, set: 0x0300 },
        Op::MacUpdate { address: 0xe63e, clear: 0x0c30, set: 0x0020 },
    ]
}

fn push_variant_a(ops: &mut Vec<Op>, chip: &Chip)
    ensures
        final(ops)@ == old(ops)@ + variant_a(*chip),
{
    ops.push(Op::MacUpdate { address: 0xe614, clear: 0x0700, set: 0x0300 });
    ops.push(Op::MacUpdate { address: 0xe63e, clear: 0x0c30, set: 0x0020 });
    assert(ops@ =~= old(ops)@ + variant_a(*chip));
}

/// Parameters of the newer variant.
pub open spec fn variant_b(chip: Chip) -> Seq<Op> {
    seq![
        Op::MacUpdate { address: 0xe614, clear: 0x0700, set: 0x0200 },
        Op::MacUpdate { address: 0xe63e, clear: 0x0c30, set: 0x0000 },
    ]
}

fn push_variant_b(ops: &mut Vec<Op>, chip: &Chip)
    ensures
        final(ops)@ == old(ops)@ + variant_b(*chip),
{
    ops.push(Op::MacUpdate { address: 0xe614, clear: 0x0700, set: 0x0200 });
    ops.push(Op::MacUpdate { address: 0xe63e, clear: 0x0c30, set: 0x0000 });
    assert(ops@ =~= old(ops)@ + variant_b(*chip));
}

/// Finish the MAC configuration, shake hands and release the receive gate.
pub open spec fn mac_start(chip: Chip) -> Seq<Op> {
    seq![
        Op::MacUpdate { address: 0xc0b4, clear: 0x0000, set: 0x000c },
        Op::MacUpdate { address: 0xeb6a, clear: 0x00ff, set: 0x0033 },
        Op::MacUpdate { address: 0xeb50, clear: 0x03e0, set: 0x0040 },
        Op::MacUpdate { address: 0xe056, clear: 0x00f0, set: 0x0030 },
        Op::MacUpdate { address: 0xe040, clear: 0x1000, set: 0x0000 },
        Op::MacUpdate { address: 0xea1c, clear: 0x0003, set: 0x0001 },
        Op::MacUpdate { address: 0xea1c, clear: 0x0004, set: 0x0000 },
        Op::MacUpdate { address: 0xe0c0, clear: 0x4f0f, set: 0x4403 },
        Op::MacUpdate { address: 0xe052, clear: 0x0080, set: 0x0068 },
        Op::MacUpdate { address: 0xd430, clear: 0x0fff, set: 0x047f },
        Op::MacUpdate { address: 0xeb54, clear: 0x0000, set: 0x0001 },
        Op::Settle { reads: 10 },
        Op::MacUpdate { address: 0xeb54, clear: 0x0001, set: 0x0000 },
        Op::Update { register: 0x1880, width: Width::Word, clear: 0x0030, set: 0 },
        Op::MacWrite { address: chip.ocp.start_handshake.0, value: chip.ocp.start_handshake.1 },
        Op::MacAwait {
            address: chip.ocp.start_handshake_status,
            mask: chip.ocp.start_handshake_busy,
            goal: Goal::Clear,
            limit: QUIESCE_POLL_LIMIT,
            expiry: Expiry::GoOn,
        },
        Op::Update {
            register: chip.reg.rxdv_gate_byte,
            width: Width::Byte,
            clear: chip.bits.rxdv_gate,
            set: 0,
        },
    ]
}

fn push_mac_start(ops: &mut Vec<Op>, chip: &Chip)
    ensures
        final(ops)@ == old(ops)@ + mac_start(*chip),
{
    ops.push(Op::MacUpdate { address: 0xc0b4, clear: 0x0000, set: 0x000c });
    ops.push(Op::MacUpdate { address: 0xeb6a, clear: 0x00ff, set: 0x0033 });
    ops.push(Op::MacUpdate { address: 0xeb50, clear: 0x03e0, set: 0x0040 });
    ops.push(Op::MacUpdate { address: 0xe056, clear: 0x00f0, set: 0x0030 });
    ops.push(Op::MacUpdate { address: 0xe040, clear: 0x1000, set: 0x0000 });
    ops.push(Op::MacUpdate { address: 0xea1c, clear: 0x0003, set: 0x0001 });
    ops.push(Op::MacUpdate { address: 0xea1c, clear: 0x0004, set: 0x0000 });
    ops.push(Op::MacUpdate { address: 0xe0c0, clear: 0x4f0f, set: 0x4403 });
    ops.push(Op::MacUpdate { address: 0xe052, clear: 0x0080, set: 0x0068 });
    ops.push(Op::MacUpdate { address: 0xd430, clear: 0x0fff, set: 0x047f });
    ops.push(Op::MacUpdate { address: 0xeb54, clear: 0x0000, set: 0x0001 });
    ops.push(Op::Settle { reads: 10 });
    ops.push(Op::MacUpdate { address: 0xeb54, clear: 0x0001, set: 0x0000 });
    ops.push(Op::Update { register: 0x1880, width: Width::Word, clear: 0x0030, set: 0 });
    ops.push(
        Op::MacWrite {
            address: chip.ocp.start_handshake.0,
            value: chip.ocp.start_handshake.1,
        },
    );
    ops.push(
        Op::MacAwait {
            address: chip.ocp.start_handshake_status,
            mask: chip.ocp.start_handshake_busy,
            goal: Goal::Clear,
            limit: QUIESCE_POLL_LIMIT,
            expiry: Expiry::GoOn,
        },
    );
    ops.push(
        Op::Update {
            register: chip.reg.rxdv_gate_byte,
            width: Width::Byte,
            clear: chip.bits.rxdv_gate,
            set: 0,
        },
    );
    assert(ops@ =~= old(ops)@ + mac_start(*chip));
}

/// Restart negotiation, accept frames of any size and no multicast, and hand the rings over.
pub open spec fn filter(chip: Chip) -> Seq<Op> {
    seq![
        Op::PhyWrite { address: chip.phy.bmcr, value: chip.phy.bmcr_start_autoneg },
        Op::Write {
            register: chip.reg.rx_max_size,
            width: Width::Word,
            value: chip.bits.rx_max_size_value as u64,
        },
        Op::Write { register: chip.reg.mar0, width: Width::Dword, value: 0 },
        Op::Write { register: (chip.reg.mar0 + 4) as u64, width: Width::Dword, value: 0 },
        Op::PostRings,
    ]
}

fn push_filter(ops: &mut Vec<Op>, chip: &Chip)
    requires
        chip.wf(),
    ensures
        final(ops)@ == old(ops)@ + filter(*chip),
{
    ops.push(Op::PhyWrite { address: chip.phy.bmcr, value: chip.phy.bmcr_start_autoneg });
    ops.push(
        Op::Write {
            register: chip.reg.rx_max_size,
            width: Width::Word,
            value: chip.bits.rx_max_size_value as u64,
        },
    );
    ops.push(Op::Write { register: chip.reg.mar0, width: Width::Dword, value: 0 });
    ops.push(Op::Write { register: (chip.reg.mar0 + 4) as u64, width: Width::Dword, value: 0 });
    ops.push(Op::PostRings);
    assert(ops@ =~= old(ops)@ + filter(*chip));
}

/// Restart negotiation, wait for the link and read the state back.
pub open spec fn outlook(chip: Chip) -> Seq<Op> {
    seq![
        Op::PhyWrite { address: chip.phy.bmcr, value: chip.phy.bmcr_start_autoneg },
        Op::AwaitLink,
        Op::Read { register: chip.reg.rx_config, width: Width::Dword, into: Slot::RxConfig },
        Op::Read { register: chip.reg.rxdv_gate_byte, width: Width::Byte, into: Slot::Rxdv },
        Op::Read { register: chip.reg.intr_status, width: Width::Dword, into: Slot::Isr },
        Op::PhyRead { address: 0xa420, into: Slot::PhyState },
        Op::MacRead { address: 0xe040, into: Slot::Eee },
    ]
}

pub fn push_outlook(ops: &mut Vec<Op>, chip: &Chip)
    ensures
        final(ops)@ == old(ops)@ + outlook(*chip),
{
    ops.push(Op::PhyWrite { address: chip.phy.bmcr, value: chip.phy.bmcr_start_autoneg });
    ops.push(Op::AwaitLink);
    ops.push(Op::Read { register: chip.reg.rx_config, width: Width::Dword, into: Slot::RxConfig });
    ops.push(Op::Read { register: chip.reg.rxdv_gate_byte, width: Width::Byte, into: Slot::Rxdv });
    ops.push(Op::Read { register: chip.reg.intr_status, width: Width::Dword, into: Slot::Isr });
    ops.push(Op::PhyRead { address: 0xa420, into: Slot::PhyState });
    ops.push(Op::MacRead { address: 0xe040, into: Slot::Eee });
    assert(ops@ =~= old(ops)@ + outlook(*chip));
}

/// Enter MAC loopback.
pub open spec fn mac_loopback(chip: Chip) -> Seq<Op> {
    seq![
        Op::Write {
            register: chip.reg.tx_config,
            width: Width::Dword,
            value: (chip.bits.tx_config_value | chip.bits.tx_config_mac_loopback) as u64,
        },
    ]
}

pub fn push_mac_loopback(ops: &mut Vec<Op>, chip: &Chip)
    ensures
        final(ops)@ == old(ops)@ + mac_loopback(*chip),
{
    ops.push(
        Op::Write {
            register: chip.reg.tx_config,
            width: Width::Dword,
            value: (chip.bits.tx_config_value | chip.bits.tx_config_mac_loopback) as u64,
        },
    );
    assert(ops@ =~= old(ops)@ + mac_loopback(*chip));
}

/// Leave MAC loopback.
pub open spec fn leave_mac_loopback(chip: Chip) -> Seq<Op> {
    seq![
        Op::Write {
            register: chip.reg.tx_config,
            width: Width::Dword,
            value: chip.bits.tx_config_value as u64,
        },
    ]
}

pub fn push_leave_mac_loopback(ops: &mut Vec<Op>, chip: &Chip)
    ensures
        final(ops)@ == old(ops)@ + leave_mac_loopback(*chip),
{
    ops.push(
        Op::Write {
            register: chip.reg.tx_config,
            width: Width::Dword,
            value: chip.bits.tx_config_value as u64,
        },
    );
    assert(ops@ =~= old(ops)@ + leave_mac_loopback(*chip));
}

/// Enter PHY loopback.
pub open spec fn phy_loopback(chip: Chip) -> Seq<Op> {
    seq![
        Op::PhyWrite { address: chip.phy.bmcr, value: chip.phy.bmcr_loopback_1000fd },
    ]
}

pub fn push_phy_loopback(ops: &mut Vec<Op>, chip: &Chip)
    ensures
        final(ops)@ == old(ops)@ + phy_loopback(*chip),
{
    ops.push(Op::PhyWrite { address: chip.phy.bmcr, value: chip.phy.bmcr_loopback_1000fd });
    assert(ops@ =~= old(ops)@ + phy_loopback(*chip));
}

/// Let PHY loopback lock.
pub open spec fn phy_loopback_settle(chip: Chip) -> Seq<Op> {
    seq![
        Op::Settle { reads: 100000 },
    ]
}

pub fn push_phy_loopback_settle(ops: &mut Vec<Op>, chip: &Chip)
    ensures
        final(ops)@ == old(ops)@ + phy_loopback_settle(*chip),
{
    ops.push(Op::Settle { reads: 100000 });
    assert(ops@ =~= old(ops)@ + phy_loopback_settle(*chip));
}

/// Read the receive state for a report.
pub open spec fn receive_state(chip: Chip) -> Seq<Op> {
    seq![
        Op::Read { register: chip.reg.intr_status, width: Width::Dword, into: Slot::Isr },
        Op::Read { register: chip.reg.rx_config, width: Width::Dword, into: Slot::RxConfig },
        Op::Read { register: chip.reg.rxdv_gate_byte, width: Width::Byte, into: Slot::Rxdv },
        Op::Read { register: chip.reg.mcu, width: Width::Byte, into: Slot::Mcu },
        Op::Read { register: chip.reg.chip_cmd, width: Width::Byte, into: Slot::ChipCmd },
    ]
}

pub fn push_receive_state(ops: &mut Vec<Op>, chip: &Chip)
    ensures
        final(ops)@ == old(ops)@ + receive_state(*chip),
{
    ops.push(Op::Read { register: chip.reg.intr_status, width: Width::Dword, into: Slot::Isr });
    ops.push(Op::Read { register: chip.reg.rx_config, width: Width::Dword, into: Slot::RxConfig });
    ops.push(Op::Read { register: chip.reg.rxdv_gate_byte, width: Width::Byte, into: Slot::Rxdv });
    ops.push(Op::Read { register: chip.reg.mcu, width: Width::Byte, into: Slot::Mcu });
    ops.push(Op::Read { register: chip.reg.chip_cmd, width: Width::Byte, into: Slot::ChipCmd });
    assert(ops@ =~= old(ops)@ + receive_state(*chip));
}

/// A table replayed into the MAC's space.
pub open spec fn mac_table(table: Seq<(u16, u16)>) -> Seq<Op> {
    Seq::new(table.len(), |i: int| Op::MacWrite { address: table[i].0, value: table[i].1 })
}

/// A table replayed into the PHY's space.
pub open spec fn phy_table(table: Seq<(u16, u16)>) -> Seq<Op> {
    Seq::new(table.len(), |i: int| Op::PhyWrite { address: table[i].0, value: table[i].1 })
}

/// A table replayed into the bus interface's own PHY.
pub open spec fn ephy_table(table: Seq<(u16, u16)>) -> Seq<Op> {
    Seq::new(table.len(), |i: int| Op::EphyWrite { register: table[i].0, value: table[i].1 })
}

/// The interrupt mitigation block, from `base` up to `end`, zeroed.
pub open spec fn mitigation(base: u64, end: u64) -> Seq<Op> {
    Seq::new(
        if base < end {
            ((end - base + 3) / 4) as nat
        } else {
            0
        },
        |i: int|
            Op::Write { register: (base + 4 * i) as u64, width: Width::Dword, value: 0 },
    )
}

/// A ring base, the high half before the low one.
pub open spec fn ring_base(low_register: u64, address: u64) -> Seq<Op> {
    seq![
        Op::Write {
            register: (low_register + 4) as u64,
            width: Width::Dword,
            value: (address / 0x1_0000_0000) as u64,
        },
        Op::Write {
            register: low_register,
            width: Width::Dword,
            value: (address % 0x1_0000_0000) as u64,
        },
    ]
}

/// Where the receive ring lies behind the transmit ring.
pub const RX_RING_BASE: u64 = 2048;

/// The receive configuration of a variant, before anything is accepted.
pub open spec fn rx_base(chip: Chip, older: bool) -> u32 {
    if older {
        chip.bits.rx_config_8125a
    } else {
        chip.bits.rx_config_8125b
    }
}

/// Turn the receiver and the transmitter on, then configure them, then accept frames.
pub open spec fn enable(chip: Chip, older: bool) -> Seq<Op> {
    let base = rx_base(chip, older);
    seq![
        Op::BusMaster,
        Op::Write {
            register: chip.reg.chip_cmd,
            width: Width::Byte,
            value: (chip.bits.cmd_rx_enable | chip.bits.cmd_tx_enable) as u64,
        },
        Op::Write { register: chip.reg.rx_config, width: Width::Dword, value: base as u64 },
        Op::Write {
            register: chip.reg.tx_config,
            width: Width::Dword,
            value: chip.bits.tx_config_value as u64,
        },
        Op::Write {
            register: chip.reg.rx_config,
            width: Width::Dword,
            value: (base | chip.bits.rx_accept_broadcast | chip.bits.rx_accept_my_phys) as u64,
        },
    ]
}

/// What negotiation advertises, capped at `advertise_max`.
pub open spec fn advertisement(chip: Chip, advertise_max: u16) -> Seq<Op> {
    let gigabits = if advertise_max >= 2500 {
        seq![Op::PhyUpdate {
            address: chip.phy.adv_2500,
            clear: 0,
            set: chip.phy.adv_2500_full,
        }]
    } else {
        seq![]
    };
    let megabits = seq![Op::PhyWrite {
        address: chip.phy.anar,
        value: chip.phy.anar_advertise_10_100,
    }];
    let gigabit = if advertise_max >= 1000 {
        seq![Op::PhyWrite {
            address: chip.phy.gbcr,
            value: chip.phy.gbcr_advertise_1000_full,
        }]
    } else {
        seq![]
    };
    gigabits + megabits + gigabit
}

/// Everything up to the PHY's microcode version: the chip is taken over, its MAC
/// microcontroller patched, the PHY powered and reset.
pub open spec fn takeover(chip: Chip, tables: Tables, older: bool) -> Seq<Op> {
    let none = Seq::<Op>::empty();
    quiesce(chip) + (if older {
        none
    } else {
        halt(chip) + mac_table(tables.mac_mcu@)
    }) + power(chip) + (if older {
        none
    } else {
        ephy_table(tables.ephy@)
    }) + phy_reset(chip)
}

/// The load of the PHY's microcode.
pub open spec fn patch(chip: Chip, tables: Tables) -> Seq<Op> {
    enter_patch(chip) + phy_table(tables.phy_mcu@) + leave_patch(chip)
}

/// What one bring-up is to configure.
#[derive(Clone, Copy, Debug)]
pub struct Wish {
    /// Whether the chip is of the older variant.
    pub older: bool,
    /// The microcode version that the PHY came with.
    pub ram_code: u16,
    /// The highest speed to advertise.
    pub advertise_max: u16,
    /// The address of the ring page, as the device sees it.
    pub rings: u64,
}

/// Everything after the PHY's microcode version was read, up to a running chip. The
/// microcode is loaded where the newer variant does not carry it.
pub open spec fn configuration(chip: Chip, tables: Tables, wish: Wish) -> Seq<Op> {
    let none = Seq::<Op>::empty();
    let load = if !wish.older && wish.ram_code != PHY_MCU_VERSION {
        patch(chip, tables)
    } else {
        none
    };
    let tune = if wish.older {
        none
    } else {
        tuning(chip) + equalizer(chip)
    };
    let eee = eee_mac(chip) + (if wish.older {
        none
    } else {
        seq![Op::PhyUpdate { address: 0xa432, clear: 0x0000, set: 0x0010 }]
    }) + eee_phy(chip);
    let quiet = if wish.older {
        mitigation(chip.reg.int_miti_base, chip.reg.int_miti_end_8125a)
    } else {
        mitigation(chip.reg.int_miti_base, chip.reg.int_miti_end_8125b) + seq![
            Op::Write { register: chip.reg.int_cfg1, width: Width::Word, value: 0 },
        ]
    };
    let mac = mac_setup(chip) + (if wish.older {
        variant_a(chip)
    } else {
        variant_b(chip)
    }) + mac_start(chip);
    let rings = ring_base(chip.reg.tx_desc_addr_low, wish.rings) + ring_base(
        chip.reg.rx_desc_addr_low,
        (wish.rings + RX_RING_BASE) as u64,
    );
    load + tune + eee + quiet + mac + advertisement(chip, wish.advertise_max) + filter(chip)
        + rings + enable(chip, wish.older)
}

/// The dump of the counters to an address.
pub open spec fn counter_dump(chip: Chip, address: u64) -> Seq<Op> {
    let low = (address % 0x1_0000_0000) as u32;
    seq![
        Op::Write {
            register: chip.reg.counter_addr_high,
            width: Width::Dword,
            value: (address / 0x1_0000_0000) as u64,
        },
        Op::Write {
            register: chip.reg.counter_addr_low,
            width: Width::Dword,
            value: low as u64,
        },
        Op::Write {
            register: chip.reg.counter_addr_low,
            width: Width::Dword,
            value: (low | chip.bits.counter_dump) as u64,
        },
        Op::Await {
            register: chip.reg.counter_addr_low,
            width: Width::Dword,
            mask: chip.bits.counter_dump | chip.bits.counter_reset,
            goal: Goal::Clear,
            limit: QUIESCE_POLL_LIMIT,
            expiry: Expiry::GoOn,
        },
    ]
}

fn push_mac_table(ops: &mut Vec<Op>, table: &[(u16, u16)])
    ensures
        final(ops)@ == old(ops)@ + mac_table(table@),
{
    let mut at: usize = 0;
    while at < table.len()
        invariant
            at <= table.len(),
            ops@ == old(ops)@ + mac_table(table@).take(at as int),
        decreases table.len() - at,
    {
        ops.push(Op::MacWrite { address: table[at].0, value: table[at].1 });
        at = at + 1;
        assert(ops@ =~= old(ops)@ + mac_table(table@).take(at as int));
    }
    assert(mac_table(table@).take(at as int) =~= mac_table(table@));
}

fn push_phy_table(ops: &mut Vec<Op>, table: &[(u16, u16)])
    ensures
        final(ops)@ == old(ops)@ + phy_table(table@),
{
    let mut at: usize = 0;
    while at < table.len()
        invariant
            at <= table.len(),
            ops@ == old(ops)@ + phy_table(table@).take(at as int),
        decreases table.len() - at,
    {
        ops.push(Op::PhyWrite { address: table[at].0, value: table[at].1 });
        at = at + 1;
        assert(ops@ =~= old(ops)@ + phy_table(table@).take(at as int));
    }
    assert(phy_table(table@).take(at as int) =~= phy_table(table@));
}

fn push_ephy_table(ops: &mut Vec<Op>, table: &[(u16, u16)])
    ensures
        final(ops)@ == old(ops)@ + ephy_table(table@),
{
    let mut at: usize = 0;
    while at < table.len()
        invariant
            at <= table.len(),
            ops@ == old(ops)@ + ephy_table(table@).take(at as int),
        decreases table.len() - at,
    {
        ops.push(Op::EphyWrite { register: table[at].0, value: table[at].1 });
        at = at + 1;
        assert(ops@ =~= old(ops)@ + ephy_table(table@).take(at as int));
    }
    assert(ephy_table(table@).take(at as int) =~= ephy_table(table@));
}

fn push_mitigation(ops: &mut Vec<Op>, base: u64, end: u64)
    requires
        end <= 0xffff_ffff,
    ensures
        final(ops)@ == old(ops)@ + mitigation(base, end),
{
    let mut register: u64 = base;
    let ghost mut count: int = 0;
    let ghost all = mitigation(base, end);
    assert(ops@ =~= old(ops)@ + all.take(0));
    while register < end
        invariant
            end <= 0xffff_ffff,
            all == mitigation(base, end),
            0 <= count <= all.len(),
            register == base + 4 * count,
            base < end ==> register < end + 4,
            base >= end ==> register == base,
            ops@ == old(ops)@ + all.take(count),
        decreases end + 4 - register,
    {
        ops.push(Op::Write { register, width: Width::Dword, value: 0 });
        proof {
            assert(count < all.len());
            count = count + 1;
            assert(ops@ =~= old(ops)@ + all.take(count));
        }
        register = register + 4;
    }
    assert(count == all.len());
    assert(all.take(count) =~= all);
}

fn push_ring_base(ops: &mut Vec<Op>, low_register: u64, address: u64)
    requires
        low_register <= 0xffff_ffff,
    ensures
        final(ops)@ == old(ops)@ + ring_base(low_register, address),
{
    ops.push(
        Op::Write {
            register: low_register + 4,
            width: Width::Dword,
            value: address / 0x1_0000_0000,
        },
    );
    ops.push(
        Op::Write { register: low_register, width: Width::Dword, value: address % 0x1_0000_0000 },
    );
    assert(ops@ =~= old(ops)@ + ring_base(low_register, address));
}

fn push_enable(ops: &mut Vec<Op>, chip: &Chip, older: bool)
    ensures
        final(ops)@ == old(ops)@ + enable(*chip, older),
{
    let base: u32 = if older {
        chip.bits.rx_config_8125a
    } else {
        chip.bits.rx_config_8125b
    };
    ops.push(Op::BusMaster);
    ops.push(
        Op::Write {
            register: chip.reg.chip_cmd,
            width: Width::Byte,
            value: (chip.bits.cmd_rx_enable | chip.bits.cmd_tx_enable) as u64,
        },
    );
    ops.push(
        Op::Write { register: chip.reg.rx_config, width: Width::Dword, value: base as u64 },
    );
    ops.push(
        Op::Write {
            register: chip.reg.tx_config,
            width: Width::Dword,
            value: chip.bits.tx_config_value as u64,
        },
    );
    ops.push(
        Op::Write {
            register: chip.reg.rx_config,
            width: Width::Dword,
            value: (base | chip.bits.rx_accept_broadcast | chip.bits.rx_accept_my_phys) as u64,
        },
    );
    assert(ops@ =~= old(ops)@ + enable(*chip, older));
}

fn push_advertisement(ops: &mut Vec<Op>, chip: &Chip, advertise_max: u16)
    ensures
        final(ops)@ == old(ops)@ + advertisement(*chip, advertise_max),
{
    if advertise_max >= 2500 {
        ops.push(
            Op::PhyUpdate { address: chip.phy.adv_2500, clear: 0, set: chip.phy.adv_2500_full },
        );
    }
    ops.push(
        Op::PhyWrite { address: chip.phy.anar, value: chip.phy.anar_advertise_10_100 },
    );
    if advertise_max >= 1000 {
        ops.push(
            Op::PhyWrite { address: chip.phy.gbcr, value: chip.phy.gbcr_advertise_1000_full },
        );
    }
    assert(ops@ =~= old(ops)@ + advertisement(*chip, advertise_max));
}

/// The program [`takeover`].
pub fn takeover_program(chip: &Chip, tables: &Tables, older: bool) -> (ops: Vec<Op>)
    ensures
        ops@ == takeover(*chip, *tables, older),
{
    let mut ops: Vec<Op> = Vec::new();
    push_quiesce(&mut ops, chip);
    if !older {
        push_halt(&mut ops, chip);
        push_mac_table(&mut ops, &tables.mac_mcu);
    }
    push_power(&mut ops, chip);
    if !older {
        push_ephy_table(&mut ops, &tables.ephy);
    }
    push_phy_reset(&mut ops, chip);
    assert(ops@ =~= takeover(*chip, *tables, older));
    ops
}

/// The program [`configuration`].
pub fn configuration_program(chip: &Chip, tables: &Tables, wish: &Wish) -> (ops: Vec<Op>)
    requires
        chip.wf(),
        wish.rings + RX_RING_BASE <= u64::MAX,
    ensures
        ops@ == configuration(*chip, *tables, *wish),
{
    let mut ops: Vec<Op> = Vec::new();
    if !wish.older && wish.ram_code != PHY_MCU_VERSION {
        push_enter_patch(&mut ops, chip);
        push_phy_table(&mut ops, &tables.phy_mcu);
        push_leave_patch(&mut ops, chip);
    }
    if !wish.older {
        push_tuning(&mut ops, chip);
        push_equalizer(&mut ops, chip);
    }
    push_eee_mac(&mut ops, chip);
    if !wish.older {
        ops.push(Op::PhyUpdate { address: 0xa432, clear: 0x0000, set: 0x0010 });
    }
    push_eee_phy(&mut ops, chip);
    if wish.older {
        push_mitigation(&mut ops, chip.reg.int_miti_base, chip.reg.int_miti_end_8125a);
    } else {
        push_mitigation(&mut ops, chip.reg.int_miti_base, chip.reg.int_miti_end_8125b);
        ops.push(Op::Write { register: chip.reg.int_cfg1, width: Width::Word, value: 0 });
    }
    push_mac_setup(&mut ops, chip);
    if wish.older {
        push_variant_a(&mut ops, chip);
    } else {
        push_variant_b(&mut ops, chip);
    }
    push_mac_start(&mut ops, chip);
    push_advertisement(&mut ops, chip, wish.advertise_max);
    push_filter(&mut ops, chip);
    push_ring_base(&mut ops, chip.reg.tx_desc_addr_low, wish.rings);
    push_ring_base(&mut ops, chip.reg.rx_desc_addr_low, wish.rings + RX_RING_BASE);
    push_enable(&mut ops, chip, wish.older);
    assert(ops@ =~= configuration(*chip, *tables, *wish));
    ops
}

/// The program [`counter_dump`].
pub fn counter_dump_program(chip: &Chip, address: u64) -> (ops: Vec<Op>)
    ensures
        ops@ == counter_dump(*chip, address),
{
    let low: u32 = (address % 0x1_0000_0000) as u32;
    let mut ops: Vec<Op> = Vec::new();
    ops.push(
        Op::Write {
            register: chip.reg.counter_addr_high,
            width: Width::Dword,
            value: address / 0x1_0000_0000,
        },
    );
    ops.push(
        Op::Write { register: chip.reg.counter_addr_low, width: Width::Dword, value: low as u64 },
    );
    ops.push(
        Op::Write {
            register: chip.reg.counter_addr_low,
            width: Width::Dword,
            value: (low | chip.bits.counter_dump) as u64,
        },
    );
    ops.push(
        Op::Await {
            register: chip.reg.counter_addr_low,
            width: Width::Dword,
            mask: chip.bits.counter_dump | chip.bits.counter_reset,
            goal: Goal::Clear,
            limit: QUIESCE_POLL_LIMIT,
            expiry: Expiry::GoOn,
        },
    );
    assert(ops@ =~= counter_dump(*chip, address));
    ops
}

/// The chip is enabled last: the receiver and the transmitter are turned on only after
/// the rings were handed over and placed, and only behind bus mastering.
pub proof fn law_enabled_last(chip: Chip, tables: Tables, wish: Wish, at: int)
    requires
        0 <= at < configuration(chip, tables, wish).len(),
        configuration(chip, tables, wish)[at] == Op::PostRings,
    ensures
        ({
            let ops = configuration(chip, tables, wish);
            let tail = enable(chip, wish.older);
            &&& ops.subrange(ops.len() - tail.len(), ops.len() as int) == tail
            &&& tail[0] == Op::BusMaster
            &&& at < ops.len() - tail.len()
        }),
{
    let ops = configuration(chip, tables, wish);
    let tail = enable(chip, wish.older);
    assert(ops.subrange(ops.len() - tail.len(), ops.len() as int) =~= tail);
    assert(forall|i: int| 0 <= i < tail.len() ==> #[trigger] tail[i] != Op::PostRings);
    if at >= ops.len() - tail.len() {
        assert(ops[at] == tail[at - (ops.len() - tail.len())]);
    }
}

/// A capped speed is not advertised: below 2500 the 2.5 gigabit bit stays as the reset
/// left it, below 1000 the gigabit bit too.
pub proof fn law_advertisement_capped(chip: Chip, advertise_max: u16, at: int)
    requires
        0 <= at < advertisement(chip, advertise_max).len(),
    ensures
        advertisement(chip, advertise_max)[at] is PhyUpdate ==> advertise_max >= 2500,
        advertisement(chip, advertise_max)[at] == (Op::PhyWrite {
            address: chip.phy.gbcr,
            value: chip.phy.gbcr_advertise_1000_full,
        }) && chip.phy.gbcr != chip.phy.anar ==> advertise_max >= 1000,
{
}


/// Identifying the chip reads the six bytes of its address, each into its own place, and its
/// variant, and writes nothing.
pub proof fn law_identity_reads_every_byte(chip: Chip, i: int)
    requires
        chip.wf(),
        0 <= i < 6,
    ensures
        identity(chip).len() == 7,
        identity(chip)[i] == (Op::Read {
            register: (chip.reg.mac0 + i) as u64,
            width: Width::Byte,
            into: Slot::Mac(i as u64),
        }),
        identity(chip)[6] == (Op::Read {
            register: chip.reg.tx_config,
            width: Width::Dword,
            into: Slot::TxConfig,
        }),
{
}

/// Whether two operations write an address into a pair of registers, the high half first.
pub open spec fn places(high: Op, low: Op, low_register: u64, address: int) -> bool {
    &&& high matches Op::Write { register: r1, width: w1, value: v1 } && {
        &&& low matches Op::Write { register: r0, width: w0, value: v0 } && {
            &&& r1 == low_register + 4 && r0 == low_register
            &&& w1 == Width::Dword && w0 == Width::Dword
            &&& v0 < 0x1_0000_0000 && v1 < 0x1_0000_0000
            &&& v1 * 0x1_0000_0000 + v0 == address
        }
    }
}

/// The rings are placed just before the chip is enabled: the transmit ring at the ring page,
/// the receive ring 2048 bytes behind it, both addresses whole.
pub proof fn law_rings_are_placed(chip: Chip, tables: Tables, wish: Wish)
    requires
        chip.wf(),
        wish.rings + 2048 <= u64::MAX,
    ensures
        ({
            let ops = configuration(chip, tables, wish);
            let end = ops.len() - enable(chip, wish.older).len();
            &&& end >= 5
            &&& ops[end - 5] == Op::PostRings
            &&& places(
                ops[end - 4],
                ops[end - 3],
                chip.reg.tx_desc_addr_low,
                wish.rings as int,
            )
            &&& places(
                ops[end - 2],
                ops[end - 1],
                chip.reg.rx_desc_addr_low,
                wish.rings + 2048,
            )
        }),
{
    let ops = configuration(chip, tables, wish);
    let tail = enable(chip, wish.older);
    let end = ops.len() - tail.len();
    let tx = ring_base(chip.reg.tx_desc_addr_low, wish.rings);
    let rx = ring_base(chip.reg.rx_desc_addr_low, (wish.rings + RX_RING_BASE) as u64);
    assert(ops[end - 5] == filter(chip)[4]);
    assert(ops[end - 4] == tx[0] && ops[end - 3] == tx[1]);
    assert(ops[end - 2] == rx[0] && ops[end - 1] == rx[1]);
    let r: int = wish.rings as int;
    assert((r / 0x1_0000_0000) * 0x1_0000_0000 + r % 0x1_0000_0000 == r);
    let q: int = wish.rings + 2048;
    assert((q / 0x1_0000_0000) * 0x1_0000_0000 + q % 0x1_0000_0000 == q);
}

/// The chip is enabled in both directions, and the last thing written makes it accept frames
/// to its own address and broadcasts, over the configuration of its variant.
pub proof fn law_enabled_in_both_directions(chip: Chip, older: bool)
    ensures
        ({
            let ops = enable(chip, older);
            &&& ops.len() == 5 && ops[0] == Op::BusMaster
            &&& ops[1] matches Op::Write { register, width, value } && {
                &&& register == chip.reg.chip_cmd && width == Width::Byte
                &&& (value as u32) & chip.bits.cmd_rx_enable == chip.bits.cmd_rx_enable
                &&& (value as u32) & chip.bits.cmd_tx_enable == chip.bits.cmd_tx_enable
            }
            &&& ops[4] matches Op::Write { register, width, value } && {
                let base = if older {
                    chip.bits.rx_config_8125a
                } else {
                    chip.bits.rx_config_8125b
                };
                let accept = chip.bits.rx_accept_broadcast | chip.bits.rx_accept_my_phys;
                &&& register == chip.reg.rx_config && width == Width::Dword
                &&& (value as u32) & accept == accept
                &&& (value as u32) & !accept == base & !accept
                &&& ops[2] == (Op::Write { register, width, value: base as u64 })
            }
            &&& ops[3] == leave_mac_loopback(chip)[0]
        }),
{
    let rx = chip.bits.cmd_rx_enable;
    let tx = chip.bits.cmd_tx_enable;
    assert((rx | tx) & rx == rx && (rx | tx) & tx == tx) by (bit_vector);
    let base = rx_base(chip, older);
    let a = chip.bits.rx_accept_broadcast;
    let b = chip.bits.rx_accept_my_phys;
    assert((base | a | b) & (a | b) == a | b && (base | a | b) & !(a | b) == base & !(a | b))
        by (bit_vector);
}

/// The loopback mode of the MAC is one bit of the transmit configuration: entering sets it,
/// leaving writes the configuration that the chip runs with.
pub proof fn law_mac_loopback_is_one_bit(chip: Chip, older: bool)
    requires
        chip.bits.tx_config_value & chip.bits.tx_config_mac_loopback == 0,
    ensures
        mac_loopback(chip).len() == 1 && leave_mac_loopback(chip).len() == 1,
        leave_mac_loopback(chip)[0] == enable(chip, older)[3],
        mac_loopback(chip)[0] matches Op::Write { register, width, value } && {
            let bit = chip.bits.tx_config_mac_loopback;
            &&& (value as u32) & bit == bit
            &&& leave_mac_loopback(chip)[0] == (Op::Write {
                register,
                width,
                value: ((value as u32) & !bit) as u64,
            })
        },
{
    let base = chip.bits.tx_config_value;
    let bit = chip.bits.tx_config_mac_loopback;
    assert((base | bit) & bit == bit && (base | bit) & !bit == base) by (bit_vector)
        requires
            base & bit == 0,
    ;
}

/// The PHY's loopback mode is left by the negotiation that the outlook begins with: both write
/// the same register.
pub proof fn law_phy_loopback_is_left_by_negotiation(chip: Chip)
    ensures
        phy_loopback(chip) == seq![
            Op::PhyWrite { address: chip.phy.bmcr, value: chip.phy.bmcr_loopback_1000fd },
        ],
        outlook(chip)[0] == (Op::PhyWrite {
            address: chip.phy.bmcr,
            value: chip.phy.bmcr_start_autoneg,
        }),
        outlook(chip)[1] == Op::AwaitLink,
        forall|i: int| 2 <= i < outlook(chip).len() ==> {
            ||| #[trigger] outlook(chip)[i] is Read
            ||| outlook(chip)[i] is PhyRead
            ||| outlook(chip)[i] is MacRead
        },
        forall|i: int| 0 <= i < receive_state(chip).len() ==> #[trigger] receive_state(
            chip,
        )[i] is Read,
{
}

/// The microcode of the PHY is loaded where the newer variant does not carry it, in front of
/// everything else, and makes no other difference; the older variant never gets it.
pub proof fn law_microcode_is_loaded_where_missing(chip: Chip, tables: Tables, wish: Wish)
    ensures
        ({
            let ops = configuration(chip, tables, wish);
            let current = configuration(chip, tables, Wish { ram_code: 0x0b99, ..wish });
            &&& wish.older ==> ops == current
            &&& !wish.older && wish.ram_code == 0x0b99 ==> ops == current
            &&& !wish.older && wish.ram_code != 0x0b99 ==> ops == patch(chip, tables) + current
        }),
        ({
            let ops = patch(chip, tables);
            let table = tables.phy_mcu@;
            &&& ops.len() == table.len() + 6
            &&& forall|i: int|
                0 <= i < table.len() ==> #[trigger] ops[i + 2] == (Op::PhyWrite {
                    address: table[i].0,
                    value: table[i].1,
                })
            &&& ops.last() == (Op::PhyWrite { address: 0xa438, value: 0x0b99 })
        }),
{
    let current = configuration(chip, tables, Wish { ram_code: 0x0b99, ..wish });
    let ops = configuration(chip, tables, wish);
    let none = Seq::<Op>::empty();
    if !wish.older && wish.ram_code != PHY_MCU_VERSION {
        assert(ops =~= patch(chip, tables) + current);
    } else {
        assert(ops =~= current);
    }
    let whole = patch(chip, tables);
    let table = tables.phy_mcu@;
    assert forall|i: int| 0 <= i < table.len() implies #[trigger] whole[i + 2] == (Op::PhyWrite {
        address: table[i].0,
        value: table[i].1,
    }) by {
        assert(whole[i + 2] == phy_table(table)[i]);
    }
    assert(whole.last() == leave_patch(chip).last());
}

/// Patch mode is entered and left by one bit, and each waits for the same acknowledgement, set
/// and clear.
pub proof fn law_patch_mode_is_left_again(chip: Chip)
    ensures
        enter_patch(chip)[0] matches Op::PhyUpdate { address, clear, set } && {
            &&& clear == 0
            &&& leave_patch(chip)[0] == (Op::PhyUpdate { address, clear: set, set: 0 })
        },
        enter_patch(chip)[1] matches Op::PhyAwait { address, mask, goal, limit, expiry } && {
            &&& goal == Goal::Any && expiry == Expiry::EnterPatch
            &&& leave_patch(chip)[1] == (Op::PhyAwait {
                address,
                mask,
                goal: Goal::Clear,
                limit,
                expiry: Expiry::LeavePatch,
            })
        },
        enter_patch(chip).len() == 2,
{
}

/// Taking the newer variant over replays both its tables, every entry in its turn: the MAC's
/// behind the halt of its microcontroller, the bus interface's behind the power-up. The older
/// variant gets neither, and everything else is the same.
pub proof fn law_tables_are_replayed(chip: Chip, tables: Tables)
    ensures
        ({
            let ops = takeover(chip, tables, false);
            let older = takeover(chip, tables, true);
            let mac = tables.mac_mcu@;
            let ephy = tables.ephy@;
            let front = quiesce(chip).len() as int;
            let halted = front + halt(chip).len();
            let powered = halted + mac.len() + power(chip).len();
            &&& older == quiesce(chip) + power(chip) + phy_reset(chip)
            &&& ops.len() == older.len() + halt(chip).len() + mac.len() + ephy.len()
            &&& ops.subrange(0, front) == older.subrange(0, front)
            &&& ops.subrange(front, halted) == halt(chip)
            &&& forall|i: int|
                0 <= i < mac.len() ==> #[trigger] ops[halted + i] == (Op::MacWrite {
                    address: mac[i].0,
                    value: mac[i].1,
                })
            &&& forall|i: int|
                0 <= i < ephy.len() ==> #[trigger] ops[powered + i] == (Op::EphyWrite {
                    register: ephy[i].0,
                    value: ephy[i].1,
                })
            &&& ops.subrange(powered + ephy.len(), ops.len() as int) == phy_reset(chip)
        }),
{
    let ops = takeover(chip, tables, false);
    let older = takeover(chip, tables, true);
    let mac = tables.mac_mcu@;
    let ephy = tables.ephy@;
    let front = quiesce(chip).len() as int;
    let halted = front + halt(chip).len();
    let powered = halted + mac.len() + power(chip).len();
    assert(older =~= quiesce(chip) + power(chip) + phy_reset(chip));
    assert(ops.subrange(0, front) =~= older.subrange(0, front));
    assert(ops.subrange(front, halted) =~= halt(chip));
    assert forall|i: int| 0 <= i < mac.len() implies #[trigger] ops[halted + i] == (Op::MacWrite {
        address: mac[i].0,
        value: mac[i].1,
    }) by {
        assert(ops[halted + i] == mac_table(mac)[i]);
    }
    assert forall|i: int| 0 <= i < ephy.len() implies #[trigger] ops[powered + i] == (
    Op::EphyWrite { register: ephy[i].0, value: ephy[i].1 }) by {
        assert(ops[powered + i] == ephy_table(ephy)[i]);
    }
    assert(ops.subrange(powered + ephy.len(), ops.len() as int) =~= phy_reset(chip));
}

/// Every reset that is begun is waited for, and a chip that stays in reset fails the program.
pub proof fn law_resets_are_waited_for(chip: Chip, i: int)
    requires
        chip.bits.cmd_reset != 0,
    ensures
        ({
            let begin = Op::Write {
                register: chip.reg.chip_cmd,
                width: Width::Byte,
                value: chip.bits.cmd_reset as u64,
            };
            let end = Op::Await {
                register: chip.reg.chip_cmd,
                width: Width::Byte,
                mask: chip.bits.cmd_reset,
                goal: Goal::Clear,
                limit: 100_000,
                expiry: Expiry::SoftReset,
            };
            &&& quiesce(chip).contains(begin) && power(chip).contains(begin)
            &&& 0 <= i < quiesce(chip).len() && quiesce(chip)[i] == begin ==> i + 1 < quiesce(
                chip,
            ).len() && quiesce(chip)[i + 1] == end
            &&& 0 <= i < power(chip).len() && power(chip)[i] == begin ==> i + 1 < power(chip).len()
                && power(chip)[i + 1] == end
        }),
        0 <= i < phy_reset(chip).len() && phy_reset(chip)[i] == (Op::PhyWrite {
            address: chip.phy.bmcr,
            value: 0x9200,
        }) ==> i + 1 < phy_reset(chip).len() && phy_reset(chip)[i + 1] == (Op::PhyAwait {
            address: chip.phy.bmcr,
            mask: 0x8000,
            goal: Goal::Clear,
            limit: 200_000,
            expiry: Expiry::PhyReset,
        }),
{
    let begin = Op::Write {
        register: chip.reg.chip_cmd,
        width: Width::Byte,
        value: chip.bits.cmd_reset as u64,
    };
    assert(quiesce(chip)[8] == begin);
    assert(power(chip)[5] == begin);
}

/// Whatever quiescing the chip shuts, starting it opens again: the receive gate is closed by a
/// bit of its register and released by the same bit.
pub proof fn law_receive_gate_is_released(chip: Chip)
    ensures
        quiesce(chip)[2] matches Op::Update { register, width, clear, set } && {
            &&& register == chip.reg.rxdv_gate_byte && clear == 0 && set == chip.bits.rxdv_gate
            &&& mac_start(chip).last() == (Op::Update { register, width, clear: set, set: 0 })
        },
{
}

/// The configuration registers are unlocked before they are changed and locked afterwards.
pub proof fn law_configuration_is_locked_again(chip: Chip)
    requires
        chip.bits.cfg9346_unlock != chip.bits.cfg9346_lock,
    ensures
        ({
            let ops = mac_setup(chip);
            &&& ops[0] matches Op::Write { register, width, value } && {
                &&& register == chip.reg.cfg9346 && value == chip.bits.cfg9346_unlock
                &&& ops[7] == (Op::Write { register, width, value: chip.bits.cfg9346_lock as u64 })
            }
            &&& ops[1] matches Op::Update { register, clear, set, .. } && register
                == chip.reg.config3 && clear == chip.bits.config3_rdy_to_l23 && set == 0
            &&& ops[6] matches Op::Update { register, clear, set, .. } && register
                == chip.reg.config1 && clear == chip.bits.config1_speed_down && set == 0
        }),
{
}

/// Halting the MAC microcontroller disables every breakpoint that its patch may use: each even
/// address from 0xfc28 to 0xfc48 is zeroed, and the base address behind them.
pub proof fn law_halt_clears_every_breakpoint(chip: Chip, address: u16)
    requires
        0xfc26 <= address <= 0xfc48,
        address % 2 == 0,
    ensures
        halt(chip).contains(Op::MacWrite { address, value: 0 }),
{
    let ops = halt(chip);
    let at: int = if address == 0xfc26 {
        19
    } else if address == 0xfc48 {
        1
    } else {
        2 + (address - 0xfc28) / 2
    };
    assert(ops[at] == (Op::MacWrite { address, value: 0 }));
}

/// The equalizer's ten taps lie six apart and all get the same value, each through the
/// parameter window: first where, then what.
pub proof fn law_equalizer_taps_are_alike(chip: Chip, tap: int)
    requires
        0 <= tap < 10,
    ensures
        equalizer(chip)[2 * tap] == (Op::PhyWrite {
            address: 0xa436,
            value: (0x8044 + 6 * tap) as u16,
        }),
        equalizer(chip)[2 * tap + 1] == (Op::PhyWrite { address: 0xa438, value: 0x2417 }),
{
}

/// Turning low-power idle off only clears bits.
pub proof fn law_low_power_idle_is_only_cleared(chip: Chip, i: int)
    ensures
        0 <= i < eee_mac(chip).len() ==> match eee_mac(chip)[i] {
            Op::PhyUpdate { set, clear, .. } => set == 0 && clear != 0,
            Op::MacUpdate { set, clear, .. } => set == 0 && clear != 0,
            _ => false,
        },
        0 <= i < eee_phy(chip).len() ==> match eee_phy(chip)[i] {
            Op::PhyUpdate { set, clear, .. } => set == 0 && clear != 0,
            Op::MacUpdate { set, clear, .. } => set == 0 && clear != 0,
            Op::Write { register, value, .. } => register == chip.reg.int_cfg0 && value == 0,
            _ => false,
        },
{
}

/// Every register of the interrupt mitigation block is zeroed, and none outside it.
pub proof fn law_mitigation_is_zeroed(base: u64, end: u64, register: u64, i: int)
    requires
        end <= 0xffff_ffff,
    ensures
        base <= register < end && (register - base) % 4 == 0 ==> mitigation(base, end).contains(
            Op::Write { register, width: Width::Dword, value: 0 },
        ),
        0 <= i < mitigation(base, end).len() ==> {
            &&& mitigation(base, end)[i] matches Op::Write { register: r, width, value } && base
                <= r < end && width == Width::Dword && value == 0
        },
{
    let ops = mitigation(base, end);
    if base <= register < end && (register - base) % 4 == 0 {
        let at = (register - base) / 4;
        assert(0 <= at < ops.len());
        assert(ops[at] == (Op::Write { register, width: Width::Dword, value: 0 }));
    }
}

/// Every speed up to the cap is advertised.
pub proof fn law_advertised_up_to_the_cap(chip: Chip, advertise_max: u16)
    ensures
        ({
            let ops = advertisement(chip, advertise_max);
            &&& ops.contains(
                Op::PhyWrite { address: chip.phy.anar, value: chip.phy.anar_advertise_10_100 },
            )
            &&& advertise_max >= 1000 ==> ops.contains(
                Op::PhyWrite { address: chip.phy.gbcr, value: chip.phy.gbcr_advertise_1000_full },
            )
            &&& advertise_max >= 2500 ==> ops.contains(
                Op::PhyUpdate {
                    address: chip.phy.adv_2500,
                    clear: 0,
                    set: chip.phy.adv_2500_full,
                },
            )
        }),
{
    let ops = advertisement(chip, advertise_max);
    if advertise_max >= 2500 {
        assert(ops[0] is PhyUpdate);
        assert(ops[1] == (Op::PhyWrite {
            address: chip.phy.anar,
            value: chip.phy.anar_advertise_10_100,
        }));
        assert(ops[2] == (Op::PhyWrite {
            address: chip.phy.gbcr,
            value: chip.phy.gbcr_advertise_1000_full,
        }));
    } else {
        assert(ops[0] == (Op::PhyWrite {
            address: chip.phy.anar,
            value: chip.phy.anar_advertise_10_100,
        }));
        if advertise_max >= 1000 {
            assert(ops[1] == (Op::PhyWrite {
                address: chip.phy.gbcr,
                value: chip.phy.gbcr_advertise_1000_full,
            }));
        }
    }
}

/// The counters are dumped to the whole address that was given: its halves are written, the
/// dump is begun by its bit, and the program waits until the chip has cleared it.
pub proof fn law_counters_are_dumped_to_the_address(chip: Chip, address: u64)
    ensures
        ({
            let ops = counter_dump(chip, address);
            &&& ops.len() == 4
            &&& ops[0] matches Op::Write { register: high, value: v1, .. } && {
                &&& ops[1] matches Op::Write { register: low, width, value: v0 } && {
                    &&& high == chip.reg.counter_addr_high && low == chip.reg.counter_addr_low
                    &&& v0 < 0x1_0000_0000 && v1 * 0x1_0000_0000 + v0 == address
                    &&& ops[2] == (Op::Write {
                        register: low,
                        width,
                        value: ((v0 as u32) | chip.bits.counter_dump) as u64,
                    })
                    &&& ops[3] matches Op::Await { register, width: w, mask, goal, expiry, .. } && {
                        &&& register == low && w == width
                        &&& mask & chip.bits.counter_dump == chip.bits.counter_dump
                        &&& goal == Goal::Clear && expiry == Expiry::GoOn
                    }
                }
            }
        }),
{
    let a: int = address as int;
    assert((a / 0x1_0000_0000) * 0x1_0000_0000 + a % 0x1_0000_0000 == a);
    let dump = chip.bits.counter_dump;
    let reset = chip.bits.counter_reset;
    assert((dump | reset) & dump == dump) by (bit_vector);
}

/// The two variants are configured alike up to their own parameters: the same two places, with
/// the same bits cleared.
pub proof fn law_variants_differ_in_values_alone(chip: Chip, i: int)
    requires
        0 <= i < 2,
    ensures
        variant_a(chip).len() == 2 && variant_b(chip).len() == 2,
        variant_a(chip)[i] matches Op::MacUpdate { address, clear, set } && {
            &&& variant_b(chip)[i] matches Op::MacUpdate { address: b, clear: c, set: s } && {
                &&& b == address && c == clear && s != set
            }
        },
{
}

} // verus!
