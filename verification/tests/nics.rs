//! The network cards, each against a card in memory.
use std::collections::HashMap;

use eo9_stubs::bytes::{push_be16, push_le16, push_le32, push_le64, read_be16, read_le16, read_le32};
use eo9_stubs::device::{Access, Buffer, Reply, Request, Width, Window};
use eo9_stubs::l2::L2Error;
use eo9_stubs::net_rtl8125::{
    self, advertise_max, check_alignment, choose_bar, counter, counters_line, loopback_frame,
    post_slots, rx_diagnostic, BarInfo, BringEvent, BringStep, Bringup, Counters, LoopEvent,
    LoopStep, Loopback, Rx, RxEvent, RxStep, Stage, Tx, TxEvent, TxStep,
};
use eo9_stubs::net_virtio::{
    self, Nic, Recv, RecvStep, Send, SendStep, Wait, WaitStep,
};
use eo9_stubs::rtl8125::{
    decode_link, xid_from_tx_config, Bits, Chip, Expiry, Goal, Heard, Link, MacOcp, Notes, Op, Phy,
    Registers, RunStep, Runner, Slot, Tables, Touch,
};
use eo9_stubs::rtl8125_programs::counter_dump_program;
use eo9_stubs::text::{format_mac, parse_byte, push_debug, push_decimal, push_hex, push_wide_decimal, split};
use eo9_stubs::virtio_start::{Learnt, Ring};

/// The queues of a virtio network card, with its shared memory.
struct Card {
    rings: Vec<u8>,
    receive: Vec<u8>,
    transmit: Vec<u8>,
    /// What went out, headers included.
    sent: Vec<Vec<u8>>,
    /// Whether transmits complete.
    stuck: bool,
    posted: u16,
    status_reads: u32,
}

impl Card {
    fn new() -> Card {
        Card {
            rings: vec![0; 4096],
            receive: vec![0; 8 * 2048],
            transmit: vec![0xee; 2048],
            sent: Vec::new(),
            stuck: false,
            posted: 0,
            status_reads: 0,
        }
    }

    fn bump(&mut self, at: usize) -> u16 {
        let index = u16::from_le_bytes([self.rings[at], self.rings[at + 1]]);
        self.rings[at..at + 2].copy_from_slice(&index.wrapping_add(1).to_le_bytes());
        index
    }

    /// A frame arrives in a slot.
    fn deliver(&mut self, slot: u32, frame: &[u8]) {
        let at = slot as usize * 2048 + 12;
        self.receive[at..at + frame.len()].copy_from_slice(frame);
        let index = self.bump(512 + 2);
        let element = 512 + 4 + 8 * (index % 8) as usize;
        self.rings[element..element + 4].copy_from_slice(&slot.to_le_bytes());
        let len = 12 + frame.len() as u32;
        self.rings[element + 4..element + 8].copy_from_slice(&len.to_le_bytes());
    }

    fn perform(&mut self, request: Request) -> Reply {
        for write in request.writes {
            let at = write.offset as usize;
            let buffer = match write.buffer {
                Buffer::Rings => &mut self.rings,
                Buffer::Transmit => &mut self.transmit,
                other => panic!("unexpected buffer {other:?}"),
            };
            buffer[at..at + write.bytes.len()].copy_from_slice(&write.bytes);
        }
        self.access(request.access)
    }

    fn access(&mut self, access: Access) -> Reply {
        match access {
            Access::Fetch { buffer: Buffer::Rings, offset, len } => {
                Reply::Bytes(self.rings[offset as usize..(offset + len) as usize].to_vec())
            }
            Access::Fetch { buffer: Buffer::Receive, offset, len } => {
                Reply::Bytes(self.receive[offset as usize..(offset + len) as usize].to_vec())
            }
            Access::Write { window: Window::Notify, register: 0x3004, width: Width::Word, value: 1 } => {
                if !self.stuck {
                    let len = u32::from_le_bytes(self.rings[2048 + 8..2048 + 12].try_into().unwrap());
                    self.sent.push(self.transmit[..len as usize].to_vec());
                    self.bump(2048 + 512 + 2);
                }
                Reply::Done
            }
            Access::Write { window: Window::Notify, register: 0x3000, value: 0, .. } => {
                self.posted += 1;
                Reply::Done
            }
            Access::Read { window: Window::Isr, .. } => {
                self.status_reads += 1;
                Reply::Value(1)
            }
            Access::WaitInterrupt { .. } => Reply::Done,
            other => panic!("unexpected access {other:?}"),
        }
    }
}

fn virtio_nic(interrupt: bool) -> Nic {
    let learnt = Learnt {
        spins: 0,
        low_features: 0,
        first: Ring { size: 8, notify_offset: 0x3000 },
        second: Ring { size: 16, notify_offset: 0x3004 },
        capacity_low: 0,
        capacity_high: 0,
        mac: (0x52, 0x54, 0, 0x12, 0x34, 0x56),
        interrupt,
    };
    Nic::new(&learnt, true, 0x9000)
}

#[test]
fn virtio_card_introduces_itself() {
    let nic = virtio_nic(true);
    assert_eq!(
        nic.banner(),
        "net.virtio: virtio-net 52:54:00:12:34:56, queues rx/tx 8/16, rx wait: INTx interrupt"
    );
    assert!(virtio_nic(false).banner().ends_with("rx wait: polled"));
    let info = net_virtio::info(Some(&nic));
    assert_eq!((info.name.as_str(), info.mtu, info.up), ("virtio0", 1500, true));
    let info = net_virtio::info(None);
    assert_eq!((info.mac, info.mtu, info.up), ((0, 0, 0, 0, 0, 0), 0, false));
    assert!(net_virtio::open_interface("").is_ok() && net_virtio::open_interface("virtio0").is_ok());
    assert!(matches!(net_virtio::open_interface("eth0"), Err(L2Error::NoSuchInterface)));
}

fn virtio_send(card: &mut Card, nic: &mut Nic, frame: Vec<u8>, steps: usize) -> Option<u64> {
    let (mut send, mut step) = Send::new(nic, frame).unwrap();
    for _ in 0..steps {
        match step {
            SendStep::Ask(request) => {
                let reply = card.perform(request);
                step = send.next(nic, reply);
            }
            SendStep::Sent(len) => return Some(len),
            SendStep::Failed(error) => panic!("{error:?}"),
        }
    }
    None
}

#[test]
fn virtio_frames_go_out() {
    let mut card = Card::new();
    let mut nic = virtio_nic(false);
    for i in 0..20u8 {
        assert_eq!(virtio_send(&mut card, &mut nic, vec![i; 60], 100), Some(60));
        let sent = card.sent.last().unwrap();
        assert_eq!(sent[..12], [0; 12]);
        assert_eq!(sent[12..], [i; 60]);
    }
    assert_eq!(nic.tx.avail_index, 20);
    assert_eq!(nic.tx.used_index, 20);
    assert!(matches!(Send::new(&mut nic, vec![0; 2037]), Err(L2Error::FrameTooLarge)));
}

#[test]
fn virtio_cancelled_send_is_drained() {
    let mut card = Card::new();
    let mut nic = virtio_nic(false);
    card.stuck = true;
    assert_eq!(virtio_send(&mut card, &mut nic, vec![1; 60], 50), None);
    assert_eq!((nic.tx.avail_index, nic.tx.used_index), (1, 0));
    // The next send first waits for that one.
    card.stuck = false;
    assert_eq!(virtio_send(&mut card, &mut nic, vec![2; 60], 100), Some(60));
    assert_eq!(card.sent.len(), 2);
    assert_eq!(nic.tx.avail_index, nic.tx.used_index);
}

fn virtio_recv(card: &mut Card, nic: &mut Nic, max_len: u64) -> Vec<u8> {
    let (mut recv, mut request) = Recv::new(max_len);
    loop {
        let reply = card.perform(request);
        match recv.next(nic, reply) {
            RecvStep::Ask(next) => request = next,
            RecvStep::Received(frame) => return frame,
            RecvStep::Failed(error) => panic!("{error:?}"),
        }
    }
}

#[test]
fn virtio_frames_come_in() {
    let mut card = Card::new();
    let mut nic = virtio_nic(true);
    assert_eq!(virtio_recv(&mut card, &mut nic, 2048), Vec::<u8>::new());
    for slot in 0..20u32 {
        card.deliver(slot % 8, &[slot as u8; 100]);
        assert_eq!(virtio_recv(&mut card, &mut nic, 2048), [slot as u8; 100]);
    }
    assert_eq!(card.posted, 20);
    assert_eq!(nic.rx.used_index, 20);
    assert_eq!(nic.rx.avail_index, 28);
    card.deliver(4, &[9; 100]);
    assert_eq!(virtio_recv(&mut card, &mut nic, 10), [9; 10]);
}

fn virtio_wait(card: &mut Card, nic: &mut Nic, deliver: bool) -> (bool, Option<String>) {
    let (mut wait, mut access) = Wait::new(1_000_000);
    let mut parked = false;
    loop {
        if matches!(access, Access::WaitInterrupt { .. }) {
            assert!(matches!(access, Access::WaitInterrupt { bound: 1_000_000 }));
            parked = true;
            if deliver {
                card.deliver(0, &[1; 60]);
            }
        }
        let reply = card.access(access);
        match wait.next(nic, reply) {
            WaitStep::Ask(next) => access = next,
            WaitStep::Over(line) => return (parked, line),
        }
    }
}

#[test]
fn virtio_wait_parks_when_idle() {
    let mut card = Card::new();
    let mut nic = virtio_nic(true);
    assert_eq!(virtio_wait(&mut card, &mut nic, true), (true, None));
    // A frame is there already.
    assert_eq!(virtio_wait(&mut card, &mut nic, true), (false, None));
}

fn chip() -> Chip {
    Chip {
        reg: Registers {
            mac0: 0x00,
            mar0: 0x08,
            tx_desc_addr_low: 0x20,
            rx_desc_addr_low: 0xe4,
            chip_cmd: 0x37,
            tx_config: 0x40,
            rx_config: 0x44,
            cfg9346: 0x50,
            config1: 0x52,
            config3: 0x54,
            phy_status: 0x6c,
            pmch: 0x6f,
            ephyar: 0x80,
            mcu: 0xd3,
            rx_max_size: 0xda,
            rxdv_gate_byte: 0xf2,
            intr_mask: 0x38,
            intr_status: 0x3c,
            int_cfg0: 0x34,
            int_cfg1: 0x7a,
            int_miti_base: 0xa00,
            int_miti_end_8125a: 0xb00,
            int_miti_end_8125b: 0xa80,
            tx_poll: 0x90,
            counter_addr_low: 0x10,
            counter_addr_high: 0x14,
        },
        bits: Bits {
            rxdv_gate: 0x08,
            cmd_stop_req: 0x80,
            cmd_reset: 0x10,
            cmd_rx_enable: 0x08,
            cmd_tx_enable: 0x04,
            mcu_tx_empty: 0x20,
            mcu_rx_empty: 0x10,
            mcu_now_is_oob: 0x80,
            mcu_link_list_rdy: 0x02,
            cfg9346_unlock: 0xc0,
            cfg9346_lock: 0x00,
            config1_speed_down: 0x10,
            config3_rdy_to_l23: 0x02,
            rx_max_size_value: 2048,
            rx_config_8125a: 0x4100_0700,
            rx_config_8125b: 0x4100_0c00,
            rx_accept_broadcast: 0x08,
            rx_accept_my_phys: 0x02,
            tx_config_value: 0x0300_0700,
            tx_config_mac_loopback: 0x0002_0000,
            tx_poll_queue0: 1,
            phy_status_link: 0x02,
            phy_status_2500: 0x400,
            phy_status_1000: 0x10,
            phy_status_100: 0x08,
            phy_status_10: 0x04,
            counter_dump: 0x08,
            counter_reset: 0x01,
            isr_rx_ok: 0x01,
            isr_rx_desc_unavail: 0x10,
            isr_rx_fifo_over: 0x40,
            isr_tx_ok: 0x04,
            isr_link_change: 0x20,
        },
        ocp: MacOcp {
            realwow_ctrl: 0xc0bc,
            realwow_disable: 0xff,
            oob_handshake: 0xe8de,
            oob_handshake_bit14: 0x4000,
            ll_param_a: (0xc0aa, 0x07d0),
            ll_param_b: (0xc0a6, 0x01b5),
            ll_param_c: (0xc01e, 0x5555),
            ups_ctrl: 0xd40a,
            ups_bit: 0x10,
            tx_new_desc_format: 0xeb58,
            tx_new_desc_format_bit: 1,
            start_handshake: (0xe098, 0xc302),
            start_handshake_status: 0xe00e,
            start_handshake_busy: 0x2000,
        },
        phy: Phy {
            bmcr: 0xa400,
            anar: 0xa408,
            gbcr: 0xa412,
            adv_2500: 0xa5d4,
            adv_2500_full: 0x80,
            anar_advertise_10_100: 0x01e0,
            gbcr_advertise_1000_full: 0x0200,
            bmcr_start_autoneg: 0x1200,
            bmcr_loopback_1000fd: 0x4140,
        },
    }
}

/// A chip that answers, with a PHY that takes a moment for every access.
struct Board {
    registers: HashMap<u64, u64>,
    mac: HashMap<u16, u16>,
    phy: HashMap<u16, u16>,
    ram: u16,
    selected: u16,
    slow: bool,
    stuck: bool,
    touched: Vec<Touch>,
    said: Vec<String>,
}

impl Board {
    fn new() -> Board {
        let mut registers = HashMap::new();
        for (i, byte) in [0x02u64, 0x11, 0x22, 0x33, 0x44, 0x55].iter().enumerate() {
            registers.insert(i as u64, *byte);
        }
        registers.insert(0x40, 0x641u64 << 20);
        registers.insert(0x6c, 0x412);
        Board {
            registers,
            mac: HashMap::new(),
            phy: HashMap::new(),
            ram: 0,
            selected: 0,
            slow: false,
            stuck: false,
            touched: Vec::new(),
            said: Vec::new(),
        }
    }

    fn phy(&self, address: u16) -> u16 {
        let stored = |address: u16| self.phy.get(&address).copied().unwrap_or(0);
        match address {
            0xa438 if stored(0xa436) == 0x801e => self.ram,
            0xa420 => 3,
            0xb800 => (stored(0xb820) & 0x10) << 2,
            0xa400 => stored(address) & 0x7fff,
            _ => stored(address),
        }
    }

    fn touch(&mut self, touch: Touch) -> Heard {
        self.touched.push(touch);
        match touch {
            Touch::Read { register: 0x37, .. } => {
                let value = self.registers.get(&0x37).copied().unwrap_or(0);
                Heard::Value(if self.stuck { value as u32 } else { value as u32 & !0x10 })
            }
            Touch::Read { register: 0xd3, .. } => Heard::Value(0x32),
            Touch::Read { register: 0x80, .. } => Heard::Value(0),
            Touch::Read { register, .. } => {
                Heard::Value(self.registers.get(&register).copied().unwrap_or(0) as u32)
            }
            // The revision is not for writing.
            Touch::Write { register: 0x40, value, .. } => {
                self.registers.insert(0x40, (value & !(0xfff << 20)) | (0x641 << 20));
                Heard::Done
            }
            Touch::Write { register, value, .. } => {
                self.registers.insert(register, value);
                Heard::Done
            }
            Touch::SelectMac { address } => {
                self.selected = address;
                Heard::Done
            }
            Touch::LoadMac => Heard::Value(self.mac.get(&self.selected).copied().unwrap_or(0) as u32),
            Touch::StoreMac { address, value } => {
                self.mac.insert(address, value);
                Heard::Done
            }
            Touch::SelectPhy { address } => {
                self.selected = address;
                self.slow = true;
                Heard::Done
            }
            Touch::PollPhyRead => {
                if std::mem::take(&mut self.slow) {
                    return Heard::Pending;
                }
                Heard::Value(self.phy(self.selected) as u32)
            }
            Touch::StorePhy { address, value } => {
                if address == 0xa438 && self.phy.get(&0xa436) == Some(&0x801e) {
                    self.ram = value;
                }
                self.phy.insert(address, value);
                Heard::Done
            }
            Touch::PollPhyWrite => Heard::Done,
            Touch::BusMaster | Touch::PostRings => Heard::Done,
        }
    }

    fn run(&mut self, ops: Vec<Op>, notes: Notes) -> Result<Notes, String> {
        let (mut runner, mut touch) = Runner::new(&chip(), ops, notes);
        loop {
            let heard = self.touch(touch);
            match runner.next(heard) {
                RunStep::Ask(line, next) => {
                    self.said.extend(line);
                    touch = next;
                }
                RunStep::Complete(line) => {
                    self.said.extend(line);
                    return Ok(runner.notes);
                }
                RunStep::Failed(error) => return Err(error),
            }
        }
    }
}

fn blank_notes() -> Notes {
    Notes {
        mac: (0, 0, 0, 0, 0, 0),
        tx_config: 0,
        rx_config: 0,
        rxdv: 0,
        isr: 0,
        mcu: 0,
        chip_cmd: 0,
        ram_before: 0,
        ram_after: 0,
        phy_state: 0,
        eee: 0,
        link: Link::Down,
        expired: false,
    }
}

#[test]
fn rtl_chip_is_brought_up() {
    let mut board = Board::new();
    let tables = Tables {
        mac_mcu: vec![(0xf800, 0xe010)],
        ephy: vec![(0x04, 0xd000)],
        phy_mcu: vec![(0xa438, 0x1234)],
    };
    let (mut bringup, mut ops) = Bringup::new(&chip(), 2500, 0x10000, 0x20000);
    let mut tests = Vec::new();
    let mut reports = Vec::new();
    let banner = loop {
        let event = match board.run(ops, bringup.notes) {
            Ok(notes) => BringEvent::Ran(notes),
            Err(error) => BringEvent::Stopped(error),
        };
        let mut step = bringup.next(&chip(), &tables, event);
        loop {
            match step {
                BringStep::Test { phy_level } => {
                    tests.push(phy_level);
                    let outcome = if phy_level { Err("silent".to_string()) } else { Ok("60 bytes".to_string()) };
                    step = bringup.next(&chip(), &tables, BringEvent::Tested(outcome));
                }
                other => {
                    step = other;
                    break;
                }
            }
        }
        match step {
            BringStep::Run(next) => ops = next,
            BringStep::Report(one, two, next) => {
                reports.push(one);
                reports.push(two);
                ops = next;
            }
            BringStep::Up(banner) => break banner,
            BringStep::Failed(error) => panic!("{error}"),
            BringStep::Test { .. } => unreachable!(),
        }
    };
    assert_eq!(tests, [false, true]);
    assert_eq!(
        reports,
        ["net.rtl8125: mac-loopback PASS (60 bytes)", "net.rtl8125: phy-loopback FAIL (silent)"]
    );
    assert!(banner.starts_with(
        "net.rtl8125: 02:11:22:33:44:55 (xid 0x641 8125B+) link up 2500 Mb/s, rings rx/tx 32/32, rxcfg 0x"
    ));
    assert!(banner.ends_with(" ram-code 0x0000->0x0b99 adv-max 2500"));
    assert_eq!(bringup.nic.link, Link::Up(2500));
    assert_eq!(bringup.nic.mac, (2, 0x11, 0x22, 0x33, 0x44, 0x55));
    // The patch was loaded, and the receiver and transmitter run.
    assert!(board.touched.contains(&Touch::StorePhy { address: 0xa438, value: 0x1234 }));
    assert!(board.touched.contains(&Touch::StoreMac { address: 0xf800, value: 0xe010 }));
    assert_eq!(board.registers[&0x37] & 0x0c, 0x0c);
    assert!(board.touched.contains(&Touch::PostRings));
}

#[test]
fn rtl_stuck_reset_is_reported() {
    let mut board = Board::new();
    board.stuck = true;
    let ops = vec![
        Op::Write { register: 0x37, width: Width::Byte, value: 0x10 },
        Op::Await {
            register: 0x37,
            width: Width::Byte,
            mask: 0x10,
            goal: Goal::Clear,
            limit: 5,
            expiry: Expiry::SoftReset,
        },
    ];
    let error = board.run(ops, blank_notes()).unwrap_err();
    assert!(error.starts_with("net.rtl8125: "));
    assert!(error.contains("reset"));
}

#[test]
fn rtl_programs_update_registers() {
    let mut board = Board::new();
    board.registers.insert(0x52, 0b1100);
    board.mac.insert(0xd40a, 0x0013);
    board.phy.insert(0xa442, 0x0081);
    let ops = vec![
        Op::Update { register: 0x52, width: Width::Byte, clear: 0b0100, set: 0b0001 },
        Op::MacUpdate { address: 0xd40a, clear: 0x0010, set: 0x0100 },
        Op::PhyUpdate { address: 0xa442, clear: 0x0001, set: 0x0800 },
        Op::Read { register: 0x44, width: Width::Dword, into: Slot::RxConfig },
        Op::PhyRead { address: 0xa442, into: Slot::PhyState },
    ];
    board.registers.insert(0x44, 0x4100_0c0a);
    let notes = board.run(ops, blank_notes()).unwrap();
    assert_eq!(board.registers[&0x52], 0b1001);
    assert_eq!(board.mac[&0xd40a], 0x0103);
    assert_eq!(board.phy[&0xa442], 0x0880);
    assert_eq!(notes.rx_config, 0x4100_0c0a);
}

#[test]
fn rtl_counters_are_dumped() {
    let mut board = Board::new();
    let notes = board.run(counter_dump_program(&chip(), 0x1_2345_6780), blank_notes()).unwrap();
    // The board never clears the command.
    assert!(notes.expired);
    assert_eq!(board.registers[&0x14], 1);
    assert_eq!(board.registers[&0x10], 0x2345_6788);
    assert_eq!(counter(&[0x34, 0x12]), 0x1234);
    assert_eq!(counter(&[1, 0, 0, 0, 0, 0, 0, 0x80]), 0x8000_0000_0000_0001);
}

fn rtl_nic(link: Link) -> net_rtl8125::Nic {
    net_rtl8125::Nic {
        tx_published: 0,
        tx_consumed: 0,
        rx_cursor: 0,
        mac: (2, 0, 0, 0, 0, 1),
        link,
        diagnosed: false,
        slots_consumed: 0,
        lines_rearmed: 0,
        tx_address: 0x9000,
    }
}

#[test]
fn rtl_frames_are_padded_and_sent() {
    let mut nic = rtl_nic(Link::Up(1000));
    for i in 0..40u16 {
        let (mut tx, step) = Tx::new(&mut nic, vec![7; 20]);
        let TxStep::Publish(bytes, descriptor) = step else { panic!("not published") };
        assert_eq!(bytes.len(), 60);
        assert_eq!(bytes[..20], [7; 20]);
        assert_eq!(bytes[20..], [0; 40]);
        assert_eq!(descriptor.slot, i % 32);
        assert_eq!((descriptor.address, descriptor.len), (0x9000, 60));
        assert_eq!(descriptor.last, i % 32 == 31);
        assert!(matches!(tx.next(&mut nic, TxEvent::Rung), TxStep::Look(slot) if slot == i % 32));
        assert!(matches!(tx.next(&mut nic, TxEvent::Owned(true)), TxStep::Look(_)));
        assert!(matches!(tx.next(&mut nic, TxEvent::Owned(false)), TxStep::Sent(20)));
        assert_eq!(nic.tx_published, nic.tx_consumed);
    }
    assert!(matches!(
        net_rtl8125::send(&nic, &[0; 2049]),
        Err(L2Error::FrameTooLarge)
    ));
    assert!(matches!(net_rtl8125::send(&rtl_nic(Link::Down), &[0; 60]), Err(L2Error::LinkDown)));
    assert!(net_rtl8125::send(&nic, &[0; 60]).is_ok());
}

#[test]
fn rtl_slots_are_rearmed_by_the_line() {
    let mut nic = rtl_nic(Link::Up(1000));
    let mut rearmed = Vec::new();
    for i in 0..36u16 {
        let (mut rx, slot) = Rx::new(&nic, 100);
        assert_eq!(slot, i % 32);
        let step = rx.next(&mut nic, RxEvent::Complete(Some(64)));
        assert!(matches!(step, RxStep::Copy { offset, len: 64 } if offset == u64::from(i % 32) * 2048));
        match rx.next(&mut nic, RxEvent::Bytes(vec![1; 64])) {
            RxStep::Received { frame, rearm } => {
                assert_eq!(frame, [1; 64]);
                rearmed.extend(rearm);
            }
            other => panic!("unexpected {other:?}"),
        }
    }
    assert_eq!(rearmed, [0, 4, 8, 12, 16, 20, 24, 28, 0]);
    assert_eq!((nic.slots_consumed, nic.lines_rearmed), (36, 9));
    let posts = post_slots(0x100_0000, 28, 32);
    assert_eq!(posts.len(), 4);
    assert_eq!(posts[3].address, 0x100_0000 + 31 * 2048);
    assert!(posts[3].last && !posts[2].last);
}

#[test]
fn rtl_idle_receive_reports_once() {
    let mut nic = rtl_nic(Link::Up(1000));
    nic.tx_consumed = 1;
    nic.tx_published = 1;
    for expected in [true, false] {
        let (mut rx, _) = Rx::new(&nic, 100);
        let report = loop {
            match rx.next(&mut nic, RxEvent::Owned) {
                RxStep::Look(_) => {}
                RxStep::Nothing { report } => break report,
                other => panic!("unexpected {other:?}"),
            }
        };
        assert_eq!(report, expected);
    }
}

#[test]
fn rtl_loopback_is_tested() {
    let mac = (2, 0, 0, 0, 0, 1);
    let frame = loopback_frame(mac);
    assert_eq!(frame.len(), 60);
    assert_eq!(frame[..14], [2, 0, 0, 0, 0, 1, 2, 0, 0, 0, 0, 1, 0x88, 0xb5]);
    assert_eq!((frame[14], frame[59]), (14, 59));
    let (mut test, ops) = Loopback::new(&chip(), mac, false);
    assert!(!ops.is_empty());
    let LoopStep::Send(sent) = test.next(&chip(), LoopEvent::Ran) else { panic!("no frame") };
    assert_eq!(sent, frame);
    assert!(matches!(test.next(&chip(), LoopEvent::Sent), LoopStep::Receive(_)));
    // Nothing has come yet; the test listens on.
    assert!(matches!(
        test.next(&chip(), LoopEvent::Received(Vec::new())),
        LoopStep::Receive(2048)
    ));
    assert!(matches!(test.next(&chip(), LoopEvent::Received(frame)), LoopStep::Run(_)));
    match test.next(&chip(), LoopEvent::Ran) {
        LoopStep::Over(outcome) => assert_eq!(outcome.unwrap(), "60 bytes round-tripped"),
        other => panic!("unexpected {other:?}"),
    }
    // Another frame fails the test.
    let (mut test, _) = Loopback::new(&chip(), mac, false);
    test.next(&chip(), LoopEvent::Ran);
    test.next(&chip(), LoopEvent::Sent);
    test.next(&chip(), LoopEvent::Received(vec![1; 60]));
    match test.next(&chip(), LoopEvent::Ran) {
        LoopStep::Over(outcome) => assert_eq!(
            outcome.unwrap_err(),
            "a 60-byte frame arrived but did not match the test pattern"
        ),
        other => panic!("unexpected {other:?}"),
    }
    let (mut test, _) = Loopback::new(&chip(), mac, true);
    test.next(&chip(), LoopEvent::Ran);
    test.next(&chip(), LoopEvent::Ran);
    match test.next(&chip(), LoopEvent::Unsent(Stage::Issued, "poll limit".to_string())) {
        LoopStep::Over(outcome) => assert_eq!(outcome.unwrap_err(), "transmit: poll limit"),
        other => panic!("unexpected {other:?}"),
    }
}

#[test]
fn rtl_reports_are_worded() {
    let notes = Notes {
        rx_config: 0x4100_0c0a,
        rxdv: 0x42,
        isr: 0x0011,
        mcu: 0x32,
        chip_cmd: 0x0c,
        ..blank_notes()
    };
    assert_eq!(
        rx_diagnostic(&chip().bits, &notes, 3, 0x8000_0800),
        "net.rtl8125: rx diagnostic - isr 0x0011 (rok+ rdu+ fovw- tok- link-) rxcfg 0x41000c0a \
         rxdv-byte 0x42 mcu 0x32 cmd 0x0c rx slot 3 opts1 0x80000800"
    );
    let mut nic = rtl_nic(Link::Down);
    nic.slots_consumed = 8;
    nic.lines_rearmed = 2;
    let counters = Counters {
        tx_packets: 1,
        rx_packets: 2,
        missed: 3,
        rx_errors: 4,
        unicast: 5,
        broadcast: 6,
        multicast: 7,
    };
    assert_eq!(
        counters_line(&nic, &Some(counters)),
        "net.rtl8125: counters - tx 1 rx 2 missed 3 rx-errors 4 unicast 5 broadcast 6 \
         multicast 7 consumed-slots 8 rearmed-lines 2"
    );
    assert!(counters_line(&nic, &None).contains("DUMP NEVER COMPLETED"));
    assert!(!net_rtl8125::info(Some(&nic)).up);
    assert_eq!(net_rtl8125::info(None).mtu, 0);
}

#[test]
fn rtl_choices_are_made() {
    let ours = net_rtl8125::Function { vendor_id: 0x10ec, device_id: 0x8125 };
    let other = net_rtl8125::Function { vendor_id: 0x10ec, device_id: 0x8168 };
    assert_eq!(net_rtl8125::choose_function(&[other, ours]), Ok(1));
    assert!(net_rtl8125::choose_function(&[other]).unwrap_err().contains("no RTL8125 (10ec:8125)"));
    let bar = |index: u8, memory: bool| BarInfo { index, memory };
    assert_eq!(choose_bar(&[bar(0, false), bar(4, true), bar(2, true)]), Ok(2));
    assert_eq!(choose_bar(&[bar(0, false), bar(4, true)]), Ok(4));
    assert_eq!(
        choose_bar(&[bar(0, false)]).unwrap_err(),
        "net.rtl8125: the function exposes no memory BAR for its registers"
    );
    assert!(check_alignment(0x1000).is_ok());
    assert_eq!(
        check_alignment(0x1234).unwrap_err(),
        "net.rtl8125: the DMA ring buffer is not 256-byte aligned (got 0x1234)"
    );
    let mut configured = None;
    assert_eq!(advertise_max(configured), 2500);
    assert_eq!(
        net_rtl8125::configure(&mut configured, 10).unwrap_err(),
        "advertise-max must be 100, 1000, or 2500 (got 10)"
    );
    net_rtl8125::configure(&mut configured, 100).unwrap();
    assert_eq!(advertise_max(configured), 100);
    assert_eq!(decode_link(&chip().bits, 0x412), Link::Up(2500));
    assert_eq!(decode_link(&chip().bits, 0x0a), Link::Up(100));
    assert_eq!(decode_link(&chip().bits, 0x410), Link::Down);
    assert_eq!(xid_from_tx_config(0x641 << 20), 0x641);
}

#[test]
fn texts_are_formatted() {
    assert_eq!(format_mac(&[0x52, 0x54, 0, 0x0a, 0xff, 1]), "52:54:00:0a:ff:01");
    let mut text = String::new();
    push_decimal(&mut text, 0);
    push_decimal(&mut text, u64::MAX);
    push_wide_decimal(&mut text, 1u128 << 64);
    push_hex(&mut text, 0xbeef, 6);
    assert_eq!(text, format!("0{}{}00beef", u64::MAX, 1u128 << 64));
    let mut text = String::from("say ");
    push_debug(&mut text, "\"hi\"\n");
    assert_eq!(text, "say \"\\\"hi\\\"\\n\"");
    let letters = |text: &str| text.chars().collect::<Vec<char>>();
    assert_eq!(parse_byte(&letters("255"), 10), Some(255));
    assert_eq!(parse_byte(&letters("+7"), 10), Some(7));
    assert_eq!(parse_byte(&letters("fF"), 16), Some(255));
    assert_eq!(parse_byte(&letters("256"), 10), None);
    assert_eq!(parse_byte(&letters(""), 10), None);
    assert_eq!(parse_byte(&letters("-1"), 10), None);
    assert_eq!(split("a..b", '.'), vec![letters("a"), letters(""), letters("b")]);
}

#[test]
fn numbers_are_laid_out() {
    let mut out = Vec::new();
    push_le16(&mut out, 0x1234);
    push_le32(&mut out, 0x89ab_cdef);
    push_be16(&mut out, 0x5678);
    push_le64(&mut out, 0x0102_0304_0506_0708);
    assert_eq!(out, [0x34, 0x12, 0xef, 0xcd, 0xab, 0x89, 0x56, 0x78, 8, 7, 6, 5, 4, 3, 2, 1]);
    assert_eq!(read_le16(&out, 0), 0x1234);
    assert_eq!(read_le32(&out, 2), 0x89ab_cdef);
    assert_eq!(read_be16(&out, 6), 0x5678);
}
