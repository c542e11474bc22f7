//! The disks: a virtio disk against a device in memory, a disk in memory, and partitions.
use eo9_stubs::device::{Access, Buffer, Reply, Request, Width, Window};
use eo9_stubs::disk_mem;
use eo9_stubs::disk_part::{
    self, ensure_window, translate, Found, Search, SearchStep, State, Window as Part,
};
use eo9_stubs::disk_virtio::{
    pci_call, poll_eager, ByteRead, ByteWrite, Disk, DiskFail, Polled, TransferStep, WriteStep,
};
use eo9_stubs::virtio::{
    bar_indices, choose_function, locate, Function, Kind, Region, Walk, WalkStep, Windows,
};
use eo9_stubs::virtio_start::{Learnt, Plan, Start, StartStep};

/// A virtio block device with its shared memory.
struct Device {
    config: Vec<u8>,
    storage: Vec<u8>,
    rings: Vec<u8>,
    header: Vec<u8>,
    data: Vec<u8>,
    status: u32,
    feature_select: u32,
    features_high: u32,
    sectors: u64,
    /// The status that requests get.
    outcome: u8,
    /// Whether requests complete at all.
    stuck: bool,
    lines: Vec<String>,
}

fn le32(bytes: &[u8], at: usize) -> u32 {
    u32::from_le_bytes([bytes[at], bytes[at + 1], bytes[at + 2], bytes[at + 3]])
}

impl Device {
    fn new(sectors: u64) -> Device {
        let mut config = vec![0u8; 256];
        config[0x34] = 0x40;
        // Common, at BAR 4 offset 0x1000.
        config[0x40..0x50].copy_from_slice(&[9, 0x50, 16, 1, 4, 0, 0, 0, 0, 0x10, 0, 0, 0, 0, 0, 0]);
        // A capability of another kind in between.
        config[0x50..0x54].copy_from_slice(&[5, 0x60, 0, 0]);
        // Notify, at BAR 4 offset 0x3000 with a multiplier of 4.
        config[0x60..0x74].copy_from_slice(&[
            9, 0x80, 20, 2, 4, 0, 0, 0, 0, 0x30, 0, 0, 0, 0, 0, 0, 4, 0, 0, 0,
        ]);
        // Device, at BAR 2 offset 0x2000.
        config[0x80..0x90].copy_from_slice(&[9, 0, 16, 4, 2, 0, 0, 0, 0, 0x20, 0, 0, 0, 0, 0, 0]);
        Device {
            config,
            storage: (0..sectors * 512).map(|i| (i % 251) as u8).collect(),
            rings: vec![0xee; 4096],
            header: vec![0xee; 4096],
            data: vec![0xee; 65536],
            status: 0,
            feature_select: 0,
            features_high: 1,
            sectors,
            outcome: 0,
            stuck: false,
            lines: Vec::new(),
        }
    }

    fn buffer(&mut self, buffer: Buffer) -> &mut Vec<u8> {
        match buffer {
            Buffer::Rings => &mut self.rings,
            Buffer::Header => &mut self.header,
            Buffer::Data => &mut self.data,
            other => panic!("unexpected buffer {other:?}"),
        }
    }

    fn perform_request(&mut self) {
        if self.stuck {
            return;
        }
        let write = le32(&self.header, 0) == 1;
        let sector = u64::from_le_bytes(self.header[8..16].try_into().unwrap()) as usize;
        let len = le32(&self.rings, 16 + 8) as usize;
        let span = sector * 512..sector * 512 + len;
        if self.outcome == 0 {
            if write {
                self.storage[span].copy_from_slice(&self.data[..len]);
            } else {
                self.data[..len].copy_from_slice(&self.storage[span]);
            }
        }
        self.header[16] = self.outcome;
        let at = 512 + 2;
        let used = u16::from_le_bytes([self.rings[at], self.rings[at + 1]]).wrapping_add(1);
        self.rings[at..at + 2].copy_from_slice(&used.to_le_bytes());
    }

    fn perform(&mut self, request: Request) -> Reply {
        for write in request.writes {
            let at = write.offset as usize;
            let buffer = self.buffer(write.buffer);
            buffer[at..at + write.bytes.len()].copy_from_slice(&write.bytes);
        }
        self.lines.extend(request.lines);
        self.access(request.access)
    }

    fn access(&mut self, access: Access) -> Reply {
        match access {
            Access::Config { address, width: Width::Byte } => {
                Reply::Value(self.config[address as usize] as u32)
            }
            Access::Config { address, .. } => Reply::Value(le32(&self.config, address as usize)),
            Access::Read { window: Window::Common, register, .. } => Reply::Value(match register {
                0x04 => {
                    if self.feature_select == 1 {
                        self.features_high
                    } else {
                        0
                    }
                }
                0x12 => 1,
                0x14 => self.status,
                0x18 => 128,
                0x1e => 3,
                other => panic!("unexpected register {other:#x}"),
            }),
            Access::Read { window: Window::Device, register, .. } => {
                Reply::Value((self.sectors >> (8 * register)) as u32)
            }
            Access::Write { window: Window::Common, register, value, .. } => {
                match register {
                    0x00 => self.feature_select = value as u32,
                    0x14 => self.status = value as u32,
                    _ => {}
                }
                Reply::Done
            }
            Access::Write { window: Window::Notify, register, .. } => {
                assert_eq!(register, 0x3000 + 3 * 4);
                self.perform_request();
                Reply::Done
            }
            Access::Fetch { buffer, offset, len } => {
                let at = offset as usize;
                Reply::Bytes(self.buffer(buffer)[at..at + len as usize].to_vec())
            }
            Access::BusMaster | Access::Pause => Reply::Done,
            other => panic!("unexpected access {other:?}"),
        }
    }

    fn windows(&mut self) -> Windows {
        let mut walk = Walk::new(Kind::Disk);
        let mut access = walk.access();
        loop {
            let reply = self.access(access);
            match walk.next(reply) {
                WalkStep::Ask(next) => access = next,
                WalkStep::Finished(windows) => return windows.unwrap(),
            }
        }
    }

    fn bring_up(&mut self) -> Result<Learnt, String> {
        let windows = self.windows();
        let plan = Plan { kind: Kind::Disk, windows, rings: 0x10_0000, receive: 0 };
        let (mut start, mut request) = Start::new(plan);
        loop {
            let reply = self.perform(request);
            match start.next(reply) {
                StartStep::Ask(next) => request = next,
                StartStep::Up(learnt) => return Ok(learnt),
                StartStep::Refused(text) => return Err(text),
            }
        }
    }

    fn disk(&mut self) -> Disk {
        let learnt = self.bring_up().unwrap();
        Disk::new(&learnt, 0x20_0000, 0x30_0000)
    }

    fn transfer(
        &mut self,
        disk: &mut Disk,
        write: bool,
        sector: u64,
        sectors: u32,
        payload: Option<Vec<u8>>,
    ) -> Result<Option<Vec<u8>>, String> {
        let (mut transfer, mut request) = disk.transfer(write, sector, sectors, payload);
        let mut polls = 0;
        loop {
            let reply = self.perform(request);
            polls += 1;
            assert!(polls < 100);
            match disk.transfer_next(&mut transfer, reply) {
                TransferStep::Ask(next) => request = next,
                TransferStep::Complete(bytes) => return Ok(bytes),
                TransferStep::Failed(text) => return Err(text),
            }
        }
    }

    fn read(&mut self, disk: &mut Disk, offset: u64, len: u64) -> Result<Vec<u8>, DiskFail> {
        let mut read = ByteRead::new(disk, offset, len)?;
        while let Some(chunk) = read.chunk() {
            let sectors =
                self.transfer(disk, false, chunk.first_sector, chunk.sectors, None).unwrap();
            read.took(&sectors.unwrap());
        }
        Ok(read.out)
    }

    fn write(&mut self, disk: &mut Disk, offset: u64, bytes: Vec<u8>) -> Result<(), DiskFail> {
        let mut write = ByteWrite::new(disk, offset, bytes)?;
        loop {
            let (chunk, payload) = match write.next() {
                WriteStep::Complete => return Ok(()),
                WriteStep::Write(chunk, payload) => (chunk, payload),
                WriteStep::Read(chunk) => {
                    let current = self
                        .transfer(disk, false, chunk.first_sector, chunk.sectors, None)
                        .unwrap()
                        .unwrap();
                    (chunk, write.overlay(current)?)
                }
            };
            self.transfer(disk, true, chunk.first_sector, chunk.sectors, Some(payload)).unwrap();
            write.wrote();
        }
    }
}

#[test]
fn walk_finds_the_windows() {
    let windows = Device::new(8).windows();
    assert_eq!(
        windows,
        Windows {
            common: Region { bar: 4, offset: 0x1000 },
            notify: Region { bar: 4, offset: 0x3000 },
            multiplier: 4,
            device: Some(Region { bar: 2, offset: 0x2000 }),
            isr: None,
        }
    );
    assert_eq!(bar_indices(&windows), vec![4, 2]);
    assert_eq!(locate(&windows, Window::Common, 0x14), Some((4, 0x1014)));
    assert_eq!(locate(&windows, Window::Device, 4), Some((2, 0x2004)));
    assert_eq!(locate(&windows, Window::Isr, 0), None);
}

#[test]
fn walk_names_what_is_missing() {
    let mut device = Device::new(8);
    device.config[0x34] = 0;
    let mut walk = Walk::new(Kind::Disk);
    let reply = device.access(walk.access());
    match walk.next(reply) {
        WalkStep::Finished(Err(text)) => {
            assert_eq!(text, "disk.virtio: the function has no virtio common-config capability")
        }
        other => panic!("unexpected {other:?}"),
    }
}

#[test]
fn walk_survives_a_capability_loop() {
    let mut device = Device::new(8);
    device.config[0x41] = 0x40;
    let mut walk = Walk::new(Kind::Disk);
    let mut access = walk.access();
    let mut steps = 0;
    loop {
        steps += 1;
        assert!(steps < 1000);
        let reply = device.access(access);
        match walk.next(reply) {
            WalkStep::Ask(next) => access = next,
            WalkStep::Finished(Err(text)) => {
                assert_eq!(text, "disk.virtio: the function has no virtio notify capability");
                return;
            }
            WalkStep::Finished(Ok(_)) => panic!("found a window that is not there"),
        }
    }
}

#[test]
fn function_choice_prefers_the_modern_one() {
    let modern = Function { vendor_id: 0x1af4, device_id: 0x1042 };
    let transitional = Function { vendor_id: 0x1af4, device_id: 0x1001 };
    let other = Function { vendor_id: 0x8086, device_id: 0x1042 };
    assert_eq!(choose_function(Kind::Disk, &[other, transitional, modern]), Ok(2));
    assert_eq!(choose_function(Kind::Disk, &[other, transitional]), Ok(1));
    assert_eq!(
        choose_function(Kind::Disk, &[other]),
        Err("disk.virtio: no virtio-blk function is visible through the granted pci capability (expected vendor 0x1af4, device 0x1042)".to_string())
    );
}

#[test]
fn bring_up_learns_the_disk() {
    let mut device = Device::new(4096);
    let learnt = device.bring_up().unwrap();
    assert_eq!(
        Disk::banner(&learnt),
        "disk.virtio: virtio-blk 4096 sectors (2 MiB), queue size 16"
    );
    let disk = Disk::new(&learnt, 0x20_0000, 0x30_0000);
    assert_eq!(disk.capacity_bytes, 4096 * 512);
    assert_eq!(disk.notify_offset, 0x3000 + 12);
    assert_eq!(device.status & 4, 4);
}

#[test]
fn bring_up_refuses_an_old_device() {
    let mut device = Device::new(8);
    device.features_high = 0;
    let text = device.bring_up().unwrap_err();
    assert!(text.starts_with("disk.virtio: "), "{text}");
    assert_ne!(device.status & 4, 4);
}

#[test]
fn virtio_reads_give_the_range() {
    let mut device = Device::new(512);
    let mut disk = device.disk();
    let bytes = device.read(&mut disk, 1000, 70_000).unwrap();
    let expected: Vec<u8> = (1000..71_000u64).map(|i| (i % 251) as u8).collect();
    assert_eq!(bytes, expected);
    assert_eq!(device.read(&mut disk, 512 * 512, 0).unwrap(), Vec::<u8>::new());
    assert!(matches!(device.read(&mut disk, 512 * 512, 1), Err(DiskFail::OutOfRange)));
    assert!(matches!(device.read(&mut disk, u64::MAX, 2), Err(DiskFail::OutOfRange)));
}

#[test]
fn virtio_reads_see_what_was_written() {
    let mut device = Device::new(512);
    let mut disk = device.disk();
    let before = device.storage.clone();
    let bytes: Vec<u8> = (0..66_666u32).map(|i| (i * 7 % 256) as u8).collect();
    device.write(&mut disk, 777, bytes.clone()).unwrap();
    assert_eq!(device.read(&mut disk, 777, 66_666).unwrap(), bytes);
    assert_eq!(device.storage[..777], before[..777]);
    assert_eq!(device.storage[777 + 66_666..], before[777 + 66_666..]);
    device.write(&mut disk, 1024, vec![9; 512]).unwrap();
    assert_eq!(device.read(&mut disk, 1024, 512).unwrap(), vec![9; 512]);
}

#[test]
fn virtio_requests_report_the_status() {
    let mut device = Device::new(8);
    let mut disk = device.disk();
    device.outcome = 1;
    assert_eq!(
        device.transfer(&mut disk, false, 0, 1, None),
        Err("disk.virtio: the device reported request status 1".to_string())
    );
    device.outcome = 0;
    assert!(device.transfer(&mut disk, false, 0, 1, None).is_ok());
}

#[test]
fn virtio_request_keeps_polling() {
    let mut device = Device::new(8);
    let mut disk = device.disk();
    device.stuck = true;
    let (mut transfer, request) = disk.transfer(false, 0, 1, None);
    let reply = device.perform(request);
    let mut step = disk.transfer_next(&mut transfer, reply);
    for _ in 0..50 {
        let TransferStep::Ask(request) = step else { panic!("gave up too early") };
        let reply = device.perform(request);
        step = disk.transfer_next(&mut transfer, reply);
    }
    device.stuck = false;
    device.perform_request();
    let TransferStep::Ask(request) = step else { panic!("gave up too early") };
    let reply = device.perform(request);
    assert!(matches!(disk.transfer_next(&mut transfer, reply), TransferStep::Ask(_)));
}

#[test]
fn short_sectors_are_reported() {
    let mut device = Device::new(8);
    let disk = device.disk();
    let write = ByteWrite::new(&disk, 1, vec![1, 2, 3]).unwrap();
    match write.overlay(vec![0; 511]) {
        Err(DiskFail::Io(text)) => {
            assert_eq!(text, "disk.virtio: short read during read-modify-write")
        }
        other => panic!("unexpected {other:?}"),
    }
}

#[test]
fn eager_calls_are_flattened() {
    assert_eq!(poll_eager(Polled::Ready(4)), Some(4));
    assert_eq!(poll_eager::<u8>(Polled::Pending), None);
    assert_eq!(pci_call("open", Polled::Ready(Ok(4))), Ok(4));
    assert_eq!(
        pci_call::<u8>("open", Polled::Ready(Err("Denied".to_string()))),
        Err("open: Denied".to_string())
    );
    assert_eq!(
        pci_call::<u8>("open", Polled::Pending),
        Err("open: the pci provider suspended".to_string())
    );
}

#[test]
fn memory_disk_starts_with_zeros() {
    let mut state = None;
    let device = disk_mem::with_device(&mut state);
    assert_eq!(device.len(), 16 * 1024 * 1024);
    assert!(device.iter().all(|byte| *byte == 0));
    assert_eq!(disk_mem::configure(5).unwrap(), vec![0; 5]);
}

#[test]
fn memory_disk_reads_after_writes() {
    let mut device = disk_mem::configure(64).unwrap();
    assert_eq!(disk_mem::write(&mut device, 10, &vec![1, 2, 3]).unwrap(), 3);
    assert_eq!(disk_mem::read(&device, 9, 5).unwrap(), vec![0, 1, 2, 3, 0]);
    assert_eq!(disk_mem::read(&device, 64, 0).unwrap(), Vec::<u8>::new());
}

#[test]
fn memory_disk_refuses_what_does_not_fit() {
    let mut device = disk_mem::configure(8).unwrap();
    assert!(disk_mem::read(&device, 7, 2).is_err());
    assert!(disk_mem::read(&device, 9, 0).is_err());
    assert!(disk_mem::write(&mut device, 6, &vec![1, 2, 3]).is_err());
    assert_eq!(device, vec![0; 8]);
    assert_eq!(disk_mem::range(8, 3, 5), Some((3, 8)));
    assert_eq!(disk_mem::range(8, u64::MAX, 1), None);
}

#[test]
fn partition_moves_accesses() {
    let window = Part { start: 1 << 20, len: 4096 };
    assert_eq!(translate(window, 0, 4096), Ok(1 << 20));
    assert_eq!(translate(window, 4095, 1), Ok((1 << 20) + 4095));
    assert_eq!(translate(window, 4096, 0), Ok((1 << 20) + 4096));
    assert_eq!(translate(window, 4096, 1), Err(()));
    assert_eq!(translate(window, u64::MAX, u64::MAX), Err(()));
}

#[test]
fn partition_is_found_once() {
    let mut slot = None;
    let state = disk_part::with_state(&mut slot);
    assert_eq!(*state, State { selected: 1, window: None });
    assert_eq!(disk_part::size(state), 0);
    let (mut search, step) = ensure_window(state);
    assert!(matches!(step, SearchStep::Read(0)));
    assert!(matches!(search.step(state, Found::Sector(512)), SearchStep::Size));
    assert!(matches!(search.step(state, Found::Size(1 << 30)), SearchStep::Walk));
    assert!(matches!(search.step(state, Found::Need(2048)), SearchStep::Read(1048576)));
    assert!(matches!(search.step(state, Found::Sector(512)), SearchStep::Walk));
    let window = Part { start: 1 << 20, len: 1 << 21 };
    match search.step(state, Found::Partition(window)) {
        SearchStep::Ready(found) => assert_eq!(found, window),
        other => panic!("unexpected {other:?}"),
    }
    assert_eq!(disk_part::size(state), 1 << 21);
    assert!(matches!(ensure_window(state).1, SearchStep::Ready(_)));
}

fn refusal(found: Found, search: Search) -> String {
    let mut state = disk_part::configure(2).unwrap();
    let mut search = search;
    match search.step(&mut state, found) {
        SearchStep::Refused(said) => {
            assert_eq!(state.window, None);
            said
        }
        other => panic!("unexpected {other:?}"),
    }
}

#[test]
fn partition_refusals_say_why() {
    let first = Search::Sector { lba: 0, first: true };
    let later = Search::Sector { lba: 63, first: false };
    assert_eq!(
        refusal(Found::Unread("OutOfRange".to_string()), first),
        "disk.part: reading the partition table at LBA 0: OutOfRange"
    );
    assert_eq!(
        refusal(Found::Sector(100), later),
        "disk.part: short read of the partition table at LBA 63 (100 of 512 bytes)"
    );
    assert_eq!(
        refusal(Found::Invalid("no signature".to_string()), Search::Walk),
        "disk.part: invalid partition table: no signature"
    );
    assert_eq!(
        refusal(Found::Missing("no partition 2".to_string()), Search::Walk),
        "disk.part: no partition 2"
    );
    assert_eq!(
        disk_part::configure(0).unwrap_err(),
        "disk.part: partition numbers are 1-based (fdisk numbering); 0 is not valid"
    );
}
