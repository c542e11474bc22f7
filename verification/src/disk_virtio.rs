//! `disk.virtio`: a byte-addressed disk over the sectors of a virtio block device.
//!
//! [`Disk`] drives one request at a time through queue 0; [`ByteRead`] and [`ByteWrite`]
//! cut a byte range into requests, reading and writing back partial sectors.
use vstd::prelude::*;
use vstd::string::*;

use crate::bytes::{
    content_of, dword_le, law_le32_is_found, law_le64_is_found, le16, le32, le64, push_all,
    push_le32, push_le64, qword_le, read_le16, slice_of, word_le,
};
use crate::device::{
    after_stores, bytes_of, count, counted, fits, labelled, only, push_store, stores, Access,
    Answer, Buffer, MemoryWrite, Reply, Request, Store, Wanted, Width, Window,
};
use crate::text::{decimal, push_decimal};
use crate::virtio::{access_failure, descriptor, failure, word, write_descriptor, Kind};
use crate::virtio_start::{Learnt, AVAIL_OFFSET, DESC_NEXT, DESC_WRITE, USED_OFFSET};

verus! {

/// The bytes of one sector.
pub const SECTOR: u64 = 512;

/// The bytes that one request moves at most.
pub const DATA_BYTES: u64 = 65536;

/// Where the status byte lies behind the request header.
pub const STATUS_OFFSET: u64 = 16;

/// How often the used ring is read before a request counts as lost.
pub const POLL_LIMIT: u64 = 50_000_000;

/// The outcome of polling a PCI operation once.
#[derive(Debug)]
pub enum Polled<T> {
    Ready(T),
    Pending,
}

/// Drive an operation that completes without suspending: one poll, and nothing where it
/// is still pending.
pub fn poll_eager<T>(polled: Polled<T>) -> (value: Option<T>)
    ensures
        value == match polled {
            Polled::Ready(ready) => Some(ready),
            Polled::Pending => None,
        },
{
    match polled {
        Polled::Ready(ready) => Some(ready),
        Polled::Pending => None,
    }
}

/// What an operation reports that did not complete in one poll.
pub open spec fn suspended() -> Seq<char> {
    "the pci provider suspended"@
}

/// Run one PCI operation eagerly and flatten its outcome, labelling failures with `what`.
pub fn pci_call<T>(what: &str, polled: Polled<Result<T, String>>) -> (result: Result<T, String>)
    ensures
        match polled {
            Polled::Ready(Ok(value)) => result == Ok::<T, String>(value),
            Polled::Ready(Err(error)) => result matches Err(text) && text@ == labelled(
                what@,
                error@,
            ),
            Polled::Pending => result matches Err(text) && text@ == labelled(what@, suspended()),
        },
{
    match poll_eager(polled) {
        None => crate::device::pci_call(
            what,
            Err(String::from_str("the pci provider suspended")),
        ),
        Some(outcome) => crate::device::pci_call(what, outcome),
    }
}

/// A brought-up block device.
#[derive(Debug)]
pub struct Disk {
    /// The doorbell of the queue, as an offset within the notify BAR.
    pub notify_offset: u64,
    pub queue_size: u16,
    /// Requests published so far, counting round.
    pub avail_index: u16,
    /// Completions consumed so far, counting round.
    pub used_index: u16,
    pub capacity_bytes: u64,
    /// The addresses of the header page and of the data buffer, as the device sees them.
    pub header_address: u64,
    pub data_address: u64,
}

/// The sectors that a device reported.
pub open spec fn sectors_of(learnt: Learnt) -> int {
    learnt.capacity_high * 0x1_0000_0000 + learnt.capacity_low
}

/// The line that announces a device.
pub open spec fn banner_text(learnt: Learnt) -> Seq<char> {
    "disk.virtio: virtio-blk "@ + decimal(sectors_of(learnt) as nat) + " sectors ("@ + decimal(
        (sectors_of(learnt) * SECTOR / 0x10_0000) as nat,
    ) + " MiB), queue size "@ + decimal(learnt.first.size as nat)
}

/// One block request.
#[derive(Debug)]
pub struct Transfer {
    pub write: bool,
    pub sectors: u32,
    pub phase: TransferPhase,
}

/// Where a request stands.
#[derive(Clone, Copy, PartialEq, Eq, Structural, Debug)]
pub enum TransferPhase {
    /// Ringing the doorbell.
    Kick,
    /// Watching the used ring.
    Poll { spins: u64 },
    /// Reading the status byte.
    Status,
    /// Reading the data.
    Data,
}

/// What a request does next.
#[derive(Debug)]
pub enum TransferStep {
    /// Perform this and hand back the reply.
    Ask(Request),
    /// The request is complete; a read carries its bytes.
    Complete(Option<Vec<u8>>),
    /// The request failed.
    Failed(String),
}

/// What a request does next, over contents.
pub enum TransferAnswer {
    Ask(Wanted),
    Complete(Option<Seq<u8>>),
    Failed(Seq<char>),
}

impl View for TransferStep {
    type V = TransferAnswer;

    open spec fn view(&self) -> TransferAnswer {
        match self {
            TransferStep::Ask(request) => TransferAnswer::Ask(request@),
            TransferStep::Complete(Some(bytes)) => TransferAnswer::Complete(Some(bytes@)),
            TransferStep::Complete(None) => TransferAnswer::Complete(None),
            TransferStep::Failed(text) => TransferAnswer::Failed(text@),
        }
    }
}

/// The header of a request: its type, a reserved word and its first sector.
pub open spec fn header(write: bool, sector: u64) -> Seq<u8> {
    le32(
        if write {
            1
        } else {
            0
        },
    ) + le32(0) + le64(sector)
}

/// A store into the ring page.
pub open spec fn ring_store(offset: int, bytes: Seq<u8>) -> Store {
    Store { buffer: Buffer::Rings, offset, bytes }
}

/// Everything that publishes a request: the header, a status that no device writes, the
/// data of a write, the chain of three descriptors, and the entry and index of the
/// available ring.
pub open spec fn publication(
    disk: Disk,
    write: bool,
    sector: u64,
    sectors: u32,
    payload: Option<Seq<u8>>,
) -> Seq<Store> {
    let opening = seq![
        Store { buffer: Buffer::Header, offset: 0, bytes: header(write, sector) },
        Store { buffer: Buffer::Header, offset: STATUS_OFFSET as int, bytes: seq![0xffu8] },
    ];
    let data = match payload {
        Some(bytes) => seq![Store { buffer: Buffer::Data, offset: 0, bytes }],
        None => seq![],
    };
    let flags: u16 = if write {
        DESC_NEXT
    } else {
        3
    };
    opening + data + seq![
        ring_store(0, descriptor(disk.header_address, 16, DESC_NEXT, 1)),
        ring_store(16, descriptor(disk.data_address, (sectors * SECTOR) as u32, flags, 2)),
        ring_store(
            32,
            descriptor((disk.header_address + STATUS_OFFSET) as u64, 1, DESC_WRITE, 0),
        ),
        ring_store(
            AVAIL_OFFSET + 4 + 2 * (disk.avail_index % disk.queue_size),
            le16(0),
        ),
        ring_store(AVAIL_OFFSET + 2, le16(counted(disk.avail_index))),
    ]
}

/// The access of a phase.
pub open spec fn transfer_access(disk: Disk, transfer: Transfer) -> Access {
    match transfer.phase {
        TransferPhase::Kick => Access::Write {
            window: Window::Notify,
            register: disk.notify_offset,
            width: Width::Word,
            value: 0,
        },
        TransferPhase::Poll { .. } => Access::Fetch {
            buffer: Buffer::Rings,
            offset: (USED_OFFSET + 2) as u64,
            len: 2,
        },
        TransferPhase::Status => Access::Fetch {
            buffer: Buffer::Header,
            offset: STATUS_OFFSET,
            len: 1,
        },
        TransferPhase::Data => Access::Fetch {
            buffer: Buffer::Data,
            offset: 0,
            len: (transfer.sectors * SECTOR) as u64,
        },
    }
}

/// A request in another phase.
pub open spec fn in_phase(disk: Disk, transfer: Transfer, phase: TransferPhase) -> (
    Disk,
    Transfer,
    TransferAnswer,
) {
    let there = Transfer { phase, ..transfer };
    (disk, there, TransferAnswer::Ask(only(transfer_access(disk, there))))
}

/// A request after a reply.
pub open spec fn transferred(disk: Disk, transfer: Transfer, answer: Answer) -> (
    Disk,
    Transfer,
    TransferAnswer,
) {
    match transfer.phase {
        TransferPhase::Kick => match answer {
            Answer::Failed(error) => (
                disk,
                transfer,
                TransferAnswer::Failed(
                    failure(Kind::Disk, transfer_access(disk, transfer), error),
                ),
            ),
            _ => in_phase(disk, transfer, TransferPhase::Poll { spins: 0 }),
        },
        TransferPhase::Poll { spins } => if word_le(bytes_of(answer), 0) != disk.used_index {
            in_phase(
                Disk { used_index: counted(disk.used_index), ..disk },
                transfer,
                TransferPhase::Status,
            )
        } else if spins >= POLL_LIMIT {
            (
                disk,
                transfer,
                TransferAnswer::Failed(
                    "disk.virtio: the device did not complete the request (poll limit)"@,
                ),
            )
        } else {
            in_phase(disk, transfer, TransferPhase::Poll { spins: (spins + 1) as u64 })
        },
        TransferPhase::Status => {
            let status = bytes_of(answer)[0];
            if status != 0 {
                (
                    disk,
                    transfer,
                    TransferAnswer::Failed(
                        "disk.virtio: the device reported request status "@ + decimal(
                            status as nat,
                        ),
                    ),
                )
            } else if transfer.write {
                (disk, transfer, TransferAnswer::Complete(None))
            } else {
                in_phase(disk, transfer, TransferPhase::Data)
            }
        },
        TransferPhase::Data => (
            disk,
            transfer,
            TransferAnswer::Complete(Some(bytes_of(answer))),
        ),
    }
}

impl Transfer {
    /// A request moves no more than the data buffer holds.
    pub open spec fn wf(self) -> bool {
        &&& self.sectors * SECTOR <= DATA_BYTES
        &&& self.phase matches TransferPhase::Poll { spins } ==> spins <= POLL_LIMIT
    }
}

impl Disk {
    /// The queue has room and the shared buffers lie within the address space.
    pub open spec fn wf(self) -> bool {
        &&& 1 <= self.queue_size
        &&& self.header_address + STATUS_OFFSET <= u64::MAX
    }

    /// The driver of a device that was brought up.
    pub fn new(learnt: &Learnt, header_address: u64, data_address: u64) -> (disk: Disk)
        requires
            1 <= learnt.first.size,
            header_address + STATUS_OFFSET <= u64::MAX,
            sectors_of(*learnt) * SECTOR <= u64::MAX,
        ensures
            disk.wf(),
            disk == (Disk {
                notify_offset: learnt.first.notify_offset,
                queue_size: learnt.first.size,
                avail_index: 0,
                used_index: 0,
                capacity_bytes: (sectors_of(*learnt) * SECTOR) as u64,
                header_address,
                data_address,
            }),
    {
        let sectors: u64 = learnt.capacity_high as u64 * 0x1_0000_0000 + learnt.capacity_low as u64;
        Disk {
            notify_offset: learnt.first.notify_offset,
            queue_size: learnt.first.size,
            avail_index: 0,
            used_index: 0,
            capacity_bytes: sectors * SECTOR,
            header_address,
            data_address,
        }
    }

    /// The line that announces a device.
    pub fn banner(learnt: &Learnt) -> (line: String)
        requires
            sectors_of(*learnt) * SECTOR <= u64::MAX,
        ensures
            line@ == banner_text(*learnt),
    {
        let sectors: u64 = learnt.capacity_high as u64 * 0x1_0000_0000 + learnt.capacity_low as u64;
        let mut line = String::from_str("disk.virtio: virtio-blk ");
        push_decimal(&mut line, sectors);
        line.append(" sectors (");
        push_decimal(&mut line, sectors * SECTOR / 0x10_0000);
        line.append(" MiB), queue size ");
        push_decimal(&mut line, learnt.first.size as u64);
        line
    }

    /// Publish a request and ring the doorbell.
    pub fn transfer(
        &mut self,
        write: bool,
        sector: u64,
        sectors: u32,
        payload: Option<Vec<u8>>,
    ) -> (begun: (Transfer, Request))
        requires
            old(self).wf(),
            sectors * SECTOR <= DATA_BYTES,
        ensures
            final(self).wf(),
            *final(self) == (Disk { avail_index: counted(old(self).avail_index), ..*old(self) }),
            begun.0 == (Transfer { write, sectors, phase: TransferPhase::Kick }),
            begun.0.wf(),
            begun.1@ == after_stores(
                publication(
                    *old(self),
                    write,
                    sector,
                    sectors,
                    content_of(payload),
                ),
                transfer_access(*old(self), begun.0),
            ),
    {
        let ghost contents = content_of(payload);
        let mut writes: Vec<MemoryWrite> = Vec::new();
        let mut head: Vec<u8> = Vec::new();
        push_le32(
            &mut head,
            if write {
                1
            } else {
                0
            },
        );
        push_le32(&mut head, 0);
        push_le64(&mut head, sector);
        assert(head@ =~= header(write, sector));
        push_store(&mut writes, Buffer::Header, 0, head);
        let mut preset: Vec<u8> = Vec::new();
        preset.push(0xff);
        assert(preset@ =~= seq![0xffu8]);
        push_store(&mut writes, Buffer::Header, STATUS_OFFSET, preset);
        match payload {
            Some(bytes) => push_store(&mut writes, Buffer::Data, 0, bytes),
            None => {},
        }
        let flags: u16 = if write {
            DESC_NEXT
        } else {
            3
        };
        let slot: u64 = (self.avail_index % self.queue_size) as u64;
        push_store(
            &mut writes,
            Buffer::Rings,
            0,
            write_descriptor(self.header_address, 16, DESC_NEXT, 1),
        );
        push_store(
            &mut writes,
            Buffer::Rings,
            16,
            write_descriptor(self.data_address, (sectors as u64 * SECTOR) as u32, flags, 2),
        );
        push_store(
            &mut writes,
            Buffer::Rings,
            32,
            write_descriptor(self.header_address + STATUS_OFFSET, 1, DESC_WRITE, 0),
        );
        push_store(&mut writes, Buffer::Rings, AVAIL_OFFSET + 4 + 2 * slot, word(0));
        self.avail_index = count(self.avail_index);
        push_store(&mut writes, Buffer::Rings, AVAIL_OFFSET + 2, word(self.avail_index));
        assert(stores(writes@) =~= publication(*old(self), write, sector, sectors, contents));
        let transfer = Transfer { write, sectors, phase: TransferPhase::Kick };
        let access = self.transfer_access(&transfer);
        (transfer, Request::after_stores(writes, access))
    }

    /// The access that a request waits for.
    pub fn transfer_access(&self, transfer: &Transfer) -> (access: Access)
        requires
            transfer.wf(),
        ensures
            access == transfer_access(*self, *transfer),
    {
        match transfer.phase {
            TransferPhase::Kick => Access::Write {
                window: Window::Notify,
                register: self.notify_offset,
                width: Width::Word,
                value: 0,
            },
            TransferPhase::Poll { .. } => Access::Fetch {
                buffer: Buffer::Rings,
                offset: USED_OFFSET + 2,
                len: 2,
            },
            TransferPhase::Status => Access::Fetch {
                buffer: Buffer::Header,
                offset: STATUS_OFFSET,
                len: 1,
            },
            TransferPhase::Data => Access::Fetch {
                buffer: Buffer::Data,
                offset: 0,
                len: transfer.sectors as u64 * SECTOR,
            },
        }
    }

    fn turn(&self, transfer: &mut Transfer, phase: TransferPhase) -> (step: TransferStep)
        requires
            (Transfer { phase, ..*old(transfer) }).wf(),
        ensures
            (*self, *final(transfer), step@) == in_phase(*self, *old(transfer), phase),
            final(transfer).wf(),
    {
        transfer.phase = phase;
        TransferStep::Ask(Request::only(self.transfer_access(transfer)))
    }

    /// Take the reply to a request's pending access and say what comes next.
    pub fn transfer_next(&mut self, transfer: &mut Transfer, reply: Reply) -> (step: TransferStep)
        requires
            old(self).wf(),
            old(transfer).wf(),
            fits(transfer_access(*old(self), *old(transfer)), reply@),
        ensures
            final(self).wf(),
            final(transfer).wf(),
            (*final(self), *final(transfer), step@) == transferred(
                *old(self),
                *old(transfer),
                reply@,
            ),
    {
        match transfer.phase {
            TransferPhase::Kick => match reply {
                Reply::Failed(error) => TransferStep::Failed(
                    access_failure(Kind::Disk, self.transfer_access(transfer), error),
                ),
                _ => self.turn(transfer, TransferPhase::Poll { spins: 0 }),
            },
            TransferPhase::Poll { spins } => {
                let used: u16 = match &reply {
                    Reply::Bytes(raw) => read_le16(raw, 0),
                    _ => 0,
                };
                if used != self.used_index {
                    self.used_index = count(self.used_index);
                    self.turn(transfer, TransferPhase::Status)
                } else if spins >= POLL_LIMIT {
                    TransferStep::Failed(
                        String::from_str(
                            "disk.virtio: the device did not complete the request (poll limit)",
                        ),
                    )
                } else {
                    self.turn(transfer, TransferPhase::Poll { spins: spins + 1 })
                }
            },
            TransferPhase::Status => {
                let status: u8 = match &reply {
                    Reply::Bytes(raw) => raw[0],
                    _ => 0,
                };
                if status != 0 {
                    let mut text = String::from_str(
                        "disk.virtio: the device reported request status ",
                    );
                    push_decimal(&mut text, status as u64);
                    TransferStep::Failed(text)
                } else if transfer.write {
                    TransferStep::Complete(None)
                } else {
                    self.turn(transfer, TransferPhase::Data)
                }
            },
            TransferPhase::Data => match reply {
                Reply::Bytes(bytes) => TransferStep::Complete(Some(bytes)),
                _ => TransferStep::Complete(Some(Vec::new())),
            },
        }
    }
}

/// Failures of a byte-addressed operation.
#[derive(Debug)]
pub enum DiskFail {
    OutOfRange,
    Io(String),
}

/// The part of a byte range that one request covers.
#[derive(Clone, Copy, Debug)]
pub struct Chunk {
    /// The first sector, and how many.
    pub first_sector: u64,
    pub sectors: u32,
    /// Where the part starts within the first sector, and its length.
    pub within: u64,
    pub take: u64,
}

/// The part of the range from `cursor` on, `remaining` bytes long, that comes next.
pub open spec fn chunk_at(cursor: int, remaining: int) -> Chunk {
    let within = cursor % SECTOR as int;
    let take = if remaining < DATA_BYTES - within {
        remaining
    } else {
        DATA_BYTES - within
    };
    Chunk {
        first_sector: (cursor / SECTOR as int) as u64,
        sectors: ((within + take + SECTOR - 1) / SECTOR as int) as u32,
        within: within as u64,
        take: take as u64,
    }
}

/// Whether a part consists of whole sectors.
pub open spec fn is_aligned(chunk: Chunk) -> bool {
    chunk.within == 0 && chunk.take % SECTOR == 0
}

fn next_chunk(cursor: u64, remaining: u64) -> (chunk: Chunk)
    requires
        remaining > 0,
    ensures
        chunk == chunk_at(cursor as int, remaining as int),
        0 < chunk.take <= remaining,
        chunk.within < SECTOR,
        chunk.within + chunk.take <= chunk.sectors * SECTOR <= DATA_BYTES,
{
    let first_sector: u64 = cursor / SECTOR;
    let within: u64 = cursor - first_sector * SECTOR;
    let room: u64 = DATA_BYTES - within;
    let take: u64 = if remaining < room {
        remaining
    } else {
        room
    };
    let sectors: u64 = (within + take + SECTOR - 1) / SECTOR;
    Chunk { first_sector, sectors: sectors as u32, within, take }
}

impl Disk {
    /// The whole range must lie within the device; an empty range may lie at its end.
    pub fn check_range(&self, offset: u64, len: u64) -> (result: Result<(), DiskFail>)
        ensures
            match result {
                Ok(_) => offset + len <= self.capacity_bytes,
                Err(fail) => fail is OutOfRange && offset + len > self.capacity_bytes,
            },
    {
        match offset.checked_add(len) {
            None => Err(DiskFail::OutOfRange),
            Some(end) => if end > self.capacity_bytes {
                Err(DiskFail::OutOfRange)
            } else {
                Ok(())
            },
        }
    }
}

/// A byte range that is being read.
#[derive(Debug)]
pub struct ByteRead {
    pub cursor: u64,
    pub remaining: u64,
    pub out: Vec<u8>,
}

impl ByteRead {
    pub open spec fn wf(self) -> bool {
        self.cursor + self.remaining <= u64::MAX
    }

    /// Begin to read `len` bytes at `offset`.
    pub fn new(disk: &Disk, offset: u64, len: u64) -> (result: Result<ByteRead, DiskFail>)
        ensures
            match result {
                Ok(read) => {
                    &&& offset + len <= disk.capacity_bytes
                    &&& read.cursor == offset && read.remaining == len && read.out@ == Seq::<
                        u8,
                    >::empty()
                    &&& read.wf()
                },
                Err(fail) => fail is OutOfRange && offset + len > disk.capacity_bytes,
            },
    {
        match disk.check_range(offset, len) {
            Ok(_) => Ok(ByteRead { cursor: offset, remaining: len, out: Vec::new() }),
            Err(fail) => Err(fail),
        }
    }

    /// The request that comes next; none once the range is read.
    pub fn chunk(&self) -> (next: Option<Chunk>)
        requires
            self.wf(),
        ensures
            next == if self.remaining == 0 {
                None
            } else {
                Some(chunk_at(self.cursor as int, self.remaining as int))
            },
            next matches Some(chunk) ==> chunk.sectors * SECTOR <= DATA_BYTES,
    {
        if self.remaining == 0 {
            None
        } else {
            Some(next_chunk(self.cursor, self.remaining))
        }
    }

    /// Take the sectors of the pending request.
    pub fn took(&mut self, sectors: &[u8])
        requires
            old(self).wf(),
            old(self).remaining > 0,
            sectors@.len() == chunk_at(
                old(self).cursor as int,
                old(self).remaining as int,
            ).sectors * SECTOR,
        ensures
            final(self).wf(),
            ({
                let chunk = chunk_at(old(self).cursor as int, old(self).remaining as int);
                &&& final(self).cursor == old(self).cursor + chunk.take
                &&& final(self).remaining == old(self).remaining - chunk.take
                &&& final(self).out@ == old(self).out@ + sectors@.subrange(
                    chunk.within as int,
                    chunk.within + chunk.take,
                )
                &&& chunk.take > 0
            }),
    {
        let chunk = next_chunk(self.cursor, self.remaining);
        let part = slice_of(sectors, chunk.within as usize, (chunk.within + chunk.take) as usize);
        push_all(&mut self.out, &part);
        self.cursor = self.cursor + chunk.take;
        self.remaining = self.remaining - chunk.take;
    }
}

/// A byte range that is being written.
#[derive(Debug)]
pub struct ByteWrite {
    pub cursor: u64,
    pub written: usize,
    pub bytes: Vec<u8>,
}

/// What a write does next.
#[derive(Debug)]
pub enum WriteStep {
    /// Read the sectors of this part, to keep what lies around it.
    Read(Chunk),
    /// Write these bytes over the sectors of this part.
    Write(Chunk, Vec<u8>),
    /// The range is written.
    Complete,
}

/// The bytes of a write that the part at its cursor carries.
pub open spec fn part_of(write: ByteWrite, chunk: Chunk) -> Seq<u8> {
    write.bytes@.subrange(write.written as int, write.written + chunk.take)
}

/// `current` with `part` laid over it from `at` on.
pub open spec fn overlaid(current: Seq<u8>, at: int, part: Seq<u8>) -> Seq<u8> {
    current.subrange(0, at) + part + current.subrange(at + part.len(), current.len() as int)
}

impl ByteWrite {
    pub open spec fn wf(self) -> bool {
        &&& self.written <= self.bytes@.len()
        &&& self.cursor + (self.bytes@.len() - self.written) <= u64::MAX
    }

    /// How many bytes are left to write.
    pub open spec fn left(self) -> int {
        self.bytes@.len() - self.written
    }

    /// The part that comes next.
    pub open spec fn part(self) -> Chunk {
        chunk_at(self.cursor as int, self.left())
    }

    /// Begin to write `bytes` at `offset`.
    pub fn new(disk: &Disk, offset: u64, bytes: Vec<u8>) -> (result: Result<ByteWrite, DiskFail>)
        ensures
            match result {
                Ok(write) => {
                    &&& offset + bytes@.len() <= disk.capacity_bytes
                    &&& write == (ByteWrite { cursor: offset, written: 0, bytes })
                    &&& write.wf()
                },
                Err(fail) => fail is OutOfRange && offset + bytes@.len() > disk.capacity_bytes,
            },
    {
        match disk.check_range(offset, bytes.len() as u64) {
            Ok(_) => Ok(ByteWrite { cursor: offset, written: 0, bytes }),
            Err(fail) => Err(fail),
        }
    }

    /// What comes next: whole sectors are written at once, others are read first.
    pub fn next(&self) -> (step: WriteStep)
        requires
            self.wf(),
        ensures
            match step {
                WriteStep::Complete => self.left() == 0,
                WriteStep::Read(chunk) => {
                    &&& self.left() > 0 && chunk == self.part() && !is_aligned(chunk)
                    &&& chunk.sectors * SECTOR <= DATA_BYTES
                },
                WriteStep::Write(chunk, payload) => {
                    &&& self.left() > 0 && chunk == self.part() && is_aligned(chunk)
                    &&& payload@ == part_of(*self, chunk)
                    &&& payload@.len() == chunk.sectors * SECTOR <= DATA_BYTES
                },
            },
    {
        if self.written == self.bytes.len() {
            return WriteStep::Complete;
        }
        let chunk = next_chunk(self.cursor, (self.bytes.len() - self.written) as u64);
        if chunk.within == 0 && chunk.take % SECTOR == 0 {
            WriteStep::Write(
                chunk,
                slice_of(&self.bytes, self.written, self.written + chunk.take as usize),
            )
        } else {
            WriteStep::Read(chunk)
        }
    }

    /// Lay the pending part over the sectors that were read for it.
    pub fn overlay(&self, current: Vec<u8>) -> (payload: Result<Vec<u8>, DiskFail>)
        requires
            self.wf(),
            self.left() > 0,
        ensures
            match payload {
                Ok(bytes) => {
                    &&& current@.len() >= self.part().sectors * SECTOR
                    &&& bytes@ == overlaid(
                        current@,
                        self.part().within as int,
                        part_of(*self, self.part()),
                    )
                },
                Err(fail) => {
                    &&& current@.len() < self.part().sectors * SECTOR
                    &&& fail matches DiskFail::Io(text) && text@
                        == "disk.virtio: short read during read-modify-write"@
                },
            },
    {
        let chunk = next_chunk(self.cursor, (self.bytes.len() - self.written) as u64);
        if (current.len() as u64) < chunk.sectors as u64 * SECTOR {
            return Err(
                DiskFail::Io(
                    String::from_str("disk.virtio: short read during read-modify-write"),
                ),
            );
        }
        let within: usize = chunk.within as usize;
        let take: usize = chunk.take as usize;
        let mut out = slice_of(&current, 0, within);
        let part = slice_of(&self.bytes, self.written, self.written + take);
        push_all(&mut out, &part);
        let rest = slice_of(&current, within + take, current.len());
        push_all(&mut out, &rest);
        Ok(out)
    }

    /// The pending part has been written.
    pub fn wrote(&mut self)
        requires
            old(self).wf(),
            old(self).left() > 0,
        ensures
            final(self).wf(),
            final(self).bytes == old(self).bytes,
            final(self).cursor == old(self).cursor + old(self).part().take,
            final(self).written == old(self).written + old(self).part().take,
            old(self).part().take > 0,
    {
        let chunk = next_chunk(self.cursor, (self.bytes.len() - self.written) as u64);
        self.cursor = self.cursor + chunk.take;
        self.written = self.written + chunk.take as usize;
    }
}

/// The bytes that a device holds in a run of sectors.
pub open spec fn sector_bytes(content: Seq<u8>, first: int, count: int) -> Seq<u8> {
    content.subrange(first * SECTOR, (first + count) * SECTOR)
}

/// What the requests of a read gather from a device that holds `content`.
pub open spec fn gathered(content: Seq<u8>, cursor: int, remaining: int) -> Seq<u8>
    decreases remaining,
{
    if remaining <= 0 {
        Seq::empty()
    } else {
        let chunk = chunk_at(cursor, remaining);
        let sectors = sector_bytes(content, chunk.first_sector as int, chunk.sectors as int);
        if chunk.take <= 0 {
            Seq::empty()
        } else {
            sectors.subrange(chunk.within as int, chunk.within + chunk.take) + gathered(
                content,
                cursor + chunk.take,
                remaining - chunk.take,
            )
        }
    }
}

/// What a device holds after the requests of a write.
pub open spec fn rewritten(content: Seq<u8>, cursor: int, bytes: Seq<u8>) -> Seq<u8>
    decreases bytes.len(),
{
    if bytes.len() == 0 {
        content
    } else {
        let chunk = chunk_at(cursor, bytes.len() as int);
        if chunk.take == 0 {
            content
        } else {
            let first = chunk.first_sector as int;
            let part = bytes.subrange(0, chunk.take as int);
            let payload = if is_aligned(chunk) {
                part
            } else {
                overlaid(
                    sector_bytes(content, first, chunk.sectors as int),
                    chunk.within as int,
                    part,
                )
            };
            rewritten(
                overlaid(content, first * SECTOR, payload),
                cursor + chunk.take,
                bytes.subrange(chunk.take as int, bytes.len() as int),
            )
        }
    }
}

proof fn lemma_chunk(cursor: int, remaining: int, size: int)
    requires
        0 <= cursor,
        0 < remaining,
        cursor + remaining <= size <= u64::MAX,
        size % SECTOR as int == 0,
    ensures
        ({
            let chunk = chunk_at(cursor, remaining);
            &&& chunk.first_sector * SECTOR + chunk.within == cursor
            &&& 0 < chunk.take <= remaining
            &&& chunk.within + chunk.take <= chunk.sectors * SECTOR
            &&& (chunk.first_sector + chunk.sectors) * SECTOR <= size
            &&& is_aligned(chunk) ==> chunk.take == chunk.sectors * SECTOR
        }),
{
    let chunk = chunk_at(cursor, remaining);
    let within = cursor % 512;
    let end = cursor + chunk.take;
    assert(end <= size);
    assert(chunk.first_sector == cursor / 512);
    assert(chunk.sectors == (within + chunk.take + 511) / 512);
}

/// Reading a byte range gives the bytes of the range, however it falls into sectors.
pub proof fn law_read_gives_the_range(content: Seq<u8>, offset: int, len: int)
    requires
        0 <= offset,
        0 <= len,
        offset + len <= content.len() <= u64::MAX,
        content.len() % SECTOR as nat == 0,
    ensures
        gathered(content, offset, len) == content.subrange(offset, offset + len),
    decreases len,
{
    if len > 0 {
        let chunk = chunk_at(offset, len);
        lemma_chunk(offset, len, content.len() as int);
        let sectors = sector_bytes(content, chunk.first_sector as int, chunk.sectors as int);
        law_read_gives_the_range(content, offset + chunk.take, len - chunk.take);
        assert(sectors.subrange(chunk.within as int, chunk.within + chunk.take)
            =~= content.subrange(offset, offset + chunk.take));
        assert(content.subrange(offset, offset + len) =~= content.subrange(
            offset,
            offset + chunk.take,
        ) + content.subrange(offset + chunk.take, offset + len));
    } else {
        assert(content.subrange(offset, offset + len) =~= Seq::empty());
    }
}

/// Writing a byte range replaces the bytes of the range and no other, however it falls
/// into sectors.
pub proof fn law_write_replaces_the_range(content: Seq<u8>, offset: int, bytes: Seq<u8>)
    requires
        0 <= offset,
        offset + bytes.len() <= content.len() <= u64::MAX,
        content.len() % SECTOR as nat == 0,
    ensures
        rewritten(content, offset, bytes) == overlaid(content, offset, bytes),
    decreases bytes.len(),
{
    if bytes.len() > 0 {
        let chunk = chunk_at(offset, bytes.len() as int);
        lemma_chunk(offset, bytes.len() as int, content.len() as int);
        let first = chunk.first_sector as int;
        let part = bytes.subrange(0, chunk.take as int);
        let rest = bytes.subrange(chunk.take as int, bytes.len() as int);
        let current = sector_bytes(content, first, chunk.sectors as int);
        let payload = if is_aligned(chunk) {
            part
        } else {
            overlaid(current, chunk.within as int, part)
        };
        let after = overlaid(content, first * SECTOR, payload);
        assert(payload.len() == chunk.sectors * SECTOR);
        assert(after =~= overlaid(content, offset, part));
        law_write_replaces_the_range(after, offset + chunk.take, rest);
        assert(overlaid(after, offset + chunk.take, rest) =~= overlaid(content, offset, bytes));
    } else {
        assert(overlaid(content, offset, bytes) =~= content);
    }
}

/// What was written is what is read back.
pub proof fn law_read_after_write(content: Seq<u8>, offset: int, bytes: Seq<u8>)
    requires
        0 <= offset,
        offset + bytes.len() <= content.len() <= u64::MAX,
        content.len() % SECTOR as nat == 0,
    ensures
        gathered(rewritten(content, offset, bytes), offset, bytes.len() as int) == bytes,
{
    law_write_replaces_the_range(content, offset, bytes);
    let after = rewritten(content, offset, bytes);
    law_read_gives_the_range(after, offset, bytes.len() as int);
    assert(after.subrange(offset, offset + bytes.len()) =~= bytes);
}

/// How much of a request is left.
pub open spec fn transfer_left(transfer: Transfer) -> int {
    match transfer.phase {
        TransferPhase::Kick => POLL_LIMIT + 4,
        TransferPhase::Poll { spins } => POLL_LIMIT - spins + 3,
        TransferPhase::Status => 2,
        TransferPhase::Data => 1,
    }
}

/// Every request ends, whatever the device answers: each step that asks for something more
/// leaves less of it.
pub proof fn law_transfer_ends(disk: Disk, transfer: Transfer, answer: Answer)
    requires
        transfer.wf(),
    ensures
        transferred(disk, transfer, answer).2 is Ask ==> 0 <= transfer_left(
            transferred(disk, transfer, answer).1,
        ) < transfer_left(transfer),
{
}

/// A request that was published onto a queue with nothing in flight and that completes, or
/// that the device refuses, leaves nothing in flight.
pub proof fn law_finished_leaves_nothing_in_flight(
    disk: Disk,
    transfer: Transfer,
    answer: Answer,
)
    requires
        transfer.wf(),
        transfer.phase is Poll,
        counted(disk.used_index) == disk.avail_index,
    ensures
        ({
            let (after, there, _) = transferred(disk, transfer, answer);
            &&& there.phase == TransferPhase::Status ==> after.used_index == after.avail_index
            &&& there.phase is Poll ==> after == disk
        }),
{
}

/// Writing a byte range puts each byte at its place and leaves every byte outside the range
/// as it was, also those of sectors that are written in part.
pub proof fn law_write_keeps_the_rest(content: Seq<u8>, offset: int, bytes: Seq<u8>)
    requires
        0 <= offset,
        offset + bytes.len() <= content.len() <= u64::MAX,
        content.len() % SECTOR as nat == 0,
    ensures
        ({
            let after = rewritten(content, offset, bytes);
            &&& after.len() == content.len()
            &&& forall|i: int|
                0 <= i < content.len() ==> #[trigger] after[i] == if offset <= i < offset
                    + bytes.len() {
                    bytes[i - offset]
                } else {
                    content[i]
                }
        }),
{
    law_write_replaces_the_range(content, offset, bytes);
}

/// Reading a byte range gives each byte from its place.
pub proof fn law_read_is_byte_by_byte(content: Seq<u8>, offset: int, len: int)
    requires
        0 <= offset,
        0 <= len,
        offset + len <= content.len() <= u64::MAX,
        content.len() % SECTOR as nat == 0,
    ensures
        gathered(content, offset, len).len() == len,
        forall|i: int|
            0 <= i < len ==> #[trigger] gathered(content, offset, len)[i] == content[offset + i],
{
    law_read_gives_the_range(content, offset, len);
}

/// The part of a range that one request covers starts where the range does, is as long as
/// the range or as the data buffer allows, and its sectors are those that it touches and no
/// others. It needs no reading first exactly where it fills its sectors.
pub proof fn law_part_covers_its_sectors(cursor: int, remaining: int)
    requires
        0 <= cursor,
        0 < remaining,
        cursor + remaining <= u64::MAX,
    ensures
        ({
            let chunk = chunk_at(cursor, remaining);
            let start = 512 * chunk.first_sector;
            let end = start + 512 * chunk.sectors;
            &&& start <= cursor < start + 512
            &&& chunk.within == cursor - start
            &&& 0 < chunk.take <= remaining
            &&& cursor + chunk.take <= end < cursor + chunk.take + 512
            &&& end - start <= 65536
            &&& chunk.take < remaining ==> end - start == 65536 && cursor + chunk.take == end
            &&& is_aligned(chunk) <==> cursor == start && cursor + chunk.take == end
        }),
{
}

/// The header of a request tells the device whether it is a write, and its first sector.
pub proof fn law_header_is_read_back(write: bool, sector: u64)
    ensures
        ({
            let bytes = header(write, sector);
            &&& bytes.len() == 16
            &&& dword_le(bytes, 0) == if write {
                1u32
            } else {
                0u32
            }
            &&& dword_le(bytes, 4) == 0
            &&& qword_le(bytes, 8) == sector
        }),
{
    let bytes = header(write, sector);
    let kind: u32 = if write {
        1
    } else {
        0
    };
    assert(bytes.subrange(0, 4) =~= le32(kind));
    assert(bytes.subrange(4, 8) =~= le32(0));
    assert(bytes.subrange(8, 16) =~= le64(sector));
    law_le32_is_found(bytes, 0, kind);
    law_le32_is_found(bytes, 4, 0);
    law_le64_is_found(bytes, 8, sector);
}

/// Publishing a request puts its header and a status that no device writes into the header
/// page, the bytes of a write into the data buffer, and three descriptors into the ring page:
/// the header, the data, which the device writes exactly for a read, and the status.
pub proof fn law_publication_describes_the_request(
    disk: Disk,
    write: bool,
    sector: u64,
    sectors: u32,
    payload: Option<Seq<u8>>,
)
    requires
        disk.wf(),
        sectors * SECTOR <= DATA_BYTES,
    ensures
        ({
            let writes = publication(disk, write, sector, sectors, payload);
            let at = if payload is Some {
                3int
            } else {
                2
            };
            let (one, two, three) = (writes[at], writes[at + 1], writes[at + 2]);
            &&& writes.len() == at + 5
            &&& writes[0].buffer == Buffer::Header && writes[0].offset == 0 && writes[0].bytes
                == header(write, sector)
            &&& writes[1].buffer == Buffer::Header && writes[1].offset == 16 && writes[1].bytes
                == seq![0xffu8]
            &&& payload matches Some(bytes) ==> writes[2].buffer == Buffer::Data && writes[2].offset
                == 0 && writes[2].bytes == bytes
            &&& one.buffer == Buffer::Rings && one.offset == 0 && one.bytes == descriptor(
                disk.header_address,
                16,
                1,
                1,
            )
            &&& two.buffer == Buffer::Rings && two.offset == 16 && two.bytes == descriptor(
                disk.data_address,
                (512 * sectors) as u32,
                if write {
                    1
                } else {
                    3
                },
                2,
            )
            &&& three.buffer == Buffer::Rings && three.offset == 32 && three.bytes == descriptor(
                (disk.header_address + 16) as u64,
                1,
                2,
                0,
            )
            &&& writes[at + 3].buffer == Buffer::Rings && writes[at + 3].offset == AVAIL_OFFSET + 4
                + 2 * (disk.avail_index % disk.queue_size) && writes[at + 3].bytes == le16(0)
            &&& writes[at + 4].buffer == Buffer::Rings && writes[at + 4].offset == AVAIL_OFFSET + 2
                && writes[at + 4].bytes == le16(
                if disk.avail_index == 65535 {
                    0
                } else {
                    (disk.avail_index + 1) as u16
                },
            )
        }),
{
}

/// A request is complete only once the device showed a completion and reported success; a
/// read then gives the bytes of the data buffer, all sectors of it. Any other status fails.
pub proof fn law_request_ends_by_its_status(disk: Disk, transfer: Transfer, answer: Answer)
    requires
        transfer.wf(),
        fits(transfer_access(disk, transfer), answer),
    ensures
        ({
            let (after, there, step) = transferred(disk, transfer, answer);
            let bytes = answer->Bytes_0;
            &&& transfer.phase is Poll ==> (there.phase is Status <==> word_le(bytes, 0)
                != disk.used_index)
            &&& transfer.phase is Poll && there.phase is Status ==> after.used_index
                == if disk.used_index == 65535 {
                0
            } else {
                disk.used_index + 1
            }
            &&& transfer.phase is Status ==> {
                &&& bytes[0] != 0 <==> step is Failed
                &&& bytes[0] == 0 && transfer.write ==> step == TransferAnswer::Complete(None)
                &&& bytes[0] == 0 && !transfer.write ==> there.phase is Data && step
                    == TransferAnswer::Ask(
                    only(
                        Access::Fetch {
                            buffer: Buffer::Data,
                            offset: 0,
                            len: (512 * transfer.sectors) as u64,
                        },
                    ),
                )
            }
            &&& transfer.phase is Data ==> step == TransferAnswer::Complete(Some(bytes))
            &&& step is Complete ==> transfer.phase is Data || transfer.phase is Status
            &&& there.write == transfer.write && there.sectors == transfer.sectors
        }),
{
}

/// The size of a device is what it reported, 512 bytes for each sector.
pub proof fn law_capacity_counts_all_sectors(learnt: Learnt)
    ensures
        sectors_of(learnt) % 0x1_0000_0000 == learnt.capacity_low,
        sectors_of(learnt) / 0x1_0000_0000 == learnt.capacity_high,
{
}

/// What a device holds after every step of a write from where it stands: each part is put over
/// the sectors that it covers, those that it fills in part being read first.
pub open spec fn carried_out(content: Seq<u8>, write: ByteWrite) -> Seq<u8>
    decreases write.left(),
{
    if write.left() <= 0 || write.part().take == 0 {
        content
    } else {
        let chunk = write.part();
        let first = chunk.first_sector as int;
        let part = part_of(write, chunk);
        let payload = if is_aligned(chunk) {
            part
        } else {
            overlaid(
                sector_bytes(content, first, chunk.sectors as int),
                chunk.within as int,
                part,
            )
        };
        let next = ByteWrite {
            cursor: (write.cursor + chunk.take) as u64,
            written: (write.written + chunk.take) as usize,
            bytes: write.bytes,
        };
        if 0 <= next.left() < write.left() {
            carried_out(overlaid(content, first * SECTOR, payload), next)
        } else {
            content
        }
    }
}

proof fn lemma_carried_out(content: Seq<u8>, write: ByteWrite)
    requires
        write.wf(),
        write.cursor + write.left() <= content.len() <= u64::MAX,
        content.len() % SECTOR as nat == 0,
    ensures
        carried_out(content, write) == rewritten(
            content,
            write.cursor as int,
            write.bytes@.subrange(write.written as int, write.bytes@.len() as int),
        ),
    decreases write.left(),
{
    let rest = write.bytes@.subrange(write.written as int, write.bytes@.len() as int);
    if write.left() > 0 {
        let chunk = write.part();
        lemma_chunk(write.cursor as int, write.left(), content.len() as int);
        assert(write.bytes.len() == write.bytes@.len());
        let first = chunk.first_sector as int;
        let part = part_of(write, chunk);
        assert(part =~= rest.subrange(0, chunk.take as int));
        let payload = if is_aligned(chunk) {
            part
        } else {
            overlaid(
                sector_bytes(content, first, chunk.sectors as int),
                chunk.within as int,
                part,
            )
        };
        let after = overlaid(content, first * SECTOR, payload);
        assert(payload.len() == chunk.sectors * SECTOR);
        assert(after.len() == content.len());
        let next = ByteWrite {
            cursor: (write.cursor + chunk.take) as u64,
            written: (write.written + chunk.take) as usize,
            bytes: write.bytes,
        };
        lemma_carried_out(after, next);
        assert(next.bytes@.subrange(next.written as int, next.bytes@.len() as int)
            =~= rest.subrange(chunk.take as int, rest.len() as int));
    }
}

/// A write that is begun at an offset and carried out step by step leaves each of its bytes at
/// its place and every other byte of the device as it was.
pub proof fn law_steps_write_every_byte(content: Seq<u8>, write: ByteWrite)
    requires
        write.written == 0,
        write.cursor + write.bytes@.len() <= content.len() <= u64::MAX,
        content.len() % SECTOR as nat == 0,
    ensures
        carried_out(content, write).len() == content.len(),
        forall|i: int|
            0 <= i < content.len() ==> #[trigger] carried_out(content, write)[i] == if write.cursor
                <= i < write.cursor + write.bytes@.len() {
                write.bytes@[i - write.cursor]
            } else {
                content[i]
            },
{
    lemma_carried_out(content, write);
    assert(write.bytes@.subrange(0, write.bytes@.len() as int) =~= write.bytes@);
    law_write_keeps_the_rest(content, write.cursor as int, write.bytes@);
}

/// What a value is over contents is of the same kind as the value itself: no two kinds are
/// taken for one another.
pub proof fn law_contents_keep_their_kind(transfer_step: TransferStep)
    ensures
        transfer_step is Ask <==> transfer_step@ is Ask,
        transfer_step is Complete <==> transfer_step@ is Complete,
        transfer_step is Failed <==> transfer_step@ is Failed,
{
}

/// A request rings its own doorbell, watches the index of the used ring, reads its one status
/// byte behind the header, and takes its data from the start of the data buffer.
pub proof fn law_request_looks_where_its_answer_is(disk: Disk, transfer: Transfer)
    ensures
        transfer.phase is Kick ==> transfer_access(disk, transfer) == (Access::Write {
            window: Window::Notify,
            register: disk.notify_offset,
            width: Width::Word,
            value: 0,
        }),
        transfer.phase is Poll ==> transfer_access(disk, transfer) == (Access::Fetch {
            buffer: Buffer::Rings,
            offset: 514,
            len: 2,
        }),
        transfer.phase is Status ==> transfer_access(disk, transfer) == (Access::Fetch {
            buffer: Buffer::Header,
            offset: STATUS_OFFSET,
            len: 1,
        }),
        transfer.phase is Data ==> transfer_access(disk, transfer) == (Access::Fetch {
            buffer: Buffer::Data,
            offset: 0,
            len: (512 * transfer.sectors) as u64,
        }),
{
}

} // verus!
