//! The conversation between a PCI driver and the machine below it.
//!
//! A driver never touches a device itself. It answers each [`Reply`] with a [`Request`]:
//! memory writes and console lines to perform in order, then one [`Access`] whose outcome
//! is the next reply.
use vstd::prelude::*;
use vstd::string::*;

verus! {

/// How many bytes one register access moves.
#[derive(Clone, Copy, PartialEq, Eq, Structural, Debug)]
pub enum Width {
    Byte,
    Word,
    Dword,
}

/// A register window of a device.
#[derive(Clone, Copy, PartialEq, Eq, Structural, Debug)]
pub enum Window {
    /// The virtio common configuration window.
    Common,
    /// The virtio device-specific configuration window.
    Device,
    /// The virtio notify window; its registers are offsets within the whole BAR.
    Notify,
    /// The virtio interrupt status window.
    Isr,
    /// The register block of a network controller.
    Registers,
}

/// A buffer that driver and device share.
#[derive(Clone, Copy, PartialEq, Eq, Structural, Debug)]
pub enum Buffer {
    /// The descriptor rings.
    Rings,
    /// The header and status of a block request.
    Header,
    /// The data of a block request.
    Data,
    /// The command and response of a display request.
    Command,
    /// The pixels that a display scans out.
    Framebuffer,
    /// The receive slots of a network controller.
    Receive,
    /// The frame that a network controller transmits.
    Transmit,
    /// The counters that a network controller dumps.
    Counters,
}

/// One access whose outcome the driver waits for.
#[derive(Clone, Copy, PartialEq, Eq, Structural, Debug)]
pub enum Access {
    /// Read from configuration space.
    Config { address: u32, width: Width },
    /// Read a register.
    Read { window: Window, register: u64, width: Width },
    /// Write a register.
    Write { window: Window, register: u64, width: Width, value: u64 },
    /// Read bytes of a shared buffer.
    Fetch { buffer: Buffer, offset: u64, len: u64 },
    /// Let the device master the bus.
    BusMaster,
    /// Allocate a shared buffer; the value of the reply is of no interest.
    Allocate { buffer: Buffer, len: u64 },
    /// Ask for one interrupt vector.
    EnableInterrupt,
    /// Wait for the interrupt.
    WaitInterrupt { bound: u64 },
    /// Nothing to wait for: the reply is [`Reply::Done`].
    Pause,
}

/// Bytes to put into a shared buffer.
#[derive(Debug)]
pub struct MemoryWrite {
    pub buffer: Buffer,
    pub offset: u64,
    pub bytes: Vec<u8>,
}

/// What a driver wants done next: the memory writes, then the console lines, then the
/// access.
#[derive(Debug)]
pub struct Request {
    pub writes: Vec<MemoryWrite>,
    pub lines: Vec<String>,
    pub access: Access,
}

/// What became of the access of a request.
#[derive(Debug)]
pub enum Reply {
    /// It was done.
    Done,
    /// It was done and read this register value.
    Value(u32),
    /// It was done and read these bytes.
    Bytes(Vec<u8>),
    /// It failed; the text names the error.
    Failed(String),
}

/// The bytes that one memory write puts at an offset of a buffer.
pub struct Store {
    pub buffer: Buffer,
    pub offset: int,
    pub bytes: Seq<u8>,
}

/// The content of a request.
pub struct Wanted {
    pub writes: Seq<Store>,
    pub lines: Seq<Seq<char>>,
    pub access: Access,
}

/// The content of a reply.
pub enum Answer {
    Done,
    Value(u32),
    Bytes(Seq<u8>),
    Failed(Seq<char>),
}

impl View for MemoryWrite {
    type V = Store;

    open spec fn view(&self) -> Store {
        Store { buffer: self.buffer, offset: self.offset as int, bytes: self.bytes@ }
    }
}

/// The stores of a list of memory writes, in order.
pub open spec fn stores(writes: Seq<MemoryWrite>) -> Seq<Store> {
    writes.map_values(|write: MemoryWrite| write@)
}

/// The contents of a list of lines, in order.
pub open spec fn line_texts(lines: Seq<String>) -> Seq<Seq<char>> {
    lines.map_values(|line: String| line@)
}

impl View for Request {
    type V = Wanted;

    open spec fn view(&self) -> Wanted {
        Wanted {
            writes: stores(self.writes@),
            lines: line_texts(self.lines@),
            access: self.access,
        }
    }
}

impl View for Reply {
    type V = Answer;

    open spec fn view(&self) -> Answer {
        match self {
            Reply::Done => Answer::Done,
            Reply::Value(value) => Answer::Value(*value),
            Reply::Bytes(bytes) => Answer::Bytes(bytes@),
            Reply::Failed(text) => Answer::Failed(text@),
        }
    }
}

/// A request that is one access and nothing else.
pub open spec fn only(access: Access) -> Wanted {
    Wanted { writes: Seq::empty(), lines: Seq::empty(), access }
}

/// A request that first performs `writes`.
pub open spec fn after_stores(writes: Seq<Store>, access: Access) -> Wanted {
    Wanted { writes, lines: Seq::empty(), access }
}

/// A request that first prints `line`.
pub open spec fn after_line(line: Seq<char>, access: Access) -> Wanted {
    Wanted { writes: Seq::empty(), lines: seq![line], access }
}

/// The register value of a reply; zero where it carries none.
pub open spec fn value_of(answer: Answer) -> u32 {
    match answer {
        Answer::Value(value) => value,
        _ => 0,
    }
}

/// The bytes of a reply; none where it carries none.
pub open spec fn bytes_of(answer: Answer) -> Seq<u8> {
    match answer {
        Answer::Bytes(bytes) => bytes,
        _ => Seq::empty(),
    }
}

/// Whether a reply is of the kind that an access gets: a read gets a value, a fetch gets
/// as many bytes as it asked for, and either may fail where a register or the bus is
/// involved.
pub open spec fn fits(access: Access, answer: Answer) -> bool {
    match access {
        Access::Config { .. } => answer is Value || answer is Failed,
        Access::Read { .. } => answer is Value || answer is Failed,
        Access::Fetch { len, .. } => answer matches Answer::Bytes(bytes) && bytes.len() == len,
        Access::Pause => answer is Done,
        _ => answer is Done || answer is Failed,
    }
}

/// Whether a reply is of the kind that an access gets.
pub fn reply_fits(access: Access, reply: &Reply) -> (fit: bool)
    ensures
        fit == fits(access, reply@),
{
    match access {
        Access::Config { .. } | Access::Read { .. } => match reply {
            Reply::Value(_) | Reply::Failed(_) => true,
            _ => false,
        },
        Access::Fetch { len, .. } => match reply {
            Reply::Bytes(bytes) => bytes.len() as u64 == len,
            _ => false,
        },
        Access::Pause => match reply {
            Reply::Done => true,
            _ => false,
        },
        _ => match reply {
            Reply::Done | Reply::Failed(_) => true,
            _ => false,
        },
    }
}

impl Request {
    /// A request that is one access and nothing else.
    pub fn only(access: Access) -> (request: Request)
        ensures
            request@ == only(access),
    {
        let request = Request { writes: Vec::new(), lines: Vec::new(), access };
        assert(request@.writes =~= Seq::empty());
        assert(request@.lines =~= Seq::empty());
        request
    }

    /// A request that first performs `writes`.
    pub fn after_stores(writes: Vec<MemoryWrite>, access: Access) -> (request: Request)
        ensures
            request@ == after_stores(stores(writes@), access),
    {
        let request = Request { writes, lines: Vec::new(), access };
        assert(request@.lines =~= Seq::empty());
        request
    }

    /// A request that first prints `line`.
    pub fn after_line(line: String, access: Access) -> (request: Request)
        ensures
            request@ == after_line(line@, access),
    {
        let mut lines: Vec<String> = Vec::new();
        lines.push(line);
        let request = Request { writes: Vec::new(), lines, access };
        assert(request@.writes =~= Seq::empty());
        assert(request@.lines =~= seq![line@]);
        request
    }
}

impl Reply {
    /// The register value of the reply; zero where it carries none.
    pub fn value(&self) -> (value: u32)
        ensures
            value == value_of(self@),
    {
        match self {
            Reply::Value(value) => *value,
            _ => 0,
        }
    }
}

/// Append one memory write to a list.
pub fn push_store(writes: &mut Vec<MemoryWrite>, buffer: Buffer, offset: u64, bytes: Vec<u8>)
    ensures
        stores(final(writes)@) == stores(old(writes)@).push(
            (Store { buffer, offset: offset as int, bytes: bytes@ }),
        ),
{
    writes.push(MemoryWrite { buffer, offset, bytes });
    assert(stores(writes@) =~= stores(old(writes)@).push(
        (Store { buffer, offset: offset as int, bytes: bytes@ }),
    ));
}

/// The next value of a ring index, which counts round.
pub open spec fn counted(index: u16) -> u16 {
    if index == u16::MAX {
        0
    } else {
        (index + 1) as u16
    }
}

/// The next value of a ring index, which counts round.
pub fn count(index: u16) -> (next: u16)
    ensures
        next == counted(index),
{
    if index == u16::MAX {
        0
    } else {
        index + 1
    }
}

/// `text` behind a label and a colon.
pub open spec fn labelled(what: Seq<char>, text: Seq<char>) -> Seq<char> {
    what + ": "@ + text
}

/// Flatten the outcome of one PCI operation: an error becomes a text that starts with
/// `what`.
pub fn pci_call<T>(what: &str, outcome: Result<T, String>) -> (result: Result<T, String>)
    ensures
        outcome matches Ok(value) ==> result == Ok::<T, String>(value),
        outcome matches Err(error) ==> (result matches Err(text) && text@ == labelled(
            what@,
            error@,
        )),
{
    match outcome {
        Ok(value) => Ok(value),
        Err(error) => {
            let mut text = String::from_str(what);
            text.append(": ");
            text.append(error.as_str());
            Err(text)
        },
    }
}

/// What a value is over contents is of the same kind as the value itself: no two kinds are
/// taken for one another.
pub proof fn law_contents_keep_their_kind(reply: Reply)
    ensures
        reply is Done <==> reply@ is Done,
        reply is Value <==> reply@ is Value,
        reply is Bytes <==> reply@ is Bytes,
        reply is Failed <==> reply@ is Failed,
{
}

} // verus!
