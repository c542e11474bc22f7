//! `gpu.virtio`: a framebuffer over the control queue of a virtio display device.
//!
//! [`Command`] carries one control command through the queue, after settling whatever a
//! cancelled operation left there; [`ScanOut`] sets the display up; drawing operations
//! are stores into the framebuffer followed by two commands.
use vstd::prelude::*;
use vstd::string::*;

use crate::bytes::{
    dword_le, law_le32_is_found, law_le64_is_found, le16, le32, le64, push_all,
    push_le32, push_le64, push_zeros, qword_le, read_le16, read_le32, slice_of, word_le, zero_bytes,
};
use crate::device::{
    after_line, after_stores, bytes_of, count, counted, fits, only, push_store, stores, Access,
    Answer, Buffer, MemoryWrite, Reply, Request, Store, Wanted, Width, Window,
};
use crate::gfx::{
    check_bounds, check_buffer, inside, lemma_inside_area, packed_len, refusal, GfxError,
    GfxFailure, ModeInfo, Rect, BYTES_PER_PIXEL,
};
use crate::slot::Slot;
use crate::text::{decimal, hex, push_decimal, push_hex, push_wide_decimal};
use crate::virtio::{
    access_failure, descriptor, failure, law_descriptor_is_read_back, word, write_descriptor, Kind,
};
use crate::virtio_start::{
    Learnt, AVAIL_OFFSET, DESC_NEXT, DESC_WRITE, DEVICE_STATUS, USED_OFFSET,
};

verus! {

/// Where the response lies within the command page, and its size.
pub const RESP_OFFSET: u64 = 1024;

pub const RESP_MAX: u64 = 1024;

/// The control header of every command and response.
pub const CTRL_HEADER: usize = 24;

/// The control commands and their responses.
pub const GET_DISPLAY_INFO: u32 = 0x0100;

pub const RESOURCE_CREATE_2D: u32 = 0x0101;

pub const SET_SCANOUT: u32 = 0x0103;

pub const RESOURCE_FLUSH: u32 = 0x0104;

pub const TRANSFER_TO_HOST_2D: u32 = 0x0105;

pub const RESOURCE_ATTACH_BACKING: u32 = 0x0106;

pub const OK_NODATA: u32 = 0x1100;

pub const OK_DISPLAY_INFO: u32 = 0x1101;

/// The pixel format: blue, green, red and an unused byte.
pub const FORMAT_B8G8R8X8: u32 = 2;

/// The one resource and the one scanout that the driver uses.
pub const RESOURCE_ID: u32 = 1;

pub const SCANOUT_ID: u32 = 0;

/// The largest framebuffer, in bytes.
pub const MAX_FRAMEBUFFER_BYTES: u64 = 0x40_0000;

/// How often the used ring is read before a command counts as lost.
pub const POLL_LIMIT: u64 = 50_000_000;

/// How often a command waits for an interrupt before it polls.
pub const WAIT_RETRIES: u32 = 4;

/// A brought-up display device.
#[derive(Clone, Copy, Debug)]
pub struct Gpu {
    /// The doorbell of the queue, as an offset within the notify BAR.
    pub notify_offset: u64,
    pub queue_size: u16,
    /// Commands published so far, counting round.
    pub avail_index: u16,
    /// Completions consumed so far, counting round.
    pub used_index: u16,
    /// The address of the command page, as the device sees it.
    pub command_address: u64,
    /// Whether there is an interrupt status window, and whether a vector was granted.
    pub isr: bool,
    pub interrupt: bool,
    /// Whether the fall-back to polling was announced.
    pub reported: bool,
}

/// What a command waits for.
#[derive(Clone, Copy, PartialEq, Eq, Structural, Debug)]
pub enum Stage {
    /// The completion of a command that a cancelled operation left behind.
    Draining,
    /// Its own completion.
    Issued,
}

/// Where a command stands.
#[derive(Clone, Copy, PartialEq, Eq, Structural, Debug)]
pub enum Phase {
    /// Ringing the doorbell.
    Kick,
    /// Looking at the used ring before a wait.
    Check { waits: u32 },
    /// Waiting for the interrupt.
    Park { waits: u32 },
    /// Clearing the interrupt status after a wait.
    Clear { waits: u32 },
    /// Clearing the interrupt status after a completion.
    Settle,
    /// Polling the used ring.
    Poll { spins: u64 },
    /// Reading the used ring for the report of a lost command.
    Dump,
    /// Reading the device status for the report of a lost command.
    Status,
    /// Reading the response.
    Response,
}

/// One control command.
#[derive(Debug)]
pub struct Command {
    pub command_type: u32,
    pub payload: Vec<u8>,
    pub expected: u32,
    pub stage: Stage,
    pub phase: Phase,
    /// The head of the used ring, for the report of a lost command.
    pub dump: Vec<u8>,
}

/// A command over contents.
pub struct Conversation {
    pub command_type: u32,
    pub payload: Seq<u8>,
    pub expected: u32,
    pub stage: Stage,
    pub phase: Phase,
    pub dump: Seq<u8>,
}

impl View for Command {
    type V = Conversation;

    open spec fn view(&self) -> Conversation {
        Conversation {
            command_type: self.command_type,
            payload: self.payload@,
            expected: self.expected,
            stage: self.stage,
            phase: self.phase,
            dump: self.dump@,
        }
    }
}

/// What a command does next.
#[derive(Debug)]
pub enum CommandStep {
    /// Perform this and hand back the reply.
    Ask(Request),
    /// The device answered as expected; this is the response.
    Complete(Vec<u8>),
    /// The command failed.
    Failed(String),
}

/// What a command does next, over contents.
pub enum CommandAnswer {
    Ask(Wanted),
    Complete(Seq<u8>),
    Failed(Seq<char>),
}

impl View for CommandStep {
    type V = CommandAnswer;

    open spec fn view(&self) -> CommandAnswer {
        match self {
            CommandStep::Ask(request) => CommandAnswer::Ask(request@),
            CommandStep::Complete(bytes) => CommandAnswer::Complete(bytes@),
            CommandStep::Failed(text) => CommandAnswer::Failed(text@),
        }
    }
}

/// The bytes of a command: its header, which is the type and zeros, and its payload.
pub open spec fn command_bytes(command_type: u32, payload: Seq<u8>) -> Seq<u8> {
    le32(command_type) + zero_bytes(20) + payload
}

/// A store into the ring page.
pub open spec fn ring_store(offset: int, bytes: Seq<u8>) -> Store {
    Store { buffer: Buffer::Rings, offset, bytes }
}

/// Everything that publishes a command: its bytes, a response type that no device
/// answers, the chain of two descriptors, and the entry and index of the available ring.
pub open spec fn publication(gpu: Gpu, command_type: u32, payload: Seq<u8>) -> Seq<Store> {
    let bytes = command_bytes(command_type, payload);
    seq![
        Store { buffer: Buffer::Command, offset: 0, bytes },
        Store { buffer: Buffer::Command, offset: RESP_OFFSET as int, bytes: zero_bytes(4) },
        ring_store(0, descriptor(gpu.command_address, bytes.len() as u32, DESC_NEXT, 1)),
        ring_store(
            16,
            descriptor(
                (gpu.command_address + RESP_OFFSET) as u64,
                RESP_MAX as u32,
                DESC_WRITE,
                0,
            ),
        ),
        ring_store(AVAIL_OFFSET + 4 + 2 * (gpu.avail_index % gpu.queue_size), le16(0)),
        ring_store(AVAIL_OFFSET + 2, le16(counted(gpu.avail_index))),
    ]
}

/// The access of a phase.
pub open spec fn phase_access(gpu: Gpu, phase: Phase) -> Access {
    match phase {
        Phase::Kick => Access::Write {
            window: Window::Notify,
            register: gpu.notify_offset,
            width: Width::Word,
            value: 0,
        },
        Phase::Check { .. } => Access::Fetch {
            buffer: Buffer::Rings,
            offset: (USED_OFFSET + 2) as u64,
            len: 2,
        },
        Phase::Park { .. } => Access::WaitInterrupt { bound: u64::MAX },
        Phase::Clear { .. } => Access::Read {
            window: Window::Isr,
            register: 0,
            width: Width::Byte,
        },
        Phase::Settle => Access::Read { window: Window::Isr, register: 0, width: Width::Byte },
        Phase::Poll { .. } => Access::Fetch {
            buffer: Buffer::Rings,
            offset: (USED_OFFSET + 2) as u64,
            len: 2,
        },
        Phase::Dump => Access::Fetch { buffer: Buffer::Rings, offset: USED_OFFSET, len: 8 },
        Phase::Status => Access::Read {
            window: Window::Common,
            register: DEVICE_STATUS,
            width: Width::Byte,
        },
        Phase::Response => Access::Fetch {
            buffer: Buffer::Command,
            offset: RESP_OFFSET,
            len: RESP_MAX,
        },
    }
}

/// A command in another phase.
pub open spec fn in_phase(gpu: Gpu, command: Conversation, phase: Phase) -> (
    Gpu,
    Conversation,
    CommandAnswer,
) {
    (
        gpu,
        Conversation { phase, ..command },
        CommandAnswer::Ask(only(phase_access(gpu, phase))),
    )
}

/// A command that is being published.
pub open spec fn issued(gpu: Gpu, command: Conversation) -> (Gpu, Conversation, CommandAnswer) {
    let after = Gpu { avail_index: counted(gpu.avail_index), ..gpu };
    (
        after,
        Conversation { stage: Stage::Issued, phase: Phase::Kick, ..command },
        CommandAnswer::Ask(
            after_stores(
                publication(gpu, command.command_type, command.payload),
                phase_access(gpu, Phase::Kick),
            ),
        ),
    )
}

/// A command at its start, and after each completion that it drained: it is published
/// only once every completion of what was published before has been consumed.
pub open spec fn settled(gpu: Gpu, command: Conversation) -> (Gpu, Conversation, CommandAnswer) {
    if gpu.avail_index != gpu.used_index {
        in_phase(
            gpu,
            Conversation { stage: Stage::Draining, ..command },
            Phase::Kick,
        )
    } else {
        issued(gpu, command)
    }
}

/// A command whose awaited completion was consumed.
pub open spec fn completed(gpu: Gpu, command: Conversation) -> (
    Gpu,
    Conversation,
    CommandAnswer,
) {
    if command.stage == Stage::Draining {
        settled(gpu, command)
    } else {
        in_phase(gpu, command, Phase::Response)
    }
}

/// What a command calls the completion that it waits for.
pub open spec fn awaited(stage: Stage) -> Seq<char> {
    match stage {
        Stage::Draining => "a cancelled control command"@,
        Stage::Issued => "the control command"@,
    }
}

/// The announcement that a command polls from now on.
pub open spec fn fallback_line(stage: Stage) -> Seq<char> {
    "gpu.virtio: interrupt waits for "@ + awaited(stage)
        + " were not served; falling back to polling the used ring (this is slower but bounded)"@
}

/// A command that gives up on the interrupt; this is announced once.
pub open spec fn fallen_back(gpu: Gpu, command: Conversation) -> (
    Gpu,
    Conversation,
    CommandAnswer,
) {
    let phase = Phase::Poll { spins: 0 };
    if gpu.reported {
        in_phase(gpu, command, phase)
    } else {
        (
            Gpu { reported: true, ..gpu },
            Conversation { phase, ..command },
            CommandAnswer::Ask(
                after_line(fallback_line(command.stage), phase_access(gpu, phase)),
            ),
        )
    }
}

/// A command that consumed a completion: the interrupt status is cleared where there is
/// one to clear.
pub open spec fn consumed(gpu: Gpu, command: Conversation) -> (Gpu, Conversation, CommandAnswer) {
    let after = Gpu { used_index: counted(gpu.used_index), ..gpu };
    if gpu.interrupt && gpu.isr {
        in_phase(after, command, Phase::Settle)
    } else {
        completed(after, command)
    }
}

/// The list of some bytes, as it is shown in a report.
pub open spec fn listed(bytes: Seq<u8>) -> Seq<char>
    decreases bytes.len(),
{
    if bytes.len() == 0 {
        seq![]
    } else if bytes.len() == 1 {
        decimal(bytes[0] as nat)
    } else {
        listed(bytes.drop_last()) + ", "@ + decimal(bytes.last() as nat)
    }
}

/// The report of a lost command.
pub open spec fn lost(gpu: Gpu, command: Conversation, status: u64) -> Seq<char> {
    "gpu.virtio: the device did not complete "@ + awaited(command.stage)
        + " (poll limit; device status 0x"@ + hex(status as nat, 1) + ", avail idx "@ + decimal(
        gpu.avail_index as nat,
    ) + ", used flags/idx/elem0 ["@ + listed(command.dump) + "])"@
}

/// The report of a response of the wrong type.
pub open spec fn wrong_response(command: Conversation, response: u32) -> Seq<char> {
    "gpu.virtio: command 0x"@ + hex(command.command_type as nat, 4) + " answered 0x"@ + hex(
        response as nat,
        4,
    ) + " (expected 0x"@ + hex(command.expected as nat, 4) + ")"@
}

/// A command after a reply.
pub open spec fn commanded(gpu: Gpu, command: Conversation, answer: Answer) -> (
    Gpu,
    Conversation,
    CommandAnswer,
) {
    match command.phase {
        Phase::Kick => match answer {
            Answer::Failed(error) => (
                gpu,
                command,
                CommandAnswer::Failed(
                    failure(Kind::Gpu, phase_access(gpu, Phase::Kick), error),
                ),
            ),
            _ => in_phase(
                gpu,
                command,
                if gpu.interrupt {
                    Phase::Check { waits: 0 }
                } else {
                    Phase::Poll { spins: 0 }
                },
            ),
        },
        Phase::Check { waits } => if word_le(bytes_of(answer), 0) != gpu.used_index {
            consumed(gpu, command)
        } else if waits >= WAIT_RETRIES {
            fallen_back(gpu, command)
        } else {
            in_phase(gpu, command, Phase::Park { waits: (waits + 1) as u32 })
        },
        Phase::Park { waits } => if answer is Failed {
            fallen_back(gpu, command)
        } else if gpu.isr {
            in_phase(gpu, command, Phase::Clear { waits })
        } else {
            in_phase(gpu, command, Phase::Check { waits })
        },
        Phase::Clear { waits } => in_phase(gpu, command, Phase::Check { waits }),
        Phase::Settle => completed(gpu, command),
        Phase::Poll { spins } => if word_le(bytes_of(answer), 0) != gpu.used_index {
            consumed(gpu, command)
        } else if spins >= POLL_LIMIT {
            in_phase(gpu, command, Phase::Dump)
        } else {
            in_phase(gpu, command, Phase::Poll { spins: (spins + 1) as u64 })
        },
        Phase::Dump => in_phase(
            gpu,
            Conversation { dump: bytes_of(answer), ..command },
            Phase::Status,
        ),
        Phase::Status => (
            gpu,
            command,
            CommandAnswer::Failed(
                lost(
                    gpu,
                    command,
                    match answer {
                        Answer::Value(value) => value as u64,
                        _ => u64::MAX,
                    },
                ),
            ),
        ),
        Phase::Response => {
            let response = dword_le(bytes_of(answer), 0);
            if response != command.expected {
                (gpu, command, CommandAnswer::Failed(wrong_response(command, response)))
            } else {
                (gpu, command, CommandAnswer::Complete(bytes_of(answer)))
            }
        },
    }
}

impl Conversation {
    /// Counters stay within their limits; a command in flight is the only thing that the
    /// device has not completed, and its response is read only once it has; what is drained
    /// is something that the device has not completed.
    pub open spec fn wf(self, gpu: Gpu) -> bool {
        &&& self.payload.len() <= 1000
        &&& match self.phase {
            Phase::Check { waits } => waits <= WAIT_RETRIES,
            Phase::Park { waits } => waits <= WAIT_RETRIES,
            Phase::Clear { waits } => waits <= WAIT_RETRIES,
            Phase::Poll { spins } => spins <= POLL_LIMIT,
            _ => true,
        }
        &&& self.stage == Stage::Issued ==> match self.phase {
            Phase::Settle => gpu.avail_index == gpu.used_index,
            Phase::Response => gpu.avail_index == gpu.used_index,
            _ => gpu.avail_index == counted(gpu.used_index),
        }
        &&& self.phase == Phase::Response ==> self.stage == Stage::Issued
        &&& self.stage == Stage::Draining && self.phase != Phase::Settle ==> gpu.avail_index
            != gpu.used_index
    }
}

impl Gpu {
    /// The queue has room and the command page lies within the address space.
    pub open spec fn wf(self) -> bool {
        &&& 1 <= self.queue_size
        &&& self.command_address + RESP_OFFSET <= u64::MAX
    }

    /// The driver of a device that was brought up.
    pub fn new(learnt: &Learnt, isr: bool, command_address: u64) -> (gpu: Gpu)
        requires
            1 <= learnt.first.size,
            command_address + RESP_OFFSET <= u64::MAX,
        ensures
            gpu.wf(),
            gpu == (Gpu {
                notify_offset: learnt.first.notify_offset,
                queue_size: learnt.first.size,
                avail_index: 0,
                used_index: 0,
                command_address,
                isr,
                interrupt: learnt.interrupt,
                reported: false,
            }),
    {
        Gpu {
            notify_offset: learnt.first.notify_offset,
            queue_size: learnt.first.size,
            avail_index: 0,
            used_index: 0,
            command_address,
            isr,
            interrupt: learnt.interrupt,
            reported: false,
        }
    }

    /// Consume whatever the device has completed when an operation ends early.
    pub fn resync(&mut self, used: &[u8])
        requires
            used@.len() == 2,
        ensures
            *final(self) == (Gpu { used_index: word_le(used@, 0), ..*old(self) }),
    {
        self.used_index = read_le16(used, 0);
    }

    /// The access of a phase.
    pub fn access(&self, phase: Phase) -> (access: Access)
        ensures
            access == phase_access(*self, phase),
    {
        match phase {
            Phase::Kick => Access::Write {
                window: Window::Notify,
                register: self.notify_offset,
                width: Width::Word,
                value: 0,
            },
            Phase::Check { .. } | Phase::Poll { .. } => Access::Fetch {
                buffer: Buffer::Rings,
                offset: USED_OFFSET + 2,
                len: 2,
            },
            Phase::Park { .. } => Access::WaitInterrupt { bound: u64::MAX },
            Phase::Clear { .. } | Phase::Settle => Access::Read {
                window: Window::Isr,
                register: 0,
                width: Width::Byte,
            },
            Phase::Dump => Access::Fetch { buffer: Buffer::Rings, offset: USED_OFFSET, len: 8 },
            Phase::Status => Access::Read {
                window: Window::Common,
                register: DEVICE_STATUS,
                width: Width::Byte,
            },
            Phase::Response => Access::Fetch {
                buffer: Buffer::Command,
                offset: RESP_OFFSET,
                len: RESP_MAX,
            },
        }
    }
}

impl Command {
    fn turn(&mut self, gpu: &Gpu, phase: Phase) -> (step: CommandStep)
        ensures
            (*gpu, final(self)@, step@) == in_phase(*gpu, old(self)@, phase),
    {
        self.phase = phase;
        CommandStep::Ask(Request::only(gpu.access(phase)))
    }

    fn issue(&mut self, gpu: &mut Gpu) -> (step: CommandStep)
        requires
            old(gpu).wf(),
            old(self).payload@.len() <= 1000,
            old(gpu).avail_index == old(gpu).used_index,
        ensures
            (*final(gpu), final(self)@, step@) == issued(*old(gpu), old(self)@),
            final(gpu).wf(),
            final(self)@.wf(*final(gpu)),
    {
        let mut bytes: Vec<u8> = Vec::new();
        push_le32(&mut bytes, self.command_type);
        push_zeros(&mut bytes, 20);
        push_all(&mut bytes, &self.payload);
        assert(bytes@ =~= command_bytes(self.command_type, self.payload@));
        let len: u32 = bytes.len() as u32;
        let mut writes: Vec<MemoryWrite> = Vec::new();
        push_store(&mut writes, Buffer::Command, 0, bytes);
        push_store(&mut writes, Buffer::Command, RESP_OFFSET, crate::bytes::zero_vec(4));
        push_store(
            &mut writes,
            Buffer::Rings,
            0,
            write_descriptor(gpu.command_address, len, DESC_NEXT, 1),
        );
        push_store(
            &mut writes,
            Buffer::Rings,
            16,
            write_descriptor(gpu.command_address + RESP_OFFSET, RESP_MAX as u32, DESC_WRITE, 0),
        );
        let slot: u64 = (gpu.avail_index % gpu.queue_size) as u64;
        push_store(&mut writes, Buffer::Rings, AVAIL_OFFSET + 4 + 2 * slot, word(0));
        gpu.avail_index = count(gpu.avail_index);
        push_store(&mut writes, Buffer::Rings, AVAIL_OFFSET + 2, word(gpu.avail_index));
        assert(stores(writes@) =~= publication(*old(gpu), self.command_type, self.payload@));
        self.stage = Stage::Issued;
        self.phase = Phase::Kick;
        CommandStep::Ask(Request::after_stores(writes, gpu.access(Phase::Kick)))
    }

    fn settle(&mut self, gpu: &mut Gpu) -> (step: CommandStep)
        requires
            old(gpu).wf(),
            old(self).payload@.len() <= 1000,
        ensures
            (*final(gpu), final(self)@, step@) == settled(*old(gpu), old(self)@),
            final(gpu).wf(),
            final(self)@.wf(*final(gpu)),
    {
        if gpu.avail_index != gpu.used_index {
            self.stage = Stage::Draining;
            self.turn(gpu, Phase::Kick)
        } else {
            self.issue(gpu)
        }
    }

    fn complete(&mut self, gpu: &mut Gpu) -> (step: CommandStep)
        requires
            old(gpu).wf(),
            old(self).payload@.len() <= 1000,
            old(self).stage == Stage::Issued ==> old(gpu).avail_index == old(gpu).used_index,
        ensures
            (*final(gpu), final(self)@, step@) == completed(*old(gpu), old(self)@),
            final(gpu).wf(),
            final(self)@.wf(*final(gpu)),
    {
        if self.stage == Stage::Draining {
            self.settle(gpu)
        } else {
            self.turn(gpu, Phase::Response)
        }
    }

    fn consume(&mut self, gpu: &mut Gpu) -> (step: CommandStep)
        requires
            old(gpu).wf(),
            old(self).payload@.len() <= 1000,
            old(self).stage == Stage::Issued ==> old(gpu).avail_index == counted(
                old(gpu).used_index,
            ),
        ensures
            (*final(gpu), final(self)@, step@) == consumed(*old(gpu), old(self)@),
            final(gpu).wf(),
            final(self)@.wf(*final(gpu)),
    {
        gpu.used_index = count(gpu.used_index);
        if gpu.interrupt && gpu.isr {
            self.turn(gpu, Phase::Settle)
        } else {
            self.complete(gpu)
        }
    }

    fn fall_back(&mut self, gpu: &mut Gpu) -> (step: CommandStep)
        ensures
            (*final(gpu), final(self)@, step@) == fallen_back(*old(gpu), old(self)@),
    {
        if gpu.reported {
            return self.turn(gpu, Phase::Poll { spins: 0 });
        }
        gpu.reported = true;
        let mut line = String::from_str("gpu.virtio: interrupt waits for ");
        line.append(self.awaited());
        line.append(
            " were not served; falling back to polling the used ring (this is slower but bounded)",
        );
        self.phase = Phase::Poll { spins: 0 };
        CommandStep::Ask(Request::after_line(line, gpu.access(self.phase)))
    }

    fn awaited(&self) -> (text: &'static str)
        ensures
            text@ == awaited(self.stage),
    {
        match self.stage {
            Stage::Draining => "a cancelled control command",
            Stage::Issued => "the control command",
        }
    }

    fn report_lost(&self, gpu: &Gpu, status: u64) -> (text: String)
        ensures
            text@ == lost(*gpu, self@, status),
    {
        let mut text = String::from_str("gpu.virtio: the device did not complete ");
        text.append(self.awaited());
        text.append(" (poll limit; device status 0x");
        push_hex(&mut text, status, 1);
        text.append(", avail idx ");
        push_decimal(&mut text, gpu.avail_index as u64);
        text.append(", used flags/idx/elem0 [");
        push_list(&mut text, &self.dump);
        text.append("])");
        text
    }

    /// Begin a command.
    pub fn new(gpu: &mut Gpu, command_type: u32, payload: Vec<u8>, expected: u32) -> (begun: (
        Command,
        CommandStep,
    ))
        requires
            old(gpu).wf(),
            payload@.len() <= 1000,
        ensures
            final(gpu).wf(),
            begun.0@.wf(*final(gpu)),
            (*final(gpu), begun.0@, begun.1@) == settled(
                *old(gpu),
                (Conversation {
                    command_type,
                    payload: payload@,
                    expected,
                    stage: Stage::Draining,
                    phase: Phase::Kick,
                    dump: Seq::empty(),
                }),
            ),
    {
        let mut command = Command {
            command_type,
            payload,
            expected,
            stage: Stage::Draining,
            phase: Phase::Kick,
            dump: Vec::new(),
        };
        assert(command.dump@ =~= Seq::empty());
        let step = command.settle(gpu);
        (command, step)
    }

    /// Take the reply to the pending access and say what comes next.
    pub fn next(&mut self, gpu: &mut Gpu, reply: Reply) -> (step: CommandStep)
        requires
            old(gpu).wf(),
            old(self)@.wf(*old(gpu)),
            fits(phase_access(*old(gpu), old(self).phase), reply@),
        ensures
            final(gpu).wf(),
            final(self)@.wf(*final(gpu)),
            (*final(gpu), final(self)@, step@) == commanded(*old(gpu), old(self)@, reply@),
    {
        match self.phase {
            Phase::Kick => match reply {
                Reply::Failed(error) => CommandStep::Failed(
                    access_failure(Kind::Gpu, gpu.access(Phase::Kick), error),
                ),
                _ => if gpu.interrupt {
                    self.turn(gpu, Phase::Check { waits: 0 })
                } else {
                    self.turn(gpu, Phase::Poll { spins: 0 })
                },
            },
            Phase::Check { waits } => {
                let used: u16 = match &reply {
                    Reply::Bytes(raw) => read_le16(raw, 0),
                    _ => 0,
                };
                if used != gpu.used_index {
                    self.consume(gpu)
                } else if waits >= WAIT_RETRIES {
                    self.fall_back(gpu)
                } else {
                    self.turn(gpu, Phase::Park { waits: waits + 1 })
                }
            },
            Phase::Park { waits } => match reply {
                Reply::Failed(_) => self.fall_back(gpu),
                _ => if gpu.isr {
                    self.turn(gpu, Phase::Clear { waits })
                } else {
                    self.turn(gpu, Phase::Check { waits })
                },
            },
            Phase::Clear { waits } => self.turn(gpu, Phase::Check { waits }),
            Phase::Settle => self.complete(gpu),
            Phase::Poll { spins } => {
                let used: u16 = match &reply {
                    Reply::Bytes(raw) => read_le16(raw, 0),
                    _ => 0,
                };
                if used != gpu.used_index {
                    self.consume(gpu)
                } else if spins >= POLL_LIMIT {
                    self.turn(gpu, Phase::Dump)
                } else {
                    self.turn(gpu, Phase::Poll { spins: spins + 1 })
                }
            },
            Phase::Dump => {
                self.dump = match reply {
                    Reply::Bytes(raw) => raw,
                    _ => Vec::new(),
                };
                self.turn(gpu, Phase::Status)
            },
            Phase::Status => {
                let status: u64 = match reply {
                    Reply::Value(value) => value as u64,
                    _ => u64::MAX,
                };
                CommandStep::Failed(self.report_lost(gpu, status))
            },
            Phase::Response => {
                let bytes = match reply {
                    Reply::Bytes(bytes) => bytes,
                    _ => Vec::new(),
                };
                let response: u32 = read_le32(&bytes, 0);
                if response != self.expected {
                    let mut text = String::from_str("gpu.virtio: command 0x");
                    push_hex(&mut text, self.command_type as u64, 4);
                    text.append(" answered 0x");
                    push_hex(&mut text, response as u64, 4);
                    text.append(" (expected 0x");
                    push_hex(&mut text, self.expected as u64, 4);
                    text.append(")");
                    CommandStep::Failed(text)
                } else {
                    CommandStep::Complete(bytes)
                }
            },
        }
    }
}

fn push_list(text: &mut String, bytes: &[u8])
    ensures
        final(text)@ == old(text)@ + listed(bytes@),
{
    let mut at: usize = 0;
    while at < bytes.len()
        invariant
            at <= bytes.len(),
            text@ == old(text)@ + listed(bytes@.take(at as int)),
        decreases bytes.len() - at,
    {
        if at > 0 {
            text.append(", ");
        }
        push_decimal(text, bytes[at] as u64);
        at = at + 1;
        proof {
            let now = bytes@.take(at as int);
            assert(now.drop_last() =~= bytes@.take(at - 1));
            assert(text@ =~= old(text)@ + listed(now));
        }
    }
    assert(bytes@.take(at as int) =~= bytes@);
}

/// One command to issue.
#[derive(Debug)]
pub struct Order {
    pub command_type: u32,
    pub payload: Vec<u8>,
    pub expected: u32,
}

/// One command to issue, over contents.
pub struct Ordered {
    pub command_type: u32,
    pub payload: Seq<u8>,
    pub expected: u32,
}

impl View for Order {
    type V = Ordered;

    open spec fn view(&self) -> Ordered {
        Ordered {
            command_type: self.command_type,
            payload: self.payload@,
            expected: self.expected,
        }
    }
}

/// The contents of a list of commands.
pub open spec fn ordered(orders: Seq<Order>) -> Seq<Ordered> {
    orders.map_values(|order: Order| order@)
}

/// The payload that creates the resource.
pub open spec fn create_payload(width: u32, height: u32) -> Seq<u8> {
    le32(RESOURCE_ID) + le32(FORMAT_B8G8R8X8) + le32(width) + le32(height)
}

/// The payload that backs the resource with one buffer.
pub open spec fn attach_payload(address: u64, len: u32) -> Seq<u8> {
    le32(RESOURCE_ID) + le32(1) + le64(address) + le32(len) + zero_bytes(4)
}

/// The payload that scans the whole resource out.
pub open spec fn scanout_payload(width: u32, height: u32) -> Seq<u8> {
    zero_bytes(8) + le32(width) + le32(height) + le32(SCANOUT_ID) + le32(RESOURCE_ID)
}

/// The bytes of a rectangle within a payload.
pub open spec fn rect_bytes(rect: Rect) -> Seq<u8> {
    le32(rect.x) + le32(rect.y) + le32(rect.width) + le32(rect.height)
}

/// The payload that transfers a rectangle to the host.
pub open spec fn transfer_payload(rect: Rect, offset: u64) -> Seq<u8> {
    rect_bytes(rect) + le64(offset) + le32(RESOURCE_ID) + zero_bytes(4)
}

/// The payload that flushes a rectangle to the display.
pub open spec fn flush_payload(rect: Rect) -> Seq<u8> {
    rect_bytes(rect) + le32(RESOURCE_ID) + zero_bytes(4)
}

/// The bytes that a framebuffer of this geometry takes.
pub open spec fn framebuffer_bytes(width: u32, height: u32) -> int {
    width * height * BYTES_PER_PIXEL
}

/// The geometry that a display-information response reports for the first scanout, or why
/// it cannot be used.
pub open spec fn reported_geometry(response: Seq<u8>) -> Result<(u32, u32), Seq<char>> {
    if response.len() < CTRL_HEADER + 24 {
        Err("gpu.virtio: short GET_DISPLAY_INFO response from the device"@)
    } else {
        let width = dword_le(response, CTRL_HEADER + 8);
        let height = dword_le(response, CTRL_HEADER + 12);
        let enabled = dword_le(response, CTRL_HEADER + 16);
        if width == 0 || height == 0 {
            Err(
                "gpu.virtio: the device reports no usable scanout-0 geometry ("@ + decimal(
                    width as nat,
                ) + "x"@ + decimal(height as nat) + ", enabled "@ + decimal(enabled as nat)
                    + ")"@,
            )
        } else if framebuffer_bytes(width, height) > MAX_FRAMEBUFFER_BYTES {
            Err(
                "gpu.virtio: the "@ + decimal(width as nat) + "x"@ + decimal(height as nat)
                    + " scanout needs "@ + decimal(framebuffer_bytes(width, height) as nat)
                    + " bytes of backing, over the v1 driver's single-allocation limit of 4194304 (multi-entry backing is the recorded follow-up)"@,
            )
        } else {
            Ok((width, height))
        }
    }
}

/// Read the geometry out of a display-information response.
pub fn display_geometry(response: &[u8]) -> (result: Result<(u32, u32), String>)
    ensures
        match result {
            Ok(geometry) => {
                &&& reported_geometry(response@) == Ok::<(u32, u32), Seq<char>>(geometry)
                &&& framebuffer_bytes(geometry.0, geometry.1) <= MAX_FRAMEBUFFER_BYTES
            },
            Err(text) => reported_geometry(response@) == Err::<(u32, u32), Seq<char>>(text@),
        },
{
    if response.len() < CTRL_HEADER + 24 {
        return Err(
            String::from_str("gpu.virtio: short GET_DISPLAY_INFO response from the device"),
        );
    }
    let width: u32 = read_le32(response, CTRL_HEADER + 8);
    let height: u32 = read_le32(response, CTRL_HEADER + 12);
    let enabled: u32 = read_le32(response, CTRL_HEADER + 16);
    if width == 0 || height == 0 {
        let mut text = String::from_str(
            "gpu.virtio: the device reports no usable scanout-0 geometry (",
        );
        push_decimal(&mut text, width as u64);
        text.append("x");
        push_decimal(&mut text, height as u64);
        text.append(", enabled ");
        push_decimal(&mut text, enabled as u64);
        text.append(")");
        return Err(text);
    }
    assert(0 <= width * height <= 0xffff_ffff * 0xffff_ffff) by (nonlinear_arith)
        requires
            0 <= width <= 0xffff_ffff,
            0 <= height <= 0xffff_ffff,
    ;
    let bytes: u128 = width as u128 * height as u128 * 4;
    if bytes > MAX_FRAMEBUFFER_BYTES as u128 {
        let mut text = String::from_str("gpu.virtio: the ");
        push_decimal(&mut text, width as u64);
        text.append("x");
        push_decimal(&mut text, height as u64);
        text.append(" scanout needs ");
        push_wide_decimal(&mut text, bytes);
        text.append(
            " bytes of backing, over the v1 driver's single-allocation limit of 4194304 (multi-entry backing is the recorded follow-up)",
        );
        return Err(text);
    }
    Ok((width, height))
}

/// Where the setup of the display stands.
#[derive(Clone, Copy, PartialEq, Eq, Structural, Debug)]
pub enum ScanPhase {
    /// Asking for the geometry.
    Info,
    /// Allocating the framebuffer.
    Allocate,
    /// Creating the resource.
    Create { address: u64 },
    /// Backing the resource.
    Attach,
    /// Scanning the resource out.
    Scanout,
}

/// The setup of the display.
#[derive(Clone, Copy, Debug)]
pub struct ScanOut {
    pub phase: ScanPhase,
    pub width: u32,
    pub height: u32,
}

/// What became of a step of the setup.
#[derive(Debug)]
pub enum ScanEvent {
    /// The command was answered as expected.
    Response(Vec<u8>),
    /// The framebuffer was allocated at this address.
    Allocated(u64),
    /// The framebuffer was not allocated; the text names the error.
    Unallocated(String),
    /// The command failed.
    Failed(String),
}

/// What the setup does next.
#[derive(Debug)]
pub enum ScanStep {
    Issue(Order),
    /// Allocate a framebuffer of so many bytes.
    Allocate(u64),
    /// The display shows the framebuffer.
    Complete,
    Failed(String),
}

/// What became of a step of the setup, over contents.
pub enum ScanNews {
    Response(Seq<u8>),
    Allocated(u64),
    Unallocated(Seq<char>),
    Failed(Seq<char>),
}

/// What the setup does next, over contents.
pub enum ScanAnswer {
    Issue(Ordered),
    Allocate(u64),
    Complete,
    Failed(Seq<char>),
}

impl View for ScanEvent {
    type V = ScanNews;

    open spec fn view(&self) -> ScanNews {
        match self {
            ScanEvent::Response(bytes) => ScanNews::Response(bytes@),
            ScanEvent::Allocated(address) => ScanNews::Allocated(*address),
            ScanEvent::Unallocated(error) => ScanNews::Unallocated(error@),
            ScanEvent::Failed(text) => ScanNews::Failed(text@),
        }
    }
}

impl View for ScanStep {
    type V = ScanAnswer;

    open spec fn view(&self) -> ScanAnswer {
        match self {
            ScanStep::Issue(order) => ScanAnswer::Issue(order@),
            ScanStep::Allocate(len) => ScanAnswer::Allocate(*len),
            ScanStep::Complete => ScanAnswer::Complete,
            ScanStep::Failed(text) => ScanAnswer::Failed(text@),
        }
    }
}

/// The allocation of a framebuffer.
pub open spec fn framebuffer_access(scan: ScanOut) -> Access {
    Access::Allocate {
        buffer: Buffer::Framebuffer,
        len: framebuffer_bytes(scan.width, scan.height) as u64,
    }
}

/// The setup after a step.
pub open spec fn scanned(scan: ScanOut, news: ScanNews) -> (ScanOut, ScanAnswer) {
    let (width, height) = (scan.width, scan.height);
    let issue = |phase: ScanPhase, command_type: u32, payload: Seq<u8>| (
        ScanOut { phase, ..scan },
        ScanAnswer::Issue(Ordered { command_type, payload, expected: OK_NODATA }),
    );
    match (scan.phase, news) {
        (_, ScanNews::Failed(text)) => (scan, ScanAnswer::Failed(text)),
        (_, ScanNews::Unallocated(error)) => (
            scan,
            ScanAnswer::Failed(failure(Kind::Gpu, framebuffer_access(scan), error)),
        ),
        (ScanPhase::Info, ScanNews::Response(response)) => match reported_geometry(response) {
            Err(text) => (scan, ScanAnswer::Failed(text)),
            Ok((width, height)) => (
                ScanOut { phase: ScanPhase::Allocate, width, height },
                ScanAnswer::Allocate(framebuffer_bytes(width, height) as u64),
            ),
        },
        (ScanPhase::Allocate, ScanNews::Allocated(address)) => issue(
            ScanPhase::Create { address },
            RESOURCE_CREATE_2D,
            create_payload(width, height),
        ),
        (ScanPhase::Create { address }, _) => issue(
            ScanPhase::Attach,
            RESOURCE_ATTACH_BACKING,
            attach_payload(address, framebuffer_bytes(width, height) as u32),
        ),
        (ScanPhase::Attach, _) => issue(
            ScanPhase::Scanout,
            SET_SCANOUT,
            scanout_payload(width, height),
        ),
        (ScanPhase::Scanout, _) => (scan, ScanAnswer::Complete),
        (_, _) => (scan, ScanAnswer::Failed("gpu.virtio: internal error: no framebuffer"@)),
    }
}

impl ScanOut {
    /// Once known, the geometry fits the framebuffer limit.
    pub open spec fn wf(self) -> bool {
        framebuffer_bytes(self.width, self.height) <= MAX_FRAMEBUFFER_BYTES
    }

    /// The setup and its first command.
    pub fn new() -> (begun: (ScanOut, Order))
        ensures
            begun.0 == (ScanOut { phase: ScanPhase::Info, width: 0, height: 0 }),
            begun.0.wf(),
            begun.1@ == (Ordered {
                command_type: GET_DISPLAY_INFO,
                payload: Seq::empty(),
                expected: OK_DISPLAY_INFO,
            }),
    {
        let order = Order {
            command_type: GET_DISPLAY_INFO,
            payload: Vec::new(),
            expected: OK_DISPLAY_INFO,
        };
        assert(order.payload@ =~= Seq::empty());
        (ScanOut { phase: ScanPhase::Info, width: 0, height: 0 }, order)
    }

    fn bytes(&self) -> (len: u64)
        requires
            self.wf(),
        ensures
            len == framebuffer_bytes(self.width, self.height),
    {
        assert(self.width * self.height >= 0) by (nonlinear_arith)
            requires
                self.width >= 0,
                self.height >= 0,
        ;
        self.width as u64 * self.height as u64 * BYTES_PER_PIXEL
    }

    /// Take what became of the pending step and say what comes next.
    pub fn next(&mut self, event: ScanEvent) -> (step: ScanStep)
        requires
            old(self).wf(),
        ensures
            final(self).wf(),
            (*final(self), step@) == scanned(*old(self), event@),
    {
        match event {
            ScanEvent::Failed(text) => return ScanStep::Failed(text),
            ScanEvent::Unallocated(error) => {
                let access = Access::Allocate { buffer: Buffer::Framebuffer, len: self.bytes() };
                return ScanStep::Failed(access_failure(Kind::Gpu, access, error));
            },
            ScanEvent::Response(response) => if self.phase == ScanPhase::Info {
                match display_geometry(&response) {
                    Err(text) => return ScanStep::Failed(text),
                    Ok((width, height)) => {
                        self.phase = ScanPhase::Allocate;
                        self.width = width;
                        self.height = height;
                        return ScanStep::Allocate(self.bytes());
                    },
                }
            },
            ScanEvent::Allocated(address) => if self.phase == ScanPhase::Allocate {
                self.phase = ScanPhase::Create { address };
                let mut payload: Vec<u8> = Vec::new();
                push_le32(&mut payload, RESOURCE_ID);
                push_le32(&mut payload, FORMAT_B8G8R8X8);
                push_le32(&mut payload, self.width);
                push_le32(&mut payload, self.height);
                assert(payload@ =~= create_payload(self.width, self.height));
                return ScanStep::Issue(
                    Order { command_type: RESOURCE_CREATE_2D, payload, expected: OK_NODATA },
                );
            },
        }
        match self.phase {
            ScanPhase::Create { address } => {
                let len: u32 = self.bytes() as u32;
                self.phase = ScanPhase::Attach;
                let mut payload: Vec<u8> = Vec::new();
                push_le32(&mut payload, RESOURCE_ID);
                push_le32(&mut payload, 1);
                push_le64(&mut payload, address);
                push_le32(&mut payload, len);
                push_zeros(&mut payload, 4);
                assert(payload@ =~= attach_payload(address, len));
                ScanStep::Issue(
                    Order { command_type: RESOURCE_ATTACH_BACKING, payload, expected: OK_NODATA },
                )
            },
            ScanPhase::Attach => {
                self.phase = ScanPhase::Scanout;
                let mut payload: Vec<u8> = Vec::new();
                push_zeros(&mut payload, 8);
                push_le32(&mut payload, self.width);
                push_le32(&mut payload, self.height);
                push_le32(&mut payload, SCANOUT_ID);
                push_le32(&mut payload, RESOURCE_ID);
                assert(payload@ =~= scanout_payload(self.width, self.height));
                ScanStep::Issue(
                    Order { command_type: SET_SCANOUT, payload, expected: OK_NODATA },
                )
            },
            ScanPhase::Scanout => ScanStep::Complete,
            _ => ScanStep::Failed(String::from_str("gpu.virtio: internal error: no framebuffer")),
        }
    }
}

/// The line that announces a display.
pub open spec fn banner_text(gpu: Gpu, mode: ModeInfo) -> Seq<char> {
    "gpu.virtio: virtio-gpu "@ + decimal(mode.width as nat) + "x"@ + decimal(mode.height as nat)
        + " xrgb8888, queue size "@ + decimal(gpu.queue_size as nat) + ", completion: "@ + (
    if gpu.interrupt {
        "INTx interrupt"@
    } else {
        "polled"@
    })
}

/// A display that shows its framebuffer: the queue and the geometry.
#[derive(Debug)]
pub struct Display {
    pub gpu: Gpu,
    pub width: u32,
    pub height: u32,
}

/// Where a row of a rectangle starts within the framebuffer.
pub open spec fn row_offset(width: u32, rect: Rect, row: int) -> int {
    (rect.y + row) * (4 * width) + 4 * rect.x
}

/// The stores that put packed pixels into the framebuffer, row by row.
pub open spec fn row_stores(width: u32, rect: Rect, packed: Seq<u8>) -> Seq<Store> {
    Seq::new(
        rect.height as nat,
        |row: int|
            Store {
                buffer: Buffer::Framebuffer,
                offset: row_offset(width, rect, row),
                bytes: packed.subrange(row * (4 * rect.width), (row + 1) * (4 * rect.width)),
            },
    )
}

/// Packed pixels of one colour.
pub open spec fn solid(rect: Rect, color: u32) -> Seq<u8> {
    Seq::new(packed_len(rect) as nat, |i: int| le32(color)[i % 4])
}

/// The commands that make a rectangle of the framebuffer visible: none for an empty one.
pub open spec fn flushes(width: u32, rect: Rect) -> Seq<Ordered> {
    if rect.width == 0 || rect.height == 0 {
        seq![]
    } else {
        seq![
            Ordered {
                command_type: TRANSFER_TO_HOST_2D,
                payload: transfer_payload(rect, row_offset(width, rect, 0) as u64),
                expected: OK_NODATA,
            },
            Ordered {
                command_type: RESOURCE_FLUSH,
                payload: flush_payload(rect),
                expected: OK_NODATA,
            },
        ]
    }
}

proof fn lemma_row_fits(width: u32, height: u32, rect: Rect, row: int)
    requires
        inside(width, height, rect),
        framebuffer_bytes(width, height) <= MAX_FRAMEBUFFER_BYTES,
        0 <= row < rect.height || (row == 0 && rect.y <= height),
    ensures
        0 <= row_offset(width, rect, row) <= MAX_FRAMEBUFFER_BYTES + 4 * 0xffff_ffff,
        row < rect.height ==> row_offset(width, rect, row) + 4 * rect.width
            <= framebuffer_bytes(width, height),
        0 <= (rect.y + row) * (4 * width) <= MAX_FRAMEBUFFER_BYTES,
{
    let stride = 4 * width;
    assert(height * stride == framebuffer_bytes(width, height)) by (nonlinear_arith)
        requires
            stride == 4 * width,
            framebuffer_bytes(width, height) == width * height * 4,
    ;
    assert(0 <= (rect.y + row) * stride <= height * stride) by (nonlinear_arith)
        requires
            0 <= rect.y + row <= height,
            stride >= 0,
    ;
    if row < rect.height {
        assert((rect.y + row) * stride + stride <= height * stride) by (nonlinear_arith)
            requires
                rect.y + row + 1 <= height,
                stride >= 0,
        ;
    }
}

impl Display {
    /// The queue is usable and the framebuffer is within its limit.
    pub open spec fn wf(self) -> bool {
        self.gpu.wf() && framebuffer_bytes(self.width, self.height) <= MAX_FRAMEBUFFER_BYTES
            && self.width <= 0x10_0000
    }

    /// The geometry.
    pub fn mode(&self) -> (mode: ModeInfo)
        requires
            self.wf(),
        ensures
            mode == (ModeInfo {
                width: self.width,
                height: self.height,
                stride: (4 * self.width) as u32,
            }),
    {
        ModeInfo { width: self.width, height: self.height, stride: self.width * 4 }
    }

    /// The line that announces the display.
    pub fn banner(&self) -> (line: String)
        ensures
            line@ == banner_text(
                self.gpu,
                (ModeInfo { width: self.width, height: self.height, stride: 0 }),
            ),
    {
        let mut line = String::from_str("gpu.virtio: virtio-gpu ");
        push_decimal(&mut line, self.width as u64);
        line.append("x");
        push_decimal(&mut line, self.height as u64);
        line.append(" xrgb8888, queue size ");
        push_decimal(&mut line, self.gpu.queue_size as u64);
        line.append(", completion: ");
        if self.gpu.interrupt {
            line.append("INTx interrupt");
        } else {
            line.append("polled");
        }
        line
    }

    /// Check that a rectangle lies within the display.
    pub fn check_rect(&self, rect: &Rect) -> (result: Result<(), GfxError>)
        ensures
            match result {
                Ok(_) => inside(self.width, self.height, *rect),
                Err(error) => error is OutOfBounds && !inside(self.width, self.height, *rect),
            },
    {
        check_bounds(self.width, self.height, rect)
    }

    fn check(&self, rect: &Rect, buffer_len: u64) -> (result: Result<(), GfxError>)
        requires
            self.wf(),
        ensures
            match result {
                Ok(_) => refusal(self.width, self.height, *rect, buffer_len) is None,
                Err(error) => refusal(self.width, self.height, *rect, buffer_len) == Some(error@),
            },
    {
        match self.check_rect(rect) {
            Ok(_) => {},
            Err(error) => return Err(error),
        }
        match check_buffer(rect, buffer_len) {
            Ok(_) => Ok(()),
            Err(error) => Err(error),
        }
    }

    fn rows(&self, rect: &Rect, packed: &[u8]) -> (writes: Vec<MemoryWrite>)
        requires
            self.wf(),
            inside(self.width, self.height, *rect),
            packed_len(*rect) <= packed@.len(),
        ensures
            stores(writes@) == row_stores(self.width, *rect, packed@),
    {
        let stride: u64 = self.width as u64 * 4;
        let row_bytes: usize = rect.width as usize * 4;
        let mut writes: Vec<MemoryWrite> = Vec::new();
        let mut row: u32 = 0;
        let mut from: usize = 0;
        assert(stores(writes@) =~= row_stores(self.width, *rect, packed@).take(0));
        while row < rect.height
            invariant
                row <= rect.height,
                self.wf(),
                inside(self.width, self.height, *rect),
                packed_len(*rect) <= packed@.len(),
                stride == 4 * self.width,
                row_bytes == 4 * rect.width,
                from == row * row_bytes,
                stores(writes@) == row_stores(self.width, *rect, packed@).take(row as int),
            decreases rect.height - row,
        {
            proof {
                lemma_row_fits(self.width, self.height, *rect, row as int);
                assert(rect.height * row_bytes == packed_len(*rect)) by (nonlinear_arith)
                    requires
                        row_bytes == 4 * rect.width,
                        packed_len(*rect) == rect.width * rect.height * 4,
                ;
                assert((row + 1) * row_bytes == row * row_bytes + row_bytes) by (nonlinear_arith);
                assert((row + 1) * row_bytes <= rect.height * row_bytes) by (nonlinear_arith)
                    requires
                        row + 1 <= rect.height,
                        row_bytes >= 0,
                ;
                assert(packed.len() == packed@.len());
            }
            let offset: u64 = (rect.y as u64 + row as u64) * stride + rect.x as u64 * 4;
            push_store(
                &mut writes,
                Buffer::Framebuffer,
                offset,
                slice_of(packed, from, from + row_bytes),
            );
            row = row + 1;
            from = from + row_bytes;
            assert(stores(writes@) =~= row_stores(self.width, *rect, packed@).take(row as int));
        }
        assert(row_stores(self.width, *rect, packed@).take(row as int) =~= row_stores(
            self.width,
            *rect,
            packed@,
        ));
        writes
    }

    /// The stores that present packed pixels; [`Display::flush_rect`] makes them visible.
    pub fn present(&self, dst: &Rect, src: &[u8]) -> (result: Result<Vec<MemoryWrite>, GfxError>)
        requires
            self.wf(),
        ensures
            match result {
                Ok(writes) => {
                    &&& refusal(self.width, self.height, *dst, src@.len() as u64) is None
                    &&& stores(writes@) == row_stores(self.width, *dst, src@)
                },
                Err(error) => refusal(self.width, self.height, *dst, src@.len() as u64) == Some(
                    error@,
                ),
            },
    {
        match self.check(dst, src.len() as u64) {
            Ok(_) => Ok(self.rows(dst, src)),
            Err(error) => Err(error),
        }
    }

    /// The stores that fill a rectangle with one colour.
    pub fn clear(&self, dst: &Rect, color: u32) -> (result: Result<Vec<MemoryWrite>, GfxError>)
        requires
            self.wf(),
        ensures
            match result {
                Ok(writes) => {
                    &&& inside(self.width, self.height, *dst)
                    &&& stores(writes@) == if dst.width == 0 || dst.height == 0 {
                        seq![]
                    } else {
                        row_stores(self.width, *dst, solid(*dst, color))
                    }
                },
                Err(error) => error is OutOfBounds && !inside(self.width, self.height, *dst),
            },
    {
        match self.check_rect(dst) {
            Ok(_) => {},
            Err(error) => return Err(error),
        }
        if dst.width == 0 || dst.height == 0 {
            let none: Vec<MemoryWrite> = Vec::new();
            assert(stores(none@) =~= seq![]);
            return Ok(none);
        }
        proof {
            lemma_inside_area(self.width, self.height, *dst);
            assert(dst.width * dst.height >= 0) by (nonlinear_arith)
                requires
                    dst.width >= 0,
                    dst.height >= 0,
            ;
        }
        let pixels: usize = dst.width as usize * dst.height as usize;
        let mut packed: Vec<u8> = Vec::new();
        let mut done: usize = 0;
        while done < pixels
            invariant
                done <= pixels,
                packed@.len() == 4 * done,
                forall|i: int| 0 <= i < packed@.len() ==> packed@[i] == le32(color)[i % 4],
            decreases pixels - done,
        {
            push_le32(&mut packed, color);
            done = done + 1;
        }
        assert(packed@ =~= solid(*dst, color));
        Ok(self.rows(dst, &packed))
    }

    /// Where the rows of a rectangle lie within the framebuffer: an offset and a length
    /// each. The packed pixels are these rows one behind the other.
    pub fn read(&self, src: &Rect, buffer_len: u64) -> (result: Result<Vec<(u64, u64)>, GfxError>)
        requires
            self.wf(),
        ensures
            match result {
                Ok(rows) => {
                    &&& refusal(self.width, self.height, *src, buffer_len) is None
                    &&& rows@ == Seq::new(
                        src.height as nat,
                        |row: int|
                            (row_offset(self.width, *src, row) as u64, (4 * src.width) as u64),
                    )
                },
                Err(error) => refusal(self.width, self.height, *src, buffer_len) == Some(error@),
            },
    {
        match self.check(src, buffer_len) {
            Ok(_) => {},
            Err(error) => return Err(error),
        }
        let ghost wanted = Seq::new(
            src.height as nat,
            |row: int| (row_offset(self.width, *src, row) as u64, (4 * src.width) as u64),
        );
        let stride: u64 = self.width as u64 * 4;
        let mut rows: Vec<(u64, u64)> = Vec::new();
        let mut row: u32 = 0;
        assert(rows@ =~= wanted.take(0));
        while row < src.height
            invariant
                row <= src.height,
                self.wf(),
                inside(self.width, self.height, *src),
                stride == 4 * self.width,
                wanted == Seq::new(
                    src.height as nat,
                    |row: int| (row_offset(self.width, *src, row) as u64, (4 * src.width) as u64),
                ),
                rows@ == wanted.take(row as int),
            decreases src.height - row,
        {
            proof {
                lemma_row_fits(self.width, self.height, *src, row as int);
            }
            let offset: u64 = (src.y as u64 + row as u64) * stride + src.x as u64 * 4;
            rows.push((offset, src.width as u64 * 4));
            row = row + 1;
            assert(rows@ =~= wanted.take(row as int));
        }
        assert(rows@ =~= wanted);
        Ok(rows)
    }

    /// The commands that make a rectangle visible.
    pub fn flush_rect(&self, rect: &Rect) -> (orders: Vec<Order>)
        requires
            self.wf(),
            inside(self.width, self.height, *rect),
        ensures
            ordered(orders@) == flushes(self.width, *rect),
    {
        let mut orders: Vec<Order> = Vec::new();
        if rect.width == 0 || rect.height == 0 {
            assert(ordered(orders@) =~= seq![]);
            return orders;
        }
        proof {
            lemma_row_fits(self.width, self.height, *rect, 0);
        }
        let offset: u64 = rect.y as u64 * (self.width as u64 * 4) + rect.x as u64 * 4;
        let mut transfer: Vec<u8> = Vec::new();
        push_rect(&mut transfer, rect);
        push_le64(&mut transfer, offset);
        push_le32(&mut transfer, RESOURCE_ID);
        push_zeros(&mut transfer, 4);
        assert(transfer@ =~= transfer_payload(*rect, offset));
        let mut flush: Vec<u8> = Vec::new();
        push_rect(&mut flush, rect);
        push_le32(&mut flush, RESOURCE_ID);
        push_zeros(&mut flush, 4);
        assert(flush@ =~= flush_payload(*rect));
        orders.push(
            Order { command_type: TRANSFER_TO_HOST_2D, payload: transfer, expected: OK_NODATA },
        );
        orders.push(Order { command_type: RESOURCE_FLUSH, payload: flush, expected: OK_NODATA });
        assert(ordered(orders@) =~= flushes(self.width, *rect));
        orders
    }
}

fn push_rect(out: &mut Vec<u8>, rect: &Rect)
    ensures
        final(out)@ == old(out)@ + rect_bytes(*rect),
{
    push_le32(out, rect.x);
    push_le32(out, rect.y);
    push_le32(out, rect.width);
    push_le32(out, rect.height);
    assert(out@ =~= old(out)@ + rect_bytes(*rect));
}

/// What a display answers while it is busy.
pub fn busy() -> (error: GfxError)
    ensures
        error@ == GfxFailure::Io(
            "gpu.virtio: the device is busy with a concurrent operation; issue gfx operations sequentially"@,
        ),
{
    GfxError::Io(
        String::from_str(
            "gpu.virtio: the device is busy with a concurrent operation; issue gfx operations sequentially",
        ),
    )
}

/// The geometry of an idle display; a display that is not up or that is busy cannot tell.
pub fn peek_mode(slot: &Slot<Display>) -> (result: Result<ModeInfo, GfxError>)
    requires
        *slot matches Slot::Ready(display) ==> display.wf(),
    ensures
        match *slot {
            Slot::Ready(display) => result == Ok::<ModeInfo, GfxError>(
                (ModeInfo {
                    width: display.width,
                    height: display.height,
                    stride: (4 * display.width) as u32,
                }),
            ),
            Slot::Busy => result matches Err(error) && error@ == GfxFailure::Io(
                "gpu.virtio: the device is busy with a concurrent operation; ask for the mode again when it completes"@,
            ),
            Slot::Empty => result matches Err(error) && error@ == GfxFailure::Io(
                "gpu.virtio: the device is not brought up yet — `mode` is synchronous and bring-up awaits, so issue one awaited gfx operation first (a zero-area `clear` is the cheapest) and ask again"@,
            ),
        },
{
    match slot {
        Slot::Ready(display) => Ok(display.mode()),
        Slot::Busy => Err(
            GfxError::Io(
                String::from_str(
                    "gpu.virtio: the device is busy with a concurrent operation; ask for the mode again when it completes",
                ),
            ),
        ),
        Slot::Empty => Err(
            GfxError::Io(
                String::from_str(
                    "gpu.virtio: the device is not brought up yet — `mode` is synchronous and bring-up awaits, so issue one awaited gfx operation first (a zero-area `clear` is the cheapest) and ask again",
                ),
            ),
        ),
    }
}

/// Shared memory is written only while the device has completed everything that was
/// published before.
pub proof fn law_publishes_only_when_drained(gpu: Gpu, command: Conversation, answer: Answer)
    requires
        command.wf(gpu),
    ensures
        ({
            let (after, there, step) = commanded(gpu, command, answer);
            step matches CommandAnswer::Ask(wanted) ==> wanted.writes.len() > 0
                ==> after.avail_index == counted(after.used_index)
        }),
{
}

/// A response is attributed to the command that produced it: it is taken only when the
/// command's own completion is the last one that was published.
pub proof fn law_response_is_own(gpu: Gpu, command: Conversation, answer: Answer)
    requires
        command.wf(gpu),
    ensures
        ({
            let (after, there, step) = commanded(gpu, command, answer);
            step is Complete ==> after.avail_index == after.used_index && command.stage
                == Stage::Issued
        }),
{
}

/// How many commands were published that the device has not completed.
pub open spec fn in_flight(gpu: Gpu) -> int {
    if gpu.avail_index >= gpu.used_index {
        gpu.avail_index - gpu.used_index
    } else {
        gpu.avail_index + 0x1_0000 - gpu.used_index
    }
}

/// How much of a wait for one completion is left.
pub open spec fn phase_left(phase: Phase) -> int {
    match phase {
        Phase::Kick => POLL_LIMIT + 60,
        Phase::Check { waits } => POLL_LIMIT + 10 + 3 * (WAIT_RETRIES - waits),
        Phase::Park { waits } => POLL_LIMIT + 12 + 3 * (WAIT_RETRIES - waits),
        Phase::Clear { waits } => POLL_LIMIT + 11 + 3 * (WAIT_RETRIES - waits),
        Phase::Poll { spins } => POLL_LIMIT + 5 - spins,
        Phase::Dump => 4,
        Phase::Status => 3,
        Phase::Settle => 2,
        Phase::Response => 1,
    }
}

/// How much of a command is left: the completions that it drains, then its own.
pub open spec fn command_left(gpu: Gpu, command: Conversation) -> int {
    let completions = if command.stage == Stage::Issued {
        0
    } else if command.phase == Phase::Settle {
        in_flight(gpu) + 2
    } else {
        in_flight(gpu) + 1
    };
    completions * (POLL_LIMIT + 100) + phase_left(command.phase)
}

/// Every command ends, whatever the device answers: each step that asks for something more
/// leaves less of it.
pub proof fn law_command_ends(gpu: Gpu, command: Conversation, answer: Answer)
    requires
        command.wf(gpu),
    ensures
        ({
            let (after, there, step) = commanded(gpu, command, answer);
            step is Ask ==> 0 <= command_left(after, there) < command_left(gpu, command)
        }),
{
    let (after, there, step) = commanded(gpu, command, answer);
    assert(0 <= in_flight(gpu) < 0x1_0000);
    assert(0 <= in_flight(after) < 0x1_0000);
    if command.stage == Stage::Draining && command.phase != Phase::Settle {
        assert(in_flight(Gpu { used_index: counted(gpu.used_index), ..gpu }) == in_flight(gpu) - 1);
    }
}

/// How much of the setup of a display is left.
pub open spec fn scan_left(phase: ScanPhase) -> int {
    match phase {
        ScanPhase::Info => 5,
        ScanPhase::Allocate => 4,
        ScanPhase::Create { .. } => 3,
        ScanPhase::Attach => 2,
        ScanPhase::Scanout => 1,
    }
}

/// The setup of a display ends: each step that goes on leaves less of it.
pub proof fn law_scan_out_ends(scan: ScanOut, news: ScanNews)
    ensures
        ({
            let (after, step) = scanned(scan, news);
            step is Issue || step is Allocate ==> 0 <= scan_left(after.phase) < scan_left(
                scan.phase,
            )
        }),
{
}

/// A memory after one store.
pub open spec fn stored(memory: Seq<u8>, store: Store) -> Seq<u8> {
    Seq::new(
        memory.len(),
        |i: int|
            if store.offset <= i < store.offset + store.bytes.len() {
                store.bytes[i - store.offset]
            } else {
                memory[i]
            },
    )
}

/// A memory after stores, in order.
pub open spec fn stored_all(memory: Seq<u8>, writes: Seq<Store>) -> Seq<u8>
    decreases writes.len(),
{
    if writes.len() == 0 {
        memory
    } else {
        stored(stored_all(memory, writes.drop_last()), writes.last())
    }
}

/// Whether a byte of the framebuffer belongs to a row of a rectangle.
pub open spec fn in_row(width: u32, rect: Rect, row: int, at: int) -> bool {
    row_offset(width, rect, row) <= at < row_offset(width, rect, row) + 4 * rect.width
}

proof fn lemma_rows_apart(width: u32, rect: Rect, one: int, other: int, at: int)
    requires
        rect.x + rect.width <= width,
        0 <= one < other,
        in_row(width, rect, one, at),
    ensures
        !in_row(width, rect, other, at),
{
    assert((rect.y + one) * (4 * width) + 4 * width <= (rect.y + other) * (4 * width))
        by (nonlinear_arith)
        requires
            one + 1 <= other,
            width >= 0,
    ;
}

proof fn lemma_rows_stored(
    width: u32,
    height: u32,
    rect: Rect,
    packed: Seq<u8>,
    memory: Seq<u8>,
    count: int,
)
    requires
        inside(width, height, rect),
        framebuffer_bytes(width, height) <= MAX_FRAMEBUFFER_BYTES,
        framebuffer_bytes(width, height) <= memory.len(),
        packed_len(rect) <= packed.len(),
        0 <= count <= rect.height,
    ensures
        ({
            let after = stored_all(memory, row_stores(width, rect, packed).take(count));
            &&& after.len() == memory.len()
            &&& forall|row: int, at: int|
                0 <= row < count && #[trigger] in_row(width, rect, row, at) ==> after[at]
                    == packed[row * (4 * rect.width) + (at - row_offset(width, rect, row))]
            &&& forall|at: int|
                0 <= at < memory.len() && (forall|row: int|
                    0 <= row < count ==> !(#[trigger] in_row(width, rect, row, at)))
                    ==> #[trigger] after[at] == memory[at]
        }),
    decreases count,
{
    let all = row_stores(width, rect, packed);
    if count == 0 {
        assert(all.take(0).len() == 0);
    } else {
        let last = count - 1;
        lemma_rows_stored(width, height, rect, packed, memory, last);
        assert(all.take(count).drop_last() =~= all.take(last));
        assert(all.take(count).last() == all[last]);
        let before = stored_all(memory, all.take(last));
        let after = stored_all(memory, all.take(count));
        assert(after == stored(before, all[last]));
        let line = 4 * rect.width;
        assert(rect.height * line == packed_len(rect)) by (nonlinear_arith)
            requires
                line == 4 * rect.width,
                packed_len(rect) == rect.width * rect.height * 4,
        ;
        assert(0 <= last * line && (last + 1) * line <= rect.height * line) by (nonlinear_arith)
            requires
                0 <= last,
                last + 1 <= rect.height,
                line >= 0,
        ;
        assert((last + 1) * line == last * line + line) by (nonlinear_arith);
        lemma_row_fits(width, height, rect, last);
        assert(all[last].bytes.len() == line);
        assert forall|row: int, at: int|
            0 <= row < count && #[trigger] in_row(width, rect, row, at) implies after[at]
            == packed[row * line + (at - row_offset(width, rect, row))] by {
            lemma_row_fits(width, height, rect, row);
            if row < last {
                lemma_rows_apart(width, rect, row, last, at);
                assert(after[at] == before[at]);
            } else {
                assert(after[at] == all[last].bytes[at - row_offset(width, rect, last)]);
            }
        }
        assert forall|at: int|
            0 <= at < memory.len() && (forall|row: int|
                0 <= row < count ==> !(#[trigger] in_row(width, rect, row, at))) implies
            #[trigger] after[at] == memory[at] by {
            assert(!in_row(width, rect, last, at));
            assert(forall|row: int| 0 <= row < last ==> !(#[trigger] in_row(width, rect, row, at)));
            assert(before[at] == memory[at]);
        }
    }
}

/// What was presented is what is read back, and nothing beside the rectangle changes: after
/// the stores of a presentation, each row that a read fetches holds the row's pixels.
pub proof fn law_read_after_present(
    width: u32,
    height: u32,
    rect: Rect,
    packed: Seq<u8>,
    memory: Seq<u8>,
)
    requires
        inside(width, height, rect),
        framebuffer_bytes(width, height) <= MAX_FRAMEBUFFER_BYTES,
        framebuffer_bytes(width, height) <= memory.len(),
        packed_len(rect) <= packed.len(),
    ensures
        ({
            let after = stored_all(memory, row_stores(width, rect, packed));
            &&& after.len() == memory.len()
            &&& forall|row: int|
                0 <= row < rect.height ==> after.subrange(
                    #[trigger] row_offset(width, rect, row),
                    row_offset(width, rect, row) + 4 * rect.width,
                ) == packed.subrange(row * (4 * rect.width), (row + 1) * (4 * rect.width))
            &&& forall|at: int|
                0 <= at < memory.len() && (forall|row: int|
                    0 <= row < rect.height ==> !(#[trigger] in_row(width, rect, row, at)))
                    ==> #[trigger] after[at] == memory[at]
        }),
{
    let all = row_stores(width, rect, packed);
    lemma_rows_stored(width, height, rect, packed, memory, rect.height as int);
    assert(all.take(rect.height as int) =~= all);
    let after = stored_all(memory, all);
    let line = 4 * rect.width;
    assert forall|row: int| 0 <= row < rect.height implies after.subrange(
        #[trigger] row_offset(width, rect, row),
        row_offset(width, rect, row) + line,
    ) == packed.subrange(row * line, (row + 1) * line) by {
        let from = row_offset(width, rect, row);
        lemma_row_fits(width, height, rect, row);
        assert((row + 1) * line == row * line + line) by (nonlinear_arith);
        assert(rect.height * line == packed_len(rect)) by (nonlinear_arith)
            requires
                line == 4 * rect.width,
                packed_len(rect) == rect.width * rect.height * 4,
        ;
        assert(0 <= row * line && (row + 1) * line <= rect.height * line) by (nonlinear_arith)
            requires
                0 <= row,
                row + 1 <= rect.height,
                line >= 0,
        ;
        let seen = after.subrange(from, from + line);
        let shown = packed.subrange(row * line, (row + 1) * line);
        assert forall|i: int| 0 <= i < line implies seen[i] == shown[i] by {
            assert(in_row(width, rect, row, from + i));
        }
        assert(seen =~= shown);
    }
}

/// Where a byte of a pixel lies within pixels that stand row by row, so many to a row.
pub open spec fn pixel_at(width: int, x: int, y: int, channel: int) -> int {
    4 * (y * width + x) + channel
}

proof fn lemma_pixel_in_row(width: u32, rect: Rect, row: int, column: int, channel: int)
    requires
        rect.x + rect.width <= width,
        0 <= row < rect.height,
        0 <= column < rect.width,
        0 <= channel < 4,
    ensures
        pixel_at(width as int, rect.x + column, rect.y + row, channel) == row_offset(
            width,
            rect,
            row,
        ) + 4 * column + channel,
        pixel_at(rect.width as int, column, row, channel) == row * (4 * rect.width) + 4 * column
            + channel,
        in_row(width, rect, row, row_offset(width, rect, row) + 4 * column + channel),
{
    assert((rect.y + row) * (4 * width) == 4 * ((rect.y + row) * width)) by (nonlinear_arith);
    assert(row * (4 * rect.width) == 4 * (row * rect.width)) by (nonlinear_arith);
}

/// What is presented stands in the framebuffer pixel by pixel, four bytes each, at its
/// column and row, and every pixel outside the rectangle is as it was.
pub proof fn law_present_puts_each_pixel(
    width: u32,
    height: u32,
    rect: Rect,
    packed: Seq<u8>,
    memory: Seq<u8>,
)
    requires
        inside(width, height, rect),
        framebuffer_bytes(width, height) <= MAX_FRAMEBUFFER_BYTES,
        framebuffer_bytes(width, height) <= memory.len(),
        packed_len(rect) <= packed.len(),
    ensures
        ({
            let after = stored_all(memory, row_stores(width, rect, packed));
            &&& after.len() == memory.len()
            &&& forall|row: int, column: int, channel: int|
                0 <= row < rect.height && 0 <= column < rect.width && 0 <= channel < 4
                    ==> after[pixel_at(width as int, rect.x + column, rect.y + row, channel)]
                    == packed[#[trigger] pixel_at(rect.width as int, column, row, channel)]
            &&& forall|x: int, y: int, channel: int|
                0 <= x < width && 0 <= y < height && 0 <= channel < 4 && !(rect.x <= x < rect.x
                    + rect.width && rect.y <= y < rect.y + rect.height) ==> after[#[trigger] pixel_at(
                    width as int,
                    x,
                    y,
                    channel,
                )] == memory[pixel_at(width as int, x, y, channel)]
        }),
{
    let all = row_stores(width, rect, packed);
    lemma_rows_stored(width, height, rect, packed, memory, rect.height as int);
    assert(all.take(rect.height as int) =~= all);
    let after = stored_all(memory, all);
    assert forall|row: int, column: int, channel: int|
        0 <= row < rect.height && 0 <= column < rect.width && 0 <= channel < 4 implies after[pixel_at(
        width as int,
        rect.x + column,
        rect.y + row,
        channel,
    )] == packed[#[trigger] pixel_at(rect.width as int, column, row, channel)] by {
        lemma_pixel_in_row(width, rect, row, column, channel);
    }
    assert forall|x: int, y: int, channel: int|
        0 <= x < width && 0 <= y < height && 0 <= channel < 4 && !(rect.x <= x < rect.x + rect.width
            && rect.y <= y < rect.y + rect.height) implies after[#[trigger] pixel_at(
        width as int,
        x,
        y,
        channel,
    )] == memory[pixel_at(width as int, x, y, channel)] by {
        let at = pixel_at(width as int, x, y, channel);
        lemma_pixel_outside(width, height, rect, x, y, channel);
    }
}

proof fn lemma_pixel_outside(width: u32, height: u32, rect: Rect, x: int, y: int, channel: int)
    requires
        inside(width, height, rect),
        0 <= x < width,
        0 <= y < height,
        0 <= channel < 4,
        !(rect.x <= x < rect.x + rect.width && rect.y <= y < rect.y + rect.height),
    ensures
        0 <= pixel_at(width as int, x, y, channel) < framebuffer_bytes(width, height),
        forall|row: int|
            0 <= row < rect.height ==> !(#[trigger] in_row(
                width,
                rect,
                row,
                pixel_at(width as int, x, y, channel),
            )),
{
    let at = pixel_at(width as int, x, y, channel);
    assert(0 <= y * width && y * width + width <= height * width) by (nonlinear_arith)
        requires
            0 <= y,
            y + 1 <= height,
            width >= 0,
    ;
    assert(framebuffer_bytes(width, height) == 4 * (height * width)) by (nonlinear_arith)
        requires
            framebuffer_bytes(width, height) == width * height * 4,
    ;
    assert forall|row: int| 0 <= row < rect.height implies !(#[trigger] in_row(
        width,
        rect,
        row,
        at,
    )) by {
        let line = rect.y + row;
        assert(line * (4 * width) == 4 * (line * width)) by (nonlinear_arith);
        if y < line {
            assert(y * width + width <= line * width) by (nonlinear_arith)
                requires
                    y + 1 <= line,
                    width >= 0,
            ;
        } else if y > line {
            assert(line * width + width <= y * width) by (nonlinear_arith)
                requires
                    line + 1 <= y,
                    width >= 0,
            ;
        }
    }
}

/// Clearing gives every pixel of the rectangle the colour.
pub proof fn law_clear_is_one_colour(rect: Rect, color: u32, row: int, column: int)
    requires
        0 <= row < rect.height,
        0 <= column < rect.width,
    ensures
        solid(rect, color).len() == packed_len(rect),
        dword_le(solid(rect, color), pixel_at(rect.width as int, column, row, 0)) == color,
{
    let from = pixel_at(rect.width as int, column, row, 0);
    assert(0 <= row * rect.width && row * rect.width + rect.width <= rect.height * rect.width)
        by (nonlinear_arith)
        requires
            0 <= row,
            row + 1 <= rect.height,
            rect.width >= 0,
    ;
    assert(packed_len(rect) == 4 * (rect.height * rect.width)) by (nonlinear_arith)
        requires
            packed_len(rect) == rect.width * rect.height * 4,
    ;
    assert(solid(rect, color).subrange(from, from + 4) =~= le32(color));
    law_le32_is_found(solid(rect, color), from, color);
}

/// What the device shows after a transfer: in the rectangle that the payload names, the
/// pixels of the backing from the offset that it names on, a whole line of the framebuffer
/// for each row; elsewhere what it showed before.
pub open spec fn transferred(
    shown: spec_fn(int, int, int) -> u8,
    width: u32,
    backing: Seq<u8>,
    payload: Seq<u8>,
) -> spec_fn(int, int, int) -> u8 {
    let (x, y) = (dword_le(payload, 0), dword_le(payload, 4));
    let (w, h) = (dword_le(payload, 8), dword_le(payload, 12));
    let offset = qword_le(payload, 16);
    |column: int, row: int, channel: int|
        if x <= column < x + w && y <= row < y + h {
            backing[offset + pixel_at(width as int, column - x, row - y, channel)]
        } else {
            shown(column, row, channel)
        }
}

proof fn lemma_transfer_payload(rect: Rect, offset: u64)
    ensures
        ({
            let payload = transfer_payload(rect, offset);
            &&& payload.len() == 32
            &&& dword_le(payload, 0) == rect.x && dword_le(payload, 4) == rect.y
            &&& dword_le(payload, 8) == rect.width && dword_le(payload, 12) == rect.height
            &&& qword_le(payload, 16) == offset
            &&& dword_le(payload, 24) == RESOURCE_ID
        }),
{
    let payload = transfer_payload(rect, offset);
    assert(payload.subrange(0, 4) =~= le32(rect.x));
    assert(payload.subrange(4, 8) =~= le32(rect.y));
    assert(payload.subrange(8, 12) =~= le32(rect.width));
    assert(payload.subrange(12, 16) =~= le32(rect.height));
    assert(payload.subrange(16, 24) =~= le64(offset));
    assert(payload.subrange(24, 28) =~= le32(RESOURCE_ID));
    law_le32_is_found(payload, 0, rect.x);
    law_le32_is_found(payload, 4, rect.y);
    law_le32_is_found(payload, 8, rect.width);
    law_le32_is_found(payload, 12, rect.height);
    law_le64_is_found(payload, 16, offset);
    law_le32_is_found(payload, 24, RESOURCE_ID);
}

/// What was presented is what is shown: after the stores of a presentation and the transfer
/// that makes the rectangle visible, the device shows each presented pixel at its column and
/// row, and what it showed elsewhere stays. The flush that follows is of that rectangle. An
/// empty rectangle needs neither.
#[verifier::spinoff_prover]
#[verifier::rlimit(60)]
pub proof fn law_presented_is_shown(
    width: u32,
    height: u32,
    rect: Rect,
    packed: Seq<u8>,
    memory: Seq<u8>,
    shown: spec_fn(int, int, int) -> u8,
)
    requires
        inside(width, height, rect),
        framebuffer_bytes(width, height) <= MAX_FRAMEBUFFER_BYTES,
        framebuffer_bytes(width, height) <= memory.len(),
        packed_len(rect) <= packed.len(),
    ensures
        ({
            let orders = flushes(width, rect);
            let backing = stored_all(memory, row_stores(width, rect, packed));
            let after = transferred(shown, width, backing, orders[0].payload);
            let flush = orders[1].payload;
            &&& orders.len() == 0 <==> rect.width == 0 || rect.height == 0
            &&& orders.len() > 0 ==> {
                &&& orders.len() == 2
                &&& orders[0].command_type == TRANSFER_TO_HOST_2D && orders[0].expected == OK_NODATA
                &&& dword_le(orders[0].payload, 24) == RESOURCE_ID
                &&& forall|row: int, column: int, channel: int|
                    0 <= row < rect.height && 0 <= column < rect.width && 0 <= channel < 4 ==> after(
                        rect.x + column,
                        rect.y + row,
                        channel,
                    ) == packed[#[trigger] pixel_at(rect.width as int, column, row, channel)]
                &&& forall|x: int, y: int, channel: int|
                    !(rect.x <= x < rect.x + rect.width && rect.y <= y < rect.y + rect.height)
                        ==> #[trigger] after(x, y, channel) == shown(x, y, channel)
                &&& orders[1].command_type == RESOURCE_FLUSH && orders[1].expected == OK_NODATA
                &&& dword_le(flush, 0) == rect.x && dword_le(flush, 4) == rect.y && dword_le(
                    flush,
                    8,
                ) == rect.width && dword_le(flush, 12) == rect.height && dword_le(flush, 16)
                    == RESOURCE_ID
            }
        }),
{
    let orders = flushes(width, rect);
    if orders.len() > 0 {
        let backing = stored_all(memory, row_stores(width, rect, packed));
        let after = transferred(shown, width, backing, orders[0].payload);
        let offset = row_offset(width, rect, 0);
        law_present_puts_each_pixel(width, height, rect, packed, memory);
        lemma_row_fits(width, height, rect, 0);
        lemma_transfer_payload(rect, offset as u64);
        assert forall|row: int, column: int, channel: int|
            0 <= row < rect.height && 0 <= column < rect.width && 0 <= channel < 4 implies after(
            rect.x + column,
            rect.y + row,
            channel,
        ) == packed[#[trigger] pixel_at(rect.width as int, column, row, channel)] by {
            let there = pixel_at(width as int, rect.x + column, rect.y + row, channel);
            assert(offset + pixel_at(width as int, column, row, channel) == there)
                by (nonlinear_arith)
                requires
                    offset == (rect.y + 0) * (4 * width) + 4 * rect.x,
                    there == 4 * ((rect.y + row) * width + (rect.x + column)) + channel,
                    pixel_at(width as int, column, row, channel) == 4 * (row * width + column)
                        + channel,
            ;
        }
        lemma_flush_payload(rect);
    }
}

proof fn lemma_flush_payload(rect: Rect)
    ensures
        ({
            let flush = flush_payload(rect);
            &&& dword_le(flush, 0) == rect.x && dword_le(flush, 4) == rect.y
            &&& dword_le(flush, 8) == rect.width && dword_le(flush, 12) == rect.height
            &&& dword_le(flush, 16) == RESOURCE_ID
        }),
{
    let flush = flush_payload(rect);
    assert(flush.subrange(0, 4) =~= le32(rect.x));
    assert(flush.subrange(4, 8) =~= le32(rect.y));
    assert(flush.subrange(8, 12) =~= le32(rect.width));
    assert(flush.subrange(12, 16) =~= le32(rect.height));
    assert(flush.subrange(16, 20) =~= le32(RESOURCE_ID));
    law_le32_is_found(flush, 0, rect.x);
    law_le32_is_found(flush, 4, rect.y);
    law_le32_is_found(flush, 8, rect.width);
    law_le32_is_found(flush, 12, rect.height);
    law_le32_is_found(flush, 16, RESOURCE_ID);
}

/// A command is its type, a header of zeros and its payload.
pub proof fn law_command_carries_its_payload(command_type: u32, payload: Seq<u8>)
    ensures
        ({
            let bytes = command_bytes(command_type, payload);
            &&& bytes.len() == 24 + payload.len()
            &&& dword_le(bytes, 0) == command_type
            &&& forall|i: int| 4 <= i < 24 ==> #[trigger] bytes[i] == 0
            &&& bytes.skip(24) == payload
        }),
{
    let bytes = command_bytes(command_type, payload);
    assert(bytes.subrange(0, 4) =~= le32(command_type));
    law_le32_is_found(bytes, 0, command_type);
    assert(bytes.skip(24) =~= payload);
}

/// The geometry that is taken is that of the first scanout: there is one exactly where the
/// response is long enough, neither side is zero and the pixels fit the framebuffer limit.
pub proof fn law_geometry_is_the_reported_one(response: Seq<u8>)
    ensures
        ({
            let (width, height) = (dword_le(response, 32), dword_le(response, 36));
            match reported_geometry(response) {
                Ok(geometry) => {
                    &&& response.len() >= 48
                    &&& geometry == (width, height)
                    &&& width > 0 && height > 0
                    &&& 4 * (width * height) <= 0x40_0000
                },
                Err(_) => response.len() < 48 || width == 0 || height == 0 || 4 * (width * height)
                    > 0x40_0000,
            }
        }),
{
    let (width, height) = (dword_le(response, 32), dword_le(response, 36));
    assert(framebuffer_bytes(width, height) == 4 * (width * height)) by (nonlinear_arith)
        requires
            framebuffer_bytes(width, height) == width * height * BYTES_PER_PIXEL,
            BYTES_PER_PIXEL == 4,
    ;
}

/// The setup of a display, once it knows the geometry: memory for every pixel is allocated,
/// a resource of that size is made, backed with that memory and shown whole.
pub proof fn law_setup_shows_the_framebuffer(response: Seq<u8>, address: u64, rest: Seq<u8>)
    requires
        reported_geometry(response) is Ok,
    ensures
        ({
            let (width, height) = reported_geometry(response)->Ok_0;
            let start = ScanOut { phase: ScanPhase::Info, width: 0, height: 0 };
            let (one, allocate) = scanned(start, ScanNews::Response(response));
            let (two, create) = scanned(one, ScanNews::Allocated(address));
            let (three, attach) = scanned(two, ScanNews::Response(rest));
            let (four, scanout) = scanned(three, ScanNews::Response(rest));
            let (five, complete) = scanned(four, ScanNews::Response(rest));
            let made = create->Issue_0;
            let backed = attach->Issue_0;
            let shown = scanout->Issue_0;
            &&& allocate == ScanAnswer::Allocate((4 * (width * height)) as u64)
            &&& create is Issue && made.command_type == RESOURCE_CREATE_2D && made.expected
                == OK_NODATA
            &&& dword_le(made.payload, 0) == RESOURCE_ID && dword_le(made.payload, 4)
                == FORMAT_B8G8R8X8
            &&& dword_le(made.payload, 8) == width && dword_le(made.payload, 12) == height
            &&& attach is Issue && backed.command_type == RESOURCE_ATTACH_BACKING && backed.expected
                == OK_NODATA
            &&& dword_le(backed.payload, 0) == RESOURCE_ID && dword_le(backed.payload, 4) == 1
            &&& qword_le(backed.payload, 8) == address && dword_le(backed.payload, 16) == 4 * (width
                * height)
            &&& scanout is Issue && shown.command_type == SET_SCANOUT && shown.expected == OK_NODATA
            &&& dword_le(shown.payload, 0) == 0 && dword_le(shown.payload, 4) == 0
            &&& dword_le(shown.payload, 8) == width && dword_le(shown.payload, 12) == height
            &&& dword_le(shown.payload, 16) == SCANOUT_ID && dword_le(shown.payload, 20)
                == RESOURCE_ID
            &&& complete is Complete
            &&& five.width == width && five.height == height
        }),
{
    let (width, height) = reported_geometry(response)->Ok_0;
    law_geometry_is_the_reported_one(response);
    let bytes = framebuffer_bytes(width, height);
    assert(bytes == 4 * (width * height)) by (nonlinear_arith)
        requires
            bytes == width * height * BYTES_PER_PIXEL,
            BYTES_PER_PIXEL == 4,
    ;
    assert(0 <= width * height) by (nonlinear_arith);
    let made = create_payload(width, height);
    assert(made.subrange(0, 4) =~= le32(RESOURCE_ID));
    assert(made.subrange(4, 8) =~= le32(FORMAT_B8G8R8X8));
    assert(made.subrange(8, 12) =~= le32(width));
    assert(made.subrange(12, 16) =~= le32(height));
    law_le32_is_found(made, 0, RESOURCE_ID);
    law_le32_is_found(made, 4, FORMAT_B8G8R8X8);
    law_le32_is_found(made, 8, width);
    law_le32_is_found(made, 12, height);
    let backed = attach_payload(address, bytes as u32);
    assert(backed.subrange(0, 4) =~= le32(RESOURCE_ID));
    assert(backed.subrange(4, 8) =~= le32(1));
    assert(backed.subrange(8, 16) =~= le64(address));
    assert(backed.subrange(16, 20) =~= le32(bytes as u32));
    law_le32_is_found(backed, 0, RESOURCE_ID);
    law_le32_is_found(backed, 4, 1);
    law_le64_is_found(backed, 8, address);
    law_le32_is_found(backed, 16, bytes as u32);
    let shown = scanout_payload(width, height);
    assert(shown.subrange(0, 4) =~= le32(0));
    assert(shown.subrange(4, 8) =~= le32(0));
    assert(shown.subrange(8, 12) =~= le32(width));
    assert(shown.subrange(12, 16) =~= le32(height));
    assert(shown.subrange(16, 20) =~= le32(SCANOUT_ID));
    assert(shown.subrange(20, 24) =~= le32(RESOURCE_ID));
    law_le32_is_found(shown, 0, 0);
    law_le32_is_found(shown, 4, 0);
    law_le32_is_found(shown, 8, width);
    law_le32_is_found(shown, 12, height);
    law_le32_is_found(shown, 16, SCANOUT_ID);
    law_le32_is_found(shown, 20, RESOURCE_ID);
}

/// A setup stops at the first failure and says it.
pub proof fn law_setup_stops_at_a_failure(scan: ScanOut, text: Seq<char>)
    ensures
        scanned(scan, ScanNews::Failed(text)).1 == ScanAnswer::Failed(text),
        scanned(scan, ScanNews::Unallocated(text)).1 is Failed,
{
}

/// A command whose completion the device shows goes on: its response is read, and it is the
/// outcome where it is of the expected type, and a failure otherwise. Completions are counted
/// one by one.
pub proof fn law_command_ends_in_its_response(gpu: Gpu, command: Conversation, answer: Answer)
    requires
        command.wf(gpu),
        command.stage == Stage::Issued,
        fits(phase_access(gpu, command.phase), answer),
    ensures
        ({
            let (after, there, step) = commanded(gpu, command, answer);
            let bytes = answer->Bytes_0;
            &&& command.phase is Check || command.phase is Poll ==> if word_le(bytes, 0)
                != gpu.used_index {
                &&& after.used_index == if gpu.used_index == 65535 {
                    0
                } else {
                    gpu.used_index + 1
                }
                &&& there.phase == Phase::Response || there.phase == Phase::Settle && gpu.interrupt
                    && gpu.isr
            } else {
                after.used_index == gpu.used_index && there.phase != Phase::Response
            }
            &&& command.phase == Phase::Settle ==> there.phase == Phase::Response
            &&& command.phase == Phase::Response ==> if dword_le(bytes, 0) == command.expected {
                step == CommandAnswer::Complete(bytes)
            } else {
                step is Failed
            }
            &&& step is Complete ==> command.phase == Phase::Response
            &&& after.avail_index == gpu.avail_index
            &&& there.command_type == command.command_type && there.payload == command.payload
                && there.expected == command.expected
        }),
{
}

/// What publishing a command tells the device: the bytes of the command are at the address
/// of the first descriptor, and its response goes to the second half of the page, which the
/// device writes.
pub proof fn law_chain_holds_the_command(gpu: Gpu, command_type: u32, payload: Seq<u8>)
    requires
        gpu.wf(),
        payload.len() <= 1000,
    ensures
        ({
            let writes = publication(gpu, command_type, payload);
            let bytes = writes[0].bytes;
            let (first, second) = (writes[2].bytes, writes[3].bytes);
            &&& writes[0].buffer == Buffer::Command && writes[0].offset == 0
            &&& bytes == command_bytes(command_type, payload)
            &&& writes[1].buffer == Buffer::Command && writes[1].offset == 1024 && writes[1].bytes
                == zero_bytes(4)
            &&& writes[2].buffer == Buffer::Rings && writes[2].offset == 0
            &&& writes[3].buffer == Buffer::Rings && writes[3].offset == 16
            &&& qword_le(first, 0) == gpu.command_address && dword_le(first, 8) == bytes.len()
            &&& word_le(first, 12) == 1 && word_le(first, 14) == 1
            &&& qword_le(second, 0) == gpu.command_address + 1024 && dword_le(second, 8) == 1024
            &&& word_le(second, 12) == 2
        }),
{
    let bytes = command_bytes(command_type, payload);
    let writes = publication(gpu, command_type, payload);
    let first = descriptor(gpu.command_address, bytes.len() as u32, DESC_NEXT, 1);
    let second = descriptor(
        (gpu.command_address + RESP_OFFSET) as u64,
        RESP_MAX as u32,
        DESC_WRITE,
        0,
    );
    assert(writes[2].bytes == first && writes[3].bytes == second);
    law_descriptor_is_read_back(gpu.command_address, bytes.len() as u32, DESC_NEXT, 1);
    law_descriptor_is_read_back(
        (gpu.command_address + RESP_OFFSET) as u64,
        RESP_MAX as u32,
        DESC_WRITE,
        0,
    );
}

/// A command that nothing is before is published: the ring offers its chain as the next
/// entry, then counts it, and the doorbell of the queue is rung.
pub proof fn law_command_is_offered_and_rung(gpu: Gpu, command: Conversation)
    requires
        gpu.wf(),
        gpu.avail_index == gpu.used_index,
    ensures
        ({
            let (after, there, step) = settled(gpu, command);
            let writes = step->Ask_0.writes;
            &&& step is Ask && there.stage == Stage::Issued
            &&& writes == publication(gpu, command.command_type, command.payload)
            &&& writes.len() == 6
            &&& writes[4].buffer == Buffer::Rings && writes[5].buffer == Buffer::Rings
            &&& writes[4].offset == AVAIL_OFFSET + 4 + 2 * (gpu.avail_index % gpu.queue_size)
            &&& writes[4].bytes == le16(0)
            &&& writes[5].offset == AVAIL_OFFSET + 2 && writes[5].bytes == le16(after.avail_index)
            &&& after.avail_index == if gpu.avail_index == 65535 {
                0
            } else {
                gpu.avail_index + 1
            }
            &&& step->Ask_0.access == (Access::Write {
                window: Window::Notify,
                register: gpu.notify_offset,
                width: Width::Word,
                value: 0,
            })
        }),
{
}

/// A command that waits looks at the same things, whichever way it waits: the interrupt
/// status is read as one byte, which acknowledges it, and the two bytes behind the flags of
/// the used ring say how far the device is.
pub proof fn law_waits_look_at_the_same(gpu: Gpu, one: Phase, other: Phase)
    requires
        one is Clear || one is Settle,
        other is Check || other is Poll,
    ensures
        phase_access(gpu, one) == (Access::Read {
            window: Window::Isr,
            register: 0,
            width: Width::Byte,
        }),
        phase_access(gpu, other) == (Access::Fetch {
            buffer: Buffer::Rings,
            offset: (USED_OFFSET + 2) as u64,
            len: 2,
        }),
{
}

/// A command that the device never completes is reported with what its used ring held: the
/// eight bytes that were read there are kept, the device status is read behind them, and the
/// command fails. A response of another type fails it too, and one of the right type is
/// given out whole.
pub proof fn law_lost_command_is_reported(
    gpu: Gpu,
    command: Conversation,
    ring: Seq<u8>,
    response: Seq<u8>,
    status: Answer,
)
    requires
        command.phase == Phase::Dump,
        !(status is Failed),
    ensures
        ({
            let (g1, c1, a1) = commanded(gpu, command, Answer::Bytes(ring));
            let (g2, c2, a2) = commanded(g1, c1, status);
            &&& g1 == gpu && g2 == gpu
            &&& c1.dump == ring && c1.phase == Phase::Status && c1.stage == command.stage
            &&& a1 matches CommandAnswer::Ask(_)
            &&& a2 is Failed
        }),
        ({
            let answered = Conversation { phase: Phase::Response, ..command };
            let (_, _, a3) = commanded(gpu, answered, Answer::Bytes(response));
            &&& dword_le(response, 0) == command.expected ==> a3 == CommandAnswer::Complete(
                response,
            )
            &&& dword_le(response, 0) != command.expected ==> a3 is Failed
        }),
{
}

/// What a value is over contents is of the same kind as the value itself: no two kinds are
/// taken for one another.
pub proof fn law_contents_keep_their_kind(
    command_step: CommandStep,
    scan_event: ScanEvent,
    scan_step: ScanStep,
)
    ensures
        command_step is Ask <==> command_step@ is Ask,
        command_step is Complete <==> command_step@ is Complete,
        command_step is Failed <==> command_step@ is Failed,
        scan_event is Response <==> scan_event@ is Response,
        scan_event is Allocated <==> scan_event@ is Allocated,
        scan_event is Unallocated <==> scan_event@ is Unallocated,
        scan_event is Failed <==> scan_event@ is Failed,
        scan_step is Issue <==> scan_step@ is Issue,
        scan_step is Allocate <==> scan_step@ is Allocate,
        scan_step is Complete <==> scan_step@ is Complete,
        scan_step is Failed <==> scan_step@ is Failed,
{
}

/// A command that follows a cancelled one waits for it: the doorbell is rung for the old one
/// and nothing is published; when the device has completed it, the command is published, and
/// only its own completion is answered by its response.
pub proof fn law_cancelled_command_is_drained(gpu: Gpu, command: Conversation)
    ensures
        gpu.avail_index != gpu.used_index ==> {
            let (after, there, step) = settled(gpu, command);
            &&& after == gpu && there.stage == Stage::Draining && there.phase == Phase::Kick
            &&& there.payload == command.payload && there.command_type == command.command_type
            &&& there.expected == command.expected
            &&& step == CommandAnswer::Ask(only(phase_access(gpu, Phase::Kick)))
        },
        gpu.avail_index == gpu.used_index ==> {
            let (after, there, step) = completed(
                gpu,
                Conversation { stage: Stage::Draining, ..command },
            );
            &&& there.stage == Stage::Issued && there.phase == Phase::Kick
            &&& after.avail_index == (gpu.avail_index + 1) % 0x1_0000
            &&& after.used_index == gpu.used_index
            &&& step matches CommandAnswer::Ask(wanted) && wanted.writes == publication(
                gpu,
                command.command_type,
                command.payload,
            )
        },
        completed(gpu, Conversation { stage: Stage::Issued, ..command }).1.phase == Phase::Response,
{
}

} // verus!
