//! `fs.eofs`: the filesystem engine over a disk as a filesystem provider.
//!
//! The engine is asked for one thing at a time. Here is how a disk is mounted, how an
//! operation that changes the filesystem is committed, retried or rolled back, and what
//! failures look like from outside.
use vstd::prelude::*;
use vstd::string::*;

use crate::disk::{ReadError, ReadFailure, WriteError, WriteFailure};
use crate::fs::{
    canonical, path_of, segments, slashed, FsError, FsFailure, NodeKind, NodeStat, OpenFlags,
};

use crate::text::{contents, decimal, push_decimal};

verus! {

/// Failures of the disk as the engine knows them.
#[derive(Debug)]
pub enum DeviceError {
    OutOfRange,
    Io,
    /// With a reason in words.
    IoNamed(String),
}

/// Failures of the disk as the engine knows them, over contents.
pub enum DeviceFailure {
    OutOfRange,
    Io,
    IoNamed(Seq<char>),
}

impl View for DeviceError {
    type V = DeviceFailure;

    open spec fn view(&self) -> DeviceFailure {
        match self {
            DeviceError::OutOfRange => DeviceFailure::OutOfRange,
            DeviceError::Io => DeviceFailure::Io,
            DeviceError::IoNamed(text) => DeviceFailure::IoNamed(text@),
        }
    }
}

/// What a call of the disk came to, over contents.
pub open spec fn device_outcome(result: Result<(), DeviceError>) -> Result<(), DeviceFailure> {
    match result {
        Ok(()) => Ok(()),
        Err(error) => Err(error@),
    }
}

/// What is said of an access that was done in part.
pub open spec fn partial(what: Seq<char>, done: u64, len: u64) -> Seq<char> {
    what + decimal(done as nat) + " of "@ + decimal(len as nat) + " bytes)"@
}

fn partial_words(what: &str, done: u64, len: u64) -> (said: String)
    ensures
        said@ == partial(what@, done, len),
{
    let mut said = String::from_str(what);
    push_decimal(&mut said, done);
    said.append(" of ");
    push_decimal(&mut said, len);
    said.append(" bytes)");
    said
}

/// What a read of the disk comes to for the engine, which reads nothing beyond the end
/// that it knows: a read in part is a failure.
pub fn read_outcome(result: Result<u64, ReadError>, len: u64) -> (outcome: Result<(), DeviceError>)
    ensures
        device_outcome(outcome) == match result {
            Ok(done) => if done < len {
                Err(DeviceFailure::IoNamed(partial("short read from the device ("@, done, len)))
            } else {
                Ok(())
            },
            Err(error) => match error@ {
                ReadFailure::OutOfRange => Err(DeviceFailure::OutOfRange),
                ReadFailure::Io(text) => Err(DeviceFailure::IoNamed(text)),
                ReadFailure::NotFound => Err(DeviceFailure::Io),
            },
        },
{
    match result {
        Ok(done) => if done < len {
            Err(DeviceError::IoNamed(partial_words("short read from the device (", done, len)))
        } else {
            Ok(())
        },
        Err(ReadError::OutOfRange) => Err(DeviceError::OutOfRange),
        Err(ReadError::Io(text)) => Err(DeviceError::IoNamed(text)),
        Err(ReadError::NotFound) => Err(DeviceError::Io),
    }
}

/// A failure of writing as the engine knows it.
pub open spec fn write_failure(failure: WriteFailure) -> DeviceFailure {
    match failure {
        WriteFailure::OutOfRange => DeviceFailure::OutOfRange,
        WriteFailure::Io(text) => DeviceFailure::IoNamed(text),
        WriteFailure::ReadOnly => DeviceFailure::IoNamed("the device is read-only"@),
    }
}

fn write_error(error: WriteError) -> (failure: DeviceError)
    ensures
        failure@ == write_failure(error@),
{
    match error {
        WriteError::OutOfRange => DeviceError::OutOfRange,
        WriteError::Io(text) => DeviceError::IoNamed(text),
        WriteError::ReadOnly => DeviceError::IoNamed(String::from_str("the device is read-only")),
    }
}

/// What a write of the disk comes to for the engine.
pub fn write_outcome(result: Result<u64, WriteError>, len: u64) -> (outcome: Result<
    (),
    DeviceError,
>)
    ensures
        device_outcome(outcome) == match result {
            Ok(done) => if done < len {
                Err(DeviceFailure::IoNamed(partial("short write to the device ("@, done, len)))
            } else {
                Ok(())
            },
            Err(error) => Err(write_failure(error@)),
        },
{
    match result {
        Ok(done) => if done < len {
            Err(DeviceError::IoNamed(partial_words("short write to the device (", done, len)))
        } else {
            Ok(())
        },
        Err(error) => Err(write_error(error)),
    }
}

/// What a flush of the disk comes to for the engine.
pub fn flush_outcome(result: Result<(), WriteError>) -> (outcome: Result<(), DeviceError>)
    ensures
        device_outcome(outcome) == match result {
            Ok(()) => Ok(()),
            Err(error) => Err(write_failure(error@)),
        },
{
    match result {
        Ok(()) => Ok(()),
        Err(error) => Err(write_error(error)),
    }
}

/// Failures of the engine.
#[derive(Debug)]
pub enum EngineError {
    NotFound,
    AlreadyExists,
    NotADirectory,
    IsADirectory,
    NoSpace,
    DirectoryNotEmpty,
    ChecksumMismatch,
    /// With what is corrupt.
    Corrupt(String),
    /// Any other, in words.
    Other(String),
}

/// Failures of the engine, over contents.
pub enum EngineFailure {
    NotFound,
    AlreadyExists,
    NotADirectory,
    IsADirectory,
    NoSpace,
    DirectoryNotEmpty,
    ChecksumMismatch,
    Corrupt(Seq<char>),
    Other(Seq<char>),
}

impl View for EngineError {
    type V = EngineFailure;

    open spec fn view(&self) -> EngineFailure {
        match self {
            EngineError::NotFound => EngineFailure::NotFound,
            EngineError::AlreadyExists => EngineFailure::AlreadyExists,
            EngineError::NotADirectory => EngineFailure::NotADirectory,
            EngineError::IsADirectory => EngineFailure::IsADirectory,
            EngineError::NoSpace => EngineFailure::NoSpace,
            EngineError::DirectoryNotEmpty => EngineFailure::DirectoryNotEmpty,
            EngineError::ChecksumMismatch => EngineFailure::ChecksumMismatch,
            EngineError::Corrupt(what) => EngineFailure::Corrupt(what@),
            EngineError::Other(shown) => EngineFailure::Other(shown@),
        }
    }
}

/// A failure of the engine as one of the filesystem.
pub open spec fn mapped(failure: EngineFailure) -> FsFailure {
    match failure {
        EngineFailure::NotFound => FsFailure::NotFound,
        EngineFailure::AlreadyExists => FsFailure::AlreadyExists,
        EngineFailure::NotADirectory => FsFailure::NotADirectory,
        EngineFailure::IsADirectory => FsFailure::IsADirectory,
        EngineFailure::NoSpace => FsFailure::NoSpace,
        EngineFailure::DirectoryNotEmpty => FsFailure::Io("directory is not empty"@),
        EngineFailure::ChecksumMismatch => FsFailure::Io(
            "integrity check failed: block checksum mismatch (the stored data does not match its recorded hash; the device is corrupted at this location)"@,
        ),
        EngineFailure::Corrupt(what) => FsFailure::Io(
            "integrity check failed: corrupt filesystem structure ("@ + what + ")"@,
        ),
        EngineFailure::Other(shown) => FsFailure::Io(shown),
    }
}

/// A failure of the engine as one of the filesystem.
pub fn map_error(error: EngineError) -> (failure: FsError)
    ensures
        failure@ == mapped(error@),
{
    match error {
        EngineError::NotFound => FsError::NotFound,
        EngineError::AlreadyExists => FsError::AlreadyExists,
        EngineError::NotADirectory => FsError::NotADirectory,
        EngineError::IsADirectory => FsError::IsADirectory,
        EngineError::NoSpace => FsError::NoSpace,
        EngineError::DirectoryNotEmpty => FsError::Io(String::from_str("directory is not empty")),
        EngineError::ChecksumMismatch => FsError::Io(
            String::from_str(
                "integrity check failed: block checksum mismatch (the stored data does not match its recorded hash; the device is corrupted at this location)",
            ),
        ),
        EngineError::Corrupt(what) => {
            let mut said = String::from_str(
                "integrity check failed: corrupt filesystem structure (",
            );
            said.append(what.as_str());
            said.append(")");
            FsError::Io(said)
        },
        EngineError::Other(shown) => FsError::Io(shown),
    }
}

/// A failure of the disk, in words, as one of the filesystem.
pub fn device_error(shown: &str) -> (failure: FsError)
    ensures
        failure@ == FsFailure::Io("device error: "@ + shown@),
{
    let mut said = String::from_str("device error: ");
    said.append(shown);
    FsError::Io(said)
}

/// The failure of an operation that arrives while another is under way.
pub fn fs_busy() -> (failure: FsError)
    ensures
        failure@ == FsFailure::Io(
            "the filesystem is busy with a concurrent operation; issue filesystem calls sequentially"@,
        ),
{
    FsError::Io(
        String::from_str(
            "the filesystem is busy with a concurrent operation; issue filesystem calls sequentially",
        ),
    )
}

/// What a disk holds.
#[derive(Clone, Copy, PartialEq, Eq, Structural, Debug)]
pub enum ImageState {
    /// A filesystem of the engine.
    Eofs,
    /// Remains of one that does not mount.
    Unmountable,
    /// Nothing.
    Blank,
    /// Something else.
    Foreign,
}

/// Where mounting stands.
#[derive(Clone, Copy, PartialEq, Eq, Structural, Debug)]
pub enum Mounting {
    /// It awaits the size of the disk.
    Size,
    /// It awaits one byte, which wakes the disk.
    Wake,
    /// It awaits the size of the disk that was woken.
    SizeAgain,
    /// It awaits what the disk holds.
    Probe,
}

/// What came back.
#[derive(Debug)]
pub enum MountEvent {
    Size(u64),
    /// One byte was read.
    Awake,
    /// The byte was not read, for a reason in words.
    Dead(String),
    Holds(ImageState),
    /// The engine could not tell.
    Failed(EngineError),
}

/// What came back, over contents.
#[allow(inconsistent_fields)]
pub enum MountNews {
    Size(u64),
    Awake,
    Dead(Seq<char>),
    Holds(ImageState),
    Failed(EngineFailure),
}

impl View for MountEvent {
    type V = MountNews;

    open spec fn view(&self) -> MountNews {
        match self {
            MountEvent::Size(size) => MountNews::Size(*size),
            MountEvent::Awake => MountNews::Awake,
            MountEvent::Dead(shown) => MountNews::Dead(shown@),
            MountEvent::Holds(state) => MountNews::Holds(*state),
            MountEvent::Failed(error) => MountNews::Failed(error@),
        }
    }
}

/// The next step of mounting.
#[derive(Debug)]
pub enum MountStep {
    Size,
    ReadByte,
    Probe,
    Mount,
    Format,
    Fail(FsError),
}

/// The next step of mounting, over contents.
pub enum MountTurn {
    Size,
    ReadByte,
    Probe,
    Mount,
    Format,
    Fail(FsFailure),
}

impl View for MountStep {
    type V = MountTurn;

    open spec fn view(&self) -> MountTurn {
        match self {
            MountStep::Size => MountTurn::Size,
            MountStep::ReadByte => MountTurn::ReadByte,
            MountStep::Probe => MountTurn::Probe,
            MountStep::Mount => MountTurn::Mount,
            MountStep::Format => MountTurn::Format,
            MountStep::Fail(error) => MountTurn::Fail(error@),
        }
    }
}

/// Whether an event answers what mounting awaits.
pub open spec fn mount_answers(mounting: Mounting, news: MountNews) -> bool {
    match mounting {
        Mounting::Size | Mounting::SizeAgain => news is Size,
        Mounting::Wake => news is Awake || news is Dead,
        Mounting::Probe => news is Holds || news is Failed,
    }
}

/// What is said of a disk with something else on it.
pub open spec fn foreign_text() -> Seq<char> {
    "the disk holds data that is not an eofs filesystem; refusing to format over it. If that data is expendable, format the device explicitly: `eo9 mkfs.eofs <image> --force`"@
}

/// The step of mounting that an event brings about.
pub open spec fn mounted(mounting: Mounting, news: MountNews) -> (Mounting, MountTurn) {
    match news {
        MountNews::Size(size) => if size > 0 {
            (Mounting::Probe, MountTurn::Probe)
        } else if mounting == Mounting::Size {
            (Mounting::Wake, MountTurn::ReadByte)
        } else {
            (mounting, MountTurn::Fail(FsFailure::Io("the disk reports a size of 0 bytes"@)))
        },
        MountNews::Awake => (Mounting::SizeAgain, MountTurn::Size),
        MountNews::Dead(shown) => (
            mounting,
            MountTurn::Fail(FsFailure::Io("device error: "@ + shown)),
        ),
        MountNews::Holds(state) => (
            mounting,
            match state {
                ImageState::Eofs | ImageState::Unmountable => MountTurn::Mount,
                ImageState::Blank => MountTurn::Format,
                ImageState::Foreign => MountTurn::Fail(FsFailure::Io(foreign_text())),
            },
        ),
        MountNews::Failed(failure) => (mounting, MountTurn::Fail(mapped(failure))),
    }
}

impl Mounting {
    /// Take an event. The first thing that mounting asks for is the size of the disk.
    pub fn step(&mut self, event: MountEvent) -> (step: MountStep)
        requires
            mount_answers(*old(self), event@),
        ensures
            (*final(self), step@) == mounted(*old(self), event@),
    {
        match event {
            MountEvent::Size(size) => if size > 0 {
                *self = Mounting::Probe;
                MountStep::Probe
            } else if let Mounting::Size = *self {
                *self = Mounting::Wake;
                MountStep::ReadByte
            } else {
                MountStep::Fail(FsError::Io(String::from_str("the disk reports a size of 0 bytes")))
            },
            MountEvent::Awake => {
                *self = Mounting::SizeAgain;
                MountStep::Size
            },
            MountEvent::Dead(shown) => MountStep::Fail(device_error(shown.as_str())),
            MountEvent::Holds(state) => match state {
                ImageState::Eofs | ImageState::Unmountable => MountStep::Mount,
                ImageState::Blank => MountStep::Format,
                ImageState::Foreign => MountStep::Fail(
                    FsError::Io(
                        String::from_str(
                            "the disk holds data that is not an eofs filesystem; refusing to format over it. If that data is expendable, format the device explicitly: `eo9 mkfs.eofs <image> --force`",
                        ),
                    ),
                ),
            },
            MountEvent::Failed(error) => MountStep::Fail(map_error(error)),
        }
    }
}

/// What an operation that changes the filesystem wants of the engine.
#[derive(Clone, Copy, PartialEq, Eq, Structural, Debug)]
pub enum Change {
    /// A file to be there, made if that is wanted.
    Open { create: bool },
    MakeDirectory,
    Remove,
    /// Bytes in a file, which is replaced if a truncation is due.
    Write { truncating: bool },
}

/// What the engine is asked for, at the path of the operation.
#[derive(Clone, Copy, PartialEq, Eq, Structural, Debug)]
pub enum EngineCall {
    Stat,
    CreateFile,
    MakeDirectory,
    Remove,
    Write,
    Commit,
    /// Reclaim what nothing refers to.
    Collect,
}

/// What the engine answered.
#[derive(Debug)]
pub enum EngineReply {
    Done,
    Stat(NodeKind),
    Failed(EngineError),
}

/// What the engine answered, over contents.
#[allow(inconsistent_fields)]
pub enum EngineNews {
    Done,
    Stat(NodeKind),
    Failed(EngineFailure),
}

impl View for EngineReply {
    type V = EngineNews;

    open spec fn view(&self) -> EngineNews {
        match self {
            EngineReply::Done => EngineNews::Done,
            EngineReply::Stat(kind) => EngineNews::Stat(*kind),
            EngineReply::Failed(error) => EngineNews::Failed(error@),
        }
    }
}

/// An operation that changes the filesystem: what it wants, what was asked last, and
/// whether it is the second attempt.
#[derive(Clone, Copy, PartialEq, Eq, Structural, Debug)]
pub struct Mutation {
    pub change: Change,
    pub asked: EngineCall,
    pub retried: bool,
}

/// The next step of a mutation.
#[derive(Debug)]
pub enum MutationStep {
    Ask(EngineCall),
    Done,
    /// Everything that is not committed is discarded, and the operation fails.
    RollBack(FsError),
}

/// The next step of a mutation, over contents.
#[allow(inconsistent_fields)]
pub enum MutationTurn {
    Ask(EngineCall),
    Done,
    RollBack(FsFailure),
}

impl View for MutationStep {
    type V = MutationTurn;

    open spec fn view(&self) -> MutationTurn {
        match self {
            MutationStep::Ask(call) => MutationTurn::Ask(*call),
            MutationStep::Done => MutationTurn::Done,
            MutationStep::RollBack(error) => MutationTurn::RollBack(error@),
        }
    }
}

/// The first thing that an attempt asks for.
pub open spec fn opening(change: Change) -> EngineCall {
    match change {
        Change::Open { .. } => EngineCall::Stat,
        Change::MakeDirectory => EngineCall::MakeDirectory,
        Change::Remove => EngineCall::Remove,
        Change::Write { truncating } => if truncating {
            EngineCall::Stat
        } else {
            EngineCall::Write
        },
    }
}

/// Whether an answer fits what was asked.
pub open spec fn reply_answers(asked: EngineCall, news: EngineNews) -> bool {
    match asked {
        EngineCall::Stat => news is Stat || news is Failed,
        _ => news is Done || news is Failed,
    }
}

/// What follows a failure: with no space left, what nothing refers to is reclaimed once;
/// otherwise the operation is rolled back.
pub open spec fn failed(mutation: Mutation, failure: EngineFailure) -> (Mutation, MutationTurn) {
    if failure is NoSpace && !mutation.retried && mutation.asked != EngineCall::Collect {
        (
            Mutation { asked: EngineCall::Collect, ..mutation },
            MutationTurn::Ask(EngineCall::Collect),
        )
    } else {
        (mutation, MutationTurn::RollBack(mapped(failure)))
    }
}

/// The mutation asks for something.
pub open spec fn asking(mutation: Mutation, call: EngineCall) -> (Mutation, MutationTurn) {
    (Mutation { asked: call, ..mutation }, MutationTurn::Ask(call))
}

/// What follows a look at the path.
pub open spec fn after_look(mutation: Mutation, news: EngineNews) -> (Mutation, MutationTurn) {
    match mutation.change {
        Change::Open { create } => match news {
            EngineNews::Stat(NodeKind::Directory) => failed(mutation, EngineFailure::IsADirectory),
            EngineNews::Failed(failure) => if failure is NotFound && create {
                asking(mutation, EngineCall::CreateFile)
            } else {
                failed(mutation, failure)
            },
            _ => (mutation, MutationTurn::Done),
        },
        _ => if news is Failed {
            asking(mutation, EngineCall::CreateFile)
        } else {
            asking(mutation, EngineCall::Remove)
        },
    }
}

/// What follows something that is done.
pub open spec fn after_done(mutation: Mutation) -> (Mutation, MutationTurn) {
    match mutation.asked {
        EngineCall::Collect => (
            Mutation { asked: opening(mutation.change), retried: true, ..mutation },
            MutationTurn::Ask(opening(mutation.change)),
        ),
        EngineCall::Commit => (mutation, MutationTurn::Done),
        EngineCall::Remove => if mutation.change is Write {
            asking(mutation, EngineCall::CreateFile)
        } else {
            asking(mutation, EngineCall::Commit)
        },
        EngineCall::CreateFile => if mutation.change is Write {
            asking(mutation, EngineCall::Write)
        } else {
            asking(mutation, EngineCall::Commit)
        },
        _ => asking(mutation, EngineCall::Commit),
    }
}

/// The step of a mutation that an answer brings about.
pub open spec fn mutated(mutation: Mutation, news: EngineNews) -> (Mutation, MutationTurn) {
    if mutation.asked == EngineCall::Stat {
        after_look(mutation, news)
    } else {
        match news {
            EngineNews::Failed(failure) => failed(mutation, failure),
            _ => after_done(mutation),
        }
    }
}

impl Mutation {
    /// Start a mutation; what it asks for first is in it.
    pub fn new(change: Change) -> (mutation: Mutation)
        ensures
            mutation == (Mutation { change, asked: opening(change), retried: false }),
    {
        Mutation { change, asked: first_call(change), retried: false }
    }

    fn ask(&mut self, call: EngineCall) -> (step: MutationStep)
        ensures
            (*final(self), step@) == asking(*old(self), call),
    {
        self.asked = call;
        MutationStep::Ask(call)
    }

    fn fail(&mut self, error: EngineError) -> (step: MutationStep)
        ensures
            (*final(self), step@) == failed(*old(self), error@),
    {
        if let EngineError::NoSpace = error {
            if !self.retried && self.asked != EngineCall::Collect {
                return self.ask(EngineCall::Collect);
            }
        }
        MutationStep::RollBack(map_error(error))
    }

    /// Take an answer.
    pub fn step(&mut self, reply: EngineReply) -> (step: MutationStep)
        requires
            reply_answers(old(self).asked, reply@),
        ensures
            (*final(self), step@) == mutated(*old(self), reply@),
    {
        if self.asked == EngineCall::Stat {
            return self.look(reply);
        }
        if let EngineReply::Failed(error) = reply {
            return self.fail(error);
        }
        match self.asked {
            EngineCall::Collect => {
                self.retried = true;
                let call = first_call(self.change);
                self.ask(call)
            },
            EngineCall::Commit => MutationStep::Done,
            EngineCall::Remove => match self.change {
                Change::Write { .. } => self.ask(EngineCall::CreateFile),
                _ => self.ask(EngineCall::Commit),
            },
            EngineCall::CreateFile => match self.change {
                Change::Write { .. } => self.ask(EngineCall::Write),
                _ => self.ask(EngineCall::Commit),
            },
            _ => self.ask(EngineCall::Commit),
        }
    }

    fn look(&mut self, reply: EngineReply) -> (step: MutationStep)
        ensures
            (*final(self), step@) == after_look(*old(self), reply@),
    {
        match self.change {
            Change::Open { create } => match reply {
                EngineReply::Stat(NodeKind::Directory) => self.fail(EngineError::IsADirectory),
                EngineReply::Failed(error) => {
                    if create {
                        if let EngineError::NotFound = error {
                            return self.ask(EngineCall::CreateFile);
                        }
                    }
                    self.fail(error)
                },
                _ => MutationStep::Done,
            },
            _ => match reply {
                EngineReply::Failed(_) => self.ask(EngineCall::CreateFile),
                _ => self.ask(EngineCall::Remove),
            },
        }
    }
}

fn first_call(change: Change) -> (call: EngineCall)
    ensures
        call == opening(change),
{
    match change {
        Change::Open { .. } => EngineCall::Stat,
        Change::MakeDirectory => EngineCall::MakeDirectory,
        Change::Remove => EngineCall::Remove,
        Change::Write { truncating } => if truncating {
            EngineCall::Stat
        } else {
            EngineCall::Write
        },
    }
}

/// A file that is open: its path, whether it may be written, and whether it is to be cut
/// to nothing by the first write.
#[derive(Debug)]
pub struct OpenFile {
    pub path: String,
    pub writable: bool,
    pub truncate_pending: bool,
}

/// The path of a file that is to be opened.
pub fn open_target(path: &str) -> (target: Result<String, FsError>)
    ensures
        match target {
            Ok(text) => path_of(path@).len() > 0 && text@ == slashed(path_of(path@)),
            Err(error) => path_of(path@).len() == 0 && error@ == FsFailure::IsADirectory,
        },
{
    match below_root(path) {
        Some(text) => Ok(text),
        None => Err(FsError::IsADirectory),
    }
}

/// The path of a directory that is to be made.
pub fn directory_target(path: &str) -> (target: Result<String, FsError>)
    ensures
        match target {
            Ok(text) => path_of(path@).len() > 0 && text@ == slashed(path_of(path@)),
            Err(error) => path_of(path@).len() == 0 && error@ == FsFailure::AlreadyExists,
        },
{
    match below_root(path) {
        Some(text) => Ok(text),
        None => Err(FsError::AlreadyExists),
    }
}

/// The path of what is to be removed.
pub fn remove_target(path: &str) -> (target: Result<String, FsError>)
    ensures
        match target {
            Ok(text) => path_of(path@).len() > 0 && text@ == slashed(path_of(path@)),
            Err(error) => path_of(path@).len() == 0 && error@ == FsFailure::Io(
                "cannot remove the root directory"@,
            ),
        },
{
    match below_root(path) {
        Some(text) => Ok(text),
        None => Err(FsError::Io(String::from_str("cannot remove the root directory"))),
    }
}

fn below_root(path: &str) -> (target: Option<String>)
    ensures
        match target {
            Some(text) => path_of(path@).len() > 0 && text@ == slashed(path_of(path@)),
            None => path_of(path@).len() == 0,
        },
{
    let text = canonical(path);
    let names = segments(path);
    assert(contents(names@).len() == names@.len());
    if names.len() == 0 {
        None
    } else {
        Some(text)
    }
}

/// What the engine says of a path.
#[derive(Clone, Copy, PartialEq, Eq, Structural, Debug)]
pub struct EngineStat {
    pub kind: NodeKind,
    pub size: u64,
}

/// Whether the first write is to cut a file to nothing: it was opened so and has bytes.
pub fn truncation_due(flags: OpenFlags, stat: Option<EngineStat>) -> (due: bool)
    ensures
        due == (flags.truncate && (stat matches Some(stat) && stat.size > 0 && stat.kind
            == NodeKind::File)),
{
    if !flags.truncate {
        return false;
    }
    match stat {
        Some(stat) => stat.size > 0 && stat.kind == NodeKind::File,
        None => false,
    }
}

/// What is known of a path; the size of a directory is none.
pub fn node_stat(stat: EngineStat) -> (known: NodeStat)
    ensures
        known == (NodeStat {
            kind: stat.kind,
            size: if stat.kind == NodeKind::File {
                stat.size
            } else {
                0
            },
        }),
{
    match stat.kind {
        NodeKind::File => NodeStat { kind: NodeKind::File, size: stat.size },
        NodeKind::Directory => NodeStat { kind: NodeKind::Directory, size: 0 },
    }
}

/// How many bytes a file has that is to be executed.
pub fn exec_length(stat: EngineStat) -> (length: Result<usize, FsError>)
    ensures
        match length {
            Ok(length) => stat.kind == NodeKind::File && length == stat.size,
            Err(error) => if stat.kind == NodeKind::Directory {
                error@ == FsFailure::IsADirectory
            } else {
                stat.size > usize::MAX && error@ == FsFailure::Io("file too large for open-exec"@)
            },
        },
{
    if stat.kind == NodeKind::Directory {
        return Err(FsError::IsADirectory);
    }
    if stat.size > usize::MAX as u64 {
        return Err(FsError::Io(String::from_str("file too large for open-exec")));
    }
    Ok(stat.size as usize)
}

impl OpenFile {
    /// A file that was opened.
    pub fn new(path: String, flags: OpenFlags, truncate_pending: bool) -> (file: OpenFile)
        ensures
            file.path@ == path@,
            file.writable == flags.write,
            file.truncate_pending == truncate_pending,
    {
        OpenFile { path, writable: flags.write, truncate_pending }
    }

    /// Whether reading finds nothing, without a look at the disk.
    pub fn reads_nothing(&self) -> (yes: bool)
        ensures
            yes == self.truncate_pending,
    {
        self.truncate_pending
    }

    /// Start to write.
    pub fn start_write(&self) -> (start: Result<Mutation, FsError>)
        ensures
            match start {
                Ok(mutation) => self.writable && mutation == (Mutation {
                    change: Change::Write { truncating: self.truncate_pending },
                    asked: opening(Change::Write { truncating: self.truncate_pending }),
                    retried: false,
                }),
                Err(error) => !self.writable && error@ == FsFailure::Io(
                    "file is not open for writing"@,
                ),
            },
    {
        if !self.writable {
            return Err(FsError::Io(String::from_str("file is not open for writing")));
        }
        Ok(Mutation::new(Change::Write { truncating: self.truncate_pending }))
    }

    /// A write is over: one that succeeded has done the truncation that was due.
    pub fn end_write(&mut self, succeeded: bool)
        ensures
            final(self).path@ == old(self).path@,
            final(self).writable == old(self).writable,
            final(self).truncate_pending == (old(self).truncate_pending && !succeeded),
    {
        if succeeded {
            self.truncate_pending = false;
        }
    }
}

/// A disk is formatted only if it is blank. One that holds something else, or remains that
/// do not mount, is never formatted over.
pub proof fn law_formats_only_blank(mounting: Mounting, news: MountNews)
    ensures
        mounted(mounting, news).1 is Format ==> news == MountNews::Holds(ImageState::Blank),
        mounted(mounting, MountNews::Holds(ImageState::Foreign)).1 is Fail,
        mounted(mounting, MountNews::Holds(ImageState::Unmountable)).1 is Mount,
{
}

/// A disk without a size is woken once and asked again, and is not probed before it has a
/// size.
pub proof fn law_probes_only_sized(mounting: Mounting, news: MountNews)
    ensures
        mounted(mounting, news).1 is Probe ==> (news matches MountNews::Size(size) && size > 0),
        mounted(Mounting::Size, MountNews::Size(0)).1 is ReadByte,
        mounted(Mounting::SizeAgain, MountNews::Size(0)).1 is Fail,
{
}

/// A mutation that is done was committed; the one exception is opening a file that was
/// there, which changes nothing.
pub proof fn law_done_is_committed(mutation: Mutation, news: EngineNews)
    requires
        reply_answers(mutation.asked, news),
        mutated(mutation, news).1 is Done,
    ensures
        mutation.asked == EngineCall::Commit && news is Done || mutation.change is Open
            && mutation.asked == EngineCall::Stat && news == EngineNews::Stat(NodeKind::File),
{
}

/// A commit comes after everything else: once it is asked for, the mutation is done, is
/// tried again from the start for want of space, or is rolled back.
pub proof fn law_commit_is_last(mutation: Mutation, news: EngineNews)
    requires
        mutation.asked == EngineCall::Commit,
        reply_answers(mutation.asked, news),
    ensures
        match mutated(mutation, news).1 {
            MutationTurn::Done => news is Done,
            MutationTurn::Ask(call) => call == EngineCall::Collect && news
                == EngineNews::Failed(EngineFailure::NoSpace),
            MutationTurn::RollBack(failure) => news matches EngineNews::Failed(why) && failure
                == mapped(why),
        },
{
}

/// A failure for want of space is followed by one reclamation and one more attempt; a
/// second such failure, and every other, ends in a rollback.
pub proof fn law_retries_once(mutation: Mutation, news: EngineNews)
    ensures
        mutation.retried ==> mutated(mutation, news).1 != MutationTurn::Ask(EngineCall::Collect),
        mutated(mutation, news).0.retried == (mutation.retried || mutation.asked
            == EngineCall::Collect && !(news is Failed)),
        mutation.asked != EngineCall::Stat && (news matches EngineNews::Failed(why) && !(why
            is NoSpace)) ==> mutated(mutation, news).1 is RollBack,
        mutation.asked == EngineCall::Collect && news is Failed ==> mutated(mutation, news).1
            is RollBack,
{
}

/// Opening a file never removes it or writes to it, whatever it was opened for: the bytes
/// that were there stay until a write replaces them.
pub proof fn law_open_keeps_bytes(mutation: Mutation, news: EngineNews)
    requires
        mutation.change is Open,
        mutation.asked != EngineCall::Remove,
        mutation.asked != EngineCall::Write,
        mutation.asked != EngineCall::MakeDirectory,
    ensures
        mutated(mutation, news).1 matches MutationTurn::Ask(call) ==> call == EngineCall::CreateFile
            || call == EngineCall::Commit || call == EngineCall::Collect || call
            == EngineCall::Stat,
        mutation.asked == EngineCall::Stat && mutated(mutation, news).1 == MutationTurn::Ask(
            EngineCall::CreateFile,
        ) ==> news == EngineNews::Failed(EngineFailure::NotFound),
{
}

/// How much of a mutation is left.
pub open spec fn mutation_left(mutation: Mutation) -> int {
    (if mutation.retried {
        0int
    } else {
        10
    }) + match mutation.asked {
        EngineCall::Collect => 0int,
        EngineCall::Commit => 1,
        EngineCall::Write => 2,
        EngineCall::MakeDirectory => 2,
        EngineCall::CreateFile => 3,
        EngineCall::Remove => 4,
        EngineCall::Stat => 5,
    }
}

/// Every mutation ends: each step that asks for something more leaves less of it.
pub proof fn law_mutation_ends(mutation: Mutation, news: EngineNews)
    requires
        reply_answers(mutation.asked, news),
        mutation.retried ==> mutation.asked != EngineCall::Collect,
    ensures
        mutated(mutation, news).0.retried ==> mutated(mutation, news).0.asked
            != EngineCall::Collect,
        mutated(mutation, news).1 is Ask ==> 0 <= mutation_left(mutated(mutation, news).0)
            < mutation_left(mutation),
{
}

/// What a run of a mutation has come to: the calls of the present attempt that were done,
/// what the engine said of the path when it was asked, the mutation, and its last step.
pub struct Run {
    pub done: Seq<EngineCall>,
    pub looked: Option<EngineNews>,
    pub mutation: Mutation,
    pub turn: MutationTurn,
}

/// The run of a change under the answers of the engine. A reclamation begins the attempt
/// anew.
pub open spec fn run_of(start: Mutation, answers: Seq<EngineNews>) -> Run
    decreases answers.len(),
{
    if answers.len() == 0 {
        Run {
            done: Seq::empty(),
            looked: None,
            mutation: start,
            turn: MutationTurn::Ask(start.asked),
        }
    } else {
        let before = run_of(start, answers.drop_last());
        let news = answers.last();
        let (mutation, turn) = mutated(before.mutation, news);
        let asked = before.mutation.asked;
        Run {
            done: if asked == EngineCall::Collect {
                Seq::empty()
            } else if news is Done {
                before.done.push(asked)
            } else {
                before.done
            },
            looked: if asked == EngineCall::Collect {
                None
            } else if asked == EngineCall::Stat {
                Some(news)
            } else {
                before.looked
            },
            mutation,
            turn,
        }
    }
}

/// Whether every answer is one to what was asked last, and none comes after the end.
pub open spec fn fits(start: Mutation, answers: Seq<EngineNews>) -> bool
    decreases answers.len(),
{
    answers.len() > 0 ==> {
        let before = run_of(start, answers.drop_last());
        &&& fits(start, answers.drop_last())
        &&& before.turn == MutationTurn::Ask(before.mutation.asked)
        &&& reply_answers(before.mutation.asked, answers.last())
    }
}

/// The calls that make up a change, the commit last.
pub open spec fn calls_for(change: Change, looked: Option<EngineNews>) -> Seq<EngineCall> {
    let stands = looked matches Some(EngineNews::Stat(_));
    match change {
        Change::MakeDirectory => seq![EngineCall::MakeDirectory, EngineCall::Commit],
        Change::Remove => seq![EngineCall::Remove, EngineCall::Commit],
        Change::Write { truncating } => if !truncating {
            seq![EngineCall::Write, EngineCall::Commit]
        } else if stands {
            seq![EngineCall::Remove, EngineCall::CreateFile, EngineCall::Write, EngineCall::Commit]
        } else {
            seq![EngineCall::CreateFile, EngineCall::Write, EngineCall::Commit]
        },
        Change::Open { .. } => if stands {
            Seq::empty()
        } else {
            seq![EngineCall::CreateFile, EngineCall::Commit]
        },
    }
}

/// How many calls of an attempt are done when one is asked for.
spec fn place_in(change: Change, looked: Option<EngineNews>, call: EngineCall) -> int {
    let stands = looked matches Some(EngineNews::Stat(_));
    match call {
        EngineCall::Stat => 0,
        EngineCall::MakeDirectory => 0,
        EngineCall::Remove => 0,
        EngineCall::CreateFile => if change is Write && stands {
            1
        } else {
            0
        },
        EngineCall::Write => calls_for(change, looked).len() - 2,
        _ => calls_for(change, looked).len() - 1,
    }
}

proof fn lemma_run(change: Change, answers: Seq<EngineNews>)
    requires
        fits(Mutation { change, asked: opening(change), retried: false }, answers),
    ensures
        ({
            let run = run_of(Mutation { change, asked: opening(change), retried: false }, answers);
            let calls = calls_for(change, run.looked);
            let asked = run.mutation.asked;
            let at = place_in(change, run.looked, asked);
            &&& run.mutation.change == change
            &&& run.turn matches MutationTurn::Ask(call) ==> call == asked
            &&& run.turn is Ask && asked != EngineCall::Collect && asked != EngineCall::Stat ==> {
                &&& 0 <= at < calls.len()
                &&& calls[at] == asked
                &&& run.done == calls.take(at)
            }
            &&& run.turn is Ask && asked == EngineCall::Stat ==> {
                &&& run.done.len() == 0
                &&& change is Open || change == (Change::Write { truncating: true })
            }
            &&& run.turn is Ask && asked == EngineCall::CreateFile && (change matches Change::Open {
                create,
            }) ==> change == (Change::Open { create: true }) && run.looked == Some(
                EngineNews::Failed(EngineFailure::NotFound),
            )
            &&& run.turn is Ask && asked == EngineCall::Commit && change is Open ==> change == (
            Change::Open { create: true })
            &&& run.turn is Done ==> run.done == calls
            &&& run.turn is Done && change is Open ==> {
                ||| run.looked == Some(EngineNews::Stat(NodeKind::File))
                ||| change == (Change::Open { create: true })
            }
        }),
    decreases answers.len(),
{
    let start = Mutation { change, asked: opening(change), retried: false };
    if answers.len() > 0 {
        lemma_run(change, answers.drop_last());
        let before = run_of(start, answers.drop_last());
        let run = run_of(start, answers);
        let calls = calls_for(change, run.looked);
        let at = place_in(change, run.looked, run.mutation.asked);
        if run.turn is Ask && run.mutation.asked != EngineCall::Collect && run.mutation.asked
            != EngineCall::Stat {
            assert(run.done =~= calls.take(at));
        }
        if run.turn is Done {
            assert(run.done =~= calls);
        }
    } else {
        let run = run_of(start, answers);
        let at = place_in(change, run.looked, run.mutation.asked);
        assert(run.done =~= calls_for(change, run.looked).take(at));
    }
}

/// A change that is done has asked the engine for that change and nothing else: in the
/// attempt that succeeded, a directory is made, what is removed is removed, bytes are
/// written, after the file was made anew where it is to be cut, and a file is made only
/// where it is missing and wanted. All of it is committed at the end.
pub proof fn law_done_did_the_change(change: Change, answers: Seq<EngineNews>)
    requires
        fits(Mutation { change, asked: opening(change), retried: false }, answers),
        run_of(Mutation { change, asked: opening(change), retried: false }, answers).turn is Done,
    ensures
        ({
            let run = run_of(Mutation { change, asked: opening(change), retried: false }, answers);
            let found = run.looked matches Some(EngineNews::Stat(_));
            match change {
                Change::MakeDirectory => run.done == seq![
                    EngineCall::MakeDirectory,
                    EngineCall::Commit,
                ],
                Change::Remove => run.done == seq![EngineCall::Remove, EngineCall::Commit],
                Change::Write { truncating: false } => run.done == seq![
                    EngineCall::Write,
                    EngineCall::Commit,
                ],
                Change::Write { truncating: true } => run.done == if found {
                    seq![
                        EngineCall::Remove,
                        EngineCall::CreateFile,
                        EngineCall::Write,
                        EngineCall::Commit,
                    ]
                } else {
                    seq![EngineCall::CreateFile, EngineCall::Write, EngineCall::Commit]
                },
                Change::Open { create } => if found {
                    &&& run.looked == Some(EngineNews::Stat(NodeKind::File))
                    &&& run.done.len() == 0
                } else {
                    &&& create
                    &&& run.done == seq![EngineCall::CreateFile, EngineCall::Commit]
                },
            }
        }),
{
    lemma_run(change, answers);
    lemma_open_found(change, answers);
}

proof fn lemma_open_found(change: Change, answers: Seq<EngineNews>)
    requires
        fits(Mutation { change, asked: opening(change), retried: false }, answers),
    ensures
        ({
            let run = run_of(Mutation { change, asked: opening(change), retried: false }, answers);
            change is Open && (run.turn is Done || run.turn == MutationTurn::Ask(EngineCall::Commit)
                || run.turn == MutationTurn::Ask(EngineCall::CreateFile)) ==> {
                ||| run.looked == Some(EngineNews::Stat(NodeKind::File)) && run.turn is Done
                ||| run.looked == Some(EngineNews::Failed(EngineFailure::NotFound)) && change == (
                Change::Open { create: true })
            }
        }),
    decreases answers.len(),
{
    if answers.len() > 0 {
        lemma_open_found(change, answers.drop_last());
        lemma_run(change, answers.drop_last());
    }
}

/// While the engine fails nothing, a change is done within five answers, and what it asks
/// for never depends on anything but what stands at the path.
pub proof fn law_unhindered_change_is_done(change: Change, answers: Seq<EngineNews>)
    requires
        fits(Mutation { change, asked: opening(change), retried: false }, answers),
        forall|i: int|
            0 <= i < answers.len() ==> (#[trigger] answers[i]) is Done || answers[i]
                == EngineNews::Stat(NodeKind::File),
    ensures
        ({
            let run = run_of(Mutation { change, asked: opening(change), retried: false }, answers);
            &&& !(run.turn is RollBack)
            &&& run.turn != MutationTurn::Ask(EngineCall::Collect)
            &&& answers.len() <= 5
            &&& answers.len() == 5 ==> run.turn is Done
        }),
{
    lemma_unhindered(change, answers);
}

proof fn lemma_unhindered(change: Change, answers: Seq<EngineNews>)
    requires
        fits(Mutation { change, asked: opening(change), retried: false }, answers),
        forall|i: int|
            0 <= i < answers.len() ==> (#[trigger] answers[i]) is Done || answers[i]
                == EngineNews::Stat(NodeKind::File),
    ensures
        ({
            let run = run_of(Mutation { change, asked: opening(change), retried: false }, answers);
            &&& run.turn is Done || run.turn == MutationTurn::Ask(run.mutation.asked)
            &&& run.turn is Ask ==> run.mutation.asked != EngineCall::Collect
            &&& !run.mutation.retried
            &&& run.turn is Ask ==> answers.len() + mutation_left(run.mutation) <= 15
            &&& answers.len() <= 5
            &&& answers.len() == 5 ==> run.turn is Done
        }),
    decreases answers.len(),
{
    let start = Mutation { change, asked: opening(change), retried: false };
    if answers.len() > 0 {
        let fewer = answers.drop_last();
        assert forall|i: int| 0 <= i < fewer.len() implies (#[trigger] fewer[i]) is Done || fewer[i]
            == EngineNews::Stat(NodeKind::File) by {
            assert(answers[i] == fewer[i]);
        }
        assert(answers[answers.len() - 1] == answers.last());
        lemma_unhindered(change, fewer);
        lemma_run(change, fewer);
        law_mutation_ends(run_of(start, fewer).mutation, answers.last());
    }
}

/// Opening a directory fails as one, and opening what is missing fails as missing unless it
/// is to be made.
pub proof fn law_open_fails_as_it_should(create: bool, retried: bool)
    ensures
        ({
            let mutation = Mutation {
                change: Change::Open { create },
                asked: opening(Change::Open { create }),
                retried,
            };
            &&& mutated(mutation, EngineNews::Stat(NodeKind::Directory)).1 == MutationTurn::RollBack(
                FsFailure::IsADirectory,
            )
            &&& mutated(mutation, EngineNews::Stat(NodeKind::File)).1 is Done
            &&& !create ==> mutated(mutation, EngineNews::Failed(EngineFailure::NotFound)).1
                == MutationTurn::RollBack(FsFailure::NotFound)
        }),
{
}

/// A failure keeps its meaning on the way out: each that the filesystem knows is given as
/// itself, the others in words that hold what the engine said, and none is given as
/// something that a caller would take for permission or for a missing file.
pub proof fn law_failures_keep_their_meaning(failure: EngineFailure)
    ensures
        failure is NotFound <==> mapped(failure) is NotFound,
        failure is AlreadyExists <==> mapped(failure) is AlreadyExists,
        failure is NotADirectory <==> mapped(failure) is NotADirectory,
        failure is IsADirectory <==> mapped(failure) is IsADirectory,
        failure is NoSpace <==> mapped(failure) is NoSpace,
        !(mapped(failure) is Denied),
        !(mapped(failure) is ReadOnly),
        !(mapped(failure) is NotImmutable),
        failure matches EngineFailure::Other(shown) ==> mapped(failure) == FsFailure::Io(shown),
        failure is DirectoryNotEmpty ==> mapped(failure) == FsFailure::Io(
            "directory is not empty"@,
        ),
        failure matches EngineFailure::Corrupt(what) ==> (mapped(failure) matches FsFailure::Io(
            said,
        ) && says(said, what)),
{
    if let EngineFailure::Corrupt(what) = failure {
        let head = "integrity check failed: corrupt filesystem structure ("@;
        let said = head + what + ")"@;
        let from = head.len() as int;
        assert(said.subrange(from, from + what.len()) =~= what);
        assert(says(said, what));
    }
}

/// Whether a text has another in it.
pub open spec fn says(text: Seq<char>, part: Seq<char>) -> bool {
    exists|i: int|
        0 <= i && i + part.len() <= text.len() && #[trigger] text.subrange(i, i + part.len())
            == part
}

/// A disk with a size is mounted where it holds a filesystem, formatted where it is blank,
/// and left alone otherwise; one that shows no size is woken by one read and asked again.
pub proof fn law_disk_is_mounted(size: u64, state: ImageState, shown: Seq<char>)
    ensures
        ({
            let (asleep, wake) = mounted(Mounting::Size, MountNews::Size(0));
            let (again, ask) = mounted(asleep, MountNews::Awake);
            let (probing, probe) = mounted(Mounting::Size, MountNews::Size(size));
            let (probing_late, probe_late) = mounted(again, MountNews::Size(size));
            let outcome = mounted(probing, MountNews::Holds(state)).1;
            &&& wake is ReadByte && ask is Size
            &&& mounted(asleep, MountNews::Dead(shown)).1 == MountTurn::Fail(
                FsFailure::Io("device error: "@ + shown),
            )
            &&& size == 0 ==> probe_late is Fail
            &&& size > 0 ==> {
                &&& probe is Probe && probe_late is Probe && probing == probing_late
                &&& state == ImageState::Eofs || state == ImageState::Unmountable <==> outcome
                    is Mount
                &&& state == ImageState::Blank <==> outcome is Format
                &&& state == ImageState::Foreign <==> outcome is Fail
            }
            &&& forall|failure: EngineFailure|
                (#[trigger] mounted(probing, MountNews::Failed(failure))).1 is Fail
        }),
{
}

/// What a value is over contents is of the same kind as the value itself: no two kinds are
/// taken for one another.
pub proof fn law_contents_keep_their_kind(
    device_error: DeviceError,
    engine_error: EngineError,
    mount_event: MountEvent,
    mount_step: MountStep,
    engine_reply: EngineReply,
    mutation_step: MutationStep,
)
    ensures
        device_error is OutOfRange <==> device_error@ is OutOfRange,
        device_error is Io <==> device_error@ is Io,
        device_error is IoNamed <==> device_error@ is IoNamed,
        engine_error is NotFound <==> engine_error@ is NotFound,
        engine_error is AlreadyExists <==> engine_error@ is AlreadyExists,
        engine_error is NotADirectory <==> engine_error@ is NotADirectory,
        engine_error is IsADirectory <==> engine_error@ is IsADirectory,
        engine_error is NoSpace <==> engine_error@ is NoSpace,
        engine_error is DirectoryNotEmpty <==> engine_error@ is DirectoryNotEmpty,
        engine_error is ChecksumMismatch <==> engine_error@ is ChecksumMismatch,
        engine_error is Corrupt <==> engine_error@ is Corrupt,
        engine_error is Other <==> engine_error@ is Other,
        mount_event is Size <==> mount_event@ is Size,
        mount_event is Awake <==> mount_event@ is Awake,
        mount_event is Dead <==> mount_event@ is Dead,
        mount_event is Holds <==> mount_event@ is Holds,
        mount_event is Failed <==> mount_event@ is Failed,
        mount_step is Size <==> mount_step@ is Size,
        mount_step is ReadByte <==> mount_step@ is ReadByte,
        mount_step is Probe <==> mount_step@ is Probe,
        mount_step is Mount <==> mount_step@ is Mount,
        mount_step is Format <==> mount_step@ is Format,
        mount_step is Fail <==> mount_step@ is Fail,
        engine_reply is Done <==> engine_reply@ is Done,
        engine_reply is Stat <==> engine_reply@ is Stat,
        engine_reply is Failed <==> engine_reply@ is Failed,
        mutation_step is Ask <==> mutation_step@ is Ask,
        mutation_step is Done <==> mutation_step@ is Done,
        mutation_step is RollBack <==> mutation_step@ is RollBack,
{
}

/// A change that depends on what stands at the path looks there first: opening, and writing
/// from the start. Every other change begins with what it does.
pub proof fn law_looks_before_it_replaces(change: Change)
    ensures
        change is Open ==> opening(change) == EngineCall::Stat,
        change == (Change::Write { truncating: true }) ==> opening(change) == EngineCall::Stat,
        !(change is Open) && change != (Change::Write { truncating: true }) ==> {
            &&& opening(change) != EngineCall::Stat
            &&& opening(change) == calls_for(change, None)[0]
        },
{
}

} // verus!
