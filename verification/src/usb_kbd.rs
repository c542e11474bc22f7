//! `usb.kbd`: keystrokes of a boot-protocol keyboard for the console.
//!
//! The bus, the clock, the console and the decoding of descriptors and reports are asked
//! for one thing at a time. Here is the order in which that happens and what becomes of
//! each answer.
use vstd::prelude::*;
use vstd::string::*;

use crate::bytes::push_all;
use crate::text::{decimal, push_decimal};

verus! {

/// How long a device is waited for, in nanoseconds.
pub const WATCH_WINDOW_NS: u64 = 2_500_000_000;

/// The pause between looks at the ports where the bus cannot tell of changes.
pub const WATCH_PACE_NS: u64 = 50_000_000;

/// The pause between reads where the bus cannot wait for a report.
pub const POLL_PACE_NS: u64 = 2_000_000;

/// The key `c`.
pub const USAGE_C: u8 = 0x06;

/// The byte that interrupts.
pub const INTERRUPT: u8 = 0x03;

/// Failures of the bus.
#[derive(Debug)]
pub enum UsbError {
    Denied,
    NoController,
    /// A failure with a message; `shown` is the whole failure in words.
    Io { message: String, shown: String },
    /// Any other, in words.
    Other(String),
}

/// Failures of the bus, over contents.
#[allow(inconsistent_fields)]
pub enum UsbFailure {
    Denied,
    NoController,
    Io { message: Seq<char>, shown: Seq<char> },
    Other(Seq<char>),
}

impl View for UsbError {
    type V = UsbFailure;

    open spec fn view(&self) -> UsbFailure {
        match self {
            UsbError::Denied => UsbFailure::Denied,
            UsbError::NoController => UsbFailure::NoController,
            UsbError::Io { message, shown } => UsbFailure::Io { message: message@, shown: shown@ },
            UsbError::Other(shown) => UsbFailure::Other(shown@),
        }
    }
}

/// How the program fails.
#[derive(Debug)]
pub enum ProgramFailure {
    Denied,
    NoController,
    NoKeyboard(String),
    DeviceLost(String),
    Io(String),
}

/// How the program fails, over contents.
pub enum Failure {
    Denied,
    NoController,
    NoKeyboard(Seq<char>),
    DeviceLost(Seq<char>),
    Io(Seq<char>),
}

impl View for ProgramFailure {
    type V = Failure;

    open spec fn view(&self) -> Failure {
        match self {
            ProgramFailure::Denied => Failure::Denied,
            ProgramFailure::NoController => Failure::NoController,
            ProgramFailure::NoKeyboard(said) => Failure::NoKeyboard(said@),
            ProgramFailure::DeviceLost(said) => Failure::DeviceLost(said@),
            ProgramFailure::Io(said) => Failure::Io(said@),
        }
    }
}

/// A failure of the bus as one of the program.
pub open spec fn usb_failed(failure: UsbFailure) -> Failure {
    match failure {
        UsbFailure::Denied => Failure::Denied,
        UsbFailure::NoController => Failure::NoController,
        UsbFailure::Io { message, shown } => Failure::Io(shown),
        UsbFailure::Other(shown) => Failure::Io(shown),
    }
}

/// A failure of the bus as one of the program.
pub fn usb_failure(error: UsbError) -> (failure: ProgramFailure)
    ensures
        failure@ == usb_failed(error@),
{
    match error {
        UsbError::Denied => ProgramFailure::Denied,
        UsbError::NoController => ProgramFailure::NoController,
        UsbError::Io { message, shown } => ProgramFailure::Io(shown),
        UsbError::Other(shown) => ProgramFailure::Io(shown),
    }
}

/// The codes of the bus and of keyboards that the program compares with.
#[derive(Clone, Copy, PartialEq, Eq, Structural, Debug)]
pub struct Codes {
    /// The type of a configuration descriptor.
    pub configuration: u8,
    /// The boot protocol of a keyboard.
    pub keyboard: u8,
    /// The modifiers of both control keys.
    pub ctrl: u8,
}

/// What a configuration descriptor says.
#[derive(Clone, Copy, PartialEq, Eq, Structural, Debug)]
pub struct Configuration {
    pub total_length: u16,
    pub value: u8,
}

/// A boot-protocol interface with its endpoint.
#[derive(Clone, Copy, PartialEq, Eq, Structural, Debug)]
pub struct BootInterface {
    pub protocol: u8,
    pub interface_number: u8,
    pub endpoint_number: u8,
    pub max_packet_size: u16,
    pub interval: u8,
}

/// Where the program stands: what it awaits.
#[derive(Clone, Copy, PartialEq, Eq, Structural, Debug)]
pub enum Phase {
    Controller,
    WatchStart,
    Port(u8),
    /// That it said which port it found after a wait that ran out.
    MissedSaid(u8),
    WatchClock,
    Watch,
    WatchSleep,
    Attach,
    Head,
    AttachChild,
    ConfigHead,
    ConfigParse,
    Blob,
    Boot,
    SetConfiguration,
    SetProtocol,
    SetIdle,
    Open,
    Banner,
    LoopStart,
    WindowClock,
    Read,
    PollSleep,
    Decode,
    Inject,
    Remember,
}

/// The program between two answers.
#[derive(Clone, Copy, PartialEq, Eq, Structural, Debug)]
pub struct Kbd {
    pub phase: Phase,
    pub codes: Codes,
    /// How long it forwards, in nanoseconds; zero for ever.
    pub window_ns: u64,
    pub ports: u8,
    pub watch_started: u64,
    /// Whether the last wait for a change of the ports ran out.
    pub ran_out: bool,
    pub configuration: Configuration,
    pub boot: BootInterface,
    pub event_driven: bool,
    pub started: u64,
    pub forwarded: u32,
    /// The bytes that the console was offered last.
    pub offered: u32,
}

/// What is asked for.
#[derive(Debug)]
pub enum Ask {
    Controller,
    Port(u8),
    Clock,
    WatchPorts,
    Sleep(u64),
    /// A line that may be lost.
    Note(String),
    /// A line that may not.
    Say(String),
    Attach(u8),
    AttachChild,
    ControlIn { request: u8, value: u16, length: u16 },
    ParseConfiguration,
    FindBootInterface,
    ControlOut { kind: u8, request: u8, value: u16, index: u16 },
    OpenInterrupt { number: u8, max_packet_size: u16, interval: u8 },
    Read,
    /// Decode the report against the one that is remembered.
    Decode,
    Inject(Vec<u8>),
    /// Remember the report.
    Remember,
}

/// What is asked for, over contents.
#[allow(inconsistent_fields)]
pub enum Asked {
    Controller,
    Port(u8),
    Clock,
    WatchPorts,
    Sleep(u64),
    Note(Seq<char>),
    Say(Seq<char>),
    Attach(u8),
    AttachChild,
    ControlIn { request: u8, value: u16, length: u16 },
    ParseConfiguration,
    FindBootInterface,
    ControlOut { kind: u8, request: u8, value: u16, index: u16 },
    OpenInterrupt { number: u8, max_packet_size: u16, interval: u8 },
    Read,
    Decode,
    Inject(Seq<u8>),
    Remember,
}

impl View for Ask {
    type V = Asked;

    open spec fn view(&self) -> Asked {
        match self {
            Ask::Controller => Asked::Controller,
            Ask::Port(port) => Asked::Port(*port),
            Ask::Clock => Asked::Clock,
            Ask::WatchPorts => Asked::WatchPorts,
            Ask::Sleep(nanos) => Asked::Sleep(*nanos),
            Ask::Note(line) => Asked::Note(line@),
            Ask::Say(line) => Asked::Say(line@),
            Ask::Attach(port) => Asked::Attach(*port),
            Ask::AttachChild => Asked::AttachChild,
            Ask::ControlIn { request, value, length } => Asked::ControlIn {
                request: *request,
                value: *value,
                length: *length,
            },
            Ask::ParseConfiguration => Asked::ParseConfiguration,
            Ask::FindBootInterface => Asked::FindBootInterface,
            Ask::ControlOut { kind, request, value, index } => Asked::ControlOut {
                kind: *kind,
                request: *request,
                value: *value,
                index: *index,
            },
            Ask::OpenInterrupt { number, max_packet_size, interval } => Asked::OpenInterrupt {
                number: *number,
                max_packet_size: *max_packet_size,
                interval: *interval,
            },
            Ask::Read => Asked::Read,
            Ask::Decode => Asked::Decode,
            Ask::Inject(bytes) => Asked::Inject(bytes@),
            Ask::Remember => Asked::Remember,
        }
    }
}

/// A key that went down, with the bytes that a terminal sends for it.
#[derive(Debug)]
pub struct Typed {
    pub usage: u8,
    pub bytes: Vec<u8>,
}

/// A key that went down, over contents.
pub struct Key {
    pub usage: u8,
    pub bytes: Seq<u8>,
}

impl View for Typed {
    type V = Key;

    open spec fn view(&self) -> Key {
        Key { usage: self.usage, bytes: self.bytes@ }
    }
}

/// The keys that went down.
pub open spec fn keys_of(typed: Seq<Typed>) -> Seq<Key> {
    typed.map_values(|key: Typed| key@)
}

/// How the console failed.
#[derive(Debug)]
pub enum SinkError {
    Denied,
    Io(String),
}

/// What came back.
#[derive(Debug)]
pub enum Event {
    Failed(UsbError),
    /// The number of ports.
    Controller(u8),
    /// Whether something is connected to a port.
    Port(bool),
    Time(u64),
    /// The ports changed.
    Changed,
    /// The wait ran out.
    RanOut,
    /// The bus cannot wait, or failed to.
    Unsupported,
    Done,
    /// Bytes that came from the device; empty where none did.
    Bytes(Vec<u8>),
    Configuration(Configuration),
    Boot(BootInterface),
    /// It was not one, or there is none.
    Nothing,
    /// The endpoint is open; whether a read waits for a report.
    Opened(bool),
    /// The console did not take a line, for a reason in words.
    Unsaid(String),
    /// The endpoint failed, for a reason in words.
    Lost(String),
    /// A report: its modifiers, whether it has too many keys, and the keys that went down.
    Report { modifiers: u8, rollover: bool, typed: Vec<Typed> },
    /// The console took so many bytes.
    Accepted(u32),
    SinkFailed(SinkError),
}

/// What came back, over contents.
#[allow(inconsistent_fields)]
pub enum Came {
    Failed(UsbFailure),
    Controller(u8),
    Port(bool),
    Time(u64),
    Changed,
    RanOut,
    Unsupported,
    Done,
    Bytes(Seq<u8>),
    Configuration(Configuration),
    Boot(BootInterface),
    Nothing,
    Opened(bool),
    Unsaid(Seq<char>),
    Lost(Seq<char>),
    Report { modifiers: u8, rollover: bool, typed: Seq<Key> },
    Accepted(u32),
    SinkFailed(Failure),
}

/// A failure of the console as one of the program.
pub open spec fn sink_failed(error: SinkError) -> Failure {
    match error {
        SinkError::Denied => Failure::Denied,
        SinkError::Io(message) => Failure::Io(message@),
    }
}

impl View for Event {
    type V = Came;

    open spec fn view(&self) -> Came {
        match self {
            Event::Failed(error) => Came::Failed(error@),
            Event::Controller(ports) => Came::Controller(*ports),
            Event::Port(connected) => Came::Port(*connected),
            Event::Time(now) => Came::Time(*now),
            Event::Changed => Came::Changed,
            Event::RanOut => Came::RanOut,
            Event::Unsupported => Came::Unsupported,
            Event::Done => Came::Done,
            Event::Bytes(bytes) => Came::Bytes(bytes@),
            Event::Configuration(configuration) => Came::Configuration(*configuration),
            Event::Boot(boot) => Came::Boot(*boot),
            Event::Nothing => Came::Nothing,
            Event::Opened(waits) => Came::Opened(*waits),
            Event::Unsaid(shown) => Came::Unsaid(shown@),
            Event::Lost(shown) => Came::Lost(shown@),
            Event::Report { modifiers, rollover, typed } => Came::Report {
                modifiers: *modifiers,
                rollover: *rollover,
                typed: keys_of(typed@),
            },
            Event::Accepted(count) => Came::Accepted(*count),
            Event::SinkFailed(error) => Came::SinkFailed(sink_failed(*error)),
        }
    }
}

/// The next step of the program.
#[derive(Debug)]
pub enum Step {
    Ask(Ask),
    /// It is over; so many bytes were forwarded.
    Finished(Result<u32, ProgramFailure>),
}

/// The next step of the program, over contents.
#[allow(inconsistent_fields)]
pub enum Turn {
    Ask(Asked),
    Finished(Result<u32, Failure>),
}

impl View for Step {
    type V = Turn;

    open spec fn view(&self) -> Turn {
        match self {
            Step::Ask(ask) => Turn::Ask(ask@),
            Step::Finished(Ok(count)) => Turn::Finished(Ok(*count)),
            Step::Finished(Err(failure)) => Turn::Finished(Err(failure@)),
        }
    }
}

/// The bytes that keys stand for: with a control key down only one of them counts, and
/// stands for the interrupt.
pub open spec fn bytes_for(ctrl: bool, typed: Seq<Key>) -> Seq<u8>
    decreases typed.len(),
{
    if typed.len() == 0 {
        Seq::empty()
    } else {
        let before = bytes_for(ctrl, typed.drop_last());
        let key = typed.last();
        if !ctrl {
            before + key.bytes
        } else if key.usage == USAGE_C {
            before.push(INTERRUPT)
        } else {
            before
        }
    }
}

/// The bytes that keys stand for.
pub fn console_bytes(ctrl: bool, typed: &Vec<Typed>) -> (bytes: Vec<u8>)
    ensures
        bytes@ == bytes_for(ctrl, keys_of(typed@)),
{
    let mut bytes: Vec<u8> = Vec::new();
    let mut at: usize = 0;
    assert(bytes@ =~= bytes_for(ctrl, keys_of(typed@).take(0)));
    while at < typed.len()
        invariant
            at <= typed.len(),
            bytes@ == bytes_for(ctrl, keys_of(typed@).take(at as int)),
        decreases typed.len() - at,
    {
        proof {
            let all = keys_of(typed@);
            assert(all.take(at + 1).drop_last() =~= all.take(at as int));
            assert(all.take(at + 1).last() == typed@[at as int]@);
        }
        if !ctrl {
            push_all(&mut bytes, typed[at].bytes.as_slice());
        } else if typed[at].usage == USAGE_C {
            bytes.push(INTERRUPT);
        }
        at += 1;
    }
    assert(keys_of(typed@).take(at as int) =~= keys_of(typed@));
    bytes
}

/// Whether an event answers what the program awaits. A count of forwarded bytes beyond
/// what a number holds is left out.
pub open spec fn answers(kbd: Kbd, came: Came) -> bool {
    match kbd.phase {
        Phase::Controller => came is Controller || came is Failed,
        Phase::Port(_) => came is Port || came is Failed,
        Phase::WatchStart | Phase::WatchClock | Phase::LoopStart | Phase::WindowClock => came
            is Time,
        Phase::Watch => came is Changed || came is RanOut || came is Unsupported,
        Phase::MissedSaid(_) | Phase::WatchSleep | Phase::PollSleep | Phase::Remember => came
            is Done,
        Phase::Attach
        | Phase::AttachChild
        | Phase::SetConfiguration
        | Phase::SetProtocol
        | Phase::SetIdle => came is Done || came is Failed,
        Phase::Head | Phase::ConfigHead | Phase::Blob => came is Bytes || came is Failed,
        Phase::ConfigParse => came is Configuration || came is Nothing,
        Phase::Boot => came is Boot || came is Nothing,
        Phase::Open => came is Opened || came is Failed,
        Phase::Banner => came is Done || came is Unsaid,
        Phase::Read => came is Bytes || came is Lost,
        Phase::Decode => came is Report || came is Nothing,
        Phase::Inject => match came {
            Came::Accepted(count) => kbd.forwarded + taken(kbd, count) <= u32::MAX,
            Came::SinkFailed(_) => true,
            _ => false,
        },
    }
}

/// How many of the bytes that the console was offered it took.
pub open spec fn taken(kbd: Kbd, accepted: u32) -> u32 {
    if accepted < kbd.offered {
        accepted
    } else {
        kbd.offered
    }
}

/// How long ago something was, by a clock that may go back.
pub open spec fn since(start: u64, now: u64) -> int {
    if now < start {
        0
    } else {
        now - start
    }
}

/// The program awaits something else and asks for it.
pub open spec fn asks(kbd: Kbd, phase: Phase, asked: Asked) -> (Kbd, Turn) {
    (Kbd { phase, ..kbd }, Turn::Ask(asked))
}

/// The program fails.
pub open spec fn fails(kbd: Kbd, failure: Failure) -> (Kbd, Turn) {
    (kbd, Turn::Finished(Err(failure)))
}

/// The ports are looked at from the first one on.
pub open spec fn sweeps(kbd: Kbd) -> (Kbd, Turn) {
    if kbd.ports >= 1 {
        asks(kbd, Phase::Port(1), Asked::Port(1))
    } else {
        asks(kbd, Phase::WatchClock, Asked::Clock)
    }
}

/// The request for the head of the configuration.
pub open spec fn wants_configuration(kbd: Kbd, phase: Phase, length: u16) -> (Kbd, Turn) {
    asks(
        kbd,
        phase,
        Asked::ControlIn {
            request: 6,
            value: (kbd.codes.configuration * 256) as u16,
            length,
        },
    )
}

/// The next report is read, after a look at the clock where the time is limited.
pub open spec fn goes_on(kbd: Kbd) -> (Kbd, Turn) {
    if kbd.window_ns > 0 {
        asks(kbd, Phase::WindowClock, Asked::Clock)
    } else {
        asks(kbd, Phase::Read, Asked::Read)
    }
}

/// What is noted when a device was found that no change told of.
pub open spec fn missed_text() -> Seq<char> {
    "liveness: usb.kbd: the port sweep found a connect after a timed-out watch-ports wait - the RHSC event owed this wake"@
}

/// What is said at the start.
pub open spec fn banner_text() -> Seq<char> {
    "usb.kbd: forwarding boot-protocol keystrokes to the console (ctrl+c interrupts like the serial key)"@
}

/// What is said of a device with another protocol.
pub open spec fn protocol_text(protocol: u8) -> Seq<char> {
    "boot-protocol device found, but it is protocol "@ + decimal(protocol as nat)
        + " (not a keyboard)"@
}

/// What becomes of a look at a port.
pub open spec fn at_port(kbd: Kbd, port: u8, connected: bool) -> (Kbd, Turn) {
    if connected {
        if kbd.ran_out {
            asks(kbd, Phase::MissedSaid(port), Asked::Note(missed_text()))
        } else {
            asks(kbd, Phase::Attach, Asked::Attach(port))
        }
    } else if port < kbd.ports {
        asks(kbd, Phase::Port((port + 1) as u8), Asked::Port((port + 1) as u8))
    } else {
        asks(kbd, Phase::WatchClock, Asked::Clock)
    }
}

/// What becomes of the boot interface.
pub open spec fn at_boot(kbd: Kbd, came: Came) -> (Kbd, Turn) {
    match came {
        Came::Boot(boot) => if boot.protocol != kbd.codes.keyboard {
            fails(kbd, Failure::NoKeyboard(protocol_text(boot.protocol)))
        } else {
            asks(
                Kbd { boot, ..kbd },
                Phase::SetConfiguration,
                Asked::ControlOut {
                    kind: 0,
                    request: 9,
                    value: kbd.configuration.value as u16,
                    index: 0,
                },
            )
        },
        _ => fails(
            kbd,
            Failure::NoKeyboard("the device has no boot-protocol HID interface"@),
        ),
    }
}

/// Whether a control key is down.
pub open spec fn ctrl_held(codes: Codes, modifiers: u8) -> bool {
    modifiers & codes.ctrl != 0
}

/// What becomes of a report.
pub open spec fn at_report(kbd: Kbd, came: Came) -> (Kbd, Turn) {
    match came {
        Came::Report { modifiers, rollover, typed } => if rollover {
            goes_on(kbd)
        } else {
            let bytes = bytes_for(ctrl_held(kbd.codes, modifiers), typed);
            if bytes.len() == 0 {
                asks(kbd, Phase::Remember, Asked::Remember)
            } else {
                asks(
                    Kbd { offered: bytes.len() as u32, ..kbd },
                    Phase::Inject,
                    Asked::Inject(bytes),
                )
            }
        },
        _ => goes_on(kbd),
    }
}

/// A setup request to the interface.
pub open spec fn sets_up(kbd: Kbd, phase: Phase, request: u8) -> (Kbd, Turn) {
    asks(
        kbd,
        phase,
        Asked::ControlOut {
            kind: 0x21,
            request,
            value: 0,
            index: kbd.boot.interface_number as u16,
        },
    )
}

/// The step of the program that an answer brings about.
pub open spec fn kbd_next(kbd: Kbd, came: Came) -> (Kbd, Turn) {
    match kbd.phase {
        Phase::AttachChild => match came {
            Came::Failed(UsbFailure::Io { message, shown }) => fails(
                kbd,
                Failure::NoKeyboard(message),
            ),
            Came::Failed(failure) => fails(kbd, usb_failed(failure)),
            _ => wants_configuration(kbd, Phase::ConfigHead, 9),
        },
        Phase::SetIdle => asks(
            kbd,
            Phase::Open,
            Asked::OpenInterrupt {
                number: kbd.boot.endpoint_number,
                max_packet_size: kbd.boot.max_packet_size,
                interval: kbd.boot.interval,
            },
        ),
        _ => match came {
            Came::Failed(failure) => fails(kbd, usb_failed(failure)),
            _ => kbd_on(kbd, came),
        },
    }
}

/// The step of the program that an answer brings about that is no failure of the bus.
pub open spec fn kbd_on(kbd: Kbd, came: Came) -> (Kbd, Turn) {
    match kbd.phase {
        Phase::Controller => asks(
            Kbd { ports: came->Controller_0, ..kbd },
            Phase::WatchStart,
            Asked::Clock,
        ),
        Phase::WatchStart => sweeps(Kbd { watch_started: came->Time_0, ..kbd }),
        Phase::Port(port) => at_port(kbd, port, came->Port_0),
        Phase::MissedSaid(port) => asks(kbd, Phase::Attach, Asked::Attach(port)),
        Phase::WatchClock => if since(kbd.watch_started, came->Time_0) > WATCH_WINDOW_NS {
            fails(kbd, Failure::NoKeyboard("no device connected on any root-hub port"@))
        } else {
            asks(Kbd { ran_out: false, ..kbd }, Phase::Watch, Asked::WatchPorts)
        },
        Phase::Watch => if came is Unsupported {
            asks(kbd, Phase::WatchSleep, Asked::Sleep(WATCH_PACE_NS))
        } else {
            sweeps(Kbd { ran_out: came is RanOut, ..kbd })
        },
        Phase::WatchSleep => sweeps(kbd),
        Phase::Attach => asks(
            kbd,
            Phase::Head,
            Asked::ControlIn { request: 6, value: 0x0100, length: 18 },
        ),
        Phase::Head => {
            let head = came->Bytes_0;
            if head.len() > 4 && head[4] == 9 {
                asks(kbd, Phase::AttachChild, Asked::AttachChild)
            } else {
                wants_configuration(kbd, Phase::ConfigHead, 9)
            }
        },
        Phase::ConfigHead => asks(kbd, Phase::ConfigParse, Asked::ParseConfiguration),
        Phase::ConfigParse => match came {
            Came::Configuration(configuration) => wants_configuration(
                Kbd { configuration, ..kbd },
                Phase::Blob,
                configuration.total_length,
            ),
            _ => fails(kbd, Failure::Io("the configuration descriptor did not parse"@)),
        },
        Phase::Blob => asks(kbd, Phase::Boot, Asked::FindBootInterface),
        Phase::Boot => at_boot(kbd, came),
        Phase::SetConfiguration => sets_up(kbd, Phase::SetProtocol, 0x0b),
        Phase::SetProtocol => sets_up(kbd, Phase::SetIdle, 0x0a),
        Phase::Open => asks(
            Kbd { event_driven: came->Opened_0, ..kbd },
            Phase::Banner,
            Asked::Say(banner_text()),
        ),
        Phase::Banner => match came {
            Came::Unsaid(shown) => fails(kbd, Failure::Io(shown)),
            _ => asks(kbd, Phase::LoopStart, Asked::Clock),
        },
        Phase::LoopStart => goes_on(Kbd { started: came->Time_0, ..kbd }),
        Phase::WindowClock => if since(kbd.started, came->Time_0) > kbd.window_ns {
            (kbd, Turn::Finished(Ok(kbd.forwarded)))
        } else {
            asks(kbd, Phase::Read, Asked::Read)
        },
        Phase::Read => match came {
            Came::Lost(shown) => fails(kbd, Failure::DeviceLost("interrupt endpoint: "@ + shown)),
            _ => if came->Bytes_0.len() > 0 {
                asks(kbd, Phase::Decode, Asked::Decode)
            } else if kbd.event_driven {
                goes_on(kbd)
            } else {
                asks(kbd, Phase::PollSleep, Asked::Sleep(POLL_PACE_NS))
            },
        },
        Phase::Decode => at_report(kbd, came),
        Phase::Inject => match came {
            Came::SinkFailed(failure) => fails(kbd, failure),
            _ => asks(
                Kbd {
                    forwarded: (kbd.forwarded + taken(kbd, came->Accepted_0)) as u32,
                    ..kbd
                },
                Phase::Remember,
                Asked::Remember,
            ),
        },
        _ => goes_on(kbd),
    }
}

impl Kbd {
    /// The program before its first step; the first thing it asks for is the controller.
    pub fn new(codes: Codes, window_ms: Option<u32>) -> (kbd: Kbd)
        ensures
            kbd.phase == Phase::Controller,
            kbd.codes == codes,
            kbd.window_ns == (match window_ms {
                Some(window) => window as int,
                None => 0,
            }) * 1_000_000,
            kbd.forwarded == 0,
            !kbd.ran_out,
    {
        let window: u32 = match window_ms {
            Some(window) => window,
            None => 0,
        };
        Kbd {
            phase: Phase::Controller,
            codes,
            window_ns: (window as u64) * 1_000_000,
            ports: 0,
            watch_started: 0,
            ran_out: false,
            configuration: Configuration { total_length: 0, value: 0 },
            boot: BootInterface {
                protocol: 0,
                interface_number: 0,
                endpoint_number: 0,
                max_packet_size: 0,
                interval: 0,
            },
            event_driven: false,
            started: 0,
            forwarded: 0,
            offered: 0,
        }
    }

    fn ask(&mut self, phase: Phase, ask: Ask) -> (step: Step)
        ensures
            (*final(self), step@) == asks(*old(self), phase, ask@),
    {
        self.phase = phase;
        Step::Ask(ask)
    }

    fn sweep(&mut self) -> (step: Step)
        ensures
            (*final(self), step@) == sweeps(*old(self)),
    {
        if self.ports >= 1 {
            self.ask(Phase::Port(1), Ask::Port(1))
        } else {
            self.ask(Phase::WatchClock, Ask::Clock)
        }
    }

    fn want_configuration(&mut self, phase: Phase, length: u16) -> (step: Step)
        ensures
            (*final(self), step@) == wants_configuration(*old(self), phase, length),
    {
        let value: u16 = (self.codes.configuration as u16) * 256;
        self.ask(phase, Ask::ControlIn { request: 6, value, length })
    }

    fn go_on(&mut self) -> (step: Step)
        ensures
            (*final(self), step@) == goes_on(*old(self)),
    {
        if self.window_ns > 0 {
            self.ask(Phase::WindowClock, Ask::Clock)
        } else {
            self.ask(Phase::Read, Ask::Read)
        }
    }

    fn set_up(&mut self, phase: Phase, request: u8) -> (step: Step)
        ensures
            (*final(self), step@) == sets_up(*old(self), phase, request),
    {
        let index: u16 = self.boot.interface_number as u16;
        self.ask(phase, Ask::ControlOut { kind: 0x21, request, value: 0, index })
    }

    fn look_at_port(&mut self, port: u8, connected: bool) -> (step: Step)
        ensures
            (*final(self), step@) == at_port(*old(self), port, connected),
    {
        if connected {
            if self.ran_out {
                self.ask(
                    Phase::MissedSaid(port),
                    Ask::Note(
                        String::from_str(
                            "liveness: usb.kbd: the port sweep found a connect after a timed-out watch-ports wait - the RHSC event owed this wake",
                        ),
                    ),
                )
            } else {
                self.ask(Phase::Attach, Ask::Attach(port))
            }
        } else if port < self.ports {
            self.ask(Phase::Port(port + 1), Ask::Port(port + 1))
        } else {
            self.ask(Phase::WatchClock, Ask::Clock)
        }
    }

    fn take_boot(&mut self, event: Event) -> (step: Step)
        ensures
            (*final(self), step@) == at_boot(*old(self), event@),
    {
        match event {
            Event::Boot(boot) => {
                if boot.protocol != self.codes.keyboard {
                    let mut said = String::from_str(
                        "boot-protocol device found, but it is protocol ",
                    );
                    push_decimal(&mut said, boot.protocol as u64);
                    said.append(" (not a keyboard)");
                    return Step::Finished(Err(ProgramFailure::NoKeyboard(said)));
                }
                self.boot = boot;
                let value: u16 = self.configuration.value as u16;
                self.ask(
                    Phase::SetConfiguration,
                    Ask::ControlOut { kind: 0, request: 9, value, index: 0 },
                )
            },
            _ => Step::Finished(
                Err(
                    ProgramFailure::NoKeyboard(
                        String::from_str("the device has no boot-protocol HID interface"),
                    ),
                ),
            ),
        }
    }

    fn take_report(&mut self, event: Event) -> (step: Step)
        ensures
            (*final(self), step@) == at_report(*old(self), event@),
    {
        match event {
            Event::Report { modifiers, rollover, typed } => {
                if rollover {
                    return self.go_on();
                }
                let bytes = console_bytes(modifiers & self.codes.ctrl != 0, &typed);
                if bytes.len() == 0 {
                    return self.ask(Phase::Remember, Ask::Remember);
                }
                self.offered = bytes.len() as u32;
                self.ask(Phase::Inject, Ask::Inject(bytes))
            },
            _ => self.go_on(),
        }
    }

    fn fail(&self, failure: ProgramFailure) -> (step: Step)
        ensures
            (*self, step@) == fails(*self, failure@),
    {
        Step::Finished(Err(failure))
    }

    /// Take an answer.
    pub fn step(&mut self, event: Event) -> (step: Step)
        requires
            answers(*old(self), event@),
        ensures
            (*final(self), step@) == kbd_next(*old(self), event@),
    {
        match self.phase {
            Phase::AttachChild => match event {
                Event::Failed(UsbError::Io { message, shown }) => self.fail(
                    ProgramFailure::NoKeyboard(message),
                ),
                Event::Failed(error) => self.fail(usb_failure(error)),
                _ => self.want_configuration(Phase::ConfigHead, 9),
            },
            Phase::SetIdle => {
                let ask = Ask::OpenInterrupt {
                    number: self.boot.endpoint_number,
                    max_packet_size: self.boot.max_packet_size,
                    interval: self.boot.interval,
                };
                self.ask(Phase::Open, ask)
            },
            _ => match event {
                Event::Failed(error) => self.fail(usb_failure(error)),
                other => self.step_on(other),
            },
        }
    }

    fn step_on(&mut self, event: Event) -> (step: Step)
        requires
            answers(*old(self), event@),
            !(event is Failed),
        ensures
            (*final(self), step@) == kbd_on(*old(self), event@),
    {
        let now: u64 = match event {
            Event::Time(now) => now,
            _ => 0,
        };
        match self.phase {
            Phase::Controller => {
                if let Event::Controller(ports) = event {
                    self.ports = ports;
                }
                self.ask(Phase::WatchStart, Ask::Clock)
            },
            Phase::WatchStart => {
                self.watch_started = now;
                self.sweep()
            },
            Phase::Port(port) => {
                let connected: bool = match event {
                    Event::Port(connected) => connected,
                    _ => false,
                };
                self.look_at_port(port, connected)
            },
            Phase::MissedSaid(port) => self.ask(Phase::Attach, Ask::Attach(port)),
            Phase::WatchClock => if now.saturating_sub(self.watch_started) > WATCH_WINDOW_NS {
                self.fail(
                    ProgramFailure::NoKeyboard(
                        String::from_str("no device connected on any root-hub port"),
                    ),
                )
            } else {
                self.ran_out = false;
                self.ask(Phase::Watch, Ask::WatchPorts)
            },
            Phase::Watch => match event {
                Event::Unsupported => self.ask(Phase::WatchSleep, Ask::Sleep(WATCH_PACE_NS)),
                Event::RanOut => {
                    self.ran_out = true;
                    self.sweep()
                },
                _ => {
                    self.ran_out = false;
                    self.sweep()
                },
            },
            Phase::WatchSleep => self.sweep(),
            Phase::Attach => self.ask(
                Phase::Head,
                Ask::ControlIn { request: 6, value: 0x0100, length: 18 },
            ),
            Phase::Head => {
                let hub: bool = match &event {
                    Event::Bytes(head) => head.len() > 4 && head[4] == 9,
                    _ => false,
                };
                if hub {
                    self.ask(Phase::AttachChild, Ask::AttachChild)
                } else {
                    self.want_configuration(Phase::ConfigHead, 9)
                }
            },
            Phase::ConfigHead => self.ask(Phase::ConfigParse, Ask::ParseConfiguration),
            Phase::ConfigParse => match event {
                Event::Configuration(configuration) => {
                    self.configuration = configuration;
                    self.want_configuration(Phase::Blob, configuration.total_length)
                },
                _ => self.fail(
                    ProgramFailure::Io(
                        String::from_str("the configuration descriptor did not parse"),
                    ),
                ),
            },
            Phase::Blob => self.ask(Phase::Boot, Ask::FindBootInterface),
            Phase::Boot => self.take_boot(event),
            Phase::SetConfiguration => self.set_up(Phase::SetProtocol, 0x0b),
            Phase::SetProtocol => self.set_up(Phase::SetIdle, 0x0a),
            Phase::Open => {
                if let Event::Opened(waits) = event {
                    self.event_driven = waits;
                }
                self.ask(
                    Phase::Banner,
                    Ask::Say(
                        String::from_str(
                            "usb.kbd: forwarding boot-protocol keystrokes to the console (ctrl+c interrupts like the serial key)",
                        ),
                    ),
                )
            },
            Phase::Banner => match event {
                Event::Unsaid(shown) => self.fail(ProgramFailure::Io(shown)),
                _ => self.ask(Phase::LoopStart, Ask::Clock),
            },
            Phase::LoopStart => {
                self.started = now;
                self.go_on()
            },
            Phase::WindowClock => if now.saturating_sub(self.started) > self.window_ns {
                Step::Finished(Ok(self.forwarded))
            } else {
                self.ask(Phase::Read, Ask::Read)
            },
            Phase::Read => match event {
                Event::Lost(shown) => {
                    let mut said = String::from_str("interrupt endpoint: ");
                    said.append(shown.as_str());
                    self.fail(ProgramFailure::DeviceLost(said))
                },
                Event::Bytes(bytes) => if bytes.len() > 0 {
                    self.ask(Phase::Decode, Ask::Decode)
                } else if self.event_driven {
                    self.go_on()
                } else {
                    self.ask(Phase::PollSleep, Ask::Sleep(POLL_PACE_NS))
                },
                _ => self.go_on(),
            },
            Phase::Decode => self.take_report(event),
            Phase::Inject => match event {
                Event::SinkFailed(SinkError::Denied) => self.fail(ProgramFailure::Denied),
                Event::SinkFailed(SinkError::Io(message)) => self.fail(
                    ProgramFailure::Io(message),
                ),
                Event::Accepted(accepted) => {
                    let count: u32 = if accepted < self.offered {
                        accepted
                    } else {
                        self.offered
                    };
                    self.forwarded = self.forwarded + count;
                    self.ask(Phase::Remember, Ask::Remember)
                },
                _ => self.go_on(),
            },
            _ => self.go_on(),
        }
    }
}

/// With a control key down nothing but the interrupt reaches the console, once for each
/// time that its key went down.
pub proof fn law_ctrl_only_interrupts(typed: Seq<Key>)
    ensures
        forall|i: int|
            0 <= i < bytes_for(true, typed).len() ==> #[trigger] bytes_for(true, typed)[i]
                == INTERRUPT,
        bytes_for(true, typed).len() <= typed.len(),
    decreases typed.len(),
{
    if typed.len() > 0 {
        law_ctrl_only_interrupts(typed.drop_last());
    }
}

/// A report with too many keys, and one that does not parse, is neither forwarded nor
/// remembered.
pub proof fn law_bad_reports_are_skipped(kbd: Kbd, modifiers: u8, typed: Seq<Key>)
    requires
        kbd.phase == Phase::Decode,
    ensures
        kbd_next(kbd, Came::Nothing) == goes_on(kbd),
        kbd_next(kbd, (Came::Report { modifiers, rollover: true, typed })) == goes_on(kbd),
{
}

/// A read that waits for a report is followed by the next read at once: where the bus can
/// wait, the program never sleeps between reports.
pub proof fn law_event_driven_never_paces(kbd: Kbd, came: Came)
    requires
        kbd.event_driven,
        answers(kbd, came),
        kbd.phase == Phase::Read || kbd.phase == Phase::Decode || kbd.phase == Phase::Inject
            || kbd.phase == Phase::Remember || kbd.phase == Phase::WindowClock,
    ensures
        !(kbd_next(kbd, came).1 matches Turn::Ask(Asked::Sleep(_))),
{
}

/// The device is waited for while the time lasts, and no longer.
pub proof fn law_watch_is_bounded(kbd: Kbd, now: u64)
    requires
        kbd.phase == Phase::WatchClock,
    ensures
        kbd_next(kbd, Came::Time(now)).1 is Finished <==> since(kbd.watch_started, now)
            > WATCH_WINDOW_NS,
{
}

/// A device that was found without being told of is reported, and only then.
pub proof fn law_missed_event_is_reported(kbd: Kbd, port: u8)
    requires
        kbd.phase == Phase::Port(port),
    ensures
        kbd_next(kbd, Came::Port(true)).1 == Turn::Ask(
            if kbd.ran_out {
                Asked::Note(missed_text())
            } else {
                Asked::Attach(port)
            },
        ),
{
}

/// Keys reach the console one behind the other, in the order in which they went down: each
/// with its own bytes, or, with a control key down, `c` as the interrupt and every other key
/// as nothing.
pub proof fn law_keys_keep_their_order(ctrl: bool, first: Seq<Key>, second: Seq<Key>, key: Key)
    ensures
        bytes_for(ctrl, first + second) == bytes_for(ctrl, first) + bytes_for(ctrl, second),
        bytes_for(false, seq![key]) == key.bytes,
        key.usage == 6 ==> bytes_for(true, seq![key]) == seq![3u8],
        key.usage != 6 ==> bytes_for(true, seq![key]).len() == 0,
        bytes_for(ctrl, Seq::empty()).len() == 0,
    decreases second.len(),
{
    let one = seq![key];
    assert(one.drop_last() =~= Seq::empty());
    reveal_with_fuel(bytes_for, 2);
    assert(bytes_for(false, one) =~= key.bytes);
    if key.usage == 6 {
        assert(bytes_for(true, one) =~= seq![3u8]);
    }
    if second.len() == 0 {
        assert(first + second =~= first);
        assert(bytes_for(ctrl, first) + bytes_for(ctrl, second) =~= bytes_for(ctrl, first));
    } else {
        assert((first + second).drop_last() =~= first + second.drop_last());
        law_keys_keep_their_order(ctrl, first, second.drop_last(), key);
        assert(bytes_for(ctrl, first + second) =~= bytes_for(ctrl, first) + bytes_for(
            ctrl,
            second,
        ));
    }
}

/// What is typed is handed to the console, all of it at once; what the console took is
/// counted, the report is remembered, and the next one is read. A report without anything
/// for the console is remembered too.
pub proof fn law_keystrokes_reach_the_console(
    kbd: Kbd,
    modifiers: u8,
    typed: Seq<Key>,
    accepted: u32,
)
    requires
        kbd.phase == Phase::Decode,
        bytes_for(modifiers & kbd.codes.ctrl != 0, typed).len() <= u32::MAX,
        kbd.forwarded + bytes_for(modifiers & kbd.codes.ctrl != 0, typed).len() <= u32::MAX,
    ensures
        ({
            let bytes = bytes_for(modifiers & kbd.codes.ctrl != 0, typed);
            let (there, turn) = kbd_next(kbd, Came::Report { modifiers, rollover: false, typed });
            let (counted, next) = kbd_next(there, Came::Accepted(accepted));
            &&& bytes.len() > 0 ==> {
                &&& turn == Turn::Ask(Asked::Inject(bytes))
                &&& next == Turn::Ask(Asked::Remember)
                &&& counted.phase == Phase::Remember
                &&& accepted >= bytes.len() ==> counted.forwarded == kbd.forwarded + bytes.len()
                &&& accepted < bytes.len() ==> counted.forwarded == kbd.forwarded + accepted
                &&& kbd.window_ns == 0 ==> kbd_next(counted, Came::Done).1 == Turn::Ask(Asked::Read)
            }
            &&& bytes.len() == 0 ==> turn == Turn::Ask(Asked::Remember) && there.forwarded
                == kbd.forwarded
        }),
{
}

/// The program forwards until its time is over, by the clock and not before, and then gives
/// how many bytes it forwarded; without a time it never looks at the clock.
pub proof fn law_window_is_kept(kbd: Kbd, now: u64)
    requires
        kbd.phase == Phase::WindowClock,
    ensures
        ({
            let (after, turn) = kbd_next(kbd, Came::Time(now));
            &&& now > kbd.started + kbd.window_ns ==> turn == Turn::Finished(
                Ok::<u32, Failure>(kbd.forwarded),
            )
            &&& now <= kbd.started + kbd.window_ns ==> turn == Turn::Ask(Asked::Read)
            &&& after.forwarded == kbd.forwarded
        }),
        goes_on(kbd).1 == Turn::Ask(
            if kbd.window_ns > 0 {
                Asked::Clock
            } else {
                Asked::Read
            },
        ),
{
}

/// A report that was read is decoded; where none came the next read follows, after a pause
/// where the bus cannot wait; an endpoint that fails ends the program as a lost device.
pub proof fn law_reads_are_decoded(kbd: Kbd, bytes: Seq<u8>, shown: Seq<char>)
    requires
        kbd.phase == Phase::Read,
    ensures
        bytes.len() > 0 ==> kbd_next(kbd, Came::Bytes(bytes)).1 == Turn::Ask(Asked::Decode),
        bytes.len() == 0 && !kbd.event_driven ==> kbd_next(kbd, Came::Bytes(bytes)).1 == Turn::Ask(
            Asked::Sleep(2_000_000),
        ),
        bytes.len() == 0 && kbd.event_driven ==> kbd_next(kbd, Came::Bytes(bytes)) == goes_on(kbd),
        kbd_next(kbd, Came::Lost(shown)).1 == Turn::Finished(
            Err::<u32, Failure>(Failure::DeviceLost("interrupt endpoint: "@ + shown)),
        ),
{
}

/// The ports are looked at one after the other from the first to the last, and the first at
/// which something is connected is attached; where nothing is, the time is looked at.
pub proof fn law_every_port_is_looked_at(kbd: Kbd, port: u8, ports: u8)
    requires
        1 <= port <= ports,
        kbd.ports == ports,
        !kbd.ran_out,
    ensures
        sweeps(kbd).1 == Turn::Ask(Asked::Port(1)),
        ({
            let looking = Kbd { phase: Phase::Port(port), ..kbd };
            let (there, turn) = kbd_next(looking, Came::Port(false));
            &&& port < ports ==> turn == Turn::Ask(Asked::Port((port + 1) as u8)) && there.phase
                == Phase::Port((port + 1) as u8)
            &&& port == ports ==> turn == Turn::Ask(Asked::Clock)
            &&& kbd_next(looking, Came::Port(true)).1 == Turn::Ask(Asked::Attach(port))
        }),
{
}

/// A device that was attached is brought into its boot protocol step by step: its head is
/// read, and behind a hub that of the device there; then its configuration, whole; then it
/// is configured, set to the boot protocol and to report changes only, and its endpoint is
/// opened as it is described.
pub proof fn law_keyboard_is_set_up(
    kbd: Kbd,
    head: Seq<u8>,
    bytes: Seq<u8>,
    configuration: Configuration,
    boot: BootInterface,
    waits: bool,
)
    requires
        kbd.phase == Phase::Attach,
        boot.protocol == kbd.codes.keyboard,
    ensures
        ({
            let value = (kbd.codes.configuration * 256) as u16;
            let (one, read) = kbd_next(kbd, Came::Done);
            let hub = head.len() > 4 && head[4] == 9;
            let (two, next) = kbd_next(one, Came::Bytes(head));
            let (three, short) = if hub {
                kbd_next(two, Came::Done)
            } else {
                (two, next)
            };
            let (four, parse) = kbd_next(three, Came::Bytes(bytes));
            let (five, whole) = kbd_next(four, Came::Configuration(configuration));
            let (six, find) = kbd_next(five, Came::Bytes(bytes));
            let (seven, configure) = kbd_next(six, Came::Boot(boot));
            let (eight, protocol) = kbd_next(seven, Came::Done);
            let (nine, idle) = kbd_next(eight, Came::Done);
            let (ten, open) = kbd_next(nine, Came::Done);
            let (eleven, banner) = kbd_next(ten, Came::Opened(waits));
            let (twelve, clock) = kbd_next(eleven, Came::Done);
            &&& read == Turn::Ask(Asked::ControlIn { request: 6, value: 0x0100, length: 18 })
            &&& hub ==> next == Turn::Ask(Asked::AttachChild)
            &&& short == Turn::Ask(Asked::ControlIn { request: 6, value, length: 9 })
            &&& parse == Turn::Ask(Asked::ParseConfiguration)
            &&& whole == Turn::Ask(
                Asked::ControlIn { request: 6, value, length: configuration.total_length },
            )
            &&& find == Turn::Ask(Asked::FindBootInterface)
            &&& configure == Turn::Ask(
                Asked::ControlOut {
                    kind: 0,
                    request: 9,
                    value: configuration.value as u16,
                    index: 0,
                },
            )
            &&& protocol == Turn::Ask(
                Asked::ControlOut {
                    kind: 0x21,
                    request: 0x0b,
                    value: 0,
                    index: boot.interface_number as u16,
                },
            )
            &&& idle == Turn::Ask(
                Asked::ControlOut {
                    kind: 0x21,
                    request: 0x0a,
                    value: 0,
                    index: boot.interface_number as u16,
                },
            )
            &&& open == Turn::Ask(
                Asked::OpenInterrupt {
                    number: boot.endpoint_number,
                    max_packet_size: boot.max_packet_size,
                    interval: boot.interval,
                },
            )
            &&& banner matches Turn::Ask(Asked::Say(_))
            &&& clock == Turn::Ask(Asked::Clock) && twelve.phase == Phase::LoopStart
            &&& twelve.event_driven == waits && twelve.forwarded == kbd.forwarded
        }),
{
}

/// A failure of the bus ends the program with that failure, but for the request to report
/// changes only, which a keyboard may refuse; what is no keyboard is said to be none.
pub proof fn law_bus_failures_end_it(kbd: Kbd, failure: UsbFailure, boot: BootInterface)
    ensures
        kbd.phase != Phase::SetIdle ==> kbd_next(kbd, Came::Failed(failure)).1 is Finished,
        kbd.phase != Phase::SetIdle && failure is Denied ==> kbd_next(kbd, Came::Failed(failure)).1
            == Turn::Finished(Err::<u32, Failure>(Failure::Denied)),
        kbd.phase != Phase::SetIdle && failure is NoController ==> kbd_next(
            kbd,
            Came::Failed(failure),
        ).1 == Turn::Finished(Err::<u32, Failure>(Failure::NoController)),
        kbd.phase == Phase::SetIdle ==> kbd_next(kbd, Came::Failed(failure)).1 is Ask,
        kbd.phase == Phase::Boot ==> (kbd_next(kbd, Came::Nothing).1 matches Turn::Finished(
            Err(Failure::NoKeyboard(_)),
        )),
        kbd.phase == Phase::Boot && boot.protocol != kbd.codes.keyboard ==> (kbd_next(
            kbd,
            Came::Boot(boot),
        ).1 matches Turn::Finished(Err(Failure::NoKeyboard(_)))),
{
}

/// The watch for a keyboard lasts two and a half seconds from the time that it began at, by
/// the clock: as long as no more have passed the ports are watched on, and then the program
/// fails. A clock that went back has not passed any time.
pub proof fn law_watch_is_kept(kbd: Kbd, begun: u64, now: u64, ran_out: bool)
    requires
        kbd.phase == Phase::WatchStart,
    ensures
        ({
            let (started, _) = kbd_on(kbd, Came::Time(begun));
            let watching = Kbd { phase: Phase::WatchClock, ..started };
            let (after, turn) = kbd_on(watching, Came::Time(now));
            &&& started.ports == kbd.ports
            &&& now > begun + 2_500_000_000 ==> {
                &&& turn matches Turn::Finished(Err(failure)) && failure is NoKeyboard
            }
            &&& now <= begun + 2_500_000_000 ==> turn == Turn::Ask(Asked::WatchPorts)
                && after.phase == Phase::Watch && !after.ran_out
            &&& after.ports == kbd.ports && after.forwarded == kbd.forwarded
        }),
{
}

/// What a value is over contents is of the same kind as the value itself: no two kinds are
/// taken for one another.
pub proof fn law_contents_keep_their_kind(
    usb_error: UsbError,
    program_failure: ProgramFailure,
    ask: Ask,
    event: Event,
    step: Step,
)
    ensures
        usb_error is Denied <==> usb_error@ is Denied,
        usb_error is NoController <==> usb_error@ is NoController,
        usb_error is Io <==> usb_error@ is Io,
        usb_error is Other <==> usb_error@ is Other,
        program_failure is Denied <==> program_failure@ is Denied,
        program_failure is NoController <==> program_failure@ is NoController,
        program_failure is NoKeyboard <==> program_failure@ is NoKeyboard,
        program_failure is DeviceLost <==> program_failure@ is DeviceLost,
        program_failure is Io <==> program_failure@ is Io,
        ask is Controller <==> ask@ is Controller,
        ask is Port <==> ask@ is Port,
        ask is Clock <==> ask@ is Clock,
        ask is WatchPorts <==> ask@ is WatchPorts,
        ask is Sleep <==> ask@ is Sleep,
        ask is Note <==> ask@ is Note,
        ask is Say <==> ask@ is Say,
        ask is Attach <==> ask@ is Attach,
        ask is AttachChild <==> ask@ is AttachChild,
        ask is ControlIn <==> ask@ is ControlIn,
        ask is ParseConfiguration <==> ask@ is ParseConfiguration,
        ask is FindBootInterface <==> ask@ is FindBootInterface,
        ask is ControlOut <==> ask@ is ControlOut,
        ask is OpenInterrupt <==> ask@ is OpenInterrupt,
        ask is Read <==> ask@ is Read,
        ask is Decode <==> ask@ is Decode,
        ask is Inject <==> ask@ is Inject,
        ask is Remember <==> ask@ is Remember,
        event is Failed <==> event@ is Failed,
        event is Controller <==> event@ is Controller,
        event is Port <==> event@ is Port,
        event is Time <==> event@ is Time,
        event is Changed <==> event@ is Changed,
        event is RanOut <==> event@ is RanOut,
        event is Unsupported <==> event@ is Unsupported,
        event is Done <==> event@ is Done,
        event is Bytes <==> event@ is Bytes,
        event is Configuration <==> event@ is Configuration,
        event is Boot <==> event@ is Boot,
        event is Nothing <==> event@ is Nothing,
        event is Opened <==> event@ is Opened,
        event is Unsaid <==> event@ is Unsaid,
        event is Lost <==> event@ is Lost,
        event is Report <==> event@ is Report,
        event is Accepted <==> event@ is Accepted,
        event is SinkFailed <==> event@ is SinkFailed,
        step is Ask <==> step@ is Ask,
        step is Finished <==> step@ is Finished,
{
}

/// The time that the program forwards for begins when it starts to read, by the clock, and the
/// reading goes on from there: with a time set, the clock is looked at before each read.
pub proof fn law_window_begins_with_the_reading(kbd: Kbd, begun: u64, now: u64)
    requires
        kbd.phase == Phase::LoopStart,
        kbd.window_ns > 0,
    ensures
        ({
            let (started, turn) = kbd_on(kbd, Came::Time(begun));
            let (after, end) = kbd_on(started, Came::Time(now));
            &&& turn == Turn::Ask(Asked::Clock) && started.phase == Phase::WindowClock
            &&& started.forwarded == kbd.forwarded && started.window_ns == kbd.window_ns
            &&& now > begun + kbd.window_ns ==> end == Turn::Finished(
                Ok::<u32, Failure>(kbd.forwarded),
            )
            &&& now <= begun + kbd.window_ns ==> end == Turn::Ask(Asked::Read)
        }),
{
}

/// A sweep begins at the first port; a hub without any goes straight to the clock.
pub proof fn law_sweep_begins_at_the_first_port(kbd: Kbd)
    ensures
        kbd.ports == 0 ==> sweeps(kbd).1 == Turn::Ask(Asked::Clock) && sweeps(kbd).0.phase
            == Phase::WatchClock,
        kbd.ports >= 1 ==> sweeps(kbd).1 == Turn::Ask(Asked::Port(1)) && sweeps(kbd).0.phase
            == Phase::Port(1),
{
}

} // verus!
