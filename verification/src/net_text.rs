//! `net.text`: text streams over one TCP connection, in the manner of telnet.
//!
//! [`NetText`] holds the session: the refuse-everything negotiator, the line assembler
//! and the buffered output. [`NetText::read_line`] and [`NetText::read_next`] carry one
//! read out over the transport below.
use std::collections::VecDeque;

use vstd::prelude::*;
use vstd::std_specs::vecdeque::VecDequeAdditionalSpecFns;
use vstd::string::*;
use vstd::utf8::{
    decode_utf8, encode_utf8, encode_utf8_decode_utf8, encode_utf8_valid_utf8, is_ascii_chars,
    is_ascii_chars_encode_utf8, valid_utf8,
};

use crate::bytes::{push_all, slice_of};
use crate::l4::{L4Error, L4Failure};
use crate::text::same;

verus! {

/// The port of a provider that was not configured.
pub const DEFAULT_PORT: u16 = 23;

/// Bytes of output that are held between reads.
pub const OUT_CAP: usize = 65536;

/// Bytes of one line; longer input is split.
pub const LINE_CAP: usize = 4096;

/// Bytes of one receive, and of one send.
pub const RECV_BUFFER_BYTES: usize = 2048;

pub const SEND_CHUNK: usize = 4096;

/// Telnet command bytes.
pub const IAC: u8 = 255;

pub const DONT: u8 = 254;

pub const DO: u8 = 253;

pub const WONT: u8 = 252;

pub const WILL: u8 = 251;

pub const SB: u8 = 250;

pub const SE: u8 = 240;

pub const CR: u8 = 13;

pub const LF: u8 = 10;

/// Where the command parser stands.
#[derive(Clone, Copy, PartialEq, Eq, Structural, Debug)]
pub enum Nvt {
    /// Plain bytes.
    Data,
    /// Behind the command escape.
    Iac,
    /// Behind a verb; the option comes next.
    Verb(u8),
    /// Inside a subnegotiation.
    Sub,
    /// Inside a subnegotiation, behind the command escape.
    SubIac,
}

/// Where the session is in its life.
#[derive(Clone, Copy, PartialEq, Eq, Structural, Debug)]
pub enum Phase {
    /// No connection yet.
    Idle,
    /// One connection.
    Live,
    /// Over, for good.
    Closed,
}

/// Failures of the text operations.
#[derive(Debug)]
pub enum TextError {
    Closed,
    Io(String),
}

/// Failures of the text operations, over contents.
pub enum TextFailure {
    Closed,
    Io(Seq<char>),
}

impl View for TextError {
    type V = TextFailure;

    open spec fn view(&self) -> TextFailure {
        match self {
            TextError::Closed => TextFailure::Closed,
            TextError::Io(text) => TextFailure::Io(text@),
        }
    }
}

/// A session.
#[derive(Debug)]
pub struct NetText {
    pub phase: Phase,
    /// Whether the connection is here; an operation takes it out while it uses it.
    pub conn: bool,
    /// Output that waits, already encoded.
    pub out: Vec<u8>,
    /// Whether output was dropped since this was last said.
    pub out_dropped: bool,
    /// Complete lines that wait.
    pub lines: VecDeque<String>,
    /// The bytes of the incomplete line.
    pub partial: Vec<u8>,
    pub nvt: Nvt,
    /// Whether a carriage return has just ended a line: a line feed or a NUL right behind
    /// it belongs to it.
    pub swallow_after_cr: bool,
}

/// A session, over contents.
#[verifier::ext_equal]
pub struct Session {
    pub phase: Phase,
    pub conn: bool,
    pub out: Seq<u8>,
    pub out_dropped: bool,
    pub lines: Seq<Seq<char>>,
    pub partial: Seq<u8>,
    pub nvt: Nvt,
    pub swallow_after_cr: bool,
}

impl View for NetText {
    type V = Session;

    open spec fn view(&self) -> Session {
        Session {
            phase: self.phase,
            conn: self.conn,
            out: self.out@,
            out_dropped: self.out_dropped,
            lines: self.lines@.map_values(|line: String| line@),
            partial: self.partial@,
            nvt: self.nvt,
            swallow_after_cr: self.swallow_after_cr,
        }
    }
}

/// The text of bytes that `String::from_utf8_lossy` gives.
pub uninterp spec fn lossy(bytes: Seq<u8>) -> Seq<char>;

/// `String::from_utf8_lossy`: the text of bytes, with replacement characters for what is
/// not UTF-8. Bytes that are UTF-8 decode to themselves.
#[verifier::external_body]
fn from_utf8_lossy(bytes: &[u8]) -> (text: String)
    ensures
        text@ == lossy(bytes@),
        valid_utf8(bytes@) ==> text@ == decode_utf8(bytes@),
{
    String::from_utf8_lossy(bytes).into_owned()
}

/// The text of a line: its bytes decoded, with replacements for what is not UTF-8.
pub open spec fn line_text(bytes: Seq<u8>) -> Seq<char> {
    if valid_utf8(bytes) {
        decode_utf8(bytes)
    } else {
        lossy(bytes)
    }
}

/// A fresh session.
pub open spec fn fresh() -> Session {
    Session {
        phase: Phase::Idle,
        conn: false,
        out: Seq::empty(),
        out_dropped: false,
        lines: Seq::empty(),
        partial: Seq::empty(),
        nvt: Nvt::Data,
        swallow_after_cr: false,
    }
}

/// A session with more output: what does not fit is dropped, and that is remembered.
pub open spec fn queued(session: Session, bytes: Seq<u8>) -> Session {
    let room = if session.out.len() < OUT_CAP {
        OUT_CAP - session.out.len()
    } else {
        0
    };
    if room >= bytes.len() {
        Session { out: session.out + bytes, ..session }
    } else {
        Session { out: session.out + bytes.subrange(0, room), out_dropped: true, ..session }
    }
}

/// A session whose incomplete line ended.
pub open spec fn line_ended(session: Session) -> Session {
    Session {
        lines: session.lines.push(line_text(session.partial)),
        partial: Seq::empty(),
        ..session
    }
}

/// A session with one more byte of its line; a line at its cap ends.
pub open spec fn line_grown(session: Session, byte: u8) -> Session {
    let there = Session {
        swallow_after_cr: false,
        partial: session.partial.push(byte),
        ..session
    };
    if there.partial.len() >= LINE_CAP {
        line_ended(there)
    } else {
        there
    }
}

/// A session after one received byte.
pub open spec fn fed(session: Session, byte: u8) -> Session {
    match session.nvt {
        Nvt::Data => if byte == IAC {
            Session { nvt: Nvt::Iac, ..session }
        } else if byte == CR {
            Session { swallow_after_cr: true, ..line_ended(session) }
        } else if (byte == LF || byte == 0) && session.swallow_after_cr {
            Session { swallow_after_cr: false, ..session }
        } else if byte == LF {
            line_ended(session)
        } else {
            line_grown(session, byte)
        },
        Nvt::Iac => if byte == IAC {
            line_grown(Session { nvt: Nvt::Data, ..session }, IAC)
        } else if byte == WILL || byte == WONT || byte == DO || byte == DONT {
            Session { nvt: Nvt::Verb(byte), ..session }
        } else if byte == SB {
            Session { nvt: Nvt::Sub, ..session }
        } else {
            Session { nvt: Nvt::Data, ..session }
        },
        Nvt::Verb(verb) => {
            let answered = if verb == WILL {
                queued(session, seq![IAC, DONT, byte])
            } else if verb == DO {
                queued(session, seq![IAC, WONT, byte])
            } else {
                session
            };
            Session { nvt: Nvt::Data, ..answered }
        },
        Nvt::Sub => if byte == IAC {
            Session { nvt: Nvt::SubIac, ..session }
        } else {
            session
        },
        Nvt::SubIac => Session {
            nvt: if byte == SE {
                Nvt::Data
            } else {
                Nvt::Sub
            },
            ..session
        },
    }
}

/// A session after received bytes.
pub open spec fn fed_all(session: Session, bytes: Seq<u8>) -> Session
    decreases bytes.len(),
{
    if bytes.len() == 0 {
        session
    } else {
        fed(fed_all(session, bytes.drop_last()), bytes.last())
    }
}

/// Text as it goes out: a line feed becomes a carriage return and a line feed.
pub open spec fn encoded(bytes: Seq<u8>) -> Seq<u8>
    decreases bytes.len(),
{
    if bytes.len() == 0 {
        Seq::empty()
    } else {
        let before = encoded(bytes.drop_last());
        if bytes.last() == LF {
            before.push(CR).push(LF)
        } else {
            before.push(bytes.last())
        }
    }
}

/// The bytes of a greeting, a goodbye and the note that output was dropped.
pub open spec fn greeting() -> Seq<u8> {
    "eo9 net.text: cleartext telnet session - unauthenticated; trusted networks only\r\n".spec_bytes()
}

pub open spec fn goodbye() -> Seq<u8> {
    "eo9 net.text: session closed\r\n".spec_bytes()
}

pub open spec fn dropped_marker() -> Seq<u8> {
    "\r\n[net.text: some output was dropped]\r\n".spec_bytes()
}

/// The state of a provider, which starts with a fresh session.
pub fn with_state(state: &mut Option<NetText>) -> (there: &mut NetText)
    ensures
        *old(state) matches Some(before) ==> *there == before,
        *old(state) is None ==> there@ == fresh(),
        *final(state) == Some(*final(there)),
{
    if state.is_none() {
        *state = Some(NetText::new());
    }
    state.as_mut().unwrap()
}

/// The port of a provider.
pub fn port(configured: Option<u16>) -> (port: u16)
    ensures
        port == match configured {
            Some(port) => port,
            None => DEFAULT_PORT,
        },
{
    match configured {
        Some(port) => port,
        None => DEFAULT_PORT,
    }
}

/// Set the port.
pub fn configure(configured: &mut Option<u16>, port: u16) -> (result: Result<(), String>)
    ensures
        match result {
            Ok(_) => port != 0 && *final(configured) == Some(port),
            Err(text) => {
                &&& port == 0
                &&& *final(configured) == *old(configured)
                &&& text@
                    == "net.text: port must be 1..=65535 (0 would bind an unpredictable ephemeral port)"@
            },
        },
{
    if port == 0 {
        return Err(
            String::from_str(
                "net.text: port must be 1..=65535 (0 would bind an unpredictable ephemeral port)",
            ),
        );
    }
    *configured = Some(port);
    Ok(())
}

/// Whether a transport failure only says that a wait expired.
pub fn timed_out(error: &L4Error) -> (yes: bool)
    ensures
        yes == (error@ is TimedOut),
{
    matches!(error, L4Error::TimedOut)
}

/// Whether a transport failure says that the peer went away.
pub open spec fn says_gone(failure: L4Failure) -> bool {
    failure is ConnectionReset || failure is NotConnected
}

/// Whether a transport failure says that the peer went away.
pub fn peer_gone(error: &L4Error) -> (yes: bool)
    ensures
        yes == says_gone(error@),
{
    matches!(error, L4Error::ConnectionReset | L4Error::NotConnected)
}

/// A transport failure in the terms of the text operations.
pub open spec fn io_failure(doing: Seq<char>, shown: Seq<char>) -> TextFailure {
    TextFailure::Io("net.text: "@ + doing + ": "@ + shown)
}

/// A transport failure in the terms of the text operations; `shown` is its shown form.
pub fn io_error(doing: &str, shown: &str) -> (error: TextError)
    ensures
        error@ == io_failure(doing@, shown@),
{
    let mut text = String::from_str("net.text: ");
    text.append(doing);
    text.append(": ");
    text.append(shown);
    TextError::Io(text)
}

/// What an operation answers while another one has the connection.
pub open spec fn in_progress() -> TextFailure {
    TextFailure::Io("net.text: another text operation on this session is in progress"@)
}

impl NetText {
    /// A fresh session.
    pub fn new() -> (session: NetText)
        ensures
            session@ == fresh(),
    {
        let session = NetText {
            phase: Phase::Idle,
            conn: false,
            out: Vec::new(),
            out_dropped: false,
            lines: VecDeque::new(),
            partial: Vec::new(),
            nvt: Nvt::Data,
            swallow_after_cr: false,
        };
        assert(session@ =~= fresh());
        session
    }

    /// Queue output.
    pub fn queue_out(&mut self, bytes: &[u8])
        ensures
            final(self)@ == queued(old(self)@, bytes@),
    {
        let room: usize = if self.out.len() < OUT_CAP {
            OUT_CAP - self.out.len()
        } else {
            0
        };
        if room >= bytes.len() {
            push_all(&mut self.out, bytes);
        } else {
            push_all(&mut self.out, &slice_of(bytes, 0, room));
            self.out_dropped = true;
        }
        assert(self@ =~= queued(old(self)@, bytes@));
    }

    /// End the incomplete line.
    pub fn end_line(&mut self)
        ensures
            final(self)@ == line_ended(old(self)@),
    {
        let line = from_utf8_lossy(&self.partial);
        self.partial.clear();
        self.lines.push_back(line);
        assert(self@ =~= line_ended(old(self)@));
    }

    fn grow_line(&mut self, byte: u8)
        ensures
            final(self)@ == line_grown(old(self)@, byte),
    {
        self.swallow_after_cr = false;
        self.partial.push(byte);
        assert(self@ =~= (Session {
            swallow_after_cr: false,
            partial: old(self)@.partial.push(byte),
            ..old(self)@
        }));
        if self.partial.len() >= LINE_CAP {
            self.end_line();
        }
    }

    /// Take one received byte.
    pub fn feed(&mut self, byte: u8)
        ensures
            final(self)@ == fed(old(self)@, byte),
    {
        match self.nvt {
            Nvt::Data => if byte == IAC {
                self.nvt = Nvt::Iac;
            } else if byte == CR {
                self.end_line();
                self.swallow_after_cr = true;
            } else if (byte == LF || byte == 0) && self.swallow_after_cr {
                self.swallow_after_cr = false;
            } else if byte == LF {
                self.end_line();
            } else {
                self.grow_line(byte);
            },
            Nvt::Iac => if byte == IAC {
                self.nvt = Nvt::Data;
                self.grow_line(IAC);
            } else if byte == WILL || byte == WONT || byte == DO || byte == DONT {
                self.nvt = Nvt::Verb(byte);
            } else if byte == SB {
                self.nvt = Nvt::Sub;
            } else {
                self.nvt = Nvt::Data;
            },
            Nvt::Verb(verb) => {
                if verb == WILL {
                    let refusal: [u8; 3] = [IAC, DONT, byte];
                    assert(refusal@ =~= seq![IAC, DONT, byte]);
                    self.queue_out(&refusal);
                } else if verb == DO {
                    let refusal: [u8; 3] = [IAC, WONT, byte];
                    assert(refusal@ =~= seq![IAC, WONT, byte]);
                    self.queue_out(&refusal);
                }
                self.nvt = Nvt::Data;
            },
            Nvt::Sub => if byte == IAC {
                self.nvt = Nvt::SubIac;
            },
            Nvt::SubIac => {
                self.nvt = if byte == SE {
                    Nvt::Data
                } else {
                    Nvt::Sub
                };
            },
        }
        assert(self@ =~= fed(old(self)@, byte));
    }

    /// Take received bytes.
    pub fn feed_all(&mut self, bytes: &[u8])
        ensures
            final(self)@ == fed_all(old(self)@, bytes@),
    {
        let mut at: usize = 0;
        while at < bytes.len()
            invariant
                at <= bytes.len(),
                self@ == fed_all(old(self)@, bytes@.take(at as int)),
            decreases bytes.len() - at,
        {
            self.feed(bytes[at]);
            at = at + 1;
            assert(bytes@.take(at as int).drop_last() =~= bytes@.take(at - 1));
        }
        assert(bytes@.take(at as int) =~= bytes@);
    }

    /// Write text: it waits until the next read.
    pub fn write(&mut self, text: &str) -> (result: Result<(), TextError>)
        ensures
            match result {
                Ok(_) => old(self)@.phase != Phase::Closed && final(self)@ == queued(
                    old(self)@,
                    encoded(text.spec_bytes()),
                ),
                Err(error) => old(self)@.phase == Phase::Closed && error is Closed && final(self)@
                    == old(self)@,
            },
    {
        if self.phase == Phase::Closed {
            return Err(TextError::Closed);
        }
        let bytes = text.as_bytes();
        let mut out: Vec<u8> = Vec::new();
        let mut at: usize = 0;
        assert(bytes@.take(0) =~= Seq::empty());
        while at < bytes.len()
            invariant
                at <= bytes.len(),
                out@ == encoded(bytes@.take(at as int)),
            decreases bytes.len() - at,
        {
            if bytes[at] == LF {
                out.push(CR);
                out.push(LF);
            } else {
                out.push(bytes[at]);
            }
            at = at + 1;
            assert(bytes@.take(at as int).drop_last() =~= bytes@.take(at - 1));
        }
        assert(bytes@.take(at as int) =~= bytes@);
        self.queue_out(&out);
        Ok(())
    }
}

/// What a read wants from the transport below.
#[derive(Debug)]
pub enum Want {
    /// Listen on a port of every address.
    Listen(u16),
    /// Accept one connection; the listener is dropped once it has one.
    Accept,
    /// Send these bytes on the connection.
    Send(Vec<u8>),
    /// Receive up to [`RECV_BUFFER_BYTES`] bytes from the connection.
    Recv,
    /// Drop the connection, then listen on any port and accept once, whatever comes of
    /// it: the transport finishes the close meanwhile.
    DropAndPump,
}

/// What a read wants, over contents.
pub enum Wanted {
    Listen(u16),
    Accept,
    Send(Seq<u8>),
    Recv,
    DropAndPump,
}

impl View for Want {
    type V = Wanted;

    open spec fn view(&self) -> Wanted {
        match self {
            Want::Listen(port) => Wanted::Listen(*port),
            Want::Accept => Wanted::Accept,
            Want::Send(bytes) => Wanted::Send(bytes@),
            Want::Recv => Wanted::Recv,
            Want::DropAndPump => Wanted::DropAndPump,
        }
    }
}

/// What became of it.
#[derive(Debug)]
pub enum Got {
    /// It was done.
    Done,
    /// So many bytes were sent.
    Sent(u64),
    /// These bytes were received; none where the peer closed.
    Received(Vec<u8>),
    /// It failed; the text is the failure's shown form.
    Failed(L4Error, String),
}

/// What became of it, over contents.
pub enum Gotten {
    Done,
    Sent(u64),
    Received(Seq<u8>),
    Failed(L4Failure, Seq<char>),
}

impl View for Got {
    type V = Gotten;

    open spec fn view(&self) -> Gotten {
        match self {
            Got::Done => Gotten::Done,
            Got::Sent(len) => Gotten::Sent(*len),
            Got::Received(bytes) => Gotten::Received(bytes@),
            Got::Failed(error, shown) => Gotten::Failed(error@, shown@),
        }
    }
}

/// A line that may be there.
pub open spec fn line_of(line: Option<String>) -> Option<Seq<char>> {
    match line {
        Some(line) => Some(line@),
        None => None,
    }
}

/// Where a read stands.
#[derive(Debug)]
pub enum Stage {
    Listening,
    Accepting,
    /// Sending a chunk of the output, before the next line is looked for.
    Flushing(Vec<u8>),
    Receiving,
    /// Sending a chunk of the last output; the read then gives this line.
    Leaving(Vec<u8>, Option<String>),
    /// Finishing the close; the read then gives this line.
    Pumping(Option<String>),
}

/// Where a read stands, over contents.
pub enum Standing {
    Listening,
    Accepting,
    Flushing(Seq<u8>),
    Receiving,
    Leaving(Seq<u8>, Option<Seq<char>>),
    Pumping(Option<Seq<char>>),
}

impl View for Stage {
    type V = Standing;

    open spec fn view(&self) -> Standing {
        match self {
            Stage::Listening => Standing::Listening,
            Stage::Accepting => Standing::Accepting,
            Stage::Flushing(chunk) => Standing::Flushing(chunk@),
            Stage::Receiving => Standing::Receiving,
            Stage::Leaving(chunk, line) => Standing::Leaving(chunk@, line_of(*line)),
            Stage::Pumping(line) => Standing::Pumping(line_of(*line)),
        }
    }
}

/// What a read does next.
#[derive(Debug)]
pub enum ReadStep {
    Ask(Stage, Want),
    /// The read is over: a line, or the end of the input.
    Line(Option<String>),
    Failed(TextError),
}

/// What a read does next, over contents.
pub enum ReadAnswer {
    Ask(Standing, Wanted),
    Line(Option<Seq<char>>),
    Failed(TextFailure),
}

impl View for ReadStep {
    type V = ReadAnswer;

    open spec fn view(&self) -> ReadAnswer {
        match self {
            ReadStep::Ask(stage, want) => ReadAnswer::Ask(stage@, want@),
            ReadStep::Line(line) => ReadAnswer::Line(line_of(*line)),
            ReadStep::Failed(error) => ReadAnswer::Failed(error@),
        }
    }
}

/// The output that goes out next, and the session without it: the waiting output a chunk
/// at a time; where none is left but some was dropped, the note that says so.
pub open spec fn chunked(session: Session) -> (Session, Seq<u8>) {
    let filled = if session.out.len() == 0 && session.out_dropped {
        Session { out: dropped_marker(), out_dropped: false, ..session }
    } else {
        session
    };
    let take = if filled.out.len() < SEND_CHUNK {
        filled.out.len() as int
    } else {
        SEND_CHUNK as int
    };
    (
        Session { out: filled.out.subrange(take, filled.out.len() as int), ..filled },
        filled.out.subrange(0, take),
    )
}

/// A session with the connection taken out.
pub open spec fn taken(session: Session) -> Session {
    Session { conn: false, ..session }
}

/// A session that is over.
pub open spec fn closed(session: Session) -> Session {
    Session { conn: false, phase: Phase::Closed, ..session }
}

/// A session on its way through the output: the next chunk, then a waiting line, then
/// more input.
pub open spec fn reading(session: Session) -> (Session, ReadAnswer) {
    let (rest, chunk) = chunked(session);
    if chunk.len() > 0 {
        if rest.conn {
            (taken(rest), ReadAnswer::Ask(Standing::Flushing(chunk), Wanted::Send(chunk)))
        } else {
            (rest, ReadAnswer::Failed(in_progress()))
        }
    } else if rest.lines.len() > 0 {
        let line = rest.lines[0];
        let left = Session { lines: rest.lines.subrange(1, rest.lines.len() as int), ..rest };
        if line == "exit"@ {
            leaving(queued(left, goodbye()), None)
        } else {
            (left, ReadAnswer::Line(Some(line)))
        }
    } else if rest.conn {
        (taken(rest), ReadAnswer::Ask(Standing::Receiving, Wanted::Recv))
    } else {
        (rest, ReadAnswer::Failed(in_progress()))
    }
}

/// A session on its way out: what waits is sent, then the connection is dropped.
pub open spec fn leaving(session: Session, line: Option<Seq<char>>) -> (Session, ReadAnswer) {
    let (rest, chunk) = chunked(session);
    if chunk.len() > 0 && rest.conn {
        (taken(rest), ReadAnswer::Ask(Standing::Leaving(chunk, line), Wanted::Send(chunk)))
    } else {
        left(rest, line)
    }
}

/// A session that has said what it could.
pub open spec fn left(session: Session, line: Option<Seq<char>>) -> (Session, ReadAnswer) {
    if session.conn {
        (closed(session), ReadAnswer::Ask(Standing::Pumping(line), Wanted::DropAndPump))
    } else {
        (closed(session), ReadAnswer::Line(line))
    }
}

/// A session with the part of a chunk that was not sent put back in front.
pub open spec fn unsent(session: Session, chunk: Seq<u8>, sent: u64) -> Session {
    let here = Session { conn: true, ..session };
    if sent < chunk.len() {
        Session { out: chunk.subrange(sent as int, chunk.len() as int) + session.out, ..here }
    } else {
        here
    }
}

/// A read at its start.
pub open spec fn read_begun(session: Session, port: u16) -> (Session, ReadAnswer) {
    match session.phase {
        Phase::Closed => (session, ReadAnswer::Line(None)),
        Phase::Idle => (
            session,
            ReadAnswer::Ask(Standing::Listening, Wanted::Listen(port)),
        ),
        Phase::Live => reading(session),
    }
}

/// A read after something became of what it wanted.
pub open spec fn read_next(session: Session, standing: Standing, gotten: Gotten) -> (
    Session,
    ReadAnswer,
) {
    let back = Session { conn: true, ..session };
    match (standing, gotten) {
        (Standing::Pumping(line), _) => (session, ReadAnswer::Line(line)),
        (Standing::Listening, Gotten::Failed(_, shown)) => (
            session,
            ReadAnswer::Failed(io_failure("listen"@, shown)),
        ),
        (Standing::Listening, _) => (
            session,
            ReadAnswer::Ask(Standing::Accepting, Wanted::Accept),
        ),
        (Standing::Accepting, Gotten::Failed(failure, shown)) => if failure is TimedOut {
            (session, ReadAnswer::Ask(Standing::Accepting, Wanted::Accept))
        } else {
            (session, ReadAnswer::Failed(io_failure("accept"@, shown)))
        },
        (Standing::Accepting, _) => reading(
            queued(Session { phase: Phase::Live, ..back }, greeting()),
        ),
        (Standing::Flushing(chunk), Gotten::Sent(sent)) => reading(unsent(session, chunk, sent)),
        (Standing::Flushing(_), Gotten::Failed(failure, shown)) => if says_gone(failure) {
            (closed(session), ReadAnswer::Line(None))
        } else {
            (back, ReadAnswer::Failed(io_failure("send"@, shown)))
        },
        (Standing::Flushing(_), _) => reading(back),
        (Standing::Leaving(chunk, line), Gotten::Sent(sent)) => leaving(
            unsent(session, chunk, sent),
            line,
        ),
        (Standing::Leaving(_, line), Gotten::Failed(failure, _)) => if says_gone(failure) {
            left(closed(session), line)
        } else {
            left(back, line)
        },
        (Standing::Leaving(_, line), _) => left(back, line),
        (Standing::Receiving, Gotten::Received(bytes)) => if bytes.len() > 0 {
            reading(fed_all(back, bytes))
        } else if back.partial.len() == 0 {
            leaving(back, None)
        } else {
            let ended = line_ended(back);
            leaving(
                Session { lines: ended.lines.subrange(1, ended.lines.len() as int), ..ended },
                Some(ended.lines[0]),
            )
        },
        (Standing::Receiving, Gotten::Failed(failure, shown)) => if failure is TimedOut {
            reading(back)
        } else if says_gone(failure) {
            (closed(session), ReadAnswer::Line(None))
        } else {
            (back, ReadAnswer::Failed(io_failure("recv"@, shown)))
        },
        (Standing::Receiving, _) => reading(back),
    }
}

fn marker_bytes() -> (bytes: Vec<u8>)
    ensures
        bytes@ == dropped_marker(),
{
    "\r\n[net.text: some output was dropped]\r\n".as_bytes_vec()
}

impl NetText {
    fn next_chunk(&mut self) -> (chunk: Vec<u8>)
        ensures
            (final(self)@, chunk@) == chunked(old(self)@),
    {
        if self.out.len() == 0 && self.out_dropped {
            self.out_dropped = false;
            self.out = marker_bytes();
        }
        let take: usize = if self.out.len() < SEND_CHUNK {
            self.out.len()
        } else {
            SEND_CHUNK
        };
        let chunk = slice_of(&self.out, 0, take);
        self.out = slice_of(&self.out, take, self.out.len());
        assert(self@ =~= chunked(old(self)@).0);
        chunk
    }

    /// Drop the connection at once.
    pub fn close_now(&mut self)
        ensures
            final(self)@ == closed(old(self)@),
    {
        self.conn = false;
        self.phase = Phase::Closed;
        assert(self@ =~= closed(old(self)@));
    }

    fn in_progress() -> (step: ReadStep)
        ensures
            step@ == ReadAnswer::Failed(in_progress()),
    {
        ReadStep::Failed(
            TextError::Io(
                String::from_str(
                    "net.text: another text operation on this session is in progress",
                ),
            ),
        )
    }

    fn depart(&mut self, line: Option<String>) -> (step: ReadStep)
        ensures
            (final(self)@, step@) == left(old(self)@, line_of(line)),
    {
        let open = self.conn;
        self.close_now();
        if open {
            ReadStep::Ask(Stage::Pumping(line), Want::DropAndPump)
        } else {
            ReadStep::Line(line)
        }
    }

    fn leave(&mut self, line: Option<String>) -> (step: ReadStep)
        ensures
            (final(self)@, step@) == leaving(old(self)@, line_of(line)),
    {
        let chunk = self.next_chunk();
        if chunk.len() > 0 && self.conn {
            self.conn = false;
            assert(self@ =~= taken(chunked(old(self)@).0));
            let copy = slice_of(&chunk, 0, chunk.len());
            assert(copy@ =~= chunk@);
            ReadStep::Ask(Stage::Leaving(copy, line), Want::Send(chunk))
        } else {
            self.depart(line)
        }
    }

    fn go_on(&mut self) -> (step: ReadStep)
        ensures
            (final(self)@, step@) == reading(old(self)@),
    {
        let chunk = self.next_chunk();
        let ghost rest = self@;
        if chunk.len() > 0 {
            if !self.conn {
                return Self::in_progress();
            }
            self.conn = false;
            assert(self@ =~= taken(rest));
            let copy = slice_of(&chunk, 0, chunk.len());
            assert(copy@ =~= chunk@);
            return ReadStep::Ask(Stage::Flushing(copy), Want::Send(chunk));
        }
        match self.lines.pop_front() {
            Some(line) => {
                assert(self@ =~= (Session {
                    lines: rest.lines.subrange(1, rest.lines.len() as int),
                    ..rest
                }));
                if same(line.as_str(), "exit") {
                    let farewell = "eo9 net.text: session closed\r\n".as_bytes_vec();
                    self.queue_out(&farewell);
                    self.leave(None)
                } else {
                    ReadStep::Line(Some(line))
                }
            },
            None => {
                assert(self@ =~= rest);
                if !self.conn {
                    return Self::in_progress();
                }
                self.conn = false;
                assert(self@ =~= taken(rest));
                ReadStep::Ask(Stage::Receiving, Want::Recv)
            },
        }
    }

    fn put_back(&mut self, chunk: Vec<u8>, sent: u64)
        ensures
            final(self)@ == unsent(old(self)@, chunk@, sent),
    {
        self.conn = true;
        if sent < chunk.len() as u64 {
            let mut rest = slice_of(&chunk, sent as usize, chunk.len());
            push_all(&mut rest, &self.out);
            self.out = rest;
        }
        assert(self@ =~= unsent(old(self)@, chunk@, sent));
    }

    /// Begin to read a line.
    pub fn read_line(&mut self, port: u16) -> (step: ReadStep)
        ensures
            (final(self)@, step@) == read_begun(old(self)@, port),
    {
        match self.phase {
            Phase::Closed => ReadStep::Line(None),
            Phase::Idle => ReadStep::Ask(Stage::Listening, Want::Listen(port)),
            Phase::Live => self.go_on(),
        }
    }

    /// Take what became of what a read wanted and say what comes next.
    pub fn read_next(&mut self, stage: Stage, got: Got) -> (step: ReadStep)
        ensures
            (final(self)@, step@) == read_next(old(self)@, stage@, got@),
    {
        match (stage, got) {
            (Stage::Pumping(line), _) => ReadStep::Line(line),
            (Stage::Listening, Got::Failed(_, shown)) => ReadStep::Failed(
                io_error("listen", shown.as_str()),
            ),
            (Stage::Listening, _) => ReadStep::Ask(Stage::Accepting, Want::Accept),
            (Stage::Accepting, Got::Failed(error, shown)) => if timed_out(&error) {
                ReadStep::Ask(Stage::Accepting, Want::Accept)
            } else {
                ReadStep::Failed(io_error("accept", shown.as_str()))
            },
            (Stage::Accepting, _) => {
                self.conn = true;
                self.phase = Phase::Live;
                assert(self@ =~= (Session { phase: Phase::Live, conn: true, ..old(self)@ }));
                let welcome = "eo9 net.text: cleartext telnet session - unauthenticated; trusted networks only\r\n".as_bytes_vec();
                self.queue_out(&welcome);
                self.go_on()
            },
            (Stage::Flushing(chunk), Got::Sent(sent)) => {
                self.put_back(chunk, sent);
                self.go_on()
            },
            (Stage::Flushing(_), Got::Failed(error, shown)) => if peer_gone(&error) {
                self.close_now();
                ReadStep::Line(None)
            } else {
                self.hold();
                ReadStep::Failed(io_error("send", shown.as_str()))
            },
            (Stage::Flushing(_), _) => {
                self.hold();
                self.go_on()
            },
            (Stage::Leaving(chunk, line), Got::Sent(sent)) => {
                self.put_back(chunk, sent);
                self.leave(line)
            },
            (Stage::Leaving(_, line), Got::Failed(error, _)) => {
                if peer_gone(&error) {
                    self.close_now();
                } else {
                    self.hold();
                }
                self.depart(line)
            },
            (Stage::Leaving(_, line), _) => {
                self.hold();
                self.depart(line)
            },
            (Stage::Receiving, Got::Received(bytes)) => {
                self.hold();
                if bytes.len() > 0 {
                    self.feed_all(&bytes);
                    self.go_on()
                } else if self.partial.len() == 0 {
                    self.leave(None)
                } else {
                    self.end_line();
                    let ghost ended = self@;
                    let last = self.lines.pop_front();
                    assert(self@ =~= (Session {
                        lines: ended.lines.subrange(1, ended.lines.len() as int),
                        ..ended
                    }));
                    self.leave(last)
                }
            },
            (Stage::Receiving, Got::Failed(error, shown)) => if timed_out(&error) {
                self.hold();
                self.go_on()
            } else if peer_gone(&error) {
                self.close_now();
                ReadStep::Line(None)
            } else {
                self.hold();
                ReadStep::Failed(io_error("recv", shown.as_str()))
            },
            (Stage::Receiving, _) => {
                self.hold();
                self.go_on()
            },
        }
    }

    fn hold(&mut self)
        ensures
            final(self)@ == (Session { conn: true, ..old(self)@ }),
    {
        self.conn = true;
        assert(self@ =~= (Session { conn: true, ..old(self)@ }));
    }
}

/// Every offer is refused and every request declined, and refusals are never answered:
/// after a verb and an option the negotiator is back at plain bytes, and the only output
/// is one refusal per offer or request.
pub proof fn law_refuses_everything(session: Session, verb: u8, option: u8)
    requires
        session.nvt == Nvt::Data,
        session.out.len() + 3 <= OUT_CAP,
        verb == WILL || verb == WONT || verb == DO || verb == DONT,
    ensures
        ({
            let after = fed_all(session, seq![IAC, verb, option]);
            &&& after.nvt == Nvt::Data
            &&& after.out == session.out + (if verb == WILL {
                seq![IAC, DONT, option]
            } else if verb == DO {
                seq![IAC, WONT, option]
            } else {
                Seq::<u8>::empty()
            })
            &&& after.lines == session.lines
            &&& after.partial == session.partial
        }),
{
    let all = seq![IAC, verb, option];
    assert(all.drop_last() =~= seq![IAC, verb]);
    assert(seq![IAC, verb].drop_last() =~= seq![IAC]);
    assert(seq![IAC].drop_last() =~= Seq::<u8>::empty());
    reveal_with_fuel(fed_all, 4);
    assert(session.out + Seq::<u8>::empty() =~= session.out);
}

/// The four line ends mean the same: a carriage return with a line feed, with a NUL or
/// alone, and a line feed alone, each end the line once.
pub proof fn law_line_ends_agree(session: Session, end: Seq<u8>)
    requires
        session.nvt == Nvt::Data,
        !session.swallow_after_cr,
        end == seq![CR, LF] || end == seq![CR, 0u8] || end == seq![CR] || end == seq![LF],
    ensures
        fed_all(session, end).lines == session.lines.push(line_text(session.partial)),
        fed_all(session, end).partial == Seq::<u8>::empty(),
        fed_all(session, end).nvt == Nvt::Data,
{
    reveal_with_fuel(fed_all, 3);
    assert(seq![CR, LF].drop_last() =~= seq![CR]);
    assert(seq![CR, 0u8].drop_last() =~= seq![CR]);
    assert(seq![CR].drop_last() =~= Seq::<u8>::empty());
    assert(seq![LF].drop_last() =~= Seq::<u8>::empty());
}

/// The incomplete line never reaches its cap, whatever is received.
pub proof fn law_lines_stay_bounded(session: Session, bytes: Seq<u8>)
    requires
        session.partial.len() < LINE_CAP,
    ensures
        fed_all(session, bytes).partial.len() < LINE_CAP,
    decreases bytes.len(),
{
    if bytes.len() > 0 {
        law_lines_stay_bounded(session, bytes.drop_last());
    }
}

/// Waiting output never exceeds its cap, whatever is written; what did not fit is
/// remembered as dropped.
pub proof fn law_output_stays_bounded(session: Session, bytes: Seq<u8>)
    requires
        session.out.len() <= OUT_CAP,
    ensures
        queued(session, bytes).out.len() <= OUT_CAP,
        session.out.len() + bytes.len() > OUT_CAP ==> queued(session, bytes).out_dropped,
        queued(session, bytes).out.len() < session.out.len() + bytes.len()
            ==> queued(session, bytes).out_dropped,
{
}

/// Received bytes never open or close the session.
pub proof fn law_input_keeps_phase(session: Session, bytes: Seq<u8>)
    ensures
        fed_all(session, bytes).phase == session.phase,
        fed_all(session, bytes).conn == session.conn,
    decreases bytes.len(),
{
    if bytes.len() > 0 {
        law_input_keeps_phase(session, bytes.drop_last());
    }
}

/// A session that is over stays over: a read gives the end of the input at once.
pub proof fn law_closed_for_good(session: Session, port: u16)
    requires
        session.phase == Phase::Closed,
    ensures
        read_begun(session, port) == (session, ReadAnswer::Line(None)),
{
}

/// A chunk that was sent in part goes on where it stopped: nothing is lost and nothing
/// is sent twice.
pub proof fn law_unsent_goes_first(session: Session, sent: u64)
    requires
        session.out.len() > 0,
    ensures
        ({
            let (rest, chunk) = chunked(session);
            sent <= chunk.len() ==> unsent(rest, chunk, sent).out == session.out.subrange(
                sent as int,
                session.out.len() as int,
            )
        }),
{
    let (rest, chunk) = chunked(session);
    if sent <= chunk.len() {
        assert(unsent(rest, chunk, sent).out =~= session.out.subrange(
            sent as int,
            session.out.len() as int,
        ));
    }
}

/// Whether a byte is an ordinary one of a line: neither a command nor part of a line end.
pub open spec fn is_ordinary(byte: u8) -> bool {
    byte != IAC && byte != CR && byte != LF && byte != 0
}

proof fn lemma_fed_in_turn(session: Session, first: Seq<u8>, second: Seq<u8>)
    ensures
        fed_all(session, first + second) == fed_all(fed_all(session, first), second),
    decreases second.len(),
{
    if second.len() == 0 {
        assert(first + second =~= first);
    } else {
        lemma_fed_in_turn(session, first, second.drop_last());
        assert((first + second).drop_last() =~= first + second.drop_last());
        assert((first + second).last() == second.last());
    }
}

proof fn lemma_fed_ordinary(session: Session, bytes: Seq<u8>)
    requires
        session.nvt == Nvt::Data,
        session.partial.len() + bytes.len() < LINE_CAP,
        forall|i: int| 0 <= i < bytes.len() ==> is_ordinary(#[trigger] bytes[i]),
    ensures
        fed_all(session, bytes) == (Session {
            partial: session.partial + bytes,
            swallow_after_cr: session.swallow_after_cr && bytes.len() == 0,
            ..session
        }),
    decreases bytes.len(),
{
    if bytes.len() == 0 {
        assert(session.partial + bytes =~= session.partial);
    } else {
        let shorter = bytes.drop_last();
        assert forall|i: int| 0 <= i < shorter.len() implies is_ordinary(#[trigger] shorter[i]) by {
            assert(is_ordinary(bytes[i]));
        }
        lemma_fed_ordinary(session, shorter);
        assert(is_ordinary(bytes[bytes.len() - 1]));
        assert((session.partial + shorter).push(bytes.last()) =~= session.partial + bytes);
    }
}

/// A line that is typed is the line that is read, whichever way it ends: text without
/// commands and line ends that is shorter than the cap arrives as it is.
pub proof fn law_typed_line_arrives(session: Session, text: Seq<char>, end: Seq<u8>)
    requires
        session.nvt == Nvt::Data,
        session.partial.len() == 0,
        text.len() > 0,
        encode_utf8(text).len() < LINE_CAP,
        forall|i: int|
            0 <= i < encode_utf8(text).len() ==> is_ordinary(#[trigger] encode_utf8(text)[i]),
        end == seq![CR, LF] || end == seq![CR, 0u8] || end == seq![CR] || end == seq![LF],
    ensures
        ({
            let after = fed_all(session, encode_utf8(text) + end);
            &&& after.lines == session.lines.push(text)
            &&& after.partial.len() == 0
            &&& after.nvt == Nvt::Data
            &&& after.out == session.out
            &&& after.out_dropped == session.out_dropped
            &&& after.phase == session.phase
            &&& after.conn == session.conn
        }),
{
    let typed = encode_utf8(text);
    encode_utf8_valid_utf8(text);
    encode_utf8_decode_utf8(text);
    if typed.len() == 0 {
        assert(decode_utf8(typed).len() == 0);
    }
    lemma_fed_in_turn(session, typed, end);
    lemma_fed_ordinary(session, typed);
    let there = fed_all(session, typed);
    assert(there.partial =~= typed);
    law_line_ends_agree(there, end);
    reveal_with_fuel(fed_all, 3);
    assert(seq![CR, LF].drop_last() =~= seq![CR]);
    assert(seq![CR, 0u8].drop_last() =~= seq![CR]);
    assert(seq![CR].drop_last() =~= Seq::<u8>::empty());
    assert(seq![LF].drop_last() =~= Seq::<u8>::empty());
}

/// Typing `exit` ends the session: where nothing else waits, the read that receives the line
/// does not hand it out, but takes leave with the goodbye.
pub proof fn law_exit_takes_leave(session: Session, end: Seq<u8>)
    requires
        session.nvt == Nvt::Data,
        session.partial.len() == 0,
        session.lines.len() == 0,
        session.out.len() == 0,
        !session.out_dropped,
        end == seq![CR, LF] || end == seq![CR, 0u8] || end == seq![CR] || end == seq![LF],
    ensures
        ({
            let typed = encode_utf8("exit"@) + end;
            let after = fed_all(Session { conn: true, ..session }, typed);
            let rest = Session { lines: Seq::empty(), ..after };
            &&& rest.conn && rest.out.len() == 0 && rest.phase == session.phase
            &&& read_next(session, Standing::Receiving, Gotten::Received(typed)) == leaving(
                queued(rest, goodbye()),
                None,
            )
        }),
{
    let text = "exit"@;
    reveal_strlit("exit");
    assert(text =~= seq!['e', 'x', 'i', 't']);
    assert(is_ascii_chars(text));
    is_ascii_chars_encode_utf8(text);
    let bytes = encode_utf8(text);
    assert forall|i: int| 0 <= i < bytes.len() implies is_ordinary(#[trigger] bytes[i]) by {
        assert(text[i] as u8 == bytes[i]);
        assert(text[i] == 'e' || text[i] == 'x' || text[i] == 'i' || text[i] == 't');
    }
    let back = Session { conn: true, ..session };
    law_typed_line_arrives(back, text, end);
    let after = fed_all(back, bytes + end);
    let (rest, chunk) = chunked(after);
    assert(rest =~= after);
    assert(after.lines.subrange(1, after.lines.len() as int) =~= Seq::empty());
}

/// A session that takes leave closes: after each send it either goes on sending, for the same
/// line, or is over.
pub proof fn law_leave_closes(
    session: Session,
    chunk: Seq<u8>,
    line: Option<Seq<char>>,
    gotten: Gotten,
)
    ensures
        ({
            let (after, answer) = read_next(session, Standing::Leaving(chunk, line), gotten);
            match answer {
                ReadAnswer::Ask(Standing::Leaving(_, same), _) => same == line,
                ReadAnswer::Ask(Standing::Pumping(same), Wanted::DropAndPump) => same == line
                    && after.phase == Phase::Closed,
                ReadAnswer::Line(same) => same == line && after.phase == Phase::Closed,
                _ => false,
            }
        }),
{
}

/// A read takes the line that came first: with no output to send, a live session gives it,
/// and the others wait as before, in their order. Nothing is asked of the transport.
pub proof fn law_read_takes_the_first_line(session: Session, port: u16)
    requires
        session.phase == Phase::Live,
        session.out.len() == 0,
        !session.out_dropped,
        session.lines.len() > 0,
        session.lines[0] != "exit"@,
    ensures
        ({
            let (after, answer) = read_begun(session, port);
            &&& answer == ReadAnswer::Line(Some(session.lines[0]))
            &&& after.lines.len() == session.lines.len() - 1
            &&& forall|i: int|
                0 <= i < after.lines.len() ==> #[trigger] after.lines[i] == session.lines[i + 1]
            &&& after.partial == session.partial && after.nvt == session.nvt && after.phase
                == session.phase && after.conn == session.conn
            &&& after.out.len() == 0 && !after.out_dropped
            &&& after.swallow_after_cr == session.swallow_after_cr
        }),
{
}

/// The lines that so many reads give in turn, as long as each gives one at once.
pub open spec fn lines_read(session: Session, port: u16, reads: nat) -> Seq<Seq<char>>
    decreases reads,
{
    if reads == 0 {
        Seq::empty()
    } else {
        match read_begun(session, port) {
            (after, ReadAnswer::Line(Some(line))) => seq![line] + lines_read(
                after,
                port,
                (reads - 1) as nat,
            ),
            _ => Seq::empty(),
        }
    }
}

/// Reads give the lines that wait, each once and in the order in which they came.
pub proof fn law_reads_give_every_line(session: Session, port: u16)
    requires
        session.phase == Phase::Live,
        session.out.len() == 0,
        !session.out_dropped,
        forall|i: int| 0 <= i < session.lines.len() ==> #[trigger] session.lines[i] != "exit"@,
    ensures
        lines_read(session, port, session.lines.len()) == session.lines,
    decreases session.lines.len(),
{
    if session.lines.len() > 0 {
        law_read_takes_the_first_line(session, port);
        let after = read_begun(session, port).0;
        assert forall|i: int| 0 <= i < after.lines.len() implies #[trigger] after.lines[i]
            != "exit"@ by {
            assert(after.lines[i] == session.lines[i + 1]);
        }
        law_reads_give_every_line(after, port);
        assert(seq![session.lines[0]] + after.lines =~= session.lines);
    }
}

/// Several lines that are typed at once are read one by one: what comes behind a line waits
/// for the next read.
pub proof fn law_pasted_lines_wait(session: Session, one: Seq<char>, other: Seq<char>, port: u16)
    requires
        session.nvt == Nvt::Data,
        session.phase == Phase::Live,
        session.partial.len() == 0,
        session.lines.len() == 0,
        session.out.len() == 0,
        !session.out_dropped,
        one.len() > 0,
        other.len() > 0,
        one != "exit"@,
        other != "exit"@,
        encode_utf8(one).len() < LINE_CAP,
        encode_utf8(other).len() < LINE_CAP,
        forall|i: int|
            0 <= i < encode_utf8(one).len() ==> is_ordinary(#[trigger] encode_utf8(one)[i]),
        forall|i: int|
            0 <= i < encode_utf8(other).len() ==> is_ordinary(#[trigger] encode_utf8(other)[i]),
    ensures
        ({
            let end = seq![CR, LF];
            let typed = encode_utf8(one) + end + (encode_utf8(other) + end);
            let (first, answer) = read_next(
                session,
                Standing::Receiving,
                Gotten::Received(typed),
            );
            let (second, later) = read_begun(first, port);
            &&& answer == ReadAnswer::Line(Some(one))
            &&& later == ReadAnswer::Line(Some(other))
            &&& second.lines.len() == 0
        }),
{
    let end = seq![CR, LF];
    let back = Session { conn: true, ..session };
    let (a, b) = (encode_utf8(one) + end, encode_utf8(other) + end);
    lemma_fed_in_turn(back, a, b);
    law_typed_line_arrives(back, one, end);
    let there = fed_all(back, a);
    law_typed_line_arrives(there, other, end);
    let both = fed_all(there, b);
    assert((a + b).len() > 0);
    assert(both.lines =~= seq![one, other]);
    law_read_takes_the_first_line(both, port);
    let first = reading(both).0;
    assert(first.lines[0] == both.lines[1]);
    law_read_takes_the_first_line(first, port);
}

/// Output goes out before anything is read: its first bytes are sent, at least one and no
/// more than a send takes, and the rest waits behind them. Lines that wait stay.
pub proof fn law_output_is_sent_first(session: Session, port: u16)
    requires
        session.phase == Phase::Live,
        session.conn,
        session.out.len() > 0,
    ensures
        ({
            let (after, answer) = read_begun(session, port);
            &&& answer matches ReadAnswer::Ask(Standing::Flushing(chunk), Wanted::Send(sent))
            &&& chunk == sent && 0 < sent.len() <= SEND_CHUNK
            &&& session.out == sent + after.out
            &&& sent.len() < SEND_CHUNK ==> after.out.len() == 0
            &&& after.lines == session.lines && after.partial == session.partial
            &&& after.phase == Phase::Live && after.out_dropped == session.out_dropped
        }),
{
    let (rest, chunk) = chunked(session);
    assert(chunk + rest.out =~= session.out);
}

/// Once all output is out, a session from which some was dropped says so, once.
pub proof fn law_dropped_output_is_told(session: Session, port: u16)
    requires
        session.phase == Phase::Live,
        session.conn,
        session.out.len() == 0,
        session.out_dropped,
    ensures
        ({
            let (after, answer) = read_begun(session, port);
            let note = "\r\n[net.text: some output was dropped]\r\n".spec_bytes();
            &&& 0 < note.len() <= SEND_CHUNK ==> {
                &&& answer == ReadAnswer::Ask(Standing::Flushing(note), Wanted::Send(note))
                &&& after.out.len() == 0
                &&& !after.out_dropped
                &&& after.lines == session.lines
            }
        }),
{
    let note = dropped_marker();
    if note.len() <= SEND_CHUNK {
        assert(note.subrange(0, note.len() as int) =~= note);
    }
}

/// A session with nothing to send and no line asks for input; input is taken in and the read
/// goes on; a wait that expired asks again.
pub proof fn law_read_waits_for_input(session: Session, port: u16, shown: Seq<char>)
    requires
        session.phase == Phase::Live,
        session.conn,
        session.out.len() == 0,
        !session.out_dropped,
        session.lines.len() == 0,
    ensures
        ({
            let (waiting, answer) = read_begun(session, port);
            &&& answer == ReadAnswer::Ask(Standing::Receiving, Wanted::Recv)
            &&& !waiting.conn && waiting.phase == Phase::Live
            &&& read_next(
                waiting,
                Standing::Receiving,
                Gotten::Failed(L4Failure::TimedOut, shown),
            ) == (waiting, ReadAnswer::Ask(Standing::Receiving, Wanted::Recv))
        }),
{
    let waiting = read_begun(session, port).0;
    assert(waiting.out =~= session.out);
    let again = read_next(
        waiting,
        Standing::Receiving,
        Gotten::Failed(L4Failure::TimedOut, shown),
    ).0;
    assert(again.out =~= waiting.out);
    assert(again =~= waiting);
}

/// A session begins with a listener on its port and one connection; whoever connects is
/// greeted first, behind what was written before.
pub proof fn law_session_opens_with_greeting(session: Session, port: u16)
    requires
        session.phase == Phase::Idle,
        session.out.len() + greeting().len() <= OUT_CAP,
        greeting().len() > 0,
    ensures
        ({
            let hello =
                "eo9 net.text: cleartext telnet session - unauthenticated; trusted networks only\r\n".spec_bytes();
            let (one, listen) = read_begun(session, port);
            let (two, accept) = read_next(one, Standing::Listening, Gotten::Done);
            let (three, send) = read_next(two, Standing::Accepting, Gotten::Done);
            &&& listen == ReadAnswer::Ask(Standing::Listening, Wanted::Listen(port))
            &&& accept == ReadAnswer::Ask(Standing::Accepting, Wanted::Accept)
            &&& one == session && two == session
            &&& three.phase == Phase::Live && three.lines == session.lines
            &&& send matches ReadAnswer::Ask(_, Wanted::Send(sent))
            &&& 0 < sent.len() <= SEND_CHUNK
            &&& sent + three.out == session.out + hello
        }),
{
    let there = queued(Session { phase: Phase::Live, conn: true, ..session }, greeting());
    assert(there.out =~= session.out + greeting());
    law_output_is_sent_first(there, port);
}

/// A peer that hangs up ends the input: a line that it had begun is the last one, and the
/// session is over once what waits was sent. A connection that is gone ends it at once.
pub proof fn law_hang_up_ends_the_input(session: Session, shown: Seq<char>, failure: L4Failure)
    requires
        session.out.len() == 0,
        !session.out_dropped,
        session.lines.len() == 0,
    ensures
        ({
            let (after, answer) = read_next(
                session,
                Standing::Receiving,
                Gotten::Received(Seq::empty()),
            );
            let (gone, end) = read_next(
                session,
                Standing::Receiving,
                Gotten::Failed(failure, shown),
            );
            let (lost, stop) = read_next(
                session,
                Standing::Flushing(Seq::empty()),
                Gotten::Failed(failure, shown),
            );
            &&& after.phase == Phase::Closed && !after.conn && after.lines.len() == 0
            &&& answer == ReadAnswer::Ask(
                Standing::Pumping(
                    if session.partial.len() == 0 {
                        None
                    } else {
                        Some(line_text(session.partial))
                    },
                ),
                Wanted::DropAndPump,
            )
            &&& failure is ConnectionReset || failure is NotConnected ==> {
                &&& end == ReadAnswer::Line(None) && stop == ReadAnswer::Line(None)
                &&& gone.phase == Phase::Closed && lost.phase == Phase::Closed
            }
            &&& !(failure is ConnectionReset || failure is NotConnected || failure is TimedOut)
                ==> {
                &&& end == ReadAnswer::Failed(
                    TextFailure::Io("net.text: "@ + "recv"@ + ": "@ + shown),
                )
                &&& gone == (Session { conn: true, ..session })
            }
        }),
{
    let back = Session { conn: true, ..session };
    let ended = line_ended(back);
    assert(ended.lines =~= seq![line_text(session.partial)]);
    assert(ended.lines.subrange(1, 1).len() == 0);
}

/// Leaving sends the goodbye, drops the connection and ends the input: after `exit` the read
/// gives no line, and no later one does.
pub proof fn law_exit_says_goodbye(session: Session, port: u16)
    requires
        session.phase == Phase::Live,
        session.conn,
        session.out.len() == 0,
        !session.out_dropped,
        session.lines.len() > 0,
        session.lines[0] == "exit"@,
        0 < goodbye().len() <= SEND_CHUNK,
    ensures
        ({
            let bye = "eo9 net.text: session closed\r\n".spec_bytes();
            let (one, send) = read_begun(session, port);
            let (two, drop) = read_next(
                one,
                Standing::Leaving(bye, None),
                Gotten::Sent(bye.len() as u64),
            );
            let (three, end) = read_next(two, Standing::Pumping(None), Gotten::Done);
            &&& send == ReadAnswer::Ask(Standing::Leaving(bye, None), Wanted::Send(bye))
            &&& drop == ReadAnswer::Ask(Standing::Pumping(None), Wanted::DropAndPump)
            &&& end == ReadAnswer::Line(None)
            &&& three.phase == Phase::Closed
            &&& read_begun(three, port).1 == ReadAnswer::Line(None)
        }),
{
    let bye = goodbye();
    let left = Session {
        lines: session.lines.subrange(1, session.lines.len() as int),
        ..session
    };
    let there = queued(left, bye);
    assert(there.out =~= bye);
    assert(bye.subrange(0, bye.len() as int) =~= bye);
    assert(chunked(session).0 =~= session);
}

/// What is written joins the output as far as there is room, behind what waits, and nothing
/// else changes.
pub proof fn law_written_joins_the_output(session: Session, bytes: Seq<u8>)
    requires
        session.out.len() <= OUT_CAP,
    ensures
        ({
            let after = queued(session, bytes);
            let joined = after.out.len() - session.out.len();
            &&& 0 <= joined <= bytes.len()
            &&& joined < bytes.len() ==> after.out.len() == OUT_CAP
            &&& forall|i: int| 0 <= i < session.out.len() ==> #[trigger] after.out[i]
                == session.out[i]
            &&& forall|i: int|
                0 <= i < joined ==> after.out[session.out.len() + i] == #[trigger] bytes[i]
            &&& after.out_dropped == (session.out_dropped || joined < bytes.len())
            &&& after.lines == session.lines && after.partial == session.partial
            &&& after.phase == session.phase && after.conn == session.conn && after.nvt
                == session.nvt
        }),
{
}

/// Text goes out as it is, but for the line ends: each line feed goes out as a carriage
/// return and a line feed.
pub proof fn law_only_line_ends_change(before: Seq<u8>, after: Seq<u8>)
    ensures
        (forall|i: int| 0 <= i < before.len() ==> #[trigger] before[i] != LF) ==> encoded(before)
            == before,
        encoded(before + seq![LF] + after) == encoded(before) + seq![CR, LF] + encoded(after),
        encoded(before + after) == encoded(before) + encoded(after),
    decreases before.len() + after.len(),
{
    if forall|i: int| 0 <= i < before.len() ==> #[trigger] before[i] != LF {
        lemma_encoded_plain(before);
    }
    lemma_encoded_concat(before, after);
    lemma_encoded_concat(before + seq![LF], after);
    assert((before + seq![LF]).drop_last() =~= before);
    assert(encoded(before + seq![LF]) =~= encoded(before) + seq![CR, LF]);
}

proof fn lemma_encoded_plain(bytes: Seq<u8>)
    requires
        forall|i: int| 0 <= i < bytes.len() ==> #[trigger] bytes[i] != LF,
    ensures
        encoded(bytes) == bytes,
    decreases bytes.len(),
{
    if bytes.len() > 0 {
        lemma_encoded_plain(bytes.drop_last());
        assert(bytes[bytes.len() - 1] != LF);
        assert(bytes =~= bytes.drop_last().push(bytes.last()));
    } else {
        assert(encoded(bytes) =~= bytes);
    }
}

proof fn lemma_encoded_concat(before: Seq<u8>, after: Seq<u8>)
    ensures
        encoded(before + after) == encoded(before) + encoded(after),
    decreases after.len(),
{
    if after.len() == 0 {
        assert(before + after =~= before);
        assert(encoded(before) + encoded(after) =~= encoded(before));
    } else {
        lemma_encoded_concat(before, after.drop_last());
        assert((before + after).drop_last() =~= before + after.drop_last());
        assert(encoded(before + after) =~= encoded(before) + encoded(after));
    }
}

/// Commands are not part of a line: a doubled escape is one byte of it, a subnegotiation is
/// passed over, and so is any other command.
pub proof fn law_commands_are_no_text(session: Session, inside: Seq<u8>, command: u8)
    requires
        session.nvt == Nvt::Data,
        session.partial.len() + 1 < LINE_CAP,
        forall|i: int| 0 <= i < inside.len() ==> #[trigger] inside[i] != IAC,
    ensures
        ({
            let literal = fed_all(session, seq![IAC, IAC]);
            let passed = fed_all(session, seq![IAC, SB] + inside + seq![IAC, SE]);
            let other = fed_all(session, seq![IAC, command]);
            &&& literal.partial == session.partial.push(255) && literal.lines == session.lines
            &&& literal.nvt == Nvt::Data && literal.out == session.out
            &&& passed == session
            &&& !(command == WILL || command == WONT || command == DO || command == DONT
                || command == SB || command == IAC) ==> other == session
        }),
{
    reveal_with_fuel(fed_all, 3);
    assert(seq![IAC, IAC].drop_last() =~= seq![IAC]);
    assert(seq![IAC, command].drop_last() =~= seq![IAC]);
    assert(seq![IAC].drop_last() =~= Seq::<u8>::empty());
    let begun = seq![IAC, SB] + inside;
    lemma_fed_in_turn(session, begun, seq![IAC, SE]);
    lemma_fed_in_turn(session, seq![IAC, SB], inside);
    assert(seq![IAC, SB].drop_last() =~= seq![IAC]);
    assert(seq![IAC, SE].drop_last() =~= seq![IAC]);
    let within = fed_all(session, seq![IAC, SB]);
    assert(within == (Session { nvt: Nvt::Sub, ..session }));
    lemma_fed_inside(within, inside);
    assert(fed_all(within, seq![IAC, SE]) =~= session);
}

proof fn lemma_fed_inside(session: Session, bytes: Seq<u8>)
    requires
        session.nvt == Nvt::Sub,
        forall|i: int| 0 <= i < bytes.len() ==> #[trigger] bytes[i] != IAC,
    ensures
        fed_all(session, bytes) == session,
    decreases bytes.len(),
{
    if bytes.len() > 0 {
        lemma_fed_inside(session, bytes.drop_last());
        assert(bytes[bytes.len() - 1] != IAC);
    }
}

/// An ordinary byte joins the incomplete line; the one that fills it up ends it, with all
/// its bytes, and the next begins another.
pub proof fn law_long_lines_are_split(session: Session, byte: u8)
    requires
        session.nvt == Nvt::Data,
        session.partial.len() < LINE_CAP,
        is_ordinary(byte),
    ensures
        ({
            let after = fed(session, byte);
            &&& session.partial.len() + 1 < 4096 ==> after.partial == session.partial.push(byte)
                && after.lines == session.lines
            &&& session.partial.len() + 1 == 4096 ==> after.partial.len() == 0 && after.lines
                == session.lines.push(line_text(session.partial.push(byte)))
            &&& after.out == session.out
        }),
{
}

/// What a value is over contents is of the same kind as the value itself: no two kinds are
/// taken for one another.
pub proof fn law_contents_keep_their_kind(
    text_error: TextError,
    want: Want,
    got: Got,
    stage: Stage,
    read_step: ReadStep,
)
    ensures
        text_error is Closed <==> text_error@ is Closed,
        text_error is Io <==> text_error@ is Io,
        want is Listen <==> want@ is Listen,
        want is Accept <==> want@ is Accept,
        want is Send <==> want@ is Send,
        want is Recv <==> want@ is Recv,
        want is DropAndPump <==> want@ is DropAndPump,
        got is Done <==> got@ is Done,
        got is Sent <==> got@ is Sent,
        got is Received <==> got@ is Received,
        got is Failed <==> got@ is Failed,
        stage is Listening <==> stage@ is Listening,
        stage is Accepting <==> stage@ is Accepting,
        stage is Flushing <==> stage@ is Flushing,
        stage is Receiving <==> stage@ is Receiving,
        stage is Leaving <==> stage@ is Leaving,
        stage is Pumping <==> stage@ is Pumping,
        read_step is Ask <==> read_step@ is Ask,
        read_step is Line <==> read_step@ is Line,
        read_step is Failed <==> read_step@ is Failed,
{
}

/// A fresh session has nobody to talk to: its first read listens at the port, and nothing
/// waits in it in either direction.
pub proof fn law_fresh_session_listens(port: u16)
    ensures
        read_begun(fresh(), port) == (
            fresh(),
            ReadAnswer::Ask(Standing::Listening, Wanted::Listen(port)),
        ),
        !fresh().conn && fresh().out.len() == 0 && !fresh().out_dropped,
        fresh().lines.len() == 0 && fresh().partial.len() == 0,
        fresh().nvt == Nvt::Data && !fresh().swallow_after_cr,
{
}

} // verus!
