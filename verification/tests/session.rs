//! The text session: lines in, text out, and the connection below it.
use eo9_stubs::l4::L4Error;
use eo9_stubs::net_text::{
    configure, port, with_state, Got, NetText, Phase, ReadStep, Stage, TextError, Want,
};

const GREETING: &str =
    "eo9 net.text: cleartext telnet session - unauthenticated; trusted networks only\r\n";

/// A peer that types what it is told to and keeps what it is shown.
struct Peer {
    typed: Vec<Vec<u8>>,
    shown: Vec<u8>,
    gone: bool,
    pumped: bool,
    wanted: Vec<String>,
}

impl Peer {
    fn new(typed: &[&[u8]]) -> Peer {
        Peer {
            typed: typed.iter().rev().map(|bytes| bytes.to_vec()).collect(),
            shown: Vec::new(),
            gone: false,
            pumped: false,
            wanted: Vec::new(),
        }
    }

    fn answer(&mut self, want: Want) -> Got {
        self.wanted.push(format!("{want:?}").split(['(', ' ']).next().unwrap().to_string());
        match want {
            Want::Listen(_) | Want::Accept => Got::Done,
            Want::Send(bytes) => {
                assert!(bytes.len() <= 4096);
                self.shown.extend(&bytes);
                Got::Sent(bytes.len() as u64)
            }
            Want::Recv => match self.typed.pop() {
                Some(bytes) => Got::Received(bytes),
                None if self.gone => Got::Failed(L4Error::ConnectionReset, "reset".to_string()),
                None => Got::Received(Vec::new()),
            },
            Want::DropAndPump => {
                self.pumped = true;
                Got::Done
            }
        }
    }

    fn read(&mut self, session: &mut NetText) -> Result<Option<String>, TextError> {
        let mut step = session.read_line(23);
        for _ in 0..1000 {
            match step {
                ReadStep::Ask(stage, want) => {
                    let got = self.answer(want);
                    step = session.read_next(stage, got);
                }
                ReadStep::Line(line) => return Ok(line),
                ReadStep::Failed(error) => return Err(error),
            }
        }
        panic!("the read did not end");
    }

    fn line(&mut self, session: &mut NetText) -> String {
        self.read(session).unwrap().unwrap()
    }
}

fn fed(bytes: &[u8]) -> NetText {
    let mut session = NetText::new();
    session.feed_all(bytes);
    session
}

fn lines(session: &NetText) -> Vec<&str> {
    session.lines.iter().map(|line| line.as_str()).collect()
}

#[test]
fn session_greets_and_reads_lines() {
    let mut session = NetText::new();
    let mut peer = Peer::new(&[b"hel", b"lo\r\nwor", b"ld\r\n"]);
    assert_eq!(peer.line(&mut session), "hello");
    assert_eq!(peer.shown, GREETING.as_bytes());
    assert_eq!(peer.wanted, ["Listen", "Accept", "Send", "Recv", "Recv"]);
    session.write("shown\n").unwrap();
    assert_eq!(peer.line(&mut session), "world");
    assert_eq!(peer.shown[GREETING.len()..], *b"shown\r\n");
    // The peer hangs up: the farewell goes out, and that is the end.
    assert_eq!(peer.read(&mut session).unwrap(), None);
    assert!(peer.pumped);
    assert_eq!(session.phase, Phase::Closed);
    assert!(matches!(session.write("late"), Err(TextError::Closed)));
    assert_eq!(peer.read(&mut session).unwrap(), None);
}

#[test]
fn exit_closes_behind_itself() {
    let mut session = NetText::new();
    let mut peer = Peer::new(&[b"exit\r\nmore\r\n"]);
    assert_eq!(peer.read(&mut session).unwrap(), None);
    assert!(peer.pumped);
    let expected = format!("{GREETING}eo9 net.text: session closed\r\n");
    assert_eq!(String::from_utf8(peer.shown.clone()).unwrap(), expected);
    assert_eq!(peer.read(&mut session).unwrap(), None);
}

#[test]
fn only_the_bare_word_exits() {
    for typed in [" exit\r\n".as_bytes(), b"exit \r\n", b"Exit\r\n", b"exits\r\n"] {
        let mut session = NetText::new();
        let mut peer = Peer::new(&[typed]);
        peer.line(&mut session);
        assert_eq!(session.phase, Phase::Live);
    }
}

#[test]
fn lost_peer_ends_the_input() {
    let mut session = NetText::new();
    let mut peer = Peer::new(&[b"half"]);
    peer.gone = true;
    assert_eq!(peer.read(&mut session).unwrap(), None);
    assert_eq!(session.phase, Phase::Closed);
    // A peer that hangs up in the middle of a line leaves that line behind.
    let mut session = NetText::new();
    let mut peer = Peer::new(&[b"half"]);
    assert_eq!(peer.line(&mut session), "half");
    assert_eq!(session.phase, Phase::Closed);
}

#[test]
fn line_endings_agree() {
    assert_eq!(lines(&fed(b"a\r\nb\rc\nd\r\0e")), ["a", "b", "c", "d"]);
    assert_eq!(lines(&fed(b"\r\n\n")), ["", ""]);
}

#[test]
fn negotiation_is_refused() {
    let session = fed(&[255, 251, 1, 255, 253, 3, 255, 252, 1, 255, 254, 3, b'x', 10]);
    assert_eq!(session.out, [255, 254, 1, 255, 252, 3]);
    assert_eq!(lines(&session), ["x"]);
    let session = fed(&[255, 250, 24, 1, 255, 255, 240, 255, 240, b'y', 10]);
    assert_eq!(lines(&session), ["y"]);
    // A doubled escape is the byte itself, which is no text.
    assert_eq!(lines(&fed(&[b'a', 255, 255, b'b', 10])), ["a\u{fffd}b"]);
}

#[test]
fn bad_text_is_replaced() {
    assert_eq!(lines(&fed(b"\xc3\xa4\n\xc3(\n")), ["\u{e4}", "\u{fffd}("]);
}

#[test]
fn long_lines_are_split() {
    let session = fed(&vec![b'z'; 5000]);
    assert_eq!(session.lines.len(), 1);
    assert_eq!(session.lines[0].len(), 4096);
    assert_eq!(session.partial.len(), 5000 - 4096);
}

#[test]
fn lost_output_is_admitted() {
    let mut session = NetText::new();
    session.write(&"x".repeat(70_000)).unwrap();
    assert_eq!(session.out.len(), 65_536);
    assert!(session.out_dropped);
    let mut peer = Peer::new(&[b"\r\n"]);
    peer.line(&mut session);
    let shown = String::from_utf8(peer.shown.clone()).unwrap();
    assert!(shown.ends_with("x\r\n[net.text: some output was dropped]\r\n"));
    assert!(!session.out_dropped);
}

#[test]
fn unsent_output_goes_first() {
    let mut session = NetText::new();
    session.phase = Phase::Live;
    session.conn = true;
    session.write("abcdef").unwrap();
    let ReadStep::Ask(stage, Want::Send(chunk)) = session.read_line(23) else {
        panic!("nothing to send")
    };
    assert_eq!(chunk, b"abcdef");
    session.write("ghi").unwrap();
    let ReadStep::Ask(_, Want::Send(chunk)) = session.read_next(stage, Got::Sent(2)) else {
        panic!("nothing to send")
    };
    assert_eq!(chunk, b"cdefghi");
}

#[test]
fn failures_are_told() {
    let mut session = NetText::new();
    let step = session.read_next(
        Stage::Listening,
        Got::Failed(L4Error::AddressInUse, "AddressInUse".to_string()),
    );
    match step {
        ReadStep::Failed(TextError::Io(text)) => assert!(text.contains("AddressInUse")),
        other => panic!("unexpected {other:?}"),
    }
    let step = session.read_next(
        Stage::Accepting,
        Got::Failed(L4Error::TimedOut, "TimedOut".to_string()),
    );
    assert!(matches!(step, ReadStep::Ask(Stage::Accepting, Want::Accept)));
    assert_eq!(session.phase, Phase::Idle);
}

#[test]
fn port_is_configured() {
    assert_eq!(port(None), 23);
    let mut configured = None;
    assert_eq!(
        configure(&mut configured, 0).unwrap_err(),
        "net.text: port must be 1..=65535 (0 would bind an unpredictable ephemeral port)"
    );
    configure(&mut configured, 2323).unwrap();
    assert_eq!(port(configured), 2323);
    let mut state = None;
    with_state(&mut state).feed(b'a');
    assert_eq!(with_state(&mut state).partial, b"a");
}
