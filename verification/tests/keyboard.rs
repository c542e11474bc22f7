//! The keyboard program from the first question to the last answer.
use eo9_stubs::usb_kbd::{
    console_bytes, usb_failure, Ask, BootInterface, Codes, Configuration, Event, Kbd,
    ProgramFailure, SinkError, Step, Typed, UsbError,
};

const CODES: Codes = Codes { configuration: 2, keyboard: 1, ctrl: 0x11 };

fn key(usage: u8, bytes: &[u8]) -> Typed {
    Typed { usage, bytes: bytes.to_vec() }
}

fn asked(step: Step) -> Ask {
    match step {
        Step::Ask(ask) => ask,
        Step::Finished(result) => panic!("over too early: {result:?}"),
    }
}

fn failure(step: Step) -> ProgramFailure {
    match step {
        Step::Finished(Err(failure)) => failure,
        other => panic!("unexpected {other:?}"),
    }
}

fn boot(protocol: u8) -> BootInterface {
    BootInterface {
        protocol,
        interface_number: 3,
        endpoint_number: 1,
        max_packet_size: 8,
        interval: 10,
    }
}

/// The program with its device attached, about to ask for the head of its descriptor.
fn attached(window_ms: Option<u32>) -> Kbd {
    let mut kbd = Kbd::new(CODES, window_ms);
    assert!(matches!(asked(kbd.step(Event::Controller(2))), Ask::Clock));
    assert!(matches!(asked(kbd.step(Event::Time(0))), Ask::Port(1)));
    assert!(matches!(asked(kbd.step(Event::Port(false))), Ask::Port(2)));
    assert!(matches!(asked(kbd.step(Event::Port(true))), Ask::Attach(2)));
    assert!(matches!(
        asked(kbd.step(Event::Done)),
        Ask::ControlIn { request: 6, value: 0x0100, length: 18 }
    ));
    kbd
}

/// The program in its loop, about to read.
fn forwarding(window_ms: Option<u32>, event_driven: bool) -> Kbd {
    let mut kbd = attached(window_ms);
    assert!(matches!(
        asked(kbd.step(Event::Bytes(vec![18, 1, 0, 2, 0]))),
        Ask::ControlIn { request: 6, value: 0x0200, length: 9 }
    ));
    assert!(matches!(asked(kbd.step(Event::Bytes(vec![9]))), Ask::ParseConfiguration));
    let configuration = Configuration { total_length: 59, value: 1 };
    assert!(matches!(
        asked(kbd.step(Event::Configuration(configuration))),
        Ask::ControlIn { request: 6, value: 0x0200, length: 59 }
    ));
    assert!(matches!(asked(kbd.step(Event::Bytes(vec![9]))), Ask::FindBootInterface));
    assert!(matches!(
        asked(kbd.step(Event::Boot(boot(1)))),
        Ask::ControlOut { kind: 0, request: 9, value: 1, index: 0 }
    ));
    assert!(matches!(
        asked(kbd.step(Event::Done)),
        Ask::ControlOut { kind: 0x21, request: 0x0b, value: 0, index: 3 }
    ));
    assert!(matches!(
        asked(kbd.step(Event::Done)),
        Ask::ControlOut { kind: 0x21, request: 0x0a, value: 0, index: 3 }
    ));
    // A device that refuses to be idle is tolerated.
    assert!(matches!(
        asked(kbd.step(Event::Failed(UsbError::Other("Stalled".to_string())))),
        Ask::OpenInterrupt { number: 1, max_packet_size: 8, interval: 10 }
    ));
    match asked(kbd.step(Event::Opened(event_driven))) {
        Ask::Say(line) => assert!(line.starts_with("usb.kbd: forwarding")),
        other => panic!("unexpected {other:?}"),
    }
    assert!(matches!(asked(kbd.step(Event::Done)), Ask::Clock));
    let next = asked(kbd.step(Event::Time(100)));
    if window_ms.is_some() {
        assert!(matches!(next, Ask::Clock));
        assert!(matches!(asked(kbd.step(Event::Time(100))), Ask::Read));
    } else {
        assert!(matches!(next, Ask::Read));
    }
    kbd
}

#[test]
fn keys_reach_the_console() {
    let mut kbd = forwarding(None, true);
    assert!(matches!(asked(kbd.step(Event::Bytes(vec![0; 8]))), Ask::Decode));
    let report = Event::Report {
        modifiers: 0,
        rollover: false,
        typed: vec![key(4, b"a"), key(0x52, b"\x1b[A")],
    };
    match asked(kbd.step(report)) {
        Ask::Inject(bytes) => assert_eq!(bytes, b"a\x1b[A"),
        other => panic!("unexpected {other:?}"),
    }
    assert!(matches!(asked(kbd.step(Event::Accepted(9))), Ask::Remember));
    assert_eq!(kbd.forwarded, 4);
    assert!(matches!(asked(kbd.step(Event::Done)), Ask::Read));
}

#[test]
fn control_only_interrupts() {
    let typed = vec![key(4, b"a"), key(6, b"c"), key(6, b"c")];
    assert_eq!(console_bytes(true, &typed), vec![3, 3]);
    assert_eq!(console_bytes(false, &typed), b"acc".to_vec());
    let mut kbd = forwarding(None, true);
    kbd.step(Event::Bytes(vec![0; 8]));
    let report = Event::Report { modifiers: 0x10, rollover: false, typed: vec![key(4, b"a")] };
    assert!(matches!(asked(kbd.step(report)), Ask::Remember));
}

#[test]
fn bad_reports_are_skipped() {
    let mut kbd = forwarding(None, true);
    kbd.step(Event::Bytes(vec![0; 8]));
    assert!(matches!(asked(kbd.step(Event::Nothing)), Ask::Read));
    kbd.step(Event::Bytes(vec![0; 8]));
    let report = Event::Report { modifiers: 0, rollover: true, typed: vec![key(4, b"a")] };
    assert!(matches!(asked(kbd.step(report)), Ask::Read));
}

#[test]
fn empty_reads_are_paced_only_without_events() {
    let mut waits = forwarding(None, true);
    assert!(matches!(asked(waits.step(Event::Bytes(Vec::new()))), Ask::Read));
    let mut polls = forwarding(None, false);
    assert!(matches!(asked(polls.step(Event::Bytes(Vec::new()))), Ask::Sleep(2_000_000)));
    assert!(matches!(asked(polls.step(Event::Done)), Ask::Read));
}

#[test]
fn window_ends_the_program() {
    let mut kbd = forwarding(Some(3), true);
    assert!(matches!(asked(kbd.step(Event::Bytes(Vec::new()))), Ask::Clock));
    assert!(matches!(asked(kbd.step(Event::Time(3_000_100))), Ask::Read));
    assert!(matches!(asked(kbd.step(Event::Bytes(Vec::new()))), Ask::Clock));
    assert!(matches!(kbd.step(Event::Time(3_000_101)), Step::Finished(Ok(0))));
}

#[test]
fn hub_is_traversed() {
    let mut kbd = attached(None);
    assert!(matches!(asked(kbd.step(Event::Bytes(vec![18, 1, 0, 2, 9]))), Ask::AttachChild));
    let mut refused = kbd;
    let error = UsbError::Io { message: "no child".to_string(), shown: "Io(no child)".to_string() };
    match failure(refused.step(Event::Failed(error))) {
        ProgramFailure::NoKeyboard(said) => assert_eq!(said, "no child"),
        other => panic!("unexpected {other:?}"),
    }
    assert!(matches!(asked(kbd.step(Event::Done)), Ask::ControlIn { length: 9, .. }));
}

#[test]
fn watch_gives_up_in_time() {
    let mut kbd = Kbd::new(CODES, None);
    kbd.step(Event::Controller(1));
    kbd.step(Event::Time(1000));
    assert!(matches!(asked(kbd.step(Event::Port(false))), Ask::Clock));
    assert!(matches!(asked(kbd.step(Event::Time(2_500_001_000))), Ask::WatchPorts));
    assert!(matches!(asked(kbd.step(Event::Unsupported)), Ask::Sleep(50_000_000)));
    assert!(matches!(asked(kbd.step(Event::Done)), Ask::Port(1)));
    kbd.step(Event::Port(false));
    match failure(kbd.step(Event::Time(2_500_001_001))) {
        ProgramFailure::NoKeyboard(said) => {
            assert_eq!(said, "no device connected on any root-hub port")
        }
        other => panic!("unexpected {other:?}"),
    }
}

#[test]
fn missed_change_is_reported() {
    let mut kbd = Kbd::new(CODES, None);
    kbd.step(Event::Controller(1));
    kbd.step(Event::Time(0));
    kbd.step(Event::Port(false));
    kbd.step(Event::Time(1));
    assert!(matches!(asked(kbd.step(Event::RanOut)), Ask::Port(1)));
    match asked(kbd.step(Event::Port(true))) {
        Ask::Note(line) => assert!(line.starts_with("liveness: usb.kbd:")),
        other => panic!("unexpected {other:?}"),
    }
    assert!(matches!(asked(kbd.step(Event::Done)), Ask::Attach(1)));
}

#[test]
fn failures_say_why() {
    let mut kbd = attached(None);
    kbd.step(Event::Bytes(vec![18]));
    kbd.step(Event::Bytes(vec![9]));
    let mut unparsed = kbd;
    match failure(unparsed.step(Event::Nothing)) {
        ProgramFailure::Io(said) => assert_eq!(said, "the configuration descriptor did not parse"),
        other => panic!("unexpected {other:?}"),
    }
    kbd.step(Event::Configuration(Configuration { total_length: 59, value: 1 }));
    kbd.step(Event::Bytes(vec![9]));
    let mut none = kbd;
    match failure(none.step(Event::Nothing)) {
        ProgramFailure::NoKeyboard(said) => {
            assert_eq!(said, "the device has no boot-protocol HID interface")
        }
        other => panic!("unexpected {other:?}"),
    }
    match failure(kbd.step(Event::Boot(boot(2)))) {
        ProgramFailure::NoKeyboard(said) => {
            assert_eq!(said, "boot-protocol device found, but it is protocol 2 (not a keyboard)")
        }
        other => panic!("unexpected {other:?}"),
    }
    let mut lost = forwarding(None, true);
    match failure(lost.step(Event::Lost("Gone".to_string()))) {
        ProgramFailure::DeviceLost(said) => assert_eq!(said, "interrupt endpoint: Gone"),
        other => panic!("unexpected {other:?}"),
    }
    assert!(matches!(usb_failure(UsbError::Denied), ProgramFailure::Denied));
    assert!(matches!(usb_failure(UsbError::NoController), ProgramFailure::NoController));
}

#[test]
fn console_failures_end_the_program() {
    let mut kbd = forwarding(None, true);
    kbd.step(Event::Bytes(vec![0; 8]));
    kbd.step(Event::Report { modifiers: 0, rollover: false, typed: vec![key(4, b"a")] });
    let mut denied = kbd;
    assert!(matches!(
        failure(denied.step(Event::SinkFailed(SinkError::Denied))),
        ProgramFailure::Denied
    ));
    match failure(kbd.step(Event::SinkFailed(SinkError::Io("full".to_string())))) {
        ProgramFailure::Io(said) => assert_eq!(said, "full"),
        other => panic!("unexpected {other:?}"),
    }
}
