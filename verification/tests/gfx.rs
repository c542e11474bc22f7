//! The displays: one in memory, and a virtio display against a device in memory.
use eo9_stubs::device::{Access, Buffer, Reply, Request, Window};
use eo9_stubs::gfx::{check_bounds, check_buffer, GfxError, ModeInfo, Rect};
use eo9_stubs::gfx_mem::{configure, make_framebuffer, with_framebuffer};
use eo9_stubs::gpu_virtio::{
    busy, display_geometry, peek_mode, Command, CommandStep, Display, Gpu, ScanEvent, ScanOut,
    ScanStep,
};
use eo9_stubs::slot::Slot;

fn rect(x: u32, y: u32, width: u32, height: u32) -> Rect {
    Rect { x, y, width, height }
}

fn pixels(count: u32) -> Vec<u8> {
    (0..count * 4).map(|i| (i % 256) as u8).collect()
}

#[test]
fn framebuffer_starts_black() {
    let mut state = None;
    let framebuffer = with_framebuffer(&mut state);
    assert_eq!(framebuffer.mode(), ModeInfo { width: 640, height: 480, stride: 640 * 4 });
    assert_eq!(framebuffer.read(&rect(639, 479, 1, 1), 4).unwrap(), vec![0; 4]);
}

#[test]
fn framebuffer_shows_what_was_presented() {
    let mut framebuffer = make_framebuffer(8, 4);
    framebuffer.present(&rect(2, 1, 3, 2), &pixels(6)).unwrap();
    assert_eq!(framebuffer.read(&rect(2, 1, 3, 2), 24).unwrap(), pixels(6));
    assert_eq!(framebuffer.read(&rect(1, 1, 1, 1), 4).unwrap(), vec![0; 4]);
    framebuffer.clear(&rect(3, 1, 1, 1), 0x00aa_bbcc).unwrap();
    assert_eq!(framebuffer.read(&rect(3, 1, 1, 1), 4).unwrap(), vec![0xcc, 0xbb, 0xaa, 0]);
}

#[test]
fn framebuffer_refuses_what_does_not_fit() {
    let mut framebuffer = make_framebuffer(8, 4);
    assert!(matches!(
        framebuffer.present(&rect(7, 0, 2, 1), &pixels(2)),
        Err(GfxError::OutOfBounds)
    ));
    match framebuffer.present(&rect(0, 0, 2, 2), &pixels(3)) {
        Err(GfxError::BadBuffer(text)) => assert_eq!(
            text,
            "the rectangle needs 16 bytes (2x2 xrgb8888), the buffer holds 12"
        ),
        other => panic!("unexpected {other:?}"),
    }
    assert!(check_bounds(8, 4, &rect(8, 4, 0, 0)).is_ok());
    assert!(check_bounds(8, 4, &rect(u32::MAX, 0, 1, 1)).is_err());
    assert_eq!(check_buffer(&rect(0, 0, 2, 2), 16).unwrap(), 16);
    match check_buffer(&rect(0, 0, 0x8000_0000, 0x8000_0000), 0) {
        Err(GfxError::BadBuffer(text)) => assert_eq!(
            text,
            "the rectangle needs 18446744073709551616 bytes (2147483648x2147483648 xrgb8888), \
             the buffer holds 0"
        ),
        other => panic!("unexpected {other:?}"),
    }
}

#[test]
fn framebuffer_geometry_is_bounded() {
    let mut state = None;
    assert_eq!(
        configure(&mut state, 0, 5),
        Err("framebuffer geometry must be 1..=4096 on each side, got 0x5".to_string())
    );
    assert_eq!(configure(&mut state, 4096, 1), Ok(()));
    assert_eq!(with_framebuffer(&mut state).mode().width, 4096);
}

/// A display device that completes every command with one response.
struct Device {
    rings: Vec<u8>,
    command: Vec<u8>,
    response: Vec<u8>,
    stuck: bool,
    lines: Vec<String>,
}

impl Device {
    fn new(response: Vec<u8>) -> Device {
        Device {
            rings: vec![0; 4096],
            command: vec![0; 4096],
            response,
            stuck: false,
            lines: Vec::new(),
        }
    }

    fn complete(&mut self) {
        let len = self.response.len();
        self.command[1024..1024 + len].copy_from_slice(&self.response);
        let used = u16::from_le_bytes([self.rings[514], self.rings[515]]).wrapping_add(1);
        self.rings[514..516].copy_from_slice(&used.to_le_bytes());
    }

    fn perform(&mut self, request: Request) -> Reply {
        for write in request.writes {
            let buffer = match write.buffer {
                Buffer::Rings => &mut self.rings,
                Buffer::Command => &mut self.command,
                other => panic!("unexpected buffer {other:?}"),
            };
            let at = write.offset as usize;
            buffer[at..at + write.bytes.len()].copy_from_slice(&write.bytes);
        }
        self.lines.extend(request.lines);
        match request.access {
            Access::Write { window: Window::Notify, .. } => {
                if !self.stuck {
                    self.complete();
                }
                Reply::Done
            }
            Access::Fetch { buffer, offset, len } => {
                let buffer = match buffer {
                    Buffer::Rings => &self.rings,
                    Buffer::Command => &self.command,
                    other => panic!("unexpected buffer {other:?}"),
                };
                Reply::Bytes(buffer[offset as usize..(offset + len) as usize].to_vec())
            }
            Access::Read { .. } => Reply::Value(0),
            _ => Reply::Done,
        }
    }

    fn run(
        &mut self,
        gpu: &mut Gpu,
        command_type: u32,
        payload: Vec<u8>,
        expected: u32,
    ) -> Result<Vec<u8>, String> {
        let (mut command, mut step) = Command::new(gpu, command_type, payload, expected);
        for _ in 0..100 {
            match step {
                CommandStep::Ask(request) => {
                    let reply = self.perform(request);
                    step = command.next(gpu, reply);
                }
                CommandStep::Complete(bytes) => return Ok(bytes),
                CommandStep::Failed(text) => return Err(text),
            }
        }
        panic!("the command did not end");
    }
}

fn gpu() -> Gpu {
    Gpu {
        notify_offset: 0x3000,
        queue_size: 16,
        avail_index: 0,
        used_index: 0,
        command_address: 0x20_0000,
        isr: false,
        interrupt: false,
        reported: false,
    }
}

fn response(code: u32, len: usize) -> Vec<u8> {
    let mut bytes = vec![0u8; len];
    bytes[..4].copy_from_slice(&code.to_le_bytes());
    bytes
}

#[test]
fn command_gets_its_response() {
    let mut device = Device::new(response(0x1100, 24));
    let mut gpu = gpu();
    let bytes = device.run(&mut gpu, 0x0104, vec![7; 24], 0x1100).unwrap();
    assert_eq!(bytes[..4], [0, 0x11, 0, 0]);
    assert_eq!(device.command[..4], [4, 1, 0, 0]);
    assert_eq!(device.command[24..48], [7; 24]);
    assert_eq!(gpu.avail_index, gpu.used_index);
}

#[test]
fn command_reports_an_unexpected_response() {
    let mut device = Device::new(response(0x1200, 24));
    assert_eq!(
        device.run(&mut gpu(), 0x0104, vec![0; 24], 0x1100),
        Err("gpu.virtio: command 0x0104 answered 0x1200 (expected 0x1100)".to_string())
    );
}

#[test]
fn cancelled_command_is_drained_first() {
    let mut device = Device::new(response(0x1100, 24));
    let mut gpu = gpu();
    device.stuck = true;
    let (_, step) = Command::new(&mut gpu, 0x0104, vec![1; 24], 0x1100);
    let CommandStep::Ask(request) = step else { panic!("nothing was asked") };
    device.perform(request);
    assert_ne!(gpu.avail_index, gpu.used_index);
    device.complete();
    device.stuck = false;
    assert!(device.run(&mut gpu, 0x0105, vec![2; 24], 0x1100).is_ok());
    assert_eq!(gpu.avail_index, 2);
    assert_eq!(gpu.used_index, 2);
    assert_eq!(device.command[24..48], [2; 24]);
}

#[test]
fn geometry_is_read_and_checked() {
    let mut info = vec![0u8; 24 + 24];
    info[32..36].copy_from_slice(&800u32.to_le_bytes());
    info[36..40].copy_from_slice(&600u32.to_le_bytes());
    info[40..44].copy_from_slice(&1u32.to_le_bytes());
    assert_eq!(display_geometry(&info), Ok((800, 600)));
    info[36..40].copy_from_slice(&[0; 4]);
    assert_eq!(
        display_geometry(&info),
        Err("gpu.virtio: the device reports no usable scanout-0 geometry (800x0, enabled 1)"
            .to_string())
    );
    info[36..40].copy_from_slice(&600u32.to_le_bytes());
    info[32..36].copy_from_slice(&4096u32.to_le_bytes());
    assert!(display_geometry(&info).unwrap_err().contains("4096x600 scanout needs 9830400 bytes"));
    assert_eq!(
        display_geometry(&info[..20]),
        Err("gpu.virtio: short GET_DISPLAY_INFO response from the device".to_string())
    );
}

#[test]
fn scan_out_goes_through_its_commands() {
    let (mut scan, order) = ScanOut::new();
    assert_eq!((order.command_type, order.expected), (0x0100, 0x1101));
    let mut info = vec![0u8; 24 + 24];
    info[32..36].copy_from_slice(&64u32.to_le_bytes());
    info[36..40].copy_from_slice(&32u32.to_le_bytes());
    info[40] = 1;
    assert!(matches!(scan.next(ScanEvent::Response(info)), ScanStep::Allocate(8192)));
    let mut types = Vec::new();
    let mut step = scan.next(ScanEvent::Allocated(0x8_0000));
    while let ScanStep::Issue(order) = step {
        assert_eq!(order.expected, 0x1100);
        types.push(order.command_type);
        step = scan.next(ScanEvent::Response(Vec::new()));
    }
    assert!(matches!(step, ScanStep::Complete));
    assert_eq!(types, vec![0x0101, 0x0106, 0x0103]);
}

#[test]
fn scan_out_reports_failures() {
    let (mut scan, _) = ScanOut::new();
    match scan.next(ScanEvent::Failed("gone".to_string())) {
        ScanStep::Failed(text) => assert_eq!(text, "gone"),
        other => panic!("unexpected {other:?}"),
    }
    let mut scan = ScanOut { width: 8, height: 8, ..scan };
    match scan.next(ScanEvent::Unallocated("Exhausted".to_string())) {
        ScanStep::Failed(text) => {
            assert_eq!(text, "gpu.virtio: alloc-dma (framebuffer): Exhausted")
        }
        other => panic!("unexpected {other:?}"),
    }
}

#[test]
fn display_draws_into_rows() {
    let display = Display { gpu: gpu(), width: 8, height: 4 };
    assert_eq!(display.banner(), "gpu.virtio: virtio-gpu 8x4 xrgb8888, queue size 16, completion: polled");
    let stores = display.present(&rect(1, 2, 2, 2), &pixels(4)).unwrap();
    let places: Vec<(u64, Vec<u8>)> = stores.into_iter().map(|s| (s.offset, s.bytes)).collect();
    assert_eq!(places, vec![(68, pixels(2)), (100, pixels(4)[8..].to_vec())]);
    assert_eq!(display.read(&rect(1, 2, 2, 2), 16).unwrap(), vec![(68, 8), (100, 8)]);
    assert!(matches!(display.clear(&rect(8, 0, 1, 1), 0), Err(GfxError::OutOfBounds)));
    let orders = display.flush_rect(&rect(1, 2, 2, 2));
    let types: Vec<u32> = orders.iter().map(|order| order.command_type).collect();
    assert_eq!(types, vec![0x0105, 0x0104]);
}

#[test]
fn display_mode_needs_a_resting_driver() {
    let display = Display { gpu: gpu(), width: 8, height: 4 };
    let mut slot = Slot::Ready(display);
    assert_eq!(peek_mode(&slot).unwrap(), ModeInfo { width: 8, height: 4, stride: 32 });
    slot.take();
    match peek_mode(&slot) {
        Err(GfxError::Io(text)) => assert!(text.contains("busy"), "{text}"),
        other => panic!("unexpected {other:?}"),
    }
    match peek_mode(&Slot::Empty) {
        Err(GfxError::Io(text)) => assert!(text.contains("not brought up yet"), "{text}"),
        other => panic!("unexpected {other:?}"),
    }
    match busy() {
        GfxError::Io(text) => assert!(text.ends_with("issue gfx operations sequentially")),
        other => panic!("unexpected {other:?}"),
    }
}
