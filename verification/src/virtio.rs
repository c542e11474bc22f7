//! Discovery of a modern virtio function: choosing it on the bus, walking its
//! vendor-specific capabilities to the register windows, and the descriptor format of
//! its split queues.
use vstd::prelude::*;
use vstd::string::*;

use crate::bytes::{
    dword_le, law_le16_is_found, law_le32_is_found, law_le64_is_found, le16, le32, le64, push_le16,
    push_le32, push_le64, qword_le, word_le,
};
use crate::device::{labelled, pci_call, Access, Answer, Reply, Width, Window};

verus! {

/// The drivers that share this discovery.
#[derive(Clone, Copy, PartialEq, Eq, Structural, Debug)]
pub enum Kind {
    Disk,
    Gpu,
    Net,
}

/// The configuration-space offset of the capabilities pointer.
pub const CAP_POINTER: u32 = 0x34;

/// The id of a vendor-specific capability.
pub const CAP_ID_VENDOR: u32 = 9;

/// How many capabilities a walk visits at most.
pub const CAP_WALK_LIMIT: u32 = 48;

/// The capability types of the register windows.
pub const CAP_COMMON: u32 = 1;

pub const CAP_NOTIFY: u32 = 2;

pub const CAP_ISR: u32 = 3;

pub const CAP_DEVICE: u32 = 4;

/// The virtio vendor id.
pub const VENDOR: u16 = 0x1af4;

/// The name that a driver puts in front of its messages.
pub open spec fn name(kind: Kind) -> Seq<char> {
    match kind {
        Kind::Disk => "disk.virtio"@,
        Kind::Gpu => "gpu.virtio"@,
        Kind::Net => "net.virtio"@,
    }
}

/// The name that a driver puts in front of its messages.
pub fn driver_name(kind: Kind) -> (text: &'static str)
    ensures
        text@ == name(kind),
{
    match kind {
        Kind::Disk => "disk.virtio",
        Kind::Gpu => "gpu.virtio",
        Kind::Net => "net.virtio",
    }
}

/// A driver's name followed by `rest`.
pub fn said(kind: Kind, rest: &str) -> (text: String)
    ensures
        text@ == name(kind) + rest@,
{
    let mut text = String::from_str(driver_name(kind));
    text.append(rest);
    text
}

/// What a driver calls an access when it fails.
pub open spec fn purpose(access: Access) -> Seq<char> {
    match access {
        Access::Config { .. } => ": config read"@,
        Access::Read { window: Window::Device, .. } => ": device config read"@,
        Access::Read { .. } => ": common config read"@,
        Access::Write { window: Window::Notify, .. } => ": queue notify"@,
        Access::Write { .. } => ": common config write"@,
        Access::BusMaster => ": set-bus-master"@,
        Access::Allocate { .. } => ": alloc-dma (framebuffer)"@,
        _ => ": pci"@,
    }
}

/// The error of an access that failed.
pub open spec fn failure(kind: Kind, access: Access, error: Seq<char>) -> Seq<char> {
    labelled(name(kind) + purpose(access), error)
}

/// The error of an access that failed.
pub fn access_failure(kind: Kind, access: Access, error: String) -> (text: String)
    ensures
        text@ == failure(kind, access, error@),
{
    let purpose = match access {
        Access::Config { .. } => ": config read",
        Access::Read { window: Window::Device, .. } => ": device config read",
        Access::Read { .. } => ": common config read",
        Access::Write { window: Window::Notify, .. } => ": queue notify",
        Access::Write { .. } => ": common config write",
        Access::BusMaster => ": set-bus-master",
        Access::Allocate { .. } => ": alloc-dma (framebuffer)",
        _ => ": pci",
    };
    let what = said(kind, purpose);
    match pci_call::<()>(what.as_str(), Err(error)) {
        Ok(_) => what,
        Err(text) => text,
    }
}

/// A PCI function as enumeration reports it.
#[derive(Clone, Copy, PartialEq, Eq, Structural, Debug)]
pub struct Function {
    pub vendor_id: u16,
    pub device_id: u16,
}

/// Whether a function is the modern form of a driver's device.
pub open spec fn is_modern(kind: Kind, function: Function) -> bool {
    function.vendor_id == VENDOR && function.device_id == match kind {
        Kind::Disk => 0x1042u16,
        Kind::Gpu => 0x1050u16,
        Kind::Net => 0x1041u16,
    }
}

/// Whether a function is the transitional form of a driver's device.
pub open spec fn is_transitional(kind: Kind, function: Function) -> bool {
    function.vendor_id == VENDOR && match kind {
        Kind::Disk => function.device_id == 0x1001,
        Kind::Gpu => false,
        Kind::Net => function.device_id == 0x1000,
    }
}

/// Whether `at` is the first function on the bus with the property.
pub open spec fn is_first(functions: Seq<Function>, at: int, wanted: spec_fn(Function) -> bool) -> bool {
    &&& 0 <= at < functions.len()
    &&& wanted(functions[at])
    &&& forall|i: int| 0 <= i < at ==> !wanted(#[trigger] functions[i])
}

/// What a driver says when its device is not on the bus.
pub open spec fn absent(kind: Kind) -> Seq<char> {
    match kind {
        Kind::Disk => "disk.virtio: no virtio-blk function is visible through the granted pci capability (expected vendor 0x1af4, device 0x1042)"@,
        Kind::Gpu => "gpu.virtio: no virtio-gpu function is visible through the granted pci capability (expected vendor 0x1af4, device 0x1050) — attach one to this boot (`cargo xtask qemu <arch> pci gpu`, or QEMU `-device virtio-gpu-pci`), or check that an attenuator composed in front of this driver allows the display's address"@,
        Kind::Net => "net.virtio: no virtio-net function is visible through the granted pci capability (expected vendor 0x1af4, device 0x1041)"@,
    }
}

/// Choose the function that a driver claims: the first modern one, else the first
/// transitional one.
pub fn choose_function(kind: Kind, functions: &[Function]) -> (chosen: Result<usize, String>)
    ensures
        match chosen {
            Ok(at) => {
                ||| is_first(functions@, at as int, |f: Function| is_modern(kind, f))
                ||| {
                    &&& forall|i: int|
                        0 <= i < functions@.len() ==> !is_modern(kind, #[trigger] functions@[i])
                    &&& is_first(functions@, at as int, |f: Function| is_transitional(kind, f))
                }
            },
            Err(text) => {
                &&& text@ == absent(kind)
                &&& forall|i: int|
                    0 <= i < functions@.len() ==> !is_modern(kind, #[trigger] functions@[i])
                        && !is_transitional(kind, functions@[i])
            },
        },
{
    let modern: u16 = match kind {
        Kind::Disk => 0x1042,
        Kind::Gpu => 0x1050,
        Kind::Net => 0x1041,
    };
    let mut at: usize = 0;
    while at < functions.len()
        invariant
            at <= functions.len(),
            modern == match kind {
                Kind::Disk => 0x1042u16,
                Kind::Gpu => 0x1050u16,
                Kind::Net => 0x1041u16,
            },
            forall|i: int| 0 <= i < at ==> !is_modern(kind, #[trigger] functions@[i]),
        decreases functions.len() - at,
    {
        if functions[at].vendor_id == VENDOR && functions[at].device_id == modern {
            return Ok(at);
        }
        at = at + 1;
    }
    let mut at: usize = 0;
    while at < functions.len()
        invariant
            at <= functions.len(),
            forall|i: int|
                0 <= i < functions@.len() ==> !is_modern(kind, #[trigger] functions@[i]),
            forall|i: int| 0 <= i < at ==> !is_transitional(kind, #[trigger] functions@[i]),
        decreases functions.len() - at,
    {
        let transitional = match kind {
            Kind::Disk => functions[at].device_id == 0x1001,
            Kind::Gpu => false,
            Kind::Net => functions[at].device_id == 0x1000,
        };
        if functions[at].vendor_id == VENDOR && transitional {
            return Ok(at);
        }
        at = at + 1;
    }
    Err(
        match kind {
            Kind::Disk => String::from_str(
                "disk.virtio: no virtio-blk function is visible through the granted pci capability (expected vendor 0x1af4, device 0x1042)",
            ),
            Kind::Gpu => String::from_str(
                "gpu.virtio: no virtio-gpu function is visible through the granted pci capability (expected vendor 0x1af4, device 0x1050) — attach one to this boot (`cargo xtask qemu <arch> pci gpu`, or QEMU `-device virtio-gpu-pci`), or check that an attenuator composed in front of this driver allows the display's address",
            ),
            Kind::Net => String::from_str(
                "net.virtio: no virtio-net function is visible through the granted pci capability (expected vendor 0x1af4, device 0x1041)",
            ),
        },
    )
}

/// Where a register window lies: a BAR and an offset within it.
#[derive(Clone, Copy, PartialEq, Eq, Structural, Debug)]
pub struct Region {
    pub bar: u8,
    pub offset: u32,
}

/// The register windows of a function.
#[derive(Clone, Copy, PartialEq, Eq, Structural, Debug)]
pub struct Windows {
    pub common: Region,
    pub notify: Region,
    pub multiplier: u32,
    /// The device configuration; the display driver does not look for it.
    pub device: Option<Region>,
    /// The interrupt status; the disk driver does not look for it.
    pub isr: Option<Region>,
}

/// Whether a driver needs the device configuration.
pub open spec fn needs_device(kind: Kind) -> bool {
    kind != Kind::Gpu
}

/// Whether a driver looks for the interrupt status.
pub open spec fn seeks_isr(kind: Kind) -> bool {
    kind != Kind::Disk
}

/// One vendor capability: what it describes and where.
pub struct Capability {
    pub id: u32,
    pub next: u32,
    pub cfg_type: u32,
    pub region: Region,
    pub multiplier: u32,
}

/// The windows met so far on a walk.
#[derive(Clone, Copy, Debug)]
pub struct Found {
    pub common: Option<Region>,
    pub notify: Option<(Region, u32)>,
    pub device: Option<Region>,
    pub isr: Option<Region>,
}

/// No window met.
pub open spec fn nothing_found() -> Found {
    Found { common: None, notify: None, device: None, isr: None }
}

/// The windows after one more capability: the first of each type counts.
pub open spec fn noted(kind: Kind, found: Found, capability: Capability) -> Found {
    if capability.id != CAP_ID_VENDOR {
        found
    } else if capability.cfg_type == CAP_COMMON && found.common is None {
        Found { common: Some(capability.region), ..found }
    } else if capability.cfg_type == CAP_NOTIFY && found.notify is None {
        Found { notify: Some((capability.region, capability.multiplier)), ..found }
    } else if capability.cfg_type == CAP_ISR && found.isr is None && seeks_isr(kind) {
        Found { isr: Some(capability.region), ..found }
    } else if capability.cfg_type == CAP_DEVICE && found.device is None && needs_device(kind) {
        Found { device: Some(capability.region), ..found }
    } else {
        found
    }
}

/// The outcome of a walk that met `found`.
pub open spec fn concluded(kind: Kind, found: Found) -> Result<Windows, Seq<char>> {
    match (found.common, found.notify) {
        (None, _) => Err(name(kind) + ": the function has no virtio common-config capability"@),
        (_, None) => Err(name(kind) + ": the function has no virtio notify capability"@),
        (Some(common), Some((notify, multiplier))) => if needs_device(kind) && found.device is None {
            Err(name(kind) + ": the function has no virtio device-config capability"@)
        } else {
            Ok(Windows { common, notify, multiplier, device: found.device, isr: found.isr })
        },
    }
}

/// Where a walk stands.
#[derive(Clone, Copy, PartialEq, Eq, Structural, Debug)]
pub enum WalkPhase {
    /// Reading the capabilities pointer.
    Head,
    /// Reading the id of the capability at the pointer.
    Id,
    /// Reading where the next capability lies.
    Next { id: u32 },
    /// Reading the type of a vendor capability.
    Type { next: u32 },
    /// Reading the BAR of a window.
    Bar { next: u32, cfg_type: u32 },
    /// Reading the offset of a window.
    Offset { next: u32, cfg_type: u32, bar: u8 },
    /// Reading the notify multiplier.
    Multiplier { next: u32, region: Region },
}

/// A walk over the capabilities of a function.
#[derive(Clone, Copy, Debug)]
pub struct Walk {
    pub kind: Kind,
    pub phase: WalkPhase,
    pub pointer: u32,
    pub steps: u32,
    pub found: Found,
}

/// What a walk does next.
#[derive(Debug)]
pub enum WalkStep {
    /// Perform this access and hand back the reply.
    Ask(Access),
    /// The walk is over.
    Finished(Result<Windows, String>),
}

/// What a walk does next, over contents.
pub enum WalkAnswer {
    Ask(Access),
    Finished(Result<Windows, Seq<char>>),
}

impl View for WalkStep {
    type V = WalkAnswer;

    open spec fn view(&self) -> WalkAnswer {
        match self {
            WalkStep::Ask(access) => WalkAnswer::Ask(*access),
            WalkStep::Finished(Ok(windows)) => WalkAnswer::Finished(Ok(*windows)),
            WalkStep::Finished(Err(text)) => WalkAnswer::Finished(Err(text@)),
        }
    }
}

/// The pointer that a pointer register holds: its low two bits are reserved.
pub open spec fn pointer_of(value: u32) -> u32 {
    value & 0xfc
}

/// The access that a walk waits for.
pub open spec fn walk_access(walk: Walk) -> Access {
    let at = walk.pointer;
    match walk.phase {
        WalkPhase::Head => Access::Config { address: CAP_POINTER, width: Width::Byte },
        WalkPhase::Id => Access::Config { address: at, width: Width::Byte },
        WalkPhase::Next { .. } => Access::Config { address: (at + 1) as u32, width: Width::Byte },
        WalkPhase::Type { .. } => Access::Config { address: (at + 3) as u32, width: Width::Byte },
        WalkPhase::Bar { .. } => Access::Config { address: (at + 4) as u32, width: Width::Byte },
        WalkPhase::Offset { .. } => Access::Config { address: (at + 8) as u32, width: Width::Dword },
        WalkPhase::Multiplier { .. } => Access::Config {
            address: (at + 16) as u32,
            width: Width::Dword,
        },
    }
}

/// The walk at the capability at `pointer`, or its end.
pub open spec fn visited(walk: Walk, pointer: u32) -> (Walk, WalkAnswer) {
    if pointer != 0 && walk.steps < CAP_WALK_LIMIT {
        let there = Walk {
            phase: WalkPhase::Id,
            pointer,
            steps: (walk.steps + 1) as u32,
            ..walk
        };
        (there, WalkAnswer::Ask(walk_access(there)))
    } else {
        (Walk { pointer, ..walk }, WalkAnswer::Finished(concluded(walk.kind, walk.found)))
    }
}

/// The walk in another phase.
pub open spec fn turned(walk: Walk, phase: WalkPhase) -> (Walk, WalkAnswer) {
    let there = Walk { phase, ..walk };
    (there, WalkAnswer::Ask(walk_access(there)))
}

/// The walk after it read `value`.
pub open spec fn walked(walk: Walk, value: u32) -> (Walk, WalkAnswer) {
    match walk.phase {
        WalkPhase::Head => visited(walk, pointer_of(value)),
        WalkPhase::Id => turned(walk, WalkPhase::Next { id: value }),
        WalkPhase::Next { id } => if id == CAP_ID_VENDOR {
            turned(walk, WalkPhase::Type { next: pointer_of(value) })
        } else {
            visited(walk, pointer_of(value))
        },
        WalkPhase::Type { next } => turned(walk, WalkPhase::Bar { next, cfg_type: value }),
        WalkPhase::Bar { next, cfg_type } => turned(
            walk,
            WalkPhase::Offset { next, cfg_type, bar: (value & 0xff) as u8 },
        ),
        WalkPhase::Offset { next, cfg_type, bar } => {
            let region = Region { bar, offset: value };
            if cfg_type == CAP_NOTIFY && walk.found.notify is None {
                turned(walk, WalkPhase::Multiplier { next, region })
            } else {
                let seen = Capability { id: CAP_ID_VENDOR, next, cfg_type, region, multiplier: 0 };
                visited(Walk { found: noted(walk.kind, walk.found, seen), ..walk }, next)
            }
        },
        WalkPhase::Multiplier { next, region } => visited(
            Walk { found: Found { notify: Some((region, value)), ..walk.found }, ..walk },
            next,
        ),
    }
}

/// The walk after a reply.
pub open spec fn walk_next(walk: Walk, answer: Answer) -> (Walk, WalkAnswer) {
    match answer {
        Answer::Value(value) => walked(walk, value),
        Answer::Failed(error) => (
            walk,
            WalkAnswer::Finished(Err(failure(walk.kind, walk_access(walk), error))),
        ),
        _ => (walk, WalkAnswer::Ask(walk_access(walk))),
    }
}

impl Walk {
    /// The pointers of a walk stay inside configuration space.
    pub open spec fn wf(self) -> bool {
        &&& self.pointer <= 0xfc
        &&& self.steps <= CAP_WALK_LIMIT
        &&& match self.phase {
            WalkPhase::Type { next } => next <= 0xfc,
            WalkPhase::Bar { next, .. } => next <= 0xfc,
            WalkPhase::Offset { next, .. } => next <= 0xfc,
            WalkPhase::Multiplier { next, .. } => next <= 0xfc,
            _ => true,
        }
    }

    /// A walk that has not begun.
    pub fn new(kind: Kind) -> (walk: Walk)
        ensures
            walk == (Walk {
                kind,
                phase: WalkPhase::Head,
                pointer: 0,
                steps: 0,
                found: nothing_found(),
            }),
            walk.wf(),
    {
        Walk {
            kind,
            phase: WalkPhase::Head,
            pointer: 0,
            steps: 0,
            found: Found { common: None, notify: None, device: None, isr: None },
        }
    }

    /// The access that the walk waits for.
    pub fn access(&self) -> (access: Access)
        requires
            self.wf(),
        ensures
            access == walk_access(*self),
    {
        let at: u32 = self.pointer;
        match self.phase {
            WalkPhase::Head => Access::Config { address: CAP_POINTER, width: Width::Byte },
            WalkPhase::Id => Access::Config { address: at, width: Width::Byte },
            WalkPhase::Next { .. } => Access::Config { address: at + 1, width: Width::Byte },
            WalkPhase::Type { .. } => Access::Config { address: at + 3, width: Width::Byte },
            WalkPhase::Bar { .. } => Access::Config { address: at + 4, width: Width::Byte },
            WalkPhase::Offset { .. } => Access::Config { address: at + 8, width: Width::Dword },
            WalkPhase::Multiplier { .. } => Access::Config { address: at + 16, width: Width::Dword },
        }
    }

    fn conclude(&self) -> (result: Result<Windows, String>)
        ensures
            match result {
                Ok(windows) => concluded(self.kind, self.found) == Ok::<Windows, Seq<char>>(
                    windows,
                ),
                Err(text) => concluded(self.kind, self.found) == Err::<Windows, Seq<char>>(text@),
            },
    {
        let common = match self.found.common {
            Some(common) => common,
            None => return Err(
                said(self.kind, ": the function has no virtio common-config capability"),
            ),
        };
        let (notify, multiplier) = match self.found.notify {
            Some((notify, multiplier)) => (notify, multiplier),
            None => return Err(said(self.kind, ": the function has no virtio notify capability")),
        };
        if self.kind != Kind::Gpu && self.found.device.is_none() {
            return Err(said(self.kind, ": the function has no virtio device-config capability"));
        }
        Ok(
            Windows {
                common,
                notify,
                multiplier,
                device: self.found.device,
                isr: self.found.isr,
            },
        )
    }

    fn visit(&mut self, pointer: u32) -> (step: WalkStep)
        requires
            old(self).wf(),
            pointer <= 0xfc,
        ensures
            (*final(self), step@) == visited(*old(self), pointer),
            final(self).wf(),
    {
        self.pointer = pointer;
        if pointer != 0 && self.steps < CAP_WALK_LIMIT {
            self.steps = self.steps + 1;
            self.phase = WalkPhase::Id;
            WalkStep::Ask(self.access())
        } else {
            WalkStep::Finished(self.conclude())
        }
    }

    fn turn(&mut self, phase: WalkPhase) -> (step: WalkStep)
        requires
            (Walk { phase, ..*old(self) }).wf(),
        ensures
            (*final(self), step@) == turned(*old(self), phase),
            final(self).wf(),
    {
        self.phase = phase;
        WalkStep::Ask(self.access())
    }

    /// Take the reply to the pending access and say what comes next.
    pub fn next(&mut self, reply: Reply) -> (step: WalkStep)
        requires
            old(self).wf(),
        ensures
            (*final(self), step@) == walk_next(*old(self), reply@),
            final(self).wf(),
    {
        let value: u32 = match reply {
            Reply::Value(value) => value,
            Reply::Failed(error) => {
                return WalkStep::Finished(Err(access_failure(self.kind, self.access(), error)));
            },
            _ => return WalkStep::Ask(self.access()),
        };
        assert(value & 0xfc <= 0xfc) by (bit_vector);
        assert(value & 0xff <= 0xff) by (bit_vector);
        match self.phase {
            WalkPhase::Head => self.visit(value & 0xfc),
            WalkPhase::Id => self.turn(WalkPhase::Next { id: value }),
            WalkPhase::Next { id } => if id == CAP_ID_VENDOR {
                self.turn(WalkPhase::Type { next: value & 0xfc })
            } else {
                self.visit(value & 0xfc)
            },
            WalkPhase::Type { next } => self.turn(WalkPhase::Bar { next, cfg_type: value }),
            WalkPhase::Bar { next, cfg_type } => self.turn(
                WalkPhase::Offset { next, cfg_type, bar: (value & 0xff) as u8 },
            ),
            WalkPhase::Offset { next, cfg_type, bar } => {
                let region = Region { bar, offset: value };
                if cfg_type == CAP_NOTIFY && self.found.notify.is_none() {
                    return self.turn(WalkPhase::Multiplier { next, region });
                }
                if cfg_type == CAP_COMMON && self.found.common.is_none() {
                    self.found.common = Some(region);
                } else if cfg_type == CAP_ISR && self.found.isr.is_none() && self.kind
                    != Kind::Disk {
                    self.found.isr = Some(region);
                } else if cfg_type == CAP_DEVICE && self.found.device.is_none() && self.kind
                    != Kind::Gpu {
                    self.found.device = Some(region);
                }
                self.visit(next)
            },
            WalkPhase::Multiplier { next, region } => {
                self.found.notify = Some((region, value));
                self.visit(next)
            },
        }
    }
}

/// What reads of configuration space give.
pub type ConfigSpace = spec_fn(Access) -> u32;

/// A byte of configuration space.
pub open spec fn config_byte(config: ConfigSpace, address: int) -> u32 {
    config(Access::Config { address: address as u32, width: Width::Byte })
}

/// A double word of configuration space.
pub open spec fn config_dword(config: ConfigSpace, address: int) -> u32 {
    config(Access::Config { address: address as u32, width: Width::Dword })
}

/// The capability that configuration space holds at `pointer`.
pub open spec fn capability_at(config: ConfigSpace, pointer: u32) -> Capability {
    Capability {
        id: config_byte(config, pointer as int),
        next: pointer_of(config_byte(config, pointer + 1)),
        cfg_type: config_byte(config, pointer + 3),
        region: Region {
            bar: (config_byte(config, pointer + 4) & 0xff) as u8,
            offset: config_dword(config, pointer + 8),
        },
        multiplier: config_dword(config, pointer + 16),
    }
}

/// The windows that the capability list from `pointer` on describes, over at most
/// `limit` capabilities.
pub open spec fn described(
    kind: Kind,
    config: ConfigSpace,
    pointer: u32,
    limit: nat,
    found: Found,
) -> Found
    decreases limit,
{
    if pointer == 0 || limit == 0 {
        found
    } else {
        let capability = capability_at(config, pointer);
        described(
            kind,
            config,
            capability.next,
            (limit - 1) as nat,
            noted(kind, found, capability),
        )
    }
}

/// The outcome of a walk over a configuration space, within `fuel` more reads.
pub open spec fn driven(walk: Walk, config: ConfigSpace, fuel: nat) -> Option<
    Result<Windows, Seq<char>>,
>
    decreases fuel,
{
    let (there, step) = walk_next(walk, Answer::Value(config(walk_access(walk))));
    match step {
        WalkAnswer::Finished(result) => Some(result),
        WalkAnswer::Ask(_) => if fuel == 0 {
            None
        } else {
            driven(there, config, (fuel - 1) as nat)
        },
    }
}

proof fn lemma_driven_from(walk: Walk, config: ConfigSpace, fuel: nat)
    requires
        walk.wf(),
        walk.phase == WalkPhase::Id,
        walk.pointer != 0,
        1 <= walk.steps,
        fuel >= 6 * (CAP_WALK_LIMIT + 1 - walk.steps),
    ensures
        driven(walk, config, fuel) == Some(
            concluded(
                walk.kind,
                described(
                    walk.kind,
                    config,
                    walk.pointer,
                    (CAP_WALK_LIMIT + 1 - walk.steps) as nat,
                    walk.found,
                ),
            ),
        ),
    decreases CAP_WALK_LIMIT + 1 - walk.steps,
{
    reveal_with_fuel(driven, 7);
    let capability = capability_at(config, walk.pointer);
    let left = (CAP_WALK_LIMIT + 1 - walk.steps) as nat;
    let next = capability.next;
    assert(forall|value: u32| #[trigger] (value & 0xfc) <= 0xfc) by (bit_vector);
    let found = noted(walk.kind, walk.found, capability);
    let (there, step) = visited(Walk { found, ..walk }, next);
    assert(described(walk.kind, config, walk.pointer, left, walk.found) == described(
        walk.kind,
        config,
        next,
        (left - 1) as nat,
        found,
    ));
    if step is Ask {
        lemma_driven_from(there, config, (fuel - 6) as nat);
        lemma_driven_from(there, config, (fuel - 5) as nat);
        lemma_driven_from(there, config, (fuel - 2) as nat);
    } else {
        assert(described(walk.kind, config, next, (left - 1) as nat, found) == found);
    }
}

/// The walk finds what the capability list describes: the first window of each type
/// among the first [`CAP_WALK_LIMIT`] capabilities, whatever the list holds, and it ends.
pub proof fn law_walk_finds_described(kind: Kind, config: ConfigSpace, walk: Walk)
    requires
        walk == (Walk {
            kind,
            phase: WalkPhase::Head,
            pointer: 0,
            steps: 0,
            found: nothing_found(),
        }),
    ensures
        driven(walk, config, 289) == Some(
            concluded(
                kind,
                described(
                    kind,
                    config,
                    pointer_of(config_byte(config, CAP_POINTER as int)),
                    CAP_WALK_LIMIT as nat,
                    nothing_found(),
                ),
            ),
        ),
{
    let head = config_byte(config, CAP_POINTER as int);
    assert(head & 0xfc <= 0xfc) by (bit_vector);
    let (there, step) = visited(walk, pointer_of(head));
    if step is Ask {
        lemma_driven_from(there, config, 288);
    }
}

/// The BARs that windows lie in, each once, in the order of their first window.
pub open spec fn bars_of(windows: Windows) -> Seq<u8> {
    let first = seq![windows.common.bar];
    let second = with_bar(first, windows.notify.bar);
    let third = match windows.device {
        Some(region) => with_bar(second, region.bar),
        None => second,
    };
    match windows.isr {
        Some(region) => with_bar(third, region.bar),
        None => third,
    }
}

/// A list with a BAR added unless it is there.
pub open spec fn with_bar(bars: Seq<u8>, bar: u8) -> Seq<u8> {
    if bars.contains(bar) {
        bars
    } else {
        bars.push(bar)
    }
}

fn add_bar(bars: &mut Vec<u8>, bar: u8)
    ensures
        final(bars)@ == with_bar(old(bars)@, bar),
{
    let mut at: usize = 0;
    while at < bars.len()
        invariant
            at <= bars.len(),
            bars@ == old(bars)@,
            forall|i: int| 0 <= i < at ==> bars@[i] != bar,
        decreases bars.len() - at,
    {
        if bars[at] == bar {
            assert(bars@.contains(bar));
            return;
        }
        at = at + 1;
    }
    bars.push(bar);
}

/// The BARs to open: each that a window lies in, once.
pub fn bar_indices(windows: &Windows) -> (bars: Vec<u8>)
    ensures
        bars@ == bars_of(*windows),
{
    let mut bars: Vec<u8> = Vec::new();
    bars.push(windows.common.bar);
    assert(bars@ =~= seq![windows.common.bar]);
    add_bar(&mut bars, windows.notify.bar);
    match windows.device {
        Some(region) => add_bar(&mut bars, region.bar),
        None => {},
    }
    match windows.isr {
        Some(region) => add_bar(&mut bars, region.bar),
        None => {},
    }
    bars
}

/// The BAR and the offset within it of a register, where the window exists.
pub open spec fn located(windows: Windows, window: Window, register: u64) -> Option<(u8, int)> {
    match window {
        Window::Common => Some((windows.common.bar, windows.common.offset + register)),
        Window::Notify => Some((windows.notify.bar, register as int)),
        Window::Device => match windows.device {
            Some(region) => Some((region.bar, region.offset + register)),
            None => None,
        },
        Window::Isr => match windows.isr {
            Some(region) => Some((region.bar, region.offset + register)),
            None => None,
        },
        Window::Registers => None,
    }
}

/// The BAR and the offset within it of a register, where the window exists.
pub fn locate(windows: &Windows, window: Window, register: u64) -> (place: Option<(u8, u64)>)
    requires
        register <= u64::MAX - u32::MAX,
    ensures
        match place {
            Some((bar, offset)) => located(*windows, window, register) == Some(
                (bar, offset as int),
            ),
            None => located(*windows, window, register) is None,
        },
{
    match window {
        Window::Common => Some((windows.common.bar, windows.common.offset as u64 + register)),
        Window::Notify => Some((windows.notify.bar, register)),
        Window::Device => match windows.device {
            Some(region) => Some((region.bar, region.offset as u64 + register)),
            None => None,
        },
        Window::Isr => match windows.isr {
            Some(region) => Some((region.bar, region.offset as u64 + register)),
            None => None,
        },
        Window::Registers => None,
    }
}

/// Every window that exists lies in a BAR of the list, and the list names none twice.
pub proof fn law_bars_cover_windows(windows: Windows, window: Window, register: u64)
    ensures
        located(windows, window, register) matches Some((bar, _)) ==> bars_of(windows).contains(
            bar,
        ),
        bars_of(windows).no_duplicates(),
{
    let first = seq![windows.common.bar];
    assert(first[0] == windows.common.bar);
    let second = with_bar(first, windows.notify.bar);
    lemma_with_bar(first, windows.notify.bar);
    let third = match windows.device {
        Some(region) => with_bar(second, region.bar),
        None => second,
    };
    if let Some(region) = windows.device {
        lemma_with_bar(second, region.bar);
    }
    if let Some(region) = windows.isr {
        lemma_with_bar(third, region.bar);
    }
    assert(first.contains(windows.common.bar));
    assert(second.contains(windows.common.bar) && second.contains(windows.notify.bar));
    assert(third.contains(windows.common.bar) && third.contains(windows.notify.bar));
}

proof fn lemma_with_bar(bars: Seq<u8>, bar: u8)
    requires
        bars.no_duplicates(),
    ensures
        with_bar(bars, bar).contains(bar),
        forall|b: u8| bars.contains(b) ==> with_bar(bars, bar).contains(b),
        with_bar(bars, bar).no_duplicates(),
{
    if !bars.contains(bar) {
        assert(bars.push(bar)[bars.len() as int] == bar);
        assert forall|b: u8| bars.contains(b) implies bars.push(bar).contains(b) by {
            let at = choose|i: int| 0 <= i < bars.len() && bars[i] == b;
            assert(bars.push(bar)[at] == b);
        }
    }
}

/// The bytes of a split-queue descriptor.
pub open spec fn descriptor(address: u64, len: u32, flags: u16, next: u16) -> Seq<u8> {
    le64(address) + le32(len) + le16(flags) + le16(next)
}

/// The bytes of a split-queue descriptor.
pub fn write_descriptor(address: u64, len: u32, flags: u16, next: u16) -> (bytes: Vec<u8>)
    ensures
        bytes@ == descriptor(address, len, flags, next),
        bytes@.len() == 16,
{
    let mut bytes: Vec<u8> = Vec::new();
    push_le64(&mut bytes, address);
    push_le32(&mut bytes, len);
    push_le16(&mut bytes, flags);
    push_le16(&mut bytes, next);
    assert(bytes@ =~= descriptor(address, len, flags, next));
    bytes
}

/// The bytes of a word, least significant first.
pub fn word(value: u16) -> (bytes: Vec<u8>)
    ensures
        bytes@ == le16(value),
{
    let mut bytes: Vec<u8> = Vec::new();
    push_le16(&mut bytes, value);
    assert(bytes@ =~= le16(value));
    bytes
}

/// How much of a walk is left: the capabilities that it may still visit, and the reads of
/// the one it is at.
pub open spec fn walk_left(walk: Walk) -> int {
    8 * (CAP_WALK_LIMIT - walk.steps) + match walk.phase {
        WalkPhase::Head => 7,
        WalkPhase::Id => 6,
        WalkPhase::Next { .. } => 5,
        WalkPhase::Type { .. } => 4,
        WalkPhase::Bar { .. } => 3,
        WalkPhase::Offset { .. } => 2,
        WalkPhase::Multiplier { .. } => 1int,
    }
}

/// Every walk ends, even over a list of capabilities that goes round in a circle: each
/// step that reads on leaves less of it.
pub proof fn law_walk_ends(walk: Walk, answer: Answer)
    requires
        walk.wf(),
        answer is Value || answer is Failed,
    ensures
        walk_next(walk, answer).1 is Ask ==> 0 <= walk_left(walk_next(walk, answer).0)
            < walk_left(walk),
{
}

/// A descriptor tells the device its address, its length, its flags and its successor.
pub proof fn law_descriptor_is_read_back(address: u64, len: u32, flags: u16, next: u16)
    ensures
        ({
            let bytes = descriptor(address, len, flags, next);
            &&& bytes.len() == 16
            &&& qword_le(bytes, 0) == address
            &&& dword_le(bytes, 8) == len
            &&& word_le(bytes, 12) == flags
            &&& word_le(bytes, 14) == next
        }),
{
    let bytes = descriptor(address, len, flags, next);
    assert(bytes.subrange(0, 8) =~= le64(address));
    assert(bytes.subrange(8, 12) =~= le32(len));
    assert(bytes.subrange(12, 14) =~= le16(flags));
    assert(bytes.subrange(14, 16) =~= le16(next));
    law_le64_is_found(bytes, 0, address);
    law_le32_is_found(bytes, 8, len);
    law_le16_is_found(bytes, 12, flags);
    law_le16_is_found(bytes, 14, next);
}

/// Each driver claims its own device and no other's, in the modern form before the
/// transitional one.
pub proof fn law_drivers_claim_their_own(kind: Kind, other: Kind, function: Function)
    ensures
        is_modern(kind, function) || is_transitional(kind, function) ==> function.vendor_id
            == 0x1af4,
        (is_modern(kind, function) || is_transitional(kind, function)) && (is_modern(other, function)
            || is_transitional(other, function)) ==> kind == other,
        is_modern(Kind::Disk, Function { vendor_id: 0x1af4, device_id: 0x1042 }),
        is_modern(Kind::Gpu, Function { vendor_id: 0x1af4, device_id: 0x1050 }),
        is_modern(Kind::Net, Function { vendor_id: 0x1af4, device_id: 0x1041 }),
        is_transitional(Kind::Disk, Function { vendor_id: 0x1af4, device_id: 0x1001 }),
        is_transitional(Kind::Net, Function { vendor_id: 0x1af4, device_id: 0x1000 }),
{
}

/// A capability tells of its own window, where none of that type was met before; nothing that
/// was met is lost or replaced, and what is not a vendor's capability tells of nothing.
pub proof fn law_first_window_of_each_type(kind: Kind, found: Found, capability: Capability)
    ensures
        ({
            let after = noted(kind, found, capability);
            let vendor = capability.id == 9;
            let region = capability.region;
            &&& found.common is Some ==> after.common == found.common
            &&& found.notify is Some ==> after.notify == found.notify
            &&& found.device is Some ==> after.device == found.device
            &&& found.isr is Some ==> after.isr == found.isr
            &&& found.common is None ==> after.common == if vendor && capability.cfg_type == 1 {
                Some(region)
            } else {
                None
            }
            &&& found.notify is None ==> after.notify == if vendor && capability.cfg_type == 2 {
                Some((region, capability.multiplier))
            } else {
                None
            }
            &&& found.isr is None ==> after.isr == if vendor && capability.cfg_type == 3 && kind
                != Kind::Disk {
                Some(region)
            } else {
                None
            }
            &&& found.device is None ==> after.device == if vendor && capability.cfg_type == 4
                && kind != Kind::Gpu {
                Some(region)
            } else {
                None
            }
        }),
{
}

/// A walk succeeds exactly where it met every window that the driver needs, and gives those
/// that it met.
pub proof fn law_walk_gives_what_it_met(kind: Kind, found: Found)
    ensures
        match concluded(kind, found) {
            Ok(windows) => {
                &&& found.common == Some(windows.common)
                &&& found.notify == Some((windows.notify, windows.multiplier))
                &&& windows.device == found.device && windows.isr == found.isr
                &&& kind != Kind::Gpu ==> windows.device is Some
            },
            Err(_) => found.common is None || found.notify is None || kind != Kind::Gpu
                && found.device is None,
        },
{
}

/// A register lies in the BAR of its window, at the offset of the window and behind it; the
/// registers of the doorbells are offsets within their BAR already.
pub proof fn law_registers_lie_in_their_window(windows: Windows, register: u64, region: Region)
    ensures
        located(windows, Window::Common, register) == Some(
            (windows.common.bar, windows.common.offset + register),
        ),
        located(windows, Window::Notify, register) == Some((windows.notify.bar, register as int)),
        windows.device == Some(region) ==> located(windows, Window::Device, register) == Some(
            (region.bar, region.offset + register),
        ),
        windows.isr == Some(region) ==> located(windows, Window::Isr, register) == Some(
            (region.bar, region.offset + register),
        ),
        windows.isr is None ==> located(windows, Window::Isr, register) is None,
        windows.device is None ==> located(windows, Window::Device, register) is None,
{
}

/// The first function with a property is found wherever one has it, and no other counts.
pub proof fn law_first_function_is_found(
    functions: Seq<Function>,
    wanted: spec_fn(Function) -> bool,
    there: int,
    other: int,
) -> (first: int)
    requires
        0 <= there < functions.len(),
        wanted(functions[there]),
    ensures
        0 <= first <= there,
        is_first(functions, first, wanted),
        is_first(functions, other, wanted) ==> other == first,
        is_first(functions, other, wanted) ==> 0 <= other < functions.len() && wanted(
            functions[other],
        ),
    decreases there,
{
    if exists|i: int| 0 <= i < there && wanted(#[trigger] functions[i]) {
        let earlier = choose|i: int| 0 <= i < there && wanted(#[trigger] functions[i]);
        law_first_function_is_found(functions, wanted, earlier, other)
    } else {
        there
    }
}

/// What a value is over contents is of the same kind as the value itself: no two kinds are
/// taken for one another.
pub proof fn law_contents_keep_their_kind(walk_step: WalkStep)
    ensures
        walk_step is Ask <==> walk_step@ is Ask,
        walk_step is Finished <==> walk_step@ is Finished,
{
}

} // verus!
