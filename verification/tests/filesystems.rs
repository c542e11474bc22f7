//! The filesystems on concrete values.
use eo9_stubs::disk::{ReadError, WriteError};
use eo9_stubs::fs::{canonical, normalize, segments, FsError, NodeKind, NodeStat, OpenFlags};
use eo9_stubs::fs_eofs::{
    self, Change, DeviceError, EngineCall, EngineError, EngineReply, EngineStat, ImageState,
    MountEvent, MountStep, Mounting, Mutation, MutationStep,
};
use eo9_stubs::fs_filtered::{gate, operation, prepare, FsOperation, PathCall, Verdict};
use eo9_stubs::fs_memfs::{read_at, with_state, Memfs};
use eo9_stubs::fs_overlay::{fall_through, merge, route, write_layer, Layer};
use eo9_stubs::fs_policy_subtree::{check, configure, under, SubtreeAccess};
use eo9_stubs::fs_readonly::{self, FsCall};

const READ: OpenFlags = OpenFlags { read: true, write: false, create: false, truncate: false };
const WRITE: OpenFlags = OpenFlags { read: true, write: true, create: true, truncate: false };

fn names(list: &[&str]) -> Vec<String> {
    list.iter().map(|name| name.to_string()).collect()
}

fn told(error: FsError) -> String {
    match error {
        FsError::Io(text) => text,
        other => format!("{other:?}"),
    }
}

#[test]
fn paths_are_resolved() {
    let text = |path: &str| -> Vec<String> {
        segments(path).iter().map(|name| name.iter().collect()).collect()
    };
    assert_eq!(text("/a//b/./c"), names(&["a", "b", "c"]));
    assert_eq!(text("a/../../b"), names(&["b"]));
    assert_eq!(text("/.."), names(&[]));
    assert_eq!(canonical("a//b/"), "/a/b");
    assert_eq!(canonical("/"), "");
    assert_eq!(canonical("../x/.../y"), "/x/.../y");
}

#[test]
fn normal_forms_are_stable() {
    assert_eq!(normalize("docs//./a/../b"), Some("/docs/b".to_string()));
    assert_eq!(normalize("/docs/b"), Some("/docs/b".to_string()));
    assert_eq!(normalize(""), Some("/".to_string()));
    assert_eq!(normalize("/"), Some("/".to_string()));
    assert_eq!(normalize("/a/../.."), None);
    assert_eq!(normalize("/../a"), None);
}

#[test]
fn memory_files_read_what_was_written() {
    let mut state = None;
    let fs = with_state(&mut state);
    let file = fs.open("/notes", WRITE).unwrap();
    assert_eq!(fs.write(&file, 3, &b"abc".to_vec()).unwrap(), 3);
    assert_eq!(fs.read(&file, 0, 100), b"\0\0\0abc");
    assert_eq!(fs.read(&file, 4, 1), b"b");
    assert_eq!(fs.read(&file, 6, 1), b"");
    assert_eq!(fs.read(&file, u64::MAX, 1), b"");
    assert_eq!(fs.stat("notes").unwrap(), NodeStat { kind: NodeKind::File, size: 6 });
    assert_eq!(fs.write(&file, 8, &Vec::new()).unwrap(), 0);
    assert_eq!(fs.stat("notes").unwrap().size, 8);
    let again = fs.open("/notes", OpenFlags { truncate: true, ..READ }).unwrap();
    assert_eq!(fs.read(&file, 0, 100), b"");
    assert_eq!(
        told(fs.write(&again, 0, &vec![1]).unwrap_err()),
        "file is not open for writing"
    );
    assert!(matches!(fs.write(&file, u64::MAX, &vec![1]), Err(FsError::NoSpace)));
}

#[test]
fn memory_directories_are_listed_in_order() {
    let mut fs = Memfs::empty();
    fs.create_directory("/b").unwrap();
    fs.create_directory("/b/z").unwrap();
    fs.open("/b/a", WRITE).unwrap();
    fs.open("/b/ab", WRITE).unwrap();
    fs.open("/b/Z", WRITE).unwrap();
    fs.open("/c", WRITE).unwrap();
    assert_eq!(fs.list_directory("/b").unwrap(), names(&["Z", "a", "ab", "z"]));
    assert_eq!(fs.list_directory("/").unwrap(), names(&["b", "c"]));
    assert!(matches!(fs.list_directory("/c"), Err(FsError::NotADirectory)));
    assert!(matches!(fs.list_directory("/x"), Err(FsError::NotFound)));
}

#[test]
fn memory_names_are_checked() {
    let mut fs = Memfs::empty();
    assert!(matches!(fs.open("/x", READ), Err(FsError::NotFound)));
    assert!(matches!(fs.open("/x/y", WRITE), Err(FsError::NotFound)));
    fs.open("/x", WRITE).unwrap();
    assert!(matches!(fs.open("/x/y", WRITE), Err(FsError::NotADirectory)));
    assert!(matches!(fs.create_directory("/x"), Err(FsError::AlreadyExists)));
    fs.create_directory("/d").unwrap();
    assert!(matches!(fs.open("/d", WRITE), Err(FsError::IsADirectory)));
    assert!(matches!(fs.open("/", WRITE), Err(FsError::IsADirectory)));
    assert!(matches!(fs.create_directory("/"), Err(FsError::AlreadyExists)));
    assert_eq!(told(fs.remove("/..").unwrap_err()), "cannot remove the root directory");
    fs.open("/d/f", WRITE).unwrap();
    assert_eq!(told(fs.remove("/d").unwrap_err()), "directory is not empty");
    fs.remove("/d/f").unwrap();
    fs.remove("/d").unwrap();
    assert!(matches!(fs.stat("/d"), Err(FsError::NotFound)));
    assert!(matches!(fs.remove("/d"), Err(FsError::NotFound)));
}

#[test]
fn open_file_outlives_its_name() {
    let mut fs = Memfs::empty();
    let file = fs.open("/f", WRITE).unwrap();
    fs.write(&file, 0, &b"one".to_vec()).unwrap();
    let program = fs.open_exec("/f").unwrap();
    fs.remove("/f").unwrap();
    fs.write(&file, 0, &b"two".to_vec()).unwrap();
    assert_eq!(fs.read(&file, 0, 3), b"two");
    let other = fs.open("/f", WRITE).unwrap();
    assert_eq!(fs.read(&other, 0, 3), b"");
    assert_eq!(read_at(&program, 1, 8), b"ne");
    assert!(matches!(fs.open_exec("/"), Err(FsError::IsADirectory)));
    fs.configure();
    assert!(matches!(fs.stat("/f"), Err(FsError::NotFound)));
    assert_eq!(fs.read(&file, 0, 3), b"two");
}

#[test]
fn overlay_reads_up_and_writes_down() {
    assert_eq!(route(PathCall::Open(READ)), Layer::Upper);
    assert_eq!(route(PathCall::Open(WRITE)), Layer::Lower);
    assert_eq!(route(PathCall::Stat), Layer::Upper);
    assert_eq!(route(PathCall::OpenExec), Layer::Upper);
    assert_eq!(route(PathCall::CreateDirectory), Layer::Lower);
    assert_eq!(route(PathCall::Remove), Layer::Lower);
    assert!(matches!(fall_through(Layer::Upper, FsError::NotFound), Ok(Layer::Lower)));
    assert!(matches!(fall_through(Layer::Upper, FsError::Denied), Err(FsError::Denied)));
    assert!(matches!(fall_through(Layer::Lower, FsError::NotFound), Err(FsError::NotFound)));
    assert!(matches!(write_layer(Layer::Lower), Ok(Layer::Lower)));
    assert!(matches!(write_layer(Layer::Upper), Err(FsError::ReadOnly)));
}

#[test]
fn overlay_lists_both() {
    let merged = merge(Ok(names(&["c", "a"])), Ok(names(&["a", "b", "b"])));
    assert_eq!(merged.unwrap(), names(&["c", "a", "b"]));
    assert_eq!(merge(Ok(names(&["c"])), Err(FsError::Denied)).unwrap(), names(&["c"]));
    assert_eq!(merge(Err(FsError::Denied), Ok(names(&["c"]))).unwrap(), names(&["c"]));
    assert!(matches!(
        merge(Err(FsError::NotFound), Err(FsError::Denied)),
        Err(FsError::NotFound)
    ));
}

#[test]
fn filter_forwards_the_judged_path() {
    let prepared = prepare("/docs/../docs/a").unwrap();
    assert_eq!(prepared, "/docs/a");
    assert_eq!(gate(prepared.clone(), FsOperation::Read, Verdict::Allow).unwrap(), "/docs/a");
    assert_eq!(gate(prepared.clone(), FsOperation::Read, Verdict::ReadOnly).unwrap(), "/docs/a");
    assert!(matches!(
        gate(prepared.clone(), FsOperation::Write, Verdict::ReadOnly),
        Err(FsError::ReadOnly)
    ));
    assert!(matches!(gate(prepared, FsOperation::Read, Verdict::Deny), Err(FsError::Denied)));
    assert!(matches!(prepare("/docs/../../etc/passwd"), Err(FsError::Denied)));
    assert_eq!(operation(PathCall::Open(READ)), FsOperation::Read);
    assert_eq!(operation(PathCall::Remove), FsOperation::Write);
}

#[test]
fn subtree_is_judged_by_names() {
    let rule = Some(configure("/docs/", SubtreeAccess::ReadOnly).unwrap());
    assert_eq!(check(&rule, "/docs", FsOperation::Read), Verdict::Allow);
    assert_eq!(check(&rule, "/docs/x", FsOperation::Write), Verdict::ReadOnly);
    assert_eq!(check(&rule, "/docsx", FsOperation::Read), Verdict::Deny);
    assert_eq!(check(&rule, "/docs/../etc", FsOperation::Read), Verdict::Deny);
    assert_eq!(check(&rule, "/../docs", FsOperation::Read), Verdict::Deny);
    assert_eq!(check(&None, "/docs", FsOperation::Read), Verdict::Deny);
    let all = Some(configure("/", SubtreeAccess::ReadWrite).unwrap());
    assert_eq!(check(&all, "/anything", FsOperation::Write), Verdict::Allow);
    assert_eq!(
        configure("..", SubtreeAccess::ReadOnly).unwrap_err(),
        "the subtree prefix escapes the root (too many `..` segments)"
    );
    assert!(under("/a/b", "/a") && under("/a", "/a") && !under("/ab", "/a") && under("/", "/"));
}

#[test]
fn readonly_refuses_changes() {
    for call in [
        FsCall::At(PathCall::Open(WRITE)),
        FsCall::At(PathCall::CreateDirectory),
        FsCall::At(PathCall::Remove),
        FsCall::Write,
    ] {
        assert!(matches!(fs_readonly::gate(call), Err(FsError::ReadOnly)), "{call:?}");
    }
    for call in [FsCall::At(PathCall::Open(READ)), FsCall::Read, FsCall::ExecRead] {
        assert_eq!(fs_readonly::gate(call).unwrap(), call);
    }
}

#[test]
fn engine_formats_only_blank_disks() {
    let mut mounting = Mounting::Size;
    assert!(matches!(mounting.step(MountEvent::Size(0)), MountStep::ReadByte));
    assert!(matches!(mounting.step(MountEvent::Awake), MountStep::Size));
    let mut empty = mounting;
    match empty.step(MountEvent::Size(0)) {
        MountStep::Fail(error) => assert_eq!(told(error), "the disk reports a size of 0 bytes"),
        other => panic!("unexpected {other:?}"),
    }
    assert!(matches!(mounting.step(MountEvent::Size(9)), MountStep::Probe));
    let mut other = mounting;
    assert!(matches!(other.step(MountEvent::Holds(ImageState::Blank)), MountStep::Format));
    let mut other = mounting;
    assert!(matches!(other.step(MountEvent::Holds(ImageState::Unmountable)), MountStep::Mount));
    let mut other = mounting;
    match other.step(MountEvent::Holds(ImageState::Foreign)) {
        MountStep::Fail(error) => {
            assert!(told(error).starts_with("the disk holds data that is not an eofs filesystem"))
        }
        step => panic!("unexpected {step:?}"),
    }
    let mut dead = Mounting::Wake;
    match dead.step(MountEvent::Dead("no function".to_string())) {
        MountStep::Fail(error) => assert_eq!(told(error), "device error: no function"),
        step => panic!("unexpected {step:?}"),
    }
    match mounting.step(MountEvent::Failed(EngineError::Corrupt("root".to_string()))) {
        MountStep::Fail(error) => assert_eq!(
            told(error),
            "integrity check failed: corrupt filesystem structure (root)"
        ),
        step => panic!("unexpected {step:?}"),
    }
}

fn calls(mutation: &mut Mutation, replies: Vec<EngineReply>) -> (Vec<EngineCall>, MutationStep) {
    let mut asked = vec![mutation.asked];
    let mut last = MutationStep::Done;
    for reply in replies {
        last = mutation.step(reply);
        if let MutationStep::Ask(call) = &last {
            asked.push(*call);
        }
    }
    (asked, last)
}

#[test]
fn engine_rewrite_is_one_transaction() {
    let mut rewrite = Mutation::new(Change::Write { truncating: true });
    let (asked, last) = calls(
        &mut rewrite,
        vec![
            EngineReply::Stat(NodeKind::File),
            EngineReply::Done,
            EngineReply::Done,
            EngineReply::Done,
            EngineReply::Done,
        ],
    );
    assert_eq!(
        asked,
        vec![
            EngineCall::Stat,
            EngineCall::Remove,
            EngineCall::CreateFile,
            EngineCall::Write,
            EngineCall::Commit,
        ]
    );
    assert!(matches!(last, MutationStep::Done));
}

#[test]
fn engine_reclaims_space_once() {
    let mut write = Mutation::new(Change::Write { truncating: false });
    let (asked, last) = calls(
        &mut write,
        vec![
            EngineReply::Failed(EngineError::NoSpace),
            EngineReply::Done,
            EngineReply::Failed(EngineError::NoSpace),
        ],
    );
    assert_eq!(asked, vec![EngineCall::Write, EngineCall::Collect, EngineCall::Write]);
    assert!(matches!(last, MutationStep::RollBack(FsError::NoSpace)));
    let mut collect = Mutation::new(Change::Remove);
    let (_, last) = calls(
        &mut collect,
        vec![
            EngineReply::Failed(EngineError::NoSpace),
            EngineReply::Failed(EngineError::ChecksumMismatch),
        ],
    );
    match last {
        MutationStep::RollBack(error) => {
            assert!(told(error).starts_with("integrity check failed: block checksum mismatch"))
        }
        other => panic!("unexpected {other:?}"),
    }
}

#[test]
fn engine_opens_without_touching_bytes() {
    let mut there = Mutation::new(Change::Open { create: true });
    assert!(matches!(there.step(EngineReply::Stat(NodeKind::File)), MutationStep::Done));
    let mut new = Mutation::new(Change::Open { create: true });
    let (asked, last) = calls(
        &mut new,
        vec![
            EngineReply::Failed(EngineError::NotFound),
            EngineReply::Done,
            EngineReply::Done,
        ],
    );
    assert_eq!(asked, vec![EngineCall::Stat, EngineCall::CreateFile, EngineCall::Commit]);
    assert!(matches!(last, MutationStep::Done));
    let mut missing = Mutation::new(Change::Open { create: false });
    assert!(matches!(
        missing.step(EngineReply::Failed(EngineError::NotFound)),
        MutationStep::RollBack(FsError::NotFound)
    ));
    let mut directory = Mutation::new(Change::Open { create: true });
    assert!(matches!(
        directory.step(EngineReply::Stat(NodeKind::Directory)),
        MutationStep::RollBack(FsError::IsADirectory)
    ));
}

#[test]
fn engine_truncates_with_the_first_write() {
    let stat = Some(EngineStat { kind: NodeKind::File, size: 3 });
    let flags = OpenFlags { truncate: true, ..WRITE };
    assert!(fs_eofs::truncation_due(flags, stat));
    assert!(!fs_eofs::truncation_due(WRITE, stat));
    assert!(!fs_eofs::truncation_due(flags, None));
    let path = fs_eofs::open_target("/a/b").unwrap();
    assert_eq!(path, "/a/b");
    let mut file = fs_eofs::OpenFile::new(path, flags, true);
    assert!(file.reads_nothing());
    assert_eq!(file.start_write().unwrap().asked, EngineCall::Stat);
    file.end_write(false);
    assert!(file.reads_nothing());
    file.end_write(true);
    assert!(!file.reads_nothing());
    assert_eq!(file.start_write().unwrap().asked, EngineCall::Write);
    let reader = fs_eofs::OpenFile::new("/a".to_string(), READ, false);
    assert_eq!(told(reader.start_write().unwrap_err()), "file is not open for writing");
}

#[test]
fn engine_targets_are_below_the_root() {
    assert!(matches!(fs_eofs::open_target("/"), Err(FsError::IsADirectory)));
    assert!(matches!(fs_eofs::directory_target("."), Err(FsError::AlreadyExists)));
    assert_eq!(
        told(fs_eofs::remove_target("..").unwrap_err()),
        "cannot remove the root directory"
    );
    assert_eq!(fs_eofs::remove_target("x/").unwrap(), "/x");
    let directory = EngineStat { kind: NodeKind::Directory, size: 77 };
    assert_eq!(
        fs_eofs::node_stat(directory),
        NodeStat { kind: NodeKind::Directory, size: 0 }
    );
    assert!(matches!(fs_eofs::exec_length(directory), Err(FsError::IsADirectory)));
    let file = EngineStat { kind: NodeKind::File, size: 77 };
    assert_eq!(fs_eofs::exec_length(file).unwrap(), 77);
    assert_eq!(fs_eofs::node_stat(file).size, 77);
}

#[test]
fn engine_hears_the_disk() {
    assert!(fs_eofs::read_outcome(Ok(8), 8).is_ok());
    match fs_eofs::read_outcome(Ok(7), 8) {
        Err(DeviceError::IoNamed(text)) => {
            assert_eq!(text, "short read from the device (7 of 8 bytes)")
        }
        other => panic!("unexpected {other:?}"),
    }
    assert!(matches!(
        fs_eofs::read_outcome(Err(ReadError::OutOfRange), 8),
        Err(DeviceError::OutOfRange)
    ));
    assert!(matches!(fs_eofs::read_outcome(Err(ReadError::NotFound), 8), Err(DeviceError::Io)));
    match fs_eofs::write_outcome(Ok(0), 4) {
        Err(DeviceError::IoNamed(text)) => {
            assert_eq!(text, "short write to the device (0 of 4 bytes)")
        }
        other => panic!("unexpected {other:?}"),
    }
    match fs_eofs::flush_outcome(Err(WriteError::ReadOnly)) {
        Err(DeviceError::IoNamed(text)) => assert_eq!(text, "the device is read-only"),
        other => panic!("unexpected {other:?}"),
    }
    assert!(told(fs_eofs::fs_busy()).starts_with("the filesystem is busy"));
    assert_eq!(
        told(fs_eofs::map_error(EngineError::DirectoryNotEmpty)),
        "directory is not empty"
    );
    assert_eq!(told(fs_eofs::map_error(EngineError::Other("odd".to_string()))), "odd");
}

#[test]
fn dead_disk_is_named() {
    match fs_eofs::device_error("no virtio-blk function is visible") {
        FsError::Io(text) => {
            assert_eq!(text, "device error: no virtio-blk function is visible")
        }
        other => panic!("unexpected {other:?}"),
    }
}
