//! `fs.memfs`: a filesystem in memory.
//!
//! The nodes stand in a table from paths; the root stands for itself and is not in it.
//! The bytes of files stand beside the table, so that a file that is open outlives its
//! name.
use vstd::prelude::*;
use vstd::string::*;

use crate::bytes::slice_of;
use crate::fs::{
    all_plain, law_paths_are_plain, outcome, path_of, segments, FsError, FsFailure, NodeKind,
    NodeStat, OpenFlags, Path,
};
use crate::text::{assemble, contents, same_letters};

verus! {

/// What stands at a path: a file with the number of its bytes, or a directory.
#[derive(Clone, Copy, PartialEq, Eq, Structural, Debug)]
pub enum Node {
    File(usize),
    Directory,
}

/// A path with what stands there.
#[derive(Debug)]
pub struct Entry {
    pub path: Vec<Vec<char>>,
    pub node: Node,
}

/// A filesystem in memory.
#[derive(Debug)]
pub struct Memfs {
    pub entries: Vec<Entry>,
    pub data: Vec<Vec<u8>>,
}

/// A filesystem in memory, over contents.
#[verifier::ext_equal]
pub struct MemfsView {
    pub nodes: Map<Path, Node>,
    pub data: Seq<Seq<u8>>,
}

/// The path of an entry.
pub open spec fn path_at(entries: Seq<Entry>, i: int) -> Path {
    contents(entries[i].path@)
}

/// Whether an entry has a path.
pub open spec fn stands(entries: Seq<Entry>, path: Path) -> bool {
    exists|i: int| 0 <= i < entries.len() && #[trigger] path_at(entries, i) == path
}

/// The place of a path among the entries.
pub open spec fn place_of(entries: Seq<Entry>, path: Path) -> int {
    choose|i: int| 0 <= i < entries.len() && #[trigger] path_at(entries, i) == path
}

/// The table that entries make up.
pub open spec fn nodes_of(entries: Seq<Entry>) -> Map<Path, Node> {
    Map::new(
        |path: Path| stands(entries, path),
        |path: Path| entries[place_of(entries, path)].node,
    )
}

/// Whether no path occurs twice.
pub open spec fn distinct(entries: Seq<Entry>) -> bool {
    forall|i: int, j: int|
        0 <= i < entries.len() && 0 <= j < entries.len() && #[trigger] path_at(entries, i)
            == #[trigger] path_at(entries, j) ==> i == j
}

impl View for Memfs {
    type V = MemfsView;

    open spec fn view(&self) -> MemfsView {
        MemfsView {
            nodes: nodes_of(self.entries@),
            data: self.data@.map_values(|bytes: Vec<u8>| bytes@),
        }
    }
}

impl MemfsView {
    /// No node stands at the root, names are plain, every node stands in a directory, and
    /// every file has bytes of its own.
    pub open spec fn wf(self) -> bool {
        &&& forall|path: Path| #[trigger]
            self.nodes.contains_key(path) ==> path.len() > 0 && all_plain(path)
        &&& forall|path: Path| #[trigger]
            self.nodes.contains_key(path) && path.len() > 1 ==> self.nodes.contains_key(
                path.drop_last(),
            ) && self.nodes[path.drop_last()] == Node::Directory
        &&& forall|path: Path| #[trigger]
            self.nodes.contains_key(path) ==> (self.nodes[path] matches Node::File(data) ==> data
                < self.data.len())
        &&& forall|one: Path, other: Path|
            self.nodes.contains_key(one) && self.nodes.contains_key(other)
                && #[trigger] self.nodes[one] == #[trigger] self.nodes[other]
                && self.nodes[one] is File ==> one == other
    }
}

impl Memfs {
    /// No path stands twice, and what stands is well formed.
    pub open spec fn wf(self) -> bool {
        &&& distinct(self.entries@)
        &&& self@.wf()
    }
}

proof fn lemma_node_at(entries: Seq<Entry>, i: int)
    requires
        distinct(entries),
        0 <= i < entries.len(),
    ensures
        nodes_of(entries).contains_key(path_at(entries, i)),
        nodes_of(entries)[path_at(entries, i)] == entries[i].node,
{
    let path = path_at(entries, i);
    assert(stands(entries, path));
    let j = place_of(entries, path);
    assert(path_at(entries, j) == path);
}

proof fn lemma_pushed(entries: Seq<Entry>, entry: Entry)
    requires
        distinct(entries),
        !nodes_of(entries).contains_key(contents(entry.path@)),
    ensures
        distinct(entries.push(entry)),
        nodes_of(entries.push(entry)) == nodes_of(entries).insert(
            contents(entry.path@),
            entry.node,
        ),
{
    let more = entries.push(entry);
    let path = contents(entry.path@);
    assert(!stands(entries, path));
    assert forall|i: int| 0 <= i < entries.len() implies #[trigger] path_at(more, i) == path_at(
        entries,
        i,
    ) by {}
    assert(path_at(more, entries.len() as int) == path);
    assert forall|i: int, j: int|
        0 <= i < more.len() && 0 <= j < more.len() && #[trigger] path_at(more, i)
            == #[trigger] path_at(more, j) implies i == j by {
        if i < entries.len() && j < entries.len() {
            assert(path_at(entries, i) == path_at(entries, j));
        } else if i < entries.len() {
            assert(path_at(entries, i) == path);
        } else if j < entries.len() {
            assert(path_at(entries, j) == path);
        }
    }
    assert forall|p: Path| stands(more, p) == (stands(entries, p) || p == path) by {
        if stands(entries, p) {
            let i = place_of(entries, p);
            assert(path_at(more, i) == p);
        }
        if stands(more, p) && p != path {
            let i = place_of(more, p);
            assert(path_at(entries, i) == p);
        }
    }
    assert forall|p: Path| stands(more, p) implies nodes_of(more)[p] == nodes_of(entries).insert(
        path,
        entry.node,
    )[p] by {
        if p == path {
            lemma_node_at(more, entries.len() as int);
        } else {
            let i = place_of(entries, p);
            assert(path_at(entries, i) == p);
            lemma_node_at(entries, i);
            lemma_node_at(more, i);
        }
    }
    assert(nodes_of(more) =~= nodes_of(entries).insert(path, entry.node));
}

proof fn lemma_taken(entries: Seq<Entry>, at: int)
    requires
        distinct(entries),
        0 <= at < entries.len(),
    ensures
        distinct(entries.remove(at)),
        nodes_of(entries.remove(at)) == nodes_of(entries).remove(path_at(entries, at)),
{
    let fewer = entries.remove(at);
    let path = path_at(entries, at);
    assert forall|i: int| 0 <= i < fewer.len() implies #[trigger] path_at(fewer, i) == path_at(
        entries,
        if i < at {
            i
        } else {
            i + 1
        },
    ) by {}
    assert forall|i: int, j: int|
        0 <= i < fewer.len() && 0 <= j < fewer.len() && #[trigger] path_at(fewer, i)
            == #[trigger] path_at(fewer, j) implies i == j by {
        let a = if i < at {
            i
        } else {
            i + 1
        };
        let b = if j < at {
            j
        } else {
            j + 1
        };
        assert(path_at(entries, a) == path_at(entries, b));
    }
    assert forall|p: Path| stands(fewer, p) == (stands(entries, p) && p != path) by {
        if stands(fewer, p) {
            let i = place_of(fewer, p);
            let a = if i < at {
                i
            } else {
                i + 1
            };
            assert(path_at(fewer, i) == p);
            assert(path_at(entries, a) == p);
        }
        if stands(entries, p) && p != path {
            let a = place_of(entries, p);
            assert(path_at(entries, a) == p);
            let i = if a < at {
                a
            } else {
                a - 1
            };
            assert(path_at(fewer, i) == p);
        }
    }
    assert forall|p: Path| stands(fewer, p) implies nodes_of(fewer)[p] == nodes_of(entries)[p] by {
        let i = place_of(fewer, p);
        assert(path_at(fewer, i) == p);
        let a = if i < at {
            i
        } else {
            i + 1
        };
        assert(path_at(entries, a) == p);
        lemma_node_at(fewer, i);
        lemma_node_at(entries, a);
    }
    assert(nodes_of(fewer) =~= nodes_of(entries).remove(path));
}

fn same_path(one: &Vec<Vec<char>>, other: &Vec<Vec<char>>, count: usize) -> (same: bool)
    requires
        count <= other@.len(),
    ensures
        same == (contents(one@) == contents(other@).take(count as int)),
{
    if one.len() != count {
        assert(contents(one@).len() == one@.len());
        return false;
    }
    let mut at: usize = 0;
    while at < count
        invariant
            at <= count,
            one@.len() == count,
            count <= other@.len(),
            forall|i: int| 0 <= i < at ==> (#[trigger] one@[i])@ == other@[i]@,
        decreases count - at,
    {
        if !same_letters(one[at].as_slice(), other[at].as_slice()) {
            assert(contents(one@)[at as int] == one@[at as int]@);
            assert(contents(other@).take(count as int)[at as int] == other@[at as int]@);
            return false;
        }
        at += 1;
    }
    assert(contents(one@) =~= contents(other@).take(count as int));
    true
}

/// What is wrong with the way to a path along its first names: the first of them that is
/// not there, or is not a directory.
pub open spec fn way_failure(nodes: Map<Path, Node>, path: Path, count: int) -> Option<FsFailure>
    decreases count,
{
    if count <= 0 {
        None
    } else {
        match way_failure(nodes, path, count - 1) {
            Some(failure) => Some(failure),
            None => if !nodes.contains_key(path.take(count)) {
                Some(FsFailure::NotFound)
            } else if nodes[path.take(count)] is File {
                Some(FsFailure::NotADirectory)
            } else {
                None
            },
        }
    }
}

/// What stands at a path, if the way to it is there.
pub open spec fn looked_up(nodes: Map<Path, Node>, path: Path) -> Result<Option<Node>, FsFailure> {
    match way_failure(nodes, path, path.len() - 1) {
        Some(failure) => Err(failure),
        None => Ok(
            if nodes.contains_key(path) {
                Some(nodes[path])
            } else {
                None
            },
        ),
    }
}

impl Memfs {
    /// The place of a prefix of a path among the entries.
    fn find(&self, path: &Vec<Vec<char>>, count: usize) -> (place: Option<usize>)
        requires
            self.wf(),
            count <= path@.len(),
        ensures
            match place {
                Some(i) => i < self.entries@.len() && path_at(self.entries@, i as int) == contents(
                    path@,
                ).take(count as int) && self@.nodes.contains_key(contents(path@).take(count as int))
                    && self@.nodes[contents(path@).take(count as int)]
                    == self.entries@[i as int].node,
                None => !self@.nodes.contains_key(contents(path@).take(count as int)),
            },
    {
        let mut at: usize = 0;
        while at < self.entries.len()
            invariant
                at <= self.entries.len(),
                self.wf(),
                count <= path@.len(),
                forall|i: int|
                    0 <= i < at ==> #[trigger] path_at(self.entries@, i) != contents(path@).take(
                        count as int,
                    ),
            decreases self.entries.len() - at,
        {
            if same_path(&self.entries[at].path, path, count) {
                proof {
                    lemma_node_at(self.entries@, at as int);
                }
                return Some(at);
            }
            at += 1;
        }
        proof {
            let wanted = contents(path@).take(count as int);
            if stands(self.entries@, wanted) {
                let i = place_of(self.entries@, wanted);
                assert(path_at(self.entries@, i) == wanted);
            }
        }
        None
    }

    /// What stands at a path below the root.
    pub fn lookup(&self, path: &Vec<Vec<char>>) -> (result: Result<Option<Node>, FsError>)
        requires
            self.wf(),
            path@.len() > 0,
        ensures
            outcome(result) == looked_up(self@.nodes, contents(path@)),
    {
        let mut count: usize = 1;
        while count < path.len()
            invariant
                1 <= count <= path@.len(),
                self.wf(),
                way_failure(self@.nodes, contents(path@), count - 1) is None,
            decreases path.len() - count,
        {
            let ghost whole = contents(path@);
            match self.find(path, count) {
                Some(place) => {
                    if let Node::File(_) = self.entries[place].node {
                        proof {
                            lemma_way_stops(self@.nodes, whole, count as int, whole.len() - 1);
                        }
                        return Err(FsError::NotADirectory);
                    }
                },
                None => {
                    proof {
                        lemma_way_stops(self@.nodes, whole, count as int, whole.len() - 1);
                    }
                    return Err(FsError::NotFound);
                },
            }
            count += 1;
        }
        assert(contents(path@).take(path@.len() as int) =~= contents(path@));
        match self.find(path, path.len()) {
            Some(place) => Ok(Some(self.entries[place].node)),
            None => Ok(None),
        }
    }
}

proof fn lemma_way_stops(nodes: Map<Path, Node>, path: Path, at: int, count: int)
    requires
        0 < at <= count,
        way_failure(nodes, path, at) is Some,
    ensures
        way_failure(nodes, path, count) == way_failure(nodes, path, at),
    decreases count - at,
{
    if at < count {
        lemma_way_stops(nodes, path, at, count - 1);
    }
}

/// A file that is open.
#[derive(Clone, Copy, PartialEq, Eq, Structural, Debug)]
pub struct OpenFile {
    pub data: usize,
    pub writable: bool,
}

/// The filesystem with nothing in it.
pub open spec fn empty_fs() -> MemfsView {
    MemfsView { nodes: Map::empty(), data: Seq::empty() }
}

/// The filesystem of a provider, which starts empty.
pub fn with_state(state: &mut Option<Memfs>) -> (memfs: &mut Memfs)
    ensures
        *old(state) matches Some(before) ==> *memfs == before,
        *old(state) is None ==> memfs@ == empty_fs() && memfs.wf(),
        *final(state) == Some(*final(memfs)),
{
    if state.is_none() {
        *state = Some(Memfs::empty());
    }
    state.as_mut().unwrap()
}

/// The filesystem with a file that has no bytes at a path.
pub open spec fn with_file(fs: MemfsView, path: Path) -> MemfsView {
    MemfsView {
        nodes: fs.nodes.insert(path, Node::File(fs.data.len() as usize)),
        data: fs.data.push(Seq::empty()),
    }
}

/// The filesystem with other bytes for a file.
pub open spec fn with_bytes(fs: MemfsView, data: usize, bytes: Seq<u8>) -> MemfsView {
    MemfsView { data: fs.data.update(data as int, bytes), ..fs }
}

/// The filesystem with a file cut to nothing, where that is wanted.
pub open spec fn cut(fs: MemfsView, data: usize, truncate: bool) -> MemfsView {
    if truncate {
        with_bytes(fs, data, Seq::empty())
    } else {
        fs
    }
}

/// What `open` does.
pub open spec fn opened(fs: MemfsView, path: Path, flags: OpenFlags) -> (
    MemfsView,
    Result<OpenFile, FsFailure>,
) {
    if path.len() == 0 {
        (fs, Err(FsFailure::IsADirectory))
    } else {
        match looked_up(fs.nodes, path) {
            Err(failure) => (fs, Err(failure)),
            Ok(Some(Node::Directory)) => (fs, Err(FsFailure::IsADirectory)),
            Ok(Some(Node::File(data))) => (
                cut(fs, data, flags.truncate),
                Ok(OpenFile { data, writable: flags.write }),
            ),
            Ok(None) => if flags.create {
                let data = fs.data.len() as usize;
                (
                    cut(with_file(fs, path), data, flags.truncate),
                    Ok(OpenFile { data, writable: flags.write }),
                )
            } else {
                (fs, Err(FsFailure::NotFound))
            },
        }
    }
}

/// What `open_exec` gives: the bytes of the file as they are.
pub open spec fn snapshot(fs: MemfsView, path: Path) -> Result<Seq<u8>, FsFailure> {
    if path.len() == 0 {
        Err(FsFailure::IsADirectory)
    } else {
        match looked_up(fs.nodes, path) {
            Err(failure) => Err(failure),
            Ok(Some(Node::Directory)) => Err(FsFailure::IsADirectory),
            Ok(Some(Node::File(data))) => Ok(fs.data[data as int]),
            Ok(None) => Err(FsFailure::NotFound),
        }
    }
}

/// What `stat` gives.
pub open spec fn stated(fs: MemfsView, path: Path) -> Result<NodeStat, FsFailure> {
    if path.len() == 0 {
        Ok(NodeStat { kind: NodeKind::Directory, size: 0 })
    } else {
        match looked_up(fs.nodes, path) {
            Err(failure) => Err(failure),
            Ok(Some(Node::Directory)) => Ok(NodeStat { kind: NodeKind::Directory, size: 0 }),
            Ok(Some(Node::File(data))) => Ok(
                NodeStat { kind: NodeKind::File, size: fs.data[data as int].len() as u64 },
            ),
            Ok(None) => Err(FsFailure::NotFound),
        }
    }
}

/// What `create_directory` does.
pub open spec fn directory_made(fs: MemfsView, path: Path) -> (MemfsView, Result<(), FsFailure>) {
    if path.len() == 0 {
        (fs, Err(FsFailure::AlreadyExists))
    } else {
        match looked_up(fs.nodes, path) {
            Err(failure) => (fs, Err(failure)),
            Ok(Some(_)) => (fs, Err(FsFailure::AlreadyExists)),
            Ok(None) => (
                MemfsView { nodes: fs.nodes.insert(path, Node::Directory), ..fs },
                Ok(()),
            ),
        }
    }
}

/// Whether a name stands in a directory.
pub open spec fn is_child(nodes: Map<Path, Node>, directory: Path, name: Seq<char>) -> bool {
    nodes.contains_key(directory.push(name))
}

/// Whether nothing stands in a directory.
pub open spec fn is_bare(nodes: Map<Path, Node>, directory: Path) -> bool {
    forall|name: Seq<char>| !#[trigger] is_child(nodes, directory, name)
}

/// What `remove` does.
pub open spec fn removed(fs: MemfsView, path: Path) -> (MemfsView, Result<(), FsFailure>) {
    if path.len() == 0 {
        (fs, Err(FsFailure::Io("cannot remove the root directory"@)))
    } else {
        match looked_up(fs.nodes, path) {
            Err(failure) => (fs, Err(failure)),
            Ok(None) => (fs, Err(FsFailure::NotFound)),
            Ok(Some(node)) => if node is Directory && !is_bare(fs.nodes, path) {
                (fs, Err(FsFailure::Io("directory is not empty"@)))
            } else {
                (MemfsView { nodes: fs.nodes.remove(path), ..fs }, Ok(()))
            },
        }
    }
}

/// The bytes from an offset on, as many as are there and wanted.
pub open spec fn read_bytes(data: Seq<u8>, offset: u64, wanted: u64) -> Seq<u8> {
    if offset >= data.len() {
        Seq::empty()
    } else if wanted <= data.len() - offset {
        data.subrange(offset as int, offset + wanted)
    } else {
        data.skip(offset as int)
    }
}

/// The bytes of a file after a write: zeros fill a gap, and the file grows as needed.
pub open spec fn written_bytes(data: Seq<u8>, offset: nat, bytes: Seq<u8>) -> Seq<u8> {
    let end = offset + bytes.len();
    Seq::new(
        if data.len() < end {
            end
        } else {
            data.len()
        },
        |i: int|
            if offset <= i < end {
                bytes[i - offset]
            } else if i < data.len() {
                data[i]
            } else {
                0
            },
    )
}

/// The bytes from an offset on, as many as are there and wanted.
pub fn read_at(data: &Vec<u8>, offset: u64, wanted: u64) -> (chunk: Vec<u8>)
    ensures
        chunk@ == read_bytes(data@, offset, wanted),
{
    let length: usize = data.len();
    if offset >= length as u64 {
        let none: Vec<u8> = Vec::new();
        assert(none@ =~= Seq::empty());
        return none;
    }
    let start: usize = offset as usize;
    let end: usize = if wanted <= (length - start) as u64 {
        start + wanted as usize
    } else {
        length
    };
    let chunk = slice_of(data.as_slice(), start, end);
    assert(chunk@ =~= read_bytes(data@, offset, wanted));
    chunk
}

/// Write bytes at an offset. A file that would not fit in memory is refused.
pub fn write_at(data: &mut Vec<u8>, offset: u64, bytes: &Vec<u8>) -> (result: Result<u64, FsError>)
    ensures
        if offset + bytes@.len() > usize::MAX {
            &&& outcome(result) == Err::<u64, FsFailure>(FsFailure::NoSpace)
            &&& final(data)@ == old(data)@
        } else {
            &&& outcome(result) == Ok::<u64, FsFailure>(bytes@.len() as u64)
            &&& final(data)@ == written_bytes(old(data)@, offset as nat, bytes@)
        },
{
    let count: usize = bytes.len();
    if offset > usize::MAX as u64 || (usize::MAX - count) < offset as usize {
        return Err(FsError::NoSpace);
    }
    let start: usize = offset as usize;
    let end: usize = start + count;
    while data.len() < end
        invariant
            data@.len() >= old(data)@.len(),
            data@.len() <= end || data@.len() == old(data)@.len(),
            forall|i: int|
                0 <= i < data@.len() ==> data@[i] == if i < old(data)@.len() {
                    old(data)@[i]
                } else {
                    0u8
                },
        decreases end - data@.len(),
    {
        data.push(0);
    }
    let ghost grown = data@;
    let mut done: usize = 0;
    while done < count
        invariant
            done <= count,
            count == bytes@.len(),
            end == start + count,
            end <= data@.len(),
            data@.len() == grown.len(),
            forall|i: int|
                0 <= i < data@.len() ==> data@[i] == if start <= i < start + done {
                    bytes@[i - start]
                } else {
                    grown[i]
                },
        decreases count - done,
    {
        data.set(start + done, bytes[done]);
        done += 1;
    }
    assert(data@ =~= written_bytes(old(data)@, offset as nat, bytes@));
    Ok(count as u64)
}

proof fn lemma_file_wf(fs: MemfsView, path: Path)
    requires
        fs.wf(),
        path.len() > 0,
        all_plain(path),
        looked_up(fs.nodes, path) == Ok::<Option<Node>, FsFailure>(None),
        fs.data.len() <= usize::MAX,
    ensures
        with_file(fs, path).wf(),
{
    let after = with_file(fs, path);
    if path.len() > 1 {
        lemma_parent_there(fs.nodes, path);
    }
    let new = fs.data.len() as usize;
    assert forall|one: Path, other: Path|
        after.nodes.contains_key(one) && after.nodes.contains_key(other)
            && #[trigger] after.nodes[one] == #[trigger] after.nodes[other]
            && after.nodes[one] is File implies one == other by {
        if one != path && other != path {
            assert(fs.nodes[one] == fs.nodes[other]);
        } else if one != path {
            assert(fs.nodes.contains_key(one));
            assert(fs.nodes[one] == Node::File(new));
        } else if other != path {
            assert(fs.nodes.contains_key(other));
            assert(fs.nodes[other] == Node::File(new));
        }
    }
    assert forall|p: Path| #[trigger] after.nodes.contains_key(p) && p.len() > 1 implies
        after.nodes.contains_key(p.drop_last()) && after.nodes[p.drop_last()]
        == Node::Directory by {
        if p != path {
            assert(fs.nodes.contains_key(p));
            assert(fs.nodes.contains_key(p.drop_last()));
        }
    }
}

proof fn lemma_parent_there(nodes: Map<Path, Node>, path: Path)
    requires
        path.len() > 1,
        way_failure(nodes, path, path.len() - 1) is None,
    ensures
        nodes.contains_key(path.drop_last()),
        nodes[path.drop_last()] == Node::Directory,
{
    assert(path.take(path.len() - 1) =~= path.drop_last());
}

impl Memfs {
    /// The filesystem with nothing in it.
    pub fn empty() -> (memfs: Memfs)
        ensures
            memfs@ == empty_fs(),
            memfs.wf(),
    {
        let memfs = Memfs { entries: Vec::new(), data: Vec::new() };
        assert(memfs@.nodes =~= Map::empty());
        assert(memfs@ =~= empty_fs());
        memfs
    }

    /// Start over with nothing at any path. Files that are open keep their bytes.
    pub fn configure(&mut self)
        ensures
            final(self).wf(),
            final(self)@ == (MemfsView { nodes: Map::empty(), ..old(self)@ }),
    {
        self.entries = Vec::new();
        assert(self@.nodes =~= Map::empty());
    }

    fn insert(&mut self, path: Vec<Vec<char>>, node: Node)
        requires
            old(self).wf(),
            !old(self)@.nodes.contains_key(contents(path@)),
        ensures
            distinct(final(self).entries@),
            final(self)@ == (MemfsView {
                nodes: old(self)@.nodes.insert(contents(path@), node),
                ..old(self)@
            }),
            final(self).data == old(self).data,
    {
        let entry = Entry { path, node };
        proof {
            lemma_pushed(self.entries@, entry);
        }
        self.entries.push(entry);
    }

    fn truncate(&mut self, data: usize)
        requires
            old(self).wf(),
            data < old(self)@.data.len(),
        ensures
            final(self).wf(),
            final(self)@ == with_bytes(old(self)@, data, Seq::empty()),
    {
        self.data.set(data, Vec::new());
        assert(self@.data =~= old(self)@.data.update(data as int, Seq::empty()));
    }

    /// Open a file, and make it first where that is wanted.
    pub fn open(&mut self, path: &str, flags: OpenFlags) -> (result: Result<OpenFile, FsError>)
        requires
            old(self).wf(),
        ensures
            final(self).wf(),
            (final(self)@, outcome(result)) == opened(old(self)@, path_of(path@), flags),
            result matches Ok(file) ==> file.data < final(self)@.data.len(),
    {
        let names = segments(path);
        proof {
            law_paths_are_plain(path@);
            assert(contents(names@).len() == names@.len());
        }
        if names.len() == 0 {
            return Err(FsError::IsADirectory);
        }
        let existing = match self.lookup(&names) {
            Ok(existing) => existing,
            Err(error) => {
                return Err(error);
            },
        };
        let data: usize = match existing {
            Some(Node::File(data)) => data,
            Some(Node::Directory) => {
                return Err(FsError::IsADirectory);
            },
            None => {
                if !flags.create {
                    return Err(FsError::NotFound);
                }
                let data: usize = self.data.len();
                proof {
                    lemma_file_wf(self@, contents(names@));
                }
                let ghost before = self@;
                self.insert(names, Node::File(data));
                self.data.push(Vec::new());
                assert(self@ =~= with_file(before, path_of(path@)));
                data
            },
        };
        if flags.truncate {
            self.truncate(data);
        }
        Ok(OpenFile { data, writable: flags.write })
    }

    /// Open a file for execution: its bytes as they are now.
    pub fn open_exec(&self, path: &str) -> (result: Result<Vec<u8>, FsError>)
        requires
            self.wf(),
        ensures
            (match result {
                Ok(bytes) => Ok(bytes@),
                Err(error) => Err(error@),
            }) == snapshot(self@, path_of(path@)),
    {
        let names = segments(path);
        assert(contents(names@).len() == names@.len());
        if names.len() == 0 {
            return Err(FsError::IsADirectory);
        }
        match self.lookup(&names) {
            Err(error) => Err(error),
            Ok(Some(Node::File(data))) => {
                let bytes = &self.data[data];
                let copy = slice_of(bytes.as_slice(), 0, bytes.len());
                assert(copy@ =~= self@.data[data as int]);
                Ok(copy)
            },
            Ok(Some(Node::Directory)) => Err(FsError::IsADirectory),
            Ok(None) => Err(FsError::NotFound),
        }
    }

    /// What stands at a path.
    pub fn stat(&self, path: &str) -> (result: Result<NodeStat, FsError>)
        requires
            self.wf(),
        ensures
            outcome(result) == stated(self@, path_of(path@)),
    {
        let names = segments(path);
        assert(contents(names@).len() == names@.len());
        if names.len() == 0 {
            return Ok(NodeStat { kind: NodeKind::Directory, size: 0 });
        }
        match self.lookup(&names) {
            Err(error) => Err(error),
            Ok(Some(Node::File(data))) => {
                assert(self@.data[data as int] == self.data@[data as int]@);
                Ok(NodeStat { kind: NodeKind::File, size: self.data[data].len() as u64 })
            },
            Ok(Some(Node::Directory)) => Ok(NodeStat { kind: NodeKind::Directory, size: 0 }),
            Ok(None) => Err(FsError::NotFound),
        }
    }

    /// Make a directory.
    pub fn create_directory(&mut self, path: &str) -> (result: Result<(), FsError>)
        requires
            old(self).wf(),
        ensures
            final(self).wf(),
            (final(self)@, outcome(result)) == directory_made(old(self)@, path_of(path@)),
    {
        let names = segments(path);
        proof {
            law_paths_are_plain(path@);
            assert(contents(names@).len() == names@.len());
        }
        if names.len() == 0 {
            return Err(FsError::AlreadyExists);
        }
        match self.lookup(&names) {
            Err(error) => Err(error),
            Ok(Some(_)) => Err(FsError::AlreadyExists),
            Ok(None) => {
                proof {
                    lemma_directory_wf(self@, contents(names@));
                }
                self.insert(names, Node::Directory);
                Ok(())
            },
        }
    }

    /// Whether nothing stands in a directory.
    fn bare(&self, path: &Vec<Vec<char>>) -> (yes: bool)
        requires
            self.wf(),
        ensures
            yes == is_bare(self@.nodes, contents(path@)),
    {
        let mut at: usize = 0;
        while at < self.entries.len()
            invariant
                at <= self.entries.len(),
                self.wf(),
                forall|i: int, name: Seq<char>|
                    0 <= i < at ==> #[trigger] path_at(self.entries@, i)
                        != #[trigger] contents(path@).push(name),
            decreases self.entries.len() - at,
        {
            let entry = &self.entries[at];
            let ghost whole = path_at(self.entries@, at as int);
            assert(whole.len() == entry.path@.len());
            assert(contents(path@).len() == path@.len());
            if entry.path.len() > 0 && entry.path.len() - 1 == path.len() && same_path(
                path,
                &entry.path,
                entry.path.len() - 1,
            ) {
                proof {
                    lemma_node_at(self.entries@, at as int);
                    assert(whole =~= contents(path@).push(whole.last()));
                    assert(is_child(self@.nodes, contents(path@), whole.last()));
                }
                return false;
            }
            assert forall|name: Seq<char>| whole != #[trigger] contents(path@).push(name) by {
                if whole == contents(path@).push(name) {
                    assert(whole.take(whole.len() - 1) =~= contents(path@));
                }
            }
            at += 1;
        }
        proof {
            assert forall|name: Seq<char>| !#[trigger] is_child(
                self@.nodes,
                contents(path@),
                name,
            ) by {
                let child = contents(path@).push(name);
                if stands(self.entries@, child) {
                    let i = place_of(self.entries@, child);
                    assert(path_at(self.entries@, i) == child);
                }
            }
        }
        true
    }

    /// Remove a file, or a directory with nothing in it.
    pub fn remove(&mut self, path: &str) -> (result: Result<(), FsError>)
        requires
            old(self).wf(),
        ensures
            final(self).wf(),
            (final(self)@, outcome(result)) == removed(old(self)@, path_of(path@)),
    {
        let names = segments(path);
        assert(contents(names@).len() == names@.len());
        if names.len() == 0 {
            return Err(FsError::Io(String::from_str("cannot remove the root directory")));
        }
        match self.lookup(&names) {
            Err(error) => Err(error),
            Ok(None) => Err(FsError::NotFound),
            Ok(Some(node)) => {
                if let Node::Directory = node {
                    if !self.bare(&names) {
                        return Err(FsError::Io(String::from_str("directory is not empty")));
                    }
                }
                assert(contents(names@).take(names@.len() as int) =~= contents(names@));
                proof {
                    lemma_removed_wf(self@, contents(names@));
                }
                if let Some(place) = self.find(&names, names.len()) {
                    proof {
                        lemma_taken(self.entries@, place as int);
                    }
                    self.entries.remove(place);
                }
                Ok(())
            },
        }
    }

    /// Read from an open file, for a buffer of so many bytes.
    pub fn read(&self, file: &OpenFile, offset: u64, wanted: u64) -> (chunk: Vec<u8>)
        requires
            file.data < self@.data.len(),
        ensures
            chunk@ == read_bytes(self@.data[file.data as int], offset, wanted),
    {
        assert(self@.data[file.data as int] == self.data@[file.data as int]@);
        read_at(&self.data[file.data], offset, wanted)
    }

    /// Write to an open file.
    pub fn write(&mut self, file: &OpenFile, offset: u64, bytes: &Vec<u8>) -> (result: Result<
        u64,
        FsError,
    >)
        requires
            old(self).wf(),
            file.data < old(self)@.data.len(),
        ensures
            final(self).wf(),
            (final(self)@, outcome(result)) == written(old(self)@, *file, offset, bytes@),
    {
        if !file.writable {
            return Err(FsError::Io(String::from_str("file is not open for writing")));
        }
        let result = write_at(&mut self.data[file.data], offset, bytes);
        assert(self@.data =~= old(self)@.data.update(
            file.data as int,
            self.data@[file.data as int]@,
        ));
        assert(self@.data.len() == old(self)@.data.len());
        assert(result is Err ==> self@.data =~= old(self)@.data);
        result
    }
}

/// What `write` does.
pub open spec fn written(fs: MemfsView, file: OpenFile, offset: u64, bytes: Seq<u8>) -> (
    MemfsView,
    Result<u64, FsFailure>,
) {
    if !file.writable {
        (fs, Err(FsFailure::Io("file is not open for writing"@)))
    } else if offset + bytes.len() > usize::MAX {
        (fs, Err(FsFailure::NoSpace))
    } else {
        (
            with_bytes(
                fs,
                file.data,
                written_bytes(fs.data[file.data as int], offset as nat, bytes),
            ),
            Ok(bytes.len() as u64),
        )
    }
}

proof fn lemma_directory_wf(fs: MemfsView, path: Path)
    requires
        fs.wf(),
        path.len() > 0,
        all_plain(path),
        looked_up(fs.nodes, path) == Ok::<Option<Node>, FsFailure>(None),
    ensures
        (MemfsView { nodes: fs.nodes.insert(path, Node::Directory), ..fs }).wf(),
{
    let after = MemfsView { nodes: fs.nodes.insert(path, Node::Directory), ..fs };
    if path.len() > 1 {
        lemma_parent_there(fs.nodes, path);
    }
    assert forall|p: Path| #[trigger] after.nodes.contains_key(p) && p.len() > 1 implies
        after.nodes.contains_key(p.drop_last()) && after.nodes[p.drop_last()]
        == Node::Directory by {
        if p != path {
            assert(fs.nodes.contains_key(p));
            assert(fs.nodes.contains_key(p.drop_last()));
        }
    }
    assert forall|one: Path, other: Path|
        after.nodes.contains_key(one) && after.nodes.contains_key(other)
            && #[trigger] after.nodes[one] == #[trigger] after.nodes[other]
            && after.nodes[one] is File implies one == other by {
        assert(fs.nodes[one] == fs.nodes[other]);
    }
}

proof fn lemma_removed_wf(fs: MemfsView, path: Path)
    requires
        fs.wf(),
        fs.nodes.contains_key(path),
        fs.nodes[path] is Directory ==> is_bare(fs.nodes, path),
    ensures
        (MemfsView { nodes: fs.nodes.remove(path), ..fs }).wf(),
{
    let after = MemfsView { nodes: fs.nodes.remove(path), ..fs };
    assert forall|p: Path| #[trigger] after.nodes.contains_key(p) && p.len() > 1 implies
        after.nodes.contains_key(p.drop_last()) && after.nodes[p.drop_last()]
        == Node::Directory by {
        assert(fs.nodes.contains_key(p));
        assert(p =~= p.drop_last().push(p.last()));
        if p.drop_last() == path {
            assert(is_child(fs.nodes, path, p.last()));
        }
    }
    assert forall|one: Path, other: Path|
        after.nodes.contains_key(one) && after.nodes.contains_key(other)
            && #[trigger] after.nodes[one] == #[trigger] after.nodes[other]
            && after.nodes[one] is File implies one == other by {
        assert(fs.nodes[one] == fs.nodes[other]);
    }
}

/// Whether a name comes before another, letter by letter.
pub open spec fn precedes(one: Seq<char>, other: Seq<char>) -> bool
    decreases one.len(),
{
    if other.len() == 0 {
        false
    } else if one.len() == 0 {
        true
    } else if one[0] != other[0] {
        (one[0] as int) < (other[0] as int)
    } else {
        precedes(one.skip(1), other.skip(1))
    }
}

/// Whether names come one after the other, none twice.
pub open spec fn ascending(names: Seq<Seq<char>>) -> bool {
    forall|i: int, j: int|
        0 <= i < j < names.len() ==> #[trigger] precedes(names[i], names[j])
}

proof fn lemma_precedes_total(one: Seq<char>, other: Seq<char>)
    ensures
        precedes(one, other) || precedes(other, one) || one == other,
        !(precedes(one, other) && precedes(other, one)),
        !precedes(one, one),
    decreases one.len(),
{
    if one.len() > 0 {
        lemma_precedes_total(one.skip(1), one.skip(1));
        if other.len() > 0 {
            lemma_precedes_total(one.skip(1), other.skip(1));
            if one[0] == other[0] && one.skip(1) == other.skip(1) {
                assert(one =~= seq![one[0]] + one.skip(1));
                assert(other =~= seq![other[0]] + other.skip(1));
            }
        }
    } else if other.len() == 0 {
        assert(one =~= other);
    }
}

proof fn lemma_precedes_transitive(one: Seq<char>, two: Seq<char>, three: Seq<char>)
    requires
        precedes(one, two),
        precedes(two, three),
    ensures
        precedes(one, three),
    decreases one.len(),
{
    if one.len() > 0 && one[0] == two[0] && two[0] == three[0] {
        lemma_precedes_transitive(one.skip(1), two.skip(1), three.skip(1));
    }
}

fn code(letter: char) -> (value: u32)
    ensures
        value as int == letter as int,
{
    letter as u32
}

fn comes_before(one: &Vec<char>, other: &Vec<char>) -> (yes: bool)
    ensures
        yes == precedes(one@, other@),
{
    let mut at: usize = 0;
    assert(one@.skip(0) =~= one@);
    assert(other@.skip(0) =~= other@);
    while at < one.len() && at < other.len()
        invariant
            at <= one@.len(),
            at <= other@.len(),
            precedes(one@, other@) == precedes(one@.skip(at as int), other@.skip(at as int)),
        decreases one.len() - at,
    {
        assert(one@.skip(at as int)[0] == one@[at as int]);
        assert(other@.skip(at as int)[0] == other@[at as int]);
        if one[at] != other[at] {
            return code(one[at]) < code(other[at]);
        }
        assert(one@.skip(at as int).skip(1) =~= one@.skip(at + 1));
        assert(other@.skip(at as int).skip(1) =~= other@.skip(at + 1));
        at += 1;
    }
    at < other.len()
}

/// Put a name into its place among names that are in order.
fn insert_sorted(names: &mut Vec<Vec<char>>, name: Vec<char>)
    requires
        ascending(contents(old(names)@)),
        !contents(old(names)@).contains(name@),
    ensures
        ascending(contents(final(names)@)),
        forall|other: Seq<char>| #[trigger]
            contents(final(names)@).contains(other) == (contents(old(names)@).contains(other)
                || other == name@),
{
    let ghost before = contents(names@);
    let mut at: usize = 0;
    while at < names.len() && comes_before(&names[at], &name)
        invariant
            at <= names.len(),
            names@ == old(names)@,
            before == contents(names@),
            forall|i: int| 0 <= i < at ==> #[trigger] precedes(before[i], name@),
        decreases names.len() - at,
    {
        assert(before[at as int] == names@[at as int]@);
        at += 1;
    }
    proof {
        if at < names.len() {
            assert(before[at as int] == names@[at as int]@);
            assert(before.contains(before[at as int]));
            lemma_precedes_total(before[at as int], name@);
        }
    }
    let ghost letters = name@;
    names.insert(at, name);
    proof {
        let after = contents(names@);
        assert(after =~= before.insert(at as int, letters));
        assert forall|i: int, j: int| 0 <= i < j < after.len() implies #[trigger] precedes(
            after[i],
            after[j],
        ) by {
            if i < at && j > at {
                assert(precedes(before[i], before[j - 1]));
            } else if i < at && j < at {
                assert(precedes(before[i], before[j]));
            } else if i == at {
                if j - 1 > at {
                    assert(precedes(before[at as int], before[j - 1]));
                    lemma_precedes_transitive(letters, before[at as int], before[j - 1]);
                }
            } else if i > at {
                assert(precedes(before[i - 1], before[j - 1]));
            }
        }
        assert forall|other: Seq<char>| #[trigger]
            after.contains(other) == (before.contains(other) || other == letters) by {
            if before.contains(other) {
                let i = choose|i: int| 0 <= i < before.len() && before[i] == other;
                if i < at {
                    assert(after[i] == other);
                } else {
                    assert(after[i + 1] == other);
                }
            }
            assert(after[at as int] == letters);
            if after.contains(other) && other != letters {
                let i = choose|i: int| 0 <= i < after.len() && after[i] == other;
                if i < at {
                    assert(before[i] == other);
                } else {
                    assert(before[i - 1] == other);
                }
            }
        }
    }
}

/// The contents of a list of strings.
pub open spec fn texts(list: Seq<String>) -> Seq<Seq<char>> {
    list.map_values(|text: String| text@)
}

/// What is wrong with a path that is to be listed.
pub open spec fn list_failure(fs: MemfsView, path: Path) -> Option<FsFailure> {
    if path.len() == 0 {
        None
    } else {
        match looked_up(fs.nodes, path) {
            Err(failure) => Some(failure),
            Ok(Some(Node::Directory)) => None,
            Ok(Some(Node::File(_))) => Some(FsFailure::NotADirectory),
            Ok(None) => Some(FsFailure::NotFound),
        }
    }
}

/// Whether a list is that of a directory: the names that stand in it, in order.
pub open spec fn lists(fs: MemfsView, path: Path, names: Seq<Seq<char>>) -> bool {
    &&& ascending(names)
    &&& forall|name: Seq<char>| #[trigger]
        names.contains(name) == is_child(fs.nodes, path, name)
}

impl Memfs {
    fn children(&self, path: &Vec<Vec<char>>) -> (names: Vec<Vec<char>>)
        requires
            self.wf(),
        ensures
            lists(self@, contents(path@), contents(names@)),
    {
        let mut names: Vec<Vec<char>> = Vec::new();
        let ghost directory = contents(path@);
        let mut at: usize = 0;
        assert(contents(path@).len() == path@.len());
        while at < self.entries.len()
            invariant
                at <= self.entries.len(),
                self.wf(),
                directory == contents(path@),
                directory.len() == path@.len(),
                ascending(contents(names@)),
                forall|name: Seq<char>| #[trigger]
                    contents(names@).contains(name) == stands(
                        self.entries@.take(at as int),
                        directory.push(name),
                    ),
            decreases self.entries.len() - at,
        {
            let entry = &self.entries[at];
            let ghost whole = path_at(self.entries@, at as int);
            proof {
                assert(whole.len() == entry.path@.len());
                assert forall|p: Path|
                    stands(self.entries@.take(at + 1), p) == (stands(
                        self.entries@.take(at as int),
                        p,
                    ) || p == whole) by {
                    lemma_stands_step(self.entries@, at as int, p);
                }
            }
            if entry.path.len() > 0 && entry.path.len() - 1 == path.len() && same_path(
                path,
                &entry.path,
                entry.path.len() - 1,
            ) {
                let name = letters_of(&entry.path[entry.path.len() - 1]);
                proof {
                    assert(whole.last() == name@);
                    assert(whole =~= directory.push(name@));
                    assert forall|other: Seq<char>| other != name@ implies directory.push(other)
                        != whole by {
                        assert(directory.push(other).last() == other);
                    }
                    if stands(self.entries@.take(at as int), whole) {
                        let i = place_of(self.entries@.take(at as int), whole);
                        assert(path_at(self.entries@.take(at as int), i) == path_at(
                            self.entries@,
                            i,
                        ));
                    }
                }
                insert_sorted(&mut names, name);
            } else {
                assert forall|other: Seq<char>| whole != #[trigger] directory.push(other) by {
                    if whole == directory.push(other) {
                        assert(whole.take(whole.len() - 1) =~= directory);
                    }
                }
            }
            at += 1;
        }
        assert(self.entries@.take(at as int) =~= self.entries@);
        assert forall|name: Seq<char>| #[trigger]
            contents(names@).contains(name) == is_child(self@.nodes, directory, name) by {}
        names
    }

    /// The names that stand in a directory, in order.
    pub fn list_directory(&self, path: &str) -> (result: Result<Vec<String>, FsError>)
        requires
            self.wf(),
        ensures
            match result {
                Ok(names) => list_failure(self@, path_of(path@)) is None && lists(
                    self@,
                    path_of(path@),
                    texts(names@),
                ),
                Err(error) => list_failure(self@, path_of(path@)) == Some(error@),
            },
    {
        let names = segments(path);
        assert(contents(names@).len() == names@.len());
        if names.len() > 0 {
            match self.lookup(&names) {
                Err(error) => {
                    return Err(error);
                },
                Ok(Some(Node::Directory)) => {},
                Ok(Some(Node::File(_))) => {
                    return Err(FsError::NotADirectory);
                },
                Ok(None) => {
                    return Err(FsError::NotFound);
                },
            }
        }
        let found = self.children(&names);
        let mut list: Vec<String> = Vec::new();
        let mut at: usize = 0;
        while at < found.len()
            invariant
                at <= found.len(),
                texts(list@) == contents(found@).take(at as int),
            decreases found.len() - at,
        {
            let ghost before = list@;
            let name = assemble(found[at].as_slice());
            list.push(name);
            assert(texts(list@) =~= texts(before).push(name@));
            at += 1;
            assert(texts(list@) =~= contents(found@).take(at as int));
        }
        assert(contents(found@).take(at as int) =~= contents(found@));
        Ok(list)
    }
}

fn letters_of(name: &Vec<char>) -> (copy: Vec<char>)
    ensures
        copy@ == name@,
{
    let mut copy: Vec<char> = Vec::new();
    let mut at: usize = 0;
    while at < name.len()
        invariant
            at <= name.len(),
            copy@ == name@.take(at as int),
        decreases name.len() - at,
    {
        copy.push(name[at]);
        at += 1;
        assert(copy@ =~= name@.take(at as int));
    }
    assert(name@.take(at as int) =~= name@);
    copy
}

proof fn lemma_stands_step(entries: Seq<Entry>, at: int, path: Path)
    requires
        0 <= at < entries.len(),
    ensures
        stands(entries.take(at + 1), path) == (stands(entries.take(at), path) || path == path_at(
            entries,
            at,
        )),
{
    let more = entries.take(at + 1);
    let fewer = entries.take(at);
    if stands(fewer, path) {
        let i = place_of(fewer, path);
        assert(path_at(fewer, i) == path);
        assert(path_at(more, i) == path);
    }
    assert(path_at(more, at) == path_at(entries, at));
    if stands(more, path) {
        let i = place_of(more, path);
        assert(path_at(more, i) == path);
        if i < at {
            assert(path_at(fewer, i) == path);
        }
    }
}

/// A listing is determined by what stands in the directory: two lists of one directory
/// are the same.
pub proof fn law_listing_is_determined(
    fs: MemfsView,
    path: Path,
    one: Seq<Seq<char>>,
    other: Seq<Seq<char>>,
)
    requires
        lists(fs, path, one),
        lists(fs, path, other),
    ensures
        one == other,
    decreases one.len(),
{
    lemma_same_ascending(one, other);
}

proof fn lemma_same_ascending(one: Seq<Seq<char>>, other: Seq<Seq<char>>)
    requires
        ascending(one),
        ascending(other),
        forall|name: Seq<char>| #[trigger] one.contains(name) == other.contains(name),
    ensures
        one == other,
    decreases one.len(),
{
    if one.len() == 0 {
        if other.len() > 0 {
            assert(other.contains(other[0]));
            assert(one.contains(other[0]));
        }
        assert(one =~= other);
    } else {
        assert(one.contains(one.last())) by {
            assert(one[one.len() - 1] == one.last());
        }
        assert(other.contains(one.last()));
        let i = choose|i: int| 0 <= i < other.len() && other[i] == one.last();
        if i < other.len() - 1 {
            let top = other.last();
            assert(precedes(other[i], other[other.len() - 1]));
            assert(other.contains(top)) by {
                assert(other[other.len() - 1] == top);
            }
            assert(one.contains(top));
            let j = choose|j: int| 0 <= j < one.len() && one[j] == top;
            lemma_precedes_total(one.last(), top);
            if j < one.len() - 1 {
                assert(precedes(one[j], one[one.len() - 1]));
            }
        }
        assert(other.last() == one.last());
        let a = one.drop_last();
        let b = other.drop_last();
        assert forall|i: int, j: int| 0 <= i < j < a.len() implies #[trigger] precedes(
            a[i],
            a[j],
        ) by {
            assert(precedes(one[i], one[j]));
        }
        assert forall|i: int, j: int| 0 <= i < j < b.len() implies #[trigger] precedes(
            b[i],
            b[j],
        ) by {
            assert(precedes(other[i], other[j]));
        }
        assert forall|name: Seq<char>| #[trigger] a.contains(name) == b.contains(name) by {
            lemma_without_last(one, name);
            lemma_without_last(other, name);
        }
        lemma_same_ascending(a, b);
        assert(one =~= a.push(one.last()));
        assert(other =~= b.push(other.last()));
    }
}

proof fn lemma_without_last(names: Seq<Seq<char>>, name: Seq<char>)
    requires
        ascending(names),
        names.len() > 0,
    ensures
        names.drop_last().contains(name) == (names.contains(name) && name != names.last()),
{
    let fewer = names.drop_last();
    if fewer.contains(name) {
        let i = choose|i: int| 0 <= i < fewer.len() && fewer[i] == name;
        assert(names[i] == name);
        assert(precedes(names[i], names[names.len() - 1]));
        lemma_precedes_total(name, name);
    }
    if names.contains(name) && name != names.last() {
        let i = choose|i: int| 0 <= i < names.len() && names[i] == name;
        assert(fewer[i] == name);
    }
}

/// A read gives back what a write through the same file wrote, at the same offset.
pub proof fn law_read_after_write(fs: MemfsView, file: OpenFile, offset: u64, bytes: Seq<u8>)
    requires
        file.data < fs.data.len(),
        file.writable,
        offset + bytes.len() <= usize::MAX,
        bytes.len() <= u64::MAX,
    ensures
        read_bytes(
            written(fs, file, offset, bytes).0.data[file.data as int],
            offset,
            bytes.len() as u64,
        ) == bytes,
{
    let after = written_bytes(fs.data[file.data as int], offset as nat, bytes);
    assert(read_bytes(after, offset, bytes.len() as u64) =~= bytes);
}

/// A write leaves every other file as it was, and every name.
pub proof fn law_write_is_local(
    fs: MemfsView,
    file: OpenFile,
    offset: u64,
    bytes: Seq<u8>,
    other: int,
)
    requires
        file.data < fs.data.len(),
        0 <= other < fs.data.len(),
        other != file.data,
    ensures
        written(fs, file, offset, bytes).0.data[other] == fs.data[other],
        written(fs, file, offset, bytes).0.nodes == fs.nodes,
{
}

/// Removing a name keeps the bytes: a file that is open reads and writes as before.
pub proof fn law_open_file_outlives_name(fs: MemfsView, path: Path)
    ensures
        removed(fs, path).0.data == fs.data,
{
}

/// What was made is there, and what was removed is not.
pub proof fn law_made_and_removed(fs: MemfsView, path: Path)
    requires
        fs.wf(),
        path.len() > 0,
    ensures
        directory_made(fs, path).1 is Ok ==> stated(directory_made(fs, path).0, path) == Ok::<
            NodeStat,
            FsFailure,
        >(NodeStat { kind: NodeKind::Directory, size: 0 }),
        removed(fs, path).1 is Ok ==> stated(removed(fs, path).0, path) == Err::<
            NodeStat,
            FsFailure,
        >(FsFailure::NotFound),
{
    let made = fs.nodes.insert(path, Node::Directory);
    let gone = fs.nodes.remove(path);
    lemma_way_unchanged(fs.nodes, made, path, path.len() - 1);
    lemma_way_unchanged(fs.nodes, gone, path, path.len() - 1);
}

/// A file that is opened to be made, where nothing stood, is there with no bytes.
pub proof fn law_created_file_is_there(fs: MemfsView, path: Path, flags: OpenFlags)
    requires
        fs.wf(),
        path.len() > 0,
        fs.data.len() < usize::MAX,
        flags.create,
        looked_up(fs.nodes, path) == Ok::<Option<Node>, FsFailure>(None),
    ensures
        opened(fs, path, flags).1 is Ok,
        stated(opened(fs, path, flags).0, path) == Ok::<NodeStat, FsFailure>(
            NodeStat { kind: NodeKind::File, size: 0 },
        ),
{
    let made = with_file(fs, path);
    lemma_way_unchanged(fs.nodes, made.nodes, path, path.len() - 1);
}

proof fn lemma_way_unchanged(one: Map<Path, Node>, other: Map<Path, Node>, path: Path, count: int)
    requires
        count < path.len(),
        forall|p: Path| p != path ==> (#[trigger] one.contains_key(p) == other.contains_key(p)),
        forall|p: Path| p != path && #[trigger] one.contains_key(p) ==> one[p] == other[p],
    ensures
        way_failure(one, path, count) == way_failure(other, path, count),
    decreases count,
{
    if count > 0 {
        lemma_way_unchanged(one, other, path, count - 1);
        assert(path.take(count) != path) by {
            assert(path.take(count).len() == count);
        }
        assert(one.contains_key(path.take(count)) == other.contains_key(path.take(count)));
    }
}

/// The root is always a directory, and nothing removes it, makes it again or opens it.
pub proof fn law_root_stays(fs: MemfsView, flags: OpenFlags)
    ensures
        stated(fs, Seq::empty()) == Ok::<NodeStat, FsFailure>(
            NodeStat { kind: NodeKind::Directory, size: 0 },
        ),
        removed(fs, Seq::empty()) == (
            fs,
            Err::<(), FsFailure>(FsFailure::Io("cannot remove the root directory"@)),
        ),
        directory_made(fs, Seq::empty()) == (fs, Err::<(), FsFailure>(FsFailure::AlreadyExists)),
        opened(fs, Seq::empty(), flags) == (fs, Err::<OpenFile, FsFailure>(FsFailure::IsADirectory)),
{
}

/// Whether the directory that a path names something in is there: the root, or a directory.
pub open spec fn parent_stands(fs: MemfsView, path: Path) -> bool {
    path.len() == 1 || fs.nodes.contains_key(path.drop_last()) && fs.nodes[path.drop_last()]
        == Node::Directory
}

proof fn lemma_way_clear(fs: MemfsView, path: Path, count: int)
    requires
        fs.wf(),
        0 <= count <= path.len(),
        count > 0 ==> fs.nodes.contains_key(path.take(count)) && fs.nodes[path.take(count)]
            == Node::Directory,
    ensures
        way_failure(fs.nodes, path, count) is None,
    decreases count,
{
    if count > 0 {
        if count > 1 {
            assert(path.take(count).drop_last() =~= path.take(count - 1));
        }
        lemma_way_clear(fs, path, count - 1);
    }
}

proof fn lemma_way_found(fs: MemfsView, path: Path, count: int)
    requires
        0 <= count <= path.len(),
        way_failure(fs.nodes, path, count) is None,
    ensures
        forall|k: int|
            0 < k <= count ==> fs.nodes.contains_key(#[trigger] path.take(k))
                && fs.nodes[path.take(k)] == Node::Directory,
    decreases count,
{
    if count > 0 {
        lemma_way_found(fs, path, count - 1);
        assert forall|k: int| 0 < k <= count implies fs.nodes.contains_key(#[trigger] path.take(k))
            && fs.nodes[path.take(k)] == Node::Directory by {
            if k < count {
                assert(fs.nodes.contains_key(path.take(k)));
            }
        }
    }
}

proof fn lemma_way_blocked(fs: MemfsView, path: Path, count: int) -> (k: int)
    requires
        0 <= count <= path.len(),
        way_failure(fs.nodes, path, count) is Some,
    ensures
        0 < k <= count,
        way_failure(fs.nodes, path, k - 1) is None,
        way_failure(fs.nodes, path, count) == if fs.nodes.contains_key(path.take(k)) {
            Some(FsFailure::NotADirectory)
        } else {
            Some(FsFailure::NotFound)
        },
        fs.nodes.contains_key(path.take(k)) ==> fs.nodes[path.take(k)] is File,
    decreases count,
{
    if way_failure(fs.nodes, path, count - 1) is Some {
        lemma_way_blocked(fs, path, count - 1)
    } else {
        count
    }
}

/// The way to a path is open exactly where its directory is there. Else the answer names
/// the first thing on the way that is no directory: it is missing, or it is a file.
pub proof fn law_way_is_directories(fs: MemfsView, path: Path)
    requires
        fs.wf(),
        path.len() > 0,
    ensures
        match looked_up(fs.nodes, path) {
            Ok(found) => {
                &&& parent_stands(fs, path)
                &&& found is Some <==> fs.nodes.contains_key(path)
                &&& found is Some ==> found == Some(fs.nodes[path])
            },
            Err(failure) => {
                &&& !parent_stands(fs, path)
                &&& !fs.nodes.contains_key(path)
                &&& exists|k: int|
                    {
                        &&& 0 < k < path.len()
                        &&& forall|j: int|
                            0 < j < k ==> fs.nodes.contains_key(#[trigger] path.take(j))
                                && fs.nodes[path.take(j)] == Node::Directory
                        &&& if fs.nodes.contains_key(#[trigger] path.take(k)) {
                            fs.nodes[path.take(k)] is File && failure == FsFailure::NotADirectory
                        } else {
                            failure == FsFailure::NotFound
                        }
                    }
            },
        },
{
    let count = path.len() - 1;
    assert(path.drop_last() =~= path.take(count));
    match way_failure(fs.nodes, path, count) {
        None => {
            lemma_way_found(fs, path, count);
            if path.len() > 1 {
                assert(fs.nodes.contains_key(path.take(count)));
            }
        },
        Some(failure) => {
            let k = lemma_way_blocked(fs, path, count);
            lemma_way_found(fs, path, k - 1);
            assert(path.take(k).len() == k);
            if parent_stands(fs, path) {
                lemma_way_clear(fs, path, count);
            }
        },
    }
}

/// A write through a file that is open for writing puts its bytes at the offset. It never
/// shortens the file, changes no byte outside the range, and fills a gap with zeros. A
/// write that fails changes nothing.
pub proof fn law_write_replaces_the_range(
    fs: MemfsView,
    file: OpenFile,
    offset: u64,
    bytes: Seq<u8>,
)
    requires
        file.data < fs.data.len(),
        bytes.len() <= u64::MAX,
    ensures
        ({
            let before = fs.data[file.data as int];
            let (after_fs, result) = written(fs, file, offset, bytes);
            let after = after_fs.data[file.data as int];
            let end = offset + bytes.len();
            &&& result is Ok <==> file.writable && end <= usize::MAX
            &&& result is Err ==> after_fs == fs
            &&& result matches Ok(count) ==> {
                &&& count == bytes.len()
                &&& after.len() >= before.len() && after.len() >= end
                &&& after.len() == before.len() || after.len() == end
                &&& forall|i: int| 0 <= i < bytes.len() ==> after[offset + i] == #[trigger] bytes[i]
                &&& forall|i: int|
                    0 <= i < before.len() && !(offset <= i < end) ==> #[trigger] after[i]
                        == before[i]
                &&& forall|i: int| before.len() <= i < offset ==> #[trigger] after[i] == 0
            }
        }),
{
    if file.writable && offset + bytes.len() <= usize::MAX {
        let after = written(fs, file, offset, bytes).0.data[file.data as int];
        assert forall|i: int| 0 <= i < bytes.len() implies after[offset + i]
            == #[trigger] bytes[i] by {
            assert(offset + i - offset == i);
        }
    }
}

/// A read gives the bytes of the file from the offset on: as many as are wanted, or as are
/// there behind the offset.
pub proof fn law_read_gives_the_bytes(data: Seq<u8>, offset: u64, wanted: u64)
    ensures
        ({
            let chunk = read_bytes(data, offset, wanted);
            &&& chunk.len() <= wanted
            &&& chunk.len() < wanted ==> chunk.len() == if offset < data.len() {
                data.len() - offset
            } else {
                0
            }
            &&& forall|i: int|
                0 <= i < chunk.len() ==> offset + i < data.len() && #[trigger] chunk[i]
                    == data[offset + i]
        }),
{
}

/// What opening comes to. A file that stands is opened with its bytes, or with none where
/// it is to be cut; one that does not stand is made where that is wanted and its directory
/// is there, with bytes that no other file has. The file can be written through exactly
/// where that was asked for. Nothing else changes, and a failure changes nothing.
pub proof fn law_open_finds_or_makes(fs: MemfsView, path: Path, flags: OpenFlags)
    requires
        fs.wf(),
        path.len() > 0,
        fs.data.len() <= usize::MAX,
    ensures
        ({
            let (after, result) = opened(fs, path, flags);
            &&& fs.nodes.contains_key(path) && fs.nodes[path] is File ==> result is Ok
            &&& fs.nodes.contains_key(path) && fs.nodes[path] is Directory ==> result == Err::<
                OpenFile,
                FsFailure,
            >(FsFailure::IsADirectory)
            &&& !fs.nodes.contains_key(path) && parent_stands(fs, path) ==> if flags.create {
                result is Ok
            } else {
                result == Err::<OpenFile, FsFailure>(FsFailure::NotFound)
            }
            &&& !parent_stands(fs, path) ==> result is Err
            &&& result is Err ==> after == fs
            &&& result matches Ok(file) ==> {
                let stood = fs.nodes.contains_key(path);
                &&& file.writable == flags.write
                &&& after.nodes.contains_key(path) && after.nodes[path] == Node::File(file.data)
                &&& stood ==> fs.nodes[path] == Node::File(file.data)
                &&& !stood ==> file.data == fs.data.len()
                &&& after.data.len() == if stood {
                    fs.data.len()
                } else {
                    fs.data.len() + 1
                }
                &&& stood && !flags.truncate ==> after.data[file.data as int]
                    == fs.data[file.data as int]
                &&& !stood || flags.truncate ==> after.data[file.data as int].len() == 0
                &&& forall|other: Path|
                    other != path ==> (#[trigger] after.nodes.contains_key(other)
                        == fs.nodes.contains_key(other))
                &&& forall|other: Path|
                    other != path && fs.nodes.contains_key(other)
                        ==> #[trigger] after.nodes[other] == fs.nodes[other]
                &&& forall|i: int|
                    0 <= i < fs.data.len() && i != file.data ==> #[trigger] after.data[i]
                        == fs.data[i]
            }
        }),
{
    law_way_is_directories(fs, path);
}

/// Opening for execution gives the bytes of the file that stands at the path, and what is
/// known of a file is how many they are; of a directory, that it is one.
pub proof fn law_file_is_its_bytes(fs: MemfsView, path: Path)
    requires
        fs.wf(),
        path.len() > 0,
    ensures
        match looked_up(fs.nodes, path) {
            Ok(Some(Node::File(data))) => {
                &&& snapshot(fs, path) == Ok::<Seq<u8>, FsFailure>(fs.data[data as int])
                &&& stated(fs, path) matches Ok(stat) && stat.kind == NodeKind::File && (
                fs.data[data as int].len() <= u64::MAX ==> stat.size == fs.data[data as int].len())
            },
            Ok(Some(Node::Directory)) => {
                &&& snapshot(fs, path) == Err::<Seq<u8>, FsFailure>(FsFailure::IsADirectory)
                &&& stated(fs, path) matches Ok(stat) && stat.kind == NodeKind::Directory
                    && stat.size == 0
            },
            Ok(None) => {
                &&& snapshot(fs, path) == Err::<Seq<u8>, FsFailure>(FsFailure::NotFound)
                &&& stated(fs, path) == Err::<NodeStat, FsFailure>(FsFailure::NotFound)
            },
            Err(failure) => {
                &&& snapshot(fs, path) == Err::<Seq<u8>, FsFailure>(failure)
                &&& stated(fs, path) == Err::<NodeStat, FsFailure>(failure)
            },
        },
{
}

/// What is written to a file through its path is what the path then gives: opened again,
/// opened for execution, and in its size.
pub proof fn law_path_shows_what_was_written(
    fs: MemfsView,
    path: Path,
    flags: OpenFlags,
    bytes: Seq<u8>,
)
    requires
        fs.wf(),
        path.len() > 0,
        fs.data.len() < usize::MAX,
        flags.write,
        flags.truncate,
        bytes.len() <= usize::MAX,
        bytes.len() <= u64::MAX,
        opened(fs, path, flags).1 is Ok,
    ensures
        ({
            let (there, file) = opened(fs, path, flags);
            let (after, result) = written(there, file->Ok_0, 0, bytes);
            &&& result == Ok::<u64, FsFailure>(bytes.len() as u64)
            &&& snapshot(after, path) == Ok::<Seq<u8>, FsFailure>(bytes)
            &&& stated(after, path) == Ok::<NodeStat, FsFailure>(
                NodeStat { kind: NodeKind::File, size: bytes.len() as u64 },
            )
        }),
{
    law_open_finds_or_makes(fs, path, flags);
    let (there, result) = opened(fs, path, flags);
    let file = result->Ok_0;
    let after = written(there, file, 0, bytes).0;
    law_write_replaces_the_range(there, file, 0, bytes);
    lemma_way_unchanged(fs.nodes, after.nodes, path, path.len() - 1);
    assert forall|i: int| 0 <= i < bytes.len() implies after.data[file.data as int][i]
        == bytes[i] by {
        assert(after.data[file.data as int][0 + i] == bytes[i]);
    }
    assert(after.data[file.data as int] =~= bytes);
}

/// A directory is made exactly where nothing stands and the directory around it is there;
/// then it stands, and nothing else has changed. What stands already is said to.
pub proof fn law_directory_is_made(fs: MemfsView, path: Path)
    requires
        fs.wf(),
        path.len() > 0,
    ensures
        ({
            let (after, result) = directory_made(fs, path);
            &&& result is Ok <==> !fs.nodes.contains_key(path) && parent_stands(fs, path)
            &&& fs.nodes.contains_key(path) ==> result == Err::<(), FsFailure>(
                FsFailure::AlreadyExists,
            )
            &&& result is Err ==> after == fs
            &&& result is Ok ==> {
                &&& after.nodes.contains_key(path) && after.nodes[path] == Node::Directory
                &&& after.data == fs.data
                &&& forall|other: Path|
                    other != path ==> (#[trigger] after.nodes.contains_key(other)
                        == fs.nodes.contains_key(other))
                &&& forall|other: Path|
                    other != path && fs.nodes.contains_key(other)
                        ==> #[trigger] after.nodes[other] == fs.nodes[other]
            }
        }),
{
    law_way_is_directories(fs, path);
}

/// A file is removed, and a directory where nothing stands in it; then nothing stands at the
/// path, and nothing else has changed. What is not there is said not to be found.
pub proof fn law_removed_is_gone(fs: MemfsView, path: Path)
    requires
        fs.wf(),
        path.len() > 0,
    ensures
        ({
            let (after, result) = removed(fs, path);
            let bare = forall|name: Seq<char>| !fs.nodes.contains_key(#[trigger] path.push(name));
            &&& result is Ok <==> fs.nodes.contains_key(path) && (fs.nodes[path] is File || bare)
            &&& parent_stands(fs, path) && !fs.nodes.contains_key(path) ==> result == Err::<
                (),
                FsFailure,
            >(FsFailure::NotFound)
            &&& result is Err ==> after == fs
            &&& result is Ok ==> {
                &&& !after.nodes.contains_key(path)
                &&& after.data == fs.data
                &&& forall|other: Path|
                    other != path ==> (#[trigger] after.nodes.contains_key(other)
                        == fs.nodes.contains_key(other))
                &&& forall|other: Path|
                    other != path && fs.nodes.contains_key(other)
                        ==> #[trigger] after.nodes[other] == fs.nodes[other]
            }
        }),
{
    law_way_is_directories(fs, path);
    if fs.nodes.contains_key(path) {
        if is_bare(fs.nodes, path) {
            assert forall|name: Seq<char>| !fs.nodes.contains_key(#[trigger] path.push(name)) by {
                assert(!is_child(fs.nodes, path, name));
            }
        } else {
            let name = choose|name: Seq<char>| #[trigger] is_child(fs.nodes, path, name);
            assert(fs.nodes.contains_key(path.push(name)));
        }
    }
}

/// A directory is listed, and the root, and nothing else is. The list has the names that
/// stand there and no other, none twice, each before those that the first letter in which
/// they differ puts behind it.
pub proof fn law_listing_is_what_stands(fs: MemfsView, path: Path, names: Seq<Seq<char>>)
    requires
        fs.wf(),
        lists(fs, path, names),
    ensures
        list_failure(fs, path) is None <==> path.len() == 0 || fs.nodes.contains_key(path)
            && fs.nodes[path] is Directory,
        fs.nodes.contains_key(path) && fs.nodes[path] is File ==> list_failure(fs, path) == Some(
            FsFailure::NotADirectory,
        ),
        path.len() > 0 && parent_stands(fs, path) && !fs.nodes.contains_key(path)
            ==> list_failure(fs, path) == Some(FsFailure::NotFound),
        forall|name: Seq<char>|
            fs.nodes.contains_key(#[trigger] path.push(name)) <==> names.contains(name),
        forall|i: int, j: int|
            0 <= i < j < names.len() ==> comes_first(#[trigger] names[i], #[trigger] names[j]),
{
    if path.len() > 0 {
        law_way_is_directories(fs, path);
    }
    assert forall|name: Seq<char>|
        fs.nodes.contains_key(#[trigger] path.push(name)) <==> names.contains(name) by {
        assert(names.contains(name) == is_child(fs.nodes, path, name));
    }
    assert forall|i: int, j: int| 0 <= i < j < names.len() implies comes_first(
        #[trigger] names[i],
        #[trigger] names[j],
    ) by {
        lemma_comes_first(names[i], names[j]);
    }
}

/// Whether two names agree up to a letter, and there the first one ends or has the smaller.
pub open spec fn comes_first(one: Seq<char>, other: Seq<char>) -> bool {
    exists|k: int|
        {
            &&& 0 <= k <= one.len()
            &&& k < other.len()
            &&& #[trigger] one.take(k) == other.take(k)
            &&& k < one.len() ==> (one[k] as int) < (other[k] as int)
        }
}

proof fn lemma_comes_first(one: Seq<char>, other: Seq<char>)
    requires
        precedes(one, other),
    ensures
        comes_first(one, other),
    decreases one.len(),
{
    if one.len() == 0 || one[0] != other[0] {
        assert(one.take(0) =~= other.take(0));
    } else {
        let (a, b) = (one.skip(1), other.skip(1));
        lemma_comes_first(a, b);
        let k = choose|k: int|
            {
                &&& 0 <= k <= a.len()
                &&& k < b.len()
                &&& #[trigger] a.take(k) == b.take(k)
                &&& k < a.len() ==> (a[k] as int) < (b[k] as int)
            };
        assert forall|i: int| 0 <= i < k + 1 implies #[trigger] one[i] == other[i] by {
            if i > 0 {
                assert(a.take(k)[i - 1] == b.take(k)[i - 1]);
            }
        }
        assert(one.take(k + 1) =~= other.take(k + 1));
    }
}

/// The root is a directory: it has no bytes to give and is not opened as a file.
pub proof fn law_root_is_no_file(fs: MemfsView, flags: OpenFlags)
    ensures
        snapshot(fs, Seq::empty()) == Err::<Seq<u8>, FsFailure>(FsFailure::IsADirectory),
        opened(fs, Seq::empty(), flags) == (
            fs,
            Err::<OpenFile, FsFailure>(FsFailure::IsADirectory),
        ),
{
}

} // verus!
