//! What the filesystem providers share: errors, flags, nodes and paths.
use vstd::prelude::*;
use vstd::string::*;

use crate::text::{assemble, contents, pieces, split};

verus! {

/// Failures of the filesystem operations.
#[derive(Debug)]
pub enum FsError {
    NotFound,
    AlreadyExists,
    NotADirectory,
    IsADirectory,
    Denied,
    ReadOnly,
    NoSpace,
    NotImmutable,
    Io(String),
}

/// Failures of the filesystem operations, over contents.
pub enum FsFailure {
    NotFound,
    AlreadyExists,
    NotADirectory,
    IsADirectory,
    Denied,
    ReadOnly,
    NoSpace,
    NotImmutable,
    Io(Seq<char>),
}

impl View for FsError {
    type V = FsFailure;

    open spec fn view(&self) -> FsFailure {
        match self {
            FsError::NotFound => FsFailure::NotFound,
            FsError::AlreadyExists => FsFailure::AlreadyExists,
            FsError::NotADirectory => FsFailure::NotADirectory,
            FsError::IsADirectory => FsFailure::IsADirectory,
            FsError::Denied => FsFailure::Denied,
            FsError::ReadOnly => FsFailure::ReadOnly,
            FsError::NoSpace => FsFailure::NoSpace,
            FsError::NotImmutable => FsFailure::NotImmutable,
            FsError::Io(text) => FsFailure::Io(text@),
        }
    }
}

/// What a call came to, over contents.
pub open spec fn outcome<T>(result: Result<T, FsError>) -> Result<T, FsFailure> {
    match result {
        Ok(value) => Ok(value),
        Err(error) => Err(error@),
    }
}

/// How a file is opened.
#[derive(Clone, Copy, PartialEq, Eq, Structural, Debug)]
pub struct OpenFlags {
    pub read: bool,
    pub write: bool,
    pub create: bool,
    pub truncate: bool,
}

/// Whether opening changes anything, or permits changes.
pub open spec fn mutates(flags: OpenFlags) -> bool {
    flags.write || flags.create || flags.truncate
}

/// Whether opening changes anything, or permits changes.
pub fn is_write(flags: OpenFlags) -> (yes: bool)
    ensures
        yes == mutates(flags),
{
    flags.write || flags.create || flags.truncate
}

/// What stands at a path.
#[derive(Clone, Copy, PartialEq, Eq, Structural, Debug)]
pub enum NodeKind {
    File,
    Directory,
}

/// What is known of what stands at a path.
#[derive(Clone, Copy, PartialEq, Eq, Structural, Debug)]
pub struct NodeStat {
    pub kind: NodeKind,
    pub size: u64,
}

/// A path: the names from the root on.
pub type Path = Seq<Seq<char>>;

/// The path that the pieces of a text lead to. Empty pieces and single dots lead nowhere,
/// double dots lead one step up, and never above the root.
pub open spec fn led(parts: Seq<Seq<char>>) -> Path
    decreases parts.len(),
{
    if parts.len() == 0 {
        Seq::empty()
    } else {
        let before = led(parts.drop_last());
        let last = parts.last();
        if last == Seq::<char>::empty() || last == seq!['.'] {
            before
        } else if last == seq!['.', '.'] {
            if before.len() == 0 {
                before
            } else {
                before.drop_last()
            }
        } else {
            before.push(last)
        }
    }
}

/// Whether the pieces of a text lead above the root at some point.
pub open spec fn escapes(parts: Seq<Seq<char>>) -> bool
    decreases parts.len(),
{
    if parts.len() == 0 {
        false
    } else {
        escapes(parts.drop_last()) || parts.last() == seq!['.', '.'] && led(
            parts.drop_last(),
        ).len() == 0
    }
}

/// The path that a text names.
pub open spec fn path_of(text: Seq<char>) -> Path {
    led(pieces(text, '/'))
}

/// Whether a text leads above the root at some point.
pub open spec fn leaves_root(text: Seq<char>) -> bool {
    escapes(pieces(text, '/'))
}

/// The names of a path, each behind a slash.
pub open spec fn slashed(path: Path) -> Seq<char>
    decreases path.len(),
{
    if path.len() == 0 {
        Seq::empty()
    } else {
        slashed(path.drop_last()) + seq!['/'] + path.last()
    }
}

/// The one text for a path that begins with a slash and has no other slash to spare.
pub open spec fn absolute(path: Path) -> Seq<char> {
    if path.len() == 0 {
        seq!['/']
    } else {
        slashed(path)
    }
}

/// The normal form of a text that names a path below the root.
pub open spec fn normalized(text: Seq<char>) -> Option<Seq<char>> {
    if leaves_root(text) {
        None
    } else {
        Some(absolute(path_of(text)))
    }
}

/// Whether a name can stand in a path.
pub open spec fn plain(name: Seq<char>) -> bool {
    name.len() > 0 && name != seq!['.'] && name != seq!['.', '.'] && !name.contains('/')
}

/// Whether all names of a path can stand in one.
pub open spec fn all_plain(path: Path) -> bool {
    forall|i: int| 0 <= i < path.len() ==> plain(#[trigger] path[i])
}

fn is_dot(piece: &Vec<char>) -> (yes: bool)
    ensures
        yes == (piece@ == seq!['.']),
{
    let yes = piece.len() == 1 && piece[0] == '.';
    assert(yes ==> piece@ =~= seq!['.']);
    yes
}

fn is_double_dot(piece: &Vec<char>) -> (yes: bool)
    ensures
        yes == (piece@ == seq!['.', '.']),
{
    let yes = piece.len() == 2 && piece[0] == '.' && piece[1] == '.';
    assert(yes ==> piece@ =~= seq!['.', '.']);
    assert(piece@ == seq!['.', '.'] ==> piece@[0] == '.' && piece@[1] == '.');
    yes
}

/// A walk along the pieces of a text: where it leads, and whether it left the root.
fn walk(text: &str) -> (walked: (Vec<Vec<char>>, bool))
    ensures
        contents(walked.0@) == path_of(text@),
        walked.1 == leaves_root(text@),
{
    let parts = split(text, '/');
    let ghost all = pieces(text@, '/');
    let mut path: Vec<Vec<char>> = Vec::new();
    let mut left: bool = false;
    assert(contents(path@) =~= led(all.take(0)));
    assert(contents(parts@).len() == parts@.len());
    for part in iter: parts
        invariant
            iter.seq() == parts@,
            contents(parts@) == all,
            contents(path@) == led(all.take(iter.index() as int)),
            left == escapes(all.take(iter.index() as int)),
    {
        let ghost at = iter.index() as int;
        proof {
            assert(all.take(at + 1).drop_last() =~= all.take(at));
            assert(all[at] == parts@[at]@);
            assert(all.take(at + 1).last() == part@);
        }
        let ghost before = path@;
        if part.len() == 0 || is_dot(&part) {
            assert(part.len() == 0 ==> part@ =~= Seq::<char>::empty());
        } else if is_double_dot(&part) {
            if path.pop().is_none() {
                left = true;
            } else {
                assert(contents(path@) =~= contents(before).drop_last());
            }
        } else {
            path.push(part);
            assert(contents(path@) =~= contents(before).push(part@));
        }
    }
    assert(all.take(all.len() as int) =~= all);
    (path, left)
}

/// The names of the path that a text names.
pub fn segments(path: &str) -> (names: Vec<Vec<char>>)
    ensures
        contents(names@) == path_of(path@),
{
    walk(path).0
}

fn push_slashed(text: &mut Vec<char>, names: &Vec<Vec<char>>)
    ensures
        final(text)@ == old(text)@ + slashed(contents(names@)),
{
    let mut at: usize = 0;
    assert(slashed(contents(names@).take(0)) =~= Seq::empty());
    assert(text@ =~= old(text)@ + slashed(contents(names@).take(0)));
    while at < names.len()
        invariant
            at <= names.len(),
            text@ == old(text)@ + slashed(contents(names@).take(at as int)),
        decreases names.len() - at,
    {
        let ghost all = contents(names@);
        assert(all.take(at + 1).drop_last() =~= all.take(at as int));
        text.push('/');
        let name = &names[at];
        let ghost before = text@;
        let mut place: usize = 0;
        assert(before + name@.take(0) =~= before);
        while place < name.len()
            invariant
                place <= name.len(),
                text@ == before + name@.take(place as int),
            decreases name.len() - place,
        {
            text.push(name[place]);
            place += 1;
            assert(before + name@.take(place as int) =~= (before + name@.take(place - 1)).push(
                name@[place - 1],
            ));
        }
        assert(name@.take(place as int) =~= name@);
        at += 1;
        assert(text@ =~= old(text)@ + slashed(all.take(at as int)));
    }
    assert(contents(names@).take(at as int) =~= contents(names@));
}

/// The names of the path that a text names, each behind a slash; the root is empty.
pub fn canonical(path: &str) -> (text: String)
    ensures
        text@ == slashed(path_of(path@)),
{
    let names = segments(path);
    let mut text: Vec<char> = Vec::new();
    push_slashed(&mut text, &names);
    assert(text@ =~= slashed(path_of(path@)));
    assemble(text.as_slice())
}

/// The normal form of a path; nothing for one that leads above the root.
pub fn normalize(path: &str) -> (text: Option<String>)
    ensures
        match text {
            Some(text) => normalized(path@) == Some(text@),
            None => normalized(path@) is None,
        },
{
    let (names, left) = walk(path);
    if left {
        return None;
    }
    let mut text: Vec<char> = Vec::new();
    if names.len() == 0 {
        text.push('/');
        assert(contents(names@) =~= Seq::empty());
        assert(text@ =~= seq!['/']);
    } else {
        push_slashed(&mut text, &names);
        assert(text@ =~= slashed(contents(names@)));
    }
    Some(assemble(text.as_slice()))
}

proof fn lemma_pieces_nonempty(text: Seq<char>)
    ensures
        pieces(text, '/').len() > 0,
    decreases text.len(),
{
    if text.len() > 0 {
        lemma_pieces_nonempty(text.drop_last());
    }
}

pub(crate) proof fn lemma_pieces_concat(before: Seq<char>, after: Seq<char>)
    ensures
        pieces(before + seq!['/'] + after, '/') == pieces(before, '/') + pieces(after, '/'),
    decreases after.len(),
{
    let whole = before + seq!['/'] + after;
    if after.len() == 0 {
        assert(whole.drop_last() =~= before);
        assert(pieces(whole, '/') =~= pieces(before, '/') + pieces(after, '/'));
    } else {
        assert(whole.drop_last() =~= before + seq!['/'] + after.drop_last());
        lemma_pieces_concat(before, after.drop_last());
        lemma_pieces_nonempty(after.drop_last());
        assert(pieces(whole, '/') =~= pieces(before, '/') + pieces(after, '/'));
    }
}

proof fn lemma_pieces_single(name: Seq<char>)
    requires
        !name.contains('/'),
    ensures
        pieces(name, '/') == seq![name],
    decreases name.len(),
{
    if name.len() > 0 {
        assert(name.contains(name.last())) by {
            assert(name[name.len() - 1] == name.last());
        }
        assert forall|i: int| 0 <= i < name.drop_last().len() implies name.drop_last()[i]
            != '/' by {
            assert(name.contains(name[i]));
        }
        lemma_pieces_single(name.drop_last());
        assert(name =~= name.drop_last().push(name.last()));
        assert(pieces(name, '/') =~= seq![name]);
    } else {
        assert(name =~= Seq::empty());
        assert(pieces(name, '/') =~= seq![name]);
    }
}

pub(crate) proof fn lemma_pieces_slashed(path: Path)
    requires
        all_plain(path),
    ensures
        pieces(slashed(path), '/') == seq![Seq::<char>::empty()] + path,
    decreases path.len(),
{
    if path.len() == 0 {
        assert(pieces(slashed(path), '/') =~= seq![Seq::<char>::empty()] + path);
    } else {
        assert forall|i: int| 0 <= i < path.drop_last().len() implies plain(
            #[trigger] path.drop_last()[i],
        ) by {
            assert(plain(path[i]));
        }
        lemma_pieces_slashed(path.drop_last());
        assert(plain(path[path.len() - 1]));
        lemma_pieces_single(path.last());
        lemma_pieces_concat(slashed(path.drop_last()), path.last());
        assert(pieces(slashed(path), '/') =~= seq![Seq::<char>::empty()] + path);
    }
}

proof fn lemma_led_plain(path: Path)
    requires
        all_plain(path),
    ensures
        led(seq![Seq::<char>::empty()] + path) == path,
        !escapes(seq![Seq::<char>::empty()] + path),
    decreases path.len(),
{
    let parts = seq![Seq::<char>::empty()] + path;
    if path.len() == 0 {
        assert(parts.drop_last() =~= Seq::empty());
        assert(parts.last() == Seq::<char>::empty());
        assert(seq!['.', '.'].len() == 2);
        reveal_with_fuel(led, 2);
        reveal_with_fuel(escapes, 2);
        assert(led(parts) =~= path);
    } else {
        assert(parts.drop_last() =~= seq![Seq::<char>::empty()] + path.drop_last());
        assert forall|i: int| 0 <= i < path.drop_last().len() implies plain(
            #[trigger] path.drop_last()[i],
        ) by {
            assert(plain(path[i]));
        }
        lemma_led_plain(path.drop_last());
        assert(plain(path[path.len() - 1]));
        assert(led(parts) =~= path);
    }
}

/// Every path that a text names consists of plain names: none is empty, a dot, a double
/// dot or has a slash in it.
pub proof fn law_paths_are_plain(text: Seq<char>)
    ensures
        all_plain(path_of(text)),
{
    lemma_pieces_free(text);
    lemma_led_is_plain(pieces(text, '/'));
}

proof fn lemma_pieces_free(text: Seq<char>)
    ensures
        forall|i: int|
            0 <= i < pieces(text, '/').len() ==> !(#[trigger] pieces(text, '/')[i]).contains('/'),
    decreases text.len(),
{
    if text.len() > 0 {
        lemma_pieces_free(text.drop_last());
        lemma_pieces_nonempty(text.drop_last());
        let before = pieces(text.drop_last(), '/');
        let all = pieces(text, '/');
        assert forall|i: int| 0 <= i < all.len() implies !(#[trigger] all[i]).contains('/') by {
            if i < before.len() - 1 || text.last() == '/' && i < before.len() {
                assert(all[i] == before[i]);
            } else if text.last() != '/' {
                assert(all[i] == before.last().push(text.last()));
                assert(!before[before.len() - 1].contains('/'));
                let piece = before.last().push(text.last());
                assert forall|j: int| 0 <= j < piece.len() implies piece[j] != '/' by {
                    if j < before.last().len() {
                        assert(before.last().contains(before.last()[j]));
                    }
                }
            }
        }
    }
}

proof fn lemma_led_is_plain(parts: Seq<Seq<char>>)
    requires
        forall|i: int| 0 <= i < parts.len() ==> !(#[trigger] parts[i]).contains('/'),
    ensures
        all_plain(led(parts)),
    decreases parts.len(),
{
    if parts.len() > 0 {
        let shorter = parts.drop_last();
        assert forall|i: int| 0 <= i < shorter.len() implies !(#[trigger] shorter[i]).contains(
            '/',
        ) by {
            assert(!parts[i].contains('/'));
        }
        lemma_led_is_plain(shorter);
        let last = parts.last();
        assert(!parts[parts.len() - 1].contains('/'));
        let path = led(parts);
        if last.len() == 0 {
            assert(last =~= Seq::empty());
        }
        assert forall|i: int| 0 <= i < path.len() implies plain(#[trigger] path[i]) by {
            if i < led(shorter).len() {
                assert(plain(led(shorter)[i]));
            }
        }
    }
}

/// The normal form of a path is its own normal form, and names the same path.
pub proof fn law_normalize_is_idempotent(text: Seq<char>)
    requires
        !leaves_root(text),
    ensures
        normalized(normalized(text)->0) == normalized(text),
        path_of(normalized(text)->0) == path_of(text),
{
    let path = path_of(text);
    law_paths_are_plain(text);
    lemma_absolute(path);
}

proof fn lemma_absolute(path: Path)
    requires
        all_plain(path),
    ensures
        path_of(absolute(path)) == path,
        !leaves_root(absolute(path)),
{
    if path.len() == 0 {
        let none = Seq::<char>::empty();
        assert(absolute(path) =~= none + seq!['/'] + none);
        lemma_pieces_concat(none, none);
        let parts = pieces(absolute(path), '/');
        assert(parts =~= seq![none, none]);
        assert(parts.drop_last() =~= seq![none]);
        assert(seq![none].drop_last() =~= Seq::empty());
        reveal_with_fuel(led, 3);
        reveal_with_fuel(escapes, 3);
        assert(led(parts) =~= path);
    } else {
        lemma_pieces_slashed(path);
        lemma_led_plain(path);
    }
}

/// Two paths with the same normal form are the same path.
pub proof fn law_normal_form_is_unique(one: Path, other: Path)
    requires
        all_plain(one),
        all_plain(other),
        absolute(one) == absolute(other),
    ensures
        one == other,
{
    lemma_absolute(one);
    lemma_absolute(other);
}

/// A path is built up name by name: another plain name behind a slash leads into it, a dot
/// and an empty name lead nowhere, and a double dot leads back out, but never above the
/// root. Only a double dot at the root leaves it.
pub proof fn law_paths_are_walked(text: Seq<char>, name: Seq<char>)
    requires
        plain(name),
    ensures
        path_of(text + seq!['/'] + name) == path_of(text).push(name),
        path_of(text + seq!['/'] + seq!['.']) == path_of(text),
        path_of(text + seq!['/'] + Seq::empty()) == path_of(text),
        path_of(text + seq!['/'] + seq!['.', '.']).len() == if path_of(text).len() == 0 {
            0
        } else {
            path_of(text).len() - 1
        },
        path_of(text).len() > 0 ==> path_of(text + seq!['/'] + seq!['.', '.']) == path_of(
            text,
        ).drop_last(),
        path_of(Seq::empty()).len() == 0,
        path_of(name) == seq![name],
        !leaves_root(Seq::empty()),
        !leaves_root(name),
        leaves_root(text + seq!['/'] + name) == leaves_root(text),
        leaves_root(text + seq!['/'] + seq!['.']) == leaves_root(text),
        leaves_root(text + seq!['/'] + seq!['.', '.']) == (leaves_root(text) || path_of(text).len()
            == 0),
{
    let none = Seq::<char>::empty();
    let dot = seq!['.'];
    let up = seq!['.', '.'];
    assert(dot.len() == 1 && up.len() == 2);
    assert(dot[0] == '.' && up[0] == '.' && up[1] == '.');
    assert(!dot.contains('/') && !up.contains('/'));
    lemma_last_piece(text, name);
    lemma_last_piece(text, dot);
    lemma_last_piece(text, none);
    lemma_last_piece(text, up);
    lemma_pieces_single(name);
    lemma_pieces_single(none);
    assert(seq![name].drop_last() =~= Seq::empty());
    assert(seq![none].drop_last() =~= Seq::empty());
    reveal_with_fuel(led, 2);
    reveal_with_fuel(escapes, 2);
    assert(path_of(name) =~= seq![name]);
}

proof fn lemma_last_piece(text: Seq<char>, name: Seq<char>)
    requires
        !name.contains('/'),
    ensures
        pieces(text + seq!['/'] + name, '/').len() > 0,
        pieces(text + seq!['/'] + name, '/').drop_last() == pieces(text, '/'),
        pieces(text + seq!['/'] + name, '/').last() == name,
{
    lemma_pieces_concat(text, name);
    lemma_pieces_single(name);
    assert((pieces(text, '/') + seq![name]).drop_last() =~= pieces(text, '/'));
}

/// The normal form begins with a slash and has the names of the path with one slash before
/// each and none behind the last.
pub proof fn law_normal_form_is_spelled_out(path: Path, name: Seq<char>)
    ensures
        absolute(Seq::empty()) == seq!['/'],
        absolute(seq![name]) == seq!['/'] + name,
        path.len() > 0 ==> absolute(path.push(name)) == absolute(path) + seq!['/'] + name,
        slashed(path.push(name)) == slashed(path) + seq!['/'] + name,
{
    assert(path.push(name).drop_last() =~= path);
    assert(seq![name].drop_last() =~= Seq::empty());
    reveal_with_fuel(slashed, 2);
    assert(absolute(seq![name]) =~= seq!['/'] + name);
}

/// What a value is over contents is of the same kind as the value itself: no two kinds are
/// taken for one another.
pub proof fn law_contents_keep_their_kind(fs_error: FsError)
    ensures
        fs_error is NotFound <==> fs_error@ is NotFound,
        fs_error is AlreadyExists <==> fs_error@ is AlreadyExists,
        fs_error is NotADirectory <==> fs_error@ is NotADirectory,
        fs_error is IsADirectory <==> fs_error@ is IsADirectory,
        fs_error is Denied <==> fs_error@ is Denied,
        fs_error is ReadOnly <==> fs_error@ is ReadOnly,
        fs_error is NoSpace <==> fs_error@ is NoSpace,
        fs_error is NotImmutable <==> fs_error@ is NotImmutable,
        fs_error is Io <==> fs_error@ is Io,
{
}

} // verus!
