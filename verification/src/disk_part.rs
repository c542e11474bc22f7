//! `disk.part`: one partition of a disk as a disk.
//!
//! The table of partitions is walked elsewhere, sector by sector; here is what is read
//! for it, what becomes of its outcome, and how accesses are moved into the partition.
use vstd::prelude::*;
use vstd::string::*;

use crate::text::{decimal, push_decimal};

verus! {

/// The size of a sector of the table.
pub const SECTOR_SIZE: u64 = 512;

/// The partition of a provider that was not configured.
pub const DEFAULT_PARTITION: u32 = 1;

/// Where a partition lies, in bytes.
#[derive(Clone, Copy, PartialEq, Eq, Structural, Debug)]
pub struct Window {
    pub start: u64,
    pub len: u64,
}

/// The partition that is wanted and, once it was found, where it lies.
#[derive(Clone, Copy, PartialEq, Eq, Structural, Debug)]
pub struct State {
    pub selected: u32,
    pub window: Option<Window>,
}

/// The state of a provider.
pub fn with_state(state: &mut Option<State>) -> (there: &mut State)
    ensures
        *old(state) matches Some(before) ==> *there == before,
        *old(state) is None ==> *there == (State { selected: DEFAULT_PARTITION, window: None }),
        *final(state) == Some(*final(there)),
{
    if state.is_none() {
        *state = Some(State { selected: DEFAULT_PARTITION, window: None });
    }
    state.as_mut().unwrap()
}

/// Select a partition.
pub fn configure(partition: u32) -> (result: Result<State, String>)
    ensures
        match result {
            Ok(state) => partition != 0 && state == (State { selected: partition, window: None }),
            Err(said) => partition == 0 && said@
                == "disk.part: partition numbers are 1-based (fdisk numbering); 0 is not valid"@,
        },
{
    if partition == 0 {
        return Err(
            String::from_str(
                "disk.part: partition numbers are 1-based (fdisk numbering); 0 is not valid",
            ),
        );
    }
    Ok(State { selected: partition, window: None })
}

/// The size of the partition; zero until it was found.
pub fn size(state: &State) -> (size: u64)
    ensures
        size == match state.window {
            Some(window) => window.len,
            None => 0,
        },
{
    match state.window {
        Some(window) => window.len,
        None => 0,
    }
}

/// Whether an access lies in the partition.
pub open spec fn inside(window: Window, offset: u64, len: u64) -> bool {
    offset + len <= window.len
}

/// Move an access into the partition.
pub fn translate(window: Window, offset: u64, len: u64) -> (absolute: Result<u64, ()>)
    requires
        window.start + window.len <= u64::MAX,
    ensures
        match absolute {
            Ok(absolute) => inside(window, offset, len) && absolute == window.start + offset,
            Err(()) => !inside(window, offset, len),
        },
{
    if offset > window.len || len > window.len - offset {
        return Err(());
    }
    Ok(window.start + offset)
}

/// Where the search for the partition stands.
#[derive(Clone, Copy, PartialEq, Eq, Structural, Debug)]
pub enum Search {
    /// It awaits a sector of the table; the first one wakes the disk.
    Sector { lba: u64, first: bool },
    /// It awaits the size of the disk.
    Size,
    /// It awaits the walk through the table.
    Walk,
}

/// What came back.
#[derive(Debug)]
pub enum Found {
    /// A sector was read, so many bytes of it.
    Sector(u64),
    /// A sector was not read, for a reason in words.
    Unread(String),
    /// The size of the disk.
    Size(u64),
    /// The walk needs another sector.
    Need(u64),
    /// The table is not one, for a reason in words.
    Invalid(String),
    /// The table does not have the partition, for a reason in words.
    Missing(String),
    /// The partition.
    Partition(Window),
}

/// What came back, over contents.
#[allow(inconsistent_fields)]
pub enum FoundView {
    Sector(u64),
    Unread(Seq<char>),
    Size(u64),
    Need(u64),
    Invalid(Seq<char>),
    Missing(Seq<char>),
    Partition(Window),
}

impl View for Found {
    type V = FoundView;

    open spec fn view(&self) -> FoundView {
        match self {
            Found::Sector(count) => FoundView::Sector(*count),
            Found::Unread(shown) => FoundView::Unread(shown@),
            Found::Size(size) => FoundView::Size(*size),
            Found::Need(lba) => FoundView::Need(*lba),
            Found::Invalid(shown) => FoundView::Invalid(shown@),
            Found::Missing(shown) => FoundView::Missing(shown@),
            Found::Partition(window) => FoundView::Partition(*window),
        }
    }
}

/// The next step of the search.
#[derive(Debug)]
pub enum SearchStep {
    /// Read a sector of the table at an offset.
    Read(u64),
    /// Ask for the size of the disk.
    Size,
    /// Walk on through the table with the sector that was read.
    Walk,
    /// The partition was found.
    Ready(Window),
    /// It was not, for a reason in words.
    Refused(String),
}

/// The next step of the search, over contents.
#[allow(inconsistent_fields)]
pub enum SearchTurn {
    Read(u64),
    Size,
    Walk,
    Ready(Window),
    Refused(Seq<char>),
}

impl View for SearchStep {
    type V = SearchTurn;

    open spec fn view(&self) -> SearchTurn {
        match self {
            SearchStep::Read(offset) => SearchTurn::Read(*offset),
            SearchStep::Size => SearchTurn::Size,
            SearchStep::Walk => SearchTurn::Walk,
            SearchStep::Ready(window) => SearchTurn::Ready(*window),
            SearchStep::Refused(said) => SearchTurn::Refused(said@),
        }
    }
}

/// Whether an event answers what the search awaits. A sector that the walk needs lies
/// where a disk can have one.
pub open spec fn answers(search: Search, found: FoundView) -> bool {
    match search {
        Search::Sector { .. } => found is Sector || found is Unread,
        Search::Size => found is Size,
        Search::Walk => match found {
            FoundView::Need(lba) => lba * SECTOR_SIZE <= u64::MAX,
            FoundView::Invalid(_) | FoundView::Missing(_) | FoundView::Partition(_) => true,
            _ => false,
        },
    }
}

/// What is said of a sector that was not read.
pub open spec fn unread_text(lba: u64, shown: Seq<char>) -> Seq<char> {
    "disk.part: reading the partition table at LBA "@ + decimal(lba as nat) + ": "@ + shown
}

/// What is said of a sector that was read in part.
pub open spec fn short_text(lba: u64, count: u64) -> Seq<char> {
    "disk.part: short read of the partition table at LBA "@ + decimal(lba as nat) + " ("@
        + decimal(count as nat) + " of 512 bytes)"@
}

fn unread(lba: u64, shown: &str) -> (said: String)
    ensures
        said@ == unread_text(lba, shown@),
{
    let mut said = String::from_str("disk.part: reading the partition table at LBA ");
    push_decimal(&mut said, lba);
    said.append(": ");
    said.append(shown);
    said
}

fn short(lba: u64, count: u64) -> (said: String)
    ensures
        said@ == short_text(lba, count),
{
    let mut said = String::from_str("disk.part: short read of the partition table at LBA ");
    push_decimal(&mut said, lba);
    said.append(" (");
    push_decimal(&mut said, count);
    said.append(" of 512 bytes)");
    said
}

/// The step of the search that an event brings about.
pub open spec fn searched(search: Search, state: State, found: FoundView) -> (
    Search,
    State,
    SearchTurn,
) {
    match found {
        FoundView::Unread(shown) => (
            search,
            state,
            SearchTurn::Refused(unread_text(search->lba, shown)),
        ),
        FoundView::Sector(count) => if count < SECTOR_SIZE {
            (search, state, SearchTurn::Refused(short_text(search->lba, count)))
        } else if search->first {
            (Search::Size, state, SearchTurn::Size)
        } else {
            (Search::Walk, state, SearchTurn::Walk)
        },
        FoundView::Size(_) => (Search::Walk, state, SearchTurn::Walk),
        FoundView::Need(lba) => (
            Search::Sector { lba, first: false },
            state,
            SearchTurn::Read((lba * SECTOR_SIZE) as u64),
        ),
        FoundView::Invalid(shown) => (
            search,
            state,
            SearchTurn::Refused("disk.part: invalid partition table: "@ + shown),
        ),
        FoundView::Missing(shown) => (search, state, SearchTurn::Refused("disk.part: "@ + shown)),
        FoundView::Partition(window) => (
            search,
            State { window: Some(window), ..state },
            SearchTurn::Ready(window),
        ),
    }
}

/// Start to look for the partition: it is known, or the first sector is read.
pub fn ensure_window(state: &State) -> (start: (Search, SearchStep))
    ensures
        start.0 == (Search::Sector { lba: 0, first: true }),
        start.1@ == match state.window {
            Some(window) => SearchTurn::Ready(window),
            None => SearchTurn::Read(0),
        },
{
    let search = Search::Sector { lba: 0, first: true };
    match state.window {
        Some(window) => (search, SearchStep::Ready(window)),
        None => (search, SearchStep::Read(0)),
    }
}

impl Search {
    /// Take an event.
    pub fn step(&mut self, state: &mut State, found: Found) -> (step: SearchStep)
        requires
            answers(*old(self), found@),
        ensures
            (*final(self), *final(state), step@) == searched(*old(self), *old(state), found@),
    {
        match found {
            Found::Unread(shown) => {
                let lba: u64 = self.lba();
                SearchStep::Refused(unread(lba, shown.as_str()))
            },
            Found::Sector(count) => {
                if count < SECTOR_SIZE {
                    let lba: u64 = self.lba();
                    return SearchStep::Refused(short(lba, count));
                }
                if let Search::Sector { first: true, .. } = self {
                    *self = Search::Size;
                    SearchStep::Size
                } else {
                    *self = Search::Walk;
                    SearchStep::Walk
                }
            },
            Found::Size(_) => {
                *self = Search::Walk;
                SearchStep::Walk
            },
            Found::Need(lba) => {
                *self = Search::Sector { lba, first: false };
                SearchStep::Read(lba * SECTOR_SIZE)
            },
            Found::Invalid(shown) => {
                let mut said = String::from_str("disk.part: invalid partition table: ");
                said.append(shown.as_str());
                SearchStep::Refused(said)
            },
            Found::Missing(shown) => {
                let mut said = String::from_str("disk.part: ");
                said.append(shown.as_str());
                SearchStep::Refused(said)
            },
            Found::Partition(window) => {
                state.window = Some(window);
                SearchStep::Ready(window)
            },
        }
    }

    fn lba(&self) -> (lba: u64)
        requires
            self is Sector,
        ensures
            lba == self->lba,
    {
        match self {
            Search::Sector { lba, .. } => *lba,
            _ => 0,
        }
    }
}

/// An access that is moved lies in the partition, whole, and an access that does not lie
/// in the partition is refused: nothing beside it can be reached.
pub proof fn law_confined_to_window(window: Window, offset: u64, len: u64, absolute: int)
    requires
        window.start + window.len <= u64::MAX,
        inside(window, offset, len),
        absolute == window.start + offset,
    ensures
        window.start <= absolute,
        absolute + len <= window.start + window.len,
{
}

/// A refusal is not remembered: the search leaves the partition unknown, and the next
/// operation looks again. What was found is remembered.
pub proof fn law_refusals_are_retried(search: Search, state: State, found: FoundView)
    requires
        answers(search, found),
    ensures
        searched(search, state, found).2 is Refused ==> searched(search, state, found).1 == state,
        searched(search, state, found).2 matches SearchTurn::Ready(window) ==> searched(
            search,
            state,
            found,
        ).1.window == Some(window),
{
}

/// The size of the disk is asked for only after a sector was read, which wakes it.
pub proof fn law_size_after_wake(search: Search, state: State, found: FoundView)
    requires
        answers(search, found),
    ensures
        searched(search, state, found).2 is Size ==> found is Sector && search is Sector
            && search->first,
{
}

/// Every access that ends within the partition is let through, and no other.
pub proof fn law_whole_partition_is_reached(window: Window, offset: u64, len: u64)
    ensures
        inside(window, offset, len) <==> offset + len <= window.len,
        inside(window, 0, window.len),
        len > 0 ==> !inside(window, window.len, len),
{
}

/// The search reads the sectors that the walk through the table asks for, each where it lies
/// on the disk, asks for the size once the first is there, and ends with the partition that
/// the walk found, or says why there is none.
pub proof fn law_search_follows_the_walk(
    state: State,
    lba: u64,
    count: u64,
    size: u64,
    window: Window,
    shown: Seq<char>,
)
    requires
        lba * SECTOR_SIZE <= u64::MAX,
    ensures
        ({
            let (needing, _, read) = searched(Search::Walk, state, FoundView::Need(lba));
            let (whole, _, walk) = searched(needing, state, FoundView::Sector(count));
            let (woken, _, ask) = searched(
                Search::Sector { lba, first: true },
                state,
                FoundView::Sector(count),
            );
            let (sized, _, go) = searched(Search::Size, state, FoundView::Size(size));
            let (_, found, ready) = searched(Search::Walk, state, FoundView::Partition(window));
            &&& read == SearchTurn::Read((512 * lba) as u64)
            &&& count >= 512 ==> walk is Walk && whole == Search::Walk
            &&& count < 512 ==> walk is Refused && ask is Refused
            &&& count >= 512 ==> ask is Size && woken == Search::Size
            &&& go is Walk && sized == Search::Walk
            &&& ready == SearchTurn::Ready(window)
            &&& found.window == Some(window) && found.selected == state.selected
            &&& searched(Search::Walk, state, FoundView::Missing(shown)).2 is Refused
            &&& searched(Search::Walk, state, FoundView::Invalid(shown)).2 is Refused
            &&& searched(needing, state, FoundView::Unread(shown)).2 is Refused
        }),
{
}

/// What a value is over contents is of the same kind as the value itself: no two kinds are
/// taken for one another.
pub proof fn law_contents_keep_their_kind(found: Found, search_step: SearchStep)
    ensures
        found is Sector <==> found@ is Sector,
        found is Unread <==> found@ is Unread,
        found is Size <==> found@ is Size,
        found is Need <==> found@ is Need,
        found is Invalid <==> found@ is Invalid,
        found is Missing <==> found@ is Missing,
        found is Partition <==> found@ is Partition,
        search_step is Read <==> search_step@ is Read,
        search_step is Size <==> search_step@ is Size,
        search_step is Walk <==> search_step@ is Walk,
        search_step is Ready <==> search_step@ is Ready,
        search_step is Refused <==> search_step@ is Refused,
{
}

} // verus!
