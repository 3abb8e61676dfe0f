//! What the server knows of the local file system: how a path on the wire
//! becomes a local path, what may be asked of the file system, and the shape
//! of the answers.

use crate::error::{HandlerError, RequestError, SystemError};
use vstd::prelude::*;
use vstd::string::StrSliceExecFns;

verus! {

/// How a path that a client sent becomes a path of the local file system.
///
/// A client names a drive in front of a colon (`C:/data`). Which part of that
/// means anything locally depends on where the server runs, so the caller
/// chooses.
#[derive(Clone, Copy, Debug, PartialEq, Eq, Structural)]
pub enum PathPolicy {
    /// The path is used as it came.
    Keep,
    /// Every colon is dropped: `C:/data` becomes `C/data`.
    StripColons,
    /// The drive is dropped, up to and with the first colon: `C:/data`
    /// becomes `/data`. A path without a colon is used as it came.
    StripDrive,
}

/// The number of characters in front of the first colon of `path`; the
/// length of `path` where it has no colon.
pub open spec fn drive_length(path: Seq<char>) -> nat
    decreases path.len(),
{
    if path.len() == 0 || path[0] == ':' {
        0
    } else {
        1 + drive_length(path.drop_first())
    }
}

/// The local path that `policy` makes of `path`.
pub open spec fn normalized(path: Seq<char>, policy: PathPolicy) -> Seq<char> {
    match policy {
        PathPolicy::Keep => path,
        PathPolicy::StripColons => path.filter(|c: char| c != ':'),
        PathPolicy::StripDrive => if drive_length(path) < path.len() {
            path.skip(drive_length(path) as int + 1)
        } else {
            path
        },
    }
}

/// `drive_length` finds the first colon: no character in front of it is a
/// colon, and the character at it is one unless the path has run out.
pub proof fn lemma_drive_length(path: Seq<char>)
    ensures
        drive_length(path) <= path.len(),
        forall|i: int| 0 <= i < drive_length(path) ==> path[i] != ':',
        drive_length(path) < path.len() ==> path[drive_length(path) as int] == ':',
    decreases path.len(),
{
    if path.len() > 0 && path[0] != ':' {
        let rest = path.drop_first();
        lemma_drive_length(rest);
        assert forall|i: int| 0 <= i < drive_length(path) implies path[i] != ':' by {
            if i > 0 {
                assert(path[i] == rest[i - 1]);
            }
        }
    }
}

/// Conversely, the first colon of a path is where `drive_length` says.
pub proof fn lemma_first_colon(path: Seq<char>, at: int)
    requires
        0 <= at <= path.len(),
        forall|i: int| 0 <= i < at ==> path[i] != ':',
        at < path.len() ==> path[at] == ':',
    ensures
        drive_length(path) == at,
    decreases path.len(),
{
    if path.len() > 0 && at > 0 {
        let rest = path.drop_first();
        assert(path[0] != ':');
        assert forall|i: int| 0 <= i < at - 1 implies rest[i] != ':' by {
            assert(rest[i] == path[i + 1]);
        }
        lemma_first_colon(rest, at - 1);
    }
}

/// Stripping the colons leaves no colon, keeps every other character in its
/// order, and changes nothing in a path that has none.
pub proof fn lemma_strip_colons(path: Seq<char>)
    ensures
        !normalized(path, PathPolicy::StripColons).contains(':'),
        normalized(path, PathPolicy::StripColons).len() <= path.len(),
        !path.contains(':') ==> normalized(path, PathPolicy::StripColons) == path,
    decreases path.len(),
{
    reveal(Seq::filter);
    let keep = |c: char| c != ':';
    let stripped = path.filter(keep);
    if path.len() > 0 {
        let front = path.drop_last();
        lemma_strip_colons(front);
        let before = front.filter(keep);
        if stripped.contains(':') {
            let at = choose|i: int| 0 <= i < stripped.len() && stripped[i] == ':';
            if at < before.len() {
                assert(before[at] == ':');
                assert(before.contains(':'));
            }
        }
        if !path.contains(':') {
            assert forall|i: int| 0 <= i < front.len() implies front[i] != ':' by {
                assert(path[i] == front[i]);
                assert(path.contains(path[i]));
            }
            if front.contains(':') {
                let at = choose|i: int| 0 <= i < front.len() && front[i] == ':';
                assert(front[at] != ':');
            }
            assert(path.contains(path.last()));
            assert(stripped =~= path);
        }
    }
}

/// The local path that `policy` makes of `path`.
pub fn normalize_path(path: &str, policy: PathPolicy) -> (local: String)
    ensures
        local@ == normalized(path@, policy),
{
    let count = path.unicode_len();
    let mut local = String::new();
    match policy {
        PathPolicy::Keep => {
            local = path.to_owned();
        },
        PathPolicy::StripColons => {
            let mut i: usize = 0;
            proof {
                reveal(Seq::filter);
                assert(path@.take(0).filter(|c: char| c != ':') =~= Seq::<char>::empty());
            }
            while i < count
                invariant
                    i <= count,
                    count == path@.len(),
                    local@ == path@.take(i as int).filter(|c: char| c != ':'),
                decreases count - i,
            {
                let c = path.get_char(i);
                proof {
                    reveal(Seq::filter);
                    assert(path@.take(i + 1).drop_last() =~= path@.take(i as int));
                }
                if c != ':' {
                    local.push(c);
                }
                i = i + 1;
            }
            assert(path@.take(i as int) =~= path@);
        },
        PathPolicy::StripDrive => {
            let mut colon: usize = 0;
            while colon < count && path.get_char(colon) != ':'
                invariant
                    colon <= count,
                    count == path@.len(),
                    forall|i: int| 0 <= i < colon ==> path@[i] != ':',
                decreases count - colon,
            {
                colon = colon + 1;
            }
            proof {
                lemma_first_colon(path@, colon as int);
            }
            if colon < count {
                let mut i: usize = colon + 1;
                assert(path@.subrange(colon + 1, i as int) =~= Seq::<char>::empty());
                while i < count
                    invariant
                        colon < i <= count,
                        count == path@.len(),
                        local@ == path@.subrange(colon + 1, i as int),
                    decreases count - i,
                {
                    let c = path.get_char(i);
                    local.push(c);
                    i = i + 1;
                    assert(local@ =~= path@.subrange(colon + 1, i as int));
                }
                assert(path@.subrange(colon + 1, i as int) =~= path@.skip(colon + 1));
            } else {
                local = path.to_owned();
            }
        },
    }
    local
}

/// One mounted volume.
#[derive(Clone, Debug, PartialEq, Eq)]
pub struct DriveInfo {
    pub label: String,
    pub mount_point: String,
}

/// A volume, to a contract.
pub struct DriveInfoView {
    pub label: Seq<char>,
    pub mount_point: Seq<char>,
}

impl View for DriveInfo {
    type V = DriveInfoView;

    open spec fn view(&self) -> DriveInfoView {
        DriveInfoView { label: self.label@, mount_point: self.mount_point@ }
    }
}

/// What an entry of a directory is.
#[derive(Clone, Copy, Debug, PartialEq, Eq, Structural)]
pub enum EntryKind {
    File,
    Directory,
    /// Neither a regular file nor a directory.
    Other,
}

/// One entry of a directory, as the file system listed it.
#[derive(Clone, Debug, PartialEq, Eq)]
pub struct DirectoryEntry {
    pub name: String,
    pub kind: EntryKind,
}

/// An entry, to a contract.
pub struct EntryView {
    pub name: Seq<char>,
    pub kind: EntryKind,
}

impl View for DirectoryEntry {
    type V = EntryView;

    open spec fn view(&self) -> EntryView {
        EntryView { name: self.name@, kind: self.kind }
    }
}

/// What the file system says of one path that exists.
#[derive(Clone, Copy, Debug, PartialEq, Eq, Structural)]
pub struct Metadata {
    pub is_directory: bool,
    /// The length in bytes.
    pub length: u64,
}

/// What a command needs to know from outside before it can be answered.
#[derive(Clone, Debug, PartialEq, Eq)]
pub enum Query {
    /// Nothing: the answer does not depend on the file system.
    Nothing,
    /// The mounted volumes.
    Volumes,
    /// The entries of the directory at this local path, in the order in which
    /// the file system lists them.
    Entries(String),
    /// The metadata of this local path.
    Metadata(String),
}

/// A query, to a contract.
pub enum QueryView {
    Nothing,
    Volumes,
    Entries(Seq<char>),
    Metadata(Seq<char>),
}

impl View for Query {
    type V = QueryView;

    open spec fn view(&self) -> QueryView {
        match self {
            Query::Nothing => QueryView::Nothing,
            Query::Volumes => QueryView::Volumes,
            Query::Entries(path) => QueryView::Entries(path@),
            Query::Metadata(path) => QueryView::Metadata(path@),
        }
    }
}

/// The answer to a query.
#[derive(Clone, Debug, PartialEq, Eq)]
pub enum Facts {
    /// Nothing was asked.
    Nothing,
    /// The mounted volumes.
    Volumes(Vec<DriveInfo>),
    /// The entries of the directory asked for.
    Entries(Vec<DirectoryEntry>),
    /// The metadata of the path asked for.
    Metadata(Metadata),
    /// The path asked for does not exist.
    NotFound,
    /// The path asked for was to be listed and is no directory.
    NotDirectory,
    /// The file system failed to answer.
    Failed,
}

/// An answer, to a contract.
pub enum FactsView {
    Nothing,
    Volumes(Seq<DriveInfoView>),
    Entries(Seq<EntryView>),
    Metadata(Metadata),
    NotFound,
    NotDirectory,
    Failed,
}

impl View for Facts {
    type V = FactsView;

    open spec fn view(&self) -> FactsView {
        match self {
            Facts::Nothing => FactsView::Nothing,
            Facts::Volumes(volumes) => FactsView::Volumes(
                volumes@.map_values(|volume: DriveInfo| volume@),
            ),
            Facts::Entries(entries) => FactsView::Entries(
                entries@.map_values(|entry: DirectoryEntry| entry@),
            ),
            Facts::Metadata(metadata) => FactsView::Metadata(*metadata),
            Facts::NotFound => FactsView::NotFound,
            Facts::NotDirectory => FactsView::NotDirectory,
            Facts::Failed => FactsView::Failed,
        }
    }
}

/// The elements of a vector, each by its view.
pub open spec fn views<T: View>(items: Seq<T>) -> Seq<T::V> {
    items.map_values(|item: T| item@)
}

/// The error that facts stand for where they do not hold what was expected.
pub open spec fn failure_of(facts: FactsView) -> HandlerError {
    match facts {
        FactsView::NotFound => HandlerError::Request(RequestError::NotFound),
        FactsView::NotDirectory => HandlerError::Request(RequestError::WrongPathKind),
        FactsView::Failed => HandlerError::System(SystemError::Filesystem),
        _ => HandlerError::System(SystemError::Adapter),
    }
}

/// The volumes that the facts report.
pub open spec fn volumes_of(facts: FactsView) -> Result<Seq<DriveInfoView>, HandlerError> {
    match facts {
        FactsView::Volumes(volumes) => Ok(volumes),
        _ => Err(failure_of(facts)),
    }
}

/// The directory entries that the facts report.
pub open spec fn entries_of(facts: FactsView) -> Result<Seq<EntryView>, HandlerError> {
    match facts {
        FactsView::Entries(entries) => Ok(entries),
        _ => Err(failure_of(facts)),
    }
}

/// The metadata that the facts report.
pub open spec fn metadata_of(facts: FactsView) -> Result<Metadata, HandlerError> {
    match facts {
        FactsView::Metadata(metadata) => Ok(metadata),
        _ => Err(failure_of(facts)),
    }
}

/// The test for entries of one kind.
pub open spec fn is_kind(kind: EntryKind) -> spec_fn(EntryView) -> bool {
    |entry: EntryView| entry.kind == kind
}

/// The entries of one kind, in the order of the listing.
pub open spec fn of_kind(entries: Seq<EntryView>, kind: EntryKind) -> Seq<EntryView> {
    entries.filter(is_kind(kind))
}

impl Facts {
    /// The error that these facts stand for where others were expected.
    pub fn failure(&self) -> (error: HandlerError)
        ensures
            error == failure_of(self@),
    {
        match self {
            Facts::NotFound => HandlerError::Request(RequestError::NotFound),
            Facts::NotDirectory => HandlerError::Request(RequestError::WrongPathKind),
            Facts::Failed => HandlerError::System(SystemError::Filesystem),
            _ => HandlerError::System(SystemError::Adapter),
        }
    }

    /// The volumes, where the facts are a list of volumes.
    pub fn volumes(&self) -> (result: Result<&Vec<DriveInfo>, HandlerError>)
        ensures
            match result {
                Ok(volumes) => volumes_of(self@) == Ok::<Seq<DriveInfoView>, HandlerError>(
                    views(volumes@),
                ),
                Err(error) => volumes_of(self@) == Err::<Seq<DriveInfoView>, HandlerError>(error),
            },
    {
        match self {
            Facts::Volumes(volumes) => Ok(volumes),
            _ => Err(self.failure()),
        }
    }

    /// The entries, where the facts are a listing.
    pub fn entries(&self) -> (result: Result<&Vec<DirectoryEntry>, HandlerError>)
        ensures
            match result {
                Ok(entries) => entries_of(self@) == Ok::<Seq<EntryView>, HandlerError>(
                    views(entries@),
                ),
                Err(error) => entries_of(self@) == Err::<Seq<EntryView>, HandlerError>(error),
            },
    {
        match self {
            Facts::Entries(entries) => Ok(entries),
            _ => Err(self.failure()),
        }
    }

    /// The metadata, where the facts are metadata.
    pub fn metadata(&self) -> (result: Result<Metadata, HandlerError>)
        ensures
            result == metadata_of(self@),
    {
        match self {
            Facts::Metadata(metadata) => Ok(*metadata),
            _ => Err(self.failure()),
        }
    }
}

/// The number of entries of one kind in a listing.
pub fn count_of_kind(entries: &Vec<DirectoryEntry>, kind: EntryKind) -> (count: usize)
    ensures
        count == of_kind(views(entries@), kind).len(),
{
    let ghost all = views(entries@);
    let mut count: usize = 0;
    let mut i: usize = 0;
    proof {
        reveal(Seq::filter);
        assert(all.take(0).filter(is_kind(kind)) =~= Seq::<EntryView>::empty());
    }
    while i < entries.len()
        invariant
            i <= entries.len(),
            all == views(entries@),
            count <= i,
            count == of_kind(all.take(i as int), kind).len(),
        decreases entries.len() - i,
    {
        proof {
            reveal(Seq::filter);
            assert(all.take(i + 1).drop_last() =~= all.take(i as int));
        }
        if entries[i].kind == kind {
            count = count + 1;
        }
        i = i + 1;
    }
    assert(all.take(i as int) =~= all);
    count
}

/// The entry at `index` among those of one kind, counted from zero in the
/// order of the listing.
pub fn nth_of_kind(entries: &Vec<DirectoryEntry>, kind: EntryKind, index: i32) -> (found: Option<
    &DirectoryEntry,
>)
    ensures
        match found {
            Some(entry) => 0 <= index < of_kind(views(entries@), kind).len() && entry@ == of_kind(
                views(entries@),
                kind,
            )[index as int],
            None => !(0 <= index < of_kind(views(entries@), kind).len()),
        },
{
    if index < 0 {
        return None;
    }
    let ghost all = views(entries@);
    let mut seen: usize = 0;
    let mut i: usize = 0;
    proof {
        reveal(Seq::filter);
        assert(all.take(0).filter(is_kind(kind)) =~= Seq::<EntryView>::empty());
    }
    while i < entries.len()
        invariant
            i <= entries.len(),
            all == views(entries@),
            0 <= index,
            seen <= i,
            seen <= index,
            seen == of_kind(all.take(i as int), kind).len(),
        decreases entries.len() - i,
    {
        proof {
            reveal(Seq::filter);
            assert(all.take(i + 1).drop_last() =~= all.take(i as int));
        }
        if entries[i].kind == kind {
            if seen == index as usize {
                proof {
                    let front = all.take(i + 1);
                    let back = all.skip(i + 1);
                    assert(front + back =~= all);
                    Seq::filter_distributes_over_add(front, back, is_kind(kind));
                }
                return Some(&entries[i]);
            }
            seen = seen + 1;
        }
        i = i + 1;
    }
    assert(all.take(i as int) =~= all);
    None
}

} // verus!
