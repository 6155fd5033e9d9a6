//! The walk over managed directories, one bounded page at a time.
//!
//! The walker asks for one directory listing at a time and is told what was
//! found. It keeps the directories that it has not finished on a stack.

use vstd::prelude::*;
use vstd::string::*;
use crate::digest;
use crate::digest::hex_encode;
use crate::text;
use crate::text::{clone_opt, comes_before, concat, contains_char, list_holds, str_eq};
use super::listing;
use super::listing::sorted_directory_entries;
use super::report::{MediaCategory, ReconcileCursor};

verus! {

/// What a directory entry is.
#[derive(Debug, Clone, Copy, PartialEq, Eq, Structural)]
pub enum InventoryEntryKind {
    File,
    Symlink,
    HardLink,
    UnexpectedDirectory,
    Special,
    UnsafePath,
    CrossBoard,
    ScanError,
}

/// What the filesystem says about a directory entry.
#[derive(Debug, Clone, Copy, PartialEq, Eq, Structural)]
pub enum EntryStat {
    /// The entry could not be inspected.
    Unreadable,
    /// A symbolic link.
    Symlink,
    /// Not a link, but on another filesystem than the root.
    OtherDevice,
    /// A directory.
    Directory,
    /// A regular file.
    Regular { hard_linked: bool },
    /// Anything else.
    Special,
}

/// What is said of a root that cannot be walked.
pub const ROOT_NOT_PLAIN: &'static str = "configured managed media root is not a plain directory";

/// Whether the root can be walked: it must be a directory itself, and no link to one.
pub fn admit_root(stat: EntryStat) -> (r: bool)
    ensures
        r == (stat is Directory),
{
    match stat {
        EntryStat::Directory => true,
        _ => false,
    }
}

/// One entry of a directory listing.
#[derive(Debug, Clone)]
pub struct DirectoryEntry {
    /// The bytes of the entry's name.
    pub raw_name: Vec<u8>,
    /// The name as text, where it is valid UTF-8.
    pub name: Option<String>,
    /// What the entry is.
    pub stat: EntryStat,
}

/// The model of a directory entry.
#[verifier::ext_equal]
pub struct DirectoryEntryView {
    pub raw_name: Seq<u8>,
    pub name: Option<Seq<char>>,
    pub stat: EntryStat,
}

impl View for DirectoryEntry {
    type V = DirectoryEntryView;

    open spec fn view(&self) -> DirectoryEntryView {
        DirectoryEntryView {
            raw_name: self.raw_name@,
            name: text::opt_view(self.name),
            stat: self.stat,
        }
    }
}

/// Which managed directory is being walked.
#[derive(Debug, Clone, Copy, PartialEq, Eq, Structural)]
pub enum Location {
    /// The upload root.
    Root,
    /// A board's directory.
    Board,
    /// A board's thumbnails.
    Thumbnails,
    /// The directory of upload stages.
    PendingRoot,
    /// One upload stage.
    Stage,
    /// A board's directory in a stage.
    StageBoard,
    /// A board's thumbnails in a stage.
    StageThumbnails,
}

/// A path below the upload root.
#[derive(Debug, Clone)]
pub struct RelativePath {
    /// The bytes of the path.
    pub raw: Vec<u8>,
    /// The path as text, where it is valid UTF-8.
    pub text: Option<String>,
}

/// The model of a path below the upload root.
#[verifier::ext_equal]
pub struct RelativePathView {
    pub raw: Seq<u8>,
    pub text: Option<Seq<char>>,
}

impl View for RelativePath {
    type V = RelativePathView;

    open spec fn view(&self) -> RelativePathView {
        RelativePathView { raw: self.raw@, text: text::opt_view(self.text) }
    }
}

/// The upload root's own path.
pub open spec fn root_path() -> RelativePathView {
    RelativePathView { raw: Seq::empty(), text: Some(Seq::empty()) }
}

/// The path of an entry of a directory.
pub open spec fn child_path(dir: RelativePathView, entry: DirectoryEntryView) -> RelativePathView {
    if dir.raw.len() == 0 {
        RelativePathView { raw: entry.raw_name, text: entry.name }
    } else {
        RelativePathView {
            raw: dir.raw + seq![47u8] + entry.raw_name,
            text: match (dir.text, entry.name) {
                (Some(d), Some(n)) => Some(d + "/"@ + n),
                _ => None,
            },
        }
    }
}

/// A classified filesystem entry.
#[derive(Debug, Clone)]
pub struct InventoryEntry {
    pub path: RelativePath,
    pub sort_key: String,
    pub board: Option<String>,
    pub category: MediaCategory,
    pub entry_kind: InventoryEntryKind,
}

/// The model of a classified entry.
#[verifier::ext_equal]
pub struct EntryView {
    pub path: RelativePathView,
    pub sort_key: Seq<char>,
    pub board: Option<Seq<char>>,
    pub category: MediaCategory,
    pub entry_kind: InventoryEntryKind,
}

impl View for InventoryEntry {
    type V = EntryView;

    open spec fn view(&self) -> EntryView {
        EntryView {
            path: self.path@,
            sort_key: self.sort_key@,
            board: text::opt_view(self.board),
            category: self.category,
            entry_kind: self.entry_kind,
        }
    }
}

/// One bounded page of classified entries.
#[derive(Debug, Clone)]
pub struct InventoryPage {
    pub entries: Vec<InventoryEntry>,
    pub boards_examined: u64,
    pub has_more: bool,
    pub last_key: Option<String>,
    pub errors: Vec<String>,
}

/// The model of a page.
#[verifier::ext_equal]
pub struct PageView {
    pub entries: Seq<EntryView>,
    pub boards_examined: u64,
    pub has_more: bool,
    pub last_key: Option<Seq<char>>,
    pub errors: Seq<Seq<char>>,
}

impl View for InventoryPage {
    type V = PageView;

    open spec fn view(&self) -> PageView {
        PageView {
            entries: text::views(self.entries@),
            boards_examined: self.boards_examined,
            has_more: self.has_more,
            last_key: text::opt_view(self.last_key),
            errors: text::views(self.errors@),
        }
    }
}

/// The page before anything has been walked.
pub open spec fn empty_page() -> PageView {
    PageView {
        entries: Seq::empty(),
        boards_examined: 0,
        has_more: false,
        last_key: None,
        errors: Seq::empty(),
    }
}

impl Default for InventoryPage {
    fn default() -> (r: Self)
        ensures
            r@ == empty_page(),
    {
        broadcast use text::group_views;

        InventoryPage {
            entries: Vec::new(),
            boards_examined: 0,
            has_more: false,
            last_key: None,
            errors: Vec::new(),
        }
    }
}

/// The key by which pages continue: the path's bytes in hexadecimal.
pub open spec fn sort_key(path: RelativePathView) -> Seq<char> {
    digest::hex_text(path.raw)
}

/// The key of a directory that was to be walked: its path ends in a slash, as the
/// paths of what it holds begin.
pub open spec fn directory_key(path: RelativePathView) -> Seq<char> {
    digest::hex_text(path.raw.push(47u8))
}

/// The page after an entry has been reached. An entry at or before the cursor
/// was on an earlier page; one beyond the limit is left for a later one.
pub open spec fn with_entry(
    page: PageView,
    after: Option<Seq<char>>,
    limit: usize,
    entry: EntryView,
) -> PageView {
    if after is Some && !text::precedes(after->Some_0, entry.sort_key) {
        page
    } else if page.entries.len() >= limit {
        PageView { has_more: true, ..page }
    } else {
        PageView {
            entries: page.entries.push(entry),
            last_key: Some(entry.sort_key),
            ..page
        }
    }
}

/// What to do with a directory entry.
pub enum Decision {
    /// Put it on the page.
    Record { board: Option<Seq<char>>, category: MediaCategory, kind: InventoryEntryKind },
    /// Walk it, as the given directory of the given board.
    Descend { location: Location, board: Option<Seq<char>> },
    /// Leave it alone.
    Skip,
}

/// Whether the name is one that media files have.
pub open spec fn safe_name(name: Option<Seq<char>>) -> bool {
    match name {
        Some(n) => n.len() > 0 && n != "."@ && n != ".."@ && !n.contains('\\') && n[0] != '.',
        None => false,
    }
}

/// What a file is.
pub open spec fn file_kind(stat: EntryStat) -> InventoryEntryKind {
    match stat {
        EntryStat::Regular { hard_linked } => if hard_linked {
            InventoryEntryKind::HardLink
        } else {
            InventoryEntryKind::File
        },
        _ => InventoryEntryKind::Special,
    }
}

/// What an entry is in a directory that holds media files and nothing else.
pub open spec fn media_kind(entry: DirectoryEntryView) -> InventoryEntryKind {
    match entry.stat {
        EntryStat::Unreadable => InventoryEntryKind::ScanError,
        EntryStat::Symlink => InventoryEntryKind::Symlink,
        EntryStat::OtherDevice => InventoryEntryKind::UnsafePath,
        EntryStat::Directory => InventoryEntryKind::UnexpectedDirectory,
        _ => if safe_name(entry.name) {
            file_kind(entry.stat)
        } else {
            InventoryEntryKind::UnsafePath
        },
    }
}

/// Whether the entry is a directory with a known board's name.
pub open spec fn is_board(entry: DirectoryEntryView, boards: Seq<Seq<char>>) -> bool {
    entry.stat is Directory && entry.name is Some && text::holds(boards, entry.name->Some_0)
}

/// What to do with an entry of the upload root.
pub open spec fn root_decision(entry: DirectoryEntryView, boards: Seq<Seq<char>>) -> Decision {
    match entry.stat {
        EntryStat::Unreadable => Decision::Record {
            board: None,
            category: MediaCategory::Unknown,
            kind: InventoryEntryKind::ScanError,
        },
        EntryStat::Symlink => Decision::Record {
            board: None,
            category: MediaCategory::Unknown,
            kind: InventoryEntryKind::Symlink,
        },
        EntryStat::OtherDevice => Decision::Record {
            board: entry.name,
            category: MediaCategory::Unknown,
            kind: InventoryEntryKind::UnsafePath,
        },
        EntryStat::Directory => if entry.name == Some(".pending"@) {
            Decision::Descend { location: Location::PendingRoot, board: None }
        } else if is_board(entry, boards) {
            Decision::Descend { location: Location::Board, board: entry.name }
        } else {
            Decision::Record {
                board: entry.name,
                category: MediaCategory::Unknown,
                kind: InventoryEntryKind::CrossBoard,
            }
        },
        _ => Decision::Record {
            board: None,
            category: MediaCategory::Unknown,
            kind: file_kind(entry.stat),
        },
    }
}

/// What to do with an entry of a board's directory.
pub open spec fn board_decision(entry: DirectoryEntryView, board: Option<Seq<char>>) -> Decision {
    match entry.stat {
        EntryStat::Directory => if entry.name == Some("thumbs"@) {
            Decision::Descend { location: Location::Thumbnails, board }
        } else if entry.name == Some("_banner"@) || entry.name == Some("_favicon"@) {
            Decision::Skip
        } else {
            Decision::Record {
                board,
                category: MediaCategory::Unknown,
                kind: InventoryEntryKind::UnexpectedDirectory,
            }
        },
        EntryStat::Regular { hard_linked: _ } => Decision::Record {
            board,
            category: MediaCategory::Original,
            kind: media_kind(entry),
        },
        EntryStat::Special => Decision::Record {
            board,
            category: MediaCategory::Original,
            kind: media_kind(entry),
        },
        _ => Decision::Record { board, category: MediaCategory::Unknown, kind: media_kind(entry) },
    }
}

/// What to do with an entry of a directory.
pub open spec fn decision(
    location: Location,
    board: Option<Seq<char>>,
    entry: DirectoryEntryView,
    boards: Seq<Seq<char>>,
) -> Decision {
    match location {
        Location::Root => root_decision(entry, boards),
        Location::Board => board_decision(entry, board),
        Location::Thumbnails => Decision::Record {
            board,
            category: MediaCategory::Thumbnail,
            kind: media_kind(entry),
        },
        Location::PendingRoot => if entry.stat is Directory {
            Decision::Descend { location: Location::Stage, board: None }
        } else {
            Decision::Record {
                board: None,
                category: MediaCategory::UploadStage,
                kind: match entry.stat {
                    EntryStat::Unreadable => InventoryEntryKind::ScanError,
                    EntryStat::Symlink => InventoryEntryKind::Symlink,
                    EntryStat::OtherDevice => InventoryEntryKind::UnsafePath,
                    _ => file_kind(entry.stat),
                },
            }
        },
        Location::Stage => if is_board(entry, boards) {
            Decision::Descend { location: Location::StageBoard, board: entry.name }
        } else {
            Decision::Record {
                board: entry.name,
                category: MediaCategory::UploadStage,
                kind: match entry.stat {
                    EntryStat::Unreadable => InventoryEntryKind::ScanError,
                    EntryStat::Symlink => InventoryEntryKind::Symlink,
                    EntryStat::OtherDevice => InventoryEntryKind::UnsafePath,
                    _ => InventoryEntryKind::CrossBoard,
                },
            }
        },
        Location::StageBoard => if entry.stat is Directory && entry.name == Some("thumbs"@) {
            Decision::Descend { location: Location::StageThumbnails, board }
        } else {
            Decision::Record {
                board,
                category: MediaCategory::UploadStage,
                kind: media_kind(entry),
            }
        },
        Location::StageThumbnails => Decision::Record {
            board,
            category: MediaCategory::UploadStage,
            kind: media_kind(entry),
        },
    }
}

/// A symbolic link is never walked, whatever directory it stands in.
pub proof fn law_links_are_never_followed(
    location: Location,
    board: Option<Seq<char>>,
    entry: DirectoryEntryView,
    boards: Seq<Seq<char>>,
)
    ensures
        decision(location, board, entry, boards) is Descend ==> entry.stat is Directory,
{
}

/// Only plain files with one name are taken for media files.
pub proof fn law_only_plain_files_are_media(
    location: Location,
    board: Option<Seq<char>>,
    entry: DirectoryEntryView,
    boards: Seq<Seq<char>>,
)
    requires
        decision(location, board, entry, boards) is Record,
        decision(location, board, entry, boards)->kind is File,
    ensures
        entry.stat == (EntryStat::Regular { hard_linked: false }),
{
}

/// The executable form of a decision.
#[derive(Debug, Clone)]
pub enum Visit {
    /// Put the entry on the page.
    Record { board: Option<String>, category: MediaCategory, kind: InventoryEntryKind },
    /// Walk the entry.
    Descend { location: Location, board: Option<String> },
    /// Leave the entry alone.
    Skip,
}

impl View for Visit {
    type V = Decision;

    open spec fn view(&self) -> Decision {
        match self {
            Visit::Record { board, category, kind } => Decision::Record {
                board: text::opt_view(*board),
                category: *category,
                kind: *kind,
            },
            Visit::Descend { location, board } => Decision::Descend {
                location: *location,
                board: text::opt_view(*board),
            },
            Visit::Skip => Decision::Skip,
        }
    }
}

/// Whether the name is one that media files have.
pub fn is_safe_file_name(name: &str) -> (r: bool)
    ensures
        r == safe_name(Some(name@)),
{
    let a = text::chars_of(name);
    a.len() > 0 && !str_eq(name, ".") && !str_eq(name, "..") && !contains_char(name, '\\') && a[0]
        != '.'
}

fn name_is(name: &Option<String>, expected: &str) -> (r: bool)
    ensures
        r == (text::opt_view(*name) == Some(expected@)),
{
    match name {
        Some(n) => str_eq(n.as_str(), expected),
        None => false,
    }
}

fn name_is_safe(name: &Option<String>) -> (r: bool)
    ensures
        r == safe_name(text::opt_view(*name)),
{
    match name {
        Some(n) => is_safe_file_name(n.as_str()),
        None => false,
    }
}

/// What a file is.
pub fn file_entry_kind(stat: EntryStat) -> (r: InventoryEntryKind)
    ensures
        r == file_kind(stat),
{
    match stat {
        EntryStat::Regular { hard_linked } => if hard_linked {
            InventoryEntryKind::HardLink
        } else {
            InventoryEntryKind::File
        },
        _ => InventoryEntryKind::Special,
    }
}

fn media_entry_kind(entry: &DirectoryEntry) -> (r: InventoryEntryKind)
    ensures
        r == media_kind(entry@),
{
    match entry.stat {
        EntryStat::Unreadable => InventoryEntryKind::ScanError,
        EntryStat::Symlink => InventoryEntryKind::Symlink,
        EntryStat::OtherDevice => InventoryEntryKind::UnsafePath,
        EntryStat::Directory => InventoryEntryKind::UnexpectedDirectory,
        _ => if name_is_safe(&entry.name) {
            file_entry_kind(entry.stat)
        } else {
            InventoryEntryKind::UnsafePath
        },
    }
}

fn is_board_directory(entry: &DirectoryEntry, boards: &Vec<String>) -> (r: bool)
    ensures
        r == is_board(entry@, text::views(boards@)),
{
    if entry.stat != EntryStat::Directory {
        return false;
    }
    match &entry.name {
        Some(name) => list_holds(boards, name.as_str()),
        None => false,
    }
}

fn visit_root_entry(entry: &DirectoryEntry, boards: &Vec<String>) -> (r: Visit)
    ensures
        r@ == root_decision(entry@, text::views(boards@)),
{
    match entry.stat {
        EntryStat::Unreadable => Visit::Record {
            board: None,
            category: MediaCategory::Unknown,
            kind: InventoryEntryKind::ScanError,
        },
        EntryStat::Symlink => Visit::Record {
            board: None,
            category: MediaCategory::Unknown,
            kind: InventoryEntryKind::Symlink,
        },
        EntryStat::OtherDevice => Visit::Record {
            board: clone_opt(&entry.name),
            category: MediaCategory::Unknown,
            kind: InventoryEntryKind::UnsafePath,
        },
        EntryStat::Directory => if name_is(&entry.name, ".pending") {
            Visit::Descend { location: Location::PendingRoot, board: None }
        } else if is_board_directory(entry, boards) {
            Visit::Descend { location: Location::Board, board: clone_opt(&entry.name) }
        } else {
            Visit::Record {
                board: clone_opt(&entry.name),
                category: MediaCategory::Unknown,
                kind: InventoryEntryKind::CrossBoard,
            }
        },
        _ => Visit::Record {
            board: None,
            category: MediaCategory::Unknown,
            kind: file_entry_kind(entry.stat),
        },
    }
}

fn visit_board_entry(entry: &DirectoryEntry, board: &Option<String>) -> (r: Visit)
    ensures
        r@ == board_decision(entry@, text::opt_view(*board)),
{
    let board = clone_opt(board);
    match entry.stat {
        EntryStat::Directory => if name_is(&entry.name, "thumbs") {
            Visit::Descend { location: Location::Thumbnails, board }
        } else if name_is(&entry.name, "_banner") || name_is(&entry.name, "_favicon") {
            Visit::Skip
        } else {
            Visit::Record {
                board,
                category: MediaCategory::Unknown,
                kind: InventoryEntryKind::UnexpectedDirectory,
            }
        },
        EntryStat::Regular { .. } | EntryStat::Special => Visit::Record {
            board,
            category: MediaCategory::Original,
            kind: media_entry_kind(entry),
        },
        _ => Visit::Record {
            board,
            category: MediaCategory::Unknown,
            kind: media_entry_kind(entry),
        },
    }
}

/// Decides what to do with an entry of a directory.
pub fn visit_entry(
    location: Location,
    board: &Option<String>,
    entry: &DirectoryEntry,
    boards: &Vec<String>,
) -> (r: Visit)
    ensures
        r@ == decision(location, text::opt_view(*board), entry@, text::views(boards@)),
{
    match location {
        Location::Root => visit_root_entry(entry, boards),
        Location::Board => visit_board_entry(entry, board),
        Location::Thumbnails => Visit::Record {
            board: clone_opt(board),
            category: MediaCategory::Thumbnail,
            kind: media_entry_kind(entry),
        },
        Location::PendingRoot => match entry.stat {
            EntryStat::Directory => Visit::Descend { location: Location::Stage, board: None },
            EntryStat::Unreadable => Visit::Record {
                board: None,
                category: MediaCategory::UploadStage,
                kind: InventoryEntryKind::ScanError,
            },
            EntryStat::Symlink => Visit::Record {
                board: None,
                category: MediaCategory::UploadStage,
                kind: InventoryEntryKind::Symlink,
            },
            EntryStat::OtherDevice => Visit::Record {
                board: None,
                category: MediaCategory::UploadStage,
                kind: InventoryEntryKind::UnsafePath,
            },
            _ => Visit::Record {
                board: None,
                category: MediaCategory::UploadStage,
                kind: file_entry_kind(entry.stat),
            },
        },
        Location::Stage => {
            if is_board_directory(entry, boards) {
                return Visit::Descend {
                    location: Location::StageBoard,
                    board: clone_opt(&entry.name),
                };
            }
            let kind = match entry.stat {
                EntryStat::Unreadable => InventoryEntryKind::ScanError,
                EntryStat::Symlink => InventoryEntryKind::Symlink,
                EntryStat::OtherDevice => InventoryEntryKind::UnsafePath,
                _ => InventoryEntryKind::CrossBoard,
            };
            Visit::Record {
                board: clone_opt(&entry.name),
                category: MediaCategory::UploadStage,
                kind,
            }
        },
        Location::StageBoard => if entry.stat == EntryStat::Directory && name_is(
            &entry.name,
            "thumbs",
        ) {
            Visit::Descend { location: Location::StageThumbnails, board: clone_opt(board) }
        } else {
            Visit::Record {
                board: clone_opt(board),
                category: MediaCategory::UploadStage,
                kind: media_entry_kind(entry),
            }
        },
        Location::StageThumbnails => Visit::Record {
            board: clone_opt(board),
            category: MediaCategory::UploadStage,
            kind: media_entry_kind(entry),
        },
    }
}

/// The category of a directory that cannot be listed.
pub open spec fn unlisted_category(location: Location) -> MediaCategory {
    match location {
        Location::Root => MediaCategory::Unknown,
        Location::Board => MediaCategory::Unknown,
        Location::Thumbnails => MediaCategory::Thumbnail,
        _ => MediaCategory::UploadStage,
    }
}

/// What reading a directory gave.
#[derive(Debug, Clone)]
pub enum Listing {
    /// The directory could not be read.
    Failed(String),
    /// The entries, in any order.
    Entries(Vec<DirectoryEntry>),
}

/// The model of a listing.
pub enum ListingView {
    Failed(Seq<char>),
    Entries(Seq<DirectoryEntryView>),
}

impl View for Listing {
    type V = ListingView;

    open spec fn view(&self) -> ListingView {
        match self {
            Listing::Failed(error) => ListingView::Failed(error@),
            Listing::Entries(entries) => ListingView::Entries(text::views(entries@)),
        }
    }
}

/// A directory that has been listed and is being walked.
#[derive(Debug)]
pub struct Frame {
    pub location: Location,
    pub board: Option<String>,
    pub path: RelativePath,
    pub entries: Vec<DirectoryEntry>,
    pub next: usize,
}

/// The model of a directory being walked: the entries still to come.
#[verifier::ext_equal]
pub struct FrameView {
    pub location: Location,
    pub board: Option<Seq<char>>,
    pub path: RelativePathView,
    pub rest: Seq<DirectoryEntryView>,
}

impl View for Frame {
    type V = FrameView;

    open spec fn view(&self) -> FrameView {
        FrameView {
            location: self.location,
            board: text::opt_view(self.board),
            path: self.path@,
            rest: if self.next <= self.entries@.len() {
                text::views(self.entries@).skip(self.next as int)
            } else {
                Seq::empty()
            },
        }
    }
}

/// A directory that has to be listed next.
#[derive(Debug, Clone)]
pub struct Request {
    pub location: Location,
    pub board: Option<String>,
    pub path: RelativePath,
}

/// The model of a directory that has to be listed next.
#[verifier::ext_equal]
pub struct RequestView {
    pub location: Location,
    pub board: Option<Seq<char>>,
    pub path: RelativePathView,
}

impl View for Request {
    type V = RequestView;

    open spec fn view(&self) -> RequestView {
        RequestView {
            location: self.location,
            board: text::opt_view(self.board),
            path: self.path@,
        }
    }
}

/// An entry of a directory, as it is put on the page.
pub open spec fn listed_entry(
    path: RelativePathView,
    board: Option<Seq<char>>,
    category: MediaCategory,
    entry_kind: InventoryEntryKind,
) -> EntryView {
    EntryView { path, sort_key: sort_key(path), board, category, entry_kind }
}

/// A directory that could not be listed, as it is put on the page.
pub open spec fn unlisted_entry(request: RequestView) -> EntryView {
    EntryView {
        path: request.path,
        sort_key: directory_key(request.path),
        board: request.board,
        category: unlisted_category(request.location),
        entry_kind: InventoryEntryKind::ScanError,
    }
}

/// The walk over the managed directories.
#[derive(Debug)]
pub struct InventoryWalker {
    pub boards: Vec<String>,
    pub after: Option<String>,
    pub limit: usize,
    pub stack: Vec<Frame>,
    pub page: InventoryPage,
}

/// The model of the walk.
#[verifier::ext_equal]
pub struct WalkerView {
    pub boards: Seq<Seq<char>>,
    pub after: Option<Seq<char>>,
    pub limit: usize,
    pub stack: Seq<FrameView>,
    pub page: PageView,
}

impl View for InventoryWalker {
    type V = WalkerView;

    open spec fn view(&self) -> WalkerView {
        WalkerView {
            boards: text::views(self.boards@),
            after: text::opt_view(self.after),
            limit: self.limit,
            stack: text::views(self.stack@),
            page: self.page@,
        }
    }
}

impl WalkerView {
    /// The walk after an entry has been put on the page.
    pub open spec fn recorded(self, entry: EntryView) -> WalkerView {
        WalkerView { page: with_entry(self.page, self.after, self.limit, entry), ..self }
    }

    /// The walk after a directory has been listed.
    pub open spec fn entered(self, request: RequestView, listing: ListingView) -> WalkerView {
        match listing {
            ListingView::Entries(entries) => WalkerView {
                stack: self.stack.push(
                    FrameView {
                        location: request.location,
                        board: request.board,
                        path: request.path,
                        rest: listing::in_walk_order(entries, request.location, self.boards),
                    },
                ),
                ..self
            },
            ListingView::Failed(error) => if request.location is Root {
                WalkerView {
                    page: PageView {
                        errors: self.page.errors.push(
                            "managed root enumeration failed: "@ + error,
                        ),
                        ..self.page
                    },
                    ..self
                }
            } else {
                self.recorded(unlisted_entry(request))
            },
        }
    }

    /// The walk after its next step: a directory is left once nothing of it is to
    /// come or the page is full; otherwise its next entry is dealt with.
    pub open spec fn stepped(self) -> WalkerView {
        let top = self.stack.last();
        let below = self.stack.drop_last();
        if self.page.has_more || top.rest.len() == 0 {
            WalkerView { stack: below, ..self }
        } else {
            let entry = top.rest[0];
            let left = WalkerView {
                stack: below.push(FrameView { rest: top.rest.skip(1), ..top }),
                ..self
            };
            match decision(top.location, top.board, entry, self.boards) {
                Decision::Record { board, category, kind } => left.recorded(
                    listed_entry(child_path(top.path, entry), board, category, kind),
                ),
                Decision::Descend { location, board: _ } => if location is Board {
                    WalkerView {
                        page: PageView {
                            boards_examined: super::report::saturated(
                                self.page.boards_examined as int,
                                1,
                            ),
                            ..self.page
                        },
                        ..left
                    }
                } else {
                    left
                },
                Decision::Skip => left,
            }
        }
    }

    /// The directory that the next step asks for.
    pub open spec fn requested(self) -> Option<RequestView> {
        let top = self.stack.last();
        if self.page.has_more || top.rest.len() == 0 {
            None
        } else {
            match decision(top.location, top.board, top.rest[0], self.boards) {
                Decision::Descend { location, board } => Some(
                    RequestView { location, board, path: child_path(top.path, top.rest[0]) },
                ),
                _ => None,
            }
        }
    }

    /// Whether the page keeps its bounds: no more entries than allowed, each
    /// beyond the cursor, the last key that of the last entry, and more to come
    /// only where the page is full.
    pub open spec fn in_bounds(self) -> bool {
        let page = self.page;
        &&& page.entries.len() <= self.limit
        &&& page.has_more ==> page.entries.len() >= self.limit
        &&& page.entries.len() > 0 ==> page.last_key == Some(page.entries.last().sort_key)
        &&& forall|i: int|
            0 <= i < page.entries.len() ==> {
                &&& (#[trigger] page.entries[i]).sort_key == sort_key(page.entries[i].path)
                    || page.entries[i].sort_key == directory_key(page.entries[i].path)
                &&& self.after is Some ==> text::precedes(
                    self.after->Some_0,
                    page.entries[i].sort_key,
                )
            }
    }
}

/// Every step and every listing keeps the page within its bounds.
pub proof fn law_walk_keeps_bounds(
    walk: WalkerView,
    request: RequestView,
    listing: ListingView,
)
    requires
        walk.in_bounds(),
        walk.stack.len() > 0,
    ensures
        walk.stepped().in_bounds(),
        walk.entered(request, listing).in_bounds(),
{
}

/// A full page takes no more entries.
pub proof fn law_full_pages_stay_as_they_are(walk: WalkerView)
    requires
        walk.page.has_more,
    ensures
        walk.stepped().page == walk.page,
        walk.requested() is None,
{
}

fn append_bytes(bytes: &mut Vec<u8>, more: &Vec<u8>)
    ensures
        final(bytes)@ == old(bytes)@ + more@,
{
    let ghost start = bytes@;
    let mut i: usize = 0;
    assert(start + more@.take(0) =~= start);
    while i < more.len()
        invariant
            i <= more@.len(),
            bytes@ == start + more@.take(i as int),
        decreases more@.len() - i,
    {
        bytes.push(more[i]);
        assert(start + more@.take(i as int + 1) =~= (start + more@.take(i as int)).push(
            more@[i as int],
        ));
        i = i + 1;
    }
    assert(more@.take(more@.len() as int) =~= more@);
}

fn path_of_child(dir: &RelativePath, entry: &DirectoryEntry) -> (r: RelativePath)
    ensures
        r@ == child_path(dir@, entry@),
{
    let mut raw: Vec<u8> = Vec::new();
    append_bytes(&mut raw, &dir.raw);
    if raw.len() == 0 {
        append_bytes(&mut raw, &entry.raw_name);
        assert(raw@ =~= entry.raw_name@);
        return RelativePath { raw, text: clone_opt(&entry.name) };
    }
    raw.push(47u8);
    append_bytes(&mut raw, &entry.raw_name);
    assert(raw@ =~= dir.raw@ + seq![47u8] + entry.raw_name@);
    let text = match (&dir.text, &entry.name) {
        (Some(d), Some(n)) => {
            let mut joined = concat(d.as_str(), "/");
            joined.append(n.as_str());
            Some(joined)
        },
        _ => None,
    };
    RelativePath { raw, text }
}

impl InventoryWalker {
    /// The walk over the known boards, after the cursor, up to the limit.
    pub fn new(boards: &Vec<String>, cursor: &ReconcileCursor, limit: usize) -> (r: Self)
        ensures
            r@ == (WalkerView {
                boards: text::views(boards@),
                after: cursor.after(),
                limit,
                stack: Seq::empty(),
                page: empty_page(),
            }),
            r@.in_bounds(),
    {
        broadcast use text::group_views;

        InventoryWalker {
            boards: text::copy_list(boards),
            after: clone_opt(&cursor.after_managed_key),
            limit,
            stack: Vec::new(),
            page: InventoryPage::default(),
        }
    }

    /// The request that starts the walk.
    pub fn root_request() -> (r: Request)
        ensures
            r@ == (RequestView { location: Location::Root, board: None, path: root_path() }),
    {
        let r = Request {
            location: Location::Root,
            board: None,
            path: RelativePath { raw: Vec::new(), text: Some(String::new()) },
        };
        assert(r@.path =~= root_path());
        r
    }

    /// Puts an entry on the page, unless an earlier page had it or the page is
    /// full.
    fn push_entry(&mut self, entry: InventoryEntry)
        ensures
            final(self)@ == old(self)@.recorded(entry@),
    {
        broadcast use text::group_views;

        if let Some(after) = &self.after {
            if !comes_before(after.as_str(), entry.sort_key.as_str()) {
                return ;
            }
        }
        if self.page.entries.len() >= self.limit {
            self.page.has_more = true;
            return ;
        }
        self.page.last_key = Some(entry.sort_key.clone());
        self.page.entries.push(entry);
    }

    /// Puts an entry of a directory on the page, unless an earlier page had it or
    /// the page is full.
    pub fn push_path(
        &mut self,
        path: RelativePath,
        board: Option<String>,
        category: MediaCategory,
        entry_kind: InventoryEntryKind,
    )
        ensures
            final(self)@ == old(self)@.recorded(
                listed_entry(path@, text::opt_view(board), category, entry_kind),
            ),
    {
        let sort_key = hex_encode(path.raw.as_slice());
        self.push_entry(InventoryEntry { path, sort_key, board, category, entry_kind });
    }

    /// Puts a directory that could not be listed on the page, unless an earlier page
    /// had it or the page is full.
    fn push_unlisted(&mut self, request: Request)
        ensures
            final(self)@ == old(self)@.recorded(unlisted_entry(request@)),
    {
        let category = match request.location {
            Location::Root | Location::Board => MediaCategory::Unknown,
            Location::Thumbnails => MediaCategory::Thumbnail,
            _ => MediaCategory::UploadStage,
        };
        let mut raw: Vec<u8> = Vec::new();
        append_bytes(&mut raw, &request.path.raw);
        raw.push(47u8);
        assert(raw@ =~= request.path.raw@.push(47u8));
        let sort_key = hex_encode(raw.as_slice());
        self.push_entry(
            InventoryEntry {
                path: request.path,
                sort_key,
                board: request.board,
                category,
                entry_kind: InventoryEntryKind::ScanError,
            },
        );
    }

    /// Tells the walk what listing a directory gave.
    pub fn enter(&mut self, request: Request, listing: Listing)
        ensures
            final(self)@ == old(self)@.entered(request@, listing@),
    {
        broadcast use text::group_views;

        match listing {
            Listing::Entries(unordered) => {
                let entries = sorted_directory_entries(
                    unordered,
                    request.location,
                    &self.boards,
                );
                let frame = Frame {
                    location: request.location,
                    board: request.board,
                    path: request.path,
                    entries,
                    next: 0,
                };
                assert(frame@.rest =~= text::views(entries@));
                self.stack.push(frame);
            },
            Listing::Failed(error) => {
                if request.location == Location::Root {
                    self.page.errors.push(
                        concat("managed root enumeration failed: ", error.as_str()),
                    );
                } else {
                    self.push_unlisted(request);
                }
            },
        }
    }

    /// Whether nothing is left to walk.
    pub fn is_done(&self) -> (r: bool)
        ensures
            r == (self@.stack.len() == 0),
    {
        self.stack.len() == 0
    }

    /// Takes the next step and says which directory has to be listed, if any.
    pub fn step(&mut self) -> (r: Option<Request>)
        requires
            old(self)@.stack.len() > 0,
        ensures
            final(self)@ == old(self)@.stepped(),
            text::opt_view(r) == old(self)@.requested(),
    {
        broadcast use text::group_views;

        let ghost start = self@;
        let ghost frames = self.stack@;
        let mut frame = match self.stack.pop() {
            Some(frame) => frame,
            None => {
                return None;
            },
        };
        assert(text::views(frames).last() == frame@);
        assert(text::views(self.stack@) =~= start.stack.drop_last());
        if self.page.has_more || frame.next >= frame.entries.len() {
            return None;
        }
        let ghost before = frame@;
        let entry = &frame.entries[frame.next];
        assert(before.rest[0] == entry@);
        let path = path_of_child(&frame.path, entry);
        let visit = visit_entry(frame.location, &frame.board, entry, &self.boards);
        frame.next = frame.next + 1;
        assert(frame@.rest =~= before.rest.skip(1));
        self.stack.push(frame);
        match visit {
            Visit::Record { board, category, kind } => {
                self.push_path(path, board, category, kind);
                None
            },
            Visit::Descend { location, board } => {
                if location == Location::Board {
                    self.page.boards_examined = self.page.boards_examined.saturating_add(1);
                }
                Some(Request { location, board, path })
            },
            Visit::Skip => None,
        }
    }

    /// The page that the walk has filled.
    pub fn scan(self) -> (r: InventoryPage)
        ensures
            r@ == self@.page,
    {
        self.page
    }
}

/// Wherever it is found, a symbolic link is put on the page as one, what cannot be
/// inspected as an error, and what lies on another filesystem as unsafe: none is walked.
pub proof fn law_doubtful_entries_are_put_on_the_page(
    location: Location,
    board: Option<Seq<char>>,
    entry: DirectoryEntryView,
    boards: Seq<Seq<char>>,
)
    ensures
        ({
            let d = decision(location, board, entry, boards);
            &&& entry.stat is Symlink ==> d is Record && d->kind is Symlink
            &&& entry.stat is Unreadable ==> d is Record && d->kind is ScanError
            &&& entry.stat is OtherDevice ==> d is Record && d->kind is UnsafePath
            &&& entry.stat == (EntryStat::Regular { hard_linked: true }) ==> d is Record
                && !(d->kind is File)
            &&& d is Skip ==> entry.stat is Directory && location is Board && (entry.name == Some(
                "_banner"@,
            ) || entry.name == Some("_favicon"@))
        }),
{
}

/// A plain file with a visible name is put on the page as its board's media: an original in
/// a board's directory, a thumbnail in its `thumbs`, a staged file in a stage. One with more
/// than one link, or with a name that is hidden or holds a backslash, is put there as
/// unsafe.
pub proof fn law_plain_files_are_media_of_their_board(
    location: Location,
    board: Option<Seq<char>>,
    name: Option<Seq<char>>,
    raw_name: Seq<u8>,
    hard_linked: bool,
    boards: Seq<Seq<char>>,
)
    requires
        location is Board || location is Thumbnails || location is StageBoard
            || location is StageThumbnails,
    ensures
        ({
            let entry = DirectoryEntryView {
                raw_name,
                name,
                stat: EntryStat::Regular { hard_linked },
            };
            let visible = name is Some && name->Some_0.len() > 0 && name->Some_0[0] != '.'
                && !name->Some_0.contains('\\');
            let d = decision(location, board, entry, boards);
            &&& d is Record
            &&& d->Record_board == board
            &&& d->category == (if location is Board {
                MediaCategory::Original
            } else if location is Thumbnails {
                MediaCategory::Thumbnail
            } else {
                MediaCategory::UploadStage
            })
            &&& d->kind is File <==> visible && !hard_linked
            &&& d->kind is HardLink <==> visible && hard_linked
            &&& d->kind is UnsafePath <==> !visible
        }),
{
    reveal_strlit(".");
    reveal_strlit("..");
    assert("."@[0] == '.' && ".."@[0] == '.');
}

/// The directories that are walked: the known boards and `.pending` at the root, `thumbs` in
/// a board, every stage, the known boards in it and `thumbs` in those. Any other directory
/// is put on the page as one that is not expected there, but for the banners and icons of a
/// board.
pub proof fn law_directories_are_walked_where_media_is_kept(
    location: Location,
    board: Option<Seq<char>>,
    name: Seq<char>,
    raw_name: Seq<u8>,
    boards: Seq<Seq<char>>,
)
    ensures
        ({
            let entry = DirectoryEntryView { raw_name, name: Some(name), stat: EntryStat::Directory };
            let d = decision(location, board, entry, boards);
            &&& location is Root && name == ".pending"@ ==> d is Descend && d->location
                is PendingRoot
            &&& location is Root && name != ".pending"@ && boards.contains(name) ==> d is Descend
                && d->location is Board && d->Descend_board == Some(name)
            &&& location is Root && name != ".pending"@ && !boards.contains(name) ==> d is Record
                && d->kind is CrossBoard
            &&& location is Board && name == "thumbs"@ ==> d is Descend && d->location is Thumbnails
                && d->Descend_board == board
            &&& location is Board && (name == "_banner"@ || name == "_favicon"@) ==> d is Skip
            &&& location is Board && name != "thumbs"@ && name != "_banner"@ && name
                != "_favicon"@ ==> d is Record && d->kind is UnexpectedDirectory
            &&& location is Thumbnails || location is StageThumbnails ==> d is Record && d->kind
                is UnexpectedDirectory
            &&& location is PendingRoot ==> d is Descend && d->location is Stage
            &&& location is Stage && boards.contains(name) ==> d is Descend && d->location
                is StageBoard && d->Descend_board == Some(name)
            &&& location is Stage && !boards.contains(name) ==> d is Record && d->kind is CrossBoard
            &&& location is StageBoard && name == "thumbs"@ ==> d is Descend && d->location
                is StageThumbnails && d->Descend_board == board
            &&& location is StageBoard && name != "thumbs"@ ==> d is Record && d->kind
                is UnexpectedDirectory
        }),
{
    reveal_strlit("thumbs");
    reveal_strlit("_banner");
    reveal_strlit("_favicon");
    assert("thumbs"@.len() == 6 && "thumbs"@[0] == 't' && "thumbs"@[1] == 'h'
        && "thumbs"@[2] == 'u' && "thumbs"@[3] == 'm' && "thumbs"@[4] == 'b'
        && "thumbs"@[5] == 's');
    assert("_banner"@.len() == 7 && "_banner"@[0] == '_' && "_banner"@[1] == 'b'
        && "_banner"@[2] == 'a' && "_banner"@[3] == 'n' && "_banner"@[4] == 'n'
        && "_banner"@[5] == 'e' && "_banner"@[6] == 'r');
    assert("_favicon"@.len() == 8 && "_favicon"@[0] == '_' && "_favicon"@[1] == 'f'
        && "_favicon"@[2] == 'a' && "_favicon"@[3] == 'v' && "_favicon"@[4] == 'i'
        && "_favicon"@[5] == 'c' && "_favicon"@[6] == 'o' && "_favicon"@[7] == 'n');
}

/// An entry is put on the page exactly where it comes after the key from which the walk
/// resumes and the page has room; where it comes after and there is none, more is to come.
pub proof fn law_pages_hold_what_follows_the_cursor(
    page: PageView,
    after: Option<Seq<char>>,
    limit: usize,
    entry: EntryView,
)
    ensures
        ({
            let next = with_entry(page, after, limit, entry);
            let follows = after is None || text::precedes(after->Some_0, entry.sort_key);
            &&& follows && page.entries.len() < limit ==> next.entries == page.entries.push(entry)
                && next.last_key == Some(entry.sort_key) && next.has_more == page.has_more
            &&& follows && page.entries.len() >= limit ==> next.entries == page.entries
                && next.has_more && next.last_key == page.last_key
            &&& !follows ==> next == page
            &&& next.errors == page.errors && next.boards_examined == page.boards_examined
        }),
{
}

/// A path below a directory is the directory's, a slash and the name; at the root it is the
/// name.
pub proof fn law_paths_are_joined_by_slashes(dir: RelativePathView, entry: DirectoryEntryView)
    ensures
        ({
            let child = child_path(dir, entry);
            &&& dir.raw.len() == 0 ==> child.raw == entry.raw_name && child.text == entry.name
            &&& dir.raw.len() > 0 ==> child.raw.len() == dir.raw.len() + 1 + entry.raw_name.len()
            &&& dir.raw.len() > 0 ==> child.raw.take(dir.raw.len() as int) == dir.raw
                && child.raw[dir.raw.len() as int] == 47 && child.raw.skip(dir.raw.len() as int + 1)
                == entry.raw_name
            &&& dir.raw.len() > 0 && dir.text is Some && entry.name is Some ==> child.text == Some(
                dir.text->Some_0 + "/"@ + entry.name->Some_0,
            )
            &&& dir.raw.len() > 0 && (dir.text is None || entry.name is None) ==> child.text is None
        }),
{
    if dir.raw.len() > 0 {
        let child = child_path(dir, entry);
        assert(child.raw.take(dir.raw.len() as int) =~= dir.raw);
        assert(child.raw.skip(dir.raw.len() as int + 1) =~= entry.raw_name);
    }
}

/// A directory that cannot be listed is put on the page as an error, but for the root, whose
/// error the page keeps.
pub proof fn law_unlisted_directories_are_errors(
    walk: WalkerView,
    request: RequestView,
    error: Seq<char>,
)
    requires
        walk.page.entries.len() < walk.limit,
        walk.after is None,
    ensures
        ({
            let next = walk.entered(request, ListingView::Failed(error));
            &&& request.location is Root ==> next.page.errors == walk.page.errors.push(
                "managed root enumeration failed: "@ + error,
            ) && next.page.entries == walk.page.entries
            &&& !(request.location is Root) ==> next.page.entries.len() == walk.page.entries.len()
                + 1 && next.page.entries.last().entry_kind is ScanError
                && next.page.entries.last().path == request.path
                && next.page.entries.last().board == request.board
            &&& next.stack == walk.stack
        }),
{
}

} // verus!
