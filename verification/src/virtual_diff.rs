//! Files that exist in a diff alone, and which parts of them a view shows.
use std::ops::Range;
use vstd::prelude::*;

verus! {

/// Where a file stands.
#[derive(Clone, Copy, Debug, PartialEq, Eq, Structural)]
pub enum DiskState {
    /// In the past, with what has become of it since.
    Historic { was_deleted: bool },
}

/// A file that exists in a diff alone.
#[derive(Clone, Debug, PartialEq, Eq)]
pub struct VirtualDiffFile<WorktreeId> {
    path: String,
    display_name: String,
    worktree_id: WorktreeId,
    is_deleted: bool,
    is_binary: bool,
}

impl<WorktreeId: Copy> VirtualDiffFile<WorktreeId> {
    /// The file's path.
    pub closed spec fn path_text(&self) -> Seq<char> {
        self.path@
    }

    /// The name under which the file is displayed.
    pub closed spec fn name_text(&self) -> Seq<char> {
        self.display_name@
    }

    /// The worktree that the file is displayed in.
    pub closed spec fn worktree(&self) -> WorktreeId {
        self.worktree_id
    }

    /// Whether the diff deletes the file.
    pub closed spec fn deleted(&self) -> bool {
        self.is_deleted
    }

    /// Whether the file holds no text.
    pub closed spec fn binary(&self) -> bool {
        self.is_binary
    }

    /// A file that exists in a diff alone.
    pub fn new(
        path: String,
        display_name: String,
        worktree_id: WorktreeId,
        is_deleted: bool,
        is_binary: bool,
    ) -> (result: Self)
        ensures
            result.path_text() == path@,
            result.name_text() == display_name@,
            result.worktree() == worktree_id,
            result.deleted() == is_deleted,
            result.binary() == is_binary,
    {
        VirtualDiffFile { path, display_name, worktree_id, is_deleted, is_binary }
    }

    /// Where the file stands: in the past.
    pub fn disk_state(&self) -> (result: DiskState)
        ensures
            result == (DiskState::Historic { was_deleted: self.deleted() }),
    {
        DiskState::Historic { was_deleted: self.is_deleted }
    }

    /// The file's path.
    pub fn path(&self) -> (result: &str)
        ensures
            result@ == self.path_text(),
    {
        self.path.as_str()
    }

    /// The file's path, in full.
    pub fn full_path(&self) -> (result: String)
        ensures
            result@ == self.path_text(),
    {
        self.path.clone()
    }

    /// The name under which the file is displayed.
    pub fn file_name(&self) -> (result: &str)
        ensures
            result@ == self.name_text(),
    {
        self.display_name.as_str()
    }

    /// The worktree that the file is displayed in.
    pub fn worktree_id(&self) -> (result: WorktreeId)
        ensures
            result == self.worktree(),
    {
        self.worktree_id
    }

    /// No such file is private.
    pub fn is_private(&self) -> (result: bool)
        ensures
            !result,
    {
        false
    }

    /// Whether the file can be opened: a binary one cannot.
    pub fn can_open(&self) -> (result: bool)
        ensures
            result == !self.binary(),
    {
        !self.is_binary
    }
}

/// A place in a text.
#[derive(Clone, Copy, Debug, PartialEq, Eq, Structural)]
pub struct Point {
    pub row: u32,
    pub column: u32,
}

/// The parts of a text that a view shows: its hunks, or all of it where there are
/// none and that is wanted. The text ends at `max_point`.
pub fn diff_excerpt_ranges(
    hunks: Vec<Range<Point>>,
    include_full_buffer_when_unchanged: bool,
    max_point: Point,
) -> (result: Vec<Range<Point>>)
    ensures
        include_full_buffer_when_unchanged && hunks@.len() == 0 ==> {
            &&& result@.len() == 1
            &&& result@[0].start == (Point { row: 0, column: 0 })
            &&& result@[0].end == max_point
        },
        !include_full_buffer_when_unchanged || hunks@.len() > 0 ==> result == hunks,
{
    if include_full_buffer_when_unchanged && hunks.len() == 0 {
        let mut result: Vec<Range<Point>> = Vec::new();
        result.push(Point { row: 0, column: 0 }..max_point);
        result
    } else {
        hunks
    }
}

/// How a diff is viewed.
#[derive(Clone, Copy, Debug, PartialEq, Eq, Structural)]
pub enum DiffViewStyle {
    Unified,
    Split,
}

/// Whether a view that was just built is split.
pub fn split_if_needed(style: DiffViewStyle) -> (result: bool)
    ensures
        result == (style == DiffViewStyle::Split),
{
    style == DiffViewStyle::Split
}

/// Whether a view is split once excerpts were inserted into it: on the first batch, if
/// it added some and that is wanted.
pub fn insert_diff_excerpts(
    added_new_excerpt: bool,
    is_first_batch: bool,
    split_on_first_batch: bool,
    style: DiffViewStyle,
) -> (result: bool)
    ensures
        result == (added_new_excerpt && is_first_batch && split_on_first_batch && style
            == DiffViewStyle::Split),
{
    added_new_excerpt && is_first_batch && split_on_first_batch && style == DiffViewStyle::Split
}

} // verus!
