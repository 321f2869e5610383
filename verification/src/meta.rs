//! The values that the metadata service works with.
use vstd::prelude::*;

verus! {

/// The kind of a file system object.
#[derive(Debug, Clone, Copy, PartialEq, Eq, Structural)]
pub enum FileType {
    File,
    Dir,
    Symlink,
}

/// The attributes of a file system object. Times are in nanoseconds since the Unix epoch.
#[derive(Debug, Clone, Copy, PartialEq, Eq, Structural)]
pub struct FileAttr {
    pub ino: i64,
    pub size: u64,
    pub kind: FileType,
    pub mode: u32,
    pub uid: u32,
    pub gid: u32,
    pub atime: i64,
    pub mtime: i64,
    pub ctime: i64,
    pub nlink: u32,
}

impl View for FileAttr {
    type V = FileAttr;

    open spec fn view(&self) -> FileAttr {
        *self
    }
}

/// The attributes to change; those that are `None` keep their value.
#[derive(Debug, Clone, Copy, PartialEq, Eq, Structural)]
pub struct SetAttrRequest {
    pub mode: Option<u32>,
    pub uid: Option<u32>,
    pub gid: Option<u32>,
    pub size: Option<u64>,
    pub atime: Option<i64>,
    pub mtime: Option<i64>,
    pub ctime: Option<i64>,
}

impl SetAttrRequest {
    /// A request that changes nothing.
    pub open spec fn unchanged() -> SetAttrRequest {
        SetAttrRequest {
            mode: None,
            uid: None,
            gid: None,
            size: None,
            atime: None,
            mtime: None,
            ctime: None,
        }
    }
}

impl Default for SetAttrRequest {
    fn default() -> (r: SetAttrRequest)
        ensures
            r == SetAttrRequest::unchanged(),
    {
        SetAttrRequest {
            mode: None,
            uid: None,
            gid: None,
            size: None,
            atime: None,
            mtime: None,
            ctime: None,
        }
    }
}

/// Modifiers of an attribute change, as a set of bits that the metadata service reads.
#[derive(Debug, Clone, Copy, PartialEq, Eq, Structural)]
pub struct SetAttrFlags {
    pub bits: u32,
}

impl SetAttrFlags {
    /// The empty set of modifiers.
    pub fn empty() -> (f: SetAttrFlags)
        ensures
            f == (SetAttrFlags { bits: 0 }),
    {
        SetAttrFlags { bits: 0 }
    }
}

/// One entry of a directory.
#[derive(Debug)]
pub struct DirEntry<S = String> {
    pub name: S,
    pub ino: i64,
    pub kind: FileType,
}

impl View for DirEntry {
    type V = DirEntry<Seq<char>>;

    open spec fn view(&self) -> DirEntry<Seq<char>> {
        DirEntry { name: self.name@, ino: self.ino, kind: self.kind }
    }
}

/// The entries of a directory, in the order in which the metadata service lists them.
#[derive(Debug)]
pub struct Listing {
    pub entries: Vec<DirEntry>,
}

impl View for Listing {
    type V = Seq<DirEntry<Seq<char>>>;

    open spec fn view(&self) -> Seq<DirEntry<Seq<char>>> {
        self.entries@.map_values(|e: DirEntry| e@)
    }
}

/// Space and inode counts as the metadata service reports them.
#[derive(Debug, Clone, Copy, PartialEq, Eq, Structural)]
pub struct StatFsSnapshot {
    pub total_space: u64,
    pub available_space: u64,
    pub used_inodes: u64,
    pub available_inodes: u64,
}

impl View for StatFsSnapshot {
    type V = StatFsSnapshot;

    open spec fn view(&self) -> StatFsSnapshot {
        *self
    }
}

/// The mode of an advisory lock.
#[derive(Debug, Clone, Copy, PartialEq, Eq, Structural)]
pub enum FileLockType {
    Read,
    Write,
    UnLock,
}

/// The byte range of an advisory lock.
#[derive(Debug, Clone, Copy, PartialEq, Eq, Structural)]
pub struct FileLockRange {
    pub start: u64,
    pub end: u64,
}

/// A question about the locks on a file.
#[derive(Debug, Clone, Copy, PartialEq, Eq, Structural)]
pub struct FileLockQuery {
    pub owner: i64,
    pub lock_type: FileLockType,
    pub range: FileLockRange,
}

/// A lock held on a file.
#[derive(Debug, Clone, Copy, PartialEq, Eq, Structural)]
pub struct FileLockInfo {
    pub lock_type: FileLockType,
    pub range: FileLockRange,
    pub pid: u32,
}

impl View for FileLockInfo {
    type V = FileLockInfo;

    open spec fn view(&self) -> FileLockInfo {
        *self
    }
}

} // verus!
