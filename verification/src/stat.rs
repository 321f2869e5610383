//! What the file system tells about itself and about its files, and how files are opened.
use crate::clock;
use crate::clock::epoch_plus_nanos;
use crate::meta::{FileAttr, FileType, StatFsSnapshot};
use std::time::SystemTime;
use vstd::prelude::*;

verus! {

/// File system statistics similar to POSIX statvfs.
#[derive(Debug, Clone, Copy, PartialEq, Eq, Structural)]
pub struct StatFs {
    pub total_space: u64,
    pub avail_space: u64,
    pub used_space: u64,
    pub total_inodes: u64,
    pub avail_inodes: u64,
    pub used_inodes: u64,
}

impl View for StatFs {
    type V = StatFs;

    open spec fn view(&self) -> StatFs {
        *self
    }
}

impl StatFs {
    /// The statistics for a snapshot: the used space is what is not available, and the inodes are
    /// those used and those available; neither leaves the range of its type.
    pub open spec fn of(s: StatFsSnapshot) -> StatFs {
        StatFs {
            total_space: s.total_space,
            avail_space: s.available_space,
            used_space: if s.available_space <= s.total_space {
                (s.total_space - s.available_space) as u64
            } else {
                0
            },
            total_inodes: if s.used_inodes + s.available_inodes <= u64::MAX {
                (s.used_inodes + s.available_inodes) as u64
            } else {
                u64::MAX
            },
            avail_inodes: s.available_inodes,
            used_inodes: s.used_inodes,
        }
    }

    /// The snapshot that the statistics were made from.
    pub open spec fn source(self) -> StatFsSnapshot {
        StatFsSnapshot {
            total_space: self.total_space,
            available_space: self.avail_space,
            used_inodes: self.used_inodes,
            available_inodes: self.avail_inodes,
        }
    }

    /// The snapshot that the statistics were made from.
    pub fn to_snapshot(&self) -> (s: StatFsSnapshot)
        ensures
            s == self.source(),
    {
        StatFsSnapshot {
            total_space: self.total_space,
            available_space: self.avail_space,
            used_inodes: self.used_inodes,
            available_inodes: self.avail_inodes,
        }
    }
}

impl From<StatFsSnapshot> for StatFs {
    fn from(s: StatFsSnapshot) -> (r: StatFs) {
        StatFs {
            total_space: s.total_space,
            avail_space: s.available_space,
            used_space: s.total_space.saturating_sub(s.available_space),
            total_inodes: s.used_inodes.saturating_add(s.available_inodes),
            avail_inodes: s.available_inodes,
            used_inodes: s.used_inodes,
        }
    }
}

impl vstd::std_specs::convert::FromSpecImpl<StatFsSnapshot> for StatFs {
    open spec fn obeys_from_spec() -> bool {
        true
    }

    open spec fn from_spec(s: StatFsSnapshot) -> StatFs {
        StatFs::of(s)
    }
}

/// The statistics keep the snapshot: it can be read back from them.
pub proof fn stat_fs_keeps_snapshot(s: StatFsSnapshot)
    ensures
        StatFs::of(s).source() == s,
{
}

/// Used and available space, where no more is available than there is, make up the total.
pub proof fn stat_fs_adds_up(s: StatFsSnapshot)
    requires
        s.available_space <= s.total_space,
    ensures
        StatFs::of(s).used_space + StatFs::of(s).avail_space == StatFs::of(s).total_space,
{
}

/// File metadata similar to `os.FileInfo` in Go.
#[derive(Debug)]
pub struct FileStat<S = String> {
    pub name: S,
    pub inode: i64,
    pub attr: FileAttr,
}

impl View for FileStat {
    type V = FileStat<Seq<char>>;

    open spec fn view(&self) -> FileStat<Seq<char>> {
        FileStat { name: self.name@, inode: self.inode, attr: self.attr }
    }
}

impl Clone for FileStat {
    fn clone(&self) -> (r: FileStat)
        ensures
            r == *self,
    {
        FileStat { name: self.name.clone(), inode: self.inode, attr: self.attr }
    }
}

impl FileStat {
    pub fn new(name: String, inode: i64, attr: FileAttr) -> (r: FileStat)
        ensures
            r == (FileStat { name, inode, attr }),
    {
        FileStat { name, inode, attr }
    }

    pub fn inode(&self) -> (r: i64)
        ensures
            r == self.inode,
    {
        self.inode
    }

    pub fn name(&self) -> (r: &str)
        ensures
            r@ == self.name@,
    {
        self.name.as_str()
    }

    pub fn size(&self) -> (r: u64)
        ensures
            r == self.attr.size,
    {
        self.attr.size
    }

    pub fn mode(&self) -> (r: u32)
        ensures
            r == self.attr.mode,
    {
        self.attr.mode
    }

    /// The time of the last modification. A time before the epoch wraps to one far after it.
    pub fn mod_time(&self) -> (r: SystemTime)
        ensures
            r == clock::after_epoch(self.attr.mtime as u64),
    {
        let nanos: u64 = self.attr.mtime as u64;
        epoch_plus_nanos(nanos)
    }

    /// The time of the last access. A time before the epoch wraps to one far after it.
    pub fn access_time(&self) -> (r: SystemTime)
        ensures
            r == clock::after_epoch(self.attr.atime as u64),
    {
        let nanos: u64 = self.attr.atime as u64;
        epoch_plus_nanos(nanos)
    }

    pub fn is_dir(&self) -> (r: bool)
        ensures
            r == (self.attr.kind == FileType::Dir),
    {
        self.attr.kind == FileType::Dir
    }

    pub fn is_file(&self) -> (r: bool)
        ensures
            r == (self.attr.kind == FileType::File),
    {
        self.attr.kind == FileType::File
    }

    pub fn is_symlink(&self) -> (r: bool)
        ensures
            r == (self.attr.kind == FileType::Symlink),
    {
        self.attr.kind == FileType::Symlink
    }

    pub fn file_type(&self) -> (r: FileType)
        ensures
            r == self.attr.kind,
    {
        self.attr.kind
    }

    pub fn uid(&self) -> (r: u32)
        ensures
            r == self.attr.uid,
    {
        self.attr.uid
    }

    pub fn gid(&self) -> (r: u32)
        ensures
            r == self.attr.gid,
    {
        self.attr.gid
    }

    pub fn nlink(&self) -> (r: u32)
        ensures
            r == self.attr.nlink,
    {
        self.attr.nlink
    }

    pub fn attr(&self) -> (r: &FileAttr)
        ensures
            *r == self.attr,
    {
        &self.attr
    }
}

/// Open file flags.
#[derive(Debug, Clone, Copy, PartialEq, Eq, Structural)]
pub struct OpenFlags {
    pub read: bool,
    pub write: bool,
    pub append: bool,
    pub create: bool,
    pub truncate: bool,
    pub exclusive: bool,
}

impl OpenFlags {
    /// No flag set.
    pub open spec fn none() -> OpenFlags {
        OpenFlags {
            read: false,
            write: false,
            append: false,
            create: false,
            truncate: false,
            exclusive: false,
        }
    }

    pub fn read_only() -> (f: OpenFlags)
        ensures
            f == (OpenFlags { read: true, ..OpenFlags::none() }),
    {
        OpenFlags {
            read: true,
            write: false,
            append: false,
            create: false,
            truncate: false,
            exclusive: false,
        }
    }

    pub fn write_only() -> (f: OpenFlags)
        ensures
            f == (OpenFlags { write: true, ..OpenFlags::none() }),
    {
        OpenFlags {
            read: false,
            write: true,
            append: false,
            create: false,
            truncate: false,
            exclusive: false,
        }
    }

    pub fn read_write() -> (f: OpenFlags)
        ensures
            f == (OpenFlags { read: true, write: true, ..OpenFlags::none() }),
    {
        OpenFlags {
            read: true,
            write: true,
            append: false,
            create: false,
            truncate: false,
            exclusive: false,
        }
    }

    pub fn create_write() -> (f: OpenFlags)
        ensures
            f == (OpenFlags { write: true, create: true, ..OpenFlags::none() }),
    {
        OpenFlags {
            read: false,
            write: true,
            append: false,
            create: true,
            truncate: false,
            exclusive: false,
        }
    }

    pub fn create_new() -> (f: OpenFlags)
        ensures
            f == (OpenFlags { write: true, create: true, exclusive: true, ..OpenFlags::none() }),
    {
        OpenFlags {
            read: false,
            write: true,
            append: false,
            create: true,
            truncate: false,
            exclusive: true,
        }
    }

    pub fn with_append(self) -> (f: OpenFlags)
        ensures
            f == (OpenFlags { append: true, ..self }),
    {
        OpenFlags { append: true, ..self }
    }

    pub fn with_truncate(self) -> (f: OpenFlags)
        ensures
            f == (OpenFlags { truncate: true, ..self }),
    {
        OpenFlags { truncate: true, ..self }
    }
}

impl Default for OpenFlags {
    fn default() -> (f: OpenFlags)
        ensures
            f == OpenFlags::none(),
    {
        OpenFlags {
            read: false,
            write: false,
            append: false,
            create: false,
            truncate: false,
            exclusive: false,
        }
    }
}

} // verus!
