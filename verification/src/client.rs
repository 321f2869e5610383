//! SDK interface: simplified filesystem APIs for applications/SDKs.
//!
//! Goals:
//! - Path-level APIs: mkdir_p/create/read/write/readdir/stat
//! - Pluggable backend: the store and the metadata service of the file system
//!
//! The methods whose names end in `_io` report errors with their category, and so do `link`,
//! `rename` and `set_plock`. The others start the same operations, and their callers are shown the
//! message alone (see [`message_only`]).
use crate::error::FsError;
use crate::file::File;
use crate::fs;
use crate::fs::FileSystem;
use crate::meta::{
    FileAttr, FileLockInfo, FileLockQuery, FileLockRange, FileLockType, Listing, SetAttrFlags,
    SetAttrRequest, StatFsSnapshot,
};
use crate::ops::adapt;
use crate::ops::adapt::{AttrOf, Discard, ReadSnapshot, Sequence};
use crate::ops::attr;
use crate::ops::attr::{Exists, GetPlock, LockChange, Readdir, SetAttr, SetPlock, Truncate};
use crate::ops::create;
use crate::ops::create::CreateFile;
use crate::ops::io::{ReadAt, WriteAt};
use crate::ops::link::{Link, Place, Readlink};
use crate::ops::logged::Logged;
use crate::ops::lookup::Resolve;
use crate::ops::mkdir::{Mkdir, MkdirP};
use crate::ops::open::Open;
use crate::ops::remove;
use crate::ops::remove::{Rmdir, Unlink};
use crate::ops::remove_all;
use crate::ops::remove_all::RemoveAll;
use crate::ops::rename::Rename;
use crate::path;
use crate::script::{Operation, Script, Step};
use crate::stat::OpenFlags;
use vstd::prelude::*;

verus! {

/// A result with the message of its error alone.
pub fn message_only<T>(r: Result<T, FsError>) -> (s: Result<T, String>)
    ensures
        match r {
            Ok(v) => s == Ok::<T, String>(v),
            Err(e) => s is Err && s->Err_0@ == e@.message,
        },
{
    match r {
        Ok(v) => Ok(v),
        Err(e) => Err(e.message),
    }
}

/// The attributes of what a path leads to.
pub open spec fn stat_attr(log: bool, path: Seq<char>) -> Script<FileAttr> {
    adapt::attr_of(fs::logged_stat(log, path))
}

/// The attributes of what stands at a path, the last symbolic link not followed.
pub open spec fn lstat_attr(log: bool, path: Seq<char>) -> Script<FileAttr> {
    adapt::attr_of(fs::logged_lstat(log, path))
}

/// Makes a hard link and gives the attributes of the file.
pub open spec fn link_stat(
    log: bool,
    root_ino: i64,
    existing: Seq<char>,
    link_path: Seq<char>,
) -> Script<FileAttr> {
    adapt::sequence(
        fs::logged_link(log, root_ino, existing, link_path),
        stat_attr(log, link_path),
    )
}

/// Makes a symbolic link and gives its attributes.
pub open spec fn symlink_stat(
    log: bool,
    root_ino: i64,
    link_path: Seq<char>,
    target: Seq<char>,
) -> Script<FileAttr> {
    adapt::sequence(
        fs::logged_symlink(log, root_ino, link_path, target),
        lstat_attr(log, link_path),
    )
}

/// How a file is opened that is to be created: a file that is there will do, unless `create_new`
/// is set.
pub open spec fn create_flags(create_new: bool) -> OpenFlags {
    OpenFlags { write: true, create: true, exclusive: create_new, ..OpenFlags::none() }
}

/// SDK client parametrized by its backend.
pub struct Client<S, M> {
    pub fs: FileSystem<S, M>,
}

impl<S, M> Client<S, M> {
    pub fn from_filesystem(fs: FileSystem<S, M>) -> (c: Client<S, M>)
        ensures
            c.fs == fs,
    {
        Client { fs }
    }

    /// Carries an operation on until it asks one of the services or is done.
    pub fn advance<O: Operation>(&mut self, step: Step<O, O::Output>) -> (s: Step<O, O::Output>)
        ensures
            fs::settle(old(self).fs@, None, step.script()) == (
                final(self).fs@,
                None::<File<Seq<char>>>,
                s.script(),
            ),
            final(self).fs.same_setup(old(self).fs),
            old(self).fs@.channels.wf() ==> final(self).fs@.channels.wf(),
    {
        self.fs.advance(step)
    }

    /// Create directories recursively (mkdir -p).
    pub fn mkdir_p_io(&self, path: &str) -> (s: Step<Logged<Discard<MkdirP>>, ()>)
        ensures
            s.script() == fs::logged_mkdir_all(self.fs.config.access_log, self.fs.root_ino, path@),
    {
        self.fs.mkdir_all(path)
    }

    /// Create directories recursively (mkdir -p).
    pub fn mkdir_p(&self, path: &str) -> (s: Step<Logged<Discard<MkdirP>>, ()>)
        ensures
            s.script() == fs::logged_mkdir_all(self.fs.config.access_log, self.fs.root_ino, path@),
    {
        self.mkdir_p_io(path)
    }

    /// Create a single directory (non-recursive).
    pub fn mkdir_io(&self, path: &str) -> (s: Step<Logged<Mkdir>, ()>)
        ensures
            s.script() == fs::logged_mkdir(self.fs.config.access_log, self.fs.root_ino, path@),
    {
        self.fs.mkdir(path)
    }

    /// Create a regular file and the directories above it that are missing.
    pub fn create(&self, path: &str) -> (s: Step<Discard<CreateFile>, ()>)
        ensures
            s.script() == adapt::discard(
                create::create_file(self.fs.root_ino, path::normalize(path@)),
            ),
    {
        Discard::start(self.fs.create_file(path))
    }

    /// Create a file in a directory that exists.
    pub fn create_file_io(&self, path: &str, create_new: bool) -> (s: Step<
        Discard<Logged<Open>>,
        (),
    >)
        ensures
            s.script() == adapt::discard(
                fs::logged_open(
                    self.fs.config.access_log,
                    self.fs.root_ino,
                    path@,
                    create_flags(create_new),
                ),
            ),
    {
        let flags = if create_new {
            OpenFlags::create_new()
        } else {
            OpenFlags::create_write()
        };
        Discard::start(self.fs.open(path, flags))
    }

    /// Write data at a specific offset.
    pub fn write_at_io(&self, path: &str, offset: u64, data: &[u8]) -> (s: Step<
        Logged<WriteAt>,
        usize,
    >)
        ensures
            s.script() == fs::logged_write_at(self.fs.config.access_log, path@, offset, data@),
    {
        self.fs.write_at(path, offset, data)
    }

    /// Write data at a specific offset.
    pub fn write_at(&self, path: &str, offset: u64, data: &[u8]) -> (s: Step<
        Logged<WriteAt>,
        usize,
    >)
        ensures
            s.script() == fs::logged_write_at(self.fs.config.access_log, path@, offset, data@),
    {
        self.write_at_io(path, offset, data)
    }

    /// Read data at a specific offset.
    pub fn read_at_io(&self, path: &str, offset: u64, len: usize) -> (s: Step<
        Logged<ReadAt>,
        Vec<u8>,
    >)
        ensures
            s.script() == fs::logged_read_at(self.fs.config.access_log, path@, offset, len),
    {
        self.fs.read_at(path, offset, len)
    }

    /// Read data at a specific offset.
    pub fn read_at(&self, path: &str, offset: u64, len: usize) -> (s: Step<Logged<ReadAt>, Vec<u8>>)
        ensures
            s.script() == fs::logged_read_at(self.fs.config.access_log, path@, offset, len),
    {
        self.read_at_io(path, offset, len)
    }

    /// Read directory entries.
    pub fn readdir_io(&self, path: &str) -> (s: Step<Logged<Readdir>, Listing>)
        ensures
            s.script() == attr::logged_readdir(self.fs.config.access_log, path@),
    {
        self.fs.readdir(path)
    }

    /// Read directory entries.
    pub fn readdir(&self, path: &str) -> (s: Step<Logged<Readdir>, Listing>)
        ensures
            s.script() == attr::logged_readdir(self.fs.config.access_log, path@),
    {
        self.readdir_io(path)
    }

    /// Get file attributes, following symlinks.
    pub fn stat_io(&self, path: &str) -> (s: Step<AttrOf<Logged<Resolve>>, FileAttr>)
        ensures
            s.script() == stat_attr(self.fs.config.access_log, path@),
    {
        AttrOf::start(self.fs.stat(path))
    }

    /// Get file attributes, following symlinks.
    pub fn stat(&self, path: &str) -> (s: Step<AttrOf<Logged<Resolve>>, FileAttr>)
        ensures
            s.script() == stat_attr(self.fs.config.access_log, path@),
    {
        self.stat_io(path)
    }

    /// Get file attributes without following symlinks.
    pub fn lstat_io(&self, path: &str) -> (s: Step<AttrOf<Logged<Resolve>>, FileAttr>)
        ensures
            s.script() == lstat_attr(self.fs.config.access_log, path@),
    {
        AttrOf::start(self.fs.lstat(path))
    }

    /// Create a hard link.
    pub fn link_io(&self, existing: &str, link_path: &str) -> (s: Step<
        Sequence<Logged<Link>, AttrOf<Logged<Resolve>>>,
        FileAttr,
    >)
        ensures
            s.script() == link_stat(
                self.fs.config.access_log,
                self.fs.root_ino,
                existing@,
                link_path@,
            ),
    {
        Sequence::start(self.fs.link(existing, link_path), self.stat_io(link_path))
    }

    /// Create a hard link.
    pub fn link(&self, existing: &str, link_path: &str) -> (s: Step<
        Sequence<Logged<Link>, AttrOf<Logged<Resolve>>>,
        FileAttr,
    >)
        ensures
            s.script() == link_stat(
                self.fs.config.access_log,
                self.fs.root_ino,
                existing@,
                link_path@,
            ),
    {
        self.link_io(existing, link_path)
    }

    /// Create a symbolic link.
    pub fn symlink_io(&self, link_path: &str, target: &str) -> (s: Step<
        Sequence<Logged<Place>, AttrOf<Logged<Resolve>>>,
        FileAttr,
    >)
        ensures
            s.script() == symlink_stat(
                self.fs.config.access_log,
                self.fs.root_ino,
                link_path@,
                target@,
            ),
    {
        Sequence::start(self.fs.symlink(link_path, target), self.lstat_io(link_path))
    }

    /// Create a symbolic link.
    pub fn symlink(&self, link_path: &str, target: &str) -> (s: Step<
        Sequence<Logged<Place>, AttrOf<Logged<Resolve>>>,
        FileAttr,
    >)
        ensures
            s.script() == symlink_stat(
                self.fs.config.access_log,
                self.fs.root_ino,
                link_path@,
                target@,
            ),
    {
        self.symlink_io(link_path, target)
    }

    /// Read the target of a symbolic link.
    pub fn readlink_io(&self, path: &str) -> (s: Step<Logged<Readlink>, String>)
        ensures
            s.script() == fs::logged_readlink(self.fs.config.access_log, path@),
    {
        self.fs.readlink(path)
    }

    /// Read the target of a symbolic link.
    pub fn readlink(&self, path: &str) -> (s: Step<Logged<Readlink>, String>)
        ensures
            s.script() == fs::logged_readlink(self.fs.config.access_log, path@),
    {
        self.readlink_io(path)
    }

    /// Remove a file.
    pub fn unlink_io(&self, path: &str) -> (s: Step<Logged<Unlink>, ()>)
        ensures
            s.script() == remove::logged_unlink(self.fs.config.access_log, self.fs.root_ino, path@),
    {
        self.fs.unlink(path)
    }

    /// Remove a file.
    pub fn unlink(&self, path: &str) -> (s: Step<Logged<Unlink>, ()>)
        ensures
            s.script() == remove::logged_unlink(self.fs.config.access_log, self.fs.root_ino, path@),
    {
        self.unlink_io(path)
    }

    /// Remove an empty directory.
    pub fn rmdir_io(&self, path: &str) -> (s: Step<Logged<Rmdir>, ()>)
        ensures
            s.script() == remove::logged_rmdir(self.fs.config.access_log, self.fs.root_ino, path@),
    {
        self.fs.rmdir(path)
    }

    /// Remove an empty directory.
    pub fn rmdir(&self, path: &str) -> (s: Step<Logged<Rmdir>, ()>)
        ensures
            s.script() == remove::logged_rmdir(self.fs.config.access_log, self.fs.root_ino, path@),
    {
        self.rmdir_io(path)
    }

    /// Recursively remove a directory and all its contents.
    pub fn remove_dir_all_io(&self, path: &str) -> (s: Step<RemoveAll, ()>)
        ensures
            s.script() == remove_all::remove_dir_all(
                self.fs.config.access_log,
                self.fs.root_ino,
                path@,
            ),
    {
        RemoveAll::start(self.fs.config.access_log, self.fs.root_ino, path)
    }

    /// Rename a file or directory.
    pub fn rename_io(&self, old_path: &str, new_path: &str) -> (s: Step<Logged<Rename>, ()>)
        ensures
            s.script() == fs::logged_rename(
                self.fs.config.access_log,
                self.fs.root_ino,
                old_path@,
                new_path@,
            ),
    {
        self.fs.rename(old_path, new_path)
    }

    /// Rename a file or directory.
    pub fn rename(&self, old_path: &str, new_path: &str) -> (s: Step<Logged<Rename>, ()>)
        ensures
            s.script() == fs::logged_rename(
                self.fs.config.access_log,
                self.fs.root_ino,
                old_path@,
                new_path@,
            ),
    {
        self.rename_io(old_path, new_path)
    }

    /// Truncate a file to the given size.
    pub fn truncate_io(&self, path: &str, size: u64) -> (s: Step<Logged<Truncate>, ()>)
        ensures
            s.script() == attr::logged_truncate(self.fs.config.access_log, path@, size),
    {
        self.fs.truncate(path, size)
    }

    /// Truncate a file to the given size.
    pub fn truncate(&self, path: &str, size: u64) -> (s: Step<Logged<Truncate>, ()>)
        ensures
            s.script() == attr::logged_truncate(self.fs.config.access_log, path@, size),
    {
        self.truncate_io(path, size)
    }

    /// Check whether a path exists.
    pub fn path_exists(&self, path: &str) -> (s: Step<Exists, bool>)
        ensures
            s.script() == attr::path_exists(path::normalize(path@)),
    {
        self.fs.path_exists(path)
    }

    /// Set file/directory attributes (chmod, chown, utime).
    pub fn set_attr_io(&self, path: &str, req: &SetAttrRequest, flags: SetAttrFlags) -> (s: Step<
        Logged<SetAttr>,
        FileAttr,
    >)
        ensures
            s.script() == fs::logged_set_attr(self.fs.config.access_log, path@, *req, flags),
    {
        self.fs.set_attr(path, req, flags)
    }

    /// Get the counts behind the file system statistics (total/available space and inodes).
    pub fn stat_fs_io(&self) -> (s: Step<ReadSnapshot, StatFsSnapshot>)
        ensures
            s.script() == adapt::snapshot(),
    {
        ReadSnapshot::start()
    }

    /// Get file lock information for a given path and query.
    pub fn get_plock(&self, path: &str, query: &FileLockQuery) -> (s: Step<GetPlock, FileLockInfo>)
        ensures
            s.script() == attr::get_plock(path::normalize(path@), *query),
    {
        self.fs.get_plock(path, query)
    }

    /// Set file lock for a given path.
    pub fn set_plock(
        &self,
        path: &str,
        owner: i64,
        block: bool,
        lock_type: FileLockType,
        range: FileLockRange,
        pid: u32,
    ) -> (s: Step<SetPlock, ()>)
        ensures
            s.script() == attr::set_plock(
                path::normalize(path@),
                LockChange { owner, block, lock_type, range, pid },
            ),
    {
        self.fs.set_plock(path, owner, block, lock_type, range, pid)
    }
}

} // verus!
