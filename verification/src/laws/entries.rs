//! Which scripts the methods start, and how those of a client relate to those of its file system.
use crate::client;
use crate::client::Client;
use crate::file;
use crate::file::File;
use crate::fs;
use crate::fs::FileSystem;
use crate::meta::{
    FileAttr, FileLockInfo, FileLockQuery, FileLockRange, FileLockType, Listing, SetAttrFlags,
    SetAttrRequest, StatFsSnapshot,
};
use crate::ops::adapt;
use crate::ops::adapt::{AttrOf, Discard, ReadSnapshot, Sequence};
use crate::ops::attr;
use crate::ops::attr::{
    Exists, GetPlock, LockChange, ReadStatFs, Readdir, SetAttr, SetPlock, Truncate,
};
use crate::ops::create;
use crate::ops::create::CreateFile;
use crate::ops::handle;
use crate::ops::handle::{FileSize, ReadFile, RefreshFile, SyncFile, TruncateFile, WriteFile};
use crate::ops::io::{ReadAt, WriteAt, WriteInode};
use crate::ops::link::{Link, Place, Readlink};
use crate::ops::logged::Logged;
use crate::ops::lookup::Resolve;
use crate::ops::mkdir::{Mkdir, MkdirP};
use crate::ops::open::Open;
use crate::ops::remove;
use crate::ops::remove::{Remove, Rmdir, Unlink};
use crate::ops::remove_all;
use crate::ops::remove_all::RemoveAll;
use crate::ops::rename::Rename;
use crate::path;
use crate::script::{Script, Step};
use crate::stat::{FileStat, OpenFlags, StatFs};
use vstd::prelude::*;

verus! {

/// Each method of a file system starts the script of its name, with the setup of the file system
/// and the arguments of the call. What holds of the scripts holds of the methods.
pub proof fn file_systems_start<S, M>(
    fs: FileSystem<S, M>,
    path: &str,
    flags: OpenFlags,
    old_path: &str,
    new_path: &str,
    existing: &str,
    link_path: &str,
    target: &str,
    size: u64,
    req: &SetAttrRequest,
    marks: SetAttrFlags,
    offset: u64,
    len: usize,
    data: &[u8],
    query: &FileLockQuery,
    owner: i64,
    block: bool,
    lock_type: FileLockType,
    range: FileLockRange,
    pid: u32,
)
    ensures
        forall|s: Step<ReadStatFs, StatFs>|
            #[trigger] call_ensures(FileSystem::<S, M>::stat_fs, (&fs,), s) ==>
                s.script() == attr::stat_fs(),
        forall|s: Step<Logged<Resolve>, FileStat>|
            #[trigger] call_ensures(FileSystem::<S, M>::stat, (&fs, path), s) ==>
                s.script() == fs::logged_stat(fs.config.access_log, path@),
        forall|s: Step<Logged<Resolve>, FileStat>|
            #[trigger] call_ensures(FileSystem::<S, M>::lstat, (&fs, path), s) ==>
                s.script() == fs::logged_lstat(fs.config.access_log, path@),
        forall|s: Step<Logged<Open>, File>|
            #[trigger] call_ensures(FileSystem::<S, M>::open, (&fs, path, flags), s) ==>
                s.script() == fs::logged_open(fs.config.access_log, fs.root_ino, path@, flags),
        forall|s: Step<Logged<Open>, File>|
            #[trigger] call_ensures(FileSystem::<S, M>::lopen, (&fs, path, flags), s) ==>
                s.script() == fs::logged_lopen(fs.config.access_log, path@, flags),
        forall|s: Step<Logged<Open>, File>|
            #[trigger] call_ensures(FileSystem::<S, M>::create, (&fs, path), s) ==>
                s.script() == fs::logged_open(
                    fs.config.access_log,
                    fs.root_ino,
                    path@,
                    OpenFlags { write: true, create: true, exclusive: true, ..OpenFlags::none() },
                ),
        forall|s: Step<CreateFile, i64>|
            #[trigger] call_ensures(FileSystem::<S, M>::create_file, (&fs, path), s) ==>
                s.script() == create::create_file(fs.root_ino, path::normalize(path@)),
        forall|s: Step<Exists, bool>|
            #[trigger] call_ensures(FileSystem::<S, M>::path_exists, (&fs, path), s) ==>
                s.script() == attr::path_exists(path::normalize(path@)),
        forall|s: Step<Logged<Mkdir>, ()>|
            #[trigger] call_ensures(FileSystem::<S, M>::mkdir, (&fs, path), s) ==>
                s.script() == fs::logged_mkdir(fs.config.access_log, fs.root_ino, path@),
        forall|s: Step<Logged<Discard<MkdirP>>, ()>|
            #[trigger] call_ensures(FileSystem::<S, M>::mkdir_all, (&fs, path), s) ==>
                s.script() == fs::logged_mkdir_all(fs.config.access_log, fs.root_ino, path@),
        forall|s: Step<Logged<Unlink>, ()>|
            #[trigger] call_ensures(FileSystem::<S, M>::unlink, (&fs, path), s) ==>
                s.script() == remove::logged_unlink(fs.config.access_log, fs.root_ino, path@),
        forall|s: Step<Logged<Rmdir>, ()>|
            #[trigger] call_ensures(FileSystem::<S, M>::rmdir, (&fs, path), s) ==>
                s.script() == remove::logged_rmdir(fs.config.access_log, fs.root_ino, path@),
        forall|s: Step<Remove, ()>|
            #[trigger] call_ensures(FileSystem::<S, M>::remove, (&fs, path), s) ==>
                s.script() == remove::remove(
                    fs.config.access_log,
                    fs.root_ino,
                    path::normalize(path@),
                ),
        forall|s: Step<Logged<Rename>, ()>|
            #[trigger] call_ensures(FileSystem::<S, M>::rename, (&fs, old_path, new_path), s) ==>
                s.script() == fs::logged_rename(
                    fs.config.access_log,
                    fs.root_ino,
                    old_path@,
                    new_path@,
                ),
        forall|s: Step<Logged<Link>, ()>|
            #[trigger] call_ensures(FileSystem::<S, M>::link, (&fs, existing, link_path), s) ==>
                s.script() == fs::logged_link(
                    fs.config.access_log,
                    fs.root_ino,
                    existing@,
                    link_path@,
                ),
        forall|s: Step<Logged<Place>, ()>|
            #[trigger] call_ensures(FileSystem::<S, M>::symlink, (&fs, link_path, target), s) ==>
                s.script() == fs::logged_symlink(
                    fs.config.access_log,
                    fs.root_ino,
                    link_path@,
                    target@,
                ),
        forall|s: Step<Logged<Readlink>, String>|
            #[trigger] call_ensures(FileSystem::<S, M>::readlink, (&fs, path), s) ==>
                s.script() == fs::logged_readlink(fs.config.access_log, path@),
        forall|s: Step<Logged<Truncate>, ()>|
            #[trigger] call_ensures(FileSystem::<S, M>::truncate, (&fs, path, size), s) ==>
                s.script() == attr::logged_truncate(fs.config.access_log, path@, size),
        forall|s: Step<Logged<SetAttr>, FileAttr>|
            #[trigger] call_ensures(FileSystem::<S, M>::set_attr, (&fs, path, req, marks), s) ==>
                s.script() == fs::logged_set_attr(fs.config.access_log, path@, *req, marks),
        forall|s: Step<Logged<Readdir>, Listing>|
            #[trigger] call_ensures(FileSystem::<S, M>::readdir, (&fs, path), s) ==>
                s.script() == attr::logged_readdir(fs.config.access_log, path@),
        forall|s: Step<Logged<ReadAt>, Vec<u8>>|
            #[trigger] call_ensures(FileSystem::<S, M>::read_at, (&fs, path, offset, len), s) ==>
                s.script() == fs::logged_read_at(fs.config.access_log, path@, offset, len),
        forall|s: Step<Logged<WriteAt>, usize>|
            #[trigger] call_ensures(FileSystem::<S, M>::write_at, (&fs, path, offset, data), s) ==>
                s.script() == fs::logged_write_at(fs.config.access_log, path@, offset, data@),
        forall|s: Step<GetPlock, FileLockInfo>|
            #[trigger] call_ensures(FileSystem::<S, M>::get_plock, (&fs, path, query), s) ==>
                s.script() == attr::get_plock(path::normalize(path@), *query),
        forall|s: Step<SetPlock, ()>|
            #[trigger] call_ensures(
                FileSystem::<S, M>::set_plock,
                (&fs, path, owner, block, lock_type, range, pid),
                s,
            ) ==>
                s.script() == attr::set_plock(
                    path::normalize(path@),
                    LockChange { owner, block, lock_type, range, pid },
                ),
{
}

/// Each method of a handle starts the script of its name, on the handle as it is and with the
/// arguments of the call. What holds of the scripts holds of the methods.
pub proof fn handles_start(f: File, len: usize, offset: u64, data: &[u8], size: u64)
    ensures
        forall|s: Step<Logged<ReadFile>, Vec<u8>>|
            #[trigger] call_ensures(File::<String>::read, (&f, len), s) ==>
                s.script() == file::logged_read(f@, len),
        forall|s: Step<Logged<ReadFile>, Vec<u8>>|
            #[trigger] call_ensures(File::<String>::read_at, (&f, len, offset), s) ==>
                s.script() == file::logged_read_at(f@, len, offset),
        forall|s: Step<Logged<WriteFile>, usize>|
            #[trigger] call_ensures(File::<String>::write, (&f, data), s) ==>
                s.script() == file::logged_write(f@, data@),
        forall|s: Step<Logged<WriteInode>, usize>|
            #[trigger] call_ensures(File::<String>::write_at, (&f, data, offset), s) ==>
                s.script() == file::logged_write_at(f@, data@, offset),
        forall|s: Step<Logged<TruncateFile>, ()>|
            #[trigger] call_ensures(File::<String>::truncate, (&f, size), s) ==>
                s.script() == file::logged_truncate(f@, size),
        forall|s: Step<Logged<SyncFile>, ()>|
            #[trigger] call_ensures(File::<String>::sync, (&f,), s) ==>
                s.script() == file::logged_sync(f@),
        forall|s: Step<FileSize, u64>|
            #[trigger] call_ensures(File::<String>::size, (&f,), s) ==>
                s.script() == handle::file_size(f@.path, f@.inode),
        forall|s: Step<RefreshFile, ()>|
            #[trigger] call_ensures(File::<String>::refresh_info, (&f,), s) ==>
                s.script() == handle::refresh_file(f@.path, f@.inode),
{
}

/// What a client starts is what its file system starts; of what the file system gives, the client
/// may keep a part.
pub proof fn clients_start_what_file_systems_do<S, M>(
    c: Client<S, M>,
    path: &str,
    offset: u64,
    data: &[u8],
    len: usize,
    old_path: &str,
    new_path: &str,
    size: u64,
    req: &SetAttrRequest,
    marks: SetAttrFlags,
    query: &FileLockQuery,
    owner: i64,
    block: bool,
    lock_type: FileLockType,
    range: FileLockRange,
    pid: u32,
)
    ensures
        forall|a: Step<Logged<Discard<MkdirP>>, ()>, b: Step<Logged<Discard<MkdirP>>, ()>|
            #[trigger] call_ensures(Client::<S, M>::mkdir_p_io, (&c, path), a)
            && #[trigger] call_ensures(FileSystem::<S, M>::mkdir_all, (&c.fs, path), b) ==>
                a.script() == b.script(),
        forall|a: Step<Logged<Mkdir>, ()>, b: Step<Logged<Mkdir>, ()>|
            #[trigger] call_ensures(Client::<S, M>::mkdir_io, (&c, path), a)
            && #[trigger] call_ensures(FileSystem::<S, M>::mkdir, (&c.fs, path), b) ==>
                a.script() == b.script(),
        forall|a: Step<Logged<WriteAt>, usize>, b: Step<Logged<WriteAt>, usize>|
            #[trigger] call_ensures(Client::<S, M>::write_at_io, (&c, path, offset, data), a)
            && #[trigger] call_ensures(
                FileSystem::<S, M>::write_at,
                (&c.fs, path, offset, data),
                b,
            ) ==>
                a.script() == b.script(),
        forall|a: Step<Logged<ReadAt>, Vec<u8>>, b: Step<Logged<ReadAt>, Vec<u8>>|
            #[trigger] call_ensures(Client::<S, M>::read_at_io, (&c, path, offset, len), a)
            && #[trigger] call_ensures(
                FileSystem::<S, M>::read_at,
                (&c.fs, path, offset, len),
                b,
            ) ==>
                a.script() == b.script(),
        forall|a: Step<Logged<Readdir>, Listing>, b: Step<Logged<Readdir>, Listing>|
            #[trigger] call_ensures(Client::<S, M>::readdir_io, (&c, path), a)
            && #[trigger] call_ensures(FileSystem::<S, M>::readdir, (&c.fs, path), b) ==>
                a.script() == b.script(),
        forall|a: Step<Logged<Readlink>, String>, b: Step<Logged<Readlink>, String>|
            #[trigger] call_ensures(Client::<S, M>::readlink_io, (&c, path), a)
            && #[trigger] call_ensures(FileSystem::<S, M>::readlink, (&c.fs, path), b) ==>
                a.script() == b.script(),
        forall|a: Step<Logged<Unlink>, ()>, b: Step<Logged<Unlink>, ()>|
            #[trigger] call_ensures(Client::<S, M>::unlink_io, (&c, path), a)
            && #[trigger] call_ensures(FileSystem::<S, M>::unlink, (&c.fs, path), b) ==>
                a.script() == b.script(),
        forall|a: Step<Logged<Rmdir>, ()>, b: Step<Logged<Rmdir>, ()>|
            #[trigger] call_ensures(Client::<S, M>::rmdir_io, (&c, path), a)
            && #[trigger] call_ensures(FileSystem::<S, M>::rmdir, (&c.fs, path), b) ==>
                a.script() == b.script(),
        forall|a: Step<Logged<Rename>, ()>, b: Step<Logged<Rename>, ()>|
            #[trigger] call_ensures(Client::<S, M>::rename_io, (&c, old_path, new_path), a)
            && #[trigger] call_ensures(
                FileSystem::<S, M>::rename,
                (&c.fs, old_path, new_path),
                b,
            ) ==>
                a.script() == b.script(),
        forall|a: Step<Logged<Truncate>, ()>, b: Step<Logged<Truncate>, ()>|
            #[trigger] call_ensures(Client::<S, M>::truncate_io, (&c, path, size), a)
            && #[trigger] call_ensures(FileSystem::<S, M>::truncate, (&c.fs, path, size), b) ==>
                a.script() == b.script(),
        forall|a: Step<Exists, bool>, b: Step<Exists, bool>|
            #[trigger] call_ensures(Client::<S, M>::path_exists, (&c, path), a)
            && #[trigger] call_ensures(FileSystem::<S, M>::path_exists, (&c.fs, path), b) ==>
                a.script() == b.script(),
        forall|a: Step<Logged<SetAttr>, FileAttr>, b: Step<Logged<SetAttr>, FileAttr>|
            #[trigger] call_ensures(Client::<S, M>::set_attr_io, (&c, path, req, marks), a)
            && #[trigger] call_ensures(
                FileSystem::<S, M>::set_attr,
                (&c.fs, path, req, marks),
                b,
            ) ==>
                a.script() == b.script(),
        forall|a: Step<GetPlock, FileLockInfo>, b: Step<GetPlock, FileLockInfo>|
            #[trigger] call_ensures(Client::<S, M>::get_plock, (&c, path, query), a)
            && #[trigger] call_ensures(FileSystem::<S, M>::get_plock, (&c.fs, path, query), b) ==>
                a.script() == b.script(),
        forall|a: Step<SetPlock, ()>, b: Step<SetPlock, ()>|
            #[trigger] call_ensures(
                Client::<S, M>::set_plock,
                (&c, path, owner, block, lock_type, range, pid),
                a,
            )
            && #[trigger] call_ensures(
                FileSystem::<S, M>::set_plock,
                (&c.fs, path, owner, block, lock_type, range, pid),
                b,
            ) ==>
                a.script() == b.script(),
        forall|a: Step<Discard<CreateFile>, ()>, b: Step<CreateFile, i64>|
            #[trigger] call_ensures(Client::<S, M>::create, (&c, path), a)
            && #[trigger] call_ensures(FileSystem::<S, M>::create_file, (&c.fs, path), b) ==>
                a.script() == adapt::discard(b.script()),
        forall|a: Step<AttrOf<Logged<Resolve>>, FileAttr>, b: Step<Logged<Resolve>, FileStat>|
            #[trigger] call_ensures(Client::<S, M>::stat_io, (&c, path), a)
            && #[trigger] call_ensures(FileSystem::<S, M>::stat, (&c.fs, path), b) ==>
                a.script() == adapt::attr_of(b.script()),
        forall|a: Step<AttrOf<Logged<Resolve>>, FileAttr>, b: Step<Logged<Resolve>, FileStat>|
            #[trigger] call_ensures(Client::<S, M>::lstat_io, (&c, path), a)
            && #[trigger] call_ensures(FileSystem::<S, M>::lstat, (&c.fs, path), b) ==>
                a.script() == adapt::attr_of(b.script()),
        forall|a: Step<ReadSnapshot, StatFsSnapshot>, b: Step<ReadStatFs, StatFs>|
            #[trigger] call_ensures(Client::<S, M>::stat_fs_io, (&c,), a)
            && #[trigger] call_ensures(FileSystem::<S, M>::stat_fs, (&c.fs,), b) ==>
                a.script() == b.script().and_next(|s: StatFs| Script::Done(Ok(s.source()))),
{
}

/// What a client puts together: to create a file is to open it and drop the handle, and a new link
/// is looked at once it is made.
pub proof fn clients_combine<S, M>(
    c: Client<S, M>,
    path: &str,
    create_new: bool,
    flags: OpenFlags,
    existing: &str,
    link_path: &str,
    target: &str,
)
    ensures
        forall|a: Step<Discard<Logged<Open>>, ()>, b: Step<Logged<Open>, File>|
            #[trigger] call_ensures(Client::<S, M>::create_file_io, (&c, path, create_new), a)
            && #[trigger] call_ensures(FileSystem::<S, M>::open, (&c.fs, path, flags), b)
            && flags == client::create_flags(create_new) ==>
                a.script() == adapt::discard(b.script()),
        forall|
            a: Step<Sequence<Logged<Link>, AttrOf<Logged<Resolve>>>, FileAttr>,
            b: Step<Logged<Link>, ()>,
            d: Step<AttrOf<Logged<Resolve>>, FileAttr>,
        |
            #[trigger] call_ensures(Client::<S, M>::link_io, (&c, existing, link_path), a)
            && #[trigger] call_ensures(FileSystem::<S, M>::link, (&c.fs, existing, link_path), b)
            && #[trigger] call_ensures(Client::<S, M>::stat_io, (&c, link_path), d) ==>
                a.script() == adapt::sequence(b.script(), d.script()),
        forall|
            a: Step<Sequence<Logged<Place>, AttrOf<Logged<Resolve>>>, FileAttr>,
            b: Step<Logged<Place>, ()>,
            d: Step<AttrOf<Logged<Resolve>>, FileAttr>,
        |
            #[trigger] call_ensures(Client::<S, M>::symlink_io, (&c, link_path, target), a)
            && #[trigger] call_ensures(FileSystem::<S, M>::symlink, (&c.fs, link_path, target), b)
            && #[trigger] call_ensures(Client::<S, M>::lstat_io, (&c, link_path), d) ==>
                a.script() == adapt::sequence(b.script(), d.script()),
        forall|a: Step<RemoveAll, ()>|
            #[trigger] call_ensures(Client::<S, M>::remove_dir_all_io, (&c, path), a) ==>
                a.script() == remove_all::remove_dir_all(
                    c.fs.config.access_log,
                    c.fs.root_ino,
                    path@,
                ),
{
}

/// The methods that report messages alone start the same operations as those that report errors
/// with their category.
pub proof fn plain_methods_start_what_io_methods_do<S, M>(
    c: Client<S, M>,
    path: &str,
    offset: u64,
    data: &[u8],
    len: usize,
    existing: &str,
    link_path: &str,
    target: &str,
    old_path: &str,
    new_path: &str,
    size: u64,
)
    ensures
        forall|a: Step<Logged<Discard<MkdirP>>, ()>, b: Step<Logged<Discard<MkdirP>>, ()>|
            #[trigger] call_ensures(Client::<S, M>::mkdir_p, (&c, path), a)
            && #[trigger] call_ensures(Client::<S, M>::mkdir_p_io, (&c, path), b) ==>
                a.script() == b.script(),
        forall|a: Step<Logged<WriteAt>, usize>, b: Step<Logged<WriteAt>, usize>|
            #[trigger] call_ensures(Client::<S, M>::write_at, (&c, path, offset, data), a)
            && #[trigger] call_ensures(
                Client::<S, M>::write_at_io,
                (&c, path, offset, data),
                b,
            ) ==>
                a.script() == b.script(),
        forall|a: Step<Logged<ReadAt>, Vec<u8>>, b: Step<Logged<ReadAt>, Vec<u8>>|
            #[trigger] call_ensures(Client::<S, M>::read_at, (&c, path, offset, len), a)
            && #[trigger] call_ensures(Client::<S, M>::read_at_io, (&c, path, offset, len), b) ==>
                a.script() == b.script(),
        forall|a: Step<Logged<Readdir>, Listing>, b: Step<Logged<Readdir>, Listing>|
            #[trigger] call_ensures(Client::<S, M>::readdir, (&c, path), a)
            && #[trigger] call_ensures(Client::<S, M>::readdir_io, (&c, path), b) ==>
                a.script() == b.script(),
        forall|
            a: Step<AttrOf<Logged<Resolve>>, FileAttr>,
            b: Step<AttrOf<Logged<Resolve>>, FileAttr>,
        |
            #[trigger] call_ensures(Client::<S, M>::stat, (&c, path), a)
            && #[trigger] call_ensures(Client::<S, M>::stat_io, (&c, path), b) ==>
                a.script() == b.script(),
        forall|
            a: Step<Sequence<Logged<Link>, AttrOf<Logged<Resolve>>>, FileAttr>,
            b: Step<Sequence<Logged<Link>, AttrOf<Logged<Resolve>>>, FileAttr>,
        |
            #[trigger] call_ensures(Client::<S, M>::link, (&c, existing, link_path), a)
            && #[trigger] call_ensures(Client::<S, M>::link_io, (&c, existing, link_path), b) ==>
                a.script() == b.script(),
        forall|
            a: Step<Sequence<Logged<Place>, AttrOf<Logged<Resolve>>>, FileAttr>,
            b: Step<Sequence<Logged<Place>, AttrOf<Logged<Resolve>>>, FileAttr>,
        |
            #[trigger] call_ensures(Client::<S, M>::symlink, (&c, link_path, target), a)
            && #[trigger] call_ensures(Client::<S, M>::symlink_io, (&c, link_path, target), b) ==>
                a.script() == b.script(),
        forall|a: Step<Logged<Readlink>, String>, b: Step<Logged<Readlink>, String>|
            #[trigger] call_ensures(Client::<S, M>::readlink, (&c, path), a)
            && #[trigger] call_ensures(Client::<S, M>::readlink_io, (&c, path), b) ==>
                a.script() == b.script(),
        forall|a: Step<Logged<Unlink>, ()>, b: Step<Logged<Unlink>, ()>|
            #[trigger] call_ensures(Client::<S, M>::unlink, (&c, path), a)
            && #[trigger] call_ensures(Client::<S, M>::unlink_io, (&c, path), b) ==>
                a.script() == b.script(),
        forall|a: Step<Logged<Rmdir>, ()>, b: Step<Logged<Rmdir>, ()>|
            #[trigger] call_ensures(Client::<S, M>::rmdir, (&c, path), a)
            && #[trigger] call_ensures(Client::<S, M>::rmdir_io, (&c, path), b) ==>
                a.script() == b.script(),
        forall|a: Step<Logged<Rename>, ()>, b: Step<Logged<Rename>, ()>|
            #[trigger] call_ensures(Client::<S, M>::rename, (&c, old_path, new_path), a)
            && #[trigger] call_ensures(Client::<S, M>::rename_io, (&c, old_path, new_path), b) ==>
                a.script() == b.script(),
        forall|a: Step<Logged<Truncate>, ()>, b: Step<Logged<Truncate>, ()>|
            #[trigger] call_ensures(Client::<S, M>::truncate, (&c, path, size), a)
            && #[trigger] call_ensures(Client::<S, M>::truncate_io, (&c, path, size), b) ==>
                a.script() == b.script(),
{
}

} // verus!
