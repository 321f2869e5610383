//! The file system.
use crate::access_log::FileSystemConfig;
use crate::chunk::{Backend, ChunkIoFactory, ChunkLayout};
use crate::file::File;
use crate::meta::{
    FileAttr, FileLockInfo, FileLockQuery, FileLockRange, FileLockType, Listing, SetAttrFlags,
    SetAttrRequest,
};
use crate::ops::adapt;
use crate::ops::adapt::Discard;
use crate::ops::attr;
use crate::ops::attr::{
    logged_readdir_of, start_truncate, Exists, GetPlock, LockChange, ReadStatFs, Readdir, SetAttr,
    SetPlock, Truncate,
};
use crate::ops::create;
use crate::ops::create::CreateFile;
use crate::ops::io;
use crate::ops::io::{ReadAt, WriteAt};
use crate::ops::link;
use crate::ops::link::{start_symlink, Link, Place, Readlink};
use crate::ops::logged;
use crate::ops::logged::Logged;
use crate::ops::lookup;
use crate::ops::lookup::Resolve;
use crate::ops::mkdir;
use crate::ops::mkdir::{Mkdir, MkdirP};
use crate::ops::open;
use crate::ops::open::{Open, Opening};
use crate::ops::remove;
use crate::ops::remove::{start_rmdir, start_unlink, Remove, Rmdir, Unlink};
use crate::ops::rename;
use crate::ops::rename::Rename;
use crate::path;
use crate::path::normalize_path;
use crate::registry::{page_size_of, Channels, FileRegistry};
use crate::script;
use crate::script::{Operation, RegistryRequest, Reply, Request, Script, SpecReply, Step};
use crate::stat::{FileStat, OpenFlags, StatFs};
use std::sync::Arc;
use vstd::prelude::*;
use vstd::slice::slice_to_vec;

verus! {

/// What the file system keeps between operations.
pub struct LocalState {
    pub channels: Channels,
    /// The number of the next file handle.
    pub next_file_id: u64,
}

impl LocalState {
    /// The state after a request. The numbers of handles wrap around.
    pub open spec fn after(self, request: RegistryRequest) -> LocalState {
        LocalState {
            channels: self.channels.after(request),
            next_file_id: if request is NextFileId {
                self.next_file_id.wrapping_add(1)
            } else {
                self.next_file_id
            },
        }
    }

    /// The reply to a request.
    pub open spec fn reply(self, request: RegistryRequest) -> SpecReply {
        if request is NextFileId {
            Reply::FileId(self.next_file_id)
        } else {
            self.channels.reply(request)
        }
    }
}

/// Two handles that are numbered one after the other have different numbers.
pub proof fn handle_numbers_differ(state: LocalState)
    ensures
        state.after(RegistryRequest::NextFileId).reply(RegistryRequest::NextFileId) != state.reply(
            RegistryRequest::NextFileId,
        ),
{
}

/// Answers what a script asks of the file system itself and of the file handle it works on, as far
/// as that goes: the state and the handle afterwards, and the script that is left. It is done, or
/// it asks one of the services.
pub open spec fn settle<T>(
    state: LocalState,
    file: Option<File<Seq<char>>>,
    s: Script<T>,
) -> (LocalState, Option<File<Seq<char>>>, Script<T>)
    decreases s,
{
    match s {
        Script::Ask(Request::Registry(q), k) => settle(state.after(q), file, k(state.reply(q))),
        Script::Ask(Request::Handle(q), k) => match file {
            Some(f) => settle(state, Some(f.after(q)), k(Reply::Ack)),
            None => (state, file, s),
        },
        _ => (state, file, s),
    }
}

/// What is left of a script after settling asks nothing of the file system itself, and nothing of
/// the file handle, where there is one.
pub proof fn settled_asks_services<T>(
    state: LocalState,
    file: Option<File<Seq<char>>>,
    s: Script<T>,
)
    ensures
        ({
            let left = settle(state, file, s).2;
            left is Ask ==> !(left->Ask_0 is Registry) && (file is Some ==> !(left->Ask_0
                is Handle))
        }),
    decreases s,
{
    match s {
        Script::Ask(Request::Registry(q), k) => settled_asks_services(
            state.after(q),
            file,
            k(state.reply(q)),
        ),
        Script::Ask(Request::Handle(q), k) => {
            if let Some(f) = file {
                settled_asks_services(state, Some(f.after(q)), k(Reply::Ack));
            }
        },
        _ => {},
    }
}

/// `stat`, recorded in the access log.
pub open spec fn logged_stat(log: bool, path: Seq<char>) -> Script<FileStat<Seq<char>>> {
    let path = path::normalize(path);
    logged::logged(log, "stat"@, path, lookup::resolve(path, true))
}

/// `lstat`, recorded in the access log.
pub open spec fn logged_lstat(log: bool, path: Seq<char>) -> Script<FileStat<Seq<char>>> {
    let path = path::normalize(path);
    logged::logged(log, "lstat"@, path, lookup::resolve(path, false))
}

/// `open`, recorded in the access log.
pub open spec fn logged_open(log: bool, root_ino: i64, path: Seq<char>, flags: OpenFlags) -> Script<
    File<Seq<char>>,
> {
    let path = path::normalize(path);
    logged::logged(log, "open"@, path, open::open_file(root_ino, Opening { path, flags, log }))
}

/// `lopen`, recorded in the access log.
pub open spec fn logged_lopen(log: bool, path: Seq<char>, flags: OpenFlags) -> Script<
    File<Seq<char>>,
> {
    let path = path::normalize(path);
    logged::logged(log, "lopen"@, path, open::lopen(Opening { path, flags, log }))
}

/// `mkdir`, recorded in the access log.
pub open spec fn logged_mkdir(log: bool, root_ino: i64, path: Seq<char>) -> Script<()> {
    let path = path::normalize(path);
    logged::logged(log, "mkdir"@, path, mkdir::mkdir(root_ino, path))
}

/// `mkdir_all`, recorded in the access log.
pub open spec fn logged_mkdir_all(log: bool, root_ino: i64, path: Seq<char>) -> Script<()> {
    let path = path::normalize(path);
    logged::logged(log, "mkdir_all"@, path, adapt::discard(mkdir::mkdir_p(root_ino, path)))
}

/// How the access log names two paths.
pub open spec fn arrow(from: Seq<char>, to: Seq<char>) -> Seq<char> {
    from + " -> "@ + to
}

fn arrow_text(from: &str, to: &str) -> (r: String)
    ensures
        r@ == arrow(from@, to@),
{
    String::from_str(from).concat(" -> ").concat(to)
}

/// `rename`, recorded in the access log.
pub open spec fn logged_rename(
    log: bool,
    root_ino: i64,
    old_path: Seq<char>,
    new_path: Seq<char>,
) -> Script<()> {
    let from = path::normalize(old_path);
    let to = path::normalize(new_path);
    logged::logged(log, "rename"@, arrow(from, to), rename::rename(root_ino, from, to))
}

/// `link`, recorded in the access log.
pub open spec fn logged_link(
    log: bool,
    root_ino: i64,
    existing: Seq<char>,
    link_path: Seq<char>,
) -> Script<()> {
    let existing = path::normalize(existing);
    let link = path::normalize(link_path);
    logged::logged(log, "link"@, arrow(existing, link), link::link(root_ino, existing, link))
}

/// `symlink`, recorded in the access log.
pub open spec fn logged_symlink(
    log: bool,
    root_ino: i64,
    link_path: Seq<char>,
    target: Seq<char>,
) -> Script<()> {
    let link = path::normalize(link_path);
    logged::logged(log, "symlink"@, arrow(link, target), link::symlink(root_ino, link, target))
}

/// `readlink`, recorded in the access log.
pub open spec fn logged_readlink(log: bool, path: Seq<char>) -> Script<Seq<char>> {
    let path = path::normalize(path);
    logged::logged(log, "readlink"@, path, link::readlink(path))
}

/// `set_attr`, recorded in the access log.
pub open spec fn logged_set_attr(
    log: bool,
    path: Seq<char>,
    attrs: SetAttrRequest,
    flags: SetAttrFlags,
) -> Script<FileAttr> {
    let path = path::normalize(path);
    logged::logged(log, "set_attr"@, path, attr::set_attr(path, attrs, flags))
}

/// `read_at`, recorded in the access log.
pub open spec fn logged_read_at(log: bool, path: Seq<char>, offset: u64, len: usize) -> Script<
    Seq<u8>,
> {
    let path = path::normalize(path);
    logged::logged(log, "read_at"@, path, io::read_at(path, offset, len))
}

/// `write_at`, recorded in the access log.
pub open spec fn logged_write_at(log: bool, path: Seq<char>, offset: u64, data: Seq<u8>) -> Script<
    usize,
> {
    let path = path::normalize(path);
    logged::logged(log, "write_at"@, path, io::write_at(path, offset, data))
}

/// High-level path-based file system API.
///
/// Each method starts an operation. The operation is carried on by [`FileSystem::advance`], or by
/// [`File::advance`] where it was started on a file handle, until it asks one of the services or
/// is done.
pub struct FileSystem<S, M> {
    /// The inode of the root directory.
    pub root_ino: i64,
    pub chunk_io: ChunkIoFactory<S, M>,
    pub files: FileRegistry,
    pub config: FileSystemConfig,
    pub next_file_id: u64,
}

impl<S, M> View for FileSystem<S, M> {
    type V = LocalState;

    open spec fn view(&self) -> LocalState {
        LocalState { channels: self.files@, next_file_id: self.next_file_id }
    }
}

impl<S, M> FileSystem<S, M> {
    /// Whether two file systems differ in their local state at most.
    pub open spec fn same_setup(self, other: FileSystem<S, M>) -> bool {
        &&& self.root_ino == other.root_ino
        &&& self.chunk_io == other.chunk_io
        &&& self.config == other.config
        &&& self.files.layout == other.files.layout
        &&& self.files.page_size == other.files.page_size
    }

    /// Create a new FileSystem from components and an existing meta layer.
    pub fn from_components(
        layout: ChunkLayout,
        store: Arc<S>,
        meta_layer: Arc<M>,
        root_ino: i64,
        default_page_size: u32,
        config: FileSystemConfig,
    ) -> (fs: FileSystem<S, M>)
        ensures
            fs.root_ino == root_ino,
            fs.config == config,
            fs.chunk_io.layout == layout,
            *fs.chunk_io.backend == (Backend { store, meta: meta_layer }),
            fs.files.layout == layout,
            fs.files.page_size == page_size_of(layout.block_size, default_page_size),
            fs@ == (LocalState { channels: Channels::none(), next_file_id: 1 }),
            fs@.channels.wf(),
    {
        FileSystem {
            root_ino,
            chunk_io: ChunkIoFactory::new(layout, store, meta_layer),
            files: FileRegistry::new(layout, default_page_size),
            config,
            next_file_id: 1,
        }
    }

    /// Fulfils a request of an operation and answers it.
    pub fn answer(&mut self, request: RegistryRequest) -> (reply: Reply)
        ensures
            reply@ == old(self)@.reply(request),
            final(self)@ == old(self)@.after(request),
            final(self).same_setup(*old(self)),
            old(self)@.channels.wf() ==> final(self)@.channels.wf(),
    {
        match request {
            RegistryRequest::NextFileId => {
                let id: u64 = self.next_file_id;
                self.next_file_id = id.wrapping_add(1);
                Reply::FileId(id)
            },
            _ => self.files.answer(request),
        }
    }

    /// Carries an operation on until it asks one of the services or is done.
    pub fn advance<O: Operation>(&mut self, step: Step<O, O::Output>) -> (s: Step<O, O::Output>)
        ensures
            settle(old(self)@, None, step.script()) == (
                final(self)@,
                None::<File<Seq<char>>>,
                s.script(),
            ),
            final(self).same_setup(*old(self)),
            old(self)@.channels.wf() ==> final(self)@.channels.wf(),
    {
        let mut cur = step;
        loop
            invariant
                settle(self@, None, cur.script()) == settle(old(self)@, None, step.script()),
                self.same_setup(*old(self)),
                old(self)@.channels.wf() ==> self@.channels.wf(),
            decreases cur.script(),
        {
            match cur {
                Step::Done(r) => {
                    return Step::Done(r);
                },
                Step::Pending(op) => match op.request() {
                    Request::Registry(q) => {
                        proof {
                            op.asks();
                        }
                        let reply = self.answer(q);
                        cur = op.resume(reply);
                    },
                    _ => {
                        return Step::Pending(op);
                    },
                },
            }
        }
    }

    /// Get file system statistics.
    pub fn stat_fs(&self) -> (s: Step<ReadStatFs, StatFs>)
        ensures
            s.script() == attr::stat_fs(),
    {
        ReadStatFs::start()
    }

    /// Resolve a path to FileStat, following symlinks.
    pub fn stat(&self, path: &str) -> (s: Step<Logged<Resolve>, FileStat>)
        ensures
            s.script() == logged_stat(self.config.access_log, path@),
    {
        let path = normalize_path(path);
        Logged::start(
            self.config.access_log,
            "stat",
            path.as_str(),
            Resolve::start(path.as_str(), true),
        )
    }

    /// Resolve a path to FileStat without following the final symlink (lstat).
    pub fn lstat(&self, path: &str) -> (s: Step<Logged<Resolve>, FileStat>)
        ensures
            s.script() == logged_lstat(self.config.access_log, path@),
    {
        let path = normalize_path(path);
        Logged::start(
            self.config.access_log,
            "lstat",
            path.as_str(),
            Resolve::start(path.as_str(), false),
        )
    }

    /// Open a file with the given flags.
    pub fn open(&self, path: &str, flags: OpenFlags) -> (s: Step<Logged<Open>, File>)
        ensures
            s.script() == logged_open(self.config.access_log, self.root_ino, path@, flags),
    {
        let path = normalize_path(path);
        let opening = Opening { path: path.clone(), flags, log: self.config.access_log };
        assert(opening@ == Opening { path: path@, flags, log: self.config.access_log });
        Logged::start(
            self.config.access_log,
            "open",
            path.as_str(),
            Open::start(self.root_ino, opening),
        )
    }

    /// Open a file without following symlinks.
    pub fn lopen(&self, path: &str, flags: OpenFlags) -> (s: Step<Logged<Open>, File>)
        ensures
            s.script() == logged_lopen(self.config.access_log, path@, flags),
    {
        let path = normalize_path(path);
        let opening = Opening { path: path.clone(), flags, log: self.config.access_log };
        assert(opening@ == Opening { path: path@, flags, log: self.config.access_log });
        Logged::start(
            self.config.access_log,
            "lopen",
            path.as_str(),
            Open::start_lopen(opening),
        )
    }

    /// Create a new file (O_CREAT | O_EXCL).
    pub fn create(&self, path: &str) -> (s: Step<Logged<Open>, File>)
        ensures
            s.script() == logged_open(
                self.config.access_log,
                self.root_ino,
                path@,
                OpenFlags { write: true, create: true, exclusive: true, ..OpenFlags::none() },
            ),
    {
        self.open(path, OpenFlags::create_new())
    }

    /// Create a regular file (mkdir -p on its parent if needed).
    pub fn create_file(&self, path: &str) -> (s: Step<CreateFile, i64>)
        ensures
            s.script() == create::create_file(self.root_ino, path::normalize(path@)),
    {
        let path = normalize_path(path);
        CreateFile::start(self.root_ino, path.as_str())
    }

    /// Check if a path exists.
    pub fn path_exists(&self, path: &str) -> (s: Step<Exists, bool>)
        ensures
            s.script() == attr::path_exists(path::normalize(path@)),
    {
        let path = normalize_path(path);
        Exists::start(path.as_str())
    }

    /// Create a directory.
    pub fn mkdir(&self, path: &str) -> (s: Step<Logged<Mkdir>, ()>)
        ensures
            s.script() == logged_mkdir(self.config.access_log, self.root_ino, path@),
    {
        let path = normalize_path(path);
        Logged::start(
            self.config.access_log,
            "mkdir",
            path.as_str(),
            Mkdir::start(self.root_ino, path.as_str()),
        )
    }

    /// Create directories recursively (mkdir -p).
    pub fn mkdir_all(&self, path: &str) -> (s: Step<Logged<Discard<MkdirP>>, ()>)
        ensures
            s.script() == logged_mkdir_all(self.config.access_log, self.root_ino, path@),
    {
        let path = normalize_path(path);
        Logged::start(
            self.config.access_log,
            "mkdir_all",
            path.as_str(),
            Discard::start(MkdirP::start(self.root_ino, path.as_str())),
        )
    }

    /// Remove a file (unlink).
    pub fn unlink(&self, path: &str) -> (s: Step<Logged<Unlink>, ()>)
        ensures
            s.script() == remove::logged_unlink(self.config.access_log, self.root_ino, path@),
    {
        start_unlink(self.config.access_log, self.root_ino, path)
    }

    /// Remove an empty directory.
    pub fn rmdir(&self, path: &str) -> (s: Step<Logged<Rmdir>, ()>)
        ensures
            s.script() == remove::logged_rmdir(self.config.access_log, self.root_ino, path@),
    {
        start_rmdir(self.config.access_log, self.root_ino, path)
    }

    /// Remove a file or empty directory.
    pub fn remove(&self, path: &str) -> (s: Step<Remove, ()>)
        ensures
            s.script() == remove::remove(
                self.config.access_log,
                self.root_ino,
                path::normalize(path@),
            ),
    {
        let path = normalize_path(path);
        Remove::start(self.config.access_log, self.root_ino, path.as_str())
    }

    /// Rename a file or directory.
    pub fn rename(&self, old_path: &str, new_path: &str) -> (s: Step<Logged<Rename>, ()>)
        ensures
            s.script() == logged_rename(
                self.config.access_log,
                self.root_ino,
                old_path@,
                new_path@,
            ),
    {
        let old_text = normalize_path(old_path);
        let new_text = normalize_path(new_path);
        let op_path = arrow_text(old_text.as_str(), new_text.as_str());
        Logged::start(
            self.config.access_log,
            "rename",
            op_path.as_str(),
            Rename::start(self.root_ino, old_text.as_str(), new_text.as_str()),
        )
    }

    /// Create a hard link.
    pub fn link(&self, existing: &str, link_path: &str) -> (s: Step<Logged<Link>, ()>)
        ensures
            s.script() == logged_link(
                self.config.access_log,
                self.root_ino,
                existing@,
                link_path@,
            ),
    {
        let existing = normalize_path(existing);
        let link = normalize_path(link_path);
        let op_path = arrow_text(existing.as_str(), link.as_str());
        Logged::start(
            self.config.access_log,
            "link",
            op_path.as_str(),
            Link::start(self.root_ino, existing.as_str(), link.as_str()),
        )
    }

    /// Create a symbolic link.
    pub fn symlink(&self, link_path: &str, target: &str) -> (s: Step<Logged<Place>, ()>)
        ensures
            s.script() == logged_symlink(
                self.config.access_log,
                self.root_ino,
                link_path@,
                target@,
            ),
    {
        let link = normalize_path(link_path);
        let op_path = arrow_text(link.as_str(), target);
        Logged::start(
            self.config.access_log,
            "symlink",
            op_path.as_str(),
            start_symlink(self.root_ino, link.as_str(), target),
        )
    }

    /// Read the target of a symbolic link.
    pub fn readlink(&self, path: &str) -> (s: Step<Logged<Readlink>, String>)
        ensures
            s.script() == logged_readlink(self.config.access_log, path@),
    {
        let path = normalize_path(path);
        Logged::start(
            self.config.access_log,
            "readlink",
            path.as_str(),
            Readlink::start(path.as_str()),
        )
    }

    /// Truncate a file to the given size.
    pub fn truncate(&self, path: &str, size: u64) -> (s: Step<Logged<Truncate>, ()>)
        ensures
            s.script() == attr::logged_truncate(self.config.access_log, path@, size),
    {
        start_truncate(self.config.access_log, path, size)
    }

    /// Set file attributes.
    pub fn set_attr(&self, path: &str, req: &SetAttrRequest, flags: SetAttrFlags) -> (s: Step<
        Logged<SetAttr>,
        FileAttr,
    >)
        ensures
            s.script() == logged_set_attr(self.config.access_log, path@, *req, flags),
    {
        let path = normalize_path(path);
        Logged::start(
            self.config.access_log,
            "set_attr",
            path.as_str(),
            SetAttr::start(path.as_str(), *req, flags),
        )
    }

    /// Read directory entries.
    pub fn readdir(&self, path: &str) -> (s: Step<Logged<Readdir>, Listing>)
        ensures
            s.script() == attr::logged_readdir(self.config.access_log, path@),
    {
        Step::Pending(logged_readdir_of(self.config.access_log, path))
    }

    /// Read data at a specific offset (path-based).
    pub fn read_at(&self, path: &str, offset: u64, len: usize) -> (s: Step<
        Logged<ReadAt>,
        Vec<u8>,
    >)
        ensures
            s.script() == logged_read_at(self.config.access_log, path@, offset, len),
    {
        let path = normalize_path(path);
        Logged::start(
            self.config.access_log,
            "read_at",
            path.as_str(),
            ReadAt::start(path.as_str(), offset, len),
        )
    }

    /// Write data at a specific offset (path-based).
    pub fn write_at(&self, path: &str, offset: u64, data: &[u8]) -> (s: Step<
        Logged<WriteAt>,
        usize,
    >)
        ensures
            s.script() == logged_write_at(self.config.access_log, path@, offset, data@),
    {
        let path = normalize_path(path);
        Logged::start(
            self.config.access_log,
            "write_at",
            path.as_str(),
            WriteAt::start(path.as_str(), offset, slice_to_vec(data)),
        )
    }

    /// Get file lock information for a given path and query.
    pub fn get_plock(&self, path: &str, query: &FileLockQuery) -> (s: Step<
        GetPlock,
        FileLockInfo,
    >)
        ensures
            s.script() == attr::get_plock(path::normalize(path@), *query),
    {
        let path = normalize_path(path);
        GetPlock::start(path.as_str(), *query)
    }

    /// Set file lock for a given path.
    pub fn set_plock(
        &self,
        path: &str,
        owner: i64,
        block: bool,
        lock_type: FileLockType,
        range: FileLockRange,
        pid: u32,
    ) -> (s: Step<SetPlock, ()>)
        ensures
            s.script() == attr::set_plock(
                path::normalize(path@),
                LockChange { owner, block, lock_type, range, pid },
            ),
    {
        let path = normalize_path(path);
        SetPlock::start(path.as_str(), LockChange { owner, block, lock_type, range, pid })
    }
}

} // verus!
