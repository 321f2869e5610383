//! Sizes, attributes, listings and locks.
use crate::error::{ErrorKind, FsError};
use crate::meta::{
    DirEntry, FileAttr, FileLockInfo, FileLockQuery, FileLockRange, FileLockType, FileType,
    Listing, SetAttrFlags, SetAttrRequest,
};
use crate::ops::logged;
use crate::ops::logged::Logged;
use crate::ops::lookup;
use crate::ops::lookup::Resolve;
use crate::path;
use crate::path::normalize_path;
use crate::script;
use crate::script::{
    MetaRequest, Operation, RegistryRequest, Reply, Request, Script, SpecReply, SpecRequest, Step,
};
use crate::stat::{FileStat, StatFs};
use vstd::prelude::*;

verus! {

broadcast use crate::script::group_bind;

/// Sets the size of the file at a normalized path.
pub open spec fn truncate(path: Seq<char>, size: u64) -> Script<()> {
    Script::Ask(
        Request::Meta(MetaRequest::LookupPath { path }),
        |reply: SpecReply|
            match reply.entry(path) {
                Err(e) => Script::Done(Err(e)),
                Ok(None) => script::fail(ErrorKind::NotFound, path),
                Ok(Some((ino, kind))) => match kind {
                    FileType::File => truncate_cached(path, ino, size),
                    FileType::Dir => script::fail(ErrorKind::IsADirectory, path),
                    FileType::Symlink => script::fail(ErrorKind::InvalidInput, path),
                },
            },
    )
}

/// The rest of `truncate`, the inode being that of a file: the registry learns the size, if it
/// knows the file.
pub open spec fn truncate_cached(path: Seq<char>, ino: i64, size: u64) -> Script<()> {
    Script::Ask(
        Request::Registry(RegistryRequest::UpdateSize { ino, size }),
        |reply: SpecReply| truncate_now(path, ino, size),
    )
}

/// The last step of `truncate`.
pub open spec fn truncate_now(path: Seq<char>, ino: i64, size: u64) -> Script<()> {
    Script::Ask(
        Request::Meta(MetaRequest::SetFileSize { ino, size }),
        |reply: SpecReply| Script::Done(reply.unit(path)),
    )
}

/// Truncate a file to the given size.
#[derive(Debug)]
pub struct Truncate {
    pub path: String,
    pub size: u64,
    pub at: TruncateAt,
}

#[derive(Debug, Clone, Copy)]
pub enum TruncateAt {
    Entry,
    Cached { ino: i64 },
    Now { ino: i64 },
}

impl Truncate {
    pub fn start(path: &str, size: u64) -> (s: Step<Truncate, ()>)
        ensures
            s.script() == truncate(path@, size),
    {
        Step::Pending(Truncate { path: String::from_str(path), size, at: TruncateAt::Entry })
    }
}

impl Operation for Truncate {
    type Output = ();

    open spec fn script(self) -> Script<()> {
        match self.at {
            TruncateAt::Entry => truncate(self.path@, self.size),
            TruncateAt::Cached { ino } => truncate_cached(self.path@, ino, self.size),
            TruncateAt::Now { ino } => truncate_now(self.path@, ino, self.size),
        }
    }

    open spec fn accepts(self, reply: SpecReply) -> bool {
        true
    }

    fn admits(&self, _reply: &Reply) -> (b: bool) {
        true
    }

    proof fn asks(self) {
    }

    fn request(&self) -> (q: Request) {
        match self.at {
            TruncateAt::Entry => Request::Meta(
                MetaRequest::LookupPath { path: self.path.clone() },
            ),
            TruncateAt::Cached { ino } => Request::Registry(
                RegistryRequest::UpdateSize { ino, size: self.size },
            ),
            TruncateAt::Now { ino } => Request::Meta(
                MetaRequest::SetFileSize { ino, size: self.size },
            ),
        }
    }

    fn resume(self, reply: Reply) -> (s: Step<Truncate, ()>) {
        let path = self.path;
        let size: u64 = self.size;
        match self.at {
            TruncateAt::Entry => match reply.into_entry(path.as_str()) {
                Err(e) => Step::Done(Err(e)),
                Ok(None) => Step::Done(Err(FsError { kind: ErrorKind::NotFound, message: path })),
                Ok(Some((ino, kind))) => match kind {
                    FileType::File => Step::Pending(
                        Truncate { path, size, at: TruncateAt::Cached { ino } },
                    ),
                    FileType::Dir => Step::Done(
                        Err(FsError { kind: ErrorKind::IsADirectory, message: path }),
                    ),
                    FileType::Symlink => Step::Done(
                        Err(FsError { kind: ErrorKind::InvalidInput, message: path }),
                    ),
                },
            },
            TruncateAt::Cached { ino } => Step::Pending(
                Truncate { path, size, at: TruncateAt::Now { ino } },
            ),
            TruncateAt::Now { ino: _ } => Step::Done(reply.into_unit(path.as_str())),
        }
    }
}

/// Sets the size of a file, recorded in the access log.
pub open spec fn logged_truncate(log: bool, path: Seq<char>, size: u64) -> Script<()> {
    let path = path::normalize(path);
    logged::logged(log, "truncate"@, path, truncate(path, size))
}

/// Set the size of a file, recorded in the access log.
pub fn start_truncate(log: bool, path: &str, size: u64) -> (s: Step<Logged<Truncate>, ()>)
    ensures
        s.script() == logged_truncate(log, path@, size),
{
    let path = normalize_path(path);
    Logged::start(log, "truncate", path.as_str(), Truncate::start(path.as_str(), size))
}

/// Changes the attributes of what a normalized path leads to, and gives the attributes after the
/// change.
pub open spec fn set_attr(path: Seq<char>, attrs: SetAttrRequest, flags: SetAttrFlags) -> Script<
    FileAttr,
> {
    lookup::resolve(path, true).and_next(
        |info: FileStat<Seq<char>>| set_attr_now(path, info.inode, attrs, flags),
    )
}

/// The rest of `set_attr`, the inode being known.
pub open spec fn set_attr_now(
    path: Seq<char>,
    ino: i64,
    attrs: SetAttrRequest,
    flags: SetAttrFlags,
) -> Script<FileAttr> {
    Script::Ask(
        Request::Meta(MetaRequest::SetAttr { ino, attrs, flags }),
        |reply: SpecReply|
            match reply.changed(path) {
                Err(e) => Script::Done(Err(e)),
                Ok(attr) => match attrs.size {
                    Some(size) => set_attr_cached(ino, size, attr),
                    None => Script::Done(Ok(attr)),
                },
            },
    )
}

/// The rest of `set_attr`, where the size was changed: the registry learns it, if it knows the
/// file.
pub open spec fn set_attr_cached(ino: i64, size: u64, attr: FileAttr) -> Script<FileAttr> {
    Script::Ask(
        Request::Registry(RegistryRequest::UpdateSize { ino, size }),
        |reply: SpecReply| Script::Done(Ok(attr)),
    )
}

/// Set file attributes.
#[derive(Debug)]
pub enum SetAttr {
    Resolve { path: String, attrs: SetAttrRequest, flags: SetAttrFlags, op: Resolve },
    Now { path: String, ino: i64, attrs: SetAttrRequest, flags: SetAttrFlags },
    Cached { ino: i64, size: u64, attr: FileAttr },
}

impl SetAttr {
    pub fn start(path: &str, attrs: SetAttrRequest, flags: SetAttrFlags) -> (s: Step<
        SetAttr,
        FileAttr,
    >)
        ensures
            s.script() == set_attr(path@, attrs, flags),
    {
        let path_text = String::from_str(path);
        match Resolve::start(path, true) {
            Step::Pending(op) => Step::Pending(
                SetAttr::Resolve { path: path_text, attrs, flags, op },
            ),
            Step::Done(Err(e)) => Step::Done(Err(e)),
            Step::Done(Ok(info)) => Step::Pending(
                SetAttr::Now { path: path_text, ino: info.inode, attrs, flags },
            ),
        }
    }
}

impl Operation for SetAttr {
    type Output = FileAttr;

    open spec fn script(self) -> Script<FileAttr> {
        match self {
            SetAttr::Resolve { path, attrs, flags, op } => {
                let path = path@;
                op.script().and_next(
                    |info: FileStat<Seq<char>>| set_attr_now(path, info.inode, attrs, flags),
                )
            },
            SetAttr::Now { path, ino, attrs, flags } => set_attr_now(path@, ino, attrs, flags),
            SetAttr::Cached { ino, size, attr } => set_attr_cached(ino, size, attr),
        }
    }

    open spec fn accepts(self, reply: SpecReply) -> bool {
        true
    }

    fn admits(&self, _reply: &Reply) -> (b: bool) {
        true
    }

    proof fn asks(self) {
        match self {
            SetAttr::Resolve { path, attrs, flags, op } => op.asks(),
            _ => {},
        }
    }

    fn request(&self) -> (q: Request) {
        match self {
            SetAttr::Resolve { path: _, attrs: _, flags: _, op } => op.request(),
            SetAttr::Now { path: _, ino, attrs, flags } => Request::Meta(
                MetaRequest::SetAttr { ino: *ino, attrs: *attrs, flags: *flags },
            ),
            SetAttr::Cached { ino, size, attr: _ } => Request::Registry(
                RegistryRequest::UpdateSize { ino: *ino, size: *size },
            ),
        }
    }

    fn resume(self, reply: Reply) -> (s: Step<SetAttr, FileAttr>) {
        proof {
            self.asks();
        }
        match self {
            SetAttr::Resolve { path, attrs, flags, op } => match op.resume(reply) {
                Step::Pending(op) => Step::Pending(SetAttr::Resolve { path, attrs, flags, op }),
                Step::Done(Err(e)) => Step::Done(Err(e)),
                Step::Done(Ok(info)) => Step::Pending(
                    SetAttr::Now { path, ino: info.inode, attrs, flags },
                ),
            },
            SetAttr::Now { path, ino, attrs, flags: _ } => match reply.into_changed(
                path.as_str(),
            ) {
                Err(e) => Step::Done(Err(e)),
                Ok(attr) => match attrs.size {
                    Some(size) => Step::Pending(SetAttr::Cached { ino, size, attr }),
                    None => Step::Done(Ok(attr)),
                },
            },
            SetAttr::Cached { ino: _, size: _, attr } => Step::Done(Ok(attr)),
        }
    }
}

/// Lists the directory at a normalized path.
pub open spec fn readdir(path: Seq<char>) -> Script<Seq<DirEntry<Seq<char>>>> {
    Script::Ask(
        Request::Meta(MetaRequest::LookupPath { path }),
        |reply: SpecReply|
            match reply.entry(path) {
                Err(e) => Script::Done(Err(e)),
                Ok(None) => script::fail(ErrorKind::NotFound, path),
                Ok(Some((ino, kind))) => if kind != FileType::Dir {
                    script::fail(ErrorKind::NotADirectory, path)
                } else {
                    readdir_entries(path, ino)
                },
            },
    )
}

/// The last step of `readdir`.
pub open spec fn readdir_entries(path: Seq<char>, ino: i64) -> Script<Seq<DirEntry<Seq<char>>>> {
    Script::Ask(
        Request::Meta(MetaRequest::Readdir { ino }),
        |reply: SpecReply| Script::Done(reply.entries(path)),
    )
}

/// Read directory entries.
#[derive(Debug)]
pub enum Readdir {
    Entry { path: String },
    Entries { path: String, ino: i64 },
}

impl Operation for Readdir {
    type Output = Listing;

    open spec fn script(self) -> Script<Seq<DirEntry<Seq<char>>>> {
        match self {
            Readdir::Entry { path } => readdir(path@),
            Readdir::Entries { path, ino } => readdir_entries(path@, ino),
        }
    }

    open spec fn accepts(self, reply: SpecReply) -> bool {
        true
    }

    fn admits(&self, _reply: &Reply) -> (b: bool) {
        true
    }

    proof fn asks(self) {
    }

    fn request(&self) -> (q: Request) {
        match self {
            Readdir::Entry { path } => Request::Meta(
                MetaRequest::LookupPath { path: path.clone() },
            ),
            Readdir::Entries { path: _, ino } => Request::Meta(MetaRequest::Readdir { ino: *ino }),
        }
    }

    fn resume(self, reply: Reply) -> (s: Step<Readdir, Listing>) {
        match self {
            Readdir::Entry { path } => match reply.into_entry(path.as_str()) {
                Err(e) => Step::Done(Err(e)),
                Ok(None) => Step::Done(Err(FsError { kind: ErrorKind::NotFound, message: path })),
                Ok(Some((ino, kind))) => if kind != FileType::Dir {
                    Step::Done(Err(FsError { kind: ErrorKind::NotADirectory, message: path }))
                } else {
                    Step::Pending(Readdir::Entries { path, ino })
                },
            },
            Readdir::Entries { path, ino: _ } => Step::Done(reply.into_entries(path.as_str())),
        }
    }
}

/// Lists a directory, recorded in the access log.
pub open spec fn logged_readdir(log: bool, path: Seq<char>) -> Script<Seq<DirEntry<Seq<char>>>> {
    let path = path::normalize(path);
    logged::logged(log, "readdir"@, path, readdir(path))
}

/// Read directory entries, recorded in the access log.
pub fn logged_readdir_of(log: bool, path: &str) -> (op: Logged<Readdir>)
    ensures
        op.script() == logged_readdir(log, path@),
{
    let path = normalize_path(path);
    Logged::of(log, "readdir", path.as_str(), Readdir::Entry { path: path.clone() })
}

/// Gives the statistics of the file system.
pub open spec fn stat_fs() -> Script<StatFs> {
    Script::Ask(
        Request::Meta(MetaRequest::StatFs),
        |reply: SpecReply|
            match reply.space("stat_fs"@) {
                Err(e) => Script::Done(Err(e)),
                Ok(s) => Script::Done(Ok(StatFs::of(s))),
            },
    )
}

/// Get file system statistics.
#[derive(Debug, Clone, Copy)]
pub struct ReadStatFs {}

impl ReadStatFs {
    pub fn start() -> (s: Step<ReadStatFs, StatFs>)
        ensures
            s.script() == stat_fs(),
    {
        Step::Pending(ReadStatFs {  })
    }
}

impl Operation for ReadStatFs {
    type Output = StatFs;

    open spec fn script(self) -> Script<StatFs> {
        stat_fs()
    }

    open spec fn accepts(self, reply: SpecReply) -> bool {
        true
    }

    fn admits(&self, _reply: &Reply) -> (b: bool) {
        true
    }

    proof fn asks(self) {
    }

    fn request(&self) -> (q: Request) {
        Request::Meta(MetaRequest::StatFs)
    }

    fn resume(self, reply: Reply) -> (s: Step<ReadStatFs, StatFs>) {
        match reply.into_space("stat_fs") {
            Err(e) => Step::Done(Err(e)),
            Ok(s) => Step::Done(Ok(StatFs::from(s))),
        }
    }
}

/// Tells whether something stands at a normalized path. A failed lookup counts as finding
/// nothing.
pub open spec fn path_exists(path: Seq<char>) -> Script<bool> {
    Script::Ask(
        Request::Meta(MetaRequest::LookupPath { path }),
        |reply: SpecReply| Script::Done(Ok(reply.entry(path) matches Ok(Some(_)))),
    )
}

/// Check if a path exists.
#[derive(Debug)]
pub struct Exists {
    pub path: String,
}

impl Exists {
    pub fn start(path: &str) -> (s: Step<Exists, bool>)
        ensures
            s.script() == path_exists(path@),
    {
        Step::Pending(Exists { path: String::from_str(path) })
    }
}

impl Operation for Exists {
    type Output = bool;

    open spec fn script(self) -> Script<bool> {
        path_exists(self.path@)
    }

    open spec fn accepts(self, reply: SpecReply) -> bool {
        true
    }

    fn admits(&self, _reply: &Reply) -> (b: bool) {
        true
    }

    proof fn asks(self) {
    }

    fn request(&self) -> (q: Request) {
        Request::Meta(MetaRequest::LookupPath { path: self.path.clone() })
    }

    fn resume(self, reply: Reply) -> (s: Step<Exists, bool>) {
        match reply.into_entry(self.path.as_str()) {
            Ok(Some(_)) => Step::Done(Ok(true)),
            _ => Step::Done(Ok(false)),
        }
    }
}

/// Finds a lock that stands against the one asked for, on what a normalized path leads to.
pub open spec fn get_plock(path: Seq<char>, query: FileLockQuery) -> Script<FileLockInfo> {
    lookup::resolve(path, true).and_next(
        |info: FileStat<Seq<char>>| get_plock_now(path, info.inode, query),
    )
}

/// The last step of `get_plock`.
pub open spec fn get_plock_now(path: Seq<char>, ino: i64, query: FileLockQuery) -> Script<
    FileLockInfo,
> {
    Script::Ask(
        Request::Meta(MetaRequest::GetPlock { ino, query }),
        |reply: SpecReply| Script::Done(reply.lock(path)),
    )
}

/// Get file lock information for a given path and query.
#[derive(Debug)]
pub enum GetPlock {
    Resolve { path: String, query: FileLockQuery, op: Resolve },
    Now { path: String, ino: i64, query: FileLockQuery },
}

impl GetPlock {
    pub fn start(path: &str, query: FileLockQuery) -> (s: Step<GetPlock, FileLockInfo>)
        ensures
            s.script() == get_plock(path@, query),
    {
        let path_text = String::from_str(path);
        match Resolve::start(path, true) {
            Step::Pending(op) => Step::Pending(GetPlock::Resolve { path: path_text, query, op }),
            Step::Done(Err(e)) => Step::Done(Err(e)),
            Step::Done(Ok(info)) => Step::Pending(
                GetPlock::Now { path: path_text, ino: info.inode, query },
            ),
        }
    }
}

impl Operation for GetPlock {
    type Output = FileLockInfo;

    open spec fn script(self) -> Script<FileLockInfo> {
        match self {
            GetPlock::Resolve { path, query, op } => {
                let path = path@;
                op.script().and_next(
                    |info: FileStat<Seq<char>>| get_plock_now(path, info.inode, query),
                )
            },
            GetPlock::Now { path, ino, query } => get_plock_now(path@, ino, query),
        }
    }

    open spec fn accepts(self, reply: SpecReply) -> bool {
        true
    }

    fn admits(&self, _reply: &Reply) -> (b: bool) {
        true
    }

    proof fn asks(self) {
        match self {
            GetPlock::Resolve { path, query, op } => op.asks(),
            _ => {},
        }
    }

    fn request(&self) -> (q: Request) {
        match self {
            GetPlock::Resolve { path: _, query: _, op } => op.request(),
            GetPlock::Now { path: _, ino, query } => Request::Meta(
                MetaRequest::GetPlock { ino: *ino, query: *query },
            ),
        }
    }

    fn resume(self, reply: Reply) -> (s: Step<GetPlock, FileLockInfo>) {
        proof {
            self.asks();
        }
        match self {
            GetPlock::Resolve { path, query, op } => match op.resume(reply) {
                Step::Pending(op) => Step::Pending(GetPlock::Resolve { path, query, op }),
                Step::Done(Err(e)) => Step::Done(Err(e)),
                Step::Done(Ok(info)) => Step::Pending(
                    GetPlock::Now { path, ino: info.inode, query },
                ),
            },
            GetPlock::Now { path, ino: _, query: _ } => Step::Done(
                reply.into_lock(path.as_str()),
            ),
        }
    }
}

/// A lock to take or to release.
#[derive(Debug, Clone, Copy, PartialEq, Eq, Structural)]
pub struct LockChange {
    pub owner: i64,
    pub block: bool,
    pub lock_type: FileLockType,
    pub range: FileLockRange,
    pub pid: u32,
}

impl LockChange {
    /// The request that makes the change on an inode.
    pub open spec fn request(self, ino: i64) -> SpecRequest {
        Request::Meta(
            MetaRequest::SetPlock {
                ino,
                owner: self.owner,
                block: self.block,
                lock_type: self.lock_type,
                range: self.range,
                pid: self.pid,
            },
        )
    }
}

/// Takes or releases a lock on what a normalized path leads to.
pub open spec fn set_plock(path: Seq<char>, change: LockChange) -> Script<()> {
    lookup::resolve(path, true).and_next(
        |info: FileStat<Seq<char>>| set_plock_now(path, info.inode, change),
    )
}

/// The last step of `set_plock`.
pub open spec fn set_plock_now(path: Seq<char>, ino: i64, change: LockChange) -> Script<()> {
    Script::Ask(change.request(ino), |reply: SpecReply| Script::Done(reply.unit(path)))
}

/// Set file lock for a given path.
#[derive(Debug)]
pub enum SetPlock {
    Resolve { path: String, change: LockChange, op: Resolve },
    Now { path: String, ino: i64, change: LockChange },
}

impl SetPlock {
    pub fn start(path: &str, change: LockChange) -> (s: Step<SetPlock, ()>)
        ensures
            s.script() == set_plock(path@, change),
    {
        let path_text = String::from_str(path);
        match Resolve::start(path, true) {
            Step::Pending(op) => Step::Pending(SetPlock::Resolve { path: path_text, change, op }),
            Step::Done(Err(e)) => Step::Done(Err(e)),
            Step::Done(Ok(info)) => Step::Pending(
                SetPlock::Now { path: path_text, ino: info.inode, change },
            ),
        }
    }
}

impl Operation for SetPlock {
    type Output = ();

    open spec fn script(self) -> Script<()> {
        match self {
            SetPlock::Resolve { path, change, op } => {
                let path = path@;
                op.script().and_next(
                    |info: FileStat<Seq<char>>| set_plock_now(path, info.inode, change),
                )
            },
            SetPlock::Now { path, ino, change } => set_plock_now(path@, ino, change),
        }
    }

    open spec fn accepts(self, reply: SpecReply) -> bool {
        true
    }

    fn admits(&self, _reply: &Reply) -> (b: bool) {
        true
    }

    proof fn asks(self) {
        match self {
            SetPlock::Resolve { path, change, op } => op.asks(),
            _ => {},
        }
    }

    fn request(&self) -> (q: Request) {
        match self {
            SetPlock::Resolve { path: _, change: _, op } => op.request(),
            SetPlock::Now { path: _, ino, change } => Request::Meta(
                MetaRequest::SetPlock {
                    ino: *ino,
                    owner: change.owner,
                    block: change.block,
                    lock_type: change.lock_type,
                    range: change.range,
                    pid: change.pid,
                },
            ),
        }
    }

    fn resume(self, reply: Reply) -> (s: Step<SetPlock, ()>) {
        proof {
            self.asks();
        }
        match self {
            SetPlock::Resolve { path, change, op } => match op.resume(reply) {
                Step::Pending(op) => Step::Pending(SetPlock::Resolve { path, change, op }),
                Step::Done(Err(e)) => Step::Done(Err(e)),
                Step::Done(Ok(info)) => Step::Pending(
                    SetPlock::Now { path, ino: info.inode, change },
                ),
            },
            SetPlock::Now { path, ino: _, change: _ } => Step::Done(
                reply.into_unit(path.as_str()),
            ),
        }
    }
}

} // verus!
