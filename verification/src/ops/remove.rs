//! Removing files and directories.
use crate::error::{ErrorKind, FsError};
use crate::meta::FileType;
use crate::ops::logged;
use crate::ops::logged::Logged;
use crate::ops::lookup;
use crate::ops::lookup::{ParentDir, Resolve};
use crate::path;
use crate::path::{is_root, normalize_path, split_dir_file};
use crate::script;
use crate::script::{MetaRequest, Operation, Reply, Request, Script, SpecReply, Step};
use crate::stat::FileStat;
use vstd::prelude::*;

verus! {

broadcast use crate::script::group_bind;

/// Removes the file at a normalized path.
pub open spec fn unlink(root_ino: i64, path: Seq<char>) -> Script<()> {
    lookup::parent_dir(root_ino, path::parent(path), true).and_next(
        |parent: i64| unlink_entry(path, path::file_name(path), parent),
    )
}

/// The rest of `unlink`, the directory being known.
pub open spec fn unlink_entry(path: Seq<char>, name: Seq<char>, parent: i64) -> Script<()> {
    Script::Ask(
        Request::Meta(MetaRequest::Lookup { parent, name }),
        |reply: SpecReply|
            match reply.child(path) {
                Err(e) => Script::Done(Err(e)),
                Ok(None) => script::fail(ErrorKind::NotFound, path),
                Ok(Some(ino)) => unlink_kind(path, name, parent, ino),
            },
    )
}

/// The rest of `unlink`, the inode being known.
pub open spec fn unlink_kind(
    path: Seq<char>,
    name: Seq<char>,
    parent: i64,
    ino: i64,
) -> Script<()> {
    Script::Ask(
        Request::Meta(MetaRequest::Stat { ino }),
        |reply: SpecReply|
            match reply.attr(path) {
                Err(e) => Script::Done(Err(e)),
                Ok(None) => script::fail(ErrorKind::NotFound, path),
                Ok(Some(attr)) => if attr.kind == FileType::Dir {
                    script::fail(ErrorKind::IsADirectory, path)
                } else {
                    unlink_now(path, name, parent)
                },
            },
    )
}

/// The last step of `unlink`.
pub open spec fn unlink_now(path: Seq<char>, name: Seq<char>, parent: i64) -> Script<()> {
    Script::Ask(
        Request::Meta(MetaRequest::Unlink { parent, name }),
        |reply: SpecReply| Script::Done(reply.unit(path)),
    )
}

/// Remove a file (unlink).
#[derive(Debug)]
pub struct Unlink {
    pub path: String,
    pub name: String,
    pub at: UnlinkAt,
}

#[derive(Debug)]
pub enum UnlinkAt {
    Parent(ParentDir),
    Entry { parent: i64 },
    Kind { parent: i64, ino: i64 },
    Now { parent: i64 },
}

impl Unlink {
    pub fn start(root_ino: i64, path: &str) -> (s: Step<Unlink, ()>)
        requires
            path::is_absolute(path@),
        ensures
            s.script() == unlink(root_ino, path@),
    {
        let (dir, name) = split_dir_file(path);
        let path = String::from_str(path);
        match ParentDir::start(root_ino, dir.as_str(), true) {
            Step::Pending(op) => Step::Pending(Unlink { path, name, at: UnlinkAt::Parent(op) }),
            Step::Done(Err(e)) => Step::Done(Err(e)),
            Step::Done(Ok(parent)) => Step::Pending(
                Unlink { path, name, at: UnlinkAt::Entry { parent } },
            ),
        }
    }
}

impl Operation for Unlink {
    type Output = ();

    open spec fn script(self) -> Script<()> {
        let path = self.path@;
        let name = self.name@;
        match self.at {
            UnlinkAt::Parent(op) => op.script().and_next(
                |parent: i64| unlink_entry(path, name, parent),
            ),
            UnlinkAt::Entry { parent } => unlink_entry(path, name, parent),
            UnlinkAt::Kind { parent, ino } => unlink_kind(path, name, parent, ino),
            UnlinkAt::Now { parent } => unlink_now(path, name, parent),
        }
    }

    open spec fn accepts(self, reply: SpecReply) -> bool {
        true
    }

    fn admits(&self, _reply: &Reply) -> (b: bool) {
        true
    }

    proof fn asks(self) {
    }

    fn request(&self) -> (q: Request) {
        match &self.at {
            UnlinkAt::Parent(op) => op.request(),
            UnlinkAt::Entry { parent } => Request::Meta(
                MetaRequest::Lookup { parent: *parent, name: self.name.clone() },
            ),
            UnlinkAt::Kind { parent: _, ino } => Request::Meta(MetaRequest::Stat { ino: *ino }),
            UnlinkAt::Now { parent } => Request::Meta(
                MetaRequest::Unlink { parent: *parent, name: self.name.clone() },
            ),
        }
    }

    fn resume(self, reply: Reply) -> (s: Step<Unlink, ()>) {
        let path = self.path;
        let name = self.name;
        match self.at {
            UnlinkAt::Parent(op) => match op.resume(reply) {
                Step::Pending(op) => Step::Pending(Unlink { path, name, at: UnlinkAt::Parent(op) }),
                Step::Done(Err(e)) => Step::Done(Err(e)),
                Step::Done(Ok(parent)) => Step::Pending(
                    Unlink { path, name, at: UnlinkAt::Entry { parent } },
                ),
            },
            UnlinkAt::Entry { parent } => match reply.into_child(path.as_str()) {
                Err(e) => Step::Done(Err(e)),
                Ok(None) => Step::Done(Err(FsError { kind: ErrorKind::NotFound, message: path })),
                Ok(Some(ino)) => Step::Pending(
                    Unlink { path, name, at: UnlinkAt::Kind { parent, ino } },
                ),
            },
            UnlinkAt::Kind { parent, ino: _ } => match reply.into_attr(path.as_str()) {
                Err(e) => Step::Done(Err(e)),
                Ok(None) => Step::Done(Err(FsError { kind: ErrorKind::NotFound, message: path })),
                Ok(Some(attr)) => if attr.kind == FileType::Dir {
                    Step::Done(Err(FsError { kind: ErrorKind::IsADirectory, message: path }))
                } else {
                    Step::Pending(Unlink { path, name, at: UnlinkAt::Now { parent } })
                },
            },
            UnlinkAt::Now { parent: _ } => Step::Done(reply.into_unit(path.as_str())),
        }
    }
}

/// Removes the empty directory at a normalized path.
pub open spec fn rmdir(root_ino: i64, path: Seq<char>) -> Script<()> {
    if path == path::root() {
        script::fail(ErrorKind::InvalidInput, "cannot remove root"@)
    } else {
        lookup::parent_dir(root_ino, path::parent(path), true).and_next(
            |parent: i64| rmdir_entry(path, path::file_name(path), parent),
        )
    }
}

/// The rest of `rmdir`, the directory that holds the entry being known.
pub open spec fn rmdir_entry(path: Seq<char>, name: Seq<char>, parent: i64) -> Script<()> {
    Script::Ask(
        Request::Meta(MetaRequest::Lookup { parent, name }),
        |reply: SpecReply|
            match reply.child(path) {
                Err(e) => Script::Done(Err(e)),
                Ok(None) => script::fail(ErrorKind::NotFound, path),
                Ok(Some(ino)) => rmdir_kind(path, name, parent, ino),
            },
    )
}

/// The rest of `rmdir`, the inode being known.
pub open spec fn rmdir_kind(
    path: Seq<char>,
    name: Seq<char>,
    parent: i64,
    ino: i64,
) -> Script<()> {
    Script::Ask(
        Request::Meta(MetaRequest::Stat { ino }),
        |reply: SpecReply|
            match reply.attr(path) {
                Err(e) => Script::Done(Err(e)),
                Ok(None) => script::fail(ErrorKind::NotFound, path),
                Ok(Some(attr)) => if attr.kind != FileType::Dir {
                    script::fail(ErrorKind::NotADirectory, path)
                } else {
                    rmdir_children(path, name, parent, ino)
                },
            },
    )
}

/// The rest of `rmdir`, the inode being that of a directory.
pub open spec fn rmdir_children(
    path: Seq<char>,
    name: Seq<char>,
    parent: i64,
    ino: i64,
) -> Script<()> {
    Script::Ask(
        Request::Meta(MetaRequest::Readdir { ino }),
        |reply: SpecReply|
            match reply.entries(path) {
                Err(e) => Script::Done(Err(e)),
                Ok(children) => if children.len() > 0 {
                    script::fail(ErrorKind::DirectoryNotEmpty, path)
                } else {
                    rmdir_now(path, name, parent)
                },
            },
    )
}

/// The last step of `rmdir`.
pub open spec fn rmdir_now(path: Seq<char>, name: Seq<char>, parent: i64) -> Script<()> {
    Script::Ask(
        Request::Meta(MetaRequest::Rmdir { parent, name }),
        |reply: SpecReply| Script::Done(reply.unit(path)),
    )
}

/// Remove an empty directory.
#[derive(Debug)]
pub struct Rmdir {
    pub path: String,
    pub name: String,
    pub at: RmdirAt,
}

#[derive(Debug)]
pub enum RmdirAt {
    Parent(ParentDir),
    Entry { parent: i64 },
    Kind { parent: i64, ino: i64 },
    Children { parent: i64, ino: i64 },
    Now { parent: i64 },
}

impl Rmdir {
    pub fn start(root_ino: i64, path: &str) -> (s: Step<Rmdir, ()>)
        requires
            path::is_absolute(path@),
        ensures
            s.script() == rmdir(root_ino, path@),
    {
        if is_root(path) {
            return Step::Done(Err(FsError::new(ErrorKind::InvalidInput, "cannot remove root")));
        }
        let (dir, name) = split_dir_file(path);
        let path = String::from_str(path);
        match ParentDir::start(root_ino, dir.as_str(), true) {
            Step::Pending(op) => Step::Pending(Rmdir { path, name, at: RmdirAt::Parent(op) }),
            Step::Done(Err(e)) => Step::Done(Err(e)),
            Step::Done(Ok(parent)) => Step::Pending(
                Rmdir { path, name, at: RmdirAt::Entry { parent } },
            ),
        }
    }
}

impl Operation for Rmdir {
    type Output = ();

    open spec fn script(self) -> Script<()> {
        let path = self.path@;
        let name = self.name@;
        match self.at {
            RmdirAt::Parent(op) => op.script().and_next(
                |parent: i64| rmdir_entry(path, name, parent),
            ),
            RmdirAt::Entry { parent } => rmdir_entry(path, name, parent),
            RmdirAt::Kind { parent, ino } => rmdir_kind(path, name, parent, ino),
            RmdirAt::Children { parent, ino } => rmdir_children(path, name, parent, ino),
            RmdirAt::Now { parent } => rmdir_now(path, name, parent),
        }
    }

    open spec fn accepts(self, reply: SpecReply) -> bool {
        true
    }

    fn admits(&self, _reply: &Reply) -> (b: bool) {
        true
    }

    proof fn asks(self) {
    }

    fn request(&self) -> (q: Request) {
        match &self.at {
            RmdirAt::Parent(op) => op.request(),
            RmdirAt::Entry { parent } => Request::Meta(
                MetaRequest::Lookup { parent: *parent, name: self.name.clone() },
            ),
            RmdirAt::Kind { parent: _, ino } => Request::Meta(MetaRequest::Stat { ino: *ino }),
            RmdirAt::Children { parent: _, ino } => Request::Meta(
                MetaRequest::Readdir { ino: *ino },
            ),
            RmdirAt::Now { parent } => Request::Meta(
                MetaRequest::Rmdir { parent: *parent, name: self.name.clone() },
            ),
        }
    }

    fn resume(self, reply: Reply) -> (s: Step<Rmdir, ()>) {
        let path = self.path;
        let name = self.name;
        match self.at {
            RmdirAt::Parent(op) => match op.resume(reply) {
                Step::Pending(op) => Step::Pending(Rmdir { path, name, at: RmdirAt::Parent(op) }),
                Step::Done(Err(e)) => Step::Done(Err(e)),
                Step::Done(Ok(parent)) => Step::Pending(
                    Rmdir { path, name, at: RmdirAt::Entry { parent } },
                ),
            },
            RmdirAt::Entry { parent } => match reply.into_child(path.as_str()) {
                Err(e) => Step::Done(Err(e)),
                Ok(None) => Step::Done(Err(FsError { kind: ErrorKind::NotFound, message: path })),
                Ok(Some(ino)) => Step::Pending(
                    Rmdir { path, name, at: RmdirAt::Kind { parent, ino } },
                ),
            },
            RmdirAt::Kind { parent, ino } => match reply.into_attr(path.as_str()) {
                Err(e) => Step::Done(Err(e)),
                Ok(None) => Step::Done(Err(FsError { kind: ErrorKind::NotFound, message: path })),
                Ok(Some(attr)) => if attr.kind != FileType::Dir {
                    Step::Done(Err(FsError { kind: ErrorKind::NotADirectory, message: path }))
                } else {
                    Step::Pending(Rmdir { path, name, at: RmdirAt::Children { parent, ino } })
                },
            },
            RmdirAt::Children { parent, ino: _ } => match reply.into_entries(path.as_str()) {
                Err(e) => Step::Done(Err(e)),
                Ok(children) => if children.entries.len() > 0 {
                    Step::Done(Err(FsError { kind: ErrorKind::DirectoryNotEmpty, message: path }))
                } else {
                    Step::Pending(Rmdir { path, name, at: RmdirAt::Now { parent } })
                },
            },
            RmdirAt::Now { parent: _ } => Step::Done(reply.into_unit(path.as_str())),
        }
    }
}

/// Removes the file or the empty directory at a normalized path. What stands there decides which
/// of the two operations runs, and that operation is the one that is logged.
pub open spec fn remove(log: bool, root_ino: i64, path: Seq<char>) -> Script<()> {
    lookup::resolve(path, false).and_next(
        |info: FileStat<Seq<char>>| remove_kind(log, root_ino, path, info.attr.kind),
    )
}

/// The rest of `remove`, the kind being known.
pub open spec fn remove_kind(
    log: bool,
    root_ino: i64,
    path: Seq<char>,
    kind: FileType,
) -> Script<()> {
    if kind == FileType::Dir {
        logged_rmdir(log, root_ino, path)
    } else {
        logged_unlink(log, root_ino, path)
    }
}

/// Removes a file, recorded in the access log.
pub open spec fn logged_unlink(log: bool, root_ino: i64, path: Seq<char>) -> Script<()> {
    let path = path::normalize(path);
    logged::logged(log, "unlink"@, path, unlink(root_ino, path))
}

/// Removes an empty directory, recorded in the access log.
pub open spec fn logged_rmdir(log: bool, root_ino: i64, path: Seq<char>) -> Script<()> {
    let path = path::normalize(path);
    logged::logged(log, "rmdir"@, path, rmdir(root_ino, path))
}

/// Remove a file or empty directory.
pub enum Remove {
    Resolve { log: bool, root_ino: i64, path: String, op: Resolve },
    Rmdir(Logged<Rmdir>),
    Unlink(Logged<Unlink>),
}

/// Remove a file, recorded in the access log.
pub fn start_unlink(log: bool, root_ino: i64, path: &str) -> (s: Step<Logged<Unlink>, ()>)
    ensures
        s.script() == logged_unlink(log, root_ino, path@),
{
    let path = normalize_path(path);
    Logged::start(log, "unlink", path.as_str(), Unlink::start(root_ino, path.as_str()))
}

/// Remove an empty directory, recorded in the access log.
pub fn start_rmdir(log: bool, root_ino: i64, path: &str) -> (s: Step<Logged<Rmdir>, ()>)
    ensures
        s.script() == logged_rmdir(log, root_ino, path@),
{
    let path = normalize_path(path);
    Logged::start(log, "rmdir", path.as_str(), Rmdir::start(root_ino, path.as_str()))
}

impl Remove {
    /// What is left to do.
    pub open spec fn plan(self) -> Script<()> {
        match self {
            Remove::Resolve { log, root_ino, path, op } => {
                let path = path@;
                op.script().and_next(
                    |info: FileStat<Seq<char>>| remove_kind(log, root_ino, path, info.attr.kind),
                )
            },
            Remove::Rmdir(op) => op.script(),
            Remove::Unlink(op) => op.script(),
        }
    }

    pub fn start(log: bool, root_ino: i64, path: &str) -> (s: Step<Remove, ()>)
        ensures
            s.script() == remove(log, root_ino, path@),
    {
        match Resolve::start(path, false) {
            Step::Pending(op) => Step::Pending(
                Remove::Resolve { log, root_ino, path: String::from_str(path), op },
            ),
            Step::Done(Err(e)) => Step::Done(Err(e)),
            Step::Done(Ok(info)) => Remove::resolved(log, root_ino, path, &info),
        }
    }

    fn resolved(log: bool, root_ino: i64, path: &str, info: &FileStat) -> (s: Step<Remove, ()>)
        ensures
            script::stage(s, |o: Remove| o.plan()) == remove_kind(
                log,
                root_ino,
                path@,
                info.attr.kind,
            ),
    {
        if info.is_dir() {
            match start_rmdir(log, root_ino, path) {
                Step::Pending(op) => Step::Pending(Remove::Rmdir(op)),
                Step::Done(r) => Step::Done(r),
            }
        } else {
            match start_unlink(log, root_ino, path) {
                Step::Pending(op) => Step::Pending(Remove::Unlink(op)),
                Step::Done(r) => Step::Done(r),
            }
        }
    }
}

impl Operation for Remove {
    type Output = ();

    open spec fn script(self) -> Script<()> {
        self.plan()
    }

    open spec fn accepts(self, reply: SpecReply) -> bool {
        match self {
            Remove::Resolve { log, root_ino, path, op } => op.accepts(reply),
            Remove::Rmdir(op) => op.accepts(reply),
            Remove::Unlink(op) => op.accepts(reply),
        }
    }

    fn admits(&self, reply: &Reply) -> (b: bool) {
        match self {
            Remove::Resolve { log: _, root_ino: _, path: _, op } => op.admits(reply),
            Remove::Rmdir(op) => op.admits(reply),
            Remove::Unlink(op) => op.admits(reply),
        }
    }

    proof fn asks(self) {
        match self {
            Remove::Resolve { log, root_ino, path, op } => op.asks(),
            Remove::Rmdir(op) => op.asks(),
            Remove::Unlink(op) => op.asks(),
        }
    }

    fn request(&self) -> (q: Request) {
        match self {
            Remove::Resolve { log: _, root_ino: _, path: _, op } => op.request(),
            Remove::Rmdir(op) => op.request(),
            Remove::Unlink(op) => op.request(),
        }
    }

    fn resume(self, reply: Reply) -> (s: Step<Remove, ()>) {
        proof {
            self.asks();
        }
        match self {
            Remove::Resolve { log, root_ino, path, op } => match op.resume(reply) {
                Step::Pending(op) => Step::Pending(Remove::Resolve { log, root_ino, path, op }),
                Step::Done(Err(e)) => Step::Done(Err(e)),
                Step::Done(Ok(info)) => Remove::resolved(log, root_ino, path.as_str(), &info),
            },
            Remove::Rmdir(op) => match op.resume(reply) {
                Step::Pending(op) => Step::Pending(Remove::Rmdir(op)),
                Step::Done(r) => Step::Done(r),
            },
            Remove::Unlink(op) => match op.resume(reply) {
                Step::Pending(op) => Step::Pending(Remove::Unlink(op)),
                Step::Done(r) => Step::Done(r),
            },
        }
    }
}

} // verus!
