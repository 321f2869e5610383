//! Creating regular files.
use crate::error::{ErrorKind, FsError};
use crate::meta::FileType;
use crate::ops::lookup;
use crate::ops::lookup::ParentDir;
use crate::ops::mkdir;
use crate::ops::mkdir::MkdirP;
use crate::path;
use crate::path::{is_root, split_dir_file, Spot};
use crate::script;
use crate::script::{MetaRequest, Operation, Reply, Request, Script, SpecReply, Step};
use vstd::prelude::*;

verus! {

broadcast use crate::script::group_bind;

/// Creates a file in a directory that is there already. A file that is there will do, unless
/// `create_new` is set. Gives the inode of the file.
pub open spec fn create_in_dir(root_ino: i64, spot: Spot<Seq<char>>, create_new: bool) -> Script<
    i64,
> {
    if spot.path == path::root() {
        script::fail(ErrorKind::IsADirectory, spot.path)
    } else if spot.name.len() == 0 {
        script::fail(ErrorKind::InvalidInput, "empty file name"@)
    } else {
        lookup::parent_dir(root_ino, spot.dir, true).and_next(
            |parent: i64| create_in_dir_entry(spot.path, spot.name, create_new, parent),
        )
    }
}

/// The rest of `create_in_dir`, the directory being known.
pub open spec fn create_in_dir_entry(
    path: Seq<char>,
    name: Seq<char>,
    create_new: bool,
    parent: i64,
) -> Script<i64> {
    Script::Ask(
        Request::Meta(MetaRequest::Lookup { parent, name }),
        |reply: SpecReply|
            match reply.child(path) {
                Err(e) => Script::Done(Err(e)),
                Ok(Some(ino)) => create_in_dir_existing(path, create_new, ino),
                Ok(None) => create_now(path, name, parent),
            },
    )
}

/// The rest of `create_in_dir`, where something stands at the path.
pub open spec fn create_in_dir_existing(path: Seq<char>, create_new: bool, ino: i64) -> Script<
    i64,
> {
    Script::Ask(
        Request::Meta(MetaRequest::Stat { ino }),
        |reply: SpecReply|
            match reply.attr(path) {
                Err(e) => Script::Done(Err(e)),
                Ok(None) => script::fail(ErrorKind::NotFound, path),
                Ok(Some(attr)) => if attr.kind == FileType::Dir {
                    script::fail(ErrorKind::IsADirectory, path)
                } else if create_new {
                    script::fail(ErrorKind::AlreadyExists, path)
                } else {
                    Script::Done(Ok(ino))
                },
            },
    )
}

/// The last step of creating a file.
pub open spec fn create_now(path: Seq<char>, name: Seq<char>, parent: i64) -> Script<i64> {
    Script::Ask(
        Request::Meta(MetaRequest::CreateFile { parent, name }),
        |reply: SpecReply| Script::Done(reply.inode(path)),
    )
}

/// Create a file in a directory that exists.
#[derive(Debug)]
pub struct CreateInDir {
    pub path: String,
    pub name: String,
    pub create_new: bool,
    pub at: CreateInDirAt,
}

#[derive(Debug)]
pub enum CreateInDirAt {
    Parent(ParentDir),
    Entry { parent: i64 },
    Existing { ino: i64 },
    Now { parent: i64 },
}

impl CreateInDir {
    pub fn start(root_ino: i64, spot: Spot, create_new: bool) -> (s: Step<CreateInDir, i64>)
        ensures
            s.script() == create_in_dir(root_ino, spot@, create_new),
    {
        let path = spot.path;
        let name = spot.name;
        if is_root(path.as_str()) {
            return Step::Done(Err(FsError { kind: ErrorKind::IsADirectory, message: path }));
        }
        if name.as_str().is_empty() {
            return Step::Done(Err(FsError::new(ErrorKind::InvalidInput, "empty file name")));
        }
        match ParentDir::start(root_ino, spot.dir.as_str(), true) {
            Step::Pending(op) => Step::Pending(
                CreateInDir { path, name, create_new, at: CreateInDirAt::Parent(op) },
            ),
            Step::Done(Err(e)) => Step::Done(Err(e)),
            Step::Done(Ok(parent)) => Step::Pending(
                CreateInDir { path, name, create_new, at: CreateInDirAt::Entry { parent } },
            ),
        }
    }
}

impl Operation for CreateInDir {
    type Output = i64;

    open spec fn script(self) -> Script<i64> {
        let path = self.path@;
        let name = self.name@;
        let create_new = self.create_new;
        match self.at {
            CreateInDirAt::Parent(op) => op.script().and_next(
                |parent: i64| create_in_dir_entry(path, name, create_new, parent),
            ),
            CreateInDirAt::Entry { parent } => create_in_dir_entry(path, name, create_new, parent),
            CreateInDirAt::Existing { ino } => create_in_dir_existing(path, create_new, ino),
            CreateInDirAt::Now { parent } => create_now(path, name, parent),
        }
    }

    open spec fn accepts(self, reply: SpecReply) -> bool {
        true
    }

    fn admits(&self, _reply: &Reply) -> (b: bool) {
        true
    }

    proof fn asks(self) {
    }

    fn request(&self) -> (q: Request) {
        match &self.at {
            CreateInDirAt::Parent(op) => op.request(),
            CreateInDirAt::Entry { parent } => Request::Meta(
                MetaRequest::Lookup { parent: *parent, name: self.name.clone() },
            ),
            CreateInDirAt::Existing { ino } => Request::Meta(MetaRequest::Stat { ino: *ino }),
            CreateInDirAt::Now { parent } => Request::Meta(
                MetaRequest::CreateFile { parent: *parent, name: self.name.clone() },
            ),
        }
    }

    fn resume(self, reply: Reply) -> (s: Step<CreateInDir, i64>) {
        let path = self.path;
        let name = self.name;
        let create_new = self.create_new;
        match self.at {
            CreateInDirAt::Parent(op) => match op.resume(reply) {
                Step::Pending(op) => Step::Pending(
                    CreateInDir { path, name, create_new, at: CreateInDirAt::Parent(op) },
                ),
                Step::Done(Err(e)) => Step::Done(Err(e)),
                Step::Done(Ok(parent)) => Step::Pending(
                    CreateInDir { path, name, create_new, at: CreateInDirAt::Entry { parent } },
                ),
            },
            CreateInDirAt::Entry { parent } => match reply.into_child(path.as_str()) {
                Err(e) => Step::Done(Err(e)),
                Ok(Some(ino)) => Step::Pending(
                    CreateInDir { path, name, create_new, at: CreateInDirAt::Existing { ino } },
                ),
                Ok(None) => Step::Pending(
                    CreateInDir { path, name, create_new, at: CreateInDirAt::Now { parent } },
                ),
            },
            CreateInDirAt::Existing { ino } => match reply.into_attr(path.as_str()) {
                Err(e) => Step::Done(Err(e)),
                Ok(None) => Step::Done(Err(FsError { kind: ErrorKind::NotFound, message: path })),
                Ok(Some(attr)) => if attr.kind == FileType::Dir {
                    Step::Done(Err(FsError { kind: ErrorKind::IsADirectory, message: path }))
                } else if create_new {
                    Step::Done(Err(FsError { kind: ErrorKind::AlreadyExists, message: path }))
                } else {
                    Step::Done(Ok(ino))
                },
            },
            CreateInDirAt::Now { parent: _ } => Step::Done(reply.into_inode(path.as_str())),
        }
    }
}

/// Creates the file at a normalized path, and the directories above it that are missing. A file
/// that is there will do. Gives the inode of the file.
pub open spec fn create_file(root_ino: i64, path: Seq<char>) -> Script<i64> {
    if path == path::root() {
        script::fail(ErrorKind::IsADirectory, path)
    } else {
        mkdir::mkdir_p(root_ino, path::parent(path)).and_next(
            |dir: i64| create_entry(path, path::file_name(path), dir),
        )
    }
}

/// The rest of `create_file`, the directory being known. A failed lookup counts as finding
/// nothing: creating the file then succeeds or says what is wrong.
pub open spec fn create_entry(path: Seq<char>, name: Seq<char>, dir: i64) -> Script<i64> {
    Script::Ask(
        Request::Meta(MetaRequest::Lookup { parent: dir, name }),
        |reply: SpecReply|
            match reply.child(path) {
                Ok(Some(ino)) => create_existing(path, name, dir, ino),
                _ => create_now(path, name, dir),
            },
    )
}

/// The rest of `create_file`, where something stands at the path.
pub open spec fn create_existing(path: Seq<char>, name: Seq<char>, dir: i64, ino: i64) -> Script<
    i64,
> {
    Script::Ask(
        Request::Meta(MetaRequest::Stat { ino }),
        |reply: SpecReply|
            match reply.attr(path) {
                Err(e) => Script::Done(Err(e)),
                Ok(Some(attr)) => if attr.kind == FileType::Dir {
                    script::fail(ErrorKind::IsADirectory, path)
                } else {
                    Script::Done(Ok(ino))
                },
                Ok(None) => create_now(path, name, dir),
            },
    )
}

/// Create a regular file (mkdir -p on its parent if needed).
#[derive(Debug)]
pub struct CreateFile {
    pub path: String,
    pub name: String,
    pub at: CreateFileAt,
}

#[derive(Debug)]
pub enum CreateFileAt {
    Dir(MkdirP),
    Entry { dir: i64 },
    Existing { dir: i64, ino: i64 },
    Now { dir: i64 },
}

impl CreateFile {
    pub fn start(root_ino: i64, path: &str) -> (s: Step<CreateFile, i64>)
        requires
            path::is_absolute(path@),
        ensures
            s.script() == create_file(root_ino, path@),
    {
        if is_root(path) {
            return Step::Done(Err(FsError::new(ErrorKind::IsADirectory, path)));
        }
        let (dir, name) = split_dir_file(path);
        let path = String::from_str(path);
        match MkdirP::start(root_ino, dir.as_str()) {
            Step::Pending(op) => Step::Pending(
                CreateFile { path, name, at: CreateFileAt::Dir(op) },
            ),
            Step::Done(Err(e)) => Step::Done(Err(e)),
            Step::Done(Ok(dir)) => Step::Pending(
                CreateFile { path, name, at: CreateFileAt::Entry { dir } },
            ),
        }
    }
}

impl Operation for CreateFile {
    type Output = i64;

    open spec fn script(self) -> Script<i64> {
        let path = self.path@;
        let name = self.name@;
        match self.at {
            CreateFileAt::Dir(op) => op.script().and_next(
                |dir: i64| create_entry(path, name, dir),
            ),
            CreateFileAt::Entry { dir } => create_entry(path, name, dir),
            CreateFileAt::Existing { dir, ino } => create_existing(path, name, dir, ino),
            CreateFileAt::Now { dir } => create_now(path, name, dir),
        }
    }

    open spec fn accepts(self, reply: SpecReply) -> bool {
        true
    }

    fn admits(&self, _reply: &Reply) -> (b: bool) {
        true
    }

    proof fn asks(self) {
        match self.at {
            CreateFileAt::Dir(op) => op.asks(),
            _ => {},
        }
    }

    fn request(&self) -> (q: Request) {
        match &self.at {
            CreateFileAt::Dir(op) => op.request(),
            CreateFileAt::Entry { dir } => Request::Meta(
                MetaRequest::Lookup { parent: *dir, name: self.name.clone() },
            ),
            CreateFileAt::Existing { dir: _, ino } => Request::Meta(
                MetaRequest::Stat { ino: *ino },
            ),
            CreateFileAt::Now { dir } => Request::Meta(
                MetaRequest::CreateFile { parent: *dir, name: self.name.clone() },
            ),
        }
    }

    fn resume(self, reply: Reply) -> (s: Step<CreateFile, i64>) {
        proof {
            self.asks();
        }
        let path = self.path;
        let name = self.name;
        match self.at {
            CreateFileAt::Dir(op) => match op.resume(reply) {
                Step::Pending(op) => Step::Pending(
                    CreateFile { path, name, at: CreateFileAt::Dir(op) },
                ),
                Step::Done(Err(e)) => Step::Done(Err(e)),
                Step::Done(Ok(dir)) => Step::Pending(
                    CreateFile { path, name, at: CreateFileAt::Entry { dir } },
                ),
            },
            CreateFileAt::Entry { dir } => match reply.into_child(path.as_str()) {
                Ok(Some(ino)) => Step::Pending(
                    CreateFile { path, name, at: CreateFileAt::Existing { dir, ino } },
                ),
                _ => Step::Pending(CreateFile { path, name, at: CreateFileAt::Now { dir } }),
            },
            CreateFileAt::Existing { dir, ino } => match reply.into_attr(path.as_str()) {
                Err(e) => Step::Done(Err(e)),
                Ok(Some(attr)) => if attr.kind == FileType::Dir {
                    Step::Done(Err(FsError { kind: ErrorKind::IsADirectory, message: path }))
                } else {
                    Step::Done(Ok(ino))
                },
                Ok(None) => Step::Pending(
                    CreateFile { path, name, at: CreateFileAt::Now { dir } },
                ),
            },
            CreateFileAt::Now { dir: _ } => Step::Done(reply.into_inode(path.as_str())),
        }
    }
}

} // verus!
