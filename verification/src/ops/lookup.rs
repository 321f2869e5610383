//! Finding things by path.
use crate::error::{ErrorKind, FsError};
use crate::meta::FileType;
use crate::path;
use crate::path::{base_name, is_root};
use crate::script;
use crate::script::{
    MetaRequest, Operation, Reply, Request, Script, SpecReply, SpecRequest, Step,
};
use crate::stat::FileStat;
use vstd::prelude::*;

verus! {

/// The request that resolves a path.
pub open spec fn resolve_request(path: Seq<char>, follow_last: bool) -> SpecRequest {
    if follow_last {
        Request::Meta(MetaRequest::ResolvePathFollow { path })
    } else {
        Request::Meta(MetaRequest::ResolvePath { path })
    }
}

/// The attributes of what a path leads to, under the last segment of the path as its name.
pub open spec fn resolve(path: Seq<char>, follow_last: bool) -> Script<FileStat<Seq<char>>> {
    Script::Ask(
        resolve_request(path, follow_last),
        |reply: SpecReply|
            match reply.inode(path) {
                Err(e) => Script::Done(Err(e)),
                Ok(ino) => resolve_attr(path, ino),
            },
    )
}

/// The rest of `resolve`, the inode being known.
pub open spec fn resolve_attr(path: Seq<char>, ino: i64) -> Script<FileStat<Seq<char>>> {
    Script::Ask(
        Request::Meta(MetaRequest::Stat { ino }),
        |reply: SpecReply|
            match reply.attr(path) {
                Err(e) => Script::Done(Err(e)),
                Ok(None) => script::fail(ErrorKind::NotFound, path + ": not found"@),
                Ok(Some(attr)) => Script::Done(
                    Ok(FileStat { name: path::last_segment(path), inode: attr.ino, attr }),
                ),
            },
    )
}

/// Path resolution with symlink handling.
#[derive(Debug)]
pub enum Resolve {
    Path { path: String, follow_last: bool },
    Attr { path: String, ino: i64 },
}

impl Resolve {
    pub fn start(path: &str, follow_last: bool) -> (s: Step<Resolve, FileStat>)
        ensures
            s.script() == resolve(path@, follow_last),
    {
        Step::Pending(Resolve::Path { path: String::from_str(path), follow_last })
    }
}

impl Operation for Resolve {
    type Output = FileStat;

    open spec fn script(self) -> Script<FileStat<Seq<char>>> {
        match self {
            Resolve::Path { path, follow_last } => resolve(path@, follow_last),
            Resolve::Attr { path, ino } => resolve_attr(path@, ino),
        }
    }

    open spec fn accepts(self, reply: SpecReply) -> bool {
        true
    }

    fn admits(&self, _reply: &Reply) -> (b: bool) {
        true
    }

    proof fn asks(self) {
    }

    fn request(&self) -> (q: Request) {
        match self {
            Resolve::Path { path, follow_last } => {
                let path = path.clone();
                if *follow_last {
                    Request::Meta(MetaRequest::ResolvePathFollow { path })
                } else {
                    Request::Meta(MetaRequest::ResolvePath { path })
                }
            },
            Resolve::Attr { path: _, ino } => Request::Meta(MetaRequest::Stat { ino: *ino }),
        }
    }

    fn resume(self, reply: Reply) -> (s: Step<Resolve, FileStat>) {
        match self {
            Resolve::Path { path, follow_last: _ } => match reply.into_inode(path.as_str()) {
                Err(e) => Step::Done(Err(e)),
                Ok(ino) => Step::Pending(Resolve::Attr { path, ino }),
            },
            Resolve::Attr { path, ino: _ } => match reply.into_attr(path.as_str()) {
                Err(e) => Step::Done(Err(e)),
                Ok(None) => Step::Done(
                    Err(FsError { kind: ErrorKind::NotFound, message: path.concat(": not found") }),
                ),
                Ok(Some(attr)) => {
                    let info = FileStat::new(base_name(path.as_str()), attr.ino, attr);
                    assert(info@ == (FileStat {
                        name: path::last_segment(path@),
                        inode: attr.ino,
                        attr,
                    }));
                    Step::Done(Ok(info))
                },
            },
        }
    }
}

/// The inode of the directory at `dir`; `root_ino` for the root. Where `must_be_dir` is set,
/// anything but a directory is refused.
pub open spec fn parent_dir(root_ino: i64, dir: Seq<char>, must_be_dir: bool) -> Script<i64> {
    if dir == path::root() {
        Script::Done(Ok(root_ino))
    } else {
        parent_lookup(dir, must_be_dir)
    }
}

/// The rest of `parent_dir`, where the directory is not the root.
pub open spec fn parent_lookup(dir: Seq<char>, must_be_dir: bool) -> Script<i64> {
    Script::Ask(
        Request::Meta(MetaRequest::LookupPath { path: dir }),
        |reply: SpecReply|
            match reply.entry(dir) {
                Err(e) => Script::Done(Err(e)),
                Ok(None) => script::fail(ErrorKind::NotFound, dir),
                Ok(Some((ino, kind))) => if must_be_dir && kind != FileType::Dir {
                    script::fail(ErrorKind::NotADirectory, dir)
                } else {
                    Script::Done(Ok(ino))
                },
            },
    )
}

/// Finding the directory that holds an entry.
#[derive(Debug)]
pub struct ParentDir {
    pub dir: String,
    pub must_be_dir: bool,
}

impl ParentDir {
    pub fn start(root_ino: i64, dir: &str, must_be_dir: bool) -> (s: Step<ParentDir, i64>)
        ensures
            s.script() == parent_dir(root_ino, dir@, must_be_dir),
    {
        if is_root(dir) {
            Step::Done(Ok(root_ino))
        } else {
            Step::Pending(ParentDir { dir: String::from_str(dir), must_be_dir })
        }
    }
}

impl Operation for ParentDir {
    type Output = i64;

    open spec fn script(self) -> Script<i64> {
        parent_lookup(self.dir@, self.must_be_dir)
    }

    open spec fn accepts(self, reply: SpecReply) -> bool {
        true
    }

    fn admits(&self, _reply: &Reply) -> (b: bool) {
        true
    }

    proof fn asks(self) {
    }

    fn request(&self) -> (q: Request) {
        Request::Meta(MetaRequest::LookupPath { path: self.dir.clone() })
    }

    fn resume(self, reply: Reply) -> (s: Step<ParentDir, i64>) {
        match reply.into_entry(self.dir.as_str()) {
            Err(e) => Step::Done(Err(e)),
            Ok(None) => Step::Done(
                Err(FsError { kind: ErrorKind::NotFound, message: self.dir }),
            ),
            Ok(Some((ino, kind))) => if self.must_be_dir && kind != FileType::Dir {
                Step::Done(Err(FsError { kind: ErrorKind::NotADirectory, message: self.dir }))
            } else {
                Step::Done(Ok(ino))
            },
        }
    }
}

} // verus!
