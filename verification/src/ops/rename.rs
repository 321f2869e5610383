//! Renaming files and directories.
use crate::error::{ErrorKind, FsError};
use crate::meta::FileType;
use crate::ops::lookup;
use crate::ops::lookup::ParentDir;
use crate::ops::mkdir;
use crate::ops::mkdir::MkdirP;
use crate::path;
use crate::path::split_dir_file;
use crate::script;
use crate::script::{MetaRequest, Operation, Reply, Request, Script, SpecReply, SpecRequest, Step};
use vstd::prelude::*;

verus! {

broadcast use crate::script::group_bind;

/// The two paths of a rename, and the parts of them that it needs.
#[derive(Debug)]
pub struct Move<S = String> {
    pub old: S,
    pub old_name: S,
    pub new: S,
    pub new_dir: S,
    pub new_name: S,
}

impl View for Move {
    type V = Move<Seq<char>>;

    open spec fn view(&self) -> Move<Seq<char>> {
        Move {
            old: self.old@,
            old_name: self.old_name@,
            new: self.new@,
            new_dir: self.new_dir@,
            new_name: self.new_name@,
        }
    }
}

impl Move<Seq<char>> {
    pub open spec fn of(old: Seq<char>, new: Seq<char>) -> Move<Seq<char>> {
        Move {
            old,
            old_name: path::file_name(old),
            new,
            new_dir: path::parent(new),
            new_name: path::file_name(new),
        }
    }
}

/// Moves what stands at the normalized path `old` to the normalized path `new`.
pub open spec fn rename(root_ino: i64, old: Seq<char>, new: Seq<char>) -> Script<()> {
    lookup::parent_dir(root_ino, path::parent(old), false).and_next(
        |old_parent: i64| rename_source(root_ino, Move::of(old, new), old_parent),
    )
}

/// The rest of `rename`, the directory of the source being known.
pub open spec fn rename_source(root_ino: i64, m: Move<Seq<char>>, old_parent: i64) -> Script<()> {
    Script::Ask(
        Request::Meta(MetaRequest::Lookup { parent: old_parent, name: m.old_name }),
        |reply: SpecReply|
            match reply.child(m.old) {
                Err(e) => Script::Done(Err(e)),
                Ok(None) => script::fail(ErrorKind::NotFound, m.old),
                Ok(Some(ino)) => rename_kind(root_ino, m, old_parent, ino),
            },
    )
}

/// The rest of `rename`, the inode of the source being known.
pub open spec fn rename_kind(
    root_ino: i64,
    m: Move<Seq<char>>,
    old_parent: i64,
    ino: i64,
) -> Script<()> {
    Script::Ask(
        Request::Meta(MetaRequest::Stat { ino }),
        |reply: SpecReply|
            match reply.attr(m.old) {
                Err(e) => Script::Done(Err(e)),
                Ok(None) => script::fail(ErrorKind::NotFound, m.old),
                Ok(Some(attr)) => rename_dest(root_ino, m, old_parent, attr.kind),
            },
    )
}

/// The rest of `rename`, the kind of the source being known. A failed lookup of the destination
/// counts as finding nothing there.
pub open spec fn rename_dest(
    root_ino: i64,
    m: Move<Seq<char>>,
    old_parent: i64,
    kind: FileType,
) -> Script<()> {
    Script::Ask(
        Request::Meta(MetaRequest::LookupPath { path: m.new }),
        |reply: SpecReply|
            match reply.entry(m.new) {
                Ok(Some((dest, dest_kind))) => rename_occupied(
                    root_ino,
                    m,
                    old_parent,
                    kind,
                    dest,
                    dest_kind,
                ),
                _ => rename_parents(root_ino, m, old_parent),
            },
    )
}

/// The rest of `rename`, where something stands at the destination.
pub open spec fn rename_occupied(
    root_ino: i64,
    m: Move<Seq<char>>,
    old_parent: i64,
    kind: FileType,
    dest: i64,
    dest_kind: FileType,
) -> Script<()> {
    lookup::parent_dir(root_ino, m.new_dir, false).and_next(
        |new_parent: i64| rename_over(root_ino, m, old_parent, kind, dest, dest_kind, new_parent),
    )
}

/// The rest of `rename`, where something stands at the destination, in a directory that is known.
/// A directory replaces a directory only, and anything else replaces anything else.
pub open spec fn rename_over(
    root_ino: i64,
    m: Move<Seq<char>>,
    old_parent: i64,
    kind: FileType,
    dest: i64,
    dest_kind: FileType,
    new_parent: i64,
) -> Script<()> {
    if (kind == FileType::Dir) != (dest_kind == FileType::Dir) {
        script::fail(ErrorKind::NotADirectory, m.new)
    } else if dest_kind == FileType::Dir {
        rename_children(root_ino, m, old_parent, dest, new_parent)
    } else {
        rename_clear(root_ino, m, old_parent, false, new_parent)
    }
}

/// The rest of `rename`, where the destination is a directory, which has to be empty.
pub open spec fn rename_children(
    root_ino: i64,
    m: Move<Seq<char>>,
    old_parent: i64,
    dest: i64,
    new_parent: i64,
) -> Script<()> {
    Script::Ask(
        Request::Meta(MetaRequest::Readdir { ino: dest }),
        |reply: SpecReply|
            match reply.entries(m.new) {
                Err(e) => Script::Done(Err(e)),
                Ok(children) => if children.len() > 0 {
                    script::fail(ErrorKind::DirectoryNotEmpty, m.new)
                } else {
                    rename_clear(root_ino, m, old_parent, true, new_parent)
                },
            },
    )
}

/// The request that removes what stands at the destination.
pub open spec fn clear_request(m: Move<Seq<char>>, is_dir: bool, new_parent: i64) -> SpecRequest {
    if is_dir {
        Request::Meta(MetaRequest::Rmdir { parent: new_parent, name: m.new_name })
    } else {
        Request::Meta(MetaRequest::Unlink { parent: new_parent, name: m.new_name })
    }
}

/// The rest of `rename`, where the destination is to be removed first.
pub open spec fn rename_clear(
    root_ino: i64,
    m: Move<Seq<char>>,
    old_parent: i64,
    is_dir: bool,
    new_parent: i64,
) -> Script<()> {
    Script::Ask(
        clear_request(m, is_dir, new_parent),
        |reply: SpecReply|
            match reply.unit(m.new) {
                Err(e) => Script::Done(Err(e)),
                Ok(_) => rename_parents(root_ino, m, old_parent),
            },
    )
}

/// The rest of `rename`, where nothing stands at the destination: its directory is made.
pub open spec fn rename_parents(root_ino: i64, m: Move<Seq<char>>, old_parent: i64) -> Script<()> {
    mkdir::mkdir_p(root_ino, m.new_dir).and_next(
        |new_parent: i64| rename_now(m, old_parent, new_parent),
    )
}

/// The last step of `rename`.
pub open spec fn rename_now(m: Move<Seq<char>>, old_parent: i64, new_parent: i64) -> Script<()> {
    Script::Ask(
        Request::Meta(
            MetaRequest::Rename {
                old_parent,
                old_name: m.old_name,
                new_parent,
                new_name: m.new_name,
            },
        ),
        |reply: SpecReply| Script::Done(reply.unit(m.new)),
    )
}

/// Rename a file or directory.
#[derive(Debug)]
pub struct Rename {
    pub root_ino: i64,
    pub paths: Move,
    pub at: RenameAt,
}

#[derive(Debug)]
pub enum RenameAt {
    OldParent(ParentDir),
    Source { old_parent: i64 },
    Kind { old_parent: i64, ino: i64 },
    Dest { old_parent: i64, kind: FileType },
    NewParent {
        old_parent: i64,
        kind: FileType,
        dest: i64,
        dest_kind: FileType,
        op: ParentDir,
    },
    Children { old_parent: i64, dest: i64, new_parent: i64 },
    Clear { old_parent: i64, is_dir: bool, new_parent: i64 },
    Parents { old_parent: i64, make: MkdirP },
    Now { old_parent: i64, new_parent: i64 },
}

impl Rename {
    pub fn start(root_ino: i64, old: &str, new: &str) -> (s: Step<Rename, ()>)
        requires
            path::is_absolute(old@),
            path::is_absolute(new@),
        ensures
            s.script() == rename(root_ino, old@, new@),
    {
        let (old_dir, old_name) = split_dir_file(old);
        let (new_dir, new_name) = split_dir_file(new);
        let paths = Move {
            old: String::from_str(old),
            old_name,
            new: String::from_str(new),
            new_dir,
            new_name,
        };
        assert(paths@ == Move::of(old@, new@));
        match ParentDir::start(root_ino, old_dir.as_str(), false) {
            Step::Pending(op) => Step::Pending(
                Rename { root_ino, paths, at: RenameAt::OldParent(op) },
            ),
            Step::Done(Err(e)) => Step::Done(Err(e)),
            Step::Done(Ok(old_parent)) => Step::Pending(
                Rename { root_ino, paths, at: RenameAt::Source { old_parent } },
            ),
        }
    }

    /// What is left to do.
    pub open spec fn plan(self) -> Script<()> {
        let root_ino = self.root_ino;
        let m = self.paths@;
        match self.at {
            RenameAt::OldParent(op) => op.script().and_next(
                |old_parent: i64| rename_source(root_ino, m, old_parent),
            ),
            RenameAt::Source { old_parent } => rename_source(root_ino, m, old_parent),
            RenameAt::Kind { old_parent, ino } => rename_kind(root_ino, m, old_parent, ino),
            RenameAt::Dest { old_parent, kind } => rename_dest(root_ino, m, old_parent, kind),
            RenameAt::NewParent { old_parent, kind, dest, dest_kind, op } => op.script().and_next(
                |new_parent: i64|
                    rename_over(root_ino, m, old_parent, kind, dest, dest_kind, new_parent),
            ),
            RenameAt::Children { old_parent, dest, new_parent } => rename_children(
                root_ino,
                m,
                old_parent,
                dest,
                new_parent,
            ),
            RenameAt::Clear { old_parent, is_dir, new_parent } => rename_clear(
                root_ino,
                m,
                old_parent,
                is_dir,
                new_parent,
            ),
            RenameAt::Parents { old_parent, make } => make.script().and_next(
                |new_parent: i64| rename_now(m, old_parent, new_parent),
            ),
            RenameAt::Now { old_parent, new_parent } => rename_now(m, old_parent, new_parent),
        }
    }

    fn occupied(
        root_ino: i64,
        paths: Move,
        old_parent: i64,
        kind: FileType,
        dest: i64,
        dest_kind: FileType,
    ) -> (s: Step<Rename, ()>)
        ensures
            script::stage(s, |o: Rename| o.plan()) == rename_occupied(
                root_ino,
                paths@,
                old_parent,
                kind,
                dest,
                dest_kind,
            ),
    {
        match ParentDir::start(root_ino, paths.new_dir.as_str(), false) {
            Step::Pending(op) => Step::Pending(
                Rename {
                    root_ino,
                    paths,
                    at: RenameAt::NewParent { old_parent, kind, dest, dest_kind, op },
                },
            ),
            Step::Done(Err(e)) => Step::Done(Err(e)),
            Step::Done(Ok(new_parent)) => Rename::over(
                root_ino,
                paths,
                old_parent,
                kind,
                dest,
                dest_kind,
                new_parent,
            ),
        }
    }

    fn over(
        root_ino: i64,
        paths: Move,
        old_parent: i64,
        kind: FileType,
        dest: i64,
        dest_kind: FileType,
        new_parent: i64,
    ) -> (s: Step<Rename, ()>)
        ensures
            script::stage(s, |o: Rename| o.plan()) == rename_over(
                root_ino,
                paths@,
                old_parent,
                kind,
                dest,
                dest_kind,
                new_parent,
            ),
    {
        if dest_kind == FileType::Dir {
            if kind != FileType::Dir {
                return Step::Done(
                    Err(FsError { kind: ErrorKind::NotADirectory, message: paths.new }),
                );
            }
            Step::Pending(
                Rename {
                    root_ino,
                    paths,
                    at: RenameAt::Children { old_parent, dest, new_parent },
                },
            )
        } else {
            if kind == FileType::Dir {
                return Step::Done(
                    Err(FsError { kind: ErrorKind::NotADirectory, message: paths.new }),
                );
            }
            Step::Pending(
                Rename {
                    root_ino,
                    paths,
                    at: RenameAt::Clear { old_parent, is_dir: false, new_parent },
                },
            )
        }
    }

    fn parents(root_ino: i64, paths: Move, old_parent: i64) -> (s: Step<Rename, ()>)
        ensures
            script::stage(s, |o: Rename| o.plan()) == rename_parents(root_ino, paths@, old_parent),
    {
        match MkdirP::start(root_ino, paths.new_dir.as_str()) {
            Step::Pending(make) => Step::Pending(
                Rename { root_ino, paths, at: RenameAt::Parents { old_parent, make } },
            ),
            Step::Done(Err(e)) => Step::Done(Err(e)),
            Step::Done(Ok(new_parent)) => Step::Pending(
                Rename { root_ino, paths, at: RenameAt::Now { old_parent, new_parent } },
            ),
        }
    }
}

impl Operation for Rename {
    type Output = ();

    open spec fn script(self) -> Script<()> {
        self.plan()
    }

    open spec fn accepts(self, reply: SpecReply) -> bool {
        true
    }

    fn admits(&self, _reply: &Reply) -> (b: bool) {
        true
    }

    proof fn asks(self) {
        match self.at {
            RenameAt::Parents { old_parent, make } => make.asks(),
            _ => {},
        }
    }

    fn request(&self) -> (q: Request) {
        let paths = &self.paths;
        match &self.at {
            RenameAt::OldParent(op) => op.request(),
            RenameAt::Source { old_parent } => Request::Meta(
                MetaRequest::Lookup { parent: *old_parent, name: paths.old_name.clone() },
            ),
            RenameAt::Kind { old_parent: _, ino } => Request::Meta(
                MetaRequest::Stat { ino: *ino },
            ),
            RenameAt::Dest { old_parent: _, kind: _ } => Request::Meta(
                MetaRequest::LookupPath { path: paths.new.clone() },
            ),
            RenameAt::NewParent { old_parent: _, kind: _, dest: _, dest_kind: _, op } => {
                op.request()
            },
            RenameAt::Children { old_parent: _, dest, new_parent: _ } => Request::Meta(
                MetaRequest::Readdir { ino: *dest },
            ),
            RenameAt::Clear { old_parent: _, is_dir, new_parent } => {
                let name = paths.new_name.clone();
                if *is_dir {
                    Request::Meta(MetaRequest::Rmdir { parent: *new_parent, name })
                } else {
                    Request::Meta(MetaRequest::Unlink { parent: *new_parent, name })
                }
            },
            RenameAt::Parents { old_parent: _, make } => make.request(),
            RenameAt::Now { old_parent, new_parent } => Request::Meta(
                MetaRequest::Rename {
                    old_parent: *old_parent,
                    old_name: paths.old_name.clone(),
                    new_parent: *new_parent,
                    new_name: paths.new_name.clone(),
                },
            ),
        }
    }

    fn resume(self, reply: Reply) -> (s: Step<Rename, ()>) {
        proof {
            self.asks();
        }
        let root_ino: i64 = self.root_ino;
        let paths = self.paths;
        match self.at {
            RenameAt::OldParent(op) => match op.resume(reply) {
                Step::Pending(op) => Step::Pending(
                    Rename { root_ino, paths, at: RenameAt::OldParent(op) },
                ),
                Step::Done(Err(e)) => Step::Done(Err(e)),
                Step::Done(Ok(old_parent)) => Step::Pending(
                    Rename { root_ino, paths, at: RenameAt::Source { old_parent } },
                ),
            },
            RenameAt::Source { old_parent } => match reply.into_child(paths.old.as_str()) {
                Err(e) => Step::Done(Err(e)),
                Ok(None) => Step::Done(
                    Err(FsError { kind: ErrorKind::NotFound, message: paths.old }),
                ),
                Ok(Some(ino)) => Step::Pending(
                    Rename { root_ino, paths, at: RenameAt::Kind { old_parent, ino } },
                ),
            },
            RenameAt::Kind { old_parent, ino: _ } => match reply.into_attr(paths.old.as_str()) {
                Err(e) => Step::Done(Err(e)),
                Ok(None) => Step::Done(
                    Err(FsError { kind: ErrorKind::NotFound, message: paths.old }),
                ),
                Ok(Some(attr)) => Step::Pending(
                    Rename { root_ino, paths, at: RenameAt::Dest { old_parent, kind: attr.kind } },
                ),
            },
            RenameAt::Dest { old_parent, kind } => match reply.into_entry(paths.new.as_str()) {
                Ok(Some((dest, dest_kind))) => Rename::occupied(
                    root_ino,
                    paths,
                    old_parent,
                    kind,
                    dest,
                    dest_kind,
                ),
                _ => Rename::parents(root_ino, paths, old_parent),
            },
            RenameAt::NewParent { old_parent, kind, dest, dest_kind, op } => match op.resume(
                reply,
            ) {
                Step::Pending(op) => Step::Pending(
                    Rename {
                        root_ino,
                        paths,
                        at: RenameAt::NewParent { old_parent, kind, dest, dest_kind, op },
                    },
                ),
                Step::Done(Err(e)) => Step::Done(Err(e)),
                Step::Done(Ok(new_parent)) => Rename::over(
                    root_ino,
                    paths,
                    old_parent,
                    kind,
                    dest,
                    dest_kind,
                    new_parent,
                ),
            },
            RenameAt::Children { old_parent, dest: _, new_parent } => match reply.into_entries(
                paths.new.as_str(),
            ) {
                Err(e) => Step::Done(Err(e)),
                Ok(children) => if children.entries.len() > 0 {
                    Step::Done(
                        Err(FsError { kind: ErrorKind::DirectoryNotEmpty, message: paths.new }),
                    )
                } else {
                    Step::Pending(
                        Rename {
                            root_ino,
                            paths,
                            at: RenameAt::Clear { old_parent, is_dir: true, new_parent },
                        },
                    )
                },
            },
            RenameAt::Clear { old_parent, is_dir: _, new_parent: _ } => match reply.into_unit(
                paths.new.as_str(),
            ) {
                Err(e) => Step::Done(Err(e)),
                Ok(_) => Rename::parents(root_ino, paths, old_parent),
            },
            RenameAt::Parents { old_parent, make } => match make.resume(reply) {
                Step::Pending(make) => Step::Pending(
                    Rename { root_ino, paths, at: RenameAt::Parents { old_parent, make } },
                ),
                Step::Done(Err(e)) => Step::Done(Err(e)),
                Step::Done(Ok(new_parent)) => Step::Pending(
                    Rename { root_ino, paths, at: RenameAt::Now { old_parent, new_parent } },
                ),
            },
            RenameAt::Now { old_parent: _, new_parent: _ } => Step::Done(
                reply.into_unit(paths.new.as_str()),
            ),
        }
    }
}

} // verus!
