//! Making directories and files.
use crate::error::{ErrorKind, FsError};
use crate::meta::FileType;
use crate::ops::lookup;
use crate::ops::lookup::ParentDir;
use crate::path;
use crate::path::{is_root, normalize_path, split_components, split_dir_file};
use crate::script;
use crate::script::{MetaRequest, Operation, Reply, Request, Script, SpecReply, Step};
use vstd::prelude::*;

verus! {

broadcast use crate::script::group_bind;

/// Makes the directory at a normalized path. A directory that is there already will do.
pub open spec fn mkdir(root_ino: i64, path: Seq<char>) -> Script<()> {
    if path == path::root() {
        Script::Done(Ok(()))
    } else if path::file_name(path).len() == 0 {
        script::fail(ErrorKind::InvalidInput, "empty directory name"@)
    } else {
        lookup::parent_dir(root_ino, path::parent(path), true).and_next(
            |parent: i64| mkdir_entry(path, path::file_name(path), parent),
        )
    }
}

/// The rest of `mkdir`, the parent being known.
pub open spec fn mkdir_entry(path: Seq<char>, name: Seq<char>, parent: i64) -> Script<()> {
    Script::Ask(
        Request::Meta(MetaRequest::Lookup { parent, name }),
        |reply: SpecReply|
            match reply.child(path) {
                Err(e) => Script::Done(Err(e)),
                Ok(Some(ino)) => mkdir_existing(path, ino),
                Ok(None) => mkdir_now(path, name, parent),
            },
    )
}

/// The rest of `mkdir`, where something stands at the path.
pub open spec fn mkdir_existing(path: Seq<char>, ino: i64) -> Script<()> {
    Script::Ask(
        Request::Meta(MetaRequest::Stat { ino }),
        |reply: SpecReply|
            match reply.attr(path) {
                Err(e) => Script::Done(Err(e)),
                Ok(None) => script::fail(ErrorKind::NotFound, path),
                Ok(Some(attr)) => if attr.kind == FileType::Dir {
                    Script::Done(Ok(()))
                } else {
                    script::fail(ErrorKind::AlreadyExists, path)
                },
            },
    )
}

/// The last step of `mkdir`, where nothing stands at the path.
pub open spec fn mkdir_now(path: Seq<char>, name: Seq<char>, parent: i64) -> Script<()> {
    Script::Ask(
        Request::Meta(MetaRequest::Mkdir { parent, name }),
        |reply: SpecReply|
            match reply.inode(path) {
                Err(e) => Script::Done(Err(e)),
                Ok(_) => Script::Done(Ok(())),
            },
    )
}

/// Create a directory.
#[derive(Debug)]
pub struct Mkdir {
    pub path: String,
    pub name: String,
    pub at: MkdirAt,
}

#[derive(Debug)]
pub enum MkdirAt {
    Parent(ParentDir),
    Entry { parent: i64 },
    Existing { ino: i64 },
    Now { parent: i64 },
}

impl Mkdir {
    pub fn start(root_ino: i64, path: &str) -> (s: Step<Mkdir, ()>)
        requires
            path::is_absolute(path@),
        ensures
            s.script() == mkdir(root_ino, path@),
    {
        if is_root(path) {
            return Step::Done(Ok(()));
        }
        let (dir, name) = split_dir_file(path);
        if name.as_str().is_empty() {
            return Step::Done(Err(FsError::new(ErrorKind::InvalidInput, "empty directory name")));
        }
        let path = String::from_str(path);
        match ParentDir::start(root_ino, dir.as_str(), true) {
            Step::Pending(op) => Step::Pending(Mkdir { path, name, at: MkdirAt::Parent(op) }),
            Step::Done(Err(e)) => Step::Done(Err(e)),
            Step::Done(Ok(parent)) => Step::Pending(
                Mkdir { path, name, at: MkdirAt::Entry { parent } },
            ),
        }
    }
}

impl Operation for Mkdir {
    type Output = ();

    open spec fn script(self) -> Script<()> {
        let path = self.path@;
        let name = self.name@;
        match self.at {
            MkdirAt::Parent(op) => op.script().and_next(
                |parent: i64| mkdir_entry(path, name, parent),
            ),
            MkdirAt::Entry { parent } => mkdir_entry(path, name, parent),
            MkdirAt::Existing { ino } => mkdir_existing(path, ino),
            MkdirAt::Now { parent } => mkdir_now(path, name, parent),
        }
    }

    open spec fn accepts(self, reply: SpecReply) -> bool {
        true
    }

    fn admits(&self, _reply: &Reply) -> (b: bool) {
        true
    }

    proof fn asks(self) {
    }

    fn request(&self) -> (q: Request) {
        match &self.at {
            MkdirAt::Parent(op) => op.request(),
            MkdirAt::Entry { parent } => Request::Meta(
                MetaRequest::Lookup { parent: *parent, name: self.name.clone() },
            ),
            MkdirAt::Existing { ino } => Request::Meta(MetaRequest::Stat { ino: *ino }),
            MkdirAt::Now { parent } => Request::Meta(
                MetaRequest::Mkdir { parent: *parent, name: self.name.clone() },
            ),
        }
    }

    fn resume(self, reply: Reply) -> (s: Step<Mkdir, ()>) {
        let path = self.path;
        let name = self.name;
        match self.at {
            MkdirAt::Parent(op) => match op.resume(reply) {
                Step::Pending(op) => Step::Pending(Mkdir { path, name, at: MkdirAt::Parent(op) }),
                Step::Done(Err(e)) => Step::Done(Err(e)),
                Step::Done(Ok(parent)) => Step::Pending(
                    Mkdir { path, name, at: MkdirAt::Entry { parent } },
                ),
            },
            MkdirAt::Entry { parent } => match reply.into_child(path.as_str()) {
                Err(e) => Step::Done(Err(e)),
                Ok(Some(ino)) => Step::Pending(
                    Mkdir { path, name, at: MkdirAt::Existing { ino } },
                ),
                Ok(None) => Step::Pending(Mkdir { path, name, at: MkdirAt::Now { parent } }),
            },
            MkdirAt::Existing { ino: _ } => match reply.into_attr(path.as_str()) {
                Err(e) => Step::Done(Err(e)),
                Ok(None) => Step::Done(Err(FsError { kind: ErrorKind::NotFound, message: path })),
                Ok(Some(attr)) => if attr.kind == FileType::Dir {
                    Step::Done(Ok(()))
                } else {
                    Step::Done(Err(FsError { kind: ErrorKind::AlreadyExists, message: path }))
                },
            },
            MkdirAt::Now { parent: _ } => match reply.into_inode(path.as_str()) {
                Err(e) => Step::Done(Err(e)),
                Ok(_) => Step::Done(Ok(())),
            },
        }
    }
}

/// Makes the directory at a path and all that are missing above it, and gives its inode.
pub open spec fn mkdir_p(root_ino: i64, path: Seq<char>) -> Script<i64> {
    let path = path::normalize(path);
    if path == path::root() {
        Script::Done(Ok(root_ino))
    } else {
        mkdir_p_whole(root_ino, path)
    }
}

/// The rest of `mkdir_p`, where the path is not the root: what is there already is not made
/// again.
pub open spec fn mkdir_p_whole(root_ino: i64, path: Seq<char>) -> Script<i64> {
    Script::Ask(
        Request::Meta(MetaRequest::LookupPath { path }),
        |reply: SpecReply|
            match reply.entry(path) {
                Err(e) => Script::Done(Err(e)),
                Ok(Some((ino, kind))) => if kind != FileType::Dir {
                    script::fail(ErrorKind::NotADirectory, path)
                } else {
                    Script::Done(Ok(ino))
                },
                Ok(None) => mkdir_p_below(Seq::empty(), path::components(path), root_ino),
            },
    )
}

/// Finds or makes, below the directory `ino` at `above`, the directories `parts` one in another.
pub open spec fn mkdir_p_below(above: Seq<char>, parts: Seq<Seq<char>>, ino: i64) -> Script<i64>
    decreases parts.len(), 2nat,
{
    if parts.len() == 0 {
        Script::Done(Ok(ino))
    } else {
        mkdir_p_part(above.push('/') + parts[0], parts[0], parts.skip(1), ino)
    }
}

/// Finds or makes the directory `name`, which stands at `here`, in the directory `parent`, and
/// below it the directories `parts`.
pub open spec fn mkdir_p_part(
    here: Seq<char>,
    name: Seq<char>,
    parts: Seq<Seq<char>>,
    parent: i64,
) -> Script<i64>
    decreases parts.len() + 1, 1nat,
{
    Script::Ask(
        Request::Meta(MetaRequest::Lookup { parent, name }),
        |reply: SpecReply|
            match reply.child(here) {
                Err(e) => Script::Done(Err(e)),
                Ok(Some(ino)) => mkdir_p_kind(here, parts, ino),
                Ok(None) => mkdir_p_make(here, name, parts, parent),
            },
    )
}

/// The rest of `mkdir_p_part`, where something stands at `here`.
pub open spec fn mkdir_p_kind(here: Seq<char>, parts: Seq<Seq<char>>, ino: i64) -> Script<i64>
    decreases parts.len() + 1, 0nat,
{
    Script::Ask(
        Request::Meta(MetaRequest::Stat { ino }),
        |reply: SpecReply|
            match reply.attr(here) {
                Err(e) => Script::Done(Err(e)),
                Ok(None) => script::fail(ErrorKind::NotFound, here),
                Ok(Some(attr)) => if attr.kind != FileType::Dir {
                    script::fail(ErrorKind::NotADirectory, here)
                } else {
                    mkdir_p_below(here, parts, ino)
                },
            },
    )
}

/// The rest of `mkdir_p_part`, where nothing stands at `here`.
pub open spec fn mkdir_p_make(
    here: Seq<char>,
    name: Seq<char>,
    parts: Seq<Seq<char>>,
    parent: i64,
) -> Script<i64>
    decreases parts.len() + 1, 0nat,
{
    Script::Ask(
        Request::Meta(MetaRequest::Mkdir { parent, name }),
        |reply: SpecReply|
            match reply.inode(here) {
                Err(e) => Script::Done(Err(e)),
                Ok(ino) => mkdir_p_below(here, parts, ino),
            },
    )
}

/// The characters of each of several texts.
pub open spec fn texts(v: Seq<String>) -> Seq<Seq<char>> {
    v.map_values(|p: String| p@)
}

/// Create directories recursively (mkdir -p).
#[derive(Debug)]
pub enum MkdirP {
    Whole { root_ino: i64, path: String },
    Part { here: String, name: String, parts: Vec<String>, parent: i64 },
    Kind { here: String, parts: Vec<String>, ino: i64 },
    Make { here: String, name: String, parts: Vec<String>, parent: i64 },
}

impl MkdirP {
    pub fn start(root_ino: i64, path: &str) -> (s: Step<MkdirP, i64>)
        ensures
            s.script() == mkdir_p(root_ino, path@),
    {
        let path = normalize_path(path);
        if is_root(path.as_str()) {
            Step::Done(Ok(root_ino))
        } else {
            Step::Pending(MkdirP::Whole { root_ino, path })
        }
    }

    /// What is left to do.
    pub open spec fn plan(self) -> Script<i64> {
        match self {
            MkdirP::Whole { root_ino, path } => mkdir_p_whole(root_ino, path@),
            MkdirP::Part { here, name, parts, parent } => mkdir_p_part(
                here@,
                name@,
                texts(parts@),
                parent,
            ),
            MkdirP::Kind { here, parts, ino } => mkdir_p_kind(here@, texts(parts@), ino),
            MkdirP::Make { here, name, parts, parent } => mkdir_p_make(
                here@,
                name@,
                texts(parts@),
                parent,
            ),
        }
    }

    fn below(above: String, parts: Vec<String>, ino: i64) -> (s: Step<MkdirP, i64>)
        ensures
            script::stage(s, |o: MkdirP| o.plan()) == mkdir_p_below(above@, texts(parts@), ino),
    {
        let mut parts = parts;
        if parts.len() == 0 {
            Step::Done(Ok(ino))
        } else {
            let ghost all = parts@;
            let name = parts.remove(0);
            let here = above.concat("/").concat(name.as_str());
            proof {
                reveal_strlit("/");
                assert(here@ =~= above@.push('/') + name@);
                assert(texts(parts@) =~= texts(all).skip(1));
            }
            Step::Pending(MkdirP::Part { here, name, parts, parent: ino })
        }
    }
}

impl Operation for MkdirP {
    type Output = i64;

    open spec fn script(self) -> Script<i64> {
        self.plan()
    }

    open spec fn accepts(self, reply: SpecReply) -> bool {
        true
    }

    fn admits(&self, _reply: &Reply) -> (b: bool) {
        true
    }

    proof fn asks(self) {
    }

    fn request(&self) -> (q: Request) {
        match self {
            MkdirP::Whole { root_ino: _, path } => Request::Meta(
                MetaRequest::LookupPath { path: path.clone() },
            ),
            MkdirP::Part { here: _, name, parts: _, parent } => Request::Meta(
                MetaRequest::Lookup { parent: *parent, name: name.clone() },
            ),
            MkdirP::Kind { here: _, parts: _, ino } => Request::Meta(
                MetaRequest::Stat { ino: *ino },
            ),
            MkdirP::Make { here: _, name, parts: _, parent } => Request::Meta(
                MetaRequest::Mkdir { parent: *parent, name: name.clone() },
            ),
        }
    }

    fn resume(self, reply: Reply) -> (s: Step<MkdirP, i64>) {
        match self {
            MkdirP::Whole { root_ino, path } => match reply.into_entry(path.as_str()) {
                Err(e) => Step::Done(Err(e)),
                Ok(Some((ino, kind))) => if kind != FileType::Dir {
                    Step::Done(Err(FsError { kind: ErrorKind::NotADirectory, message: path }))
                } else {
                    Step::Done(Ok(ino))
                },
                Ok(None) => {
                    let parts = split_components(path.as_str());
                    MkdirP::below(String::new(), parts, root_ino)
                },
            },
            MkdirP::Part { here, name, parts, parent } => match reply.into_child(here.as_str()) {
                Err(e) => Step::Done(Err(e)),
                Ok(Some(ino)) => Step::Pending(MkdirP::Kind { here, parts, ino }),
                Ok(None) => Step::Pending(MkdirP::Make { here, name, parts, parent }),
            },
            MkdirP::Kind { here, parts, ino } => match reply.into_attr(here.as_str()) {
                Err(e) => Step::Done(Err(e)),
                Ok(None) => Step::Done(Err(FsError { kind: ErrorKind::NotFound, message: here })),
                Ok(Some(attr)) => if attr.kind != FileType::Dir {
                    Step::Done(Err(FsError { kind: ErrorKind::NotADirectory, message: here }))
                } else {
                    MkdirP::below(here, parts, ino)
                },
            },
            MkdirP::Make { here, name: _, parts, parent: _ } => match reply.into_inode(
                here.as_str(),
            ) {
                Err(e) => Step::Done(Err(e)),
                Ok(ino) => MkdirP::below(here, parts, ino),
            },
        }
    }
}

} // verus!
