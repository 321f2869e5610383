//! Removing a directory with all that is in it.
use crate::error::{ErrorKind, FsError};
use crate::meta::{DirEntry, FileType, Listing};
use crate::ops::attr;
use crate::ops::attr::{logged_readdir_of, Readdir};
use crate::ops::logged::Logged;
use crate::ops::remove;
use crate::ops::remove::{start_rmdir, start_unlink, Rmdir, Unlink};
use crate::path;
use crate::path::{is_root, split_components};
use crate::script;
use crate::script::{Operation, Reply, Request, Script, SpecReply, Step};
use vstd::prelude::*;

verus! {

broadcast use crate::script::group_bind;

/// The path of an entry of a directory.
pub open spec fn child_path(path: Seq<char>, name: Seq<char>) -> Seq<char> {
    if path == path::root() {
        path::root() + name
    } else {
        path + path::root() + name
    }
}

/// The path of an entry of a directory.
pub fn child_of(path: &str, name: &str) -> (r: String)
    ensures
        r@ == child_path(path@, name@),
{
    proof {
        reveal_strlit("/");
        assert("/"@ =~= path::root());
    }
    if is_root(path) {
        String::from_str("/").concat(name)
    } else {
        String::from_str(path).concat("/").concat(name)
    }
}

/// Removes a directory with all that is in it. Nothing but slashes names the root, which is
/// refused. The levels of a tree are counted in 64 bits: the path of a deeper one would not fit
/// into any memory.
pub open spec fn remove_dir_all(log: bool, root_ino: i64, path: Seq<char>) -> Script<()> {
    if path::components(path).len() == 0 {
        script::fail(ErrorKind::PermissionDenied, "cannot remove filesystem root"@)
    } else {
        remove_tree(log, root_ino, u64::MAX as nat, path)
    }
}

/// Removes a directory with all that is in it, up to `depth` directories one in another.
pub open spec fn remove_tree(log: bool, root_ino: i64, depth: nat, path: Seq<char>) -> Script<()>
    decreases depth, 1nat, 0nat,
{
    attr::logged_readdir(log, path).and_next(
        |entries: Seq<DirEntry<Seq<char>>>| remove_entries(log, root_ino, depth, path, entries),
    )
}

/// Removes entries of the directory at `path` one after the other, and then the directory.
pub open spec fn remove_entries(
    log: bool,
    root_ino: i64,
    depth: nat,
    path: Seq<char>,
    entries: Seq<DirEntry<Seq<char>>>,
) -> Script<()>
    decreases depth, 0nat, entries.len(),
{
    if entries.len() == 0 {
        remove::logged_rmdir(log, root_ino, path)
    } else {
        let child = child_path(path, entries[0].name);
        let first = if entries[0].kind != FileType::Dir {
            remove::logged_unlink(log, root_ino, child)
        } else if depth == 0 {
            script::fail(ErrorKind::Other, "directories are nested too deeply"@)
        } else {
            remove_tree(log, root_ino, (depth - 1) as nat, child)
        };
        first.and_next(|u: ()| remove_entries(log, root_ino, depth, path, entries.skip(1)))
    }
}

/// A directory that is being removed: what is left in it, and how deep its directories may go.
#[derive(Debug)]
pub struct Frame<S = String, L = Listing> {
    pub path: S,
    pub todo: L,
    pub depth: u64,
}

/// A frame as a mathematical value.
pub type SpecFrame = Frame<Seq<char>, Seq<DirEntry<Seq<char>>>>;

impl View for Frame {
    type V = SpecFrame;

    open spec fn view(&self) -> SpecFrame {
        Frame { path: self.path@, todo: self.todo@, depth: self.depth }
    }
}

/// Each of several frames as a mathematical value.
pub open spec fn frames_view(frames: Seq<Frame>) -> Seq<SpecFrame> {
    frames.map_values(|f: Frame| f@)
}

/// Removes what is left of directories, the innermost, which is the last, first.
pub open spec fn unwind(log: bool, root_ino: i64, frames: Seq<SpecFrame>) -> Script<()>
    decreases frames.len(),
{
    if frames.len() == 0 {
        Script::Done(Ok(()))
    } else {
        let f = frames.last();
        remove_entries(log, root_ino, f.depth as nat, f.path, f.todo).and_next(
            |u: ()| unwind(log, root_ino, frames.drop_last()),
        )
    }
}

/// Recursively remove a directory and all its contents.
pub struct RemoveAll {
    pub log: bool,
    pub root_ino: i64,
    /// The directories around the one that is worked on.
    pub frames: Vec<Frame>,
    pub at: RemoveAllAt,
}

pub enum RemoveAllAt {
    List { path: String, depth: u64, op: Logged<Readdir> },
    Unlink(Logged<Unlink>),
    Rmdir(Logged<Rmdir>),
}

/// How much is left to remove.
pub open spec fn left(frames: Seq<SpecFrame>) -> nat
    decreases frames.len(),
{
    if frames.len() == 0 {
        0
    } else {
        left(frames.drop_last()) + frames.last().todo.len() + 1
    }
}

proof fn lemma_unwind_push(log: bool, root_ino: i64, frames: Seq<SpecFrame>, f: SpecFrame)
    ensures
        unwind(log, root_ino, frames.push(f)) == remove_entries(
            log,
            root_ino,
            f.depth as nat,
            f.path,
            f.todo,
        ).and_next(|u: ()| unwind(log, root_ino, frames)),
{
    assert(frames.push(f).drop_last() =~= frames);
}

proof fn lemma_tree_unwind(
    log: bool,
    root_ino: i64,
    depth: u64,
    path: Seq<char>,
    outer: Seq<SpecFrame>,
)
    ensures
        remove_tree(log, root_ino, depth as nat, path).and_next(
            |u: ()| unwind(log, root_ino, outer),
        ) == attr::logged_readdir(log, path).and_next(
            |todo: Seq<DirEntry<Seq<char>>>|
                unwind(log, root_ino, outer.push(Frame { path, todo, depth })),
        ),
{
    let d = depth as nat;
    let readdir = attr::logged_readdir(log, path);
    let f = |entries: Seq<DirEntry<Seq<char>>>| remove_entries(log, root_ino, d, path, entries);
    let g = |u: ()| unwind(log, root_ino, outer);
    let h = |todo: Seq<DirEntry<Seq<char>>>|
        unwind(log, root_ino, outer.push(Frame { path, todo, depth }));
    let fg = |entries: Seq<DirEntry<Seq<char>>>| f(entries).and_next(g);
    let tree = remove_tree(log, root_ino, d, path);
    let k = choose|k: spec_fn(Seq<DirEntry<Seq<char>>>) -> Script<()>|
        tree == #[trigger] readdir.and_next(k) && (forall|e: Seq<DirEntry<Seq<char>>>| #[trigger]
            k(e) == f(e));
    assert(tree == readdir.and_next(k));
    assert(k =~= f);
    script::and_next_assoc(readdir, f, g);
    assert forall|todo: Seq<DirEntry<Seq<char>>>| #[trigger] fg(todo) == h(todo) by {
        lemma_unwind_push(log, root_ino, outer, Frame { path, todo, depth });
    }
    assert(fg =~= h);
}

impl RemoveAll {
    /// What is left to do.
    pub open spec fn plan(self) -> Script<()> {
        let log = self.log;
        let root_ino = self.root_ino;
        let frames = frames_view(self.frames@);
        match self.at {
            RemoveAllAt::List { path, depth, op } => {
                let path = path@;
                op.script().and_next(
                    |todo: Seq<DirEntry<Seq<char>>>|
                        unwind(log, root_ino, frames.push(Frame { path, todo, depth })),
                )
            },
            RemoveAllAt::Unlink(op) => op.script().and_next(
                |u: ()| unwind(log, root_ino, frames),
            ),
            RemoveAllAt::Rmdir(op) => op.script().and_next(
                |u: ()| unwind(log, root_ino, frames),
            ),
        }
    }

    pub fn start(log: bool, root_ino: i64, path: &str) -> (s: Step<RemoveAll, ()>)
        ensures
            s.script() == remove_dir_all(log, root_ino, path@),
    {
        if split_components(path).len() == 0 {
            return Step::Done(
                Err(FsError::new(ErrorKind::PermissionDenied, "cannot remove filesystem root")),
            );
        }
        let depth: u64 = u64::MAX;
        let frames: Vec<Frame> = Vec::new();
        let op = RemoveAll::list(log, root_ino, frames, String::from_str(path), depth);
        proof {
            let tree = remove_tree(log, root_ino, depth as nat, path@);
            let k = |u: ()| unwind(log, root_ino, frames_view(frames@));
            script::and_next_nothing(tree, k);
        }
        Step::Pending(op)
    }

    /// Starts on a directory inside others.
    fn list(log: bool, root_ino: i64, frames: Vec<Frame>, path: String, depth: u64) -> (o:
        RemoveAll)
        ensures
            o.plan() == remove_tree(
                log,
                root_ino,
                depth as nat,
                path@,
            ).and_next(|u: ()| unwind(log, root_ino, frames_view(frames@))),
    {
        proof {
            lemma_tree_unwind(log, root_ino, depth, path@, frames_view(frames@));
        }
        let op = logged_readdir_of(log, path.as_str());
        RemoveAll { log, root_ino, frames, at: RemoveAllAt::List { path, depth, op } }
    }

    /// Goes on with the innermost directory.
    fn next(log: bool, root_ino: i64, frames: Vec<Frame>) -> (s: Step<RemoveAll, ()>)
        ensures
            script::stage(s, |o: RemoveAll| o.plan()) == unwind(
                log,
                root_ino,
                frames_view(frames@),
            ),
        decreases left(frames_view(frames@)),
    {
        let ghost all = frames_view(frames@);
        let mut frames = frames;
        match frames.pop() {
            None => Step::Done(Ok(())),
            Some(frame) => {
                let ghost outer = frames_view(frames@);
                let ghost before = frame@;
                assert(all.drop_last() =~= outer);
                assert(all.last() == before);
                let mut frame = frame;
                if frame.todo.entries.len() == 0 {
                    assert(before.todo.len() == 0);
                    match start_rmdir(log, root_ino, frame.path.as_str()) {
                        Step::Pending(op) => Step::Pending(
                            RemoveAll { log, root_ino, frames, at: RemoveAllAt::Rmdir(op) },
                        ),
                        Step::Done(Err(e)) => Step::Done(Err(e)),
                        Step::Done(Ok(_)) => RemoveAll::next(log, root_ino, frames),
                    }
                } else {
                    let entry = frame.todo.entries.remove(0);
                    let child = child_of(frame.path.as_str(), entry.name.as_str());
                    let depth: u64 = frame.depth;
                    proof {
                        assert(frame@.todo =~= before.todo.skip(1));
                        assert(before.todo[0] == entry@);
                    }
                    let ghost rest = frame@;
                    frames.push(frame);
                    proof {
                        assert(frames_view(frames@) =~= outer.push(rest));
                        assert(outer.push(rest).drop_last() =~= outer);
                        lemma_unwind_push(log, root_ino, outer, rest);
                    }
                    let ghost first = if entry.kind != FileType::Dir {
                        remove::logged_unlink(log, root_ino, child@)
                    } else if depth == 0 {
                        script::fail(ErrorKind::Other, "directories are nested too deeply"@)
                    } else {
                        remove_tree(log, root_ino, (depth - 1) as nat, child@)
                    };
                    proof {
                        let f = |u: ()|
                            remove_entries(
                                log,
                                root_ino,
                                before.depth as nat,
                                before.path,
                                before.todo.skip(1),
                            );
                        let g = |u: ()| unwind(log, root_ino, outer);
                        script::and_next_assoc(first, f, g);
                        let fg = |u: ()| f(u).and_next(g);
                        let h = |u: ()| unwind(log, root_ino, outer.push(rest));
                        assert(fg =~= h);
                    }
                    assert(unwind(log, root_ino, all) == first.and_next(
                        |u: ()| unwind(log, root_ino, outer.push(rest)),
                    ));
                    if entry.kind != FileType::Dir {
                        match start_unlink(log, root_ino, child.as_str()) {
                            Step::Pending(op) => Step::Pending(
                                RemoveAll { log, root_ino, frames, at: RemoveAllAt::Unlink(op) },
                            ),
                            Step::Done(Err(e)) => Step::Done(Err(e)),
                            Step::Done(Ok(_)) => RemoveAll::next(log, root_ino, frames),
                        }
                    } else if depth == 0 {
                        Step::Done(
                            Err(
                                FsError::new(
                                    ErrorKind::Other,
                                    "directories are nested too deeply",
                                ),
                            ),
                        )
                    } else {
                        Step::Pending(RemoveAll::list(log, root_ino, frames, child, depth - 1))
                    }
                }
            },
        }
    }
}

impl Operation for RemoveAll {
    type Output = ();

    open spec fn script(self) -> Script<()> {
        self.plan()
    }

    open spec fn accepts(self, reply: SpecReply) -> bool {
        match self.at {
            RemoveAllAt::List { path, depth, op } => op.accepts(reply),
            RemoveAllAt::Unlink(op) => op.accepts(reply),
            RemoveAllAt::Rmdir(op) => op.accepts(reply),
        }
    }

    fn admits(&self, reply: &Reply) -> (b: bool) {
        match &self.at {
            RemoveAllAt::List { path: _, depth: _, op } => op.admits(reply),
            RemoveAllAt::Unlink(op) => op.admits(reply),
            RemoveAllAt::Rmdir(op) => op.admits(reply),
        }
    }

    proof fn asks(self) {
        match self.at {
            RemoveAllAt::List { path, depth, op } => op.asks(),
            RemoveAllAt::Unlink(op) => op.asks(),
            RemoveAllAt::Rmdir(op) => op.asks(),
        }
    }

    fn request(&self) -> (q: Request) {
        match &self.at {
            RemoveAllAt::List { path: _, depth: _, op } => op.request(),
            RemoveAllAt::Unlink(op) => op.request(),
            RemoveAllAt::Rmdir(op) => op.request(),
        }
    }

    fn resume(self, reply: Reply) -> (s: Step<RemoveAll, ()>) {
        proof {
            self.asks();
        }
        let log = self.log;
        let root_ino: i64 = self.root_ino;
        let mut frames = self.frames;
        match self.at {
            RemoveAllAt::List { path, depth, op } => {
                proof {
                    op.asks();
                }
                match op.resume(reply) {
                    Step::Pending(op) => Step::Pending(
                        RemoveAll {
                            log,
                            root_ino,
                            frames,
                            at: RemoveAllAt::List { path, depth, op },
                        },
                    ),
                    Step::Done(Err(e)) => Step::Done(Err(e)),
                    Step::Done(Ok(todo)) => {
                        let ghost outer = frames_view(frames@);
                        let frame = Frame { path, todo, depth };
                        frames.push(frame);
                        assert(frames_view(frames@) =~= outer.push(frame@));
                        RemoveAll::next(log, root_ino, frames)
                    },
                }
            },
            RemoveAllAt::Unlink(op) => {
                proof {
                    op.asks();
                }
                match op.resume(reply) {
                    Step::Pending(op) => Step::Pending(
                        RemoveAll { log, root_ino, frames, at: RemoveAllAt::Unlink(op) },
                    ),
                    Step::Done(Err(e)) => Step::Done(Err(e)),
                    Step::Done(Ok(_)) => RemoveAll::next(log, root_ino, frames),
                }
            },
            RemoveAllAt::Rmdir(op) => {
                proof {
                    op.asks();
                }
                match op.resume(reply) {
                    Step::Pending(op) => Step::Pending(
                        RemoveAll { log, root_ino, frames, at: RemoveAllAt::Rmdir(op) },
                    ),
                    Step::Done(Err(e)) => Step::Done(Err(e)),
                    Step::Done(Ok(_)) => RemoveAll::next(log, root_ino, frames),
                }
            },
        }
    }
}

} // verus!
