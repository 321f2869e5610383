//! What is refused, and how the refusal is answered. Nothing changes where something is refused.
use crate::error::{ErrorKind, FsError};
use crate::file::File;
use crate::fs;
use crate::laws::contents;
use crate::laws::handles;
use crate::laws::names;
use crate::laws::run;
use crate::laws::shape;
use crate::laws::store;
use crate::laws::store::{Store, World};
use crate::laws::ways;
use crate::meta::{FileLockQuery, FileType, SetAttrFlags, SetAttrRequest};
use crate::ops::attr;
use crate::ops::attr::LockChange;
use crate::ops::create;
use crate::ops::handle;
use crate::ops::io;
use crate::ops::io::Write;
use crate::ops::link;
use crate::ops::link::NewLink;
use crate::ops::lookup;
use crate::ops::mkdir;
use crate::ops::open;
use crate::ops::open::Opening;
use crate::ops::remove;
use crate::ops::rename;
use crate::ops::rename::Move;
use crate::path;
use crate::path::Spot;
use crate::script;
use crate::script::{Script, SpecError, SpecReply};
use crate::stat::{FileStat, OpenFlags};
use vstd::prelude::*;

verus! {

broadcast use crate::script::group_bind;

/// A refusal of a kind, with a message.
pub open spec fn refused<T>(kind: ErrorKind, message: Seq<char>) -> Result<T, SpecError> {
    Err(FsError { kind, message })
}

/// Running a script ends with a result, and changes nothing.
pub open spec fn gives<T>(w: World, s: Script<T>, r: Result<T, SpecError>) -> bool {
    run::run(store::services(), w, s) == (w, r)
}

/// Running a script fails as nothing was found at a path, and changes nothing.
pub open spec fn misses<T>(w: World, s: Script<T>, path: Seq<char>) -> bool {
    let (w1, r) = run::run(store::services(), w, s);
    w1 == w && (r matches Err(e) && names::is_missed(e, path))
}

/// A step that the world answers with `reply` without changing, and that goes on with `next`.
proof fn step<T>(w: World, s: Script<T>, reply: SpecReply, next: Script<T>)
    requires
        s is Ask,
        store::services()(w, s->Ask_0) == (w, reply),
        (s->Ask_1)(reply) == next,
    ensures
        run::run(store::services(), w, s) == run::run(store::services(), w, next),
        next matches Script::Done(r) ==> gives(w, s, r),
{
    let sv = store::services();
    assert(run::run(sv, w, s) == run::run(sv, w, next));
    if let Script::Done(r) = next {
        assert(run::run(sv, w, Script::<T>::Done(r)) == (w, r));
    }
}

/// The root of the store is a directory, and entries lead where they should.
pub open spec fn sound(s: Store) -> bool {
    &&& s.linked()
    &&& s.attrs.contains_key(s.root_ino)
    &&& s.attrs[s.root_ino].kind == FileType::Dir
}

/// Why the directory at `dir` cannot be worked in, if it cannot.
pub open spec fn no_dir(s: Store, dir: Seq<char>, must_be_dir: bool) -> Option<SpecError> {
    match s.at(dir) {
        None => Some(FsError { kind: ErrorKind::NotFound, message: dir }),
        Some(ino) => if must_be_dir && s.attrs[ino].kind != FileType::Dir {
            Some(FsError { kind: ErrorKind::NotADirectory, message: dir })
        } else {
            None
        },
    }
}

proof fn parent_dir_ends(w: World, dir: Seq<char>, must_be_dir: bool)
    requires
        sound(w.store),
    ensures
        gives(
            w,
            lookup::parent_dir(w.store.root_ino, dir, must_be_dir),
            match no_dir(w.store, dir, must_be_dir) {
                Some(e) => Err(e),
                None => Ok(w.store.at(dir)->Some_0),
            },
        ),
{
    reveal_with_fuel(run::run, 2);
    path::lemma_no_components();
}

/// `mkdir` of the root does nothing. It is refused where the directory above is missing or is none,
/// and where something else than a directory is at the path.
pub proof fn mkdir_refuses(w: World, log: bool, path: Seq<char>)
    requires
        sound(w.store),
    ensures
        ({
            let s = w.store;
            let n = path::normalize(path);
            let d = path::parent(n);
            let op = fs::logged_mkdir(log, s.root_ino, path);
            &&& n == path::root() ==> gives(w, op, Ok(()))
            &&& n != path::root() ==> match no_dir(s, d, true) {
                Some(e) => gives(w, op, Err(e)),
                None => s.at(path) is Some && s.attrs[s.at(path)->Some_0].kind != FileType::Dir
                    ==> gives(w, op, refused(ErrorKind::AlreadyExists, n)),
            }
        }),
{
    let sv = store::services();
    let s = w.store;
    let n = path::normalize(path);
    let d = path::parent(n);
    let name = path::file_name(n);
    contents::store_ignores_log();
    run::logging_changes_nothing(sv, w, log, "mkdir"@, n, mkdir::mkdir(s.root_ino, n));
    if n != path::root() {
        names::split_path(s, path);
        parent_dir_ends(w, d, true);
        run::run_and_next(
            sv,
            w,
            lookup::parent_dir(s.root_ino, d, true),
            |parent: i64| mkdir::mkdir_entry(n, path::file_name(n), parent),
        );
        if no_dir(s, d, true) is None && s.at(path) is Some {
            let parent = s.at(d)->Some_0;
            let ino = s.at(path)->Some_0;
            assert(s.entries.contains_key((parent, name)));
            let s1 = mkdir::mkdir_existing(n, ino);
            step(w, mkdir::mkdir_entry(n, name, parent), SpecReply::Child(Ok(Some(ino))), s1);
            if s.attrs[ino].kind != FileType::Dir {
                step(
                    w,
                    s1,
                    SpecReply::Attr(Ok(Some(s.attrs[ino]))),
                    script::fail(ErrorKind::AlreadyExists, n),
                );
            }
        }
    }
}

/// `unlink` is refused where the directory above is missing or is none, where nothing is at the
/// path, and where a directory is.
pub proof fn unlink_refuses(w: World, log: bool, path: Seq<char>)
    requires
        sound(w.store),
        path::normalize(path) != path::root(),
    ensures
        ({
            let s = w.store;
            let n = path::normalize(path);
            let op = remove::logged_unlink(log, s.root_ino, path);
            match no_dir(s, path::parent(n), true) {
                Some(e) => gives(w, op, Err(e)),
                None => match s.at(path) {
                    None => gives(w, op, refused(ErrorKind::NotFound, n)),
                    Some(ino) => s.attrs[ino].kind == FileType::Dir ==> gives(
                        w,
                        op,
                        refused(ErrorKind::IsADirectory, n),
                    ),
                },
            }
        }),
{
    let sv = store::services();
    let s = w.store;
    let n = path::normalize(path);
    let d = path::parent(n);
    let name = path::file_name(n);
    contents::store_ignores_log();
    run::logging_changes_nothing(sv, w, log, "unlink"@, n, remove::unlink(s.root_ino, n));
    names::split_path(s, path);
    parent_dir_ends(w, d, true);
    run::run_and_next(
        sv,
        w,
        lookup::parent_dir(s.root_ino, d, true),
        |parent: i64| remove::unlink_entry(n, path::file_name(n), parent),
    );
    if no_dir(s, d, true) is None {
        let parent = s.at(d)->Some_0;
        let op = remove::unlink_entry(n, name, parent);
        match s.at(path) {
            None => step(w, op, SpecReply::Child(Ok(None)), script::fail(ErrorKind::NotFound, n)),
            Some(ino) => {
                assert(s.entries.contains_key((parent, name)));
                let s1 = remove::unlink_kind(n, name, parent, ino);
                step(w, op, SpecReply::Child(Ok(Some(ino))), s1);
                if s.attrs[ino].kind == FileType::Dir {
                    step(
                        w,
                        s1,
                        SpecReply::Attr(Ok(Some(s.attrs[ino]))),
                        script::fail(ErrorKind::IsADirectory, n),
                    );
                }
            },
        }
    }
}

/// `rmdir` is refused for the root, where the directory above is missing or is none, where nothing
/// is at the path, and where something else than a directory is.
pub proof fn rmdir_refuses(w: World, log: bool, path: Seq<char>)
    requires
        sound(w.store),
    ensures
        ({
            let s = w.store;
            let n = path::normalize(path);
            let op = remove::logged_rmdir(log, s.root_ino, path);
            if n == path::root() {
                gives(w, op, refused(ErrorKind::InvalidInput, "cannot remove root"@))
            } else {
                match no_dir(s, path::parent(n), true) {
                    Some(e) => gives(w, op, Err(e)),
                    None => match s.at(path) {
                        None => gives(w, op, refused(ErrorKind::NotFound, n)),
                        Some(ino) => s.attrs[ino].kind != FileType::Dir ==> gives(
                            w,
                            op,
                            refused(ErrorKind::NotADirectory, n),
                        ),
                    },
                }
            }
        }),
{
    let sv = store::services();
    let s = w.store;
    let n = path::normalize(path);
    let d = path::parent(n);
    let name = path::file_name(n);
    contents::store_ignores_log();
    run::logging_changes_nothing(sv, w, log, "rmdir"@, n, remove::rmdir(s.root_ino, n));
    if n != path::root() {
        names::split_path(s, path);
        parent_dir_ends(w, d, true);
        run::run_and_next(
            sv,
            w,
            lookup::parent_dir(s.root_ino, d, true),
            |parent: i64| remove::rmdir_entry(n, path::file_name(n), parent),
        );
        if no_dir(s, d, true) is None {
            let parent = s.at(d)->Some_0;
            let op = remove::rmdir_entry(n, name, parent);
            match s.at(path) {
                None => step(
                    w,
                    op,
                    SpecReply::Child(Ok(None)),
                    script::fail(ErrorKind::NotFound, n),
                ),
                Some(ino) => {
                    assert(s.entries.contains_key((parent, name)));
                    let s1 = remove::rmdir_kind(n, name, parent, ino);
                    step(w, op, SpecReply::Child(Ok(Some(ino))), s1);
                    if s.attrs[ino].kind != FileType::Dir {
                        step(
                            w,
                            s1,
                            SpecReply::Attr(Ok(Some(s.attrs[ino]))),
                            script::fail(ErrorKind::NotADirectory, n),
                        );
                    }
                },
            }
        }
    }
}

/// `remove` does what `rmdir` does with a directory and what `unlink` does with anything else, and
/// is refused where nothing is.
pub proof fn remove_is_rmdir_or_unlink(w: World, log: bool, path: Seq<char>)
    requires
        sound(w.store),
    ensures
        ({
            let sv = store::services();
            let s = w.store;
            let op = remove::remove(log, s.root_ino, path::normalize(path));
            match s.at(path) {
                None => misses(w, op, path),
                Some(ino) => run::run(sv, w, op) == run::run(
                    sv,
                    w,
                    if s.attrs[ino].kind == FileType::Dir {
                        remove::logged_rmdir(log, s.root_ino, path)
                    } else {
                        remove::logged_unlink(log, s.root_ino, path)
                    },
                ),
            }
        }),
{
    let sv = store::services();
    let s = w.store;
    let n = path::normalize(path);
    path::normalize_keeps_components(path);
    path::normalize_is_idempotent(path);
    run::run_and_next(
        sv,
        w,
        lookup::resolve(n, false),
        |info: FileStat<Seq<char>>| remove::remove_kind(log, s.root_ino, n, info.attr.kind),
    );
    match s.at(path) {
        None => {
            reveal_with_fuel(run::run, 2);
        },
        Some(ino) => {
            shape::walk_is_known(s, s.root_ino, path::components(path));
            contents::resolve_runs(w, n, false, ino);
        },
    }
}

proof fn place_refuses(w: World, spot: Spot<Seq<char>>, new_link: NewLink<Seq<char>>)
    requires
        sound(w.store),
        spot.name.len() > 0,
    ensures
        ({
            let s = w.store;
            let op = link::place(s.root_ino, spot, new_link);
            match no_dir(s, spot.dir, true) {
                Some(e) => gives(w, op, Err(e)),
                None => s.entries.contains_key((s.at(spot.dir)->Some_0, spot.name)) ==> gives(
                    w,
                    op,
                    refused(ErrorKind::AlreadyExists, spot.path),
                ),
            }
        }),
{
    let sv = store::services();
    let s = w.store;
    parent_dir_ends(w, spot.dir, false);
    run::run_and_next(
        sv,
        w,
        lookup::parent_dir(s.root_ino, spot.dir, false),
        |parent: i64| link::place_parent(spot, new_link, parent),
    );
    if let Some(parent) = s.at(spot.dir) {
        shape::walk_is_known(s, s.root_ino, path::components(spot.dir));
        let op = link::place_parent(spot, new_link, parent);
        let reply = SpecReply::Attr(Ok(Some(s.attrs[parent])));
        if s.attrs[parent].kind != FileType::Dir {
            step(w, op, reply, script::fail(ErrorKind::NotADirectory, spot.dir));
        } else {
            let s1 = link::place_entry(spot, new_link, parent);
            step(w, op, reply, s1);
            if s.entries.contains_key((parent, spot.name)) {
                let ino = s.entries[(parent, spot.name)];
                step(
                    w,
                    s1,
                    SpecReply::Child(Ok(Some(ino))),
                    script::fail(ErrorKind::AlreadyExists, spot.path),
                );
            }
        }
    }
}

/// `symlink` is refused at the root, where the directory above is missing or is none, and where
/// something is.
pub proof fn symlink_refuses(w: World, log: bool, path: Seq<char>, target: Seq<char>)
    requires
        sound(w.store),
    ensures
        ({
            let s = w.store;
            let n = path::normalize(path);
            let op = fs::logged_symlink(log, s.root_ino, path, target);
            if n == path::root() {
                gives(w, op, refused(ErrorKind::InvalidInput, n))
            } else {
                match no_dir(s, path::parent(n), true) {
                    Some(e) => gives(w, op, Err(e)),
                    None => s.at(path) is Some ==> gives(
                        w,
                        op,
                        refused(ErrorKind::AlreadyExists, n),
                    ),
                }
            }
        }),
{
    let sv = store::services();
    let s = w.store;
    let n = path::normalize(path);
    contents::store_ignores_log();
    let inner = link::symlink(s.root_ino, n, target);
    run::logging_changes_nothing(sv, w, log, "symlink"@, fs::arrow(n, target), inner);
    if n != path::root() {
        names::split_path(s, path);
        place_refuses(w, Spot::of(n), NewLink::Symbolic { target });
    }
}

/// `link` is refused for the root as a source or as a name, for a source that is missing or a
/// directory, where the directory of the new name is missing or is none, and where something is.
pub proof fn link_refuses(w: World, log: bool, existing: Seq<char>, path: Seq<char>)
    requires
        sound(w.store),
    ensures
        ({
            let s = w.store;
            let e = path::normalize(existing);
            let n = path::normalize(path);
            let op = fs::logged_link(log, s.root_ino, existing, path);
            if e == path::root() {
                gives(w, op, refused(ErrorKind::IsADirectory, e))
            } else if n == path::root() {
                gives(w, op, refused(ErrorKind::InvalidInput, n))
            } else if s.at(existing) is None {
                gives(w, op, refused(ErrorKind::NotFound, e))
            } else if s.attrs[s.at(existing)->Some_0].kind == FileType::Dir {
                gives(w, op, refused(ErrorKind::IsADirectory, e))
            } else {
                match no_dir(s, path::parent(n), true) {
                    Some(e) => gives(w, op, Err(e)),
                    None => s.at(path) is Some ==> gives(
                        w,
                        op,
                        refused(ErrorKind::AlreadyExists, n),
                    ),
                }
            }
        }),
{
    let sv = store::services();
    let s = w.store;
    let e = path::normalize(existing);
    let n = path::normalize(path);
    contents::store_ignores_log();
    path::normalize_keeps_components(existing);
    let inner = link::link(s.root_ino, e, n);
    run::logging_changes_nothing(sv, w, log, "link"@, fs::arrow(e, n), inner);
    if e != path::root() && n != path::root() {
        names::split_path(s, path);
        let op = link::link_source(s.root_ino, e, Spot::of(n));
        match s.at(existing) {
            None => step(w, op, SpecReply::Entry(Ok(None)), script::fail(ErrorKind::NotFound, e)),
            Some(ino) => {
                let kind = s.attrs[ino].kind;
                let reply = SpecReply::Entry(Ok(Some((ino, kind))));
                if kind == FileType::Dir {
                    step(w, op, reply, script::fail(ErrorKind::IsADirectory, e));
                } else {
                    step(w, op, reply, link::place(s.root_ino, Spot::of(n), NewLink::Hard { ino }));
                    place_refuses(w, Spot::of(n), NewLink::Hard { ino });
                }
            },
        }
    }
}

/// `readlink` gives the target of a symbolic link, and is refused where nothing is, and where
/// something else is.
pub proof fn readlink_tells(w: World, log: bool, path: Seq<char>)
    ensures
        ({
            let s = w.store;
            let n = path::normalize(path);
            gives(
                w,
                fs::logged_readlink(log, path),
                match s.at(path) {
                    None => refused(ErrorKind::NotFound, n),
                    Some(ino) => if s.attrs[ino].kind == FileType::Symlink {
                        Ok(s.targets[ino])
                    } else {
                        refused(ErrorKind::InvalidInput, n)
                    },
                },
            )
        }),
{
    let sv = store::services();
    let s = w.store;
    let n = path::normalize(path);
    path::normalize_keeps_components(path);
    contents::store_ignores_log();
    run::logging_changes_nothing(sv, w, log, "readlink"@, n, link::readlink(n));
    let op = link::readlink(n);
    match s.at(path) {
        None => step(w, op, SpecReply::Entry(Ok(None)), script::fail(ErrorKind::NotFound, n)),
        Some(ino) => {
            let kind = s.attrs[ino].kind;
            let reply = SpecReply::Entry(Ok(Some((ino, kind))));
            if kind == FileType::Symlink {
                let s1 = link::readlink_target(n, ino);
                step(w, op, reply, s1);
                step(
                    w,
                    s1,
                    SpecReply::Target(Ok(s.targets[ino])),
                    Script::Done(Ok(s.targets[ino])),
                );
            } else {
                step(w, op, reply, script::fail(ErrorKind::InvalidInput, n));
            }
        },
    }
}

/// `truncate` is refused where nothing is, and where something else than a file is.
pub proof fn truncate_refuses(w: World, log: bool, path: Seq<char>, size: u64)
    ensures
        ({
            let s = w.store;
            let n = path::normalize(path);
            let op = attr::logged_truncate(log, path, size);
            match s.at(path) {
                None => gives(w, op, refused(ErrorKind::NotFound, n)),
                Some(ino) => {
                    &&& s.attrs[ino].kind == FileType::Dir ==> gives(
                        w,
                        op,
                        refused(ErrorKind::IsADirectory, n),
                    )
                    &&& s.attrs[ino].kind == FileType::Symlink ==> gives(
                        w,
                        op,
                        refused(ErrorKind::InvalidInput, n),
                    )
                },
            }
        }),
{
    let sv = store::services();
    let s = w.store;
    let n = path::normalize(path);
    path::normalize_keeps_components(path);
    contents::store_ignores_log();
    let op = attr::truncate(n, size);
    run::logging_changes_nothing(sv, w, log, "truncate"@, n, op);
    match s.at(path) {
        None => step(w, op, SpecReply::Entry(Ok(None)), script::fail(ErrorKind::NotFound, n)),
        Some(ino) => {
            let reply = SpecReply::Entry(Ok(Some((ino, s.attrs[ino].kind))));
            match s.attrs[ino].kind {
                FileType::Dir => step(w, op, reply, script::fail(ErrorKind::IsADirectory, n)),
                FileType::Symlink => step(w, op, reply, script::fail(ErrorKind::InvalidInput, n)),
                FileType::File => {},
            }
        },
    }
}

/// To open a file and to empty it over a symbolic link is refused: the link is not emptied.
pub proof fn open_empties_no_links(w: World, log: bool, path: Seq<char>, flags: OpenFlags)
    requires
        w.store.is_tree(),
        w.store.at(path) is Some,
        w.store.targets.contains_key(w.store.at(path)->Some_0),
        w.store.behind(path) is Some,
        w.store.attrs[w.store.behind(path)->Some_0].kind != FileType::Dir,
        !(flags.create && flags.exclusive),
        flags.truncate && flags.write,
    ensures
        gives(
            w,
            fs::logged_open(log, w.store.root_ino, path, flags),
            refused(ErrorKind::InvalidInput, path::normalize(path)),
        ),
{
    let sv = store::services();
    let s = w.store;
    let n = path::normalize(path);
    let o = Opening { path: n, flags, log };
    let target = s.behind(path)->Some_0;
    let info = handles::info_of(w, n, target);
    path::normalize_keeps_components(path);
    path::normalize_is_idempotent(path);
    contents::store_ignores_log();
    run::logging_changes_nothing(sv, w, log, "open"@, n, open::open_file(s.root_ino, o));
    handles::behind_is_known(s, path);
    contents::resolve_runs(w, n, true, target);
    run::run_and_next(
        sv,
        w,
        lookup::resolve(n, true),
        |info: FileStat<Seq<char>>| open::open_resolved(o, info),
    );
    run::run_bind(
        sv,
        w,
        lookup::resolve(n, true),
        |r: Result<FileStat<Seq<char>>, SpecError>|
            open::open_or_create(s.root_ino, o, Spot::of(o.path), r),
    );
    truncate_refuses(w, log, n, 0);
    run::run_and_next(
        sv,
        w,
        attr::logged_truncate(log, n, 0),
        |u: ()| open::open_handle(o, info),
    );
}

/// To create a file by opening it is refused where the directory above is missing or is none. A
/// symbolic link that leads nowhere is not followed to make a file.
pub proof fn open_creates_in_directories_only(
    w: World,
    log: bool,
    path: Seq<char>,
    flags: OpenFlags,
)
    requires
        w.store.is_tree(),
        path::normalize(path) != path::root(),
        w.store.behind(path) is None,
        flags.create,
    ensures
        ({
            let s = w.store;
            let n = path::normalize(path);
            let op = fs::logged_open(log, s.root_ino, path, flags);
            &&& no_dir(s, path::parent(n), true) matches Some(e) ==> gives(w, op, Err(e))
            &&& s.at(path) is Some && !flags.exclusive ==> misses(w, op, path)
        }),
{
    let sv = store::services();
    let s = w.store;
    let n = path::normalize(path);
    let o = Opening { path: n, flags, log };
    let spot = Spot::of(n);
    let make = create::create_in_dir(s.root_ino, spot, flags.exclusive);
    contents::store_ignores_log();
    names::split_path(s, path);
    run::logging_changes_nothing(sv, w, log, "open"@, n, open::open_file(s.root_ino, o));
    handles::resolve_misses(w, n);
    run::run_bind(
        sv,
        w,
        lookup::resolve(n, true),
        |r: Result<FileStat<Seq<char>>, SpecError>|
            open::open_or_create(s.root_ino, o, Spot::of(o.path), r),
    );
    run::run_and_next(sv, w, make, |ino: i64| open::open_existing(o));
    parent_dir_ends(w, spot.dir, true);
    run::run_and_next(
        sv,
        w,
        lookup::parent_dir(s.root_ino, spot.dir, true),
        |parent: i64|
            create::create_in_dir_entry(spot.path, spot.name, flags.exclusive, parent),
    );
    if s.at(path) is Some && !flags.exclusive {
        let ino = s.at(path)->Some_0;
        let parent = s.at(spot.dir)->Some_0;
        assert(s.entries.contains_key((parent, spot.name)));
        let s1 = create::create_in_dir_existing(n, false, ino);
        step(
            w,
            create::create_in_dir_entry(n, spot.name, false, parent),
            SpecReply::Child(Ok(Some(ino))),
            s1,
        );
        step(w, s1, SpecReply::Attr(Ok(Some(s.attrs[ino]))), Script::Done(Ok(ino)));
        run::run_and_next(
            sv,
            w,
            lookup::resolve(n, true),
            |info: FileStat<Seq<char>>| open::open_resolved(o, info),
        );
    }
}

/// `readdir` is refused where nothing is, and where something else than a directory is.
pub proof fn readdir_refuses(w: World, log: bool, path: Seq<char>)
    ensures
        ({
            let s = w.store;
            let n = path::normalize(path);
            let op = attr::logged_readdir(log, path);
            match s.at(path) {
                None => gives(w, op, refused(ErrorKind::NotFound, n)),
                Some(ino) => s.attrs[ino].kind != FileType::Dir ==> gives(
                    w,
                    op,
                    refused(ErrorKind::NotADirectory, n),
                ),
            }
        }),
{
    let sv = store::services();
    let s = w.store;
    let n = path::normalize(path);
    path::normalize_keeps_components(path);
    contents::store_ignores_log();
    let op = attr::readdir(n);
    run::logging_changes_nothing(sv, w, log, "readdir"@, n, op);
    match s.at(path) {
        None => step(w, op, SpecReply::Entry(Ok(None)), script::fail(ErrorKind::NotFound, n)),
        Some(ino) => {
            let reply = SpecReply::Entry(Ok(Some((ino, s.attrs[ino].kind))));
            if s.attrs[ino].kind != FileType::Dir {
                step(w, op, reply, script::fail(ErrorKind::NotADirectory, n));
            }
        },
    }
}

/// What works on what is behind a path is refused where nothing is there.
pub proof fn missing_is_refused(
    w: World,
    log: bool,
    path: Seq<char>,
    attrs: SetAttrRequest,
    flags: SetAttrFlags,
    query: FileLockQuery,
    change: LockChange,
    offset: u64,
    len: usize,
    data: Seq<u8>,
)
    requires
        w.store.behind(path) is None,
    ensures
        ({
            let n = path::normalize(path);
            &&& misses(w, fs::logged_set_attr(log, path, attrs, flags), path)
            &&& misses(w, attr::get_plock(n, query), path)
            &&& misses(w, attr::set_plock(n, change), path)
            &&& misses(w, fs::logged_read_at(log, path, offset, len), path)
            &&& misses(w, fs::logged_write_at(log, path, offset, data), path)
        }),
{
    let sv = store::services();
    let n = path::normalize(path);
    let find = lookup::resolve(n, true);
    let wr = Write::of(n, offset, data);
    path::normalize_keeps_components(path);
    contents::store_ignores_log();
    handles::resolve_misses(w, n);
    run::logging_changes_nothing(sv, w, log, "set_attr"@, n, attr::set_attr(n, attrs, flags));
    run::logging_changes_nothing(sv, w, log, "read_at"@, n, io::read_at(n, offset, len));
    run::logging_changes_nothing(sv, w, log, "write_at"@, n, io::write_at(n, offset, data));
    run::run_and_next(
        sv,
        w,
        find,
        |info: FileStat<Seq<char>>| attr::set_attr_now(n, info.inode, attrs, flags),
    );
    run::run_and_next(
        sv,
        w,
        find,
        |info: FileStat<Seq<char>>| attr::get_plock_now(n, info.inode, query),
    );
    run::run_and_next(
        sv,
        w,
        find,
        |info: FileStat<Seq<char>>| attr::set_plock_now(n, info.inode, change),
    );
    run::run_and_next(
        sv,
        w,
        find,
        |info: FileStat<Seq<char>>| io::read_inode(n, info.inode, offset, len),
    );
    run::run_and_next(
        sv,
        w,
        find,
        |info: FileStat<Seq<char>>| io::perform_write(wr, info.inode),
    );
}

proof fn register_refuses(w: World, p: Seq<char>, ino: i64)
    requires
        !w.local.channels.sizes.contains_key(ino),
    ensures
        !w.store.attrs.contains_key(ino) ==> gives(
            w,
            io::register(p, ino),
            refused(ErrorKind::NotFound, p),
        ),
        w.store.attrs.contains_key(ino) && w.store.attrs[ino].kind == FileType::Dir ==> gives(
            w,
            io::register(p, ino),
            refused(ErrorKind::IsADirectory, p),
        ),
        w.store.attrs.contains_key(ino) && w.store.attrs[ino].kind == FileType::Symlink ==> gives(
            w,
            io::register(p, ino),
            refused(ErrorKind::InvalidInput, p),
        ),
{
    let s1 = io::register_attr(p, ino);
    step(w, io::register(p, ino), SpecReply::Cached(None), s1);
    if !w.store.attrs.contains_key(ino) {
        step(w, s1, SpecReply::Attr(Ok(None)), script::fail(ErrorKind::NotFound, p));
    } else {
        let reply = SpecReply::Attr(Ok(Some(w.store.attrs[ino])));
        match w.store.attrs[ino].kind {
            FileType::Dir => step(w, s1, reply, script::fail(ErrorKind::IsADirectory, p)),
            FileType::Symlink => step(w, s1, reply, script::fail(ErrorKind::InvalidInput, p)),
            FileType::File => {},
        }
    }
}

/// Only files have contents: reading from a directory, or writing to it, is refused, and so it is
/// for a symbolic link. Reading nothing gives nothing.
pub proof fn only_files_have_contents(
    w: World,
    log: bool,
    path: Seq<char>,
    ino: i64,
    offset: u64,
    len: usize,
    data: Seq<u8>,
)
    requires
        w.store.behind(path) == Some(ino),
        w.store.attrs.contains_key(ino),
        w.store.attrs[ino].ino == ino,
        w.store.attrs[ino].kind != FileType::File,
        !w.local.channels.sizes.contains_key(ino),
    ensures
        ({
            let n = path::normalize(path);
            let kind = if w.store.attrs[ino].kind == FileType::Dir {
                ErrorKind::IsADirectory
            } else {
                ErrorKind::InvalidInput
            };
            &&& gives(
                w,
                fs::logged_read_at(log, path, offset, len),
                if len == 0 {
                    Ok(Seq::empty())
                } else {
                    refused(kind, n)
                },
            )
            &&& gives(w, fs::logged_write_at(log, path, offset, data), refused(kind, n))
        }),
{
    let sv = store::services();
    let n = path::normalize(path);
    let find = lookup::resolve(n, true);
    let wr = Write::of(n, offset, data);
    path::normalize_keeps_components(path);
    contents::store_ignores_log();
    contents::resolve_runs(w, n, true, ino);
    register_refuses(w, n, ino);
    run::logging_changes_nothing(sv, w, log, "read_at"@, n, io::read_at(n, offset, len));
    run::logging_changes_nothing(sv, w, log, "write_at"@, n, io::write_at(n, offset, data));
    run::run_and_next(
        sv,
        w,
        find,
        |info: FileStat<Seq<char>>| io::read_inode(n, info.inode, offset, len),
    );
    run::run_and_next(
        sv,
        w,
        find,
        |info: FileStat<Seq<char>>| io::perform_write(wr, info.inode),
    );
    run::run_and_next(sv, w, io::register(n, ino), |u: ()| io::read_channel(ino, offset, len));
    run::run_and_next(sv, w, io::register(n, ino), |u: ()| io::write_channel(wr, ino));
}

/// A handle whose file is gone is told so.
pub proof fn vanished_files_are_missed(w: World, f: File<Seq<char>>)
    requires
        !w.store.attrs.contains_key(f.inode),
    ensures
        gives(
            w,
            handle::file_size(f.path, f.inode),
            refused(ErrorKind::NotFound, "inode not found"@),
        ),
        gives(
            w,
            handle::refresh_file(f.path, f.inode),
            refused(ErrorKind::NotFound, "inode not found"@),
        ),
{
    let reply = SpecReply::Attr(Ok(None));
    step(
        w,
        handle::file_size(f.path, f.inode),
        reply,
        script::fail(ErrorKind::NotFound, "inode not found"@),
    );
    step(
        w,
        handle::refresh_file(f.path, f.inode),
        reply,
        script::fail(ErrorKind::NotFound, "inode not found"@),
    );
}

/// `rename` is refused where the source or its directory is missing, where a directory would
/// replace something else or something else a directory, where the directory to replace is not
/// empty, and where something else than a directory is on the way to the new path.
pub proof fn rename_refuses(w: World, log: bool, old_path: Seq<char>, new_path: Seq<char>)
    requires
        w.store.is_tree(),
        w.store.lists_all(),
        path::normalize(old_path) != path::root(),
        store::has_room(w.store.attrs.dom(), path::components(new_path).len()),
    ensures
        ({
            let s = w.store;
            let from = path::normalize(old_path);
            let to = path::normalize(new_path);
            let op = fs::logged_rename(log, s.root_ino, old_path, new_path);
            match (s.at(path::parent(from)), s.at(old_path), s.at(new_path)) {
                (None, _, _) => gives(w, op, refused(ErrorKind::NotFound, path::parent(from))),
                (_, None, _) => gives(w, op, refused(ErrorKind::NotFound, from)),
                (_, Some(ino), Some(dest)) => {
                    let a = s.attrs[ino].kind == FileType::Dir;
                    let b = s.attrs[dest].kind == FileType::Dir;
                    &&& a != b ==> gives(w, op, refused(ErrorKind::NotADirectory, to))
                    &&& a && b && (exists|name: Seq<char>| #[trigger]
                        s.entries.contains_key((dest, name))) ==> gives(
                        w,
                        op,
                        refused(ErrorKind::DirectoryNotEmpty, to),
                    )
                },
                (_, Some(_), None) => !ways::clear_way(
                    s,
                    s.root_ino,
                    path::components(path::parent(to)),
                ) ==> ({
                    let (w1, r) = run::run(store::services(), w, op);
                    w1 == w && (r matches Err(e) && ways::in_the_way(s, path::parent(to), e))
                }),
            }
        }),
{
    let sv = store::services();
    let s = w.store;
    let root_ino = s.root_ino;
    let from = path::normalize(old_path);
    let to = path::normalize(new_path);
    let m = Move::of(from, to);
    contents::store_ignores_log();
    run::logging_changes_nothing(
        sv,
        w,
        log,
        "rename"@,
        fs::arrow(from, to),
        rename::rename(root_ino, from, to),
    );
    parent_dir_ends(w, path::parent(from), false);
    run::run_and_next(
        sv,
        w,
        lookup::parent_dir(root_ino, path::parent(from), false),
        |old_parent: i64| rename::rename_source(root_ino, Move::of(from, to), old_parent),
    );
    names::split_path(s, old_path);
    path::normalize_keeps_components(new_path);
    if let Some(old_parent) = s.at(path::parent(from)) {
        let op = rename::rename_source(root_ino, m, old_parent);
        match s.at(old_path) {
            None => step(
                w,
                op,
                SpecReply::Child(Ok(None)),
                script::fail(ErrorKind::NotFound, from),
            ),
            Some(ino) => {
                assert(s.entries.contains_key((old_parent, m.old_name)));
                let kind = s.attrs[ino].kind;
                let s1 = rename::rename_kind(root_ino, m, old_parent, ino);
                let s2 = rename::rename_dest(root_ino, m, old_parent, kind);
                step(w, op, SpecReply::Child(Ok(Some(ino))), s1);
                step(w, s1, SpecReply::Attr(Ok(Some(s.attrs[ino]))), s2);
                match s.at(new_path) {
                    Some(dest) => rename_over_refuses(w, m, old_parent, kind, new_path, dest),
                    None => {
                        let s3 = rename::rename_parents(root_ino, m, old_parent);
                        step(w, s2, SpecReply::Entry(Ok(None)), s3);
                        run::run_and_next(
                            sv,
                            w,
                            mkdir::mkdir_p(root_ino, m.new_dir),
                            |new_parent: i64| rename::rename_now(m, old_parent, new_parent),
                        );
                        if to == path::root() {
                            path::lemma_no_components();
                            assert(s.at(new_path) == Some(root_ino));
                        }
                        shape::split_parts(new_path);
                        ways::room_left(
                            s.attrs.dom(),
                            path::components(m.new_dir).len(),
                            1,
                        );
                        ways::mkdir_p_makes(w, m.new_dir, 0);
                    },
                }
            },
        }
    }
}

proof fn rename_over_refuses(
    w: World,
    m: Move<Seq<char>>,
    old_parent: i64,
    kind: FileType,
    new_path: Seq<char>,
    dest: i64,
)
    requires
        w.store.is_tree(),
        w.store.lists_all(),
        m.new == path::normalize(new_path),
        m.new_dir == path::parent(m.new),
        w.store.at(new_path) == Some(dest),
    ensures
        ({
            let s = w.store;
            let op = rename::rename_dest(s.root_ino, m, old_parent, kind);
            let a = kind == FileType::Dir;
            let b = s.attrs[dest].kind == FileType::Dir;
            &&& a != b ==> gives(w, op, refused(ErrorKind::NotADirectory, m.new))
            &&& a && b && (exists|name: Seq<char>| #[trigger]
                s.entries.contains_key((dest, name))) ==> gives(
                w,
                op,
                refused(ErrorKind::DirectoryNotEmpty, m.new),
            )
        }),
{
    let sv = store::services();
    let s = w.store;
    let root_ino = s.root_ino;
    let dest_kind = s.attrs[dest].kind;
    let s2 = rename::rename_dest(root_ino, m, old_parent, kind);
    let s3 = rename::rename_occupied(root_ino, m, old_parent, kind, dest, dest_kind);
    path::normalize_keeps_components(new_path);
    step(w, s2, SpecReply::Entry(Ok(Some((dest, dest_kind)))), s3);
    if m.new == path::root() {
        path::lemma_no_components();
        path::lemma_root_parent();
        assert(s.at(m.new_dir) == Some(root_ino));
    } else {
        names::split_path(s, new_path);
    }
    let new_parent = s.at(m.new_dir)->Some_0;
    parent_dir_ends(w, m.new_dir, false);
    run::run_and_next(
        sv,
        w,
        lookup::parent_dir(root_ino, m.new_dir, false),
        |new_parent: i64|
            rename::rename_over(root_ino, m, old_parent, kind, dest, dest_kind, new_parent),
    );
    if kind == FileType::Dir && dest_kind == FileType::Dir {
        let s4 = rename::rename_children(root_ino, m, old_parent, dest, new_parent);
        assert(rename::rename_over(root_ino, m, old_parent, kind, dest, dest_kind, new_parent)
            == s4);
        let children = s.listing(dest);
        if exists|name: Seq<char>| #[trigger] s.entries.contains_key((dest, name)) {
            let name = choose|name: Seq<char>| #[trigger] s.entries.contains_key((dest, name));
            assert(store::lists(children, s.entries, s.attrs, dest));
            assert(store::has_name(children, name));
            step(
                w,
                s4,
                SpecReply::Entries(Ok(children)),
                script::fail(ErrorKind::DirectoryNotEmpty, m.new),
            );
        }
    }
}

} // verus!
