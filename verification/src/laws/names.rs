//! What stands at a path after an operation.
use crate::error::{ErrorKind, FsError};
use crate::file::File;
use crate::fs;
use crate::laws::contents;
use crate::laws::run;
use crate::laws::shape;
use crate::laws::store;
use crate::laws::store::{Store, World};
use crate::meta::{FileAttr, FileType};
use crate::ops::attr;
use crate::ops::create;
use crate::ops::link;
use crate::ops::link::NewLink;
use crate::ops::lookup;
use crate::ops::mkdir;
use crate::ops::remove;
use crate::path;
use crate::path::Spot;
use crate::script;
use crate::script::{MetaRequest, Script, SpecError, SpecReply};
use crate::stat::FileStat;
use vstd::prelude::*;

verus! {

broadcast use crate::script::group_bind;

/// Walking a way and then another is walking the two in one.
pub proof fn walk_joins(
    entries: Map<(i64, Seq<char>), i64>,
    ino: i64,
    a: Seq<Seq<char>>,
    b: Seq<Seq<char>>,
)
    ensures
        store::walk(entries, ino, a + b) == (match store::walk(entries, ino, a) {
            Some(mid) => store::walk(entries, mid, b),
            None => None,
        }),
    decreases a.len(),
{
    if a.len() == 0 {
        assert(a + b =~= b);
    } else {
        assert((a + b).skip(1) =~= a.skip(1) + b);
        if entries.contains_key((ino, a[0])) {
            walk_joins(entries, entries[(ino, a[0])], a.skip(1), b);
        }
    }
}

/// A way of which the last step is known.
pub proof fn walk_last(
    entries: Map<(i64, Seq<char>), i64>,
    ino: i64,
    dir: Seq<Seq<char>>,
    name: Seq<char>,
)
    ensures
        store::walk(entries, ino, dir.push(name)) == (match store::walk(entries, ino, dir) {
            Some(mid) => if entries.contains_key((mid, name)) {
                Some(entries[(mid, name)])
            } else {
                None
            },
            None => None,
        }),
{
    assert(dir.push(name) =~= dir + seq![name]);
    walk_joins(entries, ino, dir, seq![name]);
    if let Some(mid) = store::walk(entries, ino, dir) {
        if entries.contains_key((mid, name)) {
            assert(seq![name].skip(1) =~= Seq::<Seq<char>>::empty());
            assert(seq![name][0] == name);
            assert(store::walk(entries, entries[(mid, name)], seq![name].skip(1)) == Some(
                entries[(mid, name)],
            ));
        }
        assert(seq![name].len() == 1 && seq![name][0] == name);
    }
}

/// Where a way leads does not change as entries are added.
pub proof fn walk_grows(
    entries: Map<(i64, Seq<char>), i64>,
    more: Map<(i64, Seq<char>), i64>,
    ino: i64,
    parts: Seq<Seq<char>>,
)
    requires
        entries.submap_of(more),
        store::walk(entries, ino, parts) is Some,
    ensures
        store::walk(more, ino, parts) == store::walk(entries, ino, parts),
    decreases parts.len(),
{
    if parts.len() > 0 {
        let key = (ino, parts[0]);
        assert(entries.dom().contains(key));
        assert(more.dom().contains(key) && more[key] == entries[key]);
        walk_grows(entries, more, entries[key], parts.skip(1));
    }
}

/// A directory is at a path.
pub open spec fn dir_at(s: Store, p: Seq<char>, ino: i64) -> bool {
    &&& s.at(p) == Some(ino)
    &&& s.attrs.contains_key(ino)
    &&& s.attrs[ino].kind == FileType::Dir
}

/// The parts of a path other than the root: its directory and its name.
pub proof fn split_path(s: Store, p: Seq<char>)
    requires
        path::normalize(p) != path::root(),
    ensures
        ({
            let n = path::normalize(p);
            &&& path::components(path::parent(n)).push(path::file_name(n)) == path::components(p)
            &&& path::file_name(n).len() > 0
            &&& s.at(n) == s.at(p)
            &&& s.at(p) == (match s.at(path::parent(n)) {
                Some(dir) => if s.entries.contains_key((dir, path::file_name(n))) {
                    Some(s.entries[(dir, path::file_name(n))])
                } else {
                    None
                },
                None => None,
            })
        }),
{
    path::split_of_normalized(p);
    path::normalize_keeps_components(p);
    let n = path::normalize(p);
    walk_last(s.entries, s.root_ino, path::components(path::parent(n)), path::file_name(n));
}

pub proof fn parent_dir_runs(w: World, root_ino: i64, dir: Seq<char>, must_be_dir: bool, ino: i64)
    requires
        w.store.root_ino == root_ino,
        w.store.at(dir) == Some(ino),
        must_be_dir ==> w.store.attrs[ino].kind == FileType::Dir,
    ensures
        run::run(store::services(), w, lookup::parent_dir(root_ino, dir, must_be_dir)) == (
            w,
            Ok::<i64, SpecError>(ino),
        ),
{
    reveal_with_fuel(run::run, 2);
    path::lemma_no_components();
}

/// Nothing is at a path whose entry is taken away.
pub proof fn at_after_remove(s: Store, t: Store, p: Seq<char>, parent: i64)
    requires
        path::normalize(p) != path::root(),
        s.at(path::parent(path::normalize(p))) == Some(parent),
        t.root_ino == s.root_ino,
        t.entries == s.entries.remove((parent, path::file_name(path::normalize(p)))),
    ensures
        t.at(p) is None,
{
    let n = path::normalize(p);
    split_path(t, p);
    if t.at(path::parent(n)) is Some {
        assert(t.entries.submap_of(s.entries));
        walk_grows(t.entries, s.entries, s.root_ino, path::components(path::parent(n)));
    }
}

pub proof fn unlink_entry_runs(w: World, path: Seq<char>, name: Seq<char>, parent: i64, ino: i64)
    requires
        w.store.entries.contains_key((parent, name)),
        w.store.entries[(parent, name)] == ino,
        w.store.attrs.contains_key(ino),
        w.store.attrs[ino].kind != FileType::Dir,
    ensures
        run::run(store::services(), w, remove::unlink_entry(path, name, parent)) == (
            World { store: w.store.after(MetaRequest::Unlink { parent, name }), ..w },
            Ok::<(), SpecError>(()),
        ),
{
    let sv = store::services();
    let s = remove::unlink_entry(path, name, parent);
    let s1 = remove::unlink_kind(path, name, parent, ino);
    let s2 = remove::unlink_now(path, name, parent);
    assert(sv(w, s->Ask_0) == (w, SpecReply::Child(Ok(Some(ino)))));
    assert(run::run(sv, w, s) == run::run(sv, w, s1));
    assert(sv(w, s1->Ask_0) == (w, SpecReply::Attr(Ok(Some(w.store.attrs[ino])))));
    assert(run::run(sv, w, s1) == run::run(sv, w, s2));
    run::run_unit(sv, w, s2);
}

/// After `unlink` of something that is no directory, nothing is at its path. Its inode has one link
/// less, contents stay as they are, and other paths, such as a second name, lead where they led.
pub proof fn unlink_removes(w: World, log: bool, path: Seq<char>, parent: i64, ino: i64)
    requires
        path::normalize(path) != path::root(),
        dir_at(w.store, path::parent(path::normalize(path)), parent),
        w.store.at(path) == Some(ino),
        w.store.attrs.contains_key(ino),
        w.store.attrs[ino].kind != FileType::Dir,
    ensures
        ({
            let (w1, r) = run::run(
                store::services(),
                w,
                remove::logged_unlink(log, w.store.root_ino, path),
            );
            let attr = w.store.attrs[ino];
            &&& r == Ok::<(), SpecError>(())
            &&& w1.store.at(path) is None
            &&& w1.store.attrs == w.store.attrs.insert(
                ino,
                FileAttr { nlink: (attr.nlink - 1) as u32, ..attr },
            )
            &&& w1 == World {
                store: Store {
                    entries: w.store.entries.remove(
                        (parent, path::file_name(path::normalize(path))),
                    ),
                    attrs: w1.store.attrs,
                    ..w.store
                },
                ..w
            }
            &&& w.store.is_tree() ==> forall|q: Seq<char>|
                path::components(q) != path::components(path) ==> #[trigger] w1.store.at(q)
                    == w.store.at(q)
        }),
{
    let sv = store::services();
    let n = path::normalize(path);
    let name = path::file_name(n);
    let root_ino = w.store.root_ino;
    split_path(w.store, path);
    contents::store_ignores_log();
    run::logging_changes_nothing(sv, w, log, "unlink"@, n, remove::unlink(root_ino, n));
    parent_dir_runs(w, root_ino, path::parent(n), true, parent);
    run::run_and_next(
        sv,
        w,
        lookup::parent_dir(root_ino, path::parent(n), true),
        |parent: i64| remove::unlink_entry(n, path::file_name(n), parent),
    );
    unlink_entry_runs(w, n, name, parent, ino);
    let w1 = run::run(sv, w, remove::unlink(root_ino, n)).0;
    at_after_remove(w.store, w1.store, path, parent);
    if w.store.is_tree() {
        assert(w1.store.entries.remove((parent, name)) =~= w.store.entries.remove((parent, name)));
        shape::entry_changed(w.store, w1.store, path, parent);
        assert forall|q: Seq<char>|
            path::components(q) != path::components(path) implies #[trigger] w1.store.at(q)
            == w.store.at(q) by {
            if shape::within(path, q) {
                shape::nothing_below(w1.store, path::components(path), path::components(q));
                if w.store.at(q) is Some {
                    shape::below_dir(
                        w.store,
                        path::components(path),
                        ino,
                        path::components(q),
                    );
                }
            }
        }
    }
}

pub proof fn rmdir_entry_runs(w: World, path: Seq<char>, name: Seq<char>, parent: i64, ino: i64)
    requires
        w.store.entries.contains_key((parent, name)),
        w.store.entries[(parent, name)] == ino,
        w.store.attrs.contains_key(ino),
        w.store.attrs[ino].kind == FileType::Dir,
    ensures
        run::run(store::services(), w, remove::rmdir_entry(path, name, parent)) == (
            if w.store.listing(ino).len() > 0 {
                (
                    w,
                    Err::<(), SpecError>(
                        FsError { kind: ErrorKind::DirectoryNotEmpty, message: path },
                    ),
                )
            } else {
                (
                    World { store: w.store.after(MetaRequest::Rmdir { parent, name }), ..w },
                    Ok::<(), SpecError>(()),
                )
            }
        ),
{
    let sv = store::services();
    let children = w.store.listing(ino);
    let s = remove::rmdir_entry(path, name, parent);
    let s1 = remove::rmdir_kind(path, name, parent, ino);
    let s2 = remove::rmdir_children(path, name, parent, ino);
    let s3 = remove::rmdir_now(path, name, parent);
    assert(sv(w, s->Ask_0) == (w, SpecReply::Child(Ok(Some(ino)))));
    assert(run::run(sv, w, s) == run::run(sv, w, s1));
    assert(sv(w, s1->Ask_0) == (w, SpecReply::Attr(Ok(Some(w.store.attrs[ino])))));
    assert(run::run(sv, w, s1) == run::run(sv, w, s2));
    assert(sv(w, s2->Ask_0) == (w, SpecReply::Entries(Ok(children))));
    if children.len() == 0 {
        assert(run::run(sv, w, s2) == run::run(sv, w, s3));
        run::run_unit(sv, w, s3);
    } else {
        let full: Script<()> = script::fail(ErrorKind::DirectoryNotEmpty, path);
        assert((s2->Ask_1)(SpecReply::Entries(Ok(children))) == full);
        assert(run::run(sv, w, s2) == run::run(sv, w, full));
    }
}

/// After `rmdir` of an empty directory, nothing is at its path, and paths elsewhere lead where they
/// led.
pub proof fn rmdir_removes(w: World, log: bool, path: Seq<char>, parent: i64, ino: i64)
    requires
        path::normalize(path) != path::root(),
        dir_at(w.store, path::parent(path::normalize(path)), parent),
        dir_at(w.store, path, ino),
        w.store.listing(ino).len() == 0,
    ensures
        ({
            let (w1, r) = run::run(
                store::services(),
                w,
                remove::logged_rmdir(log, w.store.root_ino, path),
            );
            &&& r == Ok::<(), SpecError>(())
            &&& w1.store.at(path) is None
            &&& w1 == World {
                store: Store {
                    entries: w.store.entries.remove(
                        (parent, path::file_name(path::normalize(path))),
                    ),
                    ..w.store
                },
                ..w
            }
            &&& w.store.is_tree() ==> shape::same_outside(w.store, w1.store, path)
        }),
{
    let sv = store::services();
    let n = path::normalize(path);
    let root_ino = w.store.root_ino;
    split_path(w.store, path);
    contents::store_ignores_log();
    run::logging_changes_nothing(sv, w, log, "rmdir"@, n, remove::rmdir(root_ino, n));
    parent_dir_runs(w, root_ino, path::parent(n), true, parent);
    run::run_and_next(
        sv,
        w,
        lookup::parent_dir(root_ino, path::parent(n), true),
        |parent: i64| remove::rmdir_entry(n, path::file_name(n), parent),
    );
    rmdir_entry_runs(w, n, path::file_name(n), parent, ino);
    let w1 = run::run(sv, w, remove::rmdir(root_ino, n)).0;
    at_after_remove(w.store, w1.store, path, parent);
    if w.store.is_tree() {
        let key = (parent, path::file_name(n));
        assert(w1.store.entries.remove(key) =~= w.store.entries.remove(key));
        shape::entry_changed(w.store, w1.store, path, parent);
    }
}

/// `rmdir` of a directory that is not empty fails, and changes nothing.
pub proof fn rmdir_refuses_full(w: World, log: bool, path: Seq<char>, parent: i64, ino: i64)
    requires
        path::normalize(path) != path::root(),
        dir_at(w.store, path::parent(path::normalize(path)), parent),
        dir_at(w.store, path, ino),
        w.store.listing(ino).len() > 0,
    ensures
        run::run(
            store::services(),
            w,
            remove::logged_rmdir(log, w.store.root_ino, path),
        ) == (
            w,
            Err::<(), SpecError>(
                FsError { kind: ErrorKind::DirectoryNotEmpty, message: path::normalize(path) },
            ),
        ),
{
    let sv = store::services();
    let n = path::normalize(path);
    let root_ino = w.store.root_ino;
    split_path(w.store, path);
    contents::store_ignores_log();
    run::logging_changes_nothing(sv, w, log, "rmdir"@, n, remove::rmdir(root_ino, n));
    parent_dir_runs(w, root_ino, path::parent(n), true, parent);
    run::run_and_next(
        sv,
        w,
        lookup::parent_dir(root_ino, path::parent(n), true),
        |parent: i64| remove::rmdir_entry(n, path::file_name(n), parent),
    );
    rmdir_entry_runs(w, n, path::file_name(n), parent, ino);
}

/// Whether a path exists is whether it leads anywhere.
pub proof fn exists_tells(w: World, path: Seq<char>)
    ensures
        run::run(store::services(), w, attr::path_exists(path)) == (
            w,
            Ok::<bool, SpecError>(w.store.at(path) is Some),
        ),
{
    reveal_with_fuel(run::run, 2);
}

/// `lstat` gives what is at a path.
pub proof fn lstat_runs(w: World, log: bool, path: Seq<char>, ino: i64)
    requires
        w.store.at(path) == Some(ino),
        w.store.attrs.contains_key(ino),
    ensures
        ({
            let (w1, r) = run::run(store::services(), w, fs::logged_lstat(log, path));
            &&& w1 == w
            &&& r matches Ok(info) && info.attr == w.store.attrs[ino] && info.inode
                == w.store.attrs[ino].ino && is_name_of(info.name, path)
        }),
{
    let sv = store::services();
    let n = path::normalize(path);
    path::normalize_keeps_components(path);
    contents::store_ignores_log();
    run::logging_changes_nothing(sv, w, log, "lstat"@, n, lookup::resolve(n, false));
    contents::resolve_runs(w, n, false, ino);
    name_is_last(path);
}

/// A path is named by its last component; the root is without a name.
pub open spec fn is_name_of(name: Seq<char>, path: Seq<char>) -> bool {
    let parts = path::components(path);
    if parts.len() == 0 {
        name.len() == 0
    } else {
        name == parts.last()
    }
}

/// The last segment of a normal form is the last component.
pub proof fn name_is_last(path: Seq<char>)
    ensures
        is_name_of(path::last_segment(path::normalize(path)), path),
{
    let n = path::normalize(path);
    path::normalize_keeps_components(path);
    path::lemma_no_components();
    if path::components(path).len() == 0 {
        reveal_with_fuel(path::last_slash, 2);
    } else {
        if n == path::root() {
            assert(path::components(n).len() == 0);
        }
        path::split_of_normalized(path);
    }
}

/// `lstat` gives the attributes of what is at a path, and `stat` those of what is behind it, both
/// under the last component of the path as its name.
pub proof fn stat_tells(w: World, log: bool, path: Seq<char>, ino: i64, target: i64)
    requires
        w.store.at(path) == Some(ino),
        w.store.attrs.contains_key(ino),
        w.store.behind(path) == Some(target),
        w.store.attrs.contains_key(target),
    ensures
        ({
            let sv = store::services();
            let (w1, l) = run::run(sv, w, fs::logged_lstat(log, path));
            let (w2, s) = run::run(sv, w, fs::logged_stat(log, path));
            &&& w1 == w
            &&& w2 == w
            &&& l matches Ok(info) && info.attr == w.store.attrs[ino] && info.inode
                == w.store.attrs[ino].ino && is_name_of(info.name, path)
            &&& s matches Ok(info) && info.attr == w.store.attrs[target] && info.inode
                == w.store.attrs[target].ino && is_name_of(info.name, path)
        }),
{
    let sv = store::services();
    let n = path::normalize(path);
    path::normalize_keeps_components(path);
    contents::store_ignores_log();
    run::logging_changes_nothing(sv, w, log, "lstat"@, n, lookup::resolve(n, false));
    run::logging_changes_nothing(sv, w, log, "stat"@, n, lookup::resolve(n, true));
    contents::resolve_runs(w, n, true, target);
    contents::resolve_runs(w, n, false, ino);
    name_is_last(path);
}

/// An error says that a path was not found: it names the path, and says what the metadata service
/// said.
pub open spec fn is_missed(e: SpecError, path: Seq<char>) -> bool {
    &&& e.kind == ErrorKind::NotFound
    &&& e.message == path::normalize(path) + ": "@ + "not found"@
}

/// `stat` and `lstat` of a path that leads nowhere fail with `NotFound`.
pub proof fn stat_misses(w: World, log: bool, path: Seq<char>)
    requires
        w.store.at(path) is None,
    ensures
        ({
            let (w1, r) = run::run(store::services(), w, fs::logged_stat(log, path));
            let (w2, l) = run::run(store::services(), w, fs::logged_lstat(log, path));
            &&& w1 == w
            &&& w2 == w
            &&& r matches Err(e) && is_missed(e, path)
            &&& l matches Err(e) && is_missed(e, path)
        }),
{
    let sv = store::services();
    let n = path::normalize(path);
    path::normalize_keeps_components(path);
    contents::store_ignores_log();
    run::logging_changes_nothing(sv, w, log, "stat"@, n, lookup::resolve(n, true));
    run::logging_changes_nothing(sv, w, log, "lstat"@, n, lookup::resolve(n, false));
    reveal_with_fuel(run::run, 2);
}

/// `stat` of a symbolic link that leads nowhere fails with `NotFound`.
pub proof fn stat_misses_targets(w: World, log: bool, path: Seq<char>)
    requires
        w.store.behind(path) is None,
    ensures
        ({
            let (w1, r) = run::run(store::services(), w, fs::logged_stat(log, path));
            &&& w1 == w
            &&& r matches Err(e) && is_missed(e, path)
        }),
{
    let sv = store::services();
    let n = path::normalize(path);
    path::normalize_keeps_components(path);
    contents::store_ignores_log();
    run::logging_changes_nothing(sv, w, log, "stat"@, n, lookup::resolve(n, true));
    reveal_with_fuel(run::run, 2);
}

/// An inode that has vanished is not found, under the path that led to it.
pub proof fn stat_misses_inodes(w: World, log: bool, path: Seq<char>)
    requires
        w.store.at(path) is Some,
        !w.store.attrs.contains_key(w.store.at(path)->Some_0),
    ensures
        run::run(store::services(), w, fs::logged_lstat(log, path)) == (
            w,
            Err::<FileStat<Seq<char>>, SpecError>(
                FsError {
                    kind: ErrorKind::NotFound,
                    message: path::normalize(path) + ": not found"@,
                },
            ),
        ),
{
    let sv = store::services();
    let n = path::normalize(path);
    path::normalize_keeps_components(path);
    contents::store_ignores_log();
    run::logging_changes_nothing(sv, w, log, "lstat"@, n, lookup::resolve(n, false));
    reveal_with_fuel(run::run, 3);
}

/// What is put at a path is there, and what was there stays.
pub proof fn at_after_insert(s: Store, t: Store, p: Seq<char>, parent: i64, ino: i64)
    requires
        path::normalize(p) != path::root(),
        s.at(path::parent(path::normalize(p))) == Some(parent),
        !s.entries.contains_key((parent, path::file_name(path::normalize(p)))),
        t.root_ino == s.root_ino,
        t.entries == s.entries.insert((parent, path::file_name(path::normalize(p))), ino),
    ensures
        t.at(p) == Some(ino),
        t.at(path::parent(path::normalize(p))) == Some(parent),
        forall|q: Seq<char>| (#[trigger] s.at(q)) is Some ==> t.at(q) == s.at(q),
{
    let n = path::normalize(p);
    split_path(t, p);
    assert(s.entries.submap_of(t.entries));
    walk_grows(s.entries, t.entries, s.root_ino, path::components(path::parent(n)));
    assert forall|q: Seq<char>| (#[trigger] s.at(q)) is Some implies t.at(q) == s.at(q) by {
        walk_grows(s.entries, t.entries, s.root_ino, path::components(q));
    }
}

proof fn mkdir_entry_runs(w: World, path: Seq<char>, name: Seq<char>, parent: i64)
    ensures
        ({
            let (w1, r) = run::run(store::services(), w, mkdir::mkdir_entry(path, name, parent));
            if !w.store.entries.contains_key((parent, name)) {
                &&& w1 == World { store: w.store.with_new(parent, name, FileType::Dir), ..w }
                &&& r == Ok::<(), SpecError>(())
            } else {
                let ino = w.store.entries[(parent, name)];
                w.store.attrs.contains_key(ino) && w.store.attrs[ino].kind == FileType::Dir ==> {
                    &&& w1 == w
                    &&& r == Ok::<(), SpecError>(())
                }
            }
        }),
{
    let sv = store::services();
    let s = mkdir::mkdir_entry(path, name, parent);
    let done = Script::<()>::Done(Ok(()));
    if !w.store.entries.contains_key((parent, name)) {
        let s1 = mkdir::mkdir_now(path, name, parent);
        assert(sv(w, s->Ask_0) == (w, SpecReply::Child(Ok(None))));
        assert(run::run(sv, w, s) == run::run(sv, w, s1));
        let w1 = World { store: w.store.with_new(parent, name, FileType::Dir), ..w };
        let reply = SpecReply::Inode(Ok(w.store.fresh()));
        assert(sv(w, s1->Ask_0) == (w1, reply));
        assert((s1->Ask_1)(reply) == done);
        assert(run::run(sv, w, s1) == run::run(sv, w1, done));
    } else {
        let ino = w.store.entries[(parent, name)];
        let s1 = mkdir::mkdir_existing(path, ino);
        assert(sv(w, s->Ask_0) == (w, SpecReply::Child(Ok(Some(ino)))));
        assert(run::run(sv, w, s) == run::run(sv, w, s1));
        if w.store.attrs.contains_key(ino) && w.store.attrs[ino].kind == FileType::Dir {
            let reply = SpecReply::Attr(Ok(Some(w.store.attrs[ino])));
            assert(sv(w, s1->Ask_0) == (w, reply));
            assert((s1->Ask_1)(reply) == done);
            assert(run::run(sv, w, s1) == run::run(sv, w, done));
        }
    }
}

/// `mkdir` where nothing is makes a directory there, and what was elsewhere stays.
pub proof fn mkdir_makes(w: World, log: bool, path: Seq<char>, parent: i64)
    requires
        path::normalize(path) != path::root(),
        dir_at(w.store, path::parent(path::normalize(path)), parent),
        w.store.at(path) is None,
    ensures
        ({
            let (w1, r) = run::run(
                store::services(),
                w,
                fs::logged_mkdir(log, w.store.root_ino, path),
            );
            &&& r == Ok::<(), SpecError>(())
            &&& w1 == World {
                store: w.store.with_new(
                    parent,
                    path::file_name(path::normalize(path)),
                    FileType::Dir,
                ),
                ..w
            }
            &&& dir_at(w1.store, path, w.store.fresh())
            &&& forall|q: Seq<char>|
                (#[trigger] w.store.at(q)) is Some ==> w1.store.at(q) == w.store.at(q)
        }),
{
    let sv = store::services();
    let n = path::normalize(path);
    let root_ino = w.store.root_ino;
    split_path(w.store, path);
    contents::store_ignores_log();
    run::logging_changes_nothing(sv, w, log, "mkdir"@, n, mkdir::mkdir(root_ino, n));
    parent_dir_runs(w, root_ino, path::parent(n), true, parent);
    run::run_and_next(
        sv,
        w,
        lookup::parent_dir(root_ino, path::parent(n), true),
        |parent: i64| mkdir::mkdir_entry(n, path::file_name(n), parent),
    );
    mkdir_entry_runs(w, n, path::file_name(n), parent);
    let w1 = run::run(sv, w, mkdir::mkdir(root_ino, n)).0;
    at_after_insert(w.store, w1.store, path, parent, w.store.fresh());
}

/// `mkdir` of a directory that is there succeeds, and changes nothing.
pub proof fn mkdir_keeps(w: World, log: bool, path: Seq<char>, parent: i64, ino: i64)
    requires
        path::normalize(path) != path::root(),
        dir_at(w.store, path::parent(path::normalize(path)), parent),
        dir_at(w.store, path, ino),
    ensures
        run::run(store::services(), w, fs::logged_mkdir(log, w.store.root_ino, path)) == (
            w,
            Ok::<(), SpecError>(()),
        ),
{
    let sv = store::services();
    let n = path::normalize(path);
    let root_ino = w.store.root_ino;
    split_path(w.store, path);
    contents::store_ignores_log();
    run::logging_changes_nothing(sv, w, log, "mkdir"@, n, mkdir::mkdir(root_ino, n));
    parent_dir_runs(w, root_ino, path::parent(n), true, parent);
    run::run_and_next(
        sv,
        w,
        lookup::parent_dir(root_ino, path::parent(n), true),
        |parent: i64| mkdir::mkdir_entry(n, path::file_name(n), parent),
    );
    mkdir_entry_runs(w, n, path::file_name(n), parent);
}

proof fn place_runs(
    w: World,
    root_ino: i64,
    spot: Spot<Seq<char>>,
    new_link: NewLink<Seq<char>>,
    parent: i64,
)
    requires
        spot.name.len() > 0,
        w.store.root_ino == root_ino,
        dir_at(w.store, spot.dir, parent),
        !w.store.entries.contains_key((parent, spot.name)),
    ensures
        run::run(store::services(), w, link::place(root_ino, spot, new_link)) == (
            store::services()(w, new_link.request(parent, spot.name)).0,
            Ok::<(), SpecError>(()),
        ),
{
    let sv = store::services();
    parent_dir_runs(w, root_ino, spot.dir, false, parent);
    run::run_and_next(
        sv,
        w,
        lookup::parent_dir(root_ino, spot.dir, false),
        |parent: i64| link::place_parent(spot, new_link, parent),
    );
    let s = link::place_parent(spot, new_link, parent);
    let s1 = link::place_entry(spot, new_link, parent);
    let s2 = link::place_now(spot, new_link, parent);
    assert(sv(w, s->Ask_0) == (w, SpecReply::Attr(Ok(Some(w.store.attrs[parent])))));
    assert(run::run(sv, w, s) == run::run(sv, w, s1));
    assert(sv(w, s1->Ask_0) == (w, SpecReply::Child(Ok(None))));
    assert(run::run(sv, w, s1) == run::run(sv, w, s2));
    run::run_unit(sv, w, s2);
}

proof fn readlink_runs(w: World, path: Seq<char>, ino: i64)
    requires
        w.store.at(path) == Some(ino),
        w.store.attrs[ino].kind == FileType::Symlink,
    ensures
        run::run(store::services(), w, link::readlink(path)) == (
            w,
            Ok::<Seq<char>, SpecError>(w.store.targets[ino]),
        ),
{
    reveal_with_fuel(run::run, 3);
}

/// `symlink` where nothing is makes a symbolic link there, and `readlink` gives its target.
pub proof fn readlink_after_symlink(
    w: World,
    log: bool,
    path: Seq<char>,
    target: Seq<char>,
    parent: i64,
)
    requires
        path::normalize(path) != path::root(),
        dir_at(w.store, path::parent(path::normalize(path)), parent),
        w.store.at(path) is None,
    ensures
        ({
            let sv = store::services();
            let (w1, r) = run::run(
                sv,
                w,
                fs::logged_symlink(log, w.store.root_ino, path, target),
            );
            let ino = w.store.fresh();
            &&& r == Ok::<(), SpecError>(())
            &&& w1.store.at(path) == Some(ino)
            &&& w1.store.attrs == w.store.attrs.insert(
                ino,
                store::new_attr(ino, FileType::Symlink),
            )
            &&& w1.store.targets == w.store.targets.insert(ino, target)
            &&& w1 == World {
                store: Store {
                    entries: w.store.entries.insert(
                        (parent, path::file_name(path::normalize(path))),
                        ino,
                    ),
                    attrs: w1.store.attrs,
                    targets: w1.store.targets,
                    ..w.store
                },
                ..w
            }
            &&& forall|q: Seq<char>|
                (#[trigger] w.store.at(q)) is Some ==> w1.store.at(q) == w.store.at(q)
            &&& w1.store.behind(path) == w1.store.at(target)
            &&& run::run(sv, w1, fs::logged_readlink(log, path)) == (
                w1,
                Ok::<Seq<char>, SpecError>(target),
            )
        }),
{
    let sv = store::services();
    let n = path::normalize(path);
    let root_ino = w.store.root_ino;
    let spot = Spot::of(n);
    let new_link = NewLink::Symbolic { target };
    split_path(w.store, path);
    contents::store_ignores_log();
    run::logging_changes_nothing(
        sv,
        w,
        log,
        "symlink"@,
        fs::arrow(n, target),
        link::symlink(root_ino, n, target),
    );
    place_runs(w, root_ino, spot, new_link, parent);
    let w1 = run::run(sv, w, link::symlink(root_ino, n, target)).0;
    at_after_insert(w.store, w1.store, path, parent, w.store.fresh());
    split_path(w1.store, path);
    run::logging_changes_nothing(sv, w1, log, "readlink"@, n, link::readlink(n));
    readlink_runs(w1, n, w.store.fresh());
}

/// `link` where nothing is gives a file a second name: both paths lead to the same inode, which
/// has one link more.
pub proof fn link_shares_the_inode(
    w: World,
    log: bool,
    existing: Seq<char>,
    path: Seq<char>,
    parent: i64,
    ino: i64,
)
    requires
        path::normalize(existing) != path::root(),
        path::normalize(path) != path::root(),
        w.store.at(existing) == Some(ino),
        w.store.attrs.contains_key(ino),
        w.store.attrs[ino].kind != FileType::Dir,
        w.store.attrs[ino].nlink < u32::MAX,
        dir_at(w.store, path::parent(path::normalize(path)), parent),
        w.store.at(path) is None,
    ensures
        ({
            let (w1, r) = run::run(
                store::services(),
                w,
                fs::logged_link(log, w.store.root_ino, existing, path),
            );
            &&& r == Ok::<(), SpecError>(())
            &&& w1.store.at(path) == Some(ino)
            &&& w1.store.at(existing) == Some(ino)
            &&& w1.store.attrs == w.store.attrs.insert(
                ino,
                FileAttr {
                    nlink: (w.store.attrs[ino].nlink + 1) as u32,
                    ..w.store.attrs[ino]
                },
            )
            &&& w1 == World {
                store: Store {
                    entries: w.store.entries.insert(
                        (parent, path::file_name(path::normalize(path))),
                        ino,
                    ),
                    attrs: w1.store.attrs,
                    ..w.store
                },
                ..w
            }
            &&& forall|q: Seq<char>|
                (#[trigger] w.store.at(q)) is Some ==> w1.store.at(q) == w.store.at(q)
        }),
{
    let sv = store::services();
    let e = path::normalize(existing);
    let n = path::normalize(path);
    let root_ino = w.store.root_ino;
    let spot = Spot::of(n);
    let new_link = NewLink::Hard { ino };
    path::normalize_keeps_components(existing);
    split_path(w.store, path);
    contents::store_ignores_log();
    let inner = link::link(root_ino, e, n);
    run::logging_changes_nothing(sv, w, log, "link"@, fs::arrow(e, n), inner);
    place_runs(w, root_ino, spot, new_link, parent);
    assert(run::run(sv, w, inner) == run::run(sv, w, link::place(root_ino, spot, new_link))) by {
        let s = link::link_source(root_ino, e, spot);
        let reply = SpecReply::Entry(Ok(Some((ino, w.store.attrs[ino].kind))));
        assert(sv(w, s->Ask_0) == (w, reply));
        assert((s->Ask_1)(reply) == link::place(root_ino, spot, new_link));
    }
    let w1 = run::run(sv, w, inner).0;
    at_after_insert(w.store, w1.store, path, parent, ino);
}

proof fn create_entry_runs(
    w: World,
    path: Seq<char>,
    name: Seq<char>,
    create_new: bool,
    parent: i64,
)
    requires
        !w.store.entries.contains_key((parent, name)),
    ensures
        run::run(
            store::services(),
            w,
            create::create_in_dir_entry(path, name, create_new, parent),
        ) == (
            World { store: w.store.with_new(parent, name, FileType::File), ..w },
            Ok::<i64, SpecError>(w.store.fresh()),
        ),
{
    let sv = store::services();
    let s = create::create_in_dir_entry(path, name, create_new, parent);
    let s1 = create::create_now(path, name, parent);
    assert(sv(w, s->Ask_0) == (w, SpecReply::Child(Ok(None))));
    assert(run::run(sv, w, s) == run::run(sv, w, s1));
    let w1 = World { store: w.store.with_new(parent, name, FileType::File), ..w };
    let reply = SpecReply::Inode(Ok(w.store.fresh()));
    let done = Script::<i64>::Done(Ok(w.store.fresh()));
    assert(sv(w, s1->Ask_0) == (w1, reply));
    assert((s1->Ask_1)(reply) == done);
    assert(run::run(sv, w, s1) == run::run(sv, w1, done));
}

/// Creating a new file where nothing is makes an empty file there.
pub proof fn create_makes(w: World, path: Seq<char>, parent: i64, create_new: bool)
    requires
        path::normalize(path) != path::root(),
        dir_at(w.store, path::parent(path::normalize(path)), parent),
        w.store.at(path) is None,
    ensures
        ({
            let n = path::normalize(path);
            let (w1, r) = run::run(
                store::services(),
                w,
                create::create_in_dir(w.store.root_ino, Spot::of(n), create_new),
            );
            let ino = w.store.fresh();
            &&& r == Ok::<i64, SpecError>(ino)
            &&& w1 == World {
                store: w.store.with_new(parent, path::file_name(n), FileType::File),
                ..w
            }
            &&& w1.store.at(path) == Some(ino)
            &&& w1.store.attrs[ino].kind == FileType::File
            &&& w1.store.attrs[ino].size == 0
            &&& w1.store.bytes(ino) == Seq::<u8>::empty()
            &&& forall|q: Seq<char>|
                (#[trigger] w.store.at(q)) is Some ==> w1.store.at(q) == w.store.at(q)
        }),
{
    let sv = store::services();
    let n = path::normalize(path);
    let root_ino = w.store.root_ino;
    let spot = Spot::of(n);
    split_path(w.store, path);
    parent_dir_runs(w, root_ino, path::parent(n), true, parent);
    run::run_and_next(
        sv,
        w,
        lookup::parent_dir(root_ino, spot.dir, true),
        |parent: i64| create::create_in_dir_entry(spot.path, spot.name, create_new, parent),
    );
    create_entry_runs(w, spot.path, spot.name, create_new, parent);
    let w1 = run::run(sv, w, create::create_in_dir(root_ino, spot, create_new)).0;
    at_after_insert(w.store, w1.store, path, parent, w.store.fresh());
}

} // verus!
