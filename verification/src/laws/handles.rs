//! What opening a file leads to.
use crate::error::{ErrorKind, FsError};
use crate::file::File;
use crate::fs;
use crate::laws::contents;
use crate::laws::names;
use crate::laws::run;
use crate::laws::shape;
use crate::laws::store;
use crate::laws::store::World;
use crate::meta::{FileAttr, FileType};
use crate::ops::attr;
use crate::ops::create;
use crate::ops::lookup;
use crate::ops::open;
use crate::ops::open::Opening;
use crate::path;
use crate::path::Spot;
use crate::script;
use crate::script::{RegistryRequest, Script, SpecError, SpecReply};
use crate::stat::{FileStat, OpenFlags};
use vstd::prelude::*;

verus! {

broadcast use crate::script::group_bind;

/// What resolving a path in a world gives for an inode.
pub open spec fn info_of(w: World, p: Seq<char>, ino: i64) -> FileStat<Seq<char>> {
    FileStat {
        name: path::last_segment(p),
        inode: w.store.attrs[ino].ino,
        attr: w.store.attrs[ino],
    }
}

/// A world in which one more file handle has been numbered.
pub open spec fn numbered(w: World) -> World {
    World { local: w.local.after(RegistryRequest::NextFileId), ..w }
}

proof fn open_handle_runs(w: World, o: Opening<Seq<char>>, info: FileStat<Seq<char>>)
    ensures
        run::run(store::services(), w, open::open_handle(o, info)) == (
            numbered(w),
            Ok::<File<Seq<char>>, SpecError>(
                File::opened(w.local.next_file_id, o.path, info, o.flags, o.log),
            ),
        ),
{
    let sv = store::services();
    let s = open::open_handle(o, info);
    let f = File::opened(w.local.next_file_id, o.path, info, o.flags, o.log);
    let reply = SpecReply::FileId(w.local.next_file_id);
    let done = Script::<File<Seq<char>>>::Done(Ok(f));
    assert(sv(w, s->Ask_0) == (numbered(w), reply));
    assert((s->Ask_1)(reply) == done);
    assert(run::run(sv, w, s) == run::run(sv, numbered(w), done));
}

proof fn open_existing_runs(w: World, o: Opening<Seq<char>>, ino: i64)
    requires
        w.store.behind(o.path) == Some(ino),
        w.store.attrs.contains_key(ino),
        w.store.attrs[ino].kind != FileType::Dir,
    ensures
        !(o.flags.truncate && o.flags.write) ==> run::run(
            store::services(),
            w,
            open::open_existing(o),
        ) == (
            numbered(w),
            Ok::<File<Seq<char>>, SpecError>(
                File::opened(
                    w.local.next_file_id,
                    o.path,
                    info_of(w, o.path, ino),
                    o.flags,
                    o.log,
                ),
            ),
        ),
        o.flags.truncate && o.flags.write && w.store.at(o.path) == Some(ino)
            && w.store.attrs[ino].kind == FileType::File ==> run::run(
            store::services(),
            w,
            open::open_existing(o),
        ) == (
            numbered(
                World {
                    store: w.store.with_size(ino, 0),
                    local: w.local.after(RegistryRequest::UpdateSize { ino, size: 0 }),
                    ..w
                },
            ),
            Ok::<File<Seq<char>>, SpecError>(
                File::opened(
                    w.local.next_file_id,
                    o.path,
                    info_of(w, o.path, ino),
                    o.flags,
                    o.log,
                ),
            ),
        ),
{
    let sv = store::services();
    let info = info_of(w, o.path, ino);
    contents::resolve_runs(w, o.path, true, ino);
    run::run_and_next(
        sv,
        w,
        lookup::resolve(o.path, true),
        |info: FileStat<Seq<char>>| open::open_resolved(o, info),
    );
    if o.flags.truncate && o.flags.write {
        if w.store.at(o.path) == Some(ino) && w.store.attrs[ino].kind == FileType::File {
            let n = path::normalize(o.path);
            let cut = attr::logged_truncate(o.log, o.path, 0);
            path::normalize_keeps_components(o.path);
            contents::store_ignores_log();
            run::logging_changes_nothing(sv, w, o.log, "truncate"@, n, attr::truncate(n, 0));
            contents::truncate_runs(w, n, ino, 0);
            run::run_and_next(sv, w, cut, |u: ()| open::open_handle(o, info));
            let w1 = run::run(sv, w, cut).0;
            open_handle_runs(w1, o, info);
        }
    } else {
        open_handle_runs(w, o, info);
    }
}

/// A handle as it is given when a path is opened that leads to `ino`: at its beginning, with what
/// was asked for, and knowing what the store knows.
pub open spec fn opened_on(
    f: File<Seq<char>>,
    w: World,
    path: Seq<char>,
    flags: OpenFlags,
    log: bool,
    ino: i64,
) -> bool {
    &&& f.id == w.local.next_file_id
    &&& f.path == path::normalize(path)
    &&& f.inode == w.store.attrs[ino].ino
    &&& f.info.inode == w.store.attrs[ino].ino
    &&& f.info.attr == w.store.attrs[ino]
    &&& names::is_name_of(f.info.name, path)
    &&& f.flags == flags
    &&& f.offset == 0
    &&& f.log == log
}

/// A world in which nothing has changed but the number of the next handle, which is another.
pub open spec fn next_numbered(w: World, w1: World) -> bool {
    &&& w1 == World { local: w1.local, ..w }
    &&& w1.local.channels == w.local.channels
    &&& w1.local.next_file_id != w.local.next_file_id
    &&& w.local.next_file_id < u64::MAX ==> w1.local.next_file_id == w.local.next_file_id + 1
}

/// Opening a path that leads to something else than a directory gives a handle on it, at its
/// beginning and with the next number, and changes nothing in the store, unless the flags ask for
/// a new file or an empty one. `lopen` does so for what is at the path, whatever the flags are.
pub proof fn open_gives_a_handle(
    w: World,
    log: bool,
    path: Seq<char>,
    flags: OpenFlags,
    ino: i64,
    target: i64,
)
    requires
        w.store.at(path) == Some(ino),
        w.store.attrs.contains_key(ino),
        w.store.attrs[ino].kind != FileType::Dir,
        w.store.behind(path) == Some(target),
        w.store.attrs.contains_key(target),
        w.store.attrs[target].kind != FileType::Dir,
    ensures
        ({
            let sv = store::services();
            let (w1, r) = run::run(
                sv,
                w,
                fs::logged_open(log, w.store.root_ino, path, flags),
            );
            let (w2, l) = run::run(sv, w, fs::logged_lopen(log, path, flags));
            &&& !(flags.create && flags.exclusive) && !(flags.truncate && flags.write) ==> {
                &&& r matches Ok(f) && opened_on(f, w, path, flags, log, target)
                &&& next_numbered(w, w1)
            }
            &&& l matches Ok(f) && opened_on(f, w, path, flags, log, ino)
            &&& next_numbered(w, w2)
        }),
{
    let sv = store::services();
    let n = path::normalize(path);
    let o = Opening { path: n, flags, log };
    names::name_is_last(path);
    if !(flags.create && flags.exclusive) && !(flags.truncate && flags.write) {
        open_finds(w, log, path, flags, target);
    }
    path::normalize_keeps_components(path);
    contents::store_ignores_log();
    run::logging_changes_nothing(sv, w, log, "lopen"@, n, open::lopen(o));
    contents::resolve_runs(w, n, false, ino);
    run::run_and_next(
        sv,
        w,
        lookup::resolve(n, false),
        |info: FileStat<Seq<char>>| open::lopen_resolved(o, info),
    );
    open_handle_runs(w, o, info_of(w, n, ino));
}

/// A directory is not opened: neither behind a path nor, by `lopen`, at it. A path that leads
/// nowhere is not opened either, unless the file is to be created. Nothing changes.
pub proof fn open_refuses(w: World, log: bool, path: Seq<char>, flags: OpenFlags)
    requires
        w.store.is_tree(),
    ensures
        ({
            let sv = store::services();
            let s = w.store;
            let (w1, r) = run::run(sv, w, fs::logged_open(log, s.root_ino, path, flags));
            let (w2, l) = run::run(sv, w, fs::logged_lopen(log, path, flags));
            let refused = FsError {
                kind: ErrorKind::InvalidInput,
                message: "cannot open directory as file"@,
            };
            &&& s.behind(path) is Some && s.attrs[s.behind(path)->Some_0].kind == FileType::Dir
                && !(flags.create && flags.exclusive) ==> w1 == w && r == Err::<
                File<Seq<char>>,
                SpecError,
            >(refused)
            &&& s.at(path) is Some && s.attrs[s.at(path)->Some_0].kind == FileType::Dir ==> w2 == w
                && l == Err::<File<Seq<char>>, SpecError>(refused)
            &&& s.behind(path) is None && !flags.create ==> w1 == w && (r matches Err(e)
                && names::is_missed(e, path))
            &&& s.at(path) is None ==> w2 == w && (l matches Err(e) && names::is_missed(e, path))
        }),
{
    let sv = store::services();
    let s = w.store;
    let n = path::normalize(path);
    let o = Opening { path: n, flags, log };
    let root_ino = s.root_ino;
    path::normalize_keeps_components(path);
    contents::store_ignores_log();
    run::logging_changes_nothing(sv, w, log, "open"@, n, open::open_file(root_ino, o));
    run::logging_changes_nothing(sv, w, log, "lopen"@, n, open::lopen(o));
    let follow = lookup::resolve(n, true);
    let stay = lookup::resolve(n, false);
    run::run_and_next(
        sv,
        w,
        follow,
        |info: FileStat<Seq<char>>| open::open_resolved(o, info),
    );
    run::run_and_next(sv, w, stay, |info: FileStat<Seq<char>>| open::lopen_resolved(o, info));
    run::run_bind(
        sv,
        w,
        follow,
        |r: Result<FileStat<Seq<char>>, SpecError>|
            open::open_or_create(root_ino, o, Spot::of(o.path), r),
    );
    if s.behind(path) is Some {
        behind_is_known(s, path);
        contents::resolve_runs(w, n, true, s.behind(path)->Some_0);
    } else {
        resolve_misses(w, n);
    }
    if s.at(path) is Some {
        shape::walk_is_known(s, root_ino, path::components(path));
        contents::resolve_runs(w, n, false, s.at(path)->Some_0);
    } else {
        reveal_with_fuel(run::run, 2);
    }
}

/// Opening a path that leads to something else than a directory gives a handle on it, at its
/// beginning and with the next number, and changes nothing in the store, unless the flags ask for
/// a new file or an empty one.
pub proof fn open_finds(w: World, log: bool, path: Seq<char>, flags: OpenFlags, ino: i64)
    requires
        w.store.behind(path) == Some(ino),
        w.store.attrs.contains_key(ino),
        w.store.attrs[ino].kind != FileType::Dir,
        !(flags.create && flags.exclusive),
        !(flags.truncate && flags.write),
    ensures
        run::run(
            store::services(),
            w,
            fs::logged_open(log, w.store.root_ino, path, flags),
        ) == (
            numbered(w),
            Ok::<File<Seq<char>>, SpecError>(
                File::opened(
                    w.local.next_file_id,
                    path::normalize(path),
                    info_of(w, path::normalize(path), ino),
                    flags,
                    log,
                ),
            ),
        ),
{
    let sv = store::services();
    let n = path::normalize(path);
    let o = Opening { path: n, flags, log };
    let root_ino = w.store.root_ino;
    path::normalize_keeps_components(path);
    contents::store_ignores_log();
    run::logging_changes_nothing(sv, w, log, "open"@, n, open::open_file(root_ino, o));
    open_existing_runs(w, o, ino);
    if flags.create {
        contents::resolve_runs(w, n, true, ino);
        run::run_bind(
            sv,
            w,
            lookup::resolve(n, true),
            |r: Result<FileStat<Seq<char>>, SpecError>|
                open::open_or_create(root_ino, o, Spot::of(o.path), r),
        );
    }
}

/// Opening a file to be emptied empties it.
pub proof fn open_empties(w: World, log: bool, path: Seq<char>, flags: OpenFlags, ino: i64)
    requires
        w.holds_file(ino),
        w.store.at(path) == Some(ino),
        !w.store.targets.contains_key(ino),
        !(flags.create && flags.exclusive),
        flags.truncate && flags.write,
    ensures
        ({
            let (w1, r) = run::run(
                store::services(),
                w,
                fs::logged_open(log, w.store.root_ino, path, flags),
            );
            &&& r matches Ok(f) && opened_on(f, w, path, flags, log, ino)
            &&& w1.holds_file(ino)
            &&& w1.store.bytes(ino) == Seq::<u8>::empty()
            &&& w1.store.attrs == w.store.attrs.insert(
                ino,
                FileAttr { size: 0, ..w.store.attrs[ino] },
            )
            &&& store::only_inode(w, w1, ino)
        }),
{
    let sv = store::services();
    let n = path::normalize(path);
    let o = Opening { path: n, flags, log };
    let root_ino = w.store.root_ino;
    path::normalize_keeps_components(path);
    contents::store_ignores_log();
    run::logging_changes_nothing(sv, w, log, "open"@, n, open::open_file(root_ino, o));
    open_existing_runs(w, o, ino);
    if flags.create {
        contents::resolve_runs(w, n, true, ino);
        run::run_bind(
            sv,
            w,
            lookup::resolve(n, true),
            |r: Result<FileStat<Seq<char>>, SpecError>|
                open::open_or_create(root_ino, o, Spot::of(o.path), r),
        );
    }
    assert(store::resized(w.store.bytes(ino), 0) =~= Seq::<u8>::empty());
    names::name_is_last(path);
    contents::resizing_spares_others(w, ino, 0);
    let w0 = World {
        store: w.store.with_size(ino, 0),
        local: w.local.after(RegistryRequest::UpdateSize { ino, size: 0 }),
        ..w
    };
    let w1 = numbered(w0);
    assert forall|other: i64| other != ino implies #[trigger] store::same_inode(w, w1, other) by {
        assert(store::same_inode(w, w0, other));
    }
}

/// What is behind a path is an inode of the store, and then something is at the path.
pub proof fn behind_is_known(s: store::Store, path: Seq<char>)
    requires
        s.is_tree(),
        s.behind(path) is Some,
    ensures
        s.at(path) is Some,
        s.attrs.contains_key(s.behind(path)->Some_0),
{
    let ino = s.at(path)->Some_0;
    shape::walk_is_known(s, s.root_ino, path::components(path));
    if s.targets.contains_key(ino) {
        shape::walk_is_known(s, s.root_ino, path::components(s.targets[ino]));
    }
}

/// A file that has to be new is refused where a path leads to something.
proof fn create_refuses_resolved(
    w: World,
    log: bool,
    path: Seq<char>,
    flags: OpenFlags,
    ino: i64,
)
    requires
        w.store.behind(path) == Some(ino),
        w.store.attrs.contains_key(ino),
        flags.create && flags.exclusive,
    ensures
        run::run(
            store::services(),
            w,
            fs::logged_open(log, w.store.root_ino, path, flags),
        ) == (
            w,
            Err::<File<Seq<char>>, SpecError>(
                FsError { kind: ErrorKind::AlreadyExists, message: "file already exists"@ },
            ),
        ),
{
    let sv = store::services();
    let n = path::normalize(path);
    let o = Opening { path: n, flags, log };
    let root_ino = w.store.root_ino;
    path::normalize_keeps_components(path);
    contents::store_ignores_log();
    run::logging_changes_nothing(sv, w, log, "open"@, n, open::open_file(root_ino, o));
    contents::resolve_runs(w, n, true, ino);
    run::run_bind(
        sv,
        w,
        lookup::resolve(n, true),
        |r: Result<FileStat<Seq<char>>, SpecError>|
            open::open_or_create(root_ino, o, Spot::of(o.path), r),
    );
}

proof fn create_entry_refuses(w: World, path: Seq<char>, name: Seq<char>, parent: i64, ino: i64)
    requires
        w.store.entries.contains_key((parent, name)),
        w.store.entries[(parent, name)] == ino,
        w.store.attrs.contains_key(ino),
        w.store.attrs[ino].kind != FileType::Dir,
    ensures
        run::run(
            store::services(),
            w,
            create::create_in_dir_entry(path, name, true, parent),
        ) == (
            w,
            Err::<i64, SpecError>(FsError { kind: ErrorKind::AlreadyExists, message: path }),
        ),
{
    let sv = store::services();
    let s = create::create_in_dir_entry(path, name, true, parent);
    let s1 = create::create_in_dir_existing(path, true, ino);
    let refused: Script<i64> = script::fail(ErrorKind::AlreadyExists, path);
    assert(sv(w, s->Ask_0) == (w, SpecReply::Child(Ok(Some(ino)))));
    assert((s->Ask_1)(SpecReply::Child(Ok(Some(ino)))) == s1);
    assert(run::run(sv, w, s) == run::run(sv, w, s1));
    let reply = SpecReply::Attr(Ok(Some(w.store.attrs[ino])));
    assert(sv(w, s1->Ask_0) == (w, reply));
    assert((s1->Ask_1)(reply) == refused);
    assert(run::run(sv, w, s1) == run::run(sv, w, refused));
}

/// A file that has to be new is refused where something is, be it a symbolic link that leads
/// nowhere, and nothing changes.
pub proof fn create_refuses_existing(w: World, log: bool, path: Seq<char>, flags: OpenFlags)
    requires
        w.store.linked(),
        w.store.attrs.contains_key(w.store.root_ino),
        w.store.attrs[w.store.root_ino].kind == FileType::Dir,
        w.store.at(path) is Some,
        flags.create && flags.exclusive,
    ensures
        run::run(
            store::services(),
            w,
            fs::logged_open(log, w.store.root_ino, path, flags),
        ) == (
            w,
            Err::<File<Seq<char>>, SpecError>(
                FsError {
                    kind: ErrorKind::AlreadyExists,
                    message: if w.store.behind(path) is Some {
                        "file already exists"@
                    } else {
                        path::normalize(path)
                    },
                },
            ),
        ),
{
    let sv = store::services();
    let n = path::normalize(path);
    let root_ino = w.store.root_ino;
    let ino = w.store.at(path)->Some_0;
    path::normalize_keeps_components(path);
    shape::walk_is_known(w.store, root_ino, path::components(path));
    match w.store.behind(path) {
        Some(end) => {
            if w.store.targets.contains_key(ino) {
                let target = w.store.targets[ino];
                shape::walk_is_known(w.store, root_ino, path::components(target));
            }
            create_refuses_resolved(w, log, path, flags, end);
        },
        None => {
            let o = Opening { path: n, flags, log };
            let spot = Spot::of(n);
            if n == path::root() {
                path::lemma_no_components();
                assert(w.store.at(path) == Some(root_ino));
            }
            names::split_path(w.store, path);
            let parent = w.store.at(path::parent(n))->Some_0;
            assert(w.store.entries.contains_key((parent, spot.name)));
            contents::store_ignores_log();
            run::logging_changes_nothing(sv, w, log, "open"@, n, open::open_file(root_ino, o));
            resolve_misses(w, n);
            run::run_bind(
                sv,
                w,
                lookup::resolve(n, true),
                |r: Result<FileStat<Seq<char>>, SpecError>|
                    open::open_or_create(root_ino, o, Spot::of(o.path), r),
            );
            names::parent_dir_runs(w, root_ino, spot.dir, true, parent);
            run::run_and_next(
                sv,
                w,
                lookup::parent_dir(root_ino, spot.dir, true),
                |parent: i64| create::create_in_dir_entry(spot.path, spot.name, true, parent),
            );
            create_entry_refuses(w, spot.path, spot.name, parent, ino);
            run::run_and_next(
                sv,
                w,
                create::create_in_dir(root_ino, spot, true),
                |ino: i64| open::open_existing(o),
            );
        },
    }
}

/// A path behind which nothing is cannot be resolved.
pub proof fn resolve_misses(w: World, p: Seq<char>)
    requires
        w.store.behind(p) is None,
    ensures
        ({
            let (w1, r) = run::run(store::services(), w, lookup::resolve(p, true));
            &&& w1 == w
            &&& r matches Err(e) && e.kind == ErrorKind::NotFound && e.message == p + ": "@
                + "not found"@
        }),
{
    let sv = store::services();
    let s = lookup::resolve(p, true);
    let reply = SpecReply::Inode(Err(store::absent()));
    let done = Script::<FileStat<Seq<char>>>::Done(
        Err(FsError::from_meta(p, store::absent())),
    );
    assert(sv(w, s->Ask_0) == (w, reply));
    assert((s->Ask_1)(reply) == done);
    assert(run::run(sv, w, s) == run::run(sv, w, done));
}

/// Opening a file to be created, where nothing is, makes an empty file there and gives a handle on
/// it. What was there stays.
pub proof fn open_creates(w: World, log: bool, path: Seq<char>, flags: OpenFlags, parent: i64)
    requires
        path::normalize(path) != path::root(),
        names::dir_at(w.store, path::parent(path::normalize(path)), parent),
        w.store.at(path) is None,
        w.store.linked(),
        store::has_room(w.store.attrs.dom(), 1),
        w.local.channels.wf(),
        !w.local.channels.sizes.contains_key(w.store.fresh()),
        flags.create,
    ensures
        ({
            let (w1, r) = run::run(
                store::services(),
                w,
                fs::logged_open(log, w.store.root_ino, path, flags),
            );
            let ino = w.store.fresh();
            &&& r matches Ok(f) && {
                &&& f.id == w.local.next_file_id
                &&& f.path == path::normalize(path)
                &&& f.inode == ino
                &&& f.info.inode == ino
                &&& f.info.attr == store::new_attr(ino, FileType::File)
                &&& names::is_name_of(f.info.name, path)
                &&& f.flags == flags
                &&& f.offset == 0
                &&& f.log == log
            }
            &&& w1.store.at(path) == Some(ino)
            &&& w1.holds_file(ino)
            &&& w1.store.bytes(ino) == Seq::<u8>::empty()
            &&& w1.store.root_ino == w.store.root_ino
            &&& w1.store.listings == w.store.listings
            &&& w1.store.entries == w.store.entries.insert(
                (parent, path::file_name(path::normalize(path))),
                ino,
            )
            &&& w.store.attrs.submap_of(w1.store.attrs)
        }),
{
    let sv = store::services();
    let n = path::normalize(path);
    let o = Opening { path: n, flags, log };
    let root_ino = w.store.root_ino;
    let ino = w.store.fresh();
    path::normalize_keeps_components(path);
    contents::store_ignores_log();
    run::logging_changes_nothing(sv, w, log, "open"@, n, open::open_file(root_ino, o));
    resolve_misses(w, n);
    run::run_bind(
        sv,
        w,
        lookup::resolve(n, true),
        |r: Result<FileStat<Seq<char>>, SpecError>|
            open::open_or_create(root_ino, o, Spot::of(o.path), r),
    );
    let make = create::create_in_dir(root_ino, Spot::of(n), flags.exclusive);
    names::create_makes(w, path, parent, flags.exclusive);
    run::run_and_next(sv, w, make, |ino: i64| open::open_existing(o));
    let w1 = run::run(sv, w, make).0;
    assert(!w.store.attrs.contains_key(ino));
    assert(w1.store.behind(n) == Some(ino));
    open_existing_runs(w1, o, ino);
    assert(store::resized(w1.store.bytes(ino), 0) =~= Seq::<u8>::empty());
    names::name_is_last(path);
}

} // verus!
