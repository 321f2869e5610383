//! What the client gives and leaves.
use crate::client;
use crate::error::{ErrorKind, FsError};
use crate::fs;
use crate::laws::contents;
use crate::laws::handles;
use crate::laws::names;
use crate::laws::run;
use crate::laws::store;
use crate::laws::store::World;
use crate::laws::ways;
use crate::meta::{FileAttr, FileType};
use crate::ops::adapt;
use crate::ops::create;
use crate::path;
use crate::script::{Script, SpecError};
use crate::stat::FileStat;
use vstd::prelude::*;

verus! {

broadcast use crate::script::group_bind;

/// The client's `stat` gives the attributes of what is behind a path, and its `lstat` those of what
/// is at the path. Neither changes anything.
pub proof fn client_stat_tells(w: World, log: bool, path: Seq<char>, ino: i64, target: i64)
    requires
        w.store.at(path) == Some(ino),
        w.store.attrs.contains_key(ino),
        w.store.behind(path) == Some(target),
        w.store.attrs.contains_key(target),
    ensures
        run::run(store::services(), w, client::stat_attr(log, path)) == (
            w,
            Ok::<FileAttr, SpecError>(w.store.attrs[target]),
        ),
        run::run(store::services(), w, client::lstat_attr(log, path)) == (
            w,
            Ok::<FileAttr, SpecError>(w.store.attrs[ino]),
        ),
{
    let sv = store::services();
    let next = |info: FileStat<Seq<char>>| Script::<FileAttr>::Done(Ok(info.attr));
    names::stat_tells(w, log, path, ino, target);
    run::run_and_next(sv, w, fs::logged_stat(log, path), next);
    run::run_and_next(sv, w, fs::logged_lstat(log, path), next);
}

/// A failed `stat` of the client fails as that of the file system does, and changes nothing.
pub proof fn client_stat_misses(w: World, log: bool, path: Seq<char>)
    requires
        w.store.at(path) is None,
    ensures
        ({
            let (w1, r) = run::run(store::services(), w, client::stat_attr(log, path));
            let (w2, l) = run::run(store::services(), w, client::lstat_attr(log, path));
            &&& w1 == w
            &&& w2 == w
            &&& r matches Err(e) && names::is_missed(e, path)
            &&& l matches Err(e) && names::is_missed(e, path)
        }),
{
    let sv = store::services();
    let next = |info: FileStat<Seq<char>>| Script::<FileAttr>::Done(Ok(info.attr));
    names::stat_misses(w, log, path);
    run::run_and_next(sv, w, fs::logged_stat(log, path), next);
    run::run_and_next(sv, w, fs::logged_lstat(log, path), next);
}

proof fn discarding<T>(w: World, s: Script<T>)
    ensures
        ({
            let sv = store::services();
            let (w1, r) = run::run(sv, w, s);
            run::run(sv, w, adapt::discard(s)) == (
                w1,
                match r {
                    Ok(_) => Ok::<(), SpecError>(()),
                    Err(e) => Err::<(), SpecError>(e),
                },
            )
        }),
{
    run::run_and_next(store::services(), w, s, |v: T| Script::<()>::Done(Ok(())));
}

/// The client's `create` makes a file and the directories above it, and keeps a file that is there
/// as it is.
pub proof fn client_create_makes(w: World, path: Seq<char>)
    requires
        w.store.is_tree(),
        store::has_room(w.store.attrs.dom(), path::components(path).len()),
    ensures
        ({
            let s = w.store;
            let n = path::normalize(path);
            let (w1, r) = run::run(
                store::services(),
                w,
                adapt::discard(create::create_file(s.root_ino, n)),
            );
            match s.at(path) {
                Some(ino) => w1 == w && if s.attrs[ino].kind == FileType::Dir {
                    r == Err::<(), SpecError>(
                        FsError { kind: ErrorKind::IsADirectory, message: n },
                    )
                } else {
                    r == Ok::<(), SpecError>(())
                },
                None => if ways::clear_way(s, s.root_ino, path::components(path::parent(n))) {
                    &&& r == Ok::<(), SpecError>(())
                    &&& w1.store.at(path) is Some
                    &&& ways::file_made(s, w1.store, path, w1.store.at(path)->Some_0)
                } else {
                    &&& w1 == w
                    &&& r matches Err(e) && ways::in_the_way(s, path::parent(n), e)
                },
            }
        }),
{
    ways::create_file_makes(w, path);
    discarding(w, create::create_file(w.store.root_ino, path::normalize(path)));
}

/// `create_file_io` of a file that is there leaves it as it is: neither names nor attributes nor
/// contents change. Where the file has to be new, it is refused.
pub proof fn create_file_io_keeps(w: World, log: bool, path: Seq<char>, ino: i64)
    requires
        w.store.is_tree(),
        w.store.behind(path) == Some(ino),
        w.store.attrs[ino].kind != FileType::Dir,
    ensures
        ({
            let sv = store::services();
            let root_ino = w.store.root_ino;
            let (w1, r) = run::run(
                sv,
                w,
                adapt::discard(
                    fs::logged_open(log, root_ino, path, client::create_flags(false)),
                ),
            );
            let (w2, q) = run::run(
                sv,
                w,
                adapt::discard(fs::logged_open(log, root_ino, path, client::create_flags(true))),
            );
            &&& r == Ok::<(), SpecError>(())
            &&& w1.store == w.store
            &&& w1.local.channels == w.local.channels
            &&& w1.file == w.file
            &&& w2 == w
            &&& q matches Err(e) && e.kind == ErrorKind::AlreadyExists
        }),
{
    let root_ino = w.store.root_ino;
    handles::behind_is_known(w.store, path);
    handles::open_finds(w, log, path, client::create_flags(false), ino);
    handles::create_refuses_existing(w, log, path, client::create_flags(true));
    discarding(w, fs::logged_open(log, root_ino, path, client::create_flags(false)));
    discarding(w, fs::logged_open(log, root_ino, path, client::create_flags(true)));
}

/// `create_file_io` where nothing is makes an empty file there, in a directory that is there.
pub proof fn create_file_io_makes(
    w: World,
    log: bool,
    path: Seq<char>,
    create_new: bool,
    parent: i64,
)
    requires
        path::normalize(path) != path::root(),
        names::dir_at(w.store, path::parent(path::normalize(path)), parent),
        w.store.at(path) is None,
        w.store.linked(),
        store::has_room(w.store.attrs.dom(), 1),
        w.local.channels.wf(),
        !w.local.channels.sizes.contains_key(w.store.fresh()),
    ensures
        ({
            let (w1, r) = run::run(
                store::services(),
                w,
                adapt::discard(
                    fs::logged_open(
                        log,
                        w.store.root_ino,
                        path,
                        client::create_flags(create_new),
                    ),
                ),
            );
            let ino = w.store.fresh();
            &&& r == Ok::<(), SpecError>(())
            &&& w1.store.at(path) == Some(ino)
            &&& w1.holds_file(ino)
            &&& w1.store.bytes(ino) == Seq::<u8>::empty()
            &&& w1.store.entries == w.store.entries.insert(
                (parent, path::file_name(path::normalize(path))),
                ino,
            )
            &&& w.store.attrs.submap_of(w1.store.attrs)
        }),
{
    let flags = client::create_flags(create_new);
    handles::open_creates(w, log, path, flags, parent);
    discarding(w, fs::logged_open(log, w.store.root_ino, path, flags));
}

/// The client's `link` gives a file a second name, and gives the attributes of the file, which has
/// one link more.
pub proof fn client_link_shares(
    w: World,
    log: bool,
    existing: Seq<char>,
    path: Seq<char>,
    parent: i64,
    ino: i64,
)
    requires
        path::normalize(existing) != path::root(),
        path::normalize(path) != path::root(),
        w.store.at(existing) == Some(ino),
        w.store.attrs.contains_key(ino),
        w.store.attrs[ino].kind == FileType::File,
        w.store.attrs[ino].nlink < u32::MAX,
        w.store.linked(),
        names::dir_at(w.store, path::parent(path::normalize(path)), parent),
        w.store.at(path) is None,
    ensures
        ({
            let (w1, r) = run::run(
                store::services(),
                w,
                client::link_stat(log, w.store.root_ino, existing, path),
            );
            let attr = FileAttr {
                nlink: (w.store.attrs[ino].nlink + 1) as u32,
                ..w.store.attrs[ino]
            };
            &&& r == Ok::<FileAttr, SpecError>(attr)
            &&& w1.store.at(path) == Some(ino)
            &&& w1.store.at(existing) == Some(ino)
            &&& w1.store.attrs == w.store.attrs.insert(ino, attr)
            &&& w1.store.contents == w.store.contents
        }),
{
    let sv = store::services();
    let first = fs::logged_link(log, w.store.root_ino, existing, path);
    let second = client::stat_attr(log, path);
    names::link_shares_the_inode(w, log, existing, path, parent, ino);
    run::run_and_next(sv, w, first, |u: ()| second);
    let w1 = run::run(sv, w, first).0;
    client_stat_tells(w1, log, path, ino, ino);
}

/// The client's `symlink` makes a symbolic link, and gives the attributes of the link itself.
pub proof fn client_symlink_makes(
    w: World,
    log: bool,
    path: Seq<char>,
    target: Seq<char>,
    parent: i64,
)
    requires
        path::normalize(path) != path::root(),
        names::dir_at(w.store, path::parent(path::normalize(path)), parent),
        w.store.at(path) is None,
    ensures
        ({
            let (w1, r) = run::run(
                store::services(),
                w,
                client::symlink_stat(log, w.store.root_ino, path, target),
            );
            let ino = w.store.fresh();
            &&& r == Ok::<FileAttr, SpecError>(store::new_attr(ino, FileType::Symlink))
            &&& w1.store.at(path) == Some(ino)
            &&& w1.store.targets[ino] == target
            &&& w1.store.behind(path) == w1.store.at(target)
        }),
{
    let sv = store::services();
    let first = fs::logged_symlink(log, w.store.root_ino, path, target);
    let second = client::lstat_attr(log, path);
    names::readlink_after_symlink(w, log, path, target, parent);
    run::run_and_next(sv, w, first, |u: ()| second);
    let w1 = run::run(sv, w, first).0;
    let ino = w.store.fresh();
    let next = |info: FileStat<Seq<char>>| Script::<FileAttr>::Done(Ok(info.attr));
    names::lstat_runs(w1, log, path, ino);
    run::run_and_next(sv, w1, fs::logged_lstat(log, path), next);
}

/// A second step that is not reached: where making a link fails, the failure is passed on.
pub proof fn client_links_pass_failures_on(
    w: World,
    log: bool,
    root_ino: i64,
    existing: Seq<char>,
    path: Seq<char>,
    target: Seq<char>,
)
    ensures
        ({
            let sv = store::services();
            let hard = run::run(sv, w, fs::logged_link(log, root_ino, existing, path));
            let soft = run::run(sv, w, fs::logged_symlink(log, root_ino, path, target));
            &&& hard.1 matches Err(e) ==> run::run(
                sv,
                w,
                client::link_stat(log, root_ino, existing, path),
            ) == (hard.0, Err::<FileAttr, SpecError>(e))
            &&& soft.1 matches Err(e) ==> run::run(
                sv,
                w,
                client::symlink_stat(log, root_ino, path, target),
            ) == (soft.0, Err::<FileAttr, SpecError>(e))
        }),
{
    let sv = store::services();
    let hard = client::stat_attr(log, path);
    let soft = client::lstat_attr(log, path);
    run::run_and_next(
        sv,
        w,
        fs::logged_link(log, root_ino, existing, path),
        |u: ()| hard,
    );
    run::run_and_next(
        sv,
        w,
        fs::logged_symlink(log, root_ino, path, target),
        |u: ()| soft,
    );
}

} // verus!
