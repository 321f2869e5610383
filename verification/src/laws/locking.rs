//! Locks, and the statistics of the file system.
use crate::laws::contents;
use crate::laws::run;
use crate::laws::store;
use crate::laws::store::{HeldLock, World};
use crate::meta::{FileLockInfo, FileLockQuery, StatFsSnapshot};
use crate::ops::adapt;
use crate::ops::attr;
use crate::ops::attr::LockChange;
use crate::ops::lookup;
use crate::path;
use crate::script::{Script, SpecError, SpecReply};
use crate::stat::{FileStat, StatFs};
use vstd::prelude::*;

verus! {

broadcast use crate::script::group_bind;

/// `get_plock` asks about the inode that the path leads to, what it was asked, and gives the
/// answer.
pub proof fn get_plock_tells(w: World, path: Seq<char>, query: FileLockQuery, ino: i64)
    requires
        w.store.behind(path) == Some(ino),
        w.store.attrs.contains_key(ino),
        w.store.attrs[ino].ino == ino,
    ensures
        run::run(store::services(), w, attr::get_plock(path::normalize(path), query)) == (
            w,
            Ok::<FileLockInfo, SpecError>((w.store.probe)(w.store.locks, ino, query)),
        ),
{
    let sv = store::services();
    let n = path::normalize(path);
    path::normalize_keeps_components(path);
    contents::resolve_runs(w, n, true, ino);
    run::run_and_next(
        sv,
        w,
        lookup::resolve(n, true),
        |info: FileStat<Seq<char>>| attr::get_plock_now(n, info.inode, query),
    );
    let s = attr::get_plock_now(n, ino, query);
    let lock = (w.store.probe)(w.store.locks, ino, query);
    let done = Script::<FileLockInfo>::Done(Ok(lock));
    assert(sv(w, s->Ask_0) == (w, SpecReply::Lock(Ok(lock))));
    assert((s->Ask_1)(SpecReply::Lock(Ok(lock))) == done);
    assert(run::run(sv, w, s) == run::run(sv, w, done));
}

/// `set_plock` sets the lock asked for on the inode that the path leads to, and changes nothing
/// else.
pub proof fn set_plock_sets(w: World, path: Seq<char>, change: LockChange, ino: i64)
    requires
        w.store.behind(path) == Some(ino),
        w.store.attrs.contains_key(ino),
        w.store.attrs[ino].ino == ino,
    ensures
        ({
            let (w1, r) = run::run(
                store::services(),
                w,
                attr::set_plock(path::normalize(path), change),
            );
            &&& r == Ok::<(), SpecError>(())
            &&& w1 == World { store: store::Store { locks: w1.store.locks, ..w.store }, ..w }
            &&& w1.store.locks == w.store.locks.insert(
                ino,
                HeldLock {
                    owner: change.owner,
                    block: change.block,
                    lock_type: change.lock_type,
                    range: change.range,
                    pid: change.pid,
                },
            )
        }),
{
    let sv = store::services();
    let n = path::normalize(path);
    path::normalize_keeps_components(path);
    contents::resolve_runs(w, n, true, ino);
    run::run_and_next(
        sv,
        w,
        lookup::resolve(n, true),
        |info: FileStat<Seq<char>>| attr::set_plock_now(n, info.inode, change),
    );
    run::run_unit(sv, w, attr::set_plock_now(n, ino, change));
}

/// The statistics of the file system are those that the metadata service keeps: what is not
/// available of the space is used, and the inodes are those used and those available.
pub proof fn stat_fs_tells(w: World)
    ensures
        ({
            let sv = store::services();
            let space = w.store.space;
            let (w1, r) = run::run(sv, w, attr::stat_fs());
            &&& w1 == w
            &&& r matches Ok(s) && {
                &&& s.total_space == space.total_space
                &&& s.avail_space == space.available_space
                &&& s.used_inodes == space.used_inodes
                &&& s.avail_inodes == space.available_inodes
                &&& s.avail_space <= s.total_space ==> s.used_space + s.avail_space
                    == s.total_space
                &&& s.avail_space > s.total_space ==> s.used_space == 0
                &&& s.used_inodes + s.avail_inodes <= u64::MAX ==> s.total_inodes == s.used_inodes
                    + s.avail_inodes
                &&& s.used_inodes + s.avail_inodes > u64::MAX ==> s.total_inodes == u64::MAX
            }
            &&& run::run(sv, w, adapt::snapshot()) == (w, Ok::<StatFsSnapshot, SpecError>(space))
        }),
{
    let sv = store::services();
    let space = w.store.space;
    let s = attr::stat_fs();
    let reply = SpecReply::Space(Ok(space));
    let done = Script::<StatFs>::Done(Ok(StatFs::of(space)));
    assert(sv(w, s->Ask_0) == (w, reply));
    assert((s->Ask_1)(reply) == done);
    assert(run::run(sv, w, s) == run::run(sv, w, done));
    run::run_and_next(sv, w, s, |s: StatFs| Script::Done(Ok(s.source())));
}

} // verus!
