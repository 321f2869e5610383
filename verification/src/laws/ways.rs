//! What making directories, and files in them, leaves.
use crate::error::{ErrorKind, FsError};
use crate::fs;
use crate::laws::contents;
use crate::laws::names;
use crate::laws::run;
use crate::laws::shape;
use crate::laws::store;
use crate::laws::store::{Store, World};
use crate::meta::FileType;
use crate::ops::adapt;
use crate::ops::create;
use crate::ops::mkdir;
use crate::path;
use crate::registry;
use crate::script;
use crate::script::{Script, SpecError, SpecReply};
use vstd::prelude::*;

verus! {

broadcast use crate::script::group_bind;

/// Nothing but directories is on a way.
pub open spec fn clear_way(s: Store, ino: i64, parts: Seq<Seq<char>>) -> bool
    decreases parts.len(),
{
    if parts.len() == 0 || !s.entries.contains_key((ino, parts[0])) {
        true
    } else {
        let next = s.entries[(ino, parts[0])];
        s.attrs[next].kind == FileType::Dir && clear_way(s, next, parts.skip(1))
    }
}

proof fn room_shrinks(used: Set<i64>, n: nat)
    requires
        n > 0,
        store::has_room(used, n),
    ensures
        store::has_room(used, (n - 1) as nat),
    decreases n,
{
    if n > 1 {
        room_shrinks(used.insert(store::unused(used)), (n - 1) as nat);
    }
}

/// Where there is room for more, there is room for less.
pub proof fn room_left(used: Set<i64>, n: nat, spare: nat)
    requires
        store::has_room(used, n + spare),
    ensures
        store::has_room(used, spare),
        store::has_room(used, n),
    decreases n + spare,
{
    if n > 0 {
        room_shrinks(used, n + spare);
        room_left(used, (n - 1) as nat, spare);
    }
    if spare > 0 {
        room_shrinks(used, n + spare);
        room_left(used, n, (spare - 1) as nat);
    }
}

/// Where a way leads somewhere, it is clear if it leads to a directory.
pub proof fn clear_way_ends(s: Store, ino: i64, parts: Seq<Seq<char>>)
    requires
        s.linked(),
        parts.len() > 0,
        store::walk(s.entries, ino, parts) is Some,
    ensures
        ({
            let end = store::walk(s.entries, ino, parts)->Some_0;
            &&& s.attrs.contains_key(end)
            &&& clear_way(s, ino, parts) <==> s.attrs[end].kind == FileType::Dir
        }),
    decreases parts.len(),
{
    let next = s.entries[(ino, parts[0])];
    let rest = parts.skip(1);
    assert(s.entries.contains_key((ino, parts[0])));
    if rest.len() > 0 {
        clear_way_ends(s, next, rest);
        assert(s.entries.contains_key((next, rest[0])));
    } else {
        assert(store::walk(s.entries, next, rest) == Some(next));
        assert(clear_way(s, next, rest));
    }
}

/// One step of `mkdir_p` in a world.
proof fn mkdir_p_part_runs(
    w: World,
    here: Seq<char>,
    name: Seq<char>,
    rest: Seq<Seq<char>>,
    ino: i64,
)
    requires
        w.store.linked(),
    ensures
        ({
            let sv = store::services();
            let run = run::run(sv, w, mkdir::mkdir_p_part(here, name, rest, ino));
            if !w.store.entries.contains_key((ino, name)) {
                run == run::run(
                    sv,
                    World { store: w.store.with_new(ino, name, FileType::Dir), ..w },
                    mkdir::mkdir_p_below(here, rest, w.store.fresh()),
                )
            } else {
                let next = w.store.entries[(ino, name)];
                if w.store.attrs[next].kind == FileType::Dir {
                    run == run::run(sv, w, mkdir::mkdir_p_below(here, rest, next))
                } else {
                    run == (
                        w,
                        Err::<i64, SpecError>(
                            FsError { kind: ErrorKind::NotADirectory, message: here },
                        ),
                    )
                }
            }
        }),
{
    let sv = store::services();
    let s = mkdir::mkdir_p_part(here, name, rest, ino);
    if !w.store.entries.contains_key((ino, name)) {
        let s1 = mkdir::mkdir_p_make(here, name, rest, ino);
        assert(sv(w, s->Ask_0) == (w, SpecReply::Child(Ok(None))));
        assert((s->Ask_1)(SpecReply::Child(Ok(None))) == s1);
        assert(run::run(sv, w, s) == run::run(sv, w, s1));
        let w1 = World { store: w.store.with_new(ino, name, FileType::Dir), ..w };
        let reply = SpecReply::Inode(Ok(w.store.fresh()));
        assert(sv(w, s1->Ask_0) == (w1, reply));
        assert((s1->Ask_1)(reply) == mkdir::mkdir_p_below(here, rest, w.store.fresh()));
    } else {
        let next = w.store.entries[(ino, name)];
        let s1 = mkdir::mkdir_p_kind(here, rest, next);
        assert(sv(w, s->Ask_0) == (w, SpecReply::Child(Ok(Some(next)))));
        assert((s->Ask_1)(SpecReply::Child(Ok(Some(next)))) == s1);
        assert(run::run(sv, w, s) == run::run(sv, w, s1));
        let reply = SpecReply::Attr(Ok(Some(w.store.attrs[next])));
        assert(sv(w, s1->Ask_0) == (w, reply));
        if w.store.attrs[next].kind != FileType::Dir {
            let refused: Script<i64> = script::fail(ErrorKind::NotADirectory, here);
            assert((s1->Ask_1)(reply) == refused);
            assert(run::run(sv, w, s1) == run::run(sv, w, refused));
        } else {
            assert((s1->Ask_1)(reply) == mkdir::mkdir_p_below(here, rest, next));
        }
    }
}

/// What `mkdir_p` leaves of a store, for the way `parts` from the directory `ino` on: the way leads
/// to a directory, and nothing that was there is changed.
pub open spec fn way_made(
    s: Store,
    t: Store,
    ino: i64,
    parts: Seq<Seq<char>>,
    end: i64,
) -> bool {
    &&& store::walk(t.entries, ino, parts) == Some(end)
    &&& t.attrs.contains_key(end)
    &&& t.attrs[end].kind == FileType::Dir
    &&& grown(s, t)
}

/// A store to which nothing but directories was added.
pub open spec fn grown(s: Store, t: Store) -> bool {
    &&& t.linked()
    &&& t.root_ino == s.root_ino
    &&& t.targets == s.targets
    &&& t.contents == s.contents
    &&& t.listings == s.listings
    &&& s.entries.submap_of(t.entries)
    &&& s.attrs.submap_of(t.attrs)
    &&& s.entries.dom().finite() ==> t.entries.dom().finite()
}

proof fn submaps<K, V>(a: Map<K, V>, b: Map<K, V>, c: Map<K, V>)
    requires
        a.submap_of(b),
        b.submap_of(c),
    ensures
        a.submap_of(c),
{
    assert forall|k: K| #[trigger] a.dom().contains(k) implies c.dom().contains(k) && a[k]
        == c[k] by {
        assert(b.dom().contains(k));
    }
}

proof fn grown_twice(s: Store, t: Store, u: Store)
    requires
        grown(s, t),
        grown(t, u),
    ensures
        grown(s, u),
{
    submaps(s.entries, t.entries, u.entries);
    submaps(s.attrs, t.attrs, u.attrs);
}

proof fn grown_by_one(s: Store, ino: i64, name: Seq<char>)
    requires
        s.linked(),
        s.attrs.contains_key(ino),
        s.attrs[ino].kind == FileType::Dir,
        !s.entries.contains_key((ino, name)),
        !s.attrs.contains_key(s.fresh()),
    ensures
        grown(s, s.with_new(ino, name, FileType::Dir)),
{
    let t = s.with_new(ino, name, FileType::Dir);
    assert forall|key: (i64, Seq<char>)| #[trigger] t.entries.contains_key(key) implies
        t.attrs.contains_key(key.0) && t.attrs[key.0].kind == FileType::Dir && t.attrs.contains_key(
        t.entries[key],
    ) by {
        if key != (ino, name) {
            assert(s.entries.contains_key(key));
        }
    }
    assert(t.entries.dom() =~= s.entries.dom().insert((ino, name)));
}

proof fn mkdir_p_below_runs(
    w: World,
    above: Seq<char>,
    parts: Seq<Seq<char>>,
    ino: i64,
    spare: nat,
)
    requires
        w.store.linked(),
        w.store.attrs.contains_key(ino),
        w.store.attrs[ino].kind == FileType::Dir,
        store::has_room(w.store.attrs.dom(), parts.len() + spare),
    ensures
        ({
            let (w1, r) = run::run(
                store::services(),
                w,
                mkdir::mkdir_p_below(above, parts, ino),
            );
            if clear_way(w.store, ino, parts) {
                &&& r matches Ok(end) && way_made(w.store, w1.store, ino, parts, end)
                &&& w1 == World { store: w1.store, ..w }
                &&& store::has_room(w1.store.attrs.dom(), spare)
            } else {
                &&& w1 == w
                &&& r matches Err(e) && e.kind == ErrorKind::NotADirectory
            }
        }),
    decreases parts.len(),
{
    let sv = store::services();
    if parts.len() == 0 {
        assert(mkdir::mkdir_p_below(above, parts, ino) == Script::<i64>::Done(Ok(ino)));
    } else {
        let name = parts[0];
        let rest = parts.skip(1);
        let here = above.push('/') + name;
        assert(mkdir::mkdir_p_below(above, parts, ino) == mkdir::mkdir_p_part(
            here,
            name,
            rest,
            ino,
        ));
        mkdir_p_part_runs(w, here, name, rest, ino);
        if !w.store.entries.contains_key((ino, name)) {
            let new = w.store.fresh();
            let t = w.store.with_new(ino, name, FileType::Dir);
            let w1 = World { store: t, ..w };
            assert(t.attrs.dom() =~= w.store.attrs.dom().insert(new));
            assert(!w.store.attrs.contains_key(new));
            grown_by_one(w.store, ino, name);
            assert(clear_way(t, new, rest)) by {
                if rest.len() > 0 && t.entries.contains_key((new, rest[0])) {
                    assert(w.store.entries.contains_key((new, rest[0])));
                }
            }
            mkdir_p_below_runs(w1, here, rest, new, spare);
            let w2 = run::run(sv, w1, mkdir::mkdir_p_below(here, rest, new)).0;
            assert(t.entries.contains_key((ino, name)) && t.entries[(ino, name)] == new);
            assert(w2.store.entries.dom().contains((ino, name)));
            assert(w2.store.entries[(ino, name)] == new);
            grown_twice(w.store, t, w2.store);
        } else {
            let next = w.store.entries[(ino, name)];
            if w.store.attrs[next].kind == FileType::Dir {
                room_shrinks(w.store.attrs.dom(), parts.len() + spare);
                mkdir_p_below_runs(w, here, rest, next, spare);
                let w1 = run::run(sv, w, mkdir::mkdir_p_below(here, rest, next)).0;
                if clear_way(w.store, ino, parts) {
                    assert(w.store.entries.dom().contains((ino, name)));
                    assert(w1.store.entries.dom().contains((ino, name)));
                    assert(w1.store.entries[(ino, name)] == next);
                }
            }
        }
    }
}

/// In a tree, nothing but the way itself leads elsewhere after `mkdir_p`.
proof fn mkdir_p_below_frames(
    w: World,
    above: Seq<char>,
    parts: Seq<Seq<char>>,
    ino: i64,
    dir: Seq<Seq<char>>,
)
    requires
        w.store.is_tree(),
        store::walk(w.store.entries, w.store.root_ino, dir) == Some(ino),
        w.store.attrs.contains_key(ino),
        w.store.attrs[ino].kind == FileType::Dir,
        store::has_room(w.store.attrs.dom(), parts.len()),
        clear_way(w.store, ino, parts),
    ensures
        ({
            let t = run::run(
                store::services(),
                w,
                mkdir::mkdir_p_below(above, parts, ino),
            ).0.store;
            &&& t.is_tree()
            &&& forall|q: Seq<Seq<char>>|
                !q.is_prefix_of(dir + parts) ==> #[trigger] store::walk(t.entries, t.root_ino, q)
                    == store::walk(w.store.entries, w.store.root_ino, q)
        }),
    decreases parts.len(),
{
    let sv = store::services();
    let s = w.store;
    if parts.len() == 0 {
        assert(mkdir::mkdir_p_below(above, parts, ino) == Script::<i64>::Done(Ok(ino)));
    } else {
        let name = parts[0];
        let rest = parts.skip(1);
        let here = above.push('/') + name;
        let way = dir.push(name);
        assert(mkdir::mkdir_p_below(above, parts, ino) == mkdir::mkdir_p_part(
            here,
            name,
            rest,
            ino,
        ));
        mkdir_p_part_runs(w, here, name, rest, ino);
        assert(way + rest =~= dir + parts);
        names::walk_last(s.entries, s.root_ino, dir, name);
        if !s.entries.contains_key((ino, name)) {
            let new = s.fresh();
            let t = s.with_new(ino, name, FileType::Dir);
            let w1 = World { store: t, ..w };
            assert(t.attrs.dom() =~= s.attrs.dom().insert(new));
            assert(!s.attrs.contains_key(new));
            shape::tree_with_new(s, ino, name, FileType::Dir);
            assert(t.entries.remove((ino, name)) =~= s.entries.remove((ino, name)));
            assert(clear_way(t, new, rest)) by {
                if rest.len() > 0 && t.entries.contains_key((new, rest[0])) {
                    assert(s.entries.contains_key((new, rest[0])));
                }
            }
            assert(!way.is_prefix_of(dir));
            shape::frame(s, t.entries, dir, ino, name, dir);
            names::walk_last(t.entries, t.root_ino, dir, name);
            mkdir_p_below_frames(w1, here, rest, new, way);
            let u = run::run(sv, w1, mkdir::mkdir_p_below(here, rest, new)).0.store;
            assert forall|q: Seq<Seq<char>>|
                !q.is_prefix_of(dir + parts) implies #[trigger] store::walk(
                u.entries,
                u.root_ino,
                q,
            ) == store::walk(s.entries, s.root_ino, q) by {
                assert(!q.is_prefix_of(way + rest));
                if way.is_prefix_of(q) {
                    shape::nothing_below(s, way, q);
                    if store::walk(t.entries, t.root_ino, q) is Some {
                        if way == q {
                            assert(q =~= (dir + parts).subrange(0, q.len() as int));
                        }
                        shape::below_dir(t, way, new, q);
                        assert(s.entries.contains_key((new, q[way.len() as int])));
                    }
                } else {
                    shape::frame(s, t.entries, dir, ino, name, q);
                }
            }
        } else {
            let next = s.entries[(ino, name)];
            room_shrinks(s.attrs.dom(), parts.len());
            mkdir_p_below_frames(w, here, rest, next, way);
        }
    }
}

/// An error names what is in the way to a path: something at or above it that is no directory.
pub open spec fn in_the_way(s: Store, p: Seq<char>, e: SpecError) -> bool {
    &&& e.kind == ErrorKind::NotADirectory
    &&& shape::within(e.message, p)
    &&& s.at(e.message) is Some
    &&& s.attrs[s.at(e.message)->Some_0].kind != FileType::Dir
}

proof fn mkdir_p_below_blames(
    w: World,
    above: Seq<char>,
    parts: Seq<Seq<char>>,
    ino: i64,
    dir: Seq<Seq<char>>,
    p: Seq<char>,
)
    requires
        w.store.linked(),
        w.store.attrs.contains_key(ino),
        w.store.attrs[ino].kind == FileType::Dir,
        !clear_way(w.store, ino, parts),
        path::components(above) == dir,
        store::walk(w.store.entries, w.store.root_ino, dir) == Some(ino),
        path::components(p) == dir + parts,
        forall|i: int| 0 <= i < parts.len() ==> path::is_component(#[trigger] parts[i]),
    ensures
        run::run(store::services(), w, mkdir::mkdir_p_below(above, parts, ino)).1 matches Err(e)
            && in_the_way(w.store, p, e),
    decreases parts.len(),
{
    let s = w.store;
    let name = parts[0];
    let rest = parts.skip(1);
    let here = above.push('/') + name;
    let way = dir.push(name);
    assert(mkdir::mkdir_p_below(above, parts, ino) == mkdir::mkdir_p_part(here, name, rest, ino));
    mkdir_p_part_runs(w, here, name, rest, ino);
    assert(path::is_component(parts[0]));
    path::lemma_components_join(above, name);
    path::lemma_components_one(name);
    assert(path::components(here) =~= way);
    names::walk_last(s.entries, s.root_ino, dir, name);
    let next = s.entries[(ino, name)];
    if s.attrs[next].kind != FileType::Dir {
        assert(way =~= path::components(p).subrange(0, way.len() as int));
    } else {
        assert(way + rest =~= dir + parts);
        assert forall|i: int| 0 <= i < rest.len() implies path::is_component(
            #[trigger] rest[i],
        ) by {
            assert(rest[i] == parts[i + 1]);
        }
        mkdir_p_below_blames(w, here, rest, next, way, p);
    }
}

/// What `mkdir_p` leaves of a store, for a path: a directory is there, directories are above it,
/// and nothing that was there is changed. In a tree, only the path and what is above it may lead
/// elsewhere than before.
pub open spec fn path_made(s: Store, t: Store, p: Seq<char>, end: i64) -> bool {
    &&& names::dir_at(t, p, end)
    &&& shape::all_dirs(t, p)
    &&& grown(s, t)
    &&& forall|q: Seq<char>| (#[trigger] s.at(q)) is Some ==> t.at(q) == s.at(q)
    &&& s.is_tree() ==> t.is_tree() && forall|q: Seq<char>|
        !shape::within(q, p) ==> #[trigger] t.at(q) == s.at(q)
}

/// `mkdir_p` in a world: where nothing but directories is on the way, it gives the directory at
/// the path, made if it was missing. Where something else is on the way, it says so and changes
/// nothing.
pub proof fn mkdir_p_makes(w: World, path: Seq<char>, spare: nat)
    requires
        w.store.linked(),
        w.store.attrs.contains_key(w.store.root_ino),
        w.store.attrs[w.store.root_ino].kind == FileType::Dir,
        store::has_room(w.store.attrs.dom(), path::components(path).len() + spare),
    ensures
        ({
            let (w1, r) = run::run(
                store::services(),
                w,
                mkdir::mkdir_p(w.store.root_ino, path),
            );
            if clear_way(w.store, w.store.root_ino, path::components(path)) {
                &&& r matches Ok(end) && path_made(w.store, w1.store, path, end)
                &&& w1 == World { store: w1.store, ..w }
                &&& store::has_room(w1.store.attrs.dom(), spare)
            } else {
                &&& w1 == w
                &&& r matches Err(e) && in_the_way(w.store, path, e)
            }
        }),
{
    let sv = store::services();
    let n = path::normalize(path);
    let s = w.store;
    let root_ino = s.root_ino;
    let parts = path::components(path);
    path::normalize_keeps_components(path);
    let make = mkdir::mkdir_p(root_ino, path);
    let (w1, r) = run::run(sv, w, make);
    room_left(s.attrs.dom(), parts.len(), spare);
    if n == path::root() {
        path::lemma_no_components();
        assert(make == Script::<i64>::Done(Ok(root_ino)));
        assert(names::dir_at(w1.store, path, root_ino));
    } else {
        let all = mkdir::mkdir_p_whole(root_ino, n);
        match s.at(n) {
            Some(ino) => {
                let kind = s.attrs[ino].kind;
                let reply = SpecReply::Entry(Ok(Some((ino, kind))));
                if parts.len() == 0 {
                    assert(n == path::root());
                }
                clear_way_ends(s, root_ino, parts);
                assert(parts =~= parts.subrange(0, parts.len() as int));
                assert(sv(w, all->Ask_0) == (w, reply));
                let end: Script<i64> = if kind != FileType::Dir {
                    script::fail(ErrorKind::NotADirectory, n)
                } else {
                    Script::Done(Ok(ino))
                };
                assert((all->Ask_1)(reply) == end);
                assert(run::run(sv, w, all) == run::run(sv, w, end));
            },
            None => {
                let below = mkdir::mkdir_p_below(Seq::empty(), parts, root_ino);
                assert(sv(w, all->Ask_0) == (w, SpecReply::Entry(Ok(None))));
                assert((all->Ask_1)(SpecReply::Entry(Ok(None))) == below);
                assert(run::run(sv, w, all) == run::run(sv, w, below));
                mkdir_p_below_runs(w, Seq::empty(), parts, root_ino, spare);
                if !clear_way(s, root_ino, parts) {
                    let top = Seq::<Seq<char>>::empty();
                    path::lemma_no_components();
                    path::lemma_components_are(path);
                    assert(top + parts =~= parts);
                    mkdir_p_below_blames(w, Seq::empty(), parts, root_ino, top, path);
                }
                if clear_way(s, root_ino, parts) {
                    let t = w1.store;
                    assert forall|q: Seq<char>|
                        (#[trigger] s.at(q)) is Some implies t.at(q) == s.at(q) by {
                        names::walk_grows(s.entries, t.entries, root_ino, path::components(q));
                    }
                    assert(s.attrs.dom().contains(root_ino) && t.attrs.dom().contains(root_ino));
                    if s.is_tree() {
                        let top = Seq::<Seq<char>>::empty();
                        assert(top + parts =~= parts);
                        mkdir_p_below_frames(w, Seq::empty(), parts, root_ino, top);
                    }
                }
            },
        }
    }
    if let Ok(end) = r {
        shape::dirs_above(w1.store, path, end);
    }
}

/// `mkdir_p` of a directory that is there gives it, and changes nothing.
pub proof fn mkdir_p_finds(w: World, root_ino: i64, dir: Seq<char>, ino: i64)
    requires
        w.store.root_ino == root_ino,
        names::dir_at(w.store, dir, ino),
    ensures
        run::run(store::services(), w, mkdir::mkdir_p(root_ino, dir)) == (
            w,
            Ok::<i64, SpecError>(ino),
        ),
{
    let sv = store::services();
    let n = path::normalize(dir);
    path::normalize_keeps_components(dir);
    path::lemma_no_components();
    let done = Script::<i64>::Done(Ok(ino));
    if n == path::root() {
        assert(mkdir::mkdir_p(root_ino, dir) == done);
    } else {
        let s = mkdir::mkdir_p_whole(root_ino, n);
        let reply = SpecReply::Entry(Ok(Some((ino, FileType::Dir))));
        assert(sv(w, s->Ask_0) == (w, reply));
        assert((s->Ask_1)(reply) == done);
        assert(run::run(sv, w, s) == run::run(sv, w, done));
    }
}

/// `mkdir_all` makes a whole path where nothing but directories is on the way: afterwards a
/// directory is there, and what was there stays. To make it again succeeds and changes nothing.
/// Where something else is on the way, it fails and changes nothing.
pub proof fn mkdir_all_makes_the_way(w: World, log: bool, path: Seq<char>)
    requires
        w.store.linked(),
        w.store.attrs.contains_key(w.store.root_ino),
        w.store.attrs[w.store.root_ino].kind == FileType::Dir,
        store::has_room(w.store.attrs.dom(), path::components(path).len()),
    ensures
        ({
            let sv = store::services();
            let make = fs::logged_mkdir_all(log, w.store.root_ino, path);
            let (w1, r) = run::run(sv, w, make);
            if clear_way(w.store, w.store.root_ino, path::components(path)) {
                &&& r == Ok::<(), SpecError>(())
                &&& exists|ino: i64| path_made(w.store, w1.store, path, ino)
                &&& run::run(sv, w1, make) == (w1, Ok::<(), SpecError>(()))
            } else {
                &&& w1 == w
                &&& r matches Err(e) && in_the_way(w.store, path, e)
            }
        }),
{
    let sv = store::services();
    let n = path::normalize(path);
    let root_ino = w.store.root_ino;
    path::normalize_keeps_components(path);
    path::normalize_is_idempotent(path);
    contents::store_ignores_log();
    let make = mkdir::mkdir_p(root_ino, n);
    let next = |v: i64| Script::<()>::Done(Ok(()));
    mkdir_p_makes(w, path, 0);
    assert(make == mkdir::mkdir_p(root_ino, path));
    run::logging_changes_nothing(sv, w, log, "mkdir_all"@, n, adapt::discard(make));
    run::run_and_next(sv, w, make, next);
    let (w1, r) = run::run(sv, w, make);
    if let Ok(ino) = r {
        assert(path_made(w.store, w1.store, path, ino));
        mkdir_p_finds(w1, root_ino, path, ino);
        run::logging_changes_nothing(sv, w1, log, "mkdir_all"@, n, adapt::discard(make));
        run::run_and_next(sv, w1, make, next);
    }
}

proof fn create_entry_runs(w: World, path: Seq<char>, name: Seq<char>, dir: i64)
    requires
        w.store.linked(),
    ensures
        run::run(store::services(), w, create::create_entry(path, name, dir)) == (
            if !w.store.entries.contains_key((dir, name)) {
                (
                    World { store: w.store.with_new(dir, name, FileType::File), ..w },
                    Ok::<i64, SpecError>(w.store.fresh()),
                )
            } else if w.store.attrs[w.store.entries[(dir, name)]].kind == FileType::Dir {
                (
                    w,
                    Err::<i64, SpecError>(
                        FsError { kind: ErrorKind::IsADirectory, message: path },
                    ),
                )
            } else {
                (w, Ok::<i64, SpecError>(w.store.entries[(dir, name)]))
            }
        ),
{
    let sv = store::services();
    let s = create::create_entry(path, name, dir);
    if !w.store.entries.contains_key((dir, name)) {
        let s1 = create::create_now(path, name, dir);
        assert(sv(w, s->Ask_0) == (w, SpecReply::Child(Ok(None))));
        assert((s->Ask_1)(SpecReply::Child(Ok(None))) == s1);
        assert(run::run(sv, w, s) == run::run(sv, w, s1));
        let w1 = World { store: w.store.with_new(dir, name, FileType::File), ..w };
        let reply = SpecReply::Inode(Ok(w.store.fresh()));
        let done = Script::<i64>::Done(Ok(w.store.fresh()));
        assert(sv(w, s1->Ask_0) == (w1, reply));
        assert((s1->Ask_1)(reply) == done);
        assert(run::run(sv, w, s1) == run::run(sv, w1, done));
    } else {
        let ino = w.store.entries[(dir, name)];
        let s1 = create::create_existing(path, name, dir, ino);
        assert(sv(w, s->Ask_0) == (w, SpecReply::Child(Ok(Some(ino)))));
        assert((s->Ask_1)(SpecReply::Child(Ok(Some(ino)))) == s1);
        assert(run::run(sv, w, s) == run::run(sv, w, s1));
        let reply = SpecReply::Attr(Ok(Some(w.store.attrs[ino])));
        let end: Script<i64> = if w.store.attrs[ino].kind == FileType::Dir {
            script::fail(ErrorKind::IsADirectory, path)
        } else {
            Script::Done(Ok(ino))
        };
        assert(sv(w, s1->Ask_0) == (w, reply));
        assert((s1->Ask_1)(reply) == end);
        assert(run::run(sv, w, s1) == run::run(sv, w, end));
    }
}

/// What `create_file` leaves of a store where nothing was at the path: an empty file is there,
/// directories are above it, and nothing that was there is changed. Only the path and what is above
/// it may lead elsewhere than before.
pub open spec fn file_made(s: Store, t: Store, p: Seq<char>, ino: i64) -> bool {
    &&& t.at(p) == Some(ino)
    &&& t.attrs.contains_key(ino)
    &&& t.attrs[ino] == store::new_attr(ino, FileType::File)
    &&& !s.attrs.contains_key(ino)
    &&& t.contents == s.contents.insert(registry::channel(ino), Seq::empty())
    &&& t.targets == s.targets
    &&& s.attrs.submap_of(t.attrs)
    &&& t.is_tree()
    &&& shape::all_dirs(t, path::parent(path::normalize(p)))
    &&& forall|q: Seq<char>| (#[trigger] s.at(q)) is Some ==> t.at(q) == s.at(q)
    &&& forall|q: Seq<char>| !shape::within(q, p) ==> #[trigger] t.at(q) == s.at(q)
}

proof fn file_is_made(s: Store, t: Store, p: Seq<char>, dir: i64)
    requires
        s.is_tree(),
        path::normalize(p) != path::root(),
        s.at(p) is None,
        path_made(s, t, path::parent(path::normalize(p)), dir),
        !t.entries.contains_key((dir, path::file_name(path::normalize(p)))),
        !t.attrs.contains_key(t.fresh()),
    ensures
        file_made(
            s,
            t.with_new(dir, path::file_name(path::normalize(p)), FileType::File),
            p,
            t.fresh(),
        ),
{
    let n = path::normalize(p);
    let d = path::parent(n);
    let name = path::file_name(n);
    let u = t.with_new(dir, name, FileType::File);
    assert(t.entries.submap_of(u.entries));
    assert(t.attrs.submap_of(u.attrs));
    submaps(s.attrs, t.attrs, u.attrs);
    assert(s.attrs.dom().contains(s.root_ino) && t.attrs.dom().contains(s.root_ino));
    assert(!s.attrs.contains_key(t.fresh())) by {
        if s.attrs.dom().contains(t.fresh()) {
            assert(t.attrs.dom().contains(t.fresh()));
        }
    }
    assert forall|q: Seq<char>| (#[trigger] t.at(q)) is Some implies u.at(q) == t.at(q) by {
        names::walk_grows(t.entries, u.entries, t.root_ino, path::components(q));
    }
    names::split_path(u, p);
    assert(t.at(d) == Some(dir) && u.at(d) == Some(dir));
    assert forall|q: Seq<char>| #[trigger] shape::within(q, d) implies u.at(q) is Some
        && names::dir_at(u, q, u.at(q)->Some_0) by {
        assert(t.at(q) is Some);
    }
    assert forall|q: Seq<char>| (#[trigger] s.at(q)) is Some implies u.at(q) == s.at(q) by {
        assert(t.at(q) == s.at(q));
    }
    shape::tree_with_new(t, dir, name, FileType::File);
    assert(u.entries.remove((dir, name)) =~= t.entries.remove((dir, name)));
    shape::entry_changed(t, u, p, dir);
    shape::split_parts(p);
    assert forall|q: Seq<char>| !shape::within(q, p) implies #[trigger] u.at(q) == s.at(q) by {
        let a = path::components(q);
        let b = path::components(p);
        if shape::within(q, d) {
            assert(a =~= b.subrange(0, a.len() as int));
        }
        assert(t.at(q) == s.at(q));
        if shape::within(p, q) {
            shape::nothing_below(s, b, a);
            if u.at(q) is Some {
                shape::below_dir(u, b, t.fresh(), a);
                assert(t.entries.contains_key((t.fresh(), a[b.len() as int])));
            }
        }
    }
}

/// `create_file` in a world. A directory at the path is refused, and so is anything but a directory
/// above it; then nothing changes. A file that is there is given and kept as it is. Where nothing
/// is, an empty file and the directories above it are made. Whoever creates the file again gets the
/// same inode, and changes nothing.
pub proof fn create_file_makes(w: World, path: Seq<char>)
    requires
        w.store.is_tree(),
        store::has_room(w.store.attrs.dom(), path::components(path).len()),
    ensures
        ({
            let sv = store::services();
            let s = w.store;
            let n = path::normalize(path);
            let make = create::create_file(s.root_ino, n);
            let (w1, r) = run::run(sv, w, make);
            &&& match s.at(path) {
                Some(ino) => w1 == w && if s.attrs[ino].kind == FileType::Dir {
                    r == Err::<i64, SpecError>(
                        FsError { kind: ErrorKind::IsADirectory, message: n },
                    )
                } else {
                    r == Ok::<i64, SpecError>(ino)
                },
                None => if clear_way(s, s.root_ino, path::components(path::parent(n))) {
                    &&& r matches Ok(ino) && file_made(s, w1.store, path, ino)
                    &&& w1 == World { store: w1.store, ..w }
                } else {
                    &&& w1 == w
                    &&& r matches Err(e) && in_the_way(s, path::parent(n), e)
                },
            }
            &&& r is Ok ==> run::run(sv, w1, make) == (w1, r)
        }),
{
    let sv = store::services();
    let s = w.store;
    let n = path::normalize(path);
    let root_ino = s.root_ino;
    let make = create::create_file(root_ino, n);
    let (w1, r) = run::run(sv, w, make);
    if n == path::root() {
        path::normalize_keeps_components(path);
        path::lemma_no_components();
        assert(s.at(path) == Some(root_ino));
        assert(make == script::fail::<i64>(ErrorKind::IsADirectory, n));
    } else {
        let d = path::parent(n);
        let name = path::file_name(n);
        let next = |dir: i64| create::create_entry(n, name, dir);
        names::split_path(s, path);
        shape::split_parts(path);
        run::run_and_next(sv, w, mkdir::mkdir_p(root_ino, d), next);
        match s.at(path) {
            Some(ino) => {
                let dir = s.at(d)->Some_0;
                assert(s.entries.contains_key((dir, name)));
                mkdir_p_finds(w, root_ino, d, dir);
                create_entry_runs(w, n, name, dir);
            },
            None => {
                mkdir_p_makes(w, d, 1);
                let (v, q) = run::run(sv, w, mkdir::mkdir_p(root_ino, d));
                if clear_way(s, root_ino, path::components(d)) {
                    let dir = q->Ok_0;
                    let t = v.store;
                    assert(store::has_room(t.attrs.dom(), 1));
                    assert(!t.attrs.contains_key(t.fresh()));
                    assert(!t.entries.contains_key((dir, name))) by {
                        names::split_path(t, path);
                        assert(!shape::within(path, d));
                        assert(t.at(path) == s.at(path));
                    }
                    create_entry_runs(v, n, name, dir);
                    file_is_made(s, t, path, dir);
                    let ino = t.fresh();
                    let u = w1.store;
                    assert(shape::within(d, d)) by {
                        assert(path::components(d) =~= path::components(d).subrange(
                            0,
                            path::components(d).len() as int,
                        ));
                    }
                    names::split_path(u, path);
                    let last = u.at(d)->Some_0;
                    run::run_and_next(sv, w1, mkdir::mkdir_p(root_ino, d), next);
                    mkdir_p_finds(w1, root_ino, d, last);
                    create_entry_runs(w1, n, name, last);
                }
            },
        }
    }
}

} // verus!
