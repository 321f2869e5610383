//! What removing a directory with all that is in it leaves.
use crate::error::ErrorKind;
use crate::laws::contents;
use crate::laws::listing;
use crate::laws::names;
use crate::laws::refusals;
use crate::laws::run;
use crate::laws::shape;
use crate::laws::store;
use crate::laws::store::{Store, World};
use crate::laws::trees;
use crate::meta::{DirEntry, FileType};
use crate::ops::attr;
use crate::ops::lookup;
use crate::ops::remove;
use crate::ops::remove_all;
use crate::path;
use crate::script;
use crate::script::{MetaRequest, Script, SpecError, SpecReply};
use vstd::prelude::*;
use vstd::set_lib;

verus! {

broadcast use crate::script::group_bind;

/// A store from which nothing but entries at a path or below it was taken.
pub open spec fn removed(s: Store, t: Store, p: Seq<char>) -> bool {
    &&& t.is_tree()
    &&& t.root_ino == s.root_ino
    &&& t.targets == s.targets
    &&& t.contents == s.contents
    &&& t.listings == s.listings
    &&& t.entries.submap_of(s.entries)
    &&& s.entries.dom().finite() ==> t.entries.dom().finite()
    &&& t.attrs.dom() == s.attrs.dom()
    &&& shape::keeps_kinds(s, t)
    &&& shape::same_outside(s, t, p)
}

proof fn nothing_removed(s: Store, p: Seq<char>)
    requires
        s.is_tree(),
    ensures
        removed(s, s, p),
{
}

proof fn removed_twice(s: Store, t: Store, u: Store, p: Seq<char>, q: Seq<char>)
    requires
        removed(s, t, q),
        removed(t, u, p),
        shape::within(p, q),
    ensures
        removed(s, u, p),
{
    assert(u.entries.submap_of(s.entries)) by {
        assert forall|k: (i64, Seq<char>)| #[trigger] u.entries.dom().contains(k) implies
            s.entries.dom().contains(k) && u.entries[k] == s.entries[k] by {
            assert(t.entries.dom().contains(k));
            assert(s.entries.dom().contains(k));
        }
    }
    assert(shape::keeps_kinds(s, u)) by {
        assert forall|ino: i64| #[trigger] s.attrs.contains_key(ino) implies u.attrs.contains_key(
            ino,
        ) && u.attrs[ino].kind == s.attrs[ino].kind by {
            assert(t.attrs.contains_key(ino));
        }
    }
    assert forall|a: Seq<char>| !shape::within(p, a) implies #[trigger] u.at(a) == s.at(a) by {
        if shape::within(q, a) {
            shape::within_twice(p, q, a);
        }
        assert(t.at(a) == s.at(a));
    }
}

proof fn entry_removed(s: Store, t: Store, p: Seq<char>, parent: i64)
    requires
        s.is_tree(),
        path::normalize(p) != path::root(),
        names::dir_at(s, path::parent(path::normalize(p)), parent),
        t.root_ino == s.root_ino,
        t.targets == s.targets,
        t.contents == s.contents,
        t.listings == s.listings,
        t.attrs.dom() == s.attrs.dom(),
        shape::keeps_kinds(s, t),
        t.entries == s.entries.remove((parent, path::file_name(path::normalize(p)))),
    ensures
        removed(s, t, p),
        t.at(p) is None,
{
    let key = (parent, path::file_name(path::normalize(p)));
    assert(t.entries.submap_of(s.entries));
    shape::tree_cut(s, t);
    assert(t.entries.remove(key) =~= s.entries.remove(key));
    shape::entry_changed(s, t, p, parent);
    names::at_after_remove(s, t, p, parent);
    assert(t.entries.dom() =~= s.entries.dom().remove(key));
}

proof fn parent_dir_ends(w: World, dir: Seq<char>)
    requires
        w.store.is_tree(),
    ensures
        ({
            let (w1, r) = run::run(
                store::services(),
                w,
                lookup::parent_dir(w.store.root_ino, dir, true),
            );
            &&& w1 == w
            &&& r matches Ok(ino) ==> names::dir_at(w.store, dir, ino)
        }),
{
    reveal_with_fuel(run::run, 2);
    path::lemma_no_components();
    if dir != path::root() && w.store.at(dir) is Some {
        shape::walk_is_known(w.store, w.store.root_ino, path::components(dir));
    }
}

proof fn unlink_entry_ends(w: World, path: Seq<char>, name: Seq<char>, parent: i64)
    requires
        w.store.is_tree(),
    ensures
        ({
            let (w1, r) = run::run(
                store::services(),
                w,
                remove::unlink_entry(path, name, parent),
            );
            if r is Ok {
                &&& w.store.entries.contains_key((parent, name))
                &&& w1 == World { store: w.store.after(MetaRequest::Unlink { parent, name }), ..w }
            } else {
                w1 == w
            }
        }),
{
    let sv = store::services();
    let s = remove::unlink_entry(path, name, parent);
    if w.store.entries.contains_key((parent, name)) {
        let ino = w.store.entries[(parent, name)];
        if w.store.attrs[ino].kind == FileType::Dir {
            let s1 = remove::unlink_kind(path, name, parent, ino);
            let reply = SpecReply::Attr(Ok(Some(w.store.attrs[ino])));
            let refused: Script<()> = script::fail(ErrorKind::IsADirectory, path);
            assert(sv(w, s->Ask_0) == (w, SpecReply::Child(Ok(Some(ino)))));
            assert((s->Ask_1)(SpecReply::Child(Ok(Some(ino)))) == s1);
            assert(run::run(sv, w, s) == run::run(sv, w, s1));
            assert(sv(w, s1->Ask_0) == (w, reply));
            assert((s1->Ask_1)(reply) == refused);
            assert(run::run(sv, w, s1) == run::run(sv, w, refused));
        } else {
            names::unlink_entry_runs(w, path, name, parent, ino);
        }
    } else {
        let missing: Script<()> = script::fail(ErrorKind::NotFound, path);
        assert(sv(w, s->Ask_0) == (w, SpecReply::Child(Ok(None))));
        assert((s->Ask_1)(SpecReply::Child(Ok(None))) == missing);
        assert(run::run(sv, w, s) == run::run(sv, w, missing));
    }
}

proof fn rmdir_entry_ends(w: World, path: Seq<char>, name: Seq<char>, parent: i64)
    requires
        w.store.is_tree(),
    ensures
        ({
            let (w1, r) = run::run(
                store::services(),
                w,
                remove::rmdir_entry(path, name, parent),
            );
            if r is Ok {
                &&& w.store.entries.contains_key((parent, name))
                &&& w1 == World { store: w.store.after(MetaRequest::Rmdir { parent, name }), ..w }
            } else {
                w1 == w
            }
        }),
{
    let sv = store::services();
    let s = remove::rmdir_entry(path, name, parent);
    if w.store.entries.contains_key((parent, name)) {
        let ino = w.store.entries[(parent, name)];
        if w.store.attrs[ino].kind != FileType::Dir {
            let s1 = remove::rmdir_kind(path, name, parent, ino);
            let reply = SpecReply::Attr(Ok(Some(w.store.attrs[ino])));
            let refused: Script<()> = script::fail(ErrorKind::NotADirectory, path);
            assert(sv(w, s->Ask_0) == (w, SpecReply::Child(Ok(Some(ino)))));
            assert((s->Ask_1)(SpecReply::Child(Ok(Some(ino)))) == s1);
            assert(run::run(sv, w, s) == run::run(sv, w, s1));
            assert(sv(w, s1->Ask_0) == (w, reply));
            assert((s1->Ask_1)(reply) == refused);
            assert(run::run(sv, w, s1) == run::run(sv, w, refused));
        } else {
            names::rmdir_entry_runs(w, path, name, parent, ino);
        }
    } else {
        let missing: Script<()> = script::fail(ErrorKind::NotFound, path);
        assert(sv(w, s->Ask_0) == (w, SpecReply::Child(Ok(None))));
        assert((s->Ask_1)(SpecReply::Child(Ok(None))) == missing);
        assert(run::run(sv, w, s) == run::run(sv, w, missing));
    }
}

/// How a removal at a path may end in a world: whatever comes out, only entries at the path or
/// below it are gone, and after success nothing is at the path.
pub open spec fn clears(w: World, s: Script<()>, p: Seq<char>) -> bool {
    let (w1, r) = run::run(store::services(), w, s);
    &&& w1 == World { store: w1.store, ..w }
    &&& removed(w.store, w1.store, p)
    &&& r is Ok ==> w1.store.at(p) is None
}

proof fn unlink_clears(w: World, log: bool, p: Seq<char>)
    requires
        w.store.is_tree(),
        path::normalize(p) != path::root(),
    ensures
        clears(w, remove::logged_unlink(log, w.store.root_ino, p), p),
{
    let sv = store::services();
    let n = path::normalize(p);
    let root_ino = w.store.root_ino;
    contents::store_ignores_log();
    run::logging_changes_nothing(sv, w, log, "unlink"@, n, remove::unlink(root_ino, n));
    let find = lookup::parent_dir(root_ino, path::parent(n), true);
    parent_dir_ends(w, path::parent(n));
    run::run_and_next(
        sv,
        w,
        find,
        |parent: i64| remove::unlink_entry(n, path::file_name(n), parent),
    );
    nothing_removed(w.store, p);
    if let Ok(parent) = run::run(sv, w, find).1 {
        unlink_entry_ends(w, n, path::file_name(n), parent);
        let (w1, r) = run::run(sv, w, remove::unlink(root_ino, n));
        if r is Ok {
            assert(w1.store.attrs.dom() =~= w.store.attrs.dom());
            entry_removed(w.store, w1.store, p, parent);
        }
    }
}

proof fn rmdir_clears(w: World, log: bool, p: Seq<char>)
    requires
        w.store.is_tree(),
        path::normalize(p) != path::root(),
    ensures
        clears(w, remove::logged_rmdir(log, w.store.root_ino, p), p),
{
    let sv = store::services();
    let n = path::normalize(p);
    let root_ino = w.store.root_ino;
    contents::store_ignores_log();
    run::logging_changes_nothing(sv, w, log, "rmdir"@, n, remove::rmdir(root_ino, n));
    let find = lookup::parent_dir(root_ino, path::parent(n), true);
    parent_dir_ends(w, path::parent(n));
    run::run_and_next(
        sv,
        w,
        find,
        |parent: i64| remove::rmdir_entry(n, path::file_name(n), parent),
    );
    nothing_removed(w.store, p);
    if let Ok(parent) = run::run(sv, w, find).1 {
        rmdir_entry_ends(w, n, path::file_name(n), parent);
        let (w1, r) = run::run(sv, w, remove::rmdir(root_ino, n));
        if r is Ok {
            entry_removed(w.store, w1.store, p, parent);
        }
    }
}

proof fn readdir_keeps(w: World, log: bool, p: Seq<char>)
    ensures
        run::run(store::services(), w, attr::logged_readdir(log, p)).0 == w,
{
    let sv = store::services();
    let n = path::normalize(p);
    contents::store_ignores_log();
    run::logging_changes_nothing(sv, w, log, "readdir"@, n, attr::readdir(n));
    reveal_with_fuel(run::run, 3);
}

/// A path with components is not the root.
proof fn not_root(p: Seq<char>)
    requires
        path::components(p).len() > 0,
    ensures
        path::normalize(p) != path::root(),
{
    path::normalize_keeps_components(p);
    path::lemma_no_components();
}

proof fn child_is_below(p: Seq<char>, name: Seq<char>)
    ensures
        shape::within(p, remove_all::child_path(p, name)),
{
    let a = path::components(p);
    trees::lemma_child_components(p, name);
    assert(a =~= (a + path::components(name)).subrange(0, a.len() as int));
}

proof fn tree_clears(w: World, log: bool, depth: nat, p: Seq<char>)
    requires
        w.store.is_tree(),
        path::components(p).len() > 0,
    ensures
        clears(w, remove_all::remove_tree(log, w.store.root_ino, depth, p), p),
    decreases depth, 1nat, 0nat,
{
    let sv = store::services();
    let root_ino = w.store.root_ino;
    let list = attr::logged_readdir(log, p);
    let next = |entries: Seq<DirEntry<Seq<char>>>|
        remove_all::remove_entries(log, root_ino, depth, p, entries);
    trees::tree_is(log, root_ino, depth, p, next);
    run::run_and_next(sv, w, list, next);
    readdir_keeps(w, log, p);
    nothing_removed(w.store, p);
    if let Ok(entries) = run::run(sv, w, list).1 {
        entries_clear(w, log, depth, p, entries);
    }
}

proof fn entries_clear(
    w: World,
    log: bool,
    depth: nat,
    p: Seq<char>,
    entries: Seq<DirEntry<Seq<char>>>,
)
    requires
        w.store.is_tree(),
        path::components(p).len() > 0,
    ensures
        clears(w, remove_all::remove_entries(log, w.store.root_ino, depth, p, entries), p),
    decreases depth, 0nat, entries.len(),
{
    let sv = store::services();
    let root_ino = w.store.root_ino;
    not_root(p);
    if entries.len() == 0 {
        rmdir_clears(w, log, p);
    } else {
        let child = remove_all::child_path(p, entries[0].name);
        let first = trees::entries_are(log, root_ino, depth, p, entries);
        let next = |u: ()| remove_all::remove_entries(log, root_ino, depth, p, entries.skip(1));
        run::run_and_next(sv, w, first, next);
        child_is_below(p, entries[0].name);
        trees::lemma_child_components(p, entries[0].name);
        not_root(child);
        let (w1, r) = run::run(sv, w, first);
        if entries[0].kind != FileType::Dir {
            unlink_clears(w, log, child);
        } else if depth == 0 {
            nothing_removed(w.store, child);
        } else {
            tree_clears(w, log, (depth - 1) as nat, child);
        }
        nothing_removed(w1.store, p);
        removed_twice(w.store, w1.store, w1.store, p, child);
        if r is Ok {
            entries_clear(w1, log, depth, p, entries.skip(1));
            let w2 = run::run(sv, w1, next(())).0;
            removed_twice(w.store, w1.store, w2.store, p, child);
        }
    }
}

/// However `remove_dir_all` ends, nothing is gone but what is at the path or below it; contents and
/// everything elsewhere stay as they are. After success nothing is at the path or below it.
pub proof fn remove_dir_all_clears(w: World, log: bool, path: Seq<char>)
    requires
        w.store.is_tree(),
    ensures
        ({
            let (w1, r) = run::run(
                store::services(),
                w,
                remove_all::remove_dir_all(log, w.store.root_ino, path),
            );
            &&& w1 == World { store: w1.store, ..w }
            &&& removed(w.store, w1.store, path)
            &&& r is Ok ==> forall|q: Seq<char>|
                shape::within(path, q) ==> (#[trigger] w1.store.at(q)) is None
        }),
{
    let sv = store::services();
    let all = remove_all::remove_dir_all(log, w.store.root_ino, path);
    nothing_removed(w.store, path);
    if path::components(path).len() > 0 {
        tree_clears(w, log, u64::MAX as nat, path);
        let (w1, r) = run::run(sv, w, all);
        if r is Ok {
            assert forall|q: Seq<char>| shape::within(path, q) implies (#[trigger] w1.store.at(
                q,
            )) is None by {
                shape::nothing_below(w1.store, path::components(path), path::components(q));
            }
        }
    }
}

/// Below a directory there are at most `depth` directories one in another.
pub open spec fn shallow(s: Store, ino: i64, depth: nat) -> bool
    decreases depth,
{
    forall|name: Seq<char>| #[trigger]
        s.entries.contains_key((ino, name)) && s.attrs[s.entries[(ino, name)]].kind == FileType::Dir
            ==> depth > 0 && shallow(s, s.entries[(ino, name)], (depth - 1) as nat)
}

proof fn shallow_stays(s: Store, t: Store, ino: i64, depth: nat)
    requires
        s.linked(),
        shallow(s, ino, depth),
        t.entries.submap_of(s.entries),
        shape::keeps_kinds(s, t),
    ensures
        shallow(t, ino, depth),
    decreases depth,
{
    assert forall|name: Seq<char>| #[trigger]
        t.entries.contains_key((ino, name)) && t.attrs[t.entries[(ino, name)]].kind
            == FileType::Dir implies depth > 0 && shallow(
        t,
        t.entries[(ino, name)],
        (depth - 1) as nat,
    ) by {
        let key = (ino, name);
        assert(t.entries.dom().contains(key) && s.entries.dom().contains(key));
        assert(s.entries.contains_key(key));
        assert(s.attrs.contains_key(s.entries[key]));
        shallow_stays(s, t, s.entries[key], (depth - 1) as nat);
    }
}

/// The path of an entry of a directory leads to the entry.
proof fn child_leads(s: Store, p: Seq<char>, ino: i64, name: Seq<char>)
    requires
        s.at(p) == Some(ino),
        path::is_component(name),
    ensures
        path::components(remove_all::child_path(p, name)) == path::components(p).push(name),
        s.at(remove_all::child_path(p, name)) == (if s.entries.contains_key((ino, name)) {
            Some(s.entries[(ino, name)])
        } else {
            None
        }),
{
    trees::lemma_child_components(p, name);
    path::lemma_components_one(name);
    assert(path::components(p) + seq![name] =~= path::components(p).push(name));
    names::walk_last(s.entries, s.root_ino, path::components(p), name);
}

/// What is left to remove in a directory after its first entry was.
proof fn rest_is_listed(
    s: Store,
    t: Store,
    p: Seq<char>,
    ino: i64,
    todo: Seq<DirEntry<Seq<char>>>,
)
    requires
        s.is_tree(),
        s.named(),
        names::dir_at(s, p, ino),
        todo.len() > 0,
        store::lists(todo, s.entries, s.attrs, ino),
        removed(s, t, remove_all::child_path(p, todo[0].name)),
        t.at(remove_all::child_path(p, todo[0].name)) is None,
    ensures
        names::dir_at(t, p, ino),
        store::lists(todo.skip(1), t.entries, t.attrs, ino),
{
    let name = todo[0].name;
    let child = remove_all::child_path(p, name);
    let rest = todo.skip(1);
    assert(s.entries.contains_key((ino, name)));
    child_leads(s, p, ino, name);
    assert(!shape::within(child, p));
    assert(t.at(p) == s.at(p));
    assert(t.attrs.contains_key(ino));
    child_leads(t, p, ino, name);
    assert forall|i: int| 0 <= i < rest.len() implies {
        let e = #[trigger] rest[i];
        &&& t.entries.contains_key((ino, e.name))
        &&& e.ino == t.entries[(ino, e.name)]
        &&& e.kind == t.attrs[e.ino].kind
    } by {
        let e = rest[i];
        assert(e == todo[i + 1]);
        assert(s.entries.contains_key((ino, e.name)));
        assert(todo[0].name != todo[i + 1].name);
        let q = remove_all::child_path(p, e.name);
        child_leads(s, p, ino, e.name);
        child_leads(t, p, ino, e.name);
        assert(!shape::within(child, q)) by {
            if shape::within(child, q) {
                let a = path::components(child);
                let b = path::components(q);
                assert(a == b.subrange(0, a.len() as int));
                assert(a[a.len() - 1] == name);
                assert(b[a.len() - 1] == e.name);
            }
        }
        assert(t.at(q) == s.at(q));
        assert(s.attrs.contains_key(e.ino));
    }
    assert forall|x: Seq<char>| #[trigger] t.entries.contains_key((ino, x)) implies store::has_name(
        rest,
        x,
    ) by {
        assert(t.entries.dom().contains((ino, x)) && s.entries.dom().contains((ino, x)));
        assert(s.entries.contains_key((ino, x)));
        assert(store::has_name(todo, x));
        let i = choose|i: int| 0 <= i < todo.len() && (#[trigger] todo[i]).name == x;
        assert(x != name);
        assert(rest[i - 1] == todo[i]);
    }
    assert forall|i: int, j: int| 0 <= i < j < rest.len() implies (#[trigger] rest[i]).name != (
    #[trigger] rest[j]).name by {
        assert(rest[i] == todo[i + 1] && rest[j] == todo[j + 1]);
    }
}

proof fn still_named(s: Store, t: Store)
    requires
        s.named(),
        t.entries.submap_of(s.entries),
    ensures
        t.named(),
{
    assert forall|key: (i64, Seq<char>)| #[trigger]
        t.entries.contains_key(key) implies path::is_component(key.1) by {
        assert(t.entries.dom().contains(key) && s.entries.dom().contains(key));
        assert(s.entries.contains_key(key));
    }
}

proof fn tree_succeeds(w: World, log: bool, depth: nat, p: Seq<char>, ino: i64)
    requires
        w.store.is_tree(),
        w.store.lists_all(),
        w.store.named(),
        names::dir_at(w.store, p, ino),
        path::components(p).len() > 0,
        shallow(w.store, ino, depth),
    ensures
        run::run(
            store::services(),
            w,
            remove_all::remove_tree(log, w.store.root_ino, depth, p),
        ).1 == Ok::<(), SpecError>(()),
    decreases depth, 1nat, 0nat,
{
    let sv = store::services();
    let root_ino = w.store.root_ino;
    let list = attr::logged_readdir(log, p);
    let next = |entries: Seq<DirEntry<Seq<char>>>|
        remove_all::remove_entries(log, root_ino, depth, p, entries);
    trees::tree_is(log, root_ino, depth, p, next);
    run::run_and_next(sv, w, list, next);
    listing::readdir_runs(w, log, p, ino);
    entries_succeed(w, log, depth, p, ino, w.store.listing(ino));
}

proof fn entries_succeed(
    w: World,
    log: bool,
    depth: nat,
    p: Seq<char>,
    ino: i64,
    todo: Seq<DirEntry<Seq<char>>>,
)
    requires
        w.store.is_tree(),
        w.store.lists_all(),
        w.store.named(),
        names::dir_at(w.store, p, ino),
        path::components(p).len() > 0,
        shallow(w.store, ino, depth),
        store::lists(todo, w.store.entries, w.store.attrs, ino),
    ensures
        run::run(
            store::services(),
            w,
            remove_all::remove_entries(log, w.store.root_ino, depth, p, todo),
        ).1 == Ok::<(), SpecError>(()),
    decreases depth, 0nat, todo.len(),
{
    let sv = store::services();
    let s = w.store;
    let root_ino = s.root_ino;
    not_root(p);
    if todo.len() == 0 {
        let n = path::normalize(p);
        names::split_path(s, p);
        let parent = s.at(path::parent(n))->Some_0;
        assert(s.entries.contains_key((parent, path::file_name(n))));
        let children = s.listing(ino);
        assert(children.len() == 0) by {
            if children.len() > 0 {
                assert(s.entries.contains_key((ino, children[0].name)));
                assert(store::has_name(todo, children[0].name));
            }
        }
        names::rmdir_removes(w, log, p, parent, ino);
    } else {
        let e = todo[0];
        let child = remove_all::child_path(p, e.name);
        let first = trees::entries_are(log, root_ino, depth, p, todo);
        let next = |u: ()| remove_all::remove_entries(log, root_ino, depth, p, todo.skip(1));
        run::run_and_next(sv, w, first, next);
        assert(s.entries.contains_key((ino, e.name)));
        child_leads(s, p, ino, e.name);
        not_root(child);
        assert(s.attrs.contains_key(e.ino));
        let (w1, r) = run::run(sv, w, first);
        if e.kind != FileType::Dir {
            let n = path::normalize(child);
            names::split_path(s, child);
            let parent = s.at(path::parent(n))->Some_0;
            assert(s.entries.contains_key((parent, path::file_name(n))));
            names::unlink_removes(w, log, child, parent, e.ino);
            unlink_clears(w, log, child);
        } else {
            tree_succeeds(w, log, (depth - 1) as nat, child, e.ino);
            tree_clears(w, log, (depth - 1) as nat, child);
        }
        let t = w1.store;
        rest_is_listed(s, t, p, ino, todo);
        shallow_stays(s, t, ino, depth);
        still_named(s, t);
        entries_succeed(w1, log, depth, p, ino, todo.skip(1));
    }
}

/// A way to a directory in a tree goes over different directories, of which there are no more than
/// numbers for them.
proof fn ways_are_short(s: Store, parts: Seq<Seq<char>>)
    requires
        s.is_tree(),
        store::walk(s.entries, s.root_ino, parts) is Some,
        s.attrs[store::walk(s.entries, s.root_ino, parts)->Some_0].kind == FileType::Dir,
    ensures
        parts.len() <= u64::MAX,
{
    let stop = |k: int| store::walk(s.entries, s.root_ino, parts.take(k));
    let stops = Seq::new(parts.len() + 1, |k: int| stop(k)->Some_0 as int);
    assert forall|k: int| 0 <= k <= parts.len() implies (#[trigger] stop(k)) is Some
        && s.attrs[stop(k)->Some_0].kind == FileType::Dir by {
        let rest = parts.skip(k);
        assert(parts.take(k) + rest =~= parts);
        names::walk_joins(s.entries, s.root_ino, parts.take(k), rest);
        shape::walk_is_known(s, s.root_ino, parts.take(k));
        shape::walk_is_known(s, stop(k)->Some_0, rest);
        if rest.len() == 0 {
            assert(parts.take(k) =~= parts);
        }
    }
    assert(stops.no_duplicates()) by {
        assert forall|i: int, j: int| 0 <= i < j < stops.len() implies stops[i] != stops[j] by {
            assert(stop(i) is Some && stop(j) is Some);
            if stops[i] == stops[j] {
                shape::one_way(s, parts.take(i), parts.take(j));
                assert(parts.take(i).len() == parts.take(j).len());
            }
        }
    }
    let numbers = set_lib::set_int_range(i64::MIN as int, i64::MAX + 1);
    set_lib::lemma_int_range(i64::MIN as int, i64::MAX + 1);
    assert(stops.to_set().subset_of(numbers)) by {
        assert forall|x: int| #[trigger] stops.to_set().contains(x) implies numbers.contains(x) by {
            let k = choose|k: int| 0 <= k < stops.len() && stops[k] == x;
            assert(stops[k] == x);
        }
    }
    set_lib::lemma_len_subset(stops.to_set(), numbers);
    stops.unique_seq_to_set();
}

/// Where directories are nested deeper, there is a longer way.
proof fn deep_way(s: Store, parts: Seq<Seq<char>>, ino: i64, depth: nat) -> (q: Seq<Seq<char>>)
    requires
        store::walk(s.entries, s.root_ino, parts) == Some(ino),
        !shallow(s, ino, depth),
    ensures
        q.len() == parts.len() + depth + 1,
        store::walk(s.entries, s.root_ino, q) is Some,
        s.attrs[store::walk(s.entries, s.root_ino, q)->Some_0].kind == FileType::Dir,
    decreases depth,
{
    let name = choose|name: Seq<char>| #[trigger]
        s.entries.contains_key((ino, name)) && s.attrs[s.entries[(ino, name)]].kind == FileType::Dir
            && !(depth > 0 && shallow(s, s.entries[(ino, name)], (depth - 1) as nat));
    let way = parts.push(name);
    names::walk_last(s.entries, s.root_ino, parts, name);
    if depth == 0 {
        way
    } else {
        deep_way(s, way, s.entries[(ino, name)], (depth - 1) as nat)
    }
}

/// `remove_dir_all` succeeds on every directory but the root.
pub proof fn remove_dir_all_succeeds(w: World, log: bool, path: Seq<char>, ino: i64)
    requires
        w.store.is_tree(),
        w.store.lists_all(),
        w.store.named(),
        names::dir_at(w.store, path, ino),
        path::components(path).len() > 0,
    ensures
        run::run(
            store::services(),
            w,
            remove_all::remove_dir_all(log, w.store.root_ino, path),
        ).1 == Ok::<(), SpecError>(()),
{
    let depth = u64::MAX as nat;
    if !shallow(w.store, ino, depth) {
        let q = deep_way(w.store, path::components(path), ino, depth);
        ways_are_short(w.store, q);
    }
    tree_succeeds(w, log, depth, path, ino);
}

/// `remove_dir_all` is refused where nothing is, and where something else than a directory is.
/// Nothing changes then.
pub proof fn remove_dir_all_refuses(w: World, log: bool, path: Seq<char>)
    requires
        path::components(path).len() > 0,
    ensures
        ({
            let s = w.store;
            let n = path::normalize(path);
            let op = remove_all::remove_dir_all(log, s.root_ino, path);
            match s.at(path) {
                None => refusals::gives(w, op, refusals::refused(ErrorKind::NotFound, n)),
                Some(ino) => s.attrs[ino].kind != FileType::Dir ==> refusals::gives(
                    w,
                    op,
                    refusals::refused(ErrorKind::NotADirectory, n),
                ),
            }
        }),
{
    let sv = store::services();
    let root_ino = w.store.root_ino;
    let depth = u64::MAX as nat;
    let next = |entries: Seq<DirEntry<Seq<char>>>|
        remove_all::remove_entries(log, root_ino, depth, path, entries);
    trees::tree_is(log, root_ino, depth, path, next);
    run::run_and_next(sv, w, attr::logged_readdir(log, path), next);
    refusals::readdir_refuses(w, log, path);
}

} // verus!
