//! What renaming leaves.
use crate::fs;
use crate::laws::contents;
use crate::laws::names;
use crate::laws::run;
use crate::laws::shape;
use crate::laws::store;
use crate::laws::store::{Store, World};
use crate::laws::ways;
use crate::meta::FileType;
use crate::ops::lookup;
use crate::ops::mkdir;
use crate::ops::rename;
use crate::ops::rename::Move;
use crate::path;
use crate::script::{MetaRequest, SpecError, SpecReply};
use vstd::prelude::*;

verus! {

broadcast use crate::script::group_bind;

/// Whether something of the given kind may take the place of what is at a path: nothing is there,
/// or a directory would replace an empty directory, or anything else would replace anything else.
pub open spec fn may_replace(s: Store, kind: FileType, p: Seq<char>) -> bool {
    match s.at(p) {
        None => true,
        Some(dest) => {
            &&& (kind == FileType::Dir) == (s.attrs[dest].kind == FileType::Dir)
            &&& forall|name: Seq<char>| !#[trigger] s.entries.contains_key((dest, name))
        },
    }
}

/// What is left of a store when the place at a path is cleared.
pub open spec fn cleared(s: Store, p: Seq<char>) -> Store {
    let n = path::normalize(p);
    let name = path::file_name(n);
    match (s.at(p), s.at(path::parent(n))) {
        (Some(dest), Some(parent)) => if s.attrs[dest].kind == FileType::Dir {
            s.after(MetaRequest::Rmdir { parent, name })
        } else {
            s.after(MetaRequest::Unlink { parent, name })
        },
        _ => s,
    }
}

proof fn rename_source_runs(
    w: World,
    root_ino: i64,
    old: Seq<char>,
    new_path: Seq<char>,
    old_parent: i64,
    ino: i64,
)
    requires
        w.store.is_tree(),
        w.store.lists_all(),
        w.store.root_ino == root_ino,
        path::normalize(new_path) != path::root(),
        w.store.entries.contains_key((old_parent, path::file_name(old))),
        w.store.entries[(old_parent, path::file_name(old))] == ino,
        may_replace(w.store, w.store.attrs[ino].kind, new_path),
    ensures
        ({
            let m = Move::of(old, path::normalize(new_path));
            let sv = store::services();
            run::run(sv, w, rename::rename_source(root_ino, m, old_parent)) == run::run(
                sv,
                World { store: cleared(w.store, new_path), ..w },
                rename::rename_parents(root_ino, m, old_parent),
            )
        }),
{
    let sv = store::services();
    let s0 = w.store;
    let new = path::normalize(new_path);
    let m = Move::of(old, new);
    let attr = s0.attrs[ino];
    let s = rename::rename_source(root_ino, m, old_parent);
    let s1 = rename::rename_kind(root_ino, m, old_parent, ino);
    let s2 = rename::rename_dest(root_ino, m, old_parent, attr.kind);
    let parents = rename::rename_parents(root_ino, m, old_parent);
    names::split_path(s0, new_path);
    assert(sv(w, s->Ask_0) == (w, SpecReply::Child(Ok(Some(ino)))));
    assert((s->Ask_1)(SpecReply::Child(Ok(Some(ino)))) == s1);
    assert(run::run(sv, w, s) == run::run(sv, w, s1));
    let reply = SpecReply::Attr(Ok(Some(attr)));
    assert(sv(w, s1->Ask_0) == (w, reply));
    assert((s1->Ask_1)(reply) == s2);
    assert(run::run(sv, w, s1) == run::run(sv, w, s2));
    match s0.at(new) {
        None => {
            assert(sv(w, s2->Ask_0) == (w, SpecReply::Entry(Ok(None))));
            assert((s2->Ask_1)(SpecReply::Entry(Ok(None))) == parents);
            assert(World { store: cleared(s0, new_path), ..w } == w);
        },
        Some(dest) => {
            let kind = s0.attrs[dest].kind;
            let new_parent = s0.at(m.new_dir)->Some_0;
            let reply = SpecReply::Entry(Ok(Some((dest, kind))));
            let s3 = rename::rename_occupied(root_ino, m, old_parent, attr.kind, dest, kind);
            assert(sv(w, s2->Ask_0) == (w, reply));
            assert((s2->Ask_1)(reply) == s3);
            assert(run::run(sv, w, s2) == run::run(sv, w, s3));
            names::parent_dir_runs(w, root_ino, m.new_dir, false, new_parent);
            run::run_and_next(
                sv,
                w,
                lookup::parent_dir(root_ino, m.new_dir, false),
                |new_parent: i64|
                    rename::rename_over(
                        root_ino,
                        m,
                        old_parent,
                        attr.kind,
                        dest,
                        kind,
                        new_parent,
                    ),
            );
            let is_dir = kind == FileType::Dir;
            let clear = rename::rename_clear(root_ino, m, old_parent, is_dir, new_parent);
            let over = rename::rename_over(
                root_ino,
                m,
                old_parent,
                attr.kind,
                dest,
                kind,
                new_parent,
            );
            if is_dir {
                let children = s0.listing(dest);
                assert(children.len() == 0) by {
                    if children.len() > 0 {
                        assert(s0.entries.contains_key((dest, children[0].name)));
                    }
                }
                let s4 = rename::rename_children(root_ino, m, old_parent, dest, new_parent);
                assert(over == s4);
                assert(sv(w, s4->Ask_0) == (w, SpecReply::Entries(Ok(children))));
                assert((s4->Ask_1)(SpecReply::Entries(Ok(children))) == clear);
                assert(run::run(sv, w, s4) == run::run(sv, w, clear));
            } else {
                assert(over == clear);
            }
            let w1 = World { store: cleared(s0, new_path), ..w };
            assert(sv(w, clear->Ask_0) == (w1, SpecReply::Unit(Ok(()))));
            assert((clear->Ask_1)(SpecReply::Unit(Ok(()))) == parents);
            assert(run::run(sv, w, clear) == run::run(sv, w1, parents));
        },
    }
}

/// Clearing the place at a path leaves nothing there, and everything else as it is.
proof fn clearing_spares(s: Store, kind: FileType, p: Seq<char>)
    requires
        s.is_tree(),
        path::normalize(p) != path::root(),
        may_replace(s, kind, p),
    ensures
        ({
            let t = cleared(s, p);
            &&& t.is_tree()
            &&& t.root_ino == s.root_ino
            &&& t.targets == s.targets
            &&& t.contents == s.contents
            &&& t.attrs.dom() == s.attrs.dom()
            &&& shape::keeps_kinds(s, t)
            &&& t.at(p) is None
            &&& shape::same_outside(s, t, p)
        }),
{
    let t = cleared(s, p);
    let n = path::normalize(p);
    names::split_path(s, p);
    if s.at(p) is Some {
        let dest = s.at(p)->Some_0;
        let parent = s.at(path::parent(n))->Some_0;
        let key = (parent, path::file_name(n));
        assert(s.entries.contains_key(key));
        assert(t.entries == s.entries.remove(key));
        assert(t.attrs.dom() =~= s.attrs.dom());
        assert(t.entries.submap_of(s.entries));
        shape::tree_cut(s, t);
        names::at_after_remove(s, t, p, parent);
        assert(t.entries.remove(key) =~= s.entries.remove(key));
        shape::entry_changed(s, t, p, parent);
    }
}

/// What is below the source of a move is not touched by it.
proof fn below_stays(
    s: Store,
    after: Map<(i64, Seq<char>), i64>,
    old_dir: Seq<Seq<char>>,
    old_key: (i64, Seq<char>),
    new_dir: Seq<Seq<char>>,
    new_key: (i64, Seq<char>),
    ino: i64,
    rest: Seq<Seq<char>>,
)
    requires
        s.is_tree(),
        store::walk(s.entries, s.root_ino, old_dir) == Some(old_key.0),
        s.attrs[old_key.0].kind == FileType::Dir,
        store::walk(s.entries, s.root_ino, new_dir) == Some(new_key.0),
        s.attrs[new_key.0].kind == FileType::Dir,
        store::walk(s.entries, s.root_ino, old_dir.push(old_key.1)) == Some(ino),
        !old_dir.push(old_key.1).is_prefix_of(new_dir),
        after == s.entries.remove(old_key).insert(new_key, ino),
    ensures
        store::walk(after, ino, rest) == store::walk(s.entries, ino, rest),
    decreases rest.len(),
{
    if rest.len() > 0 {
        let init = rest.drop_last();
        let last = rest.last();
        let old = old_dir.push(old_key.1);
        assert(init.push(last) =~= rest);
        below_stays(s, after, old_dir, old_key, new_dir, new_key, ino, init);
        names::walk_last(s.entries, ino, init, last);
        names::walk_last(after, ino, init, last);
        if let Some(mid) = store::walk(s.entries, ino, init) {
            names::walk_joins(s.entries, s.root_ino, old, init);
            if (mid, last) == old_key {
                shape::one_way(s, old + init, old_dir);
                assert((old + init).len() == old_dir.len());
            } else if (mid, last) == new_key {
                shape::one_way(s, old + init, new_dir);
                assert(old =~= new_dir.subrange(0, old.len() as int));
            }
        }
    }
}

/// What a move leaves of a store in which nothing is at the new path.
pub open spec fn moved(s: Store, t: Store, old: Seq<char>, new: Seq<char>, ino: i64) -> bool {
    &&& t.at(new) == Some(ino)
    &&& t.at(old) is None
    &&& forall|q: Seq<char>|
        !shape::within(old, q) && !shape::within(new, q) ==> #[trigger] t.at(q) == s.at(q)
    &&& forall|a: Seq<char>, b: Seq<char>|
        follows(old, a, new, b) ==> #[trigger] t.at(b) == #[trigger] s.at(a)
}

/// Whether `b` stands to `new` as `a` stands to `old`: it goes on from there in the same way.
pub open spec fn follows(old: Seq<char>, a: Seq<char>, new: Seq<char>, b: Seq<char>) -> bool {
    &&& shape::within(old, a)
    &&& shape::within(new, b)
    &&& path::components(a).skip(path::components(old).len() as int) == path::components(b).skip(
        path::components(new).len() as int,
    )
}

/// A path that goes on from another, taken apart.
proof fn goes_on(s: Store, base: Seq<char>, q: Seq<char>, ino: i64)
    requires
        shape::within(base, q),
        s.at(base) == Some(ino),
    ensures
        s.at(q) == store::walk(
            s.entries,
            ino,
            path::components(q).skip(path::components(base).len() as int),
        ),
{
    let a = path::components(base);
    let rest = path::components(q).skip(a.len() as int);
    assert(a + rest =~= path::components(q));
    names::walk_joins(s.entries, s.root_ino, a, rest);
}

proof fn move_runs(
    s: Store,
    t: Store,
    old: Seq<char>,
    new: Seq<char>,
    old_parent: i64,
    new_parent: i64,
    ino: i64,
)
    requires
        s.is_tree(),
        path::normalize(old) != path::root(),
        path::normalize(new) != path::root(),
        s.at(old) == Some(ino),
        s.at(new) is None,
        s.at(path::parent(path::normalize(old))) == Some(old_parent),
        s.at(path::parent(path::normalize(new))) == Some(new_parent),
        s.attrs.contains_key(new_parent),
        s.attrs[new_parent].kind == FileType::Dir,
        !shape::within(old, new),
        t == s.after(
            MetaRequest::Rename {
                old_parent,
                old_name: path::file_name(path::normalize(old)),
                new_parent,
                new_name: path::file_name(path::normalize(new)),
            },
        ),
    ensures
        moved(s, t, old, new, ino),
{
    let old_n = path::normalize(old);
    let new_n = path::normalize(new);
    let old_key = (old_parent, path::file_name(old_n));
    let new_key = (new_parent, path::file_name(new_n));
    let old_dir = path::components(path::parent(old_n));
    let new_dir = path::components(path::parent(new_n));
    let cut = Store { entries: s.entries.remove(old_key), ..s };
    names::split_path(s, old);
    names::split_path(s, new);
    shape::split_parts(old);
    shape::split_parts(new);
    assert(s.entries.contains_key(old_key));
    assert(!s.entries.contains_key(new_key));
    assert(cut.entries.submap_of(s.entries));
    shape::tree_cut(s, cut);
    assert(cut.entries.remove(old_key) =~= s.entries.remove(old_key));
    shape::entry_changed(s, cut, old, old_parent);
    names::at_after_remove(s, cut, old, old_parent);
    let d = path::parent(new_n);
    assert(shape::within(d, new)) by {
        assert(new_dir =~= path::components(new).subrange(0, new_dir.len() as int));
    }
    assert(!shape::within(old, d)) by {
        if shape::within(old, d) {
            shape::within_twice(old, d, new);
        }
    }
    assert(cut.at(d) == Some(new_parent));
    assert(t.entries == cut.entries.insert(new_key, ino));
    assert(t.entries.remove(new_key) =~= cut.entries.remove(new_key));
    shape::entry_changed(cut, t, new, new_parent);
    names::at_after_insert(cut, t, new, new_parent, ino);
    assert(!shape::within(new, old)) by {
        if shape::within(new, old) {
            shape::nothing_below(s, path::components(new), path::components(old));
        }
    }
    assert(t.at(old) == cut.at(old));
    assert forall|q: Seq<char>|
        !shape::within(old, q) && !shape::within(new, q) implies #[trigger] t.at(q) == s.at(q) by {
        assert(cut.at(q) == s.at(q));
    }
    assert forall|a: Seq<char>, b: Seq<char>|
        follows(old, a, new, b) implies #[trigger] t.at(b) == #[trigger] s.at(a) by {
        let rest = path::components(a).skip(path::components(old).len() as int);
        goes_on(s, old, a, ino);
        goes_on(t, new, b, ino);
        below_stays(s, t.entries, old_dir, old_key, new_dir, new_key, ino, rest);
    }
}

/// `rename` moves the source: to a path that is neither the source nor below it, where nothing is
/// or something that the source may replace, and above which there is nothing but directories, as
/// far as there is anything. The directories that are missing are made. Afterwards the source, with
/// all that is below it, is at the new path, and nothing is at the old one. Everything else leads
/// where it led; contents stay as they are.
pub proof fn rename_moves(
    w: World,
    log: bool,
    old_path: Seq<char>,
    new_path: Seq<char>,
    ino: i64,
)
    requires
        w.store.is_tree(),
        w.store.lists_all(),
        path::normalize(old_path) != path::root(),
        w.store.at(old_path) == Some(ino),
        !shape::within(old_path, new_path),
        may_replace(w.store, w.store.attrs[ino].kind, new_path),
        ways::clear_way(
            w.store,
            w.store.root_ino,
            path::components(path::parent(path::normalize(new_path))),
        ),
        store::has_room(w.store.attrs.dom(), path::components(new_path).len()),
    ensures
        ({
            let (w1, r) = run::run(
                store::services(),
                w,
                fs::logged_rename(log, w.store.root_ino, old_path, new_path),
            );
            let s = w.store;
            let t = w1.store;
            &&& r == Ok::<(), SpecError>(())
            &&& t.at(new_path) == Some(ino)
            &&& t.at(old_path) is None
            &&& shape::all_dirs(t, path::parent(path::normalize(new_path)))
            &&& forall|q: Seq<char>|
                !shape::within(old_path, q) && !shape::within(new_path, q) && (s.at(q) is Some
                    || !shape::within(q, new_path)) ==> #[trigger] t.at(q) == s.at(q)
            &&& forall|a: Seq<char>, b: Seq<char>|
                follows(old_path, a, new_path, b) ==> #[trigger] t.at(b) == #[trigger] s.at(a)
            &&& shape::keeps_kinds(s, t)
            &&& t.contents == s.contents
            &&& t.targets == s.targets
            &&& w1 == World { store: t, ..w }
        }),
{
    let sv = store::services();
    let from = path::normalize(old_path);
    let to = path::normalize(new_path);
    let s = w.store;
    let root_ino = s.root_ino;
    let kind = s.attrs[ino].kind;
    let m = Move::of(from, to);
    assert(!shape::within(new_path, old_path)) by {
        if shape::within(new_path, old_path) {
            let a = path::components(new_path);
            let b = path::components(old_path);
            match s.at(new_path) {
                None => shape::nothing_below(s, a, b),
                Some(dest) => {
                    if a == b {
                        assert(b =~= a.subrange(0, b.len() as int));
                    }
                    shape::below_dir(s, a, dest, b);
                },
            }
        }
    }
    names::split_path(s, old_path);
    if to == path::root() {
        path::normalize_keeps_components(new_path);
        path::lemma_no_components();
        assert(path::components(new_path) =~= path::components(old_path).subrange(0, 0));
    }
    names::split_path(s, new_path);
    shape::split_parts(old_path);
    shape::split_parts(new_path);
    let old_parent = s.at(path::parent(from))->Some_0;
    let old_key = (old_parent, m.old_name);
    assert(s.entries.contains_key(old_key));
    contents::store_ignores_log();
    run::logging_changes_nothing(
        sv,
        w,
        log,
        "rename"@,
        fs::arrow(from, to),
        rename::rename(root_ino, from, to),
    );
    names::parent_dir_runs(w, root_ino, path::parent(from), false, old_parent);
    run::run_and_next(
        sv,
        w,
        lookup::parent_dir(root_ino, path::parent(from), false),
        |old_parent: i64| rename::rename_source(root_ino, Move::of(from, to), old_parent),
    );
    rename_source_runs(w, root_ino, from, new_path, old_parent, ino);
    clearing_spares(s, kind, new_path);
    let s1 = cleared(s, new_path);
    let v1 = World { store: s1, ..w };
    let d = m.new_dir;
    let above = path::parent(from);
    assert(shape::within(d, new_path)) by {
        assert(path::components(d) =~= path::components(new_path).subrange(
            0,
            path::components(d).len() as int,
        ));
    }
    assert(shape::within(above, old_path)) by {
        assert(path::components(above) =~= path::components(old_path).subrange(
            0,
            path::components(above).len() as int,
        ));
    }
    assert(!shape::within(new_path, d));
    assert(!shape::within(new_path, above)) by {
        if shape::within(new_path, above) {
            shape::within_twice(new_path, above, old_path);
        }
    }
    assert(s1.at(old_path) == Some(ino));
    assert(s1.at(above) == Some(old_parent));
    assert(ways::clear_way(s1, root_ino, path::components(d))) by {
        if s.at(new_path) is Some && path::components(d).len() > 0 {
            assert(s1.at(d) == s.at(d));
            ways::clear_way_ends(s, root_ino, path::components(d));
            ways::clear_way_ends(s1, root_ino, path::components(d));
        }
    }
    ways::room_left(s.attrs.dom(), path::components(d).len(), 1);
    ways::mkdir_p_makes(v1, d, 0);
    run::run_and_next(
        sv,
        v1,
        mkdir::mkdir_p(root_ino, d),
        |new_parent: i64| rename::rename_now(m, old_parent, new_parent),
    );
    let (v2, r2) = run::run(sv, v1, mkdir::mkdir_p(root_ino, d));
    let new_parent = r2->Ok_0;
    let s2 = v2.store;
    assert(s2.at(old_path) == s1.at(old_path));
    assert(s2.at(above) == s1.at(above));
    assert(s2.at(new_path) == s1.at(new_path)) by {
        assert(!shape::within(new_path, d));
    }
    let last = rename::rename_now(m, old_parent, new_parent);
    run::run_unit(sv, v2, last);
    let w1 = sv(v2, last->Ask_0).0;
    let t = w1.store;
    move_runs(s2, t, old_path, new_path, old_parent, new_parent, ino);
    assert(shape::keeps_kinds(s, t)) by {
        assert forall|i: i64| #[trigger] s.attrs.contains_key(i) implies t.attrs.contains_key(i)
            && t.attrs[i].kind == s.attrs[i].kind by {
            assert(s1.attrs.contains_key(i));
            assert(s1.attrs.dom().contains(i) && s2.attrs.dom().contains(i));
        }
    }
    assert forall|q: Seq<char>|
        !shape::within(old_path, q) && !shape::within(new_path, q) && (s.at(q) is Some
            || !shape::within(q, new_path)) implies #[trigger] t.at(q) == s.at(q) by {
        assert(s1.at(q) == s.at(q));
        if shape::within(q, d) {
            shape::within_twice(q, d, new_path);
        }
        assert(s2.at(q) == s1.at(q));
    }
    assert(shape::all_dirs(t, d)) by {
        assert forall|q: Seq<char>| #[trigger] shape::within(q, d) implies t.at(q) is Some
            && names::dir_at(t, q, t.at(q)->Some_0) by {
            if shape::within(old_path, q) {
                shape::within_twice(old_path, q, d);
                shape::within_twice(old_path, d, new_path);
            }
            if shape::within(new_path, q) {
                shape::within_twice(new_path, q, d);
            }
            assert(t.at(q) == s2.at(q));
        }
    }
    assert forall|a: Seq<char>, b: Seq<char>|
        follows(old_path, a, new_path, b) implies #[trigger] t.at(b) == #[trigger] s.at(a) by {
        if shape::within(new_path, a) {
            shape::comparable(old_path, new_path, a);
        }
        assert(s1.at(a) == s.at(a));
        if shape::within(a, d) {
            shape::within_twice(old_path, a, d);
            shape::within_twice(old_path, d, new_path);
        }
        assert(s2.at(a) == s1.at(a));
    }
}

} // verus!
