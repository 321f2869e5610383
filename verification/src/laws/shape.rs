//! The shape of a store: where paths lead, and what a change of one entry leaves alone.
use crate::laws::names;
use crate::laws::store;
use crate::laws::store::Store;
use crate::meta::FileType;
use crate::path;
use vstd::prelude::*;

verus! {

/// What a path leads to is an inode of the store, and a directory where the path goes on.
pub proof fn walk_is_known(s: Store, ino: i64, parts: Seq<Seq<char>>)
    requires
        s.linked(),
        s.attrs.contains_key(ino),
        store::walk(s.entries, ino, parts) is Some,
    ensures
        s.attrs.contains_key(store::walk(s.entries, ino, parts)->Some_0),
        parts.len() > 0 ==> s.attrs[ino].kind == FileType::Dir,
    decreases parts.len(),
{
    if parts.len() > 0 {
        assert(s.entries.contains_key((ino, parts[0])));
        walk_is_known(s, s.entries[(ino, parts[0])], parts.skip(1));
    }
}

/// In a tree one way alone leads to a directory.
pub proof fn one_way(s: Store, a: Seq<Seq<char>>, b: Seq<Seq<char>>)
    requires
        s.is_tree(),
        store::walk(s.entries, s.root_ino, a) is Some,
        store::walk(s.entries, s.root_ino, a) == store::walk(s.entries, s.root_ino, b),
        s.attrs[store::walk(s.entries, s.root_ino, a)->Some_0].kind == FileType::Dir,
    ensures
        a == b,
    decreases a.len(),
{
    if a.len() > 0 {
        assert(a.drop_last().push(a.last()) =~= a);
        names::walk_last(s.entries, s.root_ino, a.drop_last(), a.last());
    }
    if b.len() > 0 {
        assert(b.drop_last().push(b.last()) =~= b);
        names::walk_last(s.entries, s.root_ino, b.drop_last(), b.last());
    }
    if a.len() == 0 && b.len() == 0 {
        assert(a =~= b);
    } else if a.len() > 0 && b.len() > 0 {
        let x = store::walk(s.entries, s.root_ino, a.drop_last())->Some_0;
        let y = store::walk(s.entries, s.root_ino, b.drop_last())->Some_0;
        assert(s.entries.contains_key((x, a.last())));
        assert(s.entries.contains_key((y, b.last())));
        assert((x, a.last()) == (y, b.last()));
        one_way(s, a.drop_last(), b.drop_last());
    }
}

/// A change of one entry of a directory changes only where ways over that entry lead.
pub proof fn frame(
    s: Store,
    after: Map<(i64, Seq<char>), i64>,
    dir: Seq<Seq<char>>,
    parent: i64,
    name: Seq<char>,
    q: Seq<Seq<char>>,
)
    requires
        s.is_tree(),
        store::walk(s.entries, s.root_ino, dir) == Some(parent),
        s.attrs[parent].kind == FileType::Dir,
        after.remove((parent, name)) == s.entries.remove((parent, name)),
        !dir.push(name).is_prefix_of(q),
    ensures
        store::walk(after, s.root_ino, q) == store::walk(s.entries, s.root_ino, q),
    decreases q.len(),
{
    if q.len() > 0 {
        let init = q.drop_last();
        let last = q.last();
        assert(init.push(last) =~= q);
        assert(!dir.push(name).is_prefix_of(init)) by {
            if dir.push(name).is_prefix_of(init) {
                assert(dir.push(name) =~= q.subrange(0, dir.len() as int + 1));
            }
        }
        frame(s, after, dir, parent, name, init);
        names::walk_last(s.entries, s.root_ino, init, last);
        names::walk_last(after, s.root_ino, init, last);
        if let Some(mid) = store::walk(s.entries, s.root_ino, init) {
            if (mid, last) == (parent, name) {
                one_way(s, init, dir);
                assert(dir.push(name) =~= q.subrange(0, dir.len() as int + 1));
            } else {
                let key = (mid, last);
                assert(after.remove((parent, name)).contains_key(key) == after.contains_key(key));
                assert(s.entries.remove((parent, name)).contains_key(key)
                    == s.entries.contains_key(key));
                if after.contains_key(key) {
                    assert(after.remove((parent, name))[key] == after[key]);
                    assert(s.entries.remove((parent, name))[key] == s.entries[key]);
                }
            }
        }
    }
}

/// Whether a path is `base` or below it.
pub open spec fn within(base: Seq<char>, p: Seq<char>) -> bool {
    path::components(base).is_prefix_of(path::components(p))
}

/// Paths that are not at `p` or below it lead where they led.
pub open spec fn same_outside(s: Store, t: Store, p: Seq<char>) -> bool {
    forall|q: Seq<char>| !within(p, q) ==> #[trigger] t.at(q) == s.at(q)
}

/// A change of the entry at a path changes nothing outside of that path.
pub proof fn entry_changed(s: Store, t: Store, p: Seq<char>, parent: i64)
    requires
        s.is_tree(),
        path::normalize(p) != path::root(),
        s.at(path::parent(path::normalize(p))) == Some(parent),
        s.attrs[parent].kind == FileType::Dir,
        t.root_ino == s.root_ino,
        ({
            let key = (parent, path::file_name(path::normalize(p)));
            t.entries.remove(key) == s.entries.remove(key)
        }),
    ensures
        same_outside(s, t, p),
{
    let n = path::normalize(p);
    let dir = path::components(path::parent(n));
    split_parts(p);
    assert forall|q: Seq<char>| !within(p, q) implies #[trigger] t.at(q) == s.at(q) by {
        frame(s, t.entries, dir, parent, path::file_name(n), path::components(q));
    }
}

/// Every inode keeps its kind.
pub open spec fn keeps_kinds(s: Store, t: Store) -> bool {
    forall|ino: i64| #[trigger]
        s.attrs.contains_key(ino) ==> t.attrs.contains_key(ino) && t.attrs[ino].kind
            == s.attrs[ino].kind
}

/// A tree from which entries are taken stays a tree.
pub proof fn tree_cut(s: Store, t: Store)
    requires
        s.is_tree(),
        t.root_ino == s.root_ino,
        t.targets == s.targets,
        keeps_kinds(s, t),
        t.entries.submap_of(s.entries),
    ensures
        t.is_tree(),
{
    assert forall|key: (i64, Seq<char>)| #[trigger] t.entries.contains_key(key) implies
        s.entries.contains_key(key) && s.entries[key] == t.entries[key] by {
        assert(t.entries.dom().contains(key));
    }
}

/// A tree with something new in one of its directories stays a tree.
pub proof fn tree_with_new(s: Store, parent: i64, name: Seq<char>, kind: FileType)
    requires
        s.is_tree(),
        s.attrs.contains_key(parent),
        s.attrs[parent].kind == FileType::Dir,
        !s.entries.contains_key((parent, name)),
        !s.attrs.contains_key(s.fresh()),
    ensures
        s.with_new(parent, name, kind).is_tree(),
        keeps_kinds(s, s.with_new(parent, name, kind)),
{
    let t = s.with_new(parent, name, kind);
    assert forall|key: (i64, Seq<char>)| #[trigger] t.entries.contains_key(key) implies key == (
        parent,
        name,
    ) || (s.entries.contains_key(key) && s.entries[key] == t.entries[key]) by {}
}

/// Nothing is below a path at which nothing is.
pub proof fn nothing_below(s: Store, a: Seq<Seq<char>>, b: Seq<Seq<char>>)
    requires
        a.is_prefix_of(b),
        store::walk(s.entries, s.root_ino, a) is None,
    ensures
        store::walk(s.entries, s.root_ino, b) is None,
{
    let rest = b.skip(a.len() as int);
    assert(a + rest =~= b);
    names::walk_joins(s.entries, s.root_ino, a, rest);
}

/// The path of an entry of a directory leads to the entry.
pub proof fn below_dir(s: Store, dir: Seq<Seq<char>>, ino: i64, b: Seq<Seq<char>>)
    requires
        store::walk(s.entries, s.root_ino, dir) == Some(ino),
        dir.is_prefix_of(b),
        dir != b,
        store::walk(s.entries, s.root_ino, b) is Some,
    ensures
        s.entries.contains_key((ino, b[dir.len() as int])),
{
    let rest = b.skip(dir.len() as int);
    assert(dir + rest =~= b);
    names::walk_joins(s.entries, s.root_ino, dir, rest);
    if rest.len() == 0 {
        assert(dir =~= b);
    }
    assert(rest[0] == b[dir.len() as int]);
}

/// Of three paths, if the first is at or above the second and the second at or above the third, the
/// first is at or above the third.
pub proof fn within_twice(a: Seq<char>, b: Seq<char>, c: Seq<char>)
    requires
        within(a, b),
        within(b, c),
    ensures
        within(a, c),
{
    let x = path::components(a);
    assert(x =~= path::components(c).subrange(0, x.len() as int));
}

/// Of two paths at or above a third, one is at or above the other.
pub proof fn comparable(a: Seq<char>, b: Seq<char>, q: Seq<char>)
    requires
        within(a, q),
        within(b, q),
    ensures
        within(a, b) || within(b, a),
{
    let x = path::components(a);
    let y = path::components(b);
    let z = path::components(q);
    if x.len() <= y.len() {
        assert(x =~= y.subrange(0, x.len() as int)) by {
            assert forall|i: int| 0 <= i < x.len() implies x[i] == y[i] by {
                assert(z.subrange(0, x.len() as int)[i] == z[i]);
                assert(z.subrange(0, y.len() as int)[i] == z[i]);
            }
        }
    } else {
        assert(y =~= x.subrange(0, y.len() as int)) by {
            assert forall|i: int| 0 <= i < y.len() implies y[i] == x[i] by {
                assert(z.subrange(0, x.len() as int)[i] == z[i]);
                assert(z.subrange(0, y.len() as int)[i] == z[i]);
            }
        }
    }
}

/// Nothing but directories is at a path and above it.
pub open spec fn all_dirs(s: Store, p: Seq<char>) -> bool {
    forall|q: Seq<char>| #[trigger] within(q, p) ==> s.at(q) is Some && names::dir_at(
        s,
        q,
        s.at(q)->Some_0,
    )
}

/// Above a directory there are directories.
pub proof fn dirs_above(s: Store, p: Seq<char>, ino: i64)
    requires
        s.linked(),
        s.attrs.contains_key(s.root_ino),
        names::dir_at(s, p, ino),
    ensures
        all_dirs(s, p),
{
    let parts = path::components(p);
    assert forall|q: Seq<char>| #[trigger] within(q, p) implies s.at(q) is Some && names::dir_at(
        s,
        q,
        s.at(q)->Some_0,
    ) by {
        let a = path::components(q);
        let rest = parts.skip(a.len() as int);
        assert(a + rest =~= parts);
        names::walk_joins(s.entries, s.root_ino, a, rest);
        walk_is_known(s, s.root_ino, a);
        walk_is_known(s, s.at(q)->Some_0, rest);
        if rest.len() == 0 {
            assert(a =~= parts);
        }
    }
}

/// What a path other than the root is made of: its directory and its name.
pub proof fn split_parts(p: Seq<char>)
    requires
        path::normalize(p) != path::root(),
    ensures
        path::components(path::parent(path::normalize(p))).push(
            path::file_name(path::normalize(p)),
        ) == path::components(p),
{
    path::split_of_normalized(p);
    path::normalize_keeps_components(p);
}

} // verus!
