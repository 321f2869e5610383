//! Removing a directory with all that is in it.
use crate::error::{ErrorKind, FsError};
use crate::laws::history;
use crate::laws::history::{History, Rule};
use crate::laws::reading;
use crate::laws::removal;
use crate::meta::{DirEntry, FileType};
use crate::ops::attr;
use crate::ops::lookup;
use crate::ops::remove;
use crate::ops::remove_all;
use crate::path;
use crate::script;
use crate::script::{MetaRequest, Request, Script, SpecError, SpecReply, SpecRequest};
use vstd::prelude::*;

verus! {

broadcast use {crate::script::group_bind, crate::laws::history::history_grows};

/// The root is never removed: a path without components is refused before anything is asked.
pub proof fn remove_dir_all_refuses_root(log: bool, root_ino: i64, path: Seq<char>)
    requires
        path::components(path).len() == 0,
    ensures
        remove_all::remove_dir_all(log, root_ino, path) == Script::<()>::Done(
            Err(
                FsError {
                    kind: ErrorKind::PermissionDenied,
                    message: "cannot remove filesystem root"@,
                },
            ),
        ),
{
}

proof fn tree_ruled(log: bool, root_ino: i64, depth: nat, path: Seq<char>)
    ensures
        forall|h: History| #[trigger]
            history::ruled(
                remove_all::remove_tree(log, root_ino, depth, path),
                h,
                removal::removal_rule(),
                history::any_end::<()>(),
            ),
    decreases depth, 1nat, 0nat,
{
    let rule = removal::removal_rule();
    let list = attr::logged_readdir(log, path);
    let next = |entries: Seq<DirEntry<Seq<char>>>|
        remove_all::remove_entries(log, root_ino, depth, path, entries);
    reading::readdir_is_read_only(log, path);
    assert forall|h: History| #[trigger]
        history::ruled(list, h, rule, history::any_end::<Seq<DirEntry<Seq<char>>>>()) by {
        let end = history::any_end::<Seq<DirEntry<Seq<char>>>>();
        assert(history::ruled(list, h, history::keeps_all(), end));
        history::ruled_weaken(list, h, history::keeps_all(), end, rule, end);
    }
    assert forall|h: History, entries: Seq<DirEntry<Seq<char>>>| #[trigger]
        history::ruled(next(entries), h, rule, history::any_end::<()>()) by {
        entries_ruled(log, root_ino, depth, path, entries);
        assert(history::ruled(
            remove_all::remove_entries(log, root_ino, depth, path, entries),
            h,
            rule,
            history::any_end::<()>(),
        ));
    }
    history::always_and_next(list, rule, next);
    tree_is(log, root_ino, depth, path, next);
}

/// Unfolds `remove_tree`.
pub proof fn tree_is(
    log: bool,
    root_ino: i64,
    depth: nat,
    path: Seq<char>,
    next: spec_fn(Seq<DirEntry<Seq<char>>>) -> Script<()>,
)
    requires
        forall|entries: Seq<DirEntry<Seq<char>>>| #[trigger]
            next(entries) == remove_all::remove_entries(log, root_ino, depth, path, entries),
    ensures
        remove_all::remove_tree(log, root_ino, depth, path) == attr::logged_readdir(
            log,
            path,
        ).and_next(next),
{
    let list = attr::logged_readdir(log, path);
    let tree = remove_all::remove_tree(log, root_ino, depth, path);
    let k = choose|k: spec_fn(Seq<DirEntry<Seq<char>>>) -> Script<()>|
        tree == #[trigger] list.and_next(k) && (forall|e: Seq<DirEntry<Seq<char>>>| #[trigger]
            k(e) == next(e));
    assert(tree == list.and_next(k));
    assert(k =~= next);
}

/// Unfolds `remove_entries`.
pub proof fn entries_are(
    log: bool,
    root_ino: i64,
    depth: nat,
    path: Seq<char>,
    entries: Seq<DirEntry<Seq<char>>>,
) -> (first: Script<()>)
    requires
        entries.len() > 0,
    ensures
        first == (if entries[0].kind != FileType::Dir {
            remove::logged_unlink(
                log,
                root_ino,
                remove_all::child_path(path, entries[0].name),
            )
        } else if depth == 0 {
            script::fail(ErrorKind::Other, "directories are nested too deeply"@)
        } else {
            remove_all::remove_tree(
                log,
                root_ino,
                (depth - 1) as nat,
                remove_all::child_path(path, entries[0].name),
            )
        }),
        remove_all::remove_entries(log, root_ino, depth, path, entries) == first.and_next(
            |u: ()| remove_all::remove_entries(log, root_ino, depth, path, entries.skip(1)),
        ),
{
    let child = remove_all::child_path(path, entries[0].name);
    let first: Script<()> = if entries[0].kind != FileType::Dir {
        remove::logged_unlink(log, root_ino, child)
    } else if depth == 0 {
        script::fail(ErrorKind::Other, "directories are nested too deeply"@)
    } else {
        remove_all::remove_tree(log, root_ino, (depth - 1) as nat, child)
    };
    let next = |u: ()| remove_all::remove_entries(log, root_ino, depth, path, entries.skip(1));
    let all = remove_all::remove_entries(log, root_ino, depth, path, entries);
    let k = choose|k: spec_fn(()) -> Script<()>|
        all == #[trigger] first.and_next(k) && (forall|u: ()| #[trigger] k(u) == next(u));
    assert(all == first.and_next(k));
    assert(k =~= next);
    first
}

proof fn entries_ruled(
    log: bool,
    root_ino: i64,
    depth: nat,
    path: Seq<char>,
    entries: Seq<DirEntry<Seq<char>>>,
)
    ensures
        forall|h: History| #[trigger]
            history::ruled(
                remove_all::remove_entries(log, root_ino, depth, path, entries),
                h,
                removal::removal_rule(),
                history::any_end::<()>(),
            ),
    decreases depth, 0nat, entries.len(),
{
    let rule = removal::removal_rule();
    if entries.len() == 0 {
        assert forall|h: History| #[trigger]
            history::ruled(
                remove_all::remove_entries(log, root_ino, depth, path, entries),
                h,
                rule,
                history::any_end::<()>(),
            ) by {
            removal::logged_removals_ruled(log, root_ino, path, h);
        }
    } else {
        let child = remove_all::child_path(path, entries[0].name);
        let first = entries_are(log, root_ino, depth, path, entries);
        if entries[0].kind == FileType::Dir && depth > 0 {
            tree_ruled(log, root_ino, (depth - 1) as nat, child);
        }
        assert forall|h: History| #[trigger]
            history::ruled(first, h, rule, history::any_end::<()>()) by {
            if entries[0].kind != FileType::Dir {
                removal::logged_removals_ruled(log, root_ino, child, h);
            }
        }
        let next = |u: ()|
            remove_all::remove_entries(log, root_ino, depth, path, entries.skip(1));
        entries_ruled(log, root_ino, depth, path, entries.skip(1));
        assert forall|h: History, u: ()| #[trigger]
            history::ruled(next(u), h, rule, history::any_end::<()>()) by {
            assert(history::ruled(
                remove_all::remove_entries(log, root_ino, depth, path, entries.skip(1)),
                h,
                rule,
                history::any_end::<()>(),
            ));
        }
        history::always_and_next(first, rule, next);
    }
}

/// `remove_dir_all` removes only files and directories that were found to be empty.
pub proof fn remove_dir_all_removes_step_by_step(
    log: bool,
    root_ino: i64,
    path: Seq<char>,
    h: History,
)
    ensures
        history::ruled(
            remove_all::remove_dir_all(log, root_ino, path),
            h,
            removal::removal_rule(),
            history::any_end::<()>(),
        ),
{
    if path::components(path).len() > 0 {
        tree_ruled(log, root_ino, u64::MAX as nat, path);
        assert(history::ruled(
            remove_all::remove_tree(log, root_ino, u64::MAX as nat, path),
            h,
            removal::removal_rule(),
            history::any_end::<()>(),
        ));
    }
}

/// Whether the path `p` begins with the components `base`.
pub open spec fn below(base: Seq<Seq<char>>, p: Seq<char>) -> bool {
    base.is_prefix_of(path::components(p))
}

/// The entry `name` of the directory `parent` stands at a path that begins with the components
/// `base`: the directory is the root, or it was found at a path.
pub open spec fn known_entry(
    base: Seq<Seq<char>>,
    root_ino: i64,
    h: History,
    parent: i64,
    name: Seq<char>,
) -> bool {
    ||| parent == root_ino && base.is_prefix_of(seq![name])
    ||| exists|dir: Seq<char>|
        base.is_prefix_of(path::components(dir).push(name)) && #[trigger] history::found_entry(
            h,
            dir,
            parent,
            FileType::Dir,
        )
}

/// Every path that is looked up begins with the components `base` or is that of the directory that
/// holds `base`, and every entry that is removed stands at a path that begins with `base`.
pub open spec fn confined(base: Seq<Seq<char>>, root_ino: i64) -> Rule {
    |h: History, q: SpecRequest|
        match q {
            Request::Meta(MetaRequest::LookupPath { path }) => below(base, path)
                || path::components(path) == base.drop_last(),
            Request::Meta(MetaRequest::Unlink { parent, name }) => known_entry(
                base,
                root_ino,
                h,
                parent,
                name,
            ),
            Request::Meta(MetaRequest::Rmdir { parent, name }) => known_entry(
                base,
                root_ino,
                h,
                parent,
                name,
            ),
            _ => true,
        }
}

proof fn lemma_prefix_of_init(base: Seq<Seq<char>>, parts: Seq<Seq<char>>, last: Seq<char>)
    requires
        base.is_prefix_of(parts.push(last)),
        base.len() > 0,
    ensures
        base.is_prefix_of(parts) || parts == base.drop_last(),
{
    if base.len() <= parts.len() {
        assert(base =~= parts.subrange(0, base.len() as int)) by {
            assert forall|i: int| 0 <= i < base.len() implies base[i] == parts[i] by {
                assert(parts.push(last).subrange(0, base.len() as int)[i] == base[i]);
            }
        }
    } else {
        assert(parts =~= base.drop_last()) by {
            assert forall|i: int| 0 <= i < parts.len() implies base[i] == parts[i] by {
                assert(parts.push(last).subrange(0, base.len() as int)[i] == base[i]);
            }
        }
    }
}

proof fn lemma_prefix_of_join(base: Seq<Seq<char>>, a: Seq<Seq<char>>, b: Seq<Seq<char>>)
    requires
        base.is_prefix_of(a),
    ensures
        base.is_prefix_of(a + b),
{
    assert((a + b).subrange(0, base.len() as int) =~= a.subrange(0, base.len() as int));
}

/// The directory of an entry below `base`.
proof fn parent_dir_confined(base: Seq<Seq<char>>, root_ino: i64, p: Seq<char>, h: History)
    requires
        below(base, p),
        base.len() > 0,
    ensures
        history::ruled(
            lookup::parent_dir(root_ino, path::parent(path::normalize(p)), true),
            h,
            confined(base, root_ino),
            |g: History, r: Result<i64, SpecError>|
                r matches Ok(ino) ==> known_entry(
                    base,
                    root_ino,
                    g,
                    ino,
                    path::file_name(path::normalize(p)),
                ),
        ),
{
    reveal_with_fuel(history::ruled, 3);
    let dir = path::parent(path::normalize(p));
    let name = path::file_name(path::normalize(p));
    path::normalize_keeps_components(p);
    path::lemma_no_components();
    path::split_of_normalized(p);
    lemma_prefix_of_init(base, path::components(dir), name);
    if dir == path::root() {
        assert(path::components(dir).push(name) =~= seq![name]);
    } else {
        let s = lookup::parent_lookup(dir, true);
        let end = |g: History, r: Result<i64, SpecError>|
            r matches Ok(ino) ==> known_entry(base, root_ino, g, ino, name);
        assert forall|reply: SpecReply| history::ruled(
            #[trigger] (s->Ask_1)(reply),
            h.push((s->Ask_0, reply)),
            confined(base, root_ino),
            end,
        ) by {
            if let Ok(Some((ino, kind))) = reply.entry(dir) {
                assert(history::found_entry(h.push((s->Ask_0, reply)), dir, ino, kind));
            }
        }
    }
}

proof fn known_entry_stays(
    base: Seq<Seq<char>>,
    root_ino: i64,
    h: History,
    e: history::Exchange,
    ino: i64,
    name: Seq<char>,
)
    requires
        known_entry(base, root_ino, h, ino, name),
    ensures
        known_entry(base, root_ino, h.push(e), ino, name),
{
    if !(ino == root_ino && base.is_prefix_of(seq![name])) {
        let dir = choose|dir: Seq<char>|
            base.is_prefix_of(path::components(dir).push(name)) && #[trigger] history::found_entry(
                h,
                dir,
                ino,
                FileType::Dir,
            );
        assert(history::found_entry(h.push(e), dir, ino, FileType::Dir));
    }
}

proof fn unlink_entry_confined(
    base: Seq<Seq<char>>,
    root_ino: i64,
    path: Seq<char>,
    name: Seq<char>,
    parent: i64,
    h: History,
)
    requires
        known_entry(base, root_ino, h, parent, name),
    ensures
        history::ruled(
            remove::unlink_entry(path, name, parent),
            h,
            confined(base, root_ino),
            history::any_end::<()>(),
        ),
{
    reveal_with_fuel(history::ruled, 4);
    let rule = confined(base, root_ino);
    let end = history::any_end::<()>();
    let s = remove::unlink_entry(path, name, parent);
    assert forall|reply: SpecReply| history::ruled(
        #[trigger] (s->Ask_1)(reply),
        h.push((s->Ask_0, reply)),
        rule,
        end,
    ) by {
        let h1 = h.push((s->Ask_0, reply));
        known_entry_stays(base, root_ino, h, (s->Ask_0, reply), parent, name);
        if let Ok(Some(ino)) = reply.child(path) {
            let s1 = remove::unlink_kind(path, name, parent, ino);
            assert forall|reply: SpecReply| history::ruled(
                #[trigger] (s1->Ask_1)(reply),
                h1.push((s1->Ask_0, reply)),
                rule,
                end,
            ) by {
                known_entry_stays(base, root_ino, h1, (s1->Ask_0, reply), parent, name);
            }
        }
    }
}

proof fn rmdir_entry_confined(
    base: Seq<Seq<char>>,
    root_ino: i64,
    path: Seq<char>,
    name: Seq<char>,
    parent: i64,
    h: History,
)
    requires
        known_entry(base, root_ino, h, parent, name),
    ensures
        history::ruled(
            remove::rmdir_entry(path, name, parent),
            h,
            confined(base, root_ino),
            history::any_end::<()>(),
        ),
{
    reveal_with_fuel(history::ruled, 5);
    let rule = confined(base, root_ino);
    let end = history::any_end::<()>();
    let s = remove::rmdir_entry(path, name, parent);
    assert forall|reply: SpecReply| history::ruled(
        #[trigger] (s->Ask_1)(reply),
        h.push((s->Ask_0, reply)),
        rule,
        end,
    ) by {
        let h1 = h.push((s->Ask_0, reply));
        known_entry_stays(base, root_ino, h, (s->Ask_0, reply), parent, name);
        if let Ok(Some(ino)) = reply.child(path) {
            let s1 = remove::rmdir_kind(path, name, parent, ino);
            assert forall|reply: SpecReply| history::ruled(
                #[trigger] (s1->Ask_1)(reply),
                h1.push((s1->Ask_0, reply)),
                rule,
                end,
            ) by {
                let h2 = h1.push((s1->Ask_0, reply));
                known_entry_stays(base, root_ino, h1, (s1->Ask_0, reply), parent, name);
                let s2 = remove::rmdir_children(path, name, parent, ino);
                assert forall|reply: SpecReply| history::ruled(
                    #[trigger] (s2->Ask_1)(reply),
                    h2.push((s2->Ask_0, reply)),
                    rule,
                    end,
                ) by {
                    known_entry_stays(base, root_ino, h2, (s2->Ask_0, reply), parent, name);
                }
            }
        }
    }
}

proof fn logged_removals_confined(base: Seq<Seq<char>>, log: bool, root_ino: i64, p: Seq<char>)
    requires
        below(base, p),
        base.len() > 0,
    ensures
        forall|h: History| #[trigger]
            history::ruled(
                remove::logged_unlink(log, root_ino, p),
                h,
                confined(base, root_ino),
                history::any_end::<()>(),
            ),
        forall|h: History| #[trigger]
            history::ruled(
                remove::logged_rmdir(log, root_ino, p),
                h,
                confined(base, root_ino),
                history::any_end::<()>(),
            ),
{
    let path = path::normalize(p);
    let name = path::file_name(path);
    let rule = confined(base, root_ino);
    let dir = lookup::parent_dir(root_ino, path::parent(path), true);
    let mid = |g: History, r: Result<i64, SpecError>|
        r matches Ok(ino) ==> known_entry(base, root_ino, g, ino, name);
    path::normalize_keeps_components(p);
    path::lemma_no_components();
    assert forall|h: History| #[trigger]
        history::ruled(remove::unlink(root_ino, path), h, rule, history::any_end::<()>()) by {
        parent_dir_confined(base, root_ino, p, h);
        let next = |parent: i64| remove::unlink_entry(path, path::file_name(path), parent);
        assert forall|g: History, parent: i64| #[trigger] mid(g, Ok(parent)) implies history::ruled(
            next(parent),
            g,
            rule,
            history::any_end::<()>(),
        ) by {
            unlink_entry_confined(base, root_ino, path, name, parent, g);
        }
        history::ruled_and_next(dir, h, rule, mid, next, history::any_end::<()>());
    }
    assert forall|h: History| #[trigger]
        history::ruled(remove::rmdir(root_ino, path), h, rule, history::any_end::<()>()) by {
        parent_dir_confined(base, root_ino, p, h);
        let next = |parent: i64| remove::rmdir_entry(path, path::file_name(path), parent);
        assert forall|g: History, parent: i64| #[trigger] mid(g, Ok(parent)) implies history::ruled(
            next(parent),
            g,
            rule,
            history::any_end::<()>(),
        ) by {
            rmdir_entry_confined(base, root_ino, path, name, parent, g);
        }
        history::ruled_and_next(dir, h, rule, mid, next, history::any_end::<()>());
    }
    history::always_logged(log, "unlink"@, path, remove::unlink(root_ino, path), rule);
    history::always_logged(log, "rmdir"@, path, remove::rmdir(root_ino, path), rule);
}

proof fn readdir_confined(base: Seq<Seq<char>>, log: bool, root_ino: i64, p: Seq<char>)
    requires
        below(base, p),
    ensures
        forall|h: History| #[trigger]
            history::ruled(
                attr::logged_readdir(log, p),
                h,
                confined(base, root_ino),
                history::any_end::<Seq<DirEntry<Seq<char>>>>(),
            ),
{
    reveal_with_fuel(history::ruled, 3);
    let path = path::normalize(p);
    let rule = confined(base, root_ino);
    path::normalize_keeps_components(p);
    assert forall|h: History| #[trigger]
        history::ruled(
            attr::readdir(path),
            h,
            rule,
            history::any_end::<Seq<DirEntry<Seq<char>>>>(),
        ) by {}
    history::always_logged(log, "readdir"@, path, attr::readdir(path), rule);
}

/// The components of the path of an entry.
pub proof fn lemma_child_components(p: Seq<char>, name: Seq<char>)
    ensures
        path::components(remove_all::child_path(p, name)) == path::components(p)
            + path::components(name),
{
    path::lemma_no_components();
    if p == path::root() {
        path::lemma_components_join(Seq::empty(), name);
        assert(path::root() + name =~= Seq::<char>::empty().push('/') + name);
        assert(path::components(Seq::empty()) =~= path::components(p));
    } else {
        path::lemma_components_join(p, name);
        assert(p + path::root() + name =~= p.push('/') + name);
    }
}

proof fn tree_confined(
    base: Seq<Seq<char>>,
    log: bool,
    root_ino: i64,
    depth: nat,
    path: Seq<char>,
)
    requires
        below(base, path),
        base.len() > 0,
    ensures
        forall|h: History| #[trigger]
            history::ruled(
                remove_all::remove_tree(log, root_ino, depth, path),
                h,
                confined(base, root_ino),
                history::any_end::<()>(),
            ),
    decreases depth, 1nat, 0nat,
{
    let rule = confined(base, root_ino);
    let next = |entries: Seq<DirEntry<Seq<char>>>|
        remove_all::remove_entries(log, root_ino, depth, path, entries);
    readdir_confined(base, log, root_ino, path);
    assert forall|h: History, entries: Seq<DirEntry<Seq<char>>>| #[trigger]
        history::ruled(next(entries), h, rule, history::any_end::<()>()) by {
        entries_confined(base, log, root_ino, depth, path, entries);
        assert(history::ruled(
            remove_all::remove_entries(log, root_ino, depth, path, entries),
            h,
            rule,
            history::any_end::<()>(),
        ));
    }
    history::always_and_next(attr::logged_readdir(log, path), rule, next);
    tree_is(log, root_ino, depth, path, next);
}

proof fn entries_confined(
    base: Seq<Seq<char>>,
    log: bool,
    root_ino: i64,
    depth: nat,
    path: Seq<char>,
    entries: Seq<DirEntry<Seq<char>>>,
)
    requires
        below(base, path),
        base.len() > 0,
    ensures
        forall|h: History| #[trigger]
            history::ruled(
                remove_all::remove_entries(log, root_ino, depth, path, entries),
                h,
                confined(base, root_ino),
                history::any_end::<()>(),
            ),
    decreases depth, 0nat, entries.len(),
{
    let rule = confined(base, root_ino);
    if entries.len() == 0 {
        logged_removals_confined(base, log, root_ino, path);
        assert(remove_all::remove_entries(log, root_ino, depth, path, entries)
            == remove::logged_rmdir(log, root_ino, path));
    } else {
        let child = remove_all::child_path(path, entries[0].name);
        let first = entries_are(log, root_ino, depth, path, entries);
        lemma_child_components(path, entries[0].name);
        lemma_prefix_of_join(
            base,
            path::components(path),
            path::components(entries[0].name),
        );
        if entries[0].kind != FileType::Dir {
            logged_removals_confined(base, log, root_ino, child);
        } else if depth > 0 {
            tree_confined(base, log, root_ino, (depth - 1) as nat, child);
        }
        assert forall|h: History| #[trigger]
            history::ruled(first, h, rule, history::any_end::<()>()) by {}
        let next = |u: ()|
            remove_all::remove_entries(log, root_ino, depth, path, entries.skip(1));
        entries_confined(base, log, root_ino, depth, path, entries.skip(1));
        assert forall|h: History, u: ()| #[trigger]
            history::ruled(next(u), h, rule, history::any_end::<()>()) by {
            assert(history::ruled(
                remove_all::remove_entries(log, root_ino, depth, path, entries.skip(1)),
                h,
                rule,
                history::any_end::<()>(),
            ));
        }
        history::always_and_next(first, rule, next);
    }
}

/// `remove_dir_all` stays in place: it looks up only the directory that holds the one to remove,
/// and paths that begin with the one to remove, and all that it removes stands at such a path.
pub proof fn remove_dir_all_stays_below(log: bool, root_ino: i64, path: Seq<char>, h: History)
    requires
        path::components(path).len() > 0,
    ensures
        history::ruled(
            remove_all::remove_dir_all(log, root_ino, path),
            h,
            confined(path::components(path), root_ino),
            history::any_end::<()>(),
        ),
{
    let base = path::components(path);
    assert(base.is_prefix_of(base)) by {
        assert(base.subrange(0, base.len() as int) =~= base);
    }
    tree_confined(base, log, root_ino, u64::MAX as nat, path);
    assert(history::ruled(
        remove_all::remove_tree(log, root_ino, u64::MAX as nat, path),
        h,
        confined(base, root_ino),
        history::any_end::<()>(),
    ));
}

} // verus!
