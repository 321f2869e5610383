//! How a path is written does not matter.
use crate::fs;
use crate::meta::{DirEntry, FileType, SetAttrFlags, SetAttrRequest};
use crate::ops::attr;
use crate::ops::remove;
use crate::ops::remove_all;
use crate::laws::trees;
use crate::path;
use crate::stat::OpenFlags;
use vstd::prelude::*;

verus! {

broadcast use crate::script::group_bind;

/// Paths with the same components are the same to every operation on one path: leading, doubled
/// and trailing slashes change neither what is asked nor what is given.
pub proof fn spelling_does_not_matter(
    log: bool,
    root_ino: i64,
    p: Seq<char>,
    q: Seq<char>,
    flags: OpenFlags,
    attrs: SetAttrRequest,
    attr_flags: SetAttrFlags,
    size: u64,
    offset: u64,
    len: usize,
    data: Seq<u8>,
)
    requires
        path::components(p) == path::components(q),
    ensures
        path::normalize(p) == path::normalize(q),
        fs::logged_stat(log, p) == fs::logged_stat(log, q),
        fs::logged_lstat(log, p) == fs::logged_lstat(log, q),
        fs::logged_open(log, root_ino, p, flags) == fs::logged_open(log, root_ino, q, flags),
        fs::logged_lopen(log, p, flags) == fs::logged_lopen(log, q, flags),
        fs::logged_mkdir(log, root_ino, p) == fs::logged_mkdir(log, root_ino, q),
        fs::logged_mkdir_all(log, root_ino, p) == fs::logged_mkdir_all(log, root_ino, q),
        fs::logged_readlink(log, p) == fs::logged_readlink(log, q),
        fs::logged_set_attr(log, p, attrs, attr_flags) == fs::logged_set_attr(
            log,
            q,
            attrs,
            attr_flags,
        ),
        fs::logged_read_at(log, p, offset, len) == fs::logged_read_at(log, q, offset, len),
        fs::logged_write_at(log, p, offset, data) == fs::logged_write_at(log, q, offset, data),
        attr::logged_readdir(log, p) == attr::logged_readdir(log, q),
        attr::logged_truncate(log, p, size) == attr::logged_truncate(log, q, size),
        remove::logged_unlink(log, root_ino, p) == remove::logged_unlink(log, root_ino, q),
        remove::logged_rmdir(log, root_ino, p) == remove::logged_rmdir(log, root_ino, q),
{
    path::normalize_identifies_by_components(p, q);
}

/// The same for operations on two paths. The target of a symbolic link is taken as it is written.
pub proof fn spelling_of_both_does_not_matter(
    log: bool,
    root_ino: i64,
    p: Seq<char>,
    q: Seq<char>,
    r: Seq<char>,
    t: Seq<char>,
    target: Seq<char>,
)
    requires
        path::components(p) == path::components(q),
        path::components(r) == path::components(t),
    ensures
        fs::logged_rename(log, root_ino, p, r) == fs::logged_rename(log, root_ino, q, t),
        fs::logged_link(log, root_ino, p, r) == fs::logged_link(log, root_ino, q, t),
        fs::logged_symlink(log, root_ino, p, target) == fs::logged_symlink(
            log,
            root_ino,
            q,
            target,
        ),
{
    path::normalize_identifies_by_components(p, q);
    path::normalize_identifies_by_components(r, t);
}

proof fn same_tree(log: bool, root_ino: i64, depth: nat, p: Seq<char>, q: Seq<char>)
    requires
        path::components(p) == path::components(q),
    ensures
        remove_all::remove_tree(log, root_ino, depth, p) == remove_all::remove_tree(
            log,
            root_ino,
            depth,
            q,
        ),
    decreases depth, 1nat, 0nat,
{
    let f = |entries: Seq<DirEntry<Seq<char>>>|
        remove_all::remove_entries(log, root_ino, depth, p, entries);
    let g = |entries: Seq<DirEntry<Seq<char>>>|
        remove_all::remove_entries(log, root_ino, depth, q, entries);
    path::normalize_identifies_by_components(p, q);
    trees::tree_is(log, root_ino, depth, p, f);
    trees::tree_is(log, root_ino, depth, q, g);
    assert forall|entries: Seq<DirEntry<Seq<char>>>| #[trigger] f(entries) == g(entries) by {
        same_entries(log, root_ino, depth, p, q, entries);
    }
    assert(f =~= g);
}

proof fn same_entries(
    log: bool,
    root_ino: i64,
    depth: nat,
    p: Seq<char>,
    q: Seq<char>,
    entries: Seq<DirEntry<Seq<char>>>,
)
    requires
        path::components(p) == path::components(q),
    ensures
        remove_all::remove_entries(log, root_ino, depth, p, entries) == remove_all::remove_entries(
            log,
            root_ino,
            depth,
            q,
            entries,
        ),
    decreases depth, 0nat, entries.len(),
{
    path::normalize_identifies_by_components(p, q);
    if entries.len() > 0 {
        let name = entries[0].name;
        let c = remove_all::child_path(p, name);
        let d = remove_all::child_path(q, name);
        trees::lemma_child_components(p, name);
        trees::lemma_child_components(q, name);
        path::normalize_identifies_by_components(c, d);
        let first = trees::entries_are(log, root_ino, depth, p, entries);
        let second = trees::entries_are(log, root_ino, depth, q, entries);
        if entries[0].kind == FileType::Dir && depth > 0 {
            same_tree(log, root_ino, (depth - 1) as nat, c, d);
        }
        assert(first == second);
        same_entries(log, root_ino, depth, p, q, entries.skip(1));
        let f = |u: ()| remove_all::remove_entries(log, root_ino, depth, p, entries.skip(1));
        let g = |u: ()| remove_all::remove_entries(log, root_ino, depth, q, entries.skip(1));
        assert(f =~= g);
    }
}

/// The same for removing a directory with all that is in it.
pub proof fn spelling_of_trees_does_not_matter(
    log: bool,
    root_ino: i64,
    p: Seq<char>,
    q: Seq<char>,
)
    requires
        path::components(p) == path::components(q),
    ensures
        remove_all::remove_dir_all(log, root_ino, p) == remove_all::remove_dir_all(
            log,
            root_ino,
            q,
        ),
{
    if path::components(p).len() > 0 {
        same_tree(log, root_ino, u64::MAX as nat, p, q);
    }
}

} // verus!
