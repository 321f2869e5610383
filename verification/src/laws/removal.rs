//! What is removed, and when.
use crate::laws::history;
use crate::laws::history::{History, Rule};
use crate::laws::steps;
use crate::meta::{DirEntry, FileAttr, FileType};
use crate::ops::lookup;
use crate::ops::remove;
use crate::path;
use crate::script::{MetaRequest, Request, SpecReply, SpecRequest};
use crate::stat::FileStat;
use vstd::prelude::*;

verus! {

broadcast use {crate::script::group_bind, crate::laws::history::history_grows};

/// A request that removes the entry `name` of a directory, after that entry was found to be there
/// and to be no directory.
pub open spec fn unlinks_file(name: Seq<char>, h: History, q: SpecRequest) -> bool {
    exists|parent: i64, ino: i64, attr: FileAttr|
        {
            &&& q == Request::<Seq<char>, Seq<u8>>::Meta(MetaRequest::Unlink { parent, name })
            &&& #[trigger] history::found_child(h, parent, name, ino)
            &&& #[trigger] history::found_attr(h, ino, attr)
            &&& attr.kind != FileType::Dir
        }
}

/// A request that removes the directory `name` of a directory, after it was found to be there, to
/// be a directory and to be empty.
pub open spec fn removes_empty(name: Seq<char>, h: History, q: SpecRequest) -> bool {
    exists|parent: i64, ino: i64, attr: FileAttr, children: Seq<DirEntry<Seq<char>>>|
        {
            &&& q == Request::<Seq<char>, Seq<u8>>::Meta(MetaRequest::Rmdir { parent, name })
            &&& #[trigger] history::found_child(h, parent, name, ino)
            &&& #[trigger] history::found_attr(h, ino, attr)
            &&& attr.kind == FileType::Dir
            &&& #[trigger] history::found_children(h, ino, children)
            &&& children.len() == 0
        }
}

/// Nothing is changed but that a file of the given name is removed.
pub open spec fn unlink_rule(name: Seq<char>) -> Rule {
    |h: History, q: SpecRequest| history::changes(q) ==> unlinks_file(name, h, q)
}

/// Nothing is changed but that an empty directory of the given name is removed.
pub open spec fn rmdir_rule(name: Seq<char>) -> Rule {
    |h: History, q: SpecRequest| history::changes(q) ==> removes_empty(name, h, q)
}

/// Nothing is changed but that a file or an empty directory is removed.
pub open spec fn removal_rule() -> Rule {
    |h: History, q: SpecRequest|
        history::changes(q) ==> {
            ||| exists|name: Seq<char>| #[trigger] unlinks_file(name, h, q)
            ||| exists|name: Seq<char>| #[trigger] removes_empty(name, h, q)
        }
}

proof fn unlink_entry_ruled(path: Seq<char>, name: Seq<char>, parent: i64, h: History)
    ensures
        history::ruled(
            remove::unlink_entry(path, name, parent),
            h,
            unlink_rule(name),
            history::any_end::<()>(),
        ),
{
    reveal_with_fuel(history::ruled, 4);
    let rule = unlink_rule(name);
    let end = history::any_end::<()>();
    let s = remove::unlink_entry(path, name, parent);
    assert forall|reply: SpecReply| history::ruled(
        #[trigger] (s->Ask_1)(reply),
        h.push((s->Ask_0, reply)),
        rule,
        end,
    ) by {
        let h1 = h.push((s->Ask_0, reply));
        if let Ok(Some(ino)) = reply.child(path) {
            assert(history::found_child(h1, parent, name, ino));
            let s1 = remove::unlink_kind(path, name, parent, ino);
            assert forall|reply: SpecReply| history::ruled(
                #[trigger] (s1->Ask_1)(reply),
                h1.push((s1->Ask_0, reply)),
                rule,
                end,
            ) by {
                let h2 = h1.push((s1->Ask_0, reply));
                if let Ok(Some(attr)) = reply.attr(path) {
                    assert(history::found_attr(h2, ino, attr));
                    assert(history::found_child(h2, parent, name, ino));
                }
            }
        }
    }
}

/// `unlink` changes one thing at most: it removes the entry under the last name of its path, after
/// that was found to be there and to be no directory.
pub proof fn unlink_spares_directories(root_ino: i64, path: Seq<char>, h: History)
    ensures
        history::ruled(
            remove::unlink(root_ino, path),
            h,
            unlink_rule(path::file_name(path)),
            history::any_end::<()>(),
        ),
{
    let name = path::file_name(path);
    let rule = unlink_rule(name);
    steps::parent_dir_ruled(root_ino, path::parent(path), true, h, rule);
    let next = |parent: i64| remove::unlink_entry(path, path::file_name(path), parent);
    assert forall|g: History, parent: i64| #[trigger]
        history::any_end::<i64>()(g, Ok(parent)) implies history::ruled(
        next(parent),
        g,
        rule,
        history::any_end::<()>(),
    ) by {
        unlink_entry_ruled(path, name, parent, g);
    }
    history::ruled_and_next(
        lookup::parent_dir(root_ino, path::parent(path), true),
        h,
        rule,
        history::any_end::<i64>(),
        next,
        history::any_end::<()>(),
    );
}

proof fn rmdir_entry_ruled(path: Seq<char>, name: Seq<char>, parent: i64, h: History)
    ensures
        history::ruled(
            remove::rmdir_entry(path, name, parent),
            h,
            rmdir_rule(name),
            history::any_end::<()>(),
        ),
{
    reveal_with_fuel(history::ruled, 5);
    let rule = rmdir_rule(name);
    let end = history::any_end::<()>();
    let s = remove::rmdir_entry(path, name, parent);
    assert forall|reply: SpecReply| history::ruled(
        #[trigger] (s->Ask_1)(reply),
        h.push((s->Ask_0, reply)),
        rule,
        end,
    ) by {
        let h1 = h.push((s->Ask_0, reply));
        if let Ok(Some(ino)) = reply.child(path) {
            assert(history::found_child(h1, parent, name, ino));
            let s1 = remove::rmdir_kind(path, name, parent, ino);
            assert forall|reply: SpecReply| history::ruled(
                #[trigger] (s1->Ask_1)(reply),
                h1.push((s1->Ask_0, reply)),
                rule,
                end,
            ) by {
                let h2 = h1.push((s1->Ask_0, reply));
                if let Ok(Some(attr)) = reply.attr(path) {
                    assert(history::found_attr(h2, ino, attr));
                    assert(history::found_child(h2, parent, name, ino));
                    let s2 = remove::rmdir_children(path, name, parent, ino);
                    assert forall|reply: SpecReply|
                        attr.kind == FileType::Dir implies history::ruled(
                        #[trigger] (s2->Ask_1)(reply),
                        h2.push((s2->Ask_0, reply)),
                        rule,
                        end,
                    ) by {
                        let h3 = h2.push((s2->Ask_0, reply));
                        if let Ok(children) = reply.entries(path) {
                            assert(history::found_children(h3, ino, children));
                            assert(history::found_attr(h3, ino, attr));
                            assert(history::found_child(h3, parent, name, ino));
                        }
                    }
                }
            }
        }
    }
}

/// `rmdir` changes one thing at most: it removes the directory under the last name of its path,
/// after that was found to be there, to be a directory and to be empty.
pub proof fn rmdir_removes_only_empty(root_ino: i64, path: Seq<char>, h: History)
    ensures
        history::ruled(
            remove::rmdir(root_ino, path),
            h,
            rmdir_rule(path::file_name(path)),
            history::any_end::<()>(),
        ),
{
    if path != path::root() {
        let name = path::file_name(path);
        let rule = rmdir_rule(name);
        steps::parent_dir_ruled(root_ino, path::parent(path), true, h, rule);
        let next = |parent: i64| remove::rmdir_entry(path, path::file_name(path), parent);
        assert forall|g: History, parent: i64| #[trigger]
            history::any_end::<i64>()(g, Ok(parent)) implies history::ruled(
            next(parent),
            g,
            rule,
            history::any_end::<()>(),
        ) by {
            rmdir_entry_ruled(path, name, parent, g);
        }
        history::ruled_and_next(
            lookup::parent_dir(root_ino, path::parent(path), true),
            h,
            rule,
            history::any_end::<i64>(),
            next,
            history::any_end::<()>(),
        );
    }
}

/// `unlink` and `rmdir`, recorded in the access log, remove only a file or an empty directory.
pub proof fn logged_removals_ruled(log: bool, root_ino: i64, path: Seq<char>, h: History)
    ensures
        history::ruled(
            remove::logged_unlink(log, root_ino, path),
            h,
            removal_rule(),
            history::any_end::<()>(),
        ),
        history::ruled(
            remove::logged_rmdir(log, root_ino, path),
            h,
            removal_rule(),
            history::any_end::<()>(),
        ),
{
    let p = path::normalize(path);
    let name = path::file_name(p);
    let end = history::any_end::<()>();
    assert forall|g: History| #[trigger]
        history::ruled(remove::unlink(root_ino, p), g, removal_rule(), end) by {
        unlink_spares_directories(root_ino, p, g);
        history::ruled_weaken(
            remove::unlink(root_ino, p),
            g,
            unlink_rule(name),
            end,
            removal_rule(),
            end,
        );
    }
    assert forall|g: History| #[trigger]
        history::ruled(remove::rmdir(root_ino, p), g, removal_rule(), end) by {
        rmdir_removes_only_empty(root_ino, p, g);
        history::ruled_weaken(
            remove::rmdir(root_ino, p),
            g,
            rmdir_rule(name),
            end,
            removal_rule(),
            end,
        );
    }
    history::ruled_logged(
        log,
        "unlink"@,
        p,
        remove::unlink(root_ino, p),
        h,
        removal_rule(),
        end,
    );
    history::ruled_logged(log, "rmdir"@, p, remove::rmdir(root_ino, p), h, removal_rule(), end);
}

/// `remove` removes only a file or an empty directory.
pub proof fn remove_spares_full_directories(log: bool, root_ino: i64, path: Seq<char>, h: History)
    ensures
        history::ruled(
            remove::remove(log, root_ino, path),
            h,
            removal_rule(),
            history::any_end::<()>(),
        ),
{
    steps::resolve_ruled(path, false, h, removal_rule());
    let next = |info: FileStat<Seq<char>>|
        remove::remove_kind(log, root_ino, path, info.attr.kind);
    assert forall|g: History, info: FileStat<Seq<char>>| #[trigger]
        history::any_end::<FileStat<Seq<char>>>()(g, Ok(info)) implies history::ruled(
        next(info),
        g,
        removal_rule(),
        history::any_end::<()>(),
    ) by {
        logged_removals_ruled(log, root_ino, path, g);
    }
    history::ruled_and_next(
        lookup::resolve(path, false),
        h,
        removal_rule(),
        history::any_end::<FileStat<Seq<char>>>(),
        next,
        history::any_end::<()>(),
    );
}

} // verus!
