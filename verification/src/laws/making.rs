//! What is made, and when.
use crate::laws::history;
use crate::laws::history::{History, Rule};
use crate::laws::steps;
use crate::meta::{FileAttr, FileType};
use crate::ops::create;
use crate::ops::lookup;
use crate::ops::mkdir;
use crate::path;
use crate::path::Spot;
use crate::script::{MetaRequest, Reply, Request, Script, SpecError, SpecReply, SpecRequest};
use vstd::prelude::*;

verus! {

broadcast use {crate::script::group_bind, crate::laws::history::history_grows};

/// A request that makes a directory under one of `names`, after nothing was found there.
pub open spec fn makes_missing_dir(
    names: Seq<Seq<char>>,
    h: History,
    q: SpecRequest,
) -> bool {
    exists|parent: i64, name: Seq<char>|
        {
            &&& q == Request::<Seq<char>, Seq<u8>>::Meta(MetaRequest::Mkdir { parent, name })
            &&& #[trigger] history::found_no_child(h, parent, name)
            &&& names.contains(name)
        }
}

/// Nothing is changed but that missing directories are made under some of `names`.
pub open spec fn mkdir_rule(names: Seq<Seq<char>>) -> Rule {
    |h: History, q: SpecRequest| history::changes(q) ==> makes_missing_dir(names, h, q)
}

/// A directory `name` was found or made.
pub open spec fn dir_is_there(h: History, name: Seq<char>) -> bool {
    ||| exists|parent: i64, ino: i64, attr: FileAttr|
        {
            &&& #[trigger] history::found_child(h, parent, name, ino)
            &&& #[trigger] history::found_attr(h, ino, attr)
            &&& attr.kind == FileType::Dir
        }
    ||| exists|parent: i64, ino: i64| #[trigger] history::made_dir(h, parent, name, ino)
}

proof fn mkdir_entry_ruled(path: Seq<char>, name: Seq<char>, parent: i64, h: History)
    ensures
        history::ruled(
            mkdir::mkdir_entry(path, name, parent),
            h,
            mkdir_rule(seq![name]),
            |g: History, r: Result<(), SpecError>| r is Ok ==> dir_is_there(g, name),
        ),
{
    reveal_with_fuel(history::ruled, 3);
    let rule = mkdir_rule(seq![name]);
    let end = |g: History, r: Result<(), SpecError>| r is Ok ==> dir_is_there(g, name);
    let s = mkdir::mkdir_entry(path, name, parent);
    assert(seq![name].contains(name)) by {
        assert(seq![name][0] == name);
    }
    assert forall|reply: SpecReply| history::ruled(
        #[trigger] (s->Ask_1)(reply),
        h.push((s->Ask_0, reply)),
        rule,
        end,
    ) by {
        let h1 = h.push((s->Ask_0, reply));
        match reply.child(path) {
            Ok(Some(ino)) => {
                assert(history::found_child(h1, parent, name, ino));
                let s1 = mkdir::mkdir_existing(path, ino);
                assert forall|reply: SpecReply| history::ruled(
                    #[trigger] (s1->Ask_1)(reply),
                    h1.push((s1->Ask_0, reply)),
                    rule,
                    end,
                ) by {
                    let h2 = h1.push((s1->Ask_0, reply));
                    if let Ok(Some(attr)) = reply.attr(path) {
                        assert(history::found_child(h2, parent, name, ino));
                        assert(history::found_attr(h2, ino, attr));
                    }
                }
            },
            Ok(None) => {
                assert(history::found_no_child(h1, parent, name));
                let s1 = mkdir::mkdir_now(path, name, parent);
                assert forall|reply: SpecReply| history::ruled(
                    #[trigger] (s1->Ask_1)(reply),
                    h1.push((s1->Ask_0, reply)),
                    rule,
                    end,
                ) by {
                    if let Ok(ino) = reply.inode(path) {
                        assert(history::made_dir(h1.push((s1->Ask_0, reply)), parent, name, ino));
                    }
                }
            },
            Err(_) => {},
        }
    }
}

/// `mkdir` changes one thing at most: it makes a directory under the last name of its path, after
/// nothing was found there. Where it succeeds, a directory is there, found or made; the root is
/// there in any case.
pub proof fn mkdir_makes_what_is_missing(root_ino: i64, path: Seq<char>, h: History)
    ensures
        history::ruled(
            mkdir::mkdir(root_ino, path),
            h,
            mkdir_rule(seq![path::file_name(path)]),
            |g: History, r: Result<(), SpecError>|
                r is Ok && path != path::root() ==> dir_is_there(g, path::file_name(path)),
        ),
{
    let name = path::file_name(path);
    let rule = mkdir_rule(seq![name]);
    let end = |g: History, r: Result<(), SpecError>|
        r is Ok && path != path::root() ==> dir_is_there(g, path::file_name(path));
    let strong = |g: History, r: Result<(), SpecError>| r is Ok ==> dir_is_there(g, name);
    if path != path::root() && name.len() > 0 {
        steps::parent_dir_ruled(root_ino, path::parent(path), true, h, rule);
        let next = |parent: i64| mkdir::mkdir_entry(path, path::file_name(path), parent);
        assert forall|g: History, parent: i64| #[trigger]
            history::any_end::<i64>()(g, Ok(parent)) implies history::ruled(
            next(parent),
            g,
            rule,
            end,
        ) by {
            mkdir_entry_ruled(path, name, parent, g);
            history::ruled_weaken(next(parent), g, rule, strong, rule, end);
        }
        history::ruled_and_next(
            lookup::parent_dir(root_ino, path::parent(path), true),
            h,
            rule,
            history::any_end::<i64>(),
            next,
            end,
        );
    }
}

/// Making the root asks nothing.
pub proof fn mkdir_root_asks_nothing(root_ino: i64)
    ensures
        mkdir::mkdir(root_ino, path::root()) == Script::<()>::Done(Ok(())),
        mkdir::mkdir_p(root_ino, path::root()) == Script::<i64>::Done(Ok(root_ino)),
{
    path::lemma_no_components();
}

/// The inode `ino` is that of a directory: the root, or one that was found or made.
pub open spec fn is_dir(root_ino: i64, h: History, ino: i64) -> bool {
    ||| ino == root_ino
    ||| exists|p: Seq<char>| #[trigger] history::found_entry(h, p, ino, FileType::Dir)
    ||| exists|attr: FileAttr| #[trigger]
        history::found_attr(h, ino, attr) && attr.kind == FileType::Dir
    ||| exists|parent: i64, name: Seq<char>| #[trigger] history::made_dir(h, parent, name, ino)
}

/// A directory was found or made where `mkdir_p` succeeds.
pub open spec fn gives_dir(root_ino: i64) -> spec_fn(History, Result<i64, SpecError>) -> bool {
    |h: History, r: Result<i64, SpecError>| r matches Ok(ino) ==> is_dir(root_ino, h, ino)
}

proof fn mkdir_p_below_ruled(
    root_ino: i64,
    above: Seq<char>,
    parts: Seq<Seq<char>>,
    ino: i64,
    names: Seq<Seq<char>>,
    h: History,
)
    requires
        is_dir(root_ino, h, ino),
        forall|i: int| 0 <= i < parts.len() ==> names.contains(#[trigger] parts[i]),
    ensures
        history::ruled(
            mkdir::mkdir_p_below(above, parts, ino),
            h,
            mkdir_rule(names),
            gives_dir(root_ino),
        ),
    decreases parts.len(),
{
    let rule = mkdir_rule(names);
    let end = gives_dir(root_ino);
    if parts.len() > 0 {
        reveal_with_fuel(history::ruled, 3);
        let name = parts[0];
        let rest = parts.skip(1);
        let here = above.push('/') + name;
        assert forall|i: int| 0 <= i < rest.len() implies names.contains(#[trigger] rest[i]) by {
            assert(rest[i] == parts[i + 1]);
        }
        let s = mkdir::mkdir_p_part(here, name, rest, ino);
        assert forall|reply: SpecReply| history::ruled(
            #[trigger] (s->Ask_1)(reply),
            h.push((s->Ask_0, reply)),
            rule,
            end,
        ) by {
            let h1 = h.push((s->Ask_0, reply));
            match reply.child(here) {
                Ok(Some(child)) => {
                    let s1 = mkdir::mkdir_p_kind(here, rest, child);
                    assert forall|reply: SpecReply| history::ruled(
                        #[trigger] (s1->Ask_1)(reply),
                        h1.push((s1->Ask_0, reply)),
                        rule,
                        end,
                    ) by {
                        let h2 = h1.push((s1->Ask_0, reply));
                        if let Ok(Some(attr)) = reply.attr(here) {
                            assert(history::found_attr(h2, child, attr));
                            if attr.kind == FileType::Dir {
                                mkdir_p_below_ruled(root_ino, here, rest, child, names, h2);
                            }
                        }
                    }
                },
                Ok(None) => {
                    assert(history::found_no_child(h1, ino, name));
                    let s1 = mkdir::mkdir_p_make(here, name, rest, ino);
                    assert forall|reply: SpecReply| history::ruled(
                        #[trigger] (s1->Ask_1)(reply),
                        h1.push((s1->Ask_0, reply)),
                        rule,
                        end,
                    ) by {
                        let h2 = h1.push((s1->Ask_0, reply));
                        if let Ok(child) = reply.inode(here) {
                            assert(history::made_dir(h2, ino, name, child));
                            mkdir_p_below_ruled(root_ino, here, rest, child, names, h2);
                        }
                    }
                },
                Err(_) => {},
            }
        }
    }
}

/// `mkdir_p` changes nothing but that it makes directories under components of its path, each
/// after nothing was found there. Where it succeeds, it gives the inode of a directory.
pub proof fn mkdir_p_makes_what_is_missing(root_ino: i64, path: Seq<char>, h: History)
    ensures
        history::ruled(
            mkdir::mkdir_p(root_ino, path),
            h,
            mkdir_rule(path::components(path)),
            gives_dir(root_ino),
        ),
{
    reveal_with_fuel(history::ruled, 2);
    let p = path::normalize(path);
    let names = path::components(path);
    path::normalize_keeps_components(path);
    if p != path::root() {
        let s = mkdir::mkdir_p_whole(root_ino, p);
        assert forall|reply: SpecReply| history::ruled(
            #[trigger] (s->Ask_1)(reply),
            h.push((s->Ask_0, reply)),
            mkdir_rule(names),
            gives_dir(root_ino),
        ) by {
            let h1 = h.push((s->Ask_0, reply));
            match reply.entry(p) {
                Ok(Some((ino, kind))) => {
                    assert(history::found_entry(h1, p, ino, kind));
                },
                Ok(None) => {
                    mkdir_p_below_ruled(
                        root_ino,
                        Seq::empty(),
                        path::components(p),
                        root_ino,
                        names,
                        h1,
                    );
                },
                Err(_) => {},
            }
        }
    }
}

/// `mkdir_p` on a directory that is there asks for nothing but that directory.
pub proof fn mkdir_p_keeps_existing(root_ino: i64, path: Seq<char>, ino: i64)
    requires
        path::normalize(path) != path::root(),
    ensures
        mkdir::mkdir_p(root_ino, path) is Ask,
        (mkdir::mkdir_p(root_ino, path)->Ask_1)(Reply::Entry(Ok(Some((ino, FileType::Dir)))))
            == Script::<i64>::Done(Ok(ino)),
{
}

/// A request that makes the file `name`, after nothing was found there.
pub open spec fn makes_missing_file(name: Seq<char>, h: History, q: SpecRequest) -> bool {
    exists|parent: i64|
        {
            &&& q == Request::<Seq<char>, Seq<u8>>::Meta(MetaRequest::CreateFile { parent, name })
            &&& #[trigger] history::found_no_child(h, parent, name)
        }
}

/// Nothing is changed but that a missing file of the given name is made.
pub open spec fn create_rule(name: Seq<char>) -> Rule {
    |h: History, q: SpecRequest| history::changes(q) ==> makes_missing_file(name, h, q)
}

/// A file `name` was made.
pub open spec fn file_was_made(h: History, name: Seq<char>) -> bool {
    exists|parent: i64, ino: i64| #[trigger] history::made_file(h, parent, name, ino)
}

/// The inode `ino` was found under `name`, and it was found to be no directory.
pub open spec fn file_is_there(h: History, name: Seq<char>, ino: i64) -> bool {
    exists|parent: i64, attr: FileAttr|
        {
            &&& #[trigger] history::found_child(h, parent, name, ino)
            &&& #[trigger] history::found_attr(h, ino, attr)
            &&& attr.kind != FileType::Dir
        }
}

/// A file `name` was made, or, unless it had to be new, something else than a directory was found
/// there.
pub open spec fn gives_file(name: Seq<char>, create_new: bool) -> spec_fn(
    History,
    Result<i64, SpecError>,
) -> bool {
    |h: History, r: Result<i64, SpecError>|
        r matches Ok(ino) ==> {
            ||| exists|parent: i64| #[trigger] history::made_file(h, parent, name, ino)
            ||| !create_new && file_is_there(h, name, ino)
        }
}

proof fn create_in_dir_entry_ruled(
    path: Seq<char>,
    name: Seq<char>,
    create_new: bool,
    parent: i64,
    h: History,
)
    ensures
        history::ruled(
            create::create_in_dir_entry(path, name, create_new, parent),
            h,
            create_rule(name),
            gives_file(name, create_new),
        ),
{
    reveal_with_fuel(history::ruled, 3);
    let rule = create_rule(name);
    let end = gives_file(name, create_new);
    let s = create::create_in_dir_entry(path, name, create_new, parent);
    assert forall|reply: SpecReply| history::ruled(
        #[trigger] (s->Ask_1)(reply),
        h.push((s->Ask_0, reply)),
        rule,
        end,
    ) by {
        let h1 = h.push((s->Ask_0, reply));
        match reply.child(path) {
            Ok(Some(ino)) => {
                assert(history::found_child(h1, parent, name, ino));
                let s1 = create::create_in_dir_existing(path, create_new, ino);
                assert forall|reply: SpecReply| history::ruled(
                    #[trigger] (s1->Ask_1)(reply),
                    h1.push((s1->Ask_0, reply)),
                    rule,
                    end,
                ) by {
                    let h2 = h1.push((s1->Ask_0, reply));
                    if let Ok(Some(attr)) = reply.attr(path) {
                        assert(history::found_child(h2, parent, name, ino));
                        assert(history::found_attr(h2, ino, attr));
                        assert(attr.kind != FileType::Dir ==> file_is_there(h2, name, ino));
                    }
                }
            },
            Ok(None) => {
                assert(history::found_no_child(h1, parent, name));
                let s1 = create::create_now(path, name, parent);
                assert forall|reply: SpecReply| history::ruled(
                    #[trigger] (s1->Ask_1)(reply),
                    h1.push((s1->Ask_0, reply)),
                    rule,
                    end,
                ) by {
                    if let Ok(ino) = reply.inode(path) {
                        assert(history::made_file(h1.push((s1->Ask_0, reply)), parent, name, ino));
                    }
                }
            },
            Err(_) => {},
        }
    }
}

/// Creating a file in a directory that exists changes one thing at most: it makes the file, after
/// nothing was found under its name. Where it succeeds, the file was made, or, unless it had to be
/// new, something else than a directory was found there.
pub proof fn create_in_dir_overwrites_nothing(
    root_ino: i64,
    spot: Spot<Seq<char>>,
    create_new: bool,
    h: History,
)
    ensures
        history::ruled(
            create::create_in_dir(root_ino, spot, create_new),
            h,
            create_rule(spot.name),
            gives_file(spot.name, create_new),
        ),
{
    if spot.path != path::root() && spot.name.len() > 0 {
        let rule = create_rule(spot.name);
        steps::parent_dir_ruled(root_ino, spot.dir, true, h, rule);
        let next = |parent: i64|
            create::create_in_dir_entry(spot.path, spot.name, create_new, parent);
        assert forall|g: History, parent: i64| #[trigger]
            history::any_end::<i64>()(g, Ok(parent)) implies history::ruled(
            next(parent),
            g,
            rule,
            gives_file(spot.name, create_new),
        ) by {
            create_in_dir_entry_ruled(spot.path, spot.name, create_new, parent, g);
        }
        history::ruled_and_next(
            lookup::parent_dir(root_ino, spot.dir, true),
            h,
            rule,
            history::any_end::<i64>(),
            next,
            gives_file(spot.name, create_new),
        );
    }
}

/// Nothing is changed but that missing directories are made under some of `names`, and the file
/// `name` is made after it was looked for.
pub open spec fn create_file_rule(names: Seq<Seq<char>>, name: Seq<char>) -> Rule {
    |h: History, q: SpecRequest|
        history::changes(q) ==> {
            ||| makes_missing_dir(names, h, q)
            ||| exists|parent: i64, reply: SpecReply|
                {
                    &&& q == Request::<Seq<char>, Seq<u8>>::Meta(
                        MetaRequest::CreateFile { parent, name },
                    )
                    &&& #[trigger] looked_for(h, parent, name, reply)
                }
        }
}

/// An entry was looked for, and `reply` came back.
pub open spec fn looked_for(h: History, parent: i64, name: Seq<char>, reply: SpecReply) -> bool {
    h.contains((Request::Meta(MetaRequest::Lookup { parent, name }), reply))
}

proof fn create_entry_ruled(
    path: Seq<char>,
    name: Seq<char>,
    dir: i64,
    names: Seq<Seq<char>>,
    h: History,
)
    ensures
        history::ruled(
            create::create_entry(path, name, dir),
            h,
            create_file_rule(names, name),
            gives_file(name, false),
        ),
{
    reveal_with_fuel(history::ruled, 4);
    let rule = create_file_rule(names, name);
    let end = gives_file(name, false);
    let s = create::create_entry(path, name, dir);
    let last = create::create_now(path, name, dir);
    assert forall|g: History, reply: SpecReply| #[trigger]
        looked_for(g, dir, name, reply) implies history::ruled(last, g, rule, end) by {
        assert forall|reply: SpecReply| history::ruled(
            #[trigger] (last->Ask_1)(reply),
            g.push((last->Ask_0, reply)),
            rule,
            end,
        ) by {
            if let Ok(ino) = reply.inode(path) {
                assert(history::made_file(g.push((last->Ask_0, reply)), dir, name, ino));
            }
        }
    }
    assert forall|reply: SpecReply| history::ruled(
        #[trigger] (s->Ask_1)(reply),
        h.push((s->Ask_0, reply)),
        rule,
        end,
    ) by {
        let h1 = h.push((s->Ask_0, reply));
        assert(looked_for(h1, dir, name, reply));
        if let Ok(Some(ino)) = reply.child(path) {
            assert(history::found_child(h1, dir, name, ino));
            let found = reply;
            let s1 = create::create_existing(path, name, dir, ino);
            assert forall|reply: SpecReply| history::ruled(
                #[trigger] (s1->Ask_1)(reply),
                h1.push((s1->Ask_0, reply)),
                rule,
                end,
            ) by {
                let h2 = h1.push((s1->Ask_0, reply));
                assert(looked_for(h2, dir, name, found));
                if let Ok(Some(attr)) = reply.attr(path) {
                    assert(history::found_child(h2, dir, name, ino));
                    assert(history::found_attr(h2, ino, attr));
                    assert(attr.kind != FileType::Dir ==> file_is_there(h2, name, ino));
                }
            }
        }
    }
}

/// `create_file` changes nothing but that it makes the directories of its path that were not
/// found, and the file after it was looked for. Where it succeeds, the file was made, or something
/// else than a directory was found there.
pub proof fn create_file_makes_what_is_missing(root_ino: i64, path: Seq<char>, h: History)
    ensures
        history::ruled(
            create::create_file(root_ino, path),
            h,
            create_file_rule(path::components(path::parent(path)), path::file_name(path)),
            gives_file(path::file_name(path), false),
        ),
{
    if path != path::root() {
        let name = path::file_name(path);
        let dir = path::parent(path);
        let names = path::components(dir);
        let rule = create_file_rule(names, name);
        let make = mkdir::mkdir_p(root_ino, dir);
        mkdir_p_makes_what_is_missing(root_ino, dir, h);
        history::ruled_weaken(
            make,
            h,
            mkdir_rule(names),
            gives_dir(root_ino),
            rule,
            history::any_end::<i64>(),
        );
        let next = |dir: i64| create::create_entry(path, path::file_name(path), dir);
        assert forall|g: History, ino: i64| #[trigger]
            history::any_end::<i64>()(g, Ok(ino)) implies history::ruled(
            next(ino),
            g,
            rule,
            gives_file(name, false),
        ) by {
            create_entry_ruled(path, name, ino, names, g);
        }
        history::ruled_and_next(
            make,
            h,
            rule,
            history::any_end::<i64>(),
            next,
            gives_file(name, false),
        );
    }
}

} // verus!
