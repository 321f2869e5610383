//! What renaming and linking may change.
use crate::laws::history;
use crate::laws::history::{History, Rule};
use crate::laws::making;
use crate::laws::steps;
use crate::meta::{DirEntry, FileAttr, FileType};
use crate::ops::link;
use crate::ops::link::NewLink;
use crate::ops::lookup;
use crate::ops::mkdir;
use crate::ops::rename;
use crate::ops::rename::Move;
use crate::path;
use crate::path::Spot;
use crate::script::{MetaRequest, Reply, Request, SpecError, SpecReply, SpecRequest};
use vstd::prelude::*;

verus! {

broadcast use {crate::script::group_bind, crate::laws::history::history_grows};

/// The source was found: the inode `ino`, with the attributes `attr`, under its name in the
/// directory `old_parent`.
pub open spec fn found_source(
    m: Move<Seq<char>>,
    h: History,
    old_parent: i64,
    ino: i64,
    attr: FileAttr,
) -> bool {
    history::found_child(h, old_parent, m.old_name, ino) && history::found_attr(h, ino, attr)
}

/// The request that removes something of the given kind from the destination.
pub open spec fn clear_for(m: Move<Seq<char>>, kind: FileType, parent: i64) -> SpecRequest {
    rename::clear_request(m, kind == FileType::Dir, parent)
}

/// A request that removes what stands at the destination, after that was found to be of the same
/// sort as the source: both are directories, and the one at the destination is empty, or neither
/// is one.
pub open spec fn clears_destination(m: Move<Seq<char>>, h: History, q: SpecRequest) -> bool {
    exists|old_parent: i64, ino: i64, attr: FileAttr, dest: i64, kind: FileType, parent: i64|
        {
            &&& #[trigger] found_source(m, h, old_parent, ino, attr)
            &&& #[trigger] history::found_entry(h, m.new, dest, kind)
            &&& (kind == FileType::Dir) == (attr.kind == FileType::Dir)
            &&& kind == FileType::Dir ==> history::found_children(h, dest, Seq::empty())
            &&& q == #[trigger] clear_for(m, kind, parent)
        }
}

/// A request that moves the source, after it was found, into a directory.
pub open spec fn moves_source(
    root_ino: i64,
    m: Move<Seq<char>>,
    h: History,
    q: SpecRequest,
) -> bool {
    exists|old_parent: i64, ino: i64, attr: FileAttr, new_parent: i64|
        {
            &&& #[trigger] found_source(m, h, old_parent, ino, attr)
            &&& #[trigger] making::is_dir(root_ino, h, new_parent)
            &&& q == move_request(m, old_parent, new_parent)
        }
}

/// The request that moves the source.
pub open spec fn move_request(m: Move<Seq<char>>, old_parent: i64, new_parent: i64) -> SpecRequest {
    Request::Meta(
        MetaRequest::Rename { old_parent, old_name: m.old_name, new_parent, new_name: m.new_name },
    )
}

/// Nothing is changed but that the destination is cleared, its directories are made, and the
/// source is moved.
pub open spec fn rename_rule(root_ino: i64, m: Move<Seq<char>>) -> Rule {
    |h: History, q: SpecRequest|
        history::changes(q) ==> {
            ||| clears_destination(m, h, q)
            ||| making::makes_missing_dir(path::components(m.new_dir), h, q)
            ||| moves_source(root_ino, m, h, q)
        }
}

/// Success means that the source was moved.
pub open spec fn moved(m: Move<Seq<char>>) -> spec_fn(History, Result<(), SpecError>) -> bool {
    |h: History, r: Result<(), SpecError>|
        r is Ok ==> exists|old_parent: i64, new_parent: i64|
            #[trigger] h.contains(
                (move_request(m, old_parent, new_parent), Reply::Unit(Ok(()))),
            )
}

proof fn rename_now_ruled(
    root_ino: i64,
    m: Move<Seq<char>>,
    old_parent: i64,
    ino: i64,
    attr: FileAttr,
    new_parent: i64,
    h: History,
)
    requires
        found_source(m, h, old_parent, ino, attr),
        making::is_dir(root_ino, h, new_parent),
    ensures
        history::ruled(
            rename::rename_now(m, old_parent, new_parent),
            h,
            rename_rule(root_ino, m),
            moved(m),
        ),
{
    reveal_with_fuel(history::ruled, 2);
    let s = rename::rename_now(m, old_parent, new_parent);
    assert(s->Ask_0 == move_request(m, old_parent, new_parent));
    assert forall|reply: SpecReply| history::ruled(
        #[trigger] (s->Ask_1)(reply),
        h.push((s->Ask_0, reply)),
        rename_rule(root_ino, m),
        moved(m),
    ) by {
        if reply.unit(m.new) is Ok {
            assert(h.push((s->Ask_0, reply)).contains(
                (move_request(m, old_parent, new_parent), Reply::Unit(Ok(()))),
            ));
        }
    }
}

proof fn rename_parents_ruled(
    root_ino: i64,
    m: Move<Seq<char>>,
    old_parent: i64,
    ino: i64,
    attr: FileAttr,
    h: History,
)
    requires
        found_source(m, h, old_parent, ino, attr),
    ensures
        history::ruled(
            rename::rename_parents(root_ino, m, old_parent),
            h,
            rename_rule(root_ino, m),
            moved(m),
        ),
{
    let rule = rename_rule(root_ino, m);
    let make = mkdir::mkdir_p(root_ino, m.new_dir);
    let strong = making::gives_dir(root_ino);
    let fact = |g: History| found_source(m, g, old_parent, ino, attr);
    making::mkdir_p_makes_what_is_missing(root_ino, m.new_dir, h);
    history::ruled_weaken(
        make,
        h,
        making::mkdir_rule(path::components(m.new_dir)),
        strong,
        rule,
        strong,
    );
    history::ruled_keeps(make, h, rule, strong, fact);
    let mid = |g: History, r: Result<i64, SpecError>| strong(g, r) && fact(g);
    let next = |new_parent: i64| rename::rename_now(m, old_parent, new_parent);
    assert forall|g: History, new_parent: i64| #[trigger]
        mid(g, Ok(new_parent)) implies history::ruled(next(new_parent), g, rule, moved(m)) by {
        rename_now_ruled(root_ino, m, old_parent, ino, attr, new_parent, g);
    }
    history::ruled_and_next(make, h, rule, mid, next, moved(m));
}

proof fn rename_clear_ruled(
    root_ino: i64,
    m: Move<Seq<char>>,
    old_parent: i64,
    ino: i64,
    attr: FileAttr,
    dest: i64,
    kind: FileType,
    new_parent: i64,
    h: History,
)
    requires
        found_source(m, h, old_parent, ino, attr),
        history::found_entry(h, m.new, dest, kind),
        (kind == FileType::Dir) == (attr.kind == FileType::Dir),
        kind == FileType::Dir ==> history::found_children(h, dest, Seq::empty()),
    ensures
        history::ruled(
            rename::rename_clear(root_ino, m, old_parent, kind == FileType::Dir, new_parent),
            h,
            rename_rule(root_ino, m),
            moved(m),
        ),
{
    reveal_with_fuel(history::ruled, 2);
    let s = rename::rename_clear(root_ino, m, old_parent, kind == FileType::Dir, new_parent);
    assert(s->Ask_0 == clear_for(m, kind, new_parent));
    assert(clears_destination(m, h, s->Ask_0));
    assert forall|reply: SpecReply| history::ruled(
        #[trigger] (s->Ask_1)(reply),
        h.push((s->Ask_0, reply)),
        rename_rule(root_ino, m),
        moved(m),
    ) by {
        let h1 = h.push((s->Ask_0, reply));
        assert(found_source(m, h1, old_parent, ino, attr));
        rename_parents_ruled(root_ino, m, old_parent, ino, attr, h1);
    }
}

proof fn rename_over_ruled(
    root_ino: i64,
    m: Move<Seq<char>>,
    old_parent: i64,
    ino: i64,
    attr: FileAttr,
    dest: i64,
    kind: FileType,
    new_parent: i64,
    h: History,
)
    requires
        found_source(m, h, old_parent, ino, attr),
        history::found_entry(h, m.new, dest, kind),
    ensures
        history::ruled(
            rename::rename_over(root_ino, m, old_parent, attr.kind, dest, kind, new_parent),
            h,
            rename_rule(root_ino, m),
            moved(m),
        ),
{
    reveal_with_fuel(history::ruled, 2);
    if (kind == FileType::Dir) == (attr.kind == FileType::Dir) {
        if kind == FileType::Dir {
            let s = rename::rename_children(root_ino, m, old_parent, dest, new_parent);
            assert forall|reply: SpecReply| history::ruled(
                #[trigger] (s->Ask_1)(reply),
                h.push((s->Ask_0, reply)),
                rename_rule(root_ino, m),
                moved(m),
            ) by {
                let h1 = h.push((s->Ask_0, reply));
                if let Ok(children) = reply.entries(m.new) {
                    if children.len() == 0 {
                        assert(children =~= Seq::<DirEntry<Seq<char>>>::empty());
                        assert(history::found_children(h1, dest, Seq::empty()));
                        assert(found_source(m, h1, old_parent, ino, attr));
                        assert(history::found_entry(h1, m.new, dest, kind));
                        rename_clear_ruled(
                            root_ino,
                            m,
                            old_parent,
                            ino,
                            attr,
                            dest,
                            kind,
                            new_parent,
                            h1,
                        );
                    }
                }
            }
        } else {
            rename_clear_ruled(root_ino, m, old_parent, ino, attr, dest, kind, new_parent, h);
        }
    }
}

proof fn rename_dest_ruled(
    root_ino: i64,
    m: Move<Seq<char>>,
    old_parent: i64,
    ino: i64,
    attr: FileAttr,
    h: History,
)
    requires
        found_source(m, h, old_parent, ino, attr),
    ensures
        history::ruled(
            rename::rename_dest(root_ino, m, old_parent, attr.kind),
            h,
            rename_rule(root_ino, m),
            moved(m),
        ),
{
    let rule = rename_rule(root_ino, m);
    let s = rename::rename_dest(root_ino, m, old_parent, attr.kind);
    assert forall|reply: SpecReply| history::ruled(
        #[trigger] (s->Ask_1)(reply),
        h.push((s->Ask_0, reply)),
        rule,
        moved(m),
    ) by {
        let h1 = h.push((s->Ask_0, reply));
        assert(found_source(m, h1, old_parent, ino, attr));
        match reply.entry(m.new) {
            Ok(Some((dest, kind))) => {
                assert(history::found_entry(h1, m.new, dest, kind));
                let fact = |g: History|
                    found_source(m, g, old_parent, ino, attr) && history::found_entry(
                        g,
                        m.new,
                        dest,
                        kind,
                    );
                let dir = lookup::parent_dir(root_ino, m.new_dir, false);
                steps::parent_dir_ruled(root_ino, m.new_dir, false, h1, rule);
                history::ruled_keeps(dir, h1, rule, history::any_end::<i64>(), fact);
                let mid = |g: History, r: Result<i64, SpecError>|
                    history::any_end::<i64>()(g, r) && fact(g);
                let next = |new_parent: i64|
                    rename::rename_over(root_ino, m, old_parent, attr.kind, dest, kind, new_parent);
                assert forall|g: History, new_parent: i64| #[trigger]
                    mid(g, Ok(new_parent)) implies history::ruled(
                    next(new_parent),
                    g,
                    rule,
                    moved(m),
                ) by {
                    rename_over_ruled(
                        root_ino,
                        m,
                        old_parent,
                        ino,
                        attr,
                        dest,
                        kind,
                        new_parent,
                        g,
                    );
                }
                history::ruled_and_next(dir, h1, rule, mid, next, moved(m));
            },
            _ => {
                rename_parents_ruled(root_ino, m, old_parent, ino, attr, h1);
            },
        }
    }
}

/// `rename` moves its source only after it was found, and clears the way only for something of the
/// same sort: an empty directory for a directory, anything else for anything else. Besides, it
/// makes only the directories above the destination that were not found. Where it succeeds, the
/// source was moved.
pub proof fn rename_replaces_like_by_like(
    root_ino: i64,
    old_path: Seq<char>,
    new_path: Seq<char>,
    h: History,
)
    ensures
        history::ruled(
            rename::rename(root_ino, old_path, new_path),
            h,
            rename_rule(root_ino, Move::of(old_path, new_path)),
            moved(Move::of(old_path, new_path)),
        ),
{
    let m = Move::of(old_path, new_path);
    let rule = rename_rule(root_ino, m);
    let dir = lookup::parent_dir(root_ino, path::parent(old_path), false);
    steps::parent_dir_ruled(root_ino, path::parent(old_path), false, h, rule);
    let next = |old_parent: i64|
        rename::rename_source(root_ino, Move::of(old_path, new_path), old_parent);
    assert forall|g: History, old_parent: i64| #[trigger]
        history::any_end::<i64>()(g, Ok(old_parent)) implies history::ruled(
        next(old_parent),
        g,
        rule,
        moved(m),
    ) by {
        reveal_with_fuel(history::ruled, 3);
        let s = rename::rename_source(root_ino, m, old_parent);
        assert forall|reply: SpecReply| history::ruled(
            #[trigger] (s->Ask_1)(reply),
            g.push((s->Ask_0, reply)),
            rule,
            moved(m),
        ) by {
            let g1 = g.push((s->Ask_0, reply));
            if let Ok(Some(ino)) = reply.child(m.old) {
                assert(history::found_child(g1, old_parent, m.old_name, ino));
                let s1 = rename::rename_kind(root_ino, m, old_parent, ino);
                assert forall|reply: SpecReply| history::ruled(
                    #[trigger] (s1->Ask_1)(reply),
                    g1.push((s1->Ask_0, reply)),
                    rule,
                    moved(m),
                ) by {
                    let g2 = g1.push((s1->Ask_0, reply));
                    if let Ok(Some(attr)) = reply.attr(m.old) {
                        assert(history::found_child(g2, old_parent, m.old_name, ino));
                        assert(history::found_attr(g2, ino, attr));
                        rename_dest_ruled(root_ino, m, old_parent, ino, attr, g2);
                    }
                }
            }
        }
    }
    history::ruled_and_next(dir, h, rule, history::any_end::<i64>(), next, moved(m));
}

/// A request that adds an entry to a directory, after it was found to be a directory and to hold
/// nothing of that name.
pub open spec fn adds_missing_entry(
    spot: Spot<Seq<char>>,
    new_link: NewLink<Seq<char>>,
    h: History,
    q: SpecRequest,
) -> bool {
    exists|parent: i64, attr: FileAttr|
        {
            &&& q == new_link.request(parent, spot.name)
            &&& #[trigger] history::found_attr(h, parent, attr)
            &&& attr.kind == FileType::Dir
            &&& #[trigger] history::found_no_child(h, parent, spot.name)
        }
}

/// Nothing is changed but that a missing entry is added.
pub open spec fn place_rule(spot: Spot<Seq<char>>, new_link: NewLink<Seq<char>>) -> Rule {
    |h: History, q: SpecRequest|
        history::changes(q) ==> adds_missing_entry(spot, new_link, h, q)
}

proof fn place_parent_ruled(
    spot: Spot<Seq<char>>,
    new_link: NewLink<Seq<char>>,
    parent: i64,
    h: History,
)
    ensures
        history::ruled(
            link::place_parent(spot, new_link, parent),
            h,
            place_rule(spot, new_link),
            history::any_end::<()>(),
        ),
{
    reveal_with_fuel(history::ruled, 4);
    let rule = place_rule(spot, new_link);
    let end = history::any_end::<()>();
    let s = link::place_parent(spot, new_link, parent);
    assert forall|reply: SpecReply| history::ruled(
        #[trigger] (s->Ask_1)(reply),
        h.push((s->Ask_0, reply)),
        rule,
        end,
    ) by {
        let h1 = h.push((s->Ask_0, reply));
        if let Ok(Some(attr)) = reply.attr(spot.dir) {
            assert(history::found_attr(h1, parent, attr));
            if attr.kind == FileType::Dir {
                let s1 = link::place_entry(spot, new_link, parent);
                assert forall|reply: SpecReply| history::ruled(
                    #[trigger] (s1->Ask_1)(reply),
                    h1.push((s1->Ask_0, reply)),
                    rule,
                    end,
                ) by {
                    let h2 = h1.push((s1->Ask_0, reply));
                    assert(history::found_attr(h2, parent, attr));
                    if let Ok(None) = reply.child(spot.path) {
                        assert(history::found_no_child(h2, parent, spot.name));
                    }
                }
            }
        }
    }
}

proof fn place_ruled(
    root_ino: i64,
    spot: Spot<Seq<char>>,
    new_link: NewLink<Seq<char>>,
    h: History,
)
    ensures
        history::ruled(
            link::place(root_ino, spot, new_link),
            h,
            place_rule(spot, new_link),
            history::any_end::<()>(),
        ),
{
    if spot.name.len() > 0 {
        let rule = place_rule(spot, new_link);
        steps::parent_dir_ruled(root_ino, spot.dir, false, h, rule);
        let next = |parent: i64| link::place_parent(spot, new_link, parent);
        assert forall|g: History, parent: i64| #[trigger]
            history::any_end::<i64>()(g, Ok(parent)) implies history::ruled(
            next(parent),
            g,
            rule,
            history::any_end::<()>(),
        ) by {
            place_parent_ruled(spot, new_link, parent, g);
        }
        history::ruled_and_next(
            lookup::parent_dir(root_ino, spot.dir, false),
            h,
            rule,
            history::any_end::<i64>(),
            next,
            history::any_end::<()>(),
        );
    }
}

/// `symlink` changes one thing at most: it adds a symbolic link with the target asked for, in a
/// directory in which nothing of its name was found.
pub proof fn symlink_overwrites_nothing(
    root_ino: i64,
    link_path: Seq<char>,
    target: Seq<char>,
    h: History,
)
    ensures
        history::ruled(
            link::symlink(root_ino, link_path, target),
            h,
            place_rule(Spot::of(link_path), NewLink::Symbolic { target }),
            history::any_end::<()>(),
        ),
{
    place_ruled(root_ino, Spot::of(link_path), NewLink::Symbolic { target }, h);
}

/// Nothing is changed but that an entry is added that was missing, for something else than a
/// directory that was found at the path `existing`.
pub open spec fn link_rule(existing: Seq<char>, spot: Spot<Seq<char>>) -> Rule {
    |h: History, q: SpecRequest|
        history::changes(q) ==> exists|ino: i64, kind: FileType|
            {
                &&& #[trigger] history::found_entry(h, existing, ino, kind)
                &&& kind != FileType::Dir
                &&& adds_missing_entry(spot, NewLink::Hard { ino }, h, q)
            }
}

/// `link` changes one thing at most: it adds an entry for the inode that was found at `existing`
/// and is no directory, in a directory in which nothing of its name was found.
pub proof fn link_overwrites_nothing(
    root_ino: i64,
    existing: Seq<char>,
    link_path: Seq<char>,
    h: History,
)
    ensures
        history::ruled(
            link::link(root_ino, existing, link_path),
            h,
            link_rule(existing, Spot::of(link_path)),
            history::any_end::<()>(),
        ),
{
    let spot = Spot::of(link_path);
    let rule = link_rule(existing, spot);
    let end = history::any_end::<()>();
    if existing != path::root() && link_path != path::root() {
        let s = link::link_source(root_ino, existing, spot);
        assert forall|reply: SpecReply| history::ruled(
            #[trigger] (s->Ask_1)(reply),
            h.push((s->Ask_0, reply)),
            rule,
            end,
        ) by {
            let h1 = h.push((s->Ask_0, reply));
            if let Ok(Some((ino, kind))) = reply.entry(existing) {
                if kind != FileType::Dir {
                    let fact = |g: History| history::found_entry(g, existing, ino, kind);
                    let rest = link::place(root_ino, spot, NewLink::Hard { ino });
                    assert(fact(h1));
                    place_ruled(root_ino, spot, NewLink::Hard { ino }, h1);
                    steps::rule_with_fact(
                        rest,
                        h1,
                        place_rule(spot, NewLink::Hard { ino }),
                        end,
                        fact,
                    );
                    history::ruled_weaken(
                        rest,
                        h1,
                        |g: History, q: SpecRequest|
                            place_rule(spot, NewLink::Hard { ino })(g, q) && fact(g),
                        end,
                        rule,
                        end,
                    );
                }
            }
        }
    }
}

} // verus!
