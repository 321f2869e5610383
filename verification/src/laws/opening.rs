//! What opening a file gives and what it may change.
use crate::error::ErrorKind;
use crate::file::File;
use crate::fs;
use crate::laws::history;
use crate::laws::history::{Exchange, History, Rule};
use crate::laws::making;
use crate::laws::sizes;
use crate::laws::steps;
use crate::meta::FileType;
use crate::ops::attr;
use crate::ops::create;
use crate::ops::lookup;
use crate::ops::open;
use crate::ops::open::Opening;
use crate::path;
use crate::path::Spot;
use crate::script::{Script, SpecError, SpecReply, SpecRequest};
use crate::stat::{FileStat, OpenFlags};
use vstd::prelude::*;

verus! {

broadcast use {crate::script::group_bind, crate::laws::history::history_grows};

/// Nothing is changed but what the flags ask for: a missing file is made, or a file is emptied.
pub open spec fn open_rule(o: Opening<Seq<char>>) -> Rule {
    |h: History, q: SpecRequest|
        history::changes(q) ==> {
            ||| o.flags.create && making::makes_missing_file(path::file_name(o.path), h, q)
            ||| o.flags.truncate && o.flags.write && sizes::resizes_file(
                path::normalize(o.path),
                0,
                h,
                q,
            )
        }
}

/// The file that had to be new was made.
pub open spec fn new_as_asked(o: Opening<Seq<char>>, h: History) -> bool {
    o.flags.create && o.flags.exclusive ==> making::file_was_made(h, path::file_name(o.path))
}

/// A handle at the beginning of something that is no directory, with the path and the flags that
/// were asked for.
pub open spec fn fresh_handle(o: Opening<Seq<char>>, f: File<Seq<char>>) -> bool {
    &&& f.info.attr.kind != FileType::Dir
    &&& f.path == o.path
    &&& f.flags == o.flags
    &&& f.log == o.log
    &&& f.offset == 0
    &&& f.inode == f.info.inode
}

/// Success gives a fresh handle, and the file is new where it had to be.
pub open spec fn opens(o: Opening<Seq<char>>) -> spec_fn(
    History,
    Result<File<Seq<char>>, SpecError>,
) -> bool {
    |h: History, r: Result<File<Seq<char>>, SpecError>|
        r matches Ok(f) ==> fresh_handle(o, f) && new_as_asked(o, h)
}

proof fn made_file_stays(o: Opening<Seq<char>>, h: History, e: Exchange)
    requires
        new_as_asked(o, h),
    ensures
        new_as_asked(o, h.push(e)),
{
    if o.flags.create && o.flags.exclusive {
        let name = path::file_name(o.path);
        let (parent, ino) = choose|parent: i64, ino: i64| #[trigger]
            history::made_file(h, parent, name, ino);
        assert(history::made_file(h.push(e), parent, name, ino));
    }
}

/// What was asked before goes on to hold after a script that only obeys the rule.
proof fn keeps_new<T>(o: Opening<Seq<char>>, s: Script<T>, h: History)
    requires
        history::ruled(s, h, open_rule(o), history::any_end::<T>()),
        new_as_asked(o, h),
    ensures
        history::ruled(
            s,
            h,
            open_rule(o),
            |g: History, r: Result<T, SpecError>| new_as_asked(o, g),
        ),
{
    let fact = |g: History| new_as_asked(o, g);
    assert forall|g: History, e: Exchange| fact(g) implies #[trigger] fact(g.push(e)) by {
        made_file_stays(o, g, e);
    }
    history::ruled_keeps(s, h, open_rule(o), history::any_end::<T>(), fact);
    history::ruled_weaken(
        s,
        h,
        open_rule(o),
        |g: History, r: Result<T, SpecError>| history::any_end::<T>()(g, r) && fact(g),
        open_rule(o),
        |g: History, r: Result<T, SpecError>| new_as_asked(o, g),
    );
}

proof fn open_handle_ruled(o: Opening<Seq<char>>, info: FileStat<Seq<char>>, h: History)
    requires
        info.attr.kind != FileType::Dir,
        new_as_asked(o, h),
    ensures
        history::ruled(open::open_handle(o, info), h, open_rule(o), opens(o)),
{
    reveal_with_fuel(history::ruled, 2);
    let s = open::open_handle(o, info);
    assert forall|reply: SpecReply| history::ruled(
        #[trigger] (s->Ask_1)(reply),
        h.push((s->Ask_0, reply)),
        open_rule(o),
        opens(o),
    ) by {
        made_file_stays(o, h, (s->Ask_0, reply));
    }
}

proof fn open_resolved_ruled(o: Opening<Seq<char>>, info: FileStat<Seq<char>>, h: History)
    requires
        new_as_asked(o, h),
    ensures
        history::ruled(open::open_resolved(o, info), h, open_rule(o), opens(o)),
{
    let rule = open_rule(o);
    if info.attr.kind != FileType::Dir {
        if o.flags.truncate && o.flags.write {
            let cut = attr::logged_truncate(o.log, o.path, 0);
            let p = path::normalize(o.path);
            sizes::truncate_resizes_files_only(o.log, o.path, 0, h);
            history::ruled_weaken(
                cut,
                h,
                sizes::resize_rule(p, 0),
                history::any_end::<()>(),
                rule,
                history::any_end::<()>(),
            );
            keeps_new(o, cut, h);
            let mid = |g: History, r: Result<(), SpecError>| new_as_asked(o, g);
            let next = |u: ()| open::open_handle(o, info);
            assert forall|g: History, u: ()| #[trigger] mid(g, Ok(u)) implies history::ruled(
                next(u),
                g,
                rule,
                opens(o),
            ) by {
                open_handle_ruled(o, info, g);
            }
            history::ruled_and_next(cut, h, rule, mid, next, opens(o));
        } else {
            open_handle_ruled(o, info, h);
        }
    }
}

proof fn open_existing_ruled(o: Opening<Seq<char>>, h: History)
    requires
        new_as_asked(o, h),
    ensures
        history::ruled(open::open_existing(o), h, open_rule(o), opens(o)),
{
    let rule = open_rule(o);
    let find = lookup::resolve(o.path, true);
    steps::resolve_ruled(o.path, true, h, rule);
    keeps_new(o, find, h);
    let mid = |g: History, r: Result<FileStat<Seq<char>>, SpecError>| new_as_asked(o, g);
    let next = |info: FileStat<Seq<char>>| open::open_resolved(o, info);
    assert forall|g: History, info: FileStat<Seq<char>>| #[trigger]
        mid(g, Ok(info)) implies history::ruled(next(info), g, rule, opens(o)) by {
        open_resolved_ruled(o, info, g);
    }
    history::ruled_and_next(find, h, rule, mid, next, opens(o));
}

proof fn open_or_create_ruled(
    root_ino: i64,
    o: Opening<Seq<char>>,
    r: Result<FileStat<Seq<char>>, SpecError>,
    h: History,
)
    requires
        o.flags.create,
    ensures
        history::ruled(
            open::open_or_create(root_ino, o, Spot::of(o.path), r),
            h,
            open_rule(o),
            opens(o),
        ),
{
    let rule = open_rule(o);
    match r {
        Ok(info) => {
            if !o.flags.exclusive && info.attr.kind != FileType::Dir {
                open_existing_ruled(o, h);
            }
        },
        Err(e) => {
            if e.kind == ErrorKind::NotFound {
                let spot = Spot::of(o.path);
                let make = create::create_in_dir(root_ino, spot, o.flags.exclusive);
                making::create_in_dir_overwrites_nothing(root_ino, spot, o.flags.exclusive, h);
                let strong = making::gives_file(spot.name, o.flags.exclusive);
                let mid = |g: History, r: Result<i64, SpecError>| r is Ok ==> new_as_asked(o, g);
                assert forall|g: History, r: Result<i64, SpecError>| #[trigger]
                    strong(g, r) implies mid(g, r) by {
                    if let Ok(ino) = r {
                        if o.flags.exclusive {
                            let parent = choose|parent: i64| #[trigger]
                                history::made_file(g, parent, spot.name, ino);
                            assert(history::made_file(g, parent, spot.name, ino));
                        }
                    }
                }
                history::ruled_weaken(
                    make,
                    h,
                    making::create_rule(spot.name),
                    strong,
                    rule,
                    mid,
                );
                let next = |ino: i64| open::open_existing(o);
                assert forall|g: History, ino: i64| #[trigger]
                    mid(g, Ok(ino)) implies history::ruled(next(ino), g, rule, opens(o)) by {
                    open_existing_ruled(o, g);
                }
                history::ruled_and_next(make, h, rule, mid, next, opens(o));
            }
        },
    }
}

/// Opening a file gives a handle at the beginning of something that is no directory, and changes
/// nothing but what the flags ask for: where they ask to create, a file that was not found is
/// made; where they ask to truncate and to write, a file is emptied. Where the file had to be new,
/// success means that it was made.
pub proof fn open_keeps_to_its_flags(
    log: bool,
    root_ino: i64,
    path: Seq<char>,
    flags: OpenFlags,
    h: History,
)
    ensures
        ({
            let o = Opening { path: path::normalize(path), flags, log };
            history::ruled(
                fs::logged_open(log, root_ino, path, flags),
                h,
                open_rule(o),
                opens(o),
            )
        }),
{
    let p = path::normalize(path);
    let o = Opening { path: p, flags, log };
    let rule = open_rule(o);
    let inner = open::open_file(root_ino, o);
    assert forall|g: History| #[trigger] history::ruled(inner, g, rule, opens(o)) by {
        if flags.create {
            let find = lookup::resolve(p, true);
            steps::resolve_ruled(p, true, g, rule);
            let next = |r: Result<FileStat<Seq<char>>, SpecError>|
                open::open_or_create(root_ino, o, Spot::of(o.path), r);
            let mid = history::any_end::<FileStat<Seq<char>>>();
            assert forall|g: History, r: Result<FileStat<Seq<char>>, SpecError>| #[trigger]
                mid(g, r) implies history::ruled(next(r), g, rule, opens(o)) by {
                open_or_create_ruled(root_ino, o, r, g);
            }
            history::ruled_bind(find, g, rule, mid, next, opens(o));
        } else {
            open_existing_ruled(o, g);
        }
    }
    assert forall|
        g: History,
        q: crate::script::LogRequest<Seq<char>>,
        reply: SpecReply,
        r: Result<File<Seq<char>>, SpecError>,
    |
        opens(o)(g, r) implies #[trigger] opens(o)(
        g.push((crate::script::Request::Log(q), reply)),
        r,
    ) by {
        if r is Ok {
            made_file_stays(o, g, (crate::script::Request::Log(q), reply));
        }
    }
    history::ruled_logged(log, "open"@, p, inner, h, rule, opens(o));
}

/// Opening a directory fails, whatever the flags are.
pub proof fn open_refuses_directories(o: Opening<Seq<char>>, info: FileStat<Seq<char>>)
    requires
        info.attr.kind == FileType::Dir,
    ensures
        open::open_resolved(o, info) is Done,
        open::open_resolved(o, info)->Done_0 is Err,
        open::lopen_resolved(o, info) is Done,
        open::lopen_resolved(o, info)->Done_0 is Err,
{
}

/// Where a file has to be new and something is found at its path, opening fails at once.
pub proof fn exclusive_open_refuses_existing(
    root_ino: i64,
    o: Opening<Seq<char>>,
    info: FileStat<Seq<char>>,
)
    requires
        o.flags.exclusive,
    ensures
        open::open_or_create(root_ino, o, Spot::of(o.path), Ok(info)) == crate::script::fail::<
            File<Seq<char>>,
        >(ErrorKind::AlreadyExists, "file already exists"@),
{
}

} // verus!
