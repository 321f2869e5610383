//! Operations that only look.
use crate::file;
use crate::file::File;
use crate::fs;
use crate::laws::history;
use crate::laws::history::{Exchange, History, Rule};
use crate::laws::steps;
use crate::meta::FileLockQuery;
use crate::ops::adapt;
use crate::ops::attr;
use crate::ops::create;
use crate::ops::handle;
use crate::ops::io;
use crate::ops::link;
use crate::ops::lookup;
use crate::ops::open;
use crate::ops::open::Opening;
use crate::path;
use crate::path::Spot;
use crate::script::{LogRequest, Request, Script, SpecError, SpecReply, SpecRequest};
use crate::stat::{FileStat, OpenFlags, StatFs};
use vstd::prelude::*;

verus! {

broadcast use crate::script::group_bind;

proof fn resolve_reads(path: Seq<char>, follow_last: bool)
    ensures
        history::read_only(lookup::resolve(path, follow_last)),
{
    assert forall|h: History| #[trigger]
        history::ruled(
            lookup::resolve(path, follow_last),
            h,
            history::keeps_all(),
            history::any_end::<FileStat<Seq<char>>>(),
        ) by {
        steps::resolve_ruled(path, follow_last, h, history::keeps_all());
    }
}

/// `stat` and `lstat` change nothing.
pub proof fn stat_is_read_only(log: bool, path: Seq<char>)
    ensures
        history::read_only(fs::logged_stat(log, path)),
        history::read_only(fs::logged_lstat(log, path)),
{
    let p = path::normalize(path);
    resolve_reads(p, true);
    resolve_reads(p, false);
    history::always_logged(log, "stat"@, p, lookup::resolve(p, true), history::keeps_all());
    history::always_logged(log, "lstat"@, p, lookup::resolve(p, false), history::keeps_all());
}

/// Asking whether a path exists changes nothing.
pub proof fn exists_is_read_only(path: Seq<char>)
    ensures
        history::read_only(attr::path_exists(path)),
{
    reveal_with_fuel(history::ruled, 2);
}

/// Reading the statistics of the file system changes nothing.
pub proof fn stat_fs_is_read_only()
    ensures
        history::read_only(attr::stat_fs()),
        history::read_only(adapt::snapshot()),
{
    reveal_with_fuel(history::ruled, 2);
    history::always_and_next(
        attr::stat_fs(),
        history::keeps_all(),
        |s: StatFs| Script::Done(Ok(s.source())),
    );
}

/// Listing a directory changes nothing.
pub proof fn readdir_is_read_only(log: bool, path: Seq<char>)
    ensures
        history::read_only(attr::logged_readdir(log, path)),
{
    reveal_with_fuel(history::ruled, 3);
    let p = path::normalize(path);
    assert(history::read_only(attr::readdir(p)));
    history::always_logged(log, "readdir"@, p, attr::readdir(p), history::keeps_all());
}

/// Reading the target of a symbolic link changes nothing.
pub proof fn readlink_is_read_only(log: bool, path: Seq<char>)
    ensures
        history::read_only(fs::logged_readlink(log, path)),
{
    reveal_with_fuel(history::ruled, 3);
    let p = path::normalize(path);
    assert(history::read_only(link::readlink(p)));
    history::always_logged(log, "readlink"@, p, link::readlink(p), history::keeps_all());
}

/// Asking for a lock changes nothing.
pub proof fn get_plock_is_read_only(path: Seq<char>, query: FileLockQuery)
    ensures
        history::read_only(attr::get_plock(path, query)),
{
    reveal_with_fuel(history::ruled, 2);
    resolve_reads(path, true);
    history::always_and_next(
        lookup::resolve(path, true),
        history::keeps_all(),
        |info: FileStat<Seq<char>>| attr::get_plock_now(path, info.inode, query),
    );
}

proof fn read_inode_reads(path: Seq<char>, ino: i64, offset: u64, len: usize)
    ensures
        history::read_only(io::read_inode(path, ino, offset, len)),
{
    reveal_with_fuel(history::ruled, 4);
    assert(history::read_only(io::register(path, ino)));
    assert(history::read_only(io::read_channel(ino, offset, len)));
    history::always_and_next(
        io::register(path, ino),
        history::keeps_all(),
        |u: ()| io::read_channel(ino, offset, len),
    );
}

/// Reading from what a path leads to changes nothing.
pub proof fn read_at_is_read_only(log: bool, path: Seq<char>, offset: u64, len: usize)
    ensures
        history::read_only(fs::logged_read_at(log, path, offset, len)),
{
    let p = path::normalize(path);
    let next = |info: FileStat<Seq<char>>| io::read_inode(p, info.inode, offset, len);
    assert forall|h: History, info: FileStat<Seq<char>>| #[trigger]
        history::ruled(next(info), h, history::keeps_all(), history::any_end::<Seq<u8>>()) by {
        read_inode_reads(p, info.inode, offset, len);
        assert(history::read_only(next(info)));
    }
    resolve_reads(p, true);
    history::always_and_next(lookup::resolve(p, true), history::keeps_all(), next);
    history::always_logged(
        log,
        "read_at"@,
        p,
        io::read_at(p, offset, len),
        history::keeps_all(),
    );
}

proof fn read_file_reads(path: Seq<char>, ino: i64, offset: u64, len: usize, advance: bool)
    ensures
        history::read_only(handle::read_file(path, ino, offset, len, advance)),
{
    reveal_with_fuel(history::ruled, 2);
    read_inode_reads(path, ino, offset, len);
    history::always_and_next(
        io::read_inode(path, ino, offset, len),
        history::keeps_all(),
        |data: Seq<u8>| handle::read_done(data, advance),
    );
}

/// Reading from an open file changes nothing that a service keeps, and neither does asking for its
/// size or refreshing what the handle knows of it.
pub proof fn file_reads_are_read_only(f: File<Seq<char>>, len: usize, offset: u64)
    ensures
        history::read_only(file::logged_read(f, len)),
        history::read_only(file::logged_read_at(f, len, offset)),
        history::read_only(handle::file_size(f.path, f.inode)),
        history::read_only(handle::refresh_file(f.path, f.inode)),
{
    reveal_with_fuel(history::ruled, 3);
    read_file_reads(f.path, f.inode, f.offset, len, true);
    read_file_reads(f.path, f.inode, offset, len, false);
    let rule = history::keeps_all();
    if f.flags.read {
        let here = handle::read_file(f.path, f.inode, f.offset, len, true);
        history::always_logged(f.log, "read"@, f.path, here, rule);
        let there = handle::read_file(f.path, f.inode, offset, len, false);
        history::always_logged(f.log, "read_at"@, f.path, there, rule);
    } else {
        let refused = handle::not_readable::<Seq<u8>>();
        assert(history::read_only(refused));
        history::always_logged(f.log, "read"@, f.path, refused, rule);
        history::always_logged(f.log, "read_at"@, f.path, refused, rule);
    }
}

/// The data service replied with more than `len` bytes.
pub open spec fn overlong(h: History, len: usize) -> bool {
    exists|q: SpecRequest, data: Seq<u8>|
        data.len() > len && #[trigger] h.contains((q, SpecReply::Data(Ok(data))))
}

/// A read ends with at most `len` bytes, unless the data service replied with more.
pub open spec fn fits(len: usize) -> spec_fn(History, Result<Seq<u8>, SpecError>) -> bool {
    |h: History, r: Result<Seq<u8>, SpecError>|
        r matches Ok(data) ==> data.len() <= len || overlong(h, len)
}

proof fn overlong_stays(h: History, e: Exchange, len: usize)
    requires
        overlong(h, len),
    ensures
        overlong(h.push(e), len),
{
    let (q, data) = choose|q: SpecRequest, data: Seq<u8>|
        data.len() > len && #[trigger] h.contains((q, SpecReply::Data(Ok(data))));
    history::history_grows(h, (q, SpecReply::Data(Ok(data))), e);
}

proof fn read_file_fits(
    path: Seq<char>,
    ino: i64,
    offset: u64,
    len: usize,
    advance: bool,
    h: History,
)
    ensures
        history::ruled(
            handle::read_file(path, ino, offset, len, advance),
            h,
            history::keeps_all(),
            fits(len),
        ),
{
    let rule = history::keeps_all();
    let now = |u: ()| io::read_channel(ino, offset, len);
    assert forall|g: History| #[trigger]
        history::ruled(io::read_channel(ino, offset, len), g, rule, fits(len)) by {
        let s = io::read_channel(ino, offset, len);
        assert forall|reply: SpecReply| history::ruled(
            #[trigger] (s->Ask_1)(reply),
            g.push((s->Ask_0, reply)),
            rule,
            fits(len),
        ) by {
            if let Ok(Some(reader)) = reply.channel() {
                let s1 = io::read_now(reader, offset, len);
                let g1 = g.push((s->Ask_0, reply));
                assert((s->Ask_1)(reply) == s1);
                assert forall|reply1: SpecReply| history::ruled(
                    #[trigger] (s1->Ask_1)(reply1),
                    g1.push((s1->Ask_0, reply1)),
                    rule,
                    fits(len),
                ) by {
                    history::history_grows(g1, (s1->Ask_0, reply1), (s1->Ask_0, reply1));
                }
            }
        }
    }
    if len > 0 {
        reveal_with_fuel(history::ruled, 4);
        let any = history::any_end::<()>();
        assert(history::ruled(io::register(path, ino), h, rule, any));
        history::ruled_and_next(io::register(path, ino), h, rule, any, now, fits(len));
    }
    let last = |data: Seq<u8>| handle::read_done(data, advance);
    assert forall|g: History, data: Seq<u8>| #[trigger]
        fits(len)(g, Ok(data)) implies history::ruled(last(data), g, rule, fits(len)) by {
        if advance {
            let s = handle::read_advance(data);
            assert forall|reply: SpecReply| history::ruled(
                #[trigger] (s->Ask_1)(reply),
                g.push((s->Ask_0, reply)),
                rule,
                fits(len),
            ) by {
                if overlong(g, len) {
                    overlong_stays(g, (s->Ask_0, reply), len);
                }
            }
        }
    }
    history::ruled_and_next(
        io::read_inode(path, ino, offset, len),
        h,
        rule,
        fits(len),
        last,
        fits(len),
    );
}

/// Reading from an open file gives no more bytes than were asked for, as long as the data service
/// replies with no more.
pub proof fn file_reads_fit(f: File<Seq<char>>, len: usize, offset: u64, h: History)
    ensures
        history::ruled(file::logged_read(f, len), h, history::keeps_all(), fits(len)),
        history::ruled(file::logged_read_at(f, len, offset), h, history::keeps_all(), fits(len)),
{
    let rule = history::keeps_all();
    let here = handle::read_file(f.path, f.inode, f.offset, len, true);
    let there = handle::read_file(f.path, f.inode, offset, len, false);
    let refused = handle::not_readable::<Seq<u8>>();
    assert forall|g: History| #[trigger] history::ruled(here, g, rule, fits(len)) by {
        read_file_fits(f.path, f.inode, f.offset, len, true, g);
    }
    assert forall|g: History| #[trigger] history::ruled(there, g, rule, fits(len)) by {
        read_file_fits(f.path, f.inode, offset, len, false, g);
    }
    assert forall|g: History| #[trigger] history::ruled(refused, g, rule, fits(len)) by {}
    assert forall|
        g: History,
        q: LogRequest<Seq<char>>,
        reply: SpecReply,
        r: Result<Seq<u8>, SpecError>,
    |
        fits(len)(g, r) implies #[trigger] fits(len)(g.push((Request::Log(q), reply)), r) by {
        if overlong(g, len) {
            overlong_stays(g, (Request::Log(q), reply), len);
        }
    }
    let (first, second) = if f.flags.read {
        (here, there)
    } else {
        (refused, refused)
    };
    history::ruled_logged(f.log, "read"@, f.path, first, h, rule, fits(len));
    history::ruled_logged(f.log, "read_at"@, f.path, second, h, rule, fits(len));
}

proof fn open_handle_reads(o: Opening<Seq<char>>, info: FileStat<Seq<char>>)
    ensures
        history::read_only(open::open_handle(o, info)),
{
    reveal_with_fuel(history::ruled, 2);
}

/// Opening a file changes nothing, unless the flags ask to create or to truncate it. Opening a
/// file without following symbolic links changes nothing in any case.
pub proof fn plain_open_is_read_only(log: bool, root_ino: i64, path: Seq<char>, flags: OpenFlags)
    ensures
        !flags.create && !(flags.truncate && flags.write) ==> history::read_only(
            fs::logged_open(log, root_ino, path, flags),
        ),
        history::read_only(fs::logged_lopen(log, path, flags)),
{
    let p = path::normalize(path);
    let o = Opening { path: p, flags, log };
    let rule = history::keeps_all();
    resolve_reads(p, true);
    resolve_reads(p, false);
    if !flags.create && !(flags.truncate && flags.write) {
        let next = |info: FileStat<Seq<char>>| open::open_resolved(o, info);
        assert forall|h: History, info: FileStat<Seq<char>>| #[trigger]
            history::ruled(next(info), h, rule, history::any_end::<File<Seq<char>>>()) by {
            open_handle_reads(o, info);
            assert(history::ruled(
                open::open_handle(o, info),
                h,
                rule,
                history::any_end::<File<Seq<char>>>(),
            ));
        }
        history::always_and_next(lookup::resolve(p, true), rule, next);
        history::always_logged(log, "open"@, p, open::open_file(root_ino, o), rule);
    }
    let next = |info: FileStat<Seq<char>>| open::lopen_resolved(o, info);
    assert forall|h: History, info: FileStat<Seq<char>>| #[trigger]
        history::ruled(next(info), h, rule, history::any_end::<File<Seq<char>>>()) by {
        open_handle_reads(o, info);
        assert(history::ruled(
            open::open_handle(o, info),
            h,
            rule,
            history::any_end::<File<Seq<char>>>(),
        ));
    }
    history::always_and_next(lookup::resolve(p, false), rule, next);
    history::always_logged(log, "lopen"@, p, open::lopen(o), rule);
}

/// No contents are touched: nothing is read or written, and no reader or writer is made or used.
pub open spec fn lazy() -> Rule {
    |h: History, q: SpecRequest|
        match q {
            Request::Data(_) => false,
            Request::Registry(r) => r is UpdateSize || r is NextFileId,
            _ => true,
        }
}

/// Whether a script touches no contents, whatever was asked before.
pub open spec fn is_lazy<T>(s: Script<T>) -> bool {
    forall|h: History| #[trigger] history::ruled(s, h, lazy(), history::any_end::<T>())
}

proof fn open_existing_is_lazy(o: Opening<Seq<char>>)
    ensures
        is_lazy(open::open_existing(o)),
{
    reveal_with_fuel(history::ruled, 4);
    let p = path::normalize(o.path);
    assert(is_lazy(lookup::resolve(o.path, true)));
    assert(is_lazy(attr::truncate(p, 0)));
    history::always_logged(o.log, "truncate"@, p, attr::truncate(p, 0), lazy());
    let cut = attr::logged_truncate(o.log, o.path, 0);
    let next = |info: FileStat<Seq<char>>| open::open_resolved(o, info);
    assert forall|h: History, info: FileStat<Seq<char>>| #[trigger]
        history::ruled(next(info), h, lazy(), history::any_end::<File<Seq<char>>>()) by {
        assert(is_lazy(open::open_handle(o, info)));
        let last = |u: ()| open::open_handle(o, info);
        history::always_and_next(cut, lazy(), last);
        assert(history::ruled(
            cut.and_next(last),
            h,
            lazy(),
            history::any_end::<File<Seq<char>>>(),
        ));
    }
    history::always_and_next(lookup::resolve(o.path, true), lazy(), next);
}

proof fn create_in_dir_is_lazy(root_ino: i64, spot: Spot<Seq<char>>, create_new: bool)
    ensures
        is_lazy(create::create_in_dir(root_ino, spot, create_new)),
{
    reveal_with_fuel(history::ruled, 4);
    let dir = lookup::parent_dir(root_ino, spot.dir, true);
    assert(is_lazy(dir));
    let next = |parent: i64|
        create::create_in_dir_entry(spot.path, spot.name, create_new, parent);
    assert forall|h: History, parent: i64| #[trigger]
        history::ruled(next(parent), h, lazy(), history::any_end::<i64>()) by {}
    history::always_and_next(dir, lazy(), next);
}

/// Files are opened lazily: opening one touches no contents. Readers and writers are made when the
/// file is first read or written.
pub proof fn open_is_lazy(log: bool, root_ino: i64, path: Seq<char>, flags: OpenFlags)
    ensures
        is_lazy(fs::logged_open(log, root_ino, path, flags)),
        is_lazy(fs::logged_lopen(log, path, flags)),
{
    let p = path::normalize(path);
    let o = Opening { path: p, flags, log };
    let spot = Spot::of(p);
    let find = lookup::resolve(p, true);
    open_existing_is_lazy(o);
    create_in_dir_is_lazy(root_ino, spot, flags.exclusive);
    assert(is_lazy(find)) by {
        reveal_with_fuel(history::ruled, 4);
    }
    if flags.create {
        let make = create::create_in_dir(root_ino, spot, flags.exclusive);
        let existing = |ino: i64| open::open_existing(o);
        assert forall|h: History, ino: i64| #[trigger]
            history::ruled(existing(ino), h, lazy(), history::any_end::<File<Seq<char>>>()) by {
            assert(history::ruled(
                open::open_existing(o),
                h,
                lazy(),
                history::any_end::<File<Seq<char>>>(),
            ));
        }
        history::always_and_next(make, lazy(), existing);
        let next = |r: Result<FileStat<Seq<char>>, SpecError>|
            open::open_or_create(root_ino, o, Spot::of(o.path), r);
        let mid = history::any_end::<FileStat<Seq<char>>>();
        let end = history::any_end::<File<Seq<char>>>();
        assert forall|h: History| #[trigger]
            history::ruled(open::open_file(root_ino, o), h, lazy(), end) by {
            assert(history::ruled(find, h, lazy(), mid));
            assert forall|g: History, r: Result<FileStat<Seq<char>>, SpecError>| #[trigger]
                mid(g, r) implies history::ruled(next(r), g, lazy(), end) by {
                assert(history::ruled(open::open_existing(o), g, lazy(), end));
                assert(history::ruled(make.and_next(existing), g, lazy(), end));
            }
            history::ruled_bind(find, h, lazy(), mid, next, end);
        }
    }
    history::always_logged(log, "open"@, p, open::open_file(root_ino, o), lazy());
    let lfind = lookup::resolve(p, false);
    assert(is_lazy(lfind)) by {
        reveal_with_fuel(history::ruled, 4);
    }
    let lnext = |info: FileStat<Seq<char>>| open::lopen_resolved(o, info);
    assert forall|h: History, info: FileStat<Seq<char>>| #[trigger]
        history::ruled(lnext(info), h, lazy(), history::any_end::<File<Seq<char>>>()) by {
        reveal_with_fuel(history::ruled, 2);
    }
    history::always_and_next(lfind, lazy(), lnext);
    history::always_logged(log, "lopen"@, p, open::lopen(o), lazy());
}

} // verus!
