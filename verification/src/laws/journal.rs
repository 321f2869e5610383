//! What the access log comes to hold.
use crate::access_log::LogContext;
use crate::file;
use crate::file::File;
use crate::fs;
use crate::laws::failures;
use crate::laws::failures::Lenient;
use crate::laws::run;
use crate::laws::run::Services;
use crate::laws::store::World;
use crate::meta::{FileLockQuery, FileLockRange, FileLockType, SetAttrFlags, SetAttrRequest};
use crate::ops::adapt;
use crate::ops::attr;
use crate::ops::attr::LockChange;
use crate::ops::handle;
use crate::ops::io;
use crate::ops::io::Write;
use crate::ops::link;
use crate::ops::logged;
use crate::ops::lookup;
use crate::ops::mkdir;
use crate::ops::open;
use crate::ops::open::Opening;
use crate::ops::remove;
use crate::ops::rename;
use crate::path;
use crate::script::{LogRequest, Reply, Request, Script, SpecError, SpecReply, SpecRequest};
use crate::stat::OpenFlags;
use vstd::prelude::*;

verus! {

broadcast use crate::script::group_bind;

/// An entry of the access log: who ran which operation on which path, and how it ended.
pub struct Note {
    pub context: LogContext,
    pub op: Seq<char>,
    pub path: Seq<char>,
    pub outcome: Seq<char>,
}

/// Services together with an access log: the log keeps what is recorded, and leaves the rest to the
/// services.
pub open spec fn recording(sv: Services<World>, context: LogContext) -> Services<
    (World, Seq<Note>),
> {
    |state: (World, Seq<Note>), q: SpecRequest|
        match q {
            Request::Log(LogRequest::Begin) => (state, Reply::Context(context)),
            Request::Log(LogRequest::Record { context, op, path, outcome }) => (
                (state.0, state.1.push(Note { context, op, path, outcome })),
                Reply::Ack,
            ),
            _ => {
                let (w, reply) = sv(state.0, q);
                ((w, state.1), reply)
            },
        }
}

/// What is logged of a result: that all went well, or the message of the error.
pub open spec fn outcome_is<T>(text: Seq<char>, r: Result<T, SpecError>) -> bool {
    match r {
        Ok(_) => text == "ok"@,
        Err(e) => text == e.message,
    }
}

/// Whether the script `on` does what `off` does, and leaves one entry in the access log: that the
/// operation `op` was run on `path`, by whom, and how it ended.
pub open spec fn noted<T>(on: Script<T>, off: Script<T>, op: Seq<char>, path: Seq<char>) -> bool {
    forall|sv: Services<World>, context: LogContext, w: World, notes: Seq<Note>|
        is_noted(#[trigger] run::run(recording(sv, context), (w, notes), on), run::run(sv, w, off),
            context, notes, op, path)
}

/// The same for one run.
pub open spec fn is_noted<T>(
    on: ((World, Seq<Note>), Result<T, SpecError>),
    off: (World, Result<T, SpecError>),
    context: LogContext,
    notes: Seq<Note>,
    op: Seq<char>,
    path: Seq<char>,
) -> bool {
    &&& on.1 == off.1
    &&& on.0.0 == off.0
    &&& on.0.1.len() == notes.len() + 1
    &&& on.0.1.drop_last() == notes
    &&& on.0.1.last().context == context
    &&& on.0.1.last().op == op
    &&& on.0.1.last().path == path
    &&& outcome_is(on.0.1.last().outcome, off.1)
}

proof fn silent_runs<T>(
    sv: Services<World>,
    context: LogContext,
    w: World,
    notes: Seq<Note>,
    s: Script<T>,
    but: Lenient,
)
    requires
        failures::passes_on(s, but),
    ensures
        ({
            let (w1, r) = run::run(sv, w, s);
            run::run(recording(sv, context), (w, notes), s) == ((w1, notes), r)
        }),
    decreases s,
{
    if let Script::Ask(q, k) = s {
        let (w1, reply) = sv(w, q);
        assert(recording(sv, context)((w, notes), q) == ((w1, notes), reply));
        assert(failures::passes_on(k(reply), but));
        silent_runs(sv, context, w1, notes, k(reply), but);
    }
}

proof fn logged_is_noted<T>(op: Seq<char>, path: Seq<char>, inner: Script<T>, but: Lenient)
    requires
        failures::passes_on(inner, but),
    ensures
        noted(
            logged::logged(true, op, path, inner),
            logged::logged(false, op, path, inner),
            op,
            path,
        ),
{
    let on = logged::logged(true, op, path, inner);
    assert forall|sv: Services<World>, context: LogContext, w: World, notes: Seq<Note>|
        is_noted(
            #[trigger] run::run(recording(sv, context), (w, notes), on),
            run::run(sv, w, inner),
            context,
            notes,
            op,
            path,
        ) by {
        let rec = recording(sv, context);
        let reply = SpecReply::Context(context);
        let next = |r: Result<T, SpecError>| logged::record(context, op, path, r);
        assert(rec((w, notes), on->Ask_0) == ((w, notes), reply));
        assert((on->Ask_1)(reply) == inner.bind(next));
        assert(run::run(rec, (w, notes), on) == run::run(rec, (w, notes), inner.bind(next)));
        run::run_bind(rec, (w, notes), inner, next);
        silent_runs(sv, context, w, notes, inner, but);
        let (w1, r) = run::run(sv, w, inner);
        let last = logged::record(context, op, path, r);
        let note = Note { context, op, path, outcome: logged::summary(r) };
        let after = (w1, notes.push(note));
        assert(next(r) == last);
        assert(rec((w1, notes), last->Ask_0) == (after, SpecReply::Ack));
        assert((last->Ask_1)(SpecReply::Ack) == Script::<T>::Done(r));
        assert(run::run(rec, (w1, notes), last) == run::run(rec, after, Script::<T>::Done(r)));
        assert(notes.push(note).drop_last() =~= notes);
    }
}

/// Every operation that looks at a path is logged under its own name and the normal form of the
/// path.
pub proof fn looking_is_noted(p: Seq<char>, offset: u64, len: usize)
    ensures
        ({
            let n = path::normalize(p);
            &&& noted(fs::logged_stat(true, p), fs::logged_stat(false, p), "stat"@, n)
            &&& noted(fs::logged_lstat(true, p), fs::logged_lstat(false, p), "lstat"@, n)
            &&& noted(fs::logged_readlink(true, p), fs::logged_readlink(false, p), "readlink"@, n)
            &&& noted(attr::logged_readdir(true, p), attr::logged_readdir(false, p), "readdir"@, n)
            &&& noted(
                fs::logged_read_at(true, p, offset, len),
                fs::logged_read_at(false, p, offset, len),
                "read_at"@,
                n,
            )
        }),
{
    let n = path::normalize(p);
    let strict = failures::strict();
    let none = SetAttrRequest::unchanged();
    let range = FileLockRange { start: 0, end: 0 };
    let query = FileLockQuery { owner: 0, lock_type: FileLockType::UnLock, range };
    let change = LockChange {
        owner: 0,
        block: false,
        lock_type: FileLockType::UnLock,
        range,
        pid: 0,
    };
    failures::lookups_pass_on(n, 0, true);
    failures::lookups_pass_on(n, 0, false);
    failures::paths_pass_on(n, 0, none, SetAttrFlags { bits: 0 }, query, change);
    failures::contents_pass_on(n, offset, len, Seq::empty());
    logged_is_noted("stat"@, n, lookup::resolve(n, true), strict);
    logged_is_noted("lstat"@, n, lookup::resolve(n, false), strict);
    logged_is_noted("readlink"@, n, link::readlink(n), strict);
    logged_is_noted("readdir"@, n, attr::readdir(n), strict);
    logged_is_noted("read_at"@, n, io::read_at(n, offset, len), strict);
}

/// The same for opening a file. A file that is emptied by it is logged as truncated besides.
pub proof fn opening_is_noted(root_ino: i64, p: Seq<char>, flags: OpenFlags)
    ensures
        ({
            let n = path::normalize(p);
            let o = Opening { path: n, flags, log: true };
            &&& !(flags.truncate && flags.write) ==> noted(
                fs::logged_open(true, root_ino, p, flags),
                open::open_file(root_ino, o),
                "open"@,
                n,
            )
            &&& !(flags.truncate && flags.write) ==> noted(
                fs::logged_lopen(true, p, flags),
                open::lopen(o),
                "lopen"@,
                n,
            )
        }),
{
    let n = path::normalize(p);
    let o = Opening { path: n, flags, log: true };
    if !(flags.truncate && flags.write) {
        failures::open_passes_on(root_ino, o);
        let but = failures::lenient_resolve(n);
        logged_is_noted("open"@, n, open::open_file(root_ino, o), but);
        logged_is_noted("lopen"@, n, open::lopen(o), failures::strict());
    }
}

/// The same for operations that change something. Two paths are logged with an arrow between them.
pub proof fn changing_is_noted(
    root_ino: i64,
    p: Seq<char>,
    q: Seq<char>,
    target: Seq<char>,
    size: u64,
    attrs: SetAttrRequest,
    flags: SetAttrFlags,
    offset: u64,
    data: Seq<u8>,
)
    ensures
        ({
            let n = path::normalize(p);
            let m = path::normalize(q);
            &&& noted(
                fs::logged_mkdir(true, root_ino, p),
                fs::logged_mkdir(false, root_ino, p),
                "mkdir"@,
                n,
            )
            &&& noted(
                fs::logged_mkdir_all(true, root_ino, p),
                fs::logged_mkdir_all(false, root_ino, p),
                "mkdir_all"@,
                n,
            )
            &&& noted(
                remove::logged_unlink(true, root_ino, p),
                remove::logged_unlink(false, root_ino, p),
                "unlink"@,
                n,
            )
            &&& noted(
                remove::logged_rmdir(true, root_ino, p),
                remove::logged_rmdir(false, root_ino, p),
                "rmdir"@,
                n,
            )
            &&& noted(
                fs::logged_rename(true, root_ino, p, q),
                fs::logged_rename(false, root_ino, p, q),
                "rename"@,
                n + " -> "@ + m,
            )
            &&& noted(
                fs::logged_link(true, root_ino, p, q),
                fs::logged_link(false, root_ino, p, q),
                "link"@,
                n + " -> "@ + m,
            )
            &&& noted(
                fs::logged_symlink(true, root_ino, p, target),
                fs::logged_symlink(false, root_ino, p, target),
                "symlink"@,
                n + " -> "@ + target,
            )
            &&& noted(
                attr::logged_truncate(true, p, size),
                attr::logged_truncate(false, p, size),
                "truncate"@,
                n,
            )
            &&& noted(
                fs::logged_set_attr(true, p, attrs, flags),
                fs::logged_set_attr(false, p, attrs, flags),
                "set_attr"@,
                n,
            )
            &&& noted(
                fs::logged_write_at(true, p, offset, data),
                fs::logged_write_at(false, p, offset, data),
                "write_at"@,
                n,
            )
        }),
{
    let n = path::normalize(p);
    let m = path::normalize(q);
    let strict = failures::strict();
    let range = FileLockRange { start: 0, end: 0 };
    let query = FileLockQuery { owner: 0, lock_type: FileLockType::UnLock, range };
    let change = LockChange {
        owner: 0,
        block: false,
        lock_type: FileLockType::UnLock,
        range,
        pid: 0,
    };
    failures::changes_pass_on(root_ino, n, n, target, false);
    failures::changes_pass_on(root_ino, m, n, target, false);
    failures::paths_pass_on(n, size, attrs, flags, query, change);
    failures::contents_pass_on(n, offset, 0, data);
    failures::mkdir_p_passes_on(root_ino, n);
    failures::rename_passes_on(root_ino, n, m);
    failures::discard_passes_on(mkdir::mkdir_p(root_ino, n));
    logged_is_noted("mkdir"@, n, mkdir::mkdir(root_ino, n), strict);
    logged_is_noted("mkdir_all"@, n, adapt::discard(mkdir::mkdir_p(root_ino, n)), strict);
    logged_is_noted("unlink"@, n, remove::unlink(root_ino, n), strict);
    logged_is_noted("rmdir"@, n, remove::rmdir(root_ino, n), strict);
    logged_is_noted(
        "rename"@,
        n + " -> "@ + m,
        rename::rename(root_ino, n, m),
        failures::lenient_target(m),
    );
    logged_is_noted("link"@, n + " -> "@ + m, link::link(root_ino, n, m), strict);
    logged_is_noted(
        "symlink"@,
        n + " -> "@ + target,
        link::symlink(root_ino, n, target),
        strict,
    );
    logged_is_noted("truncate"@, n, attr::truncate(n, size), strict);
    logged_is_noted("set_attr"@, n, attr::set_attr(n, attrs, flags), strict);
    logged_is_noted("write_at"@, n, io::write_at(n, offset, data), strict);
}

/// The same for operations on open files, which are logged under the path of the handle.
pub proof fn handles_are_noted(
    f: File<Seq<char>>,
    len: usize,
    offset: u64,
    data: Seq<u8>,
    size: u64,
)
    ensures
        ({
            let on = File { log: true, ..f };
            let off = File { log: false, ..f };
            &&& noted(file::logged_read(on, len), file::logged_read(off, len), "read"@, f.path)
            &&& noted(
                file::logged_read_at(on, len, offset),
                file::logged_read_at(off, len, offset),
                "read_at"@,
                f.path,
            )
            &&& noted(file::logged_write(on, data), file::logged_write(off, data), "write"@, f.path)
            &&& noted(
                file::logged_write_at(on, data, offset),
                file::logged_write_at(off, data, offset),
                "write_at"@,
                f.path,
            )
            &&& noted(
                file::logged_truncate(on, size),
                file::logged_truncate(off, size),
                "truncate"@,
                f.path,
            )
            &&& noted(file::logged_sync(on), file::logged_sync(off), "sync"@, f.path)
        }),
{
    let strict = failures::strict();
    let p = f.path;
    failures::handles_pass_on(f, f.offset, len, data, size, true, None);
    failures::handles_pass_on(f, offset, len, data, size, false, None);
    failures::inodes_pass_on(p, f.inode, offset, len, data);
    if f.flags.read {
        logged_is_noted("read"@, p, handle::read_file(p, f.inode, f.offset, len, true), strict);
        logged_is_noted("read_at"@, p, handle::read_file(p, f.inode, offset, len, false), strict);
    } else {
        logged_is_noted("read"@, p, handle::not_readable::<Seq<u8>>(), strict);
        logged_is_noted("read_at"@, p, handle::not_readable::<Seq<u8>>(), strict);
    }
    if f.flags.write {
        let wr = Write::of(p, f.offset, data);
        if f.flags.append {
            logged_is_noted("write"@, p, handle::append_file(p, f.inode, data), strict);
        } else {
            logged_is_noted("write"@, p, handle::write_file(wr, f.inode, None), strict);
        }
        logged_is_noted("write_at"@, p, io::write_inode(p, f.inode, offset, data), strict);
        logged_is_noted("truncate"@, p, handle::truncate_file(p, f.inode, size), strict);
        logged_is_noted("sync"@, p, handle::sync_file(p, f.inode), strict);
    } else {
        logged_is_noted("write"@, p, handle::not_writable::<usize>(), strict);
        logged_is_noted("write_at"@, p, handle::not_writable::<usize>(), strict);
        logged_is_noted("truncate"@, p, handle::not_writable::<()>(), strict);
        logged_is_noted("sync"@, p, Script::<()>::Done(Ok(())), strict);
    }
}

} // verus!
