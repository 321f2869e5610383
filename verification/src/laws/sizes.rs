//! How the sizes of files change.
use crate::error::{ErrorKind, FsError};
use crate::file;
use crate::file::File;
use crate::laws::history;
use crate::laws::history::{Exchange, History, Rule};
use crate::laws::steps;
use crate::meta::{FileAttr, FileType};
use crate::ops::attr;
use crate::ops::handle;
use crate::ops::io;
use crate::ops::io::Write;
use crate::ops::logged;
use crate::path;
use crate::script::{
    DataRequest, MetaRequest, RegistryRequest, Reply, Request, Script, SpecError, SpecReply,
    SpecRequest,
};
use vstd::prelude::*;

verus! {

broadcast use {crate::script::group_bind, crate::laws::history::history_grows};

/// A request that sets the size of the file found at a path.
pub open spec fn resizes_file(path: Seq<char>, size: u64, h: History, q: SpecRequest) -> bool {
    exists|ino: i64|
        {
            &&& q == Request::<Seq<char>, Seq<u8>>::Meta(MetaRequest::SetFileSize { ino, size })
            &&& #[trigger] history::found_entry(h, path, ino, FileType::File)
        }
}

/// Nothing is changed but that the file found at a path gets a size.
pub open spec fn resize_rule(path: Seq<char>, size: u64) -> Rule {
    |h: History, q: SpecRequest| history::changes(q) ==> resizes_file(path, size, h, q)
}

/// `truncate` changes one thing at most: it gives what stands at its path the size asked for, after
/// that was found to be a file.
pub proof fn truncate_resizes_files_only(log: bool, path: Seq<char>, size: u64, h: History)
    ensures
        history::ruled(
            attr::logged_truncate(log, path, size),
            h,
            resize_rule(path::normalize(path), size),
            history::any_end::<()>(),
        ),
{
    reveal_with_fuel(history::ruled, 4);
    let p = path::normalize(path);
    let rule = resize_rule(p, size);
    let end = history::any_end::<()>();
    let s = attr::truncate(p, size);
    assert forall|h: History| #[trigger] history::ruled(s, h, rule, end) by {
        assert forall|reply: SpecReply| history::ruled(
            #[trigger] (s->Ask_1)(reply),
            h.push((s->Ask_0, reply)),
            rule,
            end,
        ) by {
            let h1 = h.push((s->Ask_0, reply));
            if let Ok(Some((ino, kind))) = reply.entry(p) {
                if kind == FileType::File {
                    assert(history::found_entry(h1, p, ino, kind));
                    let s1 = attr::truncate_cached(p, ino, size);
                    assert forall|reply: SpecReply| history::ruled(
                        #[trigger] (s1->Ask_1)(reply),
                        h1.push((s1->Ask_0, reply)),
                        rule,
                        end,
                    ) by {
                        assert(history::found_entry(h1.push((s1->Ask_0, reply)), p, ino, kind));
                    }
                }
            }
        }
    }
    history::ruled_logged(log, "truncate"@, p, s, h, rule, end);
}

/// The registry said that the inode `ino` has the given size.
pub open spec fn cached_size(h: History, ino: i64, size: u64) -> bool {
    h.contains(
        (Request::Registry(RegistryRequest::InodeSize { ino }), Reply::Cached(Some(size))),
    )
}

/// What a write may change: the data is written where and as it was asked for, and the size is set
/// only to the end of the write, after the file was said to be shorter.
pub open spec fn write_rule(w: Write<Seq<char>, Seq<u8>>, ino: i64) -> Rule {
    |h: History, q: SpecRequest|
        history::changes(q) ==> {
            ||| exists|writer: u64|
                q == #[trigger] data_write(writer, w.offset, w.data)
            ||| q == Request::<Seq<char>, Seq<u8>>::Meta(
                MetaRequest::SetFileSize { ino, size: w.end() },
            ) && exists|size: u64| #[trigger] cached_size(h, ino, size) && size < w.end()
        }
}

/// The request that writes data through a writer.
pub open spec fn data_write(writer: u64, offset: u64, data: Seq<u8>) -> SpecRequest {
    Request::Data(DataRequest::Write { writer, offset, data })
}

/// The data was written, and the data service took `n` bytes of it.
pub open spec fn data_written(h: History, w: Write<Seq<char>, Seq<u8>>, n: usize) -> bool {
    exists|writer: u64|
        #[trigger] h.contains((data_write(writer, w.offset, w.data), Reply::Written(Ok(n))))
}

/// Success gives the number of bytes that the data service took.
pub open spec fn gives_written(w: Write<Seq<char>, Seq<u8>>) -> spec_fn(
    History,
    Result<usize, SpecError>,
) -> bool {
    |h: History, r: Result<usize, SpecError>| r matches Ok(n) ==> data_written(h, w, n)
}

proof fn data_written_stays(h: History, e: Exchange, w: Write<Seq<char>, Seq<u8>>, n: usize)
    requires
        data_written(h, w, n),
    ensures
        data_written(h.push(e), w, n),
{
    let writer = choose|writer: u64|
        #[trigger] h.contains((data_write(writer, w.offset, w.data), Reply::Written(Ok(n))));
    assert(h.push(e).contains((data_write(writer, w.offset, w.data), Reply::Written(Ok(n)))));
}

proof fn write_size_ruled(w: Write<Seq<char>, Seq<u8>>, ino: i64, n: usize, h: History)
    requires
        data_written(h, w, n),
    ensures
        history::ruled(
            io::write_size(w.path, ino, w.end(), n),
            h,
            write_rule(w, ino),
            gives_written(w),
        ),
{
    reveal_with_fuel(history::ruled, 4);
    let rule = write_rule(w, ino);
    let end = gives_written(w);
    let s = io::write_size(w.path, ino, w.end(), n);
    assert forall|reply: SpecReply| history::ruled(
        #[trigger] (s->Ask_1)(reply),
        h.push((s->Ask_0, reply)),
        rule,
        end,
    ) by {
        let h1 = h.push((s->Ask_0, reply));
        data_written_stays(h, (s->Ask_0, reply), w, n);
        if let Ok(Some(size)) = reply.cached() {
            assert(cached_size(h1, ino, size));
            let s1 = io::write_grow(w.path, ino, w.end(), n);
            if w.end() > size {
                assert forall|reply: SpecReply| history::ruled(
                    #[trigger] (s1->Ask_1)(reply),
                    h1.push((s1->Ask_0, reply)),
                    rule,
                    end,
                ) by {
                    let h2 = h1.push((s1->Ask_0, reply));
                    data_written_stays(h1, (s1->Ask_0, reply), w, n);
                    assert(cached_size(h2, ino, size));
                    let s2 = io::write_set_size(w.path, ino, w.end(), n);
                    assert forall|reply: SpecReply| history::ruled(
                        #[trigger] (s2->Ask_1)(reply),
                        h2.push((s2->Ask_0, reply)),
                        rule,
                        end,
                    ) by {
                        data_written_stays(h2, (s2->Ask_0, reply), w, n);
                    }
                }
            }
        }
    }
}

proof fn write_channel_ruled(w: Write<Seq<char>, Seq<u8>>, ino: i64, h: History)
    ensures
        history::ruled(io::write_channel(w, ino), h, write_rule(w, ino), gives_written(w)),
{
    reveal_with_fuel(history::ruled, 3);
    let rule = write_rule(w, ino);
    let end = gives_written(w);
    let s = io::write_channel(w, ino);
    assert forall|reply: SpecReply| history::ruled(
        #[trigger] (s->Ask_1)(reply),
        h.push((s->Ask_0, reply)),
        rule,
        end,
    ) by {
        let h1 = h.push((s->Ask_0, reply));
        if let Ok(Some(writer)) = reply.channel() {
            let s1 = io::write_data(w, ino, writer);
            assert(s1->Ask_0 == data_write(writer, w.offset, w.data));
            assert forall|reply: SpecReply| history::ruled(
                #[trigger] (s1->Ask_1)(reply),
                h1.push((s1->Ask_0, reply)),
                rule,
                end,
            ) by {
                let h2 = h1.push((s1->Ask_0, reply));
                if let Ok(n) = reply.written() {
                    assert(h2.contains(
                        (data_write(writer, w.offset, w.data), Reply::Written(Ok(n))),
                    ));
                    write_size_ruled(w, ino, n, h2);
                }
            }
        }
    }
}

/// A write hands its data to the data service unchanged and at its offset, and never shrinks the
/// file: the size is set only to the end of the write, after the file was said to be shorter. The
/// number of bytes that it gives is the one that the data service gave.
pub proof fn write_never_shrinks(w: Write<Seq<char>, Seq<u8>>, ino: i64, h: History)
    ensures
        history::ruled(io::perform_write(w, ino), h, write_rule(w, ino), gives_written(w)),
{
    let rule = write_rule(w, ino);
    let reg = io::register(w.path, ino);
    steps::register_ruled(w.path, ino, h, rule);
    let next = |u: ()| io::write_channel(w, ino);
    assert forall|g: History, u: ()| #[trigger]
        history::any_end::<()>()(g, Ok(u)) implies history::ruled(
        next(u),
        g,
        rule,
        gives_written(w),
    ) by {
        write_channel_ruled(w, ino, g);
    }
    history::ruled_and_next(reg, h, rule, history::any_end::<()>(), next, gives_written(w));
}

/// A write that changes contents starts where the file was last found to end.
pub open spec fn append_rule(ino: i64, data: Seq<u8>) -> Rule {
    |h: History, q: SpecRequest|
        q is Data ==> exists|writer: u64, attr: FileAttr|
            {
                &&& q == #[trigger] data_write(writer, attr.size, data)
                &&& #[trigger] history::found_attr(h, ino, attr)
            }
}

proof fn write_file_appends(
    path: Seq<char>,
    ino: i64,
    attr: FileAttr,
    data: Seq<u8>,
    h: History,
)
    requires
        history::found_attr(h, ino, attr),
    ensures
        history::ruled(
            handle::write_file(Write::of(path, attr.size, data), ino, Some(attr.size)),
            h,
            append_rule(ino, data),
            history::any_end::<usize>(),
        ),
{
    reveal_with_fuel(history::ruled, 6);
    let rule = append_rule(ino, data);
    let w = Write::of(path, attr.size, data);
    let fact = |g: History| history::found_attr(g, ino, attr);
    let reg = io::register(w.path, ino);
    assert(history::ruled(reg, h, rule, history::any_end::<()>()));
    history::ruled_keeps(reg, h, rule, history::any_end::<()>(), fact);
    let mid = |g: History, r: Result<(), SpecError>| history::any_end::<()>()(g, r) && fact(g);
    let next = |u: ()| io::write_channel(w, ino);
    assert forall|g: History, u: ()| #[trigger] mid(g, Ok(u)) implies history::ruled(
        next(u),
        g,
        rule,
        history::any_end::<usize>(),
    ) by {
        let s = io::write_channel(w, ino);
        assert forall|reply: SpecReply| history::ruled(
            #[trigger] (s->Ask_1)(reply),
            g.push((s->Ask_0, reply)),
            rule,
            history::any_end::<usize>(),
        ) by {
            let g1 = g.push((s->Ask_0, reply));
            assert(history::found_attr(g1, ino, attr));
            if let Ok(Some(writer)) = reply.channel() {
                assert(io::write_data(w, ino, writer)->Ask_0 == data_write(
                    writer,
                    attr.size,
                    data,
                ));
            }
        }
    }
    history::ruled_and_next(reg, h, rule, mid, next, history::any_end::<usize>());
    let write = io::perform_write(w, ino);
    let last = |n: usize| handle::write_move(Some(attr.size), n);
    assert forall|g: History, n: usize| #[trigger]
        history::any_end::<usize>()(g, Ok(n)) implies history::ruled(
        last(n),
        g,
        rule,
        history::any_end::<usize>(),
    ) by {}
    history::ruled_and_next(
        write,
        h,
        rule,
        history::any_end::<usize>(),
        last,
        history::any_end::<usize>(),
    );
}

/// Appending to an open file writes its data at the size that the metadata service gave for the
/// file, whatever the offset of the handle is.
pub proof fn append_writes_at_the_end(path: Seq<char>, ino: i64, data: Seq<u8>, h: History)
    ensures
        history::ruled(
            handle::append_file(path, ino, data),
            h,
            append_rule(ino, data),
            history::any_end::<usize>(),
        ),
{
    reveal_with_fuel(history::ruled, 2);
    let rule = append_rule(ino, data);
    let size = handle::file_size(path, ino);
    let mid = |g: History, r: Result<u64, SpecError>|
        r matches Ok(n) ==> exists|attr: FileAttr| #[trigger]
            history::found_attr(g, ino, attr) && attr.size == n;
    assert forall|reply: SpecReply| history::ruled(
        #[trigger] (size->Ask_1)(reply),
        h.push((size->Ask_0, reply)),
        rule,
        mid,
    ) by {
        if let Ok(Some(attr)) = reply.attr(path) {
            assert(history::found_attr(h.push((size->Ask_0, reply)), ino, attr));
        }
    }
    let next = |n: u64| handle::write_file(Write::of(path, n, data), ino, Some(n));
    assert forall|g: History, n: u64| #[trigger] mid(g, Ok(n)) implies history::ruled(
        next(n),
        g,
        rule,
        history::any_end::<usize>(),
    ) by {
        let attr = choose|attr: FileAttr| #[trigger]
            history::found_attr(g, ino, attr) && attr.size == n;
        write_file_appends(path, ino, attr, data, g);
    }
    history::ruled_and_next(size, h, rule, mid, next, history::any_end::<usize>());
}

/// Nothing is asked but of the access log.
pub open spec fn only_logs() -> Rule {
    |h: History, q: SpecRequest| q is Log
}

/// The result is the given one.
pub open spec fn ends_with<T>(r: Result<T, SpecError>) -> spec_fn(
    History,
    Result<T, SpecError>,
) -> bool {
    |h: History, t: Result<T, SpecError>| t == r
}

/// Whether a script ends with the given result and asks nothing but of the access log.
pub open spec fn only_gives<T>(s: Script<T>, r: Result<T, SpecError>) -> bool {
    forall|h: History| #[trigger] history::ruled(s, h, only_logs(), ends_with(r))
}

proof fn logged_only_gives<T>(
    log: bool,
    op: Seq<char>,
    path: Seq<char>,
    r: Result<T, SpecError>,
)
    ensures
        only_gives(logged::logged(log, op, path, Script::Done(r)), r),
{
    let s = logged::logged(log, op, path, Script::Done(r));
    let end = ends_with(r);
    assert forall|h: History| #[trigger] history::ruled(s, h, only_logs(), end) by {
        assert forall|g: History| #[trigger]
            history::ruled(Script::Done(r), g, only_logs(), end) by {}
        history::ruled_logged(log, op, path, Script::Done(r), h, only_logs(), end);
    }
}

/// What a handle is refused that was not opened for what is asked of it.
pub open spec fn denied<T>(message: Seq<char>) -> Result<T, SpecError> {
    Err(FsError { kind: ErrorKind::PermissionDenied, message })
}

/// A handle that was not opened for reading reads nothing: the services are not asked, and the
/// caller is refused.
pub proof fn unreadable_handles_refuse(f: File<Seq<char>>, len: usize, offset: u64)
    requires
        !f.flags.read,
    ensures
        only_gives(file::logged_read(f, len), denied("file not opened for reading"@)),
        only_gives(file::logged_read_at(f, len, offset), denied("file not opened for reading"@)),
{
    let r = denied::<Seq<u8>>("file not opened for reading"@);
    logged_only_gives(f.log, "read"@, f.path, r);
    logged_only_gives(f.log, "read_at"@, f.path, r);
}

/// A handle that was not opened for writing writes nothing: the services are not asked, and the
/// caller is refused. Only a sync succeeds, as it has nothing to do.
pub proof fn unwritable_handles_refuse(
    f: File<Seq<char>>,
    data: Seq<u8>,
    offset: u64,
    size: u64,
)
    requires
        !f.flags.write,
    ensures
        only_gives(file::logged_write(f, data), denied("file not opened for writing"@)),
        only_gives(file::logged_write_at(f, data, offset), denied("file not opened for writing"@)),
        only_gives(file::logged_truncate(f, size), denied("file not opened for writing"@)),
        only_gives(file::logged_sync(f), Ok(())),
{
    let r = denied::<usize>("file not opened for writing"@);
    logged_only_gives(f.log, "write"@, f.path, r);
    logged_only_gives(f.log, "write_at"@, f.path, r);
    logged_only_gives(f.log, "truncate"@, f.path, denied::<()>("file not opened for writing"@));
    logged_only_gives(f.log, "sync"@, f.path, Ok::<(), SpecError>(()));
}

} // verus!
