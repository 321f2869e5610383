//! What was read and written is what the data service says, whatever it says.
use crate::file;
use crate::file::File;
use crate::fs;
use crate::laws::history;
use crate::laws::history::{Exchange, History, Rule};
use crate::meta::FileAttr;
use crate::ops::handle;
use crate::ops::io;
use crate::ops::io::Write;
use crate::ops::lookup;
use crate::path;
use crate::script::{
    DataRequest, HandleRequest, LogRequest, RegistryRequest, Request, SpecError, SpecReply,
    SpecRequest,
};
use crate::stat::FileStat;
use vstd::prelude::*;

verus! {

broadcast use crate::script::group_bind;

/// The data service said that it took `n` bytes.
pub open spec fn took(h: History, n: usize) -> bool {
    exists|q: SpecRequest| #[trigger] h.contains((q, SpecReply::Written(Ok(n))))
}

/// The data service gave `data`.
pub open spec fn gave(h: History, data: Seq<u8>) -> bool {
    exists|q: SpecRequest| #[trigger] h.contains((q, SpecReply::Data(Ok(data))))
}

/// The metadata service said that a file has `size` bytes.
pub open spec fn sized(h: History, size: u64) -> bool {
    exists|q: SpecRequest, attr: FileAttr|
        attr.size == size && #[trigger] h.contains((q, SpecReply::Attr(Ok(Some(attr)))))
}

proof fn took_stays(h: History, e: Exchange, n: usize)
    requires
        took(h, n),
    ensures
        took(h.push(e), n),
{
    let q = choose|q: SpecRequest| #[trigger] h.contains((q, SpecReply::Written(Ok(n))));
    history::history_grows(h, (q, SpecReply::Written(Ok(n))), e);
}

proof fn gave_stays(h: History, e: Exchange, data: Seq<u8>)
    requires
        gave(h, data),
    ensures
        gave(h.push(e), data),
{
    let q = choose|q: SpecRequest| #[trigger] h.contains((q, SpecReply::Data(Ok(data))));
    history::history_grows(h, (q, SpecReply::Data(Ok(data))), e);
}

proof fn sized_stays(h: History, e: Exchange, size: u64)
    requires
        sized(h, size),
    ensures
        sized(h.push(e), size),
{
    let (q, attr) = choose|q: SpecRequest, attr: FileAttr|
        attr.size == size && #[trigger] h.contains((q, SpecReply::Attr(Ok(Some(attr)))));
    history::history_grows(h, (q, SpecReply::Attr(Ok(Some(attr)))), e);
}

/// The offset of a handle moves only by what was read or taken; where the handle appends, behind
/// what was taken at the end of the file. Data is read through readers and written through writers
/// of the registry.
pub open spec fn moves() -> Rule {
    |h: History, q: SpecRequest|
        match q {
            Request::Handle(HandleRequest::Advance { by }) => (exists|n: usize| #[trigger]
                took(h, n) && by == n) || (exists|data: Seq<u8>| #[trigger]
                gave(h, data) && by == data.len() as u64) || by == 0,
            Request::Handle(HandleRequest::Seek { to }) => exists|n: usize, size: u64|
                #![trigger took(h, n), sized(h, size)]
                took(h, n) && sized(h, size) && (to == size + n || size + n > u64::MAX),
            Request::Data(DataRequest::Read { reader, .. }) => exists|ino: i64| #[trigger]
                h.contains(
                    (
                        Request::Registry(RegistryRequest::Reader { ino }),
                        SpecReply::Channel(Some(reader)),
                    ),
                ),
            Request::Data(DataRequest::Write { writer, .. }) => exists|ino: i64| #[trigger]
                h.contains(
                    (
                        Request::Registry(RegistryRequest::Writer { ino }),
                        SpecReply::Channel(Some(writer)),
                    ),
                ),
            _ => true,
        }
}

/// A write ends with the number of bytes that the data service took.
pub open spec fn taken() -> spec_fn(History, Result<usize, SpecError>) -> bool {
    |h: History, r: Result<usize, SpecError>| r matches Ok(n) ==> took(h, n)
}

/// A read ends with the bytes that the data service gave, or with none where none were asked for.
pub open spec fn given(len: usize) -> spec_fn(History, Result<Seq<u8>, SpecError>) -> bool {
    |h: History, r: Result<Seq<u8>, SpecError>|
        r matches Ok(data) ==> gave(h, data) || (len == 0 && data.len() == 0)
}

proof fn write_channel_takes(w: Write<Seq<char>, Seq<u8>>, ino: i64, h: History)
    ensures
        history::ruled(io::write_channel(w, ino), h, moves(), taken()),
{
    let s = io::write_channel(w, ino);
    assert forall|reply: SpecReply| history::ruled(
        #[trigger] (s->Ask_1)(reply),
        h.push((s->Ask_0, reply)),
        moves(),
        taken(),
    ) by {
        if let Ok(Some(writer)) = reply.channel() {
            let s1 = io::write_data(w, ino, writer);
            let h1 = h.push((s->Ask_0, reply));
            assert((s->Ask_1)(reply) == s1);
            history::history_grows(h, (s->Ask_0, reply), (s->Ask_0, reply));
            assert(moves()(h1, s1->Ask_0));
            assert forall|reply1: SpecReply| history::ruled(
                #[trigger] (s1->Ask_1)(reply1),
                h1.push((s1->Ask_0, reply1)),
                moves(),
                taken(),
            ) by {
                if let Ok(n) = reply1.written() {
                    let h2 = h1.push((s1->Ask_0, reply1));
                    history::history_grows(h1, (s1->Ask_0, reply1), (s1->Ask_0, reply1));
                    assert(took(h2, n));
                    write_size_takes(w.path, ino, w.end(), n, h2);
                }
            }
        }
    }
}

proof fn write_size_takes(path: Seq<char>, ino: i64, end: u64, n: usize, h: History)
    requires
        took(h, n),
    ensures
        history::ruled(io::write_size(path, ino, end, n), h, moves(), taken()),
{
    let s = io::write_size(path, ino, end, n);
    assert forall|reply: SpecReply| history::ruled(
        #[trigger] (s->Ask_1)(reply),
        h.push((s->Ask_0, reply)),
        moves(),
        taken(),
    ) by {
        let h1 = h.push((s->Ask_0, reply));
        took_stays(h, (s->Ask_0, reply), n);
        if let Ok(Some(size)) = reply.cached() {
            if end > size {
                let s1 = io::write_grow(path, ino, end, n);
                assert((s->Ask_1)(reply) == s1);
                assert forall|reply1: SpecReply| history::ruled(
                    #[trigger] (s1->Ask_1)(reply1),
                    h1.push((s1->Ask_0, reply1)),
                    moves(),
                    taken(),
                ) by {
                    let h2 = h1.push((s1->Ask_0, reply1));
                    took_stays(h1, (s1->Ask_0, reply1), n);
                    let s2 = io::write_set_size(path, ino, end, n);
                    assert((s1->Ask_1)(reply1) == s2);
                    assert forall|reply2: SpecReply| history::ruled(
                        #[trigger] (s2->Ask_1)(reply2),
                        h2.push((s2->Ask_0, reply2)),
                        moves(),
                        taken(),
                    ) by {
                        took_stays(h2, (s2->Ask_0, reply2), n);
                    }
                }
            }
        }
    }
}

proof fn inode_write_takes(w: Write<Seq<char>, Seq<u8>>, ino: i64, h: History)
    ensures
        history::ruled(io::perform_write(w, ino), h, moves(), taken()),
{
    let any = history::any_end::<()>();
    let next = |u: ()| io::write_channel(w, ino);
    assert(history::ruled(io::register(w.path, ino), h, moves(), any)) by {
        reveal_with_fuel(history::ruled, 4);
    }
    assert forall|g: History, u: ()| #[trigger] any(g, Ok(u)) implies history::ruled(
        next(u),
        g,
        moves(),
        taken(),
    ) by {
        write_channel_takes(w, ino, g);
    }
    history::ruled_and_next(io::register(w.path, ino), h, moves(), any, next, taken());
}

proof fn inode_read_gives(path: Seq<char>, ino: i64, offset: u64, len: usize, h: History)
    ensures
        history::ruled(io::read_inode(path, ino, offset, len), h, moves(), given(len)),
{
    if len > 0 {
        let any = history::any_end::<()>();
        let next = |u: ()| io::read_channel(ino, offset, len);
        assert(history::ruled(io::register(path, ino), h, moves(), any)) by {
            reveal_with_fuel(history::ruled, 4);
        }
        assert forall|g: History, u: ()| #[trigger] any(g, Ok(u)) implies history::ruled(
            next(u),
            g,
            moves(),
            given(len),
        ) by {
            let s = io::read_channel(ino, offset, len);
            assert forall|reply: SpecReply| history::ruled(
                #[trigger] (s->Ask_1)(reply),
                g.push((s->Ask_0, reply)),
                moves(),
                given(len),
            ) by {
                if let Ok(Some(reader)) = reply.channel() {
                    let s1 = io::read_now(reader, offset, len);
                    let g1 = g.push((s->Ask_0, reply));
                    assert((s->Ask_1)(reply) == s1);
                    history::history_grows(g, (s->Ask_0, reply), (s->Ask_0, reply));
                    assert(moves()(g1, s1->Ask_0));
                    assert forall|reply1: SpecReply| history::ruled(
                        #[trigger] (s1->Ask_1)(reply1),
                        g1.push((s1->Ask_0, reply1)),
                        moves(),
                        given(len),
                    ) by {
                        history::history_grows(g1, (s1->Ask_0, reply1), (s1->Ask_0, reply1));
                    }
                }
            }
        }
        history::ruled_and_next(io::register(path, ino), h, moves(), any, next, given(len));
    }
}

proof fn logs_keep_ends(len: usize)
    ensures
        forall|g: History, q: LogRequest<Seq<char>>, reply: SpecReply, r: Result<usize, SpecError>|
            taken()(g, r) ==> #[trigger] taken()(g.push((Request::Log(q), reply)), r),
        forall|
            g: History,
            q: LogRequest<Seq<char>>,
            reply: SpecReply,
            r: Result<Seq<u8>, SpecError>,
        |
            given(len)(g, r) ==> #[trigger] given(len)(g.push((Request::Log(q), reply)), r),
{
    assert forall|
        g: History,
        q: LogRequest<Seq<char>>,
        reply: SpecReply,
        r: Result<usize, SpecError>,
    |
        taken()(g, r) implies #[trigger] taken()(g.push((Request::Log(q), reply)), r) by {
        if let Ok(n) = r {
            took_stays(g, (Request::Log(q), reply), n);
        }
    }
    assert forall|
        g: History,
        q: LogRequest<Seq<char>>,
        reply: SpecReply,
        r: Result<Seq<u8>, SpecError>,
    |
        given(len)(g, r) implies #[trigger] given(len)(g.push((Request::Log(q), reply)), r) by {
        if let Ok(data) = r {
            if gave(g, data) {
                gave_stays(g, (Request::Log(q), reply), data);
            }
        }
    }
}

/// By path: a write gives the number of bytes that the data service took, and a read the bytes that
/// it gave.
pub proof fn paths_report_transfers(
    log: bool,
    p: Seq<char>,
    offset: u64,
    len: usize,
    data: Seq<u8>,
    h: History,
)
    ensures
        history::ruled(fs::logged_write_at(log, p, offset, data), h, moves(), taken()),
        history::ruled(fs::logged_read_at(log, p, offset, len), h, moves(), given(len)),
{
    let n = path::normalize(p);
    let w = Write::of(n, offset, data);
    let find = lookup::resolve(n, true);
    let any = history::any_end::<FileStat<Seq<char>>>();
    let write = |info: FileStat<Seq<char>>| io::perform_write(w, info.inode);
    let read = |info: FileStat<Seq<char>>| io::read_inode(n, info.inode, offset, len);
    logs_keep_ends(len);
    assert forall|g: History| #[trigger]
        history::ruled(io::write_at(n, offset, data), g, moves(), taken()) by {
        assert(history::ruled(find, g, moves(), any)) by {
            reveal_with_fuel(history::ruled, 3);
        }
        assert forall|f: History, info: FileStat<Seq<char>>| #[trigger]
            any(f, Ok(info)) implies history::ruled(write(info), f, moves(), taken()) by {
            inode_write_takes(w, info.inode, f);
        }
        history::ruled_and_next(find, g, moves(), any, write, taken());
    }
    assert forall|g: History| #[trigger]
        history::ruled(io::read_at(n, offset, len), g, moves(), given(len)) by {
        assert(history::ruled(find, g, moves(), any)) by {
            reveal_with_fuel(history::ruled, 3);
        }
        assert forall|f: History, info: FileStat<Seq<char>>| #[trigger]
            any(f, Ok(info)) implies history::ruled(read(info), f, moves(), given(len)) by {
            inode_read_gives(n, info.inode, offset, len, f);
        }
        history::ruled_and_next(find, g, moves(), any, read, given(len));
    }
    history::ruled_logged(
        log,
        "write_at"@,
        n,
        io::write_at(n, offset, data),
        h,
        moves(),
        taken(),
    );
    history::ruled_logged(
        log,
        "read_at"@,
        n,
        io::read_at(n, offset, len),
        h,
        moves(),
        given(len),
    );
}

proof fn file_write_takes(
    w: Write<Seq<char>, Seq<u8>>,
    ino: i64,
    from: Option<u64>,
    h: History,
)
    requires
        from matches Some(size) ==> sized(h, size),
    ensures
        history::ruled(handle::write_file(w, ino, from), h, moves(), taken()),
{
    let next = |n: usize| handle::write_move(from, n);
    let fact = |g: History| from matches Some(size) ==> sized(g, size);
    inode_write_takes(w, ino, h);
    assert forall|g: History, e: Exchange| fact(g) implies #[trigger] fact(g.push(e)) by {
        if let Some(size) = from {
            sized_stays(g, e, size);
        }
    }
    history::ruled_keeps(io::perform_write(w, ino), h, moves(), taken(), fact);
    let mid = |g: History, r: Result<usize, SpecError>| taken()(g, r) && fact(g);
    assert forall|g: History, n: usize| #[trigger] mid(g, Ok(n)) implies history::ruled(
        next(n),
        g,
        moves(),
        taken(),
    ) by {
        let s = handle::write_move(from, n);
        assert(took(g, n));
        if let Some(size) = from {
            assert(sized(g, size));
        }
        assert(moves()(g, s->Ask_0));
        assert forall|reply: SpecReply| history::ruled(
            #[trigger] (s->Ask_1)(reply),
            g.push((s->Ask_0, reply)),
            moves(),
            taken(),
        ) by {
            took_stays(g, (s->Ask_0, reply), n);
        }
    }
    history::ruled_and_next(io::perform_write(w, ino), h, moves(), mid, next, taken());
}

proof fn append_takes(path: Seq<char>, ino: i64, data: Seq<u8>, h: History)
    ensures
        history::ruled(handle::append_file(path, ino, data), h, moves(), taken()),
{
    let find = handle::file_size(path, ino);
    let mid = |g: History, r: Result<u64, SpecError>| r matches Ok(size) ==> sized(g, size);
    let next = |size: u64| handle::write_file(Write::of(path, size, data), ino, Some(size));
    assert(history::ruled(find, h, moves(), mid)) by {
        assert forall|reply: SpecReply| history::ruled(
            #[trigger] (find->Ask_1)(reply),
            h.push((find->Ask_0, reply)),
            moves(),
            mid,
        ) by {
            history::history_grows(h, (find->Ask_0, reply), (find->Ask_0, reply));
        }
    }
    assert forall|g: History, size: u64| #[trigger] mid(g, Ok(size)) implies history::ruled(
        next(size),
        g,
        moves(),
        taken(),
    ) by {
        file_write_takes(Write::of(path, size, data), ino, Some(size), g);
    }
    history::ruled_and_next(find, h, moves(), mid, next, taken());
}

proof fn file_read_gives(
    path: Seq<char>,
    ino: i64,
    offset: u64,
    len: usize,
    advance: bool,
    h: History,
)
    ensures
        history::ruled(
            handle::read_file(path, ino, offset, len, advance),
            h,
            moves(),
            given(len),
        ),
{
    let next = |data: Seq<u8>| handle::read_done(data, advance);
    inode_read_gives(path, ino, offset, len, h);
    assert forall|g: History, data: Seq<u8>| #[trigger]
        given(len)(g, Ok(data)) implies history::ruled(next(data), g, moves(), given(len)) by {
        if advance {
            let s = handle::read_advance(data);
            assert(moves()(g, s->Ask_0));
            assert forall|reply: SpecReply| history::ruled(
                #[trigger] (s->Ask_1)(reply),
                g.push((s->Ask_0, reply)),
                moves(),
                given(len),
            ) by {
                if gave(g, data) {
                    gave_stays(g, (s->Ask_0, reply), data);
                }
            }
        }
    }
    history::ruled_and_next(
        io::read_inode(path, ino, offset, len),
        h,
        moves(),
        given(len),
        next,
        given(len),
    );
}

/// Through a handle: a write gives the number of bytes that the data service took, a read the bytes
/// that it gave, and the offset moves by as many.
pub proof fn handles_report_transfers(
    f: File<Seq<char>>,
    len: usize,
    offset: u64,
    data: Seq<u8>,
    h: History,
)
    ensures
        history::ruled(file::logged_write(f, data), h, moves(), taken()),
        history::ruled(file::logged_write_at(f, data, offset), h, moves(), taken()),
        history::ruled(file::logged_read(f, len), h, moves(), given(len)),
        history::ruled(file::logged_read_at(f, len, offset), h, moves(), given(len)),
{
    let p = f.path;
    let ino = f.inode;
    let write = if !f.flags.write {
        handle::not_writable::<usize>()
    } else if f.flags.append {
        handle::append_file(p, ino, data)
    } else {
        handle::write_file(Write::of(p, f.offset, data), ino, None)
    };
    let write_at = if !f.flags.write {
        handle::not_writable::<usize>()
    } else {
        io::write_inode(p, ino, offset, data)
    };
    let read = if f.flags.read {
        handle::read_file(p, ino, f.offset, len, true)
    } else {
        handle::not_readable::<Seq<u8>>()
    };
    let read_at = if f.flags.read {
        handle::read_file(p, ino, offset, len, false)
    } else {
        handle::not_readable::<Seq<u8>>()
    };
    logs_keep_ends(len);
    assert forall|g: History| #[trigger] history::ruled(write, g, moves(), taken()) by {
        append_takes(p, ino, data, g);
        file_write_takes(Write::of(p, f.offset, data), ino, None, g);
    }
    assert forall|g: History| #[trigger] history::ruled(write_at, g, moves(), taken()) by {
        inode_write_takes(Write::of(p, offset, data), ino, g);
    }
    assert forall|g: History| #[trigger] history::ruled(read, g, moves(), given(len)) by {
        file_read_gives(p, ino, f.offset, len, true, g);
    }
    assert forall|g: History| #[trigger] history::ruled(read_at, g, moves(), given(len)) by {
        file_read_gives(p, ino, offset, len, false, g);
    }
    history::ruled_logged(f.log, "write"@, p, write, h, moves(), taken());
    history::ruled_logged(f.log, "write_at"@, p, write_at, h, moves(), taken());
    history::ruled_logged(f.log, "read"@, p, read, h, moves(), given(len));
    history::ruled_logged(f.log, "read_at"@, p, read_at, h, moves(), given(len));
}

} // verus!
