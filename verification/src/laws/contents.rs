//! What a read gives back of a write.
use crate::file;
use crate::file::File;
use crate::fs;
use crate::laws::run;
use crate::laws::store;
use crate::laws::store::{Store, World};
use crate::meta::{FileAttr, FileType};
use crate::ops::attr;
use crate::ops::handle;
use crate::ops::io;
use crate::ops::io::Write;
use crate::ops::lookup;
use crate::path;
use crate::registry;
use crate::script::{
    HandleRequest, LogRequest, RegistryRequest, Reply, Request, Script, SpecError, SpecReply,
};
use crate::stat::FileStat;
use vstd::prelude::*;

verus! {

broadcast use crate::script::group_bind;

/// The later of two positions.
pub open spec fn later(a: int, b: int) -> int {
    if a > b {
        a
    } else {
        b
    }
}

/// The world after a write to a file: the file holds the data at its offset, and is as long as it
/// has to be for that; nothing else that is kept has changed, of this file or of others.
pub open spec fn file_written(w: World, w1: World, ino: i64, offset: u64, data: Seq<u8>) -> bool {
    &&& w1.holds_file(ino)
    &&& store::only_inode(w, w1, ino)
    &&& w1.store.bytes(ino) == store::overwritten(w.store.bytes(ino), offset as nat, data)
    &&& w1.store.contents == w.store.contents.insert(
        registry::channel(ino),
        store::overwritten(w.store.bytes(ino), offset as nat, data),
    )
    &&& w1.store.attrs == w.store.attrs.insert(
        ino,
        FileAttr {
            size: later(w.store.attrs[ino].size as int, offset + data.len()) as u64,
            ..w.store.attrs[ino]
        },
    )
    &&& w1.store.entries == w.store.entries
    &&& w1.store.targets == w.store.targets
    &&& w1.store.root_ino == w.store.root_ino
    &&& w1.context == w.context
    &&& w1.now == w.now
    &&& w1.local.next_file_id == w.local.next_file_id
}

proof fn register_runs(w: World, path: Seq<char>, ino: i64)
    requires
        w.holds_file(ino),
    ensures
        ({
            let (w1, r) = run::run(store::services(), w, io::register(path, ino));
            &&& r == Ok::<(), SpecError>(())
            &&& w1 == World { local: w1.local, ..w }
            &&& w1.local.next_file_id == w.local.next_file_id
            &&& w1.local.channels.wf()
            &&& w1.local.channels.sizes.contains_key(ino)
            &&& w1.local.channels.sizes[ino] == w.store.attrs[ino].size
            &&& store::only_inode(w, w1, ino)
        }),
{
    let sv = store::services();
    let s = io::register(path, ino);
    if w.local.channels.sizes.contains_key(ino) {
        let reply = SpecReply::Cached(Some(w.local.channels.sizes[ino]));
        assert(sv(w, s->Ask_0) == (w, reply));
        assert((s->Ask_1)(reply) == Script::<()>::Done(Ok(())));
        assert(run::run(sv, w, s) == run::run(sv, w, Script::<()>::Done(Ok(()))));
    } else {
        let attr = w.store.attrs[ino];
        let s1 = io::register_attr(path, ino);
        let s2 = io::register_now(ino, attr.size);
        assert(sv(w, s->Ask_0) == (w, SpecReply::Cached(None)));
        assert(run::run(sv, w, s) == run::run(sv, w, s1));
        assert(sv(w, s1->Ask_0) == (w, SpecReply::Attr(Ok(Some(attr)))));
        assert(run::run(sv, w, s1) == run::run(sv, w, s2));
        let w1 = World {
            local: w.local.after(RegistryRequest::Register { ino, size: attr.size }),
            ..w
        };
        assert(sv(w, s2->Ask_0) == (w1, SpecReply::Ack));
        assert((s2->Ask_1)(SpecReply::Ack) == Script::<()>::Done(Ok(())));
        assert(run::run(sv, w, s2) == run::run(sv, w1, Script::<()>::Done(Ok(()))));
    }
}

/// The last steps of a write, the data being written.
proof fn write_size_runs(w: World, path: Seq<char>, ino: i64, end: u64, n: usize)
    requires
        w.local.channels.wf(),
        w.local.channels.sizes.contains_key(ino),
        w.local.channels.sizes[ino] == w.store.attrs[ino].size,
    ensures
        run::run(store::services(), w, io::write_size(path, ino, end, n)) == (
            if end > w.store.attrs[ino].size {
                (
                    World {
                        store: w.store.with_size(ino, end),
                        local: w.local.after(RegistryRequest::UpdateSize { ino, size: end }),
                        ..w
                    },
                    Ok::<usize, SpecError>(n),
                )
            } else {
                (w, Ok::<usize, SpecError>(n))
            }
        ),
{
    let sv = store::services();
    let size = w.store.attrs[ino].size;
    let s = io::write_size(path, ino, end, n);
    assert(sv(w, s->Ask_0) == (w, SpecReply::Cached(Some(size))));
    if end > size {
        let w1 = World {
            local: w.local.after(RegistryRequest::UpdateSize { ino, size: end }),
            ..w
        };
        let s1 = io::write_grow(path, ino, end, n);
        let s2 = io::write_set_size(path, ino, end, n);
        assert(run::run(sv, w, s) == run::run(sv, w, s1));
        assert(sv(w, s1->Ask_0) == (w1, SpecReply::Ack));
        assert(run::run(sv, w, s1) == run::run(sv, w1, s2));
        let w2 = World { store: w.store.with_size(ino, end), ..w1 };
        assert(sv(w1, s2->Ask_0) == (w2, SpecReply::Unit(Ok(()))));
        assert((s2->Ask_1)(Reply::Unit(Ok(()))) == Script::<usize>::Done(Ok(n)));
        assert(run::run(sv, w1, s2) == run::run(sv, w2, Script::<usize>::Done(Ok(n))));
    } else {
        assert((s->Ask_1)(Reply::Cached(Some(size))) == Script::<usize>::Done(Ok(n)));
        assert(run::run(sv, w, s) == run::run(sv, w, Script::<usize>::Done(Ok(n))));
    }
}

/// A write to an inode that is registered, up to its data.
proof fn write_channel_runs(w: World, wr: Write<Seq<char>, Seq<u8>>, ino: i64)
    requires
        w.local.channels.wf(),
        w.local.channels.sizes.contains_key(ino),
    ensures
        run::run(store::services(), w, io::write_channel(wr, ino)) == run::run(
            store::services(),
            World {
                store: Store {
                    contents: w.store.contents.insert(
                        registry::channel(ino),
                        store::overwritten(w.store.bytes(ino), wr.offset as nat, wr.data),
                    ),
                    ..w.store
                },
                ..w
            },
            io::write_size(wr.path, ino, wr.end(), wr.data.len() as usize),
        ),
{
    let sv = store::services();
    let c = registry::channel(ino);
    let s = io::write_channel(wr, ino);
    assert(sv(w, s->Ask_0) == (w, SpecReply::Channel(Some(c))));
    let s1 = io::write_data(wr, ino, c);
    assert(run::run(sv, w, s) == run::run(sv, w, s1));
    let w1 = World {
        store: Store {
            contents: w.store.contents.insert(
                c,
                store::overwritten(w.store.bytes(ino), wr.offset as nat, wr.data),
            ),
            ..w.store
        },
        ..w
    };
    assert(sv(w, s1->Ask_0) == (w1, SpecReply::Written(Ok(wr.data.len() as usize))));
}

/// Writing to a file changes its bytes as asked, and takes all of the data.
pub proof fn write_changes_the_file(
    w: World,
    path: Seq<char>,
    ino: i64,
    offset: u64,
    data: Seq<u8>,
)
    requires
        w.holds_file(ino),
        offset + data.len() <= u64::MAX,
        data.len() <= usize::MAX,
    ensures
        ({
            let (w1, r) = run::run(
                store::services(),
                w,
                io::write_inode(path, ino, offset, data),
            );
            &&& r == Ok::<usize, SpecError>(data.len() as usize)
            &&& file_written(w, w1, ino, offset, data)
            &&& w1.file == w.file
        }),
{
    let sv = store::services();
    let wr = Write::of(path, offset, data);
    let c = registry::channel(ino);
    register_runs(w, path, ino);
    run::run_and_next(sv, w, io::register(path, ino), |u: ()| io::write_channel(wr, ino));
    let (w1, _) = run::run(sv, w, io::register(path, ino));
    write_channel_runs(w1, wr, ino);
    let (w2, r) = run::run(sv, w1, io::write_channel(wr, ino));
    let w3 = World {
        store: Store {
            contents: w.store.contents.insert(
                c,
                store::overwritten(w.store.bytes(ino), offset as nat, data),
            ),
            ..w.store
        },
        ..w1
    };
    let n = data.len() as usize;
    write_size_runs(w3, path, ino, wr.end(), n);
    if wr.end() > w.store.attrs[ino].size {
        let bytes = w3.store.bytes(ino);
        assert(store::resized(bytes, wr.end() as nat) =~= bytes);
        assert(w2.store.contents =~= w3.store.contents);
    } else {
        assert(w2.store.attrs =~= w.store.attrs.insert(ino, w.store.attrs[ino]));
    }
    assert forall|other: i64| other != ino implies #[trigger] store::same_inode(w, w2, other) by {
        registry::channels_differ(ino, other);
        assert(store::same_inode(w, w1, other));
    }
}

proof fn read_channel_runs(w: World, ino: i64, offset: u64, len: usize)
    requires
        w.local.channels.wf(),
        w.local.channels.sizes.contains_key(ino),
    ensures
        run::run(store::services(), w, io::read_channel(ino, offset, len)) == (
            w,
            Ok::<Seq<u8>, SpecError>(
                store::excerpt(w.store.bytes(ino), offset as nat, len as nat),
            ),
        ),
{
    let sv = store::services();
    let c = registry::channel(ino);
    let data = store::excerpt(w.store.bytes(ino), offset as nat, len as nat);
    let s = io::read_channel(ino, offset, len);
    let s1 = io::read_now(c, offset, len);
    assert(sv(w, s->Ask_0) == (w, SpecReply::Channel(Some(c))));
    assert(run::run(sv, w, s) == run::run(sv, w, s1));
    assert(sv(w, s1->Ask_0) == (w, SpecReply::Data(Ok(data))));
    assert((s1->Ask_1)(SpecReply::Data(Ok(data))) == Script::<Seq<u8>>::Done(Ok(data)));
    assert(run::run(sv, w, s1) == run::run(sv, w, Script::<Seq<u8>>::Done(Ok(data))));
}

/// Reading from a file gives its bytes, and changes nothing that the store keeps.
pub proof fn read_gives_the_bytes(w: World, path: Seq<char>, ino: i64, offset: u64, len: usize)
    requires
        w.holds_file(ino),
    ensures
        ({
            let (w1, r) = run::run(
                store::services(),
                w,
                io::read_inode(path, ino, offset, len),
            );
            &&& r == Ok::<Seq<u8>, SpecError>(
                store::excerpt(w.store.bytes(ino), offset as nat, len as nat),
            )
            &&& w1.store == w.store
            &&& w1.holds_file(ino)
            &&& w1 == World { local: w1.local, ..w }
            &&& w1.local.next_file_id == w.local.next_file_id
            &&& store::only_inode(w, w1, ino)
        }),
{
    let sv = store::services();
    if len == 0 {
        assert(store::excerpt(w.store.bytes(ino), offset as nat, 0) =~= Seq::<u8>::empty());
    } else {
        register_runs(w, path, ino);
        run::run_and_next(
            sv,
            w,
            io::register(path, ino),
            |u: ()| io::read_channel(ino, offset, len),
        );
        let w1 = run::run(sv, w, io::register(path, ino)).0;
        read_channel_runs(w1, ino, offset, len);
    }
}

/// A read gives back what was written: the same data at the same place, and, elsewhere, what was
/// there before.
pub proof fn read_after_write(
    w: World,
    path: Seq<char>,
    read_path: Seq<char>,
    ino: i64,
    offset: u64,
    data: Seq<u8>,
    read_offset: u64,
    len: usize,
)
    requires
        w.holds_file(ino),
        offset + data.len() <= u64::MAX,
        data.len() <= usize::MAX,
    ensures
        ({
            let sv = store::services();
            let w1 = run::run(sv, w, io::write_inode(path, ino, offset, data)).0;
            let same = run::run(
                sv,
                w1,
                io::read_inode(read_path, ino, offset, data.len() as usize),
            ).1;
            let any = run::run(sv, w1, io::read_inode(read_path, ino, read_offset, len)).1;
            &&& same == Ok::<Seq<u8>, SpecError>(data)
            &&& any == Ok::<Seq<u8>, SpecError>(
                store::excerpt(
                    store::overwritten(w.store.bytes(ino), offset as nat, data),
                    read_offset as nat,
                    len as nat,
                ),
            )
        }),
{
    let sv = store::services();
    write_changes_the_file(w, path, ino, offset, data);
    let w1 = run::run(sv, w, io::write_inode(path, ino, offset, data)).0;
    read_gives_the_bytes(w1, read_path, ino, offset, data.len() as usize);
    read_gives_the_bytes(w1, read_path, ino, read_offset, len);
    let bytes = store::overwritten(w.store.bytes(ino), offset as nat, data);
    assert(store::excerpt(bytes, offset as nat, data.len()) =~= data);
}

/// Resolving a path in a world gives the attributes of what it leads to.
pub proof fn resolve_runs(w: World, p: Seq<char>, follow_last: bool, ino: i64)
    requires
        follow_last ==> w.store.behind(p) == Some(ino),
        !follow_last ==> w.store.at(p) == Some(ino),
        w.store.attrs.contains_key(ino),
    ensures
        run::run(store::services(), w, lookup::resolve(p, follow_last)) == (
            w,
            Ok::<FileStat<Seq<char>>, SpecError>(
                FileStat {
                    name: path::last_segment(p),
                    inode: w.store.attrs[ino].ino,
                    attr: w.store.attrs[ino],
                },
            ),
        ),
{
    let sv = store::services();
    let attr = w.store.attrs[ino];
    let info = FileStat { name: path::last_segment(p), inode: attr.ino, attr };
    let s = lookup::resolve(p, follow_last);
    let s1 = lookup::resolve_attr(p, ino);
    assert(sv(w, s->Ask_0) == (w, SpecReply::Inode(Ok(ino))));
    assert(run::run(sv, w, s) == run::run(sv, w, s1));
    let reply = SpecReply::Attr(Ok(Some(attr)));
    let done = Script::<FileStat<Seq<char>>>::Done(Ok(info));
    assert(sv(w, s1->Ask_0) == (w, reply));
    assert((s1->Ask_1)(reply) == done);
    assert(run::run(sv, w, s1) == run::run(sv, w, done));
}

/// The access log of a world changes nothing.
pub proof fn store_ignores_log()
    ensures
        forall|v: World, q: LogRequest<Seq<char>>|
            (#[trigger] store::services()(v, Request::Log(q))).0 == v,
{
}

/// `write_at` changes the file that its path leads to.
pub proof fn write_at_changes_the_file(
    w: World,
    log: bool,
    path: Seq<char>,
    ino: i64,
    offset: u64,
    data: Seq<u8>,
)
    requires
        w.holds_file(ino),
        w.store.behind(path) == Some(ino),
        offset + data.len() <= u64::MAX,
        data.len() <= usize::MAX,
    ensures
        ({
            let (w1, n) = run::run(
                store::services(),
                w,
                fs::logged_write_at(log, path, offset, data),
            );
            &&& n == Ok::<usize, SpecError>(data.len() as usize)
            &&& file_written(w, w1, ino, offset, data)
        }),
{
    let sv = store::services();
    let p = path::normalize(path);
    let wr = Write::of(p, offset, data);
    path::normalize_keeps_components(path);
    store_ignores_log();
    run::logging_changes_nothing(sv, w, log, "write_at"@, p, io::write_at(p, offset, data));
    resolve_runs(w, p, true, ino);
    run::run_and_next(
        sv,
        w,
        lookup::resolve(p, true),
        |info: FileStat<Seq<char>>| io::perform_write(wr, info.inode),
    );
    write_changes_the_file(w, p, ino, offset, data);
}

/// `read_at` gives the bytes of the file that its path leads to.
pub proof fn read_at_gives_the_bytes(
    w: World,
    log: bool,
    path: Seq<char>,
    ino: i64,
    offset: u64,
    len: usize,
)
    requires
        w.holds_file(ino),
        w.store.behind(path) == Some(ino),
    ensures
        ({
            let (w1, r) = run::run(
                store::services(),
                w,
                fs::logged_read_at(log, path, offset, len),
            );
            &&& r == Ok::<Seq<u8>, SpecError>(
                store::excerpt(w.store.bytes(ino), offset as nat, len as nat),
            )
            &&& w1 == World { local: w1.local, ..w }
            &&& w1.holds_file(ino)
            &&& store::only_inode(w, w1, ino)
        }),
{
    let sv = store::services();
    let p = path::normalize(path);
    path::normalize_keeps_components(path);
    store_ignores_log();
    run::logging_changes_nothing(sv, w, log, "read_at"@, p, io::read_at(p, offset, len));
    resolve_runs(w, p, true, ino);
    run::run_and_next(
        sv,
        w,
        lookup::resolve(p, true),
        |info: FileStat<Seq<char>>| io::read_inode(p, info.inode, offset, len),
    );
    read_gives_the_bytes(w, p, ino, offset, len);
}

/// Through the file system: what `write_at` writes to a path, `read_at` reads from every path that
/// leads to the same file.
pub proof fn read_at_after_write_at(
    w: World,
    log: bool,
    path: Seq<char>,
    read_path: Seq<char>,
    ino: i64,
    offset: u64,
    data: Seq<u8>,
)
    requires
        w.holds_file(ino),
        w.store.behind(path) == Some(ino),
        w.store.behind(read_path) == Some(ino),
        offset + data.len() <= u64::MAX,
        data.len() <= usize::MAX,
    ensures
        ({
            let sv = store::services();
            let w1 = run::run(sv, w, fs::logged_write_at(log, path, offset, data)).0;
            run::run(
                sv,
                w1,
                fs::logged_read_at(log, read_path, offset, data.len() as usize),
            ).1 == Ok::<Seq<u8>, SpecError>(data)
        }),
{
    let sv = store::services();
    write_at_changes_the_file(w, log, path, ino, offset, data);
    let w1 = run::run(sv, w, fs::logged_write_at(log, path, offset, data)).0;
    read_at_gives_the_bytes(w1, log, read_path, ino, offset, data.len() as usize);
    let bytes = store::overwritten(w.store.bytes(ino), offset as nat, data);
    assert(store::excerpt(bytes, offset as nat, data.len()) =~= data);
}

/// A handle on a file: the world works on it.
pub open spec fn works_on(w: World, f: File<Seq<char>>) -> bool {
    w.file == Some(f) && w.holds_file(f.inode)
}

/// A last step that the handle takes.
pub proof fn handle_step_runs<T>(w: World, q: HandleRequest, s: Script<T>, r: Result<T, SpecError>)
    requires
        s is Ask,
        s->Ask_0 == Request::<Seq<char>, Seq<u8>>::Handle(q),
        (s->Ask_1)(Reply::Ack) == Script::<T>::Done(r),
        w.file is Some,
    ensures
        run::run(store::services(), w, s) == (
            World { file: Some(w.file->Some_0.after(q)), ..w },
            r,
        ),
{
    let sv = store::services();
    let w1 = World { file: Some(w.file->Some_0.after(q)), ..w };
    assert(sv(w, s->Ask_0) == (w1, SpecReply::Ack));
    assert(run::run(sv, w, s) == run::run(sv, w1, Script::<T>::Done(r)));
}

/// What a handle knows is no part of what is kept.
proof fn handle_is_apart(w: World, w1: World, ino: i64, file: Option<File<Seq<char>>>)
    requires
        store::only_inode(w, w1, ino),
    ensures
        store::only_inode(w, World { file, ..w1 }, ino),
{
    let w2 = World { file, ..w1 };
    assert forall|other: i64| other != ino implies #[trigger] store::same_inode(w, w2, other) by {
        assert(store::same_inode(w, w1, other));
    }
}

/// Reading through a handle gives the bytes from its offset on, and moves the offset behind them.
pub proof fn handle_read_advances(w: World, f: File<Seq<char>>, len: usize)
    requires
        works_on(w, f),
        f.flags.read,
    ensures
        ({
            let (w1, r) = run::run(store::services(), w, file::logged_read(f, len));
            let data = store::excerpt(w.store.bytes(f.inode), f.offset as nat, len as nat);
            &&& r == Ok::<Seq<u8>, SpecError>(data)
            &&& data.len() > 0 ==> f.offset + data.len() <= w.store.bytes(f.inode).len()
            &&& w1.file == Some(File { offset: (f.offset + data.len()) as u64, ..f })
            &&& w1.store == w.store
            &&& w1.holds_file(f.inode)
            &&& store::only_inode(w, w1, f.inode)
        }),
{
    let sv = store::services();
    store_ignores_log();
    let inner = handle::read_file(f.path, f.inode, f.offset, len, true);
    run::logging_changes_nothing(sv, w, f.log, "read"@, f.path, inner);
    run::run_and_next(
        sv,
        w,
        io::read_inode(f.path, f.inode, f.offset, len),
        |data: Seq<u8>| handle::read_done(data, true),
    );
    read_gives_the_bytes(w, f.path, f.inode, f.offset, len);
    let (w1, _) = run::run(sv, w, io::read_inode(f.path, f.inode, f.offset, len));
    let data = store::excerpt(w.store.bytes(f.inode), f.offset as nat, len as nat);
    let by = data.len() as u64;
    handle_step_runs(w1, HandleRequest::Advance { by }, handle::read_advance(data), Ok(data));
    handle_is_apart(w, w1, f.inode, Some(f.after(HandleRequest::Advance { by })));
}

/// Writing through a handle that does not append changes the bytes at its offset, and moves the
/// offset behind the data.
pub proof fn handle_write_advances(w: World, f: File<Seq<char>>, data: Seq<u8>)
    requires
        works_on(w, f),
        f.flags.write,
        !f.flags.append,
        f.offset + data.len() <= u64::MAX,
        data.len() <= usize::MAX,
    ensures
        ({
            let (w1, r) = run::run(store::services(), w, file::logged_write(f, data));
            &&& r == Ok::<usize, SpecError>(data.len() as usize)
            &&& file_written(w, w1, f.inode, f.offset, data)
            &&& w1.file == Some(File { offset: (f.offset + data.len()) as u64, ..f })
        }),
{
    let sv = store::services();
    store_ignores_log();
    let wr = Write::of(f.path, f.offset, data);
    let inner = handle::write_file(wr, f.inode, None);
    run::logging_changes_nothing(sv, w, f.log, "write"@, f.path, inner);
    run::run_and_next(
        sv,
        w,
        io::perform_write(wr, f.inode),
        |n: usize| handle::write_move(None, n),
    );
    write_changes_the_file(w, f.path, f.inode, f.offset, data);
    let (w1, _) = run::run(sv, w, io::perform_write(wr, f.inode));
    let n = data.len() as usize;
    handle_step_runs(w1, handle::move_request(None, n), handle::write_move(None, n), Ok(n));
    handle_is_apart(w, w1, f.inode, Some(f.after(handle::move_request(None, n))));
}

/// Writing through a handle that appends adds the data at the end of the file, wherever the
/// offset of the handle is, and moves the offset there.
pub proof fn handle_append_extends(w: World, f: File<Seq<char>>, data: Seq<u8>)
    requires
        works_on(w, f),
        f.flags.write,
        f.flags.append,
        w.store.bytes(f.inode).len() + data.len() <= u64::MAX,
        data.len() <= usize::MAX,
    ensures
        ({
            let (w1, r) = run::run(store::services(), w, file::logged_write(f, data));
            let bytes = w.store.bytes(f.inode) + data;
            &&& r == Ok::<usize, SpecError>(data.len() as usize)
            &&& w1.store.bytes(f.inode) == bytes
            &&& w1.store.attrs[f.inode].size == bytes.len()
            &&& w1.holds_file(f.inode)
            &&& store::only_inode(w, w1, f.inode)
            &&& w1.file == Some(File { offset: bytes.len() as u64, ..f })
        }),
{
    let sv = store::services();
    store_ignores_log();
    let size = w.store.attrs[f.inode].size;
    let wr = Write::of(f.path, size, data);
    let inner = handle::append_file(f.path, f.inode, data);
    run::logging_changes_nothing(sv, w, f.log, "write"@, f.path, inner);
    run::run_and_next(
        sv,
        w,
        handle::file_size(f.path, f.inode),
        |n: u64| handle::write_file(Write::of(f.path, n, data), f.inode, Some(n)),
    );
    assert(run::run(sv, w, handle::file_size(f.path, f.inode)) == (
        w,
        Ok::<u64, SpecError>(size),
    )) by {
        reveal_with_fuel(run::run, 2);
    }
    run::run_and_next(
        sv,
        w,
        io::perform_write(wr, f.inode),
        |n: usize| handle::write_move(Some(size), n),
    );
    write_changes_the_file(w, f.path, f.inode, size, data);
    assert(store::overwritten(w.store.bytes(f.inode), size as nat, data) =~= w.store.bytes(f.inode)
        + data);
    let (w1, _) = run::run(sv, w, io::perform_write(wr, f.inode));
    let n = data.len() as usize;
    let from = Some(size);
    handle_step_runs(w1, handle::move_request(from, n), handle::write_move(from, n), Ok(n));
    handle_is_apart(w, w1, f.inode, Some(f.after(handle::move_request(from, n))));
}

/// Two appends through a handle add one text after the other.
pub proof fn appends_follow_each_other(
    w: World,
    f: File<Seq<char>>,
    first: Seq<u8>,
    second: Seq<u8>,
)
    requires
        works_on(w, f),
        f.flags.write,
        f.flags.append,
        w.store.bytes(f.inode).len() + first.len() + second.len() <= u64::MAX,
        first.len() <= usize::MAX,
        second.len() <= usize::MAX,
    ensures
        ({
            let sv = store::services();
            let w1 = run::run(sv, w, file::logged_write(f, first)).0;
            let w2 = run::run(sv, w1, file::logged_write(w1.file->Some_0, second)).0;
            w2.store.bytes(f.inode) == w.store.bytes(f.inode) + first + second
        }),
{
    let sv = store::services();
    handle_append_extends(w, f, first);
    let w1 = run::run(sv, w, file::logged_write(f, first)).0;
    handle_append_extends(w1, w1.file->Some_0, second);
}

/// `truncate` in a world.
pub proof fn truncate_runs(w: World, p: Seq<char>, ino: i64, size: u64)
    requires
        w.store.at(p) == Some(ino),
        w.store.attrs[ino].kind == FileType::File,
    ensures
        run::run(store::services(), w, attr::truncate(p, size)) == (
            World {
                store: w.store.with_size(ino, size),
                local: w.local.after(RegistryRequest::UpdateSize { ino, size }),
                ..w
            },
            Ok::<(), SpecError>(()),
        ),
{
    let sv = store::services();
    let s = attr::truncate(p, size);
    let s1 = attr::truncate_cached(p, ino, size);
    let s2 = attr::truncate_now(p, ino, size);
    assert(sv(w, s->Ask_0) == (w, SpecReply::Entry(Ok(Some((ino, FileType::File))))));
    assert(run::run(sv, w, s) == run::run(sv, w, s1));
    let w1 = World { local: w.local.after(RegistryRequest::UpdateSize { ino, size }), ..w };
    assert(sv(w, s1->Ask_0) == (w1, SpecReply::Ack));
    assert(run::run(sv, w, s1) == run::run(sv, w1, s2));
    let w2 = World { store: w.store.with_size(ino, size), ..w1 };
    assert(sv(w1, s2->Ask_0) == (w2, SpecReply::Unit(Ok(()))));
    assert((s2->Ask_1)(SpecReply::Unit(Ok(()))) == Script::<()>::Done(Ok(())));
    assert(run::run(sv, w1, s2) == run::run(sv, w2, Script::<()>::Done(Ok(()))));
}

/// After `truncate`, the file has the size asked for: it is cut there, or padded with zeros.
pub proof fn truncate_sets_the_size(w: World, log: bool, path: Seq<char>, ino: i64, size: u64)
    requires
        w.holds_file(ino),
        w.store.at(path) == Some(ino),
    ensures
        ({
            let (w1, r) = run::run(
                store::services(),
                w,
                attr::logged_truncate(log, path, size),
            );
            &&& r == Ok::<(), SpecError>(())
            &&& w1.holds_file(ino)
            &&& w1.store.attrs[ino] == FileAttr { size, ..w.store.attrs[ino] }
            &&& w1.store.bytes(ino) == store::resized(w.store.bytes(ino), size as nat)
            &&& store::only_inode(w, w1, ino)
            &&& w1.file == w.file
        }),
{
    let sv = store::services();
    let p = path::normalize(path);
    path::normalize_keeps_components(path);
    store_ignores_log();
    run::logging_changes_nothing(sv, w, log, "truncate"@, p, attr::truncate(p, size));
    truncate_runs(w, p, ino, size);
    resizing_spares_others(w, ino, size);
}

/// Setting the size of a file leaves other files alone.
pub proof fn resizing_spares_others(w: World, ino: i64, size: u64)
    requires
        w.holds_file(ino),
    ensures
        ({
            let w1 = World {
                store: w.store.with_size(ino, size),
                local: w.local.after(RegistryRequest::UpdateSize { ino, size }),
                ..w
            };
            &&& store::only_inode(w, w1, ino)
            &&& w1.holds_file(ino)
        }),
{
    let w1 = World {
        store: w.store.with_size(ino, size),
        local: w.local.after(RegistryRequest::UpdateSize { ino, size }),
        ..w
    };
    assert forall|other: i64| other != ino implies #[trigger] store::same_inode(w, w1, other) by {
        registry::channels_differ(ino, other);
    }
}

/// Reading at an offset through a handle gives the bytes from there on, and leaves the offset of
/// the handle alone.
pub proof fn handle_reads_at(w: World, f: File<Seq<char>>, len: usize, offset: u64)
    requires
        works_on(w, f),
        f.flags.read,
    ensures
        ({
            let (w1, r) = run::run(store::services(), w, file::logged_read_at(f, len, offset));
            &&& r == Ok::<Seq<u8>, SpecError>(
                store::excerpt(w.store.bytes(f.inode), offset as nat, len as nat),
            )
            &&& w1.file == Some(f)
            &&& w1.store == w.store
            &&& w1.holds_file(f.inode)
            &&& store::only_inode(w, w1, f.inode)
        }),
{
    let sv = store::services();
    store_ignores_log();
    let inner = handle::read_file(f.path, f.inode, offset, len, false);
    run::logging_changes_nothing(sv, w, f.log, "read_at"@, f.path, inner);
    run::run_and_next(
        sv,
        w,
        io::read_inode(f.path, f.inode, offset, len),
        |data: Seq<u8>| handle::read_done(data, false),
    );
    read_gives_the_bytes(w, f.path, f.inode, offset, len);
}

/// Writing at an offset through a handle that was opened for writing, whatever its other flags and
/// its own offset, changes the bytes there, and leaves the offset of the handle alone.
pub proof fn handle_writes_at(w: World, f: File<Seq<char>>, data: Seq<u8>, offset: u64)
    requires
        works_on(w, f),
        f.flags.write,
        offset + data.len() <= u64::MAX,
        data.len() <= usize::MAX,
    ensures
        ({
            let (w1, r) = run::run(store::services(), w, file::logged_write_at(f, data, offset));
            &&& r == Ok::<usize, SpecError>(data.len() as usize)
            &&& w1.store.bytes(f.inode) == store::overwritten(
                w.store.bytes(f.inode),
                offset as nat,
                data,
            )
            &&& file_written(w, w1, f.inode, offset, data)
            &&& w1.file == Some(f)
        }),
{
    let sv = store::services();
    store_ignores_log();
    let inner = io::write_inode(f.path, f.inode, offset, data);
    run::logging_changes_nothing(sv, w, f.log, "write_at"@, f.path, inner);
    write_changes_the_file(w, f.path, f.inode, offset, data);
}

/// What is written at an offset through one handle is read there through another, and by path.
pub proof fn handles_share_the_bytes(
    w: World,
    f: File<Seq<char>>,
    g: File<Seq<char>>,
    data: Seq<u8>,
    offset: u64,
)
    requires
        works_on(w, f),
        f.flags.write,
        g.inode == f.inode,
        g.flags.read,
        offset + data.len() <= u64::MAX,
        data.len() <= usize::MAX,
    ensures
        ({
            let sv = store::services();
            let w1 = run::run(sv, w, file::logged_write_at(f, data, offset)).0;
            let w2 = World { file: Some(g), ..w1 };
            run::run(sv, w2, file::logged_read_at(g, data.len() as usize, offset)).1 == Ok::<
                Seq<u8>,
                SpecError,
            >(data)
        }),
{
    let sv = store::services();
    handle_writes_at(w, f, data, offset);
    let w1 = run::run(sv, w, file::logged_write_at(f, data, offset)).0;
    let w2 = World { file: Some(g), ..w1 };
    handle_reads_at(w2, g, data.len() as usize, offset);
    let bytes = store::overwritten(w.store.bytes(f.inode), offset as nat, data);
    assert(store::excerpt(bytes, offset as nat, data.len()) =~= data);
}

/// A write to one file leaves what a read of another gives as it was.
pub proof fn files_are_apart(
    w: World,
    path: Seq<char>,
    other_path: Seq<char>,
    ino: i64,
    other: i64,
    offset: u64,
    data: Seq<u8>,
    read_offset: u64,
    len: usize,
)
    requires
        w.holds_file(ino),
        w.holds_file(other),
        other != ino,
        offset + data.len() <= u64::MAX,
        data.len() <= usize::MAX,
    ensures
        ({
            let sv = store::services();
            let w1 = run::run(sv, w, io::write_inode(path, ino, offset, data)).0;
            let read = io::read_inode(other_path, other, read_offset, len);
            &&& w1.store.bytes(other) == w.store.bytes(other)
            &&& run::run(sv, w1, read).1 == run::run(sv, w, read).1
            &&& run::run(sv, w, read).1 == Ok::<Seq<u8>, SpecError>(
                store::excerpt(w.store.bytes(other), read_offset as nat, len as nat),
            )
        }),
{
    let sv = store::services();
    write_changes_the_file(w, path, ino, offset, data);
    let w1 = run::run(sv, w, io::write_inode(path, ino, offset, data)).0;
    assert(store::same_inode(w, w1, other));
    read_gives_the_bytes(w, other_path, other, read_offset, len);
    read_gives_the_bytes(w1, other_path, other, read_offset, len);
}

/// `truncate` of a handle that was opened for writing sets the size of its file: it is cut there,
/// or padded with zeros, and the handle knows the size.
pub proof fn handle_truncates(w: World, f: File<Seq<char>>, size: u64)
    requires
        works_on(w, f),
        f.flags.write,
    ensures
        ({
            let (w1, r) = run::run(store::services(), w, file::logged_truncate(f, size));
            &&& r == Ok::<(), SpecError>(())
            &&& w1.holds_file(f.inode)
            &&& w1.store.attrs[f.inode] == FileAttr { size, ..w.store.attrs[f.inode] }
            &&& w1.store.bytes(f.inode) == store::resized(w.store.bytes(f.inode), size as nat)
            &&& store::only_inode(w, w1, f.inode)
            &&& w1.file == Some(
                File {
                    info: FileStat { attr: FileAttr { size, ..f.info.attr }, ..f.info },
                    ..f
                },
            )
        }),
{
    let sv = store::services();
    let ino = f.inode;
    store_ignores_log();
    let s = handle::truncate_file(f.path, ino, size);
    let s1 = handle::truncate_file_now(f.path, ino, size);
    let s2 = handle::handle_done(HandleRequest::NoteSize { size });
    run::logging_changes_nothing(sv, w, f.log, "truncate"@, f.path, s);
    let w1 = World { local: w.local.after(RegistryRequest::UpdateSize { ino, size }), ..w };
    assert(sv(w, s->Ask_0) == (w1, SpecReply::Ack));
    assert((s->Ask_1)(SpecReply::Ack) == s1);
    assert(run::run(sv, w, s) == run::run(sv, w1, s1));
    let w2 = World { store: w.store.with_size(ino, size), ..w1 };
    assert(sv(w1, s1->Ask_0) == (w2, SpecReply::Unit(Ok(()))));
    assert((s1->Ask_1)(SpecReply::Unit(Ok(()))) == s2);
    assert(run::run(sv, w1, s1) == run::run(sv, w2, s2));
    handle_step_runs(w2, HandleRequest::NoteSize { size }, s2, Ok(()));
    resizing_spares_others(w, ino, size);
    handle_is_apart(w, w2, ino, Some(f.after(HandleRequest::NoteSize { size })));
}

/// The size of an open file is that of its bytes.
pub proof fn handle_size_tells(w: World, f: File<Seq<char>>)
    requires
        works_on(w, f),
    ensures
        run::run(store::services(), w, handle::file_size(f.path, f.inode)) == (
            w,
            Ok::<u64, SpecError>(w.store.bytes(f.inode).len() as u64),
        ),
{
    reveal_with_fuel(run::run, 2);
}

} // verus!
