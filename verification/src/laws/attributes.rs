//! How attributes are set and read.
use crate::file;
use crate::file::File;
use crate::fs;
use crate::laws::contents;
use crate::laws::run;
use crate::laws::store;
use crate::laws::store::{Store, World};
use crate::meta::{FileAttr, SetAttrFlags, SetAttrRequest};
use crate::ops::attr;
use crate::ops::handle;
use crate::ops::lookup;
use crate::path;
use crate::registry;
use crate::script::{HandleRequest, MetaRequest, RegistryRequest, Script, SpecError, SpecReply};
use crate::stat::FileStat;
use vstd::prelude::*;

verus! {

broadcast use crate::script::group_bind;

proof fn set_attr_now_runs(
    w: World,
    p: Seq<char>,
    ino: i64,
    attrs: SetAttrRequest,
    flags: SetAttrFlags,
)
    ensures
        run::run(store::services(), w, attr::set_attr_now(p, ino, attrs, flags)) == (
            World {
                store: w.store.after(MetaRequest::SetAttr { ino, attrs, flags }),
                local: match attrs.size {
                    Some(size) => w.local.after(RegistryRequest::UpdateSize { ino, size }),
                    None => w.local,
                },
                ..w
            },
            Ok::<FileAttr, SpecError>(store::changed(w.store.attrs[ino], attrs)),
        ),
{
    let sv = store::services();
    let new = store::changed(w.store.attrs[ino], attrs);
    let s = attr::set_attr_now(p, ino, attrs, flags);
    let done = Script::<FileAttr>::Done(Ok(new));
    let w1 = World { store: w.store.after(MetaRequest::SetAttr { ino, attrs, flags }), ..w };
    let reply = SpecReply::Changed(Ok(new));
    assert(sv(w, s->Ask_0) == (w1, reply));
    match attrs.size {
        Some(size) => {
            let s1 = attr::set_attr_cached(ino, size, new);
            assert((s->Ask_1)(reply) == s1);
            assert(run::run(sv, w, s) == run::run(sv, w1, s1));
            let w2 = World {
                local: w.local.after(RegistryRequest::UpdateSize { ino, size }),
                ..w1
            };
            assert(sv(w1, s1->Ask_0) == (w2, SpecReply::Ack));
            assert((s1->Ask_1)(SpecReply::Ack) == done);
            assert(run::run(sv, w1, s1) == run::run(sv, w2, done));
        },
        None => {
            assert((s->Ask_1)(reply) == done);
            assert(run::run(sv, w, s) == run::run(sv, w1, done));
        },
    }
}

/// `set_attr` changes the attributes asked for, keeps the others, and gives the attributes after
/// the change. Where it sets the size of a file, all that is kept of the size goes on to agree.
pub proof fn set_attr_sets(
    w: World,
    log: bool,
    path: Seq<char>,
    attrs: SetAttrRequest,
    flags: SetAttrFlags,
    ino: i64,
)
    requires
        w.store.behind(path) == Some(ino),
        w.store.attrs.contains_key(ino),
        w.store.attrs[ino].ino == ino,
    ensures
        ({
            let (w1, r) = run::run(
                store::services(),
                w,
                fs::logged_set_attr(log, path, attrs, flags),
            );
            let new = store::changed(w.store.attrs[ino], attrs);
            &&& r == Ok::<FileAttr, SpecError>(new)
            &&& w1.store.attrs == w.store.attrs.insert(ino, new)
            &&& w1.store.marks == w.store.marks.insert(ino, flags)
            &&& w1.store.entries == w.store.entries
            &&& w1.store.targets == w.store.targets
            &&& attrs.size is None ==> w1.store.contents == w.store.contents && w1.local == w.local
            &&& w.holds_file(ino) ==> w1.holds_file(ino)
            &&& attrs.size matches Some(size) ==> w1.store.bytes(ino) == store::resized(
                w.store.bytes(ino),
                size as nat,
            )
            &&& forall|other: i64| other != ino ==> #[trigger] store::same_inode(w, w1, other)
        }),
{
    let sv = store::services();
    let n = path::normalize(path);
    path::normalize_keeps_components(path);
    contents::store_ignores_log();
    run::logging_changes_nothing(sv, w, log, "set_attr"@, n, attr::set_attr(n, attrs, flags));
    contents::resolve_runs(w, n, true, ino);
    run::run_and_next(
        sv,
        w,
        lookup::resolve(n, true),
        |info: FileStat<Seq<char>>| attr::set_attr_now(n, info.inode, attrs, flags),
    );
    set_attr_now_runs(w, n, ino, attrs, flags);
    let w1 = run::run(sv, w, fs::logged_set_attr(log, path, attrs, flags)).0;
    let new = store::changed(w.store.attrs[ino], attrs);
    assert(w1.store.attrs =~= w.store.attrs.insert(ino, new));
    assert forall|other: i64| other != ino implies #[trigger] store::same_inode(w, w1, other) by {
        registry::channels_differ(ino, other);
    }
}

proof fn sync_now_runs(w: World, p: Seq<char>, ino: i64, time: i64)
    requires
        w.file is Some,
    ensures
        ({
            let (w1, r) = run::run(store::services(), w, handle::sync_now(p, ino, time));
            &&& r == Ok::<(), SpecError>(())
            &&& w1.store == w.store.after(
                MetaRequest::SetAttr {
                    ino,
                    attrs: handle::touch(time),
                    flags: SetAttrFlags { bits: 0 },
                },
            )
            &&& w1.local == w.local
            &&& w1.file == Some(w.file->Some_0.after(HandleRequest::NoteTime { time }))
        }),
{
    let sv = store::services();
    let attrs = handle::touch(time);
    let flags = SetAttrFlags { bits: 0 };
    let s = handle::sync_now(p, ino, time);
    let s1 = handle::handle_done(HandleRequest::NoteTime { time });
    let w1 = World { store: w.store.after(MetaRequest::SetAttr { ino, attrs, flags }), ..w };
    let reply = SpecReply::Changed(Ok(store::changed(w.store.attrs[ino], attrs)));
    assert(sv(w, s->Ask_0) == (w1, reply));
    assert((s->Ask_1)(reply) == s1);
    assert(run::run(sv, w, s) == run::run(sv, w1, s1));
    contents::handle_step_runs(w1, HandleRequest::NoteTime { time }, s1, Ok(()));
}

/// A sync of a handle that was opened for writing sets both times of change to the present, in the
/// store and in what the handle knows.
pub proof fn sync_touches(w: World, f: File<Seq<char>>)
    requires
        w.file == Some(f),
        f.flags.write,
    ensures
        ({
            let (w1, r) = run::run(store::services(), w, file::logged_sync(f));
            let time = w1.store.attrs[f.inode].mtime;
            &&& r == Ok::<(), SpecError>(())
            &&& w.now <= i64::MAX ==> time == w.now
            &&& (time - w.now) % 0x1_0000_0000_0000_0000 == 0
            &&& w1.store == Store {
                attrs: w.store.attrs.insert(
                    f.inode,
                    FileAttr { mtime: time, ctime: time, ..w.store.attrs[f.inode] },
                ),
                marks: w.store.marks.insert(f.inode, SetAttrFlags { bits: 0 }),
                ..w.store
            }
            &&& w1.local == w.local
            &&& w1.file == Some(
                File {
                    info: FileStat {
                        attr: FileAttr { mtime: time, ctime: time, ..f.info.attr },
                        ..f.info
                    },
                    ..f
                },
            )
        }),
{
    let sv = store::services();
    let time = handle::file_time(w.now);
    contents::store_ignores_log();
    let s = handle::sync_file(f.path, f.inode);
    run::logging_changes_nothing(sv, w, f.log, "sync"@, f.path, s);
    let s1 = handle::sync_now(f.path, f.inode, time);
    let reply = SpecReply::Time(Ok(w.now));
    assert(sv(w, s->Ask_0) == (w, reply));
    assert((s->Ask_1)(reply) == s1);
    assert(run::run(sv, w, s) == run::run(sv, w, s1));
    sync_now_runs(w, f.path, f.inode, time);
    let now = w.now;
    assert(#[verifier::truncate] (now as i64) == time);
    assert(now <= 0x7fff_ffff_ffff_ffff ==> time == now) by (bit_vector)
        requires
            time == now as i64,
    ;
    let low: u64 = #[verifier::truncate]
    (now as u64);
    let high: u128 = now >> 64;
    assert(now == high * 0x1_0000_0000_0000_0000 + low) by (bit_vector)
        requires
            low == now as u64,
            high == now >> 64,
    ;
    assert(time == low || time == low - 0x1_0000_0000_0000_0000) by (bit_vector)
        requires
            low == now as u64,
            time == now as i64,
    ;
    vstd::arithmetic::div_mod::lemma_mod_multiples_basic(-(high as int), 0x1_0000_0000_0000_0000);
    vstd::arithmetic::div_mod::lemma_mod_multiples_basic(
        -(high as int) - 1,
        0x1_0000_0000_0000_0000,
    );
    assert(w.store.after(
        MetaRequest::SetAttr {
            ino: f.inode,
            attrs: handle::touch(time),
            flags: SetAttrFlags { bits: 0 },
        },
    ).attrs =~= w.store.attrs.insert(
        f.inode,
        FileAttr { mtime: time, ctime: time, ..w.store.attrs[f.inode] },
    ));
}

/// A sync of a handle that was not opened for writing does nothing.
pub proof fn sync_of_readers_does_nothing(w: World, f: File<Seq<char>>)
    requires
        !f.flags.write,
    ensures
        run::run(store::services(), w, file::logged_sync(f)) == (w, Ok::<(), SpecError>(())),
{
    let sv = store::services();
    contents::store_ignores_log();
    let s = Script::<()>::Done(Ok(()));
    run::logging_changes_nothing(sv, w, f.log, "sync"@, f.path, s);
}

/// Refreshing a handle gives it the present attributes of its file.
pub proof fn refresh_reads(w: World, f: File<Seq<char>>)
    requires
        w.file == Some(f),
        w.store.attrs.contains_key(f.inode),
    ensures
        ({
            let (w1, r) = run::run(
                store::services(),
                w,
                handle::refresh_file(f.path, f.inode),
            );
            &&& r == Ok::<(), SpecError>(())
            &&& w1 == World { file: w1.file, ..w }
            &&& w1.file == Some(
                File {
                    info: FileStat {
                        name: f.info.name,
                        inode: f.inode,
                        attr: w.store.attrs[f.inode],
                    },
                    ..f
                },
            )
        }),
{
    let sv = store::services();
    let attr = w.store.attrs[f.inode];
    let s = handle::refresh_file(f.path, f.inode);
    let s1 = handle::handle_done(HandleRequest::NoteAttr { attr });
    let reply = SpecReply::Attr(Ok(Some(attr)));
    assert(sv(w, s->Ask_0) == (w, reply));
    assert((s->Ask_1)(reply) == s1);
    assert(run::run(sv, w, s) == run::run(sv, w, s1));
    contents::handle_step_runs(w, HandleRequest::NoteAttr { attr }, s1, Ok(()));
}

} // verus!
