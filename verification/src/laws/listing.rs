//! What directories are found to hold.
use crate::fs;
use crate::laws::contents;
use crate::laws::handles;
use crate::laws::names;
use crate::laws::run;
use crate::laws::store;
use crate::laws::store::World;
use crate::meta::{DirEntry, FileType};
use crate::ops::attr;
use crate::path;
use crate::script::{Script, SpecError, SpecReply};
use crate::stat::OpenFlags;
use vstd::prelude::*;

verus! {

broadcast use crate::script::group_bind;

/// `readdir` gives the listing of the directory at a path, and changes nothing.
pub proof fn readdir_runs(w: World, log: bool, path: Seq<char>, ino: i64)
    requires
        names::dir_at(w.store, path, ino),
    ensures
        run::run(store::services(), w, attr::logged_readdir(log, path)) == (
            w,
            Ok::<Seq<DirEntry<Seq<char>>>, SpecError>(w.store.listing(ino)),
        ),
{
    let sv = store::services();
    let n = path::normalize(path);
    path::normalize_keeps_components(path);
    contents::store_ignores_log();
    run::logging_changes_nothing(sv, w, log, "readdir"@, n, attr::readdir(n));
    let s = attr::readdir(n);
    let s1 = attr::readdir_entries(n, ino);
    let reply = SpecReply::Entry(Ok(Some((ino, FileType::Dir))));
    let reply1 = SpecReply::Entries(Ok(w.store.listing(ino)));
    let done = Script::<Seq<DirEntry<Seq<char>>>>::Done(Ok(w.store.listing(ino)));
    assert(sv(w, s->Ask_0) == (w, reply));
    assert((s->Ask_1)(reply) == s1);
    assert(run::run(sv, w, s) == run::run(sv, w, s1));
    assert(sv(w, s1->Ask_0) == (w, reply1));
    assert((s1->Ask_1)(reply1) == done);
    assert(run::run(sv, w, s1) == run::run(sv, w, done));
}

/// `readdir` names exactly what is in a directory, each entry once and with what it leads to: a
/// path in the directory leads somewhere where its last component is named.
pub proof fn readdir_lists(w: World, log: bool, path: Seq<char>, ino: i64)
    requires
        names::dir_at(w.store, path, ino),
        w.store.lists_all(),
    ensures
        ({
            let (w1, r) = run::run(store::services(), w, attr::logged_readdir(log, path));
            &&& w1 == w
            &&& r matches Ok(listing) && {
                &&& store::lists(listing, w.store.entries, w.store.attrs, ino)
                &&& forall|q: Seq<char>, name: Seq<char>|
                    path::components(q) == path::components(path).push(name) ==> (
                    #[trigger] w.store.at(q) is Some <==> #[trigger] store::has_name(listing, name))
            }
        }),
{
    readdir_runs(w, log, path, ino);
    let listing = w.store.listing(ino);
    assert forall|q: Seq<char>, name: Seq<char>|
        path::components(q) == path::components(path).push(name) implies (
    #[trigger] w.store.at(q) is Some <==> #[trigger] store::has_name(listing, name)) by {
        names::walk_last(
            w.store.entries,
            w.store.root_ino,
            path::components(path),
            name,
        );
    }
}

/// A file that is created is listed in its directory.
pub proof fn created_is_listed(
    w: World,
    log: bool,
    path: Seq<char>,
    flags: OpenFlags,
    parent: i64,
)
    requires
        path::normalize(path) != path::root(),
        names::dir_at(w.store, path::parent(path::normalize(path)), parent),
        w.store.at(path) is None,
        w.store.linked(),
        w.store.lists_all(),
        store::has_room(w.store.attrs.dom(), 1),
        w.local.channels.wf(),
        !w.local.channels.sizes.contains_key(w.store.fresh()),
        flags.create,
    ensures
        ({
            let sv = store::services();
            let n = path::normalize(path);
            let (w1, f) = run::run(
                sv,
                w,
                fs::logged_open(log, w.store.root_ino, path, flags),
            );
            let (w2, r) = run::run(sv, w1, attr::logged_readdir(log, path::parent(n)));
            &&& f is Ok
            &&& w2 == w1
            &&& r matches Ok(listing) && listing.contains(
                DirEntry {
                    name: path::file_name(n),
                    ino: w.store.fresh(),
                    kind: FileType::File,
                },
            )
        }),
{
    let sv = store::services();
    let n = path::normalize(path);
    let name = path::file_name(n);
    handles::open_creates(w, log, path, flags, parent);
    let w1 = run::run(sv, w, fs::logged_open(log, w.store.root_ino, path, flags)).0;
    assert(w.store.attrs.dom().contains(parent) && w1.store.attrs.dom().contains(parent));
    names::split_path(w.store, path);
    added_is_listed(w, w1, log, path::parent(n), name, parent, w.store.fresh());
}

/// A directory that is made is listed in the directory above it.
pub proof fn made_is_listed(w: World, log: bool, path: Seq<char>, parent: i64)
    requires
        path::normalize(path) != path::root(),
        names::dir_at(w.store, path::parent(path::normalize(path)), parent),
        w.store.at(path) is None,
        w.store.lists_all(),
        store::has_room(w.store.attrs.dom(), 1),
    ensures
        ({
            let sv = store::services();
            let n = path::normalize(path);
            let (w1, m) = run::run(sv, w, fs::logged_mkdir(log, w.store.root_ino, path));
            let (w2, r) = run::run(sv, w1, attr::logged_readdir(log, path::parent(n)));
            &&& m is Ok
            &&& w2 == w1
            &&& r matches Ok(listing) && listing.contains(
                DirEntry { name: path::file_name(n), ino: w.store.fresh(), kind: FileType::Dir },
            )
        }),
{
    let sv = store::services();
    let n = path::normalize(path);
    let name = path::file_name(n);
    names::mkdir_makes(w, log, path, parent);
    let w1 = run::run(sv, w, fs::logged_mkdir(log, w.store.root_ino, path)).0;
    assert(!w.store.attrs.contains_key(w.store.fresh()));
    names::split_path(w.store, path);
    added_is_listed(w, w1, log, path::parent(n), name, parent, w.store.fresh());
}

proof fn added_is_listed(
    w: World,
    w1: World,
    log: bool,
    dir: Seq<char>,
    name: Seq<char>,
    parent: i64,
    ino: i64,
)
    requires
        names::dir_at(w.store, dir, parent),
        !w.store.entries.contains_key((parent, name)),
        w.store.lists_all(),
        w1.store.root_ino == w.store.root_ino,
        w1.store.listings == w.store.listings,
        w1.store.entries == w.store.entries.insert((parent, name), ino),
        w1.store.attrs.contains_key(parent),
        w1.store.attrs[parent].kind == FileType::Dir,
    ensures
        ({
            let (w2, r) = run::run(store::services(), w1, attr::logged_readdir(log, dir));
            &&& w2 == w1
            &&& r matches Ok(listing) && listing.contains(
                DirEntry { name, ino, kind: w1.store.attrs[ino].kind },
            )
        }),
{
    assert(w.store.entries.submap_of(w1.store.entries));
    names::walk_grows(
        w.store.entries,
        w1.store.entries,
        w.store.root_ino,
        path::components(dir),
    );
    assert(w1.store.lists_all()) by {
        assert(w1.store.entries.dom() =~= w.store.entries.dom().insert((parent, name)));
    }
    readdir_lists(w1, log, dir, parent);
    let listing = w1.store.listing(parent);
    readdir_runs(w1, log, dir, parent);
    assert(w1.store.entries.contains_key((parent, name)));
    assert(store::has_name(listing, name));
    let i = choose|i: int| 0 <= i < listing.len() && (#[trigger] listing[i]).name == name;
    assert(listing[i] == DirEntry { name, ino, kind: w1.store.attrs[ino].kind });
}

} // verus!
