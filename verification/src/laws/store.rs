//! A simple store, as the services that operations are run against.
//!
//! The metadata service of the store keeps a tree of directories, the data service keeps the bytes
//! of files, and the two agree on the sizes of files. Symbolic links are followed at the end of a
//! path only.
use crate::access_log::LogContext;
use crate::error::{MetaError, MetaErrorKind};
use crate::file::File;
use crate::fs;
use crate::fs::LocalState;
use crate::laws::run;
use crate::laws::run::Services;
use crate::meta::{
    DirEntry, FileAttr, FileLockInfo, FileLockQuery, FileLockRange, FileLockType, FileType,
    SetAttrFlags, SetAttrRequest, StatFsSnapshot,
};
use crate::path;
use crate::registry;
use crate::script::{
    DataRequest, LogRequest, MetaRequest, Reply, Request, Script, SpecReply, SpecRequest,
};
use vstd::prelude::*;

verus! {

/// What the store keeps.
pub struct Store {
    pub root_ino: i64,
    pub attrs: Map<i64, FileAttr>,
    /// The inode under a name of a directory.
    pub entries: Map<(i64, Seq<char>), i64>,
    /// The target of a symbolic link.
    pub targets: Map<i64, Seq<char>>,
    /// The bytes behind a channel.
    pub contents: Map<u64, Seq<u8>>,
    pub space: StatFsSnapshot,
    /// The lock that was last set on an inode.
    pub locks: Map<i64, HeldLock>,
    /// What a question about the locks on an inode is answered.
    pub probe: spec_fn(Map<i64, HeldLock>, i64, FileLockQuery) -> FileLockInfo,
    /// The modifiers of the last change of an inode's attributes.
    pub marks: Map<i64, SetAttrFlags>,
    /// How directories are listed, given the entries of all directories and the attributes of all
    /// inodes.
    pub listings: Listings,
}

/// A lock as it was set.
pub struct HeldLock {
    pub owner: i64,
    pub block: bool,
    pub lock_type: FileLockType,
    pub range: FileLockRange,
    pub pid: u32,
}

/// The listing of a directory.
pub type Listings = spec_fn(Map<(i64, Seq<char>), i64>, Map<i64, FileAttr>, i64) -> Seq<
    DirEntry<Seq<char>>,
>;

/// Whether a listing names exactly the entries of the directory `ino`, each once, with what they
/// lead to.
pub open spec fn lists(
    listing: Seq<DirEntry<Seq<char>>>,
    entries: Map<(i64, Seq<char>), i64>,
    attrs: Map<i64, FileAttr>,
    ino: i64,
) -> bool {
    &&& forall|i: int|
        0 <= i < listing.len() ==> {
            let e = #[trigger] listing[i];
            &&& entries.contains_key((ino, e.name))
            &&& e.ino == entries[(ino, e.name)]
            &&& e.kind == attrs[e.ino].kind
        }
    &&& forall|name: Seq<char>| #[trigger]
        entries.contains_key((ino, name)) ==> has_name(listing, name)
    &&& forall|i: int, j: int|
        0 <= i < j < listing.len() ==> (#[trigger] listing[i]).name != (#[trigger] listing[j]).name
}

/// Whether a listing has an entry with the given name.
pub open spec fn has_name(listing: Seq<DirEntry<Seq<char>>>, name: Seq<char>) -> bool {
    exists|i: int| 0 <= i < listing.len() && (#[trigger] listing[i]).name == name
}

/// Where a path leads, from the directory `ino` on.
pub open spec fn walk(
    entries: Map<(i64, Seq<char>), i64>,
    ino: i64,
    parts: Seq<Seq<char>>,
) -> Option<i64>
    decreases parts.len(),
{
    if parts.len() == 0 {
        Some(ino)
    } else if entries.contains_key((ino, parts[0])) {
        walk(entries, entries[(ino, parts[0])], parts.skip(1))
    } else {
        None
    }
}

/// Bytes, padded with zeros or cut to a length.
pub open spec fn resized(bytes: Seq<u8>, len: nat) -> Seq<u8> {
    Seq::new(
        len,
        |i: int|
            if i < bytes.len() {
                bytes[i]
            } else {
                0u8
            },
    )
}

/// Bytes with `data` written over them at an offset. What lies between the old end and the offset
/// becomes zeros.
pub open spec fn overwritten(bytes: Seq<u8>, offset: nat, data: Seq<u8>) -> Seq<u8> {
    let len = if offset + data.len() > bytes.len() {
        offset + data.len()
    } else {
        bytes.len()
    };
    Seq::new(
        len,
        |i: int|
            if offset <= i < offset + data.len() {
                data[i - offset]
            } else if i < bytes.len() {
                bytes[i]
            } else {
                0u8
            },
    )
}

/// The bytes from an offset on, at most `len` of them.
pub open spec fn excerpt(bytes: Seq<u8>, offset: nat, len: nat) -> Seq<u8> {
    if offset >= bytes.len() {
        Seq::empty()
    } else if offset + len <= bytes.len() {
        bytes.subrange(offset as int, (offset + len) as int)
    } else {
        bytes.skip(offset as int)
    }
}

/// A number that is not in use, if there is one.
pub open spec fn unused(used: Set<i64>) -> i64 {
    choose|ino: i64| !used.contains(ino)
}

/// Whether there are numbers for `n` more inodes.
pub open spec fn has_room(used: Set<i64>, n: nat) -> bool
    decreases n,
{
    n == 0 || (!used.contains(unused(used)) && has_room(used.insert(unused(used)), (n - 1) as nat))
}

/// The value to set, or the old one.
pub open spec fn either<T>(change: Option<T>, kept: T) -> T {
    match change {
        Some(v) => v,
        None => kept,
    }
}

/// Attributes after a change.
pub open spec fn changed(attr: FileAttr, c: SetAttrRequest) -> FileAttr {
    FileAttr {
        mode: either(c.mode, attr.mode),
        uid: either(c.uid, attr.uid),
        gid: either(c.gid, attr.gid),
        size: either(c.size, attr.size),
        atime: either(c.atime, attr.atime),
        mtime: either(c.mtime, attr.mtime),
        ctime: either(c.ctime, attr.ctime),
        ..attr
    }
}

/// The attributes of something new.
pub open spec fn new_attr(ino: i64, kind: FileType) -> FileAttr {
    FileAttr {
        ino,
        size: 0,
        kind,
        mode: 0,
        uid: 0,
        gid: 0,
        atime: 0,
        mtime: 0,
        ctime: 0,
        nlink: 1,
    }
}

/// The reply where something is not there.
pub open spec fn absent() -> MetaError<Seq<char>> {
    MetaError { kind: MetaErrorKind::NotFound, text: "not found"@ }
}

impl Store {
    /// Where a path leads, the last symbolic link not followed.
    pub open spec fn at(self, p: Seq<char>) -> Option<i64> {
        walk(self.entries, self.root_ino, path::components(p))
    }

    /// Where a path leads, the last symbolic link followed once.
    pub open spec fn behind(self, p: Seq<char>) -> Option<i64> {
        match self.at(p) {
            Some(ino) => if self.targets.contains_key(ino) {
                self.at(self.targets[ino])
            } else {
                Some(ino)
            },
            None => None,
        }
    }

    /// A number that no inode has.
    pub open spec fn fresh(self) -> i64 {
        unused(self.attrs.dom())
    }

    /// Every entry of a directory leads from a directory to an inode, and only symbolic links have
    /// targets.
    pub open spec fn linked(self) -> bool {
        &&& forall|key: (i64, Seq<char>)| #[trigger]
            self.entries.contains_key(key) ==> self.attrs.contains_key(key.0)
                && self.attrs[key.0].kind == FileType::Dir && self.attrs.contains_key(
                self.entries[key],
            )
        &&& forall|ino: i64| #[trigger]
            self.targets.contains_key(ino) ==> self.attrs.contains_key(ino)
                && self.attrs[ino].kind == FileType::Symlink
    }

    /// The directories make up a tree: no two entries lead to the same directory, and none leads to
    /// the root.
    pub open spec fn is_tree(self) -> bool {
        &&& self.linked()
        &&& self.attrs.contains_key(self.root_ino)
        &&& self.attrs[self.root_ino].kind == FileType::Dir
        &&& forall|key: (i64, Seq<char>)| #[trigger]
            self.entries.contains_key(key) ==> self.entries[key] != self.root_ino
        &&& forall|a: (i64, Seq<char>), b: (i64, Seq<char>)|
            #[trigger] self.entries.contains_key(a) && #[trigger] self.entries.contains_key(b)
                && self.entries[a] == self.entries[b] && self.attrs[self.entries[a]].kind
                == FileType::Dir ==> a == b
    }

    /// The names in directories are components of paths.
    pub open spec fn named(self) -> bool {
        forall|key: (i64, Seq<char>)| #[trigger]
            self.entries.contains_key(key) ==> path::is_component(key.1)
    }

    /// How the directory `ino` is listed.
    pub open spec fn listing(self, ino: i64) -> Seq<DirEntry<Seq<char>>> {
        (self.listings)(self.entries, self.attrs, ino)
    }

    /// Directories are listed as they are, whatever they come to hold: there are finitely many
    /// entries, and every listing of finitely many is exact.
    pub open spec fn lists_all(self) -> bool {
        &&& self.entries.dom().finite()
        &&& forall|
            entries: Map<(i64, Seq<char>), i64>,
            attrs: Map<i64, FileAttr>,
            ino: i64,
        |
            entries.dom().finite() ==> lists(
                #[trigger] (self.listings)(entries, attrs, ino),
                entries,
                attrs,
                ino,
            )
    }

    /// The bytes of a file.
    pub open spec fn bytes(self, ino: i64) -> Seq<u8> {
        self.contents[registry::channel(ino)]
    }

    /// The store with something new under a name.
    pub open spec fn with_new(self, parent: i64, name: Seq<char>, kind: FileType) -> Store {
        let ino = self.fresh();
        Store {
            attrs: self.attrs.insert(ino, new_attr(ino, kind)),
            entries: self.entries.insert((parent, name), ino),
            contents: if kind == FileType::File {
                self.contents.insert(registry::channel(ino), Seq::empty())
            } else {
                self.contents
            },
            ..self
        }
    }

    /// The store with a file of another size.
    pub open spec fn with_size(self, ino: i64, size: u64) -> Store {
        Store {
            attrs: self.attrs.insert(ino, FileAttr { size, ..self.attrs[ino] }),
            contents: self.contents.insert(
                registry::channel(ino),
                resized(self.bytes(ino), size as nat),
            ),
            ..self
        }
    }

    /// The store with one link more, or less, to an inode.
    pub open spec fn with_links(self, ino: i64, by: int) -> Store {
        let attr = self.attrs[ino];
        Store {
            attrs: self.attrs.insert(ino, FileAttr { nlink: (attr.nlink + by) as u32, ..attr }),
            ..self
        }
    }

    /// The store after a request to the metadata service.
    pub open spec fn after(self, q: MetaRequest<Seq<char>>) -> Store {
        match q {
            MetaRequest::Mkdir { parent, name } => self.with_new(parent, name, FileType::Dir),
            MetaRequest::CreateFile { parent, name } => self.with_new(
                parent,
                name,
                FileType::File,
            ),
            MetaRequest::Unlink { parent, name } => {
                let ino = self.entries[(parent, name)];
                Store { entries: self.entries.remove((parent, name)), ..self.with_links(ino, -1) }
            },
            MetaRequest::Rmdir { parent, name } => Store {
                entries: self.entries.remove((parent, name)),
                ..self
            },
            MetaRequest::Rename { old_parent, old_name, new_parent, new_name } => Store {
                entries: self.entries.remove((old_parent, old_name)).insert(
                    (new_parent, new_name),
                    self.entries[(old_parent, old_name)],
                ),
                ..self
            },
            MetaRequest::Link { ino, parent, name } => Store {
                entries: self.entries.insert((parent, name), ino),
                ..self.with_links(ino, 1)
            },
            MetaRequest::Symlink { parent, name, target } => {
                let s = self.with_new(parent, name, FileType::Symlink);
                Store { targets: s.targets.insert(self.fresh(), target), ..s }
            },
            MetaRequest::SetFileSize { ino, size } => self.with_size(ino, size),
            MetaRequest::SetAttr { ino, attrs, flags } => {
                let s = match attrs.size {
                    Some(size) => self.with_size(ino, size),
                    None => self,
                };
                Store {
                    attrs: s.attrs.insert(ino, changed(self.attrs[ino], attrs)),
                    marks: self.marks.insert(ino, flags),
                    ..s
                }
            },
            MetaRequest::SetPlock { ino, owner, block, lock_type, range, pid } => Store {
                locks: self.locks.insert(ino, HeldLock { owner, block, lock_type, range, pid }),
                ..self
            },
            _ => self,
        }
    }

    /// The reply of the metadata service to a request.
    pub open spec fn reply(self, q: MetaRequest<Seq<char>>) -> SpecReply {
        match q {
            MetaRequest::StatFs => Reply::Space(Ok(self.space)),
            MetaRequest::ResolvePath { path } => Reply::Inode(
                match self.at(path) {
                    Some(ino) => Ok(ino),
                    None => Err(absent()),
                },
            ),
            MetaRequest::ResolvePathFollow { path } => Reply::Inode(
                match self.behind(path) {
                    Some(ino) => Ok(ino),
                    None => Err(absent()),
                },
            ),
            MetaRequest::LookupPath { path } => Reply::Entry(
                Ok(
                    match self.at(path) {
                        Some(ino) => Some((ino, self.attrs[ino].kind)),
                        None => None,
                    },
                ),
            ),
            MetaRequest::Lookup { parent, name } => Reply::Child(
                Ok(
                    if self.entries.contains_key((parent, name)) {
                        Some(self.entries[(parent, name)])
                    } else {
                        None
                    },
                ),
            ),
            MetaRequest::Stat { ino } => Reply::Attr(
                Ok(
                    if self.attrs.contains_key(ino) {
                        Some(self.attrs[ino])
                    } else {
                        None
                    },
                ),
            ),
            MetaRequest::Mkdir { .. } | MetaRequest::CreateFile { .. } => Reply::Inode(
                Ok(self.fresh()),
            ),
            MetaRequest::ReadSymlink { ino } => Reply::Target(Ok(self.targets[ino])),
            MetaRequest::SetAttr { ino, attrs, flags } => Reply::Changed(
                Ok(changed(self.attrs[ino], attrs)),
            ),
            MetaRequest::Readdir { ino } => Reply::Entries(
                Ok(self.listing(ino)),
            ),
            MetaRequest::GetPlock { ino, query } => Reply::Lock(
                Ok((self.probe)(self.locks, ino, query)),
            ),
            _ => Reply::Unit(Ok(())),
        }
    }

    /// The store and the reply after a request to the data service.
    pub open spec fn transfer(self, q: DataRequest<Seq<u8>>) -> (Store, SpecReply) {
        match q {
            DataRequest::Read { reader, offset, len } => (
                self,
                Reply::Data(Ok(excerpt(self.contents[reader], offset as nat, len as nat))),
            ),
            DataRequest::Write { writer, offset, data } => (
                Store {
                    contents: self.contents.insert(
                        writer,
                        overwritten(self.contents[writer], offset as nat, data),
                    ),
                    ..self
                },
                Reply::Written(Ok(data.len() as usize)),
            ),
        }
    }
}

/// A file system with its store, its local state and the file handle that it works on.
pub struct World {
    pub store: Store,
    pub local: LocalState,
    pub file: Option<File<Seq<char>>>,
    pub context: LogContext,
    pub now: u128,
}

/// The services of a world.
pub open spec fn services() -> Services<World> {
    |w: World, q: SpecRequest|
        match q {
            Request::Meta(m) => (World { store: w.store.after(m), ..w }, w.store.reply(m)),
            Request::Data(d) => {
                let (store, reply) = w.store.transfer(d);
                (World { store, ..w }, reply)
            },
            Request::Log(LogRequest::Begin) => (w, Reply::Context(w.context)),
            Request::Log(_) => (w, Reply::Ack),
            Request::Now => (w, Reply::Time(Ok(w.now))),
            Request::Registry(r) => (World { local: w.local.after(r), ..w }, w.local.reply(r)),
            Request::Handle(r) => (
                World {
                    file: match w.file {
                        Some(f) => Some(f.after(r)),
                        None => None,
                    },
                    ..w
                },
                Reply::Ack,
            ),
        }
}

impl World {
    /// The inode is that of a file, and all that is kept of its size agrees.
    pub open spec fn holds_file(self, ino: i64) -> bool {
        &&& self.local.channels.wf()
        &&& self.store.attrs.contains_key(ino)
        &&& self.store.attrs[ino].ino == ino
        &&& self.store.attrs[ino].kind == FileType::File
        &&& self.store.bytes(ino).len() == self.store.attrs[ino].size
        &&& self.local.channels.sizes.contains_key(ino) ==> self.local.channels.sizes[ino]
            == self.store.attrs[ino].size
    }
}

/// All that is kept of an inode is as it was: attributes, bytes, and what the registry knows.
pub open spec fn same_inode(w: World, w1: World, ino: i64) -> bool {
    &&& w1.store.attrs.contains_key(ino) == w.store.attrs.contains_key(ino)
    &&& w1.store.attrs[ino] == w.store.attrs[ino]
    &&& w1.store.bytes(ino) == w.store.bytes(ino)
    &&& registry::known(w1.local.channels, ino) == registry::known(w.local.channels, ino)
    &&& w.holds_file(ino) ==> w1.holds_file(ino)
}

/// All that is kept of inodes other than `ino` is as it was, and so are names, links and locks.
pub open spec fn only_inode(w: World, w1: World, ino: i64) -> bool {
    &&& forall|other: i64| other != ino ==> #[trigger] same_inode(w, w1, other)
    &&& w1.store == Store { attrs: w1.store.attrs, contents: w1.store.contents, ..w.store }
    &&& w1.context == w.context
    &&& w1.now == w.now
}

/// Settling a script against the local state and the file handle of a world is a part of running
/// it there: what is left ends with the same result and in the same world.
pub proof fn settling_is_running<T>(w: World, s: Script<T>)
    ensures
        ({
            let (local, file, left) = fs::settle(w.local, w.file, s);
            run::run(services(), World { local, file, ..w }, left) == run::run(services(), w, s)
        }),
    decreases s,
{
    match s {
        Script::Ask(Request::Registry(q), k) => {
            let w1 = World { local: w.local.after(q), ..w };
            settling_is_running(w1, k(w.local.reply(q)));
            assert(services()(w, Request::Registry(q)) == (w1, w.local.reply(q)));
        },
        Script::Ask(Request::Handle(q), k) => {
            if let Some(f) = w.file {
                let w1 = World { file: Some(f.after(q)), ..w };
                settling_is_running(w1, k(Reply::Ack));
                assert(services()(w, Request::Handle(q)) == (w1, SpecReply::Ack));
            }
        },
        _ => {},
    }
}

} // verus!
