//! Operations as dialogues.
//!
//! An operation never performs input or output. It asks one [`Request`] at a time and is resumed
//! with the [`Reply`]. The whole behaviour of an operation is its [`Script`]: either it is done,
//! or it asks a request and, for every reply, continues with another script. The contract of
//! [`Operation`] says that the executable state of an operation follows its script, whatever the
//! replies are.
use crate::access_log::LogContext;
use crate::error::{meta_error_to_io, FsError, MetaError};
use crate::meta::{
    DirEntry, FileAttr, FileLockInfo, FileLockQuery, FileLockRange, FileLockType, FileType,
    Listing, SetAttrFlags, SetAttrRequest, StatFsSnapshot,
};
use vstd::prelude::*;

verus! {

/// A request to the metadata service.
#[derive(Debug)]
pub enum MetaRequest<S = String> {
    /// Space and inode counts; answered by `Space`.
    StatFs,
    /// The inode that a path leads to, the last symbolic link not followed; answered by `Inode`.
    ResolvePath { path: S },
    /// The inode that a path leads to, symbolic links followed; answered by `Inode`.
    ResolvePathFollow { path: S },
    /// The inode and the kind of what stands at a path; answered by `Entry`.
    LookupPath { path: S },
    /// The inode of an entry of a directory; answered by `Child`.
    Lookup { parent: i64, name: S },
    /// The attributes of an inode; answered by `Attr`.
    Stat { ino: i64 },
    /// Make a directory; answered by `Inode`.
    Mkdir { parent: i64, name: S },
    /// Make a regular file; answered by `Inode`.
    CreateFile { parent: i64, name: S },
    /// Remove an entry that is not a directory; answered by `Unit`.
    Unlink { parent: i64, name: S },
    /// Remove an empty directory; answered by `Unit`.
    Rmdir { parent: i64, name: S },
    /// Move an entry; answered by `Unit`.
    Rename { old_parent: i64, old_name: S, new_parent: i64, new_name: S },
    /// Add an entry for an existing inode; answered by `Unit`.
    Link { ino: i64, parent: i64, name: S },
    /// Make a symbolic link; answered by `Unit`.
    Symlink { parent: i64, name: S, target: S },
    /// The target of a symbolic link; answered by `Target`.
    ReadSymlink { ino: i64 },
    /// Set the size of a file; answered by `Unit`.
    SetFileSize { ino: i64, size: u64 },
    /// Change attributes; answered by `Changed`.
    SetAttr { ino: i64, attrs: SetAttrRequest, flags: SetAttrFlags },
    /// The entries of a directory; answered by `Entries`.
    Readdir { ino: i64 },
    /// A lock that stands against the one asked for; answered by `Lock`.
    GetPlock { ino: i64, query: FileLockQuery },
    /// Take or release a lock; answered by `Unit`.
    SetPlock {
        ino: i64,
        owner: i64,
        block: bool,
        lock_type: FileLockType,
        range: FileLockRange,
        pid: u32,
    },
}

/// A request to the data service, which keeps the contents of files.
#[derive(Debug)]
pub enum DataRequest<B = Vec<u8>> {
    /// Read through a reader; answered by `Data`.
    Read { reader: u64, offset: u64, len: usize },
    /// Write through a writer; answered by `Written`.
    Write { writer: u64, offset: u64, data: B },
}

/// A request to the access log.
#[derive(Debug)]
pub enum LogRequest<S = String> {
    /// Begin to measure an operation; answered by `Context`.
    Begin,
    /// Record how an operation ended; answered by `Ack`.
    Record { context: LogContext, op: S, path: S, outcome: S },
}

/// A request to the registry of open inodes and to the counter of file handles.
#[derive(Debug, Clone, Copy)]
pub enum RegistryRequest {
    /// The size of a registered inode; answered by `Cached`.
    InodeSize { ino: i64 },
    /// Set the size of an inode, if it is registered; answered by `Ack`.
    UpdateSize { ino: i64, size: u64 },
    /// Register an inode of the given size, if it is not registered yet; answered by `Ack`.
    Register { ino: i64, size: u64 },
    /// The reader of a registered inode; answered by `Channel`.
    Reader { ino: i64 },
    /// The writer of a registered inode; answered by `Channel`.
    Writer { ino: i64 },
    /// A fresh number for a file handle; answered by `FileId`.
    NextFileId,
}

/// A request to the file handle that an operation was started on; answered by `Ack`.
#[derive(Debug, Clone, Copy)]
pub enum HandleRequest {
    /// Move the offset forward.
    Advance { by: u64 },
    /// Move the offset to a position.
    Seek { to: u64 },
    /// Remember the size of the file.
    NoteSize { size: u64 },
    /// Remember the time of the last change.
    NoteTime { time: i64 },
    /// Remember all attributes of the file.
    NoteAttr { attr: FileAttr },
}

/// What an operation asks for.
#[derive(Debug)]
pub enum Request<S = String, B = Vec<u8>> {
    Meta(MetaRequest<S>),
    Data(DataRequest<B>),
    Log(LogRequest<S>),
    /// The nanoseconds since the Unix epoch; answered by `Time`.
    Now,
    Registry(RegistryRequest),
    Handle(HandleRequest),
}

/// What an operation is resumed with. Each request names the reply that answers it; given any
/// other, an operation fails or goes on as it does for a failure of the service.
#[derive(Debug)]
pub enum Reply<S = String, B = Vec<u8>, L = Listing> {
    Space(Result<StatFsSnapshot, MetaError<S>>),
    Inode(Result<i64, MetaError<S>>),
    Entry(Result<Option<(i64, FileType)>, MetaError<S>>),
    Child(Result<Option<i64>, MetaError<S>>),
    Attr(Result<Option<FileAttr>, MetaError<S>>),
    Changed(Result<FileAttr, MetaError<S>>),
    Unit(Result<(), MetaError<S>>),
    Target(Result<S, MetaError<S>>),
    Entries(Result<L, MetaError<S>>),
    Lock(Result<FileLockInfo, MetaError<S>>),
    Data(Result<B, S>),
    Written(Result<usize, S>),
    Context(LogContext),
    Time(Result<u128, S>),
    Cached(Option<u64>),
    Channel(Option<u64>),
    FileId(u64),
    Ack,
}

/// A request as a mathematical value.
pub type SpecRequest = Request<Seq<char>, Seq<u8>>;

/// A reply as a mathematical value.
pub type SpecReply = Reply<Seq<char>, Seq<u8>, Seq<DirEntry<Seq<char>>>>;

/// An error as a mathematical value.
pub type SpecError = FsError<Seq<char>>;

impl View for MetaRequest {
    type V = MetaRequest<Seq<char>>;

    open spec fn view(&self) -> MetaRequest<Seq<char>> {
        match *self {
            MetaRequest::StatFs => MetaRequest::StatFs,
            MetaRequest::ResolvePath { path } => MetaRequest::ResolvePath { path: path@ },
            MetaRequest::ResolvePathFollow { path } => MetaRequest::ResolvePathFollow {
                path: path@,
            },
            MetaRequest::LookupPath { path } => MetaRequest::LookupPath { path: path@ },
            MetaRequest::Lookup { parent, name } => MetaRequest::Lookup { parent, name: name@ },
            MetaRequest::Stat { ino } => MetaRequest::Stat { ino },
            MetaRequest::Mkdir { parent, name } => MetaRequest::Mkdir { parent, name: name@ },
            MetaRequest::CreateFile { parent, name } => MetaRequest::CreateFile {
                parent,
                name: name@,
            },
            MetaRequest::Unlink { parent, name } => MetaRequest::Unlink { parent, name: name@ },
            MetaRequest::Rmdir { parent, name } => MetaRequest::Rmdir { parent, name: name@ },
            MetaRequest::Rename { old_parent, old_name, new_parent, new_name } => {
                MetaRequest::Rename {
                    old_parent,
                    old_name: old_name@,
                    new_parent,
                    new_name: new_name@,
                }
            },
            MetaRequest::Link { ino, parent, name } => MetaRequest::Link {
                ino,
                parent,
                name: name@,
            },
            MetaRequest::Symlink { parent, name, target } => MetaRequest::Symlink {
                parent,
                name: name@,
                target: target@,
            },
            MetaRequest::ReadSymlink { ino } => MetaRequest::ReadSymlink { ino },
            MetaRequest::SetFileSize { ino, size } => MetaRequest::SetFileSize { ino, size },
            MetaRequest::SetAttr { ino, attrs, flags } => MetaRequest::SetAttr {
                ino,
                attrs,
                flags,
            },
            MetaRequest::Readdir { ino } => MetaRequest::Readdir { ino },
            MetaRequest::GetPlock { ino, query } => MetaRequest::GetPlock { ino, query },
            MetaRequest::SetPlock { ino, owner, block, lock_type, range, pid } => {
                MetaRequest::SetPlock { ino, owner, block, lock_type, range, pid }
            },
        }
    }
}

impl View for Request {
    type V = SpecRequest;

    open spec fn view(&self) -> SpecRequest {
        match *self {
            Request::Meta(r) => Request::Meta(r@),
            Request::Data(DataRequest::Read { reader, offset, len }) => Request::Data(
                DataRequest::Read { reader, offset, len },
            ),
            Request::Data(DataRequest::Write { writer, offset, data }) => Request::Data(
                DataRequest::Write { writer, offset, data: data@ },
            ),
            Request::Log(LogRequest::Begin) => Request::Log(LogRequest::Begin),
            Request::Log(LogRequest::Record { context, op, path, outcome }) => Request::Log(
                LogRequest::Record { context, op: op@, path: path@, outcome: outcome@ },
            ),
            Request::Now => Request::Now,
            Request::Registry(r) => Request::Registry(r),
            Request::Handle(r) => Request::Handle(r),
        }
    }
}

/// The reply of the metadata service as a mathematical value.
pub open spec fn meta_view<T>(r: Result<T, MetaError>) -> Result<T, MetaError<Seq<char>>> {
    match r {
        Ok(v) => Ok(v),
        Err(e) => Err(e@),
    }
}

impl View for Reply {
    type V = SpecReply;

    open spec fn view(&self) -> SpecReply {
        match *self {
            Reply::Space(r) => Reply::Space(meta_view(r)),
            Reply::Inode(r) => Reply::Inode(meta_view(r)),
            Reply::Entry(r) => Reply::Entry(meta_view(r)),
            Reply::Child(r) => Reply::Child(meta_view(r)),
            Reply::Attr(r) => Reply::Attr(meta_view(r)),
            Reply::Changed(r) => Reply::Changed(meta_view(r)),
            Reply::Unit(r) => Reply::Unit(meta_view(r)),
            Reply::Target(Ok(t)) => Reply::Target(Ok(t@)),
            Reply::Target(Err(e)) => Reply::Target(Err(e@)),
            Reply::Entries(Ok(l)) => Reply::Entries(Ok(l@)),
            Reply::Entries(Err(e)) => Reply::Entries(Err(e@)),
            Reply::Lock(r) => Reply::Lock(meta_view(r)),
            Reply::Data(Ok(d)) => Reply::Data(Ok(d@)),
            Reply::Data(Err(e)) => Reply::Data(Err(e@)),
            Reply::Written(Ok(n)) => Reply::Written(Ok(n)),
            Reply::Written(Err(e)) => Reply::Written(Err(e@)),
            Reply::Context(c) => Reply::Context(c),
            Reply::Time(Ok(t)) => Reply::Time(Ok(t)),
            Reply::Time(Err(e)) => Reply::Time(Err(e@)),
            Reply::Cached(s) => Reply::Cached(s),
            Reply::Channel(c) => Reply::Channel(c),
            Reply::FileId(id) => Reply::FileId(id),
            Reply::Ack => Reply::Ack,
        }
    }
}

/// What an operation does: it ends with a result, or it asks for something and goes on, for each
/// reply, with another script.
pub enum Script<T> {
    Done(Result<T, SpecError>),
    Ask(SpecRequest, spec_fn(SpecReply) -> Script<T>),
}

impl<T> Script<T> {
    /// This script, and, when it ends, the script that `next` gives for its result.
    pub open spec fn bind<U>(self, next: spec_fn(Result<T, SpecError>) -> Script<U>) -> Script<U>
        decreases self,
    {
        match self {
            Script::Done(r) => next(r),
            Script::Ask(q, k) => Script::Ask(q, |reply: SpecReply| k(reply).bind(next)),
        }
    }

    /// This script, and, when it succeeds, the script that `next` gives for its value. A failure
    /// is passed on.
    pub open spec fn and_next<U>(self, next: spec_fn(T) -> Script<U>) -> Script<U> {
        self.bind(
            |r: Result<T, SpecError>|
                match r {
                    Ok(v) => next(v),
                    Err(e) => Script::Done(Err(e)),
                },
        )
    }
}

/// A script that has ended is continued at once.
pub broadcast proof fn bind_done<T, U>(
    r: Result<T, SpecError>,
    next: spec_fn(Result<T, SpecError>) -> Script<U>,
)
    ensures
        #[trigger] Script::<T>::Done(r).bind(next) == next(r),
{
}

/// A script that asks is continued after its reply.
pub broadcast proof fn bind_ask<T, U>(
    s: Script<T>,
    next: spec_fn(Result<T, SpecError>) -> Script<U>,
    reply: SpecReply,
)
    requires
        s is Ask,
    ensures
        s.bind(next) is Ask,
        s.bind(next)->Ask_0 == s->Ask_0,
        #[trigger] (s.bind(next)->Ask_1)(reply) == (s->Ask_1)(reply).bind(next),
{
}

pub broadcast group group_bind {
    bind_done,
    bind_ask,
}

/// Continuing a continued script is continuing it with both continuations at once.
pub proof fn and_next_assoc<T, U, V>(
    s: Script<T>,
    f: spec_fn(T) -> Script<U>,
    g: spec_fn(U) -> Script<V>,
)
    ensures
        s.and_next(f).and_next(g) == s.and_next(|v: T| f(v).and_next(g)),
    decreases s,
{
    broadcast use group_bind;

    let h = |v: T| f(v).and_next(g);
    match s {
        Script::Done(_) => {},
        Script::Ask(q, k) => {
            let l = s.and_next(f).and_next(g);
            let r = s.and_next(h);
            assert forall|reply: SpecReply| #[trigger]
            (l->Ask_1)(reply) == (r->Ask_1)(reply) by {
                and_next_assoc(k(reply), f, g);
                assert((s.and_next(f)->Ask_1)(reply) == k(reply).and_next(f));
            }
            assert(l->Ask_1 =~= r->Ask_1);
        },
    }
}

/// A script that is continued with nothing more to do is the same script.
pub proof fn and_next_nothing<T>(s: Script<T>, f: spec_fn(T) -> Script<T>)
    requires
        forall|v: T| #[trigger] f(v) == Script::Done(Ok(v)),
    ensures
        s.and_next(f) == s,
    decreases s,
{
    broadcast use group_bind;

    match s {
        Script::Done(_) => {},
        Script::Ask(q, k) => {
            let l = s.and_next(f);
            assert forall|reply: SpecReply| #[trigger] (l->Ask_1)(reply) == k(reply) by {
                and_next_nothing(k(reply), f);
            }
            assert(l->Ask_1 =~= k);
        },
    }
}

/// Ends with an error.
pub open spec fn fail<T>(kind: crate::error::ErrorKind, message: Seq<char>) -> Script<T> {
    Script::Done(Err(FsError { kind, message }))
}

/// The result of an operation as a mathematical value.
pub open spec fn outcome<T: View>(r: Result<T, FsError>) -> Result<T::V, SpecError> {
    match r {
        Ok(v) => Ok(v@),
        Err(e) => Err(e@),
    }
}

/// A result whose value is a mathematical value already.
pub open spec fn unviewed<T>(r: Result<T, FsError>) -> Result<T, SpecError> {
    match r {
        Ok(v) => Ok(v),
        Err(e) => Err(e@),
    }
}

/// Whether a request is answered inside the library.
pub open spec fn is_local(q: SpecRequest) -> bool {
    q is Registry || q is Handle
}

/// An operation that has been started or resumed: it waits for a reply, or it is done.
#[derive(Debug)]
pub enum Step<O, T> {
    Pending(O),
    Done(Result<T, FsError>),
}

/// An operation that waits for the reply to a request.
pub trait Operation: Sized {
    /// What the operation returns when it succeeds.
    type Output: View;

    /// What is left for the operation to do.
    spec fn script(self) -> Script<<Self::Output as View>::V>;

    /// The replies with which the operation can go on within the range of machine integers.
    /// Replies from inside the library are always among them.
    spec fn accepts(self, reply: SpecReply) -> bool;

    /// Whether the operation can go on with a reply.
    fn admits(&self, reply: &Reply) -> (b: bool)
        ensures
            b == self.accepts(reply@),
    ;

    proof fn asks(self)
        ensures
            self.script() is Ask,
            is_local(self.script()->Ask_0) ==> forall|reply: SpecReply| self.accepts(reply),
    ;

    /// What the operation waits for.
    fn request(&self) -> (q: Request)
        ensures
            self.script() is Ask,
            q@ == self.script()->Ask_0,
    ;

    /// Goes on with a reply.
    fn resume(self, reply: Reply) -> (s: Step<Self, Self::Output>)
        requires
            self.accepts(reply@),
        ensures
            match s {
                Step::Pending(o) => o.script() == (self.script()->Ask_1)(reply@),
                Step::Done(r) => Script::Done(outcome(r)) == (self.script()->Ask_1)(reply@),
            },
    ;
}

impl<O: Operation> Step<O, O::Output> {
    /// What is left to do.
    pub open spec fn script(self) -> Script<<O::Output as View>::V> {
        match self {
            Step::Pending(o) => o.script(),
            Step::Done(r) => Script::Done(outcome(r)),
        }
    }
}

/// What is left to do at a step, given what is left to do for a pending operation.
pub open spec fn stage<O, T: View>(s: Step<O, T>, plan: spec_fn(O) -> Script<T::V>) -> Script<
    T::V,
> {
    match s {
        Step::Pending(o) => plan(o),
        Step::Done(r) => Script::Done(outcome(r)),
    }
}

/// What the metadata service answered at `path`, its failure turned into the operation's.
pub open spec fn located<T>(path: Seq<char>, r: Result<T, MetaError<Seq<char>>>) -> Result<
    T,
    SpecError,
> {
    match r {
        Ok(v) => Ok(v),
        Err(e) => Err(FsError::from_meta(path, e)),
    }
}

/// A failure of the data service or of the clock, turned into the operation's.
pub open spec fn plain<T>(r: Result<T, Seq<char>>) -> Result<T, SpecError> {
    match r {
        Ok(v) => Ok(v),
        Err(text) => Err(FsError { kind: crate::error::ErrorKind::Other, message: text }),
    }
}

/// Reading a reply as the answer to a request. Where it is the answer to another request, the
/// reading fails.
impl Reply<Seq<char>, Seq<u8>, Seq<DirEntry<Seq<char>>>> {
    pub open spec fn space(self, path: Seq<char>) -> Result<StatFsSnapshot, SpecError> {
        match self {
            Reply::Space(r) => located(path, r),
            _ => Err(FsError::unexpected_reply()),
        }
    }

    pub open spec fn inode(self, path: Seq<char>) -> Result<i64, SpecError> {
        match self {
            Reply::Inode(r) => located(path, r),
            _ => Err(FsError::unexpected_reply()),
        }
    }

    pub open spec fn entry(self, path: Seq<char>) -> Result<Option<(i64, FileType)>, SpecError> {
        match self {
            Reply::Entry(r) => located(path, r),
            _ => Err(FsError::unexpected_reply()),
        }
    }

    pub open spec fn child(self, path: Seq<char>) -> Result<Option<i64>, SpecError> {
        match self {
            Reply::Child(r) => located(path, r),
            _ => Err(FsError::unexpected_reply()),
        }
    }

    pub open spec fn attr(self, path: Seq<char>) -> Result<Option<FileAttr>, SpecError> {
        match self {
            Reply::Attr(r) => located(path, r),
            _ => Err(FsError::unexpected_reply()),
        }
    }

    pub open spec fn changed(self, path: Seq<char>) -> Result<FileAttr, SpecError> {
        match self {
            Reply::Changed(r) => located(path, r),
            _ => Err(FsError::unexpected_reply()),
        }
    }

    pub open spec fn unit(self, path: Seq<char>) -> Result<(), SpecError> {
        match self {
            Reply::Unit(r) => located(path, r),
            _ => Err(FsError::unexpected_reply()),
        }
    }

    pub open spec fn target(self, path: Seq<char>) -> Result<Seq<char>, SpecError> {
        match self {
            Reply::Target(r) => located(path, r),
            _ => Err(FsError::unexpected_reply()),
        }
    }

    pub open spec fn entries(self, path: Seq<char>) -> Result<
        Seq<DirEntry<Seq<char>>>,
        SpecError,
    > {
        match self {
            Reply::Entries(r) => located(path, r),
            _ => Err(FsError::unexpected_reply()),
        }
    }

    pub open spec fn lock(self, path: Seq<char>) -> Result<FileLockInfo, SpecError> {
        match self {
            Reply::Lock(r) => located(path, r),
            _ => Err(FsError::unexpected_reply()),
        }
    }

    pub open spec fn data(self) -> Result<Seq<u8>, SpecError> {
        match self {
            Reply::Data(r) => plain(r),
            _ => Err(FsError::unexpected_reply()),
        }
    }

    pub open spec fn written(self) -> Result<usize, SpecError> {
        match self {
            Reply::Written(r) => plain(r),
            _ => Err(FsError::unexpected_reply()),
        }
    }

    pub open spec fn time(self) -> Result<u128, SpecError> {
        match self {
            Reply::Time(r) => plain(r),
            _ => Err(FsError::unexpected_reply()),
        }
    }

    pub open spec fn cached(self) -> Result<Option<u64>, SpecError> {
        match self {
            Reply::Cached(s) => Ok(s),
            _ => Err(FsError::unexpected_reply()),
        }
    }

    pub open spec fn channel(self) -> Result<Option<u64>, SpecError> {
        match self {
            Reply::Channel(c) => Ok(c),
            _ => Err(FsError::unexpected_reply()),
        }
    }

    pub open spec fn file_id(self) -> Result<u64, SpecError> {
        match self {
            Reply::FileId(id) => Ok(id),
            _ => Err(FsError::unexpected_reply()),
        }
    }
}

/// Turns a failure of the metadata service, met at `path`, into the operation's.
fn locate<T>(path: &str, r: Result<T, MetaError>) -> (s: Result<T, FsError>)
    ensures
        match s {
            Ok(v) => r == Ok::<T, MetaError>(v),
            Err(e) => r is Err && e@ == FsError::from_meta(path@, r->Err_0@),
        },
{
    match r {
        Ok(v) => Ok(v),
        Err(e) => Err(meta_error_to_io(path, e)),
    }
}

fn unexpected<T>() -> (s: Result<T, FsError>)
    ensures
        s is Err,
        s->Err_0@ == FsError::unexpected_reply(),
{
    Err(FsError::unexpected())
}

/// Turns a failure of the data service or of the clock into the operation's.
fn plainly<T>(r: Result<T, String>) -> (s: Result<T, FsError>)
    ensures
        match s {
            Ok(v) => r == Ok::<T, String>(v),
            Err(e) => r is Err && e@ == (FsError {
                kind: crate::error::ErrorKind::Other,
                message: r->Err_0@,
            }),
        },
{
    match r {
        Ok(v) => Ok(v),
        Err(text) => Err(FsError { kind: crate::error::ErrorKind::Other, message: text }),
    }
}

impl Reply {
    pub fn into_space(self, path: &str) -> (r: Result<StatFsSnapshot, FsError>)
        ensures
            unviewed(r) == self@.space(path@),
    {
        match self {
            Reply::Space(r) => locate(path, r),
            _ => unexpected(),
        }
    }

    pub fn into_inode(self, path: &str) -> (r: Result<i64, FsError>)
        ensures
            unviewed(r) == self@.inode(path@),
    {
        match self {
            Reply::Inode(r) => locate(path, r),
            _ => unexpected(),
        }
    }

    pub fn into_entry(self, path: &str) -> (r: Result<Option<(i64, FileType)>, FsError>)
        ensures
            unviewed(r) == self@.entry(path@),
    {
        match self {
            Reply::Entry(r) => locate(path, r),
            _ => unexpected(),
        }
    }

    pub fn into_child(self, path: &str) -> (r: Result<Option<i64>, FsError>)
        ensures
            unviewed(r) == self@.child(path@),
    {
        match self {
            Reply::Child(r) => locate(path, r),
            _ => unexpected(),
        }
    }

    pub fn into_attr(self, path: &str) -> (r: Result<Option<FileAttr>, FsError>)
        ensures
            unviewed(r) == self@.attr(path@),
    {
        match self {
            Reply::Attr(r) => locate(path, r),
            _ => unexpected(),
        }
    }

    pub fn into_changed(self, path: &str) -> (r: Result<FileAttr, FsError>)
        ensures
            unviewed(r) == self@.changed(path@),
    {
        match self {
            Reply::Changed(r) => locate(path, r),
            _ => unexpected(),
        }
    }

    pub fn into_unit(self, path: &str) -> (r: Result<(), FsError>)
        ensures
            unviewed(r) == self@.unit(path@),
    {
        match self {
            Reply::Unit(r) => locate(path, r),
            _ => unexpected(),
        }
    }

    pub fn into_target(self, path: &str) -> (r: Result<String, FsError>)
        ensures
            outcome(r) == self@.target(path@),
    {
        match self {
            Reply::Target(r) => locate(path, r),
            _ => unexpected(),
        }
    }

    pub fn into_entries(self, path: &str) -> (r: Result<Listing, FsError>)
        ensures
            outcome(r) == self@.entries(path@),
    {
        match self {
            Reply::Entries(r) => locate(path, r),
            _ => unexpected(),
        }
    }

    pub fn into_lock(self, path: &str) -> (r: Result<FileLockInfo, FsError>)
        ensures
            unviewed(r) == self@.lock(path@),
    {
        match self {
            Reply::Lock(r) => locate(path, r),
            _ => unexpected(),
        }
    }

    pub fn into_data(self) -> (r: Result<Vec<u8>, FsError>)
        ensures
            outcome(r) == self@.data(),
    {
        match self {
            Reply::Data(r) => plainly(r),
            _ => unexpected(),
        }
    }

    pub fn into_written(self) -> (r: Result<usize, FsError>)
        ensures
            unviewed(r) == self@.written(),
    {
        match self {
            Reply::Written(r) => plainly(r),
            _ => unexpected(),
        }
    }

    pub fn into_time(self) -> (r: Result<u128, FsError>)
        ensures
            unviewed(r) == self@.time(),
    {
        match self {
            Reply::Time(r) => plainly(r),
            _ => unexpected(),
        }
    }

    pub fn into_cached(self) -> (r: Result<Option<u64>, FsError>)
        ensures
            unviewed(r) == self@.cached(),
    {
        match self {
            Reply::Cached(s) => Ok(s),
            _ => unexpected(),
        }
    }

    pub fn into_channel(self) -> (r: Result<Option<u64>, FsError>)
        ensures
            unviewed(r) == self@.channel(),
    {
        match self {
            Reply::Channel(c) => Ok(c),
            _ => unexpected(),
        }
    }

    pub fn into_file_id(self) -> (r: Result<u64, FsError>)
        ensures
            unviewed(r) == self@.file_id(),
    {
        match self {
            Reply::FileId(id) => Ok(id),
            _ => unexpected(),
        }
    }
}

} // verus!
