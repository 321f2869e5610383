//! Operations on open files.
use crate::error::{ErrorKind, FsError};
use crate::meta::{SetAttrFlags, SetAttrRequest};
use crate::ops::io;
use crate::ops::io::{ReadInode, Write, WriteInode};
use crate::script;
use crate::script::{
    HandleRequest, MetaRequest, Operation, RegistryRequest, Reply, Request, Script, SpecReply,
    Step,
};
use vstd::prelude::*;

verus! {

broadcast use crate::script::group_bind;

/// Refuses to read.
pub open spec fn not_readable<T>() -> Script<T> {
    script::fail(ErrorKind::PermissionDenied, "file not opened for reading"@)
}

/// Refuses to write.
pub open spec fn not_writable<T>() -> Script<T> {
    script::fail(ErrorKind::PermissionDenied, "file not opened for writing"@)
}

pub fn not_readable_error() -> (e: FsError)
    ensures
        e@ == (FsError {
            kind: ErrorKind::PermissionDenied,
            message: "file not opened for reading"@,
        }),
{
    FsError::new(ErrorKind::PermissionDenied, "file not opened for reading")
}

pub fn not_writable_error() -> (e: FsError)
    ensures
        e@ == (FsError {
            kind: ErrorKind::PermissionDenied,
            message: "file not opened for writing"@,
        }),
{
    FsError::new(ErrorKind::PermissionDenied, "file not opened for writing")
}

/// Reads from an open file. Where `advance` is set, the offset of the handle moves behind what
/// was read.
pub open spec fn read_file(
    path: Seq<char>,
    ino: i64,
    offset: u64,
    len: usize,
    advance: bool,
) -> Script<Seq<u8>> {
    io::read_inode(path, ino, offset, len).and_next(|data: Seq<u8>| read_done(data, advance))
}

/// The rest of `read_file`, the data being read.
pub open spec fn read_done(data: Seq<u8>, advance: bool) -> Script<Seq<u8>> {
    if advance {
        read_advance(data)
    } else {
        Script::Done(Ok(data))
    }
}

/// The last step of `read_file`, where the offset moves.
pub open spec fn read_advance(data: Seq<u8>) -> Script<Seq<u8>> {
    Script::Ask(
        Request::Handle(HandleRequest::Advance { by: data.len() as u64 }),
        |reply: SpecReply| Script::Done(Ok(data)),
    )
}

/// Read from an open file.
#[derive(Debug)]
pub enum ReadFile {
    Read { len: usize, advance: bool, op: ReadInode },
    Advance { data: Vec<u8> },
}

impl ReadFile {
    /// What is left to do.
    pub open spec fn plan(self) -> Script<Seq<u8>> {
        match self {
            ReadFile::Read { len, advance, op } => op.script().and_next(
                |data: Seq<u8>| read_done(data, advance),
            ),
            ReadFile::Advance { data } => read_advance(data@),
        }
    }

    /// How many bytes the operation may end with.
    pub open spec fn limit(self) -> nat {
        match self {
            ReadFile::Read { len, advance, op } => len as nat,
            ReadFile::Advance { data } => data@.len(),
        }
    }

    pub fn start(path: &str, ino: i64, offset: u64, len: usize, advance: bool) -> (s: Step<
        ReadFile,
        Vec<u8>,
    >)
        ensures
            s.script() == read_file(path@, ino, offset, len, advance),
            s matches Step::Pending(o) ==> o.limit() <= len,
            s matches Step::Done(Ok(data)) ==> data@.len() <= len,
    {
        match ReadInode::start(path, ino, offset, len) {
            Step::Pending(op) => Step::Pending(ReadFile::Read { len, advance, op }),
            Step::Done(Err(e)) => Step::Done(Err(e)),
            Step::Done(Ok(data)) => ReadFile::done(data, advance),
        }
    }

    fn done(data: Vec<u8>, advance: bool) -> (s: Step<ReadFile, Vec<u8>>)
        ensures
            script::stage(s, |o: ReadFile| o.plan()) == read_done(data@, advance),
            s matches Step::Pending(o) ==> o.limit() == data@.len(),
            s matches Step::Done(r) ==> r == Ok::<Vec<u8>, FsError>(data),
    {
        if advance {
            Step::Pending(ReadFile::Advance { data })
        } else {
            Step::Done(Ok(data))
        }
    }
}

impl Operation for ReadFile {
    type Output = Vec<u8>;

    open spec fn script(self) -> Script<Seq<u8>> {
        self.plan()
    }

    /// No more may be read than was asked for: the data has to fit the reader's buffer.
    open spec fn accepts(self, reply: SpecReply) -> bool {
        match self {
            ReadFile::Read { len, advance, op } => op is Now ==> (reply.data() matches Ok(data)
                ==> data.len() <= len),
            ReadFile::Advance { data } => true,
        }
    }

    fn admits(&self, reply: &Reply) -> (b: bool) {
        match self {
            ReadFile::Read { len, advance: _, op } => match (op, reply) {
                (
                    ReadInode::Now { reader: _, offset: _, len: _ },
                    Reply::Data(Ok(data)),
                ) => data.len() <= *len,
                _ => true,
            },
            ReadFile::Advance { data: _ } => true,
        }
    }

    proof fn asks(self) {
        match self {
            ReadFile::Read { len, advance, op } => op.asks(),
            ReadFile::Advance { data } => {},
        }
    }

    fn request(&self) -> (q: Request) {
        match self {
            ReadFile::Read { len: _, advance: _, op } => op.request(),
            ReadFile::Advance { data } => Request::Handle(
                HandleRequest::Advance { by: data.len() as u64 },
            ),
        }
    }

    /// No more comes out than may: what was read fits the reader's buffer.
    fn resume(self, reply: Reply) -> (s: Step<ReadFile, Vec<u8>>)
        ensures
            s matches Step::Pending(o) ==> o.limit() <= self.limit(),
            s matches Step::Done(Ok(data)) ==> data@.len() <= self.limit(),
    {
        proof {
            self.asks();
        }
        match self {
            ReadFile::Read { len, advance, op } => {
                proof {
                    op.asks();
                }
                match op.resume(reply) {
                    Step::Pending(op) => Step::Pending(ReadFile::Read { len, advance, op }),
                    Step::Done(Err(e)) => Step::Done(Err(e)),
                    Step::Done(Ok(data)) => ReadFile::done(data, advance),
                }
            },
            ReadFile::Advance { data } => Step::Done(Ok(data)),
        }
    }
}

/// Gives the size of an open file.
pub open spec fn file_size(path: Seq<char>, ino: i64) -> Script<u64> {
    Script::Ask(
        Request::Meta(MetaRequest::Stat { ino }),
        |reply: SpecReply|
            match reply.attr(path) {
                Err(e) => Script::Done(Err(e)),
                Ok(None) => script::fail(ErrorKind::NotFound, "inode not found"@),
                Ok(Some(attr)) => Script::Done(Ok(attr.size)),
            },
    )
}

/// Get current file size.
#[derive(Debug)]
pub struct FileSize {
    pub path: String,
    pub ino: i64,
}

impl FileSize {
    pub fn start(path: &str, ino: i64) -> (s: Step<FileSize, u64>)
        ensures
            s.script() == file_size(path@, ino),
            s is Pending,
    {
        Step::Pending(FileSize { path: String::from_str(path), ino })
    }
}

impl Operation for FileSize {
    type Output = u64;

    open spec fn script(self) -> Script<u64> {
        file_size(self.path@, self.ino)
    }

    open spec fn accepts(self, reply: SpecReply) -> bool {
        true
    }

    fn admits(&self, _reply: &Reply) -> (b: bool) {
        true
    }

    proof fn asks(self) {
    }

    fn request(&self) -> (q: Request) {
        Request::Meta(MetaRequest::Stat { ino: self.ino })
    }

    fn resume(self, reply: Reply) -> (s: Step<FileSize, u64>) {
        match reply.into_attr(self.path.as_str()) {
            Err(e) => Step::Done(Err(e)),
            Ok(None) => Step::Done(Err(FsError::new(ErrorKind::NotFound, "inode not found"))),
            Ok(Some(attr)) => Step::Done(Ok(attr.size)),
        }
    }
}

/// Writes to an open file at an offset. The offset of the handle moves by what was written, or,
/// where `from` is given, behind what was written from there.
pub open spec fn write_file(
    w: io::Write<Seq<char>, Seq<u8>>,
    ino: i64,
    from: Option<u64>,
) -> Script<usize> {
    io::perform_write(w, ino).and_next(|n: usize| write_move(from, n))
}

/// How the offset of the handle moves after `n` bytes were written.
pub open spec fn move_request(from: Option<u64>, n: usize) -> HandleRequest {
    match from {
        None => HandleRequest::Advance { by: n as u64 },
        Some(offset) => HandleRequest::Seek { to: offset.wrapping_add(n as u64) },
    }
}

/// The last step of `write_file`.
pub open spec fn write_move(from: Option<u64>, n: usize) -> Script<usize> {
    Script::Ask(
        Request::Handle(move_request(from, n)),
        |reply: SpecReply| Script::Done(Ok(n)),
    )
}

/// Writes to an open file behind its end.
pub open spec fn append_file(path: Seq<char>, ino: i64, data: Seq<u8>) -> Script<usize> {
    file_size(path, ino).and_next(
        |size: u64| write_file(io::Write::of(path, size, data), ino, Some(size)),
    )
}

/// Write to an open file.
#[derive(Debug)]
pub enum WriteFile {
    Size { path: String, ino: i64, data: Vec<u8> },
    Write { from: Option<u64>, write: WriteInode },
    Move { from: Option<u64>, n: usize },
}

impl WriteFile {
    /// What is left to do.
    pub open spec fn plan(self) -> Script<usize> {
        match self {
            WriteFile::Size { path, ino, data } => append_file(path@, ino, data@),
            WriteFile::Write { from, write } => write.script().and_next(
                |n: usize| write_move(from, n),
            ),
            WriteFile::Move { from, n } => write_move(from, n),
        }
    }

    /// Write at an offset.
    pub fn start(path: &str, ino: i64, offset: u64, data: Vec<u8>) -> (s: Step<WriteFile, usize>)
        ensures
            s.script() == write_file(io::Write::of(path@, offset, data@), ino, None),
    {
        WriteFile::begin(Write::new(path, offset, data), ino, None)
    }

    /// Write at the end of the file.
    pub fn start_append(path: &str, ino: i64, data: Vec<u8>) -> (s: Step<WriteFile, usize>)
        ensures
            s.script() == append_file(path@, ino, data@),
    {
        Step::Pending(WriteFile::Size { path: String::from_str(path), ino, data })
    }

    fn begin(write: Write, ino: i64, from: Option<u64>) -> (s: Step<WriteFile, usize>)
        ensures
            script::stage(s, |o: WriteFile| o.plan()) == write_file(write@, ino, from),
    {
        match WriteInode::start(write, ino) {
            Step::Pending(write) => Step::Pending(WriteFile::Write { from, write }),
            Step::Done(Err(e)) => Step::Done(Err(e)),
            Step::Done(Ok(n)) => Step::Pending(WriteFile::Move { from, n }),
        }
    }
}

impl Operation for WriteFile {
    type Output = usize;

    open spec fn script(self) -> Script<usize> {
        self.plan()
    }

    open spec fn accepts(self, reply: SpecReply) -> bool {
        match self {
            WriteFile::Write { from, write } => write.accepts(reply),
            _ => true,
        }
    }

    fn admits(&self, reply: &Reply) -> (b: bool) {
        match self {
            WriteFile::Write { from: _, write } => write.admits(reply),
            _ => true,
        }
    }

    proof fn asks(self) {
        match self {
            WriteFile::Write { from, write } => write.asks(),
            _ => {},
        }
    }

    fn request(&self) -> (q: Request) {
        match self {
            WriteFile::Size { path: _, ino, data: _ } => Request::Meta(
                MetaRequest::Stat { ino: *ino },
            ),
            WriteFile::Write { from: _, write } => write.request(),
            WriteFile::Move { from, n } => match from {
                None => Request::Handle(HandleRequest::Advance { by: *n as u64 }),
                Some(offset) => Request::Handle(
                    HandleRequest::Seek { to: offset.wrapping_add(*n as u64) },
                ),
            },
        }
    }

    fn resume(self, reply: Reply) -> (s: Step<WriteFile, usize>) {
        proof {
            self.asks();
        }
        match self {
            WriteFile::Size { path, ino, data } => match reply.into_attr(path.as_str()) {
                Err(e) => Step::Done(Err(e)),
                Ok(None) => Step::Done(Err(FsError::new(ErrorKind::NotFound, "inode not found"))),
                Ok(Some(attr)) => WriteFile::begin(
                    Write::new(path.as_str(), attr.size, data),
                    ino,
                    Some(attr.size),
                ),
            },
            WriteFile::Write { from, write } => {
                proof {
                    write.asks();
                }
                match write.resume(reply) {
                    Step::Pending(write) => Step::Pending(WriteFile::Write { from, write }),
                    Step::Done(Err(e)) => Step::Done(Err(e)),
                    Step::Done(Ok(n)) => Step::Pending(WriteFile::Move { from, n }),
                }
            },
            WriteFile::Move { from: _, n } => Step::Done(Ok(n)),
        }
    }
}

/// Sets the size of an open file: the registry learns it, if it knows the file.
pub open spec fn truncate_file(path: Seq<char>, ino: i64, size: u64) -> Script<()> {
    Script::Ask(
        Request::Registry(RegistryRequest::UpdateSize { ino, size }),
        |reply: SpecReply| truncate_file_now(path, ino, size),
    )
}

/// The rest of `truncate_file`, the registry having been told.
pub open spec fn truncate_file_now(path: Seq<char>, ino: i64, size: u64) -> Script<()> {
    Script::Ask(
        Request::Meta(MetaRequest::SetFileSize { ino, size }),
        |reply: SpecReply|
            match reply.unit(path) {
                Err(e) => Script::Done(Err(e)),
                Ok(_) => handle_done(HandleRequest::NoteSize { size }),
            },
    )
}

/// A last step that the handle takes note of.
pub open spec fn handle_done(request: HandleRequest) -> Script<()> {
    Script::Ask(Request::Handle(request), |reply: SpecReply| Script::Done(Ok(())))
}

/// Truncate an open file to the given size.
#[derive(Debug)]
pub struct TruncateFile {
    pub path: String,
    pub ino: i64,
    pub size: u64,
    pub at: TruncateFileAt,
}

#[derive(Debug, Clone, Copy)]
pub enum TruncateFileAt {
    Cached,
    Now,
    Note,
}

impl TruncateFile {
    pub fn start(path: &str, ino: i64, size: u64) -> (s: Step<TruncateFile, ()>)
        ensures
            s.script() == truncate_file(path@, ino, size),
    {
        Step::Pending(
            TruncateFile { path: String::from_str(path), ino, size, at: TruncateFileAt::Cached },
        )
    }
}

impl Operation for TruncateFile {
    type Output = ();

    open spec fn script(self) -> Script<()> {
        match self.at {
            TruncateFileAt::Cached => truncate_file(self.path@, self.ino, self.size),
            TruncateFileAt::Now => truncate_file_now(self.path@, self.ino, self.size),
            TruncateFileAt::Note => handle_done(HandleRequest::NoteSize { size: self.size }),
        }
    }

    open spec fn accepts(self, reply: SpecReply) -> bool {
        true
    }

    fn admits(&self, _reply: &Reply) -> (b: bool) {
        true
    }

    proof fn asks(self) {
    }

    fn request(&self) -> (q: Request) {
        match self.at {
            TruncateFileAt::Cached => Request::Registry(
                RegistryRequest::UpdateSize { ino: self.ino, size: self.size },
            ),
            TruncateFileAt::Now => Request::Meta(
                MetaRequest::SetFileSize { ino: self.ino, size: self.size },
            ),
            TruncateFileAt::Note => Request::Handle(HandleRequest::NoteSize { size: self.size }),
        }
    }

    fn resume(self, reply: Reply) -> (s: Step<TruncateFile, ()>) {
        match self.at {
            TruncateFileAt::Cached => Step::Pending(
                TruncateFile { at: TruncateFileAt::Now, ..self },
            ),
            TruncateFileAt::Now => match reply.into_unit(self.path.as_str()) {
                Err(e) => Step::Done(Err(e)),
                Ok(_) => Step::Pending(TruncateFile { at: TruncateFileAt::Note, ..self }),
            },
            TruncateFileAt::Note => Step::Done(Ok(())),
        }
    }
}

/// A reading of a nanosecond clock, reduced to the range of file times.
pub open spec fn file_time(nanos: u128) -> i64 {
    #[verifier::truncate]
    (nanos as i64)
}

/// The change that sets the times of the last change.
pub open spec fn touch(time: i64) -> SetAttrRequest {
    SetAttrRequest { mtime: Some(time), ctime: Some(time), ..SetAttrRequest::unchanged() }
}

/// Syncs an open file: its times of the last change are set to the present.
pub open spec fn sync_file(path: Seq<char>, ino: i64) -> Script<()> {
    Script::Ask(
        Request::Now,
        |reply: SpecReply|
            match reply.time() {
                Err(e) => Script::Done(Err(e)),
                Ok(nanos) => sync_now(path, ino, file_time(nanos)),
            },
    )
}

/// The rest of `sync_file`, the time being known.
pub open spec fn sync_now(path: Seq<char>, ino: i64, time: i64) -> Script<()> {
    Script::Ask(
        Request::Meta(
            MetaRequest::SetAttr { ino, attrs: touch(time), flags: SetAttrFlags { bits: 0 } },
        ),
        |reply: SpecReply|
            match reply.changed(path) {
                Err(e) => Script::Done(Err(e)),
                Ok(_) => handle_done(HandleRequest::NoteTime { time }),
            },
    )
}

/// Sync file data to storage.
#[derive(Debug)]
pub struct SyncFile {
    pub path: String,
    pub ino: i64,
    pub at: SyncFileAt,
}

#[derive(Debug, Clone, Copy)]
pub enum SyncFileAt {
    Time,
    Now { time: i64 },
    Note { time: i64 },
}

impl SyncFile {
    pub fn start(path: &str, ino: i64) -> (s: Step<SyncFile, ()>)
        ensures
            s.script() == sync_file(path@, ino),
    {
        Step::Pending(SyncFile { path: String::from_str(path), ino, at: SyncFileAt::Time })
    }
}

impl Operation for SyncFile {
    type Output = ();

    open spec fn script(self) -> Script<()> {
        match self.at {
            SyncFileAt::Time => sync_file(self.path@, self.ino),
            SyncFileAt::Now { time } => sync_now(self.path@, self.ino, time),
            SyncFileAt::Note { time } => handle_done(HandleRequest::NoteTime { time }),
        }
    }

    open spec fn accepts(self, reply: SpecReply) -> bool {
        true
    }

    fn admits(&self, _reply: &Reply) -> (b: bool) {
        true
    }

    proof fn asks(self) {
    }

    fn request(&self) -> (q: Request) {
        match self.at {
            SyncFileAt::Time => Request::Now,
            SyncFileAt::Now { time } => Request::Meta(
                MetaRequest::SetAttr {
                    ino: self.ino,
                    attrs: SetAttrRequest {
                        mtime: Some(time),
                        ctime: Some(time),
                        ..SetAttrRequest::default()
                    },
                    flags: SetAttrFlags::empty(),
                },
            ),
            SyncFileAt::Note { time } => Request::Handle(HandleRequest::NoteTime { time }),
        }
    }

    fn resume(self, reply: Reply) -> (s: Step<SyncFile, ()>) {
        match self.at {
            SyncFileAt::Time => match reply.into_time() {
                Err(e) => Step::Done(Err(e)),
                Ok(nanos) => {
                    let time: i64 = #[verifier::truncate]
                    (nanos as i64);
                    Step::Pending(SyncFile { at: SyncFileAt::Now { time }, ..self })
                },
            },
            SyncFileAt::Now { time } => match reply.into_changed(self.path.as_str()) {
                Err(e) => Step::Done(Err(e)),
                Ok(_) => Step::Pending(SyncFile { at: SyncFileAt::Note { time }, ..self }),
            },
            SyncFileAt::Note { time: _ } => Step::Done(Ok(())),
        }
    }
}

/// Reads the attributes of an open file again.
pub open spec fn refresh_file(path: Seq<char>, ino: i64) -> Script<()> {
    Script::Ask(
        Request::Meta(MetaRequest::Stat { ino }),
        |reply: SpecReply|
            match reply.attr(path) {
                Err(e) => Script::Done(Err(e)),
                Ok(None) => script::fail(ErrorKind::NotFound, "inode not found"@),
                Ok(Some(attr)) => handle_done(HandleRequest::NoteAttr { attr }),
            },
    )
}

/// Refresh file metadata.
#[derive(Debug)]
pub enum RefreshFile {
    Attr { path: String, ino: i64 },
    Note { attr: crate::meta::FileAttr },
}

impl RefreshFile {
    pub fn start(path: &str, ino: i64) -> (s: Step<RefreshFile, ()>)
        ensures
            s.script() == refresh_file(path@, ino),
    {
        Step::Pending(RefreshFile::Attr { path: String::from_str(path), ino })
    }
}

impl Operation for RefreshFile {
    type Output = ();

    open spec fn script(self) -> Script<()> {
        match self {
            RefreshFile::Attr { path, ino } => refresh_file(path@, ino),
            RefreshFile::Note { attr } => handle_done(HandleRequest::NoteAttr { attr }),
        }
    }

    open spec fn accepts(self, reply: SpecReply) -> bool {
        true
    }

    fn admits(&self, _reply: &Reply) -> (b: bool) {
        true
    }

    proof fn asks(self) {
    }

    fn request(&self) -> (q: Request) {
        match self {
            RefreshFile::Attr { path: _, ino } => Request::Meta(MetaRequest::Stat { ino: *ino }),
            RefreshFile::Note { attr } => Request::Handle(HandleRequest::NoteAttr { attr: *attr }),
        }
    }

    fn resume(self, reply: Reply) -> (s: Step<RefreshFile, ()>) {
        match self {
            RefreshFile::Attr { path, ino: _ } => match reply.into_attr(path.as_str()) {
                Err(e) => Step::Done(Err(e)),
                Ok(None) => Step::Done(Err(FsError::new(ErrorKind::NotFound, "inode not found"))),
                Ok(Some(attr)) => Step::Pending(RefreshFile::Note { attr }),
            },
            RefreshFile::Note { attr: _ } => Step::Done(Ok(())),
        }
    }
}

/// Copies what was read into the front of the reader's buffer, the rest of which keeps its bytes.
/// Gives the number of bytes read.
pub fn fill(buf: &mut [u8], data: &[u8]) -> (n: usize)
    requires
        data@.len() <= old(buf)@.len(),
    ensures
        n == data@.len(),
        final(buf)@ == data@ + old(buf)@.skip(data@.len() as int),
{
    let n: usize = data.len();
    let mut i: usize = 0;
    while i < n
        invariant
            n == data@.len() <= old(buf)@.len(),
            i <= n,
            buf@ == data@.take(i as int) + old(buf)@.skip(i as int),
        decreases n - i,
    {
        buf[i] = data[i];
        i = i + 1;
        assert(buf@ =~= data@.take(i as int) + old(buf)@.skip(i as int));
    }
    assert(data@.take(n as int) =~= data@);
    n
}

} // verus!
