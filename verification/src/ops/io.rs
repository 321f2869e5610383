//! Reading and writing the contents of files.
use crate::error::{ErrorKind, FsError};
use crate::meta::FileType;
use crate::ops::lookup;
use crate::ops::lookup::Resolve;
use crate::script;
use crate::script::{
    DataRequest, MetaRequest, Operation, RegistryRequest, Reply, Request, Script, SpecError,
    SpecReply, Step,
};
use crate::stat::FileStat;
use vstd::prelude::*;

verus! {

broadcast use crate::script::group_bind;

/// Makes sure that an inode, found at `path`, is in the registry.
pub open spec fn register(path: Seq<char>, ino: i64) -> Script<()> {
    Script::Ask(
        Request::Registry(RegistryRequest::InodeSize { ino }),
        |reply: SpecReply|
            match reply.cached() {
                Err(e) => Script::Done(Err(e)),
                Ok(Some(_)) => Script::Done(Ok(())),
                Ok(None) => register_attr(path, ino),
            },
    )
}

/// The rest of `register`, where the inode is not in the registry: only a file may enter it.
pub open spec fn register_attr(path: Seq<char>, ino: i64) -> Script<()> {
    Script::Ask(
        Request::Meta(MetaRequest::Stat { ino }),
        |reply: SpecReply|
            match reply.attr(path) {
                Err(e) => Script::Done(Err(e)),
                Ok(None) => script::fail(ErrorKind::NotFound, path),
                Ok(Some(attr)) => match attr.kind {
                    FileType::File => register_now(ino, attr.size),
                    FileType::Dir => script::fail(ErrorKind::IsADirectory, path),
                    FileType::Symlink => script::fail(ErrorKind::InvalidInput, path),
                },
            },
    )
}

/// The last step of `register`.
pub open spec fn register_now(ino: i64, size: u64) -> Script<()> {
    Script::Ask(
        Request::Registry(RegistryRequest::Register { ino, size }),
        |reply: SpecReply| Script::Done(Ok(())),
    )
}

/// Making sure that an inode is in the registry.
#[derive(Debug)]
pub enum Register {
    Cached { path: String, ino: i64 },
    Attr { path: String, ino: i64 },
    Now { ino: i64, size: u64 },
}

impl Register {
    pub fn start(path: &str, ino: i64) -> (s: Step<Register, ()>)
        ensures
            s is Pending,
            s.script() == register(path@, ino),
    {
        Step::Pending(Register::Cached { path: String::from_str(path), ino })
    }
}

impl Operation for Register {
    type Output = ();

    open spec fn script(self) -> Script<()> {
        match self {
            Register::Cached { path, ino } => register(path@, ino),
            Register::Attr { path, ino } => register_attr(path@, ino),
            Register::Now { ino, size } => register_now(ino, size),
        }
    }

    open spec fn accepts(self, reply: SpecReply) -> bool {
        true
    }

    fn admits(&self, _reply: &Reply) -> (b: bool) {
        true
    }

    proof fn asks(self) {
    }

    fn request(&self) -> (q: Request) {
        match self {
            Register::Cached { path: _, ino } => Request::Registry(
                RegistryRequest::InodeSize { ino: *ino },
            ),
            Register::Attr { path: _, ino } => Request::Meta(MetaRequest::Stat { ino: *ino }),
            Register::Now { ino, size } => Request::Registry(
                RegistryRequest::Register { ino: *ino, size: *size },
            ),
        }
    }

    fn resume(self, reply: Reply) -> (s: Step<Register, ()>) {
        match self {
            Register::Cached { path, ino } => match reply.into_cached() {
                Err(e) => Step::Done(Err(e)),
                Ok(Some(_)) => Step::Done(Ok(())),
                Ok(None) => Step::Pending(Register::Attr { path, ino }),
            },
            Register::Attr { path, ino } => match reply.into_attr(path.as_str()) {
                Err(e) => Step::Done(Err(e)),
                Ok(None) => Step::Done(Err(FsError { kind: ErrorKind::NotFound, message: path })),
                Ok(Some(attr)) => match attr.kind {
                    FileType::File => Step::Pending(Register::Now { ino, size: attr.size }),
                    FileType::Dir => Step::Done(
                        Err(FsError { kind: ErrorKind::IsADirectory, message: path }),
                    ),
                    FileType::Symlink => Step::Done(
                        Err(FsError { kind: ErrorKind::InvalidInput, message: path }),
                    ),
                },
            },
            Register::Now { ino: _, size: _ } => Step::Done(Ok(())),
        }
    }
}

/// Reads from an inode, found at `path`. Reading nothing asks nothing.
pub open spec fn read_inode(path: Seq<char>, ino: i64, offset: u64, len: usize) -> Script<
    Seq<u8>,
> {
    if len == 0 {
        Script::Done(Ok(Seq::empty()))
    } else {
        register(path, ino).and_next(|u: ()| read_channel(ino, offset, len))
    }
}

/// The rest of `read_inode`, the inode being in the registry.
pub open spec fn read_channel(ino: i64, offset: u64, len: usize) -> Script<Seq<u8>> {
    Script::Ask(
        Request::Registry(RegistryRequest::Reader { ino }),
        |reply: SpecReply|
            match reply.channel() {
                Err(e) => Script::Done(Err(e)),
                Ok(None) => script::fail(ErrorKind::Other, "file reader is not initialized"@),
                Ok(Some(reader)) => read_now(reader, offset, len),
            },
    )
}

/// The last step of `read_inode`.
pub open spec fn read_now(reader: u64, offset: u64, len: usize) -> Script<Seq<u8>> {
    Script::Ask(
        Request::Data(DataRequest::Read { reader, offset, len }),
        |reply: SpecReply| Script::Done(reply.data()),
    )
}

/// Reading from an inode.
#[derive(Debug)]
pub enum ReadInode {
    Register { ino: i64, offset: u64, len: usize, op: Register },
    Channel { ino: i64, offset: u64, len: usize },
    Now { reader: u64, offset: u64, len: usize },
}

impl ReadInode {
    pub fn start(path: &str, ino: i64, offset: u64, len: usize) -> (s: Step<ReadInode, Vec<u8>>)
        ensures
            s.script() == read_inode(path@, ino, offset, len),
            s is Done ==> len == 0,
            s matches Step::Done(Ok(data)) ==> data@.len() == 0,
    {
        if len == 0 {
            return Step::Done(Ok(Vec::new()));
        }
        match Register::start(path, ino) {
            Step::Pending(op) => Step::Pending(ReadInode::Register { ino, offset, len, op }),
            Step::Done(Err(e)) => Step::Done(Err(e)),
            Step::Done(Ok(_)) => Step::Pending(ReadInode::Channel { ino, offset, len }),
        }
    }
}

impl Operation for ReadInode {
    type Output = Vec<u8>;

    open spec fn script(self) -> Script<Seq<u8>> {
        match self {
            ReadInode::Register { ino, offset, len, op } => op.script().and_next(
                |u: ()| read_channel(ino, offset, len),
            ),
            ReadInode::Channel { ino, offset, len } => read_channel(ino, offset, len),
            ReadInode::Now { reader, offset, len } => read_now(reader, offset, len),
        }
    }

    open spec fn accepts(self, reply: SpecReply) -> bool {
        true
    }

    fn admits(&self, _reply: &Reply) -> (b: bool) {
        true
    }

    proof fn asks(self) {
        match self {
            ReadInode::Register { ino, offset, len, op } => op.asks(),
            _ => {},
        }
    }

    fn request(&self) -> (q: Request) {
        match self {
            ReadInode::Register { ino: _, offset: _, len: _, op } => op.request(),
            ReadInode::Channel { ino, offset: _, len: _ } => Request::Registry(
                RegistryRequest::Reader { ino: *ino },
            ),
            ReadInode::Now { reader, offset, len } => Request::Data(
                DataRequest::Read { reader: *reader, offset: *offset, len: *len },
            ),
        }
    }

    fn resume(self, reply: Reply) -> (s: Step<ReadInode, Vec<u8>>)
        ensures
            s matches Step::Done(Ok(data)) ==> self is Now && reply@.data() == Ok::<
                Seq<u8>,
                SpecError,
            >(data@),
    {
        proof {
            self.asks();
        }
        match self {
            ReadInode::Register { ino, offset, len, op } => match op.resume(reply) {
                Step::Pending(op) => Step::Pending(ReadInode::Register { ino, offset, len, op }),
                Step::Done(Err(e)) => Step::Done(Err(e)),
                Step::Done(Ok(_)) => Step::Pending(ReadInode::Channel { ino, offset, len }),
            },
            ReadInode::Channel { ino: _, offset, len } => match reply.into_channel() {
                Err(e) => Step::Done(Err(e)),
                Ok(None) => Step::Done(
                    Err(FsError::new(ErrorKind::Other, "file reader is not initialized")),
                ),
                Ok(Some(reader)) => Step::Pending(ReadInode::Now { reader, offset, len }),
            },
            ReadInode::Now { reader: _, offset: _, len: _ } => Step::Done(reply.into_data()),
        }
    }
}

/// A write at `path`: what is written and where.
#[derive(Debug)]
pub struct Write<S = String, B = Vec<u8>> {
    pub path: S,
    pub offset: u64,
    pub data: B,
}

impl View for Write {
    type V = Write<Seq<char>, Seq<u8>>;

    open spec fn view(&self) -> Write<Seq<char>, Seq<u8>> {
        Write { path: self.path@, offset: self.offset, data: self.data@ }
    }
}

impl Write<Seq<char>, Seq<u8>> {
    pub open spec fn of(path: Seq<char>, offset: u64, data: Seq<u8>) -> Write<Seq<char>, Seq<u8>> {
        Write { path, offset, data }
    }

    /// Whether the write ends within the range of offsets.
    pub open spec fn fits(self) -> bool {
        self.offset + self.data.len() <= u64::MAX
    }

    /// Where the write ends: the file has at least this size then.
    pub open spec fn end(self) -> u64 {
        (self.offset + self.data.len()) as u64
    }
}

impl Write {
    pub fn new(path: &str, offset: u64, data: Vec<u8>) -> (w: Write)
        ensures
            w@ == Write::of(path@, offset, data@),
    {
        Write { path: String::from_str(path), offset, data }
    }
}

/// Writes to an inode, found at `path`, and gives the number of bytes written. Where the write
/// ends behind the end of the file, the file grows.
pub open spec fn write_inode(path: Seq<char>, ino: i64, offset: u64, data: Seq<u8>) -> Script<
    usize,
> {
    perform_write(Write::of(path, offset, data), ino)
}

/// Performs a write on an inode.
pub open spec fn perform_write(w: Write<Seq<char>, Seq<u8>>, ino: i64) -> Script<usize> {
    register(w.path, ino).and_next(|u: ()| write_channel(w, ino))
}

/// The rest of `perform_write`, the inode being in the registry.
pub open spec fn write_channel(w: Write<Seq<char>, Seq<u8>>, ino: i64) -> Script<usize> {
    Script::Ask(
        Request::Registry(RegistryRequest::Writer { ino }),
        |reply: SpecReply|
            match reply.channel() {
                Err(e) => Script::Done(Err(e)),
                Ok(None) => script::fail(ErrorKind::Other, "file writer is not initialized"@),
                Ok(Some(writer)) => write_data(w, ino, writer),
            },
    )
}

/// The rest of `perform_write`, the writer being known.
pub open spec fn write_data(w: Write<Seq<char>, Seq<u8>>, ino: i64, writer: u64) -> Script<usize> {
    Script::Ask(
        Request::Data(DataRequest::Write { writer, offset: w.offset, data: w.data }),
        |reply: SpecReply|
            match reply.written() {
                Err(e) => Script::Done(Err(e)),
                Ok(n) => write_size(w.path, ino, w.end(), n),
            },
    )
}

/// The rest of `perform_write`, the data being written. An inode stays in the registry once it is
/// there.
pub open spec fn write_size(path: Seq<char>, ino: i64, end: u64, n: usize) -> Script<usize> {
    Script::Ask(
        Request::Registry(RegistryRequest::InodeSize { ino }),
        |reply: SpecReply|
            match reply.cached() {
                Err(e) => Script::Done(Err(e)),
                Ok(None) => Script::Done(Err(FsError::unexpected_reply())),
                Ok(Some(size)) => if end > size {
                    write_grow(path, ino, end, n)
                } else {
                    Script::Done(Ok(n))
                },
            },
    )
}

/// The rest of `perform_write`, where the file grows: the registry learns its size first.
pub open spec fn write_grow(path: Seq<char>, ino: i64, end: u64, n: usize) -> Script<usize> {
    Script::Ask(
        Request::Registry(RegistryRequest::UpdateSize { ino, size: end }),
        |reply: SpecReply| write_set_size(path, ino, end, n),
    )
}

/// The last step of `perform_write`, where the file grows.
pub open spec fn write_set_size(path: Seq<char>, ino: i64, end: u64, n: usize) -> Script<usize> {
    Script::Ask(
        Request::Meta(MetaRequest::SetFileSize { ino, size: end }),
        |reply: SpecReply|
            match reply.unit(path) {
                Err(e) => Script::Done(Err(e)),
                Ok(_) => Script::Done(Ok(n)),
            },
    )
}

/// Writing to an inode.
#[derive(Debug)]
pub enum WriteInode {
    Register { write: Write, ino: i64, op: Register },
    Channel { write: Write, ino: i64 },
    Data { write: Write, ino: i64, writer: u64 },
    Size { path: String, ino: i64, end: u64, n: usize },
    Grow { path: String, ino: i64, end: u64, n: usize },
    SetSize { path: String, ino: i64, end: u64, n: usize },
}

impl WriteInode {
    pub fn start(write: Write, ino: i64) -> (s: Step<WriteInode, usize>)
        ensures
            s.script() == perform_write(write@, ino),
            s is Pending,
    {
        match Register::start(write.path.as_str(), ino) {
            Step::Pending(op) => Step::Pending(WriteInode::Register { write, ino, op }),
            Step::Done(Err(e)) => Step::Done(Err(e)),
            Step::Done(Ok(_)) => Step::Pending(WriteInode::Channel { write, ino }),
        }
    }
}

impl Operation for WriteInode {
    type Output = usize;

    open spec fn script(self) -> Script<usize> {
        match self {
            WriteInode::Register { write, ino, op } => {
                let w = write@;
                op.script().and_next(|u: ()| write_channel(w, ino))
            },
            WriteInode::Channel { write, ino } => write_channel(write@, ino),
            WriteInode::Data { write, ino, writer } => write_data(write@, ino, writer),
            WriteInode::Size { path, ino, end, n } => write_size(path@, ino, end, n),
            WriteInode::Grow { path, ino, end, n } => write_grow(path@, ino, end, n),
            WriteInode::SetSize { path, ino, end, n } => write_set_size(path@, ino, end, n),
        }
    }

    /// A write that was done has to end within the range of offsets.
    open spec fn accepts(self, reply: SpecReply) -> bool {
        match self {
            WriteInode::Data { write, ino, writer } => reply.written() is Ok ==> write@.fits(),
            _ => true,
        }
    }

    fn admits(&self, reply: &Reply) -> (b: bool) {
        match (self, reply) {
            (
                WriteInode::Data { write, ino: _, writer: _ },
                Reply::Written(Ok(_)),
            ) => write.data.len() as u64 <= u64::MAX - write.offset,
            _ => true,
        }
    }

    proof fn asks(self) {
        match self {
            WriteInode::Register { write, ino, op } => op.asks(),
            _ => {},
        }
    }

    fn request(&self) -> (q: Request) {
        match self {
            WriteInode::Register { write: _, ino: _, op } => op.request(),
            WriteInode::Channel { write: _, ino } => Request::Registry(
                RegistryRequest::Writer { ino: *ino },
            ),
            WriteInode::Data { write, ino: _, writer } => {
                let data = write.data.clone();
                assert(data@ == write.data@);
                Request::Data(DataRequest::Write { writer: *writer, offset: write.offset, data })
            },
            WriteInode::Size { path: _, ino, end: _, n: _ } => Request::Registry(
                RegistryRequest::InodeSize { ino: *ino },
            ),
            WriteInode::Grow { path: _, ino, end, n: _ } => Request::Registry(
                RegistryRequest::UpdateSize { ino: *ino, size: *end },
            ),
            WriteInode::SetSize { path: _, ino, end, n: _ } => Request::Meta(
                MetaRequest::SetFileSize { ino: *ino, size: *end },
            ),
        }
    }

    fn resume(self, reply: Reply) -> (s: Step<WriteInode, usize>) {
        proof {
            self.asks();
        }
        match self {
            WriteInode::Register { write, ino, op } => match op.resume(reply) {
                Step::Pending(op) => Step::Pending(WriteInode::Register { write, ino, op }),
                Step::Done(Err(e)) => Step::Done(Err(e)),
                Step::Done(Ok(_)) => Step::Pending(WriteInode::Channel { write, ino }),
            },
            WriteInode::Channel { write, ino } => match reply.into_channel() {
                Err(e) => Step::Done(Err(e)),
                Ok(None) => Step::Done(
                    Err(FsError::new(ErrorKind::Other, "file writer is not initialized")),
                ),
                Ok(Some(writer)) => Step::Pending(WriteInode::Data { write, ino, writer }),
            },
            WriteInode::Data { write, ino, writer: _ } => match reply.into_written() {
                Err(e) => Step::Done(Err(e)),
                Ok(n) => {
                    let end: u64 = write.offset + write.data.len() as u64;
                    Step::Pending(WriteInode::Size { path: write.path, ino, end, n })
                },
            },
            WriteInode::Size { path, ino, end, n } => match reply.into_cached() {
                Err(e) => Step::Done(Err(e)),
                Ok(None) => Step::Done(Err(FsError::unexpected())),
                Ok(Some(size)) => if end > size {
                    Step::Pending(WriteInode::Grow { path, ino, end, n })
                } else {
                    Step::Done(Ok(n))
                },
            },
            WriteInode::Grow { path, ino, end, n } => Step::Pending(
                WriteInode::SetSize { path, ino, end, n },
            ),
            WriteInode::SetSize { path, ino: _, end: _, n } => match reply.into_unit(
                path.as_str(),
            ) {
                Err(e) => Step::Done(Err(e)),
                Ok(_) => Step::Done(Ok(n)),
            },
        }
    }
}

/// Reads from what a normalized path leads to.
pub open spec fn read_at(path: Seq<char>, offset: u64, len: usize) -> Script<Seq<u8>> {
    lookup::resolve(path, true).and_next(
        |info: FileStat<Seq<char>>| read_inode(path, info.inode, offset, len),
    )
}

/// Read data at a specific offset (path-based).
#[derive(Debug)]
pub enum ReadAt {
    Resolve { path: String, offset: u64, len: usize, op: Resolve },
    Read(ReadInode),
}

impl ReadAt {
    /// What is left to do.
    pub open spec fn plan(self) -> Script<Seq<u8>> {
        match self {
            ReadAt::Resolve { path, offset, len, op } => {
                let path = path@;
                op.script().and_next(
                    |info: FileStat<Seq<char>>| read_inode(path, info.inode, offset, len),
                )
            },
            ReadAt::Read(op) => op.script(),
        }
    }

    pub fn start(path: &str, offset: u64, len: usize) -> (s: Step<ReadAt, Vec<u8>>)
        ensures
            s.script() == read_at(path@, offset, len),
    {
        match Resolve::start(path, true) {
            Step::Pending(op) => Step::Pending(
                ReadAt::Resolve { path: String::from_str(path), offset, len, op },
            ),
            Step::Done(Err(e)) => Step::Done(Err(e)),
            Step::Done(Ok(info)) => ReadAt::resolved(path, info.inode, offset, len),
        }
    }

    fn resolved(path: &str, ino: i64, offset: u64, len: usize) -> (s: Step<ReadAt, Vec<u8>>)
        ensures
            script::stage(s, |o: ReadAt| o.plan()) == read_inode(path@, ino, offset, len),
    {
        match ReadInode::start(path, ino, offset, len) {
            Step::Pending(op) => Step::Pending(ReadAt::Read(op)),
            Step::Done(r) => Step::Done(r),
        }
    }
}

impl Operation for ReadAt {
    type Output = Vec<u8>;

    open spec fn script(self) -> Script<Seq<u8>> {
        self.plan()
    }

    open spec fn accepts(self, reply: SpecReply) -> bool {
        true
    }

    fn admits(&self, _reply: &Reply) -> (b: bool) {
        true
    }

    proof fn asks(self) {
        match self {
            ReadAt::Resolve { path, offset, len, op } => op.asks(),
            ReadAt::Read(op) => op.asks(),
        }
    }

    fn request(&self) -> (q: Request) {
        match self {
            ReadAt::Resolve { path: _, offset: _, len: _, op } => op.request(),
            ReadAt::Read(op) => op.request(),
        }
    }

    fn resume(self, reply: Reply) -> (s: Step<ReadAt, Vec<u8>>) {
        proof {
            self.asks();
        }
        match self {
            ReadAt::Resolve { path, offset, len, op } => match op.resume(reply) {
                Step::Pending(op) => Step::Pending(ReadAt::Resolve { path, offset, len, op }),
                Step::Done(Err(e)) => Step::Done(Err(e)),
                Step::Done(Ok(info)) => ReadAt::resolved(path.as_str(), info.inode, offset, len),
            },
            ReadAt::Read(op) => match op.resume(reply) {
                Step::Pending(op) => Step::Pending(ReadAt::Read(op)),
                Step::Done(r) => Step::Done(r),
            },
        }
    }
}

/// Writes to what a normalized path leads to.
pub open spec fn write_at(path: Seq<char>, offset: u64, data: Seq<u8>) -> Script<usize> {
    perform_write_at(Write::of(path, offset, data))
}

/// Performs a write on what its path leads to.
pub open spec fn perform_write_at(w: Write<Seq<char>, Seq<u8>>) -> Script<usize> {
    lookup::resolve(w.path, true).and_next(
        |info: FileStat<Seq<char>>| perform_write(w, info.inode),
    )
}

/// Write data at a specific offset (path-based).
#[derive(Debug)]
pub enum WriteAt {
    Resolve { write: Write, op: Resolve },
    Write(WriteInode),
}

impl WriteAt {
    /// What is left to do.
    pub open spec fn plan(self) -> Script<usize> {
        match self {
            WriteAt::Resolve { write, op } => {
                let w = write@;
                op.script().and_next(|info: FileStat<Seq<char>>| perform_write(w, info.inode))
            },
            WriteAt::Write(op) => op.script(),
        }
    }

    pub fn start(path: &str, offset: u64, data: Vec<u8>) -> (s: Step<WriteAt, usize>)
        ensures
            s.script() == write_at(path@, offset, data@),
    {
        let write = Write::new(path, offset, data);
        match Resolve::start(path, true) {
            Step::Pending(op) => Step::Pending(WriteAt::Resolve { write, op }),
            Step::Done(Err(e)) => Step::Done(Err(e)),
            Step::Done(Ok(info)) => WriteAt::resolved(write, info.inode),
        }
    }

    fn resolved(write: Write, ino: i64) -> (s: Step<WriteAt, usize>)
        ensures
            script::stage(s, |o: WriteAt| o.plan()) == perform_write(write@, ino),
    {
        match WriteInode::start(write, ino) {
            Step::Pending(op) => Step::Pending(WriteAt::Write(op)),
            Step::Done(r) => Step::Done(r),
        }
    }
}

impl Operation for WriteAt {
    type Output = usize;

    open spec fn script(self) -> Script<usize> {
        self.plan()
    }

    open spec fn accepts(self, reply: SpecReply) -> bool {
        match self {
            WriteAt::Resolve { write, op } => true,
            WriteAt::Write(op) => op.accepts(reply),
        }
    }

    fn admits(&self, reply: &Reply) -> (b: bool) {
        match self {
            WriteAt::Resolve { write: _, op: _ } => true,
            WriteAt::Write(op) => op.admits(reply),
        }
    }

    proof fn asks(self) {
        match self {
            WriteAt::Resolve { write, op } => op.asks(),
            WriteAt::Write(op) => op.asks(),
        }
    }

    fn request(&self) -> (q: Request) {
        match self {
            WriteAt::Resolve { write: _, op } => op.request(),
            WriteAt::Write(op) => op.request(),
        }
    }

    fn resume(self, reply: Reply) -> (s: Step<WriteAt, usize>) {
        proof {
            self.asks();
        }
        match self {
            WriteAt::Resolve { write, op } => match op.resume(reply) {
                Step::Pending(op) => Step::Pending(WriteAt::Resolve { write, op }),
                Step::Done(Err(e)) => Step::Done(Err(e)),
                Step::Done(Ok(info)) => WriteAt::resolved(write, info.inode),
            },
            WriteAt::Write(op) => match op.resume(reply) {
                Step::Pending(op) => Step::Pending(WriteAt::Write(op)),
                Step::Done(r) => Step::Done(r),
            },
        }
    }
}

} // verus!
