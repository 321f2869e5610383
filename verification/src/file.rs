//! Open file handles.
use crate::fs;
use crate::fs::FileSystem;
use crate::meta::FileAttr;
use crate::ops::handle;
use crate::ops::handle::{
    not_readable_error, not_writable_error, FileSize, ReadFile, RefreshFile, SyncFile,
    TruncateFile, WriteFile,
};
use crate::ops::io;
use crate::ops::io::{Write, WriteInode};
use crate::ops::logged;
use crate::ops::logged::Logged;
use crate::script::{HandleRequest, Operation, Reply, Request, Script, Step};
use crate::stat::{FileStat, OpenFlags};
use vstd::prelude::*;
use vstd::slice::slice_to_vec;

verus! {

/// An open file handle.
///
/// Provides read/write operations with automatic offset tracking.
#[derive(Debug)]
pub struct File<S = String> {
    /// The number of the handle.
    pub id: u64,
    pub path: S,
    pub inode: i64,
    pub info: FileStat<S>,
    pub flags: OpenFlags,
    pub offset: u64,
    /// Whether operations on the handle are recorded in the access log.
    pub log: bool,
}

impl View for File {
    type V = File<Seq<char>>;

    open spec fn view(&self) -> File<Seq<char>> {
        File {
            id: self.id,
            path: self.path@,
            inode: self.inode,
            info: self.info@,
            flags: self.flags,
            offset: self.offset,
            log: self.log,
        }
    }
}

impl File<Seq<char>> {
    /// A handle on what `info` tells about, at its beginning.
    pub open spec fn opened(
        id: u64,
        path: Seq<char>,
        info: FileStat<Seq<char>>,
        flags: OpenFlags,
        log: bool,
    ) -> File<Seq<char>> {
        File { id, path, inode: info.inode, info, flags, offset: 0, log }
    }

    /// The same handle with other attributes.
    pub open spec fn with_attr(self, attr: FileAttr) -> File<Seq<char>> {
        File { info: FileStat { attr, ..self.info }, ..self }
    }

    /// The handle after a request to it. The offset is a counter that wraps around.
    pub open spec fn after(self, request: HandleRequest) -> File<Seq<char>> {
        match request {
            HandleRequest::Advance { by } => File { offset: self.offset.wrapping_add(by), ..self },
            HandleRequest::Seek { to } => File { offset: to, ..self },
            HandleRequest::NoteSize { size } => self.with_attr(
                FileAttr { size, ..self.info.attr },
            ),
            HandleRequest::NoteTime { time } => self.with_attr(
                FileAttr { mtime: time, ctime: time, ..self.info.attr },
            ),
            HandleRequest::NoteAttr { attr } => File {
                info: FileStat { name: self.info.name, inode: self.inode, attr },
                ..self
            },
        }
    }
}

impl File {
    /// Get the file path.
    pub fn path(&self) -> (r: &str)
        ensures
            r@ == self@.path,
    {
        self.path.as_str()
    }

    /// Get the file inode.
    pub fn inode(&self) -> (r: i64)
        ensures
            r == self@.inode,
    {
        self.inode
    }

    /// Get file metadata.
    pub fn info(&self) -> (r: &FileStat)
        ensures
            r@ == self@.info,
    {
        &self.info
    }

    /// Get current offset.
    pub fn offset(&self) -> (r: u64)
        ensures
            r == self@.offset,
    {
        self.offset
    }

    /// Seek to a position.
    pub fn seek(&mut self, offset: u64)
        ensures
            final(self)@ == (File { offset, ..old(self)@ }),
    {
        self.offset = offset;
    }

    /// Fulfils a request of an operation that was started on the handle.
    pub fn apply(&mut self, request: HandleRequest)
        ensures
            final(self)@ == old(self)@.after(request),
    {
        match request {
            HandleRequest::Advance { by } => {
                self.offset = self.offset.wrapping_add(by);
            },
            HandleRequest::Seek { to } => {
                self.offset = to;
            },
            HandleRequest::NoteSize { size } => {
                self.info.attr.size = size;
            },
            HandleRequest::NoteTime { time } => {
                self.info.attr.mtime = time;
                self.info.attr.ctime = time;
            },
            HandleRequest::NoteAttr { attr } => {
                self.info = FileStat::new(self.info.name.clone(), self.inode, attr);
            },
        }
    }

    /// Carries an operation that was started on the handle on, until it asks one of the services
    /// or is done.
    pub fn advance<S, M, O: Operation>(
        &mut self,
        fs: &mut FileSystem<S, M>,
        step: Step<O, O::Output>,
    ) -> (s: Step<O, O::Output>)
        ensures
            fs::settle(old(fs)@, Some(old(self)@), step.script()) == (
                final(fs)@,
                Some(final(self)@),
                s.script(),
            ),
            final(fs).same_setup(*old(fs)),
            old(fs)@.channels.wf() ==> final(fs)@.channels.wf(),
    {
        let mut cur = step;
        loop
            invariant
                fs::settle(fs@, Some(self@), cur.script()) == fs::settle(
                    old(fs)@,
                    Some(old(self)@),
                    step.script(),
                ),
                fs.same_setup(*old(fs)),
                old(fs)@.channels.wf() ==> fs@.channels.wf(),
            decreases cur.script(),
        {
            match cur {
                Step::Done(r) => {
                    return Step::Done(r);
                },
                Step::Pending(op) => match op.request() {
                    Request::Registry(q) => {
                        proof {
                            op.asks();
                        }
                        let reply = fs.answer(q);
                        cur = op.resume(reply);
                    },
                    Request::Handle(q) => {
                        proof {
                            op.asks();
                        }
                        self.apply(q);
                        cur = op.resume(Reply::Ack);
                    },
                    _ => {
                        return Step::Pending(op);
                    },
                },
            }
        }
    }

    /// Read data at the current offset and advance offset. At most `len` bytes are read.
    pub fn read(&self, len: usize) -> (s: Step<Logged<ReadFile>, Vec<u8>>)
        ensures
            s.script() == logged_read(self@, len),
    {
        let inner = if self.flags.read {
            ReadFile::start(self.path.as_str(), self.inode, self.offset, len, true)
        } else {
            Step::Done(Err(not_readable_error()))
        };
        Logged::start(self.log, "read", self.path.as_str(), inner)
    }

    /// Read data at a specific offset (pread). At most `len` bytes are read.
    pub fn read_at(&self, len: usize, offset: u64) -> (s: Step<Logged<ReadFile>, Vec<u8>>)
        ensures
            s.script() == logged_read_at(self@, len, offset),
    {
        let inner = if self.flags.read {
            ReadFile::start(self.path.as_str(), self.inode, offset, len, false)
        } else {
            Step::Done(Err(not_readable_error()))
        };
        Logged::start(self.log, "read_at", self.path.as_str(), inner)
    }

    /// Write data at the current offset and advance offset.
    pub fn write(&self, data: &[u8]) -> (s: Step<Logged<WriteFile>, usize>)
        ensures
            s.script() == logged_write(self@, data@),
    {
        let inner = if !self.flags.write {
            Step::Done(Err(not_writable_error()))
        } else if self.flags.append {
            // For append mode, always write at end
            WriteFile::start_append(self.path.as_str(), self.inode, slice_to_vec(data))
        } else {
            WriteFile::start(self.path.as_str(), self.inode, self.offset, slice_to_vec(data))
        };
        Logged::start(self.log, "write", self.path.as_str(), inner)
    }

    /// Write data at a specific offset (pwrite).
    pub fn write_at(&self, data: &[u8], offset: u64) -> (s: Step<Logged<WriteInode>, usize>)
        ensures
            s.script() == logged_write_at(self@, data@, offset),
    {
        let inner = if !self.flags.write {
            Step::Done(Err(not_writable_error()))
        } else {
            let write = Write::new(self.path.as_str(), offset, slice_to_vec(data));
            WriteInode::start(write, self.inode)
        };
        Logged::start(self.log, "write_at", self.path.as_str(), inner)
    }

    /// Truncate the file to the given size.
    pub fn truncate(&self, size: u64) -> (s: Step<Logged<TruncateFile>, ()>)
        ensures
            s.script() == logged_truncate(self@, size),
    {
        let inner = if !self.flags.write {
            Step::Done(Err(not_writable_error()))
        } else {
            TruncateFile::start(self.path.as_str(), self.inode, size)
        };
        Logged::start(self.log, "truncate", self.path.as_str(), inner)
    }

    /// Sync file data to storage.
    pub fn sync(&self) -> (s: Step<Logged<SyncFile>, ()>)
        ensures
            s.script() == logged_sync(self@),
    {
        let inner = if !self.flags.write {
            Step::Done(Ok(()))
        } else {
            SyncFile::start(self.path.as_str(), self.inode)
        };
        Logged::start(self.log, "sync", self.path.as_str(), inner)
    }

    /// Get current file size.
    pub fn size(&self) -> (s: Step<FileSize, u64>)
        ensures
            s.script() == handle::file_size(self@.path, self@.inode),
    {
        FileSize::start(self.path.as_str(), self.inode)
    }

    /// Refresh file metadata.
    pub fn refresh_info(&self) -> (s: Step<RefreshFile, ()>)
        ensures
            s.script() == handle::refresh_file(self@.path, self@.inode),
    {
        RefreshFile::start(self.path.as_str(), self.inode)
    }
}

/// `read` on a handle, recorded in the access log.
pub open spec fn logged_read(file: File<Seq<char>>, len: usize) -> Script<Seq<u8>> {
    logged::logged(
        file.log,
        "read"@,
        file.path,
        if file.flags.read {
            handle::read_file(file.path, file.inode, file.offset, len, true)
        } else {
            handle::not_readable()
        },
    )
}

/// `read_at` on a handle, recorded in the access log.
pub open spec fn logged_read_at(file: File<Seq<char>>, len: usize, offset: u64) -> Script<Seq<u8>> {
    logged::logged(
        file.log,
        "read_at"@,
        file.path,
        if file.flags.read {
            handle::read_file(file.path, file.inode, offset, len, false)
        } else {
            handle::not_readable()
        },
    )
}

/// `write` on a handle, recorded in the access log.
pub open spec fn logged_write(file: File<Seq<char>>, data: Seq<u8>) -> Script<usize> {
    logged::logged(
        file.log,
        "write"@,
        file.path,
        if !file.flags.write {
            handle::not_writable()
        } else if file.flags.append {
            handle::append_file(file.path, file.inode, data)
        } else {
            handle::write_file(io::Write::of(file.path, file.offset, data), file.inode, None)
        },
    )
}

/// `write_at` on a handle, recorded in the access log.
pub open spec fn logged_write_at(file: File<Seq<char>>, data: Seq<u8>, offset: u64) -> Script<
    usize,
> {
    logged::logged(
        file.log,
        "write_at"@,
        file.path,
        if !file.flags.write {
            handle::not_writable()
        } else {
            io::write_inode(file.path, file.inode, offset, data)
        },
    )
}

/// `truncate` on a handle, recorded in the access log.
pub open spec fn logged_truncate(file: File<Seq<char>>, size: u64) -> Script<()> {
    logged::logged(
        file.log,
        "truncate"@,
        file.path,
        if !file.flags.write {
            handle::not_writable()
        } else {
            handle::truncate_file(file.path, file.inode, size)
        },
    )
}

/// `sync` on a handle, recorded in the access log.
pub open spec fn logged_sync(file: File<Seq<char>>) -> Script<()> {
    logged::logged(
        file.log,
        "sync"@,
        file.path,
        if !file.flags.write {
            Script::Done(Ok(()))
        } else {
            handle::sync_file(file.path, file.inode)
        },
    )
}

} // verus!
