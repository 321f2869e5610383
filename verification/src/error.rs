//! Errors: what the metadata service reports, and what an operation ends with.
use vstd::prelude::*;

verus! {

/// The category of a failed operation. It has the same categories as `std::io::ErrorKind`.
#[derive(Debug, Clone, Copy, PartialEq, Eq, Structural)]
pub enum ErrorKind {
    NotFound,
    PermissionDenied,
    ConnectionRefused,
    ConnectionReset,
    HostUnreachable,
    NetworkUnreachable,
    ConnectionAborted,
    NotConnected,
    AddrInUse,
    AddrNotAvailable,
    NetworkDown,
    BrokenPipe,
    AlreadyExists,
    WouldBlock,
    NotADirectory,
    IsADirectory,
    DirectoryNotEmpty,
    ReadOnlyFilesystem,
    StaleNetworkFileHandle,
    InvalidInput,
    InvalidData,
    TimedOut,
    WriteZero,
    StorageFull,
    NotSeekable,
    QuotaExceeded,
    FileTooLarge,
    ResourceBusy,
    ExecutableFileBusy,
    Deadlock,
    CrossesDevices,
    TooManyLinks,
    InvalidFilename,
    ArgumentListTooLong,
    Interrupted,
    Unsupported,
    UnexpectedEof,
    OutOfMemory,
    Other,
}

/// What went wrong in the metadata service.
#[derive(Debug, Clone, Copy, PartialEq, Eq, Structural)]
pub enum MetaErrorKind {
    NotFound,
    ParentNotFound,
    AlreadyExists,
    NotDirectory,
    DirectoryNotEmpty,
    InvalidPath,
    TooManySymlinks,
    NotSupported,
    NotImplemented,
    InvalidHandle,
    LockConflict,
    LockNotFound,
    /// An input/output error of the given category.
    Io(ErrorKind),
    /// Any other failure, such as one of the database behind the service.
    Internal,
}

/// A failure reported by the metadata service: its cause and the text that describes it.
#[derive(Debug)]
pub struct MetaError<S = String> {
    pub kind: MetaErrorKind,
    pub text: S,
}

/// A failed operation: the category of the failure and the message shown for it.
#[derive(Debug)]
pub struct FsError<S = String> {
    pub kind: ErrorKind,
    pub message: S,
}

impl View for MetaError {
    type V = MetaError<Seq<char>>;

    open spec fn view(&self) -> MetaError<Seq<char>> {
        MetaError { kind: self.kind, text: self.text@ }
    }
}

impl View for FsError {
    type V = FsError<Seq<char>>;

    open spec fn view(&self) -> FsError<Seq<char>> {
        FsError { kind: self.kind, message: self.message@ }
    }
}

impl MetaErrorKind {
    /// The category under which a failure of the metadata service is reported.
    pub open spec fn category(self) -> ErrorKind {
        match self {
            MetaErrorKind::NotFound | MetaErrorKind::ParentNotFound => ErrorKind::NotFound,
            MetaErrorKind::LockNotFound => ErrorKind::NotFound,
            MetaErrorKind::AlreadyExists => ErrorKind::AlreadyExists,
            MetaErrorKind::NotDirectory => ErrorKind::NotADirectory,
            MetaErrorKind::DirectoryNotEmpty => ErrorKind::DirectoryNotEmpty,
            MetaErrorKind::InvalidPath | MetaErrorKind::TooManySymlinks => ErrorKind::InvalidInput,
            MetaErrorKind::InvalidHandle => ErrorKind::InvalidInput,
            MetaErrorKind::NotSupported | MetaErrorKind::NotImplemented => ErrorKind::Unsupported,
            MetaErrorKind::LockConflict => ErrorKind::WouldBlock,
            MetaErrorKind::Io(kind) => kind,
            MetaErrorKind::Internal => ErrorKind::Other,
        }
    }
}

impl FsError<Seq<char>> {
    /// The error for a failure of the metadata service met at `path`.
    pub open spec fn from_meta(path: Seq<char>, err: MetaError<Seq<char>>) -> FsError<Seq<char>> {
        FsError { kind: err.kind.category(), message: path + ": "@ + err.text }
    }

    /// The error for a reply that does not answer the request it was given for.
    pub open spec fn unexpected_reply() -> FsError<Seq<char>> {
        FsError { kind: ErrorKind::Other, message: "unexpected reply"@ }
    }
}

/// A failure of the metadata service is told with the path at which it was met, before its text,
/// and under a category that depends on its cause alone: a failure of input or output keeps its
/// own.
pub proof fn failures_are_told(path: Seq<char>, err: MetaError<Seq<char>>)
    ensures
        ({
            let e = FsError::from_meta(path, err);
            let k = err.kind;
            let io = k is Io;
            &&& e.message.len() == path.len() + 2 + err.text.len()
            &&& e.message.take(path.len() as int) == path
            &&& e.message[path.len() as int] == ':'
            &&& e.message[path.len() as int + 1] == ' '
            &&& e.message.skip(path.len() as int + 2) == err.text
            &&& io ==> e.kind == k->Io_0
            &&& !io ==> (e.kind == ErrorKind::NotFound <==> (k is NotFound || k is ParentNotFound
                || k is LockNotFound))
            &&& !io ==> (e.kind == ErrorKind::AlreadyExists <==> k is AlreadyExists)
            &&& !io ==> (e.kind == ErrorKind::NotADirectory <==> k is NotDirectory)
            &&& !io ==> (e.kind == ErrorKind::DirectoryNotEmpty <==> k is DirectoryNotEmpty)
            &&& !io ==> (e.kind == ErrorKind::InvalidInput <==> (k is InvalidPath
                || k is TooManySymlinks || k is InvalidHandle))
            &&& !io ==> (e.kind == ErrorKind::Unsupported <==> (k is NotSupported
                || k is NotImplemented))
            &&& !io ==> (e.kind == ErrorKind::WouldBlock <==> k is LockConflict)
            &&& !io ==> (e.kind == ErrorKind::Other <==> k is Internal)
        }),
{
    let e = FsError::from_meta(path, err);
    reveal_strlit(": ");
    assert(e.message.take(path.len() as int) =~= path);
    assert(e.message.skip(path.len() as int + 2) =~= err.text);
    assert((path + ": "@)[path.len() as int] == ':');
    assert((path + ": "@)[path.len() as int + 1] == ' ');
}

impl FsError {
    /// An error of the given category with the given message.
    pub fn new(kind: ErrorKind, message: &str) -> (e: FsError)
        ensures
            e@ == (FsError { kind, message: message@ }),
    {
        FsError { kind, message: String::from_str(message) }
    }

    /// The error for a reply that does not answer the request it was given for.
    pub fn unexpected() -> (e: FsError)
        ensures
            e@ == FsError::unexpected_reply(),
    {
        FsError::new(ErrorKind::Other, "unexpected reply")
    }
}

/// Turns a failure of the metadata service, met at `path`, into the error of the operation.
pub fn meta_error_to_io(path: &str, err: MetaError) -> (e: FsError)
    ensures
        e@ == FsError::from_meta(path@, err@),
{
    let kind = match err.kind {
        MetaErrorKind::NotFound | MetaErrorKind::ParentNotFound => ErrorKind::NotFound,
        MetaErrorKind::AlreadyExists => ErrorKind::AlreadyExists,
        MetaErrorKind::NotDirectory => ErrorKind::NotADirectory,
        MetaErrorKind::DirectoryNotEmpty => ErrorKind::DirectoryNotEmpty,
        MetaErrorKind::InvalidPath => ErrorKind::InvalidInput,
        MetaErrorKind::TooManySymlinks => ErrorKind::InvalidInput,
        MetaErrorKind::NotSupported | MetaErrorKind::NotImplemented => ErrorKind::Unsupported,
        MetaErrorKind::InvalidHandle => ErrorKind::InvalidInput,
        MetaErrorKind::LockConflict => ErrorKind::WouldBlock,
        MetaErrorKind::LockNotFound => ErrorKind::NotFound,
        MetaErrorKind::Io(kind) => kind,
        MetaErrorKind::Internal => ErrorKind::Other,
    };
    let message = String::from_str(path).concat(": ").concat(err.text.as_str());
    FsError { kind, message }
}

} // verus!
