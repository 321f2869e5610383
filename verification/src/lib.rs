//! A path-based file system core that performs no input or output of its own.
//!
//! Every operation is a dialogue: it asks the metadata service, the data service or the local
//! inode registry for something, is resumed with the reply, and ends with a result. What an
//! operation asks and how it ends is fixed by its script (see [`script`]).
pub mod access_log;
pub mod chunk;
pub mod client;
pub mod clock;
pub mod dash;
pub mod error;
pub mod file;
pub mod fs;
pub mod laws;
pub mod meta;
pub mod ops;
pub mod path;
pub mod registry;
pub mod script;
pub mod stat;

pub use error::{ErrorKind, FsError, MetaError, MetaErrorKind};
pub use meta::{
    DirEntry, FileAttr, FileLockInfo, FileLockQuery, FileLockRange, FileLockType, FileType,
    Listing, SetAttrFlags, SetAttrRequest, StatFsSnapshot,
};
