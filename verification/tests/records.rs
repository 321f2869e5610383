//! Statistics, file metadata, flags, errors and the access log.
use slayerfs::access_log::{
    decimal_text, wrap_micros, AccessLogEntry, CallerIdentity, FileSystemConfig, LogContext,
};
use slayerfs::error::meta_error_to_io;
use slayerfs::stat::{FileStat, OpenFlags, StatFs};
use slayerfs::{
    ErrorKind, FileAttr, FileType, MetaError, MetaErrorKind, SetAttrFlags, SetAttrRequest,
    StatFsSnapshot,
};
use std::time::{Duration, UNIX_EPOCH};

fn attr() -> FileAttr {
    FileAttr {
        ino: 12,
        size: 34,
        kind: FileType::File,
        mode: 0o640,
        uid: 5,
        gid: 6,
        atime: 7_000_000_001,
        mtime: 8_000_000_002,
        ctime: 9,
        nlink: 2,
    }
}

#[test]
fn statistics_saturate() {
    let s = StatFs::from(StatFsSnapshot {
        total_space: 10,
        available_space: 30,
        used_inodes: u64::MAX,
        available_inodes: 1,
    });
    assert_eq!(s.used_space, 0);
    assert_eq!(s.total_inodes, u64::MAX);
    let snapshot = s.to_snapshot();
    assert_eq!((snapshot.total_space, snapshot.available_space), (10, 30));
    assert_eq!((snapshot.used_inodes, snapshot.available_inodes), (u64::MAX, 1));
}

#[test]
fn file_metadata_is_read_back() {
    let info = FileStat::new("f".to_string(), 11, attr());
    assert_eq!((info.name(), info.inode(), info.size()), ("f", 11, 34));
    assert_eq!((info.mode(), info.uid(), info.gid(), info.nlink()), (0o640, 5, 6, 2));
    assert_eq!(info.file_type(), FileType::File);
    assert_eq!((info.is_dir(), info.is_file(), info.is_symlink()), (false, true, false));
    assert_eq!(*info.attr(), attr());
    assert_eq!(info.mod_time(), UNIX_EPOCH + Duration::from_nanos(8_000_000_002));
    assert_eq!(info.access_time(), UNIX_EPOCH + Duration::from_nanos(7_000_000_001));
    let before = FileStat::new(String::new(), 1, FileAttr { mtime: -1, ..attr() });
    assert_eq!(before.mod_time(), UNIX_EPOCH + Duration::from_nanos(u64::MAX));
    assert_eq!(info.clone().attr(), info.attr());
}

#[test]
fn open_flags_are_built() {
    let none = OpenFlags::default();
    assert_eq!(OpenFlags::read_only(), OpenFlags { read: true, ..none });
    assert_eq!(OpenFlags::write_only(), OpenFlags { write: true, ..none });
    assert_eq!(OpenFlags::read_write(), OpenFlags { read: true, write: true, ..none });
    let create = OpenFlags { write: true, create: true, ..none };
    assert_eq!(OpenFlags::create_write(), create);
    assert_eq!(OpenFlags::create_new(), OpenFlags { exclusive: true, ..create });
    let both = OpenFlags::create_write().with_append().with_truncate();
    assert_eq!(both, OpenFlags { append: true, truncate: true, ..create });
}

#[test]
fn attribute_changes_start_empty() {
    let none = SetAttrRequest::default();
    assert_eq!((none.mode, none.uid, none.gid, none.size), (None, None, None, None));
    assert_eq!((none.atime, none.mtime, none.ctime), (None, None, None));
    assert_eq!(SetAttrFlags::empty().bits, 0);
}

#[test]
fn metadata_errors_keep_their_category() {
    let cases = [
        (MetaErrorKind::NotFound, ErrorKind::NotFound),
        (MetaErrorKind::ParentNotFound, ErrorKind::NotFound),
        (MetaErrorKind::AlreadyExists, ErrorKind::AlreadyExists),
        (MetaErrorKind::NotDirectory, ErrorKind::NotADirectory),
        (MetaErrorKind::DirectoryNotEmpty, ErrorKind::DirectoryNotEmpty),
        (MetaErrorKind::InvalidPath, ErrorKind::InvalidInput),
        (MetaErrorKind::TooManySymlinks, ErrorKind::InvalidInput),
        (MetaErrorKind::NotSupported, ErrorKind::Unsupported),
        (MetaErrorKind::NotImplemented, ErrorKind::Unsupported),
        (MetaErrorKind::InvalidHandle, ErrorKind::InvalidInput),
        (MetaErrorKind::LockConflict, ErrorKind::WouldBlock),
        (MetaErrorKind::LockNotFound, ErrorKind::NotFound),
        (MetaErrorKind::Io(ErrorKind::StorageFull), ErrorKind::StorageFull),
        (MetaErrorKind::Internal, ErrorKind::Other),
    ];
    for (kind, category) in cases {
        let e = meta_error_to_io("/a/b", MetaError { kind, text: "why".to_string() });
        assert_eq!(e.kind, category);
        assert_eq!(e.message, "/a/b: why");
    }
}

#[test]
fn configuration_decides_about_the_log() {
    let config = FileSystemConfig::default();
    assert!(!config.access_log);
    assert_eq!(config.access_log_buffer_size, 1024);
    assert_eq!(config.access_log_capacity(), None);
    let on = FileSystemConfig { access_log: true, ..config };
    assert_eq!(on.access_log_capacity(), Some(1024));
    let process = CallerIdentity { uid: 1000, gid: 100 };
    assert_eq!(config.identity(process), process);
    let root = config.with_caller(CallerIdentity::root());
    assert_eq!(root.identity(process), CallerIdentity { uid: 0, gid: 0 });
}

#[test]
fn log_contexts_measure_time() {
    let context = LogContext::new(1, 2, 3);
    assert_eq!((context.uid, context.gid, context.pid), (1, 2, 3));
    let first = context.elapsed_us();
    let start = context.start;
    while start.elapsed() < Duration::from_millis(2) {}
    assert!(context.elapsed_us() >= first + 1000);
    assert!(LogContext::new(1, 2, 3).start >= start);
    assert_eq!(wrap_micros(5), 5);
    assert!(wrap_micros(5) <= wrap_micros(u64::MAX as u128));
    assert_eq!(wrap_micros(u64::MAX as u128), u64::MAX);
    assert_eq!(wrap_micros((1u128 << 64) + 7), 7);
}

#[test]
fn log_entries_show_as_lines() {
    let context = LogContext::new(1000, 100, 42);
    let at = UNIX_EPOCH + Duration::from_micros(1_500_000);
    let entry = AccessLogEntry::at(at, 2500, &context, "open", "/f", "ok");
    assert_eq!((entry.timestamp, entry.duration_us), (at, 2500));
    assert_eq!(
        entry.clone().render("1.500000", "0.002500"),
        "1.500000 [uid:1000,gid:100,pid:42] open (/f) -> ok <0.002500s>"
    );
    let now = AccessLogEntry::now(&context, "stat", "/", "ok");
    assert!(now.timestamp > UNIX_EPOCH + Duration::from_secs(1_000_000_000));
    assert!(now.duration_us <= context.elapsed_us());
}

#[test]
fn decimals_are_written_out() {
    for n in [0u32, 7, 10, 99, 100, 1_000_000_007, u32::MAX] {
        assert_eq!(decimal_text(n), format!("{n}"));
    }
}
