//! The file system and its handles, run against services that are kept in memory.
use slayerfs::access_log::{AccessLogEntry, CallerIdentity, FileSystemConfig, LogContext};
use slayerfs::chunk::ChunkLayout;
use slayerfs::client::{message_only, Client};
use slayerfs::file::File;
use slayerfs::fs::FileSystem;
use slayerfs::ops::handle::fill;
use slayerfs::script::{DataRequest, LogRequest, MetaRequest, Operation, Reply, Request, Step};
use slayerfs::stat::{FileStat, OpenFlags};
use slayerfs::{
    DirEntry, ErrorKind, FileAttr, FileLockInfo, FileLockQuery, FileLockRange, FileLockType,
    FileType, FsError, Listing, MetaError, MetaErrorKind, SetAttrFlags, SetAttrRequest,
    StatFsSnapshot,
};
use std::collections::BTreeMap;
use std::sync::Arc;

const ROOT: i64 = 1;

fn layout() -> ChunkLayout {
    ChunkLayout { chunk_size: 64 * 1024 * 1024, block_size: 4 * 1024 * 1024 }
}

struct Node {
    attr: FileAttr,
    target: String,
    children: Vec<(String, i64)>,
}

/// A metadata service, a data service and an access log.
struct Memory {
    nodes: BTreeMap<i64, Node>,
    data: BTreeMap<u64, Vec<u8>>,
    next: i64,
    asked: Vec<String>,
    log: Vec<AccessLogEntry>,
    lock: FileLockInfo,
    now: Result<u128, String>,
    data_fails: bool,
    no_hard_links: bool,
}

fn attr(ino: i64, kind: FileType) -> FileAttr {
    FileAttr {
        ino,
        size: 0,
        kind,
        mode: 0o644,
        uid: 0,
        gid: 0,
        atime: 0,
        mtime: 0,
        ctime: 0,
        nlink: 1,
    }
}

fn missing<T>(text: &str) -> Result<T, MetaError> {
    Err(MetaError { kind: MetaErrorKind::NotFound, text: text.to_string() })
}

impl Memory {
    fn new() -> Memory {
        let mut nodes = BTreeMap::new();
        nodes.insert(
            ROOT,
            Node { attr: attr(ROOT, FileType::Dir), target: String::new(), children: Vec::new() },
        );
        Memory {
            nodes,
            data: BTreeMap::new(),
            next: ROOT + 1,
            asked: Vec::new(),
            log: Vec::new(),
            lock: FileLockInfo {
                lock_type: FileLockType::UnLock,
                range: FileLockRange { start: 0, end: 0 },
                pid: 0,
            },
            now: Ok(1_700_000_000_000_000_000),
            data_fails: false,
            no_hard_links: false,
        }
    }

    fn child(&self, parent: i64, name: &str) -> Option<i64> {
        let node = self.nodes.get(&parent)?;
        node.children.iter().find(|(n, _)| n == name).map(|(_, ino)| *ino)
    }

    fn walk(&self, path: &str, follow: bool) -> Option<i64> {
        let parts: Vec<&str> = path.split('/').filter(|p| !p.is_empty()).collect();
        let mut cur = ROOT;
        for (i, part) in parts.iter().enumerate() {
            cur = self.child(cur, part)?;
            if let Some(node) = self.nodes.get(&cur) {
                if node.attr.kind == FileType::Symlink && (follow || i + 1 < parts.len()) {
                    cur = self.walk(&node.target, true)?;
                }
            }
        }
        Some(cur)
    }

    fn add(&mut self, parent: i64, name: &str, kind: FileType, target: &str) -> i64 {
        let ino = self.next;
        self.next += 1;
        self.nodes.insert(
            ino,
            Node { attr: attr(ino, kind), target: target.to_string(), children: Vec::new() },
        );
        self.nodes.get_mut(&parent).unwrap().children.push((name.to_string(), ino));
        ino
    }

    fn detach(&mut self, parent: i64, name: &str) -> i64 {
        let ino = self.child(parent, name).unwrap();
        self.nodes.get_mut(&parent).unwrap().children.retain(|(n, _)| n != name);
        ino
    }

    fn meta(&mut self, q: MetaRequest) -> Reply {
        match q {
            MetaRequest::StatFs => Reply::Space(Ok(StatFsSnapshot {
                total_space: 1000,
                available_space: 400,
                used_inodes: 7,
                available_inodes: 93,
            })),
            MetaRequest::ResolvePath { path } => Reply::Inode(match self.walk(&path, false) {
                Some(ino) => Ok(ino),
                None => missing("no such file or directory"),
            }),
            MetaRequest::ResolvePathFollow { path } => {
                Reply::Inode(match self.walk(&path, true) {
                    Some(ino) => Ok(ino),
                    None => missing("no such file or directory"),
                })
            }
            MetaRequest::LookupPath { path } => Reply::Entry(Ok(self
                .walk(&path, false)
                .map(|ino| (ino, self.nodes[&ino].attr.kind)))),
            MetaRequest::Lookup { parent, name } => Reply::Child(Ok(self.child(parent, &name))),
            MetaRequest::Stat { ino } => Reply::Attr(Ok(self.nodes.get(&ino).map(|n| n.attr))),
            MetaRequest::Mkdir { parent, name } => {
                Reply::Inode(Ok(self.add(parent, &name, FileType::Dir, "")))
            }
            MetaRequest::CreateFile { parent, name } => {
                Reply::Inode(Ok(self.add(parent, &name, FileType::File, "")))
            }
            MetaRequest::Unlink { parent, name } => {
                let ino = self.detach(parent, &name);
                self.nodes.get_mut(&ino).unwrap().attr.nlink -= 1;
                Reply::Unit(Ok(()))
            }
            MetaRequest::Rmdir { parent, name } => {
                let ino = self.detach(parent, &name);
                self.nodes.remove(&ino);
                Reply::Unit(Ok(()))
            }
            MetaRequest::Rename { old_parent, old_name, new_parent, new_name } => {
                let ino = self.detach(old_parent, &old_name);
                self.nodes.get_mut(&new_parent).unwrap().children.push((new_name, ino));
                Reply::Unit(Ok(()))
            }
            MetaRequest::Link { ino, parent, name } => {
                if self.no_hard_links {
                    return Reply::Unit(Err(MetaError {
                        kind: MetaErrorKind::NotSupported,
                        text: "no hard links".to_string(),
                    }));
                }
                self.nodes.get_mut(&ino).unwrap().attr.nlink += 1;
                self.nodes.get_mut(&parent).unwrap().children.push((name, ino));
                Reply::Unit(Ok(()))
            }
            MetaRequest::Symlink { parent, name, target } => {
                self.add(parent, &name, FileType::Symlink, &target);
                Reply::Unit(Ok(()))
            }
            MetaRequest::ReadSymlink { ino } => Reply::Target(Ok(self.nodes[&ino].target.clone())),
            MetaRequest::SetFileSize { ino, size } => {
                self.nodes.get_mut(&ino).unwrap().attr.size = size;
                let data = self.data.entry(ino as u64).or_default();
                data.resize(size as usize, 0);
                Reply::Unit(Ok(()))
            }
            MetaRequest::SetAttr { ino, attrs, flags: _ } => {
                let a = &mut self.nodes.get_mut(&ino).unwrap().attr;
                a.mode = attrs.mode.unwrap_or(a.mode);
                a.size = attrs.size.unwrap_or(a.size);
                a.mtime = attrs.mtime.unwrap_or(a.mtime);
                a.ctime = attrs.ctime.unwrap_or(a.ctime);
                Reply::Changed(Ok(*a))
            }
            MetaRequest::Readdir { ino } => Reply::Entries(Ok(Listing {
                entries: self.nodes[&ino]
                    .children
                    .iter()
                    .map(|(name, ino)| DirEntry {
                        name: name.clone(),
                        ino: *ino,
                        kind: self.nodes[ino].attr.kind,
                    })
                    .collect(),
            })),
            MetaRequest::GetPlock { ino: _, query: _ } => Reply::Lock(Ok(self.lock)),
            MetaRequest::SetPlock { ino: _, owner: _, block, lock_type, range, pid } => {
                if !block && self.lock.lock_type == FileLockType::Write {
                    return Reply::Unit(Err(MetaError {
                        kind: MetaErrorKind::LockConflict,
                        text: "locked".to_string(),
                    }));
                }
                self.lock = FileLockInfo { lock_type, range, pid };
                Reply::Unit(Ok(()))
            }
        }
    }

    fn answer(&mut self, q: Request) -> Reply {
        self.asked.push(format!("{q:?}"));
        match q {
            Request::Meta(q) => self.meta(q),
            Request::Data(DataRequest::Read { reader, offset, len }) => {
                if self.data_fails {
                    return Reply::Data(Err("disk gone".to_string()));
                }
                let data = self.data.entry(reader).or_default();
                let start = std::cmp::min(offset as usize, data.len());
                let end = std::cmp::min(start + len, data.len());
                Reply::Data(Ok(data[start..end].to_vec()))
            }
            Request::Data(DataRequest::Write { writer, offset, data }) => {
                if self.data_fails {
                    return Reply::Written(Err("disk gone".to_string()));
                }
                let old = self.data.entry(writer).or_default();
                let end = offset as usize + data.len();
                if old.len() < end {
                    old.resize(end, 0);
                }
                old[offset as usize..end].copy_from_slice(&data);
                Reply::Written(Ok(data.len()))
            }
            Request::Log(LogRequest::Begin) => Reply::Context(LogContext::new(1000, 100, 42)),
            Request::Log(LogRequest::Record { context, op, path, outcome }) => {
                self.log.push(AccessLogEntry::now(&context, &op, &path, &outcome));
                Reply::Ack
            }
            Request::Now => Reply::Time(self.now.clone()),
            Request::Registry(_) | Request::Handle(_) => unreachable!(),
        }
    }
}

type Fs = FileSystem<(), ()>;

fn new_fs_with(config: FileSystemConfig) -> (Fs, Memory) {
    let fs = FileSystem::from_components(
        layout(),
        Arc::new(()),
        Arc::new(()),
        ROOT,
        64 * 1024,
        config,
    );
    (fs, Memory::new())
}

fn new_fs() -> (Fs, Memory) {
    new_fs_with(FileSystemConfig::default())
}

fn run<O: Operation>(
    fs: &mut Fs,
    mem: &mut Memory,
    step: Step<O, O::Output>,
) -> Result<O::Output, FsError> {
    let mut step = fs.advance(step);
    loop {
        match step {
            Step::Done(r) => return r,
            Step::Pending(op) => {
                let reply = mem.answer(op.request());
                assert!(op.admits(&reply));
                step = fs.advance(op.resume(reply));
            }
        }
    }
}

fn run_on<O: Operation>(
    file: &mut File,
    fs: &mut Fs,
    mem: &mut Memory,
    step: Step<O, O::Output>,
) -> Result<O::Output, FsError> {
    let mut step = file.advance(fs, step);
    loop {
        match step {
            Step::Done(r) => return r,
            Step::Pending(op) => {
                let reply = mem.answer(op.request());
                assert!(op.admits(&reply));
                step = file.advance(fs, op.resume(reply));
            }
        }
    }
}

fn mkdir_all(fs: &mut Fs, mem: &mut Memory, path: &str) {
    let step = fs.mkdir_all(path);
    run(fs, mem, step).unwrap();
}

fn mkdir(fs: &mut Fs, mem: &mut Memory, path: &str) {
    let step = fs.mkdir(path);
    run(fs, mem, step).unwrap();
}

fn create(fs: &mut Fs, mem: &mut Memory, path: &str) -> File {
    let step = fs.create(path);
    run(fs, mem, step).unwrap()
}

fn open(fs: &mut Fs, mem: &mut Memory, path: &str, flags: OpenFlags) -> File {
    let step = fs.open(path, flags);
    run(fs, mem, step).unwrap()
}

fn write(file: &mut File, fs: &mut Fs, mem: &mut Memory, data: &[u8]) -> usize {
    let step = file.write(data);
    run_on(file, fs, mem, step).unwrap()
}

fn write_at(file: &mut File, fs: &mut Fs, mem: &mut Memory, data: &[u8], offset: u64) -> usize {
    let step = file.write_at(data, offset);
    run_on(file, fs, mem, step).unwrap()
}

fn read(file: &mut File, fs: &mut Fs, mem: &mut Memory, buf: &mut [u8]) -> usize {
    let step = file.read(buf.len());
    let data = run_on(file, fs, mem, step).unwrap();
    fill(buf, &data)
}

fn read_at(file: &mut File, fs: &mut Fs, mem: &mut Memory, buf: &mut [u8], offset: u64) -> usize {
    let step = file.read_at(buf.len(), offset);
    let data = run_on(file, fs, mem, step).unwrap();
    fill(buf, &data)
}

fn stat(fs: &mut Fs, mem: &mut Memory, path: &str) -> Result<FileStat, FsError> {
    let step = fs.stat(path);
    run(fs, mem, step)
}

fn failed<T>(r: Result<T, FsError>, kind: ErrorKind, message: &str) {
    match r {
        Ok(_) => panic!("succeeded"),
        Err(e) => {
            assert_eq!(e.kind, kind);
            assert_eq!(e.message, message);
        }
    }
}

#[test]
fn test_filesystem_basic() {
    let (mut fs, mut mem) = new_fs();

    // Create directory
    mkdir_all(&mut fs, &mut mem, "/test/subdir");

    // Create and write file
    let mut file = create(&mut fs, &mut mem, "/test/hello.txt");
    write(&mut file, &mut fs, &mut mem, b"Hello, World!");

    // Read file
    let mut file = open(&mut fs, &mut mem, "/test/hello.txt", OpenFlags::read_only());
    let mut buf = vec![0u8; 20];
    let n = read(&mut file, &mut fs, &mut mem, &mut buf);
    assert_eq!(&buf[..n], b"Hello, World!");

    // Stat file
    let fi = stat(&mut fs, &mut mem, "/test/hello.txt").unwrap();
    assert!(fi.is_file());
    assert_eq!(fi.size(), 13);

    // List directory
    let step = fs.readdir("/test");
    let entries = run(&mut fs, &mut mem, step).unwrap().entries;
    assert!(entries.iter().any(|e| e.name == "hello.txt"));
    assert!(entries.iter().any(|e| e.name == "subdir"));
}

#[test]
fn test_file_read_write() {
    let (mut fs, mut mem) = new_fs();
    mkdir(&mut fs, &mut mem, "/data");

    // Create file with write access
    let mut file = open(&mut fs, &mut mem, "/data/test.bin", OpenFlags::create_write());

    // Write data
    let data: Vec<u8> = (0..1024).map(|i| (i % 256) as u8).collect();
    let n = write(&mut file, &mut fs, &mut mem, &data);
    assert_eq!(n, 1024);

    // Read it back
    let mut file = open(&mut fs, &mut mem, "/data/test.bin", OpenFlags::read_only());
    let mut buf = vec![0u8; 1024];
    let n = read(&mut file, &mut fs, &mut mem, &mut buf);
    assert_eq!(n, 1024);
    assert_eq!(buf, data);
}

#[test]
fn test_file_pread_pwrite() {
    let (mut fs, mut mem) = new_fs();
    mkdir(&mut fs, &mut mem, "/ptest");

    let flags = OpenFlags::create_write().with_truncate();
    let mut file = open(&mut fs, &mut mem, "/ptest/random.dat", flags);

    // Write at specific offsets
    write_at(&mut file, &mut fs, &mut mem, b"HELLO", 100);
    write_at(&mut file, &mut fs, &mut mem, b"WORLD", 200);

    // Read at specific offsets
    let mut file = open(&mut fs, &mut mem, "/ptest/random.dat", OpenFlags::read_only());

    let mut buf = vec![0u8; 5];
    let n = read_at(&mut file, &mut fs, &mut mem, &mut buf, 100);
    assert_eq!(n, 5);
    assert_eq!(&buf, b"HELLO");

    let n = read_at(&mut file, &mut fs, &mut mem, &mut buf, 200);
    assert_eq!(n, 5);
    assert_eq!(&buf, b"WORLD");
}

#[test]
fn test_lstat_stat_symlink() {
    let (mut fs, mut mem) = new_fs();
    mkdir(&mut fs, &mut mem, "/links");

    let mut file = create(&mut fs, &mut mem, "/links/target.txt");
    write(&mut file, &mut fs, &mut mem, b"data");

    let step = fs.symlink("/links/link.symlink", "/links/target.txt");
    run(&mut fs, &mut mem, step).unwrap();

    let step = fs.lstat("/links/link.symlink");
    let lstat = run(&mut fs, &mut mem, step).unwrap();
    assert!(lstat.is_symlink());

    let stat = stat(&mut fs, &mut mem, "/links/link.symlink").unwrap();
    assert!(stat.is_file());
}

#[test]
fn test_append_writes() {
    let (mut fs, mut mem) = new_fs();
    mkdir(&mut fs, &mut mem, "/append");

    let flags = OpenFlags::create_write().with_append();
    let mut file = open(&mut fs, &mut mem, "/append/log.txt", flags);
    write(&mut file, &mut fs, &mut mem, b"one");
    write(&mut file, &mut fs, &mut mem, b"two");

    let mut file = open(&mut fs, &mut mem, "/append/log.txt", OpenFlags::read_only());
    let mut buf = vec![0u8; 6];
    let n = read(&mut file, &mut fs, &mut mem, &mut buf);
    assert_eq!(&buf[..n], b"onetwo");
}

type Cli = Client<(), ()>;

fn new_client(config: FileSystemConfig) -> (Cli, Memory) {
    let (fs, mem) = new_fs_with(config);
    (Client::from_filesystem(fs), mem)
}

fn root_client() -> (Cli, Memory) {
    new_client(FileSystemConfig::default().with_caller(CallerIdentity::root()))
}

fn drive<O: Operation>(
    cli: &mut Cli,
    mem: &mut Memory,
    step: Step<O, O::Output>,
) -> Result<O::Output, FsError> {
    let mut step = cli.advance(step);
    loop {
        match step {
            Step::Done(r) => return r,
            Step::Pending(op) => {
                let reply = mem.answer(op.request());
                assert!(op.admits(&reply));
                step = cli.advance(op.resume(reply));
            }
        }
    }
}

fn cli_mkdir_p(cli: &mut Cli, mem: &mut Memory, path: &str) -> Result<(), String> {
    let step = cli.mkdir_p(path);
    message_only(drive(cli, mem, step))
}

fn cli_create(cli: &mut Cli, mem: &mut Memory, path: &str) -> Result<(), String> {
    let step = cli.create(path);
    message_only(drive(cli, mem, step))
}

fn cli_write_at(
    cli: &mut Cli,
    mem: &mut Memory,
    path: &str,
    offset: u64,
    data: &[u8],
) -> Result<usize, String> {
    let step = cli.write_at(path, offset, data);
    message_only(drive(cli, mem, step))
}

fn cli_read_at(
    cli: &mut Cli,
    mem: &mut Memory,
    path: &str,
    offset: u64,
    len: usize,
) -> Result<Vec<u8>, String> {
    let step = cli.read_at(path, offset, len);
    message_only(drive(cli, mem, step))
}

fn cli_stat(cli: &mut Cli, mem: &mut Memory, path: &str) -> Result<FileAttr, String> {
    let step = cli.stat(path);
    message_only(drive(cli, mem, step))
}

fn cli_unlink(cli: &mut Cli, mem: &mut Memory, path: &str) -> Result<(), String> {
    let step = cli.unlink(path);
    message_only(drive(cli, mem, step))
}

fn cli_rmdir(cli: &mut Cli, mem: &mut Memory, path: &str) -> Result<(), String> {
    let step = cli.rmdir(path);
    message_only(drive(cli, mem, step))
}

fn cli_rename(cli: &mut Cli, mem: &mut Memory, old: &str, new: &str) -> Result<(), FsError> {
    let step = cli.rename(old, new);
    drive(cli, mem, step)
}

#[test]
fn test_sdk_local_basic() {
    let layout = layout();
    let (mut cli, mut mem) = root_client();

    cli_mkdir_p(&mut cli, &mut mem, "/a/b").unwrap();
    cli_create(&mut cli, &mut mem, "/a/b/hello.txt").unwrap();

    let half = (layout.block_size / 2) as usize;
    let len = layout.block_size as usize + half;
    let mut data = vec![0u8; len];
    for (i, b) in data.iter_mut().enumerate().take(len) {
        *b = (i % 251) as u8;
    }
    cli_write_at(&mut cli, &mut mem, "/a/b/hello.txt", half as u64, &data).unwrap();

    let out = cli_read_at(&mut cli, &mut mem, "/a/b/hello.txt", half as u64, len).unwrap();
    assert_eq!(out, data);

    let step = cli.readdir("/a/b");
    let ent = message_only(drive(&mut cli, &mut mem, step)).unwrap();
    assert!(ent.entries.iter().any(|e| e.name == "hello.txt"));

    let st = cli_stat(&mut cli, &mut mem, "/a/b/hello.txt").unwrap();
    assert!(st.size >= len as u64);
}

#[test]
fn test_sdk_local_ops_extras() {
    let layout = layout();
    let (mut cli, mut mem) = root_client();

    cli_mkdir_p(&mut cli, &mut mem, "/x/y").unwrap();
    cli_create(&mut cli, &mut mem, "/x/y/a.txt").unwrap();
    cli_rename(&mut cli, &mut mem, "/x/y/a.txt", "/x/y/b.txt").unwrap();
    let step = cli.truncate("/x/y/b.txt", (layout.block_size * 2) as u64);
    message_only(drive(&mut cli, &mut mem, step)).unwrap();
    let st = cli_stat(&mut cli, &mut mem, "/x/y/b.txt").unwrap();
    assert!(st.size >= (layout.block_size * 2) as u64);
    cli_unlink(&mut cli, &mut mem, "/x/y/b.txt").unwrap();
    // Directory is empty, so removal is allowed
    cli_rmdir(&mut cli, &mut mem, "/x/y").unwrap();
}

fn links(no_hard_links: bool) {
    let (mut cli, mut mem) = root_client();
    mem.no_hard_links = no_hard_links;

    cli_mkdir_p(&mut cli, &mut mem, "/links").unwrap();
    cli_create(&mut cli, &mut mem, "/links/original.txt").unwrap();
    cli_write_at(&mut cli, &mut mem, "/links/original.txt", 0, b"payload").unwrap();

    let orig_attr = cli_stat(&mut cli, &mut mem, "/links/original.txt").unwrap();
    let step = cli.link("/links/original.txt", "/links/hard.txt");
    let link_res = drive(&mut cli, &mut mem, step);
    let mut hard_created = false;
    let mut hard_path = "/links/hard.txt".to_string();
    assert_eq!(link_res.is_err(), no_hard_links);
    if let Ok(hard_attr) = &link_res {
        assert_eq!(hard_attr.ino, orig_attr.ino);
        assert!(hard_attr.nlink >= 2);
        hard_created = true;

        cli_mkdir_p(&mut cli, &mut mem, "/links/sub").unwrap();
        cli_rename(&mut cli, &mut mem, "/links/hard.txt", "/links/sub/hard-renamed.txt").unwrap();
        hard_path = "/links/sub/hard-renamed.txt".to_string();

        let renamed_attr = cli_stat(&mut cli, &mut mem, &hard_path).unwrap();
        assert_eq!(renamed_attr.ino, orig_attr.ino);
        assert!(renamed_attr.nlink >= 2);

        let legacy = cli_stat(&mut cli, &mut mem, "/links/hard.txt");
        assert!(legacy.is_err());
    } else if let Err(err) = &link_res {
        assert!(
            matches!(err.kind, ErrorKind::Unsupported | ErrorKind::Other),
            "unexpected hard-link error: {err:?}"
        );
    }

    let step = cli.symlink("/links/original.symlink", "/links/original.txt");
    let sym_attr = message_only(drive(&mut cli, &mut mem, step)).unwrap();
    assert_eq!(sym_attr.kind, FileType::Symlink);
    let step = cli.readlink("/links/original.symlink");
    let target = message_only(drive(&mut cli, &mut mem, step)).unwrap();
    assert_eq!(target, "/links/original.txt");

    cli_unlink(&mut cli, &mut mem, "/links/original.symlink").unwrap();
    if hard_created {
        cli_unlink(&mut cli, &mut mem, "/links/original.txt").unwrap();
        let remaining_attr = cli_stat(&mut cli, &mut mem, &hard_path).unwrap();
        assert_eq!(remaining_attr.ino, orig_attr.ino);
        assert_eq!(remaining_attr.nlink, 1);

        let remaining_data = cli_read_at(&mut cli, &mut mem, &hard_path, 0, 7).unwrap();
        assert_eq!(remaining_data, b"payload".to_vec());

        cli_unlink(&mut cli, &mut mem, &hard_path).unwrap();
        cli_rmdir(&mut cli, &mut mem, "/links/sub").unwrap();
    } else {
        cli_unlink(&mut cli, &mut mem, "/links/original.txt").unwrap();
    }
    cli_rmdir(&mut cli, &mut mem, "/links").unwrap();
}

#[test]
fn test_sdk_local_links() {
    links(false);
}

#[test]
fn links_without_hard_links() {
    links(true);
}

#[test]
fn stat_reports_missing_paths() {
    let (mut fs, mut mem) = new_fs();
    let r = stat(&mut fs, &mut mem, "//no//such/");
    failed(r, ErrorKind::NotFound, "/no/such: no such file or directory");
}

#[test]
fn stat_reports_vanished_inodes() {
    let (mut fs, mut mem) = new_fs();
    create(&mut fs, &mut mem, "/f");
    let ino = mem.walk("/f", false).unwrap();
    mem.nodes.remove(&ino);
    let step = fs.lstat("/f");
    failed(run(&mut fs, &mut mem, step), ErrorKind::NotFound, "/f: not found");
}

#[test]
fn stat_names_the_last_segment() {
    let (mut fs, mut mem) = new_fs();
    mkdir_all(&mut fs, &mut mem, "/a/b");
    assert_eq!(stat(&mut fs, &mut mem, "/a//b/").unwrap().name(), "b");
    assert_eq!(stat(&mut fs, &mut mem, "").unwrap().name(), "");
}

#[test]
fn mkdir_needs_its_parent() {
    let (mut fs, mut mem) = new_fs();
    let step = fs.mkdir("/a/b");
    failed(run(&mut fs, &mut mem, step), ErrorKind::NotFound, "/a");
    create(&mut fs, &mut mem, "/f");
    let step = fs.mkdir("/f/b");
    failed(run(&mut fs, &mut mem, step), ErrorKind::NotADirectory, "/f");
    let step = fs.mkdir("/f");
    failed(run(&mut fs, &mut mem, step), ErrorKind::AlreadyExists, "/f");
}

#[test]
fn mkdir_keeps_directories() {
    let (mut fs, mut mem) = new_fs();
    mkdir(&mut fs, &mut mem, "/a");
    let ino = mem.walk("/a", false);
    mkdir(&mut fs, &mut mem, "/a/");
    assert_eq!(mem.walk("/a", false), ino);
    mem.asked.clear();
    mkdir(&mut fs, &mut mem, "/");
    mkdir_all(&mut fs, &mut mem, "//");
    assert!(mem.asked.is_empty());
}

#[test]
fn mkdir_all_stops_at_files() {
    let (mut fs, mut mem) = new_fs();
    mkdir(&mut fs, &mut mem, "/a");
    create(&mut fs, &mut mem, "/a/f");
    let step = fs.mkdir_all("/a/f/b/c");
    failed(run(&mut fs, &mut mem, step), ErrorKind::NotADirectory, "/a/f");
    let step = fs.mkdir_all("/a/f");
    failed(run(&mut fs, &mut mem, step), ErrorKind::NotADirectory, "/a/f");
}

#[test]
fn mkdir_all_makes_each_directory_once() {
    let (mut fs, mut mem) = new_fs();
    mkdir(&mut fs, &mut mem, "/a");
    let nodes = mem.nodes.len();
    mkdir_all(&mut fs, &mut mem, "a//b/c/");
    assert_eq!(mem.nodes.len(), nodes + 2);
    mkdir_all(&mut fs, &mut mem, "/a/b/c");
    assert_eq!(mem.nodes.len(), nodes + 2);
    let step = fs.path_exists("/a/b/c");
    assert!(run(&mut fs, &mut mem, step).unwrap());
    let step = fs.path_exists("/a/b/d");
    assert!(!run(&mut fs, &mut mem, step).unwrap());
}

#[test]
fn unlink_refuses_directories() {
    let (mut fs, mut mem) = new_fs();
    mkdir(&mut fs, &mut mem, "/a");
    let step = fs.unlink("/a");
    failed(run(&mut fs, &mut mem, step), ErrorKind::IsADirectory, "/a");
    let step = fs.unlink("/b");
    failed(run(&mut fs, &mut mem, step), ErrorKind::NotFound, "/b");
    assert!(mem.walk("/a", false).is_some());
}

#[test]
fn rmdir_refuses_what_is_not_empty() {
    let (mut fs, mut mem) = new_fs();
    mkdir(&mut fs, &mut mem, "/a");
    create(&mut fs, &mut mem, "/a/f");
    let step = fs.rmdir("/a");
    failed(run(&mut fs, &mut mem, step), ErrorKind::DirectoryNotEmpty, "/a");
    let step = fs.rmdir("/a/f");
    failed(run(&mut fs, &mut mem, step), ErrorKind::NotADirectory, "/a/f");
    let step = fs.rmdir("/");
    failed(run(&mut fs, &mut mem, step), ErrorKind::InvalidInput, "cannot remove root");
    let step = fs.rmdir("/b");
    failed(run(&mut fs, &mut mem, step), ErrorKind::NotFound, "/b");
}

#[test]
fn remove_takes_files_and_empty_directories() {
    let (mut fs, mut mem) = new_fs();
    mkdir(&mut fs, &mut mem, "/a");
    create(&mut fs, &mut mem, "/f");
    let step = fs.remove("/a");
    run(&mut fs, &mut mem, step).unwrap();
    let step = fs.remove("/f");
    run(&mut fs, &mut mem, step).unwrap();
    assert!(mem.nodes[&ROOT].children.is_empty());
    let step = fs.remove("/f");
    failed(
        run(&mut fs, &mut mem, step),
        ErrorKind::NotFound,
        "/f: no such file or directory",
    );
}

#[test]
fn rename_moves_into_new_directories() {
    let (mut fs, mut mem) = new_fs();
    create(&mut fs, &mut mem, "/f");
    let ino = mem.walk("/f", false);
    let step = fs.rename("/f", "/a/b/g");
    run(&mut fs, &mut mem, step).unwrap();
    assert_eq!(mem.walk("/f", false), None);
    assert_eq!(mem.walk("/a/b/g", false), ino);
}

#[test]
fn rename_replaces_like_by_like() {
    let (mut fs, mut mem) = new_fs();
    mkdir(&mut fs, &mut mem, "/d");
    mkdir(&mut fs, &mut mem, "/e");
    create(&mut fs, &mut mem, "/f");
    create(&mut fs, &mut mem, "/g");
    let step = fs.rename("/f", "/e");
    failed(run(&mut fs, &mut mem, step), ErrorKind::NotADirectory, "/e");
    let step = fs.rename("/d", "/f");
    failed(run(&mut fs, &mut mem, step), ErrorKind::NotADirectory, "/f");
    create(&mut fs, &mut mem, "/e/x");
    let step = fs.rename("/d", "/e");
    failed(run(&mut fs, &mut mem, step), ErrorKind::DirectoryNotEmpty, "/e");
    let step = fs.unlink("/e/x");
    run(&mut fs, &mut mem, step).unwrap();
    let d = mem.walk("/d", false);
    let step = fs.rename("/d", "/e");
    run(&mut fs, &mut mem, step).unwrap();
    assert_eq!(mem.walk("/e", false), d);
    let f = mem.walk("/f", false);
    let step = fs.rename("/f", "/g");
    run(&mut fs, &mut mem, step).unwrap();
    assert_eq!(mem.walk("/g", false), f);
    let step = fs.rename("/f", "/h");
    failed(run(&mut fs, &mut mem, step), ErrorKind::NotFound, "/f");
    let step = fs.rename("/no/f", "/h");
    failed(run(&mut fs, &mut mem, step), ErrorKind::NotFound, "/no");
}

#[test]
fn link_refuses_directories_and_taken_names() {
    let (mut fs, mut mem) = new_fs();
    mkdir(&mut fs, &mut mem, "/d");
    create(&mut fs, &mut mem, "/f");
    let cases = [
        ("/", "/x", ErrorKind::IsADirectory, "/"),
        ("/f", "//", ErrorKind::InvalidInput, "/"),
        ("/d", "/x", ErrorKind::IsADirectory, "/d"),
        ("/no", "/x", ErrorKind::NotFound, "/no"),
        ("/f", "/d", ErrorKind::AlreadyExists, "/d"),
        ("/f", "/f/x", ErrorKind::NotADirectory, "/f"),
        ("/f", "/no/x", ErrorKind::NotFound, "/no"),
    ];
    for (existing, link, kind, message) in cases {
        let step = fs.link(existing, link);
        failed(run(&mut fs, &mut mem, step), kind, message);
    }
    let step = fs.link("/f", "/d/g");
    run(&mut fs, &mut mem, step).unwrap();
    assert_eq!(mem.walk("/d/g", false), mem.walk("/f", false));
}

#[test]
fn symlink_refuses_taken_names() {
    let (mut fs, mut mem) = new_fs();
    create(&mut fs, &mut mem, "/f");
    let step = fs.symlink("/", "/f");
    failed(run(&mut fs, &mut mem, step), ErrorKind::InvalidInput, "/");
    let step = fs.symlink("/f", "/x");
    failed(run(&mut fs, &mut mem, step), ErrorKind::AlreadyExists, "/f");
    let step = fs.symlink("/f/l", "/x");
    failed(run(&mut fs, &mut mem, step), ErrorKind::NotADirectory, "/f");
    let step = fs.readlink("/f");
    failed(run(&mut fs, &mut mem, step), ErrorKind::InvalidInput, "/f");
    let step = fs.readlink("/no");
    failed(run(&mut fs, &mut mem, step), ErrorKind::NotFound, "/no");
}

#[test]
fn truncate_takes_files_only() {
    let (mut fs, mut mem) = new_fs();
    mkdir(&mut fs, &mut mem, "/d");
    let step = fs.symlink("/l", "/f");
    run(&mut fs, &mut mem, step).unwrap();
    let step = fs.truncate("/d", 1);
    failed(run(&mut fs, &mut mem, step), ErrorKind::IsADirectory, "/d");
    let step = fs.truncate("/l", 1);
    failed(run(&mut fs, &mut mem, step), ErrorKind::InvalidInput, "/l");
    let step = fs.truncate("/no", 1);
    failed(run(&mut fs, &mut mem, step), ErrorKind::NotFound, "/no");
}

#[test]
fn truncate_cuts_what_was_written() {
    let (mut fs, mut mem) = new_fs();
    let mut file = create(&mut fs, &mut mem, "/f");
    write(&mut file, &mut fs, &mut mem, b"Hello, World!");
    let step = fs.truncate("/f", 5);
    run(&mut fs, &mut mem, step).unwrap();
    let step = fs.read_at("/f", 0, 100);
    assert_eq!(run(&mut fs, &mut mem, step).unwrap(), b"Hello");
    // The registry knows the new size: a write behind it grows the file again.
    write_at(&mut file, &mut fs, &mut mem, b"!", 7);
    assert_eq!(stat(&mut fs, &mut mem, "/f").unwrap().size(), 8);
    let step = fs.read_at("/f", 0, 100);
    assert_eq!(run(&mut fs, &mut mem, step).unwrap(), b"Hello\0\0!");
}

#[test]
fn writes_never_shrink_a_file() {
    let (mut fs, mut mem) = new_fs();
    let mut file = create(&mut fs, &mut mem, "/f");
    write(&mut file, &mut fs, &mut mem, b"0123456789");
    mem.asked.clear();
    write_at(&mut file, &mut fs, &mut mem, b"ab", 2);
    assert!(!mem.asked.iter().any(|q| q.contains("SetFileSize")));
    assert_eq!(stat(&mut fs, &mut mem, "/f").unwrap().size(), 10);
    let step = fs.read_at("/f", 0, 10);
    assert_eq!(run(&mut fs, &mut mem, step).unwrap(), b"01ab456789");
}

#[test]
fn set_attr_tells_the_registry() {
    let (mut fs, mut mem) = new_fs();
    let mut file = create(&mut fs, &mut mem, "/f");
    write(&mut file, &mut fs, &mut mem, b"0123456789");
    let req = SetAttrRequest { mode: Some(0o600), size: Some(4), ..SetAttrRequest::default() };
    let step = fs.set_attr("/f", &req, SetAttrFlags::empty());
    let attr = run(&mut fs, &mut mem, step).unwrap();
    assert_eq!(attr.mode, 0o600);
    assert_eq!(attr.size, 4);
    mem.asked.clear();
    write_at(&mut file, &mut fs, &mut mem, b"x", 4);
    assert!(mem.asked.iter().any(|q| q.contains("SetFileSize")));
    assert_eq!(stat(&mut fs, &mut mem, "/f").unwrap().size(), 5);
}

#[test]
fn open_keeps_to_its_flags() {
    let (mut fs, mut mem) = new_fs();
    mkdir(&mut fs, &mut mem, "/d");
    let step = fs.open("/d", OpenFlags::read_only());
    let text = "cannot open directory as file";
    failed(run(&mut fs, &mut mem, step), ErrorKind::InvalidInput, text);
    let step = fs.open("/d", OpenFlags::create_write());
    failed(run(&mut fs, &mut mem, step), ErrorKind::InvalidInput, text);
    let step = fs.lopen("/d", OpenFlags::read_only());
    failed(run(&mut fs, &mut mem, step), ErrorKind::InvalidInput, text);
    let step = fs.create("/d");
    failed(run(&mut fs, &mut mem, step), ErrorKind::AlreadyExists, "file already exists");
    let step = fs.open("/no", OpenFlags::read_write());
    failed(
        run(&mut fs, &mut mem, step),
        ErrorKind::NotFound,
        "/no: no such file or directory",
    );
    let step = fs.open("/no/f", OpenFlags::create_write());
    failed(run(&mut fs, &mut mem, step), ErrorKind::NotFound, "/no");
}

#[test]
fn handles_are_numbered() {
    let (mut fs, mut mem) = new_fs();
    let first = create(&mut fs, &mut mem, "//f");
    let second = open(&mut fs, &mut mem, "/f", OpenFlags::read_only());
    assert_eq!((first.id, second.id), (1, 2));
    assert_eq!(first.path(), "/f");
    assert_eq!(first.inode(), second.inode());
    assert_eq!(second.offset(), 0);
    assert!(second.info().is_file());
}

#[test]
fn lopen_does_not_follow_links() {
    let (mut fs, mut mem) = new_fs();
    create(&mut fs, &mut mem, "/f");
    let step = fs.symlink("/l", "/f");
    run(&mut fs, &mut mem, step).unwrap();
    let step = fs.lopen("/l", OpenFlags::read_only());
    let file = run(&mut fs, &mut mem, step).unwrap();
    assert!(file.info().is_symlink());
    let file = open(&mut fs, &mut mem, "/l", OpenFlags::read_only());
    assert!(file.info().is_file());
}

#[test]
fn handles_refuse_what_they_were_not_opened_for() {
    let (mut fs, mut mem) = new_fs();
    let mut file = create(&mut fs, &mut mem, "/f");
    mem.asked.clear();
    let reading = "file not opened for reading";
    let step = file.read(1);
    failed(run_on(&mut file, &mut fs, &mut mem, step), ErrorKind::PermissionDenied, reading);
    let step = file.read_at(1, 0);
    failed(run_on(&mut file, &mut fs, &mut mem, step), ErrorKind::PermissionDenied, reading);
    let mut file = open(&mut fs, &mut mem, "/f", OpenFlags::read_only());
    mem.asked.clear();
    let writing = "file not opened for writing";
    let step = file.write(b"x");
    failed(run_on(&mut file, &mut fs, &mut mem, step), ErrorKind::PermissionDenied, writing);
    let step = file.write_at(b"x", 0);
    failed(run_on(&mut file, &mut fs, &mut mem, step), ErrorKind::PermissionDenied, writing);
    let step = file.truncate(0);
    failed(run_on(&mut file, &mut fs, &mut mem, step), ErrorKind::PermissionDenied, writing);
    let step = file.sync();
    run_on(&mut file, &mut fs, &mut mem, step).unwrap();
    assert!(mem.asked.is_empty());
}

#[test]
fn handles_track_their_offset() {
    let (mut fs, mut mem) = new_fs();
    let mut file = open(&mut fs, &mut mem, "/f", OpenFlags {
        create: true,
        ..OpenFlags::read_write()
    });
    assert_eq!(write(&mut file, &mut fs, &mut mem, b"0123456789"), 10);
    assert_eq!(file.offset(), 10);
    file.seek(4);
    let mut buf = [b'-'; 4];
    assert_eq!(read(&mut file, &mut fs, &mut mem, &mut buf), 4);
    assert_eq!(&buf, b"4567");
    assert_eq!(file.offset(), 8);
    assert_eq!(read(&mut file, &mut fs, &mut mem, &mut buf), 2);
    assert_eq!(&buf, b"8967");
    assert_eq!(file.offset(), 10);
    mem.asked.clear();
    assert_eq!(read_at(&mut file, &mut fs, &mut mem, &mut [], 0), 0);
    assert!(mem.asked.is_empty());
    let step = file.size();
    assert_eq!(run_on(&mut file, &mut fs, &mut mem, step).unwrap(), 10);
}

#[test]
fn append_ignores_the_offset() {
    let (mut fs, mut mem) = new_fs();
    let flags = OpenFlags::create_write().with_append();
    let mut file = open(&mut fs, &mut mem, "/f", flags);
    write(&mut file, &mut fs, &mut mem, b"abc");
    file.seek(1);
    write(&mut file, &mut fs, &mut mem, b"def");
    assert_eq!(file.offset(), 6);
    let step = fs.read_at("/f", 0, 10);
    assert_eq!(run(&mut fs, &mut mem, step).unwrap(), b"abcdef");
}

#[test]
fn handles_note_what_they_change() {
    let (mut fs, mut mem) = new_fs();
    let mut file = create(&mut fs, &mut mem, "/f");
    let step = file.truncate(7);
    run_on(&mut file, &mut fs, &mut mem, step).unwrap();
    assert_eq!(file.info().size(), 7);
    let step = file.sync();
    run_on(&mut file, &mut fs, &mut mem, step).unwrap();
    assert_eq!(file.info().attr().mtime, 1_700_000_000_000_000_000);
    assert_eq!(file.info().attr().ctime, 1_700_000_000_000_000_000);
    let ino = file.inode();
    assert_eq!(mem.nodes[&ino].attr.mtime, 1_700_000_000_000_000_000);
    mem.nodes.get_mut(&ino).unwrap().attr.mode = 0o400;
    let step = file.refresh_info();
    run_on(&mut file, &mut fs, &mut mem, step).unwrap();
    assert_eq!(file.info().mode(), 0o400);
    assert_eq!(file.info().name(), "f");
    mem.nodes.remove(&ino);
    let step = file.refresh_info();
    let r = run_on(&mut file, &mut fs, &mut mem, step);
    failed(r, ErrorKind::NotFound, "inode not found");
    let step = file.size();
    let r = run_on(&mut file, &mut fs, &mut mem, step);
    failed(r, ErrorKind::NotFound, "inode not found");
}

#[test]
fn sync_reports_a_clock_that_fails() {
    let (mut fs, mut mem) = new_fs();
    let mut file = create(&mut fs, &mut mem, "/f");
    mem.now = Err("second time provided was later than self".to_string());
    let step = file.sync();
    failed(
        run_on(&mut file, &mut fs, &mut mem, step),
        ErrorKind::Other,
        "second time provided was later than self",
    );
}

#[test]
fn data_failures_are_passed_on() {
    let (mut fs, mut mem) = new_fs();
    create(&mut fs, &mut mem, "/f");
    mem.data_fails = true;
    let step = fs.read_at("/f", 0, 1);
    failed(run(&mut fs, &mut mem, step), ErrorKind::Other, "disk gone");
    let step = fs.write_at("/f", 0, b"x");
    failed(run(&mut fs, &mut mem, step), ErrorKind::Other, "disk gone");
}

#[test]
fn only_files_have_contents() {
    let (mut fs, mut mem) = new_fs();
    mkdir(&mut fs, &mut mem, "/d");
    let step = fs.read_at("/d", 0, 1);
    failed(run(&mut fs, &mut mem, step), ErrorKind::IsADirectory, "/d");
    let step = fs.write_at("/d", 0, b"x");
    failed(run(&mut fs, &mut mem, step), ErrorKind::IsADirectory, "/d");
    let step = fs.read_at("/d", 0, 0);
    assert!(run(&mut fs, &mut mem, step).unwrap().is_empty());
    let step = fs.symlink("/l", "/d");
    run(&mut fs, &mut mem, step).unwrap();
    let step = fs.lopen("/l", OpenFlags::read_only());
    let mut file = run(&mut fs, &mut mem, step).unwrap();
    let step = file.read(1);
    let r = run_on(&mut file, &mut fs, &mut mem, step);
    failed(r, ErrorKind::InvalidInput, "/l");
}

#[test]
fn create_file_makes_its_directories() {
    let (mut fs, mut mem) = new_fs();
    let step = fs.create_file("/a/b/f");
    let ino = run(&mut fs, &mut mem, step).unwrap();
    assert_eq!(mem.walk("/a/b/f", false), Some(ino));
    let step = fs.create_file("/a/b/f");
    assert_eq!(run(&mut fs, &mut mem, step).unwrap(), ino);
    let step = fs.create_file("/a/b");
    failed(run(&mut fs, &mut mem, step), ErrorKind::IsADirectory, "/a/b");
    let step = fs.create_file("/");
    failed(run(&mut fs, &mut mem, step), ErrorKind::IsADirectory, "/");
}

#[test]
fn readdir_takes_directories_only() {
    let (mut fs, mut mem) = new_fs();
    create(&mut fs, &mut mem, "/f");
    let step = fs.readdir("/f");
    failed(run(&mut fs, &mut mem, step), ErrorKind::NotADirectory, "/f");
    let step = fs.readdir("/no");
    failed(run(&mut fs, &mut mem, step), ErrorKind::NotFound, "/no");
    let step = fs.readdir("/");
    assert_eq!(run(&mut fs, &mut mem, step).unwrap().entries.len(), 1);
}

#[test]
fn locks_go_to_the_metadata_service() {
    let (mut fs, mut mem) = new_fs();
    create(&mut fs, &mut mem, "/f");
    let range = FileLockRange { start: 1, end: 9 };
    let step = fs.set_plock("/f", 7, false, FileLockType::Write, range, 42);
    run(&mut fs, &mut mem, step).unwrap();
    let query = FileLockQuery { owner: 8, lock_type: FileLockType::Read, range };
    let step = fs.get_plock("/f", &query);
    let lock = run(&mut fs, &mut mem, step).unwrap();
    assert_eq!(lock, FileLockInfo { lock_type: FileLockType::Write, range, pid: 42 });
    let step = fs.set_plock("/f", 8, false, FileLockType::Write, range, 43);
    failed(run(&mut fs, &mut mem, step), ErrorKind::WouldBlock, "/f: locked");
}

#[test]
fn stat_fs_adds_up() {
    let (mut cli, mut mem) = root_client();
    let step = cli.fs.stat_fs();
    let s = drive(&mut cli, &mut mem, step).unwrap();
    assert_eq!((s.total_space, s.avail_space, s.used_space), (1000, 400, 600));
    assert_eq!((s.total_inodes, s.avail_inodes, s.used_inodes), (100, 93, 7));
    let step = cli.stat_fs_io();
    let s = drive(&mut cli, &mut mem, step).unwrap();
    assert_eq!((s.total_space, s.available_space), (1000, 400));
    assert_eq!((s.used_inodes, s.available_inodes), (7, 93));
}

#[test]
fn remove_dir_all_removes_the_tree_and_no_more() {
    let (mut cli, mut mem) = root_client();
    for dir in ["/t/a/b", "/t/c", "/u"] {
        cli_mkdir_p(&mut cli, &mut mem, dir).unwrap();
    }
    for file in ["/t/f", "/t/a/f", "/t/a/b/f", "/u/f"] {
        cli_create(&mut cli, &mut mem, file).unwrap();
    }
    let step = cli.remove_dir_all_io("//t/");
    drive(&mut cli, &mut mem, step).unwrap();
    assert_eq!(mem.walk("/t", false), None);
    assert!(mem.walk("/u/f", false).is_some());
    let step = cli.remove_dir_all_io("/t");
    failed(drive(&mut cli, &mut mem, step), ErrorKind::NotFound, "/t");
    mem.asked.clear();
    for path in ["", "/", "///"] {
        let step = cli.remove_dir_all_io(path);
        let text = "cannot remove filesystem root";
        failed(drive(&mut cli, &mut mem, step), ErrorKind::PermissionDenied, text);
    }
    assert!(mem.asked.is_empty());
    let step = cli.remove_dir_all_io("/u/f");
    failed(drive(&mut cli, &mut mem, step), ErrorKind::NotADirectory, "/u/f");
}

#[test]
fn client_creates_files_as_asked() {
    let (mut cli, mut mem) = root_client();
    let step = cli.mkdir_io("/d");
    drive(&mut cli, &mut mem, step).unwrap();
    let step = cli.create_file_io("/d/f", false);
    drive(&mut cli, &mut mem, step).unwrap();
    let step = cli.create_file_io("/d/f", false);
    drive(&mut cli, &mut mem, step).unwrap();
    let step = cli.create_file_io("/d/f", true);
    let text = "file already exists";
    failed(drive(&mut cli, &mut mem, step), ErrorKind::AlreadyExists, text);
    let step = cli.path_exists("/d/f");
    assert!(drive(&mut cli, &mut mem, step).unwrap());
    assert_eq!(cli_unlink(&mut cli, &mut mem, "/d").unwrap_err(), "/d");
}

#[test]
fn access_log_records_operations() {
    let config = FileSystemConfig { access_log: true, ..FileSystemConfig::default() };
    let (mut fs, mut mem) = new_fs_with(config);
    mkdir(&mut fs, &mut mem, "//d");
    let mut file = create(&mut fs, &mut mem, "/d/f");
    write(&mut file, &mut fs, &mut mem, b"x");
    let step = fs.rename("/no", "/d/g");
    assert!(run(&mut fs, &mut mem, step).is_err());
    let step = fs.remove("/d/f");
    run(&mut fs, &mut mem, step).unwrap();
    let step = fs.symlink("/l", "to/where");
    run(&mut fs, &mut mem, step).unwrap();
    let lines: Vec<(&str, &str, &str)> = mem
        .log
        .iter()
        .map(|e| (e.op.as_str(), e.path.as_str(), e.result.as_str()))
        .collect();
    assert_eq!(
        lines,
        vec![
            ("mkdir", "/d", "ok"),
            ("open", "/d/f", "ok"),
            ("write", "/d/f", "ok"),
            ("rename", "/no -> /d/g", "/no"),
            ("unlink", "/d/f", "ok"),
            ("symlink", "/l -> to/where", "ok"),
        ]
    );
    assert!(mem.log.iter().all(|e| (e.uid, e.gid, e.pid) == (1000, 100, 42)));
}

#[test]
fn access_log_changes_no_results() {
    let config = FileSystemConfig { access_log: true, ..FileSystemConfig::default() };
    let (mut fs, mut mem) = new_fs_with(config);
    let (mut quiet, mut other) = new_fs();
    for (fs, mem) in [(&mut fs, &mut mem), (&mut quiet, &mut other)] {
        mkdir_all(fs, mem, "/a/b");
        let flags = OpenFlags::create_write().with_truncate();
        let mut file = open(fs, mem, "/a/f", flags);
        write(&mut file, fs, mem, b"text");
        let step = fs.rmdir("/a");
        failed(run(fs, mem, step), ErrorKind::DirectoryNotEmpty, "/a");
    }
    let asked: Vec<&String> = mem.asked.iter().filter(|q| !q.starts_with("Log(")).collect();
    assert_eq!(asked, other.asked.iter().collect::<Vec<_>>());
    // A truncation inside an open is recorded before the open.
    let ops: Vec<&str> = mem.log.iter().map(|e| e.op.as_str()).collect();
    assert_eq!(ops, vec!["mkdir_all", "truncate", "open", "write", "rmdir"]);
}

#[test]
fn replies_that_do_not_answer_fail() {
    let (mut fs, _) = new_fs();
    let step = fs.stat("/f");
    match fs.advance(step) {
        Step::Pending(op) => match op.resume(Reply::Ack) {
            Step::Done(r) => failed(r, ErrorKind::Other, "unexpected reply"),
            Step::Pending(_) => panic!("went on"),
        },
        Step::Done(_) => panic!("done"),
    }
}

#[test]
fn writes_beyond_the_range_are_not_admitted() {
    let (mut fs, mut mem) = new_fs();
    let mut file = open(&mut fs, &mut mem, "/f", OpenFlags::create_write());
    for (offset, fits) in [(u64::MAX - 3, true), (u64::MAX - 2, false)] {
        let mut step = file.write_at(b"abc", offset);
        loop {
            match file.advance(&mut fs, step) {
                Step::Pending(op) => match op.request() {
                    Request::Data(_) => {
                        assert!(op.admits(&Reply::Written(Err("disk gone".to_string()))));
                        assert_eq!(op.admits(&Reply::Written(Ok(3))), fits);
                        break;
                    }
                    q => step = op.resume(mem.answer(q)),
                },
                Step::Done(_) => panic!("done"),
            }
        }
    }
    let step = fs.write_at("/g", u64::MAX, b"abc");
    let text = "/g: no such file or directory";
    failed(run(&mut fs, &mut mem, step), ErrorKind::NotFound, text);
}

#[test]
fn metadata_failures_are_passed_on() {
    let (mut fs, _) = new_fs();
    let step = fs.mkdir("/a/b");
    match fs.advance(step) {
        Step::Pending(op) => {
            let e = MetaError {
                kind: MetaErrorKind::Io(ErrorKind::TimedOut),
                text: "io error: timed out".to_string(),
            };
            match op.resume(Reply::Entry(Err(e))) {
                Step::Done(r) => failed(r, ErrorKind::TimedOut, "/a: io error: timed out"),
                Step::Pending(_) => panic!("went on"),
            }
        }
        Step::Done(_) => panic!("done"),
    }
}

#[test]
fn opening_touches_no_contents() {
    let (mut fs, mut mem) = new_fs();
    let mut file = create(&mut fs, &mut mem, "/f");
    let ino = file.inode();
    open(&mut fs, &mut mem, "/f", OpenFlags::read_write().with_truncate());
    assert_eq!(fs.files.inode(ino), None);
    assert_eq!((fs.files.reader(ino), fs.files.writer(ino)), (None, None));
    assert!(mem.asked.iter().all(|q| !q.starts_with("Data")));
    write(&mut file, &mut fs, &mut mem, b"x");
    assert_eq!(fs.files.inode(ino).unwrap().file_size(), 1);
    assert!(fs.files.reader(ino).is_some() && fs.files.writer(ino).is_some());
}

#[test]
fn spelling_of_paths_does_not_matter() {
    let spellings = ["/a/b", "a/b", "//a///b//", "a//b/"];
    let mut seen = Vec::new();
    for p in spellings {
        let (mut fs, mut mem) = new_fs();
        mkdir_all(&mut fs, &mut mem, p);
        create(&mut fs, &mut mem, "/a/b/f");
        let info = stat(&mut fs, &mut mem, p).unwrap();
        assert_eq!(info.name(), "b");
        let step = fs.rename(p, "//c/");
        run(&mut fs, &mut mem, step).unwrap();
        let step = fs.rename("/c", p);
        run(&mut fs, &mut mem, step).unwrap();
        let mut client = Client::from_filesystem(fs);
        let step = client.remove_dir_all_io(p);
        drive(&mut client, &mut mem, step).unwrap();
        assert_eq!(mem.walk("/a/b", false), None);
        assert!(mem.walk("/a", false).is_some());
        seen.push(mem.asked);
    }
    assert!(seen.iter().all(|asked| *asked == seen[0]));
}

#[test]
fn exclusive_creation_refuses_dangling_links() {
    let (mut fs, mut mem) = new_fs();
    let step = fs.symlink("/l", "/nowhere");
    run(&mut fs, &mut mem, step).unwrap();
    let step = fs.create("/l");
    failed(run(&mut fs, &mut mem, step), ErrorKind::AlreadyExists, "/l");
    create(&mut fs, &mut mem, "/f");
    let step = fs.create("/f");
    failed(run(&mut fs, &mut mem, step), ErrorKind::AlreadyExists, "file already exists");
}

#[test]
fn create_file_gives_the_same_inode_again() {
    let (mut fs, mut mem) = new_fs();
    let step = fs.create_file("/a/b/f");
    let first = run(&mut fs, &mut mem, step).unwrap();
    assert_eq!(mem.walk("/a/b/f", false), Some(first));
    assert_eq!(mem.nodes[&mem.walk("/a/b", false).unwrap()].attr.kind, FileType::Dir);
    let step = fs.write_at("/a/b/f", 0, b"kept");
    run(&mut fs, &mut mem, step).unwrap();
    let inodes = mem.nodes.len();
    let step = fs.create_file("a//b/f");
    assert_eq!(run(&mut fs, &mut mem, step).unwrap(), first);
    assert_eq!(mem.nodes.len(), inodes);
    let step = fs.read_at("/a/b/f", 0, 9);
    assert_eq!(run(&mut fs, &mut mem, step).unwrap(), b"kept");
    let step = fs.create_file("/a/b");
    failed(run(&mut fs, &mut mem, step), ErrorKind::IsADirectory, "/a/b");
    let step = fs.create_file("/a/b/f/g");
    failed(run(&mut fs, &mut mem, step), ErrorKind::NotADirectory, "/a/b/f");
}

#[test]
fn mkdir_all_makes_nothing_where_it_fails() {
    let (mut fs, mut mem) = new_fs();
    create(&mut fs, &mut mem, "/f");
    let inodes = mem.nodes.len();
    let step = fs.mkdir_all("/f/a/b");
    failed(run(&mut fs, &mut mem, step), ErrorKind::NotADirectory, "/f");
    assert_eq!(mem.nodes.len(), inodes);
    mkdir_all(&mut fs, &mut mem, "/d/e");
    let made = mem.walk("/d/e", false);
    let inodes = mem.nodes.len();
    mkdir_all(&mut fs, &mut mem, "/d/e");
    assert_eq!((mem.walk("/d/e", false), mem.nodes.len()), (made, inodes));
}

#[test]
fn rename_takes_the_place_of_what_it_may_replace() {
    let (mut fs, mut mem) = new_fs();
    mkdir_all(&mut fs, &mut mem, "/src/sub");
    mkdir_all(&mut fs, &mut mem, "/dst/empty");
    create(&mut fs, &mut mem, "/src/sub/f");
    create(&mut fs, &mut mem, "/other");
    let moved = (mem.walk("/src", false), mem.walk("/src/sub/f", false));
    let other = mem.walk("/other", false);
    let step = fs.rename("/src", "/dst/empty");
    run(&mut fs, &mut mem, step).unwrap();
    let at = (mem.walk("/dst/empty", false), mem.walk("/dst/empty/sub/f", false));
    assert_eq!(at, moved);
    assert_eq!(mem.walk("/src", false), None);
    assert_eq!(mem.walk("/other", false), other);
    let step = fs.rename("/other", "/new/way/there");
    run(&mut fs, &mut mem, step).unwrap();
    assert_eq!(mem.walk("/new/way/there", false), other);
    assert_eq!(mem.walk("/other", false), None);
    let step = fs.rename("/new/way/there", "/dst/empty/sub/f");
    run(&mut fs, &mut mem, step).unwrap();
    assert_eq!(mem.walk("/dst/empty/sub/f", false), other);
}

#[test]
fn unlink_leaves_the_second_name() {
    let (mut fs, mut mem) = new_fs();
    create(&mut fs, &mut mem, "/f");
    let step = fs.write_at("/f", 0, b"shared");
    run(&mut fs, &mut mem, step).unwrap();
    let step = fs.link("/f", "/g");
    run(&mut fs, &mut mem, step).unwrap();
    let links = stat(&mut fs, &mut mem, "/g").unwrap().nlink();
    let step = fs.unlink("/f");
    run(&mut fs, &mut mem, step).unwrap();
    assert_eq!(stat(&mut fs, &mut mem, "/g").unwrap().nlink(), links - 1);
    let step = fs.read_at("/g", 0, 9);
    assert_eq!(run(&mut fs, &mut mem, step).unwrap(), b"shared");
    let r = stat(&mut fs, &mut mem, "/f");
    failed(r, ErrorKind::NotFound, "/f: no such file or directory");
}

#[test]
fn readdir_lists_what_is_there_once() {
    let (mut fs, mut mem) = new_fs();
    mkdir(&mut fs, &mut mem, "/d");
    mkdir(&mut fs, &mut mem, "/d/sub");
    let file = create(&mut fs, &mut mem, "/d/f");
    create(&mut fs, &mut mem, "/elsewhere");
    let step = fs.readdir("/d");
    let mut found: Vec<(String, i64, FileType)> = run(&mut fs, &mut mem, step)
        .unwrap()
        .entries
        .into_iter()
        .map(|e| (e.name, e.ino, e.kind))
        .collect();
    found.sort_by(|a, b| a.0.cmp(&b.0));
    let sub = mem.walk("/d/sub", false).unwrap();
    let expected = vec![
        ("f".to_string(), file.inode(), FileType::File),
        ("sub".to_string(), sub, FileType::Dir),
    ];
    assert_eq!(found, expected);
}

#[test]
fn reads_do_not_outgrow_the_buffer() {
    let (mut fs, mut mem) = new_fs();
    let flags = OpenFlags { create: true, ..OpenFlags::read_write() };
    let mut file = open(&mut fs, &mut mem, "/f", flags);
    write(&mut file, &mut fs, &mut mem, b"0123456789");
    let mut buf = [0u8; 4];
    assert_eq!(read_at(&mut file, &mut fs, &mut mem, &mut buf, 3), 4);
    assert_eq!(&buf, b"3456");
    let mut step = file.read_at(4, 3);
    loop {
        match file.advance(&mut fs, step) {
            Step::Pending(op) => match op.request() {
                Request::Data(_) => {
                    assert!(op.admits(&Reply::Data(Ok(vec![0; 4]))));
                    assert!(!op.admits(&Reply::Data(Ok(vec![0; 5]))));
                    break;
                }
                q => step = op.resume(mem.answer(q)),
            },
            Step::Done(_) => panic!("done"),
        }
    }
}
