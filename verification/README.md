# slayerfs

The core of a path-based distributed file system, verified with Verus.

The library does no input or output. An operation (`FileSystem::open`, `File::write`,
`Client::remove_dir_all_io`, ...) gives a `Step`: it is either done, or it waits for the reply to a
request to the metadata service, the data service, the access log or the clock. What it asks, in
which order, and how it ends for every sequence of replies is its *script*, a mathematical value
that its contract names. `FileSystem::advance`, `File::advance` and `Client::advance` answer the
requests that concern local state alone: the registry of inodes and the offset of an open file.

## Layout

- `src/path.rs`: normal forms of paths.
- `src/stat.rs`, `src/meta.rs`, `src/error.rs`, `src/access_log.rs`: the values that are exchanged.
- `src/chunk.rs`: chunk numbers, and how a range of bytes is split over chunks.
- `src/registry.rs`: the registry of the inodes that have been read or written, on top of
  `dashmap` (`src/dash.rs`).
- `src/script.rs`: requests, replies, scripts, and the trait `Operation`.
- `src/ops/`: the operations, each with its script.
- `src/fs.rs`, `src/file.rs`, `src/client.rs`: the file system, open files, and the client.
- `src/laws/`: what holds of the operations together. Some laws hold whatever the services reply
  (`history`); others are about services that behave as a file system should, for which
  `store` has a model.
- `src/clock.rs`, `src/dash.rs`: the only places where verified code meets code that is not.
- `app/`: the asynchronous layer that performs the requests against real services.
- `tests/`: the library run against services that are kept in memory.
