//! Chunks: their numbers, the spans of a range, and the registry of inodes.
use slayerfs::chunk::{
    chunk_id_for, extract_ino_and_chunk_index, split_chunk_spans, ChunkIoFactory, ChunkLayout,
    ChunkSpan, CHUNK_ID_BASE,
};
use slayerfs::registry::{page_size_for, FileRegistry, Inode};
use slayerfs::script::{RegistryRequest, Reply};
use std::sync::Arc;

const SMALL: ChunkLayout = ChunkLayout { chunk_size: 10, block_size: 4 };

#[test]
fn chunk_numbers_round_trip() {
    assert_eq!(CHUNK_ID_BASE, 1_000_000_000);
    assert_eq!(chunk_id_for(5, 7), 5_000_000_007);
    assert_eq!(extract_ino_and_chunk_index(5_000_000_007), (5, 7));
    for (ino, index) in [(0, 0), (1, 999_999_999), (18_446_744_072, 0)] {
        assert_eq!(extract_ino_and_chunk_index(chunk_id_for(ino, index)), (ino, index));
    }
    // An index that is not below the distance between two inodes names a chunk of a later one.
    assert_eq!(extract_ino_and_chunk_index(chunk_id_for(1, CHUNK_ID_BASE)), (2, 0));
    let (ino, index) = extract_ino_and_chunk_index(u64::MAX);
    assert_eq!(chunk_id_for(ino, index), u64::MAX);
}

#[test]
fn spans_are_cut_at_chunk_borders() {
    let span = |index, offset, len| ChunkSpan { index, offset, len };
    assert!(split_chunk_spans(SMALL, 3, 0).is_empty());
    let hollow = ChunkLayout { chunk_size: 0, ..SMALL };
    assert!(split_chunk_spans(hollow, u64::MAX, 0).is_empty());
    assert_eq!(split_chunk_spans(SMALL, 3, 4), vec![span(0, 3, 4)]);
    assert_eq!(split_chunk_spans(SMALL, 3, 7), vec![span(0, 3, 7)]);
    assert_eq!(
        split_chunk_spans(SMALL, 8, 25),
        vec![span(0, 8, 2), span(1, 0, 10), span(2, 0, 10), span(3, 0, 3)]
    );
    assert_eq!(split_chunk_spans(SMALL, 20, 10), vec![span(2, 0, 10)]);
}

#[test]
fn spans_cover_their_range() {
    for offset in 0..25u64 {
        for len in 1..35usize {
            let mut at = offset;
            for s in split_chunk_spans(SMALL, offset, len) {
                assert!(s.len > 0 && s.offset + s.len <= 10);
                assert_eq!(s.index * 10 + s.offset as u64, at);
                at += s.len as u64;
            }
            assert_eq!(at, offset + len as u64);
        }
    }
}

#[test]
fn factories_hand_on_their_layout() {
    let factory = ChunkIoFactory::new(SMALL, Arc::new("store"), Arc::new("meta"));
    assert_eq!(factory.layout(), SMALL);
    assert_eq!(*factory.backend().store, "store");
    let reader = factory.reader(11);
    assert_eq!((reader.chunk_id, reader.layout, *reader.backend.meta), (11, SMALL, "meta"));
    let writer = factory.writer(12);
    assert_eq!((writer.chunk_id, writer.layout, *writer.backend.store), (12, SMALL, "store"));
    assert_eq!(SMALL.chunk_index_of(25), 2);
    assert_eq!(SMALL.within_chunk_offset(25), 5);
}

#[test]
fn pages_divide_blocks() {
    assert_eq!(page_size_for(4096, 1024), 1024);
    assert_eq!(page_size_for(4000, 1024), 4000);
    assert_eq!(page_size_for(0, 1024), 1024);
    assert_eq!(page_size_for(0, 0), 0);
    assert_eq!(page_size_for(5, 0), 5);
    assert_eq!(FileRegistry::new(SMALL, 2).page_size, 2);
    assert_eq!(FileRegistry::new(SMALL, 3).page_size, 4);
}

fn cached(r: Reply) -> Option<u64> {
    match r {
        Reply::Cached(s) => s,
        _ => panic!("not a size"),
    }
}

#[test]
fn registry_remembers_inodes() {
    let mut files = FileRegistry::new(SMALL, 2);
    assert_eq!(files.inode(3), None);
    assert_eq!(files.reader(3), None);
    assert_eq!(files.writer(3), None);
    files.answer(RegistryRequest::UpdateSize { ino: 3, size: 9 });
    assert_eq!(cached(files.answer(RegistryRequest::InodeSize { ino: 3 })), None);
    files.answer(RegistryRequest::Register { ino: 3, size: 5 });
    assert_eq!(files.inode(3), Some(Inode::new(3, 5)));
    assert_eq!(files.reader(3), Some(3));
    assert_eq!(files.writer(3), Some(3));
    files.answer(RegistryRequest::Register { ino: 3, size: 6 });
    assert_eq!(cached(files.answer(RegistryRequest::InodeSize { ino: 3 })), Some(5));
    files.answer(RegistryRequest::UpdateSize { ino: 3, size: 9 });
    assert_eq!(files.inode(3).unwrap().file_size(), 9);
    assert_eq!(files.inode(4), None);
    files.answer(RegistryRequest::Register { ino: -1, size: 0 });
    assert_eq!(files.reader(-1), Some(u64::MAX));
}

#[test]
fn ensure_init_opens_channels_only() {
    let mut files = FileRegistry::new(SMALL, 2);
    let inode = Inode::new(8, 1);
    assert_eq!(inode.ino(), 8);
    files.ensure_init(inode);
    assert_eq!(files.inode(8), None);
    assert_eq!((files.writer(8), files.reader(8)), (Some(8), Some(8)));
}
