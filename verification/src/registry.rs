//! The registry of open inodes.
use crate::chunk::ChunkLayout;
use crate::dash;
use crate::dash::{dash_get, dash_insert, dash_new, dash_or_insert};
use crate::script::{RegistryRequest, Reply, SpecReply};
use dashmap::DashMap;
use vstd::prelude::*;

verus! {

/// An inode of a file that has been read or written: its number and its size.
#[derive(Debug, Clone, Copy, PartialEq, Eq, Structural)]
pub struct Inode {
    pub ino: i64,
    pub size: u64,
}

impl Inode {
    pub fn new(ino: i64, size: u64) -> (r: Inode)
        ensures
            r == (Inode { ino, size }),
    {
        Inode { ino, size }
    }

    pub fn ino(&self) -> (r: i64)
        ensures
            r == self.ino,
    {
        self.ino
    }

    pub fn file_size(&self) -> (r: u64)
        ensures
            r == self.size,
    {
        self.size
    }
}

/// What the registry knows: the sizes of inodes, and the numbers under which the data service
/// knows their writers and readers.
pub struct Channels {
    pub sizes: Map<i64, u64>,
    pub writers: Map<i64, u64>,
    pub readers: Map<i64, u64>,
}

/// A map with a value for a key that had none.
pub open spec fn or_insert(m: Map<i64, u64>, key: i64, value: u64) -> Map<i64, u64> {
    if m.contains_key(key) {
        m
    } else {
        m.insert(key, value)
    }
}

/// What a map holds under a key.
pub open spec fn find(m: Map<i64, u64>, key: i64) -> Option<u64> {
    if m.contains_key(key) {
        Some(m[key])
    } else {
        None
    }
}

/// The number under which the data service knows the writer and the reader of an inode.
pub open spec fn channel(ino: i64) -> u64 {
    ino as u64
}

impl Channels {
    /// A registry that knows nothing.
    pub open spec fn none() -> Channels {
        Channels { sizes: Map::empty(), writers: Map::empty(), readers: Map::empty() }
    }

    /// Every inode that is known has a writer and a reader, each under its own number.
    pub open spec fn wf(self) -> bool {
        &&& forall|ino: i64| #[trigger]
            self.sizes.contains_key(ino) ==> self.writers.contains_key(ino)
                && self.readers.contains_key(ino)
        &&& forall|ino: i64| #[trigger]
            self.writers.contains_key(ino) ==> self.writers[ino] == channel(ino)
        &&& forall|ino: i64| #[trigger]
            self.readers.contains_key(ino) ==> self.readers[ino] == channel(ino)
    }

    /// The registry after an inode got a writer and a reader, if it had none.
    pub open spec fn opened(self, ino: i64) -> Channels {
        Channels {
            sizes: self.sizes,
            writers: or_insert(self.writers, ino, channel(ino)),
            readers: or_insert(self.readers, ino, channel(ino)),
        }
    }

    /// The registry after a request.
    pub open spec fn after(self, request: RegistryRequest) -> Channels {
        match request {
            RegistryRequest::UpdateSize { ino, size } => if self.sizes.contains_key(ino) {
                Channels { sizes: self.sizes.insert(ino, size), ..self }
            } else {
                self
            },
            RegistryRequest::Register { ino, size } => if self.sizes.contains_key(ino) {
                self
            } else {
                Channels { sizes: self.sizes.insert(ino, size), ..self.opened(ino) }
            },
            _ => self,
        }
    }

    /// The reply to a request.
    pub open spec fn reply(self, request: RegistryRequest) -> SpecReply {
        match request {
            RegistryRequest::InodeSize { ino } => Reply::Cached(find(self.sizes, ino)),
            RegistryRequest::Reader { ino } => Reply::Channel(find(self.readers, ino)),
            RegistryRequest::Writer { ino } => Reply::Channel(find(self.writers, ino)),
            _ => Reply::Ack,
        }
    }
}

/// Every request keeps the registry well-formed.
pub proof fn requests_keep_wf(c: Channels, request: RegistryRequest)
    requires
        c.wf(),
    ensures
        c.after(request).wf(),
{
}

/// An inode stays in the registry once it is there, and keeps its writer and its reader.
pub proof fn requests_forget_nothing(c: Channels, request: RegistryRequest, ino: i64)
    ensures
        c.sizes.contains_key(ino) ==> c.after(request).sizes.contains_key(ino),
        find(c.writers, ino) is Some ==> find(c.after(request).writers, ino) == find(
            c.writers,
            ino,
        ),
        find(c.readers, ino) is Some ==> find(c.after(request).readers, ino) == find(
            c.readers,
            ino,
        ),
{
}

/// Once an inode is registered, it has a size, a writer and a reader.
pub proof fn registered_is_usable(c: Channels, ino: i64, size: u64)
    requires
        c.wf(),
    ensures
        ({
            let d = c.after(RegistryRequest::Register { ino, size });
            &&& d.reply(RegistryRequest::InodeSize { ino }) == Reply::<
                Seq<char>,
                Seq<u8>,
                Seq<crate::meta::DirEntry<Seq<char>>>,
            >::Cached(
                Some(
                    if c.sizes.contains_key(ino) {
                        c.sizes[ino]
                    } else {
                        size
                    },
                ),
            )
            &&& find(d.writers, ino) == Some(channel(ino))
            &&& find(d.readers, ino) == Some(channel(ino))
        }),
{
}

/// A channel has the number of its inode, in 64 bits without a sign.
pub proof fn channels_are_numbered(ino: i64)
    ensures
        ino >= 0 ==> channel(ino) == ino,
        ino < 0 ==> channel(ino) == ino + 0x1_0000_0000_0000_0000,
{
    let c = channel(ino);
    assert(ino >= 0 ==> c == ino) by (bit_vector)
        requires
            c == ino as u64,
    ;
    assert(ino < 0 ==> c == ino + 0x1_0000_0000_0000_0000) by (bit_vector)
        requires
            c == ino as u64,
    ;
}

/// Different inodes have different channels.
pub proof fn channels_differ(a: i64, b: i64)
    requires
        a != b,
    ensures
        channel(a) != channel(b),
{
    channels_are_numbered(a);
    channels_are_numbered(b);
}

/// What the registry knows of an inode.
pub open spec fn known(c: Channels, ino: i64) -> (Option<u64>, Option<u64>, Option<u64>) {
    (find(c.sizes, ino), find(c.writers, ino), find(c.readers, ino))
}

/// To register an inode, or to set its size, leaves alone what is known of other inodes. A size
/// that is set is the size from then on; one that is not known is not learned in this way.
pub proof fn requests_spare_others(c: Channels, ino: i64, size: u64, other: i64)
    ensures
        ({
            let d = c.after(RegistryRequest::Register { ino, size });
            let e = c.after(RegistryRequest::UpdateSize { ino, size });
            &&& other != ino ==> known(d, other) == known(c, other) && known(e, other) == known(
                c,
                other,
            )
            &&& find(d.sizes, ino) == Some(
                if c.sizes.contains_key(ino) {
                    c.sizes[ino]
                } else {
                    size
                },
            )
            &&& c.sizes.contains_key(ino) ==> find(e.sizes, ino) == Some(size)
            &&& !c.sizes.contains_key(ino) ==> find(e.sizes, ino) is None
            &&& find(e.writers, ino) == find(c.writers, ino)
            &&& find(e.readers, ino) == find(c.readers, ino)
        }),
{
}

/// The maps of a registry. They can be changed through the registry only.
pub struct ChannelMaps {
    /// The sizes of inodes.
    inode: DashMap<i64, u64>,
    writers: DashMap<i64, u64>,
    readers: DashMap<i64, u64>,
}

impl View for ChannelMaps {
    type V = Channels;

    closed spec fn view(&self) -> Channels {
        Channels {
            sizes: dash::held(self.inode),
            writers: dash::held(self.writers),
            readers: dash::held(self.readers),
        }
    }
}

/// The registry of the inodes whose contents have been read or written.
pub struct FileRegistry {
    pub maps: ChannelMaps,
    pub layout: ChunkLayout,
    /// The size of the pages in which writers collect data.
    pub page_size: u32,
}

impl View for FileRegistry {
    type V = Channels;

    open spec fn view(&self) -> Channels {
        self.maps@
    }
}

/// The page size for a block size: the default, where blocks are made of whole pages of that size,
/// and otherwise one page for a block. Only an empty block is made of empty pages.
pub open spec fn page_size_of(block_size: u32, default_page_size: u32) -> u32 {
    if default_page_size > 0 && block_size % default_page_size == 0 {
        default_page_size
    } else {
        block_size
    }
}

/// Blocks are made of whole pages, and pages are of the default size wherever that is possible.
pub proof fn pages_fill_blocks(block_size: u32, default_page_size: u32)
    ensures
        ({
            let p = page_size_of(block_size, default_page_size);
            &&& block_size > 0 ==> p > 0 && block_size % p == 0
            &&& p == default_page_size || p == block_size
            &&& p != default_page_size ==> default_page_size == 0 || block_size % default_page_size
                != 0
        }),
{
    if block_size > 0 && page_size_of(block_size, default_page_size) == block_size {
        assert(block_size % block_size == 0) by (nonlinear_arith)
            requires
                block_size > 0,
        ;
    }
}

/// The page size for a block size.
pub fn page_size_for(block_size: u32, default_page_size: u32) -> (r: u32)
    ensures
        r == page_size_of(block_size, default_page_size),
{
    if block_size.is_multiple_of(default_page_size) {
        default_page_size
    } else {
        block_size
    }
}

impl FileRegistry {
    pub fn new(layout: ChunkLayout, default_page_size: u32) -> (r: FileRegistry)
        ensures
            r@ == Channels::none(),
            r@.wf(),
            r.layout == layout,
            r.page_size == page_size_of(layout.block_size, default_page_size),
    {
        FileRegistry {
            maps: ChannelMaps { inode: dash_new(), writers: dash_new(), readers: dash_new() },
            layout,
            page_size: page_size_for(layout.block_size, default_page_size),
        }
    }

    /// Gives an inode a writer and a reader, where it has none yet.
    pub fn ensure_init(&mut self, inode: Inode)
        ensures
            final(self)@ == old(self)@.opened(inode.ino),
            old(self)@.wf() ==> final(self)@.wf(),
            final(self).layout == old(self).layout,
            final(self).page_size == old(self).page_size,
    {
        let ino: i64 = inode.ino();
        let number: u64 = ino as u64;
        dash_or_insert(&mut self.maps.writers, ino, number);
        dash_or_insert(&mut self.maps.readers, ino, number);
    }

    /// The inode with the given number, if it is registered.
    pub fn inode(&self, ino: i64) -> (r: Option<Inode>)
        ensures
            r == (match find(self@.sizes, ino) {
                Some(size) => Some(Inode { ino, size }),
                None => None,
            }),
    {
        match dash_get(&self.maps.inode, ino) {
            Some(size) => Some(Inode::new(ino, size)),
            None => None,
        }
    }

    /// The writer of an inode.
    pub fn writer(&self, ino: i64) -> (r: Option<u64>)
        ensures
            r == find(self@.writers, ino),
    {
        dash_get(&self.maps.writers, ino)
    }

    /// The reader of an inode.
    pub fn reader(&self, ino: i64) -> (r: Option<u64>)
        ensures
            r == find(self@.readers, ino),
    {
        dash_get(&self.maps.readers, ino)
    }

    /// Fulfils a request of an operation and answers it.
    pub fn answer(&mut self, request: RegistryRequest) -> (reply: Reply)
        ensures
            reply@ == old(self)@.reply(request),
            final(self)@ == old(self)@.after(request),
            old(self)@.wf() ==> final(self)@.wf(),
            final(self).layout == old(self).layout,
            final(self).page_size == old(self).page_size,
    {
        match request {
            RegistryRequest::InodeSize { ino } => match self.inode(ino) {
                Some(inode) => Reply::Cached(Some(inode.file_size())),
                None => Reply::Cached(None),
            },
            RegistryRequest::UpdateSize { ino, size } => {
                if self.inode(ino).is_some() {
                    dash_insert(&mut self.maps.inode, ino, size);
                }
                Reply::Ack
            },
            RegistryRequest::Register { ino, size } => {
                if self.inode(ino).is_none() {
                    self.ensure_init(Inode::new(ino, size));
                    dash_insert(&mut self.maps.inode, ino, size);
                }
                Reply::Ack
            },
            RegistryRequest::Reader { ino } => Reply::Channel(self.reader(ino)),
            RegistryRequest::Writer { ino } => Reply::Channel(self.writer(ino)),
            RegistryRequest::NextFileId => Reply::Ack,
        }
    }
}

} // verus!
