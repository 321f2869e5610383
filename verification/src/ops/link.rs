//! Hard and symbolic links.
use crate::error::{ErrorKind, FsError};
use crate::meta::FileType;
use crate::ops::lookup;
use crate::ops::lookup::ParentDir;
use crate::path;
use crate::path::{is_root, Spot};
use crate::script;
use crate::script::{MetaRequest, Operation, Reply, Request, Script, SpecReply, SpecRequest, Step};
use vstd::prelude::*;

verus! {

broadcast use crate::script::group_bind;

/// What a new directory entry leads to.
#[derive(Debug)]
pub enum NewLink<S = String> {
    /// The inode with this number.
    Hard { ino: i64 },
    /// A new symbolic link to this target.
    Symbolic { target: S },
}

impl View for NewLink {
    type V = NewLink<Seq<char>>;

    open spec fn view(&self) -> NewLink<Seq<char>> {
        match *self {
            NewLink::Hard { ino } => NewLink::Hard { ino },
            NewLink::Symbolic { target } => NewLink::Symbolic { target: target@ },
        }
    }
}

impl NewLink<Seq<char>> {
    /// The request that adds the entry.
    pub open spec fn request(self, parent: i64, name: Seq<char>) -> SpecRequest {
        match self {
            NewLink::Hard { ino } => Request::Meta(MetaRequest::Link { ino, parent, name }),
            NewLink::Symbolic { target } => Request::Meta(
                MetaRequest::Symlink { parent, name, target },
            ),
        }
    }
}

/// Adds an entry, where its directory is there and nothing has its name yet.
pub open spec fn place(root_ino: i64, spot: Spot<Seq<char>>, link: NewLink<Seq<char>>) -> Script<
    (),
> {
    if spot.name.len() == 0 {
        script::fail(ErrorKind::InvalidInput, spot.path)
    } else {
        lookup::parent_dir(root_ino, spot.dir, false).and_next(
            |parent: i64| place_parent(spot, link, parent),
        )
    }
}

/// The rest of `place`, the inode of the directory being known.
pub open spec fn place_parent(
    spot: Spot<Seq<char>>,
    link: NewLink<Seq<char>>,
    parent: i64,
) -> Script<()> {
    Script::Ask(
        Request::Meta(MetaRequest::Stat { ino: parent }),
        |reply: SpecReply|
            match reply.attr(spot.dir) {
                Err(e) => Script::Done(Err(e)),
                Ok(None) => script::fail(ErrorKind::NotFound, spot.dir),
                Ok(Some(attr)) => if attr.kind != FileType::Dir {
                    script::fail(ErrorKind::NotADirectory, spot.dir)
                } else {
                    place_entry(spot, link, parent)
                },
            },
    )
}

/// The rest of `place`, the inode being that of a directory.
pub open spec fn place_entry(
    spot: Spot<Seq<char>>,
    link: NewLink<Seq<char>>,
    parent: i64,
) -> Script<()> {
    Script::Ask(
        Request::Meta(MetaRequest::Lookup { parent, name: spot.name }),
        |reply: SpecReply|
            match reply.child(spot.path) {
                Err(e) => Script::Done(Err(e)),
                Ok(Some(_)) => script::fail(ErrorKind::AlreadyExists, spot.path),
                Ok(None) => place_now(spot, link, parent),
            },
    )
}

/// The last step of `place`.
pub open spec fn place_now(
    spot: Spot<Seq<char>>,
    link: NewLink<Seq<char>>,
    parent: i64,
) -> Script<()> {
    Script::Ask(
        link.request(parent, spot.name),
        |reply: SpecReply| Script::Done(reply.unit(spot.path)),
    )
}

/// Adding a directory entry for a link.
#[derive(Debug)]
pub struct Place {
    pub spot: Spot,
    pub link: NewLink,
    pub at: PlaceAt,
}

#[derive(Debug)]
pub enum PlaceAt {
    Parent(ParentDir),
    Kind { parent: i64 },
    Entry { parent: i64 },
    Now { parent: i64 },
}

impl Place {
    pub fn start(root_ino: i64, spot: Spot, link: NewLink) -> (s: Step<Place, ()>)
        ensures
            s.script() == place(root_ino, spot@, link@),
    {
        if spot.name.as_str().is_empty() {
            return Step::Done(
                Err(FsError { kind: ErrorKind::InvalidInput, message: spot.path }),
            );
        }
        match ParentDir::start(root_ino, spot.dir.as_str(), false) {
            Step::Pending(op) => Step::Pending(Place { spot, link, at: PlaceAt::Parent(op) }),
            Step::Done(Err(e)) => Step::Done(Err(e)),
            Step::Done(Ok(parent)) => Step::Pending(
                Place { spot, link, at: PlaceAt::Kind { parent } },
            ),
        }
    }
}

impl Operation for Place {
    type Output = ();

    open spec fn script(self) -> Script<()> {
        let spot = self.spot@;
        let link = self.link@;
        match self.at {
            PlaceAt::Parent(op) => op.script().and_next(
                |parent: i64| place_parent(spot, link, parent),
            ),
            PlaceAt::Kind { parent } => place_parent(spot, link, parent),
            PlaceAt::Entry { parent } => place_entry(spot, link, parent),
            PlaceAt::Now { parent } => place_now(spot, link, parent),
        }
    }

    open spec fn accepts(self, reply: SpecReply) -> bool {
        true
    }

    fn admits(&self, _reply: &Reply) -> (b: bool) {
        true
    }

    proof fn asks(self) {
    }

    fn request(&self) -> (q: Request) {
        match &self.at {
            PlaceAt::Parent(op) => op.request(),
            PlaceAt::Kind { parent } => Request::Meta(MetaRequest::Stat { ino: *parent }),
            PlaceAt::Entry { parent } => Request::Meta(
                MetaRequest::Lookup { parent: *parent, name: self.spot.name.clone() },
            ),
            PlaceAt::Now { parent } => {
                let name = self.spot.name.clone();
                match &self.link {
                    NewLink::Hard { ino } => Request::Meta(
                        MetaRequest::Link { ino: *ino, parent: *parent, name },
                    ),
                    NewLink::Symbolic { target } => Request::Meta(
                        MetaRequest::Symlink { parent: *parent, name, target: target.clone() },
                    ),
                }
            },
        }
    }

    fn resume(self, reply: Reply) -> (s: Step<Place, ()>) {
        let spot = self.spot;
        let link = self.link;
        match self.at {
            PlaceAt::Parent(op) => match op.resume(reply) {
                Step::Pending(op) => Step::Pending(Place { spot, link, at: PlaceAt::Parent(op) }),
                Step::Done(Err(e)) => Step::Done(Err(e)),
                Step::Done(Ok(parent)) => Step::Pending(
                    Place { spot, link, at: PlaceAt::Kind { parent } },
                ),
            },
            PlaceAt::Kind { parent } => match reply.into_attr(spot.dir.as_str()) {
                Err(e) => Step::Done(Err(e)),
                Ok(None) => Step::Done(
                    Err(FsError { kind: ErrorKind::NotFound, message: spot.dir }),
                ),
                Ok(Some(attr)) => if attr.kind != FileType::Dir {
                    Step::Done(Err(FsError { kind: ErrorKind::NotADirectory, message: spot.dir }))
                } else {
                    Step::Pending(Place { spot, link, at: PlaceAt::Entry { parent } })
                },
            },
            PlaceAt::Entry { parent } => match reply.into_child(spot.path.as_str()) {
                Err(e) => Step::Done(Err(e)),
                Ok(Some(_)) => Step::Done(
                    Err(FsError { kind: ErrorKind::AlreadyExists, message: spot.path }),
                ),
                Ok(None) => Step::Pending(Place { spot, link, at: PlaceAt::Now { parent } }),
            },
            PlaceAt::Now { parent: _ } => Step::Done(reply.into_unit(spot.path.as_str())),
        }
    }
}

/// Gives the file at the normalized path `existing` a second name, the normalized path `link`.
pub open spec fn link(root_ino: i64, existing: Seq<char>, link: Seq<char>) -> Script<()> {
    if existing == path::root() {
        script::fail(ErrorKind::IsADirectory, existing)
    } else if link == path::root() {
        script::fail(ErrorKind::InvalidInput, link)
    } else {
        link_source(root_ino, existing, Spot::of(link))
    }
}

/// The rest of `link`, where neither path is the root.
pub open spec fn link_source(root_ino: i64, existing: Seq<char>, spot: Spot<Seq<char>>) -> Script<
    (),
> {
    Script::Ask(
        Request::Meta(MetaRequest::LookupPath { path: existing }),
        |reply: SpecReply|
            match reply.entry(existing) {
                Err(e) => Script::Done(Err(e)),
                Ok(None) => script::fail(ErrorKind::NotFound, existing),
                Ok(Some((ino, kind))) => if kind == FileType::Dir {
                    script::fail(ErrorKind::IsADirectory, existing)
                } else {
                    place(root_ino, spot, NewLink::Hard { ino })
                },
            },
    )
}

/// Create a hard link.
#[derive(Debug)]
pub enum Link {
    Source { root_ino: i64, existing: String, spot: Spot },
    Place(Place),
}

impl Link {
    pub fn start(root_ino: i64, existing: &str, link: &str) -> (s: Step<Link, ()>)
        requires
            path::is_absolute(existing@),
            path::is_absolute(link@),
        ensures
            s.script() == self::link(root_ino, existing@, link@),
    {
        if is_root(existing) {
            return Step::Done(Err(FsError::new(ErrorKind::IsADirectory, existing)));
        }
        if is_root(link) {
            return Step::Done(Err(FsError::new(ErrorKind::InvalidInput, link)));
        }
        let spot = Spot::new(link);
        Step::Pending(Link::Source { root_ino, existing: String::from_str(existing), spot })
    }
}

impl Operation for Link {
    type Output = ();

    open spec fn script(self) -> Script<()> {
        match self {
            Link::Source { root_ino, existing, spot } => link_source(root_ino, existing@, spot@),
            Link::Place(op) => op.script(),
        }
    }

    open spec fn accepts(self, reply: SpecReply) -> bool {
        true
    }

    fn admits(&self, _reply: &Reply) -> (b: bool) {
        true
    }

    proof fn asks(self) {
        match self {
            Link::Place(op) => op.asks(),
            _ => {},
        }
    }

    fn request(&self) -> (q: Request) {
        match self {
            Link::Source { root_ino: _, existing, spot: _ } => Request::Meta(
                MetaRequest::LookupPath { path: existing.clone() },
            ),
            Link::Place(op) => op.request(),
        }
    }

    fn resume(self, reply: Reply) -> (s: Step<Link, ()>) {
        match self {
            Link::Source { root_ino, existing, spot } => match reply.into_entry(
                existing.as_str(),
            ) {
                Err(e) => Step::Done(Err(e)),
                Ok(None) => Step::Done(
                    Err(FsError { kind: ErrorKind::NotFound, message: existing }),
                ),
                Ok(Some((ino, kind))) => if kind == FileType::Dir {
                    Step::Done(Err(FsError { kind: ErrorKind::IsADirectory, message: existing }))
                } else {
                    match Place::start(root_ino, spot, NewLink::Hard { ino }) {
                        Step::Pending(op) => Step::Pending(Link::Place(op)),
                        Step::Done(r) => Step::Done(r),
                    }
                },
            },
            Link::Place(op) => match op.resume(reply) {
                Step::Pending(op) => Step::Pending(Link::Place(op)),
                Step::Done(r) => Step::Done(r),
            },
        }
    }
}

/// Makes a symbolic link to `target` at the normalized path `link`.
pub open spec fn symlink(root_ino: i64, link: Seq<char>, target: Seq<char>) -> Script<()> {
    if link == path::root() {
        script::fail(ErrorKind::InvalidInput, link)
    } else {
        place(root_ino, Spot::of(link), NewLink::Symbolic { target })
    }
}

/// Create a symbolic link.
pub fn start_symlink(root_ino: i64, link: &str, target: &str) -> (s: Step<Place, ()>)
    requires
        path::is_absolute(link@),
    ensures
        s.script() == symlink(root_ino, link@, target@),
{
    if is_root(link) {
        return Step::Done(Err(FsError::new(ErrorKind::InvalidInput, link)));
    }
    let spot = Spot::new(link);
    let new_link = NewLink::Symbolic { target: String::from_str(target) };
    assert(new_link@ == NewLink::<Seq<char>>::Symbolic { target: target@ });
    Place::start(root_ino, spot, new_link)
}

/// Reads the target of the symbolic link at a normalized path.
pub open spec fn readlink(path: Seq<char>) -> Script<Seq<char>> {
    Script::Ask(
        Request::Meta(MetaRequest::LookupPath { path }),
        |reply: SpecReply|
            match reply.entry(path) {
                Err(e) => Script::Done(Err(e)),
                Ok(None) => script::fail(ErrorKind::NotFound, path),
                Ok(Some((ino, kind))) => if kind != FileType::Symlink {
                    script::fail(ErrorKind::InvalidInput, path)
                } else {
                    readlink_target(path, ino)
                },
            },
    )
}

/// The last step of `readlink`.
pub open spec fn readlink_target(path: Seq<char>, ino: i64) -> Script<Seq<char>> {
    Script::Ask(
        Request::Meta(MetaRequest::ReadSymlink { ino }),
        |reply: SpecReply| Script::Done(reply.target(path)),
    )
}

/// Read the target of a symbolic link.
#[derive(Debug)]
pub enum Readlink {
    Entry { path: String },
    Target { path: String, ino: i64 },
}

impl Readlink {
    pub fn start(path: &str) -> (s: Step<Readlink, String>)
        ensures
            s.script() == readlink(path@),
    {
        Step::Pending(Readlink::Entry { path: String::from_str(path) })
    }
}

impl Operation for Readlink {
    type Output = String;

    open spec fn script(self) -> Script<Seq<char>> {
        match self {
            Readlink::Entry { path } => readlink(path@),
            Readlink::Target { path, ino } => readlink_target(path@, ino),
        }
    }

    open spec fn accepts(self, reply: SpecReply) -> bool {
        true
    }

    fn admits(&self, _reply: &Reply) -> (b: bool) {
        true
    }

    proof fn asks(self) {
    }

    fn request(&self) -> (q: Request) {
        match self {
            Readlink::Entry { path } => Request::Meta(
                MetaRequest::LookupPath { path: path.clone() },
            ),
            Readlink::Target { path: _, ino } => Request::Meta(
                MetaRequest::ReadSymlink { ino: *ino },
            ),
        }
    }

    fn resume(self, reply: Reply) -> (s: Step<Readlink, String>) {
        match self {
            Readlink::Entry { path } => match reply.into_entry(path.as_str()) {
                Err(e) => Step::Done(Err(e)),
                Ok(None) => Step::Done(Err(FsError { kind: ErrorKind::NotFound, message: path })),
                Ok(Some((ino, kind))) => if kind != FileType::Symlink {
                    Step::Done(Err(FsError { kind: ErrorKind::InvalidInput, message: path }))
                } else {
                    Step::Pending(Readlink::Target { path, ino })
                },
            },
            Readlink::Target { path, ino: _ } => Step::Done(reply.into_target(path.as_str())),
        }
    }
}

} // verus!
