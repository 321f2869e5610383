//! Opening files.
use crate::error::{ErrorKind, FsError};
use crate::file::File;
use crate::meta::FileType;
use crate::ops::attr;
use crate::ops::attr::{start_truncate, Truncate};
use crate::ops::create;
use crate::ops::create::CreateInDir;
use crate::ops::logged::Logged;
use crate::ops::lookup;
use crate::ops::lookup::Resolve;
use crate::path;
use crate::path::Spot;
use crate::script;
use crate::script::{
    Operation, RegistryRequest, Reply, Request, Script, SpecError, SpecReply, Step,
};
use crate::stat::{FileStat, OpenFlags};
use vstd::prelude::*;

verus! {

broadcast use crate::script::group_bind;

/// What is opened and how.
#[derive(Debug)]
pub struct Opening<S = String> {
    pub path: S,
    pub flags: OpenFlags,
    /// Whether operations are recorded in the access log.
    pub log: bool,
}

impl View for Opening {
    type V = Opening<Seq<char>>;

    open spec fn view(&self) -> Opening<Seq<char>> {
        Opening { path: self.path@, flags: self.flags, log: self.log }
    }
}

/// Opens the file at a normalized path, creating it first where the flags ask for that.
pub open spec fn open_file(root_ino: i64, o: Opening<Seq<char>>) -> Script<File<Seq<char>>> {
    if o.flags.create {
        lookup::resolve(o.path, true).bind(
            |r: Result<FileStat<Seq<char>>, SpecError>|
                open_or_create(root_ino, o, Spot::of(o.path), r),
        )
    } else {
        open_existing(o)
    }
}

/// The rest of `open_file`, where a file may be created and `r` is what the path led to.
pub open spec fn open_or_create(
    root_ino: i64,
    o: Opening<Seq<char>>,
    spot: Spot<Seq<char>>,
    r: Result<FileStat<Seq<char>>, SpecError>,
) -> Script<File<Seq<char>>> {
    match r {
        Ok(info) => if o.flags.exclusive {
            script::fail(ErrorKind::AlreadyExists, "file already exists"@)
        } else if info.attr.kind == FileType::Dir {
            script::fail(ErrorKind::InvalidInput, "cannot open directory as file"@)
        } else {
            open_existing(o)
        },
        Err(e) => if e.kind == ErrorKind::NotFound {
            create::create_in_dir(root_ino, spot, o.flags.exclusive).and_next(
                |ino: i64| open_existing(o),
            )
        } else {
            Script::Done(Err(e))
        },
    }
}

/// The rest of `open_file`, where the file is there.
pub open spec fn open_existing(o: Opening<Seq<char>>) -> Script<File<Seq<char>>> {
    lookup::resolve(o.path, true).and_next(|info: FileStat<Seq<char>>| open_resolved(o, info))
}

/// The rest of `open_file`, the attributes being known. The handle keeps them as they were before
/// the file was truncated.
pub open spec fn open_resolved(o: Opening<Seq<char>>, info: FileStat<Seq<char>>) -> Script<
    File<Seq<char>>,
> {
    if info.attr.kind == FileType::Dir {
        script::fail(ErrorKind::InvalidInput, "cannot open directory as file"@)
    } else if o.flags.truncate && o.flags.write {
        attr::logged_truncate(o.log, o.path, 0).and_next(|u: ()| open_handle(o, info))
    } else {
        open_handle(o, info)
    }
}

/// The last step of opening a file: its handle gets a number.
pub open spec fn open_handle(o: Opening<Seq<char>>, info: FileStat<Seq<char>>) -> Script<
    File<Seq<char>>,
> {
    Script::Ask(
        Request::Registry(RegistryRequest::NextFileId),
        |reply: SpecReply|
            match reply.file_id() {
                Err(e) => Script::Done(Err(e)),
                Ok(id) => Script::Done(Ok(File::opened(id, o.path, info, o.flags, o.log))),
            },
    )
}

/// Opens the file at a normalized path, the last symbolic link not followed.
pub open spec fn lopen(o: Opening<Seq<char>>) -> Script<File<Seq<char>>> {
    lookup::resolve(o.path, false).and_next(|info: FileStat<Seq<char>>| lopen_resolved(o, info))
}

/// The rest of `lopen`, the attributes being known.
pub open spec fn lopen_resolved(o: Opening<Seq<char>>, info: FileStat<Seq<char>>) -> Script<
    File<Seq<char>>,
> {
    if info.attr.kind == FileType::Dir {
        script::fail(ErrorKind::InvalidInput, "cannot open directory as file"@)
    } else {
        open_handle(o, info)
    }
}

/// Open a file with the given flags.
pub enum Open {
    /// Looking for the file before creating it.
    Probe { root_ino: i64, opening: Opening, spot: Spot, op: Resolve },
    Create { opening: Opening, create: CreateInDir },
    Resolve { opening: Opening, op: Resolve },
    Truncate { opening: Opening, info: FileStat, truncate: Logged<Truncate> },
    Handle { opening: Opening, info: FileStat },
    /// Looking for the file without following the last symbolic link.
    Lookup { opening: Opening, op: Resolve },
}

fn directory_refused() -> (e: FsError)
    ensures
        e@ == (FsError {
            kind: ErrorKind::InvalidInput,
            message: "cannot open directory as file"@,
        }),
{
    FsError::new(ErrorKind::InvalidInput, "cannot open directory as file")
}

impl Open {
    /// What is left to do.
    pub open spec fn plan(self) -> Script<File<Seq<char>>> {
        match self {
            Open::Probe { root_ino, opening, spot, op } => {
                let o = opening@;
                let spot = spot@;
                op.script().bind(
                    |r: Result<FileStat<Seq<char>>, SpecError>|
                        open_or_create(root_ino, o, spot, r),
                )
            },
            Open::Create { opening, create } => {
                let o = opening@;
                create.script().and_next(|ino: i64| open_existing(o))
            },
            Open::Resolve { opening, op } => {
                let o = opening@;
                op.script().and_next(|info: FileStat<Seq<char>>| open_resolved(o, info))
            },
            Open::Truncate { opening, info, truncate } => {
                let o = opening@;
                let info = info@;
                truncate.script().and_next(|u: ()| open_handle(o, info))
            },
            Open::Handle { opening, info } => open_handle(opening@, info@),
            Open::Lookup { opening, op } => {
                let o = opening@;
                op.script().and_next(|info: FileStat<Seq<char>>| lopen_resolved(o, info))
            },
        }
    }

    pub fn start(root_ino: i64, opening: Opening) -> (s: Step<Open, File>)
        requires
            path::is_absolute(opening@.path),
        ensures
            s.script() == open_file(root_ino, opening@),
    {
        if opening.flags.create {
            let spot = Spot::new(opening.path.as_str());
            match Resolve::start(opening.path.as_str(), true) {
                Step::Pending(op) => Step::Pending(Open::Probe { root_ino, opening, spot, op }),
                Step::Done(r) => Open::probed(root_ino, opening, spot, r),
            }
        } else {
            Open::existing(opening)
        }
    }

    /// Open a file without following symlinks.
    pub fn start_lopen(opening: Opening) -> (s: Step<Open, File>)
        ensures
            s.script() == lopen(opening@),
    {
        match Resolve::start(opening.path.as_str(), false) {
            Step::Pending(op) => Step::Pending(Open::Lookup { opening, op }),
            Step::Done(Err(e)) => Step::Done(Err(e)),
            Step::Done(Ok(info)) => Open::looked_up(opening, info),
        }
    }

    fn probed(
        root_ino: i64,
        opening: Opening,
        spot: Spot,
        r: Result<FileStat, FsError>,
    ) -> (s: Step<Open, File>)
        ensures
            script::stage(s, |o: Open| o.plan()) == open_or_create(
                root_ino,
                opening@,
                spot@,
                script::outcome(r),
            ),
    {
        match r {
            Ok(info) => {
                if opening.flags.exclusive {
                    return Step::Done(
                        Err(FsError::new(ErrorKind::AlreadyExists, "file already exists")),
                    );
                }
                if info.is_dir() {
                    return Step::Done(Err(directory_refused()));
                }
                Open::existing(opening)
            },
            Err(e) => if e.kind == ErrorKind::NotFound {
                let exclusive = opening.flags.exclusive;
                match CreateInDir::start(root_ino, spot, exclusive) {
                    Step::Pending(create) => Step::Pending(Open::Create { opening, create }),
                    Step::Done(Err(e)) => Step::Done(Err(e)),
                    Step::Done(Ok(_)) => Open::existing(opening),
                }
            } else {
                Step::Done(Err(e))
            },
        }
    }

    fn existing(opening: Opening) -> (s: Step<Open, File>)
        ensures
            script::stage(s, |o: Open| o.plan()) == open_existing(opening@),
    {
        match Resolve::start(opening.path.as_str(), true) {
            Step::Pending(op) => Step::Pending(Open::Resolve { opening, op }),
            Step::Done(Err(e)) => Step::Done(Err(e)),
            Step::Done(Ok(info)) => Open::resolved(opening, info),
        }
    }

    fn resolved(opening: Opening, info: FileStat) -> (s: Step<Open, File>)
        ensures
            script::stage(s, |o: Open| o.plan()) == open_resolved(opening@, info@),
    {
        if info.is_dir() {
            return Step::Done(Err(directory_refused()));
        }
        if opening.flags.truncate && opening.flags.write {
            match start_truncate(opening.log, opening.path.as_str(), 0) {
                Step::Pending(truncate) => Step::Pending(
                    Open::Truncate { opening, info, truncate },
                ),
                Step::Done(Err(e)) => Step::Done(Err(e)),
                Step::Done(Ok(_)) => Step::Pending(Open::Handle { opening, info }),
            }
        } else {
            Step::Pending(Open::Handle { opening, info })
        }
    }

    fn looked_up(opening: Opening, info: FileStat) -> (s: Step<Open, File>)
        ensures
            script::stage(s, |o: Open| o.plan()) == lopen_resolved(opening@, info@),
    {
        if info.is_dir() {
            Step::Done(Err(directory_refused()))
        } else {
            Step::Pending(Open::Handle { opening, info })
        }
    }
}

impl Operation for Open {
    type Output = File;

    open spec fn script(self) -> Script<File<Seq<char>>> {
        self.plan()
    }

    open spec fn accepts(self, reply: SpecReply) -> bool {
        true
    }

    fn admits(&self, _reply: &Reply) -> (b: bool) {
        true
    }

    proof fn asks(self) {
        match self {
            Open::Probe { root_ino, opening, spot, op } => op.asks(),
            Open::Create { opening, create } => create.asks(),
            Open::Resolve { opening, op } => op.asks(),
            Open::Truncate { opening, info, truncate } => truncate.asks(),
            Open::Handle { opening, info } => {},
            Open::Lookup { opening, op } => op.asks(),
        }
    }

    fn request(&self) -> (q: Request) {
        match self {
            Open::Probe { root_ino: _, opening: _, spot: _, op } => op.request(),
            Open::Create { opening: _, create } => create.request(),
            Open::Resolve { opening: _, op } => op.request(),
            Open::Truncate { opening: _, info: _, truncate } => truncate.request(),
            Open::Handle { opening: _, info: _ } => Request::Registry(RegistryRequest::NextFileId),
            Open::Lookup { opening: _, op } => op.request(),
        }
    }

    fn resume(self, reply: Reply) -> (s: Step<Open, File>) {
        proof {
            self.asks();
        }
        match self {
            Open::Probe { root_ino, opening, spot, op } => match op.resume(reply) {
                Step::Pending(op) => Step::Pending(Open::Probe { root_ino, opening, spot, op }),
                Step::Done(r) => Open::probed(root_ino, opening, spot, r),
            },
            Open::Create { opening, create } => match create.resume(reply) {
                Step::Pending(create) => Step::Pending(Open::Create { opening, create }),
                Step::Done(Err(e)) => Step::Done(Err(e)),
                Step::Done(Ok(_)) => Open::existing(opening),
            },
            Open::Resolve { opening, op } => match op.resume(reply) {
                Step::Pending(op) => Step::Pending(Open::Resolve { opening, op }),
                Step::Done(Err(e)) => Step::Done(Err(e)),
                Step::Done(Ok(info)) => Open::resolved(opening, info),
            },
            Open::Truncate { opening, info, truncate } => match truncate.resume(reply) {
                Step::Pending(truncate) => Step::Pending(
                    Open::Truncate { opening, info, truncate },
                ),
                Step::Done(Err(e)) => Step::Done(Err(e)),
                Step::Done(Ok(_)) => Step::Pending(Open::Handle { opening, info }),
            },
            Open::Handle { opening, info } => match reply.into_file_id() {
                Err(e) => Step::Done(Err(e)),
                Ok(id) => {
                    let file = File {
                        id,
                        path: opening.path,
                        inode: info.inode(),
                        info,
                        flags: opening.flags,
                        offset: 0,
                        log: opening.log,
                    };
                    assert(file@ == File::opened(
                        id,
                        opening@.path,
                        info@,
                        opening@.flags,
                        opening@.log,
                    ));
                    Step::Done(Ok(file))
                },
            },
            Open::Lookup { opening, op } => match op.resume(reply) {
                Step::Pending(op) => Step::Pending(Open::Lookup { opening, op }),
                Step::Done(Err(e)) => Step::Done(Err(e)),
                Step::Done(Ok(info)) => Open::looked_up(opening, info),
            },
        }
    }
}

} // verus!
