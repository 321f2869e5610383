//! What fails is passed on: where a service reports a failure, the operation ends with it.
use crate::error::{ErrorKind, FsError, MetaError};
use crate::file::File;
use crate::laws::run;
use crate::laws::run::Services;
use crate::meta::{FileLockQuery, FileType, SetAttrFlags, SetAttrRequest, StatFsSnapshot};
use crate::ops::adapt;
use crate::ops::attr;
use crate::ops::attr::LockChange;
use crate::ops::create;
use crate::ops::handle;
use crate::ops::io;
use crate::ops::io::Write;
use crate::ops::link;
use crate::ops::link::NewLink;
use crate::ops::lookup;
use crate::ops::mkdir;
use crate::ops::open;
use crate::ops::open::Opening;
use crate::ops::remove;
use crate::ops::rename;
use crate::ops::rename::Move;
use crate::path;
use crate::path::Spot;
use crate::script::{
    DataRequest, MetaRequest, Reply, Request, Script, SpecError, SpecReply, SpecRequest,
};
use crate::stat::{FileStat, StatFs};
use vstd::prelude::*;

verus! {

broadcast use crate::script::group_bind;

/// A failure of the metadata service.
pub type Failure = MetaError<Seq<char>>;

/// The failure that the metadata service replies with, if the reply is one to the request.
pub open spec fn refusal(q: MetaRequest<Seq<char>>, reply: SpecReply) -> Option<Failure> {
    match (q, reply) {
        (MetaRequest::StatFs, Reply::Space(Err(e))) => Some(e),
        (MetaRequest::ResolvePath { .. }, Reply::Inode(Err(e))) => Some(e),
        (MetaRequest::ResolvePathFollow { .. }, Reply::Inode(Err(e))) => Some(e),
        (MetaRequest::LookupPath { .. }, Reply::Entry(Err(e))) => Some(e),
        (MetaRequest::Lookup { .. }, Reply::Child(Err(e))) => Some(e),
        (MetaRequest::Stat { .. }, Reply::Attr(Err(e))) => Some(e),
        (MetaRequest::Mkdir { .. }, Reply::Inode(Err(e))) => Some(e),
        (MetaRequest::CreateFile { .. }, Reply::Inode(Err(e))) => Some(e),
        (MetaRequest::Unlink { .. }, Reply::Unit(Err(e))) => Some(e),
        (MetaRequest::Rmdir { .. }, Reply::Unit(Err(e))) => Some(e),
        (MetaRequest::Rename { .. }, Reply::Unit(Err(e))) => Some(e),
        (MetaRequest::Link { .. }, Reply::Unit(Err(e))) => Some(e),
        (MetaRequest::Symlink { .. }, Reply::Unit(Err(e))) => Some(e),
        (MetaRequest::ReadSymlink { .. }, Reply::Target(Err(e))) => Some(e),
        (MetaRequest::SetFileSize { .. }, Reply::Unit(Err(e))) => Some(e),
        (MetaRequest::SetAttr { .. }, Reply::Changed(Err(e))) => Some(e),
        (MetaRequest::Readdir { .. }, Reply::Entries(Err(e))) => Some(e),
        (MetaRequest::GetPlock { .. }, Reply::Lock(Err(e))) => Some(e),
        (MetaRequest::SetPlock { .. }, Reply::Unit(Err(e))) => Some(e),
        _ => None,
    }
}

/// The text of a failure of the data service or of the clock, if the reply is one to the request.
pub open spec fn trouble(q: SpecRequest, reply: SpecReply) -> Option<Seq<char>> {
    match (q, reply) {
        (Request::Data(DataRequest::Read { .. }), Reply::Data(Err(text))) => Some(text),
        (Request::Data(DataRequest::Write { .. }), Reply::Written(Err(text))) => Some(text),
        (Request::Now, Reply::Time(Err(text))) => Some(text),
        _ => None,
    }
}

/// Whether a reply is of the sort that a request to a service asks for.
pub open spec fn answers(q: SpecRequest, reply: SpecReply) -> bool {
    match q {
        Request::Meta(m) => match m {
            MetaRequest::StatFs => reply is Space,
            MetaRequest::ResolvePath { .. } | MetaRequest::ResolvePathFollow { .. } => reply
                is Inode,
            MetaRequest::LookupPath { .. } => reply is Entry,
            MetaRequest::Lookup { .. } => reply is Child,
            MetaRequest::Stat { .. } => reply is Attr,
            MetaRequest::Mkdir { .. } | MetaRequest::CreateFile { .. } => reply is Inode,
            MetaRequest::ReadSymlink { .. } => reply is Target,
            MetaRequest::SetAttr { .. } => reply is Changed,
            MetaRequest::Readdir { .. } => reply is Entries,
            MetaRequest::GetPlock { .. } => reply is Lock,
            _ => reply is Unit,
        },
        Request::Data(DataRequest::Read { .. }) => reply is Data,
        Request::Data(DataRequest::Write { .. }) => reply is Written,
        Request::Now => reply is Time,
        _ => true,
    }
}

/// An error tells of a failure of the metadata service: it is of the kind to which the failure
/// belongs, and its message is some path, a colon and the text of the failure.
pub open spec fn tells(e: SpecError, failure: Failure) -> bool {
    &&& e.kind == failure.kind.category()
    &&& e.message.len() >= failure.text.len() + 2
    &&& e.message.skip(e.message.len() - failure.text.len()) == failure.text
    &&& e.message[e.message.len() - failure.text.len() - 2] == ':'
}

/// Where the service was asked about a path, the message starts with that path.
pub open spec fn tells_path(q: MetaRequest<Seq<char>>, e: SpecError, failure: Failure) -> bool {
    match q {
        MetaRequest::ResolvePath { path } => e.message == path + ": "@ + failure.text,
        MetaRequest::ResolvePathFollow { path } => e.message == path + ": "@ + failure.text,
        MetaRequest::LookupPath { path } => e.message == path + ": "@ + failure.text,
        _ => true,
    }
}

/// Requests of which a failure is not passed on.
pub type Lenient = spec_fn(SpecRequest) -> bool;

/// Every failure counts.
pub open spec fn strict() -> Lenient {
    |q: SpecRequest| false
}

/// Whether a script ends with a failure as soon as a service reports one, other than to the
/// requests that `but` names. It asks nothing of the access log.
pub open spec fn passes_on<T>(s: Script<T>, but: Lenient) -> bool
    decreases s,
{
    match s {
        Script::Done(_) => true,
        Script::Ask(q, k) => !(q is Log) && forall|reply: SpecReply|
            passes_on(#[trigger] k(reply), but) && ends_with_failure(q, reply, k(reply), but),
    }
}

/// Whether what follows on a reply is the end, where the reply is a failure, or is none to the
/// request, or tells that an inode is gone.
pub open spec fn ends_with_failure<T>(
    q: SpecRequest,
    reply: SpecReply,
    left: Script<T>,
    but: Lenient,
) -> bool {
    !but(q) ==> {
        &&& q matches Request::Meta(m) ==> (refusal(m, reply) matches Some(failure) ==> (
        left matches Script::Done(Err(e)) && tells(e, failure) && tells_path(m, e, failure)))
        &&& trouble(q, reply) matches Some(text) ==> left == Script::<T>::Done(
            Err(FsError { kind: ErrorKind::Other, message: text }),
        )
        &&& !answers(q, reply) ==> left == Script::<T>::Done(
            Err(FsError { kind: ErrorKind::Other, message: "unexpected reply"@ }),
        )
        &&& reply matches Reply::Attr(Ok(None)) ==> inode_missed(q, left)
    }
}

/// Whether what follows is that an inode was not found, or that a file is made in place of one that
/// is gone, if the request was for the attributes of an inode.
pub open spec fn inode_missed<T>(q: SpecRequest, left: Script<T>) -> bool {
    q matches Request::Meta(MetaRequest::Stat { .. }) ==> match left {
        Script::Done(r) => r matches Err(e) && e.kind == ErrorKind::NotFound,
        Script::Ask(next, _) => next matches Request::Meta(MetaRequest::CreateFile { .. }),
    }
}

/// An error that was made of a failure tells of it.
proof fn made_of_failure(path: Seq<char>, failure: Failure)
    ensures
        tells(FsError::from_meta(path, failure), failure),
{
    let e = FsError::from_meta(path, failure);
    reveal_strlit(": ");
    assert(e.message.skip(e.message.len() - failure.text.len()) =~= failure.text);
    assert((path + ": "@)[path.len() as int] == ':');
    assert(e.message[path.len() as int] == ':');
}

proof fn all_failures_tell()
    ensures
        forall|path: Seq<char>, failure: Failure| #[trigger]
            tells(FsError::from_meta(path, failure), failure),
{
    assert forall|path: Seq<char>, failure: Failure| #[trigger]
        tells(FsError::from_meta(path, failure), failure) by {
        made_of_failure(path, failure);
    }
}

/// A script that passes failures on, continued with such scripts, does too.
proof fn passes_and_next<T, U>(s: Script<T>, but: Lenient, next: spec_fn(T) -> Script<U>)
    requires
        passes_on(s, but),
        forall|v: T| #[trigger] passes_on(next(v), but),
    ensures
        passes_on(s.and_next(next), but),
    decreases s,
{
    match s {
        Script::Done(r) => {
            if let Ok(v) = r {
                assert(passes_on(next(v), but));
            }
        },
        Script::Ask(q, k) => {
            let b = s.and_next(next);
            assert forall|reply: SpecReply|
            passes_on(#[trigger] (b->Ask_1)(reply), but) && ends_with_failure(
                q,
                reply,
                (b->Ask_1)(reply),
                but,
            ) by {
                assert(passes_on(k(reply), but) && ends_with_failure(q, reply, k(reply), but));
                passes_and_next(k(reply), but, next);
            }
        },
    }
}

/// What is passed on where every failure counts is passed on where fewer do.
proof fn passes_leniently<T>(s: Script<T>, but: Lenient)
    requires
        passes_on(s, strict()),
    ensures
        passes_on(s, but),
    decreases s,
{
    if let Script::Ask(q, k) = s {
        assert forall|reply: SpecReply|
            passes_on(#[trigger] k(reply), but) && ends_with_failure(q, reply, k(reply), but) by {
            assert(passes_on(k(reply), strict()) && ends_with_failure(
                q,
                reply,
                k(reply),
                strict(),
            ));
            passes_leniently(k(reply), but);
        }
    }
}

/// Resolving paths and finding directories.
pub proof fn lookups_pass_on(path: Seq<char>, root_ino: i64, flag: bool)
    ensures
        passes_on(lookup::resolve(path, flag), strict()),
        passes_on(lookup::parent_dir(root_ino, path, flag), strict()),
{
    all_failures_tell();
    reveal_with_fuel(passes_on, 3);
}

/// Looking at things, and changing what a path leads to.
pub proof fn paths_pass_on(
    path: Seq<char>,
    size: u64,
    attrs: SetAttrRequest,
    flags: SetAttrFlags,
    query: FileLockQuery,
    change: LockChange,
)
    ensures
        passes_on(attr::stat_fs(), strict()),
        passes_on(adapt::snapshot(), strict()),
        passes_on(attr::readdir(path), strict()),
        passes_on(link::readlink(path), strict()),
        passes_on(attr::truncate(path, size), strict()),
        passes_on(attr::set_attr(path, attrs, flags), strict()),
        passes_on(attr::get_plock(path, query), strict()),
        passes_on(attr::set_plock(path, change), strict()),
{
    all_failures_tell();
    lookups_pass_on(path, 0, true);
    let find = lookup::resolve(path, true);
    assert(passes_on(attr::stat_fs(), strict()) && passes_on(attr::readdir(path), strict())
        && passes_on(link::readlink(path), strict()) && passes_on(
        attr::truncate(path, size),
        strict(),
    )) by {
        reveal_with_fuel(passes_on, 4);
    }
    let source = |s: StatFs| Script::<StatFsSnapshot>::Done(Ok(s.source()));
    assert forall|s: StatFs| #[trigger] passes_on(source(s), strict()) by {}
    passes_and_next(attr::stat_fs(), strict(), source);
    let set = |info: FileStat<Seq<char>>| attr::set_attr_now(path, info.inode, attrs, flags);
    let ask = |info: FileStat<Seq<char>>| attr::get_plock_now(path, info.inode, query);
    let lock = |info: FileStat<Seq<char>>| attr::set_plock_now(path, info.inode, change);
    assert forall|info: FileStat<Seq<char>>| #[trigger] passes_on(set(info), strict()) by {
        reveal_with_fuel(passes_on, 3);
    }
    assert forall|info: FileStat<Seq<char>>| #[trigger] passes_on(ask(info), strict()) by {
        reveal_with_fuel(passes_on, 2);
    }
    assert forall|info: FileStat<Seq<char>>| #[trigger] passes_on(lock(info), strict()) by {
        reveal_with_fuel(passes_on, 2);
    }
    passes_and_next(find, strict(), set);
    passes_and_next(find, strict(), ask);
    passes_and_next(find, strict(), lock);
}

/// Making and removing things.
pub proof fn changes_pass_on(
    root_ino: i64,
    path: Seq<char>,
    existing: Seq<char>,
    target: Seq<char>,
    create_new: bool,
)
    ensures
        passes_on(mkdir::mkdir(root_ino, path), strict()),
        passes_on(create::create_in_dir(root_ino, Spot::of(path), create_new), strict()),
        passes_on(remove::unlink(root_ino, path), strict()),
        passes_on(remove::rmdir(root_ino, path), strict()),
        passes_on(link::symlink(root_ino, path, target), strict()),
        passes_on(link::link(root_ino, existing, path), strict()),
{
    all_failures_tell();
    let d = path::parent(path);
    let name = path::file_name(path);
    let spot = Spot::of(path);
    lookups_pass_on(d, root_ino, true);
    lookups_pass_on(d, root_ino, false);
    let strictly = lookup::parent_dir(root_ino, d, true);
    let make = |parent: i64| mkdir::mkdir_entry(path, name, parent);
    let new = |parent: i64|
        create::create_in_dir_entry(spot.path, spot.name, create_new, parent);
    let drop_file = |parent: i64| remove::unlink_entry(path, name, parent);
    let drop_dir = |parent: i64| remove::rmdir_entry(path, name, parent);
    assert forall|parent: i64| #[trigger] passes_on(make(parent), strict()) by {
        reveal_with_fuel(passes_on, 4);
    }
    assert forall|parent: i64| #[trigger] passes_on(new(parent), strict()) by {
        reveal_with_fuel(passes_on, 4);
    }
    assert forall|parent: i64| #[trigger] passes_on(drop_file(parent), strict()) by {
        reveal_with_fuel(passes_on, 4);
    }
    assert forall|parent: i64| #[trigger] passes_on(drop_dir(parent), strict()) by {
        reveal_with_fuel(passes_on, 5);
    }
    passes_and_next(strictly, strict(), make);
    passes_and_next(strictly, strict(), new);
    passes_and_next(strictly, strict(), drop_file);
    passes_and_next(strictly, strict(), drop_dir);
    assert forall|l: NewLink<Seq<char>>| #[trigger]
        passes_on(link::place(root_ino, spot, l), strict()) by {
        place_passes_on(root_ino, spot, l);
    }
    assert(passes_on(link::link_source(root_ino, existing, spot), strict())) by {
        let s = link::link_source(root_ino, existing, spot);
        assert forall|reply: SpecReply|
            passes_on(#[trigger] (s->Ask_1)(reply), strict()) && ends_with_failure(
            s->Ask_0,
            reply,
            (s->Ask_1)(reply),
            strict(),
        ) by {
            if let Ok(Some((ino, kind))) = reply.entry(existing) {
                assert(passes_on(
                    link::place(root_ino, spot, NewLink::Hard { ino }),
                    strict(),
                ));
            }
        }
    }
}

proof fn place_passes_on(root_ino: i64, spot: Spot<Seq<char>>, l: NewLink<Seq<char>>)
    ensures
        passes_on(link::place(root_ino, spot, l), strict()),
{
    all_failures_tell();
    lookups_pass_on(spot.dir, root_ino, false);
    assert forall|parent: i64| #[trigger]
        passes_on(link::place_parent(spot, l, parent), strict()) by {
        reveal_with_fuel(passes_on, 4);
    }
    passes_and_next(
        lookup::parent_dir(root_ino, spot.dir, false),
        strict(),
        |parent: i64| link::place_parent(spot, l, parent),
    );
}

proof fn below_passes_on(above: Seq<char>, parts: Seq<Seq<char>>, ino: i64)
    ensures
        passes_on(mkdir::mkdir_p_below(above, parts, ino), strict()),
    decreases parts.len(),
{
    all_failures_tell();
    if parts.len() > 0 {
        let here = above.push('/') + parts[0];
        let rest = parts.skip(1);
        let s = mkdir::mkdir_p_part(here, parts[0], rest, ino);
        assert(mkdir::mkdir_p_below(above, parts, ino) == s);
        assert forall|next: i64| #[trigger]
            passes_on(mkdir::mkdir_p_below(here, rest, next), strict()) by {
            below_passes_on(here, rest, next);
        }
        let make = mkdir::mkdir_p_make(here, parts[0], rest, ino);
        assert(passes_on(make, strict())) by {
            assert forall|reply: SpecReply|
            passes_on(#[trigger] (make->Ask_1)(reply), strict()) && ends_with_failure(
                make->Ask_0,
                reply,
                (make->Ask_1)(reply),
                strict(),
            ) by {
                if let Ok(next) = reply.inode(here) {
                    assert(passes_on(mkdir::mkdir_p_below(here, rest, next), strict()));
                }
            }
        }
        assert forall|next: i64| #[trigger]
            passes_on(mkdir::mkdir_p_kind(here, rest, next), strict()) by {
            let kind = mkdir::mkdir_p_kind(here, rest, next);
            assert forall|reply: SpecReply|
            passes_on(#[trigger] (kind->Ask_1)(reply), strict()) && ends_with_failure(
                kind->Ask_0,
                reply,
                (kind->Ask_1)(reply),
                strict(),
            ) by {
                assert(passes_on(mkdir::mkdir_p_below(here, rest, next), strict()));
            }
        }
        assert forall|reply: SpecReply|
            passes_on(#[trigger] (s->Ask_1)(reply), strict()) && ends_with_failure(
            s->Ask_0,
            reply,
            (s->Ask_1)(reply),
            strict(),
        ) by {
            if let Ok(Some(next)) = reply.child(here) {
                assert(passes_on(mkdir::mkdir_p_kind(here, rest, next), strict()));
            }
        }
    }
}

/// Making directories one in another.
pub proof fn mkdir_p_passes_on(root_ino: i64, path: Seq<char>)
    ensures
        passes_on(mkdir::mkdir_p(root_ino, path), strict()),
{
    all_failures_tell();
    let n = path::normalize(path);
    let s = mkdir::mkdir_p_whole(root_ino, n);
    below_passes_on(Seq::empty(), path::components(n), root_ino);
    assert(passes_on(s, strict())) by {
        assert forall|reply: SpecReply|
            passes_on(#[trigger] (s->Ask_1)(reply), strict()) && ends_with_failure(
            s->Ask_0,
            reply,
            (s->Ask_1)(reply),
            strict(),
        ) by {}
    }
}

/// Leaving out the result.
pub proof fn discard_passes_on<T>(s: Script<T>)
    requires
        passes_on(s, strict()),
    ensures
        passes_on(adapt::discard(s), strict()),
{
    let next = |v: T| Script::<()>::Done(Ok(()));
    assert forall|v: T| #[trigger] passes_on(next(v), strict()) by {}
    passes_and_next(s, strict(), next);
}

/// Looking for the file that is to be created may fail: creating it then says what is wrong.
pub open spec fn lenient_lookup(name: Seq<char>) -> Lenient {
    |q: SpecRequest|
        q matches Request::Meta(MetaRequest::Lookup { parent, name: sought }) && sought == name
}

/// Creating a file with the directories above it. Only the lookup of the file itself may fail.
pub proof fn create_file_passes_on(root_ino: i64, path: Seq<char>)
    ensures
        passes_on(
            create::create_file(root_ino, path),
            lenient_lookup(path::file_name(path)),
        ),
{
    all_failures_tell();
    let name = path::file_name(path);
    let but = lenient_lookup(name);
    let d = path::parent(path);
    mkdir_p_passes_on(root_ino, d);
    passes_leniently(mkdir::mkdir_p(root_ino, d), but);
    assert forall|dir: i64| #[trigger] passes_on(create::create_entry(path, name, dir), but) by {
        reveal_with_fuel(passes_on, 4);
    }
    passes_and_next(
        mkdir::mkdir_p(root_ino, d),
        but,
        |dir: i64| create::create_entry(path, name, dir),
    );
}

/// A file that cannot be looked up, or whose inode is gone, is created as one that is missing.
pub proof fn create_file_takes_failures_for_missing(
    path: Seq<char>,
    name: Seq<char>,
    dir: i64,
    ino: i64,
    reply: SpecReply,
)
    ensures
        ({
            let looked_up = create::create_entry(path, name, dir)->Ask_1;
            let known = create::create_existing(path, name, dir, ino)->Ask_1;
            let missing = looked_up(Reply::Child(Ok(None)));
            &&& missing matches Script::Ask(Request::Meta(q), _) && q == MetaRequest::CreateFile {
                parent: dir,
                name,
            }
            &&& !(reply matches Reply::Child(Ok(Some(_)))) ==> looked_up(reply) == missing
            &&& known(Reply::Attr(Ok(None))) == missing
        }),
{
}

/// Where it cannot be told whether the new path is taken, a rename goes on as where it is free.
pub proof fn rename_takes_failures_for_missing(
    root_ino: i64,
    m: Move<Seq<char>>,
    old_parent: i64,
    kind: FileType,
    reply: SpecReply,
)
    ensures
        ({
            let looked_up = rename::rename_dest(root_ino, m, old_parent, kind)->Ask_1;
            !(reply matches Reply::Entry(Ok(Some(_)))) ==> looked_up(reply) == looked_up(
                Reply::Entry(Ok(None)),
            )
        }),
{
}

/// Whether a path exists is always told: where the lookup fails, it does not.
pub proof fn path_exists_never_fails<W>(sv: Services<W>, w: W, path: Seq<char>)
    ensures
        run::run(sv, w, attr::path_exists(path)).1 == Ok::<bool, SpecError>(
            sv(w, Request::Meta(MetaRequest::LookupPath { path })).1 matches Reply::Entry(
                Ok(Some(_)),
            ),
        ),
{
    reveal_with_fuel(run::run, 2);
}

/// Nothing is read or written without a channel.
pub proof fn transfers_need_channels(
    ino: i64,
    offset: u64,
    len: usize,
    w: Write<Seq<char>, Seq<u8>>,
)
    ensures
        io::read_channel(ino, offset, len)->Ask_1(Reply::Channel(None)) matches Script::Done(
            Err(e),
        ) && e.kind == ErrorKind::Other,
        io::write_channel(w, ino)->Ask_1(Reply::Channel(None)) matches Script::Done(Err(e))
            && e.kind == ErrorKind::Other,
{
}

/// Looking for what a rename would replace may fail: it then counts as nothing.
pub open spec fn lenient_target(new: Seq<char>) -> Lenient {
    |q: SpecRequest|
        q matches Request::Meta(MetaRequest::LookupPath { path }) && path == new
}

/// Renaming. Only the lookup of the new path may fail.
pub proof fn rename_passes_on(root_ino: i64, old: Seq<char>, new: Seq<char>)
    ensures
        passes_on(rename::rename(root_ino, old, new), lenient_target(new)),
{
    all_failures_tell();
    let but = lenient_target(new);
    let m = Move::of(old, new);
    let d = path::parent(old);
    lookups_pass_on(d, root_ino, false);
    passes_leniently(lookup::parent_dir(root_ino, d, false), but);
    lookups_pass_on(m.new_dir, root_ino, false);
    passes_leniently(lookup::parent_dir(root_ino, m.new_dir, false), but);
    mkdir_p_passes_on(root_ino, m.new_dir);
    passes_leniently(mkdir::mkdir_p(root_ino, m.new_dir), but);
    assert forall|old_parent: i64| #[trigger]
        passes_on(rename::rename_source(root_ino, m, old_parent), but) by {
        rename_source_passes_on(root_ino, m, old_parent, but);
    }
    passes_and_next(
        lookup::parent_dir(root_ino, d, false),
        but,
        |old_parent: i64| rename::rename_source(root_ino, m, old_parent),
    );
}

proof fn rename_source_passes_on(
    root_ino: i64,
    m: Move<Seq<char>>,
    old_parent: i64,
    but: Lenient,
)
    requires
        but == lenient_target(m.new),
        passes_on(lookup::parent_dir(root_ino, m.new_dir, false), but),
        passes_on(mkdir::mkdir_p(root_ino, m.new_dir), but),
    ensures
        passes_on(rename::rename_source(root_ino, m, old_parent), but),
{
    all_failures_tell();
    let parents = rename::rename_parents(root_ino, m, old_parent);
    assert forall|p: i64| #[trigger] passes_on(rename::rename_now(m, old_parent, p), but) by {
        reveal_with_fuel(passes_on, 2);
    }
    passes_and_next(
        mkdir::mkdir_p(root_ino, m.new_dir),
        but,
        |new_parent: i64| rename::rename_now(m, old_parent, new_parent),
    );
    assert(passes_on(parents, but));
    assert forall|is_dir: bool, p: i64| #[trigger]
        passes_on(rename::rename_clear(root_ino, m, old_parent, is_dir, p), but) by {
        let s = rename::rename_clear(root_ino, m, old_parent, is_dir, p);
        assert forall|reply: SpecReply|
            passes_on(#[trigger] (s->Ask_1)(reply), but) && ends_with_failure(
            s->Ask_0,
            reply,
            (s->Ask_1)(reply),
            but,
        ) by {}
    }
    assert forall|dest: i64, p: i64| #[trigger]
        passes_on(rename::rename_children(root_ino, m, old_parent, dest, p), but) by {
        let s = rename::rename_children(root_ino, m, old_parent, dest, p);
        assert forall|reply: SpecReply|
            passes_on(#[trigger] (s->Ask_1)(reply), but) && ends_with_failure(
            s->Ask_0,
            reply,
            (s->Ask_1)(reply),
            but,
        ) by {
            assert(passes_on(rename::rename_clear(root_ino, m, old_parent, true, p), but));
        }
    }
    assert forall|kind: FileType, dest: i64, dest_kind: FileType|
        #[trigger]
        passes_on(
            rename::rename_occupied(root_ino, m, old_parent, kind, dest, dest_kind),
            but,
        ) by {
        let next = |p: i64|
            rename::rename_over(root_ino, m, old_parent, kind, dest, dest_kind, p);
        assert forall|p: i64| #[trigger] passes_on(next(p), but) by {
            assert(passes_on(rename::rename_clear(root_ino, m, old_parent, false, p), but));
            assert(passes_on(rename::rename_children(root_ino, m, old_parent, dest, p), but));
        }
        passes_and_next(lookup::parent_dir(root_ino, m.new_dir, false), but, next);
    }
    assert forall|kind: FileType| #[trigger]
        passes_on(rename::rename_dest(root_ino, m, old_parent, kind), but) by {
        let s = rename::rename_dest(root_ino, m, old_parent, kind);
        assert forall|reply: SpecReply|
            passes_on(#[trigger] (s->Ask_1)(reply), but) && ends_with_failure(
            s->Ask_0,
            reply,
            (s->Ask_1)(reply),
            but,
        ) by {
            if let Ok(Some((dest, dest_kind))) = reply.entry(m.new) {
                assert(passes_on(
                    rename::rename_occupied(root_ino, m, old_parent, kind, dest, dest_kind),
                    but,
                ));
            }
        }
    }
    assert forall|ino: i64| #[trigger]
        passes_on(rename::rename_kind(root_ino, m, old_parent, ino), but) by {
        let s = rename::rename_kind(root_ino, m, old_parent, ino);
        assert forall|reply: SpecReply|
            passes_on(#[trigger] (s->Ask_1)(reply), but) && ends_with_failure(
            s->Ask_0,
            reply,
            (s->Ask_1)(reply),
            but,
        ) by {
            if let Ok(Some(attr)) = reply.attr(m.old) {
                assert(passes_on(
                    rename::rename_dest(root_ino, m, old_parent, attr.kind),
                    but,
                ));
            }
        }
    }
    let s = rename::rename_source(root_ino, m, old_parent);
    assert forall|reply: SpecReply|
            passes_on(#[trigger] (s->Ask_1)(reply), but) && ends_with_failure(
        s->Ask_0,
        reply,
        (s->Ask_1)(reply),
        but,
    ) by {
        if let Ok(Some(ino)) = reply.child(m.old) {
            assert(passes_on(rename::rename_kind(root_ino, m, old_parent, ino), but));
        }
    }
}

/// Reading and writing the contents of an inode.
pub proof fn inodes_pass_on(path: Seq<char>, ino: i64, offset: u64, len: usize, data: Seq<u8>)
    ensures
        passes_on(io::read_inode(path, ino, offset, len), strict()),
        passes_on(io::write_inode(path, ino, offset, data), strict()),
{
    all_failures_tell();
    let w = Write::of(path, offset, data);
    assert(passes_on(io::register(path, ino), strict())) by {
        reveal_with_fuel(passes_on, 4);
    }
    assert(passes_on(io::read_channel(ino, offset, len), strict())) by {
        reveal_with_fuel(passes_on, 3);
    }
    assert forall|n: usize| #[trigger]
        passes_on(io::write_size(path, ino, w.end(), n), strict()) by {
        reveal_with_fuel(passes_on, 4);
    }
    assert forall|writer: u64| #[trigger] passes_on(io::write_data(w, ino, writer), strict()) by {
        let s = io::write_data(w, ino, writer);
        assert forall|reply: SpecReply|
            passes_on(#[trigger] (s->Ask_1)(reply), strict()) && ends_with_failure(
            s->Ask_0,
            reply,
            (s->Ask_1)(reply),
            strict(),
        ) by {
            if let Ok(n) = reply.written() {
                assert(passes_on(io::write_size(path, ino, w.end(), n), strict()));
            }
        }
    }
    assert(passes_on(io::write_channel(w, ino), strict())) by {
        let s = io::write_channel(w, ino);
        assert forall|reply: SpecReply|
            passes_on(#[trigger] (s->Ask_1)(reply), strict()) && ends_with_failure(
            s->Ask_0,
            reply,
            (s->Ask_1)(reply),
            strict(),
        ) by {
            if let Ok(Some(writer)) = reply.channel() {
                assert(passes_on(io::write_data(w, ino, writer), strict()));
            }
        }
    }
    passes_and_next(
        io::register(path, ino),
        strict(),
        |u: ()| io::read_channel(ino, offset, len),
    );
    passes_and_next(io::register(path, ino), strict(), |u: ()| io::write_channel(w, ino));
}

/// Reading and writing contents by path.
pub proof fn contents_pass_on(path: Seq<char>, offset: u64, len: usize, data: Seq<u8>)
    ensures
        passes_on(io::read_at(path, offset, len), strict()),
        passes_on(io::write_at(path, offset, data), strict()),
{
    lookups_pass_on(path, 0, true);
    let w = Write::of(path, offset, data);
    let read = |info: FileStat<Seq<char>>| io::read_inode(path, info.inode, offset, len);
    let write = |info: FileStat<Seq<char>>| io::perform_write(w, info.inode);
    assert forall|info: FileStat<Seq<char>>| #[trigger] passes_on(read(info), strict()) by {
        inodes_pass_on(path, info.inode, offset, len, data);
    }
    assert forall|info: FileStat<Seq<char>>| #[trigger] passes_on(write(info), strict()) by {
        inodes_pass_on(path, info.inode, offset, len, data);
    }
    passes_and_next(lookup::resolve(path, true), strict(), read);
    passes_and_next(lookup::resolve(path, true), strict(), write);
}

/// Working on an open file.
pub proof fn handles_pass_on(
    f: File<Seq<char>>,
    offset: u64,
    len: usize,
    data: Seq<u8>,
    size: u64,
    advance: bool,
    from: Option<u64>,
)
    ensures
        passes_on(handle::read_file(f.path, f.inode, offset, len, advance), strict()),
        passes_on(handle::write_file(Write::of(f.path, offset, data), f.inode, from), strict()),
        passes_on(handle::append_file(f.path, f.inode, data), strict()),
        passes_on(handle::truncate_file(f.path, f.inode, size), strict()),
        passes_on(handle::sync_file(f.path, f.inode), strict()),
        passes_on(handle::refresh_file(f.path, f.inode), strict()),
        passes_on(handle::file_size(f.path, f.inode), strict()),
{
    all_failures_tell();
    inodes_pass_on(f.path, f.inode, offset, len, data);
    assert(passes_on(handle::truncate_file(f.path, f.inode, size), strict()) && passes_on(
        handle::sync_file(f.path, f.inode),
        strict(),
    ) && passes_on(handle::refresh_file(f.path, f.inode), strict()) && passes_on(
        handle::file_size(f.path, f.inode),
        strict(),
    )) by {
        reveal_with_fuel(passes_on, 4);
    }
    let done = |d: Seq<u8>| handle::read_done(d, advance);
    assert forall|d: Seq<u8>| #[trigger] passes_on(done(d), strict()) by {
        reveal_with_fuel(passes_on, 2);
    }
    passes_and_next(io::read_inode(f.path, f.inode, offset, len), strict(), done);
    write_file_passes_on(f, offset, data, from);
    let append = |n: u64| handle::write_file(Write::of(f.path, n, data), f.inode, Some(n));
    assert forall|n: u64| #[trigger] passes_on(append(n), strict()) by {
        write_file_passes_on(f, n, data, Some(n));
    }
    passes_and_next(handle::file_size(f.path, f.inode), strict(), append);
}

proof fn write_file_passes_on(
    f: File<Seq<char>>,
    offset: u64,
    data: Seq<u8>,
    from: Option<u64>,
)
    ensures
        passes_on(handle::write_file(Write::of(f.path, offset, data), f.inode, from), strict()),
{
    inodes_pass_on(f.path, f.inode, offset, 0, data);
    let shift = |n: usize| handle::write_move(from, n);
    assert forall|n: usize| #[trigger] passes_on(shift(n), strict()) by {
        reveal_with_fuel(passes_on, 2);
    }
    passes_and_next(io::write_inode(f.path, f.inode, offset, data), strict(), shift);
}

/// Resolving the path that is to be opened, its attributes included, may fail, where the file may
/// be created.
pub open spec fn lenient_resolve(path: Seq<char>) -> Lenient {
    |q: SpecRequest|
        match q {
            Request::Meta(MetaRequest::ResolvePathFollow { path: sought }) => sought == path,
            Request::Meta(MetaRequest::Stat { .. }) => true,
            _ => false,
        }
}

proof fn resolved_passes_on<T>(
    path: Seq<char>,
    ino: i64,
    after: spec_fn(Result<FileStat<Seq<char>>, SpecError>) -> Script<T>,
)
    requires
        forall|r: Result<FileStat<Seq<char>>, SpecError>| #[trigger]
            passes_on(after(r), lenient_resolve(path)),
    ensures
        passes_on(lookup::resolve_attr(path, ino).bind(after), lenient_resolve(path)),
{
    let but = lenient_resolve(path);
    let s = lookup::resolve_attr(path, ino);
    let t = s.bind(after);
    assert forall|reply: SpecReply|
        passes_on(#[trigger] (t->Ask_1)(reply), but) && ends_with_failure(
        t->Ask_0,
        reply,
        (t->Ask_1)(reply),
        but,
    ) by {
        let r = (s->Ask_1)(reply)->Done_0;
        assert((s->Ask_1)(reply) == Script::<FileStat<Seq<char>>>::Done(r));
        assert((t->Ask_1)(reply) == after(r));
        assert(passes_on(after(r), but));
    }
}

/// Opening files. Where a file may be created, only that it was not found is no failure.
pub proof fn open_passes_on(root_ino: i64, o: Opening<Seq<char>>)
    requires
        o.log ==> !(o.flags.truncate && o.flags.write),
    ensures
        passes_on(open::lopen(o), strict()),
        passes_on(open::open_existing(o), strict()),
        !o.flags.create ==> passes_on(open::open_file(root_ino, o), strict()),
        passes_on(open::open_file(root_ino, o), lenient_resolve(o.path)),
        forall|failure: Failure|
            (#[trigger] failure.kind.category()) != ErrorKind::NotFound ==> ({
                let left = (open::open_file(root_ino, o)->Ask_1)(Reply::Inode(Err(failure)));
                left matches Script::Done(Err(e)) && tells(e, failure)
            }),
{
    all_failures_tell();
    let n = path::normalize(o.path);
    let but = lenient_resolve(o.path);
    let find = lookup::resolve(o.path, true);
    let make = create::create_in_dir(root_ino, Spot::of(o.path), o.flags.exclusive);
    lookups_pass_on(o.path, root_ino, true);
    lookups_pass_on(o.path, root_ino, false);
    changes_pass_on(root_ino, o.path, o.path, o.path, o.flags.exclusive);
    let cut = attr::logged_truncate(o.log, o.path, 0);
    assert(!o.log ==> passes_on(cut, strict())) by {
        reveal_with_fuel(passes_on, 4);
    }
    let handle_of = |info: FileStat<Seq<char>>| open::open_handle(o, info);
    assert forall|info: FileStat<Seq<char>>| #[trigger] passes_on(handle_of(info), strict()) by {
        reveal_with_fuel(passes_on, 2);
    }
    let next = |info: FileStat<Seq<char>>| open::open_resolved(o, info);
    assert forall|info: FileStat<Seq<char>>| #[trigger] passes_on(next(info), strict()) by {
        let last = |u: ()| open::open_handle(o, info);
        assert(passes_on(handle_of(info), strict()));
        assert forall|u: ()| #[trigger] passes_on(last(u), strict()) by {}
        if o.flags.truncate && o.flags.write {
            passes_and_next(cut, strict(), last);
        }
    }
    passes_and_next(find, strict(), next);
    let lnext = |info: FileStat<Seq<char>>| open::lopen_resolved(o, info);
    assert forall|info: FileStat<Seq<char>>| #[trigger] passes_on(lnext(info), strict()) by {
        assert(passes_on(handle_of(info), strict()));
    }
    passes_and_next(lookup::resolve(o.path, false), strict(), lnext);
    let existing = |ino: i64| open::open_existing(o);
    assert forall|ino: i64| #[trigger] passes_on(existing(ino), strict()) by {}
    passes_and_next(make, strict(), existing);
    passes_leniently(open::open_existing(o), but);
    passes_leniently(make.and_next(existing), but);
    if o.flags.create {
        let all = open::open_file(root_ino, o);
        let after = |r: Result<FileStat<Seq<char>>, SpecError>|
            open::open_or_create(root_ino, o, Spot::of(o.path), r);
        assert forall|r: Result<FileStat<Seq<char>>, SpecError>| #[trigger]
            passes_on(after(r), but) by {}
        assert forall|reply: SpecReply|
            passes_on(#[trigger] (all->Ask_1)(reply), but) && ends_with_failure(
            all->Ask_0,
            reply,
            (all->Ask_1)(reply),
            but,
        ) by {
            match reply.inode(o.path) {
                Ok(ino) => {
                    let s = lookup::resolve_attr(o.path, ino);
                    assert((find->Ask_1)(reply) == s);
                    let t = s.bind(after);
                    assert((all->Ask_1)(reply) == t);
                    resolved_passes_on(o.path, ino, after);
                },
                Err(e) => {
                    assert((find->Ask_1)(reply) == Script::<FileStat<Seq<char>>>::Done(Err(e)));
                    assert((all->Ask_1)(reply) == after(Err(e)));
                },
            }
        }
        assert forall|failure: Failure|
            (#[trigger] failure.kind.category()) != ErrorKind::NotFound implies ({
            let left = (all->Ask_1)(Reply::Inode(Err(failure)));
            left matches Script::Done(Err(e)) && tells(e, failure)
        }) by {
            let reply = SpecReply::Inode(Err(failure));
            let e = FsError::from_meta(o.path, failure);
            assert((find->Ask_1)(reply) == Script::<FileStat<Seq<char>>>::Done(Err(e)));
            assert((all->Ask_1)(reply) == after(Err(e)));
        }
    } else {
        let all = open::open_file(root_ino, o);
        assert forall|failure: Failure|
            (#[trigger] failure.kind.category()) != ErrorKind::NotFound implies ({
            let left = (all->Ask_1)(Reply::Inode(Err(failure)));
            left matches Script::Done(Err(e)) && tells(e, failure)
        }) by {
            let reply = SpecReply::Inode(Err(failure));
            assert(ends_with_failure(all->Ask_0, reply, (all->Ask_1)(reply), strict()));
        }
    }
}

} // verus!
