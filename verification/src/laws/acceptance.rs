//! Operations can go on with every reply that is within the range of machine integers.
use crate::ops::adapt::{AttrOf, Discard, ReadSnapshot, Sequence};
use crate::ops::attr::{Exists, GetPlock, ReadStatFs, Readdir, SetAttr, SetPlock, Truncate};
use crate::ops::create::{CreateFile, CreateInDir};
use crate::ops::handle::{FileSize, ReadFile, RefreshFile, SyncFile, TruncateFile, WriteFile};
use crate::ops::io::{ReadAt, ReadInode, Register, WriteAt, WriteInode};
use crate::ops::link::{Link, Place, Readlink};
use crate::ops::logged::Logged;
use crate::ops::lookup::{ParentDir, Resolve};
use crate::ops::mkdir::{Mkdir, MkdirP};
use crate::ops::open::Open;
use crate::ops::remove::{Remove, Rmdir, Unlink};
use crate::ops::remove_all::RemoveAll;
use crate::ops::rename::Rename;
use crate::script::{Operation, SpecReply};
use crate::stat::FileStat;
use vstd::prelude::*;

verus! {

/// Every operation but those that transfer data can go on with every reply.
pub proof fn most_accept_all(reply: SpecReply)
    ensures
        forall|o: Open| #[trigger] o.accepts(reply),
        forall|o: Truncate| #[trigger] o.accepts(reply),
        forall|o: SetAttr| #[trigger] o.accepts(reply),
        forall|o: Readdir| #[trigger] o.accepts(reply),
        forall|o: ReadStatFs| #[trigger] o.accepts(reply),
        forall|o: Exists| #[trigger] o.accepts(reply),
        forall|o: GetPlock| #[trigger] o.accepts(reply),
        forall|o: SetPlock| #[trigger] o.accepts(reply),
        forall|o: Unlink| #[trigger] o.accepts(reply),
        forall|o: Rmdir| #[trigger] o.accepts(reply),
        forall|o: Remove| #[trigger] o.accepts(reply),
        forall|o: CreateInDir| #[trigger] o.accepts(reply),
        forall|o: CreateFile| #[trigger] o.accepts(reply),
        forall|o: Rename| #[trigger] o.accepts(reply),
        forall|o: Resolve| #[trigger] o.accepts(reply),
        forall|o: ParentDir| #[trigger] o.accepts(reply),
        forall|o: Register| #[trigger] o.accepts(reply),
        forall|o: ReadInode| #[trigger] o.accepts(reply),
        forall|o: ReadAt| #[trigger] o.accepts(reply),
        forall|o: Mkdir| #[trigger] o.accepts(reply),
        forall|o: MkdirP| #[trigger] o.accepts(reply),
        forall|o: ReadSnapshot| #[trigger] o.accepts(reply),
        forall|o: Place| #[trigger] o.accepts(reply),
        forall|o: Link| #[trigger] o.accepts(reply),
        forall|o: Readlink| #[trigger] o.accepts(reply),
        forall|o: FileSize| #[trigger] o.accepts(reply),
        forall|o: TruncateFile| #[trigger] o.accepts(reply),
        forall|o: SyncFile| #[trigger] o.accepts(reply),
        forall|o: RefreshFile| #[trigger] o.accepts(reply),
        forall|o: RemoveAll| #[trigger] o.accepts(reply),
{
}

/// A read can go on with every reply, except with data that is longer than was asked for.
pub proof fn reads_accept_what_fits(o: ReadFile, reply: SpecReply)
    ensures
        (reply.data() matches Ok(data) ==> data.len() <= o.limit()) ==> o.accepts(reply),
{
}

/// A write can go on with every reply, except that it was done where it ends out of range.
pub proof fn writes_accept_what_fits(o: WriteInode, reply: SpecReply)
    ensures
        reply.written() is Err ==> o.accepts(reply),
        o matches WriteInode::Data { write, .. } ==> (write.offset + write.data@.len() <= u64::MAX
            ==> o.accepts(reply)),
        !(o is Data) ==> o.accepts(reply),
{
}

/// A write by path, or through a handle, can go on where the write itself can.
pub proof fn writers_accept_what_writes_do(a: WriteAt, f: WriteFile, reply: SpecReply)
    ensures
        (a matches WriteAt::Write(o) ==> o.accepts(reply)) ==> a.accepts(reply),
        (f matches WriteFile::Write { write, .. } ==> write.accepts(reply)) ==> f.accepts(reply),
{
}

/// To log an operation, to leave out its result or a part of it, and to run another after it, does
/// not make it accept less.
pub proof fn wrapping_accepts_as_much<
    O: Operation,
    P: Operation<Output = FileStat>,
    A: Operation<Output = ()>,
    B: Operation,
>(l: Logged<O>, d: Discard<O>, a: AttrOf<P>, s: Sequence<A, B>, reply: SpecReply)
    ensures
        (l matches Logged::Plain(o) ==> o.accepts(reply)) && (l matches Logged::Run {
            inner,
            ..
        } ==> inner.accepts(reply)) ==> l.accepts(reply),
        d.inner.accepts(reply) ==> d.accepts(reply),
        a.inner.accepts(reply) ==> a.accepts(reply),
        (s matches Sequence::First { first, .. } ==> first.accepts(reply)) && (
        s matches Sequence::Second(b) ==> b.accepts(reply)) ==> s.accepts(reply),
{
}

} // verus!
