//! Operations made of other operations.
use crate::meta::{FileAttr, StatFsSnapshot};
use crate::ops::attr;
use crate::ops::attr::ReadStatFs;
use crate::script::{Operation, Reply, Request, Script, SpecReply, Step};
use crate::stat::{FileStat, StatFs};
use vstd::prelude::*;

verus! {

broadcast use crate::script::group_bind;

/// A script without its value.
pub open spec fn discard<T>(s: Script<T>) -> Script<()> {
    s.and_next(|v: T| Script::Done(Ok(())))
}

/// An operation without its value.
#[derive(Debug)]
pub struct Discard<O> {
    pub inner: O,
}

impl<O: Operation> Discard<O> {
    pub fn start(inner: Step<O, O::Output>) -> (s: Step<Discard<O>, ()>)
        ensures
            s.script() == discard(inner.script()),
    {
        match inner {
            Step::Pending(inner) => Step::Pending(Discard { inner }),
            Step::Done(Err(e)) => Step::Done(Err(e)),
            Step::Done(Ok(_)) => Step::Done(Ok(())),
        }
    }
}

impl<O: Operation> Operation for Discard<O> {
    type Output = ();

    open spec fn script(self) -> Script<()> {
        discard(self.inner.script())
    }

    open spec fn accepts(self, reply: SpecReply) -> bool {
        self.inner.accepts(reply)
    }

    fn admits(&self, reply: &Reply) -> (b: bool) {
        self.inner.admits(reply)
    }

    proof fn asks(self) {
        self.inner.asks();
    }

    fn request(&self) -> (q: Request) {
        self.inner.request()
    }

    fn resume(self, reply: Reply) -> (s: Step<Discard<O>, ()>) {
        proof {
            self.inner.asks();
        }
        match self.inner.resume(reply) {
            Step::Pending(inner) => Step::Pending(Discard { inner }),
            Step::Done(Err(e)) => Step::Done(Err(e)),
            Step::Done(Ok(_)) => Step::Done(Ok(())),
        }
    }
}

/// The attributes alone of what a script finds.
pub open spec fn attr_of(s: Script<FileStat<Seq<char>>>) -> Script<FileAttr> {
    s.and_next(|info: FileStat<Seq<char>>| Script::Done(Ok(info.attr)))
}

/// The attributes alone of what an operation finds.
#[derive(Debug)]
pub struct AttrOf<O> {
    pub inner: O,
}

impl<O: Operation<Output = FileStat>> AttrOf<O> {
    pub fn start(inner: Step<O, FileStat>) -> (s: Step<AttrOf<O>, FileAttr>)
        ensures
            s.script() == attr_of(inner.script()),
    {
        match inner {
            Step::Pending(inner) => Step::Pending(AttrOf { inner }),
            Step::Done(Err(e)) => Step::Done(Err(e)),
            Step::Done(Ok(info)) => Step::Done(Ok(*info.attr())),
        }
    }
}

impl<O: Operation<Output = FileStat>> Operation for AttrOf<O> {
    type Output = FileAttr;

    open spec fn script(self) -> Script<FileAttr> {
        attr_of(self.inner.script())
    }

    open spec fn accepts(self, reply: SpecReply) -> bool {
        self.inner.accepts(reply)
    }

    fn admits(&self, reply: &Reply) -> (b: bool) {
        self.inner.admits(reply)
    }

    proof fn asks(self) {
        self.inner.asks();
    }

    fn request(&self) -> (q: Request) {
        self.inner.request()
    }

    fn resume(self, reply: Reply) -> (s: Step<AttrOf<O>, FileAttr>) {
        proof {
            self.inner.asks();
        }
        match self.inner.resume(reply) {
            Step::Pending(inner) => Step::Pending(AttrOf { inner }),
            Step::Done(Err(e)) => Step::Done(Err(e)),
            Step::Done(Ok(info)) => Step::Done(Ok(*info.attr())),
        }
    }
}

/// One script and, where it succeeds, another.
pub open spec fn sequence<T>(first: Script<()>, second: Script<T>) -> Script<T> {
    first.and_next(|u: ()| second)
}

/// One operation and, where it succeeds, another.
pub enum Sequence<A: Operation<Output = ()>, B: Operation> {
    First { first: A, next: Step<B, B::Output> },
    Second(B),
}

impl<A: Operation<Output = ()>, B: Operation> Sequence<A, B> {
    pub fn start(first: Step<A, ()>, second: Step<B, B::Output>) -> (s: Step<
        Sequence<A, B>,
        B::Output,
    >)
        ensures
            s.script() == sequence(first.script(), second.script()),
    {
        match first {
            Step::Pending(first) => Step::Pending(Sequence::First { first, next: second }),
            Step::Done(Err(e)) => Step::Done(Err(e)),
            Step::Done(Ok(_)) => match second {
                Step::Pending(b) => Step::Pending(Sequence::Second(b)),
                Step::Done(r) => Step::Done(r),
            },
        }
    }
}

impl<A: Operation<Output = ()>, B: Operation> Operation for Sequence<A, B> {
    type Output = B::Output;

    open spec fn script(self) -> Script<<B::Output as View>::V> {
        match self {
            Sequence::First { first, next } => sequence(first.script(), next.script()),
            Sequence::Second(b) => b.script(),
        }
    }

    open spec fn accepts(self, reply: SpecReply) -> bool {
        match self {
            Sequence::First { first, next } => first.accepts(reply),
            Sequence::Second(b) => b.accepts(reply),
        }
    }

    fn admits(&self, reply: &Reply) -> (b: bool) {
        match self {
            Sequence::First { first, next: _ } => first.admits(reply),
            Sequence::Second(b) => b.admits(reply),
        }
    }

    proof fn asks(self) {
        match self {
            Sequence::First { first, next } => first.asks(),
            Sequence::Second(b) => b.asks(),
        }
    }

    fn request(&self) -> (q: Request) {
        match self {
            Sequence::First { first, next: _ } => first.request(),
            Sequence::Second(b) => b.request(),
        }
    }

    fn resume(self, reply: Reply) -> (s: Step<Sequence<A, B>, B::Output>) {
        proof {
            self.asks();
        }
        match self {
            Sequence::First { first, next } => {
                proof {
                    first.asks();
                }
                match first.resume(reply) {
                    Step::Pending(first) => Step::Pending(Sequence::First { first, next }),
                    Step::Done(Err(e)) => Step::Done(Err(e)),
                    Step::Done(Ok(_)) => match next {
                        Step::Pending(b) => Step::Pending(Sequence::Second(b)),
                        Step::Done(r) => Step::Done(r),
                    },
                }
            },
            Sequence::Second(b) => match b.resume(reply) {
                Step::Pending(b) => Step::Pending(Sequence::Second(b)),
                Step::Done(r) => Step::Done(r),
            },
        }
    }
}

/// Gives the counts behind the statistics of the file system.
pub open spec fn snapshot() -> Script<StatFsSnapshot> {
    attr::stat_fs().and_next(|s: StatFs| Script::Done(Ok(s.source())))
}

/// Get the counts behind the file system statistics.
#[derive(Debug, Clone, Copy)]
pub struct ReadSnapshot {
    pub inner: ReadStatFs,
}

impl ReadSnapshot {
    pub fn start() -> (s: Step<ReadSnapshot, StatFsSnapshot>)
        ensures
            s.script() == snapshot(),
    {
        match ReadStatFs::start() {
            Step::Pending(inner) => Step::Pending(ReadSnapshot { inner }),
            Step::Done(Err(e)) => Step::Done(Err(e)),
            Step::Done(Ok(s)) => Step::Done(Ok(s.to_snapshot())),
        }
    }
}

impl Operation for ReadSnapshot {
    type Output = StatFsSnapshot;

    open spec fn script(self) -> Script<StatFsSnapshot> {
        snapshot()
    }

    open spec fn accepts(self, reply: SpecReply) -> bool {
        true
    }

    fn admits(&self, _reply: &Reply) -> (b: bool) {
        true
    }

    proof fn asks(self) {
    }

    fn request(&self) -> (q: Request) {
        self.inner.request()
    }

    fn resume(self, reply: Reply) -> (s: Step<ReadSnapshot, StatFsSnapshot>) {
        match self.inner.resume(reply) {
            Step::Pending(inner) => Step::Pending(ReadSnapshot { inner }),
            Step::Done(Err(e)) => Step::Done(Err(e)),
            Step::Done(Ok(s)) => Step::Done(Ok(s.to_snapshot())),
        }
    }
}

} // verus!
