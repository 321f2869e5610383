//! Statements about everything that an operation may ask, and about how it may end.
use crate::meta::{DirEntry, FileAttr, FileType};
use crate::ops::logged;
use crate::script::{
    LogRequest, MetaRequest, Reply, Request, Script, SpecError, SpecReply, SpecRequest,
};
use vstd::prelude::*;

verus! {

broadcast use crate::script::group_bind;

/// A request and the reply to it.
pub type Exchange = (SpecRequest, SpecReply);

/// What has been asked and replied so far.
pub type History = Seq<Exchange>;

/// What may be asked after what was asked and replied until then.
pub type Rule = spec_fn(History, SpecRequest) -> bool;

/// Any result will do.
pub open spec fn any_end<T>() -> spec_fn(History, Result<T, SpecError>) -> bool {
    |h: History, r: Result<T, SpecError>| true
}

/// Whether a script, begun after the history `h`, asks only what `rule` allows after what was
/// asked and replied until then, and ends only with results that `end` allows, whatever the
/// replies are.
pub open spec fn ruled<T>(
    s: Script<T>,
    h: History,
    rule: Rule,
    end: spec_fn(History, Result<T, SpecError>) -> bool,
) -> bool
    decreases s,
{
    match s {
        Script::Done(r) => end(h, r),
        Script::Ask(q, k) => rule(h, q) && (forall|reply: SpecReply|
            ruled(#[trigger] k(reply), h.push((q, reply)), rule, end)),
    }
}

/// A script that is continued obeys a rule, if it does and its continuation does.
pub proof fn ruled_bind<T, U>(
    s: Script<T>,
    h: History,
    rule: Rule,
    mid: spec_fn(History, Result<T, SpecError>) -> bool,
    next: spec_fn(Result<T, SpecError>) -> Script<U>,
    end: spec_fn(History, Result<U, SpecError>) -> bool,
)
    requires
        ruled(s, h, rule, mid),
        forall|g: History, r: Result<T, SpecError>| #[trigger]
            mid(g, r) ==> ruled(next(r), g, rule, end),
    ensures
        ruled(s.bind(next), h, rule, end),
    decreases s,
{
    match s {
        Script::Done(r) => {
            assert(mid(h, r));
        },
        Script::Ask(q, k) => {
            let b = s.bind(next);
            assert forall|reply: SpecReply| ruled(
                #[trigger] (b->Ask_1)(reply),
                h.push((q, reply)),
                rule,
                end,
            ) by {
                assert(ruled(k(reply), h.push((q, reply)), rule, mid));
                ruled_bind(k(reply), h.push((q, reply)), rule, mid, next, end);
            }
        },
    }
}

/// The same for a continuation after success. A failure is passed on.
pub proof fn ruled_and_next<T, U>(
    s: Script<T>,
    h: History,
    rule: Rule,
    mid: spec_fn(History, Result<T, SpecError>) -> bool,
    next: spec_fn(T) -> Script<U>,
    end: spec_fn(History, Result<U, SpecError>) -> bool,
)
    requires
        ruled(s, h, rule, mid),
        forall|g: History, v: T| #[trigger]
            mid(g, Ok(v)) ==> ruled(next(v), g, rule, end),
        forall|g: History, e: SpecError| #[trigger] mid(g, Err(e)) ==> end(g, Err(e)),
    ensures
        ruled(s.and_next(next), h, rule, end),
{
    let f = |r: Result<T, SpecError>|
        match r {
            Ok(v) => next(v),
            Err(e) => Script::Done(Err(e)),
        };
    assert forall|g: History, r: Result<T, SpecError>| #[trigger] mid(g, r) implies ruled(
        f(r),
        g,
        rule,
        end,
    ) by {
        match r {
            Ok(v) => {},
            Err(e) => {},
        }
    }
    ruled_bind(s, h, rule, mid, f, end);
}

/// A weaker rule is obeyed too.
pub proof fn ruled_weaken<T>(
    s: Script<T>,
    h: History,
    rule: Rule,
    end: spec_fn(History, Result<T, SpecError>) -> bool,
    rule2: Rule,
    end2: spec_fn(History, Result<T, SpecError>) -> bool,
)
    requires
        ruled(s, h, rule, end),
        forall|g: History, q: SpecRequest| #[trigger] rule(g, q) ==> rule2(g, q),
        forall|g: History, r: Result<T, SpecError>| #[trigger] end(g, r) ==> end2(g, r),
    ensures
        ruled(s, h, rule2, end2),
    decreases s,
{
    match s {
        Script::Done(r) => {
            assert(end(h, r));
        },
        Script::Ask(q, k) => {
            assert(rule(h, q));
            assert forall|reply: SpecReply| ruled(
                #[trigger] k(reply),
                h.push((q, reply)),
                rule2,
                end2,
            ) by {
                ruled_weaken(k(reply), h.push((q, reply)), rule, end, rule2, end2);
            }
        },
    }
}

/// What once holds of the history, and goes on to hold as the history grows, holds at the end.
pub proof fn ruled_keeps<T>(
    s: Script<T>,
    h: History,
    rule: Rule,
    end: spec_fn(History, Result<T, SpecError>) -> bool,
    fact: spec_fn(History) -> bool,
)
    requires
        ruled(s, h, rule, end),
        fact(h),
        forall|g: History, e: Exchange| fact(g) ==> #[trigger] fact(g.push(e)),
    ensures
        ruled(s, h, rule, |g: History, r: Result<T, SpecError>| end(g, r) && fact(g)),
    decreases s,
{
    let end2 = |g: History, r: Result<T, SpecError>| end(g, r) && fact(g);
    match s {
        Script::Done(r) => {},
        Script::Ask(q, k) => {
            assert forall|reply: SpecReply| ruled(
                #[trigger] k(reply),
                h.push((q, reply)),
                rule,
                end2,
            ) by {
                assert(fact(h.push((q, reply))));
                ruled_keeps(k(reply), h.push((q, reply)), rule, end, fact);
            }
        },
    }
}

/// Recording an operation in the access log keeps to the rules of the operation.
pub proof fn ruled_logged<T>(
    log: bool,
    op: Seq<char>,
    path: Seq<char>,
    inner: Script<T>,
    h: History,
    rule: Rule,
    end: spec_fn(History, Result<T, SpecError>) -> bool,
)
    requires
        forall|g: History| #[trigger] ruled(inner, g, rule, end),
        forall|g: History, q: LogRequest<Seq<char>>| #[trigger] rule(g, Request::Log(q)),
        forall|g: History, q: LogRequest<Seq<char>>, reply: SpecReply, r: Result<T, SpecError>|
            end(g, r) ==> #[trigger] end(g.push((Request::Log(q), reply)), r),
    ensures
        ruled(logged::logged(log, op, path, inner), h, rule, end),
{
    if log {
        let s = logged::logged(true, op, path, inner);
        let q = Request::Log(LogRequest::Begin);
        assert(rule(h, q));
        assert forall|reply: SpecReply| ruled(
            #[trigger] (s->Ask_1)(reply),
            h.push((q, reply)),
            rule,
            end,
        ) by {
            let g = h.push((q, reply));
            assert(ruled(inner, g, rule, end));
            match reply {
                Reply::Context(context) => {
                    let next = |r: Result<T, SpecError>| logged::record(context, op, path, r);
                    assert forall|g: History, r: Result<T, SpecError>| #[trigger] end(
                        g,
                        r,
                    ) implies ruled(next(r), g, rule, end) by {
                        let last = LogRequest::Record {
                            context,
                            op,
                            path,
                            outcome: logged::summary(r),
                        };
                        assert(rule(g, Request::Log(last)));
                        assert(next(r) == logged::record(context, op, path, r));
                        let k = next(r)->Ask_1;
                        assert forall|reply: SpecReply| ruled(
                            #[trigger] k(reply),
                            g.push((Request::Log(last), reply)),
                            rule,
                            end,
                        ) by {
                            assert(k(reply) == Script::<T>::Done(r));
                            assert(end(g.push((Request::Log(last), reply)), r));
                        }
                    }
                    ruled_bind(inner, g, rule, end, next, end);
                },
                _ => {},
            }
        }
    } else {
        assert(ruled(inner, h, rule, end));
    }
}

/// Whether a request changes what a service keeps.
pub open spec fn changes(q: SpecRequest) -> bool {
    match q {
        Request::Meta(m) => match m {
            MetaRequest::Mkdir { .. } | MetaRequest::CreateFile { .. } => true,
            MetaRequest::Unlink { .. } | MetaRequest::Rmdir { .. } => true,
            MetaRequest::Rename { .. } | MetaRequest::Link { .. } => true,
            MetaRequest::Symlink { .. } | MetaRequest::SetFileSize { .. } => true,
            MetaRequest::SetAttr { .. } | MetaRequest::SetPlock { .. } => true,
            _ => false,
        },
        Request::Data(d) => d is Write,
        _ => false,
    }
}

/// The directory `parent` was found to hold `ino` under `name`.
pub open spec fn found_child(h: History, parent: i64, name: Seq<char>, ino: i64) -> bool {
    h.contains(
        (Request::Meta(MetaRequest::Lookup { parent, name }), Reply::Child(Ok(Some(ino)))),
    )
}

/// The directory `parent` was found to hold nothing under `name`.
pub open spec fn found_no_child(h: History, parent: i64, name: Seq<char>) -> bool {
    h.contains((Request::Meta(MetaRequest::Lookup { parent, name }), Reply::Child(Ok(None))))
}

/// A directory `name` was made in the directory `parent`, with the inode `ino`.
pub open spec fn made_dir(h: History, parent: i64, name: Seq<char>, ino: i64) -> bool {
    h.contains((Request::Meta(MetaRequest::Mkdir { parent, name }), Reply::Inode(Ok(ino))))
}

/// A file `name` was made in the directory `parent`, with the inode `ino`.
pub open spec fn made_file(h: History, parent: i64, name: Seq<char>, ino: i64) -> bool {
    h.contains((Request::Meta(MetaRequest::CreateFile { parent, name }), Reply::Inode(Ok(ino))))
}

/// The inode `ino` was found to have the attributes `attr`.
pub open spec fn found_attr(h: History, ino: i64, attr: FileAttr) -> bool {
    h.contains((Request::Meta(MetaRequest::Stat { ino }), Reply::Attr(Ok(Some(attr)))))
}

/// The path was found to lead to the inode `ino` of the given kind.
pub open spec fn found_entry(h: History, path: Seq<char>, ino: i64, kind: FileType) -> bool {
    h.contains(
        (Request::Meta(MetaRequest::LookupPath { path }), Reply::Entry(Ok(Some((ino, kind))))),
    )
}

/// The directory `ino` was found to hold `children`.
pub open spec fn found_children(h: History, ino: i64, children: Seq<DirEntry<Seq<char>>>) -> bool {
    h.contains((Request::Meta(MetaRequest::Readdir { ino }), Reply::Entries(Ok(children))))
}

/// What was asked and replied stays in the history.
pub broadcast proof fn history_grows(h: History, e: Exchange, f: Exchange)
    ensures
        h.contains(e) ==> #[trigger] h.push(f).contains(e),
        e == f ==> #[trigger] h.push(f).contains(e),
{
    if h.contains(e) {
        let i = choose|i: int| 0 <= i < h.len() && h[i] == e;
        assert(h.push(f)[i] == e);
    }
    assert(h.push(f)[h.len() as int] == f);
}

/// Nothing that a service keeps may be changed.
pub open spec fn keeps_all() -> Rule {
    |h: History, q: SpecRequest| !changes(q)
}

/// Whether a script changes nothing that a service keeps, whatever was asked before.
pub open spec fn read_only<T>(s: Script<T>) -> bool {
    forall|h: History| #[trigger] ruled(s, h, keeps_all(), any_end::<T>())
}

/// A script that obeys a rule in every case, continued with such scripts, does too.
pub proof fn always_and_next<T, U>(s: Script<T>, rule: Rule, next: spec_fn(T) -> Script<U>)
    requires
        forall|h: History| #[trigger] ruled(s, h, rule, any_end::<T>()),
        forall|h: History, v: T| #[trigger] ruled(next(v), h, rule, any_end::<U>()),
    ensures
        forall|h: History| #[trigger] ruled(s.and_next(next), h, rule, any_end::<U>()),
{
    assert forall|h: History| #[trigger] ruled(s.and_next(next), h, rule, any_end::<U>()) by {
        assert(ruled(s, h, rule, any_end::<T>()));
        assert forall|g: History, v: T| #[trigger] any_end::<T>()(g, Ok(v)) implies ruled(
            next(v),
            g,
            rule,
            any_end::<U>(),
        ) by {}
        ruled_and_next(s, h, rule, any_end::<T>(), next, any_end::<U>());
    }
}

/// The same for a script that is recorded in the access log.
pub proof fn always_logged<T>(
    log: bool,
    op: Seq<char>,
    path: Seq<char>,
    inner: Script<T>,
    rule: Rule,
)
    requires
        forall|h: History| #[trigger] ruled(inner, h, rule, any_end::<T>()),
        forall|g: History, q: LogRequest<Seq<char>>| #[trigger] rule(g, Request::Log(q)),
    ensures
        forall|h: History| #[trigger]
            ruled(logged::logged(log, op, path, inner), h, rule, any_end::<T>()),
{
    assert forall|h: History| #[trigger]
        ruled(logged::logged(log, op, path, inner), h, rule, any_end::<T>()) by {
        ruled_logged(log, op, path, inner, h, rule, any_end::<T>());
    }
}

} // verus!
