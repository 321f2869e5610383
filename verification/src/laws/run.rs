//! Running operations against services.
use crate::ops::logged;
use crate::script::{LogRequest, Reply, Request, Script, SpecError, SpecReply, SpecRequest};
use vstd::prelude::*;

verus! {

broadcast use crate::script::group_bind;

/// Services with a state of type `W`: the state after a request and the reply to it.
pub type Services<W> = spec_fn(W, SpecRequest) -> (W, SpecReply);

/// The state of the services after a script, and the result of the script.
pub open spec fn run<W, T>(services: Services<W>, w: W, s: Script<T>) -> (W, Result<T, SpecError>)
    decreases s,
{
    match s {
        Script::Done(r) => (w, r),
        Script::Ask(q, k) => {
            let (w1, reply) = services(w, q);
            run(services, w1, k(reply))
        },
    }
}

/// A continued script runs as the script and then its continuation.
pub proof fn run_bind<W, T, U>(
    services: Services<W>,
    w: W,
    s: Script<T>,
    next: spec_fn(Result<T, SpecError>) -> Script<U>,
)
    ensures
        run(services, w, s.bind(next)) == ({
            let (w1, r) = run(services, w, s);
            run(services, w1, next(r))
        }),
    decreases s,
{
    match s {
        Script::Done(r) => {},
        Script::Ask(q, k) => {
            let (w1, reply) = services(w, q);
            run_bind(services, w1, k(reply), next);
            assert((s.bind(next)->Ask_1)(reply) == k(reply).bind(next));
        },
    }
}

/// The same for a continuation after success.
pub proof fn run_and_next<W, T, U>(
    services: Services<W>,
    w: W,
    s: Script<T>,
    next: spec_fn(T) -> Script<U>,
)
    ensures
        run(services, w, s.and_next(next)) == ({
            let (w1, r) = run(services, w, s);
            match r {
                Ok(v) => run(services, w1, next(v)),
                Err(e) => (w1, Err(e)),
            }
        }),
{
    let f = |r: Result<T, SpecError>|
        match r {
            Ok(v) => next(v),
            Err(e) => Script::Done(Err(e)),
        };
    run_bind(services, w, s, f);
}

/// A last step that only says whether it was done.
pub proof fn run_unit<W>(services: Services<W>, w: W, s: Script<()>)
    requires
        s is Ask,
        services(w, s->Ask_0).1 == SpecReply::Unit(Ok(())),
        (s->Ask_1)(SpecReply::Unit(Ok(()))) == Script::<()>::Done(Ok(())),
    ensures
        run(services, w, s) == (services(w, s->Ask_0).0, Ok::<(), SpecError>(())),
{
    let w1 = services(w, s->Ask_0).0;
    assert(run(services, w, s) == run(services, w1, Script::<()>::Done(Ok(()))));
}

/// The access log changes nothing but itself: where requests to it leave the state of the services
/// alone, an operation that is recorded ends with the same result, and leaves the services in the
/// same state, as one that is not.
pub proof fn logging_changes_nothing<W, T>(
    services: Services<W>,
    w: W,
    log: bool,
    op: Seq<char>,
    path: Seq<char>,
    inner: Script<T>,
)
    requires
        forall|v: W, q: LogRequest<Seq<char>>| (#[trigger] services(v, Request::Log(q))).0 == v,
    ensures
        run(services, w, logged::logged(log, op, path, inner)) == run(services, w, inner),
{
    if log {
        let s = logged::logged(true, op, path, inner);
        let q = Request::Log(LogRequest::Begin);
        let (w1, reply) = services(w, q);
        assert(w1 == w);
        match reply {
            Reply::Context(context) => {
                let next = |r: Result<T, SpecError>| logged::record(context, op, path, r);
                run_bind(services, w, inner, next);
                let (w2, r) = run(services, w, inner);
                let last = next(r);
                assert(last == logged::record(context, op, path, r));
                let (w3, reply3) = services(w2, last->Ask_0);
                assert(w3 == w2);
                assert(run(services, w2, last) == run(services, w3, (last->Ask_1)(reply3)));
                assert((last->Ask_1)(reply3) == Script::<T>::Done(r));
                assert((s->Ask_1)(reply) == inner.bind(next));
            },
            _ => {
                assert((s->Ask_1)(reply) == inner);
            },
        }
    }
}

} // verus!
