//! Recording operations in the access log.
use crate::access_log::LogContext;
use crate::error::FsError;
use crate::script;
use crate::script::{
    LogRequest, Operation, Reply, Request, Script, SpecError, SpecReply, Step,
};
use vstd::prelude::*;

verus! {

broadcast use crate::script::group_bind;

/// How the access log describes a result.
pub open spec fn summary<T>(r: Result<T, SpecError>) -> Seq<char> {
    match r {
        Ok(_) => "ok"@,
        Err(e) => e.message,
    }
}

/// An operation that, where access logging is enabled, is measured from its beginning and
/// recorded at its end. Its result does not depend on the log.
pub open spec fn logged<T>(
    enabled: bool,
    op: Seq<char>,
    path: Seq<char>,
    inner: Script<T>,
) -> Script<T> {
    if enabled {
        Script::Ask(
            Request::Log(LogRequest::Begin),
            |reply: SpecReply|
                match reply {
                    Reply::Context(context) => measured(context, op, path, inner),
                    _ => inner,
                },
        )
    } else {
        inner
    }
}

/// The rest of a logged operation, its measurement having begun.
pub open spec fn measured<T>(
    context: LogContext,
    op: Seq<char>,
    path: Seq<char>,
    inner: Script<T>,
) -> Script<T> {
    inner.bind(|r: Result<T, SpecError>| record(context, op, path, r))
}

/// The last step of a logged operation.
pub open spec fn record<T>(
    context: LogContext,
    op: Seq<char>,
    path: Seq<char>,
    r: Result<T, SpecError>,
) -> Script<T> {
    Script::Ask(
        Request::Log(LogRequest::Record { context, op, path, outcome: summary(r) }),
        |reply: SpecReply| Script::Done(r),
    )
}

/// An operation that is recorded in the access log.
pub enum Logged<O: Operation> {
    Plain(O),
    Begin { op: String, path: String, start: Step<O, O::Output> },
    Run { context: LogContext, op: String, path: String, inner: O },
    Record {
        context: LogContext,
        op: String,
        path: String,
        result: Result<O::Output, FsError>,
    },
}

impl<O: Operation> Logged<O> {
    /// An operation that waits for a reply, to be recorded.
    pub fn of(enabled: bool, op: &str, path: &str, inner: O) -> (l: Logged<O>)
        ensures
            l.script() == logged(enabled, op@, path@, inner.script()),
    {
        if enabled {
            Logged::Begin {
                op: String::from_str(op),
                path: String::from_str(path),
                start: Step::Pending(inner),
            }
        } else {
            Logged::Plain(inner)
        }
    }

    /// An operation that may be done already, to be recorded.
    pub fn start(
        enabled: bool,
        op: &str,
        path: &str,
        inner: Step<O, O::Output>,
    ) -> (s: Step<Logged<O>, O::Output>)
        ensures
            s.script() == logged(enabled, op@, path@, inner.script()),
    {
        if enabled {
            Step::Pending(
                Logged::Begin {
                    op: String::from_str(op),
                    path: String::from_str(path),
                    start: inner,
                },
            )
        } else {
            match inner {
                Step::Pending(o) => Step::Pending(Logged::Plain(o)),
                Step::Done(r) => Step::Done(r),
            }
        }
    }
}

/// How the access log describes a result.
fn summary_of<T: View>(r: &Result<T, FsError>) -> (text: String)
    ensures
        text@ == summary(script::outcome(*r)),
{
    match r {
        Ok(_) => String::from_str("ok"),
        Err(e) => e.message.clone(),
    }
}

impl<O: Operation> Operation for Logged<O> {
    type Output = O::Output;

    open spec fn script(self) -> Script<<O::Output as View>::V> {
        match self {
            Logged::Plain(o) => o.script(),
            Logged::Begin { op, path, start } => logged(true, op@, path@, start.script()),
            Logged::Run { context, op, path, inner } => measured(
                context,
                op@,
                path@,
                inner.script(),
            ),
            Logged::Record { context, op, path, result } => record(
                context,
                op@,
                path@,
                script::outcome(result),
            ),
        }
    }

    open spec fn accepts(self, reply: SpecReply) -> bool {
        match self {
            Logged::Plain(o) => o.accepts(reply),
            Logged::Run { context, op, path, inner } => inner.accepts(reply),
            _ => true,
        }
    }

    fn admits(&self, reply: &Reply) -> (b: bool) {
        match self {
            Logged::Plain(o) => o.admits(reply),
            Logged::Run { context: _, op: _, path: _, inner } => inner.admits(reply),
            _ => true,
        }
    }

    proof fn asks(self) {
        match self {
            Logged::Plain(o) => o.asks(),
            Logged::Run { context, op, path, inner } => inner.asks(),
            _ => {},
        }
    }

    fn request(&self) -> (q: Request) {
        match self {
            Logged::Plain(o) => o.request(),
            Logged::Begin { op: _, path: _, start: _ } => Request::Log(LogRequest::Begin),
            Logged::Run { context: _, op: _, path: _, inner } => inner.request(),
            Logged::Record { context, op, path, result } => Request::Log(
                LogRequest::Record {
                    context: *context,
                    op: op.clone(),
                    path: path.clone(),
                    outcome: summary_of(result),
                },
            ),
        }
    }

    fn resume(self, reply: Reply) -> (s: Step<Logged<O>, O::Output>) {
        proof {
            self.asks();
        }
        match self {
            Logged::Plain(o) => match o.resume(reply) {
                Step::Pending(o) => Step::Pending(Logged::Plain(o)),
                Step::Done(r) => Step::Done(r),
            },
            Logged::Begin { op, path, start } => match (reply, start) {
                (Reply::Context(context), Step::Pending(inner)) => Step::Pending(
                    Logged::Run { context, op, path, inner },
                ),
                (Reply::Context(context), Step::Done(result)) => Step::Pending(
                    Logged::Record { context, op, path, result },
                ),
                (_, Step::Pending(o)) => Step::Pending(Logged::Plain(o)),
                (_, Step::Done(r)) => Step::Done(r),
            },
            Logged::Run { context, op, path, inner } => {
                proof {
                    inner.asks();
                }
                match inner.resume(reply) {
                    Step::Pending(inner) => Step::Pending(
                        Logged::Run { context, op, path, inner },
                    ),
                    Step::Done(result) => Step::Pending(
                        Logged::Record { context, op, path, result },
                    ),
                }
            },
            Logged::Record { context: _, op: _, path: _, result } => Step::Done(result),
        }
    }
}

} // verus!
