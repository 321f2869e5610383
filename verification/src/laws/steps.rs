//! The steps that many operations begin with, under any rule that allows to ask.
use crate::laws::history;
use crate::laws::history::{Exchange, History, Rule};
use crate::ops::io;
use crate::ops::lookup;
use crate::script::{Script, SpecError, SpecReply, SpecRequest};
use crate::stat::FileStat;
use vstd::prelude::*;

verus! {

/// Whether a rule allows everything that changes nothing.
pub open spec fn allows_asking(rule: Rule) -> bool {
    forall|g: History, q: SpecRequest| !history::changes(q) ==> #[trigger] rule(g, q)
}

pub proof fn parent_dir_ruled(
    root_ino: i64,
    dir: Seq<char>,
    must_be_dir: bool,
    h: History,
    rule: Rule,
)
    requires
        allows_asking(rule),
    ensures
        history::ruled(
            lookup::parent_dir(root_ino, dir, must_be_dir),
            h,
            rule,
            history::any_end::<i64>(),
        ),
{
    reveal_with_fuel(history::ruled, 3);
}

pub proof fn resolve_ruled(path: Seq<char>, follow_last: bool, h: History, rule: Rule)
    requires
        allows_asking(rule),
    ensures
        history::ruled(
            lookup::resolve(path, follow_last),
            h,
            rule,
            history::any_end::<FileStat<Seq<char>>>(),
        ),
{
    reveal_with_fuel(history::ruled, 4);
}

pub proof fn register_ruled(path: Seq<char>, ino: i64, h: History, rule: Rule)
    requires
        allows_asking(rule),
    ensures
        history::ruled(io::register(path, ino), h, rule, history::any_end::<()>()),
{
    reveal_with_fuel(history::ruled, 4);
}

/// What holds of the history at first, and goes on to hold as the history grows, holds whenever
/// something is asked.
pub proof fn rule_with_fact<T>(
    s: Script<T>,
    h: History,
    rule: Rule,
    end: spec_fn(History, Result<T, SpecError>) -> bool,
    fact: spec_fn(History) -> bool,
)
    requires
        history::ruled(s, h, rule, end),
        fact(h),
        forall|g: History, e: Exchange| fact(g) ==> #[trigger] fact(g.push(e)),
    ensures
        history::ruled(s, h, |g: History, q: SpecRequest| rule(g, q) && fact(g), end),
    decreases s,
{
    let rule2 = |g: History, q: SpecRequest| rule(g, q) && fact(g);
    match s {
        Script::Done(r) => {},
        Script::Ask(q, k) => {
            assert forall|reply: SpecReply| history::ruled(
                #[trigger] k(reply),
                h.push((q, reply)),
                rule2,
                end,
            ) by {
                assert(fact(h.push((q, reply))));
                rule_with_fact(k(reply), h.push((q, reply)), rule, end, fact);
            }
        },
    }
}

} // verus!
