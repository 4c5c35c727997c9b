//! Sessions at work: what happens when every call they ask for is made.

use vstd::prelude::*;

use crate::call::{Call, Reply, Session, Step};

verus! {

/// What the calls work on.
pub trait World: Sized {
    /// Whether `call` may answer `reply` and turn this world into `after`.
    spec fn performs(self, call: Call, reply: Reply, after: Self) -> bool;
}

/// Whether a session that stands at `step` runs to its end: every call it asks for is performed on
/// the world, answered as `trace` records, and the session ends with `result` in the world `end`.
pub open spec fn runs<'a, S: Session<'a>, W: World>(
    step: Step<'a, S, S::Output>,
    w: W,
    trace: Seq<(Reply, W)>,
    result: S::Output,
    end: W,
) -> bool
    decreases trace.len(),
{
    match step {
        Step::Done(r) => trace.len() == 0 && r == result && w == end,
        Step::Ask(s, call) => trace.len() > 0 && w.performs(call, trace[0].0, trace[0].1) && runs(
            s.resumed(trace[0].0),
            trace[0].1,
            trace.drop_first(),
            result,
            end,
        ),
    }
}

/// A session that is handed a reply goes on as [`runs`] follows it.
pub proof fn law_resume<'a, S: Session<'a>>(
    session: S,
    reply: Reply,
    next: Step<'a, S, S::Output>,
)
    requires
        call_ensures(<S as Session<'a>>::resume, (session, reply), next),
    ensures
        next == session.resumed(reply),
{
}

/// What holds at the start of a session and survives every call holds at its end.
pub proof fn lemma_runs<'a, S: Session<'a>, W: World>(
    inv: spec_fn(Step<'a, S, S::Output>, W) -> bool,
    step: Step<'a, S, S::Output>,
    w: W,
    trace: Seq<(Reply, W)>,
    result: S::Output,
    end: W,
)
    requires
        inv(step, w),
        forall|s: S, call: Call<'a>, before: W, reply: Reply, after: W|
            inv(Step::Ask(s, call), before) && #[trigger] before.performs(call, reply, after)
                ==> inv(#[trigger] s.resumed(reply), after),
        runs(step, w, trace, result, end),
    ensures
        inv(Step::Done(result), end),
    decreases trace.len(),
{
    match step {
        Step::Done(r) => {},
        Step::Ask(s, call) => {
            lemma_runs(
                inv,
                s.resumed(trace[0].0),
                trace[0].1,
                trace.drop_first(),
                result,
                end,
            );
        },
    }
}

} // verus!
