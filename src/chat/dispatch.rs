//! The dispatcher: invocations are matched against the registry in order and
//! run, every match for its effects, until the first one that surfaces output.
use vstd::prelude::*;
use crate::chat::tool_checker::{calls_view, opt_view, ToolCall, ToolInput};
use crate::tools::{Tool, ToolRun};
use crate::Error;

verus! {

/// What one run of a tool gave.
pub enum Outcome {
    Silent,
    Output(Seq<char>),
    Failed,
}

/// The tools, by index, whose indicator is `name`, paired with invocation `i`.
pub open spec fn tool_matches(i: int, name: Seq<char>, inds: Seq<Seq<char>>) -> Seq<(int, int)>
    decreases inds.len(),
{
    if inds.len() == 0 {
        seq![]
    } else {
        tool_matches(i, name, inds.drop_last()) + (if inds.last() == name {
            seq![(i, inds.len() - 1)]
        } else {
            seq![]
        })
    }
}

/// Every (invocation, tool) pair whose names agree: invocations in order, and
/// for each the tools in registry order.
pub open spec fn match_plan(calls: Seq<ToolCall>, inds: Seq<Seq<char>>) -> Seq<(int, int)>
    decreases calls.len(),
{
    if calls.len() == 0 {
        seq![]
    } else {
        match_plan(calls.drop_last(), inds) + tool_matches(
            calls.len() - 1,
            calls.last().name,
            inds,
        )
    }
}

/// The first surfaced output among `outs`.
pub open spec fn first_output(outs: Seq<Outcome>) -> Option<Seq<char>>
    decreases outs.len(),
{
    if outs.len() == 0 {
        None
    } else {
        match outs[0] {
            Outcome::Output(x) => Some(x),
            _ => first_output(outs.drop_first()),
        }
    }
}

/// How many of the planned runs take place when run `k` would give `outs[k]`:
/// up to and including the first that surfaces output, else all of them.
pub open spec fn calls_run(outs: Seq<Outcome>) -> nat
    decreases outs.len(),
{
    if outs.len() == 0 {
        0
    } else if outs[0] is Output {
        1
    } else {
        1 + calls_run(outs.drop_first())
    }
}

/// No run among `outs` surfaced output.
pub open spec fn all_quiet(outs: Seq<Outcome>) -> bool {
    forall|j: int| 0 <= j < outs.len() ==> !(#[trigger] outs[j] is Output)
}

/// `ran` is what a dispatch over a plan of `n` runs can have seen: only its
/// last run may surface output, and it stops early only after one did.
pub open spec fn ran_ok(ran: Seq<Outcome>, n: nat) -> bool {
    &&& ran.len() <= n
    &&& forall|j: int| 0 <= j < ran.len() - 1 ==> !(#[trigger] ran[j] is Output)
    &&& ran.len() < n ==> ran.len() > 0 && ran.last() is Output
}

/// The planned pairs whose run failed, in order.
pub open spec fn failed_at(plan: Seq<(int, int)>, ran: Seq<Outcome>) -> Seq<(int, int)>
    decreases ran.len(),
{
    if ran.len() == 0 {
        seq![]
    } else {
        failed_at(plan, ran.drop_last()) + (if ran.last() is Failed {
            seq![plan[ran.len() - 1]]
        } else {
            seq![]
        })
    }
}

/// A tool run that failed, with the invocation and the tool it concerned.
pub struct ToolFailure {
    pub invocation: usize,
    pub tool: usize,
    pub error: Error,
}

/// What a dispatch pass gave: the indicators it read, the plan it followed,
/// the surfaced output, if any, and the failures.
pub struct Dispatch {
    pub indicators: Vec<String>,
    pub plan: Vec<(usize, usize)>,
    pub output: Option<String>,
    pub failures: Vec<ToolFailure>,
}

/// The outcome that a tool's result stands for.
pub open spec fn outcome_of(o: Result<Option<String>, Error>) -> Outcome {
    match o {
        Ok(Some(x)) => Outcome::Output(x@),
        Ok(None) => Outcome::Silent,
        Err(_) => Outcome::Failed,
    }
}

/// The view of an optional text slice.
pub open spec fn opt_str_view(p: Option<&str>) -> Option<Seq<char>> {
    match p {
        Some(s) => Some(s@),
        None => None,
    }
}

/// `inds` are what the tools' `get_indicator` returned, one for each tool.
pub open spec fn indicators_read<T: Tool>(tools: Seq<T>, inds: Seq<String>) -> bool {
    &&& inds.len() == tools.len()
    &&& forall|t: int| 0 <= t < tools.len() ==> call_ensures(T::get_indicator, (&tools[t],), #[trigger] inds[t])
}

/// The outcomes of runs.
pub open spec fn run_outcomes(ran: Seq<ToolRun>) -> Seq<Outcome> {
    ran.map_values(|r: ToolRun| r.outcome)
}

/// The runs among `ran` that went to tool `t`, in order, when run `k` went
/// to the tool that `plan[k]` names.
pub open spec fn runs_at(plan: Seq<(int, int)>, ran: Seq<ToolRun>, t: int) -> Seq<ToolRun>
    decreases ran.len(),
{
    if ran.len() == 0 {
        seq![]
    } else {
        runs_at(plan, ran.drop_last(), t) + (if plan[ran.len() - 1].1 == t {
            seq![ran.last()]
        } else {
            seq![]
        })
    }
}

/// A dispatch over `plan` made exactly the runs `ran`: run `k` went to the
/// tool of `plan[k]` with the parameter and content of its invocation, each
/// tool's runs grew by its own share of `ran` and by nothing else, only the
/// last run may have surfaced output, the pass stopped early only after one
/// did, and the output is the first surfaced one.
pub open spec fn dispatch_ran<T: Tool>(
    calls: Seq<ToolCall>,
    before: Seq<T>,
    after: Seq<T>,
    plan: Seq<(int, int)>,
    ran: Seq<ToolRun>,
    output: Option<Seq<char>>,
) -> bool {
    &&& ran_ok(run_outcomes(ran), plan.len())
    &&& forall|k: int|
        0 <= k < ran.len() ==> (#[trigger] ran[k]).parameter == calls[plan[k].0].parameter
            && ran[k].content == calls[plan[k].0].content
    &&& after.len() == before.len()
    &&& forall|t: int|
        0 <= t < before.len() ==> (#[trigger] after[t]).runs() == before[t].runs() + runs_at(
            plan,
            ran,
            t,
        )
    &&& output == first_output(run_outcomes(ran))
}

/// The (invocation, tool) pairs of a plan.
pub open spec fn plan_view(p: Seq<(usize, usize)>) -> Seq<(int, int)> {
    p.map_values(|e: (usize, usize)| (e.0 as int, e.1 as int))
}

/// The (invocation, tool) pairs of failures.
pub open spec fn failures_view(f: Seq<ToolFailure>) -> Seq<(int, int)> {
    f.map_values(|e: ToolFailure| (e.invocation as int, e.tool as int))
}

/// The indicators, as text.
pub open spec fn names_view(v: Seq<String>) -> Seq<Seq<char>> {
    v.map_values(|s: String| s@)
}

proof fn lemma_first_output_push(ran: Seq<Outcome>, o: Outcome)
    requires
        all_quiet(ran),
    ensures
        first_output(ran.push(o)) == match o {
            Outcome::Output(x) => Some(x),
            _ => None,
        },
        first_output(ran) is None,
    decreases ran.len(),
{
    if ran.len() > 0 {
        assert(!(ran[0] is Output));
        assert(ran.push(o).drop_first() =~= ran.drop_first().push(o));
        assert(all_quiet(ran.drop_first())) by {
            assert forall|j: int| 0 <= j < ran.drop_first().len() implies !(
            #[trigger] ran.drop_first()[j] is Output) by {
                assert(ran.drop_first()[j] == ran[j + 1]);
            }
        }
        lemma_first_output_push(ran.drop_first(), o);
        assert(ran.push(o)[0] == ran[0]);
    } else {
        assert(ran.push(o).drop_first() =~= Seq::<Outcome>::empty());
        assert(ran.push(o)[0] == o);
        assert(first_output(ran.push(o).drop_first()) is None);
    }
}

/// Pairs each invocation with every tool whose indicator is its name.
pub fn plan_for(invocations: &Vec<ToolInput>, indicators: &Vec<String>) -> (r: Vec<(usize, usize)>)
    ensures
        plan_view(r@) == match_plan(calls_view(invocations@), names_view(indicators@)),
        forall|k: int|
            0 <= k < r.len() ==> (#[trigger] r@[k]).0 < invocations.len() && r@[k].1
                < indicators.len(),
{
    let ghost calls = calls_view(invocations@);
    let ghost inds = names_view(indicators@);
    let mut r: Vec<(usize, usize)> = Vec::new();
    let mut i: usize = 0;
    assert(calls.take(0) =~= Seq::<ToolCall>::empty());
    while i < invocations.len()
        invariant
            0 <= i <= invocations.len(),
            calls == calls_view(invocations@),
            inds == names_view(indicators@),
            plan_view(r@) == match_plan(calls.take(i as int), inds),
            forall|k: int|
                0 <= k < r.len() ==> (#[trigger] r@[k]).0 < invocations.len() && r@[k].1
                    < indicators.len(),
        decreases invocations.len() - i,
    {
        let ghost base = plan_view(r@);
        let mut t: usize = 0;
        assert(inds.take(0) =~= Seq::<Seq<char>>::empty());
        while t < indicators.len()
            invariant
                0 <= i < invocations.len(),
                0 <= t <= indicators.len(),
                calls == calls_view(invocations@),
                inds == names_view(indicators@),
                plan_view(r@) == base + tool_matches(i as int, calls[i as int].name, inds.take(t as int)),
                forall|k: int|
                    0 <= k < r.len() ==> (#[trigger] r@[k]).0 < invocations.len() && r@[k].1
                        < indicators.len(),
            decreases indicators.len() - t,
        {
            let ghost prev = plan_view(r@);
            assert(inds.take(t + 1).drop_last() =~= inds.take(t as int));
            assert(inds.take(t + 1).last() == indicators@[t as int]@);
            if indicators[t] == invocations[i].name {
                r.push((i, t));
                assert(plan_view(r@) =~= prev + seq![(i as int, t as int)]);
            } else {
                assert(plan_view(r@) =~= prev + Seq::<(int, int)>::empty());
            }
            t = t + 1;
        }
        assert(inds.take(indicators.len() as int) =~= inds);
        assert(calls.take(i + 1).drop_last() =~= calls.take(i as int));
        assert(calls.take(i + 1).last() == calls[i as int]);
        i = i + 1;
    }
    assert(calls.take(invocations.len() as int) =~= calls);
    r
}

/// Takes in the result of one planned run: surfaced output ends the pass
/// (`true`) and becomes the output; a failure is recorded and the pass goes on.
pub fn record_outcome(d: Dispatch, i: usize, t: usize, o: Result<Option<String>, Error>) -> (r: (Dispatch, bool))
    ensures
        r.0.indicators == d.indicators,
        r.0.plan == d.plan,
        match o {
            Ok(Some(x)) => r.1 && r.0.output == Some(x) && r.0.failures == d.failures,
            Ok(None) => !r.1 && r.0.output == d.output && r.0.failures == d.failures,
            Err(e) => !r.1 && r.0.output == d.output && r.0.failures@ == d.failures@.push(
                (ToolFailure { invocation: i, tool: t, error: e }),
            ),
        },
{
    let Dispatch { indicators, plan, output, mut failures } = d;
    match o {
        Ok(Some(x)) => (Dispatch { indicators, plan, output: Some(x), failures }, true),
        Ok(None) => (Dispatch { indicators, plan, output, failures }, false),
        Err(e) => {
            failures.push(ToolFailure { invocation: i, tool: t, error: e });
            (Dispatch { indicators, plan, output, failures }, false)
        },
    }
}

/// Runs the planned pairs in order, handing each tool its invocation's
/// parameter and content, until one surfaces output.
pub fn run_plan<T: Tool>(
    invocations: &Vec<ToolInput>,
    tools: &mut Vec<T>,
    indicators: Vec<String>,
    plan: Vec<(usize, usize)>,
) -> (r: Dispatch)
    requires
        forall|k: int|
            0 <= k < plan.len() ==> (#[trigger] plan@[k]).0 < invocations.len() && plan@[k].1
                < old(tools).len(),
    ensures
        r.indicators == indicators,
        r.plan == plan,
        exists|ran: Seq<ToolRun>|
            #[trigger] dispatch_ran(
                calls_view(invocations@),
                old(tools)@,
                final(tools)@,
                plan_view(plan@),
                ran,
                opt_view(r.output),
            ) && failures_view(r.failures@) == failed_at(plan_view(plan@), run_outcomes(ran)),
{
    let ghost calls = calls_view(invocations@);
    let ghost pv = plan_view(plan@);
    let ghost before = tools@;
    let ghost mut ran: Seq<ToolRun> = Seq::empty();
    let n = plan.len();
    let mut d = Dispatch { indicators, plan, output: None, failures: Vec::new() };
    let mut k: usize = 0;
    assert forall|t: int| 0 <= t < before.len() implies (#[trigger] tools@[t]).runs() == before[t].runs()
        + runs_at(pv, ran, t) by {
        assert(before[t].runs() + Seq::<ToolRun>::empty() =~= before[t].runs());
    }
    while k < n
        invariant
            0 <= k <= n,
            n == d.plan.len(),
            d.indicators == indicators,
            d.plan == plan,
            pv == plan_view(plan@),
            calls == calls_view(invocations@),
            d.output is None,
            ran.len() == k,
            all_quiet(run_outcomes(ran)),
            before == old(tools)@,
            tools@.len() == before.len(),
            forall|j: int|
                0 <= j < ran.len() ==> (#[trigger] ran[j]).parameter == calls[pv[j].0].parameter
                    && ran[j].content == calls[pv[j].0].content,
            forall|t: int|
                0 <= t < before.len() ==> (#[trigger] tools@[t]).runs() == before[t].runs()
                    + runs_at(pv, ran, t),
            failures_view(d.failures@) == failed_at(pv, run_outcomes(ran)),
            forall|j: int|
                0 <= j < plan.len() ==> (#[trigger] plan@[j]).0 < invocations.len() && plan@[j].1
                    < before.len(),
        decreases n - k,
    {
        let (i, t) = d.plan[k];
        let inv = &invocations[i];
        let parameter = match &inv.parameter {
            Some(p) => Some(p.as_str()),
            None => None,
        };
        let content = inv.content.as_str();
        let ghost prev_tools = tools@;
        let o = tools[t].execute(parameter, content);
        let ghost run = ToolRun {
            parameter: opt_str_view(parameter),
            content: content@,
            outcome: outcome_of(o),
        };
        assert(pv[k as int] == (i as int, t as int));
        assert(calls[i as int] == invocations@[i as int]@);
        let ghost prev = ran;
        let ghost prev_failures = failures_view(d.failures@);
        proof {
            ran = ran.push(run);
            assert(ran.drop_last() =~= prev);
            assert(run_outcomes(ran) =~= run_outcomes(prev).push(run.outcome));
            assert(run_outcomes(ran).drop_last() =~= run_outcomes(prev));
            assert forall|j: int| 0 <= j < ran.len() implies (#[trigger] ran[j]).parameter
                == calls[pv[j].0].parameter && ran[j].content == calls[pv[j].0].content by {
                if j < prev.len() {
                    assert(ran[j] == prev[j]);
                }
            }
            assert forall|u: int| 0 <= u < before.len() implies (#[trigger] tools@[u]).runs()
                == before[u].runs() + runs_at(pv, ran, u) by {
                assert(prev_tools[u].runs() == before[u].runs() + runs_at(pv, prev, u));
                if u == t {
                    assert(tools@[u].runs() == prev_tools[u].runs().push(run));
                    assert(before[u].runs() + runs_at(pv, ran, u) =~= (before[u].runs()
                        + runs_at(pv, prev, u)).push(run));
                } else {
                    assert(tools@[u] == prev_tools[u]);
                    assert(runs_at(pv, ran, u) =~= runs_at(pv, prev, u));
                }
            }
        }
        let (d2, stop) = record_outcome(d, i, t, o);
        d = d2;
        if stop {
            proof {
                lemma_first_output_push(run_outcomes(prev), run.outcome);
                assert forall|j: int| 0 <= j < run_outcomes(ran).len() - 1 implies !(
                #[trigger] run_outcomes(ran)[j] is Output) by {
                    assert(run_outcomes(ran)[j] == run_outcomes(prev)[j]);
                }
                assert(failures_view(d.failures@) =~= failed_at(pv, run_outcomes(ran)));
            }
            assert(dispatch_ran(calls, before, tools@, pv, ran, opt_view(d.output)));
            return d;
        }
        proof {
            if o is Err {
                assert(failures_view(d.failures@) =~= prev_failures + seq![(i as int, t as int)]);
            } else {
                assert(failures_view(d.failures@) == prev_failures);
            }
        }
        k = k + 1;
    }
    proof {
        lemma_first_output_push(run_outcomes(ran), Outcome::Silent);
    }
    assert(dispatch_ran(calls, before, tools@, pv, ran, opt_view(d.output)));
    d
}

/// The indicator of each tool, in registry order.
fn indicators_of<T: Tool>(tools: &Vec<T>) -> (r: Vec<String>)
    ensures
        indicators_read(tools@, r@),
{
    let mut r: Vec<String> = Vec::new();
    let mut t: usize = 0;
    while t < tools.len()
        invariant
            0 <= t <= tools.len(),
            r.len() == t,
            forall|j: int| 0 <= j < t ==> call_ensures(T::get_indicator, (&tools@[j],), #[trigger] r@[j]),
        decreases tools.len() - t,
    {
        let ind = tools[t].get_indicator();
        r.push(ind);
        t = t + 1;
    }
    r
}

/// Matches the invocations against the tools and runs them: every match for
/// its effects, stopping after the first that surfaces output. The plan pairs
/// each invocation with every tool whose indicator, as read, is its name.
pub fn dispatch<T: Tool>(invocations: &Vec<ToolInput>, tools: &mut Vec<T>) -> (r: Dispatch)
    ensures
        indicators_read(old(tools)@, r.indicators@),
        plan_view(r.plan@) == match_plan(calls_view(invocations@), names_view(r.indicators@)),
        exists|ran: Seq<ToolRun>|
            #[trigger] dispatch_ran(
                calls_view(invocations@),
                old(tools)@,
                final(tools)@,
                plan_view(r.plan@),
                ran,
                opt_view(r.output),
            ) && failures_view(r.failures@) == failed_at(plan_view(r.plan@), run_outcomes(ran)),
{
    let inds = indicators_of(tools);
    let plan = plan_for(invocations, &inds);
    run_plan(invocations, tools, inds, plan)
}

/// When run `k` is the first to surface output `x`, exactly `k + 1` runs take
/// place (every earlier match ran, no later one does) and `x` is the result.
pub proof fn lemma_output_stops_dispatch(outs: Seq<Outcome>, k: int, x: Seq<char>)
    requires
        0 <= k < outs.len(),
        outs[k] == Outcome::Output(x),
        forall|j: int| 0 <= j < k ==> !(#[trigger] outs[j] is Output),
    ensures
        calls_run(outs) == k + 1,
        first_output(outs) == Some(x),
    decreases k,
{
    if k > 0 {
        let rest = outs.drop_first();
        assert forall|j: int| 0 <= j < k - 1 implies !(#[trigger] rest[j] is Output) by {
            assert(rest[j] == outs[j + 1]);
        }
        assert(!(outs[0] is Output));
        lemma_output_stops_dispatch(rest, k - 1, x);
    }
}

/// When no run surfaces output, every planned run takes place and the
/// dispatch gives no output.
pub proof fn lemma_quiet_dispatch_runs_all(outs: Seq<Outcome>)
    requires
        all_quiet(outs),
    ensures
        calls_run(outs) == outs.len(),
        first_output(outs) is None,
    decreases outs.len(),
{
    if outs.len() > 0 {
        let rest = outs.drop_first();
        assert forall|j: int| 0 <= j < rest.len() implies !(#[trigger] rest[j] is Output) by {
            assert(rest[j] == outs[j + 1]);
        }
        assert(!(outs[0] is Output));
        lemma_quiet_dispatch_runs_all(rest);
    }
}

/// What a dispatch saw is the start of what the planned runs would give, and
/// it ends where `calls_run` says, with the same result.
pub proof fn lemma_ran_is_prefix_run(ran: Seq<Outcome>, outs: Seq<Outcome>)
    requires
        ran_ok(ran, outs.len()),
        ran == outs.take(ran.len() as int),
    ensures
        ran.len() == calls_run(outs),
        first_output(ran) == first_output(outs),
{
    if ran.len() < outs.len() {
        let k = ran.len() - 1;
        assert(ran[k] == outs[k]);
        if let Outcome::Output(x) = outs[k] {
            assert forall|j: int| 0 <= j < k implies !(#[trigger] outs[j] is Output) by {
                assert(ran[j] == outs[j]);
            }
            lemma_output_stops_dispatch(outs, k, x);
            assert forall|j: int| 0 <= j < k implies !(#[trigger] ran[j] is Output) by {}
            lemma_output_stops_dispatch(ran, k, x);
        }
    } else {
        assert(ran =~= outs);
        if ran.len() > 0 {
            let k = ran.len() - 1;
            match ran[k] {
                Outcome::Output(x) => {
                    lemma_output_stops_dispatch(ran, k, x);
                },
                _ => {
                    assert(all_quiet(ran));
                    lemma_quiet_dispatch_runs_all(ran);
                },
            }
        }
    }
}

/// A dispatch pass over a plan, where planned run `k` would come out as
/// `outs[k]`, makes exactly `calls_run(outs)` runs, the planned ones in order,
/// and returns the first surfaced output, or none after trying every match.
pub proof fn lemma_dispatch_follows_outcomes<T: Tool>(
    calls: Seq<ToolCall>,
    before: Seq<T>,
    after: Seq<T>,
    plan: Seq<(int, int)>,
    ran: Seq<ToolRun>,
    output: Option<Seq<char>>,
    outs: Seq<Outcome>,
)
    requires
        dispatch_ran(calls, before, after, plan, ran, output),
        outs.len() == plan.len(),
        run_outcomes(ran) == outs.take(ran.len() as int),
    ensures
        ran.len() == calls_run(outs),
        output == first_output(outs),
{
    lemma_ran_is_prefix_run(run_outcomes(ran), outs);
}

/// Once a run surfaces output, the dispatch pass makes no further run, and
/// that output is the result.
pub proof fn lemma_dispatch_stops_at_output<T: Tool>(
    calls: Seq<ToolCall>,
    before: Seq<T>,
    after: Seq<T>,
    plan: Seq<(int, int)>,
    ran: Seq<ToolRun>,
    output: Option<Seq<char>>,
    k: int,
    x: Seq<char>,
)
    requires
        dispatch_ran(calls, before, after, plan, ran, output),
        0 <= k < ran.len(),
        ran[k].outcome == Outcome::Output(x),
    ensures
        ran.len() == k + 1,
        output == Some(x),
{
    let outs = run_outcomes(ran);
    assert(outs[k] == Outcome::Output(x));
    if k < ran.len() - 1 {
        assert(!(outs[k] is Output));
    }
    assert forall|j: int| 0 <= j < k implies !(#[trigger] outs[j] is Output) by {}
    lemma_output_stops_dispatch(outs, k, x);
}

/// When no run surfaces output, every planned pair was run and there is no
/// output.
pub proof fn lemma_quiet_dispatch_tries_all<T: Tool>(
    calls: Seq<ToolCall>,
    before: Seq<T>,
    after: Seq<T>,
    plan: Seq<(int, int)>,
    ran: Seq<ToolRun>,
    output: Option<Seq<char>>,
)
    requires
        dispatch_ran(calls, before, after, plan, ran, output),
        all_quiet(run_outcomes(ran)),
    ensures
        ran.len() == plan.len(),
        output is None,
{
    if ran.len() < plan.len() {
        assert(run_outcomes(ran)[ran.len() - 1] is Output);
    }
    lemma_quiet_dispatch_runs_all(run_outcomes(ran));
}

} // verus!
