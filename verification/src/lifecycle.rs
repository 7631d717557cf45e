//! One invocation from start to end: the synthesizer's steps, then a reload
//! of the network manager where the configuration has changed.
//!
//! The library decides and the caller acts. The caller is handed one step at
//! a time, performs it, and reports how it went; a step that failed ends the
//! invocation with that failure.

use crate::config::{Config, ConfigView, Reason, Route, RouteView, route_views};
use crate::error::{Error, ErrorView, IoFailure, IoFailureView};
use crate::plan::{Changed, Step, StepView, Synthesis, SynthesisView, result_view, step_views};
use crate::process::{Process, disconnect_steps, synthesis};
use vstd::prelude::*;

verus! {

/// What is left of an invocation: the steps still to perform, and the result
/// once all of them have succeeded.
#[derive(Debug, PartialEq, Eq)]
pub struct Lifecycle {
    pending: Vec<Step>,
    verdict: Result<(), Error>,
}

/// What a `Lifecycle` holds, as mathematical values.
pub struct LifecycleView {
    pub pending: Seq<StepView>,
    pub verdict: Result<(), ErrorView>,
}

impl View for Lifecycle {
    type V = LifecycleView;

    closed spec fn view(&self) -> LifecycleView {
        LifecycleView { pending: step_views(self.pending@), verdict: result_view(self.verdict) }
    }
}

/// What the caller does next.
#[derive(Debug, PartialEq, Eq)]
pub enum Progress {
    /// Perform the step, then report how it went to what is left.
    Perform(Step, Lifecycle),
    /// The invocation has ended, with this result.
    Finish(Result<(), Error>),
}

/// What a `Progress` holds, as mathematical values.
pub enum ProgressView {
    Perform(StepView, LifecycleView),
    Finish(Result<(), ErrorView>),
}

impl View for Progress {
    type V = ProgressView;

    open spec fn view(&self) -> ProgressView {
        match self {
            Progress::Perform(step, rest) => ProgressView::Perform(step@, rest@),
            Progress::Finish(result) => ProgressView::Finish(result_view(*result)),
        }
    }
}

/// The steps of an invocation and its result: what the synthesizer decided,
/// and after it a reload exactly where the synthesizer reports a change.
pub open spec fn lifecycle_of(decided: SynthesisView) -> LifecycleView {
    match decided.outcome {
        Ok(Changed::Yes) => LifecycleView {
            pending: decided.steps.push(StepView::Reload),
            verdict: Ok(()),
        },
        Ok(Changed::No) => LifecycleView { pending: decided.steps, verdict: Ok(()) },
        Err(e) => LifecycleView { pending: decided.steps, verdict: Err(e) },
    }
}

/// The next thing to do when nothing has failed: the first of the pending
/// steps, or the end.
pub open spec fn proceed(l: LifecycleView) -> ProgressView {
    if l.pending.len() > 0 {
        ProgressView::Perform(
            l.pending[0],
            LifecycleView { pending: l.pending.skip(1), verdict: l.verdict },
        )
    } else {
        ProgressView::Finish(l.verdict)
    }
}

/// The view of a caller's report on a step.
pub open spec fn report_view(last: Result<(), IoFailure>) -> Result<(), IoFailureView> {
    match last {
        Ok(_) => Ok(()),
        Err(failure) => Err(failure@),
    }
}

/// The next thing to do after a step: a failure ends the invocation and is
/// its result, unchanged; a success leads on.
pub open spec fn after(l: LifecycleView, last: Result<(), IoFailureView>) -> ProgressView {
    match last {
        Ok(_) => proceed(l),
        Err(failure) => ProgressView::Finish(Err(ErrorView::Io(failure))),
    }
}

impl Lifecycle {
    /// An invocation that performs what the synthesizer decided.
    pub fn begin(decided: Synthesis) -> (progress: Progress)
        ensures
            progress@ == proceed(lifecycle_of(decided@)),
    {
        let Synthesis { steps, outcome } = decided;
        let mut pending = steps;
        let ghost before = step_views(pending@);
        let verdict: Result<(), Error> = match outcome {
            Ok(Changed::Yes) => {
                pending.push(Step::Reload);
                assert(step_views(pending@) =~= before.push(StepView::Reload));
                Ok(())
            },
            Ok(Changed::No) => Ok(()),
            Err(e) => Err(e),
        };
        let rest = Lifecycle { pending, verdict };
        rest.proceed()
    }

    fn proceed(self) -> (progress: Progress)
        ensures
            progress@ == proceed(self@),
    {
        let Lifecycle { pending, verdict } = self;
        let mut pending = pending;
        if pending.len() > 0 {
            let ghost before = step_views(pending@);
            let step = pending.remove(0);
            assert(step_views(pending@) =~= before.skip(1));
            Progress::Perform(step, Lifecycle { pending, verdict })
        } else {
            Progress::Finish(verdict)
        }
    }

    /// Takes the report on the step that was handed out last, and says what
    /// to do next.
    pub fn advance(self, last: Result<(), IoFailure>) -> (progress: Progress)
        ensures
            progress@ == after(self@, report_view(last)),
    {
        match last {
            Ok(_) => self.proceed(),
            Err(failure) => Progress::Finish(Err(Error::Io(failure))),
        }
    }
}

/// Processes one event: synthesizes the configuration, and has the network
/// manager reload it where it has changed.
pub fn run_locally_noenv(config: Config, routes: Vec<Route>) -> (progress: Progress)
    ensures
        progress@ == proceed(lifecycle_of(synthesis(config@, route_views(routes@)))),
{
    Lifecycle::begin(Process::new(config, routes).run())
}

/// The steps that a caller is handed, in order, and the result of the
/// invocation, if it has come to its end, where the caller's reports on the
/// steps are `reports`, in order. Reports beyond the end are not looked at.
pub open spec fn drive(progress: ProgressView, reports: Seq<Result<(), IoFailureView>>) -> (
    Seq<StepView>,
    Option<Result<(), ErrorView>>,
)
    decreases reports.len(),
{
    match progress {
        ProgressView::Finish(result) => (Seq::empty(), Some(result)),
        ProgressView::Perform(step, rest) => if reports.len() == 0 {
            (seq![step], None)
        } else {
            let (more, end) = drive(after(rest, reports[0]), reports.skip(1));
            (seq![step] + more, end)
        },
    }
}

/// Where every step succeeds, the caller is handed each pending step once,
/// in order, and the invocation ends with the result that was decided.
pub proof fn law_success_runs_to_the_end(l: LifecycleView, reports: Seq<Result<(), IoFailureView>>)
    requires
        reports.len() >= l.pending.len(),
        forall|i: int| 0 <= i < l.pending.len() ==> #[trigger] reports[i] is Ok,
    ensures
        drive(proceed(l), reports) == (l.pending, Some(l.verdict)),
    decreases l.pending.len(),
{
    if l.pending.len() == 0 {
        assert(l.pending =~= Seq::<StepView>::empty());
    } else {
        let rest = LifecycleView { pending: l.pending.skip(1), verdict: l.verdict };
        let later = reports.skip(1);
        assert forall|i: int| 0 <= i < rest.pending.len() implies #[trigger] later[i] is Ok by {
            assert(later[i] == reports[i + 1]);
        }
        assert(reports[0] is Ok);
        law_success_runs_to_the_end(rest, later);
        assert(seq![l.pending[0]] + rest.pending =~= l.pending);
    }
}

/// Where the step at `k` is the first to fail, the caller is handed the
/// pending steps up to that one and no more, and the invocation ends with
/// that failure, unchanged. Nothing is undone.
pub proof fn law_failure_ends_the_run(
    l: LifecycleView,
    reports: Seq<Result<(), IoFailureView>>,
    k: int,
)
    requires
        0 <= k < l.pending.len(),
        k < reports.len(),
        forall|i: int| 0 <= i < k ==> #[trigger] reports[i] is Ok,
        reports[k] is Err,
    ensures
        drive(proceed(l), reports) == (
            l.pending.take(k + 1),
            Some(Err::<(), ErrorView>(ErrorView::Io(reports[k]->Err_0))),
        ),
    decreases k,
{
    let rest = LifecycleView { pending: l.pending.skip(1), verdict: l.verdict };
    let later = reports.skip(1);
    if k == 0 {
        assert(after(rest, reports[0]) == ProgressView::Finish(
            Err(ErrorView::Io(reports[0]->Err_0)),
        ));
        assert(drive(after(rest, reports[0]), later).0 =~= Seq::<StepView>::empty());
        assert(seq![l.pending[0]] + Seq::<StepView>::empty() =~= l.pending.take(1));
    } else {
        assert forall|i: int| 0 <= i < k - 1 implies #[trigger] later[i] is Ok by {
            assert(later[i] == reports[i + 1]);
        }
        assert(later[k - 1] == reports[k]);
        assert(reports[0] is Ok);
        law_failure_ends_the_run(rest, later, k - 1);
        assert(seq![l.pending[0]] + rest.pending.take(k) =~= l.pending.take(k + 1));
    }
}

/// The network manager is told to reload exactly where the synthesizer
/// reports a change, and then as the last step, after all that the
/// synthesizer asked for.
pub proof fn law_reload_follows_change(decided: SynthesisView)
    ensures
        decided.outcome == Ok::<Changed, ErrorView>(Changed::Yes) ==> lifecycle_of(decided).pending
            == decided.steps.push(StepView::Reload),
        decided.outcome != Ok::<Changed, ErrorView>(Changed::Yes) ==> lifecycle_of(decided).pending
            == decided.steps,
        decided.outcome is Ok <==> lifecycle_of(decided).verdict is Ok,
        decided.outcome matches Err(e) ==> lifecycle_of(decided).verdict == Err::<(), ErrorView>(e),
{
}

/// An event whose reason is neither connect nor disconnect is over at once:
/// no step is performed, neither on a file nor on the network manager, and
/// the invocation succeeds.
pub proof fn law_other_reasons_do_nothing(c: ConfigView, routes: Seq<RouteView>)
    requires
        c.reason == Reason::PreInit || c.reason == Reason::AttemptReconnect || c.reason
            == Reason::Reconnect,
    ensures
        proceed(lifecycle_of(synthesis(c, routes))) == ProgressView::Finish(Ok(())),
{
}

/// A disconnect begins with the removal of the configuration file. Where
/// the removal fails, as it does where there is no such file, that failure
/// is the result and nothing else is done; where it succeeds, the network
/// manager reloads, and that ends the invocation.
pub proof fn law_disconnect_run(c: ConfigView, routes: Seq<RouteView>, failure: IoFailureView)
    requires
        c.reason == Reason::Disconnect,
    ensures
        proceed(lifecycle_of(synthesis(c, routes))) is Perform,
        proceed(lifecycle_of(synthesis(c, routes)))->Perform_0 == disconnect_steps(c)[0],
        after(proceed(lifecycle_of(synthesis(c, routes)))->Perform_1, Err(failure))
            == ProgressView::Finish(Err(ErrorView::Io(failure))),
        after(proceed(lifecycle_of(synthesis(c, routes)))->Perform_1, Ok(())) is Perform,
        after(proceed(lifecycle_of(synthesis(c, routes)))->Perform_1, Ok(()))->Perform_0
            == StepView::Reload,
        after(
            after(proceed(lifecycle_of(synthesis(c, routes)))->Perform_1, Ok(()))->Perform_1,
            Ok(()),
        ) == ProgressView::Finish(Ok(())),
        after(
            after(proceed(lifecycle_of(synthesis(c, routes)))->Perform_1, Ok(()))->Perform_1,
            Err(failure),
        ) == ProgressView::Finish(Err(ErrorView::Io(failure))),
{
    let l = lifecycle_of(synthesis(c, routes));
    assert(l.pending.len() == 2);
    assert(l.pending.skip(1).len() == 1);
    assert(l.pending.skip(1).skip(1).len() == 0);
}

} // verus!
