//! What holds of every run of a submission, whatever events arrive and in
//! whatever order.

use vstd::prelude::*;

use crate::sandbox::resource::ResourceLimits;
use crate::submit::classify::{
    classification, lemma_classification_is_of_a_run, TestOutcomeView,
};
use crate::submit::compile::compilation;
use crate::submit::message::MessageView;
use crate::submit::model::{Action, EventView, Phase, SubmissionModel};
use crate::submit::report::{verdicts, TestReport};
use crate::submit::subtask::{
    count_set, lemma_count_set_bounded, lemma_count_set_full, lemma_fresh_subtask, lemma_record_keeps_well_formed,
    lemma_skipped_subtask_is_below_its_verdict, SubtaskModel,
};
use crate::submit::verdict::{lemma_min_of_constant, Verdict};

verus! {

/// A run so far: where the submission stands, every message sent, in
/// order, and the action that each event led to.
pub struct Trace {
    pub state: SubmissionModel,
    pub messages: Seq<MessageView>,
    pub actions: Seq<Action>,
}

/// The run that takes the given events one after another.
pub open spec fn trace_of(state: SubmissionModel, events: Seq<EventView>) -> Trace
    decreases events.len(),
{
    if events.len() == 0 {
        Trace { state, messages: Seq::empty(), actions: Seq::empty() }
    } else {
        let before = trace_of(state, events.drop_last());
        let step = before.state.step(events.last());
        Trace {
            state: step.state,
            messages: before.messages + step.messages,
            actions: before.actions.push(step.action),
        }
    }
}

/// Whether the compiler was reported to have failed, or not to have run,
/// while the submission was compiling.
pub open spec fn compile_failed(state: SubmissionModel, events: Seq<EventView>) -> bool
    decreases events.len(),
{
    if events.len() == 0 {
        false
    } else {
        compile_failed(state, events.drop_last()) || fails_compiling(
            trace_of(state, events.drop_last()).state,
            events.last(),
        )
    }
}

/// Whether the event reports a failed compiler, or one that could not be
/// run, to a submission that is compiling.
pub open spec fn fails_compiling(state: SubmissionModel, event: EventView) -> bool {
    &&& state.phase == Phase::Compiling
    &&& match event {
        EventView::Compiled { output } => !compilation(output).success,
        EventView::CompileUnavailable => true,
        _ => false,
    }
}

/// No `Judging` message among the given ones.
pub open spec fn no_verdict_sent(messages: Seq<MessageView>) -> bool {
    forall|k: int| 0 <= k < messages.len() ==> !((#[trigger] messages[k]) is Judging)
}

/// No test was ever started.
pub open spec fn no_test_run(actions: Seq<Action>) -> bool {
    forall|k: int| 0 <= k < actions.len() ==> (#[trigger] actions[k]) != Action::RunTests
}

/// Whether every report on record is that of a run: none is `Skipped`.
pub open spec fn all_classified(state: SubmissionModel) -> bool {
    forall|subtask: int, test: int|
        0 <= subtask < state.subtasks.len() && 0 <= test < state.subtasks[subtask].len()
            && state.subtasks[subtask].recorded[test] ==> (
        #[trigger] state.subtasks[subtask].reports[test]).verdict != Verdict::Skipped
}

/// What holds after every event of a run.
pub open spec fn orderly(trace: Trace, failed: bool) -> bool {
    let sent = trace.messages;
    &&& trace.state.shaped()
    &&& (trace.state.phase == Phase::Created <==> sent.len() == 0)
    &&& (sent.len() > 0 ==> sent[0] is Queued)
    &&& (forall|k: int| 0 < k < sent.len() ==> !((#[trigger] sent[k]) is Queued))
    &&& (forall|k: int| 0 <= k < sent.len() - 1 ==> !(#[trigger] sent[k]).is_terminal())
    &&& (trace.state.phase == Phase::Finished <==> sent.len() > 0 && sent.last().is_terminal())
    &&& (forall|k: int| 0 <= k < sent.len() && (#[trigger] sent[k]) is Compiling ==> k == 1)
    &&& (trace.state.phase == Phase::Judging ==> !trace.state.all_settled())
    &&& all_classified(trace.state)
    &&& (trace.state.phase == Phase::Created || trace.state.phase == Phase::Compiling || failed
        ==> no_verdict_sent(sent) && no_test_run(trace.actions))
    &&& (failed ==> trace.state.phase == Phase::Finished && sent.last() == (MessageView::Done {
        report: trace.state.failed_report(),
    }))
    &&& (!failed && trace.state.phase == Phase::Finished ==> (sent.last() matches MessageView::Done {
        report,
    } ==> report == trace.state.judged_report()))
}

/// A step keeps the shape of the judging state.
pub proof fn lemma_step_keeps_shape(state: SubmissionModel, event: EventView)
    requires
        state.shaped(),
    ensures
        state.step(event).state.shaped(),
        state.step(event).state.expected == state.expected,
        state.step(event).state.compiles == state.compiles,
        state.step(event).state.skip_count == state.skip_count,
        state.step(event).state.limits == state.limits,
        state.step(event).state.uuid == state.uuid,
        state.total() <= u32::MAX ==> state.step(event).state.well_formed(),
{
    let next = state.step(event).state;
    match event {
        EventView::Tested { subtask, test, outcome } => {
            if state.awaits(subtask as int, test as int) {
                let report = classification(
                    outcome,
                    state.expected[subtask as int][test as int],
                    state.limits,
                );
                lemma_record_keeps_well_formed(
                    state.subtasks[subtask as int],
                    test as int,
                    report,
                    state.skip_count,
                );
                assert forall|i: int| 0 <= i < next.subtasks.len() implies (
                #[trigger] next.subtasks[i]).well_formed() && next.subtasks[i].len()
                    == next.expected[i].len() by {
                    if i != subtask {
                        assert(next.subtasks[i] == state.subtasks[i]);
                    }
                }
            }
        },
        _ => {},
    }
    assert(next.test_counts() =~= state.test_counts());
}

/// A step records nothing but the report of a run.
pub proof fn lemma_step_keeps_classified(state: SubmissionModel, event: EventView)
    requires
        state.shaped(),
        all_classified(state),
    ensures
        all_classified(state.step(event).state),
{
    let next = state.step(event).state;
    match event {
        EventView::Tested { subtask, test, outcome } => {
            if state.awaits(subtask as int, test as int) {
                lemma_classification_is_of_a_run(
                    outcome,
                    state.expected[subtask as int][test as int],
                    state.limits,
                );
                assert forall|i: int, t: int|
                    0 <= i < next.subtasks.len() && 0 <= t < next.subtasks[i].len()
                        && next.subtasks[i].recorded[t] implies (
                #[trigger] next.subtasks[i].reports[t]).verdict != Verdict::Skipped by {
                    if i != subtask {
                        assert(next.subtasks[i] == state.subtasks[i]);
                    } else if t != test {
                        assert(state.subtasks[i].recorded[t]);
                        assert(next.subtasks[i].reports[t] == state.subtasks[i].reports[t]);
                    }
                }
            }
        },
        _ => {},
    }
}

/// A submission that has finished takes no further event.
pub proof fn law_finished_is_final(state: SubmissionModel, event: EventView)
    requires
        state.phase == Phase::Finished,
    ensures
        state.step(event) == state.ignored(),
{
}

/// One more event keeps a run orderly.
pub proof fn lemma_step_keeps_orderly(trace: Trace, failed: bool, event: EventView)
    requires
        orderly(trace, failed),
    ensures
        orderly(
            Trace {
                state: trace.state.step(event).state,
                messages: trace.messages + trace.state.step(event).messages,
                actions: trace.actions.push(trace.state.step(event).action),
            },
            failed || fails_compiling(trace.state, event),
        ),
{
    let step = trace.state.step(event);
    let next = Trace {
        state: step.state,
        messages: trace.messages + step.messages,
        actions: trace.actions.push(step.action),
    };
    let sent = next.messages;
    let old_len = trace.messages.len() as int;
    lemma_step_keeps_shape(trace.state, event);
    lemma_step_keeps_classified(trace.state, event);
    assert(forall|k: int| 0 <= k < old_len ==> sent[k] == trace.messages[k]);
    assert(forall|k: int|
        old_len <= k < sent.len() ==> sent[k] == step.messages[k - old_len]);
    assert(step.state.failed_report() == trace.state.failed_report());
    if trace.state.phase == Phase::Finished {
        assert(step == trace.state.ignored());
        assert(sent =~= trace.messages);
        assert(!fails_compiling(trace.state, event));
        assert(orderly(next, failed));
    } else {
        assert(!failed);
        assert(step.messages.len() <= 4);
        assert(orderly(next, failed || fails_compiling(trace.state, event)));
    }
}


/// Every run of a submission from its beginning is orderly.
pub proof fn lemma_run_is_orderly(
    expected: Seq<Seq<Seq<char>>>,
    compiles: bool,
    skip_count: u8,
    limits: ResourceLimits,
    uuid: Seq<char>,
    events: Seq<EventView>,
)
    ensures
        orderly(
            trace_of(SubmissionModel::initial(expected, compiles, skip_count, limits, uuid), events),
            compile_failed(
                SubmissionModel::initial(expected, compiles, skip_count, limits, uuid),
                events,
            ),
        ),
        trace_of(
            SubmissionModel::initial(expected, compiles, skip_count, limits, uuid),
            events,
        ).state.expected == expected,
    decreases events.len(),
{
    let start = SubmissionModel::initial(expected, compiles, skip_count, limits, uuid);
    if events.len() == 0 {
        assert forall|i: int| 0 <= i < start.subtasks.len() implies (
        #[trigger] start.subtasks[i]).well_formed() && start.subtasks[i].len()
            == start.expected[i].len() by {
            lemma_fresh_subtask(expected[i].len());
        }
    } else {
        lemma_run_is_orderly(expected, compiles, skip_count, limits, uuid, events.drop_last());
        let before = trace_of(start, events.drop_last());
        lemma_step_keeps_orderly(
            before,
            compile_failed(start, events.drop_last()),
            events.last(),
        );
        lemma_step_keeps_shape(before.state, events.last());
    }
}

/// The stream ends once: in every run `Done` or `Error` can only be the last
/// message sent, so there is at most one of them and nothing follows it;
/// and there is one exactly when the submission has finished.
pub proof fn law_stream_ends_once(
    expected: Seq<Seq<Seq<char>>>,
    compiles: bool,
    skip_count: u8,
    limits: ResourceLimits,
    uuid: Seq<char>,
    events: Seq<EventView>,
)
    ensures
        ({
            let trace = trace_of(
                SubmissionModel::initial(expected, compiles, skip_count, limits, uuid),
                events,
            );
            &&& forall|k: int|
                0 <= k < trace.messages.len() && (#[trigger] trace.messages[k]).is_terminal() ==> k
                    == trace.messages.len() - 1
            &&& trace.state.phase == Phase::Finished <==> trace.messages.len() > 0
                && trace.messages.last().is_terminal()
        }),
{
    lemma_run_is_orderly(expected, compiles, skip_count, limits, uuid, events);
}

/// The stream is in order: in every run `Queued` is the first message and
/// is sent once, and where `Compiling` is sent it comes right after it, so
/// before every `CompilerOutput`, every `Judging` and whatever else is
/// sent.
pub proof fn law_stream_order(
    expected: Seq<Seq<Seq<char>>>,
    compiles: bool,
    skip_count: u8,
    limits: ResourceLimits,
    uuid: Seq<char>,
    events: Seq<EventView>,
)
    ensures
        ({
            let sent = trace_of(
                SubmissionModel::initial(expected, compiles, skip_count, limits, uuid),
                events,
            ).messages;
            &&& sent.len() > 0 ==> sent[0] is Queued
            &&& forall|k: int| 0 < k < sent.len() ==> !((#[trigger] sent[k]) is Queued)
            &&& forall|c: int| 0 <= c < sent.len() && (#[trigger] sent[c]) is Compiling ==> c == 1
            &&& forall|c: int, k: int|
                0 <= c < sent.len() && 0 <= k < sent.len() && (#[trigger] sent[c]) is Compiling
                    && !((#[trigger] sent[k]) is Queued) && k != c ==> c < k
        }),
{
    lemma_run_is_orderly(expected, compiles, skip_count, limits, uuid, events);
}

/// Judging never stalls: in every run, while the submission is being
/// judged, the result of some test is awaited. So the driver always has a
/// result to wait for, and each one that arrives is taken.
pub proof fn law_judging_awaits_a_test(
    expected: Seq<Seq<Seq<char>>>,
    compiles: bool,
    skip_count: u8,
    limits: ResourceLimits,
    uuid: Seq<char>,
    events: Seq<EventView>,
)
    requires
        trace_of(
            SubmissionModel::initial(expected, compiles, skip_count, limits, uuid),
            events,
        ).state.phase == Phase::Judging,
    ensures
        exists|subtask: int, test: int|
            trace_of(
                SubmissionModel::initial(expected, compiles, skip_count, limits, uuid),
                events,
            ).state.awaits(subtask, test),
{
    lemma_run_is_orderly(expected, compiles, skip_count, limits, uuid, events);
    let state = trace_of(
        SubmissionModel::initial(expected, compiles, skip_count, limits, uuid),
        events,
    ).state;
    let subtask = choose|i: int| 0 <= i < state.subtasks.len() && !state.subtasks[i].settled();
    lemma_count_set_full(state.subtasks[subtask].recorded);
    let test = choose|t: int|
        0 <= t < state.subtasks[subtask].recorded.len() && !state.subtasks[subtask].recorded[t];
    assert(state.awaits(subtask, test));
}

/// After a failed compile nothing is judged: in a run in which the compiler
/// was reported to have failed or not to have run, no test is ever started, no `Judging` is
/// sent, and the run ends with a report that holds `CompileError` at every
/// place, in the shape of the task.
pub proof fn law_failed_compile_runs_no_test(
    expected: Seq<Seq<Seq<char>>>,
    compiles: bool,
    skip_count: u8,
    limits: ResourceLimits,
    uuid: Seq<char>,
    events: Seq<EventView>,
)
    requires
        compile_failed(
            SubmissionModel::initial(expected, compiles, skip_count, limits, uuid),
            events,
        ),
    ensures
        ({
            let trace = trace_of(
                SubmissionModel::initial(expected, compiles, skip_count, limits, uuid),
                events,
            );
            &&& no_test_run(trace.actions)
            &&& no_verdict_sent(trace.messages)
            &&& trace.messages.len() > 0
            &&& trace.messages.last() matches MessageView::Done { report }
            &&& report.uniform(Verdict::CompileError)
            &&& report.well_formed()
            &&& report.shape() == Seq::new(expected.len(), |i: int| expected[i].len())
        }),
{
    lemma_run_is_orderly(expected, compiles, skip_count, limits, uuid, events);
    let trace = trace_of(
        SubmissionModel::initial(expected, compiles, skip_count, limits, uuid),
        events,
    );
    let report = trace.state.failed_report();
    assert(report.shape() =~= Seq::new(expected.len(), |i: int| expected[i].len()));
}

/// The report of a submission that did not compile aggregates exactly
/// where there is something to aggregate: the verdict of a subtask is the
/// least of its tests' verdicts if and only if it has a test, and the
/// verdict of the task is the least of its subtasks' verdicts if and only if
/// it has a subtask.
pub proof fn law_failed_report_aggregates(state: SubmissionModel)
    ensures
        state.failed_report().well_formed(),
        state.failed_report().uniform(Verdict::CompileError),
        state.expected.len() > 0 <==> state.failed_report().task_aggregates(),
        forall|i: int|
            0 <= i < state.expected.len() ==> (state.expected[i].len() > 0
                <==> #[trigger] state.failed_report().subtask_aggregates(i)),
{
    let report = state.failed_report();
    if state.expected.len() > 0 {
        lemma_min_of_constant(report.subtasks, Verdict::CompileError);
    }
    assert forall|i: int| 0 <= i < state.expected.len() implies (state.expected[i].len() > 0
        <==> #[trigger] report.subtask_aggregates(i)) by {
        if state.expected[i].len() > 0 {
            lemma_min_of_constant(verdicts(report.tests[i]), Verdict::CompileError);
        }
    }
}

/// The report of a submission that was judged aggregates: the verdict of
/// the task is the least of its subtasks' verdicts, and the verdict of a
/// subtask is the least of its tests' verdicts if and only if its skip
/// budget held. The verdict of a subtask whose budget was exceeded is
/// `Skipped`, above the kills at a resource limit that are on record for it.
pub proof fn law_judged_report_aggregates(state: SubmissionModel)
    requires
        state.shaped(),
    ensures
        state.judged_report().well_formed(),
        state.judged_report().task_aggregates(),
        forall|i: int|
            0 <= i < state.subtasks.len() ==> (!state.subtasks[i].skipped
                <==> #[trigger] state.judged_report().subtask_aggregates(i)),
        forall|i: int|
            0 <= i < state.subtasks.len() && state.subtasks[i].skipped
                ==> #[trigger] state.judged_report().subtasks[i] == Verdict::Skipped,
{
    assert forall|i: int| 0 <= i < state.subtasks.len() implies (!state.subtasks[i].skipped
        <==> #[trigger] state.judged_report().subtask_aggregates(i)) by {
        if state.subtasks[i].skipped {
            lemma_skipped_subtask_is_below_its_verdict(state.subtasks[i]);
        }
    }
}

/// Every report that is sent aggregates. In every run that ends with
/// `Done`, the report has the shape of the task; unless the compiler failed
/// it is the report of the judging, whose task verdict is the least of the
/// subtask verdicts and in which each subtask whose skip budget held has
/// the least of its tests' verdicts.
pub proof fn law_report_aggregates(
    expected: Seq<Seq<Seq<char>>>,
    compiles: bool,
    skip_count: u8,
    limits: ResourceLimits,
    uuid: Seq<char>,
    events: Seq<EventView>,
)
    requires
        ({
            let trace = trace_of(
                SubmissionModel::initial(expected, compiles, skip_count, limits, uuid),
                events,
            );
            trace.messages.len() > 0 && trace.messages.last() is Done
        }),
    ensures
        ({
            let start = SubmissionModel::initial(expected, compiles, skip_count, limits, uuid);
            let trace = trace_of(start, events);
            let report = trace.messages.last()->Done_report;
            &&& report.well_formed()
            &&& report.shape() == Seq::new(expected.len(), |i: int| expected[i].len())
            &&& compile_failed(start, events) ==> report == trace.state.failed_report()
            &&& compile_failed(start, events) ==> {
                &&& expected.len() > 0 <==> report.task_aggregates()
                &&& forall|i: int|
                    0 <= i < expected.len() ==> (expected[i].len() > 0
                        <==> #[trigger] report.subtask_aggregates(i))
            }
            &&& !compile_failed(start, events) ==> {
                &&& report == trace.state.judged_report()
                &&& report.task_aggregates()
                &&& forall|i: int|
                    0 <= i < expected.len() ==> (!trace.state.subtasks[i].skipped
                        <==> #[trigger] report.subtask_aggregates(i))
                &&& forall|i: int|
                    0 <= i < expected.len() && trace.state.subtasks[i].skipped
                        ==> #[trigger] report.subtasks[i] == Verdict::Skipped
            }
        }),
{
    lemma_run_is_orderly(expected, compiles, skip_count, limits, uuid, events);
    let start = SubmissionModel::initial(expected, compiles, skip_count, limits, uuid);
    let trace = trace_of(start, events);
    let report = trace.messages.last()->Done_report;
    law_judged_report_aggregates(trace.state);
    law_failed_report_aggregates(trace.state);
    assert(trace.state.failed_report().shape() =~= Seq::new(
        expected.len(),
        |i: int| expected[i].len(),
    ));
    assert(trace.state.judged_report().shape() =~= Seq::new(
        expected.len(),
        |i: int| expected[i].len(),
    ));
}

/// The slots of a report that hold `Skipped` are those of the tests that
/// were not classified. In every run, the slot of a test that was not
/// classified holds `Skipped` with nothing measured, and the slot of a test
/// that was classified holds another verdict. So a subtask whose skip
/// budget was exceeded, whose own verdict is `Skipped`, has an entry that is
/// `Skipped` if and only if one of its tests was left unclassified.
pub proof fn law_skipped_slots_are_the_unclassified(
    expected: Seq<Seq<Seq<char>>>,
    compiles: bool,
    skip_count: u8,
    limits: ResourceLimits,
    uuid: Seq<char>,
    events: Seq<EventView>,
    subtask: int,
)
    requires
        0 <= subtask < expected.len(),
    ensures
        ({
            let state = trace_of(
                SubmissionModel::initial(expected, compiles, skip_count, limits, uuid),
                events,
            ).state;
            let judged = state.subtasks[subtask];
            &&& state.subtasks.len() == expected.len()
            &&& judged.len() == expected[subtask].len()
            &&& state.judged_report().tests[subtask] == judged.reports
            &&& forall|test: int|
                0 <= test < judged.len() && !judged.recorded[test]
                    ==> #[trigger] judged.reports[test] == TestReport::unmeasured(Verdict::Skipped)
            &&& forall|test: int|
                0 <= test < judged.len() ==> ((#[trigger] judged.reports[test]).verdict
                    == Verdict::Skipped <==> !judged.recorded[test])
            &&& judged.skipped ==> judged.verdict() == Verdict::Skipped
            &&& (exists|test: int|
                0 <= test < judged.len() && (#[trigger] judged.reports[test]).verdict
                    == Verdict::Skipped) <==> judged.done() < judged.len()
        }),
{
    lemma_run_is_orderly(expected, compiles, skip_count, limits, uuid, events);
    let state = trace_of(
        SubmissionModel::initial(expected, compiles, skip_count, limits, uuid),
        events,
    ).state;
    let judged = state.subtasks[subtask];
    assert(judged.well_formed());
    assert forall|test: int| 0 <= test < judged.len() && !judged.recorded[test] implies #[trigger]
        judged.reports[test] == TestReport::unmeasured(Verdict::Skipped) by {
        assert(judged.untouched_at(test));
    }
    lemma_count_set_full(judged.recorded);
    lemma_count_set_bounded(judged.recorded);
    if judged.done() < judged.len() {
        let test = choose|t: int| 0 <= t < judged.recorded.len() && !judged.recorded[t];
        assert(judged.untouched_at(test));
        assert(judged.reports[test].verdict == Verdict::Skipped);
    }
}

/// A broken pipe is told of and judged, and is no failure of the judge:
/// when the pipes of an awaited test broke, a diagnostic is sent first and
/// then the verdict `WrongAnswer`; the test is on record with that verdict
/// and nothing measured, the count of kills at a resource limit is as it
/// was, and no `Error` is sent.
pub proof fn law_broken_pipe_is_told(state: SubmissionModel, subtask: int, test: int)
    requires
        state.shaped(),
        state.awaits(subtask, test),
    ensures
        ({
            let step = state.tested(subtask, test, TestOutcomeView::BrokenPipe);
            &&& step.messages.len() >= 2
            &&& step.messages[0] == MessageView::BrokenPipe
            &&& step.messages[1] == MessageView::Judging { verdict: Verdict::WrongAnswer }
            &&& forall|k: int| 0 <= k < step.messages.len() ==> !(#[trigger] step.messages[k] is Error)
            &&& step.state.subtasks[subtask].reports[test] == TestReport::unmeasured(
                Verdict::WrongAnswer,
            )
            &&& step.state.subtasks[subtask].recorded[test]
            &&& step.state.subtasks[subtask].breaches == state.subtasks[subtask].breaches
            &&& step.state.subtasks[subtask].skipped == (state.subtasks[subtask].breaches
                > state.skip_count)
        }),
{
}

/// The result of a test is taken once: after the result of a test has been
/// taken, no further result of that test is awaited.
pub proof fn law_result_is_taken_once(
    state: SubmissionModel,
    subtask: int,
    test: int,
    outcome: TestOutcomeView,
)
    requires
        state.shaped(),
        state.awaits(subtask, test),
    ensures
        !state.tested(subtask, test, outcome).state.awaits(subtask, test),
{
}

/// A subtask whose skip budget was exceeded stays as it is, whatever event
/// arrives.
pub proof fn lemma_skipped_subtask_is_frozen(
    state: SubmissionModel,
    subtask: int,
    event: EventView,
)
    requires
        0 <= subtask < state.subtasks.len(),
        state.subtasks[subtask].skipped,
    ensures
        state.step(event).state.subtasks.len() == state.subtasks.len(),
        state.step(event).state.subtasks[subtask] == state.subtasks[subtask],
        event matches EventView::Tested { subtask: s, .. } && s == subtask ==> state.step(event)
            == state.ignored(),
{
}

/// After a subtask is skipped none of its tests is judged any more: once
/// the skip budget of a subtask is exceeded, every later result of one of
/// its tests is ignored, so that no message is sent for it.
pub proof fn law_no_verdict_after_skip(
    state: SubmissionModel,
    subtask: int,
    events: Seq<EventView>,
    at: int,
)
    requires
        0 <= subtask < state.subtasks.len(),
        state.subtasks[subtask].skipped,
        0 <= at < events.len(),
        events[at] matches EventView::Tested { subtask: s, .. } && s == subtask,
    ensures
        trace_of(state, events.take(at)).state.step(events[at]) == trace_of(
            state,
            events.take(at),
        ).state.ignored(),
        trace_of(state, events.take(at)).state.step(events[at]).messages.len() == 0,
{
    lemma_skipped_subtask_stays(state, subtask, events.take(at));
    lemma_skipped_subtask_is_frozen(trace_of(state, events.take(at)).state, subtask, events[at]);
}

/// A subtask whose skip budget was exceeded stays as it is throughout a
/// run.
pub proof fn lemma_skipped_subtask_stays(
    state: SubmissionModel,
    subtask: int,
    events: Seq<EventView>,
)
    requires
        0 <= subtask < state.subtasks.len(),
        state.subtasks[subtask].skipped,
    ensures
        trace_of(state, events).state.subtasks.len() == state.subtasks.len(),
        trace_of(state, events).state.subtasks[subtask] == state.subtasks[subtask],
    decreases events.len(),
{
    if events.len() > 0 {
        lemma_skipped_subtask_stays(state, subtask, events.drop_last());
        lemma_skipped_subtask_is_frozen(
            trace_of(state, events.drop_last()).state,
            subtask,
            events.last(),
        );
    }
}

/// How many of the messages are verdicts.
pub open spec fn count_verdicts(messages: Seq<MessageView>) -> nat
    decreases messages.len(),
{
    if messages.len() == 0 {
        0
    } else {
        count_verdicts(messages.drop_last()) + if messages.last() is Judging {
            1nat
        } else {
            0nat
        }
    }
}

/// How many tests are classified, over all subtasks.
pub open spec fn count_classified(subtasks: Seq<SubtaskModel>) -> nat
    decreases subtasks.len(),
{
    if subtasks.len() == 0 {
        0
    } else {
        count_classified(subtasks.drop_last()) + subtasks.last().done()
    }
}

/// Whether every subtask is within its skip budget: at most one kill at a
/// resource limit beyond the budget is on record, and the subtask is
/// skipped exactly if that one is.
pub open spec fn within_budget(state: SubmissionModel) -> bool {
    forall|subtask: int|
        0 <= subtask < state.subtasks.len() ==> {
            &&& (#[trigger] state.subtasks[subtask]).breaches <= state.skip_count + 1
            &&& state.subtasks[subtask].skipped <==> state.subtasks[subtask].breaches
                > state.skip_count
        }
}

/// The verdicts among two runs of messages, one after the other, are those
/// of the one and those of the other.
pub proof fn lemma_count_verdicts_of_both(first: Seq<MessageView>, second: Seq<MessageView>)
    ensures
        count_verdicts(first + second) == count_verdicts(first) + count_verdicts(second),
    decreases second.len(),
{
    if second.len() == 0 {
        assert(first + second =~= first);
    } else {
        assert((first + second).drop_last() =~= first + second.drop_last());
        lemma_count_verdicts_of_both(first, second.drop_last());
    }
}

/// One more test classified in one subtask is one more in all.
pub proof fn lemma_count_classified_after(
    subtasks: Seq<SubtaskModel>,
    at: int,
    after: SubtaskModel,
)
    requires
        0 <= at < subtasks.len(),
        after.done() == subtasks[at].done() + 1,
    ensures
        count_classified(subtasks.update(at, after)) == count_classified(subtasks) + 1,
    decreases subtasks.len(),
{
    if at == subtasks.len() - 1 {
        assert(subtasks.update(at, after).drop_last() =~= subtasks.drop_last());
    } else {
        assert(subtasks.update(at, after).drop_last() =~= subtasks.drop_last().update(at, after));
        lemma_count_classified_after(subtasks.drop_last(), at, after);
    }
}

/// No more tests are classified than there are.
pub proof fn lemma_count_classified_bounded(subtasks: Seq<SubtaskModel>, counts: Seq<nat>)
    requires
        subtasks.len() == counts.len(),
        forall|i: int| 0 <= i < subtasks.len() ==> (#[trigger] subtasks[i]).done() <= counts[i],
    ensures
        count_classified(subtasks) <= crate::contest::sum(counts),
    decreases subtasks.len(),
{
    if subtasks.len() > 0 {
        lemma_count_classified_bounded(subtasks.drop_last(), counts.drop_last());
    }
}

/// A step sends one verdict for each test that it classifies, and keeps
/// every subtask within its budget.
pub proof fn lemma_step_counts(state: SubmissionModel, event: EventView)
    requires
        state.shaped(),
        within_budget(state),
    ensures
        within_budget(state.step(event).state),
        count_verdicts(state.step(event).messages) + count_classified(state.subtasks)
            == count_classified(state.step(event).state.subtasks),
{
    reveal_with_fuel(count_verdicts, 5);
    let step = state.step(event);
    lemma_step_keeps_shape(state, event);
    match event {
        EventView::Tested { subtask, test, outcome } => {
            if state.awaits(subtask as int, test as int) {
                let report = classification(
                    outcome,
                    state.expected[subtask as int][test as int],
                    state.limits,
                );
                let after = state.subtasks[subtask as int].record(
                    test as int,
                    report,
                    state.skip_count,
                );
                lemma_record_keeps_well_formed(
                    state.subtasks[subtask as int],
                    test as int,
                    report,
                    state.skip_count,
                );
                lemma_count_classified_after(state.subtasks, subtask as int, after);
                assert(step.state.subtasks =~= state.subtasks.update(subtask as int, after));
                assert forall|i: int| 0 <= i < step.state.subtasks.len() implies {
                    &&& (#[trigger] step.state.subtasks[i]).breaches <= step.state.skip_count + 1
                    &&& step.state.subtasks[i].skipped <==> step.state.subtasks[i].breaches
                        > step.state.skip_count
                } by {
                    if i != subtask {
                        assert(step.state.subtasks[i] == state.subtasks[i]);
                    }
                }
            } else {
                assert(step == state.ignored());
            }
        },
        _ => {
            assert(step.state.subtasks =~= state.subtasks);
        },
    }
}

/// In every run one verdict is sent for each test that is classified, and
/// every subtask stays within its budget.
pub proof fn lemma_run_counts(
    expected: Seq<Seq<Seq<char>>>,
    compiles: bool,
    skip_count: u8,
    limits: ResourceLimits,
    uuid: Seq<char>,
    events: Seq<EventView>,
)
    ensures
        ({
            let trace = trace_of(
                SubmissionModel::initial(expected, compiles, skip_count, limits, uuid),
                events,
            );
            &&& trace.state.shaped()
            &&& trace.state.skip_count == skip_count
            &&& trace.state.expected == expected
            &&& within_budget(trace.state)
            &&& count_verdicts(trace.messages) == count_classified(trace.state.subtasks)
        }),
    decreases events.len(),
{
    let start = SubmissionModel::initial(expected, compiles, skip_count, limits, uuid);
    lemma_run_is_orderly(expected, compiles, skip_count, limits, uuid, events);
    if events.len() == 0 {
        assert forall|i: int| 0 <= i < start.subtasks.len() implies (
        #[trigger] start.subtasks[i]).done() == 0 by {
            lemma_fresh_subtask(expected[i].len());
        }
        lemma_none_classified(start.subtasks);
    } else {
        lemma_run_counts(expected, compiles, skip_count, limits, uuid, events.drop_last());
        let before = trace_of(start, events.drop_last());
        lemma_step_counts(before.state, events.last());
        lemma_step_keeps_shape(before.state, events.last());
        lemma_count_verdicts_of_both(before.messages, before.state.step(events.last()).messages);
    }
}

/// Where no subtask has a test classified, none is classified in all.
pub proof fn lemma_none_classified(subtasks: Seq<SubtaskModel>)
    requires
        forall|i: int| 0 <= i < subtasks.len() ==> (#[trigger] subtasks[i]).done() == 0,
    ensures
        count_classified(subtasks) == 0,
    decreases subtasks.len(),
{
    if subtasks.len() > 0 {
        lemma_none_classified(subtasks.drop_last());
    }
}

/// The skip budget is kept, whatever the order in which results arrive. In
/// every run one `Judging` is sent for each test that is classified, never
/// more than there are tests; in each subtask at most one kill at a resource
/// limit beyond the budget is on record, and the subtask is skipped exactly
/// if that one is.
pub proof fn law_skip_budget_is_kept(
    expected: Seq<Seq<Seq<char>>>,
    compiles: bool,
    skip_count: u8,
    limits: ResourceLimits,
    uuid: Seq<char>,
    events: Seq<EventView>,
)
    ensures
        ({
            let trace = trace_of(
                SubmissionModel::initial(expected, compiles, skip_count, limits, uuid),
                events,
            );
            &&& count_verdicts(trace.messages) == count_classified(trace.state.subtasks)
            &&& count_verdicts(trace.messages) <= trace.state.total()
            &&& forall|subtask: int|
                0 <= subtask < expected.len() ==> {
                    let judged = #[trigger] trace.state.subtasks[subtask];
                    &&& judged.breaches == count_set(judged.breach_flags())
                    &&& judged.breaches <= skip_count + 1
                    &&& judged.skipped <==> judged.breaches == skip_count + 1
                }
        }),
{
    lemma_run_counts(expected, compiles, skip_count, limits, uuid, events);
    let state = trace_of(
        SubmissionModel::initial(expected, compiles, skip_count, limits, uuid),
        events,
    ).state;
    assert forall|i: int| 0 <= i < state.subtasks.len() implies (
    #[trigger] state.subtasks[i]).done() <= state.test_counts()[i] by {
        lemma_count_set_bounded(state.subtasks[i].recorded);
    }
    lemma_count_classified_bounded(state.subtasks, state.test_counts());
}

/// A subtask of which every test is killed is skipped at the budget. In
/// every run, in a subtask in which every test that was classified was
/// killed at a resource limit, no more tests are classified than the budget
/// and one; and once such a subtask with more tests than that is settled,
/// it is skipped, exactly the budget and one of its tests are classified,
/// and the slots of all others hold `Skipped` with nothing measured.
pub proof fn law_killed_subtask_is_skipped_at_the_budget(
    expected: Seq<Seq<Seq<char>>>,
    compiles: bool,
    skip_count: u8,
    limits: ResourceLimits,
    uuid: Seq<char>,
    events: Seq<EventView>,
    subtask: int,
)
    requires
        0 <= subtask < expected.len(),
        ({
            let judged = trace_of(
                SubmissionModel::initial(expected, compiles, skip_count, limits, uuid),
                events,
            ).state.subtasks[subtask];
            forall|test: int|
                0 <= test < judged.len() && judged.recorded[test] ==> (
                #[trigger] judged.reports[test]).verdict.spec_is_limit()
        }),
    ensures
        ({
            let judged = trace_of(
                SubmissionModel::initial(expected, compiles, skip_count, limits, uuid),
                events,
            ).state.subtasks[subtask];
            &&& judged.len() == expected[subtask].len()
            &&& judged.done() == judged.breaches
            &&& judged.done() <= skip_count + 1
            &&& judged.settled() && judged.len() > skip_count + 1 ==> {
                &&& judged.skipped
                &&& judged.done() == skip_count + 1
                &&& forall|test: int|
                    0 <= test < judged.len() && !judged.recorded[test]
                        ==> #[trigger] judged.reports[test] == TestReport::unmeasured(
                        Verdict::Skipped,
                    )
            }
        }),
{
    lemma_run_counts(expected, compiles, skip_count, limits, uuid, events);
    let judged = trace_of(
        SubmissionModel::initial(expected, compiles, skip_count, limits, uuid),
        events,
    ).state.subtasks[subtask];
    assert(judged.well_formed());
    assert(judged.breach_flags() =~= judged.recorded) by {
        assert forall|test: int| 0 <= test < judged.len() implies judged.breach_flags()[test]
            == judged.recorded[test] by {
            if judged.recorded[test] {
                assert(judged.reports[test].verdict.spec_is_limit());
            }
        }
    }
    assert forall|test: int| 0 <= test < judged.len() && !judged.recorded[test] implies #[trigger]
        judged.reports[test] == TestReport::unmeasured(Verdict::Skipped) by {
        assert(judged.untouched_at(test));
    }
}

} // verus!
