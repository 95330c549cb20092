use vstd::prelude::*;

use crate::sandbox::resource::{ResourceLimits, ResourceUsage};
use crate::sandbox::{ExitStatus, Output, OutputView};
use crate::submit::report::TestReport;
use crate::submit::verdict::Verdict;
use crate::text::{decoded, same_trimmed, text_of, trimmed};

verus! {

/// What became of the attempt to run one test.
#[derive(Clone, Debug, PartialEq, Eq)]
pub enum TestOutcome {
    /// The run finished, by itself or by a signal.
    Ran { output: Output },
    /// The pipes to the process broke while it ran: it did not read or
    /// write as a solution does.
    BrokenPipe,
}

/// A [`TestOutcome`] as plain values.
pub enum TestOutcomeView {
    Ran { output: OutputView },
    BrokenPipe,
}

impl View for TestOutcome {
    type V = TestOutcomeView;

    open spec fn view(&self) -> TestOutcomeView {
        match self {
            TestOutcome::Ran { output } => TestOutcomeView::Ran { output: output@ },
            TestOutcome::BrokenPipe => TestOutcomeView::BrokenPipe,
        }
    }
}

/// Whether the bytes a run printed are the expected text: both are compared
/// without the whitespace at their ends, and bytes that are no text match
/// nothing.
pub open spec fn output_matches(stdout: Seq<u8>, expected: Seq<char>) -> bool {
    match decoded(stdout) {
        Some(text) => trimmed(text) == trimmed(expected),
        None => false,
    }
}

/// The verdict on a finished run.
///
/// A process that was killed while its usage lies within the tolerance
/// around a limit has breached that limit, time before memory. Otherwise a
/// process that exited with code 0 is judged by what it printed, and any
/// other ending is a runtime error.
pub open spec fn verdict_of(
    status: ExitStatus,
    usage: ResourceUsage,
    stdout: Seq<u8>,
    expected: Seq<char>,
    limits: ResourceLimits,
) -> Verdict {
    if status.spec_code() is None && usage.spec_exceeded(limits) {
        if usage.spec_exceeded_time(limits) {
            Verdict::TimeLimitExceeded
        } else {
            Verdict::MemoryLimitExceeded
        }
    } else if status.spec_success() {
        if output_matches(stdout, expected) {
            Verdict::Accepted
        } else {
            Verdict::WrongAnswer
        }
    } else {
        Verdict::RuntimeError
    }
}

/// The report on one test, whatever became of its run.
pub open spec fn classification(
    outcome: TestOutcomeView,
    expected: Seq<char>,
    limits: ResourceLimits,
) -> TestReport {
    match outcome {
        TestOutcomeView::Ran { output } => TestReport {
            verdict: verdict_of(
                output.exit_status,
                output.resource_usage,
                output.stdout,
                expected,
                limits,
            ),
            resource_usage: output.resource_usage,
        },
        TestOutcomeView::BrokenPipe => TestReport::unmeasured(Verdict::WrongAnswer),
    }
}

/// Whether the bytes a run printed are the expected text.
pub fn matches_expected(stdout: &[u8], expected: &str) -> (r: bool)
    ensures
        r == output_matches(stdout@, expected@),
{
    match text_of(stdout) {
        Some(text) => same_trimmed(text, expected),
        None => false,
    }
}

/// Classifies a finished run against the expected output of its test.
pub fn judge_output(output: &Output, expected: &str, limits: ResourceLimits) -> (verdict: Verdict)
    ensures
        verdict == verdict_of(
            output@.exit_status,
            output@.resource_usage,
            output@.stdout,
            expected@,
            limits,
        ),
{
    let status = output.exit_status();
    let usage = output.resource_usage();
    if usage.exceeded(limits) && status.code().is_none() {
        if usage.exceeded_time(limits) {
            Verdict::TimeLimitExceeded
        } else {
            Verdict::MemoryLimitExceeded
        }
    } else if status.success() {
        if matches_expected(output.stdout(), expected) {
            Verdict::Accepted
        } else {
            Verdict::WrongAnswer
        }
    } else {
        Verdict::RuntimeError
    }
}

/// Classifies one test. A broken pipe is a wrong answer with nothing
/// measured; it is never an error of the judge.
pub fn classify(outcome: &TestOutcome, expected: &str, limits: ResourceLimits) -> (report:
    TestReport)
    ensures
        report == classification(outcome@, expected@, limits),
{
    match outcome {
        TestOutcome::Ran { output } => TestReport {
            verdict: judge_output(output, expected, limits),
            resource_usage: output.resource_usage(),
        },
        TestOutcome::BrokenPipe => TestReport::without_usage(Verdict::WrongAnswer),
    }
}

/// Classification gives neither `Skipped` nor `CompileError`: those are
/// the verdicts of tests that were not run.
pub proof fn lemma_classification_is_of_a_run(
    outcome: TestOutcomeView,
    expected: Seq<char>,
    limits: ResourceLimits,
)
    ensures
        classification(outcome, expected, limits).verdict != Verdict::Skipped,
        classification(outcome, expected, limits).verdict != Verdict::CompileError,
{
}

/// A verdict at a resource limit is reached only by a process that was
/// killed while its usage lay within the tolerance around a limit.
pub proof fn law_limit_verdict_means_breach(
    status: ExitStatus,
    usage: ResourceUsage,
    stdout: Seq<u8>,
    expected: Seq<char>,
    limits: ResourceLimits,
)
    ensures
        verdict_of(status, usage, stdout, expected, limits).spec_is_limit() <==> (status is Signalled
            && usage.spec_exceeded(limits)),
{
}

/// Classification depends on nothing but the exit status, the usage, the
/// bytes printed, the expected text and the limits: two runs that agree in
/// these get the same report, whatever else differs between them.
pub proof fn law_classification_is_repeatable(
    first: OutputView,
    second: OutputView,
    expected: Seq<char>,
    limits: ResourceLimits,
)
    requires
        first.exit_status == second.exit_status,
        first.resource_usage == second.resource_usage,
        first.stdout == second.stdout,
    ensures
        classification(TestOutcomeView::Ran { output: first }, expected, limits) == classification(
            TestOutcomeView::Ran { output: second },
            expected,
            limits,
        ),
        output_matches(first.stdout, expected) == output_matches(second.stdout, expected),
{
}

/// A run that exits with code 0, prints nothing and is expected to print
/// nothing is accepted.
pub proof fn law_empty_output_is_accepted(usage: ResourceUsage, limits: ResourceLimits)
    ensures
        verdict_of(
            ExitStatus::Exited { code: 0 },
            usage,
            Seq::<u8>::empty(),
            Seq::<char>::empty(),
            limits,
        ) == Verdict::Accepted,
{
    let none = Seq::<u8>::empty();
    assert(vstd::utf8::valid_utf8(none));
    assert(vstd::utf8::decode_utf8(none) =~= Seq::<char>::empty());
    assert(trimmed(Seq::<char>::empty()) =~= Seq::<char>::empty());
}

} // verus!
