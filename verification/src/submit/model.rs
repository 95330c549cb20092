use vstd::prelude::*;

use crate::contest::sum;
use crate::sandbox::resource::ResourceLimits;
use crate::sandbox::OutputView;
use crate::submit::classify::{classification, TestOutcomeView};
use crate::submit::compile::compilation;
use crate::submit::message::MessageView;
use crate::submit::report::{ReportView, TestReport};
use crate::submit::subtask::SubtaskModel;
use crate::submit::verdict::{min_of, Verdict};

verus! {

/// Where a submission stands.
#[derive(Clone, Copy, Debug, PartialEq, Eq, Hash, Structural)]
pub enum Phase {
    /// Nothing has been sent yet.
    Created,
    /// The compiler is running.
    Compiling,
    /// Tests are being run and classified.
    Judging,
    /// The final message has been sent.
    Finished,
}

/// What the driver of a submission has to do next.
#[derive(Clone, Copy, Debug, PartialEq, Eq, Hash, Structural)]
pub enum Action {
    /// Nothing new: go on waiting for what is running.
    Wait,
    /// Run the compile command with the compile profile.
    Compile,
    /// Run every test with the run profile.
    RunTests,
    /// Stop waiting for the tests of this subtask that are still running.
    Abort { subtask: usize },
    /// The final message is out: drop what is running and close the stream.
    Close,
}

/// What happened outside, as plain values.
pub enum EventView {
    Start,
    Compiled { output: OutputView },
    CompileUnavailable,
    Tested { subtask: usize, test: usize, outcome: TestOutcomeView },
    Failed { reason: Seq<char> },
}

/// One submission, as plain values.
pub struct SubmissionModel {
    pub phase: Phase,
    /// Whether the language has a compile command.
    pub compiles: bool,
    pub skip_count: u8,
    pub limits: ResourceLimits,
    pub uuid: Seq<char>,
    /// The expected output of each test, by subtask and test.
    pub expected: Seq<Seq<Seq<char>>>,
    pub subtasks: Seq<SubtaskModel>,
}

/// What one event leads to: the next state, the messages to send in order,
/// and what to do next.
pub struct StepView {
    pub state: SubmissionModel,
    pub messages: Seq<MessageView>,
    pub action: Action,
}

impl SubmissionModel {
    /// A submission that has not been started.
    pub open spec fn initial(
        expected: Seq<Seq<Seq<char>>>,
        compiles: bool,
        skip_count: u8,
        limits: ResourceLimits,
        uuid: Seq<char>,
    ) -> SubmissionModel {
        SubmissionModel {
            phase: Phase::Created,
            compiles,
            skip_count,
            limits,
            uuid,
            expected,
            subtasks: Seq::new(expected.len(), |i: int| SubtaskModel::fresh(expected[i].len())),
        }
    }

    /// The number of tests of each subtask.
    pub open spec fn test_counts(self) -> Seq<nat> {
        Seq::new(self.expected.len(), |i: int| self.expected[i].len())
    }

    /// The number of tests of the whole task.
    pub open spec fn total(self) -> nat {
        sum(self.test_counts())
    }

    /// The judging state has the shape of the task.
    pub open spec fn shaped(self) -> bool {
        &&& self.subtasks.len() == self.expected.len()
        &&& forall|i: int|
            0 <= i < self.subtasks.len() ==> (#[trigger] self.subtasks[i]).well_formed()
                && self.subtasks[i].len() == self.expected[i].len()
    }

    /// The judging state has the shape of the task, and the number of tests
    /// fits the messages that carry it.
    pub open spec fn well_formed(self) -> bool {
        &&& self.shaped()
        &&& self.total() <= u32::MAX
    }

    /// Every subtask is settled.
    pub open spec fn all_settled(self) -> bool {
        forall|i: int| 0 <= i < self.subtasks.len() ==> (#[trigger] self.subtasks[i]).settled()
    }

    /// The verdict of each subtask.
    pub open spec fn subtask_verdicts(self) -> Seq<Verdict> {
        Seq::new(self.subtasks.len(), |i: int| self.subtasks[i].verdict())
    }

    /// The report of a submission that was judged.
    pub open spec fn judged_report(self) -> ReportView {
        ReportView {
            task: min_of(self.subtask_verdicts()),
            subtasks: self.subtask_verdicts(),
            tests: Seq::new(self.subtasks.len(), |i: int| self.subtasks[i].reports),
        }
    }

    /// The report of a submission that did not compile: `CompileError` at
    /// every place, in the shape of the task.
    pub open spec fn failed_report(self) -> ReportView {
        ReportView {
            task: Verdict::CompileError,
            subtasks: Seq::new(self.expected.len(), |i: int| Verdict::CompileError),
            tests: Seq::new(
                self.expected.len(),
                |i: int|
                    Seq::new(
                        self.expected[i].len(),
                        |t: int| TestReport::unmeasured(Verdict::CompileError),
                    ),
            ),
        }
    }

    /// The same submission in another phase.
    pub open spec fn at(self, phase: Phase) -> SubmissionModel {
        SubmissionModel { phase, ..self }
    }

    /// An event that does not apply changes nothing and sends nothing.
    pub open spec fn ignored(self) -> StepView {
        StepView { state: self, messages: Seq::empty(), action: Action::Wait }
    }

    /// Ends the step of a submission that is being judged: once every
    /// subtask is settled the report goes out and the stream is closed.
    pub open spec fn conclude(
        self,
        messages: Seq<MessageView>,
        otherwise: Action,
    ) -> StepView {
        if self.all_settled() {
            StepView {
                state: self.at(Phase::Finished),
                messages: messages.push(MessageView::Done { report: self.judged_report() }),
                action: Action::Close,
            }
        } else {
            StepView { state: self.at(Phase::Judging), messages, action: otherwise }
        }
    }

    /// The submission is announced with the number of its tests. A language
    /// that compiles goes to the compiler first; any other is judged at
    /// once.
    pub open spec fn start(self) -> StepView {
        if self.phase == Phase::Created {
            let queued = seq![
                MessageView::Queued { total: self.total() as u32, uuid: self.uuid },
            ];
            if self.compiles {
                StepView {
                    state: self.at(Phase::Compiling),
                    messages: queued.push(MessageView::Compiling),
                    action: Action::Compile,
                }
            } else {
                self.conclude(queued, Action::RunTests)
            }
        } else {
            self.ignored()
        }
    }

    /// The compiler has finished. After a success judging begins, with the
    /// warnings passed on if there are any; after a failure the diagnostics
    /// go out, followed by a report of `CompileError` throughout, and no
    /// test is ever run.
    pub open spec fn compiled(self, output: OutputView) -> StepView {
        if self.phase == Phase::Compiling {
            let result = compilation(output);
            let messages = match result.message {
                Some(message) => seq![message],
                None => Seq::empty(),
            };
            if result.success {
                self.conclude(messages, Action::RunTests)
            } else {
                StepView {
                    state: self.at(Phase::Finished),
                    messages: messages.push(MessageView::Done { report: self.failed_report() }),
                    action: Action::Close,
                }
            }
        } else {
            self.ignored()
        }
    }

    /// The compile command could not be run at all. That is a failed
    /// compile like any other, but for the diagnostics, of which there are
    /// none: the report of `CompileError` throughout goes out, and no test
    /// is ever run.
    pub open spec fn compile_unavailable(self) -> StepView {
        if self.phase == Phase::Compiling {
            StepView {
                state: self.at(Phase::Finished),
                messages: seq![MessageView::Done { report: self.failed_report() }],
                action: Action::Close,
            }
        } else {
            self.ignored()
        }
    }

    /// The messages that tell of one test: a diagnostic first if the pipes
    /// to its process broke, then its verdict.
    pub open spec fn telling(outcome: TestOutcomeView, verdict: Verdict) -> Seq<MessageView> {
        match outcome {
            TestOutcomeView::BrokenPipe => seq![
                MessageView::BrokenPipe,
                MessageView::Judging { verdict },
            ],
            TestOutcomeView::Ran { .. } => seq![MessageView::Judging { verdict }],
        }
    }

    /// Whether the result of a test is still taken.
    pub open spec fn awaits(self, subtask: int, test: int) -> bool {
        &&& self.phase == Phase::Judging
        &&& 0 <= subtask < self.subtasks.len()
        &&& self.subtasks[subtask].awaits(test)
    }

    /// A test has finished. It is classified and its verdict sent, after a
    /// diagnostic if its pipes broke; if that exceeds the skip budget of its
    /// subtask, the skipping is announced and the rest of the subtask
    /// aborted. A result that is not awaited is ignored.
    pub open spec fn tested(self, subtask: int, test: int, outcome: TestOutcomeView) -> StepView {
        if self.awaits(subtask, test) {
            let report = classification(outcome, self.expected[subtask][test], self.limits);
            let after = self.subtasks[subtask].record(test, report, self.skip_count);
            let state = SubmissionModel { subtasks: self.subtasks.update(subtask, after), ..self };
            let judging = Self::telling(outcome, report.verdict);
            if after.skipped {
                state.conclude(
                    judging.push(
                        MessageView::Skipping {
                            estimated_count: after.estimated_skips(self.skip_count) as u32,
                        },
                    ),
                    Action::Abort { subtask: subtask as usize },
                )
            } else {
                state.conclude(judging, Action::Wait)
            }
        } else {
            self.ignored()
        }
    }

    /// The judge itself has failed. While the submission is under way this
    /// ends it with the reason; before its start and after its end nothing
    /// is sent.
    pub open spec fn failed(self, reason: Seq<char>) -> StepView {
        if self.phase == Phase::Compiling || self.phase == Phase::Judging {
            StepView {
                state: self.at(Phase::Finished),
                messages: seq![MessageView::Error { reason }],
                action: Action::Close,
            }
        } else {
            self.ignored()
        }
    }

    /// What an event leads to.
    pub open spec fn step(self, event: EventView) -> StepView {
        match event {
            EventView::Start => self.start(),
            EventView::Compiled { output } => self.compiled(output),
            EventView::CompileUnavailable => self.compile_unavailable(),
            EventView::Tested { subtask, test, outcome } => self.tested(
                subtask as int,
                test as int,
                outcome,
            ),
            EventView::Failed { reason } => self.failed(reason),
        }
    }
}

} // verus!
