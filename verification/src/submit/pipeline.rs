use vstd::prelude::*;

use crate::contest::{lemma_sum_bounds_each, Config, Language, Task};
use crate::sandbox::resource::ResourceLimits;
use crate::sandbox::Output;
use crate::submit::classify::{classify, TestOutcome};
use crate::submit::compile::compile;
use crate::submit::message::{views, Message, MessageView};
use crate::submit::model::{Action, EventView, Phase, SubmissionModel};
use crate::submit::report::{Report, TestReport};
use crate::submit::subtask::{
    lemma_fresh_subtask, lemma_record_keeps_well_formed, SubtaskModel, SubtaskState,
};
use crate::submit::verdict::{aggregate, Verdict};

verus! {

/// What happened outside: the driver of a submission reports each of these
/// as it occurs.
#[derive(Clone, Debug, PartialEq, Eq)]
pub enum Event {
    /// The code is on disk and judging may begin.
    Start,
    /// The compile command has finished.
    Compiled { output: Output },
    /// The compile command could not be run.
    CompileUnavailable,
    /// A test has finished.
    Tested { subtask: usize, test: usize, outcome: TestOutcome },
    /// Something failed that no verdict covers.
    Failed { reason: String },
}

impl View for Event {
    type V = EventView;

    open spec fn view(&self) -> EventView {
        match self {
            Event::Start => EventView::Start,
            Event::Compiled { output } => EventView::Compiled { output: output@ },
            Event::CompileUnavailable => EventView::CompileUnavailable,
            Event::Tested { subtask, test, outcome } => EventView::Tested {
                subtask: *subtask,
                test: *test,
                outcome: outcome@,
            },
            Event::Failed { reason } => EventView::Failed { reason: reason@ },
        }
    }
}

/// What an event leads to: the messages to send, in order, and what to do
/// next.
#[derive(Debug)]
pub struct Step {
    pub messages: Vec<Message>,
    pub action: Action,
}

impl Step {
    /// The messages of this step as plain values.
    pub open spec fn sends(&self) -> Seq<MessageView> {
        views(self.messages@)
    }
}

/// The judging of one submission, from its announcement to its final
/// message.
///
/// The driver runs commands and waits; every decision is made here. It
/// reports each [`Event`] to [`Submission::step`], sends the messages it
/// gets back and does what the [`Action`] says.
pub struct Submission<'a> {
    phase: Phase,
    task: &'a Task,
    compiles: bool,
    skip_count: u8,
    limits: ResourceLimits,
    uuid: String,
    total: u32,
    subtasks: Vec<SubtaskState>,
}

impl<'a> View for Submission<'a> {
    type V = SubmissionModel;

    closed spec fn view(&self) -> SubmissionModel {
        SubmissionModel {
            phase: self.phase,
            compiles: self.compiles,
            skip_count: self.skip_count,
            limits: self.limits,
            uuid: self.uuid@,
            expected: self.task.expected(),
            subtasks: Seq::new(self.subtasks@.len(), |i: int| self.subtasks@[i]@),
        }
    }
}

impl<'a> Submission<'a> {
    /// The state has the shape of the task and its counters are right.
    pub closed spec fn well_formed(&self) -> bool {
        &&& self@.well_formed()
        &&& self.total == self@.total()
        &&& forall|i: int|
            0 <= i < self.subtasks@.len() ==> (#[trigger] self.subtasks@[i]).well_formed()
    }

    /// A submission to the given task, not yet started.
    pub fn new(task: &'a Task, language: &Language, config: &Config, uuid: String) -> (submission:
        Submission<'a>)
        requires
            task.total_tests() <= u32::MAX,
        ensures
            submission.well_formed(),
            submission@ == SubmissionModel::initial(
                task.expected(),
                language.compile is Some,
                config.skip_count,
                config.resource_limits,
                uuid@,
            ),
    {
        let total: u32 = match task.count_tests() {
            Some(total) => total,
            None => 0,
        };
        let mut subtasks: Vec<SubtaskState> = Vec::new();
        let mut i: usize = 0;
        while i < task.subtasks.len()
            invariant
                i <= task.subtasks@.len(),
                subtasks@.len() == i,
                forall|k: int|
                    0 <= k < i ==> (#[trigger] subtasks@[k]).well_formed() && subtasks@[k]@
                        == SubtaskModel::fresh(
                        task.subtasks@[k].tests@.len(),
                    ),
            decreases task.subtasks@.len() - i,
        {
            subtasks.push(SubtaskState::new(task.subtasks[i].tests.len()));
            i += 1;
        }
        let submission = Submission {
            phase: Phase::Created,
            task,
            compiles: language.compile.is_some(),
            skip_count: config.skip_count,
            limits: config.resource_limits,
            uuid,
            total,
            subtasks,
        };
        proof {
            let model = SubmissionModel::initial(
                task.expected(),
                language.compile is Some,
                config.skip_count,
                config.resource_limits,
                uuid@,
            );
            assert(submission@.subtasks =~= model.subtasks);
            assert(submission@.test_counts() =~= task.test_counts());
            assert forall|k: int| 0 <= k < model.subtasks.len() implies (
            #[trigger] model.subtasks[k]).well_formed() && model.subtasks[k].len()
                == model.expected[k].len() by {
                lemma_fresh_subtask(task.expected()[k].len());
            }
        }
        submission
    }

    /// Where the submission stands.
    pub fn phase(&self) -> (phase: Phase)
        ensures
            phase == self@.phase,
    {
        self.phase
    }

    /// Whether the final message has been sent.
    pub fn is_finished(&self) -> (r: bool)
        ensures
            r == (self@.phase == Phase::Finished),
    {
        match self.phase {
            Phase::Finished => true,
            _ => false,
        }
    }

    /// Whether the result of a test is still taken.
    pub fn awaits(&self, subtask: usize, test: usize) -> (r: bool)
        requires
            self.well_formed(),
        ensures
            r == self@.awaits(subtask as int, test as int),
    {
        match self.phase {
            Phase::Judging => subtask < self.subtasks.len() && self.subtasks[subtask].awaits(test),
            _ => false,
        }
    }

    fn all_settled(&self) -> (r: bool)
        requires
            self.well_formed(),
        ensures
            r == self@.all_settled(),
    {
        let mut i: usize = 0;
        while i < self.subtasks.len()
            invariant
                self.well_formed(),
                i <= self.subtasks@.len(),
                forall|k: int| 0 <= k < i ==> (#[trigger] self@.subtasks[k]).settled(),
            decreases self.subtasks@.len() - i,
        {
            if !self.subtasks[i].is_settled() {
                assert(!self@.subtasks[i as int].settled());
                return false;
            }
            i += 1;
        }
        true
    }

    fn judged_report(&self) -> (report: Report)
        ensures
            report@ == self@.judged_report(),
    {
        let mut verdicts: Vec<Verdict> = Vec::new();
        let mut tests: Vec<Vec<TestReport>> = Vec::new();
        let mut i: usize = 0;
        while i < self.subtasks.len()
            invariant
                i <= self.subtasks@.len(),
                verdicts@.len() == i,
                tests@.len() == i,
                forall|k: int| 0 <= k < i ==> verdicts@[k] == self@.subtasks[k].verdict(),
                forall|k: int| 0 <= k < i ==> (#[trigger] tests@[k])@ == self@.subtasks[k].reports,
            decreases self.subtasks@.len() - i,
        {
            verdicts.push(self.subtasks[i].verdict());
            tests.push(self.subtasks[i].reports());
            i += 1;
        }
        let task = aggregate(verdicts.as_slice());
        let report = Report { task, subtasks: verdicts, tests };
        proof {
            assert(report@.subtasks =~= self@.judged_report().subtasks);
            assert(report@.tests =~= self@.judged_report().tests);
        }
        report
    }

    fn failed_report(&self) -> (report: Report)
        ensures
            report@ == self@.failed_report(),
    {
        let mut verdicts: Vec<Verdict> = Vec::new();
        let mut tests: Vec<Vec<TestReport>> = Vec::new();
        let mut i: usize = 0;
        while i < self.task.subtasks.len()
            invariant
                i <= self.task.subtasks@.len(),
                verdicts@.len() == i,
                tests@.len() == i,
                forall|k: int| 0 <= k < i ==> verdicts@[k] == Verdict::CompileError,
                forall|k: int|
                    0 <= k < i ==> (#[trigger] tests@[k])@ == self@.failed_report().tests[k],
            decreases self.task.subtasks@.len() - i,
        {
            let count: usize = self.task.subtasks[i].tests.len();
            let mut reports: Vec<TestReport> = Vec::new();
            let mut t: usize = 0;
            while t < count
                invariant
                    t <= count,
                    reports@.len() == t,
                    forall|k: int|
                        0 <= k < t ==> reports@[k] == TestReport::unmeasured(
                            Verdict::CompileError,
                        ),
                decreases count - t,
            {
                reports.push(TestReport::without_usage(Verdict::CompileError));
                t += 1;
            }
            proof {
                assert(reports@ =~= self@.failed_report().tests[i as int]);
            }
            verdicts.push(Verdict::CompileError);
            tests.push(reports);
            i += 1;
        }
        let report = Report { task: Verdict::CompileError, subtasks: verdicts, tests };
        proof {
            assert(report@.subtasks =~= self@.failed_report().subtasks);
            assert(report@.tests =~= self@.failed_report().tests);
        }
        report
    }

    fn ignore(&self) -> (step: Step)
        ensures
            step.sends() == self@.ignored().messages,
            step.action == self@.ignored().action,
    {
        let step = Step { messages: Vec::new(), action: Action::Wait };
        proof {
            assert(step.sends() =~= Seq::<MessageView>::empty());
        }
        step
    }

    fn conclude(&mut self, messages: Vec<Message>, otherwise: Action) -> (step: Step)
        requires
            old(self).well_formed(),
        ensures
            final(self).well_formed(),
            final(self)@ == old(self)@.conclude(views(messages@), otherwise).state,
            step.sends() == old(self)@.conclude(views(messages@), otherwise).messages,
            step.action == old(self)@.conclude(views(messages@), otherwise).action,
    {
        let mut messages = messages;
        if self.all_settled() {
            let ghost before = views(messages@);
            let report = self.judged_report();
            messages.push(Message::Done { report });
            self.phase = Phase::Finished;
            proof {
                assert(views(messages@) =~= before.push(
                    MessageView::Done { report: old(self)@.judged_report() },
                ));
                assert(self@.subtasks =~= old(self)@.subtasks);
                assert(self@.test_counts() =~= old(self)@.test_counts());
            }
            Step { messages, action: Action::Close }
        } else {
            self.phase = Phase::Judging;
            proof {
                assert(self@.subtasks =~= old(self)@.subtasks);
                assert(self@.test_counts() =~= old(self)@.test_counts());
            }
            Step { messages, action: otherwise }
        }
    }

    fn start(&mut self) -> (step: Step)
        requires
            old(self).well_formed(),
        ensures
            final(self).well_formed(),
            final(self)@ == old(self)@.start().state,
            step.sends() == old(self)@.start().messages,
            step.action == old(self)@.start().action,
    {
        match self.phase {
            Phase::Created => {
                let mut messages: Vec<Message> = Vec::new();
                messages.push(Message::Queued { total: self.total, uuid: self.uuid.clone() });
                proof {
                    assert(views(messages@) =~= seq![
                        MessageView::Queued { total: self@.total() as u32, uuid: self@.uuid },
                    ]);
                }
                if self.compiles {
                    let ghost queued = views(messages@);
                    messages.push(Message::Compiling);
                    self.phase = Phase::Compiling;
                    proof {
                        assert(views(messages@) =~= queued.push(MessageView::Compiling));
                        assert(self@.subtasks =~= old(self)@.subtasks);
                        assert(self@.test_counts() =~= old(self)@.test_counts());
                    }
                    Step { messages, action: Action::Compile }
                } else {
                    self.conclude(messages, Action::RunTests)
                }
            },
            _ => self.ignore(),
        }
    }

    fn compiled(&mut self, output: &Output) -> (step: Step)
        requires
            old(self).well_formed(),
        ensures
            final(self).well_formed(),
            final(self)@ == old(self)@.compiled(output@).state,
            step.sends() == old(self)@.compiled(output@).messages,
            step.action == old(self)@.compiled(output@).action,
    {
        match self.phase {
            Phase::Compiling => {
                let result = compile(output);
                let mut messages: Vec<Message> = Vec::new();
                match result.message {
                    Some(message) => {
                        messages.push(message);
                        proof {
                            assert(views(messages@) =~= seq![message@]);
                        }
                    },
                    None => {
                        proof {
                            assert(views(messages@) =~= Seq::<MessageView>::empty());
                        }
                    },
                }
                if result.success {
                    self.conclude(messages, Action::RunTests)
                } else {
                    let ghost before = views(messages@);
                    let report = self.failed_report();
                    messages.push(Message::Done { report });
                    self.phase = Phase::Finished;
                    proof {
                        assert(views(messages@) =~= before.push(
                            MessageView::Done { report: old(self)@.failed_report() },
                        ));
                        assert(self@.subtasks =~= old(self)@.subtasks);
                        assert(self@.test_counts() =~= old(self)@.test_counts());
                    }
                    Step { messages, action: Action::Close }
                }
            },
            _ => self.ignore(),
        }
    }

    fn compile_unavailable(&mut self) -> (step: Step)
        requires
            old(self).well_formed(),
        ensures
            final(self).well_formed(),
            final(self)@ == old(self)@.compile_unavailable().state,
            step.sends() == old(self)@.compile_unavailable().messages,
            step.action == old(self)@.compile_unavailable().action,
    {
        match self.phase {
            Phase::Compiling => {
                let mut messages: Vec<Message> = Vec::new();
                let report = self.failed_report();
                messages.push(Message::Done { report });
                self.phase = Phase::Finished;
                proof {
                    assert(views(messages@) =~= seq![
                        MessageView::Done { report: old(self)@.failed_report() },
                    ]);
                    assert(self@.subtasks =~= old(self)@.subtasks);
                    assert(self@.test_counts() =~= old(self)@.test_counts());
                }
                Step { messages, action: Action::Close }
            },
            _ => self.ignore(),
        }
    }

    fn tested(&mut self, subtask: usize, test: usize, outcome: &TestOutcome) -> (step: Step)
        requires
            old(self).well_formed(),
        ensures
            final(self).well_formed(),
            final(self)@ == old(self)@.tested(subtask as int, test as int, outcome@).state,
            step.sends() == old(self)@.tested(subtask as int, test as int, outcome@).messages,
            step.action == old(self)@.tested(subtask as int, test as int, outcome@).action,
    {
        if !self.awaits(subtask, test) {
            return self.ignore();
        }
        let task: &Task = self.task;
        assert(self@.subtasks[subtask as int].len() == self@.expected[subtask as int].len());
        let expected: &str = task.subtasks[subtask].tests[test].output.as_str();
        let report = classify(outcome, expected, self.limits);
        let tests: usize = self.subtasks[subtask].len();
        proof {
            lemma_record_keeps_well_formed(
                self@.subtasks[subtask as int],
                test as int,
                report,
                self.skip_count,
            );
            lemma_sum_bounds_each(self@.test_counts(), subtask as int);
        }
        let skip_count: u8 = self.skip_count;
        let skipped = self.subtasks[subtask].record(test, report, skip_count);
        let ghost after = old(self)@.subtasks[subtask as int].record(
            test as int,
            report,
            skip_count,
        );
        let ghost state = SubmissionModel {
            subtasks: old(self)@.subtasks.update(subtask as int, after),
            ..old(self)@
        };
        proof {
            assert(self@.subtasks =~= state.subtasks);
            assert(self@ == state);
            assert(self@.test_counts() =~= old(self)@.test_counts());
        }
        let mut messages: Vec<Message> = Vec::new();
        match outcome {
            TestOutcome::BrokenPipe => {
                messages.push(Message::BrokenPipe);
            },
            TestOutcome::Ran { .. } => {},
        }
        messages.push(Message::Judging { verdict: report.verdict });
        let ghost judging = SubmissionModel::telling(outcome@, report.verdict);
        proof {
            assert(views(messages@) =~= judging);
        }
        if skipped {
            let estimated_count: u32 = (tests - skip_count as usize) as u32;
            messages.push(Message::Skipping { estimated_count });
            proof {
                assert(views(messages@) =~= judging.push(
                    MessageView::Skipping {
                        estimated_count: after.estimated_skips(skip_count) as u32,
                    },
                ));
            }
            self.conclude(messages, Action::Abort { subtask })
        } else {
            self.conclude(messages, Action::Wait)
        }
    }

    fn failed(&mut self, reason: String) -> (step: Step)
        requires
            old(self).well_formed(),
        ensures
            final(self).well_formed(),
            final(self)@ == old(self)@.failed(reason@).state,
            step.sends() == old(self)@.failed(reason@).messages,
            step.action == old(self)@.failed(reason@).action,
    {
        match self.phase {
            Phase::Compiling | Phase::Judging => {
                let mut messages: Vec<Message> = Vec::new();
                messages.push(Message::Error { reason });
                self.phase = Phase::Finished;
                proof {
                    assert(views(messages@) =~= seq![MessageView::Error { reason: reason@ }]);
                    assert(self@.subtasks =~= old(self)@.subtasks);
                    assert(self@.test_counts() =~= old(self)@.test_counts());
                }
                Step { messages, action: Action::Close }
            },
            _ => self.ignore(),
        }
    }

    /// Takes one event: moves the submission on, and says which messages to
    /// send and what to do next.
    pub fn step(&mut self, event: Event) -> (step: Step)
        requires
            old(self).well_formed(),
        ensures
            final(self).well_formed(),
            final(self)@ == old(self)@.step(event@).state,
            step.sends() == old(self)@.step(event@).messages,
            step.action == old(self)@.step(event@).action,
    {
        match event {
            Event::Start => self.start(),
            Event::Compiled { output } => self.compiled(&output),
            Event::CompileUnavailable => self.compile_unavailable(),
            Event::Tested { subtask, test, outcome } => self.tested(subtask, test, &outcome),
            Event::Failed { reason } => self.failed(reason),
        }
    }
}

} // verus!
