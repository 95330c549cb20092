use vstd::prelude::*;

use crate::sandbox::resource::ResourceUsage;
use crate::submit::verdict::{min_of, Verdict};

verus! {

/// The outcome of one test.
#[derive(Clone, Copy, Debug, PartialEq, Eq, Hash, Structural)]
pub struct TestReport {
    pub verdict: Verdict,
    pub resource_usage: ResourceUsage,
}

impl TestReport {
    /// A verdict reached without a measured run.
    pub open spec fn unmeasured(verdict: Verdict) -> TestReport {
        TestReport { verdict, resource_usage: ResourceUsage::zero() }
    }

    /// A report with the given verdict and no resources consumed.
    pub fn without_usage(verdict: Verdict) -> (report: TestReport)
        ensures
            report == TestReport::unmeasured(verdict),
    {
        TestReport { verdict, resource_usage: ResourceUsage::default() }
    }
}

/// The verdicts of a run of test reports, in order.
pub open spec fn verdicts(tests: Seq<TestReport>) -> Seq<Verdict> {
    Seq::new(tests.len(), |t: int| tests[t].verdict)
}

/// The aggregate verdict of a run of test reports.
pub fn aggregate_tests(tests: &[TestReport]) -> (least: Verdict)
    ensures
        least == min_of(verdicts(tests@)),
{
    let mut least = Verdict::Accepted;
    let mut i: usize = 0;
    while i < tests.len()
        invariant
            i <= tests@.len(),
            least == min_of(verdicts(tests@).take(i as int)),
        decreases tests@.len() - i,
    {
        proof {
            assert(verdicts(tests@).take(i + 1).drop_last() =~= verdicts(tests@).take(i as int));
        }
        least = least.min(tests[i].verdict);
        i += 1;
    }
    proof {
        assert(verdicts(tests@).take(i as int) =~= verdicts(tests@));
    }
    least
}

/// The final report of a submission: one verdict for the task, one for each
/// subtask, and one report for each test, indexed by subtask and test.
#[derive(Clone, Debug, PartialEq, Eq, Hash)]
pub struct Report {
    pub task: Verdict,
    pub subtasks: Vec<Verdict>,
    pub tests: Vec<Vec<TestReport>>,
}

/// A [`Report`] as plain values.
pub struct ReportView {
    pub task: Verdict,
    pub subtasks: Seq<Verdict>,
    pub tests: Seq<Seq<TestReport>>,
}

impl View for Report {
    type V = ReportView;

    open spec fn view(&self) -> ReportView {
        ReportView {
            task: self.task,
            subtasks: self.subtasks@,
            tests: Seq::new(self.tests@.len(), |i: int| self.tests@[i]@),
        }
    }
}

impl ReportView {
    /// There is one list of test reports for each subtask verdict.
    pub open spec fn well_formed(self) -> bool {
        self.subtasks.len() == self.tests.len()
    }

    /// The verdict of subtask `i` is the aggregate of its tests' verdicts.
    pub open spec fn subtask_aggregates(self, i: int) -> bool {
        self.subtasks[i] == min_of(verdicts(self.tests[i]))
    }

    /// The verdict of the task is the aggregate of its subtasks' verdicts.
    pub open spec fn task_aggregates(self) -> bool {
        self.task == min_of(self.subtasks)
    }

    /// The shape of the report: the number of tests of each subtask.
    pub open spec fn shape(self) -> Seq<nat> {
        Seq::new(self.tests.len(), |i: int| self.tests[i].len())
    }

    /// Every verdict in the report, at all three levels, is the given one.
    pub open spec fn uniform(self, verdict: Verdict) -> bool {
        &&& self.task == verdict
        &&& forall|i: int| 0 <= i < self.subtasks.len() ==> self.subtasks[i] == verdict
        &&& forall|i: int, t: int|
            0 <= i < self.tests.len() && 0 <= t < self.tests[i].len() ==> self.tests[i][t]
                == TestReport::unmeasured(verdict)
    }
}

impl Report {
    pub fn task(&self) -> (r: Verdict)
        ensures
            r == self@.task,
    {
        self.task
    }

    pub fn subtasks(&self) -> (r: &[Verdict])
        ensures
            r@ == self@.subtasks,
    {
        self.subtasks.as_slice()
    }

    pub fn tests(&self) -> (r: &Vec<Vec<TestReport>>)
        ensures
            r == &self.tests,
    {
        &self.tests
    }
}

} // verus!
