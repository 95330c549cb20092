use vstd::prelude::*;

use crate::submit::report::{aggregate_tests, verdicts, TestReport};
use crate::submit::verdict::{lemma_min_of_is_lower_bound, min_of, Verdict};

verus! {

/// How many of the flags are set.
pub open spec fn count_set(flags: Seq<bool>) -> nat
    decreases flags.len(),
{
    if flags.len() == 0 {
        0
    } else {
        count_set(flags.drop_last()) + if flags.last() {
            1nat
        } else {
            0nat
        }
    }
}

/// No more flags are set than there are.
pub proof fn lemma_count_set_bounded(flags: Seq<bool>)
    ensures
        count_set(flags) <= flags.len(),
    decreases flags.len(),
{
    if flags.len() > 0 {
        lemma_count_set_bounded(flags.drop_last());
    }
}

/// Setting a flag that was clear raises the count by one.
pub proof fn lemma_count_set_after_setting(flags: Seq<bool>, at: int)
    requires
        0 <= at < flags.len(),
        !flags[at],
    ensures
        count_set(flags.update(at, true)) == count_set(flags) + 1,
    decreases flags.len(),
{
    if at == flags.len() - 1 {
        assert(flags.update(at, true).drop_last() =~= flags.drop_last());
    } else {
        assert(flags.update(at, true).drop_last() =~= flags.drop_last().update(at, true));
        lemma_count_set_after_setting(flags.drop_last(), at);
    }
}

/// All flags are counted exactly when every one of them is set.
pub proof fn lemma_count_set_full(flags: Seq<bool>)
    ensures
        count_set(flags) == flags.len() <==> (forall|i: int| 0 <= i < flags.len() ==> flags[i]),
    decreases flags.len(),
{
    if flags.len() > 0 {
        let front = flags.drop_last();
        lemma_count_set_full(front);
        lemma_count_set_bounded(front);
        if count_set(flags) == flags.len() {
            assert forall|i: int| 0 <= i < flags.len() implies flags[i] by {
                if i < front.len() {
                    assert(front[i]);
                }
            }
        }
        if forall|i: int| 0 <= i < flags.len() ==> flags[i] {
            assert forall|i: int| 0 <= i < front.len() implies front[i] by {
                assert(flags[i]);
            }
        }
    }
}

/// The judging of one subtask, as plain values.
pub struct SubtaskModel {
    /// One report for each test. A test that was not run holds `Skipped`
    /// and no usage.
    pub reports: Seq<TestReport>,
    /// Which tests have been classified.
    pub recorded: Seq<bool>,
    /// How many classified tests were killed at a resource limit.
    pub breaches: nat,
    /// Whether the skip budget was exceeded.
    pub skipped: bool,
}

impl SubtaskModel {
    /// A subtask of which no test has been classified.
    pub open spec fn fresh(tests: nat) -> SubtaskModel {
        SubtaskModel {
            reports: Seq::new(tests, |t: int| TestReport::unmeasured(Verdict::Skipped)),
            recorded: Seq::new(tests, |t: int| false),
            breaches: 0,
            skipped: false,
        }
    }

    /// The number of tests.
    pub open spec fn len(self) -> nat {
        self.reports.len()
    }

    /// The number of tests that have been classified.
    pub open spec fn done(self) -> nat {
        count_set(self.recorded)
    }

    /// Nothing more is awaited: the budget was exceeded, or every test has
    /// been classified.
    pub open spec fn settled(self) -> bool {
        self.skipped || self.done() == self.len()
    }

    /// Whether the result of a test is still taken.
    pub open spec fn awaits(self, test: int) -> bool {
        !self.skipped && 0 <= test < self.len() && !self.recorded[test]
    }

    /// The subtask after one more test has been classified. A kill at a
    /// resource limit counts against the budget, and the subtask is skipped
    /// once the count strictly exceeds it.
    pub open spec fn record(self, test: int, report: TestReport, skip_count: u8) -> SubtaskModel {
        let breaches = if report.verdict.spec_is_limit() {
            self.breaches + 1
        } else {
            self.breaches
        };
        SubtaskModel {
            reports: self.reports.update(test, report),
            recorded: self.recorded.update(test, true),
            breaches,
            skipped: breaches > skip_count,
        }
    }

    /// The verdict of the subtask: `Skipped` once the budget was exceeded,
    /// else the aggregate of its tests.
    pub open spec fn verdict(self) -> Verdict {
        if self.skipped {
            Verdict::Skipped
        } else {
            min_of(verdicts(self.reports))
        }
    }

    /// The number of tests announced as dropped when the subtask is skipped.
    pub open spec fn estimated_skips(self, skip_count: u8) -> nat {
        (self.len() - skip_count) as nat
    }

    /// Whether a kill at a resource limit is recorded for the given test.
    pub open spec fn breached_at(self, test: int) -> bool {
        &&& 0 <= test < self.len()
        &&& self.recorded[test]
        &&& self.reports[test].verdict.spec_is_limit()
    }

    /// For each test, whether a kill at a resource limit is on record.
    pub open spec fn breach_flags(self) -> Seq<bool> {
        Seq::new(
            self.reports.len(),
            |test: int| self.recorded[test] && self.reports[test].verdict.spec_is_limit(),
        )
    }

    /// Whether the slot of the given test is as it was at the beginning:
    /// `Skipped`, with nothing measured.
    pub open spec fn untouched_at(self, test: int) -> bool {
        self.reports[test] == TestReport::unmeasured(Verdict::Skipped)
    }

    /// There is a flag for each report, the breaches counted are the kills
    /// at a resource limit on record, only breaches make a subtask skipped,
    /// and the slot of a test that was not classified is untouched.
    pub open spec fn well_formed(self) -> bool {
        &&& self.reports.len() == self.recorded.len()
        &&& self.breaches == count_set(self.breach_flags())
        &&& self.breaches <= self.done()
        &&& self.breaches > 0 ==> exists|test: int| self.breached_at(test)
        &&& self.skipped ==> self.breaches > 0
        &&& forall|test: int|
            0 <= test < self.len() && !self.recorded[test] ==> #[trigger] self.untouched_at(test)
    }
}

/// A fresh subtask is well formed, and settled exactly if it has no tests.
pub proof fn lemma_fresh_subtask(tests: nat)
    ensures
        SubtaskModel::fresh(tests).well_formed(),
        SubtaskModel::fresh(tests).done() == 0,
        SubtaskModel::fresh(tests).len() == tests,
        SubtaskModel::fresh(tests).settled() <==> tests == 0,
{
    let fresh = SubtaskModel::fresh(tests);
    lemma_count_none_set(fresh.breach_flags());
    lemma_count_set_full(fresh.recorded);
    lemma_count_set_bounded(fresh.recorded);
    if tests > 0 {
        assert(!fresh.recorded[0]);
    }
    lemma_count_none_set(fresh.recorded);
}

/// No flag is counted where none is set.
pub proof fn lemma_count_none_set(flags: Seq<bool>)
    requires
        forall|i: int| 0 <= i < flags.len() ==> !flags[i],
    ensures
        count_set(flags) == 0,
    decreases flags.len(),
{
    if flags.len() > 0 {
        lemma_count_none_set(flags.drop_last());
    }
}

/// Recording an awaited test keeps the subtask well formed, and a subtask
/// that is skipped by it has more tests than the budget allows breaches.
pub proof fn lemma_record_keeps_well_formed(
    subtask: SubtaskModel,
    test: int,
    report: TestReport,
    skip_count: u8,
)
    requires
        subtask.well_formed(),
        subtask.awaits(test),
    ensures
        subtask.record(test, report, skip_count).well_formed(),
        subtask.record(test, report, skip_count).len() == subtask.len(),
        subtask.record(test, report, skip_count).done() == subtask.done() + 1,
        subtask.record(test, report, skip_count).skipped ==> subtask.len() > skip_count,
{
    lemma_count_set_after_setting(subtask.recorded, test);
    lemma_count_set_bounded(subtask.recorded.update(test, true));
    let after = subtask.record(test, report, skip_count);
    if report.verdict.spec_is_limit() {
        lemma_count_set_after_setting(subtask.breach_flags(), test);
        assert(after.breach_flags() =~= subtask.breach_flags().update(test, true));
    } else {
        assert(after.breach_flags() =~= subtask.breach_flags());
    }
    assert forall|t: int| 0 <= t < after.len() && !after.recorded[t] implies #[trigger]
        after.untouched_at(t) by {
        assert(subtask.untouched_at(t));
    }
    if after.breaches > 0 {
        if report.verdict.spec_is_limit() {
            assert(after.breached_at(test));
        } else {
            let before = choose|t: int| subtask.breached_at(t);
            assert(subtask.breached_at(before));
            assert(after.breached_at(before));
        }
    }
}

/// Where one list of flags implies another, flag by flag, no more are set
/// in the first than in the second.
pub proof fn lemma_count_set_grows(fewer: Seq<bool>, more: Seq<bool>)
    requires
        fewer.len() == more.len(),
        forall|i: int| 0 <= i < fewer.len() && fewer[i] ==> more[i],
    ensures
        count_set(fewer) <= count_set(more),
    decreases fewer.len(),
{
    if fewer.len() > 0 {
        lemma_count_set_grows(fewer.drop_last(), more.drop_last());
    }
}

/// The verdict of a skipped subtask is not the least of its tests'
/// verdicts: a kill at a resource limit is on record, and that is less than
/// `Skipped`.
pub proof fn lemma_skipped_subtask_is_below_its_verdict(subtask: SubtaskModel)
    requires
        subtask.well_formed(),
        subtask.skipped,
    ensures
        subtask.verdict() == Verdict::Skipped,
        min_of(verdicts(subtask.reports)).rank() < Verdict::Skipped.rank(),
{
    let test = choose|t: int| subtask.breached_at(t);
    assert(subtask.breached_at(test));
    lemma_min_of_is_lower_bound(verdicts(subtask.reports), test);
}

/// The judging of one subtask: the reports gathered so far and the count of
/// kills at a resource limit that decides whether the rest is skipped.
#[derive(Clone, Debug)]
pub struct SubtaskState {
    reports: Vec<TestReport>,
    recorded: Vec<bool>,
    done: usize,
    breaches: usize,
    skipped: bool,
}

impl View for SubtaskState {
    type V = SubtaskModel;

    closed spec fn view(&self) -> SubtaskModel {
        SubtaskModel {
            reports: self.reports@,
            recorded: self.recorded@,
            breaches: self.breaches as nat,
            skipped: self.skipped,
        }
    }
}

impl SubtaskState {
    /// The counters agree with what has been recorded.
    pub closed spec fn well_formed(&self) -> bool {
        &&& self@.well_formed()
        &&& self.done == self@.done()
    }

    /// A subtask of the given number of tests, none of them classified yet.
    pub fn new(tests: usize) -> (subtask: SubtaskState)
        ensures
            subtask.well_formed(),
            subtask@ == SubtaskModel::fresh(tests as nat),
    {
        let mut reports: Vec<TestReport> = Vec::new();
        let mut recorded: Vec<bool> = Vec::new();
        let mut i: usize = 0;
        while i < tests
            invariant
                i <= tests,
                reports@.len() == i,
                recorded@.len() == i,
                forall|t: int| 0 <= t < i ==> reports@[t] == TestReport::unmeasured(Verdict::Skipped),
                forall|t: int| 0 <= t < i ==> !recorded@[t],
            decreases tests - i,
        {
            reports.push(TestReport::without_usage(Verdict::Skipped));
            recorded.push(false);
            i += 1;
        }
        proof {
            lemma_fresh_subtask(tests as nat);
            assert(reports@ =~= SubtaskModel::fresh(tests as nat).reports);
            assert(recorded@ =~= SubtaskModel::fresh(tests as nat).recorded);
        }
        SubtaskState { reports, recorded, done: 0, breaches: 0, skipped: false }
    }

    /// The number of tests.
    pub fn len(&self) -> (n: usize)
        ensures
            n == self@.len(),
    {
        self.reports.len()
    }

    /// Whether nothing more is awaited.
    pub fn is_settled(&self) -> (r: bool)
        requires
            self.well_formed(),
        ensures
            r == self@.settled(),
    {
        self.skipped || self.done == self.reports.len()
    }

    /// Whether the result of a test is still taken.
    pub fn awaits(&self, test: usize) -> (r: bool)
        requires
            self.well_formed(),
        ensures
            r == self@.awaits(test as int),
    {
        !self.skipped && test < self.recorded.len() && !self.recorded[test]
    }

    /// Records the classification of an awaited test, and says whether the
    /// subtask is skipped from now on.
    pub fn record(&mut self, test: usize, report: TestReport, skip_count: u8) -> (skipped: bool)
        requires
            old(self).well_formed(),
            old(self)@.awaits(test as int),
        ensures
            final(self).well_formed(),
            final(self)@ == old(self)@.record(test as int, report, skip_count),
            skipped == final(self)@.skipped,
    {
        let tests: usize = self.recorded.len();
        proof {
            lemma_record_keeps_well_formed(self@, test as int, report, skip_count);
            lemma_count_set_after_setting(self.recorded@, test as int);
            lemma_count_set_bounded(self.recorded@.update(test as int, true));
            assert(self.done < tests);
        }
        self.reports.set(test, report);
        self.recorded.set(test, true);
        self.done = self.done + 1;
        if report.verdict.is_limit() {
            self.breaches = self.breaches + 1;
        }
        self.skipped = self.breaches > skip_count as usize;
        self.skipped
    }

    /// The verdict of the subtask.
    pub fn verdict(&self) -> (verdict: Verdict)
        ensures
            verdict == self@.verdict(),
    {
        if self.skipped {
            Verdict::Skipped
        } else {
            aggregate_tests(self.reports.as_slice())
        }
    }

    /// The report of each test, in order.
    pub fn reports(&self) -> (reports: Vec<TestReport>)
        ensures
            reports@ == self@.reports,
    {
        let mut copy: Vec<TestReport> = Vec::new();
        let mut i: usize = 0;
        while i < self.reports.len()
            invariant
                i <= self.reports@.len(),
                copy@ == self.reports@.take(i as int),
            decreases self.reports@.len() - i,
        {
            copy.push(self.reports[i]);
            proof {
                assert(self.reports@.take(i as int).push(self.reports@[i as int])
                    =~= self.reports@.take(i + 1));
            }
            i += 1;
        }
        proof {
            assert(self.reports@.take(i as int) =~= self.reports@);
        }
        copy
    }
}

} // verus!
