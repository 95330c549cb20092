//! The data model of a contest: tasks, subtasks and tests, and the judge
//! settings that come with it.

use vstd::prelude::*;

use crate::sandbox::resource::ResourceLimits;
use crate::sandbox::Profile;
use crate::text::same_text;

verus! {

/// A contest: its tasks in order, and how submissions to it are judged.
#[derive(Clone, Debug, PartialEq, Eq)]
pub struct Contest {
    pub name: String,
    pub duration: u32,
    pub submission_cooldown: u32,
    pub page: String,
    pub tasks: Vec<Task>,
    pub scoring: Scoring,
    pub config: Config,
}

/// One problem of a contest.
#[derive(Clone, Debug, PartialEq, Eq, Hash)]
pub struct Task {
    pub name: String,
    pub difficulty: Difficulty,
    pub answer: Option<String>,
    pub page: String,
    pub subtasks: Vec<Subtask>,
}

#[derive(Clone, Copy, Debug, PartialEq, Eq, Hash, Structural)]
pub enum Difficulty {
    Easy,
    Medium,
    Hard,
}

/// A group of tests that share one verdict and one skip budget.
#[derive(Clone, Debug, PartialEq, Eq, Hash)]
pub struct Subtask {
    pub tests: Vec<Test>,
}

/// What a submission is fed, and what it has to print.
#[derive(Clone, Debug, PartialEq, Eq, Hash)]
pub struct Test {
    pub input: String,
    pub output: String,
}

#[derive(Clone, Copy, Debug, PartialEq, Eq, Hash, Structural)]
pub struct Scoring {
    pub answer_score: u32,
    pub test_score: u32,
    pub subtask_score: u32,
}

/// How submissions are judged.
#[derive(Clone, Debug, PartialEq, Eq)]
pub struct Config {
    /// How many kills at a resource limit a subtask tolerates before the
    /// rest of it is skipped.
    pub skip_count: u8,
    pub resource_limits: ResourceLimits,
    pub languages: Vec<Language>,
}

/// A language that submissions may be written in. A command is the
/// executable followed by its arguments.
#[derive(Clone, Debug, PartialEq, Eq)]
pub struct Language {
    pub name: String,
    /// The name under which the submitted code is written to disk.
    pub filename: String,
    pub compile: Option<Vec<String>>,
    pub run: Vec<String>,
}

/// The sum of a list of counts.
pub open spec fn sum(counts: Seq<nat>) -> nat
    decreases counts.len(),
{
    if counts.len() == 0 {
        0
    } else {
        sum(counts.drop_last()) + counts.last()
    }
}

/// Each single count is at most the sum.
pub proof fn lemma_sum_bounds_each(counts: Seq<nat>, i: int)
    requires
        0 <= i < counts.len(),
    ensures
        counts[i] <= sum(counts),
    decreases counts.len(),
{
    if i < counts.len() - 1 {
        lemma_sum_bounds_each(counts.drop_last(), i);
    }
}

impl Subtask {
    /// The expected output of each test, in order.
    pub open spec fn expected(&self) -> Seq<Seq<char>> {
        Seq::new(self.tests@.len(), |t: int| self.tests@[t].output@)
    }
}

impl Task {
    /// The expected output of each test, by subtask and test.
    pub open spec fn expected(&self) -> Seq<Seq<Seq<char>>> {
        Seq::new(self.subtasks@.len(), |i: int| self.subtasks@[i].expected())
    }

    /// The number of tests of each subtask.
    pub open spec fn test_counts(&self) -> Seq<nat> {
        Seq::new(self.subtasks@.len(), |i: int| self.subtasks@[i].tests@.len())
    }

    /// The number of tests of the whole task.
    pub open spec fn total_tests(&self) -> nat {
        sum(self.test_counts())
    }

    /// Counts the tests of the whole task; `None` if there are more than a
    /// `u32` can hold.
    pub fn count_tests(&self) -> (total: Option<u32>)
        ensures
            total is Some <==> self.total_tests() <= u32::MAX,
            total matches Some(n) ==> n == self.total_tests(),
    {
        let mut total: u32 = 0;
        let mut i: usize = 0;
        while i < self.subtasks.len()
            invariant
                i <= self.subtasks@.len(),
                total == sum(self.test_counts().take(i as int)),
            decreases self.subtasks@.len() - i,
        {
            let count: usize = self.subtasks[i].tests.len();
            proof {
                assert(self.test_counts().take(i + 1).drop_last() =~= self.test_counts().take(
                    i as int,
                ));
                assert(self.test_counts().take(i + 1).last() == count);
                lemma_sum_grows(self.test_counts(), i + 1);
            }
            if count > u32::MAX as usize - total as usize {
                return None;
            }
            total = total + count as u32;
            i += 1;
        }
        proof {
            assert(self.test_counts().take(i as int) =~= self.test_counts());
        }
        Some(total)
    }
}

/// The sum of a prefix is at most the sum of the whole.
pub proof fn lemma_sum_grows(counts: Seq<nat>, n: int)
    requires
        0 <= n <= counts.len(),
    ensures
        sum(counts.take(n)) <= sum(counts),
    decreases counts.len() - n,
{
    if n < counts.len() {
        assert(counts.take(n + 1).drop_last() =~= counts.take(n));
        lemma_sum_grows(counts, n + 1);
    } else {
        assert(counts.take(n) =~= counts);
    }
}

impl Language {
    /// The command that a profile calls for. A language without a compile
    /// command is never run with the compile profile.
    pub fn command(&self, profile: &Profile) -> (command: &Vec<String>)
        requires
            profile is Compile ==> self.compile is Some,
        ensures
            *command == match *profile {
                Profile::Compile => self.compile->0,
                Profile::Run(_) => self.run,
            },
    {
        match profile {
            Profile::Compile => match &self.compile {
                Some(command) => command,
                None => &self.run,
            },
            Profile::Run(_) => &self.run,
        }
    }
}

impl Config {
    /// Whether `at` is the place of the first language of the given name.
    pub open spec fn first_named(&self, name: Seq<char>, at: int) -> bool {
        &&& 0 <= at < self.languages@.len()
        &&& self.languages@[at].name@ == name
        &&& forall|k: int| 0 <= k < at ==> self.languages@[k].name@ != name
    }

    /// Whether some language has the given name.
    pub open spec fn supports(&self, name: Seq<char>) -> bool {
        exists|k: int| 0 <= k < self.languages@.len() && self.languages@[k].name@ == name
    }

    /// Finds a language by its name: the first one, if several share it.
    pub fn language(&self, name: &str) -> (found: Option<&Language>)
        ensures
            found is Some <==> self.supports(name@),
            found matches Some(language) ==> exists|at: int|
                self.first_named(name@, at) && *language == self.languages@[at],
    {
        let mut i: usize = 0;
        while i < self.languages.len()
            invariant
                i <= self.languages@.len(),
                forall|k: int| 0 <= k < i ==> self.languages@[k].name@ != name@,
            decreases self.languages@.len() - i,
        {
            if same_text(self.languages[i].name.as_str(), name) {
                assert(self.first_named(name@, i as int));
                return Some(&self.languages[i]);
            }
            i += 1;
        }
        None
    }
}

impl Contest {
    /// Finds a task by its number. Tasks are numbered from 1.
    pub fn task(&self, number: usize) -> (found: Option<&Task>)
        ensures
            found is Some <==> 1 <= number <= self.tasks@.len(),
            found matches Some(task) ==> *task == self.tasks@[number - 1],
    {
        if number == 0 || number > self.tasks.len() {
            None
        } else {
            Some(&self.tasks[number - 1])
        }
    }
}

} // verus!
