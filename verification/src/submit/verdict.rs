use vstd::prelude::*;

verus! {

/// The classification of one test, or the aggregate of several.
///
/// The variants are listed from least to greatest. The aggregate of a
/// collection is its least member, so any failure dominates any success.
#[derive(Clone, Copy, Debug, PartialEq, Eq, PartialOrd, Ord, Hash, Structural)]
pub enum Verdict {
    CompileError,
    RuntimeError,
    MemoryLimitExceeded,
    TimeLimitExceeded,
    WrongAnswer,
    Skipped,
    Accepted,
}

impl Verdict {
    /// Position in the order, from 0 (`CompileError`) to 6 (`Accepted`).
    pub open spec fn rank(self) -> nat {
        match self {
            Verdict::CompileError => 0,
            Verdict::RuntimeError => 1,
            Verdict::MemoryLimitExceeded => 2,
            Verdict::TimeLimitExceeded => 3,
            Verdict::WrongAnswer => 4,
            Verdict::Skipped => 5,
            Verdict::Accepted => 6,
        }
    }

    /// The lesser of two verdicts.
    pub open spec fn spec_min(self, other: Verdict) -> Verdict {
        if self.rank() <= other.rank() {
            self
        } else {
            other
        }
    }

    /// The verdict of a kill at a resource limit.
    pub open spec fn spec_is_limit(self) -> bool {
        self == Verdict::TimeLimitExceeded || self == Verdict::MemoryLimitExceeded
    }

    /// Position in the order, from 0 (`CompileError`) to 6 (`Accepted`).
    pub fn position(self) -> (r: u8)
        ensures
            r as nat == self.rank(),
    {
        match self {
            Verdict::CompileError => 0,
            Verdict::RuntimeError => 1,
            Verdict::MemoryLimitExceeded => 2,
            Verdict::TimeLimitExceeded => 3,
            Verdict::WrongAnswer => 4,
            Verdict::Skipped => 5,
            Verdict::Accepted => 6,
        }
    }

    /// The lesser of two verdicts: the worse outcome wins.
    pub fn min(self, other: Verdict) -> (r: Verdict)
        ensures
            r == self.spec_min(other),
    {
        if self.position() <= other.position() {
            self
        } else {
            other
        }
    }

    /// Whether this is the verdict of a kill at a resource limit, the kind
    /// that counts against a subtask's skip budget.
    pub fn is_limit(self) -> (r: bool)
        ensures
            r == self.spec_is_limit(),
    {
        match self {
            Verdict::TimeLimitExceeded => true,
            Verdict::MemoryLimitExceeded => true,
            _ => false,
        }
    }
}

/// The aggregate of a collection of verdicts: its least member, and
/// `Accepted` for an empty collection.
pub open spec fn min_of(verdicts: Seq<Verdict>) -> Verdict
    decreases verdicts.len(),
{
    if verdicts.len() == 0 {
        Verdict::Accepted
    } else {
        min_of(verdicts.drop_last()).spec_min(verdicts.last())
    }
}

/// The aggregate of a collection of verdicts.
pub fn aggregate(verdicts: &[Verdict]) -> (least: Verdict)
    ensures
        least == min_of(verdicts@),
{
    let mut least = Verdict::Accepted;
    let mut i: usize = 0;
    while i < verdicts.len()
        invariant
            i <= verdicts@.len(),
            least == min_of(verdicts@.take(i as int)),
        decreases verdicts@.len() - i,
    {
        proof {
            assert(verdicts@.take(i + 1).drop_last() =~= verdicts@.take(i as int));
        }
        least = least.min(verdicts[i]);
        i += 1;
    }
    proof {
        assert(verdicts@.take(i as int) =~= verdicts@);
    }
    least
}

/// The aggregate is no greater than any member.
pub proof fn lemma_min_of_is_lower_bound(verdicts: Seq<Verdict>, i: int)
    requires
        0 <= i < verdicts.len(),
    ensures
        min_of(verdicts).rank() <= verdicts[i].rank(),
    decreases verdicts.len(),
{
    if i < verdicts.len() - 1 {
        lemma_min_of_is_lower_bound(verdicts.drop_last(), i);
    }
}

/// The aggregate of a collection that is not empty is one of its members.
pub proof fn lemma_min_of_is_member(verdicts: Seq<Verdict>) -> (i: int)
    requires
        verdicts.len() > 0,
    ensures
        0 <= i < verdicts.len(),
        verdicts[i] == min_of(verdicts),
    decreases verdicts.len(),
{
    if verdicts.len() == 1 {
        assert(min_of(verdicts.drop_last()) == Verdict::Accepted);
        0
    } else if min_of(verdicts.drop_last()).rank() <= verdicts.last().rank() {
        lemma_min_of_is_member(verdicts.drop_last())
    } else {
        verdicts.len() - 1
    }
}

/// A verdict that bounds every member from below and occurs among them is
/// the aggregate.
pub proof fn lemma_min_of_unique(verdicts: Seq<Verdict>, least: Verdict, at: int)
    requires
        0 <= at < verdicts.len(),
        verdicts[at] == least,
        forall|i: int| 0 <= i < verdicts.len() ==> least.rank() <= (#[trigger] verdicts[i]).rank(),
    ensures
        min_of(verdicts) == least,
{
    let i = lemma_min_of_is_member(verdicts);
    lemma_min_of_is_lower_bound(verdicts, at);
    assert(verdicts[i].rank() == least.rank());
}

/// The aggregate of a collection that is not empty and holds one verdict
/// throughout is that verdict.
pub proof fn lemma_min_of_constant(verdicts: Seq<Verdict>, verdict: Verdict)
    requires
        verdicts.len() > 0,
        forall|i: int| 0 <= i < verdicts.len() ==> verdicts[i] == verdict,
    ensures
        min_of(verdicts) == verdict,
{
    lemma_min_of_unique(verdicts, verdict, 0);
}

} // verus!
