use vstd::prelude::*;
use vstd::string::StringExecFns;

use crate::sandbox::command::texts;
use crate::text::{decimal, decimal_of};

verus! {

/// One line of a failure's reason: the place of the cause in the chain, a
/// colon and a space, the cause, and a line feed.
pub open spec fn cause_line(place: nat, cause: Seq<char>) -> Seq<char> {
    decimal_of(place) + seq![':', ' '] + cause + seq!['\n']
}

/// The reason of a failure: its chain of causes, outermost first, one line
/// each.
pub open spec fn reason_of(causes: Seq<Seq<char>>) -> Seq<char>
    decreases causes.len(),
{
    if causes.len() == 0 {
        Seq::empty()
    } else {
        reason_of(causes.drop_last()) + cause_line((causes.len() - 1) as nat, causes.last())
    }
}

/// Writes the reason of a failure from its chain of causes, outermost
/// first.
pub fn failure_reason(causes: &[String]) -> (reason: String)
    ensures
        reason@ == reason_of(texts(causes@)),
{
    let mut reason = String::new();
    proof {
        reveal_strlit(": ");
        reveal_strlit("\n");
        assert(": "@ =~= seq![':', ' ']);
        assert("\n"@ =~= seq!['\n']);
    }
    let mut i: usize = 0;
    while i < causes.len()
        invariant
            i <= causes@.len(),
            ": "@ == seq![':', ' '],
            "\n"@ == seq!['\n'],
            reason@ == reason_of(texts(causes@).take(i as int)),
        decreases causes@.len() - i,
    {
        let ghost before = reason@;
        let place = decimal(i);
        reason.append(place.as_str());
        reason.append(": ");
        reason.append(causes[i].as_str());
        reason.append("\n");
        proof {
            let all = texts(causes@);
            assert(all.take(i + 1).drop_last() =~= all.take(i as int));
            assert(all.take(i + 1).last() == causes@[i as int]@);
            assert(reason@ =~= before + cause_line(i as nat, causes@[i as int]@));
        }
        i += 1;
    }
    proof {
        assert(texts(causes@).take(i as int) =~= texts(causes@));
    }
    reason
}

} // verus!
