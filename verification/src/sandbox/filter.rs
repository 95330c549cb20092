use vstd::prelude::*;

verus! {

/// One instruction of the kernel's classic packet filter, in the layout in
/// which the kernel takes it.
#[derive(Clone, Copy, Debug, PartialEq, Eq, Hash, Structural)]
pub struct Instruction {
    pub code: u16,
    pub jt: u8,
    pub jf: u8,
    pub k: u32,
}

/// Loads the word at offset `k` of the call's description.
pub const LOAD_WORD: u16 = 0x20;

/// Skips `jt` instructions if the loaded word equals `k`, else `jf`.
pub const JUMP_IF_EQUAL: u16 = 0x15;

/// Ends the filter with the decision `k`.
pub const RETURN: u16 = 0x06;

/// The decision that lets a system call through.
pub const ALLOW: u32 = 0x7fff_0000;

/// The decision that kills the process.
pub const KILL_PROCESS: u32 = 0x8000_0000;

/// Where the number of the system call stands in its description.
pub const OFFSET_NUMBER: u32 = 0;

/// Where the architecture stands in the description of a system call.
pub const OFFSET_ARCHITECTURE: u32 = 4;

/// The most instructions that the kernel takes in one filter.
pub const MAX_INSTRUCTIONS: usize = 4096;

/// The most system calls that a filter can list.
pub const MAX_ALLOWED: usize = 2045;

/// What a filter sees of a system call.
#[derive(Clone, Copy, Debug, PartialEq, Eq, Hash, Structural)]
pub struct Call {
    pub number: u32,
    pub architecture: u32,
}

/// The decision that a program reaches on a call when it goes on from the
/// given instruction with the given word loaded; `None` where it runs into
/// an instruction that it cannot read, or off its end.
pub open spec fn decision_from(
    program: Seq<Instruction>,
    at: int,
    loaded: u32,
    call: Call,
) -> Option<u32>
    decreases program.len() - at,
{
    if at < 0 || at >= program.len() {
        None
    } else if program[at].code == RETURN {
        Some(program[at].k)
    } else if program[at].code == LOAD_WORD {
        if program[at].k == OFFSET_NUMBER {
            decision_from(program, at + 1, call.number, call)
        } else if program[at].k == OFFSET_ARCHITECTURE {
            decision_from(program, at + 1, call.architecture, call)
        } else {
            None
        }
    } else if program[at].code == JUMP_IF_EQUAL {
        let target = if loaded == program[at].k {
            at + 1 + program[at].jt
        } else {
            at + 1 + program[at].jf
        };
        if target < program.len() {
            decision_from(program, target, loaded, call)
        } else {
            None
        }
    } else {
        None
    }
}

/// The decision of a program on a call.
pub open spec fn decision(program: Seq<Instruction>, call: Call) -> Option<u32> {
    decision_from(program, 0, 0, call)
}

/// The instruction at a place of the filter for an architecture and a list
/// of allowed system calls.
///
/// The filter first holds the call to the architecture, and kills on any
/// other. Then it loads the number of the call and compares it with each
/// allowed number in turn, allowing the call at the first that is equal. A
/// call that reaches the end is killed.
pub open spec fn instruction_at(architecture: u32, allowed: Seq<u32>, at: int) -> Instruction {
    if at == 0 {
        Instruction { code: LOAD_WORD, jt: 0, jf: 0, k: OFFSET_ARCHITECTURE }
    } else if at == 1 {
        Instruction { code: JUMP_IF_EQUAL, jt: 1, jf: 0, k: architecture }
    } else if at == 2 {
        Instruction { code: RETURN, jt: 0, jf: 0, k: KILL_PROCESS }
    } else if at == 3 {
        Instruction { code: LOAD_WORD, jt: 0, jf: 0, k: OFFSET_NUMBER }
    } else if at == 4 + 2 * allowed.len() {
        Instruction { code: RETURN, jt: 0, jf: 0, k: KILL_PROCESS }
    } else if (at - 4) % 2 == 0 {
        Instruction { code: JUMP_IF_EQUAL, jt: 0, jf: 1, k: allowed[(at - 4) / 2] }
    } else {
        Instruction { code: RETURN, jt: 0, jf: 0, k: ALLOW }
    }
}

/// The filter that allows the listed system calls of one architecture and
/// kills the process on every other call.
pub open spec fn filter_of(architecture: u32, allowed: Seq<u32>) -> Seq<Instruction> {
    Seq::new((5 + 2 * allowed.len()) as nat, |at: int| instruction_at(architecture, allowed, at))
}

/// From the comparison with the allowed number at `from` on, the filter
/// allows a call exactly if its number is among the numbers still to come.
pub proof fn lemma_filter_scans(architecture: u32, allowed: Seq<u32>, call: Call, from: int)
    requires
        0 <= from <= allowed.len(),
    ensures
        decision_from(filter_of(architecture, allowed), 4 + 2 * from, call.number, call) == Some(
            if exists|i: int| from <= i < allowed.len() && allowed[i] == call.number {
                ALLOW
            } else {
                KILL_PROCESS
            },
        ),
    decreases allowed.len() - from,
{
    let program = filter_of(architecture, allowed);
    let at = 4 + 2 * from;
    if from < allowed.len() {
        assert(program[at] == instruction_at(architecture, allowed, at));
        assert(program[at + 1] == instruction_at(architecture, allowed, at + 1));
        assert((at - 4) / 2 == from);
        if allowed[from] == call.number {
            assert(decision_from(program, at + 1, call.number, call) == Some(ALLOW));
        } else {
            lemma_filter_scans(architecture, allowed, call, from + 1);
            assert(decision_from(program, at, call.number, call) == decision_from(
                program,
                at + 2,
                call.number,
                call,
            ));
            assert forall|i: int|
                from <= i < allowed.len() && allowed[i] == call.number implies from + 1 <= i by {}
        }
    } else {
        assert(program[at] == instruction_at(architecture, allowed, at));
    }
}

/// The filter allows exactly the listed system calls of its architecture:
/// on every call it decides, and it allows the call if the architecture is
/// the filter's and the number is listed, and kills the process otherwise.
pub proof fn law_filter_allows_exactly(architecture: u32, allowed: Seq<u32>, call: Call)
    ensures
        decision(filter_of(architecture, allowed), call) == Some(
            if call.architecture == architecture && allowed.contains(call.number) {
                ALLOW
            } else {
                KILL_PROCESS
            },
        ),
{
    let program = filter_of(architecture, allowed);
    assert(program[0] == instruction_at(architecture, allowed, 0));
    assert(program[1] == instruction_at(architecture, allowed, 1));
    assert(program[2] == instruction_at(architecture, allowed, 2));
    assert(program[3] == instruction_at(architecture, allowed, 3));
    assert(decision(program, call) == decision_from(program, 1, call.architecture, call));
    if call.architecture == architecture {
        assert(decision_from(program, 1, call.architecture, call) == decision_from(
            program,
            3,
            call.architecture,
            call,
        ));
        assert(decision_from(program, 3, call.architecture, call) == decision_from(
            program,
            4,
            call.number,
            call,
        ));
        lemma_filter_scans(architecture, allowed, call, 0);
        if allowed.contains(call.number) {
            let i = choose|i: int| 0 <= i < allowed.len() && allowed[i] == call.number;
            assert(0 <= i < allowed.len() && allowed[i] == call.number);
        }
    } else {
        assert(decision_from(program, 1, call.architecture, call) == decision_from(
            program,
            2,
            call.architecture,
            call,
        ));
    }
}

/// Builds the filter that allows the listed system calls of one
/// architecture and kills the process on every other call. `None` if the
/// list is longer than a filter can hold.
pub fn filter(architecture: u32, allowed: &[u32]) -> (program: Option<Vec<Instruction>>)
    ensures
        program is Some <==> allowed@.len() <= MAX_ALLOWED,
        program matches Some(instructions) ==> {
            &&& instructions@ == filter_of(architecture, allowed@)
            &&& instructions@.len() <= MAX_INSTRUCTIONS
            &&& forall|call: Call| #[trigger]
                decision(instructions@, call) == Some(
                    if call.architecture == architecture && allowed@.contains(call.number) {
                        ALLOW
                    } else {
                        KILL_PROCESS
                    },
                )
        },
{
    if allowed.len() > MAX_ALLOWED {
        return None;
    }
    let mut program: Vec<Instruction> = Vec::new();
    program.push(Instruction { code: LOAD_WORD, jt: 0, jf: 0, k: OFFSET_ARCHITECTURE });
    program.push(Instruction { code: JUMP_IF_EQUAL, jt: 1, jf: 0, k: architecture });
    program.push(Instruction { code: RETURN, jt: 0, jf: 0, k: KILL_PROCESS });
    program.push(Instruction { code: LOAD_WORD, jt: 0, jf: 0, k: OFFSET_NUMBER });
    let mut i: usize = 0;
    while i < allowed.len()
        invariant
            i <= allowed@.len() <= MAX_ALLOWED,
            program@.len() == 4 + 2 * i,
            forall|at: int|
                0 <= at < program@.len() ==> program@[at] == instruction_at(
                    architecture,
                    allowed@,
                    at,
                ),
        decreases allowed@.len() - i,
    {
        program.push(Instruction { code: JUMP_IF_EQUAL, jt: 0, jf: 1, k: allowed[i] });
        program.push(Instruction { code: RETURN, jt: 0, jf: 0, k: ALLOW });
        i += 1;
    }
    program.push(Instruction { code: RETURN, jt: 0, jf: 0, k: KILL_PROCESS });
    proof {
        assert(program@ =~= filter_of(architecture, allowed@));
        assert forall|call: Call| #[trigger]
            decision(program@, call) == Some(
                if call.architecture == architecture && allowed@.contains(call.number) {
                    ALLOW
                } else {
                    KILL_PROCESS
                },
            ) by {
            law_filter_allows_exactly(architecture, allowed@, call);
        }
    }
    Some(program)
}

} // verus!
