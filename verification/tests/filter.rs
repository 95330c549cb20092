use judge::sandbox::filter::{
    filter, Call, Instruction, ALLOW, JUMP_IF_EQUAL, KILL_PROCESS, LOAD_WORD, MAX_ALLOWED,
    MAX_INSTRUCTIONS, OFFSET_ARCHITECTURE, OFFSET_NUMBER, RETURN,
};

const ARCHITECTURE: u32 = 0xc000_003e;

fn decide(program: &[Instruction], call: Call) -> Option<u32> {
    let mut at = 0usize;
    let mut loaded = 0u32;
    loop {
        let instruction = program.get(at)?;
        match instruction.code {
            RETURN => return Some(instruction.k),
            LOAD_WORD => {
                loaded = match instruction.k {
                    OFFSET_NUMBER => call.number,
                    OFFSET_ARCHITECTURE => call.architecture,
                    _ => return None,
                };
                at += 1;
            }
            JUMP_IF_EQUAL => {
                let skip = if loaded == instruction.k { instruction.jt } else { instruction.jf };
                at += 1 + skip as usize;
            }
            _ => return None,
        }
    }
}

#[test]
fn filter_has_the_kernels_layout() {
    let program = filter(ARCHITECTURE, &[0, 60]).unwrap();
    let instruction = |code: u16, jt: u8, jf: u8, k: u32| Instruction { code, jt, jf, k };
    assert_eq!(
        program,
        vec![
            instruction(0x20, 0, 0, 4),
            instruction(0x15, 1, 0, ARCHITECTURE),
            instruction(0x06, 0, 0, 0x8000_0000),
            instruction(0x20, 0, 0, 0),
            instruction(0x15, 0, 1, 0),
            instruction(0x06, 0, 0, 0x7fff_0000),
            instruction(0x15, 0, 1, 60),
            instruction(0x06, 0, 0, 0x7fff_0000),
            instruction(0x06, 0, 0, 0x8000_0000),
        ]
    );
}

#[test]
fn filter_allows_exactly_the_listed_calls() {
    let allowed = [0, 1, 3, 60, 231];
    let program = filter(ARCHITECTURE, &allowed).unwrap();
    for number in 0..400 {
        let decision = decide(&program, Call { number, architecture: ARCHITECTURE });
        let expected = if allowed.contains(&number) { ALLOW } else { KILL_PROCESS };
        assert_eq!(decision, Some(expected));
    }
}

#[test]
fn filter_kills_calls_of_another_architecture() {
    let program = filter(ARCHITECTURE, &[0, 1]).unwrap();
    assert_eq!(decide(&program, Call { number: 0, architecture: 0x4000_0003 }), Some(KILL_PROCESS));
    assert_eq!(decide(&program, Call { number: 1, architecture: 0 }), Some(KILL_PROCESS));
}

#[test]
fn filter_without_calls_kills_everything() {
    let program = filter(ARCHITECTURE, &[]).unwrap();
    assert_eq!(program.len(), 5);
    assert_eq!(decide(&program, Call { number: 0, architecture: ARCHITECTURE }), Some(KILL_PROCESS));
}

#[test]
fn filter_is_bounded_by_what_the_kernel_takes() {
    let most: Vec<u32> = (0..MAX_ALLOWED as u32).collect();
    let program = filter(ARCHITECTURE, &most).unwrap();
    assert_eq!(program.len(), 4095);
    assert!(program.len() <= MAX_INSTRUCTIONS);
    let more: Vec<u32> = (0..MAX_ALLOWED as u32 + 1).collect();
    assert_eq!(filter(ARCHITECTURE, &more), None);
}
