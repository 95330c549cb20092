use judge::sandbox::resource::{ResourceLimits, ResourceUsage};
use judge::sandbox::{ExitStatus, Output};
use judge::submit::classify::{classify, judge_output, matches_expected, TestOutcome};
use judge::submit::report::TestReport;
use judge::submit::verdict::Verdict;

fn limits() -> ResourceLimits {
    ResourceLimits { cpu: 1, cpu_tolerance: 100_000, memory: 1 << 20, memory_tolerance: 4096 }
}

fn idle() -> ResourceUsage {
    ResourceUsage { user_time: 1_000, sys_time: 500, memory: 4096 }
}

fn exited(code: i32, stdout: &[u8], usage: ResourceUsage) -> Output {
    Output::new(ExitStatus::Exited { code }, stdout.to_vec(), Vec::new(), usage)
}

fn killed(usage: ResourceUsage) -> Output {
    Output::new(ExitStatus::Signalled { signal: 9 }, Vec::new(), Vec::new(), usage)
}

#[test]
fn matching_output_is_accepted() {
    assert_eq!(judge_output(&exited(0, b"9\n", idle()), "9\n", limits()), Verdict::Accepted);
}

#[test]
fn whitespace_at_the_ends_is_not_compared() {
    assert_eq!(judge_output(&exited(0, b"  9\r\n\n", idle()), "9", limits()), Verdict::Accepted);
    assert_eq!(judge_output(&exited(0, b"9", idle()), "\t9 \n", limits()), Verdict::Accepted);
    assert!(matches_expected("\u{a0}9\u{2003}".as_bytes(), "9"));
}

#[test]
fn whitespace_inside_is_compared() {
    assert_eq!(judge_output(&exited(0, b"1 2\n", idle()), "1  2\n", limits()), Verdict::WrongAnswer);
    assert_eq!(judge_output(&exited(0, b"1\n2\n", idle()), "1 2\n", limits()), Verdict::WrongAnswer);
    assert_eq!(judge_output(&exited(0, b"1 2\n", idle()), "1 2", limits()), Verdict::Accepted);
}

#[test]
fn empty_output_for_empty_expectation_is_accepted() {
    assert_eq!(judge_output(&exited(0, b"", idle()), "", limits()), Verdict::Accepted);
    assert_eq!(judge_output(&exited(0, b"\n", idle()), "", limits()), Verdict::Accepted);
    assert_eq!(judge_output(&exited(0, b"", idle()), " \n", limits()), Verdict::Accepted);
}

#[test]
fn other_output_is_a_wrong_answer() {
    assert_eq!(judge_output(&exited(0, b"x", idle()), "y", limits()), Verdict::WrongAnswer);
    assert_eq!(judge_output(&exited(0, b"", idle()), "9\n", limits()), Verdict::WrongAnswer);
}

#[test]
fn output_that_is_no_text_is_a_wrong_answer() {
    assert_eq!(judge_output(&exited(0, &[0xff, 0xfe], idle()), "", limits()), Verdict::WrongAnswer);
    assert_eq!(judge_output(&exited(0, &[b'9', 0x80], idle()), "9", limits()), Verdict::WrongAnswer);
    assert!(!matches_expected(&[0xc3], "\u{e9}"));
    assert!(matches_expected(&[0xc3, 0xa9], "\u{e9}"));
}

#[test]
fn nonzero_exit_is_a_runtime_error() {
    assert_eq!(judge_output(&exited(1, b"9\n", idle()), "9\n", limits()), Verdict::RuntimeError);
    assert_eq!(judge_output(&exited(-1, b"9\n", idle()), "9\n", limits()), Verdict::RuntimeError);
}

#[test]
fn kill_near_the_time_limit_is_time_limit_exceeded() {
    let usage = ResourceUsage { user_time: 1_050_000, sys_time: 0, memory: 4096 };
    assert_eq!(judge_output(&killed(usage), "9\n", limits()), Verdict::TimeLimitExceeded);
}

#[test]
fn kill_near_the_memory_limit_is_memory_limit_exceeded() {
    let usage = ResourceUsage { user_time: 10, sys_time: 0, memory: (1 << 20) - 100 };
    assert_eq!(judge_output(&killed(usage), "9\n", limits()), Verdict::MemoryLimitExceeded);
}

#[test]
fn time_wins_when_both_limits_are_breached() {
    let usage = ResourceUsage { user_time: 500_000, sys_time: 500_000, memory: 1 << 20 };
    assert_eq!(judge_output(&killed(usage), "9\n", limits()), Verdict::TimeLimitExceeded);
}

#[test]
fn kill_away_from_every_limit_is_a_runtime_error() {
    assert_eq!(judge_output(&killed(idle()), "", limits()), Verdict::RuntimeError);
}

#[test]
fn usage_at_a_limit_without_a_kill_is_judged_by_the_output() {
    let usage = ResourceUsage { user_time: 1_000_000, sys_time: 0, memory: 1 << 20 };
    assert_eq!(judge_output(&exited(0, b"9", usage), "9", limits()), Verdict::Accepted);
    assert_eq!(judge_output(&exited(0, b"8", usage), "9", limits()), Verdict::WrongAnswer);
    assert_eq!(judge_output(&exited(2, b"9", usage), "9", limits()), Verdict::RuntimeError);
}

#[test]
fn classification_carries_the_usage_of_the_run() {
    let outcome = TestOutcome::Ran { output: exited(0, b"9\n", idle()) };
    assert_eq!(
        classify(&outcome, "9\n", limits()),
        TestReport { verdict: Verdict::Accepted, resource_usage: idle() }
    );
}

#[test]
fn broken_pipe_is_a_wrong_answer_without_usage() {
    assert_eq!(
        classify(&TestOutcome::BrokenPipe, "9\n", limits()),
        TestReport { verdict: Verdict::WrongAnswer, resource_usage: ResourceUsage::default() }
    );
}

#[test]
fn exit_without_reading_the_input_is_judged_by_the_output() {
    let outcome = TestOutcome::Ran { output: exited(0, b"", idle()) };
    assert_eq!(classify(&outcome, "9\n", limits()).verdict, Verdict::WrongAnswer);
}

#[test]
fn classifying_twice_gives_the_same_report() {
    let outcome = TestOutcome::Ran { output: exited(0, b" 9 \n", idle()) };
    let first = classify(&outcome, "9", limits());
    let second = classify(&outcome, "9", limits());
    assert_eq!(first, second);
    let other = TestOutcome::Ran {
        output: Output::new(ExitStatus::Exited { code: 0 }, b" 9 \n".to_vec(), b"noise".to_vec(), idle()),
    };
    assert_eq!(classify(&other, "9", limits()), first);
}

#[test]
fn exit_status_tells_code_and_signal_apart() {
    let done = ExitStatus::Exited { code: 3 };
    assert_eq!(done.code(), Some(3));
    assert_eq!(done.signal(), None);
    assert!(!done.success());
    assert!(ExitStatus::Exited { code: 0 }.success());
    let killed = ExitStatus::Signalled { signal: 9 };
    assert_eq!(killed.code(), None);
    assert_eq!(killed.signal(), Some(9));
    assert!(!killed.success());
}

#[test]
fn output_gives_back_what_it_was_made_of() {
    let output = Output::new(ExitStatus::Exited { code: 0 }, b"out".to_vec(), b"err".to_vec(), idle());
    assert_eq!(output.exit_status(), ExitStatus::Exited { code: 0 });
    assert_eq!(output.stdout(), b"out");
    assert_eq!(output.stderr(), b"err");
    assert_eq!(output.stdout_utf8().ok(), Some("out"));
    assert_eq!(output.stderr_utf8().ok(), Some("err"));
    assert_eq!(output.resource_usage(), idle());
    let binary = Output::new(ExitStatus::Exited { code: 0 }, vec![0xff], vec![0xc0, 0x80], idle());
    assert!(binary.stdout_utf8().is_err());
    assert!(binary.stderr_utf8().is_err());
}
