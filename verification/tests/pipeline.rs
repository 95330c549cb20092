use judge::contest::{Config, Difficulty, Language, Subtask, Task, Test};
use judge::sandbox::resource::{ResourceLimits, ResourceUsage};
use judge::sandbox::{ExitStatus, Output};
use judge::submit::classify::TestOutcome;
use judge::submit::message::Message;
use judge::submit::model::{Action, Phase};
use judge::submit::pipeline::{Event, Step, Submission};
use judge::submit::report::{Report, TestReport};
use judge::submit::verdict::Verdict;

fn task(subtasks: &[&[(&str, &str)]]) -> Task {
    Task {
        name: "squares".to_string(),
        difficulty: Difficulty::Easy,
        answer: None,
        page: String::new(),
        subtasks: subtasks
            .iter()
            .map(|tests| Subtask {
                tests: tests
                    .iter()
                    .map(|(input, output)| Test { input: input.to_string(), output: output.to_string() })
                    .collect(),
            })
            .collect(),
    }
}

fn language(compiled: bool) -> Language {
    Language {
        name: "lang".to_string(),
        filename: "main.src".to_string(),
        compile: if compiled { Some(vec!["cc".to_string(), "main.src".to_string()]) } else { None },
        run: vec!["./main".to_string()],
    }
}

fn config(skip_count: u8) -> Config {
    Config {
        skip_count,
        resource_limits: ResourceLimits { cpu: 1, cpu_tolerance: 100_000, memory: 1 << 30, memory_tolerance: 0 },
        languages: Vec::new(),
    }
}

fn usage() -> ResourceUsage {
    ResourceUsage { user_time: 20_000, sys_time: 1_000, memory: 1 << 20 }
}

fn slow() -> ResourceUsage {
    ResourceUsage { user_time: 1_000_000, sys_time: 3_000, memory: 1 << 20 }
}

fn printed(stdout: &str) -> TestOutcome {
    TestOutcome::Ran {
        output: Output::new(ExitStatus::Exited { code: 0 }, stdout.as_bytes().to_vec(), Vec::new(), usage()),
    }
}

fn timed_out() -> TestOutcome {
    TestOutcome::Ran {
        output: Output::new(ExitStatus::Signalled { signal: 9 }, Vec::new(), Vec::new(), slow()),
    }
}

fn tested(subtask: usize, test: usize, outcome: TestOutcome) -> Event {
    Event::Tested { subtask, test, outcome }
}

fn compiled(code: i32, stderr: &str) -> Event {
    Event::Compiled {
        output: Output::new(ExitStatus::Exited { code }, Vec::new(), stderr.as_bytes().to_vec(), usage()),
    }
}

fn queued(total: u32) -> Message {
    Message::Queued { total, uuid: "id-1".to_string() }
}

fn judging(verdict: Verdict) -> Message {
    Message::Judging { verdict }
}

fn report(verdict: Verdict, resource_usage: ResourceUsage) -> TestReport {
    TestReport { verdict, resource_usage }
}

fn report_of(verdict: Verdict) -> TestReport {
    TestReport { verdict, resource_usage: slow() }
}

fn nothing(step: &Step) -> bool {
    step.messages.is_empty() && step.action == Action::Wait
}

#[test]
fn interpreted_language_single_passing_test() {
    let task = task(&[&[("3\n", "9\n")]]);
    let mut submission = Submission::new(&task, &language(false), &config(2), "id-1".to_string());
    assert_eq!(submission.phase(), Phase::Created);

    let step = submission.step(Event::Start);
    assert_eq!(step.messages, vec![queued(1)]);
    assert_eq!(step.action, Action::RunTests);
    assert_eq!(submission.phase(), Phase::Judging);

    let step = submission.step(tested(0, 0, printed("9\n")));
    assert_eq!(
        step.messages,
        vec![
            judging(Verdict::Accepted),
            Message::Done {
                report: Report {
                    task: Verdict::Accepted,
                    subtasks: vec![Verdict::Accepted],
                    tests: vec![vec![report(Verdict::Accepted, usage())]],
                },
            },
        ]
    );
    assert_eq!(step.action, Action::Close);
    assert!(submission.is_finished());
}

#[test]
fn compile_error_ends_with_compile_error_throughout() {
    let task = task(&[&[("1", "1"), ("2", "4")], &[], &[("3", "9")]]);
    let mut submission = Submission::new(&task, &language(true), &config(2), "id-1".to_string());

    let step = submission.step(Event::Start);
    assert_eq!(step.messages, vec![queued(3), Message::Compiling]);
    assert_eq!(step.action, Action::Compile);
    assert_eq!(submission.phase(), Phase::Compiling);

    let step = submission.step(compiled(1, "error: expected expression"));
    let failed = report(Verdict::CompileError, ResourceUsage::default());
    assert_eq!(
        step.messages,
        vec![
            Message::CompilerOutput { exit_code: 1, stderr: "error: expected expression".to_string() },
            Message::Done {
                report: Report {
                    task: Verdict::CompileError,
                    subtasks: vec![Verdict::CompileError; 3],
                    tests: vec![vec![failed; 2], vec![], vec![failed]],
                },
            },
        ]
    );
    assert_eq!(step.action, Action::Close);
    assert!(submission.is_finished());

    assert!(!submission.awaits(0, 0));
    assert!(nothing(&submission.step(tested(0, 0, printed("1")))));
    assert!(nothing(&submission.step(Event::Start)));
}

#[test]
fn compile_error_of_a_task_without_subtasks_is_still_a_compile_error() {
    let task = task(&[]);
    let mut submission = Submission::new(&task, &language(true), &config(0), "id-1".to_string());
    submission.step(Event::Start);
    let step = submission.step(compiled(1, "no"));
    assert_eq!(
        step.messages[1],
        Message::Done { report: Report { task: Verdict::CompileError, subtasks: vec![], tests: vec![] } }
    );
}

#[test]
fn successful_compile_starts_the_tests() {
    let task = task(&[&[("3", "9")]]);
    let mut submission = Submission::new(&task, &language(true), &config(2), "id-1".to_string());
    submission.step(Event::Start);
    assert!(!submission.awaits(0, 0));
    assert!(nothing(&submission.step(tested(0, 0, printed("9")))));

    let step = submission.step(compiled(0, ""));
    assert!(step.messages.is_empty());
    assert_eq!(step.action, Action::RunTests);
    assert_eq!(submission.phase(), Phase::Judging);
    assert!(submission.awaits(0, 0));
}

#[test]
fn compiler_warnings_are_passed_on_before_judging() {
    let task = task(&[&[("3", "9")]]);
    let mut submission = Submission::new(&task, &language(true), &config(2), "id-1".to_string());
    submission.step(Event::Start);
    let step = submission.step(compiled(0, "warning: unused variable"));
    assert_eq!(
        step.messages,
        vec![Message::CompilerOutput { exit_code: 0, stderr: "warning: unused variable".to_string() }]
    );
    assert_eq!(step.action, Action::RunTests);
}

#[test]
fn wrong_answer_on_one_test_of_two() {
    let task = task(&[&[("a", "x"), ("b", "y")]]);
    let mut submission = Submission::new(&task, &language(false), &config(2), "id-1".to_string());
    submission.step(Event::Start);

    let step = submission.step(tested(0, 1, printed("x")));
    assert_eq!(step.messages, vec![judging(Verdict::WrongAnswer)]);
    assert_eq!(step.action, Action::Wait);

    let step = submission.step(tested(0, 0, printed("x")));
    assert_eq!(step.messages.len(), 2);
    assert_eq!(step.messages[0], judging(Verdict::Accepted));
    assert_eq!(
        step.messages[1],
        Message::Done {
            report: Report {
                task: Verdict::WrongAnswer,
                subtasks: vec![Verdict::WrongAnswer],
                tests: vec![vec![report(Verdict::Accepted, usage()), report(Verdict::WrongAnswer, usage())]],
            },
        }
    );
}

#[test]
fn skip_budget_trigger() {
    let tests: Vec<(&str, &str)> = vec![("in", "out"); 10];
    let task = task(&[&tests]);
    let mut submission = Submission::new(&task, &language(false), &config(2), "id-1".to_string());
    assert_eq!(submission.step(Event::Start).messages, vec![queued(10)]);

    for test in [7, 2] {
        let step = submission.step(tested(0, test, timed_out()));
        assert_eq!(step.messages, vec![judging(Verdict::TimeLimitExceeded)]);
        assert_eq!(step.action, Action::Wait);
    }
    let step = submission.step(tested(0, 4, timed_out()));
    assert_eq!(step.messages.len(), 3);
    assert_eq!(step.messages[0], judging(Verdict::TimeLimitExceeded));
    assert_eq!(step.messages[1], Message::Skipping { estimated_count: 8 });
    let skipped = report(Verdict::Skipped, ResourceUsage::default());
    let mut reports = vec![skipped; 10];
    for test in [2, 4, 7] {
        reports[test] = report(Verdict::TimeLimitExceeded, slow());
    }
    assert_eq!(
        step.messages[2],
        Message::Done {
            report: Report { task: Verdict::Skipped, subtasks: vec![Verdict::Skipped], tests: vec![reports] },
        }
    );
    assert_eq!(step.action, Action::Close);
}

#[test]
fn skipped_subtask_is_aborted_while_others_go_on() {
    let task = task(&[&[("a", "1"), ("b", "2"), ("c", "3")], &[("d", "4")]]);
    let mut submission = Submission::new(&task, &language(false), &config(0), "id-1".to_string());
    submission.step(Event::Start);

    let step = submission.step(tested(0, 1, timed_out()));
    assert_eq!(
        step.messages,
        vec![judging(Verdict::TimeLimitExceeded), Message::Skipping { estimated_count: 3 }]
    );
    assert_eq!(step.action, Action::Abort { subtask: 0 });

    assert!(!submission.awaits(0, 0));
    assert!(nothing(&submission.step(tested(0, 0, printed("1")))));
    assert!(nothing(&submission.step(tested(0, 2, printed("3")))));

    assert!(submission.awaits(1, 0));
    let step = submission.step(tested(1, 0, printed("4")));
    let skipped = report(Verdict::Skipped, ResourceUsage::default());
    assert_eq!(
        step.messages,
        vec![
            judging(Verdict::Accepted),
            Message::Done {
                report: Report {
                    task: Verdict::Skipped,
                    subtasks: vec![Verdict::Skipped, Verdict::Accepted],
                    tests: vec![
                        vec![skipped, report(Verdict::TimeLimitExceeded, slow()), skipped],
                        vec![report(Verdict::Accepted, usage())],
                    ],
                },
            },
        ]
    );
}

#[test]
fn budget_that_is_met_but_not_exceeded_skips_nothing() {
    let task = task(&[&[("a", "1"), ("b", "2"), ("c", "3")]]);
    let mut submission = Submission::new(&task, &language(false), &config(2), "id-1".to_string());
    submission.step(Event::Start);
    submission.step(tested(0, 0, timed_out()));
    submission.step(tested(0, 1, timed_out()));
    let step = submission.step(tested(0, 2, printed("3")));
    assert_eq!(step.messages.len(), 2);
    assert_eq!(
        step.messages[1],
        Message::Done {
            report: Report {
                task: Verdict::TimeLimitExceeded,
                subtasks: vec![Verdict::TimeLimitExceeded],
                tests: vec![vec![
                    report(Verdict::TimeLimitExceeded, slow()),
                    report(Verdict::TimeLimitExceeded, slow()),
                    report(Verdict::Accepted, usage()),
                ]],
            },
        }
    );
}

#[test]
fn only_kills_at_a_limit_count_against_the_budget() {
    let task = task(&[&[("a", "1"), ("b", "2"), ("c", "3")]]);
    let mut submission = Submission::new(&task, &language(false), &config(0), "id-1".to_string());
    submission.step(Event::Start);
    let step = submission.step(tested(0, 0, printed("wrong")));
    assert_eq!(step.messages, vec![judging(Verdict::WrongAnswer)]);
    let crashed = TestOutcome::Ran {
        output: Output::new(ExitStatus::Exited { code: 139 }, Vec::new(), Vec::new(), usage()),
    };
    let step = submission.step(tested(0, 1, crashed));
    assert_eq!(step.messages, vec![judging(Verdict::RuntimeError)]);
    let step = submission.step(tested(0, 2, TestOutcome::BrokenPipe));
    assert_eq!(step.messages[0], Message::BrokenPipe);
    assert_eq!(step.messages[1], judging(Verdict::WrongAnswer));
    assert_eq!(step.action, Action::Close);
}

#[test]
fn broken_pipe_is_told_of_before_its_verdict() {
    let task = task(&[&[("a", "1"), ("b", "2")]]);
    let mut submission = Submission::new(&task, &language(false), &config(0), "id-1".to_string());
    submission.step(Event::Start);
    let step = submission.step(tested(0, 1, TestOutcome::BrokenPipe));
    assert_eq!(step.messages, vec![Message::BrokenPipe, judging(Verdict::WrongAnswer)]);
    assert_eq!(step.action, Action::Wait);
    let step = submission.step(tested(0, 0, printed("1")));
    assert_eq!(
        step.messages,
        vec![
            judging(Verdict::Accepted),
            Message::Done {
                report: Report {
                    task: Verdict::WrongAnswer,
                    subtasks: vec![Verdict::WrongAnswer],
                    tests: vec![vec![
                        report(Verdict::Accepted, usage()),
                        report(Verdict::WrongAnswer, ResourceUsage::default()),
                    ]],
                },
            },
        ]
    );
}

#[test]
fn compiler_that_cannot_be_run_is_a_compile_error_throughout() {
    let task = task(&[&[("1", "1"), ("2", "4")], &[("3", "9")]]);
    let mut submission = Submission::new(&task, &language(true), &config(2), "id-1".to_string());
    assert!(nothing(&submission.step(Event::CompileUnavailable)));
    submission.step(Event::Start);
    let step = submission.step(Event::CompileUnavailable);
    let failed = report(Verdict::CompileError, ResourceUsage::default());
    assert_eq!(
        step.messages,
        vec![Message::Done {
            report: Report {
                task: Verdict::CompileError,
                subtasks: vec![Verdict::CompileError; 2],
                tests: vec![vec![failed; 2], vec![failed]],
            },
        }]
    );
    assert_eq!(step.action, Action::Close);
    assert!(submission.is_finished());
    assert!(nothing(&submission.step(tested(0, 0, printed("1")))));
    assert!(nothing(&submission.step(Event::CompileUnavailable)));
}

#[test]
fn compiler_that_cannot_be_run_is_ignored_once_judging() {
    let task = task(&[&[("1", "1")]]);
    let mut submission = Submission::new(&task, &language(false), &config(2), "id-1".to_string());
    submission.step(Event::Start);
    assert!(nothing(&submission.step(Event::CompileUnavailable)));
    assert_eq!(submission.phase(), Phase::Judging);
}

#[test]
fn ten_killed_tests_give_three_verdicts_in_any_order() {
    let tests: Vec<(&str, &str)> = vec![("in", "out"); 10];
    let task = task(&[&tests]);
    for order in [[0usize, 1, 2, 3, 4, 5, 6, 7, 8, 9], [9, 8, 7, 6, 5, 4, 3, 2, 1, 0], [3, 9, 0, 5, 1, 8, 2, 7, 4, 6]] {
        let mut submission = Submission::new(&task, &language(false), &config(2), "id-1".to_string());
        submission.step(Event::Start);
        let mut sent: Vec<Message> = Vec::new();
        for test in order {
            sent.extend(submission.step(tested(0, test, timed_out())).messages);
        }
        let verdicts: Vec<&Message> = sent.iter().filter(|m| matches!(m, Message::Judging { .. })).collect();
        assert_eq!(verdicts, vec![&judging(Verdict::TimeLimitExceeded); 3]);
        let report = match sent.last() {
            Some(Message::Done { report }) => report.clone(),
            other => panic!("no report: {:?}", other),
        };
        let filled: Vec<usize> = (0..10).filter(|t| report.tests()[0][*t].verdict != Verdict::Skipped).collect();
        let mut first_three = order[..3].to_vec();
        first_three.sort();
        assert_eq!(filled, first_three);
        for test in 0..10 {
            let expected = if first_three.contains(&test) {
                report_of(Verdict::TimeLimitExceeded)
            } else {
                TestReport { verdict: Verdict::Skipped, resource_usage: ResourceUsage::default() }
            };
            assert_eq!(report.tests()[0][test], expected);
        }
    }
}

#[test]
fn skipped_subtask_without_a_test_left_has_no_skipped_entry() {
    let task = task(&[&[("a", "1"), ("b", "2"), ("c", "3")]]);
    let mut submission = Submission::new(&task, &language(false), &config(2), "id-1".to_string());
    submission.step(Event::Start);
    submission.step(tested(0, 0, timed_out()));
    submission.step(tested(0, 1, timed_out()));
    let step = submission.step(tested(0, 2, timed_out()));
    assert_eq!(step.messages[1], Message::Skipping { estimated_count: 1 });
    assert_eq!(
        step.messages[2],
        Message::Done {
            report: Report {
                task: Verdict::Skipped,
                subtasks: vec![Verdict::Skipped],
                tests: vec![vec![report(Verdict::TimeLimitExceeded, slow()); 3]],
            },
        }
    );
}

#[test]
fn result_is_taken_once() {
    let task = task(&[&[("a", "1"), ("b", "2")]]);
    let mut submission = Submission::new(&task, &language(false), &config(2), "id-1".to_string());
    submission.step(Event::Start);
    assert_eq!(submission.step(tested(0, 0, printed("1"))).messages, vec![judging(Verdict::Accepted)]);
    assert!(!submission.awaits(0, 0));
    assert!(nothing(&submission.step(tested(0, 0, printed("wrong")))));
    assert!(nothing(&submission.step(tested(0, 2, printed("1")))));
    assert!(nothing(&submission.step(tested(1, 0, printed("1")))));
    assert!(nothing(&submission.step(compiled(0, ""))));
    assert!(nothing(&submission.step(Event::Start)));
    assert_eq!(submission.phase(), Phase::Judging);
}

#[test]
fn task_without_tests_is_accepted_at_once() {
    let task = task(&[&[], &[]]);
    let mut submission = Submission::new(&task, &language(false), &config(2), "id-1".to_string());
    let step = submission.step(Event::Start);
    assert_eq!(
        step.messages,
        vec![
            queued(0),
            Message::Done {
                report: Report {
                    task: Verdict::Accepted,
                    subtasks: vec![Verdict::Accepted, Verdict::Accepted],
                    tests: vec![vec![], vec![]],
                },
            },
        ]
    );
    assert_eq!(step.action, Action::Close);
}

#[test]
fn failure_ends_the_stream_with_the_reason() {
    let task = task(&[&[("a", "1")]]);
    let mut submission = Submission::new(&task, &language(true), &config(2), "id-1".to_string());
    assert!(nothing(&submission.step(Event::Failed { reason: "too early".to_string() })));
    assert_eq!(submission.phase(), Phase::Created);
    submission.step(Event::Start);
    let step = submission.step(Event::Failed { reason: "0: failed to compile submission\n".to_string() });
    assert_eq!(
        step.messages,
        vec![Message::Error { reason: "0: failed to compile submission\n".to_string() }]
    );
    assert_eq!(step.action, Action::Close);
    assert!(submission.is_finished());
    assert!(nothing(&submission.step(Event::Failed { reason: "again".to_string() })));
    assert!(nothing(&submission.step(compiled(0, ""))));
}

#[test]
fn stream_has_one_terminal_message_and_starts_with_queued() {
    let task = task(&[&[("a", "1"), ("b", "2")], &[("c", "3")]]);
    let mut submission = Submission::new(&task, &language(true), &config(1), "id-1".to_string());
    let events = vec![
        tested(0, 0, printed("1")),
        Event::Start,
        Event::Start,
        tested(0, 0, printed("1")),
        compiled(0, "warning"),
        compiled(1, "late"),
        tested(1, 0, printed("3")),
        tested(0, 1, timed_out()),
        tested(0, 1, printed("2")),
        tested(0, 0, printed("1")),
        Event::Failed { reason: "late".to_string() },
        tested(0, 0, printed("1")),
    ];
    let mut sent: Vec<Message> = Vec::new();
    for event in events {
        sent.extend(submission.step(event).messages);
    }
    assert_eq!(sent[0], queued(3));
    assert_eq!(sent.iter().filter(|m| matches!(m, Message::Queued { .. })).count(), 1);
    assert_eq!(sent.iter().filter(|m| m.is_terminal()).count(), 1);
    assert!(sent.last().unwrap().is_terminal());
    let compiling = sent.iter().position(|m| matches!(m, Message::Compiling)).unwrap();
    let first_verdict = sent.iter().position(|m| matches!(m, Message::Judging { .. })).unwrap();
    assert!(compiling < first_verdict);
    assert_eq!(sent.iter().filter(|m| matches!(m, Message::Judging { .. })).count(), 3);
}

#[test]
fn report_verdicts_are_the_least_of_what_they_cover() {
    let task = task(&[&[("a", "1"), ("b", "2")], &[("c", "3"), ("d", "4")]]);
    let mut submission = Submission::new(&task, &language(false), &config(5), "id-1".to_string());
    submission.step(Event::Start);
    submission.step(tested(1, 1, printed("4")));
    submission.step(tested(0, 0, printed("1")));
    submission.step(tested(1, 0, printed("3")));
    let step = submission.step(tested(0, 1, timed_out()));
    let report = match step.messages.last() {
        Some(Message::Done { report }) => report.clone(),
        other => panic!("no report: {:?}", other),
    };
    assert_eq!(report.task(), Verdict::TimeLimitExceeded);
    assert_eq!(report.subtasks().to_vec(), vec![Verdict::TimeLimitExceeded, Verdict::Accepted]);
    for (subtask, tests) in report.tests().iter().enumerate() {
        let least = tests.iter().map(|t| t.verdict).min().unwrap();
        assert_eq!(report.subtasks()[subtask], least);
    }
    assert_eq!(report.task(), *report.subtasks().iter().min().unwrap());
}
