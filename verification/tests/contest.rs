use judge::contest::{Config, Contest, Difficulty, Language, Scoring, Subtask, Task, Test};
use judge::sandbox::resource::ResourceLimits;
use judge::sandbox::Profile;
use judge::submit::request::{resolve, SubmitError};

fn limits() -> ResourceLimits {
    ResourceLimits { cpu: 2, cpu_tolerance: 50_000, memory: 1 << 28, memory_tolerance: 1 << 12 }
}

fn language(name: &str, compile: Option<&[&str]>, run: &[&str]) -> Language {
    Language {
        name: name.to_string(),
        filename: format!("main.{}", name),
        compile: compile.map(|words| words.iter().map(|w| w.to_string()).collect()),
        run: run.iter().map(|w| w.to_string()).collect(),
    }
}

fn task(name: &str, counts: &[usize]) -> Task {
    Task {
        name: name.to_string(),
        difficulty: Difficulty::Medium,
        answer: None,
        page: String::new(),
        subtasks: counts
            .iter()
            .map(|n| Subtask {
                tests: (0..*n).map(|t| Test { input: t.to_string(), output: t.to_string() }).collect(),
            })
            .collect(),
    }
}

fn contest() -> Contest {
    Contest {
        name: "Spring Round".to_string(),
        duration: 120,
        submission_cooldown: 30,
        page: String::new(),
        tasks: vec![task("first", &[1, 2]), task("second", &[3])],
        scoring: Scoring { answer_score: 1, test_score: 2, subtask_score: 3 },
        config: Config {
            skip_count: 2,
            resource_limits: limits(),
            languages: vec![
                language("py", None, &["python3", "main.py"]),
                language("c", Some(&["cc", "main.c"]), &["./a.out"]),
                language("py", None, &["pypy3", "main.py"]),
            ],
        },
    }
}

#[test]
fn tests_are_counted_over_all_subtasks() {
    assert_eq!(task("t", &[]).count_tests(), Some(0));
    assert_eq!(task("t", &[0, 0]).count_tests(), Some(0));
    assert_eq!(task("t", &[3, 0, 4]).count_tests(), Some(7));
}

#[test]
fn tasks_are_numbered_from_one() {
    let contest = contest();
    assert_eq!(contest.task(0), None);
    assert_eq!(contest.task(1).map(|t| t.name.as_str()), Some("first"));
    assert_eq!(contest.task(2).map(|t| t.name.as_str()), Some("second"));
    assert_eq!(contest.task(3), None);
    assert_eq!(contest.task(usize::MAX), None);
}

#[test]
fn language_is_found_by_name_first_one_first() {
    let contest = contest();
    assert_eq!(contest.config.language("c").map(|l| l.filename.as_str()), Some("main.c"));
    assert_eq!(contest.config.language("py").map(|l| l.run[0].as_str()), Some("python3"));
    assert_eq!(contest.config.language("rs"), None);
    assert_eq!(contest.config.language(""), None);
    assert_eq!(contest.config.language("C"), None);
}

#[test]
fn profile_picks_the_command() {
    let c = language("c", Some(&["cc", "main.c"]), &["./a.out"]);
    assert_eq!(c.command(&Profile::Compile), &vec!["cc".to_string(), "main.c".to_string()]);
    assert_eq!(c.command(&Profile::Run(limits())), &vec!["./a.out".to_string()]);
    let py = language("py", None, &["python3", "main.py"]);
    assert_eq!(py.command(&Profile::Run(limits())), &vec!["python3".to_string(), "main.py".to_string()]);
}

#[test]
fn request_is_resolved_to_task_and_language() {
    let contest = contest();
    let request = resolve(Some(&contest), "spring", 2, "c").ok().unwrap();
    assert_eq!(request.task.name, "second");
    assert_eq!(request.language.filename, "main.c");
}

#[test]
fn unknown_contest_is_not_found() {
    let error = resolve(None, "autumn", 1, "c").err().unwrap();
    assert_eq!(error, SubmitError::ContestNotFound("autumn".to_string()));
    assert_eq!(error.status(), 404);
    assert_eq!(error.message(), "contest autumn not found");
}

#[test]
fn task_out_of_range_is_not_found() {
    let contest = contest();
    let error = resolve(Some(&contest), "spring", 0, "c").err().unwrap();
    assert_eq!(error, SubmitError::TaskNotFound("spring".to_string(), 0));
    assert_eq!(error.status(), 404);
    assert_eq!(error.message(), "task #0 for contest spring not found");
    let error = resolve(Some(&contest), "spring", 3, "nothing").err().unwrap();
    assert_eq!(error, SubmitError::TaskNotFound("spring".to_string(), 3));
    let error = resolve(Some(&contest), "spring", 1204, "c").err().unwrap();
    assert_eq!(error.message(), "task #1204 for contest spring not found");
}

#[test]
fn unknown_language_is_a_bad_request() {
    let contest = contest();
    let error = resolve(Some(&contest), "spring", 1, "cobol").err().unwrap();
    assert_eq!(error, SubmitError::UnsupportedLanguage("cobol".to_string()));
    assert_eq!(error.status(), 400);
    assert_eq!(error.message(), "unsupported language: cobol");
}

#[test]
fn failed_setup_is_the_judges_own_error() {
    let error = SubmitError::Io("permission denied".to_string());
    assert_eq!(error.status(), 500);
    assert_eq!(error.message(), "IO error: permission denied");
}
