use mikan_judge::sandbox::RunStatus;
use mikan_judge::types::{JudgeStatus, Language};
use mikan_judge::worker::{
    case_status, case_time_ms, combined_stderr, compile_verdict, finish_judging, needs_scorer, record_case,
    sandbox_config_for, start_judging, verdict_label, CaseCheck,
};

fn exact(s: &str) -> CaseCheck {
    CaseCheck::Exact(Some(s.to_string()))
}

#[test]
fn sandbox_limits_per_language() {
    let c = sandbox_config_for(Language::Cpp, 2000, 262144);
    assert_eq!(c.time_limit_ms, 2000);
    assert_eq!(c.max_output_bytes, 16 * 1024 * 1024);
    assert_eq!(c.vm_limit_bytes, Some(262144 * 1024 * 2));
    assert!(c.enable_seccomp);
    assert_eq!(c.nproc_limit, None);
    let py = sandbox_config_for(Language::Python, 2000, 262144);
    assert_eq!(py.vm_limit_bytes, None);
    assert!(py.enable_seccomp);
    let java = sandbox_config_for(Language::Java, 2000, 262144);
    assert_eq!(java.vm_limit_bytes, Some(262144 * 1024 * 2));
    let pypy = sandbox_config_for(Language::PyPy, 2000, 262144);
    assert_eq!(pypy.vm_limit_bytes, None);
    assert!(!java.enable_seccomp);
}

#[test]
fn case_verdicts() {
    assert!(matches!(case_status(RunStatus::Success, Some(0), 10, 100, "3\n", exact(" 3 ")), JudgeStatus::Accepted));
    assert!(matches!(case_status(RunStatus::Success, Some(0), 10, 100, "4", exact("3")), JudgeStatus::WrongAnswer));
    assert!(matches!(case_status(RunStatus::Success, Some(0), 10, 100, "  ", CaseCheck::Exact(None)), JudgeStatus::Accepted));
    assert!(matches!(case_status(RunStatus::TimeLimitExceeded, None, 10, 100, "", exact("3")), JudgeStatus::TimeLimitExceeded));
    assert!(matches!(case_status(RunStatus::Killed, None, 101, 100, "", exact("3")), JudgeStatus::MemoryLimitExceeded));
    assert!(matches!(case_status(RunStatus::Killed, None, 100, 100, "", exact("3")), JudgeStatus::RuntimeError { exit_code: -1 }));
    assert!(matches!(case_status(RunStatus::RuntimeError, Some(2), 1, 100, "", exact("3")), JudgeStatus::RuntimeError { exit_code: 2 }));
    assert!(matches!(case_status(RunStatus::Success, Some(0), 1, 100, "", CaseCheck::Heuristic(Ok(()))), JudgeStatus::Scored));
    match case_status(RunStatus::Success, Some(0), 1, 100, "", CaseCheck::Heuristic(Err("bad".to_string()))) {
        JudgeStatus::InternalError { message } => assert_eq!(message, "bad"),
        other => panic!("unexpected {other:?}"),
    }
    assert!(needs_scorer(true, RunStatus::Success));
    assert!(!needs_scorer(true, RunStatus::RuntimeError));
    assert!(!needs_scorer(false, RunStatus::Success));
    assert_eq!(case_time_ms(1_999_999), 1);
}

#[test]
fn verdict_labels() {
    assert_eq!(verdict_label(&JudgeStatus::Accepted), "AC");
    assert_eq!(verdict_label(&JudgeStatus::WrongAnswer), "WA");
    assert_eq!(verdict_label(&JudgeStatus::TimeLimitExceeded), "TLE");
    assert_eq!(verdict_label(&JudgeStatus::MemoryLimitExceeded), "MLE");
    assert_eq!(verdict_label(&JudgeStatus::RuntimeError { exit_code: 1 }), "RE");
    assert_eq!(verdict_label(&JudgeStatus::Scored), "SCORED");
    assert_eq!(verdict_label(&JudgeStatus::InternalError { message: String::new() }), "IE");
}

#[test]
fn stderr_with_compile_warnings() {
    assert_eq!(combined_stderr("", "rt".to_string()), "rt");
    assert_eq!(combined_stderr("w", String::new()), "[Compile warnings]\nw");
    assert_eq!(combined_stderr("w", "rt".to_string()), "[Compile warnings]\nw\n\nrt");
}

#[test]
fn first_failing_case_decides_the_verdict() {
    let mut p = start_judging(false);
    record_case(&mut p, JudgeStatus::Accepted, 5, 100, "1".to_string(), String::new());
    record_case(&mut p, JudgeStatus::WrongAnswer, 9, 300, "2".to_string(), "e2".to_string());
    record_case(&mut p, JudgeStatus::TimeLimitExceeded, 2100, 200, "3".to_string(), "e3".to_string());
    record_case(&mut p, JudgeStatus::Accepted, 7, 50, "4".to_string(), String::new());
    let r = finish_judging(p);
    assert!(matches!(r.status, JudgeStatus::WrongAnswer));
    assert_eq!(r.time_ms, Some(2100));
    assert_eq!(r.memory_kb, Some(300));
    assert_eq!(r.stdout, "2");
    assert_eq!(r.stderr, "e2");
    let labels: Vec<&str> = r.verdicts.iter().map(|v| v.verdict).collect();
    assert_eq!(labels, vec!["AC", "WA", "TLE", "AC"]);
    assert_eq!(r.verdicts[2].time_ms, 2100);
}

#[test]
fn all_passing_cases_show_no_output() {
    let mut p = start_judging(true);
    record_case(&mut p, JudgeStatus::Scored, 0, 0, "x".to_string(), "y".to_string());
    let r = finish_judging(p);
    assert!(matches!(r.status, JudgeStatus::Scored));
    assert_eq!(r.time_ms, None);
    assert_eq!(r.memory_kb, None);
    assert_eq!(r.stdout, "");
    assert_eq!(r.stderr, "");
    let empty = finish_judging(start_judging(false));
    assert!(matches!(empty.status, JudgeStatus::Accepted));
    assert!(empty.verdicts.is_empty());
}

#[test]
fn compile_error_stops_judging() {
    match compile_verdict(&Some("error: expected ';'".to_string())) {
        Some(JudgeStatus::CompileError { message }) => assert_eq!(message, "error: expected ';'"),
        other => panic!("unexpected {other:?}"),
    }
    assert!(compile_verdict(&None).is_none());
}
