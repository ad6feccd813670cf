use mikan_judge::sandbox::{
    allowed_syscalls, append_capped, build_result, cgroup_run_dir_name, compile_output,
    compile_plan, determine_status, filter_rules, has_memory_controller, memory_used_bytes,
    parse_memory_peak, parse_u64, rlimits_for, run_result, syntax_check_result, wait_step,
    ChildExit, CompilePlan, RunStatus, SandboxConfig, ToolOutcome, WaitAction, WaitPoll,
};
use mikan_judge::types::Language;

const MS: u128 = 1_000_000;

#[test]
fn status_of_a_normal_exit() {
    assert_eq!(determine_status(false, 100 * MS, 2000, Some(ChildExit::Exited(0))), (Some(0), RunStatus::Success));
    assert_eq!(determine_status(false, 100 * MS, 2000, Some(ChildExit::Exited(3))), (Some(3), RunStatus::RuntimeError));
    assert_eq!(determine_status(false, 100 * MS, 2000, None), (None, RunStatus::RuntimeError));
    assert_eq!(determine_status(false, 100 * MS, 2000, Some(ChildExit::Other)), (None, RunStatus::RuntimeError));
}

#[test]
fn status_over_time() {
    assert_eq!(determine_status(true, 0, 2000, Some(ChildExit::Exited(0))), (None, RunStatus::TimeLimitExceeded));
    assert_eq!(determine_status(false, 2050 * MS, 2000, Some(ChildExit::Exited(0))), (Some(0), RunStatus::Success));
    assert_eq!(determine_status(false, 2050 * MS + 1, 2000, Some(ChildExit::Exited(0))), (None, RunStatus::TimeLimitExceeded));
    assert_eq!(
        determine_status(false, 10 * MS, 2000, Some(ChildExit::Signaled { cpu_limit: true })),
        (None, RunStatus::TimeLimitExceeded)
    );
    assert_eq!(
        determine_status(false, 10 * MS, 2000, Some(ChildExit::Signaled { cpu_limit: false })),
        (None, RunStatus::Killed)
    );
}

#[test]
fn rlimits_of_a_config() {
    let cfg = SandboxConfig {
        time_limit_ms: 2500,
        max_output_bytes: 1024,
        vm_limit_bytes: Some(1 << 30),
        nproc_limit: None,
        enable_seccomp: true,
    };
    let r = rlimits_for(&cfg);
    assert_eq!((r.cpu_soft_secs, r.cpu_hard_secs), (3, 4));
    assert_eq!(r.address_space_bytes, Some(1 << 30));
    assert_eq!(r.stack_bytes, 64 * 1024 * 1024);
    assert_eq!(r.file_size_bytes, 16 * 1024 * 1024);
    assert_eq!(r.nproc, None);
    let short = SandboxConfig { time_limit_ms: 500, ..cfg };
    let r = rlimits_for(&short);
    assert_eq!((r.cpu_soft_secs, r.cpu_hard_secs), (2, 3));
}

#[test]
fn supervisor_waits_until_the_deadline() {
    assert_eq!(wait_step(WaitPoll::Running, 2099 * MS, 2000), WaitAction::PollAgain);
    assert_eq!(wait_step(WaitPoll::Running, 2100 * MS, 2000), WaitAction::KillAndReap);
    assert_eq!(wait_step(WaitPoll::Ended(ChildExit::Exited(0)), 0, 2000), WaitAction::Collect(Some(ChildExit::Exited(0))));
    assert_eq!(wait_step(WaitPoll::Failed, 0, 2000), WaitAction::Collect(None));
}

#[test]
fn memory_from_cgroup_or_rusage() {
    assert_eq!(memory_used_bytes(Some(12345), 999), 12345);
    assert_eq!(memory_used_bytes(None, 2), 2048);
    assert_eq!(memory_used_bytes(None, u64::MAX), u64::MAX);
    assert_eq!(parse_memory_peak(" 4096\n"), Some(4096));
    assert_eq!(parse_memory_peak("max"), None);
}

#[test]
fn parse_u64_like_std() {
    for s in ["0", "+7", "18446744073709551615", "18446744073709551616", "", "+", "-1", "1 2", "12a", "007"] {
        assert_eq!(parse_u64(s), s.parse::<u64>().ok(), "input {s:?}");
    }
}

#[test]
fn output_is_capped() {
    let mut out = Vec::new();
    append_capped(&mut out, b"hello", 8);
    append_capped(&mut out, b"world", 8);
    assert_eq!(out, b"hellowor".to_vec());
    append_capped(&mut out, b"!!", 8);
    assert_eq!(out, b"hellowor".to_vec());
    let mut big = b"0123456789".to_vec();
    append_capped(&mut big, b"x", 4);
    assert_eq!(big, b"0123456789".to_vec());
}

#[test]
fn run_result_keeps_what_was_collected() {
    let r = run_result(b"out".to_vec(), b"err".to_vec(), false, 5 * MS, 1000, Some(ChildExit::Exited(1)), 4096);
    assert_eq!(r.stdout, b"out".to_vec());
    assert_eq!(r.stderr, b"err".to_vec());
    assert_eq!(r.exit_code, Some(1));
    assert_eq!(r.status, RunStatus::RuntimeError);
    assert_eq!(r.wall_time_used_ns, 5 * MS);
    assert_eq!(r.memory_used_bytes, 4096);
}

#[test]
fn cgroup_helpers() {
    assert!(has_memory_controller("cpuset cpu io memory pids\n"));
    assert!(!has_memory_controller("cpuset cpu io memory_x pids"));
    assert_eq!(cgroup_run_dir_name(42, 7), "run-42-7");
}

#[test]
fn compile_plans() {
    assert!(matches!(compile_plan(Language::Text, "/w/solution.txt", "/w/solution"), CompilePlan::Cat));
    match compile_plan(Language::PyPy, "/w/solution.py", "/w/solution") {
        CompilePlan::SyntaxCheck { interpreter, args, timeout_secs } => {
            assert_eq!(interpreter, "pypy3");
            assert_eq!(args, vec!["-m", "py_compile", "/w/solution.py"]);
            assert_eq!(timeout_secs, 10);
        }
        _ => panic!("expected a syntax check"),
    }
    match compile_plan(Language::Java, "/w/Main.java", "/w/solution") {
        CompilePlan::Build { compiler, args, timeout_secs, in_work_dir } => {
            assert_eq!(compiler, "javac");
            assert_eq!(args, vec!["-encoding", "UTF-8", "/w/Main.java"]);
            assert_eq!(timeout_secs, 30);
            assert!(in_work_dir);
        }
        _ => panic!("expected a build"),
    }
    match compile_plan(Language::Cpp, "/w/solution.cpp", "/w/solution") {
        CompilePlan::Build { compiler, args, in_work_dir, .. } => {
            assert_eq!(compiler, "g++");
            assert_eq!(args, vec!["/w/solution.cpp", "-o", "/w/solution", "-O2", "-std=c++17"]);
            assert!(!in_work_dir);
        }
        _ => panic!("expected a build"),
    }
}

#[test]
fn tool_outcomes() {
    assert_eq!(
        syntax_check_result(ToolOutcome::TimedOut),
        (Some("構文チェックがタイムアウトしました".to_string()), String::new())
    );
    assert_eq!(
        syntax_check_result(ToolOutcome::SpawnFailed("no such file".to_string())),
        (Some("インタプリタの起動に失敗しました: no such file".to_string()), String::new())
    );
    assert_eq!(
        syntax_check_result(ToolOutcome::Finished { success: true, stderr: "warn".to_string() }),
        (None, "warn".to_string())
    );
    assert_eq!(
        syntax_check_result(ToolOutcome::Finished { success: false, stderr: "SyntaxError".to_string() }),
        (Some("SyntaxError".to_string()), String::new())
    );
    assert_eq!(build_result(ToolOutcome::TimedOut), Err("コンパイルが30秒でタイムアウトしました".to_string()));
    assert_eq!(
        build_result(ToolOutcome::SpawnFailed("boom".to_string())),
        Err("コンパイラの起動に失敗しました: boom".to_string())
    );
    assert_eq!(
        build_result(ToolOutcome::Finished { success: false, stderr: "error: x".to_string() }),
        Ok((Some("error: x".to_string()), String::new()))
    );
}

#[test]
fn compile_outputs_run_arguments() {
    let py = compile_output(Language::Python, "/usr/bin/python3".to_string(), "/w/solution.py", "/w", None, String::new());
    assert_eq!(py.run_args, vec!["/w/solution.py"]);
    let java = compile_output(Language::Java, "/usr/bin/java".to_string(), "/w/Main.java", "/w", None, "note".to_string());
    assert_eq!(java.run_args, vec!["-cp", "/w", "Main"]);
    assert_eq!(java.warnings, "note");
    let java_ce = compile_output(Language::Java, "/usr/bin/java".to_string(), "/w/Main.java", "/w", Some("err".to_string()), String::new());
    assert!(java_ce.run_args.is_empty());
    assert_eq!(java_ce.error.as_deref(), Some("err"));
    let cpp = compile_output(Language::Cpp, "/w/solution".to_string(), "/w/solution.cpp", "/w", None, String::new());
    assert!(cpp.run_args.is_empty());
    assert_eq!(cpp.executable, "/w/solution");
}

#[test]
fn syscall_allow_list() {
    let names = allowed_syscalls();
    assert_eq!(names.len(), 55);
    assert_eq!(names[0], "read");
    assert_eq!(names[54], "ioctl");
    assert!(names.contains(&"execve"));
    assert!(!names.contains(&"fork"));
    assert_eq!(filter_rules(vec![Some(0), None, Some(1), None]), vec![0, 1]);
}
