use mikan_judge::types::{
    parse_version, Contest, ContestStatus, JudgeStatus, JudgeType, Language, LanguageVersions,
};

const ALL: [Language; 7] = [
    Language::Cpp,
    Language::Rust,
    Language::Python,
    Language::PyPy,
    Language::Java,
    Language::Go,
    Language::Text,
];

#[test]
fn language_db_names_round_trip() {
    for l in ALL {
        assert_eq!(Language::from_db(l.to_db()), l);
    }
    assert_eq!(Language::Cpp.to_db(), "cpp");
    assert_eq!(Language::PyPy.to_db(), "pypy");
    assert_eq!(Language::from_db("brainfuck"), Language::Cpp);
}

#[test]
fn language_kinds() {
    assert!(Language::Python.is_interpreted());
    assert!(!Language::Java.is_interpreted());
    assert!(Language::Java.needs_unlimited_vm());
    assert!(!Language::Cpp.needs_unlimited_vm());
    assert!(Language::Text.needs_relaxed_seccomp());
    assert!(!Language::Rust.needs_relaxed_seccomp());
    assert!(Language::Go.needs_relaxed_nproc());
    assert!(!Language::Python.needs_relaxed_nproc());
}

#[test]
fn language_files_and_tools() {
    assert_eq!(Language::Java.source_file_name(), "Main.java");
    assert_eq!(Language::PyPy.source_file_name(), "solution.py");
    assert_eq!(Language::Text.source_file_name(), "solution.txt");
    assert_eq!(Language::Python.interpreter(), "python3");
    assert_eq!(Language::PyPy.interpreter(), "pypy3");
    assert_eq!(Language::Cpp.compiler(), "g++");
    assert_eq!(Language::Go.compiler(), "go");
    assert_eq!(
        Language::Cpp.compile_args("a.cpp", "a.out"),
        vec!["a.cpp", "-o", "a.out", "-O2", "-std=c++17"]
    );
    assert_eq!(
        Language::Rust.compile_args("a.rs", "a"),
        vec!["a.rs", "-o", "a", "-C", "opt-level=2"]
    );
    assert_eq!(Language::Java.compile_args("Main.java", ""), vec!["-encoding", "UTF-8", "Main.java"]);
    assert_eq!(Language::Go.compile_args("a.go", "a"), vec!["build", "-o", "a", "a.go"]);
}

#[test]
fn display_names_carry_versions() {
    let v = LanguageVersions {
        cpp: "14.2.0".to_string(),
        rust: "1.82.0".to_string(),
        python: "3.13.1".to_string(),
        pypy: "7.3.21".to_string(),
        java: "21.0.8".to_string(),
        go: "1.24.2".to_string(),
        text: "9.7".to_string(),
    };
    assert_eq!(Language::Cpp.display_name_versioned(&v), "C++17 (GCC 14.2.0)");
    assert_eq!(Language::Python.display_name_versioned(&v), "Python (CPython 3.13.1)");
    assert_eq!(Language::Java.display_name_versioned(&v), "Java (OpenJDK 21.0.8)");
    assert_eq!(Language::Go.display_name_versioned(&v), "Go (1.24.2)");
}

#[test]
fn versions_from_tool_output() {
    assert_eq!(parse_version("python3", "Python 3.13.1"), "3.13.1");
    assert_eq!(
        parse_version("pypy3", "Python 3.11.15 (1234, Jan 01 2025)\n[PyPy 7.3.21 with GCC 13.2.0]"),
        "7.3.21"
    );
    assert_eq!(parse_version("rustc", "rustc 1.82.0 (f6e511eec 2024-10-15)"), "1.82.0");
    assert_eq!(parse_version("javac", "javac 21.0.8"), "21.0.8");
    assert_eq!(parse_version("go", "go version go1.24.2 darwin/arm64"), "1.24.2");
    assert_eq!(parse_version("cat", "cat (GNU coreutils) 9.7\nCopyright"), "9.7");
    assert_eq!(parse_version("g++", "g++ (GCC) 14.2.0\nCopyright"), "14.2.0");
}

#[test]
fn versions_fall_back_on_short_output() {
    assert_eq!(parse_version("python3", "  Python  \n"), "Python");
    assert_eq!(parse_version("pypy3", " Python 3.11 \nno marker"), "Python 3.11");
    assert_eq!(parse_version("unknown-tool", "  v1.0  \nrest"), "v1.0");
}

#[test]
fn judge_type_db_names() {
    assert_eq!(JudgeType::from_db("heuristic"), JudgeType::Heuristic);
    assert_eq!(JudgeType::from_db("exact"), JudgeType::Exact);
    assert_eq!(JudgeType::from_db("other"), JudgeType::Exact);
    assert_eq!(JudgeType::Heuristic.to_db(), "heuristic");
}

#[test]
fn judge_status_db_names() {
    let cases = vec![
        (JudgeStatus::Pending, "pending"),
        (JudgeStatus::Running, "running"),
        (JudgeStatus::Accepted, "accepted"),
        (JudgeStatus::WrongAnswer, "wrong_answer"),
        (JudgeStatus::TimeLimitExceeded, "time_limit_exceeded"),
        (JudgeStatus::MemoryLimitExceeded, "memory_limit_exceeded"),
        (JudgeStatus::RuntimeError { exit_code: 3 }, "runtime_error"),
        (JudgeStatus::CompileError { message: "x".to_string() }, "compile_error"),
        (JudgeStatus::InternalError { message: "y".to_string() }, "internal_error"),
        (JudgeStatus::Scored, "scored"),
    ];
    for (st, name) in cases {
        assert_eq!(st.to_db(), name);
        assert_eq!(JudgeStatus::from_db(name).to_db(), name);
    }
    assert!(matches!(JudgeStatus::from_db("runtime_error"), JudgeStatus::RuntimeError { exit_code: -1 }));
    assert!(matches!(JudgeStatus::from_db("garbage"), JudgeStatus::Pending));
}

#[test]
fn contest_status_labels() {
    assert_eq!(ContestStatus::Upcoming.label(), "予定");
    assert_eq!(ContestStatus::Ongoing.label(), "開催中");
    assert_eq!(ContestStatus::Past.label(), "終了");
    assert_eq!(ContestStatus::Upcoming.badge_class(), "pending");
    assert_eq!(ContestStatus::Ongoing.badge_class(), "ac");
    assert_eq!(ContestStatus::Past.badge_class(), "ce");
}

#[test]
fn contest_status_follows_the_clock_of_the_schedule() {
    let c = Contest {
        id: "c".to_string(),
        title: "t".to_string(),
        description: String::new(),
        start_time: 1_000,
        end_time: 2_000,
        judge_type: JudgeType::Exact,
    };
    // The clock is read in nanoseconds; the times are microseconds.
    assert_eq!(c.status_at(999_999), ContestStatus::Upcoming);
    assert_eq!(c.status_at(1_000_000), ContestStatus::Ongoing);
    assert_eq!(c.status_at(2_000_000), ContestStatus::Ongoing);
    assert_eq!(c.status_at(2_000_001), ContestStatus::Past);
    // A contest long over is past whenever the clock is read.
    assert_eq!(c.status(), ContestStatus::Past);
}
