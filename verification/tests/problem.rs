use mikan_judge::problem::{
    build_problem, default_memory_limit, default_score, default_time_limit, sort_names,
    testcase_files, ProblemMeta, Testcase,
};

fn meta() -> ProblemMeta {
    ProblemMeta { title: "A+B Problem".to_string(), time_limit_ms: 2000, memory_limit_kb: 131072, score: 100 }
}

#[test]
fn meta_defaults() {
    assert_eq!(default_time_limit(), 2000);
    assert_eq!(default_memory_limit(), 262144);
    assert_eq!(default_score(), 100);
}

#[test]
fn problem_is_built_with_rendered_statement() {
    let cases = vec![Testcase { input: "1 2\n".to_string(), expected: "3\n".to_string() }];
    let p = build_problem("aplusb", meta(), "# A+B\n\n| a | b |\n|---|---|\n| 1 | 2 |\n\n~~x~~", cases, None).unwrap();
    assert_eq!(p.id, "aplusb");
    assert_eq!(p.title, "A+B Problem");
    assert_eq!(p.time_limit_ms, 2000);
    assert_eq!(p.memory_limit_kb, 131072);
    assert_eq!(p.score, 100);
    assert_eq!(p.testcases.len(), 1);
    assert!(p.html_content.starts_with("<h1>A+B</h1>"));
    assert!(p.html_content.contains("<table>"));
    assert!(p.html_content.contains("<del>x</del>"));
    assert!(p.scorer_path.is_none());
}

#[test]
fn problem_without_testcases_is_refused() {
    let r = build_problem("empty", meta(), "text", Vec::new(), None);
    assert_eq!(r.err(), Some("problem 'empty' has no test cases".to_string()));
}

#[test]
fn names_sort_in_code_point_order() {
    let names: Vec<String> = ["b", "a10", "a2", "B", ""].iter().map(|s| s.to_string()).collect();
    assert_eq!(sort_names(names), vec!["", "B", "a10", "a2", "b"]);
}

#[test]
fn testcase_files_pair_inputs_with_outputs() {
    let names: Vec<String> = ["02.in", "01.out", "01.in", "02.out", ".in", "notes.txt", "x.in.bak", "a.b.in"]
        .iter()
        .map(|s| s.to_string())
        .collect();
    let pairs = testcase_files(names);
    assert_eq!(
        pairs,
        vec![
            ("01.in".to_string(), "01.out".to_string()),
            ("02.in".to_string(), "02.out".to_string()),
            ("a.b.in".to_string(), "a.b.out".to_string()),
        ]
    );
}
