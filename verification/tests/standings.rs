use mikan_judge::api::standings::{elapsed_seconds, exact_standings, fmt_elapsed, standings_totals_fit, FirstAc, StandingProblem};

const START: i64 = 1_000_000_000_000;
const MIN: i64 = 60_000_000;

fn ac(user_id: u128, name: &str, problem: &str, minutes: i64) -> FirstAc {
    FirstAc {
        user_id,
        username: name.to_string(),
        problem_id: problem.to_string(),
        first_ac_at: START + minutes * MIN,
    }
}

fn problems() -> Vec<StandingProblem> {
    vec![
        StandingProblem { problem_id: "a".to_string(), label: "A".to_string(), score: Some(100) },
        StandingProblem { problem_id: "b".to_string(), label: "B".to_string(), score: Some(200) },
        StandingProblem { problem_id: "c".to_string(), label: "C".to_string(), score: None },
    ]
}

#[test]
fn elapsed_time_text() {
    assert_eq!(elapsed_seconds(START + 61 * MIN + 5_000_000, START), 3665);
    assert_eq!(elapsed_seconds(START - 1, START), 0);
    assert_eq!(fmt_elapsed(3665), "1:01:05");
    assert_eq!(fmt_elapsed(59), "0:00:59");
    assert_eq!(fmt_elapsed(36000), "10:00:00");
}

#[test]
fn standings_order_by_score_then_time() {
    let rows = vec![
        ac(3, "carol", "a", 5),
        ac(1, "alice", "a", 10),
        ac(2, "bob", "b", 20),
        ac(1, "alice", "b", 30),
    ];
    let out = exact_standings(&rows, &problems(), START);
    let order: Vec<(usize, u128, String)> = out.iter().map(|r| (r.rank, r.user_id, r.total_score.clone())).collect();
    assert_eq!(
        order,
        vec![(1, 1, "300".to_string()), (2, 2, "200".to_string()), (3, 3, "100".to_string())]
    );
    let alice = &out[0];
    assert_eq!(alice.username, "alice");
    assert_eq!(alice.elapsed_from_start.as_deref(), Some("0:30:00"));
    assert_eq!(alice.problems.len(), 3);
    assert_eq!(alice.problems[0].label, "A");
    assert_eq!(alice.problems[0].ac_time.as_deref(), Some("0:10:00"));
    assert_eq!(alice.problems[0].score, "100");
    assert!(alice.problems[0].has_result);
    assert_eq!(alice.problems[2].ac_time, None);
    assert_eq!(alice.problems[2].score, "");
    assert!(!alice.problems[2].has_result);
}

#[test]
fn standings_tie_shares_rank() {
    let rows = vec![
        ac(1, "alice", "b", 20),
        ac(2, "bob", "b", 20),
        ac(3, "carol", "a", 1),
    ];
    let out = exact_standings(&rows, &problems(), START);
    let ranks: Vec<usize> = out.iter().map(|r| r.rank).collect();
    assert_eq!(ranks, vec![1, 1, 3]);
    assert_eq!(out[2].user_id, 3);
}

#[test]
fn standings_earlier_last_accept_ranks_higher() {
    let rows = vec![ac(1, "alice", "a", 50), ac(2, "bob", "a", 40)];
    let out = exact_standings(&rows, &problems(), START);
    assert_eq!(out[0].user_id, 2);
    assert_eq!(out[0].rank, 1);
    assert_eq!(out[1].rank, 2);
}

#[test]
fn standings_of_no_submission_are_empty() {
    assert!(exact_standings(&Vec::new(), &problems(), START).is_empty());
}

#[test]
fn totals_fit_per_user() {
    let big = vec![
        StandingProblem { problem_id: "a".to_string(), label: "A".to_string(), score: Some(u64::MAX) },
        StandingProblem { problem_id: "b".to_string(), label: "B".to_string(), score: Some(u64::MAX) },
    ];
    // The scores sum past u64::MAX, but each user solved one problem.
    let rows = vec![ac(1, "alice", "a", 1), ac(2, "bob", "b", 2)];
    assert!(standings_totals_fit(&rows, &big));
    let out = exact_standings(&rows, &big, START);
    assert_eq!(out[0].total_score, u64::MAX.to_string());
    let both = vec![ac(1, "alice", "a", 1), ac(1, "alice", "b", 2)];
    assert!(!standings_totals_fit(&both, &big));
}
