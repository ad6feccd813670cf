use mikan_judge::schedule::{group_contests, list_grouped};
use mikan_judge::types::{Contest, JudgeType};

fn make_contest(id: &str, start: i64, end: i64) -> Contest {
    Contest {
        id: id.to_string(),
        title: id.to_uppercase(),
        description: String::new(),
        start_time: start,
        end_time: end,
        judge_type: JudgeType::Exact,
    }
}

fn ids(cs: &[Contest]) -> Vec<String> {
    cs.iter().map(|c| c.id.clone()).collect()
}

#[test]
fn contests_are_grouped_by_status_at_an_instant() {
    // Newest start first, as the contest table is read.
    let all = vec![
        make_contest("later", 900, 950),
        make_contest("soon", 600, 700),
        make_contest("running2", 400, 600),
        make_contest("running1", 300, 500),
        make_contest("old2", 200, 250),
        make_contest("old1", 100, 150),
    ];
    let lists = group_contests(all, 450_000);
    assert_eq!(ids(&lists.ongoing), vec!["running2", "running1"]);
    assert_eq!(ids(&lists.upcoming), vec!["soon", "later"]);
    assert_eq!(ids(&lists.past), vec!["old2", "old1"]);
}

#[test]
fn contest_end_instant_is_still_ongoing() {
    let lists = group_contests(vec![make_contest("c", 10, 20)], 20_000);
    assert_eq!(ids(&lists.ongoing), vec!["c"]);
    let lists = group_contests(vec![make_contest("c", 10, 20)], 20_001);
    assert_eq!(ids(&lists.past), vec!["c"]);
    let lists = group_contests(vec![make_contest("c", 10, 20)], 9_999);
    assert_eq!(ids(&lists.upcoming), vec!["c"]);
}

#[test]
fn grouping_by_the_clock_keeps_every_contest() {
    let all = vec![make_contest("past", 0, 1), make_contest("far", i64::MAX - 1, i64::MAX)];
    let lists = list_grouped(all);
    assert_eq!(ids(&lists.past), vec!["past"]);
    assert_eq!(ids(&lists.upcoming), vec!["far"]);
    assert!(lists.ongoing.is_empty());
}

#[test]
fn upcoming_contests_starting_together_keep_their_order() {
    let all = vec![make_contest("b", 500, 600), make_contest("a", 500, 700), make_contest("c", 400, 450)];
    let lists = group_contests(all, 0);
    assert_eq!(ids(&lists.upcoming), vec!["c", "b", "a"]);
}

#[test]
fn every_contest_is_listed_once() {
    let all = vec![make_contest("a", 0, 10), make_contest("b", 5, 15), make_contest("c", 20, 30), make_contest("d", 1, 2)];
    let lists = group_contests(all, 12_000);
    let mut seen: Vec<String> = ids(&lists.ongoing);
    seen.extend(ids(&lists.upcoming));
    seen.extend(ids(&lists.past));
    seen.sort();
    assert_eq!(seen, vec!["a", "b", "c", "d"]);
    assert_eq!(ids(&lists.past), vec!["a", "d"]);
}
