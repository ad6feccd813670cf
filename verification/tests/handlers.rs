use mikan_judge::api::handlers::{
    build_lang_labels, build_language_guide_items, build_pagination, check_password_change,
    chosen_default_language, clamp_page, contest_item_at, contest_to_admin_form,
    admin_contest_item_at, cooldown_remaining_ms, deletion_confirmed, fmt_datetime_local_jst,
    fmt_jst, hash_password, submission_list_page, problem_label_or_id, problem_title_or_id, submit_gate, submission_list_restricted, SubmitGate, score_text, submission_detail_url, is_valid_contest_id, login_password_ok, page_bounds, page_count,
    parse_judge_type, parse_jst_datetime_local, source_code_too_large, submission_hidden,
    submit_cooldown, tc_summary_from_verdicts, validate_admin_contest_form,
    validate_admin_contest_problem_form, validate_password_change, validate_registration,
    verdict_info, AdminContestForm, AdminContestProblemForm, AuthForm, ChangePasswordForm,
    DeleteAccountForm, SettingsForm, MAX_SOURCE_CODE_BYTES,
};
use mikan_judge::types::{Contest, ContestProblem, ContestStatus, JudgeStatus, JudgeType, LanguageVersions};

const START_2026_05_14_21_00_JST: i64 = 1778760000000000;
const END_2026_05_14_23_00_JST: i64 = 1778767200000000;

fn form(start: &str, end: &str, judge: &str) -> AdminContestForm {
    AdminContestForm {
        id: "abc001".to_string(),
        title: "ABC001".to_string(),
        description: "test contest".to_string(),
        start_time: start.to_string(),
        end_time: end.to_string(),
        judge_type: judge.to_string(),
    }
}

fn versions() -> LanguageVersions {
    LanguageVersions {
        cpp: "14.2.0".to_string(),
        rust: "1.82.0".to_string(),
        python: "3.13.1".to_string(),
        pypy: "7.3.21".to_string(),
        java: "21.0.8".to_string(),
        go: "1.24.2".to_string(),
        text: "9.7".to_string(),
    }
}

fn contest() -> Contest {
    Contest {
        id: "abc001".to_string(),
        title: "ABC001".to_string(),
        description: "test contest".to_string(),
        start_time: START_2026_05_14_21_00_JST,
        end_time: END_2026_05_14_23_00_JST,
        judge_type: JudgeType::Exact,
    }
}

#[test]
fn source_code_size_limit_allows_exactly_512_kib() {
    let source = "a".repeat(MAX_SOURCE_CODE_BYTES);
    assert!(!source_code_too_large(&source));
}

#[test]
fn source_code_size_limit_rejects_more_than_512_kib() {
    let source = "a".repeat(MAX_SOURCE_CODE_BYTES + 1);
    assert!(source_code_too_large(&source));
}

#[test]
fn source_code_size_counts_utf8_bytes() {
    // 'あ' takes three bytes in UTF-8.
    let fits = "あ".repeat(MAX_SOURCE_CODE_BYTES / 3);
    assert!(!source_code_too_large(&fits));
    let over = "あ".repeat(MAX_SOURCE_CODE_BYTES / 3 + 1);
    assert!(source_code_too_large(&over));
}

#[test]
fn contest_id_allows_url_safe_ascii() {
    assert!(is_valid_contest_id("abc001"));
    assert!(is_valid_contest_id("abc-001_alpha"));
}

#[test]
fn contest_id_rejects_empty_or_unsafe_chars() {
    assert!(!is_valid_contest_id(""));
    assert!(!is_valid_contest_id("abc/001"));
    assert!(!is_valid_contest_id("abc 001"));
}

#[test]
fn contest_id_length_limit_is_64() {
    assert!(is_valid_contest_id(&"a".repeat(64)));
    assert!(!is_valid_contest_id(&"a".repeat(65)));
    assert!(!is_valid_contest_id("コンテスト"));
}

#[test]
fn contest_form_requires_end_after_start() {
    let form = AdminContestForm {
        id: "abc001".to_string(),
        title: "ABC001".to_string(),
        description: String::new(),
        start_time: "2026-05-14T21:00".to_string(),
        end_time: "2026-05-14T21:00".to_string(),
        judge_type: "exact".to_string(),
    };
    assert!(validate_admin_contest_form(&form).is_err());
}

#[test]
fn contest_form_accepts_valid_exact_contest() {
    let form = AdminContestForm {
        id: "abc001".to_string(),
        title: "ABC001".to_string(),
        description: "test contest".to_string(),
        start_time: "2026-05-14T21:00".to_string(),
        end_time: "2026-05-14T23:00".to_string(),
        judge_type: "exact".to_string(),
    };
    assert!(validate_admin_contest_form(&form).is_ok());
}

#[test]
fn contest_form_builds_the_contest_in_jst() {
    let mut f = form(" 2026-05-14T21:00 ", "2026-05-14T23:00:00", " heuristic ");
    f.title = "  ABC001  ".to_string();
    let c = validate_admin_contest_form(&f).unwrap();
    assert_eq!(c.id, "abc001");
    assert_eq!(c.title, "ABC001");
    assert_eq!(c.description, "test contest");
    assert_eq!(c.start_time, START_2026_05_14_21_00_JST);
    assert_eq!(c.end_time, END_2026_05_14_23_00_JST);
    assert_eq!(c.judge_type, JudgeType::Heuristic);
}

#[test]
fn contest_form_reports_each_error_in_order() {
    let mut f = form("2026-05-14T21:00", "2026-05-14T23:00", "exact");
    f.id = "abc/001".to_string();
    assert_eq!(
        validate_admin_contest_form(&f).unwrap_err(),
        "IDは1〜64文字の英数字・_・-で入力してください"
    );
    let mut f = form("2026-05-14T21:00", "2026-05-14T23:00", "exact");
    f.title = "   ".to_string();
    assert_eq!(validate_admin_contest_form(&f).unwrap_err(), "タイトルを入力してください");
    let f = form("not a time", "2026-05-14T23:00", "exact");
    assert_eq!(validate_admin_contest_form(&f).unwrap_err(), "開始時刻を正しく入力してください");
    let f = form("2026-05-14T21:00", "", "exact");
    assert_eq!(validate_admin_contest_form(&f).unwrap_err(), "終了時刻を正しく入力してください");
    let f = form("2026-05-14T23:00", "2026-05-14T21:00", "exact");
    assert_eq!(
        validate_admin_contest_form(&f).unwrap_err(),
        "終了時刻は開始時刻より後にしてください"
    );
    let f = form("2026-05-14T21:00", "2026-05-14T23:00", "fast");
    assert_eq!(
        validate_admin_contest_form(&f).unwrap_err(),
        "ジャッジ種別を正しく選択してください"
    );
}

#[test]
fn judge_type_names() {
    assert_eq!(parse_judge_type("exact"), Some(JudgeType::Exact));
    assert_eq!(parse_judge_type("heuristic"), Some(JudgeType::Heuristic));
    assert_eq!(parse_judge_type("Exact"), None);
}

#[test]
fn jst_datetime_local_parses_minutes_and_seconds() {
    assert_eq!(parse_jst_datetime_local("2026-05-14T21:00"), Some((START_2026_05_14_21_00_JST / 1_000_000, 0)));
    assert_eq!(
        parse_jst_datetime_local("2026-05-14T21:00:30"),
        Some((START_2026_05_14_21_00_JST / 1_000_000 + 30, 0))
    );
    assert_eq!(parse_jst_datetime_local("2026-05-14 21:00"), None);
}

#[test]
fn jst_formats() {
    assert_eq!(fmt_jst(START_2026_05_14_21_00_JST), "2026/05/14 21:00");
    assert_eq!(fmt_datetime_local_jst(END_2026_05_14_23_00_JST), "2026-05-14T23:00");
}

#[test]
fn admin_form_of_a_contest_reads_back_to_it() {
    let c = contest();
    let f = contest_to_admin_form(&c);
    assert_eq!(f.start_time, "2026-05-14T21:00");
    assert_eq!(f.judge_type, "exact");
    let back = validate_admin_contest_form(&f).unwrap();
    assert_eq!(back.start_time, c.start_time);
    assert_eq!(back.end_time, c.end_time);
    assert_eq!(back.id, c.id);
}

#[test]
fn contest_items_show_status_at_an_instant() {
    let c = contest();
    let before = contest_item_at(&c, START_2026_05_14_21_00_JST as i128 * 1000 - 1);
    assert_eq!(before.status_label, "予定");
    let during = contest_item_at(&c, END_2026_05_14_23_00_JST as i128 * 1000);
    assert_eq!(during.status_label, "開催中");
    assert_eq!(during.start_time, "2026/05/14 21:00");
    assert_eq!(during.end_time, "2026/05/14 23:00");
    let after = admin_contest_item_at(&c, END_2026_05_14_23_00_JST as i128 * 1000 + 1);
    assert_eq!(after.status_label, "終了");
    assert_eq!(after.judge_type, "通常");
    assert_eq!(after.edit_url, "/admin/contests/abc001/edit");
    assert_eq!(after.problems_url, "/admin/contests/abc001/problems");
}

#[test]
fn pagination_small_lists_every_page() {
    assert_eq!(build_pagination(1, 1), vec![1]);
    assert_eq!(build_pagination(3, 7), vec![1, 2, 3, 4, 5, 6, 7]);
}

#[test]
fn pagination_elides_far_pages() {
    assert_eq!(build_pagination(1, 20), vec![1, 2, 3, 0, 20]);
    assert_eq!(build_pagination(10, 20), vec![1, 0, 8, 9, 10, 11, 12, 0, 20]);
    assert_eq!(build_pagination(20, 20), vec![1, 0, 18, 19, 20]);
}

#[test]
fn page_numbers_are_clamped() {
    assert_eq!(page_count(0), 1);
    assert_eq!(page_count(20), 1);
    assert_eq!(page_count(21), 2);
    assert_eq!(clamp_page(None, 3), 1);
    assert_eq!(clamp_page(Some(-4), 3), 1);
    assert_eq!(clamp_page(Some(9), 3), 3);
    assert_eq!(page_bounds(2, 25), (20, 25));
    assert_eq!(page_bounds(1, 25), (0, 20));
}

#[test]
fn verdict_display_of_each_status() {
    assert_eq!(verdict_info(&JudgeStatus::Pending), ("待機中", "pending", true));
    assert_eq!(verdict_info(&JudgeStatus::Running), ("ジャッジ中...", "running", true));
    assert_eq!(verdict_info(&JudgeStatus::Accepted), ("AC", "ac", false));
    assert_eq!(verdict_info(&JudgeStatus::RuntimeError { exit_code: 1 }), ("RE", "re", false));
    assert_eq!(
        verdict_info(&JudgeStatus::InternalError { message: String::new() }),
        ("IE", "ce", false)
    );
    assert_eq!(verdict_info(&JudgeStatus::Scored), ("Scored", "ac", false));
}

#[test]
fn testcase_summary_counts_passed_cases() {
    let v: Vec<String> = vec!["AC".to_string(), "WA".to_string(), "SCORED".to_string(), "TLE".to_string()];
    assert_eq!(tc_summary_from_verdicts(&v), "2/4");
    assert_eq!(tc_summary_from_verdicts(&Vec::new()), "0/0");
}

#[test]
fn cooldowns_by_judge_type() {
    assert_eq!(submit_cooldown(JudgeType::Exact), ("last_submit_at", 5000));
    assert_eq!(submit_cooldown(JudgeType::Heuristic), ("last_heuristic_submit_at", 300000));
    assert_eq!(cooldown_remaining_ms(10_000, 8_000, 5000), 3000);
    assert_eq!(cooldown_remaining_ms(13_000, 8_000, 5000), 0);
}

#[test]
fn registration_checks_trimmed_lengths() {
    let ok = validate_registration(&AuthForm { username: " alice ".to_string(), password: " secret ".to_string() });
    assert_eq!(ok, Ok(("alice".to_string(), "secret".to_string())));
    let short_name = validate_registration(&AuthForm { username: "al".to_string(), password: "secret".to_string() });
    assert_eq!(short_name, Err("ユーザ名は3〜20文字にしてください"));
    let short_pw = validate_registration(&AuthForm { username: "alice".to_string(), password: "12345".to_string() });
    assert_eq!(short_pw, Err("パスワードは6文字以上にしてください"));
}

#[test]
fn password_hash_is_accepted_when_logging_in() {
    let hash = hash_password("secret").unwrap();
    assert!(login_password_ok(&AuthForm { username: "alice".to_string(), password: "  secret ".to_string() }, &hash));
    assert!(!login_password_ok(&AuthForm { username: "alice".to_string(), password: "secreT".to_string() }, &hash));
    assert!(!login_password_ok(&AuthForm { username: "alice".to_string(), password: "secret".to_string() }, "not a hash"));
    assert!(deletion_confirmed(&DeleteAccountForm { password: "secret".to_string() }, &hash));
    assert!(!deletion_confirmed(&DeleteAccountForm { password: "other".to_string() }, &hash));
}

#[test]
fn password_change_checks_current_and_new() {
    let hash = hash_password("secret").unwrap();
    let wrong = ChangePasswordForm { current_password: "nope".to_string(), new_password: "newsecret".to_string() };
    assert_eq!(check_password_change(&wrong, &hash), Err("現在のパスワードが違います"));
    let short = ChangePasswordForm { current_password: "secret".to_string(), new_password: " 12345 ".to_string() };
    assert_eq!(check_password_change(&short, &hash), Err("新しいパスワードは6文字以上にしてください"));
    let good = ChangePasswordForm { current_password: "secret".to_string(), new_password: " newsecret ".to_string() };
    assert_eq!(check_password_change(&good, &hash), Ok("newsecret".to_string()));
    assert_eq!(validate_password_change(&good, false), Err("現在のパスワードが違います"));
}

#[test]
fn default_language_choice() {
    assert_eq!(chosen_default_language(&SettingsForm { default_language: Some("rust".to_string()) }), Some("rust"));
    assert_eq!(chosen_default_language(&SettingsForm { default_language: Some(String::new()) }), None);
    assert_eq!(chosen_default_language(&SettingsForm { default_language: None }), None);
}

#[test]
fn contest_problem_form_checks() {
    let f = AdminContestProblemForm { problem_id: " aplusb ".to_string(), label: " A ".to_string(), display_order: 1 };
    assert_eq!(
        validate_admin_contest_problem_form(&f, true),
        Ok(("aplusb".to_string(), "A".to_string(), 1))
    );
    assert_eq!(validate_admin_contest_problem_form(&f, false), Err("選択した問題が見つかりません".to_string()));
    let no_id = AdminContestProblemForm { problem_id: " ".to_string(), label: "A".to_string(), display_order: 1 };
    assert_eq!(validate_admin_contest_problem_form(&no_id, true), Err("問題を選択してください".to_string()));
    let no_label = AdminContestProblemForm { problem_id: "aplusb".to_string(), label: String::new(), display_order: 2 };
    assert_eq!(validate_admin_contest_problem_form(&no_label, true), Err("ラベルを入力してください".to_string()));
}

#[test]
fn ongoing_submissions_are_hidden_from_others() {
    assert!(submission_hidden(ContestStatus::Ongoing, Some(1), Some(2)));
    assert!(submission_hidden(ContestStatus::Ongoing, Some(1), None));
    assert!(!submission_hidden(ContestStatus::Ongoing, Some(1), Some(1)));
    assert!(!submission_hidden(ContestStatus::Past, Some(1), Some(2)));
}

#[test]
fn language_labels_and_guide() {
    let v = versions();
    let labels = build_lang_labels(&v);
    assert_eq!(labels.len(), 7);
    assert_eq!(labels[0], ("cpp", "C++17 (GCC 14.2.0)".to_string()));
    assert_eq!(labels[3], ("pypy", "Python (PyPy 7.3.21)".to_string()));
    assert_eq!(labels[6], ("text", "Text (cat 9.7)".to_string()));
    let guide = build_language_guide_items(&v);
    assert_eq!(guide.len(), 7);
    assert_eq!(guide[0].version, "GCC 14.2.0");
    assert_eq!(guide[4].run_command, "java -cp <work_dir> Main");
    assert_eq!(guide[6].version, "cat 9.7");
}

#[test]
fn score_text_drops_trailing_zeros() {
    assert_eq!(score_text("12.500000"), "12.5");
    assert_eq!(score_text("100.000000"), "100");
    assert_eq!(score_text("0.000000"), "0");
    assert_eq!(score_text(&format!("{:.6}", 3.25f64)), "3.25");
}

#[test]
fn submission_pages() {
    assert_eq!(submission_detail_url(Some("abc001"), "42"), "/contests/abc001/submissions/42");
    assert_eq!(submission_detail_url(None, "42"), "/submissions/42");
}

#[test]
fn submit_gate_checks_in_order() {
    let big = MAX_SOURCE_CODE_BYTES + 1;
    assert_eq!(submit_gate(false, ContestStatus::Upcoming, big, 10), SubmitGate::ToLogin);
    assert_eq!(submit_gate(true, ContestStatus::Upcoming, big, 10), SubmitGate::ToContest);
    assert_eq!(submit_gate(true, ContestStatus::Ongoing, big, 10), SubmitGate::TooLarge);
    assert_eq!(
        submit_gate(true, ContestStatus::Ongoing, MAX_SOURCE_CODE_BYTES, 10),
        SubmitGate::Cooldown { remaining_ms: 10 }
    );
    assert_eq!(submit_gate(true, ContestStatus::Past, 1, 0), SubmitGate::Accept);
    let remaining = cooldown_remaining_ms(12_000, 8_000, 5000);
    assert_eq!(submit_gate(true, ContestStatus::Ongoing, 1, remaining), SubmitGate::Cooldown { remaining_ms: 1000 });
    let remaining = cooldown_remaining_ms(13_000, 8_000, 5000);
    assert_eq!(submit_gate(true, ContestStatus::Ongoing, 1, remaining), SubmitGate::Accept);
}

#[test]
fn submission_list_hidden_while_ongoing() {
    assert!(submission_list_restricted(ContestStatus::Ongoing));
    assert!(!submission_list_restricted(ContestStatus::Past));
    assert!(!submission_list_restricted(ContestStatus::Upcoming));
}

#[test]
fn hashing_an_ordinary_password_succeeds() {
    assert!(hash_password("").is_ok());
    assert!(hash_password("パスワード").is_ok());
}

#[test]
fn pagination_of_few_pages_takes_any_current() {
    assert_eq!(build_pagination(i64::MAX, 3), vec![1, 2, 3]);
}

#[test]
fn leap_second_start_comes_before_the_next_second() {
    // 20:59:60 JST is a leap second, just before 21:00:00.
    let f = form("2026-05-14T20:59:60", "2026-05-14T21:00", "exact");
    let c = validate_admin_contest_form(&f).unwrap();
    assert_eq!(c.start_time, START_2026_05_14_21_00_JST);
    let g = form("2026-05-14T21:00", "2026-05-14T20:59:60", "exact");
    assert!(validate_admin_contest_form(&g).is_err());
}

#[test]
fn submission_list_page_is_withheld_while_ongoing() {
    let hidden = submission_list_page(ContestStatus::Ongoing, 1000, Some(7));
    assert!(!hidden.show_rows);
    assert_eq!((hidden.current_page, hidden.total_pages), (1, 1));
    assert!(hidden.pagination.is_empty());
    let shown = submission_list_page(ContestStatus::Past, 45, Some(9));
    assert!(shown.show_rows);
    assert_eq!((shown.current_page, shown.total_pages), (3, 3));
    assert_eq!(shown.pagination, vec![1, 2, 3]);
}

#[test]
fn labels_and_titles_fall_back_to_the_id() {
    let cps = vec![
        ContestProblem { label: "A".to_string(), problem_id: "aplusb".to_string(), display_order: 1 },
        ContestProblem { label: "B".to_string(), problem_id: "sort".to_string(), display_order: 2 },
    ];
    assert_eq!(problem_label_or_id(&cps, "sort"), "B");
    assert_eq!(problem_label_or_id(&cps, "other"), "other");
    assert_eq!(problem_title_or_id(&Vec::new(), "other"), "other");
}

#[test]
fn empty_hash_accepts_nothing() {
    assert!(!login_password_ok(&AuthForm { username: "a".to_string(), password: String::new() }, ""));
}
