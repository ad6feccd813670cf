//! Form validation, pagination and the display data of the pages.
use vstd::prelude::*;
use crate::clock::{
    format_local_time, in_chrono_range, in_chrono_range_ns, local_text_instant, local_time_text,
    micros_of, now_nanos, parse_local_time,
};
use crate::text::{chars_of, trim, trim_str, decimal, push_decimal, push_char};
use crate::types::{Contest, ContestProblem, ContestStatus, JudgeStatus, JudgeType, Language, LanguageVersions};
use crate::problem::Problem;

verus! {

/// The largest accepted source code, in bytes.
pub const MAX_SOURCE_CODE_BYTES: usize = 512 * 1024;

/// Whether a source code exceeds the accepted size in UTF-8 bytes.
pub fn source_code_too_large(source_code: &str) -> (b: bool)
    ensures
        b == (source_code.len() > MAX_SOURCE_CODE_BYTES),
{
    source_code.len() > MAX_SOURCE_CODE_BYTES
}

/// The integers `lo..=hi`, as page numbers.
pub open spec fn page_range(lo: int, hi: int) -> Seq<i64> {
    Seq::new(if hi >= lo { (hi - lo + 1) as nat } else { 0 }, |i: int| (lo + i) as i64)
}

/// The page numbers shown for page `current` of `total`: all pages when
/// there are at most seven, otherwise the first and last page, the pages
/// within two of the current one, and a 0 where pages are left out.
pub open spec fn pagination(current: int, total: int) -> Seq<i64> {
    if total <= 7 {
        page_range(1, total)
    } else {
        let left = if current - 2 > 2 { current - 2 } else { 2 };
        let right = if current + 2 < total - 1 { current + 2 } else { total - 1 };
        seq![1i64] + (if left > 2 { seq![0i64] } else { Seq::empty() }) + page_range(left, right)
            + (if right < total - 1 { seq![0i64] } else { Seq::empty() }) + seq![total as i64]
    }
}

fn push_range(items: &mut Vec<i64>, lo: i64, hi: i64)
    requires
        hi < i64::MAX,
    ensures
        final(items)@ == old(items)@ + page_range(lo as int, hi as int),
{
    let ghost start = items@;
    let mut n = lo;
    while n <= hi
        invariant
            hi < i64::MAX,
            lo <= n,
            n <= hi + 1 || n == lo,
            items@ == start + page_range(lo as int, n - 1),
        decreases hi + 1 - n,
    {
        items.push(n);
        n = n + 1;
        assert(items@ =~= start + page_range(lo as int, n - 1));
    }
    assert(page_range(lo as int, n - 1) =~= page_range(lo as int, hi as int));
}

/// Builds the page numbers of a pager; 0 stands for an ellipsis.
pub fn build_pagination(current: i64, total: i64) -> (items: Vec<i64>)
    requires
        total > 7 ==> i64::MIN + 2 <= current <= i64::MAX - 2,
    ensures
        items@ == pagination(current as int, total as int),
{
    let mut items: Vec<i64> = Vec::new();
    if total <= 7 {
        push_range(&mut items, 1, total);
        assert(items@ =~= pagination(current as int, total as int));
        return items;
    }
    let window: i64 = 2;
    let left = if current - window > 2 { current - window } else { 2 };
    let right = if current + window < total - 1 { current + window } else { total - 1 };
    items.push(1);
    if left > 2 {
        items.push(0);
    }
    push_range(&mut items, left, right);
    if right < total - 1 {
        items.push(0);
    }
    items.push(total);
    assert(items@ =~= pagination(current as int, total as int));
    items
}

/// The pager of page `current` of `total` shows the first and the last page
/// and the current one, keeps page numbers increasing, puts each ellipsis
/// (0) between two shown pages exactly where pages are left out, and has at
/// most nine entries.
pub proof fn lemma_pagination_shape(current: int, total: int)
    requires
        1 <= current <= total <= i64::MAX,
    ensures
        ({
            let p = pagination(current, total);
            &&& p.len() <= 9
            &&& p[0] == 1 && p.last() == total
            &&& exists|i: int| 0 <= i < p.len() && p[i] == current
            &&& forall|i: int| 0 <= i < p.len() ==> 0 <= #[trigger] p[i] <= total
            &&& forall|i: int|
                0 <= i < p.len() - 1 && #[trigger] p[i] != 0 && p[i + 1] != 0 ==> p[i + 1] == p[i]
                    + 1
            &&& forall|i: int|
                0 <= i < p.len() && #[trigger] p[i] == 0 ==> 0 < i < p.len() - 1 && p[i - 1] != 0
                    && p[i + 1] != 0 && p[i + 1] > p[i - 1] + 1
        }),
{
    let p = pagination(current, total);
    if total <= 7 {
        assert(p[current - 1] == current);
    } else {
        let left = if current - 2 > 2 { current - 2 } else { 2 };
        let right = if current + 2 < total - 1 { current + 2 } else { total - 1 };
        let a = seq![1i64] + (if left > 2 { seq![0i64] } else { Seq::empty() });
        let r = page_range(left, right);
        let b = (if right < total - 1 { seq![0i64] } else { Seq::empty() }) + seq![total as i64];
        assert(p =~= a + r + b);
        let k = a.len() as int;
        if 1 < current < total {
            assert(p[k + current - left] == current);
        } else if current == 1 {
            assert(p[0] == 1);
        } else {
            assert(p[p.len() - 1] == total);
        }
    }
}


/// The label, the badge class and whether the submission is still waiting,
/// shown for a status.
pub open spec fn verdict_display(st: JudgeStatus) -> (Seq<char>, Seq<char>, bool) {
    match st {
        JudgeStatus::Pending => ("待機中"@, "pending"@, true),
        JudgeStatus::Running => ("ジャッジ中..."@, "running"@, true),
        JudgeStatus::Accepted => ("AC"@, "ac"@, false),
        JudgeStatus::WrongAnswer => ("WA"@, "wa"@, false),
        JudgeStatus::TimeLimitExceeded => ("TLE"@, "tle"@, false),
        JudgeStatus::MemoryLimitExceeded => ("MLE"@, "mle"@, false),
        JudgeStatus::RuntimeError { .. } => ("RE"@, "re"@, false),
        JudgeStatus::CompileError { .. } => ("CE"@, "ce"@, false),
        JudgeStatus::InternalError { .. } => ("IE"@, "ce"@, false),
        JudgeStatus::Scored => ("Scored"@, "ac"@, false),
    }
}

/// A finished submission is shown under the abbreviation its test cases
/// carry (AC, WA, TLE, MLE, RE); two statuses of different kinds never share
/// a label; and only a submission still pending or being judged is shown as
/// waiting.
pub proof fn lemma_verdict_labels(a: JudgeStatus, b: JudgeStatus)
    ensures
        (a is Accepted || a is WrongAnswer || a is TimeLimitExceeded || a is MemoryLimitExceeded
            || a is RuntimeError) ==> verdict_display(a).0 == crate::worker::verdict_label_of(a),
        verdict_display(a).0 == verdict_display(b).0 ==> a.db_name() == b.db_name(),
        verdict_display(a).2 <==> (a is Pending || a is Running),
{
    reveal_strlit("待機中");
    reveal_strlit("ジャッジ中...");
    reveal_strlit("AC");
    reveal_strlit("WA");
    reveal_strlit("TLE");
    reveal_strlit("MLE");
    reveal_strlit("RE");
    reveal_strlit("CE");
    reveal_strlit("IE");
    reveal_strlit("Scored");
    let x = verdict_display(a).0;
    let y = verdict_display(b).0;
    if x == y {
        assert(x.len() == y.len());
        assert(x[0] == y[0]);
        if x.len() > 1 {
            assert(x[1] == y[1]);
        }
    }
}

pub fn verdict_info(status: &JudgeStatus) -> (r: (&'static str, &'static str, bool))
    ensures
        (r.0@, r.1@, r.2) == verdict_display(*status),
{
    match status {
        JudgeStatus::Pending => ("待機中", "pending", true),
        JudgeStatus::Running => ("ジャッジ中...", "running", true),
        JudgeStatus::Accepted => ("AC", "ac", false),
        JudgeStatus::WrongAnswer => ("WA", "wa", false),
        JudgeStatus::TimeLimitExceeded => ("TLE", "tle", false),
        JudgeStatus::MemoryLimitExceeded => ("MLE", "mle", false),
        JudgeStatus::RuntimeError { .. } => ("RE", "re", false),
        JudgeStatus::CompileError { .. } => ("CE", "ce", false),
        JudgeStatus::InternalError { .. } => ("IE", "ce", false),
        JudgeStatus::Scored => ("Scored", "ac", false),
    }
}

/// A character allowed in a contest id: an ASCII letter or digit, `_` or `-`.
pub open spec fn contest_id_char(c: char) -> bool {
    ('0' <= c <= '9') || ('A' <= c <= 'Z') || ('a' <= c <= 'z') || c == '_' || c == '-'
}

/// A contest id has 1 to 64 characters, each allowed in an id. (Such a
/// string is ASCII, so it has as many bytes as characters.)
pub open spec fn valid_contest_id(s: Seq<char>) -> bool {
    0 < s.len() <= 64 && forall|i: int| 0 <= i < s.len() ==> contest_id_char(#[trigger] s[i])
}

pub fn is_valid_contest_id(id: &str) -> (b: bool)
    ensures
        b == valid_contest_id(id@),
{
    let v = chars_of(id);
    if v.len() == 0 || v.len() > 64 {
        return false;
    }
    let mut i: usize = 0;
    while i < v.len()
        invariant
            i <= v@.len() == id@.len(),
            v@ == id@,
            forall|k: int| 0 <= k < i ==> contest_id_char(#[trigger] v@[k]),
        decreases v.len() - i,
    {
        let c = v[i];
        if !(('0' <= c && c <= '9') || ('A' <= c && c <= 'Z') || ('a' <= c && c <= 'z') || c == '_'
            || c == '-') {
            return false;
        }
        i = i + 1;
    }
    true
}

/// The judge type a form value names.
pub open spec fn judge_type_named(raw: Seq<char>) -> Option<JudgeType> {
    if raw == "exact"@ {
        Some(JudgeType::Exact)
    } else if raw == "heuristic"@ {
        Some(JudgeType::Heuristic)
    } else {
        None
    }
}

pub fn parse_judge_type(raw: &str) -> (t: Option<JudgeType>)
    ensures
        t == judge_type_named(raw@),
{
    if crate::types::str_is(raw, "exact") {
        Some(JudgeType::Exact)
    } else if crate::types::str_is(raw, "heuristic") {
        Some(JudgeType::Heuristic)
    } else {
        None
    }
}

/// Japan Standard Time, UTC+9, in seconds.
pub const JST_OFFSET_SECS: i32 = 32400;

/// The instant a `datetime-local` form value names in JST: minutes
/// precision first, then seconds precision.
pub open spec fn jst_local_instant(raw: Seq<char>) -> Option<(i64, u32)> {
    match local_text_instant(raw, "%Y-%m-%dT%H:%M"@, JST_OFFSET_SECS) {
        Some(t) => Some(t),
        None => local_text_instant(raw, "%Y-%m-%dT%H:%M:%S"@, JST_OFFSET_SECS),
    }
}

/// The instant a `datetime-local` form value names in JST, as seconds and
/// nanoseconds since the epoch; its microseconds lie in chrono's range.
pub fn parse_jst_datetime_local(raw: &str) -> (t: Option<(i64, u32)>)
    ensures
        t == jst_local_instant(raw@),
        t matches Some(x) ==> -8334601315200000000 <= micros_of(x) <= 8210266876799999999,
{
    match parse_local_time(raw, "%Y-%m-%dT%H:%M", JST_OFFSET_SECS) {
        Some(t) => Some(t),
        None => parse_local_time(raw, "%Y-%m-%dT%H:%M:%S", JST_OFFSET_SECS),
    }
}

/// An instant shown in JST as `YYYY/MM/DD hh:mm`.
pub fn fmt_jst(t: i64) -> (s: String)
    requires
        in_chrono_range(t),
    ensures
        s@ == local_time_text(t, JST_OFFSET_SECS, "%Y/%m/%d %H:%M"@),
{
    format_local_time(t, JST_OFFSET_SECS, "%Y/%m/%d %H:%M")
}

/// An instant shown in JST as a `datetime-local` value `YYYY-MM-DDThh:mm`.
pub fn fmt_datetime_local_jst(t: i64) -> (s: String)
    requires
        in_chrono_range(t),
    ensures
        s@ == local_time_text(t, JST_OFFSET_SECS, "%Y-%m-%dT%H:%M"@),
{
    format_local_time(t, JST_OFFSET_SECS, "%Y-%m-%dT%H:%M")
}

/// The contest creation and editing form.
#[derive(Debug, Clone)]
pub struct AdminContestForm {
    pub id: String,
    pub title: String,
    pub description: String,
    pub start_time: String,
    pub end_time: String,
    pub judge_type: String,
}

/// The error messages of the contest form, in the order they are checked.
pub open spec fn contest_form_error(k: int) -> Seq<char> {
    if k == 0 {
        "IDは1〜64文字の英数字・_・-で入力してください"@
    } else if k == 1 {
        "タイトルを入力してください"@
    } else if k == 2 {
        "開始時刻を正しく入力してください"@
    } else if k == 3 {
        "終了時刻を正しく入力してください"@
    } else if k == 4 {
        "終了時刻は開始時刻より後にしてください"@
    } else {
        "ジャッジ種別を正しく選択してください"@
    }
}

/// Whether instant `a` comes before instant `b`, as chrono orders them:
/// by seconds, then by the nanoseconds past them (a leap second comes
/// before the next second).
pub open spec fn instant_before(a: (i64, u32), b: (i64, u32)) -> bool {
    a.0 < b.0 || (a.0 == b.0 && a.1 < b.1)
}

/// Which check a contest form fails first, or `None` when it passes.
pub open spec fn contest_form_failure(form: AdminContestForm) -> Option<int> {
    let start = jst_local_instant(trim(form.start_time@));
    let end = jst_local_instant(trim(form.end_time@));
    if !valid_contest_id(trim(form.id@)) {
        Some(0)
    } else if trim(form.title@).len() == 0 {
        Some(1)
    } else if start is None {
        Some(2)
    } else if end is None {
        Some(3)
    } else if !instant_before(start->0, end->0) {
        Some(4)
    } else if judge_type_named(trim(form.judge_type@)) is None {
        Some(5)
    } else {
        None
    }
}

/// Checks a contest form and builds the contest it describes: the fields
/// trimmed, the times read as JST and kept in microseconds.
pub fn validate_admin_contest_form(form: &AdminContestForm) -> (r: Result<Contest, String>)
    ensures
        r is Err <==> contest_form_failure(*form) is Some,
        r matches Err(msg) ==> msg@ == contest_form_error(contest_form_failure(*form)->0),
        r matches Ok(c) ==> {
            &&& c.id@ == trim(form.id@)
            &&& c.title@ == trim(form.title@)
            &&& c.description@ == trim(form.description@)
            &&& c.start_time == micros_of(jst_local_instant(trim(form.start_time@))->0)
            &&& c.end_time == micros_of(jst_local_instant(trim(form.end_time@))->0)
            &&& Some(c.judge_type) == judge_type_named(trim(form.judge_type@))
            &&& c.wf()
        },
{
    let id = trim_str(form.id.as_str());
    let title = trim_str(form.title.as_str());
    let description = trim_str(form.description.as_str());
    if !is_valid_contest_id(id.as_str()) {
        return Err(String::from_str("IDは1〜64文字の英数字・_・-で入力してください"));
    }
    if title.as_str().is_empty() {
        return Err(String::from_str("タイトルを入力してください"));
    }
    let start_raw = trim_str(form.start_time.as_str());
    let start_time = match parse_jst_datetime_local(start_raw.as_str()) {
        Some(t) => t,
        None => {
            return Err(String::from_str("開始時刻を正しく入力してください"));
        },
    };
    let end_raw = trim_str(form.end_time.as_str());
    let end_time = match parse_jst_datetime_local(end_raw.as_str()) {
        Some(t) => t,
        None => {
            return Err(String::from_str("終了時刻を正しく入力してください"));
        },
    };
    if !(start_time.0 < end_time.0 || (start_time.0 == end_time.0 && start_time.1 < end_time.1)) {
        return Err(String::from_str("終了時刻は開始時刻より後にしてください"));
    }
    let judge_raw = trim_str(form.judge_type.as_str());
    let judge_type = match parse_judge_type(judge_raw.as_str()) {
        Some(t) => t,
        None => {
            return Err(String::from_str("ジャッジ種別を正しく選択してください"));
        },
    };
    Ok(Contest {
        id,
        title,
        description,
        start_time: instant_micros(start_time),
        end_time: instant_micros(end_time),
        judge_type,
    })
}

/// The microseconds since the epoch of an instant in chrono's range.
fn instant_micros(t: (i64, u32)) -> (us: i64)
    requires
        -8334601315200000000 <= micros_of(t) <= 8210266876799999999,
    ensures
        us == micros_of(t),
{
    t.0 * 1_000_000 + (t.1 / 1000) as i64
}

/// The contest form filled with a contest's values, the times in JST.
pub fn contest_to_admin_form(contest: &Contest) -> (f: AdminContestForm)
    requires
        contest.wf(),
    ensures
        f.id@ == contest.id@,
        f.title@ == contest.title@,
        f.description@ == contest.description@,
        f.start_time@ == local_time_text(contest.start_time, JST_OFFSET_SECS, "%Y-%m-%dT%H:%M"@),
        f.end_time@ == local_time_text(contest.end_time, JST_OFFSET_SECS, "%Y-%m-%dT%H:%M"@),
        f.judge_type@ == contest.judge_type.db_name(),
{
    AdminContestForm {
        id: contest.id.clone(),
        title: contest.title.clone(),
        description: contest.description.clone(),
        start_time: fmt_datetime_local_jst(contest.start_time),
        end_time: fmt_datetime_local_jst(contest.end_time),
        judge_type: String::from_str(contest.judge_type.to_db()),
    }
}


/// A contest as listed on the contest pages.
#[derive(Debug, Clone)]
pub struct ContestItem {
    pub id: String,
    pub title: String,
    pub description: String,
    pub start_time: String,
    pub end_time: String,
    pub status_label: &'static str,
    pub status_class: &'static str,
}

/// The listing of `c` at the instant `now`.
pub fn contest_item_at(c: &Contest, now: i128) -> (item: ContestItem)
    requires
        c.wf(),
    ensures
        item.id@ == c.id@,
        item.title@ == c.title@,
        item.description@ == c.description@,
        item.start_time@ == local_time_text(c.start_time, JST_OFFSET_SECS, "%Y/%m/%d %H:%M"@),
        item.end_time@ == local_time_text(c.end_time, JST_OFFSET_SECS, "%Y/%m/%d %H:%M"@),
        item.status_label@ == c.status_spec(now).label_text(),
        item.status_class@ == c.status_spec(now).badge_text(),
{
    let st = c.status_at(now);
    ContestItem {
        id: c.id.clone(),
        title: c.title.clone(),
        description: c.description.clone(),
        start_time: fmt_jst(c.start_time),
        end_time: fmt_jst(c.end_time),
        status_label: st.label(),
        status_class: st.badge_class(),
    }
}

/// The listing of `c` at the current instant, read from the clock.
pub fn to_contest_item(c: &Contest) -> (item: ContestItem)
    requires
        c.wf(),
    ensures
        exists|t: i128| in_chrono_range_ns(t as int) && item.status_label@ == c.status_spec(t).label_text()
            && item.status_class@ == c.status_spec(t).badge_text(),
        item.id@ == c.id@,
        item.title@ == c.title@,
        item.description@ == c.description@,
        item.start_time@ == local_time_text(c.start_time, JST_OFFSET_SECS, "%Y/%m/%d %H:%M"@),
        item.end_time@ == local_time_text(c.end_time, JST_OFFSET_SECS, "%Y/%m/%d %H:%M"@),
{
    let now = now_nanos();
    contest_item_at(c, now)
}

/// A contest as listed on the administration page.
#[derive(Debug, Clone)]
pub struct AdminContestItem {
    pub id: String,
    pub title: String,
    pub start_time: String,
    pub end_time: String,
    pub status_label: &'static str,
    pub status_class: &'static str,
    pub judge_type: &'static str,
    pub edit_url: String,
    pub problems_url: String,
}

/// How a judge type is named on the administration page.
pub open spec fn judge_type_label(t: JudgeType) -> Seq<char> {
    match t {
        JudgeType::Exact => "通常"@,
        JudgeType::Heuristic => "ヒューリスティック"@,
    }
}

/// The administration listing of `c` at the instant `now`.
pub fn admin_contest_item_at(c: &Contest, now: i128) -> (item: AdminContestItem)
    requires
        c.wf(),
    ensures
        item.id@ == c.id@,
        item.title@ == c.title@,
        item.start_time@ == local_time_text(c.start_time, JST_OFFSET_SECS, "%Y/%m/%d %H:%M"@),
        item.end_time@ == local_time_text(c.end_time, JST_OFFSET_SECS, "%Y/%m/%d %H:%M"@),
        item.status_label@ == c.status_spec(now).label_text(),
        item.status_class@ == c.status_spec(now).badge_text(),
        item.judge_type@ == judge_type_label(c.judge_type),
        item.edit_url@ == "/admin/contests/"@ + c.id@ + "/edit"@,
        item.problems_url@ == "/admin/contests/"@ + c.id@ + "/problems"@,
{
    let st = c.status_at(now);
    let judge_type = match c.judge_type {
        JudgeType::Exact => "通常",
        JudgeType::Heuristic => "ヒューリスティック",
    };
    let mut edit_url = String::from_str("/admin/contests/");
    edit_url.append(c.id.as_str());
    edit_url.append("/edit");
    let mut problems_url = String::from_str("/admin/contests/");
    problems_url.append(c.id.as_str());
    problems_url.append("/problems");
    AdminContestItem {
        id: c.id.clone(),
        title: c.title.clone(),
        start_time: fmt_jst(c.start_time),
        end_time: fmt_jst(c.end_time),
        status_label: st.label(),
        status_class: st.badge_class(),
        judge_type,
        edit_url,
        problems_url,
    }
}

/// The administration listing of `c` at the current instant.
pub fn to_admin_contest_item(c: &Contest) -> (item: AdminContestItem)
    requires
        c.wf(),
    ensures
        exists|t: i128| in_chrono_range_ns(t as int) && item.status_label@ == c.status_spec(t).label_text()
            && item.status_class@ == c.status_spec(t).badge_text(),
        item.id@ == c.id@,
        item.title@ == c.title@,
        item.start_time@ == local_time_text(c.start_time, JST_OFFSET_SECS, "%Y/%m/%d %H:%M"@),
        item.end_time@ == local_time_text(c.end_time, JST_OFFSET_SECS, "%Y/%m/%d %H:%M"@),
        item.judge_type@ == judge_type_label(c.judge_type),
        item.edit_url@ == "/admin/contests/"@ + c.id@ + "/edit"@,
        item.problems_url@ == "/admin/contests/"@ + c.id@ + "/problems"@,
{
    let now = now_nanos();
    admin_contest_item_at(c, now)
}

/// How to build and run one language, as shown on the languages page.
#[derive(Debug, Clone)]
pub struct LanguageGuideItem {
    pub name: &'static str,
    pub version: String,
    pub source_file: &'static str,
    pub compile_command: &'static str,
    pub run_command: &'static str,
    pub libraries: &'static str,
    pub notes: &'static str,
}

/// `item` holds exactly the given texts.
pub open spec fn guide_item_is(
    item: LanguageGuideItem,
    name: Seq<char>,
    version: Seq<char>,
    source_file: Seq<char>,
    compile_command: Seq<char>,
    run_command: Seq<char>,
    libraries: Seq<char>,
    notes: Seq<char>,
) -> bool {
    &&& item.name@ == name
    &&& item.version@ == version
    &&& item.source_file@ == source_file
    &&& item.compile_command@ == compile_command
    &&& item.run_command@ == run_command
    &&& item.libraries@ == libraries
    &&& item.notes@ == notes
}

fn prefixed(prefix: &str, s: &String) -> (r: String)
    ensures
        r@ == prefix@ + s@,
{
    let mut r = String::from_str(prefix);
    r.append(s.as_str());
    r
}

/// The languages page: one entry per language, in the order C++, Rust,
/// CPython, PyPy, Java, Go, Text.
pub fn build_language_guide_items(versions: &LanguageVersions) -> (items: Vec<LanguageGuideItem>)
    ensures
        items@.len() == 7,
        guide_item_is(items@[0], "C++17"@, "GCC "@ + versions.cpp@, "solution.cpp"@,
            "g++ solution.cpp -o solution -O2 -std=c++17"@, "./solution"@, "標準ライブラリのみ"@,
            "通常のネイティブ実行です。"@),
        guide_item_is(items@[1], "Rust"@, "rustc "@ + versions.rust@, "solution.rs"@,
            "rustc solution.rs -o solution -C opt-level=2"@, "./solution"@, "標準ライブラリのみ"@,
            "Cargo は使わず、単一ファイルを rustc で直接コンパイルします。"@),
        guide_item_is(items@[2], "Python (CPython)"@, versions.python@, "solution.py"@,
            "python3 -m py_compile solution.py"@, "python3 solution.py"@, "標準ライブラリのみ"@,
            "提出前に構文チェックだけ行います。"@),
        guide_item_is(items@[3], "Python (PyPy)"@, versions.pypy@, "solution.py"@,
            "pypy3 -m py_compile solution.py"@, "pypy3 solution.py"@, "標準ライブラリのみ"@,
            "提出前に構文チェックだけ行います。"@),
        guide_item_is(items@[4], "Java"@, "OpenJDK "@ + versions.java@, "Main.java"@,
            "javac -encoding UTF-8 Main.java"@, "java -cp <work_dir> Main"@, "標準ライブラリのみ"@,
            "クラス名は Main で固定です。"@),
        guide_item_is(items@[5], "Go"@, versions.go@, "solution.go"@,
            "go build -o solution solution.go"@, "./solution"@, "標準ライブラリのみ"@,
            "単一ファイルを go build でビルドします。"@),
        guide_item_is(items@[6], "Text"@, "cat "@ + versions.text@, "solution.txt"@, "なし"@,
            "cat"@, "なし"@, "ソースコードは使わず、標準入力をそのまま標準出力に返します。"@),
{
    vec![
        LanguageGuideItem {
            name: "C++17",
            version: prefixed("GCC ", &versions.cpp),
            source_file: "solution.cpp",
            compile_command: "g++ solution.cpp -o solution -O2 -std=c++17",
            run_command: "./solution",
            libraries: "標準ライブラリのみ",
            notes: "通常のネイティブ実行です。",
        },
        LanguageGuideItem {
            name: "Rust",
            version: prefixed("rustc ", &versions.rust),
            source_file: "solution.rs",
            compile_command: "rustc solution.rs -o solution -C opt-level=2",
            run_command: "./solution",
            libraries: "標準ライブラリのみ",
            notes: "Cargo は使わず、単一ファイルを rustc で直接コンパイルします。",
        },
        LanguageGuideItem {
            name: "Python (CPython)",
            version: versions.python.clone(),
            source_file: "solution.py",
            compile_command: "python3 -m py_compile solution.py",
            run_command: "python3 solution.py",
            libraries: "標準ライブラリのみ",
            notes: "提出前に構文チェックだけ行います。",
        },
        LanguageGuideItem {
            name: "Python (PyPy)",
            version: versions.pypy.clone(),
            source_file: "solution.py",
            compile_command: "pypy3 -m py_compile solution.py",
            run_command: "pypy3 solution.py",
            libraries: "標準ライブラリのみ",
            notes: "提出前に構文チェックだけ行います。",
        },
        LanguageGuideItem {
            name: "Java",
            version: prefixed("OpenJDK ", &versions.java),
            source_file: "Main.java",
            compile_command: "javac -encoding UTF-8 Main.java",
            run_command: "java -cp <work_dir> Main",
            libraries: "標準ライブラリのみ",
            notes: "クラス名は Main で固定です。",
        },
        LanguageGuideItem {
            name: "Go",
            version: versions.go.clone(),
            source_file: "solution.go",
            compile_command: "go build -o solution solution.go",
            run_command: "./solution",
            libraries: "標準ライブラリのみ",
            notes: "単一ファイルを go build でビルドします。",
        },
        LanguageGuideItem {
            name: "Text",
            version: prefixed("cat ", &versions.text),
            source_file: "solution.txt",
            compile_command: "なし",
            run_command: "cat",
            libraries: "なし",
            notes: "ソースコードは使わず、標準入力をそのまま標準出力に返します。",
        },
    ]
}

/// The languages offered by the submission form, in order, with their
/// database names.
pub open spec fn form_languages() -> Seq<Language> {
    seq![
        Language::Cpp,
        Language::Rust,
        Language::Python,
        Language::PyPy,
        Language::Java,
        Language::Go,
        Language::Text,
    ]
}

/// The labels of the submission form's language choices: each language's
/// database name with its display name and toolchain version.
pub fn build_lang_labels(versions: &LanguageVersions) -> (labels: Vec<(&'static str, String)>)
    ensures
        labels@.len() == 7,
        forall|k: int|
            0 <= k < 7 ==> (#[trigger] labels@[k]).0@ == form_languages()[k].db_name()
                && labels@[k].1@ == form_languages()[k].display_prefix()
                + form_languages()[k].version_in(*versions) + ")"@,
{
    let langs = [
        Language::Cpp,
        Language::Rust,
        Language::Python,
        Language::PyPy,
        Language::Java,
        Language::Go,
        Language::Text,
    ];
    let mut labels: Vec<(&'static str, String)> = Vec::new();
    let mut i: usize = 0;
    while i < 7
        invariant
            i <= 7,
            langs@ == form_languages(),
            labels@.len() == i,
            forall|k: int|
                0 <= k < i ==> (#[trigger] labels@[k]).0@ == form_languages()[k].db_name()
                    && labels@[k].1@ == form_languages()[k].display_prefix()
                    + form_languages()[k].version_in(*versions) + ")"@,
        decreases 7 - i,
    {
        let l = langs[i];
        labels.push((l.to_db(), l.display_name_versioned(versions)));
        i = i + 1;
    }
    labels
}


/// Whether a test case verdict counts as passed.
pub open spec fn verdict_passed(v: Seq<char>) -> bool {
    v == "AC"@ || v == "SCORED"@
}

/// How many of the verdicts count as passed.
pub open spec fn passed_count(vs: Seq<Seq<char>>) -> nat
    decreases vs.len(),
{
    if vs.len() == 0 {
        0
    } else {
        passed_count(vs.drop_last()) + if verdict_passed(vs.last()) { 1nat } else { 0nat }
    }
}

/// The summary `"passed/total"` of a submission's test case verdicts.
pub fn tc_summary_from_verdicts(verdicts: &Vec<String>) -> (s: String)
    ensures
        s@ == decimal(passed_count(verdicts@.map_values(|v: String| v@))) + "/"@ + decimal(
            verdicts@.len(),
        ),
{
    let ghost vs = verdicts@.map_values(|v: String| v@);
    let mut ac: usize = 0;
    let mut i: usize = 0;
    while i < verdicts.len()
        invariant
            i <= verdicts@.len(),
            vs == verdicts@.map_values(|v: String| v@),
            ac == passed_count(vs.take(i as int)),
            ac <= i,
        decreases verdicts.len() - i,
    {
        let v = verdicts[i].as_str();
        assert(vs.take(i + 1).drop_last() =~= vs.take(i as int));
        if crate::types::str_is(v, "AC") || crate::types::str_is(v, "SCORED") {
            ac = ac + 1;
        }
        i = i + 1;
    }
    assert(vs.take(verdicts@.len() as int) =~= vs);
    let mut s = String::new();
    push_decimal(&mut s, ac as u64);
    push_char(&mut s, '/');
    push_decimal(&mut s, verdicts.len() as u64);
    assert(s@ =~= decimal(passed_count(vs)) + "/"@ + decimal(verdicts@.len())) by {
        reveal_strlit("/");
    }
    s
}

/// `s` without the copies of `c` that end it (`str::trim_end_matches(c)`).
pub open spec fn strip_end(s: Seq<char>, c: char) -> Seq<char>
    decreases s.len(),
{
    if s.len() > 0 && s.last() == c {
        strip_end(s.drop_last(), c)
    } else {
        s
    }
}

fn strip_end_len(v: &Vec<char>, n: usize, c: char) -> (k: usize)
    requires
        n <= v@.len(),
    ensures
        k <= n,
        v@.take(k as int) == strip_end(v@.take(n as int), c),
    decreases n,
{
    if n > 0 && v[n - 1] == c {
        assert(v@.take(n as int).drop_last() =~= v@.take(n - 1));
        strip_end_len(v, n - 1, c)
    } else {
        n
    }
}

/// A score printed with six decimals, shown without trailing zeros and
/// without a trailing point: `"12.500000"` is shown as `"12.5"`.
pub fn score_text(fixed: &str) -> (s: String)
    ensures
        s@ == strip_end(strip_end(fixed@, '0'), '.'),
{
    let v = chars_of(fixed);
    let k1 = strip_end_len(&v, v.len(), '0');
    let k2 = strip_end_len(&v, k1, '.');
    assert(v@.take(v@.len() as int) =~= fixed@);
    assert(v@.take(k1 as int).take(k2 as int) =~= v@.take(k2 as int));
    proof {
        let t = v@.take(k1 as int);
        assert(t.take(k1 as int) =~= t);
    }
    crate::text::string_of(vstd::slice::slice_subrange(v.as_slice(), 0, k2))
}

/// The page of a submission: under its contest where it has one.
pub open spec fn submission_url(contest_id: Option<Seq<char>>, id: Seq<char>) -> Seq<char> {
    match contest_id {
        Some(c) => "/contests/"@ + c + "/submissions/"@ + id,
        None => "/submissions/"@ + id,
    }
}

/// The page of a submission: `/contests/{contest}/submissions/{id}`, or
/// `/submissions/{id}` outside contests.
pub fn submission_detail_url(contest_id: Option<&str>, id: &str) -> (s: String)
    ensures
        s@ == submission_url(
            match contest_id {
                Some(c) => Some(c@),
                None => None,
            },
            id@,
        ),
{
    let mut s = String::new();
    match contest_id {
        Some(c) => {
            crate::text::push_all(&mut s, "/contests/");
            crate::text::push_all(&mut s, c);
            crate::text::push_all(&mut s, "/submissions/");
        },
        None => {
            crate::text::push_all(&mut s, "/submissions/");
        },
    }
    crate::text::push_all(&mut s, id);
    s
}

/// The session key and the waiting time between two submissions, in
/// milliseconds: five minutes for heuristic contests, five seconds otherwise.
pub fn submit_cooldown(judge_type: JudgeType) -> (r: (&'static str, i64))
    ensures
        judge_type is Heuristic ==> r.0@ == "last_heuristic_submit_at"@ && r.1 == 300000,
        judge_type is Exact ==> r.0@ == "last_submit_at"@ && r.1 == 5000,
{
    match judge_type {
        JudgeType::Heuristic => ("last_heuristic_submit_at", 5 * 60 * 1000),
        JudgeType::Exact => ("last_submit_at", 5000),
    }
}

/// What becomes of a submission to a contest problem.
#[derive(Debug, Clone, Copy, PartialEq, Eq, Structural)]
pub enum SubmitGate {
    /// Nobody is logged in: to the login page.
    ToLogin,
    /// The contest has not started: back to the contest page.
    ToContest,
    /// The source exceeds the accepted size: refused as too large.
    TooLarge,
    /// The previous submission was too recent: back to the problem, with
    /// the milliseconds left.
    Cooldown { remaining_ms: i64 },
    /// The submission is accepted for judging.
    Accept,
}

/// The checks of a contest submission, in order: a logged-in user, a
/// contest that has started, a source of at most 512 KiB, and no
/// cooldown left (`remaining_ms` from `cooldown_remaining_ms`).
pub fn submit_gate(logged_in: bool, status: ContestStatus, source_len: usize, remaining_ms: i64) -> (g: SubmitGate)
    ensures
        !logged_in ==> (g is ToLogin),
        logged_in && (status is Upcoming) ==> (g is ToContest),
        logged_in && !(status is Upcoming) && source_len > MAX_SOURCE_CODE_BYTES ==> (g is TooLarge),
        logged_in && !(status is Upcoming) && source_len <= MAX_SOURCE_CODE_BYTES && remaining_ms > 0
            ==> (g == (SubmitGate::Cooldown { remaining_ms })),
        logged_in && !(status is Upcoming) && source_len <= MAX_SOURCE_CODE_BYTES && remaining_ms <= 0
            ==> (g is Accept),
        g == submit_gate_of(logged_in, status, source_len as int, remaining_ms as int),
{
    if !logged_in {
        SubmitGate::ToLogin
    } else if status == ContestStatus::Upcoming {
        SubmitGate::ToContest
    } else if source_len > MAX_SOURCE_CODE_BYTES {
        SubmitGate::TooLarge
    } else if remaining_ms > 0 {
        SubmitGate::Cooldown { remaining_ms }
    } else {
        SubmitGate::Accept
    }
}

/// The milliseconds of cooldown left `now_ms - last_ms` after the last
/// submission; 0 once the cooldown has passed.
pub open spec fn cooldown_left(now_ms: int, last_ms: int, cooldown_ms: int) -> int {
    if now_ms - last_ms < cooldown_ms {
        cooldown_ms - (now_ms - last_ms)
    } else {
        0
    }
}

/// The decision `submit_gate` makes on a contest submission.
pub open spec fn submit_gate_of(logged_in: bool, status: ContestStatus, source_len: int, remaining_ms: int) -> SubmitGate {
    if !logged_in {
        SubmitGate::ToLogin
    } else if status is Upcoming {
        SubmitGate::ToContest
    } else if source_len > MAX_SOURCE_CODE_BYTES {
        SubmitGate::TooLarge
    } else if remaining_ms > 0 {
        SubmitGate::Cooldown { remaining_ms: remaining_ms as i64 }
    } else {
        SubmitGate::Accept
    }
}

/// A submission `submit_gate` accepts, its cooldown measured from the previous
/// accepted submission, comes at least the cooldown after it; one that comes
/// sooner is sent back with exactly the time left.
pub proof fn lemma_accepted_submissions_spaced(
    logged_in: bool,
    status: ContestStatus,
    source_len: int,
    now_ms: int,
    last_ms: int,
    cooldown_ms: int,
)
    ensures
        (submit_gate_of(logged_in, status, source_len, cooldown_left(now_ms, last_ms, cooldown_ms)) is Accept)
            ==> now_ms - last_ms >= cooldown_ms,
        logged_in && !(status is Upcoming) && source_len <= MAX_SOURCE_CODE_BYTES && now_ms - last_ms
            < cooldown_ms ==> submit_gate_of(logged_in, status, source_len, cooldown_left(now_ms, last_ms, cooldown_ms))
            == (SubmitGate::Cooldown { remaining_ms: (cooldown_ms - (now_ms - last_ms)) as i64 }),
{
}

/// Whether a contest's submission list is withheld: while the contest is
/// ongoing nobody sees the list.
pub fn submission_list_restricted(status: ContestStatus) -> (b: bool)
    ensures
        b == (status is Ongoing),
{
    status == ContestStatus::Ongoing
}

/// What a contest's submission list page shows.
pub struct ListPage {
    /// Whether the submissions are listed at all.
    pub show_rows: bool,
    pub current_page: i64,
    pub total_pages: i64,
    /// The pager's page numbers, 0 for an ellipsis.
    pub pagination: Vec<i64>,
}

/// The page of a contest's submission list: while the contest is ongoing,
/// no rows, page 1 of 1 and no pager; otherwise the requested page among
/// those of `total` submissions, with its pager.
pub open spec fn list_page_of(status: ContestStatus, total: int, requested: Option<i64>) -> (bool, int, int, Seq<i64>) {
    if status is Ongoing {
        (false, 1, 1, Seq::empty())
    } else {
        let n = page_count_of(total);
        let p = clamped_page(requested, n);
        (true, p, n, pagination(p, n))
    }
}

/// The page of a contest's submission list, from the contest's status, the
/// number of its submissions and the requested page.
pub fn submission_list_page(status: ContestStatus, total: i64, requested: Option<i64>) -> (p: ListPage)
    requires
        total <= i64::MAX - PER_PAGE,
    ensures
        (p.show_rows, p.current_page as int, p.total_pages as int, p.pagination@) == list_page_of(status, total as int, requested),
{
    if submission_list_restricted(status) {
        return ListPage { show_rows: false, current_page: 1, total_pages: 1, pagination: Vec::new() };
    }
    let total_pages = page_count(total);
    let page = clamp_page(requested, total_pages);
    ListPage { show_rows: true, current_page: page, total_pages, pagination: build_pagination(page, total_pages) }
}

/// While a contest is ongoing its submission list page is the same whatever
/// the submissions and whatever page is asked for: it shows none of them.
pub proof fn lemma_restricted_list_reveals_nothing(total1: int, requested1: Option<i64>, total2: int, requested2: Option<i64>)
    ensures
        list_page_of(ContestStatus::Ongoing, total1, requested1) == list_page_of(ContestStatus::Ongoing, total2, requested2),
        !list_page_of(ContestStatus::Ongoing, total1, requested1).0,
{
}

/// The label shown for a problem of a contest: the label of the contest's
/// entry for it (the last, where there are several), else its id.
pub open spec fn label_or_id(cps: Seq<ContestProblem>, pid: Seq<char>) -> Seq<char>
    decreases cps.len(),
{
    if cps.len() == 0 {
        pid
    } else if cps.last().problem_id@ == pid {
        cps.last().label@
    } else {
        label_or_id(cps.drop_last(), pid)
    }
}

/// The label shown for a problem in a contest's submission list.
pub fn problem_label_or_id(cps: &Vec<ContestProblem>, problem_id: &str) -> (s: String)
    ensures
        s@ == label_or_id(cps@, problem_id@),
{
    let mut i: usize = cps.len();
    assert(cps@.take(i as int) =~= cps@);
    while i > 0
        invariant
            i <= cps@.len(),
            label_or_id(cps@, problem_id@) == label_or_id(cps@.take(i as int), problem_id@),
        decreases i,
    {
        assert(cps@.take(i as int).drop_last() =~= cps@.take(i - 1));
        assert(cps@.take(i as int).last() == cps@[i - 1]);
        if crate::types::str_is(cps[i - 1].problem_id.as_str(), problem_id) {
            return cps[i - 1].label.clone();
        }
        i = i - 1;
    }
    String::from_str(problem_id)
}

/// The title shown for a problem: the title of the loaded problem with that
/// id (the last, where there are several), else its id.
pub open spec fn title_or_id(ps: Seq<Problem>, pid: Seq<char>) -> Seq<char>
    decreases ps.len(),
{
    if ps.len() == 0 {
        pid
    } else if ps.last().id@ == pid {
        ps.last().title@
    } else {
        title_or_id(ps.drop_last(), pid)
    }
}

/// The title shown for a problem in a submission list.
pub fn problem_title_or_id(ps: &Vec<Problem>, problem_id: &str) -> (s: String)
    ensures
        s@ == title_or_id(ps@, problem_id@),
{
    let mut i: usize = ps.len();
    assert(ps@.take(i as int) =~= ps@);
    while i > 0
        invariant
            i <= ps@.len(),
            title_or_id(ps@, problem_id@) == title_or_id(ps@.take(i as int), problem_id@),
        decreases i,
    {
        assert(ps@.take(i as int).drop_last() =~= ps@.take(i - 1));
        assert(ps@.take(i as int).last() == ps@[i - 1]);
        if crate::types::str_is(ps[i - 1].id.as_str(), problem_id) {
            return ps[i - 1].title.clone();
        }
        i = i - 1;
    }
    String::from_str(problem_id)
}

/// Milliseconds left before the next submission is accepted, 0 when it is.
pub fn cooldown_remaining_ms(now_ms: i64, last_ms: i64, cooldown_ms: i64) -> (r: i64)
    requires
        i64::MIN <= now_ms - last_ms <= i64::MAX,
        i64::MIN <= cooldown_ms - (now_ms - last_ms) <= i64::MAX,
    ensures
        r == cooldown_left(now_ms as int, last_ms as int, cooldown_ms as int),
{
    let elapsed = now_ms - last_ms;
    if elapsed < cooldown_ms {
        cooldown_ms - elapsed
    } else {
        0
    }
}

/// The registration form and the login form.
#[derive(Debug, Clone)]
pub struct AuthForm {
    pub username: String,
    pub password: String,
}

/// The size of a text in UTF-8 bytes, as `str::len` reports it.
pub open spec fn utf8_len(s: Seq<char>) -> usize {
    vstd::utf8::encode_utf8(s).len() as usize
}

/// The messages a registration is refused with.
pub open spec fn registration_error(k: int) -> Seq<char> {
    if k == 0 {
        "ユーザ名は3〜20文字にしてください"@
    } else {
        "パスワードは6文字以上にしてください"@
    }
}

/// Checks a registration: the trimmed user name has 3 to 20 bytes, the
/// trimmed password at least 6. Gives the trimmed name and password.
pub fn validate_registration(form: &AuthForm) -> (r: Result<(String, String), &'static str>)
    ensures
        ({
            let u = utf8_len(trim(form.username@));
            let p = utf8_len(trim(form.password@));
            &&& (u < 3 || u > 20) ==> (r matches Err(m) && m@ == registration_error(0))
            &&& (3 <= u <= 20 && p < 6) ==> (r matches Err(m) && m@ == registration_error(1))
            &&& (3 <= u <= 20 && p >= 6) ==> (r matches Ok((name, pw)) && name@ == trim(
                form.username@,
            ) && pw@ == trim(form.password@))
        }),
{
    let username = trim_str(form.username.as_str());
    let password = trim_str(form.password.as_str());
    let ulen = username.as_str().len();
    if ulen < 3 || ulen > 20 {
        return Err("ユーザ名は3〜20文字にしてください");
    }
    if password.as_str().len() < 6 {
        return Err("パスワードは6文字以上にしてください");
    }
    Ok((username, password))
}


/// An error of a page handler.
#[verifier::external_type_specification]
#[verifier::external_body]
pub struct ExAnyhowError(anyhow::Error);

/// The error a page handler fails with.
pub struct HtmlError(pub anyhow::Error);

/// The user settings form.
#[derive(Debug, Clone)]
pub struct SettingsForm {
    pub default_language: Option<String>,
}

/// The language saved as the default: the chosen one, none when the choice
/// is empty.
pub fn chosen_default_language(form: &SettingsForm) -> (r: Option<&str>)
    ensures
        match form.default_language {
            Some(s) => if s@.len() == 0 { r is None } else { r matches Some(x) && x@ == s@ },
            None => r is None,
        },
{
    match &form.default_language {
        Some(s) => if s.as_str().is_empty() {
            None
        } else {
            Some(s.as_str())
        },
        None => None,
    }
}

/// The account deletion form.
#[derive(Debug, Clone)]
pub struct DeleteAccountForm {
    pub password: String,
}

/// The password change form.
#[derive(Debug, Clone)]
pub struct ChangePasswordForm {
    pub current_password: String,
    pub new_password: String,
}

/// The messages a password change is refused with.
pub open spec fn password_change_error(k: int) -> Seq<char> {
    if k == 0 {
        "現在のパスワードが違います"@
    } else {
        "新しいパスワードは6文字以上にしてください"@
    }
}

/// Checks a password change, given whether the current password was
/// verified: the trimmed new password needs at least 6 bytes. Gives the
/// trimmed new password.
pub fn validate_password_change(form: &ChangePasswordForm, current_ok: bool) -> (r: Result<
    String,
    &'static str,
>)
    ensures
        !current_ok ==> (r matches Err(m) && m@ == password_change_error(0)),
        current_ok && utf8_len(trim(form.new_password@)) < 6 ==> (r matches Err(m) && m@
            == password_change_error(1)),
        current_ok && utf8_len(trim(form.new_password@)) >= 6 ==> (r matches Ok(p) && p@ == trim(
            form.new_password@,
        )),
{
    if !current_ok {
        return Err("現在のパスワードが違います");
    }
    let p = trim_str(form.new_password.as_str());
    if p.as_str().len() < 6 {
        return Err("新しいパスワードは6文字以上にしてください");
    }
    Ok(p)
}

/// Whether argon2 accepts `password` against the PHC-format `hash`: the
/// hash parses, and hashing the password with its algorithm, version,
/// parameters and salt gives its output.
pub uninterp spec fn argon2_accepts(password: Seq<char>, hash: Seq<char>) -> bool;

/// `argon2::Argon2::default().hash_password(password, &salt)` with a salt
/// from `SaltString::generate(&mut OsRng)`, as its PHC string, or the error's
/// text. The salt is random, so the hash is not a function of the password;
/// what is stated is that argon2 accepts the password against it, as its
/// `PasswordVerifier` recomputes the output from the hash's own parameters
/// and salt; and that it succeeds whenever the password has at most
/// `argon2::MAX_PWD_LEN` (2^32 - 1) bytes, the one input argon2 refuses with
/// default parameters and a generated 16-byte salt.
#[verifier::external_body]
fn argon2_hash_fresh(password: &str) -> (r: Result<String, String>)
    ensures
        r matches Ok(h) ==> argon2_accepts(password@, h@),
        vstd::utf8::encode_utf8(password@).len() <= 0xFFFF_FFFF ==> r is Ok,
{
    let salt = argon2::password_hash::SaltString::generate(&mut argon2::password_hash::rand_core::OsRng);
    let hasher = argon2::Argon2::default();
    match argon2::PasswordHasher::hash_password(&hasher, password.as_bytes(), &salt) {
        Ok(h) => Ok(h.to_string()),
        Err(e) => Err(e.to_string()),
    }
}

/// `PasswordHash::new(hash)` then `Argon2::default().verify_password(..)`:
/// `false` where the hash does not parse or the password does not match.
/// Stated: the result is named, and an empty hash, which `PasswordHash::new`
/// refuses, accepts no password. That other malformed hashes and other
/// passwords are refused is argon2's behaviour, not stated.
#[verifier::external_body]
pub(crate) fn verify_password(password: &str, hash: &str) -> (b: bool)
    ensures
        b == argon2_accepts(password@, hash@),
        hash@.len() == 0 ==> !b,
{
    let Ok(parsed) = argon2::password_hash::PasswordHash::new(hash) else {
        return false;
    };
    let verifier = argon2::Argon2::default();
    argon2::PasswordVerifier::verify_password(&verifier, password.as_bytes(), &parsed).is_ok()
}

/// Hashes a password with a fresh salt. On failure the message is
/// `hash error: ` and argon2's error, which comes only for a password of
/// more than 2^32 - 1 bytes. A hash it gives accepts the password.
pub fn hash_password(password: &str) -> (r: Result<String, String>)
    ensures
        r matches Ok(h) ==> argon2_accepts(password@, h@),
        vstd::utf8::encode_utf8(password@).len() <= 0xFFFF_FFFF ==> r is Ok,
        r matches Err(m) ==> exists|e: Seq<char>| m@ == "hash error: "@ + e,
{
    match argon2_hash_fresh(password) {
        Ok(h) => Ok(h),
        Err(e) => {
            let mut m = String::new();
            crate::text::push_all(&mut m, "hash error: ");
            crate::text::push_all(&mut m, e.as_str());
            Err(m)
        },
    }
}

/// Whether a login form's password, trimmed, matches the stored hash.
pub fn login_password_ok(form: &AuthForm, stored_hash: &str) -> (b: bool)
    ensures
        b == argon2_accepts(trim(form.password@), stored_hash@),
        stored_hash@.len() == 0 ==> !b,
{
    let p = trim_str(form.password.as_str());
    verify_password(p.as_str(), stored_hash)
}

/// Whether an account deletion is confirmed: the form's password, trimmed,
/// matches the stored hash.
pub fn deletion_confirmed(form: &DeleteAccountForm, stored_hash: &str) -> (b: bool)
    ensures
        b == argon2_accepts(trim(form.password@), stored_hash@),
        stored_hash@.len() == 0 ==> !b,
{
    let p = trim_str(form.password.as_str());
    verify_password(p.as_str(), stored_hash)
}

/// Checks a password change against the stored hash: the trimmed current
/// password must match it, the trimmed new password have at least 6 bytes.
/// Gives the trimmed new password.
pub fn check_password_change(form: &ChangePasswordForm, stored_hash: &str) -> (r: Result<String, &'static str>)
    ensures
        ({
            let ok = argon2_accepts(trim(form.current_password@), stored_hash@);
            &&& !ok ==> (r matches Err(m) && m@ == password_change_error(0))
            &&& ok && utf8_len(trim(form.new_password@)) < 6 ==> (r matches Err(m) && m@ == password_change_error(1))
            &&& ok && utf8_len(trim(form.new_password@)) >= 6 ==> (r matches Ok(p) && p@ == trim(form.new_password@))
        }),
{
    let current = trim_str(form.current_password.as_str());
    let ok = verify_password(current.as_str(), stored_hash);
    validate_password_change(form, ok)
}

/// The form that adds a problem to a contest.
#[derive(Debug, Clone)]
pub struct AdminContestProblemForm {
    pub problem_id: String,
    pub label: String,
    pub display_order: i32,
}

/// The messages of the contest problem form, in the order they are checked.
pub open spec fn contest_problem_form_error(k: int) -> Seq<char> {
    if k == 0 {
        "問題を選択してください"@
    } else if k == 1 {
        "選択した問題が見つかりません"@
    } else {
        "ラベルを入力してください"@
    }
}

/// Checks the contest problem form; `problem_loads` tells whether the
/// problem named by the trimmed id loads. Gives the trimmed id and label and
/// the display order.
pub fn validate_admin_contest_problem_form(
    form: &AdminContestProblemForm,
    problem_loads: bool,
) -> (r: Result<(String, String, i32), String>)
    ensures
        trim(form.problem_id@).len() == 0 ==> (r matches Err(m) && m@ == contest_problem_form_error(0)),
        trim(form.problem_id@).len() > 0 && !problem_loads ==> (r matches Err(m) && m@
            == contest_problem_form_error(1)),
        trim(form.problem_id@).len() > 0 && problem_loads && trim(form.label@).len() == 0 ==> (r matches Err(m)
            && m@ == contest_problem_form_error(2)),
        trim(form.problem_id@).len() > 0 && problem_loads && trim(form.label@).len() > 0 ==> (r matches Ok(
            (id, label, order),
        ) && id@ == trim(form.problem_id@) && label@ == trim(form.label@) && order
            == form.display_order),
{
    let problem_id = trim_str(form.problem_id.as_str());
    let label = trim_str(form.label.as_str());
    if problem_id.as_str().is_empty() {
        return Err(String::from_str("問題を選択してください"));
    }
    if !problem_loads {
        return Err(String::from_str("選択した問題が見つかりません"));
    }
    if label.as_str().is_empty() {
        return Err(String::from_str("ラベルを入力してください"));
    }
    Ok((problem_id, label, form.display_order))
}

/// The query of a problem page.
#[derive(Debug, Clone)]
pub struct ProblemDetailQuery {
    pub cooldown_remaining_ms: Option<i64>,
}

/// The submission form of a problem page.
#[derive(Debug, Clone)]
pub struct ProblemSubmitForm {
    pub language: String,
    pub source_code: String,
}

/// The query of a paginated list.
#[derive(Debug, Clone)]
pub struct PageQuery {
    pub page: Option<i64>,
}

/// Entries per page of every paginated list.
pub const PER_PAGE: i64 = 20;

/// The number of pages of `total` entries: at least one.
pub open spec fn page_count_of(total: int) -> int {
    if total <= 0 {
        1
    } else {
        (total + PER_PAGE - 1) / (PER_PAGE as int)
    }
}

/// `((total + PER_PAGE - 1) / PER_PAGE).max(1)`.
pub fn page_count(total: i64) -> (n: i64)
    requires
        total <= i64::MAX - PER_PAGE,
    ensures
        n == page_count_of(total as int),
        n >= 1,
{
    if total <= 0 {
        1
    } else {
        (total + PER_PAGE - 1) / PER_PAGE
    }
}

/// The page shown: the requested one (the first when none is), kept
/// between 1 and `total_pages`.
pub open spec fn clamped_page(requested: Option<i64>, total_pages: int) -> int {
    let p = match requested {
        Some(p) => p as int,
        None => 1,
    };
    let p = if p < 1 { 1 } else { p };
    if p > total_pages { total_pages } else { p }
}

/// `requested.unwrap_or(1).max(1).min(total_pages)`.
pub fn clamp_page(requested: Option<i64>, total_pages: i64) -> (p: i64)
    requires
        total_pages >= 1,
    ensures
        p == clamped_page(requested, total_pages as int),
        1 <= p <= total_pages,
{
    let p = match requested {
        Some(p) => p,
        None => 1,
    };
    let p = if p < 1 { 1 } else { p };
    if p > total_pages { total_pages } else { p }
}

/// The entries `start..end` of a list of `len` entries shown on page `page`.
pub fn page_bounds(page: i64, len: usize) -> (r: (usize, usize))
    requires
        1 <= page,
        (page - 1) * PER_PAGE <= len,
        (page - 1) * PER_PAGE <= i64::MAX,
    ensures
        r.0 == (page - 1) * PER_PAGE,
        r.1 == (if r.0 + PER_PAGE < len { r.0 + PER_PAGE } else { len as int }),
        r.0 <= r.1 <= len,
{
    let start = ((page - 1) * PER_PAGE) as usize;
    let end = if len - start > (PER_PAGE as usize) { start + (PER_PAGE as usize) } else { len };
    (start, end)
}

/// A page of `len` entries exists for every clamped page number.
pub proof fn lemma_clamped_page_in_list(len: int, requested: Option<i64>)
    requires
        0 <= len <= i64::MAX - PER_PAGE,
    ensures
        1 <= clamped_page(requested, page_count_of(len)) <= page_count_of(len),
        (clamped_page(requested, page_count_of(len)) - 1) * PER_PAGE <= len,
{
    let n = page_count_of(len);
    let p = clamped_page(requested, n);
    if len > 0 {
        assert((p - 1) * PER_PAGE <= len) by (nonlinear_arith)
            requires
                1 <= p <= n,
                n == (len + PER_PAGE - 1) / (PER_PAGE as int),
                PER_PAGE == 20,
                len > 0,
        ;
    }
}

/// Whether a submission of a contest is hidden from the viewer: while the
/// contest is ongoing only its author may see it.
pub fn submission_hidden(status: ContestStatus, author: Option<u128>, viewer: Option<u128>) -> (b: bool)
    ensures
        b == (status is Ongoing && !(author is Some && viewer == author)),
{
    let is_owner = match author {
        Some(a) => match viewer {
            Some(v) => a == v,
            None => false,
        },
        None => false,
    };
    matches!(status, ContestStatus::Ongoing) && !is_owner
}

} // verus!
