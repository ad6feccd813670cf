//! The standings of an exact-judged contest: each user's first accepted
//! submissions are scored, the users ordered by total score (descending),
//! then by the time of their last accepted problem (ascending), and ranked.
use vstd::prelude::*;
use crate::text::{decimal, decimal2, push_char, push_decimal, push_decimal2, chars_of, name_le, names_le, lemma_name_le_total, lemma_name_le_trans};
use crate::types::str_is;

verus! {

/// The order of the standings: total score first (higher first), then the
/// time of the last accepted problem (earlier first; users without one come
/// after those with one), then, between users without one, the user name.
pub open spec fn key_le(x: (u64, Option<i64>, Seq<char>), y: (u64, Option<i64>, Seq<char>)) -> bool {
    x.0 > y.0 || (x.0 == y.0 && match (x.1, y.1) {
        (Some(a), Some(b)) => a <= b,
        (Some(_), None) => true,
        (None, Some(_)) => false,
        (None, None) => name_le(x.2, y.2),
    })
}

/// Any two keys are ordered one way or the other.
pub proof fn lemma_key_le_total(x: (u64, Option<i64>, Seq<char>), y: (u64, Option<i64>, Seq<char>))
    ensures
        key_le(x, y) || key_le(y, x),
{
    lemma_name_le_total(x.2, y.2);
}

/// The order of keys is transitive.
pub proof fn lemma_key_le_trans(
    x: (u64, Option<i64>, Seq<char>),
    y: (u64, Option<i64>, Seq<char>),
    z: (u64, Option<i64>, Seq<char>),
)
    requires
        key_le(x, y),
        key_le(y, z),
    ensures
        key_le(x, z),
{
    if x.0 == y.0 && y.0 == z.0 && x.1 is None && y.1 is None && z.1 is None {
        lemma_name_le_trans(x.2, y.2, z.2);
    }
}


/// A user's first accepted submission of a problem; the time is in
/// microseconds since the Unix epoch.
#[derive(Debug, Clone)]
pub struct FirstAc {
    pub user_id: u128,
    pub username: String,
    pub problem_id: String,
    pub first_ac_at: i64,
}

/// A problem of the contest: its id, its label and its score, `None` when
/// its files do not load.
#[derive(Debug, Clone)]
pub struct StandingProblem {
    pub problem_id: String,
    pub label: String,
    pub score: Option<u64>,
}

/// A user's result on one problem.
#[derive(Debug)]
pub struct ProblemCell {
    pub label: String,
    pub ac_time: Option<String>,
    pub score: String,
    pub has_result: bool,
}

/// A row of the standings.
#[derive(Debug)]
pub struct StandingRow {
    pub rank: usize,
    pub user_id: u128,
    pub username: String,
    pub total_score: String,
    /// The time from the contest start to the user's last accepted problem.
    pub elapsed_from_start: Option<String>,
    pub problems: Vec<ProblemCell>,
}

/// The users of `rows`, each once, in the order they first appear.
pub open spec fn user_ids(rows: Seq<FirstAc>) -> Seq<u128>
    decreases rows.len(),
{
    if rows.len() == 0 {
        Seq::empty()
    } else {
        let prev = user_ids(rows.drop_last());
        if prev.contains(rows.last().user_id) {
            prev
        } else {
            prev.push(rows.last().user_id)
        }
    }
}

/// The user name of `uid`: the one of its first row.
pub open spec fn username_of(rows: Seq<FirstAc>, uid: u128) -> Seq<char>
    decreases rows.len(),
{
    if rows.len() == 0 {
        Seq::empty()
    } else if rows[0].user_id == uid {
        rows[0].username@
    } else {
        username_of(rows.drop_first(), uid)
    }
}

/// When `uid` first solved `pid`: the time of the last row for the pair.
pub open spec fn solved_at(rows: Seq<FirstAc>, uid: u128, pid: Seq<char>) -> Option<i64>
    decreases rows.len(),
{
    if rows.len() == 0 {
        None
    } else if rows.last().user_id == uid && rows.last().problem_id@ == pid {
        Some(rows.last().first_ac_at)
    } else {
        solved_at(rows.drop_last(), uid, pid)
    }
}

/// The score a problem gives, 0 when its files do not load.
pub open spec fn score_of(p: StandingProblem) -> nat {
    match p.score {
        Some(s) => s as nat,
        None => 0,
    }
}

/// The total score of `uid`: the scores of the problems it solved.
pub open spec fn user_total(rows: Seq<FirstAc>, uid: u128, probs: Seq<StandingProblem>) -> nat
    decreases probs.len(),
{
    if probs.len() == 0 {
        0
    } else {
        user_total(rows, uid, probs.drop_last()) + if solved_at(
            rows,
            uid,
            probs.last().problem_id@,
        ) is Some {
            score_of(probs.last())
        } else {
            0
        }
    }
}

/// The time of the last problem `uid` solved, `None` when it solved none.
pub open spec fn user_last_ac(rows: Seq<FirstAc>, uid: u128, probs: Seq<StandingProblem>) -> Option<i64>
    decreases probs.len(),
{
    if probs.len() == 0 {
        None
    } else {
        let prev = user_last_ac(rows, uid, probs.drop_last());
        match solved_at(rows, uid, probs.last().problem_id@) {
            Some(t) => Some(
                match prev {
                    Some(p) => if p < t { t } else { p },
                    None => t,
                },
            ),
            None => prev,
        }
    }
}

/// A user's last accepted time is the latest of the times they first solved
/// each problem: no solved problem comes later, it is the time of one of
/// them, and there is none exactly when the user solved none. A user's total
/// is at least the score of each problem they solved, and 0 when they solved
/// none.
pub proof fn lemma_last_accept_is_latest(rows: Seq<FirstAc>, uid: u128, probs: Seq<StandingProblem>)
    ensures
        forall|k: int|
            0 <= k < probs.len() && #[trigger] solved_at(rows, uid, probs[k].problem_id@) is Some
                ==> (user_last_ac(rows, uid, probs) is Some && solved_at(rows, uid, probs[k].problem_id@)->0
                <= user_last_ac(rows, uid, probs)->0 && score_of(probs[k]) <= user_total(rows, uid, probs)),
        user_last_ac(rows, uid, probs) is Some ==> exists|k: int|
            0 <= k < probs.len() && #[trigger] solved_at(rows, uid, probs[k].problem_id@) == user_last_ac(
                rows,
                uid,
                probs,
            ),
        user_last_ac(rows, uid, probs) is None ==> user_total(rows, uid, probs) == 0 && forall|k: int|
            0 <= k < probs.len() ==> #[trigger] solved_at(rows, uid, probs[k].problem_id@) is None,
    decreases probs.len(),
{
    if probs.len() > 0 {
        let prev = probs.drop_last();
        lemma_last_accept_is_latest(rows, uid, prev);
        let n = probs.len() - 1;
        assert forall|k: int|
            0 <= k < probs.len() && #[trigger] solved_at(rows, uid, probs[k].problem_id@) is Some
            implies (user_last_ac(rows, uid, probs) is Some && solved_at(rows, uid, probs[k].problem_id@)->0
                <= user_last_ac(rows, uid, probs)->0 && score_of(probs[k]) <= user_total(rows, uid, probs)) by {
            if k < n {
                assert(prev[k] == probs[k]);
            }
        }
        if user_last_ac(rows, uid, probs) is Some {
            let l = user_last_ac(rows, uid, probs)->0;
            if user_last_ac(rows, uid, prev) is Some {
                let p = user_last_ac(rows, uid, prev)->0;
                let k = choose|k: int| 0 <= k < prev.len() && #[trigger] solved_at(rows, uid, prev[k].problem_id@) == Some(p);
                assert(prev[k] == probs[k]);
                if l != p {
                    assert(solved_at(rows, uid, probs[n].problem_id@) == Some(l));
                }
            } else {
                assert(solved_at(rows, uid, probs[n].problem_id@) == Some(l));
            }
        } else {
            assert forall|k: int| 0 <= k < probs.len() implies #[trigger] solved_at(rows, uid, probs[k].problem_id@) is None by {
                if k < n {
                    assert(prev[k] == probs[k]);
                }
            }
        }
    }
}

/// Whole seconds from the contest start to `t`, 0 for instants before it.
pub open spec fn elapsed_secs(t: i64, start: i64) -> nat {
    if t - start <= 0 {
        0
    } else {
        ((t - start) / 1_000_000) as nat
    }
}

/// Seconds shown as `h:mm:ss`.
pub open spec fn elapsed_text(secs: nat) -> Seq<char> {
    decimal(secs / 3600) + ":"@ + decimal2((secs % 3600) / 60) + ":"@ + decimal2(secs % 60)
}

/// The sort key of `uid`: total score, last accepted time, user name.
pub open spec fn key_of(rows: Seq<FirstAc>, probs: Seq<StandingProblem>, uid: u128) -> (u64, Option<i64>, Seq<char>) {
    (user_total(rows, uid, probs) as u64, user_last_ac(rows, uid, probs), username_of(rows, uid))
}

/// What ties two users in rank: the same total score and the same elapsed
/// time to their last accepted problem.
pub open spec fn rank_key(rows: Seq<FirstAc>, probs: Seq<StandingProblem>, start: i64, uid: u128) -> (nat, Option<nat>) {
    (
        user_total(rows, uid, probs),
        match user_last_ac(rows, uid, probs) {
            Some(t) => Some(elapsed_secs(t, start)),
            None => None,
        },
    )
}

/// `cell` shows the result of `uid` on problem `p`.
pub open spec fn cell_ok(cell: ProblemCell, rows: Seq<FirstAc>, uid: u128, p: StandingProblem, start: i64) -> bool {
    let at = solved_at(rows, uid, p.problem_id@);
    &&& cell.label@ == p.label@
    &&& cell.has_result == at is Some
    &&& cell.score@ == (if at is Some { decimal(score_of(p)) } else { Seq::empty() })
    &&& match at {
        Some(t) => cell.ac_time matches Some(x) && x@ == elapsed_text(elapsed_secs(t, start)),
        None => cell.ac_time is None,
    }
}

/// `row` shows the results of its user.
pub open spec fn row_ok(row: StandingRow, rows: Seq<FirstAc>, probs: Seq<StandingProblem>, start: i64) -> bool {
    let uid = row.user_id;
    &&& row.username@ == username_of(rows, uid)
    &&& row.total_score@ == decimal(user_total(rows, uid, probs))
    &&& match user_last_ac(rows, uid, probs) {
        Some(t) => row.elapsed_from_start matches Some(x) && x@ == elapsed_text(elapsed_secs(t, start)),
        None => row.elapsed_from_start is None,
    }
    &&& row.problems@.len() == probs.len()
    &&& forall|k: int| 0 <= k < probs.len() ==> cell_ok(#[trigger] row.problems@[k], rows, uid, probs[k], start)
}

/// The ranks of sorted standings: the first row is ranked 1; a row tied
/// with the row above keeps its rank; any other row is ranked by its
/// position.
pub open spec fn ranks_ok(out: Seq<StandingRow>, rows: Seq<FirstAc>, probs: Seq<StandingProblem>, start: i64) -> bool {
    forall|i: int| 0 <= i < out.len() ==> (#[trigger] out[i]).rank == (if i == 0 {
        1
    } else if rank_key(rows, probs, start, out[i].user_id) == rank_key(rows, probs, start, out[i - 1].user_id) {
        out[i - 1].rank as int
    } else {
        i + 1
    })
}

/// Every user's total score fits in a `u64` (a user without an accepted
/// problem has total 0).
pub open spec fn totals_fit(rows: Seq<FirstAc>, probs: Seq<StandingProblem>) -> bool {
    forall|u: u128| #[trigger] user_total(rows, u, probs) <= u64::MAX
}

proof fn lemma_user_total_prefix(rows: Seq<FirstAc>, uid: u128, probs: Seq<StandingProblem>, k: int)
    requires
        0 <= k <= probs.len(),
    ensures
        user_total(rows, uid, probs.take(k)) <= user_total(rows, uid, probs),
    decreases probs.len() - k,
{
    if k < probs.len() {
        lemma_user_total_prefix(rows, uid, probs, k + 1);
        assert(probs.take(k + 1).drop_last() =~= probs.take(k));
    } else {
        assert(probs.take(k) =~= probs);
    }
}

proof fn lemma_solved_at_absent(rows: Seq<FirstAc>, uid: u128, pid: Seq<char>)
    requires
        forall|j: int| 0 <= j < rows.len() ==> (#[trigger] rows[j]).user_id != uid,
    ensures
        solved_at(rows, uid, pid) is None,
    decreases rows.len(),
{
    if rows.len() > 0 {
        let prev = rows.drop_last();
        assert forall|j: int| 0 <= j < prev.len() implies (#[trigger] prev[j]).user_id != uid by {
            assert(prev[j] == rows[j]);
        }
        assert(rows.last() == rows[rows.len() - 1]);
        lemma_solved_at_absent(prev, uid, pid);
    }
}

proof fn lemma_user_total_absent(rows: Seq<FirstAc>, uid: u128, probs: Seq<StandingProblem>)
    requires
        forall|j: int| 0 <= j < rows.len() ==> (#[trigger] rows[j]).user_id != uid,
    ensures
        user_total(rows, uid, probs) == 0,
    decreases probs.len(),
{
    if probs.len() > 0 {
        lemma_user_total_absent(rows, uid, probs.drop_last());
        lemma_solved_at_absent(rows, uid, probs.last().problem_id@);
    }
}

/// The user ids of `rows`, each once, in order of first appearance.
fn collect_users(rows: &Vec<FirstAc>) -> (users: Vec<u128>)
    ensures
        users@ == user_ids(rows@),
        users@.no_duplicates(),
{
    let mut users: Vec<u128> = Vec::new();
    let mut i: usize = 0;
    while i < rows.len()
        invariant
            i <= rows@.len(),
            users@ == user_ids(rows@.take(i as int)),
            users@.no_duplicates(),
        decreases rows.len() - i,
    {
        let uid = rows[i].user_id;
        assert(rows@.take(i + 1).drop_last() =~= rows@.take(i as int));
        let mut found = false;
        let mut k: usize = 0;
        while k < users.len()
            invariant
                k <= users@.len(),
                found == (exists|m: int| 0 <= m < k && users@[m] == uid),
            decreases users.len() - k,
        {
            if users[k] == uid {
                found = true;
            }
            k = k + 1;
        }
        if !found {
            users.push(uid);
        }
        i = i + 1;
    }
    assert(rows@.take(rows@.len() as int) =~= rows@);
    users
}

/// The user name of `uid` in `rows`.
fn find_username(rows: &Vec<FirstAc>, uid: u128) -> (name: String)
    ensures
        name@ == username_of(rows@, uid),
{
    let mut i: usize = 0;
    assert(rows@.skip(0) =~= rows@);
    while i < rows.len()
        invariant
            i <= rows@.len(),
            username_of(rows@, uid) == username_of(rows@.skip(i as int), uid),
        decreases rows.len() - i,
    {
        if rows[i].user_id == uid {
            return rows[i].username.clone();
        }
        assert(rows@.skip(i as int).drop_first() =~= rows@.skip(i + 1));
        i = i + 1;
    }
    String::new()
}

/// When `uid` first solved `pid`.
fn find_solved_at(rows: &Vec<FirstAc>, uid: u128, pid: &str) -> (t: Option<i64>)
    ensures
        t == solved_at(rows@, uid, pid@),
{
    let mut found: Option<i64> = None;
    let mut i: usize = 0;
    while i < rows.len()
        invariant
            i <= rows@.len(),
            found == solved_at(rows@.take(i as int), uid, pid@),
        decreases rows.len() - i,
    {
        assert(rows@.take(i + 1).drop_last() =~= rows@.take(i as int));
        if rows[i].user_id == uid && str_is(rows[i].problem_id.as_str(), pid) {
            found = Some(rows[i].first_ac_at);
        }
        i = i + 1;
    }
    assert(rows@.take(rows@.len() as int) =~= rows@);
    found
}

/// The total score of `uid`, or `None` where it does not fit in a `u64`.
fn user_total_checked(rows: &Vec<FirstAc>, probs: &Vec<StandingProblem>, uid: u128) -> (r: Option<u64>)
    ensures
        r matches Some(t) ==> t == user_total(rows@, uid, probs@),
        r is None ==> user_total(rows@, uid, probs@) > u64::MAX,
{
    let mut total: u64 = 0;
    let mut k: usize = 0;
    while k < probs.len()
        invariant
            k <= probs@.len(),
            total == user_total(rows@, uid, probs@.take(k as int)),
        decreases probs.len() - k,
    {
        let p = &probs[k];
        assert(probs@.take(k + 1).drop_last() =~= probs@.take(k as int));
        assert(probs@.take(k + 1).last() == probs@[k as int]);
        let at = find_solved_at(rows, uid, p.problem_id.as_str());
        if at.is_some() {
            let score: u64 = match p.score {
                Some(sc) => sc,
                None => 0,
            };
            if total > u64::MAX - score {
                proof {
                    lemma_user_total_prefix(rows@, uid, probs@, k + 1);
                }
                return None;
            }
            total = total + score;
        }
        k = k + 1;
    }
    assert(probs@.take(probs@.len() as int) =~= probs@);
    Some(total)
}

/// Whether every user's total score fits in a `u64`, the condition under
/// which `exact_standings` sums the scores.
pub fn standings_totals_fit(rows: &Vec<FirstAc>, probs: &Vec<StandingProblem>) -> (b: bool)
    ensures
        b == totals_fit(rows@, probs@),
{
    let mut i: usize = 0;
    while i < rows.len()
        invariant
            i <= rows@.len(),
            forall|j: int| 0 <= j < i ==> #[trigger] user_total(rows@, rows@[j].user_id, probs@) <= u64::MAX,
        decreases rows.len() - i,
    {
        let uid = rows[i].user_id;
        if user_total_checked(rows, probs, uid).is_none() {
            return false;
        }
        i = i + 1;
    }
    assert forall|u: u128| #[trigger] user_total(rows@, u, probs@) <= u64::MAX by {
        if exists|j: int| 0 <= j < rows@.len() && rows@[j].user_id == u {
            let j = choose|j: int| 0 <= j < rows@.len() && rows@[j].user_id == u;
            assert(user_total(rows@, rows@[j].user_id, probs@) <= u64::MAX);
        } else {
            lemma_user_total_absent(rows@, u, probs@);
        }
    }
    true
}

/// Whole seconds from `start` to `t`, 0 before the start.
pub fn elapsed_seconds(t: i64, start: i64) -> (s: u64)
    ensures
        s == elapsed_secs(t, start),
{
    let d: i128 = (t as i128) - (start as i128);
    if d <= 0 {
        0
    } else {
        (d / 1_000_000) as u64
    }
}

/// Seconds shown as `h:mm:ss`.
pub fn fmt_elapsed(secs: u64) -> (s: String)
    ensures
        s@ == elapsed_text(secs as nat),
{
    let mut s = String::new();
    push_decimal(&mut s, secs / 3600);
    push_char(&mut s, ':');
    push_decimal2(&mut s, (secs % 3600) / 60);
    push_char(&mut s, ':');
    push_decimal2(&mut s, secs % 60);
    assert(s@ =~= elapsed_text(secs as nat)) by {
        reveal_strlit(":");
    }
    s
}

/// The results of `uid` on every problem, its total and its last accepted time.
fn user_results(rows: &Vec<FirstAc>, probs: &Vec<StandingProblem>, uid: u128, start: i64) -> (r: (Vec<ProblemCell>, u64, Option<i64>))
    requires
        totals_fit(rows@, probs@),
    ensures
        r.0@.len() == probs@.len(),
        forall|k: int| 0 <= k < probs@.len() ==> cell_ok(#[trigger] r.0@[k], rows@, uid, probs@[k], start),
        r.1 == user_total(rows@, uid, probs@),
        r.2 == user_last_ac(rows@, uid, probs@),
{
    let mut cells: Vec<ProblemCell> = Vec::new();
    let mut total: u64 = 0;
    let mut last: Option<i64> = None;
    let mut k: usize = 0;
    while k < probs.len()
        invariant
            k <= probs@.len(),
            totals_fit(rows@, probs@),
            cells@.len() == k,
            forall|q: int| 0 <= q < k ==> cell_ok(#[trigger] cells@[q], rows@, uid, probs@[q], start),
            total == user_total(rows@, uid, probs@.take(k as int)),
            last == user_last_ac(rows@, uid, probs@.take(k as int)),
        decreases probs.len() - k,
    {
        let p = &probs[k];
        let ghost pre = probs@.take(k as int);
        assert(probs@.take(k + 1).drop_last() =~= pre);
        assert(probs@.take(k + 1).last() == probs@[k as int]);
        let at = find_solved_at(rows, uid, p.problem_id.as_str());
        let score: u64 = match p.score {
            Some(s) => s,
            None => 0,
        };
        let cell = match at {
            Some(t) => {
                proof {
                    lemma_user_total_prefix(rows@, uid, probs@, k + 1);
                }
                total = total + score;
                last = Some(
                    match last {
                        Some(prev) => if prev < t { t } else { prev },
                        None => t,
                    },
                );
                ProblemCell {
                    label: p.label.clone(),
                    ac_time: Some(fmt_elapsed(elapsed_seconds(t, start))),
                    score: crate::text::decimal_string(score),
                    has_result: true,
                }
            },
            None => ProblemCell {
                label: p.label.clone(),
                ac_time: None,
                score: String::new(),
                has_result: false,
            },
        };
        cells.push(cell);
        k = k + 1;
    }
    assert(probs@.take(probs@.len() as int) =~= probs@);
    (cells, total, last)
}


/// Whether key `(t1, l1, n1)` comes no later than `(t2, l2, n2)`.
fn key_le_exec(t1: u64, l1: Option<i64>, n1: &String, t2: u64, l2: Option<i64>, n2: &String) -> (r: bool)
    ensures
        r == key_le((t1, l1, n1@), (t2, l2, n2@)),
{
    if t1 != t2 {
        return t1 > t2;
    }
    match (l1, l2) {
        (Some(a), Some(b)) => a <= b,
        (Some(_), None) => true,
        (None, Some(_)) => false,
        (None, None) => {
            let x = chars_of(n1.as_str());
            let y = chars_of(n2.as_str());
            names_le(x.as_slice(), y.as_slice())
        },
    }
}

/// The key of user `j` in the parallel vectors.
pub open spec fn key_at(totals: Seq<u64>, lasts: Seq<Option<i64>>, names: Seq<String>, j: int) -> (u64, Option<i64>, Seq<char>) {
    (totals[j], lasts[j], names[j]@)
}

/// The indices `0..n` ordered by the key of the user they stand for.
fn sorted_order(totals: &Vec<u64>, lasts: &Vec<Option<i64>>, names: &Vec<String>) -> (order: Vec<usize>)
    requires
        totals@.len() == lasts@.len() == names@.len(),
    ensures
        order@.len() == totals@.len(),
        order@.no_duplicates(),
        forall|i: int| 0 <= i < order@.len() ==> #[trigger] order@[i] < totals@.len(),
        forall|a: int, b: int|
            0 <= a < b < order@.len() ==> key_le(
                key_at(totals@, lasts@, names@, order@[a] as int),
                key_at(totals@, lasts@, names@, order@[b] as int),
            ),
{
    let n = totals.len();
    let mut order: Vec<usize> = Vec::new();
    let mut j: usize = 0;
    while j < n
        invariant
            j <= n == totals@.len() == lasts@.len() == names@.len(),
            order@.len() == j,
            order@.no_duplicates(),
            forall|i: int| 0 <= i < order@.len() ==> #[trigger] order@[i] < j,
            forall|a: int, b: int|
                0 <= a < b < order@.len() ==> key_le(
                    key_at(totals@, lasts@, names@, order@[a] as int),
                    key_at(totals@, lasts@, names@, order@[b] as int),
                ),
        decreases n - j,
    {
        let ghost kj = key_at(totals@, lasts@, names@, j as int);
        let mut p: usize = 0;
        while p < order.len() && key_le_exec(
            totals[order[p]],
            lasts[order[p]],
            &names[order[p]],
            totals[j],
            lasts[j],
            &names[j],
        )
            invariant
                p <= order@.len(),
                j < n == totals@.len() == lasts@.len() == names@.len(),
                kj == key_at(totals@, lasts@, names@, j as int),
                forall|i: int| 0 <= i < order@.len() ==> #[trigger] order@[i] < j,
                forall|i: int| 0 <= i < p ==> key_le(key_at(totals@, lasts@, names@, #[trigger] order@[i] as int), kj),
            decreases order@.len() - p,
        {
            p = p + 1;
        }
        let ghost old_order = order@;
        proof {
            if p < old_order.len() {
                lemma_key_le_total(key_at(totals@, lasts@, names@, old_order[p as int] as int), kj);
            }
        }
        order.insert(p, j);
        proof {
            assert forall|a: int, b: int| 0 <= a < b < order@.len() implies key_le(
                key_at(totals@, lasts@, names@, order@[a] as int),
                key_at(totals@, lasts@, names@, order@[b] as int),
            ) by {
                if b == p {
                    assert(order@[a] == old_order[a]);
                } else if a == p {
                    assert(order@[b] == old_order[b - 1]);
                    if b - 1 > p {
                        lemma_key_le_trans(
                            kj,
                            key_at(totals@, lasts@, names@, old_order[p as int] as int),
                            key_at(totals@, lasts@, names@, old_order[b - 1] as int),
                        );
                    }
                } else {
                    let a0 = if a < p { a } else { a - 1 };
                    let b0 = if b < p { b } else { b - 1 };
                    assert(order@[a] == old_order[a0]);
                    assert(order@[b] == old_order[b0]);
                }
            }
            assert forall|x: int, y: int| 0 <= x < order@.len() && 0 <= y < order@.len() && x != y implies order@[x] != order@[y] by {
                let x0 = if x < p { x } else { x - 1 };
                let y0 = if y < p { y } else { y - 1 };
                if x != p && y != p {
                    assert(order@[x] == old_order[x0]);
                    assert(order@[y] == old_order[y0]);
                } else if x == p {
                    assert(order@[y] == old_order[y0]);
                } else {
                    assert(order@[x] == old_order[x0]);
                }
            }
            assert forall|i: int| 0 <= i < order@.len() implies #[trigger] order@[i] < j + 1 by {
                if i < p {
                    assert(order@[i] == old_order[i]);
                } else if i > p {
                    assert(order@[i] == old_order[i - 1]);
                }
            }
        }
        j = j + 1;
    }
    order
}


/// The standings of an exact-judged contest: one row per user with an
/// accepted submission, sorted by `key_le`, and ranked so that tied users
/// (same total, same elapsed time) share a rank.
pub fn exact_standings(rows: &Vec<FirstAc>, probs: &Vec<StandingProblem>, start: i64) -> (out: Vec<StandingRow>)
    requires
        totals_fit(rows@, probs@),
    ensures
        out@.len() == user_ids(rows@).len(),
        forall|i: int| 0 <= i < out@.len() ==> user_ids(rows@).contains(#[trigger] out@[i].user_id),
        forall|a: int, b: int| 0 <= a < b < out@.len() ==> out@[a].user_id != out@[b].user_id,
        forall|i: int| 0 <= i < out@.len() ==> row_ok(#[trigger] out@[i], rows@, probs@, start),
        forall|a: int, b: int|
            0 <= a < b < out@.len() ==> key_le(
                key_of(rows@, probs@, out@[a].user_id),
                key_of(rows@, probs@, out@[b].user_id),
            ),
        ranks_ok(out@, rows@, probs@, start),
{
    let users = collect_users(rows);
    let n = users.len();
    let mut totals: Vec<u64> = Vec::new();
    let mut lasts: Vec<Option<i64>> = Vec::new();
    let mut names: Vec<String> = Vec::new();
    let mut j: usize = 0;
    while j < n
        invariant
            j <= n == users@.len(),
            totals_fit(rows@, probs@),
            totals@.len() == j && lasts@.len() == j && names@.len() == j,
            forall|q: int| 0 <= q < j ==> key_at(totals@, lasts@, names@, q) == #[trigger] key_of(rows@, probs@, users@[q]),
        decreases n - j,
    {
        let uid = users[j];
        let (_, t, l) = user_results(rows, probs, uid, start);
        totals.push(t);
        lasts.push(l);
        names.push(find_username(rows, uid));
        proof {
            assert(user_total(rows@, uid, probs@) <= u64::MAX);
            assert(key_at(totals@, lasts@, names@, j as int) == key_of(rows@, probs@, users@[j as int]));
        }
        j = j + 1;
    }
    let order = sorted_order(&totals, &lasts, &names);
    let mut out: Vec<StandingRow> = Vec::new();
    let mut prev_total: u64 = 0;
    let mut prev_elapsed: Option<u64> = None;
    let mut prev_rank: usize = 0;
    let mut pos: usize = 0;
    while pos < n
        invariant
            pos <= n == users@.len() == order@.len() == totals@.len() == lasts@.len() == names@.len(),
            totals_fit(rows@, probs@),
            users@ == user_ids(rows@),
            users@.no_duplicates(),
            order@.no_duplicates(),
            forall|i: int| 0 <= i < order@.len() ==> #[trigger] order@[i] < n,
            forall|q: int| 0 <= q < n ==> key_at(totals@, lasts@, names@, q) == #[trigger] key_of(rows@, probs@, users@[q]),
            forall|a: int, b: int|
                0 <= a < b < order@.len() ==> key_le(
                    key_at(totals@, lasts@, names@, order@[a] as int),
                    key_at(totals@, lasts@, names@, order@[b] as int),
                ),
            out@.len() == pos,
            forall|i: int| 0 <= i < pos ==> (#[trigger] out@[i]).user_id == users@[order@[i] as int],
            forall|i: int| 0 <= i < pos ==> row_ok(#[trigger] out@[i], rows@, probs@, start),
            ranks_ok(out@, rows@, probs@, start),
            pos > 0 ==> out@[pos - 1].rank == prev_rank && prev_rank <= pos,
            pos > 0 ==> rank_key(rows@, probs@, start, out@[pos - 1].user_id) == (prev_total as nat, match prev_elapsed {
                Some(e) => Some(e as nat),
                None => None::<nat>,
            }),
        decreases n - pos,
    {
        let k = order[pos];
        let uid = users[k];
        let (cells, total, last) = user_results(rows, probs, uid, start);
        let elapsed: Option<u64> = match last {
            Some(t) => Some(elapsed_seconds(t, start)),
            None => None,
        };
        let same_elapsed = match (elapsed, prev_elapsed) {
            (Some(x), Some(y)) => x == y,
            (None, None) => true,
            _ => false,
        };
        let rank: usize = if pos == 0 {
            1
        } else if total == prev_total && same_elapsed {
            prev_rank
        } else {
            pos + 1
        };
        let elapsed_text = match elapsed {
            Some(e) => Some(fmt_elapsed(e)),
            None => None,
        };
        let row = StandingRow {
            rank,
            user_id: uid,
            username: names[k].clone(),
            total_score: crate::text::decimal_string(total),
            elapsed_from_start: elapsed_text,
            problems: cells,
        };
        proof {
            assert(user_total(rows@, uid, probs@) <= u64::MAX);
        }
        let ghost before = out@;
        out.push(row);
        proof {
            assert(out@[pos as int].user_id == users@[order@[pos as int] as int]);
            assert(key_at(totals@, lasts@, names@, k as int) == key_of(rows@, probs@, users@[k as int]));
            assert(out@[pos as int].username@ == username_of(rows@, uid));
            assert(out@[pos as int].total_score@ == decimal(user_total(rows@, uid, probs@)));
            assert(out@[pos as int].problems@ == cells@);
            assert(row_ok(out@[pos as int], rows@, probs@, start));
            assert forall|i: int| 0 <= i < out@.len() implies (#[trigger] out@[i]).rank == (if i == 0 {
                1
            } else if rank_key(rows@, probs@, start, out@[i].user_id) == rank_key(rows@, probs@, start, out@[i - 1].user_id) {
                out@[i - 1].rank as int
            } else {
                i + 1
            }) by {
                if i < pos {
                    assert(out@[i] == before[i]);
                }
            }
        }
        prev_total = total;
        prev_elapsed = elapsed;
        prev_rank = rank;
        pos = pos + 1;
    }
    proof {
        assert forall|i: int| 0 <= i < out@.len() implies user_ids(rows@).contains(#[trigger] out@[i].user_id) by {
            assert(users@[order@[i] as int] == out@[i].user_id);
        }
        assert forall|a: int, b: int| 0 <= a < b < out@.len() implies out@[a].user_id != out@[b].user_id by {
            assert(order@[a] != order@[b]);
        }
    }
    out
}


/// Standings sorted by `key_le`.
pub open spec fn sorted_standings(out: Seq<StandingRow>, rows: Seq<FirstAc>, probs: Seq<StandingProblem>) -> bool {
    forall|a: int, b: int|
        0 <= a < b < out.len() ==> key_le(key_of(rows, probs, out[a].user_id), key_of(rows, probs, out[b].user_id))
}

proof fn lemma_elapsed_monotone(t1: i64, t2: i64, start: i64)
    requires
        t1 <= t2,
    ensures
        elapsed_secs(t1, start) <= elapsed_secs(t2, start),
{
}

proof fn lemma_ranks_step(out: Seq<StandingRow>, rows: Seq<FirstAc>, probs: Seq<StandingProblem>, start: i64, i: int)
    requires
        ranks_ok(out, rows, probs, start),
        0 <= i < out.len(),
    ensures
        1 <= out[i].rank <= i + 1,
        i > 0 ==> out[i - 1].rank <= out[i].rank,
    decreases i,
{
    if i > 0 {
        lemma_ranks_step(out, rows, probs, start, i - 1);
    }
}

proof fn lemma_ranks_monotone(out: Seq<StandingRow>, rows: Seq<FirstAc>, probs: Seq<StandingProblem>, start: i64, i: int, j: int)
    requires
        ranks_ok(out, rows, probs, start),
        0 <= i <= j < out.len(),
    ensures
        out[i].rank <= out[j].rank,
    decreases j - i,
{
    if i < j {
        lemma_ranks_monotone(out, rows, probs, start, i, j - 1);
        lemma_ranks_step(out, rows, probs, start, j);
    }
}

/// Between two rows with the same rank key, every row has that key too.
proof fn lemma_tie_between(out: Seq<StandingRow>, rows: Seq<FirstAc>, probs: Seq<StandingProblem>, start: i64, i: int, m: int, j: int)
    requires
        sorted_standings(out, rows, probs),
        0 <= i <= m <= j < out.len(),
        totals_fit(rows, probs),
        rank_key(rows, probs, start, out[i].user_id) == rank_key(rows, probs, start, out[j].user_id),
    ensures
        rank_key(rows, probs, start, out[m].user_id) == rank_key(rows, probs, start, out[i].user_id),
{
    let (ui, um, uj) = (out[i].user_id, out[m].user_id, out[j].user_id);
    assert(user_total(rows, ui, probs) <= u64::MAX);
    assert(user_total(rows, um, probs) <= u64::MAX);
    assert(user_total(rows, uj, probs) <= u64::MAX);
    if i < m {
        assert(key_le(key_of(rows, probs, ui), key_of(rows, probs, um)));
    }
    if m < j {
        assert(key_le(key_of(rows, probs, um), key_of(rows, probs, uj)));
    }
    let (li, lm, lj) = (user_last_ac(rows, ui, probs), user_last_ac(rows, um, probs), user_last_ac(rows, uj, probs));
    if li is Some && lm is Some && lj is Some {
        if i < m {
            lemma_elapsed_monotone(li->0, lm->0, start);
        }
        if m < j {
            lemma_elapsed_monotone(lm->0, lj->0, start);
        }
    }
}

/// Ranks of the standings: they start at 1 and never decrease down the
/// table, no rank exceeds its row's position, tied users (same total, same
/// elapsed time) share a rank, and a higher total always means a strictly
/// better rank.
pub proof fn lemma_standings_ranks(out: Seq<StandingRow>, rows: Seq<FirstAc>, probs: Seq<StandingProblem>, start: i64)
    requires
        sorted_standings(out, rows, probs),
        ranks_ok(out, rows, probs, start),
        totals_fit(rows, probs),
    ensures
        forall|i: int| 0 <= i < out.len() ==> 1 <= #[trigger] out[i].rank <= i + 1,
        forall|i: int, j: int| 0 <= i <= j < out.len() ==> out[i].rank <= out[j].rank,
        forall|i: int, j: int|
            0 <= i < j < out.len() && rank_key(rows, probs, start, out[i].user_id) == rank_key(rows, probs, start, out[j].user_id)
                ==> out[i].rank == out[j].rank,
        forall|i: int, j: int|
            0 <= i < j < out.len() && user_total(rows, out[i].user_id, probs) > user_total(rows, out[j].user_id, probs)
                ==> out[i].rank < out[j].rank,
{
    assert forall|i: int| 0 <= i < out.len() implies 1 <= #[trigger] out[i].rank <= i + 1 by {
        lemma_ranks_step(out, rows, probs, start, i);
    }
    assert forall|i: int, j: int| 0 <= i <= j < out.len() implies out[i].rank <= out[j].rank by {
        lemma_ranks_monotone(out, rows, probs, start, i, j);
    }
    assert forall|i: int, j: int|
        0 <= i < j < out.len() && rank_key(rows, probs, start, out[i].user_id) == rank_key(rows, probs, start, out[j].user_id)
        implies out[i].rank == out[j].rank by {
        lemma_tie_run(out, rows, probs, start, i, j);
    }
    assert forall|i: int, j: int|
        0 <= i < j < out.len() && user_total(rows, out[i].user_id, probs) > user_total(rows, out[j].user_id, probs)
        implies out[i].rank < out[j].rank by {
        lemma_total_drop(out, rows, probs, start, i, j);
    }
}

#[verifier::spinoff_prover]
#[verifier::rlimit(40)]
proof fn lemma_tie_run(out: Seq<StandingRow>, rows: Seq<FirstAc>, probs: Seq<StandingProblem>, start: i64, i: int, j: int)
    requires
        sorted_standings(out, rows, probs),
        ranks_ok(out, rows, probs, start),
        totals_fit(rows, probs),
        0 <= i < j < out.len(),
        rank_key(rows, probs, start, out[i].user_id) == rank_key(rows, probs, start, out[j].user_id),
    ensures
        out[i].rank == out[j].rank,
    decreases j - i,
{
    lemma_tie_between(out, rows, probs, start, i, j - 1, j);
    if i < j - 1 {
        lemma_tie_run(out, rows, probs, start, i, j - 1);
    }
}

proof fn lemma_total_drop(out: Seq<StandingRow>, rows: Seq<FirstAc>, probs: Seq<StandingProblem>, start: i64, i: int, j: int)
    requires
        ranks_ok(out, rows, probs, start),
        0 <= i < j < out.len(),
        user_total(rows, out[i].user_id, probs) > user_total(rows, out[j].user_id, probs),
    ensures
        out[i].rank < out[j].rank,
    decreases j - i,
{
    lemma_ranks_step(out, rows, probs, start, i);
    if user_total(rows, out[j - 1].user_id, probs) == user_total(rows, out[j].user_id, probs) {
        lemma_total_drop(out, rows, probs, start, i, j - 1);
        lemma_ranks_step(out, rows, probs, start, j);
    } else {
        lemma_ranks_monotone(out, rows, probs, start, i, j - 1);
        lemma_ranks_step(out, rows, probs, start, j - 1);
    }
}

} // verus!
