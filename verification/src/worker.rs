//! The decisions of judging a submission: the limits it runs under, the
//! verdict of each test case, and the submission's result over all of them.
//! Every test case is run; the first failing one decides the verdict.
use vstd::prelude::*;
use crate::sandbox::{RunStatus, SandboxConfig};
use crate::text::{chars_of, push_all, slices_equal, trim, trim_str};
use crate::types::{JudgeStatus, Language};

verus! {

/// The sandbox limits of a submission: its problem's time limit, 16 MiB of
/// output, an address space of twice the memory limit except for
/// interpreted languages, no process-count limit, and the system-call filter
/// except for runtimes it does not fit.
pub fn sandbox_config_for(language: Language, time_limit_ms: u64, memory_limit_kb: u64) -> (c: SandboxConfig)
    requires
        memory_limit_kb * 2048 <= u64::MAX,
    ensures
        c.time_limit_ms == time_limit_ms,
        c.max_output_bytes == 16 * 1024 * 1024,
        c.vm_limit_bytes == (if language is Python || language is PyPy {
            None
        } else {
            Some((memory_limit_kb * 2048) as u64)
        }),
        c.nproc_limit is None,
        c.enable_seccomp == !(language is Java || language is Go || language is Text),
{
    let mem = memory_limit_kb * 1024;
    SandboxConfig {
        time_limit_ms,
        max_output_bytes: 16 * 1024 * 1024,
        vm_limit_bytes: if language.is_interpreted() { None } else { Some(mem * 2) },
        nproc_limit: None,
        enable_seccomp: !language.needs_relaxed_seccomp(),
    }
}

/// The verdict of a submission whose preparation failed: a compile error
/// with the compiler's message, and then no test case is run; `None` when
/// it was prepared.
pub fn compile_verdict(error: &Option<String>) -> (r: Option<JudgeStatus>)
    ensures
        error is None <==> r is None,
        error matches Some(m) ==> (r matches Some(JudgeStatus::CompileError { message }) && message@ == m@),
{
    match error {
        Some(m) => Some(JudgeStatus::CompileError { message: m.clone() }),
        None => None,
    }
}

/// A run's wall time in whole milliseconds, as a `u64` (`as_millis() as u64`).
pub fn case_time_ms(wall_time_used_ns: u128) -> (ms: u64)
    ensures
        ms == (wall_time_used_ns / 1_000_000) as u64,
{
    (wall_time_used_ns / 1_000_000) as u64
}

/// How a test case's output is checked.
pub enum CaseCheck {
    /// Compared with the expected output, both trimmed; a missing expected
    /// output counts as empty.
    Exact(Option<String>),
    /// Scored by the problem's scorer: whether it gave a score, or its
    /// error's text. It is run only for a run that ended normally.
    Heuristic(Result<(), String>),
}

/// The text a missing expected output counts as.
pub open spec fn expected_text(e: Option<String>) -> Seq<char> {
    match e {
        Some(s) => s@,
        None => Seq::empty(),
    }
}

/// The verdict of one test case: over time is `TimeLimitExceeded`; a
/// runtime error or a kill is `MemoryLimitExceeded` where the memory used
/// passed the limit, else a runtime error with the exit code (-1 where there
/// is none); a normal end is judged by the check.
pub open spec fn case_verdict(
    status: RunStatus,
    exit_code: Option<i32>,
    memory_used_kb: u64,
    memory_limit_kb: u64,
    stdout: Seq<char>,
    check: CaseCheck,
    r: JudgeStatus,
) -> bool {
    match status {
        RunStatus::TimeLimitExceeded => r is TimeLimitExceeded,
        RunStatus::RuntimeError | RunStatus::Killed => if memory_used_kb > memory_limit_kb {
            r is MemoryLimitExceeded
        } else {
            r == JudgeStatus::RuntimeError {
                exit_code: match exit_code {
                    Some(c) => c,
                    None => -1i32,
                },
            }
        },
        RunStatus::Success => match check {
            CaseCheck::Exact(e) => if trim(stdout) == trim(expected_text(e)) {
                r is Accepted
            } else {
                r is WrongAnswer
            },
            CaseCheck::Heuristic(Ok(())) => r is Scored,
            CaseCheck::Heuristic(Err(m)) => r matches JudgeStatus::InternalError { message } && message@ == m@,
        },
    }
}

/// What a test case's verdict means: under exact judging a normal run is
/// Accepted exactly when its output, trimmed, equals the expected output,
/// trimmed, and WrongAnswer otherwise; a verdict is a success only for a run
/// that ended normally; an exact check never scores and a heuristic one never
/// compares; a memory-limit verdict needs memory beyond the limit; and an
/// over-time run is always a time-limit verdict.
pub proof fn lemma_case_verdict_meaning(
    status: RunStatus,
    exit_code: Option<i32>,
    memory_used_kb: u64,
    memory_limit_kb: u64,
    stdout: Seq<char>,
    check: CaseCheck,
    r: JudgeStatus,
)
    requires
        case_verdict(status, exit_code, memory_used_kb, memory_limit_kb, stdout, check, r),
    ensures
        (status is Success && check is Exact) ==> ((r is Accepted) <==> trim(stdout) == trim(
            expected_text(check->Exact_0),
        )),
        status is Success && check is Exact ==> (r is Accepted || r is WrongAnswer),
        r.is_success() ==> status is Success,
        check is Exact ==> !(r is Scored),
        check is Heuristic ==> !(r is Accepted || r is WrongAnswer),
        r is MemoryLimitExceeded ==> memory_used_kb > memory_limit_kb && !(status is Success),
        status is TimeLimitExceeded ==> r is TimeLimitExceeded,
        r is TimeLimitExceeded ==> status is TimeLimitExceeded,
        r is RuntimeError ==> (status is RuntimeError || status is Killed) && r->exit_code == (match exit_code {
            Some(x) => x,
            None => -1i32,
        }),
{
}

/// Whether the scorer is run for a case: heuristic judging of a run that
/// ended normally.
pub fn needs_scorer(heuristic: bool, status: RunStatus) -> (b: bool)
    ensures
        b == (heuristic && status == RunStatus::Success),
{
    heuristic && status == RunStatus::Success
}

/// The verdict of one test case.
pub fn case_status(
    status: RunStatus,
    exit_code: Option<i32>,
    memory_used_kb: u64,
    memory_limit_kb: u64,
    stdout: &str,
    check: CaseCheck,
) -> (r: JudgeStatus)
    ensures
        case_verdict(status, exit_code, memory_used_kb, memory_limit_kb, stdout@, check, r),
{
    match status {
        RunStatus::TimeLimitExceeded => JudgeStatus::TimeLimitExceeded,
        RunStatus::RuntimeError | RunStatus::Killed => {
            if memory_used_kb > memory_limit_kb {
                JudgeStatus::MemoryLimitExceeded
            } else {
                JudgeStatus::RuntimeError {
                    exit_code: match exit_code {
                        Some(c) => c,
                        None => -1,
                    },
                }
            }
        },
        RunStatus::Success => match check {
            CaseCheck::Exact(e) => {
                let expected = match e {
                    Some(s) => s,
                    None => String::new(),
                };
                let a = trim_str(stdout);
                let b = trim_str(expected.as_str());
                let av = chars_of(a.as_str());
                let bv = chars_of(b.as_str());
                if slices_equal(av.as_slice(), bv.as_slice()) {
                    JudgeStatus::Accepted
                } else {
                    JudgeStatus::WrongAnswer
                }
            },
            CaseCheck::Heuristic(Ok(())) => JudgeStatus::Scored,
            CaseCheck::Heuristic(Err(m)) => JudgeStatus::InternalError { message: m },
        },
    }
}

/// The short label of a test case's verdict.
pub open spec fn verdict_label_of(st: JudgeStatus) -> Seq<char> {
    match st {
        JudgeStatus::Accepted => "AC"@,
        JudgeStatus::WrongAnswer => "WA"@,
        JudgeStatus::TimeLimitExceeded => "TLE"@,
        JudgeStatus::MemoryLimitExceeded => "MLE"@,
        JudgeStatus::RuntimeError { .. } => "RE"@,
        JudgeStatus::Scored => "SCORED"@,
        _ => "IE"@,
    }
}

/// The short label of a test case's verdict (`AC`, `WA`, `TLE`, `MLE`,
/// `RE`, `SCORED`, and `IE` for anything else).
pub fn verdict_label(st: &JudgeStatus) -> (s: &'static str)
    ensures
        s@ == verdict_label_of(*st),
{
    match st {
        JudgeStatus::Accepted => "AC",
        JudgeStatus::WrongAnswer => "WA",
        JudgeStatus::TimeLimitExceeded => "TLE",
        JudgeStatus::MemoryLimitExceeded => "MLE",
        JudgeStatus::RuntimeError { .. } => "RE",
        JudgeStatus::Scored => "SCORED",
        _ => "IE",
    }
}

/// What a test case's stderr is shown as: the compiler's warnings, where
/// there are any, under a `[Compile warnings]` header and a blank line
/// before the program's own stderr.
pub open spec fn shown_stderr(warnings: Seq<char>, runtime: Seq<char>) -> Seq<char> {
    if warnings.len() == 0 {
        runtime
    } else if runtime.len() == 0 {
        "[Compile warnings]\n"@ + warnings
    } else {
        "[Compile warnings]\n"@ + warnings + "\n\n"@ + runtime
    }
}

/// The stderr shown for a test case.
pub fn combined_stderr(warnings: &str, runtime: String) -> (s: String)
    ensures
        s@ == shown_stderr(warnings@, runtime@),
{
    let w = chars_of(warnings);
    if w.len() == 0 {
        return runtime;
    }
    let rv = chars_of(runtime.as_str());
    let mut s = String::new();
    push_all(&mut s, "[Compile warnings]\n");
    push_all(&mut s, warnings);
    if rv.len() > 0 {
        push_all(&mut s, "\n\n");
        push_all(&mut s, runtime.as_str());
    }
    s
}

/// One test case's entry in the submission's result.
#[derive(Debug, Clone, Copy)]
pub struct CaseVerdict {
    pub verdict: &'static str,
    pub time_ms: u64,
    pub memory_kb: u64,
}

/// A judged test case, as the model sees it.
pub struct CaseRecord {
    pub status: JudgeStatus,
    pub time_ms: u64,
    pub memory_kb: u64,
    pub stdout: Seq<char>,
    pub stderr: Seq<char>,
}

/// The state of judging a submission, as the model sees it.
pub struct ProgressModel {
    pub status: JudgeStatus,
    pub max_time_ms: u64,
    pub max_memory_kb: u64,
    pub fail_stdout: Seq<char>,
    pub fail_stderr: Seq<char>,
    pub verdicts: Seq<(Seq<char>, u64, u64)>,
}

/// The state of judging a submission: the verdict so far, the largest time
/// and memory of a case, the output of the first failing case, and each
/// case's entry.
pub struct JudgeProgress {
    pub final_status: JudgeStatus,
    pub max_time_ms: u64,
    pub max_memory_kb: u64,
    pub first_fail_stdout: String,
    pub first_fail_stderr: String,
    pub verdicts: Vec<CaseVerdict>,
}

impl JudgeProgress {
    pub open spec fn model(&self) -> ProgressModel {
        ProgressModel {
            status: self.final_status,
            max_time_ms: self.max_time_ms,
            max_memory_kb: self.max_memory_kb,
            fail_stdout: self.first_fail_stdout@,
            fail_stderr: self.first_fail_stderr@,
            verdicts: self.verdicts@.map_values(|v: CaseVerdict| (v.verdict@, v.time_ms, v.memory_kb)),
        }
    }
}

/// The verdict of a submission none of whose cases failed.
pub open spec fn success_status(heuristic: bool) -> JudgeStatus {
    if heuristic {
        JudgeStatus::Scored
    } else {
        JudgeStatus::Accepted
    }
}

/// The state before any case is judged.
pub open spec fn initial_model(heuristic: bool) -> ProgressModel {
    ProgressModel {
        status: success_status(heuristic),
        max_time_ms: 0,
        max_memory_kb: 0,
        fail_stdout: Seq::empty(),
        fail_stderr: Seq::empty(),
        verdicts: Seq::empty(),
    }
}

/// The state after one more case: the first failing case sets the verdict
/// and the output shown; the largest time and memory are kept.
pub open spec fn step(m: ProgressModel, c: CaseRecord) -> ProgressModel {
    let fails = m.status.is_success() && !c.status.is_success();
    ProgressModel {
        status: if fails { c.status } else { m.status },
        max_time_ms: if c.time_ms > m.max_time_ms { c.time_ms } else { m.max_time_ms },
        max_memory_kb: if c.memory_kb > m.max_memory_kb { c.memory_kb } else { m.max_memory_kb },
        fail_stdout: if fails { c.stdout } else { m.fail_stdout },
        fail_stderr: if fails { c.stderr } else { m.fail_stderr },
        verdicts: m.verdicts.push((verdict_label_of(c.status), c.time_ms, c.memory_kb)),
    }
}

/// The state after the cases `cs`, judged in order.
pub open spec fn after_cases(heuristic: bool, cs: Seq<CaseRecord>) -> ProgressModel
    decreases cs.len(),
{
    if cs.len() == 0 {
        initial_model(heuristic)
    } else {
        step(after_cases(heuristic, cs.drop_last()), cs.last())
    }
}

/// Starts judging a submission.
pub fn start_judging(heuristic: bool) -> (p: JudgeProgress)
    ensures
        p.model() == initial_model(heuristic),
{
    let p = JudgeProgress {
        final_status: if heuristic { JudgeStatus::Scored } else { JudgeStatus::Accepted },
        max_time_ms: 0,
        max_memory_kb: 0,
        first_fail_stdout: String::new(),
        first_fail_stderr: String::new(),
        verdicts: Vec::new(),
    };
    assert(p.model().verdicts =~= Seq::<(Seq<char>, u64, u64)>::empty());
    p
}

fn is_success_status(st: &JudgeStatus) -> (b: bool)
    ensures
        b == st.is_success(),
{
    match st {
        JudgeStatus::Accepted | JudgeStatus::Scored => true,
        _ => false,
    }
}

/// Records one judged test case.
pub fn record_case(p: &mut JudgeProgress, status: JudgeStatus, time_ms: u64, memory_kb: u64, stdout: String, stderr: String)
    ensures
        final(p).model() == step(
            old(p).model(),
            CaseRecord { status, time_ms, memory_kb, stdout: stdout@, stderr: stderr@ },
        ),
{
    let ghost m = p.model();
    if time_ms > p.max_time_ms {
        p.max_time_ms = time_ms;
    }
    if memory_kb > p.max_memory_kb {
        p.max_memory_kb = memory_kb;
    }
    let entry = CaseVerdict { verdict: verdict_label(&status), time_ms, memory_kb };
    p.verdicts.push(entry);
    let fails = is_success_status(&p.final_status) && !is_success_status(&status);
    if fails {
        p.final_status = status;
        p.first_fail_stdout = stdout;
        p.first_fail_stderr = stderr;
    }
    assert(p.model().verdicts =~= m.verdicts.push((entry.verdict@, time_ms, memory_kb)));
}

/// The result written for a judged submission.
pub struct JudgeReport {
    pub status: JudgeStatus,
    /// The largest time of a case, where it is above zero.
    pub time_ms: Option<u64>,
    /// The largest memory of a case, where it is above zero.
    pub memory_kb: Option<u64>,
    /// The first failing case's output; empty when none failed.
    pub stdout: String,
    pub stderr: String,
    pub verdicts: Vec<CaseVerdict>,
}

/// The result of a submission once every case is judged.
pub fn finish_judging(p: JudgeProgress) -> (r: JudgeReport)
    ensures
        r.status == p.final_status,
        r.time_ms == (if p.max_time_ms > 0 { Some(p.max_time_ms) } else { None }),
        r.memory_kb == (if p.max_memory_kb > 0 { Some(p.max_memory_kb) } else { None }),
        r.stdout@ == (if p.final_status.is_success() { Seq::empty() } else { p.first_fail_stdout@ }),
        r.stderr@ == (if p.final_status.is_success() { Seq::empty() } else { p.first_fail_stderr@ }),
        r.verdicts@ == p.verdicts@,
{
    let ok = is_success_status(&p.final_status);
    let (stdout, stderr) = if ok {
        (String::new(), String::new())
    } else {
        (p.first_fail_stdout, p.first_fail_stderr)
    };
    JudgeReport {
        status: p.final_status,
        time_ms: if p.max_time_ms > 0 { Some(p.max_time_ms) } else { None },
        memory_kb: if p.max_memory_kb > 0 { Some(p.max_memory_kb) } else { None },
        stdout,
        stderr,
        verdicts: p.verdicts,
    }
}

/// The index of the first case that failed, where one did.
pub open spec fn first_failure(cs: Seq<CaseRecord>) -> Option<int>
    decreases cs.len(),
{
    if cs.len() == 0 {
        None
    } else {
        match first_failure(cs.drop_last()) {
            Some(i) => Some(i),
            None => if cs.last().status.is_success() {
                None
            } else {
                Some(cs.len() - 1)
            },
        }
    }
}

/// Judging goes on through every case: the verdict is that of the first
/// failing case, or success when no case fails; the output shown is that
/// case's; the time and memory are the largest of any case; and each case
/// has its entry, in order.
pub proof fn lemma_judging_outcome(heuristic: bool, cs: Seq<CaseRecord>)
    ensures
        after_cases(heuristic, cs).status == (match first_failure(cs) {
            Some(i) => cs[i].status,
            None => success_status(heuristic),
        }),
        after_cases(heuristic, cs).fail_stdout == (match first_failure(cs) {
            Some(i) => cs[i].stdout,
            None => Seq::empty(),
        }),
        after_cases(heuristic, cs).fail_stderr == (match first_failure(cs) {
            Some(i) => cs[i].stderr,
            None => Seq::empty(),
        }),
        first_failure(cs) matches Some(i) ==> 0 <= i < cs.len() && !cs[i].status.is_success()
            && forall|j: int| 0 <= j < i ==> (#[trigger] cs[j]).status.is_success(),
        first_failure(cs) is None ==> forall|j: int| 0 <= j < cs.len() ==> (#[trigger] cs[j]).status.is_success(),
        forall|j: int| 0 <= j < cs.len() ==> (#[trigger] cs[j]).time_ms <= after_cases(heuristic, cs).max_time_ms,
        forall|j: int| 0 <= j < cs.len() ==> (#[trigger] cs[j]).memory_kb <= after_cases(heuristic, cs).max_memory_kb,
        after_cases(heuristic, cs).max_time_ms == 0 || exists|j: int| 0 <= j < cs.len() && (#[trigger] cs[j]).time_ms == after_cases(heuristic, cs).max_time_ms,
        after_cases(heuristic, cs).max_memory_kb == 0 || exists|j: int| 0 <= j < cs.len() && (#[trigger] cs[j]).memory_kb == after_cases(heuristic, cs).max_memory_kb,
        after_cases(heuristic, cs).verdicts.len() == cs.len(),
        forall|j: int| 0 <= j < cs.len() ==> #[trigger] after_cases(heuristic, cs).verdicts[j] == (verdict_label_of(cs[j].status), cs[j].time_ms, cs[j].memory_kb),
    decreases cs.len(),
{
    if cs.len() > 0 {
        let prev = cs.drop_last();
        lemma_judging_outcome(heuristic, prev);
        let m = after_cases(heuristic, prev);
        let n = after_cases(heuristic, cs);
        assert forall|j: int| 0 <= j < cs.len() implies (#[trigger] cs[j]).time_ms <= n.max_time_ms by {
            if j < prev.len() {
                assert(prev[j] == cs[j]);
            }
        }
        assert forall|j: int| 0 <= j < cs.len() implies (#[trigger] cs[j]).memory_kb <= n.max_memory_kb by {
            if j < prev.len() {
                assert(prev[j] == cs[j]);
            }
        }
        if n.max_time_ms != 0 {
            if cs.last().time_ms > m.max_time_ms {
                assert(cs[cs.len() - 1].time_ms == n.max_time_ms);
            } else {
                let j = choose|j: int| 0 <= j < prev.len() && (#[trigger] prev[j]).time_ms == m.max_time_ms;
                assert(cs[j] == prev[j]);
            }
        }
        if n.max_memory_kb != 0 {
            if cs.last().memory_kb > m.max_memory_kb {
                assert(cs[cs.len() - 1].memory_kb == n.max_memory_kb);
            } else {
                let j = choose|j: int| 0 <= j < prev.len() && (#[trigger] prev[j]).memory_kb == m.max_memory_kb;
                assert(cs[j] == prev[j]);
            }
        }
        assert forall|j: int| 0 <= j < cs.len() implies #[trigger] n.verdicts[j] == (verdict_label_of(cs[j].status), cs[j].time_ms, cs[j].memory_kb) by {
            if j < prev.len() {
                assert(prev[j] == cs[j]);
            }
        }
        match first_failure(prev) {
            Some(i) => {
                assert(cs[i] == prev[i]);
                assert forall|j: int| 0 <= j < i implies (#[trigger] cs[j]).status.is_success() by {
                    assert(prev[j] == cs[j]);
                }
            },
            None => {
                assert forall|j: int| 0 <= j < prev.len() implies (#[trigger] cs[j]).status.is_success() by {
                    assert(prev[j] == cs[j]);
                }
                if prev.len() > 0 {
                    assert(prev[0] == cs[0]);
                }
            },
        }
    }
}

} // verus!
