//! The sandbox policy: how a submission is prepared, which limits its process
//! runs under, when the supervisor gives up waiting, and how the way the
//! process ended becomes a run status. The process handling itself (fork,
//! exec, pipes, wait) is done by the caller, which hands the outcomes back.
use vstd::prelude::*;
use crate::text::{chars_of, has_word, push_all, push_char, push_decimal, decimal, trim, trim_str, words};
use crate::types::Language;

verus! {

/// The limits a program runs under.
#[derive(Debug, Clone, Copy)]
pub struct SandboxConfig {
    /// Wall-clock time limit, in milliseconds.
    pub time_limit_ms: u64,
    /// Standard output beyond this many bytes is dropped.
    pub max_output_bytes: usize,
    /// Address-space limit (`RLIMIT_AS`); `None` leaves it unlimited.
    pub vm_limit_bytes: Option<u64>,
    /// Process-count limit (`RLIMIT_NPROC`); `None` leaves it unlimited.
    pub nproc_limit: Option<u64>,
    /// Whether the system-call allow-list is installed.
    pub enable_seccomp: bool,
}

/// What preparing a submission gave.
pub struct CompileOutput {
    pub executable: String,
    pub run_args: Vec<String>,
    /// The compiler's or the syntax check's message where it failed.
    pub error: Option<String>,
    /// What the compiler printed on success (warnings).
    pub warnings: String,
}

/// How a run ended.
#[derive(Debug, Clone, Copy, PartialEq, Eq, Structural)]
pub enum RunStatus {
    /// Exited with code 0.
    Success,
    TimeLimitExceeded,
    RuntimeError,
    /// Ended by a signal.
    Killed,
}

/// The result of one run.
pub struct RunResult {
    pub stdout: Vec<u8>,
    pub stderr: Vec<u8>,
    pub exit_code: Option<i32>,
    /// Wall-clock time used, in nanoseconds.
    pub wall_time_used_ns: u128,
    pub memory_used_bytes: u64,
    pub status: RunStatus,
}

/// How the child process ended, as `wait4` reported it.
#[derive(Debug, Clone, Copy, PartialEq, Eq, Structural)]
pub enum ChildExit {
    /// It exited with this code.
    Exited(i32),
    /// A signal ended it; `cpu_limit` where that signal is `SIGXCPU`.
    Signaled { cpu_limit: bool },
    /// Any other report.
    Other,
}

/// A run counts as over time past the limit plus 50 ms.
pub open spec fn over_time(time_used_ns: u128, time_limit_ms: u64) -> bool {
    time_used_ns > (time_limit_ms + 50) * 1_000_000
}

/// The exit code and status of a run.
pub open spec fn status_of(killed: bool, time_used_ns: u128, time_limit_ms: u64, exit: Option<ChildExit>) -> (Option<i32>, RunStatus) {
    if killed || over_time(time_used_ns, time_limit_ms) {
        (None, RunStatus::TimeLimitExceeded)
    } else {
        match exit {
            Some(ChildExit::Exited(code)) => if code == 0 {
                (Some(code), RunStatus::Success)
            } else {
                (Some(code), RunStatus::RuntimeError)
            },
            Some(ChildExit::Signaled { cpu_limit }) => if cpu_limit {
                (None, RunStatus::TimeLimitExceeded)
            } else {
                (None, RunStatus::Killed)
            },
            _ => (None, RunStatus::RuntimeError),
        }
    }
}

/// The exit code and status of a run: over time (killed by the supervisor,
/// past the limit plus 50 ms, or stopped by the CPU limit) is a time-limit
/// verdict; exit code 0 is success, another code a runtime error; another
/// signal is `Killed`.
pub fn determine_status(killed: bool, time_used_ns: u128, time_limit_ms: u64, exit: Option<ChildExit>) -> (r: (Option<i32>, RunStatus))
    ensures
        r == status_of(killed, time_used_ns, time_limit_ms, exit),
{
    let limit_ns: u128 = (time_limit_ms as u128 + 50) * 1_000_000;
    if killed || time_used_ns > limit_ns {
        return (None, RunStatus::TimeLimitExceeded);
    }
    match exit {
        Some(ChildExit::Exited(code)) => if code == 0 {
            (Some(code), RunStatus::Success)
        } else {
            (Some(code), RunStatus::RuntimeError)
        },
        Some(ChildExit::Signaled { cpu_limit }) => if cpu_limit {
            (None, RunStatus::TimeLimitExceeded)
        } else {
            (None, RunStatus::Killed)
        },
        _ => (None, RunStatus::RuntimeError),
    }
}

/// The resource limits set in the child before it runs the program.
pub struct Rlimits {
    /// `RLIMIT_CPU`, in seconds: soft and hard.
    pub cpu_soft_secs: u64,
    pub cpu_hard_secs: u64,
    /// `RLIMIT_AS`, where there is one.
    pub address_space_bytes: Option<u64>,
    /// `RLIMIT_STACK`.
    pub stack_bytes: u64,
    /// `RLIMIT_FSIZE`.
    pub file_size_bytes: u64,
    /// `RLIMIT_NPROC`, where there is one.
    pub nproc: Option<u64>,
}

/// The CPU seconds allowed: the whole seconds of the time limit, at least
/// one, plus one.
pub open spec fn cpu_secs(time_limit_ms: u64) -> int {
    (if time_limit_ms / 1000 >= 1 { time_limit_ms / 1000 } else { 1 }) + 1
}

/// The resource limits for a run: CPU time from the time limit (soft, and
/// one second more hard), the address space and process count of the
/// configuration, a 64 MiB stack and 16 MiB of written files.
pub fn rlimits_for(config: &SandboxConfig) -> (r: Rlimits)
    ensures
        r.cpu_soft_secs == cpu_secs(config.time_limit_ms),
        r.cpu_hard_secs == cpu_secs(config.time_limit_ms) + 1,
        r.address_space_bytes == config.vm_limit_bytes,
        r.stack_bytes == 64 * 1024 * 1024,
        r.file_size_bytes == 16 * 1024 * 1024,
        r.nproc == config.nproc_limit,
{
    let secs = config.time_limit_ms / 1000;
    let cpu = if secs >= 1 { secs } else { 1 } + 1;
    Rlimits {
        cpu_soft_secs: cpu,
        cpu_hard_secs: cpu + 1,
        address_space_bytes: config.vm_limit_bytes,
        stack_bytes: 64 * 1024 * 1024,
        file_size_bytes: 16 * 1024 * 1024,
        nproc: config.nproc_limit,
    }
}

/// What a non-blocking `wait4` on the child reported.
pub enum WaitPoll {
    /// The child ended.
    Ended(ChildExit),
    /// The child is still running.
    Running,
    /// `wait4` failed.
    Failed,
}

/// What the supervisor does next.
#[derive(Debug, Clone, Copy, PartialEq, Eq, Structural)]
pub enum WaitAction {
    /// Stop waiting; the run ended this way, not killed by the supervisor.
    Collect(Option<ChildExit>),
    /// The deadline passed: kill the child, reap it, and collect it as killed.
    KillAndReap,
    /// Sleep 5 ms and poll again.
    PollAgain,
}

/// The supervisor gives the child its time limit plus 100 ms.
pub open spec fn past_deadline(elapsed_ns: u128, time_limit_ms: u64) -> bool {
    elapsed_ns >= (time_limit_ms + 100) * 1_000_000
}

/// One step of the supervisor's wait loop.
pub fn wait_step(poll: WaitPoll, elapsed_ns: u128, time_limit_ms: u64) -> (a: WaitAction)
    ensures
        poll matches WaitPoll::Ended(e) ==> a == WaitAction::Collect(Some(e)),
        poll is Failed ==> a == WaitAction::Collect(None),
        poll is Running ==> a == (if past_deadline(elapsed_ns, time_limit_ms) {
            WaitAction::KillAndReap
        } else {
            WaitAction::PollAgain
        }),
{
    match poll {
        WaitPoll::Ended(e) => WaitAction::Collect(Some(e)),
        WaitPoll::Failed => WaitAction::Collect(None),
        WaitPoll::Running => {
            let deadline_ns: u128 = (time_limit_ms as u128 + 100) * 1_000_000;
            if elapsed_ns >= deadline_ns {
                WaitAction::KillAndReap
            } else {
                WaitAction::PollAgain
            }
        },
    }
}

/// The memory a run used: the cgroup's peak where it was read, else the
/// child's maximum resident set (in KiB) in bytes, saturating.
pub fn memory_used_bytes(cgroup_peak: Option<u64>, max_rss_kib: u64) -> (b: u64)
    ensures
        b == match cgroup_peak {
            Some(p) => p as int,
            None => if max_rss_kib * 1024 <= u64::MAX { max_rss_kib * 1024 } else { u64::MAX as int },
        },
{
    match cgroup_peak {
        Some(p) => p,
        None => if max_rss_kib <= u64::MAX / 1024 {
            max_rss_kib * 1024
        } else {
            u64::MAX
        },
    }
}

/// The run result from what the supervisor collected.
pub fn run_result(
    stdout: Vec<u8>,
    stderr: Vec<u8>,
    killed: bool,
    time_used_ns: u128,
    time_limit_ms: u64,
    exit: Option<ChildExit>,
    memory_used_bytes: u64,
) -> (r: RunResult)
    ensures
        r.stdout@ == stdout@,
        r.stderr@ == stderr@,
        (r.exit_code, r.status) == status_of(killed, time_used_ns, time_limit_ms, exit),
        r.wall_time_used_ns == time_used_ns,
        r.memory_used_bytes == memory_used_bytes,
{
    let (exit_code, status) = determine_status(killed, time_used_ns, time_limit_ms, exit);
    RunResult { stdout, stderr, exit_code, wall_time_used_ns: time_used_ns, memory_used_bytes, status }
}

/// How many bytes of a chunk are kept when `held` bytes are already kept
/// and at most `max_bytes` may be.
pub open spec fn kept_of(held: int, chunk: int, max_bytes: int) -> int {
    if max_bytes - held <= 0 {
        0
    } else if chunk <= max_bytes - held {
        chunk
    } else {
        max_bytes - held
    }
}

/// Appends to `out` what fits of `chunk` under `max_bytes`; the rest of the
/// chunk is dropped.
pub fn append_capped(out: &mut Vec<u8>, chunk: &[u8], max_bytes: usize)
    ensures
        final(out)@ == old(out)@ + chunk@.take(kept_of(old(out)@.len() as int, chunk@.len() as int, max_bytes as int)),
        old(out)@.len() <= max_bytes ==> final(out)@.len() <= max_bytes,
{
    let held = out.len();
    let keep: usize = if max_bytes <= held {
        0
    } else if chunk.len() <= max_bytes - held {
        chunk.len()
    } else {
        max_bytes - held
    };
    let ghost start = out@;
    let mut i: usize = 0;
    while i < keep
        invariant
            keep <= chunk@.len(),
            i <= keep,
            out@ == start + chunk@.take(i as int),
        decreases keep - i,
    {
        out.push(chunk[i]);
        i = i + 1;
        assert(out@ =~= start + chunk@.take(i as int));
    }
}

/// Whether every character of `d` is an ASCII digit.
pub open spec fn all_digits(d: Seq<char>) -> bool {
    forall|i: int| 0 <= i < d.len() ==> '0' <= #[trigger] d[i] <= '9'
}

/// The number that the digits `d` write in decimal.
pub open spec fn digits_value(d: Seq<char>) -> nat
    decreases d.len(),
{
    if d.len() == 0 {
        0
    } else {
        digits_value(d.drop_last()) * 10 + ((d.last() as int) - ('0' as int)) as nat
    }
}

/// What `str::parse::<u64>` gives for `s`: an optional `+`, then one or more
/// digits whose value fits in a `u64`.
pub open spec fn u64_of(s: Seq<char>) -> Option<u64> {
    let d = if s.len() > 0 && s[0] == '+' { s.drop_first() } else { s };
    if d.len() > 0 && all_digits(d) && digits_value(d) <= u64::MAX {
        Some(digits_value(d) as u64)
    } else {
        None
    }
}

proof fn lemma_digits_grow(d: Seq<char>, j: int, k: int)
    requires
        0 <= j <= k <= d.len(),
        all_digits(d),
    ensures
        digits_value(d.take(j)) <= digits_value(d.take(k)),
    decreases k - j,
{
    if j < k {
        lemma_digits_grow(d, j, k - 1);
        assert(d.take(k).drop_last() =~= d.take(k - 1));
        assert('0' <= d[k - 1] <= '9');
    }
}

/// `s.parse::<u64>()`, as an `Option`.
pub fn parse_u64(s: &str) -> (r: Option<u64>)
    ensures
        r == u64_of(s@),
{
    let v = chars_of(s);
    let n = v.len();
    let start: usize = if n > 0 && v[0] == '+' { 1 } else { 0 };
    let ghost d = if s@.len() > 0 && s@[0] == '+' { s@.drop_first() } else { s@ };
    assert(d =~= v@.skip(start as int));
    if start == n {
        return None;
    }
    let mut value: u64 = 0;
    let mut i: usize = start;
    assert(d.take(0) =~= Seq::<char>::empty());
    while i < n
        invariant
            start <= i <= n,
            n == v@.len(),
            v@ == s@,
            d == v@.skip(start as int),
            d == (if s@.len() > 0 && s@[0] == '+' { s@.drop_first() } else { s@ }),
            all_digits(d.take(i - start)),
            value == digits_value(d.take(i - start)),
        decreases n - i,
    {
        let c = v[i];
        assert(d[i - start] == c);
        if !('0' <= c && c <= '9') {
            assert(!all_digits(d));
            return None;
        }
        let dig: u64 = (c as u32 - '0' as u32) as u64;
        assert(d.take(i + 1 - start).drop_last() =~= d.take(i - start));
        assert(all_digits(d.take(i + 1 - start)));
        if value > (u64::MAX - dig) / 10 {
            proof {
                assert(digits_value(d.take(i + 1 - start)) > u64::MAX);
                if all_digits(d) {
                    lemma_digits_grow(d, i + 1 - start, d.len() as int);
                    assert(d.take(d.len() as int) =~= d);
                }
            }
            return None;
        }
        value = value * 10 + dig;
        i = i + 1;
    }
    assert(d.take(n - start) =~= d);
    Some(value)
}

/// The cgroup's `memory.peak` file read as a number of bytes:
/// `raw.trim().parse::<u64>()`, as an `Option`.
pub fn parse_memory_peak(raw: &str) -> (r: Option<u64>)
    ensures
        r == u64_of(trim(raw@)),
{
    let t = trim_str(raw);
    parse_u64(t.as_str())
}

/// Whether the `memory` controller is among the whitespace-separated
/// controllers of a cgroup's `cgroup.controllers` file.
pub fn has_memory_controller(controllers: &str) -> (b: bool)
    ensures
        b == words(controllers@).contains("memory"@),
{
    let v = chars_of(controllers);
    let w = chars_of("memory");
    has_word(v.as_slice(), w.as_slice())
}

/// The name of a run's cgroup directory.
pub open spec fn cgroup_run_name(pid: u32, seq: u64) -> Seq<char> {
    "run-"@ + decimal(pid as nat) + "-"@ + decimal(seq as nat)
}

/// The name of a run's cgroup directory: `run-{pid}-{seq}`.
pub fn cgroup_run_dir_name(pid: u32, seq: u64) -> (s: String)
    ensures
        s@ == cgroup_run_name(pid, seq),
{
    let mut s = String::new();
    push_all(&mut s, "run-");
    push_decimal(&mut s, pid as u64);
    push_char(&mut s, '-');
    push_decimal(&mut s, seq);
    proof {
        reveal_strlit("-");
        assert(s@ =~= cgroup_run_name(pid, seq));
    }
    s
}

/// How a submission is prepared before it runs.
pub enum CompilePlan {
    /// Nothing to prepare: the program is `cat`.
    Cat,
    /// The interpreter (resolved on `PATH` first) checks the syntax with
    /// these arguments, within the timeout.
    SyntaxCheck { interpreter: &'static str, args: Vec<String>, timeout_secs: u64 },
    /// The compiler builds the program with these arguments, within the
    /// timeout, in the work directory where `in_work_dir`.
    Build { compiler: &'static str, args: Vec<String>, timeout_secs: u64, in_work_dir: bool },
}

/// The arguments of the syntax check.
pub open spec fn syntax_check_args(source: Seq<char>) -> Seq<Seq<char>> {
    seq!["-m"@, "py_compile"@, source]
}

/// How `language` is prepared, its source saved at `source_path` and a
/// built program written to `output_path`: `cat` for text; a syntax check
/// of 10 s for interpreted languages; otherwise a build of 30 s, Java's in
/// the work directory with no output path.
pub fn compile_plan(language: Language, source_path: &str, output_path: &str) -> (p: CompilePlan)
    ensures
        language is Text ==> p is Cat,
        language.interpreted() ==> (p matches CompilePlan::SyntaxCheck { interpreter, args, timeout_secs } && {
            &&& interpreter@ == (if language is Python { "python3"@ } else { "pypy3"@ })
            &&& args@.map_values(|a: String| a@) == syntax_check_args(source_path@)
            &&& timeout_secs == 10
        }),
        language is Java ==> (p matches CompilePlan::Build { compiler, args, timeout_secs, in_work_dir } && {
            &&& compiler@ == "javac"@
            &&& args@.map_values(|a: String| a@) == language.compile_args_of(source_path@, ""@)
            &&& timeout_secs == 30
            &&& in_work_dir
        }),
        (language.compiled() && !(language is Java)) ==> (p matches CompilePlan::Build { compiler, args, timeout_secs, in_work_dir } && {
            &&& compiler@ == (match language {
                Language::Cpp => "g++"@,
                Language::Rust => "rustc"@,
                _ => "go"@,
            })
            &&& args@.map_values(|a: String| a@) == language.compile_args_of(source_path@, output_path@)
            &&& timeout_secs == 30
            &&& !in_work_dir
        }),
{
    match language {
        Language::Text => CompilePlan::Cat,
        Language::Python | Language::PyPy => {
            let args = vec![String::from_str("-m"), String::from_str("py_compile"), String::from_str(source_path)];
            assert(args@.map_values(|a: String| a@) =~= syntax_check_args(source_path@));
            CompilePlan::SyntaxCheck { interpreter: language.interpreter(), args, timeout_secs: 10 }
        },
        Language::Java => CompilePlan::Build {
            compiler: language.compiler(),
            args: language.compile_args(source_path, ""),
            timeout_secs: 30,
            in_work_dir: true,
        },
        _ => CompilePlan::Build {
            compiler: language.compiler(),
            args: language.compile_args(source_path, output_path),
            timeout_secs: 30,
            in_work_dir: false,
        },
    }
}

/// How a compiler or syntax-check process ended.
pub enum ToolOutcome {
    /// It ran past its timeout.
    TimedOut,
    /// It could not be started; the error's text.
    SpawnFailed(String),
    /// It finished: whether it succeeded, and what it wrote to stderr.
    Finished { success: bool, stderr: String },
}

/// The error and warnings of a syntax check.
pub open spec fn syntax_check_verdict(outcome: ToolOutcome) -> (Option<Seq<char>>, Seq<char>) {
    match outcome {
        ToolOutcome::TimedOut => (Some("構文チェックがタイムアウトしました"@), Seq::empty()),
        ToolOutcome::SpawnFailed(e) => (Some("インタプリタの起動に失敗しました: "@ + e@), Seq::empty()),
        ToolOutcome::Finished { success, stderr } => if success {
            (None, stderr@)
        } else {
            (Some(stderr@), Seq::empty())
        },
    }
}

/// The view of an optional text.
pub open spec fn opt_view(o: Option<String>) -> Option<Seq<char>> {
    match o {
        Some(s) => Some(s@),
        None => None,
    }
}

/// The error and warnings of a syntax check: a timeout or a failure to
/// start is an error with its message, a failed check an error with what
/// the interpreter printed, a passed one has those as warnings.
pub fn syntax_check_result(outcome: ToolOutcome) -> (r: (Option<String>, String))
    ensures
        (opt_view(r.0), r.1@) == syntax_check_verdict(outcome),
{
    match outcome {
        ToolOutcome::TimedOut => (Some(String::from_str("構文チェックがタイムアウトしました")), String::new()),
        ToolOutcome::SpawnFailed(e) => {
            let mut msg = String::new();
            push_all(&mut msg, "インタプリタの起動に失敗しました: ");
            push_all(&mut msg, e.as_str());
            (Some(msg), String::new())
        },
        ToolOutcome::Finished { success, stderr } => if success {
            (None, stderr)
        } else {
            (Some(stderr), String::new())
        },
    }
}

/// What a build gives: the failure of the judge itself, or the compile
/// error (if any) and the warnings.
pub open spec fn build_verdict(outcome: ToolOutcome) -> Result<(Option<Seq<char>>, Seq<char>), Seq<char>> {
    match outcome {
        ToolOutcome::TimedOut => Err("コンパイルが30秒でタイムアウトしました"@),
        ToolOutcome::SpawnFailed(e) => Err("コンパイラの起動に失敗しました: "@ + e@),
        ToolOutcome::Finished { success, stderr } => if success {
            Ok((None, stderr@))
        } else {
            Ok((Some(stderr@), Seq::empty()))
        },
    }
}

/// What a build gives: a timeout or a failure to start the compiler fails
/// the judging with its message; a failed build is a compile error with
/// what the compiler printed, a successful one has that as warnings.
pub fn build_result(outcome: ToolOutcome) -> (r: Result<(Option<String>, String), String>)
    ensures
        match (r, build_verdict(outcome)) {
            (Ok((e, w)), Ok((ve, vw))) => opt_view(e) == ve && w@ == vw,
            (Err(m), Err(vm)) => m@ == vm,
            _ => false,
        },
{
    match outcome {
        ToolOutcome::TimedOut => Err(String::from_str("コンパイルが30秒でタイムアウトしました")),
        ToolOutcome::SpawnFailed(e) => {
            let mut msg = String::new();
            push_all(&mut msg, "コンパイラの起動に失敗しました: ");
            push_all(&mut msg, e.as_str());
            Err(msg)
        },
        ToolOutcome::Finished { success, stderr } => if success {
            Ok((None, stderr))
        } else {
            Ok((Some(stderr), String::new()))
        },
    }
}

/// The arguments a prepared program runs with.
pub open spec fn run_args_of(language: Language, source: Seq<char>, work_dir: Seq<char>, failed: bool) -> Seq<Seq<char>> {
    if language.interpreted() {
        seq![source]
    } else if language is Java && !failed {
        seq!["-cp"@, work_dir, "Main"@]
    } else {
        Seq::empty()
    }
}

/// The prepared program: `executable` (the resolved interpreter, `java`,
/// `cat`, or the built file) with its arguments (the source for an
/// interpreter, the class path and `Main` for Java that compiled, none
/// otherwise), and the error and warnings of the preparation.
pub fn compile_output(
    language: Language,
    executable: String,
    source_path: &str,
    work_dir: &str,
    error: Option<String>,
    warnings: String,
) -> (out: CompileOutput)
    ensures
        out.executable == executable,
        out.run_args@.map_values(|a: String| a@) == run_args_of(language, source_path@, work_dir@, error is Some),
        out.error == error,
        out.warnings == warnings,
{
    let run_args: Vec<String> = if language.is_interpreted() {
        vec![String::from_str(source_path)]
    } else if language == Language::Java && error.is_none() {
        vec![String::from_str("-cp"), String::from_str(work_dir), String::from_str("Main")]
    } else {
        Vec::new()
    };
    assert(run_args@.map_values(|a: String| a@) =~= run_args_of(language, source_path@, work_dir@, error is Some));
    CompileOutput { executable, run_args, error, warnings }
}

/// The system calls a sandboxed program may make; any other kills it.
pub open spec fn allowed_syscall_names() -> Seq<Seq<char>> {
    seq![
        "read"@, "write"@, "readv"@, "writev"@, "pread64"@, "pwrite64"@,
        "close"@, "fcntl"@, "fstat"@, "newfstatat"@, "lseek"@,
        "open"@, "openat"@, "access"@, "faccessat"@, "faccessat2"@, "getdents64"@, "readlinkat"@,
        "brk"@, "mmap"@, "munmap"@, "mprotect"@, "mremap"@, "madvise"@,
        "exit"@, "exit_group"@,
        "rt_sigaction"@, "rt_sigprocmask"@, "rt_sigreturn"@, "sigaltstack"@,
        "execve"@, "execveat"@,
        "futex"@, "set_tid_address"@, "set_robust_list"@, "sched_getaffinity"@, "rseq"@, "gettid"@, "getpid"@,
        "arch_prctl"@,
        "clock_gettime"@, "clock_getres"@, "gettimeofday"@, "ppoll"@, "prlimit64"@,
        "getrandom"@,
        "getuid"@, "geteuid"@, "getgid"@, "getegid"@,
        "getcwd"@, "sysinfo"@, "statx"@, "uname"@, "ioctl"@
    ]
}

/// The system calls a sandboxed program may make, by name, in order.
pub fn allowed_syscalls() -> (names: Vec<&'static str>)
    ensures
        names@.map_values(|n: &'static str| n@) == allowed_syscall_names(),
{
    let names: Vec<&'static str> = vec![
        "read", "write", "readv", "writev", "pread64", "pwrite64",
        "close", "fcntl", "fstat", "newfstatat", "lseek",
        "open", "openat", "access", "faccessat", "faccessat2", "getdents64", "readlinkat",
        "brk", "mmap", "munmap", "mprotect", "mremap", "madvise",
        "exit", "exit_group",
        "rt_sigaction", "rt_sigprocmask", "rt_sigreturn", "sigaltstack",
        "execve", "execveat",
        "futex", "set_tid_address", "set_robust_list", "sched_getaffinity", "rseq", "gettid", "getpid",
        "arch_prctl",
        "clock_gettime", "clock_getres", "gettimeofday", "ppoll", "prlimit64",
        "getrandom",
        "getuid", "geteuid", "getgid", "getegid",
        "getcwd", "sysinfo", "statx", "uname", "ioctl",
    ];
    assert(names@.map_values(|n: &'static str| n@) =~= allowed_syscall_names());
    names
}

/// The numbers among `resolved`, in order.
pub open spec fn known_numbers(resolved: Seq<Option<i32>>) -> Seq<i32>
    decreases resolved.len(),
{
    if resolved.len() == 0 {
        Seq::empty()
    } else {
        let prev = known_numbers(resolved.drop_last());
        match resolved.last() {
            Some(n) => prev.push(n),
            None => prev,
        }
    }
}

/// The allow rules of the filter, from the number that the kernel gives
/// each allowed name (`None` where it knows no such call): the known ones,
/// in order; names this kernel lacks are skipped.
pub fn filter_rules(resolved: Vec<Option<i32>>) -> (rules: Vec<i32>)
    ensures
        rules@ == known_numbers(resolved@),
{
    let mut rules: Vec<i32> = Vec::new();
    let ghost whole = resolved@;
    for r in it: resolved
        invariant
            it.seq() == whole,
            rules@ == known_numbers(whole.take(it.index() as int)),
    {
        assert(whole.take(it.index() + 1).drop_last() =~= whole.take(it.index() as int));
        if let Some(n) = r {
            rules.push(n);
        }
    }
    assert(whole.take(whole.len() as int) =~= whole);
    rules
}

} // verus!
