//! Languages, judge kinds and verdicts, contests and their schedule.
use vstd::prelude::*;
use crate::text::{
    chars_of, slices_equal, string_of, trim, trim_bounds, words, nth_word, last_word, lines,
    first_line, next_line, first_containing, find_line_containing, strip_prefixes,
    strip_prefixes_start,
};
use crate::clock::{in_chrono_range, in_chrono_range_ns, now_nanos};

verus! {

/// Whether two strings hold the same characters.
pub fn str_is(s: &str, lit: &str) -> (b: bool)
    ensures
        b == (s@ == lit@),
{
    let x = chars_of(s);
    let y = chars_of(lit);
    slices_equal(x.as_slice(), y.as_slice())
}

/// The language a submission is written in.
#[derive(Debug, Clone, Copy, PartialEq, Eq, Structural)]
pub enum Language {
    Cpp,
    Rust,
    Python,
    PyPy,
    Java,
    Go,
    Text,
}

/// The version strings of the installed toolchains.
#[derive(Debug, Clone)]
pub struct LanguageVersions {
    pub cpp: String,
    pub rust: String,
    pub python: String,
    pub pypy: String,
    pub java: String,
    pub go: String,
    pub text: String,
}

impl Language {
    /// The name of the language in the database.
    pub open spec fn db_name(self) -> Seq<char> {
        match self {
            Language::Cpp => "cpp"@,
            Language::Rust => "rust"@,
            Language::Python => "python"@,
            Language::PyPy => "pypy"@,
            Language::Java => "java"@,
            Language::Go => "go"@,
            Language::Text => "text"@,
        }
    }

    /// The language a database name denotes; unknown names denote C++.
    pub open spec fn from_db_name(s: Seq<char>) -> Language {
        if s == "rust"@ {
            Language::Rust
        } else if s == "python"@ {
            Language::Python
        } else if s == "pypy"@ {
            Language::PyPy
        } else if s == "java"@ {
            Language::Java
        } else if s == "go"@ {
            Language::Go
        } else if s == "text"@ {
            Language::Text
        } else {
            Language::Cpp
        }
    }

    /// Languages run by an interpreter after a syntax check.
    pub open spec fn interpreted(self) -> bool {
        self is Python || self is PyPy
    }

    /// Languages built by a compiler before they run.
    pub open spec fn compiled(self) -> bool {
        self is Cpp || self is Rust || self is Java || self is Go
    }

    /// The text before the version in a language's display name.
    pub open spec fn display_prefix(self) -> Seq<char> {
        match self {
            Language::Cpp => "C++17 (GCC "@,
            Language::Rust => "Rust (rustc "@,
            Language::Python => "Python (CPython "@,
            Language::PyPy => "Python (PyPy "@,
            Language::Java => "Java (OpenJDK "@,
            Language::Go => "Go ("@,
            Language::Text => "Text (cat "@,
        }
    }

    /// The version of this language's toolchain in `v`.
    pub open spec fn version_in(self, v: LanguageVersions) -> Seq<char> {
        match self {
            Language::Cpp => v.cpp@,
            Language::Rust => v.rust@,
            Language::Python => v.python@,
            Language::PyPy => v.pypy@,
            Language::Java => v.java@,
            Language::Go => v.go@,
            Language::Text => v.text@,
        }
    }

    /// The file name the source is saved under.
    pub open spec fn source_file(self) -> Seq<char> {
        match self {
            Language::Java => "Main.java"@,
            Language::Text => "solution.txt"@,
            Language::Cpp => "solution.cpp"@,
            Language::Rust => "solution.rs"@,
            Language::Python => "solution.py"@,
            Language::PyPy => "solution.py"@,
            Language::Go => "solution.go"@,
        }
    }

    /// The compiler's arguments for a source and an output path.
    pub open spec fn compile_args_of(self, source: Seq<char>, output: Seq<char>) -> Seq<Seq<char>> {
        match self {
            Language::Cpp => seq![source, "-o"@, output, "-O2"@, "-std=c++17"@],
            Language::Rust => seq![source, "-o"@, output, "-C"@, "opt-level=2"@],
            Language::Java => seq!["-encoding"@, "UTF-8"@, source],
            _ => seq!["build"@, "-o"@, output, source],
        }
    }

    pub fn to_db(&self) -> (s: &'static str)
        ensures
            s@ == self.db_name(),
    {
        match self {
            Language::Cpp => "cpp",
            Language::Rust => "rust",
            Language::Python => "python",
            Language::PyPy => "pypy",
            Language::Java => "java",
            Language::Go => "go",
            Language::Text => "text",
        }
    }

    pub fn from_db(s: &str) -> (l: Language)
        ensures
            l == Language::from_db_name(s@),
    {
        if str_is(s, "rust") {
            Language::Rust
        } else if str_is(s, "python") {
            Language::Python
        } else if str_is(s, "pypy") {
            Language::PyPy
        } else if str_is(s, "java") {
            Language::Java
        } else if str_is(s, "go") {
            Language::Go
        } else if str_is(s, "text") {
            Language::Text
        } else {
            Language::Cpp
        }
    }

    pub fn display_name_versioned(&self, versions: &LanguageVersions) -> (s: String)
        ensures
            s@ == self.display_prefix() + self.version_in(*versions) + ")"@,
    {
        let (prefix, version): (&str, &str) = match self {
            Language::Cpp => ("C++17 (GCC ", versions.cpp.as_str()),
            Language::Rust => ("Rust (rustc ", versions.rust.as_str()),
            Language::Python => ("Python (CPython ", versions.python.as_str()),
            Language::PyPy => ("Python (PyPy ", versions.pypy.as_str()),
            Language::Java => ("Java (OpenJDK ", versions.java.as_str()),
            Language::Go => ("Go (", versions.go.as_str()),
            Language::Text => ("Text (cat ", versions.text.as_str()),
        };
        let mut s = String::from_str(prefix);
        s.append(version);
        s.append(")");
        s
    }

    pub fn is_interpreted(&self) -> (b: bool)
        ensures
            b == self.interpreted(),
    {
        matches!(self, Language::Python | Language::PyPy)
    }

    pub fn needs_unlimited_vm(&self) -> (b: bool)
        ensures
            b == (*self is Python || *self is PyPy || *self is Java),
    {
        matches!(self, Language::Python | Language::PyPy | Language::Java)
    }

    pub fn needs_relaxed_seccomp(&self) -> (b: bool)
        ensures
            b == (*self is Java || *self is Go || *self is Text),
    {
        matches!(self, Language::Java | Language::Go | Language::Text)
    }

    pub fn needs_relaxed_nproc(&self) -> (b: bool)
        ensures
            b == (*self is Java || *self is Go),
    {
        matches!(self, Language::Java | Language::Go)
    }

    pub fn source_file_name(&self) -> (s: &'static str)
        ensures
            s@ == self.source_file(),
    {
        match self {
            Language::Java => "Main.java",
            Language::Text => "solution.txt",
            Language::Cpp => "solution.cpp",
            Language::Rust => "solution.rs",
            Language::Python | Language::PyPy => "solution.py",
            Language::Go => "solution.go",
        }
    }

    pub fn interpreter(&self) -> (s: &'static str)
        requires
            self.interpreted(),
        ensures
            s@ == (if *self is Python { "python3"@ } else { "pypy3"@ }),
    {
        match self {
            Language::Python => "python3",
            _ => "pypy3",
        }
    }

    pub fn compiler(&self) -> (s: &'static str)
        requires
            self.compiled(),
        ensures
            s@ == (match *self {
                Language::Cpp => "g++"@,
                Language::Rust => "rustc"@,
                Language::Java => "javac"@,
                _ => "go"@,
            }),
    {
        match self {
            Language::Cpp => "g++",
            Language::Rust => "rustc",
            Language::Java => "javac",
            _ => "go",
        }
    }

    pub fn compile_args(&self, source: &str, output: &str) -> (args: Vec<String>)
        requires
            self.compiled(),
        ensures
            args@.map_values(|a: String| a@) == self.compile_args_of(source@, output@),
    {
        let args = match self {
            Language::Cpp => vec![
                String::from_str(source),
                String::from_str("-o"),
                String::from_str(output),
                String::from_str("-O2"),
                String::from_str("-std=c++17"),
            ],
            Language::Rust => vec![
                String::from_str(source),
                String::from_str("-o"),
                String::from_str(output),
                String::from_str("-C"),
                String::from_str("opt-level=2"),
            ],
            Language::Java => vec![
                String::from_str("-encoding"),
                String::from_str("UTF-8"),
                String::from_str(source),
            ],
            _ => vec![
                String::from_str("build"),
                String::from_str("-o"),
                String::from_str(output),
                String::from_str(source),
            ],
        };
        assert(args@.map_values(|a: String| a@) =~= self.compile_args_of(source@, output@));
        args
    }
}


/// `ws[k]`, or `fallback` where there is no such word.
pub open spec fn word_or(ws: Seq<Seq<char>>, k: int, fallback: Seq<char>) -> Seq<char> {
    if 0 <= k < ws.len() {
        ws[k]
    } else {
        fallback
    }
}

/// The version a toolchain reports: `raw` is what `cmd --version` printed.
pub open spec fn version_from_output(cmd: Seq<char>, raw: Seq<char>) -> Seq<char> {
    let fl = first_line(raw);
    if cmd == "python3"@ || cmd == "rustc"@ || cmd == "javac"@ {
        word_or(words(fl), 1, trim(raw))
    } else if cmd == "pypy3"@ {
        match first_containing(lines(raw), "[PyPy "@) {
            Some(l) => if words(l).len() > 1 {
                words(l)[1]
            } else {
                trim(fl)
            },
            None => trim(fl),
        }
    } else if cmd == "go"@ {
        strip_prefixes(word_or(words(fl), 2, trim(raw)), "go"@)
    } else if cmd == "cat"@ || cmd == "g++"@ {
        if words(fl).len() > 0 {
            words(fl).last()
        } else {
            trim(raw)
        }
    } else {
        trim(fl)
    }
}

/// End of the first line of `v`: `first_line(v@) == v@[..e]`.
fn first_line_end(v: &[char]) -> (e: usize)
    ensures
        e <= v@.len(),
        first_line(v@) == v@.take(e as int),
{
    assert(v@.skip(0) =~= v@);
    if v.len() == 0 {
        assert(v@.take(0) =~= v@);
        0
    } else {
        let (e, _) = next_line(v, 0);
        assert(v@.subrange(0, e as int) =~= v@.take(e as int));
        e
    }
}

/// The `k`-th word of `v`, or the whole of `v` trimmed, as a string.
fn word_or_trimmed(line: &[char], k: usize, v: &[char]) -> (s: String)
    ensures
        s@ == word_or(words(line@), k as int, trim(v@)),
{
    match nth_word(line, k) {
        Some((a, b)) => string_of(vstd::slice::slice_subrange(line, a, b)),
        None => {
            let (a, b) = trim_bounds(v);
            string_of(vstd::slice::slice_subrange(v, a, b))
        },
    }
}

/// Extracts the version number from what `cmd --version` printed.
pub fn parse_version(cmd: &str, raw: &str) -> (s: String)
    ensures
        s@ == version_from_output(cmd@, raw@),
{
    let v = chars_of(raw);
    let vs = v.as_slice();
    let e = first_line_end(vs);
    let fl = vstd::slice::slice_subrange(vs, 0, e);
    assert(fl@ == first_line(raw@));
    if str_is(cmd, "python3") || str_is(cmd, "rustc") || str_is(cmd, "javac") {
        word_or_trimmed(fl, 1, vs)
    } else if str_is(cmd, "pypy3") {
        let pat = chars_of("[PyPy ");
        let found = find_line_containing(vs, pat.as_slice());
        if let Some((a, b)) = found {
            let line = vstd::slice::slice_subrange(vs, a, b);
            if let Some((x, y)) = nth_word(line, 1) {
                return string_of(vstd::slice::slice_subrange(line, x, y));
            }
        }
        let (a, b) = trim_bounds(fl);
        string_of(vstd::slice::slice_subrange(fl, a, b))
    } else if str_is(cmd, "go") {
        let go = chars_of("go");
        match nth_word(fl, 2) {
            Some((a, b)) => {
                let start = strip_prefixes_start(fl, a, b, go.as_slice());
                string_of(vstd::slice::slice_subrange(fl, start, b))
            },
            None => {
                let (a, b) = trim_bounds(vs);
                let start = strip_prefixes_start(vs, a, b, go.as_slice());
                string_of(vstd::slice::slice_subrange(vs, start, b))
            },
        }
    } else if str_is(cmd, "cat") || str_is(cmd, "g++") {
        match last_word(fl) {
            Some((a, b)) => string_of(vstd::slice::slice_subrange(fl, a, b)),
            None => {
                let (a, b) = trim_bounds(vs);
                string_of(vstd::slice::slice_subrange(vs, a, b))
            },
        }
    } else {
        let (a, b) = trim_bounds(fl);
        string_of(vstd::slice::slice_subrange(fl, a, b))
    }
}


/// How a contest's submissions are judged.
#[derive(Debug, Clone, Copy, PartialEq, Eq, Structural)]
pub enum JudgeType {
    /// Output compared with the expected output.
    Exact,
    /// Output scored by the problem's scorer.
    Heuristic,
}

impl JudgeType {
    /// The name of the judge type in the database.
    pub open spec fn db_name(self) -> Seq<char> {
        match self {
            JudgeType::Exact => "exact"@,
            JudgeType::Heuristic => "heuristic"@,
        }
    }

    pub fn from_db(s: &str) -> (t: JudgeType)
        ensures
            t == (if s@ == "heuristic"@ { JudgeType::Heuristic } else { JudgeType::Exact }),
    {
        if str_is(s, "heuristic") {
            JudgeType::Heuristic
        } else {
            JudgeType::Exact
        }
    }

    pub fn to_db(&self) -> (s: &'static str)
        ensures
            s@ == self.db_name(),
    {
        match self {
            JudgeType::Exact => "exact",
            JudgeType::Heuristic => "heuristic",
        }
    }
}

/// The state or verdict of a submission.
#[derive(Debug, Clone)]
pub enum JudgeStatus {
    Pending,
    Running,
    Accepted,
    WrongAnswer,
    TimeLimitExceeded,
    MemoryLimitExceeded,
    RuntimeError { exit_code: i32 },
    CompileError { message: String },
    InternalError { message: String },
    /// A heuristic submission that ran without error; its score is kept apart.
    Scored,
}

impl JudgeStatus {
    /// The name of the status in the database.
    pub open spec fn db_name(self) -> Seq<char> {
        match self {
            JudgeStatus::Pending => "pending"@,
            JudgeStatus::Running => "running"@,
            JudgeStatus::Accepted => "accepted"@,
            JudgeStatus::WrongAnswer => "wrong_answer"@,
            JudgeStatus::TimeLimitExceeded => "time_limit_exceeded"@,
            JudgeStatus::MemoryLimitExceeded => "memory_limit_exceeded"@,
            JudgeStatus::RuntimeError { .. } => "runtime_error"@,
            JudgeStatus::CompileError { .. } => "compile_error"@,
            JudgeStatus::InternalError { .. } => "internal_error"@,
            JudgeStatus::Scored => "scored"@,
        }
    }

    /// `st` is the status the database name `s` denotes. The fields the
    /// database does not keep come back as exit code -1 and empty messages;
    /// an unknown name denotes `Pending`.
    pub open spec fn denoted_by(st: JudgeStatus, s: Seq<char>) -> bool {
        if s == "running"@ {
            st is Running
        } else if s == "accepted"@ {
            st is Accepted
        } else if s == "wrong_answer"@ {
            st is WrongAnswer
        } else if s == "time_limit_exceeded"@ {
            st is TimeLimitExceeded
        } else if s == "memory_limit_exceeded"@ {
            st is MemoryLimitExceeded
        } else if s == "runtime_error"@ {
            st matches JudgeStatus::RuntimeError { exit_code } && exit_code == -1
        } else if s == "compile_error"@ {
            st matches JudgeStatus::CompileError { message } && message@.len() == 0
        } else if s == "internal_error"@ {
            st matches JudgeStatus::InternalError { message } && message@.len() == 0
        } else if s == "scored"@ {
            st is Scored
        } else {
            st is Pending
        }
    }

    pub fn to_db(&self) -> (s: &'static str)
        ensures
            s@ == self.db_name(),
    {
        match self {
            JudgeStatus::Pending => "pending",
            JudgeStatus::Running => "running",
            JudgeStatus::Accepted => "accepted",
            JudgeStatus::WrongAnswer => "wrong_answer",
            JudgeStatus::TimeLimitExceeded => "time_limit_exceeded",
            JudgeStatus::MemoryLimitExceeded => "memory_limit_exceeded",
            JudgeStatus::RuntimeError { .. } => "runtime_error",
            JudgeStatus::CompileError { .. } => "compile_error",
            JudgeStatus::InternalError { .. } => "internal_error",
            JudgeStatus::Scored => "scored",
        }
    }

    pub fn from_db(s: &str) -> (st: JudgeStatus)
        ensures
            JudgeStatus::denoted_by(st, s@),
    {
        if str_is(s, "running") {
            JudgeStatus::Running
        } else if str_is(s, "accepted") {
            JudgeStatus::Accepted
        } else if str_is(s, "wrong_answer") {
            JudgeStatus::WrongAnswer
        } else if str_is(s, "time_limit_exceeded") {
            JudgeStatus::TimeLimitExceeded
        } else if str_is(s, "memory_limit_exceeded") {
            JudgeStatus::MemoryLimitExceeded
        } else if str_is(s, "runtime_error") {
            JudgeStatus::RuntimeError { exit_code: -1 }
        } else if str_is(s, "compile_error") {
            JudgeStatus::CompileError { message: String::new() }
        } else if str_is(s, "internal_error") {
            JudgeStatus::InternalError { message: String::new() }
        } else if str_is(s, "scored") {
            JudgeStatus::Scored
        } else {
            JudgeStatus::Pending
        }
    }

    /// Verdicts that count as a passed test case.
    pub open spec fn is_success(self) -> bool {
        self is Accepted || self is Scored
    }
}


/// Reading back the database name of a language gives the language.
pub proof fn lemma_language_db_roundtrip(l: Language)
    ensures
        Language::from_db_name(l.db_name()) == l,
{
    reveal_strlit("cpp");
    reveal_strlit("rust");
    reveal_strlit("python");
    reveal_strlit("pypy");
    reveal_strlit("java");
    reveal_strlit("go");
    reveal_strlit("text");
    let n = l.db_name();
    assert(n[0] != "rust"@[0] || n[1] != "rust"@[1] || n.len() != 4 || n == "rust"@);
    assert(n[0] != "python"@[0] || n[1] != "python"@[1] || n.len() != 6 || n == "python"@);
    assert(n[0] != "pypy"@[0] || n[1] != "pypy"@[1] || n.len() != 4 || n == "pypy"@);
    assert(n[0] != "java"@[0] || n.len() != 4 || n == "java"@);
    assert(n[0] != "go"@[0] || n.len() != 2 || n == "go"@);
    assert(n[0] != "text"@[0] || n.len() != 4 || n == "text"@);
}

/// Reading back the database name of a judge type gives the judge type.
pub proof fn lemma_judge_type_db_roundtrip(t: JudgeType)
    ensures
        (if t.db_name() == "heuristic"@ { JudgeType::Heuristic } else { JudgeType::Exact }) == t,
{
    reveal_strlit("exact");
    reveal_strlit("heuristic");
    assert("exact"@.len() != "heuristic"@.len());
}

/// Reading back the database name of a status gives a status with the same
/// name; a status without fields comes back unchanged.
pub proof fn lemma_judge_status_db_roundtrip(st: JudgeStatus, r: JudgeStatus)
    requires
        JudgeStatus::denoted_by(r, st.db_name()),
    ensures
        r.db_name() == st.db_name(),
        !(st is RuntimeError || st is CompileError || st is InternalError) ==> r == st,
{
    reveal_strlit("pending");
    reveal_strlit("running");
    reveal_strlit("accepted");
    reveal_strlit("wrong_answer");
    reveal_strlit("time_limit_exceeded");
    reveal_strlit("memory_limit_exceeded");
    reveal_strlit("runtime_error");
    reveal_strlit("compile_error");
    reveal_strlit("internal_error");
    reveal_strlit("scored");
    let n = st.db_name();
    assert(n.len() != "pending"@.len() || n[0] != "pending"@[0] || n == "pending"@);
    assert(n.len() != "running"@.len() || n[0] != "running"@[0] || n == "running"@);
    assert(n.len() != "accepted"@.len() || n[0] != "accepted"@[0] || n == "accepted"@);
    assert(n.len() != "wrong_answer"@.len() || n[0] != "wrong_answer"@[0] || n == "wrong_answer"@);
    assert(n.len() != "time_limit_exceeded"@.len() || n[0] != "time_limit_exceeded"@[0] || n == "time_limit_exceeded"@);
    assert(n.len() != "memory_limit_exceeded"@.len() || n[0] != "memory_limit_exceeded"@[0] || n == "memory_limit_exceeded"@);
    assert(n.len() != "runtime_error"@.len() || n[0] != "runtime_error"@[0] || n == "runtime_error"@);
    assert(n.len() != "compile_error"@.len() || n[0] != "compile_error"@[0] || n == "compile_error"@);
    assert(n.len() != "internal_error"@.len() || n[0] != "internal_error"@[0] || n == "internal_error"@);
    assert(n.len() != "scored"@.len() || n[0] != "scored"@[0] || n == "scored"@);
}

/// Where a contest stands in its schedule.
#[derive(Debug, Clone, Copy, PartialEq, Eq, Structural)]
pub enum ContestStatus {
    Upcoming,
    Ongoing,
    Past,
}

impl ContestStatus {
    /// Position in the schedule: upcoming, then ongoing, then past.
    pub open spec fn phase(self) -> int {
        match self {
            ContestStatus::Upcoming => 0,
            ContestStatus::Ongoing => 1,
            ContestStatus::Past => 2,
        }
    }

    /// The label shown for the status.
    pub open spec fn label_text(self) -> Seq<char> {
        match self {
            ContestStatus::Upcoming => "予定"@,
            ContestStatus::Ongoing => "開催中"@,
            ContestStatus::Past => "終了"@,
        }
    }

    /// The style class of the status badge.
    pub open spec fn badge_text(self) -> Seq<char> {
        match self {
            ContestStatus::Upcoming => "pending"@,
            ContestStatus::Ongoing => "ac"@,
            ContestStatus::Past => "ce"@,
        }
    }

    pub fn label(&self) -> (s: &'static str)
        ensures
            s@ == self.label_text(),
    {
        match self {
            ContestStatus::Upcoming => "予定",
            ContestStatus::Ongoing => "開催中",
            ContestStatus::Past => "終了",
        }
    }

    pub fn badge_class(&self) -> (s: &'static str)
        ensures
            s@ == self.badge_text(),
    {
        match self {
            ContestStatus::Upcoming => "pending",
            ContestStatus::Ongoing => "ac",
            ContestStatus::Past => "ce",
        }
    }
}

/// A problem of a contest, with its label and position.
#[derive(Debug, Clone)]
pub struct ContestProblem {
    pub label: String,
    pub problem_id: String,
    pub display_order: i32,
}

/// A contest; its start and end are instants in microseconds since the
/// Unix epoch.
#[derive(Debug, Clone)]
pub struct Contest {
    pub id: String,
    pub title: String,
    pub description: String,
    pub start_time: i64,
    pub end_time: i64,
    pub judge_type: JudgeType,
}

impl Contest {
    /// Start and end are instants a `chrono::DateTime<Utc>` can hold.
    pub open spec fn wf(&self) -> bool {
        in_chrono_range(self.start_time) && in_chrono_range(self.end_time)
    }

    /// The status of the contest at the instant `now`, in nanoseconds since
    /// the epoch: upcoming before the start, ongoing up to and including the
    /// end, past after it.
    pub open spec fn status_spec(&self, now: i128) -> ContestStatus {
        if now < self.start_time * 1000 {
            ContestStatus::Upcoming
        } else if now <= self.end_time * 1000 {
            ContestStatus::Ongoing
        } else {
            ContestStatus::Past
        }
    }

    pub fn status_at(&self, now: i128) -> (st: ContestStatus)
        ensures
            st == self.status_spec(now),
    {
        if now < (self.start_time as i128) * 1000 {
            ContestStatus::Upcoming
        } else if now <= (self.end_time as i128) * 1000 {
            ContestStatus::Ongoing
        } else {
            ContestStatus::Past
        }
    }

    /// The status at the current instant, read from the clock.
    pub fn status(&self) -> (st: ContestStatus)
        ensures
            exists|t: i128| in_chrono_range_ns(t as int) && st == self.status_spec(t),
    {
        let now = now_nanos();
        self.status_at(now)
    }
}

/// A contest's status never goes back: upcoming, then ongoing, then past.
pub proof fn lemma_status_monotone(c: Contest, t1: i128, t2: i128)
    requires
        t1 <= t2,
    ensures
        c.status_spec(t1).phase() <= c.status_spec(t2).phase(),
{
}

/// A request of the JSON submission API: one test case with its expected output.
#[derive(Debug, Clone)]
pub struct SubmitRequest {
    pub source_code: String,
    pub language: Language,
    pub problem_id: String,
    pub stdin: String,
    pub expected_output: String,
    pub time_limit_ms: u64,
    pub memory_limit_kb: u64,
}

} // verus!
