//! Problems: their limits and score, their statement rendered from Markdown,
//! and the test-case files of a problem directory.
use vstd::prelude::*;
use crate::text::{chars_of, name_le, names_le, lemma_name_le_total, lemma_name_le_trans, push_all};

verus! {

broadcast use vstd::seq_lib::group_seq_properties, vstd::multiset::group_multiset_axioms;

/// What a problem's `meta.toml` holds.
pub struct ProblemMeta {
    pub title: String,
    pub time_limit_ms: u64,
    pub memory_limit_kb: u64,
    pub score: u64,
}

/// The time limit of a problem whose `meta.toml` gives none.
pub fn default_time_limit() -> (ms: u64)
    ensures
        ms == 2000,
{
    2000
}

/// The memory limit of a problem whose `meta.toml` gives none (256 MiB).
pub fn default_memory_limit() -> (kb: u64)
    ensures
        kb == 262144,
{
    262144
}

/// The score of a problem whose `meta.toml` gives none.
pub fn default_score() -> (s: u64)
    ensures
        s == 100,
{
    100
}

/// One test case: the input fed to the program and the expected output.
pub struct Testcase {
    pub input: String,
    pub expected: String,
}

/// A loaded problem.
pub struct Problem {
    pub id: String,
    pub title: String,
    pub time_limit_ms: u64,
    pub memory_limit_kb: u64,
    pub html_content: String,
    pub testcases: Vec<Testcase>,
    pub score: u64,
    /// The scorer of a heuristic problem, where its directory has one.
    pub scorer_path: Option<String>,
}

/// The HTML that pulldown-cmark renders for the Markdown text `md`, with
/// tables and strikethrough enabled.
pub uninterp spec fn statement_html(md: Seq<char>) -> Seq<char>;

/// Renders Markdown with `pulldown_cmark::html::push_html` over
/// `Parser::new_ext(md, opts)`, `opts` holding `ENABLE_TABLES` and
/// `ENABLE_STRIKETHROUGH`, into an empty string. The HTML is named, not
/// stated: it is a function of `md` alone.
#[verifier::external_body]
fn markdown_to_html(md: &str) -> (html: String)
    ensures
        html@ == statement_html(md@),
{
    let mut opts = pulldown_cmark::Options::empty();
    opts.insert(pulldown_cmark::Options::ENABLE_TABLES);
    opts.insert(pulldown_cmark::Options::ENABLE_STRIKETHROUGH);
    let mut out = String::new();
    pulldown_cmark::html::push_html(&mut out, pulldown_cmark::Parser::new_ext(md, opts));
    out
}

/// The message of a problem without test cases.
pub open spec fn no_testcases_message(id: Seq<char>) -> Seq<char> {
    "problem '"@ + id + "' has no test cases"@
}

/// A problem from its directory's contents: the id, the parsed `meta.toml`,
/// the Markdown statement, the test cases and the scorer. A problem with no
/// test case is refused.
pub fn build_problem(
    id: &str,
    meta: ProblemMeta,
    statement_md: &str,
    testcases: Vec<Testcase>,
    scorer_path: Option<String>,
) -> (r: Result<Problem, String>)
    ensures
        r is Err <==> testcases@.len() == 0,
        r matches Err(msg) ==> msg@ == no_testcases_message(id@),
        r matches Ok(p) ==> {
            &&& p.id@ == id@
            &&& p.title == meta.title
            &&& p.time_limit_ms == meta.time_limit_ms
            &&& p.memory_limit_kb == meta.memory_limit_kb
            &&& p.score == meta.score
            &&& p.html_content@ == statement_html(statement_md@)
            &&& p.testcases@ == testcases@
            &&& p.scorer_path == scorer_path
        },
{
    if testcases.len() == 0 {
        let mut msg = String::new();
        push_all(&mut msg, "problem '");
        push_all(&mut msg, id);
        push_all(&mut msg, "' has no test cases");
        proof {
            assert(msg@ =~= no_testcases_message(id@));
        }
        return Err(msg);
    }
    let html_content = markdown_to_html(statement_md);
    let mut id_string = String::new();
    push_all(&mut id_string, id);
    assert(id_string@ =~= id@);
    Ok(Problem {
        id: id_string,
        title: meta.title,
        time_limit_ms: meta.time_limit_ms,
        memory_limit_kb: meta.memory_limit_kb,
        html_content,
        testcases,
        score: meta.score,
        scorer_path,
    })
}

/// Whether `names` is in code-point order.
pub open spec fn names_sorted(names: Seq<String>) -> bool {
    forall|a: int, b: int| 0 <= a < b < names.len() ==> name_le(#[trigger] names[a]@, #[trigger] names[b]@)
}

/// `names` in code-point order (the order of `sort` on file names), each
/// name kept.
pub fn sort_names(names: Vec<String>) -> (out: Vec<String>)
    ensures
        out@.to_multiset() == names@.to_multiset(),
        names_sorted(out@),
{
    let mut rest = names;
    let mut out: Vec<String> = Vec::new();
    while rest.len() > 0
        invariant
            out@.to_multiset().add(rest@.to_multiset()) == names@.to_multiset(),
            names_sorted(out@),
        decreases rest@.len(),
    {
        let ghost before_rest = rest@;
        let c = rest.pop().unwrap();
        assert(rest@.push(c) =~= before_rest);
        let cv = chars_of(c.as_str());
        let mut p: usize = 0;
        while p < out.len() && !names_le(cv.as_slice(), chars_of(out[p].as_str()).as_slice())
            invariant
                p <= out@.len(),
                cv@ == c@,
                forall|i: int| 0 <= i < p ==> !name_le(c@, #[trigger] out@[i]@),
            decreases out@.len() - p,
        {
            p = p + 1;
        }
        let ghost before_out = out@;
        out.insert(p, c);
        proof {
            vstd::seq_lib::to_multiset_insert(before_out, p as int, c);
            assert forall|a: int, b: int| 0 <= a < b < out@.len() implies name_le(
                #[trigger] out@[a]@,
                #[trigger] out@[b]@,
            ) by {
                if a < p && b == p {
                    lemma_name_le_total(c@, before_out[a]@);
                } else if a < p && b > p {
                    lemma_name_le_total(c@, before_out[a]@);
                    if p < before_out.len() {
                        lemma_name_le_trans(before_out[a]@, c@, before_out[p as int]@);
                    }
                    assert(out@[b] == before_out[b - 1]);
                } else if a == p {
                    assert(out@[b] == before_out[b - 1]);
                    if b - 1 > p {
                        lemma_name_le_trans(c@, before_out[p as int]@, before_out[b - 1]@);
                    }
                } else if a > p {
                    assert(out@[a] == before_out[a - 1]);
                    assert(out@[b] == before_out[b - 1]);
                }
            }
        }
    }
    assert(rest@ =~= Seq::<String>::empty());
    out
}

/// A test-case input file: its extension is `in` (the name ends with
/// `.in`, and something stands before that dot).
pub open spec fn is_input_name(name: Seq<char>) -> bool {
    name.len() >= 4 && name.subrange(name.len() - 3, name.len() as int) == ".in"@
}

/// The expected-output file of an input file: its extension made `out`.
pub open spec fn output_name(name: Seq<char>) -> Seq<char> {
    name.subrange(0, name.len() - 3) + ".out"@
}

/// The input files among `names`, in their order.
pub open spec fn input_names(names: Seq<String>) -> Seq<String>
    decreases names.len(),
{
    if names.len() == 0 {
        Seq::empty()
    } else if is_input_name(names.last()@) {
        input_names(names.drop_last()).push(names.last())
    } else {
        input_names(names.drop_last())
    }
}

fn is_input_file(name: &String) -> (b: bool)
    ensures
        b == is_input_name(name@),
{
    let v = chars_of(name.as_str());
    let n = v.len();
    if n < 4 {
        return false;
    }
    let b = v[n - 3] == '.' && v[n - 2] == 'i' && v[n - 1] == 'n';
    proof {
        reveal_strlit(".in");
        if b {
            assert(name@.subrange(n - 3, n as int) =~= ".in"@);
        } else if name@.subrange(n - 3, n as int) == ".in"@ {
            assert(name@.subrange(n - 3, n as int)[0] == name@[n - 3]);
            assert(name@.subrange(n - 3, n as int)[1] == name@[n - 2]);
            assert(name@.subrange(n - 3, n as int)[2] == name@[n - 1]);
        }
    }
    b
}

fn output_file_name(name: &String) -> (out: String)
    requires
        is_input_name(name@),
    ensures
        out@ == output_name(name@),
{
    let v = chars_of(name.as_str());
    let mut out = String::new();
    let mut i: usize = 0;
    while i + 3 < v.len()
        invariant
            v@ == name@,
            v.len() >= 4,
            i + 3 <= v.len(),
            out@ == v@.take(i as int),
        decreases v.len() - i,
    {
        crate::text::push_char(&mut out, v[i]);
        i = i + 1;
        assert(out@ =~= v@.take(i as int));
    }
    push_all(&mut out, ".out");
    assert(out@ =~= output_name(name@));
    out
}

/// The test-case files of a problem directory whose entries are named
/// `names`: each input file with its expected-output file, the inputs in
/// code-point order.
pub fn testcase_files(names: Vec<String>) -> (pairs: Vec<(String, String)>)
    ensures
        pairs@.map_values(|p: (String, String)| p.0).to_multiset() == input_names(names@).to_multiset(),
        names_sorted(pairs@.map_values(|p: (String, String)| p.0)),
        forall|i: int| 0 <= i < pairs@.len() ==> (#[trigger] pairs@[i]).1@ == output_name(pairs@[i].0@),
{
    let mut inputs: Vec<String> = Vec::new();
    let ghost whole = names@;
    for n in it: names
        invariant
            it.seq() == whole,
            inputs@ == input_names(whole.take(it.index() as int)),
    {
        assert(whole.take(it.index() + 1).drop_last() =~= whole.take(it.index() as int));
        if is_input_file(&n) {
            inputs.push(n);
        }
    }
    assert(whole.take(whole.len() as int) =~= whole);
    let sorted = sort_names(inputs);
    let mut pairs: Vec<(String, String)> = Vec::new();
    let mut i: usize = 0;
    assert(forall|k: int| 0 <= k < input_names(whole).len() ==> is_input_name(#[trigger] input_names(whole)[k]@)) by {
        lemma_input_names_are_inputs(whole);
    }
    assert(forall|k: int| 0 <= k < sorted@.len() ==> is_input_name(#[trigger] sorted@[k]@)) by {
        assert forall|k: int| 0 <= k < sorted@.len() implies is_input_name(#[trigger] sorted@[k]@) by {
            assert(sorted@.to_multiset().count(sorted@[k]) > 0);
            assert(input_names(whole).to_multiset().count(sorted@[k]) > 0);
            let j = choose|j: int| 0 <= j < input_names(whole).len() && input_names(whole)[j] == sorted@[k];
        }
    }
    while i < sorted.len()
        invariant
            i <= sorted@.len(),
            pairs@.len() == i,
            forall|k: int| 0 <= k < sorted@.len() ==> is_input_name(#[trigger] sorted@[k]@),
            forall|k: int| 0 <= k < i ==> (#[trigger] pairs@[k]).0 == sorted@[k],
            forall|k: int| 0 <= k < i ==> (#[trigger] pairs@[k]).1@ == output_name(pairs@[k].0@),
        decreases sorted@.len() - i,
    {
        let o = output_file_name(&sorted[i]);
        pairs.push((sorted[i].clone(), o));
        i = i + 1;
    }
    assert(pairs@.map_values(|p: (String, String)| p.0) =~= sorted@);
    pairs
}

proof fn lemma_input_names_are_inputs(names: Seq<String>)
    ensures
        forall|k: int| 0 <= k < input_names(names).len() ==> is_input_name(#[trigger] input_names(names)[k]@),
    decreases names.len(),
{
    if names.len() > 0 {
        let prev = input_names(names.drop_last());
        lemma_input_names_are_inputs(names.drop_last());
        assert forall|k: int| 0 <= k < input_names(names).len() implies is_input_name(
            #[trigger] input_names(names)[k]@,
        ) by {
            if k < prev.len() {
                assert(input_names(names)[k] == prev[k]);
            }
        }
    }
}

} // verus!
