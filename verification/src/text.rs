//! Character-level text utilities: Unicode whitespace, trimming, words,
//! lines and decimal numbers, specified over `Seq<char>`.
use vstd::prelude::*;

verus! {

/// The Unicode `White_Space` property, as used by `char::is_whitespace`.
pub open spec fn is_ws(c: char) -> bool {
    let n = c as u32;
    ||| 0x09 <= n <= 0x0D
    ||| n == 0x20
    ||| n == 0x85
    ||| n == 0xA0
    ||| n == 0x1680
    ||| 0x2000 <= n <= 0x200A
    ||| n == 0x2028
    ||| n == 0x2029
    ||| n == 0x202F
    ||| n == 0x205F
    ||| n == 0x3000
}

/// Executable test for `is_ws`.
pub fn is_whitespace(c: char) -> (b: bool)
    ensures
        b == is_ws(c),
{
    let n = c as u32;
    (0x09 <= n && n <= 0x0D) || n == 0x20 || n == 0x85 || n == 0xA0 || n == 0x1680 || (0x2000
        <= n && n <= 0x200A) || n == 0x2028 || n == 0x2029 || n == 0x202F || n == 0x205F || n
        == 0x3000
}

/// Appends one character to a string (`String::push`).
#[verifier::external_body]
pub(crate) fn push_char(s: &mut String, c: char)
    ensures
        final(s)@ == old(s)@.push(c),
{
    s.push(c);
}

/// The characters of a string slice, in order.
pub fn chars_of(s: &str) -> (v: Vec<char>)
    ensures
        v@ == s@,
{
    let mut v: Vec<char> = Vec::new();
    for c in it: s.chars()
        invariant
            v@ == it.seq().take(it.index() as int),
            it.seq() == s@,
    {
        v.push(c);
    }
    v
}


/// Builds a string from a sequence of characters.
pub fn string_of(v: &[char]) -> (s: String)
    ensures
        s@ == v@,
{
    let mut s = String::new();
    let mut i: usize = 0;
    while i < v.len()
        invariant
            i <= v.len(),
            s@ == v@.take(i as int),
        decreases v.len() - i,
    {
        push_char(&mut s, v[i]);
        i = i + 1;
        assert(s@ =~= v@.take(i as int));
    }
    assert(v@.take(v.len() as int) =~= v@);
    s
}

/// `s` with leading whitespace removed.
pub open spec fn trim_start(s: Seq<char>) -> Seq<char>
    decreases s.len(),
{
    if s.len() > 0 && is_ws(s[0]) {
        trim_start(s.drop_first())
    } else {
        s
    }
}

/// `s` with trailing whitespace removed.
pub open spec fn trim_end(s: Seq<char>) -> Seq<char>
    decreases s.len(),
{
    if s.len() > 0 && is_ws(s.last()) {
        trim_end(s.drop_last())
    } else {
        s
    }
}

/// `s` with leading and trailing whitespace removed (`str::trim`).
pub open spec fn trim(s: Seq<char>) -> Seq<char> {
    trim_end(trim_start(s))
}

proof fn lemma_trim_start_skip(s: Seq<char>, i: int)
    requires
        0 <= i <= s.len(),
        forall|k: int| 0 <= k < i ==> is_ws(#[trigger] s[k]),
    ensures
        trim_start(s) == trim_start(s.skip(i)),
    decreases i,
{
    if i > 0 {
        assert(s.drop_first().skip(i - 1) =~= s.skip(i));
        lemma_trim_start_skip(s.drop_first(), i - 1);
    } else {
        assert(s.skip(0) =~= s);
    }
}

proof fn lemma_trim_end_take(s: Seq<char>, j: int)
    requires
        0 <= j <= s.len(),
        forall|k: int| j <= k < s.len() ==> is_ws(#[trigger] s[k]),
    ensures
        trim_end(s) == trim_end(s.take(j)),
    decreases s.len() - j,
{
    if j < s.len() {
        assert(s.drop_last().take(j) =~= s.take(j));
        lemma_trim_end_take(s.drop_last(), j);
    } else {
        assert(s.take(j) =~= s);
    }
}

/// The bounds `(a, b)` such that `trim(v) == v[a..b]`.
pub fn trim_bounds(v: &[char]) -> (r: (usize, usize))
    ensures
        r.0 <= r.1 <= v@.len(),
        trim(v@) == v@.subrange(r.0 as int, r.1 as int),
{
    let n = v.len();
    let mut a: usize = 0;
    while a < n && is_whitespace(v[a])
        invariant
            a <= n == v@.len(),
            forall|k: int| 0 <= k < a ==> is_ws(#[trigger] v@[k]),
        decreases n - a,
    {
        a = a + 1;
    }
    proof {
        lemma_trim_start_skip(v@, a as int);
    }
    let mut b: usize = n;
    while b > a && is_whitespace(v[b - 1])
        invariant
            a <= b <= n == v@.len(),
            forall|k: int| b <= k < n ==> is_ws(#[trigger] v@[k]),
        decreases b,
    {
        b = b - 1;
    }
    proof {
        let t = v@.skip(a as int);
        if a < n {
            assert(!is_ws(t[0]));
        }
        assert(trim_start(t) == t);
        assert forall|k: int| (b - a) <= k < t.len() implies is_ws(#[trigger] t[k]) by {
            assert(t[k] == v@[a + k]);
        }
        lemma_trim_end_take(t, b - a);
        let u = t.take(b - a);
        assert(u =~= v@.subrange(a as int, b as int));
        if b > a {
            assert(u.last() == v@[b - 1]);
        }
        assert(trim_end(u) == u);
    }
    (a, b)
}

/// `str::trim`, returning an owned string.
pub fn trim_str(s: &str) -> (r: String)
    ensures
        r@ == trim(s@),
{
    let v = chars_of(s);
    let (a, b) = trim_bounds(v.as_slice());
    let sub = vstd::slice::slice_subrange(v.as_slice(), a, b);
    string_of(sub)
}


/// Length of the run of non-whitespace characters that starts `s`.
pub open spec fn word_len(s: Seq<char>) -> nat
    decreases s.len(),
{
    if s.len() > 0 && !is_ws(s[0]) {
        1 + word_len(s.drop_first())
    } else {
        0
    }
}

pub proof fn lemma_word_len(s: Seq<char>)
    ensures
        word_len(s) <= s.len(),
        s.len() > 0 && !is_ws(s[0]) ==> word_len(s) >= 1,
        forall|k: int| 0 <= k < word_len(s) ==> !is_ws(#[trigger] s[k]),
        word_len(s) < s.len() ==> is_ws(s[word_len(s) as int]),
    decreases s.len(),
{
    if s.len() > 0 && !is_ws(s[0]) {
        lemma_word_len(s.drop_first());
        assert forall|k: int| 0 <= k < word_len(s) implies !is_ws(#[trigger] s[k]) by {
            if k > 0 {
                assert(s[k] == s.drop_first()[k - 1]);
            }
        }
    }
}

proof fn lemma_word_len_is(s: Seq<char>, m: int)
    requires
        0 <= m <= s.len(),
        forall|k: int| 0 <= k < m ==> !is_ws(#[trigger] s[k]),
        m < s.len() ==> is_ws(s[m]),
    ensures
        word_len(s) == m,
    decreases m,
{
    if m > 0 {
        assert forall|k: int| 0 <= k < m - 1 implies !is_ws(#[trigger] s.drop_first()[k]) by {
            assert(s.drop_first()[k] == s[k + 1]);
        }
        lemma_word_len_is(s.drop_first(), m - 1);
    }
}

/// The whitespace-separated words of `s` (`str::split_whitespace`).
pub open spec fn words(s: Seq<char>) -> Seq<Seq<char>>
    decreases s.len(),
{
    if s.len() == 0 {
        Seq::empty()
    } else if is_ws(s[0]) {
        words(s.drop_first())
    } else {
        let n = word_len(s);
        proof {
            lemma_word_len(s);
        }
        seq![s.take(n as int)] + words(s.skip(n as int))
    }
}

/// The first word of `v` at or after position `start`.
pub fn next_word(v: &[char], start: usize) -> (r: Option<(usize, usize)>)
    requires
        start <= v@.len(),
    ensures
        r is None ==> words(v@.skip(start as int)) == Seq::<Seq<char>>::empty(),
        r matches Some((a, b)) ==> start <= a < b <= v@.len() && words(v@.skip(start as int))
            == seq![v@.subrange(a as int, b as int)] + words(v@.skip(b as int)),
{
    let n = v.len();
    let mut i = start;
    while i < n && is_whitespace(v[i])
        invariant
            start <= i <= n == v@.len(),
            words(v@.skip(start as int)) == words(v@.skip(i as int)),
        decreases n - i,
    {
        assert(v@.skip(i as int).drop_first() =~= v@.skip(i + 1));
        i = i + 1;
    }
    if i == n {
        return None;
    }
    let mut j = i;
    while j < n && !is_whitespace(v[j])
        invariant
            i <= j <= n == v@.len(),
            forall|k: int| i <= k < j ==> !is_ws(#[trigger] v@[k]),
        decreases n - j,
    {
        j = j + 1;
    }
    proof {
        let t = v@.skip(i as int);
        assert forall|k: int| 0 <= k < j - i implies !is_ws(#[trigger] t[k]) by {
            assert(t[k] == v@[i + k]);
        }
        if j < n {
            assert(t[j - i] == v@[j as int]);
        }
        lemma_word_len_is(t, j - i);
        assert(t.take(j - i) =~= v@.subrange(i as int, j as int));
        assert(t.skip(j - i) =~= v@.skip(j as int));
    }
    Some((i, j))
}

/// The `k`-th word of `v` (`split_whitespace().nth(k)`), as bounds into `v`.
pub fn nth_word(v: &[char], k: usize) -> (r: Option<(usize, usize)>)
    ensures
        r is None ==> words(v@).len() <= k,
        r matches Some((a, b)) ==> a <= b <= v@.len() && k < words(v@).len() && words(v@)[k as int]
            == v@.subrange(a as int, b as int),
{
    let mut pos: usize = 0;
    let mut count: usize = 0;
    let ghost mut pre: Seq<Seq<char>> = Seq::empty();
    assert(v@.skip(0) =~= v@);
    loop
        invariant
            pos <= v@.len(),
            count <= k,
            pre.len() == count,
            words(v@) == pre + words(v@.skip(pos as int)),
        decreases v@.len() - pos,
    {
        match next_word(v, pos) {
            None => {
                assert(words(v@) =~= pre);
                return None;
            },
            Some((a, b)) => {
                let ghost w = v@.subrange(a as int, b as int);
                if count == k {
                    assert(words(v@) =~= pre + (seq![w] + words(v@.skip(b as int))));
                    assert(words(v@)[k as int] == w);
                    return Some((a, b));
                }
                proof {
                    assert(pre + (seq![w] + words(v@.skip(b as int))) =~= pre.push(w) + words(
                        v@.skip(b as int),
                    ));
                    pre = pre.push(w);
                }
                pos = b;
                count = count + 1;
            },
        }
    }
}

/// The last word of `v` (`split_whitespace().last()`), as bounds into `v`.
pub fn last_word(v: &[char]) -> (r: Option<(usize, usize)>)
    ensures
        r is None ==> words(v@).len() == 0,
        r matches Some((a, b)) ==> a <= b <= v@.len() && words(v@).len() > 0 && words(v@).last()
            == v@.subrange(a as int, b as int),
{
    let mut pos: usize = 0;
    let mut last: Option<(usize, usize)> = None;
    let ghost mut pre: Seq<Seq<char>> = Seq::empty();
    assert(v@.skip(0) =~= v@);
    loop
        invariant
            pos <= v@.len(),
            words(v@) == pre + words(v@.skip(pos as int)),
            last is None ==> pre.len() == 0,
            last matches Some((a, b)) ==> a <= b <= v@.len() && pre.len() > 0 && pre.last()
                == v@.subrange(a as int, b as int),
        decreases v@.len() - pos,
    {
        match next_word(v, pos) {
            None => {
                assert(words(v@) =~= pre);
                return last;
            },
            Some((a, b)) => {
                let ghost w = v@.subrange(a as int, b as int);
                proof {
                    assert(pre + (seq![w] + words(v@.skip(b as int))) =~= pre.push(w) + words(
                        v@.skip(b as int),
                    ));
                    pre = pre.push(w);
                }
                last = Some((a, b));
                pos = b;
            },
        }
    }
}

/// Whether `w` is one of the words of `v`.
pub fn has_word(v: &[char], w: &[char]) -> (b: bool)
    ensures
        b == words(v@).contains(w@),
{
    let mut pos: usize = 0;
    let ghost mut pre: Seq<Seq<char>> = Seq::empty();
    assert(v@.skip(0) =~= v@);
    loop
        invariant
            pos <= v@.len(),
            words(v@) == pre + words(v@.skip(pos as int)),
            !pre.contains(w@),
        decreases v@.len() - pos,
    {
        match next_word(v, pos) {
            None => {
                assert(words(v@) =~= pre);
                return false;
            },
            Some((a, b)) => {
                let ghost u = v@.subrange(a as int, b as int);
                let ghost rest = words(v@.skip(b as int));
                assert(pre + (seq![u] + rest) =~= pre.push(u) + rest);
                if slices_equal(vstd::slice::slice_subrange(v, a, b), w) {
                    assert(words(v@)[pre.len() as int] == u);
                    return true;
                }
                proof {
                    assert forall|x| #[trigger] pre.push(u).contains(x) implies x != w@ by {
                        if x != u {
                            let i = choose|i: int| 0 <= i < pre.push(u).len() && pre.push(u)[i] == x;
                            assert(pre[i] == x);
                        }
                    }
                    pre = pre.push(u);
                }
                pos = b;
            },
        }
    }
}

/// Element-wise equality of two character slices.
pub fn slices_equal(x: &[char], y: &[char]) -> (b: bool)
    ensures
        b == (x@ == y@),
{
    if x.len() != y.len() {
        return false;
    }
    let mut i: usize = 0;
    while i < x.len()
        invariant
            i <= x@.len() == y@.len(),
            forall|k: int| 0 <= k < i ==> x@[k] == y@[k],
        decreases x.len() - i,
    {
        if x[i] != y[i] {
            return false;
        }
        i = i + 1;
    }
    assert(x@ =~= y@);
    true
}


/// Position of the first `'\n'` in `s`, or its length.
pub open spec fn newline_pos(s: Seq<char>) -> nat
    decreases s.len(),
{
    if s.len() == 0 || s[0] == '\n' {
        0
    } else {
        1 + newline_pos(s.drop_first())
    }
}

proof fn lemma_newline_pos_is(s: Seq<char>, m: int)
    requires
        0 <= m <= s.len(),
        forall|k: int| 0 <= k < m ==> #[trigger] s[k] != '\n',
        m < s.len() ==> s[m] == '\n',
    ensures
        newline_pos(s) == m,
    decreases m,
{
    if m > 0 {
        assert forall|k: int| 0 <= k < m - 1 implies #[trigger] s.drop_first()[k] != '\n' by {
            assert(s.drop_first()[k] == s[k + 1]);
        }
        lemma_newline_pos_is(s.drop_first(), m - 1);
    }
}

/// A line with the `'\r'` of a `"\r\n"` ending removed.
pub open spec fn strip_cr(l: Seq<char>) -> Seq<char> {
    if l.len() > 0 && l.last() == '\r' {
        l.drop_last()
    } else {
        l
    }
}

/// The lines of `s` (`str::lines`): split at `'\n'`, a `'\r'` before the
/// `'\n'` removed, no empty line after a final newline.
pub open spec fn lines(s: Seq<char>) -> Seq<Seq<char>>
    decreases s.len(),
{
    if s.len() == 0 {
        Seq::empty()
    } else {
        let i = newline_pos(s);
        if i < s.len() {
            seq![strip_cr(s.take(i as int))] + lines(s.skip(i + 1 as int))
        } else {
            seq![s]
        }
    }
}

/// `s.lines().next().unwrap_or(s)`.
pub open spec fn first_line(s: Seq<char>) -> Seq<char> {
    let i = newline_pos(s);
    if i < s.len() {
        strip_cr(s.take(i as int))
    } else {
        s
    }
}

/// The line of `v` that starts at `start`: its content ends at `e`, and the
/// next line starts at `next`.
pub fn next_line(v: &[char], start: usize) -> (r: (usize, usize))
    requires
        start < v@.len(),
    ensures
        start <= r.0 <= v@.len(),
        start < r.1 <= v@.len(),
        lines(v@.skip(start as int)) == seq![v@.subrange(start as int, r.0 as int)] + lines(
            v@.skip(r.1 as int),
        ),
        first_line(v@.skip(start as int)) == v@.subrange(start as int, r.0 as int),
{
    let n = v.len();
    let mut i = start;
    while i < n && v[i] != '\n'
        invariant
            start <= i <= n == v@.len(),
            forall|k: int| start <= k < i ==> #[trigger] v@[k] != '\n',
        decreases n - i,
    {
        i = i + 1;
    }
    let ghost t = v@.skip(start as int);
    proof {
        assert forall|k: int| 0 <= k < i - start implies #[trigger] t[k] != '\n' by {
            assert(t[k] == v@[start + k]);
        }
        if i < n {
            assert(t[i - start] == v@[i as int]);
        }
        lemma_newline_pos_is(t, i - start);
    }
    if i == n {
        assert(t =~= v@.subrange(start as int, n as int));
        assert(v@.skip(n as int) =~= Seq::<char>::empty());
        assert(lines(v@.skip(n as int)) =~= Seq::<Seq<char>>::empty());
        return (n, n);
    }
    let ghost l = t.take(i - start);
    assert(l =~= v@.subrange(start as int, i as int));
    assert(t.skip(i - start + 1) =~= v@.skip(i + 1));
    if i > start && v[i - 1] == '\r' {
        assert(l.drop_last() =~= v@.subrange(start as int, i - 1));
        (i - 1, i + 1)
    } else {
        (i, i + 1)
    }
}

/// Whether `p` occurs in `s` as a contiguous part.
pub open spec fn contains_seq(s: Seq<char>, p: Seq<char>) -> bool {
    exists|i: int| 0 <= i <= s.len() - p.len() && #[trigger] s.subrange(i, i + p.len()) == p
}

/// Whether `p` occurs in `v[a..b]`.
pub fn range_contains(v: &[char], a: usize, b: usize, p: &[char]) -> (r: bool)
    requires
        a <= b <= v@.len(),
    ensures
        r == contains_seq(v@.subrange(a as int, b as int), p@),
{
    let ghost s = v@.subrange(a as int, b as int);
    let m = p.len();
    if m > b - a {
        return false;
    }
    let mut i: usize = 0;
    while i <= (b - a) - m
        invariant
            a <= b <= v@.len(),
            m == p@.len(),
            m <= b - a,
            i <= b - a - m + 1,
            s == v@.subrange(a as int, b as int),
            forall|j: int| 0 <= j < i ==> #[trigger] s.subrange(j, j + m) != p@,
        decreases b - a - i,
    {
        let mut k: usize = 0;
        let mut same = true;
        while k < m
            invariant
                i + m <= b - a,
                a <= b <= v@.len(),
                m == p@.len(),
                k <= m,
                s == v@.subrange(a as int, b as int),
                same == (forall|q: int| 0 <= q < k ==> s[i + q] == p@[q]),
            decreases m - k,
        {
            if v[a + i + k] != p[k] {
                same = false;
            }
            assert(s[i + k] == v@[a + i + k]);
            k = k + 1;
        }
        if same {
            assert(s.subrange(i as int, i + m) =~= p@);
            return true;
        }
        assert(s.subrange(i as int, i + m)[(choose|q: int| 0 <= q < m && s[i + q] != p@[q])]
            != p@[(choose|q: int| 0 <= q < m && s[i + q] != p@[q])]);
        i = i + 1;
    }
    assert forall|j: int| 0 <= j <= s.len() - p@.len() implies #[trigger] s.subrange(j, j + m)
        != p@ by {}
    false
}

/// The first of `ls` in which `p` occurs (`iter().find(..)`).
pub open spec fn first_containing(ls: Seq<Seq<char>>, p: Seq<char>) -> Option<Seq<char>>
    decreases ls.len(),
{
    if ls.len() == 0 {
        None
    } else if contains_seq(ls[0], p) {
        Some(ls[0])
    } else {
        first_containing(ls.drop_first(), p)
    }
}

/// The first line of `v` that contains `p`, as bounds into `v`.
pub fn find_line_containing(v: &[char], p: &[char]) -> (r: Option<(usize, usize)>)
    ensures
        r is None ==> first_containing(lines(v@), p@) is None,
        r matches Some((a, b)) ==> a <= b <= v@.len() && first_containing(lines(v@), p@) == Some(
            v@.subrange(a as int, b as int),
        ),
{
    let n = v.len();
    let mut pos: usize = 0;
    assert(v@.skip(0) =~= v@);
    while pos < n
        invariant
            pos <= n == v@.len(),
            first_containing(lines(v@), p@) == first_containing(lines(v@.skip(pos as int)), p@),
        decreases n - pos,
    {
        let (e, next) = next_line(v, pos);
        let ghost l = v@.subrange(pos as int, e as int);
        let ghost ls = lines(v@.skip(pos as int));
        if range_contains(v, pos, e, p) {
            assert(ls[0] == l);
            return Some((pos, e));
        }
        assert(ls.drop_first() =~= lines(v@.skip(next as int)));
        pos = next;
    }
    assert(v@.skip(n as int) =~= Seq::<char>::empty());
    None
}

/// `s.trim_start_matches(p)`: `s` with every leading copy of `p` removed.
pub open spec fn strip_prefixes(s: Seq<char>, p: Seq<char>) -> Seq<char>
    decreases s.len(),
{
    if p.len() > 0 && s.len() >= p.len() && s.take(p.len() as int) == p {
        strip_prefixes(s.skip(p.len() as int), p)
    } else {
        s
    }
}

/// The start of `strip_prefixes(v[a..b], p)` within `v`.
pub fn strip_prefixes_start(v: &[char], a: usize, b: usize, p: &[char]) -> (r: usize)
    requires
        a <= b <= v@.len(),
    ensures
        a <= r <= b,
        strip_prefixes(v@.subrange(a as int, b as int), p@) == v@.subrange(r as int, b as int),
{
    let m = p.len();
    if m == 0 {
        return a;
    }
    let mut i = a;
    while b - i >= m && slices_equal(vstd::slice::slice_subrange(v, i, i + m), p)
        invariant
            a <= i <= b <= v@.len(),
            m == p@.len() > 0,
            strip_prefixes(v@.subrange(a as int, b as int), p@) == strip_prefixes(
                v@.subrange(i as int, b as int),
                p@,
            ),
        decreases b - i,
    {
        let ghost t = v@.subrange(i as int, b as int);
        assert(t.take(m as int) =~= v@.subrange(i as int, i + m));
        assert(t.skip(m as int) =~= v@.subrange(i + m, b as int));
        i = i + m;
    }
    proof {
        let t = v@.subrange(i as int, b as int);
        if b - i >= m {
            assert(t.take(m as int) =~= v@.subrange(i as int, i + m));
        }
    }
    i
}


/// The character of a decimal digit.
pub open spec fn digit(d: nat) -> char
    recommends
        d < 10,
{
    (48 + d) as char
}

/// The decimal representation of `n`, without leading zeros.
pub open spec fn decimal(n: nat) -> Seq<char>
    decreases n,
{
    if n < 10 {
        seq![digit(n)]
    } else {
        decimal(n / 10).push(digit(n % 10))
    }
}

/// `n` in decimal with at least two digits (`{:02}`).
pub open spec fn decimal2(n: nat) -> Seq<char> {
    if n < 10 {
        seq!['0'] + decimal(n)
    } else {
        decimal(n)
    }
}

fn digit_char(d: u64) -> (c: char)
    requires
        d < 10,
    ensures
        c == digit(d as nat),
{
    let b: u8 = 48 + d as u8;
    b as char
}

/// Appends the decimal representation of `n`.
pub fn push_decimal(s: &mut String, n: u64)
    ensures
        final(s)@ == old(s)@ + decimal(n as nat),
    decreases n,
{
    if n >= 10 {
        push_decimal(s, n / 10);
    }
    push_char(s, digit_char(n % 10));
    proof {
        if n >= 10 {
            assert(old(s)@ + decimal((n / 10) as nat) + seq![digit((n % 10) as nat)] =~= old(s)@
                + decimal(n as nat));
        } else {
            assert(old(s)@.push(digit(n as nat)) =~= old(s)@ + decimal(n as nat));
        }
    }
}

/// The decimal representation of `n` (`n.to_string()`).
pub fn decimal_string(n: u64) -> (s: String)
    ensures
        s@ == decimal(n as nat),
{
    let mut s = String::new();
    push_decimal(&mut s, n);
    assert(Seq::<char>::empty() + decimal(n as nat) =~= decimal(n as nat));
    s
}

/// Appends `n` with at least two digits (`{:02}`).
pub fn push_decimal2(s: &mut String, n: u64)
    ensures
        final(s)@ == old(s)@ + decimal2(n as nat),
{
    if n < 10 {
        push_char(s, '0');
        push_decimal(s, n);
        assert(old(s)@.push('0') + decimal(n as nat) =~= old(s)@ + decimal2(n as nat));
    } else {
        push_decimal(s, n);
    }
}

/// Code-point order of texts, the order of `String::cmp` (UTF-8 bytes compare
/// as their code points do): `a` comes no later than `b`.
pub open spec fn name_le(a: Seq<char>, b: Seq<char>) -> bool
    decreases a.len(),
{
    if a.len() == 0 {
        true
    } else if b.len() == 0 {
        false
    } else if a[0] != b[0] {
        (a[0] as int) < (b[0] as int)
    } else {
        name_le(a.drop_first(), b.drop_first())
    }
}

/// Any two texts are ordered one way or the other.
pub proof fn lemma_name_le_total(a: Seq<char>, b: Seq<char>)
    ensures
        name_le(a, b) || name_le(b, a),
    decreases a.len(),
{
    if a.len() > 0 && b.len() > 0 && a[0] == b[0] {
        lemma_name_le_total(a.drop_first(), b.drop_first());
    }
    if a.len() > 0 && b.len() > 0 && a[0] != b[0] {
        assert((a[0] as int) != (b[0] as int));
    }
}

/// The order of texts is transitive.
pub proof fn lemma_name_le_trans(a: Seq<char>, b: Seq<char>, c: Seq<char>)
    requires
        name_le(a, b),
        name_le(b, c),
    ensures
        name_le(a, c),
    decreases a.len(),
{
    if a.len() > 0 && b.len() > 0 && c.len() > 0 && a[0] == b[0] && b[0] == c[0] {
        lemma_name_le_trans(a.drop_first(), b.drop_first(), c.drop_first());
    }
}

/// Whether `a` comes no later than `b` in code-point order.
pub fn names_le(a: &[char], b: &[char]) -> (r: bool)
    ensures
        r == name_le(a@, b@),
{
    let mut i: usize = 0;
    assert(a@.skip(0) =~= a@);
    assert(b@.skip(0) =~= b@);
    loop
        invariant
            i <= a@.len(),
            i <= b@.len(),
            name_le(a@, b@) == name_le(a@.skip(i as int), b@.skip(i as int)),
        decreases a@.len() - i,
    {
        if i == a.len() {
            return true;
        }
        if i == b.len() {
            return false;
        }
        if a[i] != b[i] {
            return a[i] < b[i];
        }
        assert(a@.skip(i as int).drop_first() =~= a@.skip(i + 1));
        assert(b@.skip(i as int).drop_first() =~= b@.skip(i + 1));
        i = i + 1;
    }
}

/// Appends every character of `t` (`String::push_str`).
pub fn push_all(s: &mut String, t: &str)
    ensures
        final(s)@ == old(s)@ + t@,
{
    let v = chars_of(t);
    let mut i: usize = 0;
    while i < v.len()
        invariant
            i <= v.len(),
            v@ == t@,
            s@ == old(s)@ + v@.take(i as int),
        decreases v.len() - i,
    {
        push_char(s, v[i]);
        i = i + 1;
        assert(s@ =~= old(s)@ + v@.take(i as int));
    }
    assert(v@.take(v.len() as int) =~= v@);
}

} // verus!
