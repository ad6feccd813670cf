//! Contests grouped by where they stand in their schedule.
use vstd::prelude::*;
use crate::clock::{in_chrono_range_ns, now_nanos};
use crate::types::{Contest, ContestStatus};

verus! {

broadcast use vstd::seq_lib::group_seq_properties, vstd::multiset::group_multiset_axioms;

/// The contests of `cs` whose status at `now` is `st`, in their order.
pub open spec fn with_status(cs: Seq<Contest>, now: i128, st: ContestStatus) -> Seq<Contest>
    decreases cs.len(),
{
    if cs.len() == 0 {
        Seq::empty()
    } else {
        let prev = with_status(cs.drop_last(), now, st);
        if cs.last().status_spec(now) == st {
            prev.push(cs.last())
        } else {
            prev
        }
    }
}

/// The contests of the contest list, by status.
pub struct ContestLists {
    pub ongoing: Vec<Contest>,
    pub upcoming: Vec<Contest>,
    pub past: Vec<Contest>,
}

/// Where `c` goes among `s`: before the first contest that starts no
/// earlier than it.
pub open spec fn insertion_point(s: Seq<Contest>, c: Contest) -> int
    decreases s.len(),
{
    if s.len() == 0 || s[0].start_time >= c.start_time {
        0
    } else {
        1 + insertion_point(s.drop_first(), c)
    }
}

/// `cs` stably ordered by start time: contests that start together keep
/// their order.
pub open spec fn by_start(cs: Seq<Contest>) -> Seq<Contest>
    decreases cs.len(),
{
    if cs.len() == 0 {
        Seq::empty()
    } else {
        let rest = by_start(cs.drop_first());
        rest.insert(insertion_point(rest, cs[0]), cs[0])
    }
}

proof fn lemma_insertion_point(s: Seq<Contest>, c: Contest, p: int)
    requires
        0 <= p <= s.len(),
        forall|i: int| 0 <= i < p ==> #[trigger] s[i].start_time < c.start_time,
        p < s.len() ==> s[p].start_time >= c.start_time,
    ensures
        insertion_point(s, c) == p,
    decreases p,
{
    if p > 0 {
        assert forall|i: int| 0 <= i < p - 1 implies #[trigger] s.drop_first()[i].start_time < c.start_time by {
            assert(s.drop_first()[i] == s[i + 1]);
        }
        assert(s[0].start_time < c.start_time);
        lemma_insertion_point(s.drop_first(), c, p - 1);
    }
}

/// `cs` ordered by start time, contests that start together in their order
/// (`sort_by_key` on the start time).
fn sort_by_start(cs: Vec<Contest>) -> (out: Vec<Contest>)
    ensures
        out@ == by_start(cs@),
        out@.to_multiset() == cs@.to_multiset(),
        forall|a: int, b: int| 0 <= a < b < out@.len() ==> out@[a].start_time <= out@[b].start_time,
{
    let ghost whole = cs@;
    let mut rest = cs;
    let mut out: Vec<Contest> = Vec::new();
    assert(whole.skip(whole.len() as int) =~= Seq::<Contest>::empty());
    assert(whole.take(whole.len() as int) =~= whole);
    while rest.len() > 0
        invariant
            rest@.len() <= whole.len(),
            rest@ == whole.take(rest@.len() as int),
            out@ == by_start(whole.skip(rest@.len() as int)),
            out@.to_multiset().add(rest@.to_multiset()) == whole.to_multiset(),
            forall|a: int, b: int| 0 <= a < b < out@.len() ==> out@[a].start_time <= out@[b].start_time,
        decreases rest@.len(),
    {
        let ghost before_rest = rest@;
        let c = rest.pop().unwrap();
        assert(rest@.push(c) =~= before_rest);
        assert(rest@ =~= whole.take(rest@.len() as int));
        let mut p: usize = 0;
        while p < out.len() && out[p].start_time < c.start_time
            invariant
                p <= out@.len(),
                forall|i: int| 0 <= i < p ==> #[trigger] out@[i].start_time < c.start_time,
            decreases out@.len() - p,
        {
            p = p + 1;
        }
        let ghost before_out = out@;
        proof {
            lemma_insertion_point(before_out, c, p as int);
            let k = rest@.len() as int;
            assert(whole[k] == c);
            assert(whole.skip(k).drop_first() =~= whole.skip(k + 1));
            assert(whole.skip(k)[0] == c);
        }
        out.insert(p, c);
        proof {
            vstd::seq_lib::to_multiset_insert(before_out, p as int, c);
            assert forall|a: int, b: int| 0 <= a < b < out@.len() implies out@[a].start_time <= out@[b].start_time by {
                let a0 = if a < p { a } else { a - 1 };
                let b0 = if b < p { b } else { b - 1 };
                if a != p {
                    assert(out@[a] == before_out[a0]);
                }
                if b != p {
                    assert(out@[b] == before_out[b0]);
                }
                if a == p && b > p {
                    assert(before_out[p as int].start_time >= c.start_time);
                }
            }
        }
    }
    assert(rest@ =~= Seq::<Contest>::empty());
    assert(whole.skip(0) =~= whole);
    out
}

/// Groups the contests by their status at `now`: ongoing and past contests
/// keep their order, upcoming ones are ordered by start time.
pub fn group_contests(all: Vec<Contest>, now: i128) -> (lists: ContestLists)
    ensures
        lists.ongoing@ == with_status(all@, now, ContestStatus::Ongoing),
        lists.past@ == with_status(all@, now, ContestStatus::Past),
        lists.upcoming@ == by_start(with_status(all@, now, ContestStatus::Upcoming)),
        lists.upcoming@.to_multiset() == with_status(all@, now, ContestStatus::Upcoming).to_multiset(),
        (lists.ongoing@ + lists.upcoming@ + lists.past@).to_multiset() == all@.to_multiset(),
        forall|a: int, b: int|
            0 <= a < b < lists.upcoming@.len() ==> lists.upcoming@[a].start_time <= lists.upcoming@[b].start_time,
{
    let mut ongoing: Vec<Contest> = Vec::new();
    let mut upcoming: Vec<Contest> = Vec::new();
    let mut past: Vec<Contest> = Vec::new();
    let ghost whole = all@;
    for c in it: all
        invariant
            it.seq() == whole,
            ongoing@ == with_status(whole.take(it.index() as int), now, ContestStatus::Ongoing),
            upcoming@ == with_status(whole.take(it.index() as int), now, ContestStatus::Upcoming),
            past@ == with_status(whole.take(it.index() as int), now, ContestStatus::Past),
    {
        assert(whole.take(it.index() + 1).drop_last() =~= whole.take(it.index() as int));
        match c.status_at(now) {
            ContestStatus::Ongoing => ongoing.push(c),
            ContestStatus::Upcoming => upcoming.push(c),
            ContestStatus::Past => past.push(c),
        }
    }
    assert(whole.take(whole.len() as int) =~= whole);
    let upcoming = sort_by_start(upcoming);
    proof {
        lemma_status_lists_permute(whole, now);
        vstd::seq_lib::lemma_multiset_commutative(ongoing@ + upcoming@, past@);
        vstd::seq_lib::lemma_multiset_commutative(ongoing@, upcoming@);
        let u0 = with_status(whole, now, ContestStatus::Upcoming);
        vstd::seq_lib::lemma_multiset_commutative(ongoing@ + u0, past@);
        vstd::seq_lib::lemma_multiset_commutative(ongoing@, u0);
    }
    ContestLists { ongoing, upcoming, past }
}

/// Groups the contests by their status at the current instant.
pub fn list_grouped(all: Vec<Contest>) -> (lists: ContestLists)
    ensures
        exists|t: i128| {
            &&& in_chrono_range_ns(t as int)
            &&& lists.ongoing@ == with_status(all@, t, ContestStatus::Ongoing)
            &&& lists.past@ == with_status(all@, t, ContestStatus::Past)
            &&& lists.upcoming@ == by_start(with_status(all@, t, ContestStatus::Upcoming))
            &&& lists.upcoming@.to_multiset() == with_status(all@, t, ContestStatus::Upcoming).to_multiset()
        },
        (lists.ongoing@ + lists.upcoming@ + lists.past@).to_multiset() == all@.to_multiset(),
        forall|a: int, b: int|
            0 <= a < b < lists.upcoming@.len() ==> lists.upcoming@[a].start_time <= lists.upcoming@[b].start_time,
{
    let now = now_nanos();
    group_contests(all, now)
}

/// Every contest is in exactly one of the three lists: the lists of the
/// three statuses together are as long as the contest list, and each holds
/// only contests of its status.
pub proof fn lemma_contests_partitioned(cs: Seq<Contest>, now: i128)
    ensures
        with_status(cs, now, ContestStatus::Ongoing).len() + with_status(cs, now, ContestStatus::Upcoming).len()
            + with_status(cs, now, ContestStatus::Past).len() == cs.len(),
        forall|st: ContestStatus, i: int|
            0 <= i < with_status(cs, now, st).len() ==> (#[trigger] with_status(cs, now, st)[i]).status_spec(now) == st,
    decreases cs.len(),
{
    if cs.len() > 0 {
        lemma_contests_partitioned(cs.drop_last(), now);
        assert forall|st: ContestStatus, i: int|
            0 <= i < with_status(cs, now, st).len() implies (#[trigger] with_status(cs, now, st)[i]).status_spec(now) == st by {
            let prev = with_status(cs.drop_last(), now, st);
            if i < prev.len() {
                assert(with_status(cs, now, st)[i] == prev[i]);
            }
        }
    }
}

/// Together the three status lists hold every contest, each once: their
/// joined contents are the contest list, as a multiset.
pub proof fn lemma_status_lists_permute(cs: Seq<Contest>, now: i128)
    ensures
        (with_status(cs, now, ContestStatus::Ongoing) + with_status(cs, now, ContestStatus::Upcoming)
            + with_status(cs, now, ContestStatus::Past)).to_multiset() == cs.to_multiset(),
    decreases cs.len(),
{
    let o = with_status(cs, now, ContestStatus::Ongoing);
    let u = with_status(cs, now, ContestStatus::Upcoming);
    let p = with_status(cs, now, ContestStatus::Past);
    vstd::seq_lib::lemma_multiset_commutative(o + u, p);
    vstd::seq_lib::lemma_multiset_commutative(o, u);
    if cs.len() == 0 {
        assert(cs.to_multiset() =~= vstd::multiset::Multiset::empty());
        assert(o.to_multiset().add(u.to_multiset()).add(p.to_multiset()) =~= vstd::multiset::Multiset::empty());
    } else {
        let prev = cs.drop_last();
        let c = cs.last();
        lemma_status_lists_permute(prev, now);
        let o0 = with_status(prev, now, ContestStatus::Ongoing);
        let u0 = with_status(prev, now, ContestStatus::Upcoming);
        let p0 = with_status(prev, now, ContestStatus::Past);
        vstd::seq_lib::lemma_multiset_commutative(o0 + u0, p0);
        vstd::seq_lib::lemma_multiset_commutative(o0, u0);
        assert(prev.push(c) =~= cs);
        vstd::seq_lib::to_multiset_build(prev, c);
        vstd::seq_lib::to_multiset_build(o0, c);
        vstd::seq_lib::to_multiset_build(u0, c);
        vstd::seq_lib::to_multiset_build(p0, c);
        assert(o.to_multiset().add(u.to_multiset()).add(p.to_multiset()) =~= cs.to_multiset());
    }
}

} // verus!
