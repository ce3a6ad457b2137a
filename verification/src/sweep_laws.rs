//! What the sweep line guarantees: the sorted events are the given events
//! in ascending order, and the pair that the sweep reports consists of two
//! different ranges that overlap, and is reported whenever two ranges do.

use vstd::prelude::*;
use crate::sweep::{
    ascending, events_of, first_overlap, insert_event, overlap_at, overlapping_pair, sort_events, Event,
};

verus! {

/// Where `insert_event` puts `e` into `s`: behind the last event whose
/// value is not greater.
pub open spec fn insert_pos(s: Seq<Event>, e: Event) -> int
    decreases s.len(),
{
    if s.len() == 0 {
        0
    } else if s.last().value <= e.value {
        s.len() as int
    } else {
        insert_pos(s.drop_last(), e)
    }
}

proof fn lemma_insert_pos(s: Seq<Event>, e: Event)
    ensures
        0 <= insert_pos(s, e) <= s.len(),
        insert_event(s, e) == s.insert(insert_pos(s, e), e),
        forall|k: int| insert_pos(s, e) <= k < s.len() ==> (#[trigger] s[k]).value > e.value,
        insert_pos(s, e) > 0 ==> s[insert_pos(s, e) - 1].value <= e.value,
    decreases s.len(),
{
    if s.len() == 0 {
        assert(seq![e] =~= s.insert(0, e));
    } else if s.last().value <= e.value {
        assert(s.push(e) =~= s.insert(s.len() as int, e));
    } else {
        lemma_insert_pos(s.drop_last(), e);
        let p = insert_pos(s.drop_last(), e);
        assert(s.drop_last().insert(p, e).push(s.last()) =~= s.insert(p, e));
        assert forall|k: int| p <= k < s.len() implies (#[trigger] s[k]).value > e.value by {
            if k < s.len() - 1 {
                assert(s.drop_last()[k].value > e.value);
            }
        }
    }
}

proof fn lemma_insert_ascending(s: Seq<Event>, e: Event)
    requires
        ascending(s),
    ensures
        ascending(insert_event(s, e)),
        forall|k: int| 0 <= k < insert_pos(s, e) ==> (#[trigger] s[k]).value <= e.value,
{
    lemma_insert_pos(s, e);
    let p = insert_pos(s, e);
    assert forall|k: int| 0 <= k < p implies (#[trigger] s[k]).value <= e.value by {
        assert(s[k].value <= s[p - 1].value);
    }
    let r = s.insert(p, e);
    assert forall|i: int, j: int| 0 <= i < j < r.len() implies r[i].value <= r[j].value by {
        if j < p {
            assert(r[i] == s[i] && r[j] == s[j]);
        } else if j == p {
            assert(r[i] == s[i]);
        } else if i < p {
            assert(r[i] == s[i] && r[j] == s[j - 1]);
        } else if i == p {
            assert(r[j] == s[j - 1]);
        } else {
            assert(r[i] == s[i - 1] && r[j] == s[j - 1]);
        }
    }
}

/// The first `m` events of `all`, sorted.
pub open spec fn sorted_upto(all: Seq<Event>, m: int) -> Seq<Event> {
    sort_events(all.take(m))
}

/// The position that the event `all[t]` has among the first `m` events
/// once they are sorted.
pub open spec fn place(all: Seq<Event>, m: int, t: int) -> int
    decreases m,
{
    if m <= 0 || t < 0 || t >= m {
        0
    } else {
        let ip = insert_pos(sorted_upto(all, m - 1), all[m - 1]);
        if t == m - 1 {
            ip
        } else {
            let p = place(all, m - 1, t);
            if p < ip {
                p
            } else {
                p + 1
            }
        }
    }
}

/// Which of the first `m` events of `all` stands at position `x` once
/// they are sorted.
pub open spec fn origin(all: Seq<Event>, m: int, x: int) -> int
    decreases m,
{
    if m <= 0 || x < 0 || x >= m {
        0
    } else {
        let ip = insert_pos(sorted_upto(all, m - 1), all[m - 1]);
        if x == ip {
            m - 1
        } else if x < ip {
            origin(all, m - 1, x)
        } else {
            origin(all, m - 1, x - 1)
        }
    }
}

proof fn lemma_sorted_step(all: Seq<Event>, m: int)
    requires
        0 < m <= all.len(),
    ensures
        sorted_upto(all, m) == insert_event(sorted_upto(all, m - 1), all[m - 1]),
{
    assert(all.take(m).drop_last() =~= all.take(m - 1));
    assert(all.take(m).last() == all[m - 1]);
}

/// Sorting puts the events in ascending order and moves each to one
/// place: `place` and `origin` are inverse to each other, and tell where
/// an event went and where it came from.
pub proof fn lemma_sort_is_permutation(all: Seq<Event>, m: int)
    requires
        0 <= m <= all.len(),
    ensures
        sorted_upto(all, m).len() == m,
        ascending(sorted_upto(all, m)),
        forall|t: int|
            0 <= t < m ==> 0 <= #[trigger] place(all, m, t) < m && sorted_upto(all, m)[place(all, m, t)]
                == all[t] && origin(all, m, place(all, m, t)) == t,
        forall|x: int|
            0 <= x < m ==> 0 <= #[trigger] origin(all, m, x) < m && sorted_upto(all, m)[x] == all[origin(
                all,
                m,
                x,
            )] && place(all, m, origin(all, m, x)) == x,
    decreases m,
{
    if m == 0 {
        assert(all.take(0) =~= Seq::empty());
    } else {
        lemma_sort_is_permutation(all, m - 1);
        lemma_sorted_step(all, m);
        let prev = sorted_upto(all, m - 1);
        let e = all[m - 1];
        lemma_insert_pos(prev, e);
        lemma_insert_ascending(prev, e);
        let ip = insert_pos(prev, e);
        let now = sorted_upto(all, m);
        assert(now == prev.insert(ip, e));
        assert forall|t: int| 0 <= t < m implies 0 <= #[trigger] place(all, m, t) < m && now[place(all, m, t)]
            == all[t] && origin(all, m, place(all, m, t)) == t by {
            if t < m - 1 {
                let p = place(all, m - 1, t);
                assert(prev[p] == all[t]);
                assert(origin(all, m - 1, p) == t);
            }
        }
        assert forall|x: int| 0 <= x < m implies 0 <= #[trigger] origin(all, m, x) < m && now[x] == all[origin(
            all,
            m,
            x,
        )] && place(all, m, origin(all, m, x)) == x by {
            if x < ip {
                let t = origin(all, m - 1, x);
                assert(place(all, m - 1, t) == x);
            } else if x > ip {
                let t = origin(all, m - 1, x - 1);
                assert(place(all, m - 1, t) == x - 1);
            }
        }
    }
}

/// Every range starts before or where it ends.
pub open spec fn well_formed(bounds: Seq<(i128, i128)>) -> bool {
    forall|r: int| 0 <= r < bounds.len() ==> (#[trigger] bounds[r]).0 <= bounds[r].1
}

/// Whether two closed ranges have a value in common.
pub open spec fn intersect(a: (i128, i128), b: (i128, i128)) -> bool {
    a.0 <= b.1 && b.0 <= a.1
}

proof fn lemma_start_before_end(bounds: Seq<(i128, i128)>, m: int, r: int)
    requires
        well_formed(bounds),
        bounds.len() <= usize::MAX,
        0 <= r,
        2 * r + 2 <= m <= 2 * bounds.len(),
    ensures
        place(events_of(bounds), m, 2 * r) < place(events_of(bounds), m, 2 * r + 1),
    decreases m,
{
    let all = events_of(bounds);
    let prev = sorted_upto(all, m - 1);
    let e = all[m - 1];
    lemma_sort_is_permutation(all, m - 1);
    lemma_insert_pos(prev, e);
    lemma_insert_ascending(prev, e);
    let ip = insert_pos(prev, e);
    if m == 2 * r + 2 {
        let p = place(all, m - 1, 2 * r);
        assert(prev[p] == all[2 * r]);
        assert(all[2 * r].value == bounds[r].0);
        assert(e.value == bounds[r].1);
        assert(bounds[r].0 <= bounds[r].1);
        if p >= ip {
            assert(prev[p].value > e.value);
        }
    } else {
        lemma_start_before_end(bounds, m - 1, r);
    }
}

/// The two events that stand side by side at `k` in sorted order belong
/// to different ranges, and if they show an overlap, the two ranges have
/// a value in common.
proof fn lemma_pair_sound(bounds: Seq<(i128, i128)>, k: int)
    requires
        well_formed(bounds),
        bounds.len() <= usize::MAX,
        0 <= k,
        k + 1 < 2 * bounds.len(),
        overlap_at(sort_events(events_of(bounds)), bounds, k),
    ensures
        ({
            let sorted = sort_events(events_of(bounds));
            let i = sorted[k].range as int;
            let j = sorted[k + 1].range as int;
            0 <= i < bounds.len() && 0 <= j < bounds.len() && i != j && intersect(bounds[i], bounds[j])
        }),
{
    let all = events_of(bounds);
    let n2 = 2 * bounds.len() as int;
    assert(all.take(n2) =~= all);
    lemma_sort_is_permutation(all, n2);
    let sorted = sort_events(all);
    let ta = origin(all, n2, k);
    let tb = origin(all, n2, k + 1);
    assert(sorted[k] == all[ta]);
    assert(sorted[k + 1] == all[tb]);
    assert(place(all, n2, ta) == k);
    assert(place(all, n2, tb) == k + 1);
    let i = ta / 2;
    let j = tb / 2;
    assert(sorted[k].value <= sorted[k + 1].value);
    lemma_start_before_end(bounds, n2, i);
    lemma_start_before_end(bounds, n2, j);
    let si = place(all, n2, 2 * i);
    let ei = place(all, n2, 2 * i + 1);
    let sj = place(all, n2, 2 * j);
    let ej = place(all, n2, 2 * j + 1);
    assert(sorted[si] == all[2 * i] && sorted[ei] == all[2 * i + 1]);
    assert(sorted[sj] == all[2 * j] && sorted[ej] == all[2 * j + 1]);
    assert(origin(all, n2, si) == 2 * i && origin(all, n2, ei) == 2 * i + 1);
    assert(origin(all, n2, sj) == 2 * j && origin(all, n2, ej) == 2 * j + 1);
    assert(bounds[i].0 <= bounds[i].1);
    assert(bounds[j].0 <= bounds[j].1);
    if ta % 2 == 0 && tb % 2 == 0 {
        // Two starts: the first range has not ended yet.
        assert(ei > k + 1);
        assert(sorted[k + 1].value <= sorted[ei].value);
    } else if ta % 2 == 0 && tb % 2 == 1 {
        // A start and then the end of a range with other bounds: that
        // range started before.
        assert(sj < k);
        assert(sorted[sj].value <= sorted[k].value);
    } else if ta % 2 == 1 && tb % 2 == 0 {
        // An end and a start at the same value.
    } else {
        // Two ends: the second range started before the first ended.
        assert(sj < k);
        assert(sorted[sj].value <= sorted[k].value);
    }
}

proof fn lemma_first_overlap(sorted: Seq<Event>, bounds: Seq<(i128, i128)>, from: int)
    requires
        0 <= from,
    ensures
        match first_overlap(sorted, bounds, from) {
            Some(k) => from <= k && k + 1 < sorted.len() && overlap_at(sorted, bounds, k),
            None => forall|k: int| from <= k && k + 1 < sorted.len() ==> !overlap_at(sorted, bounds, k),
        },
    decreases sorted.len() - from,
{
    if from + 1 < sorted.len() && !overlap_at(sorted, bounds, from) {
        lemma_first_overlap(sorted, bounds, from + 1);
    }
}

/// The sweep reports two different ranges that have a value in common.
pub proof fn lemma_overlapping_sound(bounds: Seq<(i128, i128)>)
    requires
        well_formed(bounds),
        bounds.len() <= usize::MAX,
    ensures
        match overlapping_pair(bounds) {
            Some((i, j)) => 0 <= i < bounds.len() && 0 <= j < bounds.len() && i != j && intersect(
                bounds[i],
                bounds[j],
            ),
            None => true,
        },
{
    let all = events_of(bounds);
    let sorted = sort_events(all);
    assert(all.take(all.len() as int) =~= all);
    lemma_sort_is_permutation(all, all.len() as int);
    lemma_first_overlap(sorted, bounds, 0);
    match first_overlap(sorted, bounds, 0) {
        Some(k) => {
            lemma_pair_sound(bounds, k);
        },
        None => {},
    }
}

proof fn lemma_alternating(bounds: Seq<(i128, i128)>, x: int)
    requires
        well_formed(bounds),
        bounds.len() <= usize::MAX,
        overlapping_pair(bounds).is_none(),
        0 <= x < 2 * bounds.len(),
    ensures
        sort_events(events_of(bounds))[x].is_end == (x % 2 == 1),
    decreases x,
{
    let all = events_of(bounds);
    let n2 = 2 * bounds.len() as int;
    let sorted = sort_events(all);
    assert(all.take(n2) =~= all);
    lemma_sort_is_permutation(all, n2);
    lemma_first_overlap(sorted, bounds, 0);
    if x == 0 {
        let t = origin(all, n2, 0);
        if t % 2 == 1 {
            lemma_start_before_end(bounds, n2, t / 2);
            assert(place(all, n2, t) == 0);
        }
    } else {
        lemma_alternating(bounds, x - 1);
        assert(!overlap_at(sorted, bounds, x - 1));
    }
}

/// Where the sweep reports nothing, no two different ranges have a value
/// in common: the sweep misses no overlap.
pub proof fn lemma_overlapping_complete(bounds: Seq<(i128, i128)>, i: int, j: int)
    requires
        well_formed(bounds),
        bounds.len() <= usize::MAX,
        0 <= i < bounds.len(),
        0 <= j < bounds.len(),
        i != j,
        intersect(bounds[i], bounds[j]),
    ensures
        overlapping_pair(bounds).is_some(),
{
    if overlapping_pair(bounds).is_none() {
        let all = events_of(bounds);
        let n2 = 2 * bounds.len() as int;
        let sorted = sort_events(all);
        assert(all.take(n2) =~= all);
        lemma_sort_is_permutation(all, n2);
        lemma_first_overlap(sorted, bounds, 0);
        lemma_start_before_end(bounds, n2, i);
        lemma_start_before_end(bounds, n2, j);
        let si = place(all, n2, 2 * i);
        let ei = place(all, n2, 2 * i + 1);
        let sj = place(all, n2, 2 * j);
        let ej = place(all, n2, 2 * j + 1);
        assert(sorted[si] == all[2 * i] && sorted[ei] == all[2 * i + 1]);
        assert(sorted[sj] == all[2 * j] && sorted[ej] == all[2 * j + 1]);
        assert(origin(all, n2, si) == 2 * i && origin(all, n2, ei) == 2 * i + 1);
        assert(origin(all, n2, sj) == 2 * j && origin(all, n2, ej) == 2 * j + 1);
        lemma_alternating(bounds, si);
        lemma_alternating(bounds, ei);
        lemma_alternating(bounds, sj);
        lemma_alternating(bounds, ej);
        // Starts stand at even places, ends at odd ones, and the end
        // behind a start is the end of the same range.
        if si < sj {
            lemma_own_end_follows(bounds, si);
            assert(ei == si + 1);
            assert(!overlap_at(sorted, bounds, ei));
            lemma_alternating(bounds, ei + 1);
            assert(sorted[ei].value < sorted[ei + 1].value);
            assert(sorted[ei + 1].value <= sorted[sj].value);
        } else {
            lemma_own_end_follows(bounds, sj);
            assert(ej == sj + 1);
            assert(!overlap_at(sorted, bounds, ej));
            lemma_alternating(bounds, ej + 1);
            assert(sorted[ej].value < sorted[ej + 1].value);
            assert(sorted[ej + 1].value <= sorted[si].value);
        }
    }
}

proof fn lemma_own_end_follows(bounds: Seq<(i128, i128)>, x: int)
    requires
        well_formed(bounds),
        bounds.len() <= usize::MAX,
        overlapping_pair(bounds).is_none(),
        0 <= x < 2 * bounds.len(),
        !sort_events(events_of(bounds))[x].is_end,
    ensures
        x + 1 < 2 * bounds.len(),
        origin(events_of(bounds), 2 * bounds.len() as int, x + 1) == origin(
            events_of(bounds),
            2 * bounds.len() as int,
            x,
        ) + 1,
{
    let all = events_of(bounds);
    let n2 = 2 * bounds.len() as int;
    let sorted = sort_events(all);
    assert(all.take(n2) =~= all);
    lemma_sort_is_permutation(all, n2);
    lemma_first_overlap(sorted, bounds, 0);
    let t = origin(all, n2, x);
    let r = t / 2;
    assert(sorted[x] == all[t]);
    lemma_start_before_end(bounds, n2, r);
    let e = place(all, n2, 2 * r + 1);
    assert(sorted[e] == all[2 * r + 1]);
    assert(origin(all, n2, e) == 2 * r + 1);
    assert(e > x);
    lemma_alternating(bounds, x);
    lemma_alternating(bounds, x + 1);
    assert(!overlap_at(sorted, bounds, x));
    let u = origin(all, n2, x + 1);
    assert(sorted[x + 1] == all[u]);
    let q = u / 2;
    if e != x + 1 {
        // The end at x + 1 belongs to a range with the same bounds; the
        // end of this range comes later, behind a start at the same value.
        assert(bounds[r] == bounds[q]);
        assert(e > x + 1);
        lemma_alternating(bounds, e);
        assert(e >= x + 3);
        lemma_alternating(bounds, x + 2);
        assert(!overlap_at(sorted, bounds, x + 1));
        assert(sorted[x + 1].value <= sorted[x + 2].value);
        assert(sorted[x + 2].value <= sorted[e].value);
    }
}

} // verus!
