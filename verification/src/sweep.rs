//! The sweep line under the overlap check: the boundary events of a set of
//! closed integer ranges, their order, and the first adjacent pair of
//! events that shows two ranges to overlap.

use vstd::prelude::*;

verus! {

/// A boundary of a range: where range number `range` starts, or where it
/// ends.
#[derive(Clone, Copy, Debug, PartialEq, Eq, Structural)]
pub struct Event {
    pub value: i128,
    pub range: usize,
    pub is_end: bool,
}

/// The events of the ranges `bounds`, in the order in which the ranges are
/// given: for each range its start, then its end.
pub open spec fn events_of(bounds: Seq<(i128, i128)>) -> Seq<Event> {
    Seq::new(
        2 * bounds.len(),
        |k: int|
            if k % 2 == 0 {
                Event { value: bounds[k / 2].0, range: (k / 2) as usize, is_end: false }
            } else {
                Event { value: bounds[k / 2].1, range: (k / 2) as usize, is_end: true }
            },
    )
}

/// `s` with `e` put in behind the last event whose value is not greater.
pub open spec fn insert_event(s: Seq<Event>, e: Event) -> Seq<Event>
    decreases s.len(),
{
    if s.len() == 0 {
        seq![e]
    } else if s.last().value <= e.value {
        s.push(e)
    } else {
        insert_event(s.drop_last(), e).push(s.last())
    }
}

/// The events of `s` ordered by value, events of equal value in the order
/// they have in `s`.
pub open spec fn sort_events(s: Seq<Event>) -> Seq<Event>
    decreases s.len(),
{
    if s.len() == 0 {
        Seq::empty()
    } else {
        insert_event(sort_events(s.drop_last()), s.last())
    }
}

/// Whether the events at `k` and `k + 1` of `sorted` show an overlap. An
/// end followed by a start at a greater value shows none, and neither does
/// a start followed by the end of a range with the same bounds; every
/// other pair does.
pub open spec fn overlap_at(sorted: Seq<Event>, bounds: Seq<(i128, i128)>, k: int) -> bool {
    let a = sorted[k];
    let b = sorted[k + 1];
    if !a.is_end && b.is_end {
        bounds[a.range as int] != bounds[b.range as int]
    } else if a.is_end && !b.is_end {
        a.value == b.value
    } else {
        true
    }
}

/// The first position from `from` on at which `sorted` shows an overlap.
pub open spec fn first_overlap(sorted: Seq<Event>, bounds: Seq<(i128, i128)>, from: int) -> Option<int>
    decreases sorted.len() - from,
{
    if from < 0 || from + 1 >= sorted.len() {
        None
    } else if overlap_at(sorted, bounds, from) {
        Some(from)
    } else {
        first_overlap(sorted, bounds, from + 1)
    }
}

/// The two ranges, by number, that the sweep reports for `bounds`: those
/// of the first adjacent pair of sorted events that shows an overlap.
pub open spec fn overlapping_pair(bounds: Seq<(i128, i128)>) -> Option<(int, int)> {
    let sorted = sort_events(events_of(bounds));
    match first_overlap(sorted, bounds, 0) {
        Some(k) => Some((sorted[k].range as int, sorted[k + 1].range as int)),
        None => None,
    }
}

/// Whether `s` is in ascending order of value.
pub open spec fn ascending(s: Seq<Event>) -> bool {
    forall|i: int, j: int| 0 <= i < j < s.len() ==> s[i].value <= s[j].value
}

proof fn lemma_insert_at(s: Seq<Event>, e: Event, pos: int)
    requires
        0 <= pos <= s.len(),
        forall|k: int| pos <= k < s.len() ==> s[k].value > e.value,
        pos > 0 ==> s[pos - 1].value <= e.value,
    ensures
        insert_event(s, e) == s.insert(pos, e),
    decreases s.len() - pos,
{
    if pos == s.len() {
        assert(s.insert(pos, e) =~= s.push(e));
    } else {
        lemma_insert_at(s.drop_last(), e, pos);
        assert(s.drop_last().insert(pos, e).push(s.last()) =~= s.insert(pos, e));
    }
}

proof fn lemma_insert_keeps(s: Seq<Event>, e: Event, n: int)
    requires
        forall|k: int| 0 <= k < s.len() ==> (#[trigger] s[k]).range < n,
        e.range < n,
    ensures
        insert_event(s, e).len() == s.len() + 1,
        forall|k: int| 0 <= k < s.len() + 1 ==> (#[trigger] insert_event(s, e)[k]).range < n,
    decreases s.len(),
{
    if s.len() > 0 && s.last().value > e.value {
        lemma_insert_keeps(s.drop_last(), e, n);
    }
}

/// Sorting neither adds nor loses events: as many come out as went in,
/// and each belongs to one of the first `n` ranges if all did before.
pub proof fn lemma_sort_keeps(s: Seq<Event>, n: int)
    requires
        forall|k: int| 0 <= k < s.len() ==> (#[trigger] s[k]).range < n,
    ensures
        sort_events(s).len() == s.len(),
        forall|k: int| 0 <= k < s.len() ==> (#[trigger] sort_events(s)[k]).range < n,
    decreases s.len(),
{
    if s.len() > 0 {
        lemma_sort_keeps(s.drop_last(), n);
        lemma_insert_keeps(sort_events(s.drop_last()), s.last(), n);
    }
}

/// Puts `e` into `v` behind the last event whose value is not greater.
fn insert_into(v: &mut Vec<Event>, e: Event)
    ensures
        final(v)@ == insert_event(old(v)@, e),
{
    let mut pos = v.len();
    while pos > 0 && v[pos - 1].value > e.value
        invariant
            pos <= v.len(),
            *v == *old(v),
            forall|k: int| pos <= k < v.len() ==> v[k].value > e.value,
        decreases pos,
    {
        pos -= 1;
    }
    proof {
        lemma_insert_at(v@, e, pos as int);
    }
    v.insert(pos, e);
}

/// The boundary events of the given ranges, sorted by value; events of
/// equal value keep the order in which their ranges are given, a range's
/// start before its end.
pub(crate) fn sorted_events(bounds: &Vec<(i128, i128)>) -> (sorted: Vec<Event>)
    ensures
        sorted@ == sort_events(events_of(bounds@)),
{
    let mut sorted: Vec<Event> = Vec::new();
    let n = bounds.len();
    let ghost all = events_of(bounds@);
    let mut i: usize = 0;
    while i < n
        invariant
            i <= n == bounds.len(),
            all == events_of(bounds@),
            sorted@ == sort_events(all.take(2 * i)),
        decreases n - i,
    {
        let (lo, hi) = bounds[i];
        let start = Event { value: lo, range: i, is_end: false };
        let end = Event { value: hi, range: i, is_end: true };
        proof {
            assert(all.take(2 * i + 1).drop_last() =~= all.take(2 * i));
            assert(all.take(2 * i + 1).last() == start);
            assert(all.take(2 * i + 2).drop_last() =~= all.take(2 * i + 1));
            assert(all.take(2 * i + 2).last() == end);
            assert(sort_events(all.take(2 * i + 1)) == insert_event(sort_events(all.take(2 * i)), start));
            assert(sort_events(all.take(2 * i + 2)) == insert_event(
                sort_events(all.take(2 * i + 1)),
                end,
            ));
        }
        insert_into(&mut sorted, start);
        insert_into(&mut sorted, end);
        i += 1;
    }
    assert(all.take(2 * n) =~= all);
    sorted
}

/// The position of the first adjacent pair of `sorted` that shows an
/// overlap.
pub(crate) fn find_overlap(sorted: &Vec<Event>, bounds: &Vec<(i128, i128)>) -> (r: Option<usize>)
    requires
        forall|k: int| 0 <= k < sorted.len() ==> (#[trigger] sorted[k]).range < bounds.len(),
    ensures
        match r {
            Some(k) => first_overlap(sorted@, bounds@, 0) == Some(k as int) && k + 1 < sorted.len(),
            None => first_overlap(sorted@, bounds@, 0).is_none(),
        },
{
    let n = sorted.len();
    if n < 2 {
        return None;
    }
    let mut k: usize = 0;
    while k < n - 1
        invariant
            2 <= n == sorted.len(),
            forall|k: int| 0 <= k < sorted.len() ==> (#[trigger] sorted[k]).range < bounds.len(),
            first_overlap(sorted@, bounds@, k as int) == first_overlap(sorted@, bounds@, 0),
        decreases n - k,
    {
        let a = sorted[k];
        let b = sorted[k + 1];
        let shows = if !a.is_end && b.is_end {
            let x = bounds[a.range];
            let y = bounds[b.range];
            x.0 != y.0 || x.1 != y.1
        } else if a.is_end && !b.is_end {
            a.value == b.value
        } else {
            true
        };
        if shows {
            return Some(k);
        }
        k += 1;
    }
    None
}

} // verus!
