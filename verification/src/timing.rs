//! Looking up and ordering the timed objects of a map.
//!
//! Times are integer keys ordered as the times they stand for: an earlier time has a
//! smaller key, equal times have equal keys.

use vstd::prelude::*;

verus! {

/// A time on the map's clock, as an integer key ordered as the times are.
pub type Time = i64;

/// Anything that starts at a point in time.
pub trait HasStartTime {
    /// The start time of the object, as the contracts see it.
    spec fn start_time_spec(&self) -> Time;

    /// The start time of the object.
    fn start_time(&self) -> (t: Time)
        ensures
            t == self.start_time_spec(),
    ;
}

impl HasStartTime for i64 {
    open spec fn start_time_spec(&self) -> Time {
        *self
    }

    fn start_time(&self) -> (t: Time) {
        *self
    }
}

/// Start time of the `i`-th item of `s`.
pub open spec fn key_at<T: HasStartTime>(s: Seq<T>, i: int) -> Time {
    s[i].start_time_spec()
}

/// The items of `s` come in order of their start times.
pub open spec fn sorted_by_start_time<T: HasStartTime>(s: Seq<T>) -> bool {
    forall|a: int, b: int| 0 <= a <= b < s.len() ==> #[trigger] key_at(s, a) <= #[trigger] key_at(s, b)
}

/// No item of `s` is active at `time`: the list is empty or its first item starts later.
pub open spec fn none_active<T: HasStartTime>(s: Seq<T>, time: Time) -> bool {
    s.len() == 0 || key_at(s, 0) > time
}

/// Item `i` of `s` is the one active at `time`: it has started by then, and the next
/// item, if any, has not.
pub open spec fn is_active_index<T: HasStartTime>(s: Seq<T>, time: Time, i: int) -> bool {
    &&& 0 <= i < s.len()
    &&& key_at(s, i) <= time
    &&& (i + 1 == s.len() || key_at(s, i + 1) > time)
}

/// In a sorted list, the active item is the last one that has started: every item up
/// to it has started by `time`, and every later item starts after `time`.
pub proof fn active_index_splits_list<T: HasStartTime>(s: Seq<T>, time: Time, i: int)
    requires
        sorted_by_start_time(s),
        is_active_index(s, time, i),
    ensures
        forall|j: int| 0 <= j <= i ==> key_at(s, j) <= time,
        forall|j: int| i < j < s.len() ==> key_at(s, j) > time,
        !none_active(s, time),
{
    assert forall|j: int| 0 <= j <= i implies key_at(s, j) <= time by {
        assert(key_at(s, j) <= key_at(s, i));
    }
    assert forall|j: int| i < j < s.len() implies key_at(s, j) > time by {
        assert(key_at(s, i + 1) <= key_at(s, j));
    }
    assert(key_at(s, 0) <= key_at(s, i));
}

/// In a sorted list at most one item is active at a given time.
pub proof fn active_index_is_unique<T: HasStartTime>(s: Seq<T>, time: Time, i: int, j: int)
    requires
        sorted_by_start_time(s),
        is_active_index(s, time, i),
        is_active_index(s, time, j),
    ensures
        i == j,
{
    active_index_splits_list(s, time, i);
    active_index_splits_list(s, time, j);
}

/// In a sorted list the active item never moves back as time goes forward.
pub proof fn active_index_is_monotonic<T: HasStartTime>(
    s: Seq<T>,
    t1: Time,
    t2: Time,
    i1: int,
    i2: int,
)
    requires
        sorted_by_start_time(s),
        t1 <= t2,
        is_active_index(s, t1, i1),
        is_active_index(s, t2, i2),
    ensures
        i1 <= i2,
{
    active_index_splits_list(s, t1, i1);
    active_index_splits_list(s, t2, i2);
}

/// Where the halving search for `time` within positions `lo..hi` of `s` ends: the
/// first position of the range whose item it finds starting after `time`, each step
/// looking at the middle item and keeping the half that can still hold the boundary.
pub open spec fn search_boundary<T: HasStartTime>(s: Seq<T>, time: Time, lo: int, hi: int) -> int
    decreases hi - lo,
{
    if lo >= hi {
        lo
    } else {
        let mid = lo + (hi - lo) / 2;
        if key_at(s, mid) <= time {
            search_boundary(s, time, mid + 1, hi)
        } else {
            search_boundary(s, time, lo, mid)
        }
    }
}

/// The index that the lookup of `time` in `s` gives: the item before the search
/// boundary, or none when the boundary is at the start. On a sorted list this is the
/// last item that has started by `time`.
pub open spec fn active_index_spec<T: HasStartTime>(s: Seq<T>, time: Time) -> Option<int> {
    let b = search_boundary(s, time, 0, s.len() as int);
    if b == 0 {
        None
    } else {
        Some(b - 1)
    }
}

/// Returns the index of the item active at `time` (the last one whose start time is
/// at or before `time`), or `None` when no item has started yet.
pub fn index_at_time<T: HasStartTime>(list: &[T], time: Time) -> (r: Option<usize>)
    ensures
        match r {
            None => active_index_spec(list@, time) is None,
            Some(i) => active_index_spec(list@, time) == Some(i as int),
        },
        r is None ==> none_active(list@, time),
        r matches Some(i) ==> is_active_index(list@, time, i as int),
        sorted_by_start_time(list@) ==> (r is None <==> none_active(list@, time)),
{
    let mut lo: usize = 0;
    let mut hi: usize = list.len();
    while lo < hi
        invariant
            lo <= hi <= list@.len(),
            lo > 0 ==> key_at(list@, lo - 1) <= time,
            hi < list@.len() ==> key_at(list@, hi as int) > time,
            search_boundary(list@, time, lo as int, hi as int)
                == search_boundary(list@, time, 0, list@.len() as int),
        decreases hi - lo,
    {
        let mid = lo + (hi - lo) / 2;
        if list[mid].start_time() <= time {
            lo = mid + 1;
        } else {
            hi = mid;
        }
    }
    if lo == 0 {
        None
    } else {
        proof {
            if sorted_by_start_time(list@) {
                active_index_splits_list(list@, time, lo - 1);
            }
        }
        Some(lo - 1)
    }
}

/// Returns the item active at `time` (the last one whose start time is at or before
/// `time`), or `None` when no item has started yet: the item at the index that
/// `index_at_time` gives.
pub fn object_at_time<'a, T: HasStartTime>(list: &'a [T], time: Time) -> (r: Option<&'a T>)
    ensures
        match r {
            None => active_index_spec(list@, time) is None,
            Some(x) => active_index_spec(list@, time) matches Some(i) && *x == list@[i],
        },
        r is None ==> none_active(list@, time),
        r matches Some(x) ==> exists|i: int| is_active_index(list@, time, i) && *x == list@[i],
        sorted_by_start_time(list@) ==> (r is None <==> none_active(list@, time)),
{
    match index_at_time(list, time) {
        Some(i) => Some(&list[i]),
        None => None,
    }
}

/// `p` lists, for each position, the position it came from: a rearrangement of `0..n`.
pub open spec fn is_rearrangement(p: Seq<int>, n: nat) -> bool {
    &&& p.len() == n
    &&& forall|k: int| 0 <= k < n ==> 0 <= #[trigger] p[k] < n
    &&& forall|k1: int, k2: int| 0 <= k1 < k2 < n ==> #[trigger] p[k1] != #[trigger] p[k2]
}

/// `after` holds the items of `before`, the one at position `k` taken from position
/// `p[k]`, and items with equal start times keep their order.
pub open spec fn is_stable_reordering<T: HasStartTime>(before: Seq<T>, after: Seq<T>, p: Seq<int>) -> bool {
    &&& after.len() == before.len()
    &&& is_rearrangement(p, before.len())
    &&& forall|k: int| 0 <= k < after.len() ==> #[trigger] after[k] == before[p[k]]
    &&& forall|k1: int, k2: int|
        0 <= k1 < k2 < after.len() && #[trigger] key_at(after, k1) == #[trigger] key_at(after, k2)
            ==> p[k1] < p[k2]
}

/// Exchanges two items of a slice.
#[verifier::external_body]
fn swap_items<T>(items: &mut [T], a: usize, b: usize)
    requires
        a < old(items)@.len(),
        b < old(items)@.len(),
    ensures
        final(items)@ == old(items)@.update(a as int, old(items)@[b as int]).update(
            b as int,
            old(items)@[a as int],
        ),
{
    items.swap(a, b);
}

/// Sorts items by their start time; items that start together keep their order.
pub fn sort_by_start_time<T: HasStartTime>(items: &mut [T])
    ensures
        sorted_by_start_time(final(items)@),
        exists|p: Seq<int>| is_stable_reordering(old(items)@, final(items)@, p),
{
    let n = items.len();
    let ghost before = items@;
    let ghost mut p: Seq<int> = Seq::new(n as nat, |k: int| k);
    assert(is_stable_reordering(before, items@, p));
    let mut i: usize = 1;
    while i < n
        invariant
            n == items@.len(),
            before.len() == n,
            1 <= i || n == 0,
            i <= n || n == 0,
            is_stable_reordering(before, items@, p),
            forall|a: int, b: int|
                0 <= a <= b < i ==> #[trigger] key_at(items@, a) <= #[trigger] key_at(items@, b),
        decreases n - i,
    {
        let mut j: usize = i;
        while j > 0 && items[j - 1].start_time() > items[j].start_time()
            invariant
                n == items@.len(),
                before.len() == n,
                j <= i < n,
                is_stable_reordering(before, items@, p),
                forall|a: int, b: int|
                    0 <= a <= b < j ==> #[trigger] key_at(items@, a) <= #[trigger] key_at(items@, b),
                forall|a: int, b: int|
                    j < a <= b <= i ==> #[trigger] key_at(items@, a) <= #[trigger] key_at(items@, b),
                forall|a: int, b: int|
                    0 <= a < j < b <= i ==> #[trigger] key_at(items@, a) <= #[trigger] key_at(items@, b),
                forall|b: int| j < b <= i ==> key_at(items@, j as int) < #[trigger] key_at(items@, b),
            decreases j,
        {
            let ghost prev = items@;
            let ghost prev_p = p;
            swap_items(items, j - 1, j);
            proof {
                p = prev_p.update(j - 1, prev_p[j as int]).update(j as int, prev_p[j - 1]);
                assert forall|k: int| 0 <= k < n implies #[trigger] items@[k] == before[p[k]] by {
                    if k == j - 1 {
                        assert(items@[k] == prev[j as int]);
                    } else if k == j {
                        assert(items@[k] == prev[j - 1]);
                    } else {
                        assert(items@[k] == prev[k]);
                    }
                }
                assert forall|k1: int, k2: int|
                    0 <= k1 < k2 < n && #[trigger] key_at(items@, k1) == #[trigger] key_at(items@, k2)
                        implies p[k1] < p[k2] by {
                    let o1 = if k1 == j - 1 { j as int } else if k1 == j { j - 1 } else { k1 };
                    let o2 = if k2 == j - 1 { j as int } else if k2 == j { j - 1 } else { k2 };
                    assert(items@[k1] == prev[o1]);
                    assert(items@[k2] == prev[o2]);
                    assert(key_at(prev, o1) == key_at(items@, k1));
                    assert(key_at(prev, o2) == key_at(items@, k2));
                    if o1 < o2 {
                        assert(prev_p[o1] < prev_p[o2]);
                    } else {
                        assert(o1 == j && o2 == j - 1);
                    }
                }
                assert forall|k1: int, k2: int| 0 <= k1 < k2 < n implies #[trigger] p[k1] != #[trigger] p[k2] by {
                    let o1 = if k1 == j - 1 { j as int } else if k1 == j { j - 1 } else { k1 };
                    let o2 = if k2 == j - 1 { j as int } else if k2 == j { j - 1 } else { k2 };
                    assert(p[k1] == prev_p[o1]);
                    assert(p[k2] == prev_p[o2]);
                    if o1 < o2 {
                        assert(prev_p[o1] != prev_p[o2]);
                    } else {
                        assert(prev_p[o2] != prev_p[o1]);
                    }
                }
                assert forall|k: int| 0 <= k < n implies 0 <= #[trigger] p[k] < n by {
                    let o = if k == j - 1 { j as int } else if k == j { j - 1 } else { k };
                    assert(p[k] == prev_p[o]);
                }
                assert forall|a: int, b: int|
                    0 <= a <= b < j - 1 implies #[trigger] key_at(items@, a) <= #[trigger] key_at(items@, b) by {
                    assert(key_at(items@, a) == key_at(prev, a));
                    assert(key_at(items@, b) == key_at(prev, b));
                }
                assert forall|a: int, b: int|
                    j - 1 < a <= b <= i implies #[trigger] key_at(items@, a) <= #[trigger] key_at(items@, b) by {
                    let oa = if a == j { j - 1 } else { a };
                    assert(key_at(items@, a) == key_at(prev, oa));
                    assert(key_at(items@, b) == key_at(prev, if b == j { j - 1 } else { b }));
                }
                assert forall|a: int, b: int|
                    0 <= a < j - 1 < b <= i implies #[trigger] key_at(items@, a) <= #[trigger] key_at(items@, b) by {
                    assert(key_at(items@, a) == key_at(prev, a));
                    assert(key_at(items@, b) == key_at(prev, if b == j { j - 1 } else { b }));
                    assert(key_at(prev, a) <= key_at(prev, j - 1));
                }
                assert forall|b: int| j - 1 < b <= i implies key_at(items@, j - 1) < #[trigger] key_at(items@, b) by {
                    assert(key_at(items@, j - 1) == key_at(prev, j as int));
                    assert(key_at(items@, b) == key_at(prev, if b == j { j - 1 } else { b }));
                    if b > j {
                        assert(key_at(prev, j - 1) <= key_at(prev, b));
                    }
                }
            }
            j = j - 1;
        }
        proof {
            assert forall|a: int, b: int|
                0 <= a <= b < i + 1 implies #[trigger] key_at(items@, a) <= #[trigger] key_at(items@, b) by {
                if b == j && a < j {
                    assert(key_at(items@, a) <= key_at(items@, j - 1));
                }
            }
        }
        i = i + 1;
    }
}

/// A rearrangement of `0..n` that keeps positions in increasing order moves nothing.
proof fn increasing_rearrangement_is_identity(p: Seq<int>, n: nat)
    requires
        is_rearrangement(p, n),
        forall|k1: int, k2: int| 0 <= k1 < k2 < n ==> p[k1] < p[k2],
    ensures
        forall|k: int| 0 <= k < n ==> #[trigger] p[k] == k,
{
    assert forall|k: int| 0 <= k < n implies #[trigger] p[k] == k by {
        increasing_rearrangement_at_least(p, n, k);
        increasing_rearrangement_at_most(p, n, k);
    }
}

proof fn increasing_rearrangement_at_least(p: Seq<int>, n: nat, k: int)
    requires
        is_rearrangement(p, n),
        forall|k1: int, k2: int| 0 <= k1 < k2 < n ==> p[k1] < p[k2],
        0 <= k < n,
    ensures
        p[k] >= k,
    decreases k,
{
    if k > 0 {
        increasing_rearrangement_at_least(p, n, k - 1);
        assert(p[k - 1] < p[k]);
    } else {
        assert(0 <= p[0]);
    }
}

proof fn increasing_rearrangement_at_most(p: Seq<int>, n: nat, k: int)
    requires
        is_rearrangement(p, n),
        forall|k1: int, k2: int| 0 <= k1 < k2 < n ==> p[k1] < p[k2],
        0 <= k < n,
    ensures
        p[k] <= k,
    decreases n - k,
{
    if k + 1 < n {
        increasing_rearrangement_at_most(p, n, k + 1);
        assert(p[k] < p[k + 1]);
    } else {
        assert(p[k] < n);
    }
}

/// Sorting a list that is already sorted leaves it as it was: a stable reordering of
/// a sorted list into sorted order is the list itself.
pub proof fn sorting_sorted_list_changes_nothing<T: HasStartTime>(before: Seq<T>, after: Seq<T>, p: Seq<int>)
    requires
        sorted_by_start_time(before),
        sorted_by_start_time(after),
        is_stable_reordering(before, after, p),
    ensures
        after == before,
{
    let n = before.len();
    assert forall|k1: int, k2: int| 0 <= k1 < k2 < n implies p[k1] < p[k2] by {
        if key_at(after, k1) == key_at(after, k2) {
        } else {
            assert(key_at(after, k1) <= key_at(after, k2));
            assert(after[k1] == before[p[k1]]);
            assert(after[k2] == before[p[k2]]);
            assert(key_at(after, k1) == key_at(before, p[k1]));
            assert(key_at(after, k2) == key_at(before, p[k2]));
            if p[k1] > p[k2] {
                assert(key_at(before, p[k2]) <= key_at(before, p[k1]));
            }
            assert(p[k1] != p[k2]);
        }
    }
    increasing_rearrangement_is_identity(p, n);
    assert forall|k: int| 0 <= k < n implies after[k] == before[k] by {
        assert(p[k] == k);
    }
    assert(after =~= before);
}

} // verus!
