//! Time-to-index resolver.
//!
//! Maps an arbitrary timestamp to the index of the time table entry that is
//! the latest one not exceeding it, clamped to the table bounds. This
//! realizes last-known-value semantics: a signal's value between two
//! recorded transitions equals the value at the preceding transition.

use vstd::prelude::*;

verus! {

/// The time table invariant: one timestamp per recorded simulation step,
/// in non-decreasing order.
pub open spec fn non_decreasing(t: Seq<u64>) -> bool {
    forall|i: int, j: int| 0 <= i <= j < t.len() ==> t[i] <= t[j]
}

/// The index that resolving `time` against table `t` yields: the greatest
/// index whose entry does not exceed `time`, or `0` when no entry does
/// (the earliest sample is the best available) or the table is empty.
pub open spec fn spec_resolve_index(t: Seq<u64>, time: u64) -> int
    decreases t.len(),
{
    if t.len() == 0 {
        0
    } else if t[t.len() - 1] <= time {
        t.len() - 1
    } else {
        spec_resolve_index(t.drop_last(), time)
    }
}

/// On a non-empty table, the resolved index is in bounds; its entry does
/// not exceed the queried time unless the time precedes the whole table,
/// where the resolved index is `0`; and no table entry above the resolved
/// entry stays at or under the queried time.
pub proof fn lemma_resolve_index_sound(t: Seq<u64>, time: u64)
    requires
        non_decreasing(t),
        t.len() > 0,
    ensures
        0 <= spec_resolve_index(t, time) < t.len(),
        time >= t[0] ==> t[spec_resolve_index(t, time)] <= time,
        time < t[0] ==> spec_resolve_index(t, time) == 0,
        forall|j: int|
            0 <= j < t.len() && #[trigger] t[j] <= time ==> t[j] <= t[spec_resolve_index(t, time)],
    decreases t.len(),
{
    if t[t.len() - 1] <= time {
    } else if t.len() == 1 {
    } else {
        lemma_resolve_index_sound(t.drop_last(), time);
        let r = spec_resolve_index(t, time);
        assert(r == spec_resolve_index(t.drop_last(), time));
        assert(0 <= r < t.len() - 1);
        assert(t.drop_last()[r] == t[r]);
        assert(forall|j: int|
            0 <= j < t.len() - 1 && t[j] <= time ==> t.drop_last()[j] <= time);
    }
}

/// On a strictly increasing table, resolving the timestamp stored at an
/// index yields back exactly that index.
pub proof fn lemma_resolve_index_idempotent(t: Seq<u64>, i: int)
    requires
        forall|p: int, q: int| 0 <= p < q < t.len() ==> t[p] < t[q],
        0 <= i < t.len(),
    ensures
        spec_resolve_index(t, t[i]) == i,
    decreases t.len(),
{
    if i == t.len() - 1 {
    } else {
        assert(t[t.len() - 1] > t[i]);
        lemma_resolve_index_idempotent(t.drop_last(), i);
        assert(t.drop_last()[i] == t[i]);
    }
}

/// Index of the latest time table entry at or before `time`, clamped to the
/// table bounds; `0` on an empty table.
pub fn find_nearest_time_index(table: &Vec<u64>, time: u64) -> (r: usize)
    requires
        non_decreasing(table@),
    ensures
        r == spec_resolve_index(table@, time),
        table@.len() > 0 ==> r < table@.len(),
        table@.len() > 0 && time >= table@[0] ==> table@[r as int] <= time,
        table@.len() > 0 && time < table@[0] ==> r == 0,
        forall|j: int|
            0 <= j < table@.len() && table@[j] <= time ==> table@[j] <= table@[r as int],
{
    proof {
        if table@.len() > 0 {
            lemma_resolve_index_sound(table@, time);
        }
    }
    if table.len() == 0 {
        return 0;
    }
    if table[0] > time {
        proof {
            lemma_resolve_first_exceeds(table@, time);
        }
        return 0;
    }
    let mut lo: usize = 0;
    let mut hi: usize = table.len();
    while hi - lo > 1
        invariant
            non_decreasing(table@),
            0 <= lo < hi <= table@.len(),
            table@[lo as int] <= time,
            forall|j: int| hi <= j < table@.len() ==> table@[j] > time,
        decreases hi - lo,
    {
        let mid = lo + (hi - lo) / 2;
        if table[mid] <= time {
            lo = mid;
        } else {
            hi = mid;
        }
    }
    proof {
        lemma_resolve_index_pinned(table@, time, lo as int);
    }
    lo
}

/// When the queried time precedes every entry, resolution falls to index 0.
proof fn lemma_resolve_first_exceeds(t: Seq<u64>, time: u64)
    requires
        non_decreasing(t),
        t.len() > 0,
        t[0] > time,
    ensures
        spec_resolve_index(t, time) == 0,
    decreases t.len(),
{
    assert(t[0] <= t[t.len() - 1]);
    if t.len() == 1 {
        assert(spec_resolve_index(t.drop_last(), time) == 0);
    } else {
        lemma_resolve_first_exceeds(t.drop_last(), time);
    }
}

/// Any in-bounds index whose entry is at or under the queried time, and
/// which is followed only by entries over it, is the resolved index.
proof fn lemma_resolve_index_pinned(t: Seq<u64>, time: u64, i: int)
    requires
        non_decreasing(t),
        0 <= i < t.len(),
        t[i] <= time,
        forall|j: int| i < j < t.len() ==> t[j] > time,
    ensures
        spec_resolve_index(t, time) == i,
    decreases t.len(),
{
    if i == t.len() - 1 {
    } else {
        lemma_resolve_index_pinned(t.drop_last(), time, i);
    }
}

} // verus!
